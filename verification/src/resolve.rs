//! Variable resolution: the built-in variables derived from a changed path
//! and the working directory by pure path arithmetic, the choice of an
//! auxiliary variables-command, and the folding of that command's `key:
//! value` output lines back into the variable map.

use crate::assoc::{fold_pairs, lemma_fold_pairs_contains};
use crate::paths::{
    dir_of, extension_of, file_name_of, file_stem_of, rel_path, rel_path_of, spec_dir,
    spec_extension, spec_file_name, spec_file_stem,
};
use crate::render::{render_template, rendered};
use crate::rules::{RuleTable, RuleTemplates};
use crate::strutil::{find_char, spec_trim, strs_view, trim_blanks};
use crate::varmap::VariableMap;
use vstd::prelude::*;

verus! {

/// The built-in variables of a change event, in insertion order: the
/// components of `path`, the working directory, and the paths relative to
/// it. `rname` is the relative directory, a separator and the file name.
pub open spec fn builtin_pairs(p: Seq<char>, pwd: Seq<char>) -> Seq<(Seq<char>, Seq<char>)>
    recommends
        rel_path_of(p, pwd) is Some,
        rel_path_of(spec_dir(p), pwd) is Some,
{
    let rpath = rel_path_of(p, pwd).unwrap();
    let rdir = rel_path_of(spec_dir(p), pwd).unwrap();
    seq![
        ("name"@, spec_file_stem(p)),
        ("ext"@, spec_extension(p)),
        ("name.ext"@, spec_file_name(p)),
        ("pwd"@, pwd),
        ("path"@, p),
        ("rpath"@, rpath),
        ("dir"@, spec_dir(p)),
        ("rdir"@, rdir),
        ("rname"@, rdir + seq!['/'] + spec_file_name(p)),
    ]
}

/// Builds the built-in variable map for a change of `path` seen from `pwd`;
/// `None` when no relative path from `pwd` exists, which ends the event.
pub fn builtin_vars(path: &String, pwd: &String) -> (r: Option<VariableMap>)
    ensures
        match r {
            Some(m) => {
                &&& rel_path_of(path@, pwd@) is Some
                &&& rel_path_of(spec_dir(path@), pwd@) is Some
                &&& m.pairs_seq() == builtin_pairs(path@, pwd@)
                &&& m.map_view() == fold_pairs(builtin_pairs(path@, pwd@))
                &&& m.map_view().contains_key("ext"@)
            },
            None => rel_path_of(path@, pwd@) is None || rel_path_of(spec_dir(path@), pwd@)
                is None,
        },
{
    let dir = dir_of(path.as_str());
    let rpath = match rel_path(path.as_str(), pwd.as_str()) {
        Some(s) => s,
        None => {
            return None;
        },
    };
    let rdir = match rel_path(dir.as_str(), pwd.as_str()) {
        Some(s) => s,
        None => {
            return None;
        },
    };
    let name_ext = file_name_of(path.as_str());
    let mut rname = rdir.clone();
    rname.append("/");
    rname.append(name_ext.as_str());
    proof {
        reveal_strlit("/");
        assert("/"@ =~= seq!['/']);
    }
    let mut m = VariableMap::new();
    m.insert("name".to_owned(), file_stem_of(path.as_str()));
    m.insert("ext".to_owned(), extension_of(path.as_str()));
    m.insert("name.ext".to_owned(), name_ext);
    m.insert("pwd".to_owned(), pwd.clone());
    m.insert("path".to_owned(), path.clone());
    m.insert("rpath".to_owned(), rpath);
    m.insert("dir".to_owned(), dir);
    m.insert("rdir".to_owned(), rdir);
    m.insert("rname".to_owned(), rname);
    proof {
        assert(m.pairs_seq() =~= builtin_pairs(path@, pwd@));
        lemma_fold_pairs_contains(m.pairs_seq(), "ext"@);
        assert(m.pairs_seq()[1].0 == "ext"@);
    }
    Some(m)
}

/// The variables-command to run for an event: the explicit one when given,
/// else the one configured for the event's extension, else none.
pub open spec fn spec_choose_var_command(
    explicit: Option<Seq<char>>,
    table: Map<Seq<char>, RuleTemplates>,
    ext: Seq<char>,
) -> Option<Seq<char>> {
    if explicit is Some {
        explicit
    } else if table.contains_key(ext) && table[ext].1 is Some {
        table[ext].1
    } else {
        None
    }
}

/// Chooses the variables-command template for an event.
pub fn choose_var_command(explicit: &Option<String>, table: &RuleTable, ext: &String) -> (r: Option<
    String,
>)
    ensures
        r.deep_view() == spec_choose_var_command(explicit.deep_view(), table.map_view(), ext@),
{
    if let Some(c) = explicit {
        return Some(c.clone());
    }
    match table.lookup(ext) {
        Some(p) => match &p.1 {
            Some(t) => Some(t.clone()),
            None => None,
        },
        None => None,
    }
}

/// The command line to spawn for gathering extra variables: the chosen
/// variables-command template, rendered against the built-in variables; none
/// when no template is chosen.
pub open spec fn spec_variables_command_line(
    explicit: Option<Seq<char>>,
    table: Map<Seq<char>, RuleTemplates>,
    vars: Map<Seq<char>, Seq<char>>,
) -> Option<Seq<char>>
    recommends
        vars.contains_key("ext"@),
{
    match spec_choose_var_command(explicit, table, vars["ext"@]) {
        Some(t) => Some(rendered(t, vars)),
        None => None,
    }
}

/// Renders the command line of the chosen variables-command, if any.
pub fn variables_command_line(
    explicit: &Option<String>,
    table: &RuleTable,
    vars: &VariableMap,
) -> (r: Option<String>)
    requires
        vars.map_view().contains_key("ext"@),
    ensures
        r.deep_view() == spec_variables_command_line(
            explicit.deep_view(),
            table.map_view(),
            vars.map_view(),
        ),
{
    let key: String = "ext".to_owned();
    let ext: String = match vars.get(&key) {
        Some(e) => e.clone(),
        None => {
            proof {
                assert(false);
            }
            String::new()
        },
    };
    match choose_var_command(explicit, table, &ext) {
        Some(t) => Some(render_template(&t, vars)),
        None => None,
    }
}

/// One output line of a variables-command: split on the first colon, both
/// sides trimmed; a line without a colon carries nothing.
pub open spec fn spec_parse_line(s: Seq<char>) -> Option<(Seq<char>, Seq<char>)> {
    match s.index_of_first(':') {
        Some(i) => Some(
            (spec_trim(s.subrange(0, i)), spec_trim(s.subrange(i + 1, s.len() as int))),
        ),
        None => None,
    }
}

/// Parses one `key: value` output line; `None` for a line without a colon.
pub fn parse_var_line(line: &str) -> (r: Option<(String, String)>)
    ensures
        match r {
            Some(kv) => spec_parse_line(line@) == Some((kv.0@, kv.1@)),
            None => spec_parse_line(line@) is None,
        },
{
    proof {
        line@.index_of_first_ensures(':');
    }
    match find_char(line, ':') {
        Some(i) => {
            let n = line.unicode_len();
            let k = trim_blanks(line.substring_char(0, i));
            let v = trim_blanks(line.substring_char(i + 1, n));
            Some((k, v))
        },
        None => None,
    }
}

/// The variable map after folding in a variables-command's output lines, in
/// order: each well-formed line inserts or overwrites its key, every other
/// line is ignored.
pub open spec fn spec_apply_lines(
    m: Map<Seq<char>, Seq<char>>,
    lines: Seq<Seq<char>>,
) -> Map<Seq<char>, Seq<char>>
    decreases lines.len(),
{
    if lines.len() == 0 {
        m
    } else {
        let prev = spec_apply_lines(m, lines.drop_last());
        match spec_parse_line(lines.last()) {
            Some(kv) => prev.insert(kv.0, kv.1),
            None => prev,
        }
    }
}

/// Folds the output lines of a variables-command into the variable map; a
/// later line for the same key wins, also over a built-in key.
pub fn apply_var_lines(map: &mut VariableMap, lines: &Vec<String>)
    ensures
        final(map).map_view() == spec_apply_lines(old(map).map_view(), strs_view(lines@)),
{
    let mut i: usize = 0;
    proof {
        assert(strs_view(lines@).take(0) =~= Seq::<Seq<char>>::empty());
    }
    while i < lines.len()
        invariant
            i <= lines@.len(),
            map.map_view() == spec_apply_lines(
                old(map).map_view(),
                strs_view(lines@).take(i as int),
            ),
        decreases lines@.len() - i,
    {
        match parse_var_line(lines[i].as_str()) {
            Some(kv) => {
                map.insert(kv.0, kv.1);
            },
            None => {},
        }
        proof {
            assert(strs_view(lines@).take(i + 1).drop_last() =~= strs_view(lines@).take(i as int));
            assert(strs_view(lines@).take(i + 1).last() == strs_view(lines@)[i as int]);
        }
        i += 1;
    }
    proof {
        assert(strs_view(lines@).take(lines@.len() as int) =~= strs_view(lines@));
    }
}

} // verus!
