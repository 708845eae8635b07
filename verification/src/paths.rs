//! Lexical path arithmetic on `/`-separated path strings: the final
//! component, its stem and extension, the parent directory, making a path
//! absolute against a working directory, and the relative path between two
//! paths. Everything is computed from the characters alone; the filesystem is
//! never consulted.

use crate::strutil::rfind_char;
use vstd::prelude::*;

verus! {

/// The final component of a path: everything after the last separator, or
/// the whole path when it has none.
pub open spec fn spec_file_name(p: Seq<char>) -> Seq<char> {
    match p.index_of_last('/') {
        Some(i) => p.subrange(i + 1, p.len() as int),
        None => p,
    }
}

/// The parent directory of a path: everything before the last separator;
/// `/` itself when the last separator leads the path, and empty when the
/// path has no separator.
pub open spec fn spec_dir(p: Seq<char>) -> Seq<char> {
    match p.index_of_last('/') {
        Some(i) => if i == 0 {
            seq!['/']
        } else {
            p.subrange(0, i)
        },
        None => Seq::empty(),
    }
}

/// The stem of a path's final component: everything before the last dot,
/// except that a dot leading the component starts no extension.
pub open spec fn spec_file_stem(p: Seq<char>) -> Seq<char> {
    let name = spec_file_name(p);
    match name.index_of_last('.') {
        Some(i) => if i == 0 {
            name
        } else {
            name.subrange(0, i)
        },
        None => name,
    }
}

/// The extension of a path's final component: everything after the last dot,
/// empty when the component has no dot or only a leading one.
pub open spec fn spec_extension(p: Seq<char>) -> Seq<char> {
    let name = spec_file_name(p);
    match name.index_of_last('.') {
        Some(i) => if i == 0 {
            Seq::empty()
        } else {
            name.subrange(i + 1, name.len() as int)
        },
        None => Seq::empty(),
    }
}

/// A path made absolute against a working directory: an absolute path stands,
/// any other is appended to the directory behind a separator.
pub open spec fn spec_absolutize(p: Seq<char>, pwd: Seq<char>) -> Seq<char> {
    if p.len() > 0 && p[0] == '/' {
        p
    } else if pwd.len() > 0 && pwd.last() == '/' {
        pwd + p
    } else {
        pwd + seq!['/'] + p
    }
}

/// The relative path from `base` to `path`, where one exists.
pub uninterp spec fn rel_path_of(path: Seq<char>, base: Seq<char>) -> Option<Seq<char>>;

/// Relies on pathdiff::diff_paths: the relative path from `base` to `path`,
/// computed lexically from the two strings alone with no filesystem access;
/// `None` when no such path exists (a relative `path` against an absolute
/// `base`, or a diverging `base` with a parent component).
#[verifier::external_body]
pub(crate) fn rel_path(path: &str, base: &str) -> (r: Option<String>)
    ensures
        match r {
            Some(p) => rel_path_of(path@, base@) == Some(p@),
            None => rel_path_of(path@, base@) is None,
        },
{
    pathdiff::diff_paths(path, base).map(|p| p.to_string_lossy().into_owned())
}

/// The final component of `path`.
pub fn file_name_of(path: &str) -> (r: String)
    ensures
        r@ == spec_file_name(path@),
{
    let n = path.unicode_len();
    proof {
        path@.index_of_last_ensures('/');
    }
    match rfind_char(path, '/') {
        Some(i) => path.substring_char(i + 1, n).to_owned(),
        None => path.to_owned(),
    }
}

/// The parent directory of `path`.
pub fn dir_of(path: &str) -> (r: String)
    ensures
        r@ == spec_dir(path@),
{
    proof {
        path@.index_of_last_ensures('/');
    }
    match rfind_char(path, '/') {
        Some(i) => {
            if i == 0 {
                let r = "/".to_owned();
                proof {
                    reveal_strlit("/");
                    assert(r@ =~= seq!['/']);
                }
                r
            } else {
                path.substring_char(0, i).to_owned()
            }
        },
        None => String::new(),
    }
}

/// The stem of the final component of `path`.
pub fn file_stem_of(path: &str) -> (r: String)
    ensures
        r@ == spec_file_stem(path@),
{
    let name = file_name_of(path);
    proof {
        name@.index_of_last_ensures('.');
    }
    match rfind_char(name.as_str(), '.') {
        Some(i) => {
            if i == 0 {
                name
            } else {
                name.as_str().substring_char(0, i).to_owned()
            }
        },
        None => name,
    }
}

/// The extension of the final component of `path`.
pub fn extension_of(path: &str) -> (r: String)
    ensures
        r@ == spec_extension(path@),
{
    let name = file_name_of(path);
    let n = name.as_str().unicode_len();
    proof {
        name@.index_of_last_ensures('.');
    }
    match rfind_char(name.as_str(), '.') {
        Some(i) => {
            if i == 0 {
                String::new()
            } else {
                name.as_str().substring_char(i + 1, n).to_owned()
            }
        },
        None => String::new(),
    }
}

/// Makes `path` absolute against the working directory `pwd`.
pub fn absolutize(path: &String, pwd: &String) -> (r: String)
    ensures
        r@ == spec_absolutize(path@, pwd@),
{
    let n = path.as_str().unicode_len();
    if n > 0 && path.as_str().get_char(0) == '/' {
        return path.clone();
    }
    let m = pwd.as_str().unicode_len();
    if m > 0 && pwd.as_str().get_char(m - 1) == '/' {
        pwd.clone().concat(path.as_str())
    } else {
        let r = pwd.clone().concat("/").concat(path.as_str());
        proof {
            reveal_strlit("/");
            assert("/"@ =~= seq!['/']);
        }
        r
    }
}

} // verus!
