//! The extension rule table: built once from configuration, it maps a file
//! extension to an optional command template and an optional
//! variables-command template. Each configured rule names its extensions in
//! one space-separated string; a later rule silently overwrites an earlier
//! one for a colliding extension.

use crate::assoc::{fold_pairs, lemma_fold_pairs_is_lookup, lookup_last};
use crate::strutil::{split_at_char, split_char, strs_view};
use vstd::prelude::*;

verus! {

/// One rule as configuration states it: a space-separated extension list,
/// an optional command template and an optional variables-command template.
pub struct RuleConfig {
    pub name: String,
    pub extensions: String,
    pub command: Option<String>,
    pub variables_command: Option<String>,
}

/// What the table holds for one extension.
pub type RuleTemplates = (Option<Seq<char>>, Option<Seq<char>>);

/// The templates of one rule, as character sequences.
pub open spec fn rule_templates_of(c: RuleConfig) -> RuleTemplates {
    (c.command.deep_view(), c.variables_command.deep_view())
}

/// Binds every extension token to `rule`, in token order; a later token wins.
pub open spec fn add_rule_tokens(
    m: Map<Seq<char>, RuleTemplates>,
    tokens: Seq<Seq<char>>,
    rule: RuleTemplates,
) -> Map<Seq<char>, RuleTemplates>
    decreases tokens.len(),
{
    if tokens.len() == 0 {
        m
    } else {
        add_rule_tokens(m, tokens.drop_last(), rule).insert(tokens.last(), rule)
    }
}

/// The flat extension map a configuration denotes: rules in order, each
/// binding every token of its extension list; the last write wins.
pub open spec fn table_of(configs: Seq<RuleConfig>) -> Map<Seq<char>, RuleTemplates>
    decreases configs.len(),
{
    if configs.len() == 0 {
        Map::empty()
    } else {
        add_rule_tokens(
            table_of(configs.drop_last()),
            split_at_char(configs.last().extensions@, ' '),
            rule_templates_of(configs.last()),
        )
    }
}

/// Extension to templates, flat and last-write-wins.
pub struct RuleTable {
    pub(crate) entries: Vec<(String, (Option<String>, Option<String>))>,
}

impl RuleTable {
    /// The bound extensions in binding order, as character sequences.
    pub closed spec fn entries_seq(self) -> Seq<(Seq<char>, RuleTemplates)> {
        self.entries@.map_values(
            |e: (String, (Option<String>, Option<String>))|
                (e.0@, (e.1.0.deep_view(), e.1.1.deep_view())),
        )
    }

    /// The mapping the table denotes.
    pub open spec fn map_view(self) -> Map<Seq<char>, RuleTemplates> {
        fold_pairs(self.entries_seq())
    }

    /// Builds the table from configured rules, in their given order.
    pub fn build(configs: &Vec<RuleConfig>) -> (t: RuleTable)
        ensures
            t.map_view() == table_of(configs@),
    {
        let mut t = RuleTable { entries: Vec::new() };
        proof {
            assert(t.entries_seq() =~= Seq::<(Seq<char>, RuleTemplates)>::empty());
            assert(configs@.take(0) =~= Seq::<RuleConfig>::empty());
        }
        let mut ci: usize = 0;
        while ci < configs.len()
            invariant
                ci <= configs@.len(),
                t.map_view() == table_of(configs@.take(ci as int)),
            decreases configs@.len() - ci,
        {
            let tokens = split_char(configs[ci].extensions.as_str(), ' ');
            let ghost rule = rule_templates_of(configs@[ci as int]);
            let mut ti: usize = 0;
            proof {
                assert(strs_view(tokens@).take(0) =~= Seq::<Seq<char>>::empty());
            }
            while ti < tokens.len()
                invariant
                    ti <= tokens@.len(),
                    ci < configs@.len(),
                    strs_view(tokens@) == split_at_char(configs@[ci as int].extensions@, ' '),
                    rule == rule_templates_of(configs@[ci as int]),
                    t.map_view() == add_rule_tokens(
                        table_of(configs@.take(ci as int)),
                        strs_view(tokens@).take(ti as int),
                        rule,
                    ),
                decreases tokens@.len() - ti,
            {
                let cmd = match &configs[ci].command {
                    Some(s) => Some(s.clone()),
                    None => None,
                };
                let varcmd = match &configs[ci].variables_command {
                    Some(s) => Some(s.clone()),
                    None => None,
                };
                let ghost before = t.entries_seq();
                t.entries.push((tokens[ti].clone(), (cmd, varcmd)));
                proof {
                    assert(t.entries_seq() =~= before.push((tokens@[ti as int]@, rule)));
                    assert(t.entries_seq().drop_last() =~= before);
                    assert(strs_view(tokens@).take(ti + 1).drop_last() =~= strs_view(
                        tokens@,
                    ).take(ti as int));
                    assert(strs_view(tokens@).take(ti + 1).last() == strs_view(
                        tokens@,
                    )[ti as int]);
                }
                ti += 1;
            }
            proof {
                assert(strs_view(tokens@).take(tokens@.len() as int) =~= strs_view(tokens@));
                assert(configs@.take(ci + 1).drop_last() =~= configs@.take(ci as int));
                assert(configs@.take(ci + 1).last() == configs@[ci as int]);
            }
            ci += 1;
        }
        proof {
            assert(configs@.take(configs@.len() as int) =~= configs@);
        }
        t
    }

    /// The templates bound to `ext`, if any rule named it.
    pub fn lookup(&self, ext: &String) -> (r: Option<&(Option<String>, Option<String>)>)
        ensures
            r is Some <==> self.map_view().contains_key(ext@),
            r matches Some(p) ==> self.map_view()[ext@] == (p.0.deep_view(), p.1.deep_view()),
    {
        let mut i: usize = self.entries.len();
        proof {
            assert(self.entries_seq().take(i as int) =~= self.entries_seq());
        }
        while i > 0
            invariant
                i <= self.entries@.len(),
                lookup_last(self.entries_seq(), ext@) == lookup_last(
                    self.entries_seq().take(i as int),
                    ext@,
                ),
            decreases i,
        {
            i -= 1;
            if self.entries[i].0 == *ext {
                proof {
                    assert(self.entries_seq().take(i + 1).last() == self.entries_seq()[i as int]);
                    lemma_fold_pairs_is_lookup(self.entries_seq(), ext@);
                }
                return Some(&self.entries[i].1);
            }
            proof {
                assert(self.entries_seq().take(i + 1).drop_last() =~= self.entries_seq().take(
                    i as int,
                ));
            }
        }
        proof {
            assert(self.entries_seq().take(0) =~= Seq::<(Seq<char>, RuleTemplates)>::empty());
            lemma_fold_pairs_is_lookup(self.entries_seq(), ext@);
        }
        None
    }
}

} // verus!
