//! Rendering of the change message and the shell command from the variable
//! map. The `{key}`-style substitution itself is delegated to an outside
//! template engine and treated as opaque; what this module pins down is which
//! template is rendered: an explicit override first, else the rule configured
//! for the event's extension, else nothing.

use crate::rules::RuleTable;
use crate::varmap::VariableMap;
use vstd::prelude::*;

verus! {

/// The text a template yields under a variable mapping.
pub uninterp spec fn rendered(templ: Seq<char>, vars: Map<Seq<char>, Seq<char>>) -> Seq<char>;

/// Relies on new_string_template's Template::new and
/// Template::render_nofail_string: every `{key}`-style placeholder of the
/// template is replaced by the mapped value; a placeholder whose key is not
/// mapped stays as a literal. The pair list is handed over as a key-value
/// mapping in which a later pair wins, so the result depends on the template
/// and `vars.map_view()` alone.
#[verifier::external_body]
pub(crate) fn render_template(templ: &String, vars: &VariableMap) -> (r: String)
    ensures
        r@ == rendered(templ@, vars.map_view()),
{
    let map: std::collections::HashMap<String, &String> = vars.pairs.iter().map(
        |p| (p.0.clone(), &p.1),
    ).collect();
    new_string_template::template::Template::new(templ.as_str()).render_nofail_string(&map)
}

/// The command to run for an event: the explicit override rendered when one
/// is given; else the command template of the rule bound to the event's
/// `ext` variable, rendered; else empty, meaning no action.
pub open spec fn spec_render_command(
    override_templ: Option<Seq<char>>,
    table: Map<Seq<char>, (Option<Seq<char>>, Option<Seq<char>>)>,
    vars: Map<Seq<char>, Seq<char>>,
) -> Seq<char>
    recommends
        vars.contains_key("ext"@),
{
    if override_templ is Some {
        rendered(override_templ.unwrap(), vars)
    } else {
        let ext = vars["ext"@];
        if table.contains_key(ext) && table[ext].0 is Some {
            rendered(table[ext].0.unwrap(), vars)
        } else {
            Seq::empty()
        }
    }
}

/// Renders the command for an event; empty means no action.
pub fn render_command(
    override_templ: &Option<String>,
    table: &RuleTable,
    vars: &VariableMap,
) -> (r: String)
    requires
        vars.map_view().contains_key("ext"@),
    ensures
        r@ == spec_render_command(override_templ.deep_view(), table.map_view(), vars.map_view()),
{
    if let Some(t) = override_templ {
        return render_template(t, vars);
    }
    let key: String = "ext".to_owned();
    let ext: String = match vars.get(&key) {
        Some(e) => e.clone(),
        None => {
            proof {
                assert(false);
            }
            String::new()
        },
    };
    match table.lookup(&ext) {
        Some(p) => match &p.0 {
            Some(t) => render_template(t, vars),
            None => String::new(),
        },
        None => String::new(),
    }
}

/// The change message for an event: the message template rendered when one
/// is configured, else nothing to show.
pub open spec fn spec_render_message(
    templ: Option<Seq<char>>,
    vars: Map<Seq<char>, Seq<char>>,
) -> Option<Seq<char>> {
    match templ {
        Some(t) => Some(rendered(t, vars)),
        None => None,
    }
}

/// Renders the change message, when a message template is configured.
pub fn render_message(templ: &Option<String>, vars: &VariableMap) -> (r: Option<String>)
    ensures
        r.deep_view() == spec_render_message(templ.deep_view(), vars.map_view()),
{
    match templ {
        Some(t) => Some(render_template(t, vars)),
        None => None,
    }
}

} // verus!
