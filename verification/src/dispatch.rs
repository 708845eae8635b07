//! The dispatch decision of an event: whether the rendered command is to be
//! run at all, after what delay, and whether it runs detached from the main
//! loop. An empty command is a no-op, and render-only mode shows the command
//! without ever running it; neither is a failure.

use crate::ignore::{should_ignore, spec_ignored};
use crate::render::{
    render_command, render_message, spec_render_command, spec_render_message,
};
use crate::rules::RuleTable;
use crate::strutil::strs_view;
use crate::varmap::VariableMap;
use vstd::prelude::*;

verus! {

/// How an event's command is to be dispatched.
pub struct DispatchDecision {
    /// Whether a shell is to be spawned at all.
    pub run: bool,
    /// The rendered command line; empty means no action.
    pub command: String,
    /// How long to wait before the command runs, in the caller's time unit.
    pub delay: u64,
    /// Whether the wait-and-run sequence leaves the main loop behind.
    pub detach: bool,
}

/// A command is run exactly when it is non-empty and render-only mode is
/// off.
pub open spec fn spec_should_run(command: Seq<char>, render_only: bool) -> bool {
    command.len() > 0 && !render_only
}

/// Decides how a rendered command is dispatched: an empty command runs
/// nothing, render-only mode runs nothing, anything else runs with the given
/// delay and detachment.
pub fn decide_dispatch(command: String, render_only: bool, detach: bool, delay: u64) -> (d:
    DispatchDecision)
    ensures
        d.command == command,
        d.delay == delay,
        d.detach == detach,
        d.run == spec_should_run(command@, render_only),
{
    let run = !command.as_str().is_empty() && !render_only;
    DispatchDecision { run, command, delay, detach }
}

/// What is to happen for one event: nothing at all when an ignore pattern
/// matched, else a message to show and a dispatch decision.
pub enum EventPlan {
    /// An ignore pattern matched: no message, no command.
    Suppressed,
    /// The event goes ahead.
    Act { message: Option<String>, decision: DispatchDecision },
}

/// Plans one event from its already-rendered message and command: an ignore
/// match suppresses everything, else the command is dispatched as decided by
/// `decide_dispatch`.
pub fn plan_event(
    ignore_patterns: &Vec<String>,
    path: &String,
    message: Option<String>,
    command: String,
    render_only: bool,
    detach: bool,
    delay: u64,
) -> (p: EventPlan)
    ensures
        (p is Suppressed) == spec_ignored(strs_view(ignore_patterns@), path@),
        p matches EventPlan::Act { message: m, decision: d } ==> {
            &&& m == message
            &&& d.command == command
            &&& d.delay == delay
            &&& d.detach == detach
            &&& d.run == spec_should_run(command@, render_only)
        },
{
    if should_ignore(ignore_patterns, path) {
        return EventPlan::Suppressed;
    }
    EventPlan::Act { message, decision: decide_dispatch(command, render_only, detach, delay) }
}

/// Plans one event from the templates: renders the message and the command
/// against the variable map, then plans as `plan_event` does.
pub fn plan_change(
    message_templ: &Option<String>,
    command_override: &Option<String>,
    table: &RuleTable,
    vars: &VariableMap,
    ignore_patterns: &Vec<String>,
    path: &String,
    render_only: bool,
    detach: bool,
    delay: u64,
) -> (p: EventPlan)
    requires
        vars.map_view().contains_key("ext"@),
    ensures
        (p is Suppressed) == spec_ignored(strs_view(ignore_patterns@), path@),
        p matches EventPlan::Act { message: m, decision: d } ==> {
            &&& m.deep_view() == spec_render_message(message_templ.deep_view(), vars.map_view())
            &&& d.command@ == spec_render_command(
                command_override.deep_view(),
                table.map_view(),
                vars.map_view(),
            )
            &&& d.delay == delay
            &&& d.detach == detach
            &&& d.run == spec_should_run(d.command@, render_only)
        },
{
    let msg = render_message(message_templ, vars);
    let cmd = render_command(command_override, table, vars);
    plan_event(ignore_patterns, path, msg, cmd, render_only, detach, delay)
}

} // verus!
