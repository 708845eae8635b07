//! Core of a file-watching command runner: notifications for changed paths
//! are coalesced by a leading-edge debouncer, each accepted change yields a
//! map of named variables derived from the path, templates are rendered
//! against that map, an ignore filter may suppress the event, and a dispatch
//! decision says whether and how the rendered command is to be run.

pub mod assoc;
pub mod strutil;
pub mod paths;
pub mod varmap;
pub mod rules;
pub mod render;
pub mod ignore;
pub mod resolve;
pub mod dispatch;
pub mod debounce;
