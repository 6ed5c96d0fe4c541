//! What the watcher of the library folder decides: which files it takes up,
//! and what its watchdog does when the watcher or the folder is gone.

use crate::paths::{is_hidden_file, is_in_hidden_path, source_of};
use vstd::prelude::*;

verus! {

/// What the watchdog tells the watcher.
#[derive(Debug, Clone, Copy, PartialEq, Eq, Structural)]
pub enum WatchStatus {
    /// Go on watching.
    KeepAlive,
    /// Stop watching.
    Exit,
}

/// What the watchdog does after a round of checks.
#[derive(Debug, Clone, Copy, PartialEq, Eq, Structural)]
pub struct WatchdogAction {
    /// Wait until the library folder can be had again.
    pub wait_for_folder: bool,
    /// Tell the running watcher to stop.
    pub send_exit: bool,
    /// Start a watcher in place of the one that ran.
    pub restart: bool,
}

/// Whether a text starts with a dot.
pub open spec fn dotted(name: Option<Seq<char>>) -> bool {
    match name {
        Some(n) => n.len() > 0 && n[0] == '.',
        None => false,
    }
}

/// The view of an optional text.
pub open spec fn text_view(text: Option<&str>) -> Option<Seq<char>> {
    match text {
        Some(t) => Some(t@),
        None => None,
    }
}

/// Whether the watcher takes up a file that was created or written: the file
/// is at rest, it is not hidden, and it lies in no hidden folder. `relative`
/// is the folder of the file relative to the watched folder, `file_name` its
/// name.
pub fn should_process(idle: bool, relative: Option<&str>, file_name: Option<&str>) -> (takes: bool)
    ensures
        takes == (idle && !dotted(Some(source_of(text_view(relative)))) && !dotted(
            text_view(file_name),
        )),
{
    idle && !is_in_hidden_path(relative) && !is_hidden_file(file_name)
}

/// What the watchdog does after a round of checks. A watcher that no longer
/// takes the keep-alive is replaced. A library folder that is gone is waited
/// for; the watcher is then told to stop and is replaced.
pub fn watchdog_step(keep_alive_taken: bool, folder_available: bool) -> (action: WatchdogAction)
    ensures
        action.wait_for_folder == !folder_available,
        action.send_exit == !folder_available,
        action.restart == (!keep_alive_taken || !folder_available),
{
    WatchdogAction {
        wait_for_folder: !folder_available,
        send_exit: !folder_available,
        restart: !keep_alive_taken || !folder_available,
    }
}

} // verus!
