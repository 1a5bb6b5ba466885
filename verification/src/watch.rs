//! The decision rule of the watch loop: what to do with each notification
//! delivered by the file-system watch subsystem.

use vstd::prelude::*;

verus! {

/// One delivery from the watch subsystem: a file-system change notification
/// of any kind (create, modify, delete, rename), or an internal error of the
/// subsystem itself.
#[derive(Clone, Copy, Debug, PartialEq, Eq, Structural)]
pub enum WatchEvent {
    Changed,
    SubsystemError,
}

/// What the loop does next: run one full regeneration, or log the error and
/// keep waiting.  The loop itself never stops on its own.
#[derive(Clone, Copy, Debug, PartialEq, Eq, Structural)]
pub enum WatchAction {
    Regenerate,
    LogAndContinue,
}

/// Every change notification, whatever its kind, triggers exactly one full
/// regeneration; a subsystem error is logged and the loop keeps waiting.
pub fn respond(event: WatchEvent) -> (action: WatchAction)
    ensures
        action == (match event {
            WatchEvent::Changed => WatchAction::Regenerate,
            WatchEvent::SubsystemError => WatchAction::LogAndContinue,
        }),
{
    match event {
        WatchEvent::Changed => WatchAction::Regenerate,
        WatchEvent::SubsystemError => WatchAction::LogAndContinue,
    }
}

} // verus!
