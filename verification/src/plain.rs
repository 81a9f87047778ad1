//! Which way the bytes of a relay take: through the kernel, or through this
//! process.

use vstd::prelude::*;

use crate::handshake::MODE_PLAIN;

verus! {

/// What the caller has to do.
#[derive(Debug, Clone, Copy, PartialEq, Eq, Structural)]
pub enum RelayAction {
    /// Copy through the kernel, without bringing the bytes into this process.
    ZeroCopy,
    /// Copy through this process, with the handshake of the mode in front.
    Copy,
    /// Stop: all is copied.
    Finish,
    /// Stop with the error that was met.
    Fail,
}

/// What came of copying.
#[derive(Debug, Clone, Copy, PartialEq, Eq, Structural)]
pub enum RelayEvent {
    /// All is copied.
    Copied,
    /// The kernel does not take these streams: the input is invalid.
    InvalidInput,
    /// Another error.
    Failed,
}

/// Begins a relay in the given mode.
///
/// With obfuscation every byte has to pass through this process, where it is
/// masked, so the kernel is never asked. Without, the kernel comes first wherever
/// it can copy by itself.
pub fn run_relay(mode: u8, zero_copy: bool) -> (action: RelayAction)
    ensures
        action == (if mode == MODE_PLAIN && zero_copy {
            RelayAction::ZeroCopy
        } else {
            RelayAction::Copy
        }),
{
    if mode == MODE_PLAIN && zero_copy {
        RelayAction::ZeroCopy
    } else {
        RelayAction::Copy
    }
}

impl RelayAction {
    /// What follows where this action came to `event`: where the kernel does not
    /// take the streams, the copy goes through this process after all.
    pub open spec fn spec_next(self, event: RelayEvent) -> RelayAction {
        match event {
            RelayEvent::Copied => RelayAction::Finish,
            RelayEvent::InvalidInput if self is ZeroCopy => RelayAction::Copy,
            _ => RelayAction::Fail,
        }
    }

    /// What follows where this action came to `event`.
    pub fn next(self, event: RelayEvent) -> (action: RelayAction)
        ensures
            action == self.spec_next(event),
    {
        match event {
            RelayEvent::Copied => RelayAction::Finish,
            RelayEvent::InvalidInput => match self {
                RelayAction::ZeroCopy => RelayAction::Copy,
                _ => RelayAction::Fail,
            },
            RelayEvent::Failed => RelayAction::Fail,
        }
    }
}

/// A relay goes through this process at most once, so its handshake is made at
/// most once: whatever follows a copy through this process is the end.
pub proof fn copy_is_never_repeated(event: RelayEvent)
    ensures
        RelayAction::Copy.spec_next(event) is Finish || RelayAction::Copy.spec_next(event) is Fail,
{
}

/// A relay finishes exactly where all is copied; it goes through this process exactly
/// where the kernel did not take the streams; and it fails in every other event.
pub proof fn only_refused_streams_fall_back(action: RelayAction, event: RelayEvent)
    ensures
        action.spec_next(event) is Finish <==> event is Copied,
        action.spec_next(event) is Copy <==> event is InvalidInput && action is ZeroCopy,
        action.spec_next(event) is Fail <==> event is Failed || (event is InvalidInput && !(
        action is ZeroCopy)),
{
}

} // verus!
