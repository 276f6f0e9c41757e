use vstd::prelude::*;
use crate::format::SampleFormat;

verus! {

/// Why setting up playback was abandoned.
#[derive(Clone, Copy, Debug, PartialEq, Eq, Structural)]
pub enum SetupError {
    /// The host has no default output device.
    NoOutputDevice,
    /// The device did not report a default output configuration.
    ConfigUnavailable,
    /// The device negotiated a sample format that playback does not serve.
    UnsupportedFormat(SampleFormat),
    /// The audio subsystem refused to build the output stream.
    BuildFailed,
    /// The stream was built but could not be started.
    StartFailed,
}

/// The set-up step whose outcome an uninitialized session is waiting for.
#[derive(Clone, Copy, Debug, PartialEq, Eq, Structural)]
pub enum Stage {
    AwaitingDevice,
    AwaitingConfig,
    AwaitingStream,
    AwaitingStart,
}

/// Where a playback session stands.
///
/// A session starts uninitialized, streams once every set-up step has
/// succeeded, and is stopped when its stream handle is torn down. A set-up
/// step that fails ends the session for good.
#[derive(Clone, Copy, Debug, PartialEq, Eq, Structural)]
pub enum Lifecycle {
    Uninitialized(Stage),
    Streaming,
    Stopped,
    Failed(SetupError),
}

/// What the audio subsystem reported back to the session.
#[derive(Clone, Copy, Debug, PartialEq, Eq, Structural)]
pub enum Event {
    DeviceFound,
    DeviceMissing,
    ConfigReported(SampleFormat),
    ConfigQueryFailed,
    StreamBuilt,
    StreamBuildFailed,
    StreamStarted,
    StreamStartFailed,
    /// The live stream raised an error on its own execution context.
    StreamFault,
    /// The stream handle was torn down.
    Dropped,
}

/// What the caller is to do next.
#[derive(Clone, Copy, Debug, PartialEq, Eq, Structural)]
pub enum Action {
    ResolveDevice,
    QueryConfig,
    BuildStream,
    StartStream,
    /// Give up on the session with this error.
    Abort(SetupError),
    /// Write a diagnostic and carry on.
    Report,
    /// Nothing is asked of the caller.
    Idle,
}

impl Lifecycle {
    /// The state of a session before any set-up step has run.
    pub open spec fn initial() -> Lifecycle {
        Lifecycle::Uninitialized(Stage::AwaitingDevice)
    }

    /// A state that no event leaves.
    pub open spec fn is_terminal(self) -> bool {
        self is Stopped || self is Failed
    }

    /// The transition relation: the state that follows `self` on `event`, and
    /// the action asked of the caller. A fault of the stream is reported and
    /// changes nothing, whatever the state. Any other event that the state
    /// does not wait for changes nothing and asks for nothing.
    pub open spec fn next(self, event: Event) -> (Lifecycle, Action) {
        match (self, event) {
            (Lifecycle::Uninitialized(Stage::AwaitingDevice), Event::DeviceFound) => (
                Lifecycle::Uninitialized(Stage::AwaitingConfig),
                Action::QueryConfig,
            ),
            (Lifecycle::Uninitialized(Stage::AwaitingDevice), Event::DeviceMissing) => fail(
                SetupError::NoOutputDevice,
            ),
            (Lifecycle::Uninitialized(Stage::AwaitingConfig), Event::ConfigReported(format)) => {
                if format.supported() {
                    (Lifecycle::Uninitialized(Stage::AwaitingStream), Action::BuildStream)
                } else {
                    fail(SetupError::UnsupportedFormat(format))
                }
            },
            (Lifecycle::Uninitialized(Stage::AwaitingConfig), Event::ConfigQueryFailed) => fail(
                SetupError::ConfigUnavailable,
            ),
            (Lifecycle::Uninitialized(Stage::AwaitingStream), Event::StreamBuilt) => (
                Lifecycle::Uninitialized(Stage::AwaitingStart),
                Action::StartStream,
            ),
            (Lifecycle::Uninitialized(Stage::AwaitingStream), Event::StreamBuildFailed) => fail(
                SetupError::BuildFailed,
            ),
            (Lifecycle::Uninitialized(Stage::AwaitingStart), Event::StreamStarted) => (
                Lifecycle::Streaming,
                Action::Idle,
            ),
            (Lifecycle::Uninitialized(Stage::AwaitingStart), Event::StreamStartFailed) => fail(
                SetupError::StartFailed,
            ),
            (_, Event::StreamFault) => (self, Action::Report),
            (Lifecycle::Streaming, Event::Dropped) => (Lifecycle::Stopped, Action::Idle),
            _ => (self, Action::Idle),
        }
    }

    /// The state after `events` have arrived one after the other.
    pub open spec fn after(self, events: Seq<Event>) -> Lifecycle
        decreases events.len(),
    {
        if events.len() == 0 {
            self
        } else {
            self.after(events.drop_last()).next(events.last()).0
        }
    }

    /// Opens a session: it waits for the output device, which the caller is
    /// asked to resolve.
    pub fn begin() -> (r: (Lifecycle, Action))
        ensures
            r == (Lifecycle::initial(), Action::ResolveDevice),
    {
        (Lifecycle::Uninitialized(Stage::AwaitingDevice), Action::ResolveDevice)
    }

    /// Takes one event and returns the state that follows with the action
    /// asked of the caller.
    pub fn step(self, event: Event) -> (r: (Lifecycle, Action))
        ensures
            r == self.next(event),
    {
        if let Event::StreamFault = event {
            return (self, Action::Report);
        }
        match self {
            Lifecycle::Uninitialized(stage) => match (stage, event) {
                (Stage::AwaitingDevice, Event::DeviceFound) => (
                    Lifecycle::Uninitialized(Stage::AwaitingConfig),
                    Action::QueryConfig,
                ),
                (Stage::AwaitingDevice, Event::DeviceMissing) => abandon(
                    SetupError::NoOutputDevice,
                ),
                (Stage::AwaitingConfig, Event::ConfigReported(format)) => {
                    if format.is_supported() {
                        (Lifecycle::Uninitialized(Stage::AwaitingStream), Action::BuildStream)
                    } else {
                        abandon(SetupError::UnsupportedFormat(format))
                    }
                },
                (Stage::AwaitingConfig, Event::ConfigQueryFailed) => abandon(
                    SetupError::ConfigUnavailable,
                ),
                (Stage::AwaitingStream, Event::StreamBuilt) => (
                    Lifecycle::Uninitialized(Stage::AwaitingStart),
                    Action::StartStream,
                ),
                (Stage::AwaitingStream, Event::StreamBuildFailed) => abandon(
                    SetupError::BuildFailed,
                ),
                (Stage::AwaitingStart, Event::StreamStarted) => (Lifecycle::Streaming, Action::Idle),
                (Stage::AwaitingStart, Event::StreamStartFailed) => abandon(
                    SetupError::StartFailed,
                ),
                _ => (self, Action::Idle),
            },
            Lifecycle::Streaming => match event {
                Event::Dropped => (Lifecycle::Stopped, Action::Idle),
                _ => (self, Action::Idle),
            },
            _ => (self, Action::Idle),
        }
    }

    /// Whether samples are being delivered to the device.
    pub fn is_streaming(self) -> (r: bool)
        ensures
            r == (self is Streaming),
    {
        match self {
            Lifecycle::Streaming => true,
            _ => false,
        }
    }

    /// The error that ended set-up, if one did.
    pub fn failure(self) -> (r: Option<SetupError>)
        ensures
            r == (match self {
                Lifecycle::Failed(e) => Some(e),
                _ => None,
            }),
    {
        match self {
            Lifecycle::Failed(e) => Some(e),
            _ => None,
        }
    }
}

/// The outcome of a set-up step that failed with `error`.
pub open spec fn fail(error: SetupError) -> (Lifecycle, Action) {
    (Lifecycle::Failed(error), Action::Abort(error))
}

fn abandon(error: SetupError) -> (r: (Lifecycle, Action))
    ensures
        r == fail(error),
{
    (Lifecycle::Failed(error), Action::Abort(error))
}

/// A stopped or failed session stays as it is: no event changes its state,
/// and none makes it ask for a set-up step.
pub proof fn lemma_terminal_is_final(state: Lifecycle, event: Event)
    requires
        state.is_terminal(),
    ensures
        state.next(event).0 == state,
        state.next(event).1 == (if event is StreamFault {
            Action::Report
        } else {
            Action::Idle
        }),
{
}

/// Streaming starts in one way only, by the stream's start succeeding once it
/// has been built, and ends in one way only, by teardown.
pub proof fn lemma_streaming_entry_and_exit(state: Lifecycle, event: Event)
    ensures
        state.next(event).0 is Streaming <==> (state == Lifecycle::Uninitialized(
            Stage::AwaitingStart,
        ) && event is StreamStarted) || (state is Streaming && !(event is Dropped)),
        state.next(event).0 is Stopped <==> state is Stopped || (state is Streaming
            && event is Dropped),
{
}

/// Set-up is abandoned exactly when a session that had not failed fails, and
/// the error handed to the caller is the one the session keeps.
pub proof fn lemma_abort_marks_failure(state: Lifecycle, event: Event)
    ensures
        state.next(event).1 is Abort <==> !(state is Failed) && state.next(event).0 is Failed,
        forall|error: SetupError|
            state.next(event).1 == Action::Abort(error) ==> state.next(event).0
                == Lifecycle::Failed(error),
{
}

/// A session that has stopped or failed is still so after any further events.
pub proof fn lemma_terminal_lasts(state: Lifecycle, events: Seq<Event>)
    requires
        state.is_terminal(),
    ensures
        state.after(events) == state,
    decreases events.len(),
{
    if events.len() > 0 {
        lemma_terminal_lasts(state, events.drop_last());
    }
}

/// Events that arrive one after the other may be taken in two runs.
pub proof fn lemma_after_concat(state: Lifecycle, first: Seq<Event>, second: Seq<Event>)
    ensures
        state.after(first + second) == state.after(first).after(second),
    decreases second.len(),
{
    if second.len() == 0 {
        assert(first + second =~= first);
    } else {
        lemma_after_concat(state, first, second.drop_last());
        assert((first + second).drop_last() =~= first + second.drop_last());
        assert((first + second).last() == second.last());
    }
}

/// Without an output device nothing ever plays: a new session whose first
/// event is that the device is missing has failed for want of a device, and is
/// in that state after whatever events follow.
pub proof fn lemma_missing_device_is_fatal(rest: Seq<Event>)
    ensures
        Lifecycle::initial().after(seq![Event::DeviceMissing] + rest) == Lifecycle::Failed(
            SetupError::NoOutputDevice,
        ),
{
    let first = seq![Event::DeviceMissing];
    assert(Lifecycle::initial().after(first.drop_last()) == Lifecycle::initial());
    lemma_after_concat(Lifecycle::initial(), first, rest);
    lemma_terminal_lasts(Lifecycle::Failed(SetupError::NoOutputDevice), rest);
}

/// Whether a session in this state has had its sample format accepted.
pub open spec fn past_negotiation(state: Lifecycle) -> bool {
    state == Lifecycle::Uninitialized(Stage::AwaitingStream) || state == Lifecycle::Uninitialized(
        Stage::AwaitingStart,
    ) || state is Streaming || state is Stopped
}

/// Only the supported sample format leads to a stream: a new session that has
/// got as far as building its stream, or further, was told at some point that
/// the device takes 32-bit floating point samples.
pub proof fn lemma_stream_needs_supported_format(events: Seq<Event>)
    requires
        past_negotiation(Lifecycle::initial().after(events)),
    ensures
        exists|i: int|
            0 <= i < events.len() && #[trigger] events[i] == Event::ConfigReported(
                SampleFormat::F32,
            ),
    decreases events.len(),
{
    if events.len() > 0 {
        let earlier = events.drop_last();
        let before = Lifecycle::initial().after(earlier);
        if past_negotiation(before) {
            lemma_stream_needs_supported_format(earlier);
            let i = choose|i: int|
                0 <= i < earlier.len() && #[trigger] earlier[i] == Event::ConfigReported(
                    SampleFormat::F32,
                );
            assert(events[i] == earlier[i]);
        } else {
            assert(events[events.len() - 1] == Event::ConfigReported(SampleFormat::F32));
        }
    }
}

} // verus!
