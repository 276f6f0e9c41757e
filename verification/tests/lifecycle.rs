use sinewave::format::SampleFormat;
use sinewave::lifecycle::{Action, Event, Lifecycle, SetupError, Stage};

const ALL_EVENTS: [Event; 11] = [
    Event::DeviceFound,
    Event::DeviceMissing,
    Event::ConfigReported(SampleFormat::F32),
    Event::ConfigReported(SampleFormat::I16),
    Event::ConfigQueryFailed,
    Event::StreamBuilt,
    Event::StreamBuildFailed,
    Event::StreamStarted,
    Event::StreamStartFailed,
    Event::StreamFault,
    Event::Dropped,
];

fn replay(events: &[Event]) -> (Lifecycle, Vec<Action>) {
    let (mut state, first) = Lifecycle::begin();
    let mut actions = vec![first];
    for event in events {
        let (next, action) = state.step(*event);
        state = next;
        actions.push(action);
    }
    (state, actions)
}

#[test]
fn a_session_begins_by_resolving_the_device() {
    assert_eq!(
        Lifecycle::begin(),
        (Lifecycle::Uninitialized(Stage::AwaitingDevice), Action::ResolveDevice)
    );
    assert!(!Lifecycle::begin().0.is_streaming());
    assert_eq!(Lifecycle::begin().0.failure(), None);
}

#[test]
fn successful_setup_reaches_streaming() {
    let (state, actions) = replay(&[
        Event::DeviceFound,
        Event::ConfigReported(SampleFormat::F32),
        Event::StreamBuilt,
        Event::StreamStarted,
    ]);
    assert_eq!(state, Lifecycle::Streaming);
    assert!(state.is_streaming());
    assert_eq!(state.failure(), None);
    assert_eq!(
        actions,
        vec![
            Action::ResolveDevice,
            Action::QueryConfig,
            Action::BuildStream,
            Action::StartStream,
            Action::Idle,
        ]
    );
}

#[test]
fn each_setup_stage_is_passed_in_turn() {
    let (s0, _) = Lifecycle::begin();
    let (s1, _) = s0.step(Event::DeviceFound);
    assert_eq!(s1, Lifecycle::Uninitialized(Stage::AwaitingConfig));
    let (s2, _) = s1.step(Event::ConfigReported(SampleFormat::F32));
    assert_eq!(s2, Lifecycle::Uninitialized(Stage::AwaitingStream));
    let (s3, _) = s2.step(Event::StreamBuilt);
    assert_eq!(s3, Lifecycle::Uninitialized(Stage::AwaitingStart));
    assert!(!s3.is_streaming());
    let (s4, _) = s3.step(Event::StreamStarted);
    assert_eq!(s4, Lifecycle::Streaming);
}

#[test]
fn missing_device_is_fatal_before_any_stream() {
    let (state, actions) = replay(&[Event::DeviceMissing]);
    assert_eq!(state, Lifecycle::Failed(SetupError::NoOutputDevice));
    assert_eq!(state.failure(), Some(SetupError::NoOutputDevice));
    assert_eq!(
        actions,
        vec![Action::ResolveDevice, Action::Abort(SetupError::NoOutputDevice)]
    );
    assert!(!actions.contains(&Action::BuildStream));
    assert!(!actions.contains(&Action::StartStream));
    assert!(!state.is_streaming());

    let (later, more) = replay(&[
        Event::DeviceMissing,
        Event::DeviceFound,
        Event::ConfigReported(SampleFormat::F32),
        Event::StreamBuilt,
        Event::StreamStarted,
    ]);
    assert_eq!(later, Lifecycle::Failed(SetupError::NoOutputDevice));
    assert!(!more.contains(&Action::BuildStream));
    assert!(!more.contains(&Action::StartStream));
}

#[test]
fn failed_config_query_is_fatal() {
    let (state, actions) = replay(&[Event::DeviceFound, Event::ConfigQueryFailed]);
    assert_eq!(state, Lifecycle::Failed(SetupError::ConfigUnavailable));
    assert_eq!(actions[2], Action::Abort(SetupError::ConfigUnavailable));
}

#[test]
fn unsupported_format_is_fatal() {
    for format in [SampleFormat::I16, SampleFormat::U16, SampleFormat::F64, SampleFormat::Unknown] {
        let (state, actions) = replay(&[Event::DeviceFound, Event::ConfigReported(format)]);
        assert_eq!(state, Lifecycle::Failed(SetupError::UnsupportedFormat(format)));
        assert_eq!(state.failure(), Some(SetupError::UnsupportedFormat(format)));
        assert_eq!(
            actions,
            vec![
                Action::ResolveDevice,
                Action::QueryConfig,
                Action::Abort(SetupError::UnsupportedFormat(format)),
            ]
        );
    }
}

#[test]
fn failed_stream_build_is_fatal() {
    let (state, actions) = replay(&[
        Event::DeviceFound,
        Event::ConfigReported(SampleFormat::F32),
        Event::StreamBuildFailed,
    ]);
    assert_eq!(state, Lifecycle::Failed(SetupError::BuildFailed));
    assert_eq!(actions[3], Action::Abort(SetupError::BuildFailed));
}

#[test]
fn failed_stream_start_is_fatal() {
    let (state, actions) = replay(&[
        Event::DeviceFound,
        Event::ConfigReported(SampleFormat::F32),
        Event::StreamBuilt,
        Event::StreamStartFailed,
    ]);
    assert_eq!(state, Lifecycle::Failed(SetupError::StartFailed));
    assert_eq!(actions[4], Action::Abort(SetupError::StartFailed));
    assert!(!state.is_streaming());
}

#[test]
fn stream_fault_is_reported_and_playback_goes_on() {
    assert_eq!(
        Lifecycle::Streaming.step(Event::StreamFault),
        (Lifecycle::Streaming, Action::Report)
    );
    let built = Lifecycle::Uninitialized(Stage::AwaitingStart);
    assert_eq!(built.step(Event::StreamFault), (built, Action::Report));
    let failed = Lifecycle::Failed(SetupError::BuildFailed);
    assert_eq!(failed.step(Event::StreamFault), (failed, Action::Report));
}

#[test]
fn teardown_stops_a_streaming_session() {
    assert_eq!(
        Lifecycle::Streaming.step(Event::Dropped),
        (Lifecycle::Stopped, Action::Idle)
    );
    assert!(!Lifecycle::Stopped.is_streaming());
    assert_eq!(Lifecycle::Stopped.failure(), None);
}

#[test]
fn teardown_before_streaming_changes_nothing() {
    for stage in [
        Stage::AwaitingDevice,
        Stage::AwaitingConfig,
        Stage::AwaitingStream,
        Stage::AwaitingStart,
    ] {
        let state = Lifecycle::Uninitialized(stage);
        assert_eq!(state.step(Event::Dropped), (state, Action::Idle));
    }
}

#[test]
fn stopped_and_failed_sessions_stay_as_they_are() {
    let terminal = [
        Lifecycle::Stopped,
        Lifecycle::Failed(SetupError::NoOutputDevice),
        Lifecycle::Failed(SetupError::ConfigUnavailable),
        Lifecycle::Failed(SetupError::UnsupportedFormat(SampleFormat::I16)),
        Lifecycle::Failed(SetupError::BuildFailed),
        Lifecycle::Failed(SetupError::StartFailed),
    ];
    for state in terminal {
        for event in ALL_EVENTS {
            let (next, action) = state.step(event);
            assert_eq!(next, state);
            if event == Event::StreamFault {
                assert_eq!(action, Action::Report);
            } else {
                assert_eq!(action, Action::Idle);
            }
        }
    }
}

#[test]
fn events_out_of_turn_are_ignored() {
    let waiting = Lifecycle::Uninitialized(Stage::AwaitingDevice);
    for event in [
        Event::ConfigReported(SampleFormat::F32),
        Event::ConfigQueryFailed,
        Event::StreamBuilt,
        Event::StreamBuildFailed,
        Event::StreamStarted,
        Event::StreamStartFailed,
    ] {
        assert_eq!(waiting.step(event), (waiting, Action::Idle));
    }
    assert_eq!(
        Lifecycle::Streaming.step(Event::StreamStarted),
        (Lifecycle::Streaming, Action::Idle)
    );
    assert_eq!(
        Lifecycle::Streaming.step(Event::DeviceMissing),
        (Lifecycle::Streaming, Action::Idle)
    );
}

#[test]
fn streaming_is_entered_only_from_a_built_stream() {
    let states = [
        Lifecycle::Uninitialized(Stage::AwaitingDevice),
        Lifecycle::Uninitialized(Stage::AwaitingConfig),
        Lifecycle::Uninitialized(Stage::AwaitingStream),
        Lifecycle::Uninitialized(Stage::AwaitingStart),
        Lifecycle::Stopped,
        Lifecycle::Failed(SetupError::StartFailed),
    ];
    for state in states {
        for event in ALL_EVENTS {
            let (next, _) = state.step(event);
            let expected = state == Lifecycle::Uninitialized(Stage::AwaitingStart)
                && event == Event::StreamStarted;
            assert_eq!(next.is_streaming(), expected);
        }
    }
}
