use network_audio_input_adapter::audio_format::FormatDescriptor;
use network_audio_input_adapter::headers::channels_value;
use network_audio_input_adapter::headers::content_type_value;
use network_audio_input_adapter::headers::format_value;
use network_audio_input_adapter::headers::sample_rate_value;
use network_audio_input_adapter::headers::title_value;
use network_audio_input_adapter::headers::u64_decimal;
use network_audio_input_adapter::route::route;
use network_audio_input_adapter::route::RequestMethod;
use network_audio_input_adapter::route::RouteDecision;
use network_audio_input_adapter::route::SourceKind;
use network_audio_input_adapter::session::step;
use network_audio_input_adapter::session::SessionAction;
use network_audio_input_adapter::session::SessionEvent;
use network_audio_input_adapter::session::SessionState;

#[test]
fn get_on_stream_path_streams_live_capture() {
    assert_eq!(
        route(RequestMethod::Get, b"/stream.raw"),
        RouteDecision::StreamWithBody(SourceKind::LiveDevice)
    );
}

#[test]
fn head_on_stream_path_sends_headers_only() {
    assert_eq!(
        route(RequestMethod::Head, b"/stream.raw"),
        RouteDecision::HeadersOnly(SourceKind::LiveDevice)
    );
}

#[test]
fn other_method_on_stream_path_is_not_allowed() {
    assert_eq!(route(RequestMethod::Other, b"/stream.raw"), RouteDecision::MethodNotAllowed);
}

#[test]
fn file_path_binds_the_file_source() {
    assert_eq!(
        route(RequestMethod::Get, b"/file.raw"),
        RouteDecision::StreamWithBody(SourceKind::FileReplay)
    );
    assert_eq!(
        route(RequestMethod::Head, b"/file.raw"),
        RouteDecision::HeadersOnly(SourceKind::FileReplay)
    );
    assert_eq!(route(RequestMethod::Other, b"/file.raw"), RouteDecision::NotFound);
}

#[test]
fn unknown_paths_are_not_found() {
    assert_eq!(route(RequestMethod::Get, b"/"), RouteDecision::NotFound);
    assert_eq!(route(RequestMethod::Get, b"/stream.raw2"), RouteDecision::NotFound);
    assert_eq!(route(RequestMethod::Head, b"/stream.ra"), RouteDecision::NotFound);
    assert_eq!(route(RequestMethod::Other, b""), RouteDecision::NotFound);
}

#[test]
fn header_values_follow_the_format() {
    let fmt = FormatDescriptor { sample_rate: 48000, channels: 2, bit_depth: 24 };
    assert_eq!(content_type_value(), b"application/x-hqplayer-raw".to_vec());
    assert_eq!(title_value(), b"Network Input".to_vec());
    assert_eq!(sample_rate_value(&fmt), b"48000".to_vec());
    assert_eq!(channels_value(&fmt), b"2".to_vec());
    assert_eq!(format_value(&fmt), b"int24le".to_vec());
}

#[test]
fn format_label_for_16_bit() {
    let fmt = FormatDescriptor { sample_rate: 44100, channels: 1, bit_depth: 16 };
    assert_eq!(format_value(&fmt), b"int16le".to_vec());
    assert_eq!(sample_rate_value(&fmt), b"44100".to_vec());
}

#[test]
fn decimal_formatting() {
    assert_eq!(u64_decimal(0), b"0".to_vec());
    assert_eq!(u64_decimal(7), b"7".to_vec());
    assert_eq!(u64_decimal(10), b"10".to_vec());
    assert_eq!(u64_decimal(48000), b"48000".to_vec());
    assert_eq!(u64_decimal(u64::MAX), b"18446744073709551615".to_vec());
}

#[test]
fn session_opens_then_streams() {
    assert_eq!(
        step(SessionState::Idle, SessionEvent::OpenRequested),
        (SessionState::Opening, SessionAction::AcquireSource)
    );
    assert_eq!(
        step(SessionState::Opening, SessionEvent::SourceReady),
        (SessionState::Streaming, SessionAction::NoAction)
    );
}

#[test]
fn session_fails_fast_when_the_source_cannot_open() {
    assert_eq!(
        step(SessionState::Opening, SessionEvent::OpenFailed),
        (SessionState::Failed, SessionAction::NoAction)
    );
    assert_eq!(
        step(SessionState::Failed, SessionEvent::ConsumerDisconnected),
        (SessionState::Closed, SessionAction::ReleaseSource)
    );
}

#[test]
fn session_drains_on_exhaustion_and_closes() {
    assert_eq!(
        step(SessionState::Streaming, SessionEvent::SourceExhausted),
        (SessionState::Draining, SessionAction::FlushFinalChunk)
    );
    assert_eq!(
        step(SessionState::Draining, SessionEvent::FlushComplete),
        (SessionState::Closed, SessionAction::ReleaseSource)
    );
}

#[test]
fn session_closes_at_once_on_disconnect() {
    assert_eq!(
        step(SessionState::Streaming, SessionEvent::ConsumerDisconnected),
        (SessionState::Closed, SessionAction::ReleaseSource)
    );
}

#[test]
fn session_fails_on_source_error() {
    assert_eq!(
        step(SessionState::Streaming, SessionEvent::SourceError),
        (SessionState::Failed, SessionAction::ReleaseSource)
    );
}

#[test]
fn closed_session_ignores_everything() {
    for e in [
        SessionEvent::OpenRequested,
        SessionEvent::SourceReady,
        SessionEvent::OpenFailed,
        SessionEvent::SourceExhausted,
        SessionEvent::SourceError,
        SessionEvent::ConsumerDisconnected,
        SessionEvent::FlushComplete,
    ] {
        assert_eq!(step(SessionState::Closed, e), (SessionState::Closed, SessionAction::NoAction));
    }
}
