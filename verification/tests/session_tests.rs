use numbat_session::render::{format_document, RenderTarget};
use numbat_session::session::Session;

#[test]
fn simple_sum_protocol_styling() {
    let mut s = Session::new();
    let out = s.eval("1+1", RenderTarget::Protocol).unwrap();
    // The value document's text is `2`; under the protocol target it is
    // wrapped as yellow foreground plus reset.
    assert!(out.contains("\x03082\x0f"), "got: {:?}", out);
    assert_eq!(out, "\x03081\x0f \x02+\x0f \x03081\x0f    \x02=\x0f \x03082\x0f\x0311\x0f");
}

#[test]
fn simple_sum_plain_has_no_control_bytes() {
    let mut s = Session::new();
    let out = s.eval("1+1", RenderTarget::Plain).unwrap();
    assert_eq!(out, "1 + 1    = 2");
    for c in out.chars() {
        assert!(c != '\x02' && c != '\x03' && c != '\x0f' && c != '\x1d');
    }
}

#[test]
fn output_is_trimmed() {
    let mut s = Session::new();
    let out = s.eval("1+1", RenderTarget::Protocol).unwrap();
    assert_eq!(out, out.trim());
}

#[test]
fn fresh_session_has_empty_capture_sink() {
    let s = Session::new();
    // The bootstrap's printed side effects are discarded at creation: the
    // sink starts empty, so no bootstrap text can reach the first caller.
    assert!(s.captured().is_empty());
}

#[test]
fn state_persists_across_calls() {
    let mut s = Session::new();
    s.eval("let x = 5", RenderTarget::Plain).unwrap();
    let out = s.eval("x + 1", RenderTarget::Plain).unwrap();
    assert!(out.contains('6'), "got: {:?}", out);
}

#[test]
fn malformed_input_yields_error_and_session_stays_usable() {
    let mut s = Session::new();
    s.eval("let y = 7", RenderTarget::Plain).unwrap();
    let err = s.eval("((((", RenderTarget::Plain);
    assert!(err.is_err());
    assert!(!err.unwrap_err().is_empty());
    let out = s.eval("y", RenderTarget::Plain).unwrap();
    assert!(out.contains('7'), "got: {:?}", out);
}

#[test]
fn runtime_failure_leaves_earlier_calls_intact() {
    let mut s = Session::new();
    s.eval("let w = 4", RenderTarget::Plain).unwrap();
    let err = s.eval("let z = 9\nassert(1 == 2)", RenderTarget::Plain);
    assert!(err.is_err());
    let out = s.eval("w", RenderTarget::Plain).unwrap();
    assert!(out.contains('4'), "got: {:?}", out);
}

#[test]
fn printed_output_goes_to_the_sink_not_the_result() {
    let mut s = Session::new();
    s.eval("print(123 + 321)", RenderTarget::Plain).unwrap();
    assert!(!s.captured().is_empty());
    let printed = format_document(&s.captured()[0], RenderTarget::Plain, false);
    assert!(printed.contains("444"), "got: {:?}", printed);
}

#[test]
fn unknown_identifier_is_an_error() {
    let mut s = Session::new();
    assert!(s.eval("no_such_name_here", RenderTarget::Plain).is_err());
}
