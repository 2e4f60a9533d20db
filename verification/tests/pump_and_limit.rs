use cgi_server::limit::{PermitHold, PermitPool};
use cgi_server::process::{Output, PumpState};
use cgi_server::timeout::{
    timeout_step, RequestBodyTimeout, RequestBodyTimeoutLayer, TimeoutError, TimeoutStep,
};

#[test]
fn pump_feeds_body_in_order() {
    let mut p = PumpState::new();
    assert!(p.is_stdout_open() && p.is_stderr_open() && p.is_stdin_open());
    p.on_source_chunk(b"value".to_vec());
    assert_eq!(p.residual_bytes().clone(), b"value".to_vec());
    let close = p.on_stdin_wrote(2);
    assert!(!close);
    assert_eq!(p.residual_bytes().clone(), b"lue".to_vec());
    let close = p.on_stdin_wrote(3);
    assert!(!close);
    assert!(p.residual_bytes().is_empty());
    let close = p.on_source_end();
    assert!(close);
    assert!(!p.is_stdin_open());
}

#[test]
fn pump_source_end_waits_for_residual() {
    let mut p = PumpState::new();
    p.on_source_chunk(b"abc".to_vec());
    let close = p.on_source_end();
    assert!(!close);
    assert!(p.is_stdin_open());
    assert!(p.is_source_done());
    let close = p.on_stdin_wrote(3);
    assert!(close);
    assert!(!p.is_stdin_open());
}

#[test]
fn pump_zero_write_closes_sink() {
    let mut p = PumpState::new();
    p.on_source_chunk(b"abc".to_vec());
    let close = p.on_stdin_wrote(0);
    assert!(close);
    assert!(!p.is_stdin_open());
    assert!(p.residual_bytes().is_empty());
}

#[test]
fn pump_ends_when_both_outputs_end() {
    let mut p = PumpState::new();
    assert!(!p.at_end());
    let end = p.on_stdout_eof();
    assert!(!end);
    let end = p.on_stderr_eof();
    assert!(end);
    assert!(p.at_end());
}

#[test]
fn pump_errors_close_their_side() {
    let mut p = PumpState::new();
    p.on_stdout_error();
    assert!(!p.is_stdout_open());
    p.on_stderr_error();
    assert!(p.at_end());
    let mut p = PumpState::new();
    p.on_stdin_error();
    assert!(!p.is_stdin_open());
    let mut p = PumpState::new();
    p.on_source_error();
    assert!(p.is_source_done());
}

#[test]
fn output_unwrap_sides() {
    let out = Output::Stdout(b"a".to_vec());
    assert_eq!(out.unwrap_out(), b"a".to_vec());
    let err = Output::Stderr(b"b".to_vec());
    assert_eq!(err.unwrap_err(), b"b".to_vec());
}

#[test]
fn pool_caps_concurrency() {
    let mut pool = PermitPool::new(2);
    assert!(pool.try_acquire());
    assert!(pool.try_acquire());
    assert_eq!(pool.in_use(), 2);
    assert!(!pool.try_acquire());
    pool.release();
    assert_eq!(pool.in_use(), 1);
    assert!(pool.try_acquire());
    assert!(!pool.try_acquire());
}

#[test]
fn pool_of_zero_admits_nobody() {
    let mut pool = PermitPool::new(0);
    assert!(!pool.try_acquire());
}

#[test]
fn permit_held_until_body_ends() {
    let mut hold = PermitHold::new();
    assert!(!hold.on_frame(false));
    assert!(!hold.on_frame(false));
    assert!(hold.on_frame(true));
    assert!(!hold.on_frame(true));
    assert!(!hold.on_frame(false));
}

#[test]
fn timeout_checks_timer_first() {
    assert_eq!(timeout_step(true, true), TimeoutStep::TimedOut);
    assert_eq!(timeout_step(true, false), TimeoutStep::TimedOut);
    assert_eq!(timeout_step(false, true), TimeoutStep::Deliver);
    assert_eq!(timeout_step(false, false), TimeoutStep::Wait);
}

#[test]
fn timeout_wrappers_keep_their_parts() {
    let t = RequestBodyTimeout::new("svc", 30000);
    assert_eq!(t.timeout_ms(), 30000);
    assert_eq!(*t.inner(), "svc");
    assert_eq!(t.into_inner(), "svc");
    let layer = RequestBodyTimeoutLayer::new(250);
    assert_eq!(layer.timeout_ms(), 250);
    let t = layer.wrap(7u32);
    assert_eq!(t.timeout_ms(), 250);
    assert_eq!(*t.inner(), 7);
    let e = TimeoutError {};
    assert_eq!(e.message(), "data was not received within the designated timeout");
}
