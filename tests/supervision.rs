use ps3_redump_downloader::supervisor::{
    check_output, decryptor_args, preflight, DecryptError, ExitInfo, Poll, SuperviseAction, SuperviseEvent,
    Supervisor,
};

fn running(size: Option<u64>, ms: u64) -> SuperviseEvent {
    SuperviseEvent::Polled(Poll { exited: None, output_size: size, elapsed_ms: ms })
}

#[test]
fn preflight_errors() {
    assert_eq!(preflight(false, Some(0o755), 10), Err(DecryptError::BinaryMissing));
    assert_eq!(preflight(true, Some(0o644), 10), Err(DecryptError::BinaryNotExecutable));
    assert_eq!(preflight(true, Some(0o744), 0), Err(DecryptError::InputMissing));
    assert_eq!(preflight(true, Some(0o100), 10), Ok(()));
    assert_eq!(preflight(true, None, 10), Ok(()));
}

#[test]
fn program_arguments() {
    let a = decryptor_args("00ff", "in.iso", "out.iso");
    assert_eq!(a, vec!["d", "key", "00ff", "in.iso", "out.iso"]);
}

#[test]
fn stall_switches_to_indeterminate_without_failing() {
    let mut s = Supervisor::new(1000, 10, 3);
    assert_eq!(s.step(running(None, 0)), SuperviseAction::Continue { progress: 0, indeterminate: false });
    assert_eq!(s.step(running(Some(400), 500)), SuperviseAction::Continue { progress: 400, indeterminate: false });
    for k in 1..3u64 {
        let a = s.step(running(Some(400), 500 + 500 * k));
        assert_eq!(a, SuperviseAction::Continue { progress: 400, indeterminate: false });
    }
    assert_eq!(s.step(running(Some(400), 2500)), SuperviseAction::Continue { progress: 400, indeterminate: true });
    // growth again does not bring back a failure; the indicator stays indeterminate
    assert_eq!(s.step(running(Some(500), 3000)), SuperviseAction::Continue { progress: 500, indeterminate: true });
}

#[test]
fn timeout_terminates_then_fails() {
    let mut s = Supervisor::new(1000, 10, 3);
    assert!(matches!(s.step(running(Some(1), 10_000)), SuperviseAction::Continue { .. }));
    assert_eq!(s.step(running(Some(1), 10_001)), SuperviseAction::Terminate);
    assert_eq!(s.step(SuperviseEvent::Terminated), SuperviseAction::Failed(DecryptError::Timeout { secs: 10 }));
}

#[test]
fn exit_codes() {
    let mut s = Supervisor::new(1000, 10, 3);
    s.step(running(Some(600), 100));
    let ok = SuperviseEvent::Polled(Poll { exited: Some(ExitInfo { success: true, code: Some(0) }), output_size: Some(5000), elapsed_ms: 200 });
    assert_eq!(s.step(ok), SuperviseAction::Succeeded { progress: 1000 });
    let bad = SuperviseEvent::Polled(Poll { exited: Some(ExitInfo { success: false, code: Some(2) }), output_size: Some(10), elapsed_ms: 200 });
    assert_eq!(s.step(bad), SuperviseAction::Failed(DecryptError::ProcessFailed { code: Some(2) }));
}

#[test]
fn output_validation() {
    assert_eq!(check_output(None, 100), Err(DecryptError::OutputMissing));
    assert_eq!(check_output(Some(49), 100), Ok(true));
    assert_eq!(check_output(Some(50), 100), Ok(false));
}
