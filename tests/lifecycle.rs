use upload_server::container::{reap_step, Reaping, WaitOutcome};
use upload_server::host::{cleanup, CleanupError};

#[test]
fn host_cleanup_succeeds() {
    assert!(cleanup().is_ok());
}

#[test]
fn reaping_continues_while_children_exit() {
    assert!(matches!(reap_step(&WaitOutcome::Reaped), Reaping::Continue));
}

#[test]
fn reaping_stops_when_no_children_remain() {
    assert!(matches!(reap_step(&WaitOutcome::NoChildren), Reaping::Stop(Ok(()))));
}

#[test]
fn reaping_fails_on_other_errors() {
    assert!(matches!(
        reap_step(&WaitOutcome::Failed(4)),
        Reaping::Stop(Err(CleanupError::Wait(4)))
    ));
}
