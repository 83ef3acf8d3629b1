use ws_server::listener::{after_accept, after_bind, AcceptAction, StartupAction};

#[test]
fn failed_accept_keeps_serving() {
    let outcomes = [true, false, true];
    let actions: Vec<AcceptAction> = outcomes.iter().map(|ok| after_accept(*ok)).collect();
    assert_eq!(
        actions,
        vec![AcceptAction::Dispatch, AcceptAction::LogAndContinue, AcceptAction::Dispatch]
    );
}

#[test]
fn failed_bind_halts() {
    assert_eq!(after_bind(false), StartupAction::Halt);
    assert_eq!(after_bind(true), StartupAction::Serve);
}
