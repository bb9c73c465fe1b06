use immie2d_shared::echo_session::{echo_action, EchoAction, ECHO_ROUNDS};

#[test]
fn empty_read_stops() {
    assert_eq!(echo_action(0, 0), EchoAction::Stop);
    assert_eq!(echo_action(4, 0), EchoAction::Stop);
}

#[test]
fn early_rounds_echo() {
    assert_eq!(echo_action(0, 12), EchoAction::Echo);
    assert_eq!(echo_action(3, 1), EchoAction::Echo);
}

#[test]
fn last_round_echoes_then_shuts_down() {
    assert_eq!(echo_action(ECHO_ROUNDS - 1, 512), EchoAction::EchoThenShutdown);
}
