use crossbeam::channel::RecvError;
use mirrorx_core::bridge::{
    endpoint_connect, endpoint_handshake, endpoint_input, endpoint_negotiate_finished,
    endpoint_negotiate_select_monitor, endpoint_negotiate_visit_desktop_params, settle,
    signaling_dial, signaling_heartbeat, signaling_key_exchange, signaling_register,
    signaling_subscribe, signaling_visit, CallError,
};

const LOST: &str = "receive call result failed (receiving on an empty and disconnected channel)";

fn lost_message<T, E>(result: Result<T, CallError<E>>) -> Option<String> {
    match result {
        Err(CallError::Receive(message)) => Some(message),
        _ => None,
    }
}

#[test]
fn settle_passes_value_through() {
    let result: Result<u32, CallError<String>> = settle(Ok(Ok(7)));
    assert!(matches!(result, Ok(7)));
}

#[test]
fn settle_passes_call_error_through() {
    let result: Result<u32, CallError<String>> = settle(Ok(Err("refused".to_string())));
    match result {
        Err(CallError::Call(e)) => assert_eq!(e, "refused"),
        _ => panic!("expected the call's error"),
    }
}

#[test]
fn settle_reports_lost_result() {
    let result: Result<u32, CallError<String>> = settle(Err(RecvError));
    assert_eq!(lost_message(result).as_deref(), Some(LOST));
}

#[test]
fn signaling_calls_settle() {
    assert!(matches!(signaling_dial::<String>(Ok(Ok(()))), Ok(())));
    assert!(matches!(signaling_register::<u64, String>(Ok(Ok(42))), Ok(42)));
    assert!(matches!(signaling_subscribe::<String>(Ok(Ok(()))), Ok(())));
    assert!(matches!(signaling_heartbeat::<i32, String>(Ok(Ok(-3))), Ok(-3)));
    assert!(matches!(signaling_visit::<bool, String>(Ok(Ok(true))), Ok(true)));
    assert!(matches!(signaling_key_exchange::<u8, String>(Ok(Ok(9))), Ok(9)));
    assert_eq!(
        lost_message(signaling_register::<u64, String>(Err(RecvError))).as_deref(),
        Some(LOST)
    );
    assert_eq!(lost_message(signaling_dial::<String>(Err(RecvError))).as_deref(), Some(LOST));
    match signaling_visit::<bool, &str>(Ok(Err("busy"))) {
        Err(CallError::Call(e)) => assert_eq!(e, "busy"),
        _ => panic!("expected the call's error"),
    }
}

#[test]
fn endpoint_calls_settle() {
    assert!(matches!(endpoint_connect::<String>(Ok(Ok(()))), Ok(())));
    assert!(matches!(endpoint_handshake::<String>(Ok(Ok(()))), Ok(())));
    assert!(matches!(endpoint_negotiate_visit_desktop_params::<u16, String>(Ok(Ok(30))), Ok(30)));
    assert!(matches!(endpoint_negotiate_select_monitor::<u16, String>(Ok(Ok(2))), Ok(2)));
    assert!(matches!(endpoint_negotiate_finished::<String>(Ok(Ok(()))), Ok(())));
    assert!(matches!(endpoint_input::<String>(Ok(Ok(()))), Ok(())));
    assert_eq!(lost_message(endpoint_input::<String>(Err(RecvError))).as_deref(), Some(LOST));
    match endpoint_handshake::<u32>(Ok(Err(5))) {
        Err(CallError::Call(e)) => assert_eq!(e, 5),
        _ => panic!("expected the call's error"),
    }
}
