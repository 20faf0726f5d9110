//! Settling of the calls that the exported API hands to the async runtime: each
//! call's result comes back over a one-slot channel, and a lost result becomes an
//! error of its own.

use crossbeam::channel::RecvError;
use vstd::prelude::*;

verus! {

#[verifier::external_type_specification]
#[verifier::external_body]
pub struct ExRecvError(crossbeam::channel::RecvError);

/// Why an exported call did not produce its value.
pub enum CallError<E> {
    /// The task that ran the call ended without handing back a result; holds the message.
    Receive(String),
    /// The call itself failed.
    Call(E),
}

/// The message of a call whose result never came back.
pub open spec fn receive_failure_text() -> Seq<char> {
    "receive call result failed ("@ + "receiving on an empty and disconnected channel"@ + ")"@
}

/// `result` is what an exported call returns when its task delivered `outcome`: the
/// call's own value or error when it arrived, the receive-failure message when not.
pub open spec fn call_settled<T, E>(
    outcome: Result<Result<T, E>, RecvError>,
    result: Result<T, CallError<E>>,
) -> bool {
    match outcome {
        Ok(Ok(v)) => result == Ok::<T, CallError<E>>(v),
        Ok(Err(e)) => result == Err::<T, CallError<E>>(CallError::Call(e)),
        Err(_) => result matches Err(CallError::Receive(m)) && m@ == receive_failure_text(),
    }
}

/// crossbeam-channel's `Display` of `RecvError`, which its source writes as the fixed
/// text "receiving on an empty and disconnected channel"; the contract claims that text.
#[verifier::external_body]
fn receive_error_text(err: &RecvError) -> (text: String)
    ensures
        text@ == "receiving on an empty and disconnected channel"@,
{
    err.to_string()
}

/// Turns what came back over a call's channel into the call's result.
pub fn settle<T, E>(outcome: Result<Result<T, E>, RecvError>) -> (result: Result<T, CallError<E>>)
    ensures
        call_settled(outcome, result),
{
    match outcome {
        Ok(Ok(value)) => Ok(value),
        Ok(Err(err)) => Err(CallError::Call(err)),
        Err(err) => {
            let detail = receive_error_text(&err);
            let mut message = String::from_str("receive call result failed (");
            message.append(detail.as_str());
            message.append(")");
            Err(CallError::Receive(message))
        },
    }
}

/// Result of dialing a remote device through the signaling server.
pub fn signaling_dial<E>(outcome: Result<Result<(), E>, RecvError>) -> (result: Result<
    (),
    CallError<E>,
>)
    ensures
        call_settled(outcome, result),
{
    settle(outcome)
}

/// Result of registering this device with the signaling server.
pub fn signaling_register<R, E>(outcome: Result<Result<R, E>, RecvError>) -> (result: Result<
    R,
    CallError<E>,
>)
    ensures
        call_settled(outcome, result),
{
    settle(outcome)
}

/// Result of subscribing to the signaling server's messages.
pub fn signaling_subscribe<E>(outcome: Result<Result<(), E>, RecvError>) -> (result: Result<
    (),
    CallError<E>,
>)
    ensures
        call_settled(outcome, result),
{
    settle(outcome)
}

/// Result of a heartbeat to the signaling server.
pub fn signaling_heartbeat<R, E>(outcome: Result<Result<R, E>, RecvError>) -> (result: Result<
    R,
    CallError<E>,
>)
    ensures
        call_settled(outcome, result),
{
    settle(outcome)
}

/// Result of asking the signaling server to visit a remote device.
pub fn signaling_visit<R, E>(outcome: Result<Result<R, E>, RecvError>) -> (result: Result<
    R,
    CallError<E>,
>)
    ensures
        call_settled(outcome, result),
{
    settle(outcome)
}

/// Result of the key exchange through the signaling server.
pub fn signaling_key_exchange<R, E>(outcome: Result<Result<R, E>, RecvError>) -> (result: Result<
    R,
    CallError<E>,
>)
    ensures
        call_settled(outcome, result),
{
    settle(outcome)
}

/// Result of connecting to a remote endpoint.
pub fn endpoint_connect<E>(outcome: Result<Result<(), E>, RecvError>) -> (result: Result<
    (),
    CallError<E>,
>)
    ensures
        call_settled(outcome, result),
{
    settle(outcome)
}

/// Result of the handshake with a connected endpoint.
pub fn endpoint_handshake<E>(outcome: Result<Result<(), E>, RecvError>) -> (result: Result<
    (),
    CallError<E>,
>)
    ensures
        call_settled(outcome, result),
{
    settle(outcome)
}

/// Result of negotiating the desktop parameters of a visit.
pub fn endpoint_negotiate_visit_desktop_params<R, E>(
    outcome: Result<Result<R, E>, RecvError>,
) -> (result: Result<R, CallError<E>>)
    ensures
        call_settled(outcome, result),
{
    settle(outcome)
}

/// Result of negotiating which monitor a visit shows.
pub fn endpoint_negotiate_select_monitor<R, E>(outcome: Result<Result<R, E>, RecvError>) -> (result:
    Result<R, CallError<E>>)
    ensures
        call_settled(outcome, result),
{
    settle(outcome)
}

/// Result of closing the negotiation of a visit.
pub fn endpoint_negotiate_finished<E>(outcome: Result<Result<(), E>, RecvError>) -> (result: Result<
    (),
    CallError<E>,
>)
    ensures
        call_settled(outcome, result),
{
    settle(outcome)
}

/// Result of sending an input event to a remote endpoint.
pub fn endpoint_input<E>(outcome: Result<Result<(), E>, RecvError>) -> (result: Result<
    (),
    CallError<E>,
>)
    ensures
        call_settled(outcome, result),
{
    settle(outcome)
}

} // verus!
