//! Deciding what a JSON-RPC call to the service came to.
//!
//! The call itself (sending the request, reading the body, picking fields out
//! of the JSON) happens outside; each time something comes back, [`rpc_step`]
//! says what to do next.

use vstd::prelude::*;

verus! {

/// What the `result` member of a reply holds, as far as the decision goes.
pub struct RpcResultFacts {
    /// Whether `result` has an `error` member.
    pub has_error: bool,
    /// That member's text, when it is a JSON string.
    pub error_text: Option<String>,
}

/// What came back from the service.
pub enum RpcEvent {
    /// The request could not be sent or got no response.
    SendFailed(String),
    /// A response arrived with this HTTP status (`success` for 2xx).
    Responded { success: bool, status: String },
    /// The response body is not JSON.
    BodyUnreadable(String),
    /// The body was read: its `error` member rendered as JSON text, and its `result` member.
    Body { error: Option<String>, result: Option<RpcResultFacts> },
}

/// What to do next.
pub enum RpcAction {
    /// Read the response body as JSON.
    ReadBody,
    /// The call failed with this message.
    Fail(String),
    /// The call succeeded; its value is the body's `result` member.
    ReturnResult,
    /// The call succeeded; its value is the whole body.
    ReturnBody,
}

/// The decision for each event, as a spec.
pub open spec fn rpc_action(event: RpcEvent, action: RpcAction) -> bool {
    match event {
        RpcEvent::SendFailed(detail) => action matches RpcAction::Fail(m) && m@
            == "rpc request failed: "@ + detail@,
        RpcEvent::Responded { success, status } => if success {
            action is ReadBody
        } else {
            action matches RpcAction::Fail(m) && m@ == "rpc status "@ + status@
        },
        RpcEvent::BodyUnreadable(detail) => action matches RpcAction::Fail(m) && m@ == detail@,
        RpcEvent::Body { error, result } => match error {
            Some(e) => action matches RpcAction::Fail(m) && m@ == "rpc error: "@ + e@,
            None => match result {
                Some(r) => if r.has_error {
                    action matches RpcAction::Fail(m) && m@ == match r.error_text {
                        Some(t) => t@,
                        None => "rpc result error"@,
                    }
                } else {
                    action is ReturnResult
                },
                None => action is ReturnBody,
            },
        },
    }
}

fn prefixed(prefix: &str, text: &str) -> (s: String)
    ensures
        s@ == prefix@ + text@,
{
    let mut s = prefix.to_owned();
    s.append(text);
    s
}

/// What to do after `event`: go on reading, fail with a message, or return
/// the reply's `result` or the whole reply.
pub fn rpc_step(event: RpcEvent) -> (action: RpcAction)
    ensures
        rpc_action(event, action),
{
    match event {
        RpcEvent::SendFailed(detail) => RpcAction::Fail(
            prefixed("rpc request failed: ", detail.as_str()),
        ),
        RpcEvent::Responded { success, status } => if success {
            RpcAction::ReadBody
        } else {
            RpcAction::Fail(prefixed("rpc status ", status.as_str()))
        },
        RpcEvent::BodyUnreadable(detail) => RpcAction::Fail(detail),
        RpcEvent::Body { error, result } => match error {
            Some(e) => RpcAction::Fail(prefixed("rpc error: ", e.as_str())),
            None => match result {
                Some(r) => if r.has_error {
                    match r.error_text {
                        Some(t) => RpcAction::Fail(t),
                        None => RpcAction::Fail("rpc result error".to_owned()),
                    }
                } else {
                    RpcAction::ReturnResult
                },
                None => RpcAction::ReturnBody,
            },
        },
    }
}

/// A response that is not a success fails the call with its status, whatever
/// the status is; the body is read only after a successful response.
pub proof fn lemma_rpc_reads_body_only_on_success(event: RpcEvent, action: RpcAction)
    requires
        rpc_action(event, action),
    ensures
        action is ReadBody ==> event is Responded && event->success,
        event is Responded && !event->success ==> (action matches RpcAction::Fail(m) && m@
            == "rpc status "@ + event->status@),
{
}

/// A reply that carries an `error` member, or a `result` with an `error`
/// member, never makes the call succeed; a call succeeds only on a read body.
pub proof fn lemma_rpc_errors_never_succeed(event: RpcEvent, action: RpcAction)
    requires
        rpc_action(event, action),
    ensures
        event is Body && event->error is Some ==> action is Fail,
        event is Body && event->result is Some && event->result->0.has_error ==> action is Fail,
        action is ReturnResult || action is ReturnBody ==> event is Body,
        event is SendFailed || event is BodyUnreadable ==> action is Fail,
{
}

} // verus!
