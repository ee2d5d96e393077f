use vstd::prelude::*;
use crate::credential::CredentialStore;
use crate::error::{ErrorView, UploadError};
use crate::json::json_string_member;
use crate::remote::{
    error_after_refresh, folder_reply_spec, read_folder_reply, read_token_reply,
    read_upload_reply, refresh_due, settle_refresh, token_after_refresh, token_reply_spec,
    upload_reply_spec, UNAUTHORIZED,
};

verus! {

/// What an authenticated call asks of the service.
#[derive(Debug, Clone, Copy, PartialEq, Eq)]
pub enum CallKind {
    /// Create a folder; success carries its identifier.
    CreateFolder,
    /// Upload a file; success carries nothing.
    Upload,
}

/// How far an authenticated call has come.
#[derive(Debug, Clone, Copy, PartialEq, Eq)]
pub enum Phase {
    /// The request is out; its reply is awaited.
    Sent,
    /// The credential was rejected; the reply of the token exchange is awaited.
    Refreshing,
    /// The call has reported its result.
    Over,
}

/// One authenticated call, from its request to its result.
#[derive(Debug, Clone, Copy, PartialEq, Eq)]
pub struct Call {
    pub kind: CallKind,
    pub phase: Phase,
}

/// What came of the last action of a call.
#[derive(Debug, Clone, PartialEq, Eq)]
pub enum CallEvent {
    /// The service replied.
    Reply { status: u16, body: String },
    /// No reply could be had, or the request could not be built.
    Failed(UploadError),
}

/// The mathematical value of a [`CallEvent`].
pub enum CallEventView {
    Reply { status: u16, body: Seq<char> },
    Failed(ErrorView),
}

impl View for CallEvent {
    type V = CallEventView;

    open spec fn view(&self) -> CallEventView {
        match *self {
            CallEvent::Reply { status, body } => CallEventView::Reply { status, body: body@ },
            CallEvent::Failed(e) => CallEventView::Failed(e@),
        }
    }
}

/// What a call asks of its surroundings next.
#[derive(Debug, PartialEq, Eq)]
pub enum CallAction {
    /// Issue the request with this snapshot of the token.
    Send { token: String },
    /// Exchange the long-lived refresh token for a new access token.
    Refresh,
    /// The call is over, with this result.
    Done(Result<Option<String>, UploadError>),
}

/// The mathematical value of a [`CallAction`].
pub enum CallActionView {
    Send { token: Seq<char> },
    Refresh,
    Done(Result<Option<Seq<char>>, ErrorView>),
}

impl View for CallAction {
    type V = CallActionView;

    open spec fn view(&self) -> CallActionView {
        match *self {
            CallAction::Send { token } => CallActionView::Send { token: token@ },
            CallAction::Refresh => CallActionView::Refresh,
            CallAction::Done(Ok(Some(id))) => CallActionView::Done(Ok(Some(id@))),
            CallAction::Done(Ok(None)) => CallActionView::Done(Ok(None)),
            CallAction::Done(Err(e)) => CallActionView::Done(Err(e@)),
        }
    }
}

/// The value of an optional action.
pub open spec fn action_option(action: Option<CallAction>) -> Option<CallActionView> {
    match action {
        Some(a) => Some(a@),
        None => None,
    }
}

/// How a reply that does not reject the credential ends a call.
pub open spec fn judge(kind: CallKind, status: u16, body: Seq<char>) -> Result<
    Option<Seq<char>>,
    ErrorView,
> {
    match kind {
        CallKind::CreateFolder => match folder_reply_spec(
            status,
            json_string_member(body, "id"@),
            body,
        ) {
            Ok(id) => Ok(Some(id)),
            Err(e) => Err(e),
        },
        CallKind::Upload => match upload_reply_spec(status, body) {
            Ok(_) => Ok(None),
            Err(e) => Err(e),
        },
    }
}

/// How a token exchange ended, read from the event that reports it.
pub open spec fn exchange_of(event: CallEventView) -> Result<Seq<char>, ErrorView> {
    match event {
        CallEventView::Reply { status, body } => token_reply_spec(
            status,
            json_string_member(body, "access_token"@),
        ),
        CallEventView::Failed(_) => Err(ErrorView::Auth),
    }
}

/// One step of a call: the call and the stored token after `event`, and the
/// next action, if the call was not over already.
///
/// A rejected credential leads to one token exchange. Whatever that exchange
/// gives, the call then ends as failed; it is never sent again.
pub open spec fn call_step(call: Call, held: Seq<char>, event: CallEventView) -> (
    Call,
    Seq<char>,
    Option<CallActionView>,
) {
    let over = Call { kind: call.kind, phase: Phase::Over };
    match call.phase {
        Phase::Over => (call, held, None),
        Phase::Sent => match event {
            CallEventView::Failed(e) => (over, held, Some(CallActionView::Done(Err(e)))),
            CallEventView::Reply { status, body } => if status == UNAUTHORIZED {
                (
                    Call { kind: call.kind, phase: Phase::Refreshing },
                    held,
                    Some(CallActionView::Refresh),
                )
            } else {
                (over, held, Some(CallActionView::Done(judge(call.kind, status, body))))
            },
        },
        Phase::Refreshing => (
            over,
            token_after_refresh(held, exchange_of(event)),
            Some(CallActionView::Done(Err(error_after_refresh(exchange_of(event))))),
        ),
    }
}

impl Call {
    /// Starts a call: its request goes out with a snapshot of the token that
    /// the store holds now.
    pub fn begin(kind: CallKind, store: &CredentialStore) -> (r: (Call, CallAction))
        ensures
            r.0 == (Call { kind, phase: Phase::Sent }),
            r.1@ == (CallActionView::Send { token: store@ }),
    {
        (Call { kind, phase: Phase::Sent }, CallAction::Send { token: store.read() })
    }

    /// Takes in what came of the last action and names the next one; `None`
    /// when the call was over already.
    pub fn on_event(&mut self, store: &mut CredentialStore, event: CallEvent) -> (action: Option<
        CallAction,
    >)
        ensures
            *final(self) == call_step(*old(self), old(store)@, event@).0,
            final(store)@ == call_step(*old(self), old(store)@, event@).1,
            action_option(action) == call_step(*old(self), old(store)@, event@).2,
    {
        match self.phase {
            Phase::Over => None,
            Phase::Sent => {
                match event {
                    CallEvent::Failed(e) => {
                        self.phase = Phase::Over;
                        Some(CallAction::Done(Err(e)))
                    },
                    CallEvent::Reply { status, body } => {
                        if refresh_due(status) {
                            self.phase = Phase::Refreshing;
                            Some(CallAction::Refresh)
                        } else {
                            let judged = match self.kind {
                                CallKind::CreateFolder => match read_folder_reply(
                                    status,
                                    body.as_str(),
                                ) {
                                    Ok(id) => Ok(Some(id)),
                                    Err(e) => Err(e),
                                },
                                CallKind::Upload => match read_upload_reply(status, body.as_str()) {
                                    Ok(_) => Ok(None),
                                    Err(e) => Err(e),
                                },
                            };
                            self.phase = Phase::Over;
                            Some(CallAction::Done(judged))
                        }
                    },
                }
            },
            Phase::Refreshing => {
                let exchange = match event {
                    CallEvent::Reply { status, body } => read_token_reply(status, body.as_str()),
                    CallEvent::Failed(_) => Err(UploadError::Auth),
                };
                let e = settle_refresh(store, exchange);
                self.phase = Phase::Over;
                Some(CallAction::Done(Err(e)))
            },
        }
    }
}

/// A call whose credential is rejected asks for exactly one token exchange,
/// and the stored token is still the old one while that exchange runs. The
/// answer to the exchange ends the call as failed, with no second exchange
/// and no second request; the store then holds the new token if the
/// exchange gave one and the old one if not, and every call begun afterwards
/// is sent with what the store then holds.
pub proof fn law_rejection_renews_once(
    kind: CallKind,
    held: Seq<char>,
    body: Seq<char>,
    answer: CallEventView,
    later: CallEventView,
)
    ensures
        ({
            let sent = Call { kind, phase: Phase::Sent };
            let rejected = call_step(sent, held, CallEventView::Reply { status: UNAUTHORIZED, body });
            let settled = call_step(rejected.0, rejected.1, answer);
            &&& rejected.2 == Some(CallActionView::Refresh)
            &&& rejected.1 == held
            &&& settled.2 matches Some(CallActionView::Done(Err(_)))
            &&& settled.0.phase == Phase::Over
            &&& settled.1 == token_after_refresh(held, exchange_of(answer))
            &&& (exchange_of(answer) matches Ok(token) ==> settled.1 == token)
            &&& (exchange_of(answer) is Err ==> settled.1 == held)
            &&& call_step(settled.0, settled.1, later) == (settled.0, settled.1, None::<CallActionView>)
        }),
{
}

/// A reply that does not reject the credential ends the call at once: no
/// token exchange is asked for and the stored token stays.
pub proof fn law_no_renewal_without_rejection(
    kind: CallKind,
    held: Seq<char>,
    status: u16,
    body: Seq<char>,
)
    requires
        status != UNAUTHORIZED,
    ensures
        ({
            let sent = Call { kind, phase: Phase::Sent };
            let next = call_step(sent, held, CallEventView::Reply { status, body });
            &&& next.2 == Some(CallActionView::Done(judge(kind, status, body)))
            &&& next.1 == held
            &&& next.0.phase == Phase::Over
        }),
{
}

} // verus!
