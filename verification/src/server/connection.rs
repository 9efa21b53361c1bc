//! The state a server keeps per connection, and how requests change it:
//! the authorization key named by a frame, the session the first encrypted
//! request fixes, the signed-in flag, and the identifiers of responses.
use vstd::prelude::*;
use crate::server::session::{MessageIds, SessionError, accept_session_id, needs_key_lookup,
    next_msg_id_spec, session_check};
use crate::server::auth_flow::AuthKeyFlow;
use crate::server::login::{LoginFlow, LoginView};
use crate::buffer_model::zeros;
use crate::text::{decimal, decimal_spec, push_str};

verus! {

/// The per-connection state of the server.
pub struct SessionState {
    pub closed: bool,
    pub authorized: bool,
    pub encrypted: bool,
    pub auth_key_id: i64,
    pub auth_key: Vec<u8>,
    pub auth_key_flow: AuthKeyFlow,
    pub login_flow: LoginFlow,
    pub id: i64,
    pub ids: MessageIds,
}

/// What a frame's key identifier asks of the connection.
#[derive(Debug, Clone, Copy, PartialEq, Eq, Structural)]
pub enum KeyStep {
    /// Look the named key up before going on.
    LookUp(i64),
    /// Go on with the connection's current key, if any.
    Keep,
}

/// The text of the error for a key that cannot be found.
pub fn missing_key_message(auth_key_id: i64) -> (s: String)
    ensures
        s@ == "cannot find auth_key for "@ + decimal_spec(auth_key_id as int),
{
    let mut s = String::from_str("cannot find auth_key for ");
    let d = decimal(auth_key_id);
    push_str(&mut s, d.as_str());
    s
}

impl SessionState {
    /// A new connection: open, unauthorized, unencrypted, with a zero key of
    /// 256 bytes and no session yet.
    pub fn new() -> (s: SessionState)
        ensures
            !s.closed && !s.authorized && !s.encrypted,
            s.auth_key_id == 0 && s.id == 0,
            s.auth_key@ == zeros(256),
            s.ids@ == (0int, 0int),
            s.login_flow@ == (LoginView { phone_number: Seq::empty(), verified: false, code: Seq::empty() }),
            s.auth_key_flow.g == 3,
    {
        let mut key: Vec<u8> = Vec::new();
        let mut k: usize = 0;
        while k < 256
            invariant
                k <= 256,
                key@ == zeros(k as int),
            decreases 256 - k,
        {
            key.push(0);
            k = k + 1;
            assert(key@ =~= zeros(k as int));
        }
        SessionState {
            closed: false,
            authorized: false,
            encrypted: false,
            auth_key_id: 0,
            auth_key: key,
            auth_key_flow: AuthKeyFlow::new(),
            login_flow: LoginFlow::new(),
            id: 0,
            ids: MessageIds::new(),
        }
    }

    /// A frame names the key `auth_key_id`: an unencrypted connection looks
    /// a named key up; otherwise it goes on.
    pub fn on_frame_key(&self, auth_key_id: i64) -> (step: KeyStep)
        ensures
            step == if !self.encrypted && auth_key_id != 0 {
                KeyStep::LookUp(auth_key_id)
            } else {
                KeyStep::Keep
            },
    {
        if needs_key_lookup(self.encrypted, auth_key_id) {
            KeyStep::LookUp(auth_key_id)
        } else {
            KeyStep::Keep
        }
    }

    /// The looked-up key was found: the connection is encrypted with it.
    pub fn on_key_found(&mut self, auth_key_id: i64, auth_key: Vec<u8>)
        ensures
            *final(self) == (SessionState { encrypted: true, auth_key_id, auth_key, ..*old(self) }),
    {
        self.auth_key = auth_key;
        self.auth_key_id = auth_key_id;
        self.encrypted = true;
    }

    /// The looked-up key is missing: the connection closes with an error.
    pub fn on_key_missing(&mut self, auth_key_id: i64) -> (message: String)
        ensures
            *final(self) == (SessionState { closed: true, ..*old(self) }),
            message@ == "cannot find auth_key for "@ + decimal_spec(auth_key_id as int),
    {
        self.closed = true;
        missing_key_message(auth_key_id)
    }

    /// An encrypted request names the session `session_id`.  The first one
    /// fixes the connection's session; the result says whether this one did,
    /// in which case the caller looks the signed-in user up.
    pub fn on_session(&mut self, session_id: i64) -> (r: Result<bool, SessionError>)
        ensures
            match session_check(old(self).id, session_id) {
                Ok((id, first)) => r == Ok::<bool, SessionError>(first) && final(self).id == id,
                Err(e) => r == Err::<bool, SessionError>(e) && final(self).id == old(self).id,
            },
            session_id == 0 ==> r == Err::<bool, SessionError>(SessionError::ZeroSessionId),
            old(self).id == 0 && session_id != 0 ==> r == Ok::<bool, SessionError>(true) && final(self).id
                == session_id,
            old(self).id != 0 && session_id != 0 && session_id != old(self).id ==> r == Err::<
                bool,
                SessionError,
            >(SessionError::SessionChanged),
            *final(self) == (SessionState { id: final(self).id, ..*old(self) }),
    {
        match accept_session_id(self.id, session_id) {
            Ok((id, first)) => {
                self.id = id;
                Ok(first)
            },
            Err(e) => Err(e),
        }
    }

    /// The signed-in user of the session was found.
    pub fn on_user_found(&mut self)
        ensures
            *final(self) == (SessionState { authorized: true, ..*old(self) }),
    {
        self.authorized = true;
    }

    /// The identifier of the next response, at the clock reading `secs`
    /// seconds and `nanos` nanoseconds.
    pub fn get_msg_id(&mut self, secs: u64, nanos: u32) -> (id: i64)
        requires
            nanos < 1_000_000_000,
            old(self).ids@.0 <= i64::MAX - 5,
        ensures
            (final(self).ids@.0, id as int) == next_msg_id_spec(old(self).ids@.0, secs, nanos),
            old(self).ids@.0 % 4 == 0,
            id % 4 == 1,
            id == final(self).ids@.0 + 1,
            final(self).ids@.0 >= old(self).ids@.0 + 4,
            final(self).ids@.1 == old(self).ids@.1,
            *final(self) == (SessionState { ids: final(self).ids, ..*old(self) }),
    {
        self.ids.next_msg_id(secs, nanos)
    }

    /// The sequence number of the next response.
    pub fn get_seq_no(&mut self) -> (n: i32)
        requires
            old(self).ids@.1 < i32::MAX,
        ensures
            n == old(self).ids@.1,
            final(self).ids@ == (old(self).ids@.0, old(self).ids@.1 + 1),
            *final(self) == (SessionState { ids: final(self).ids, ..*old(self) }),
    {
        self.ids.next_seq_no()
    }
}

/// What a decoded message of a request batch is, as far as the connection
/// loop tells messages apart.
#[derive(Debug)]
pub enum Incoming {
    /// A message whose body could not be decoded, with its identifier and
    /// the decoder's complaint.
    Undecodable { msg_id: i64, error: String },
    /// An acknowledgement of messages the server sent.
    Ack,
    /// A result the client sends back, which the server does not answer.
    Result,
    /// Any other object: a call to answer.
    Request,
}

/// An error answer: wrapped as the result of the request `req_msg_id` where
/// there is one, with its code and text.
#[derive(Debug)]
pub struct ErrorReply {
    pub req_msg_id: Option<i64>,
    pub error_code: i32,
    pub error_message: String,
}

/// What the connection loop does with one incoming message.
#[derive(Debug)]
pub enum Reaction {
    /// Answers at once with an error.
    Reply(ErrorReply),
    /// Leaves the message unanswered.
    Skip,
    /// Hands the call to its handler.
    Invoke,
}

/// How the loop reacts to `m`: an undecodable message gets a code-0 error
/// naming the complaint, as the result of that message; acknowledgements
/// and results are skipped; everything else goes to a handler.
pub open spec fn reacts(m: Incoming, r: Reaction) -> bool {
    match m {
        Incoming::Undecodable { msg_id, error } => r matches Reaction::Reply(e) && e.req_msg_id == Some(msg_id)
            && e.error_code == 0 && e.error_message@ == "deserialization error: "@ + error@,
        Incoming::Ack => r is Skip,
        Incoming::Result => r is Skip,
        Incoming::Request => r is Invoke,
    }
}

/// The loop answers an undecodable message with a code-0 error naming the
/// complaint, as the result of that message; it skips acknowledgements and
/// results; it hands everything else to a handler.
pub fn response_action(m: Incoming) -> (r: Reaction)
    ensures
        reacts(m, r),
{
    match m {
        Incoming::Undecodable { msg_id, error } => {
            let mut text = String::from_str("deserialization error: ");
            push_str(&mut text, error.as_str());
            Reaction::Reply(ErrorReply { req_msg_id: Some(msg_id), error_code: 0, error_message: text })
        },
        Incoming::Ack => Reaction::Skip,
        Incoming::Result => Reaction::Skip,
        Incoming::Request => Reaction::Invoke,
    }
}

/// The answer to a call whose handler failed: a bare code-0 error carrying
/// the failure's text.
pub fn failed_call_reply(error: String) -> (e: ErrorReply)
    ensures
        e.req_msg_id is None,
        e.error_code == 0,
        e.error_message@ == error@,
{
    ErrorReply { req_msg_id: None, error_code: 0, error_message: error }
}

/// The reactions to a batch of messages, one per message, in order.
pub fn batch_reactions(messages: Vec<Incoming>) -> (r: Vec<Reaction>)
    ensures
        r@.len() == messages@.len(),
        forall|i: int| 0 <= i < messages@.len() ==> reacts(messages@[i], #[trigger] r@[i]),
{
    let ghost all = messages@;
    let mut rest = messages;
    let mut r: Vec<Reaction> = Vec::new();
    while rest.len() > 0
        invariant
            r@.len() + rest@.len() == all.len(),
            rest@ == all.subrange(r@.len() as int, all.len() as int),
            forall|i: int| 0 <= i < r@.len() ==> reacts(all[i], #[trigger] r@[i]),
        decreases rest@.len(),
    {
        let ghost before = r@;
        let m = rest.remove(0);
        let a = response_action(m);
        r.push(a);
        assert(rest@ =~= all.subrange(r@.len() as int, all.len() as int));
        assert forall|i: int| 0 <= i < r@.len() implies reacts(all[i], #[trigger] r@[i]) by {
            if i < before.len() {
                assert(r@[i] == before[i]);
            }
        }
    }
    r
}

} // verus!
