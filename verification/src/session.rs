//! Per-connection session state machine.
//!
//! A session arbitrates three kinds of protocol events: password
//! authentication (always accepted, credentials captured once), channel
//! admission (bounded by [`crate::MAX_OPEN_CHANNELS`]), and shell or exec
//! requests, which consume their channel and synthesize a taunt response
//! embedding the captured credentials and, for exec, the submitted command
//! bytes unchanged.

use vstd::prelude::*;
use vstd::hash_set::HashSetWithView;
use vstd::slice::slice_to_vec;
use vstd::string::StringSliceAdditionalSpecFns;
use crate::byteseq::append_bytes;
use crate::MAX_OPEN_CHANNELS;

verus! {

// ---------------------------------------------------------------------------
// Taunt composition
// ---------------------------------------------------------------------------

pub open spec fn taunt_prefix() -> Seq<u8> {
    "baka mahou syouzyo `".spec_bytes()
}

pub open spec fn taunt_secret() -> Seq<u8> {
    "` ~ I got your secret~ `".spec_bytes()
}

pub open spec fn taunt_close() -> Seq<u8> {
    "`".spec_bytes()
}

pub open spec fn taunt_command() -> Seq<u8> {
    "`, want to do this `".spec_bytes()
}

pub open spec fn taunt_query() -> Seq<u8> {
    "`~?".spec_bytes()
}

/// Response to a shell request: the captured credentials, verbatim.
pub open spec fn shell_taunt(user: Seq<u8>, password: Seq<u8>) -> Seq<u8> {
    taunt_prefix() + user + taunt_secret() + password + taunt_close()
}

/// Response to an exec request: the captured credentials and the submitted
/// command bytes, all verbatim.
pub open spec fn exec_taunt(user: Seq<u8>, password: Seq<u8>, command: Seq<u8>) -> Seq<u8> {
    taunt_prefix() + user + taunt_secret() + password + taunt_command() + command + taunt_query()
}

pub fn compose_shell_taunt(user: &[u8], password: &[u8]) -> (r: Vec<u8>)
    ensures
        r@ == shell_taunt(user@, password@),
{
    let mut out: Vec<u8> = Vec::new();
    append_bytes(&mut out, "baka mahou syouzyo `".as_bytes());
    append_bytes(&mut out, user);
    append_bytes(&mut out, "` ~ I got your secret~ `".as_bytes());
    append_bytes(&mut out, password);
    append_bytes(&mut out, "`".as_bytes());
    out
}

pub fn compose_exec_taunt(user: &[u8], password: &[u8], command: &[u8]) -> (r: Vec<u8>)
    ensures
        r@ == exec_taunt(user@, password@, command@),
{
    let mut out: Vec<u8> = Vec::new();
    append_bytes(&mut out, "baka mahou syouzyo `".as_bytes());
    append_bytes(&mut out, user);
    append_bytes(&mut out, "` ~ I got your secret~ `".as_bytes());
    append_bytes(&mut out, password);
    append_bytes(&mut out, "`, want to do this `".as_bytes());
    append_bytes(&mut out, command);
    append_bytes(&mut out, "`~?".as_bytes());
    out
}

// ---------------------------------------------------------------------------
// Session state and transitions
// ---------------------------------------------------------------------------

/// Mathematical state of a session.
pub struct SessionView {
    /// Credentials captured by the first password attempt, if any.
    pub captured: Option<(Seq<u8>, Seq<u8>)>,
    /// Identifiers of the channels currently open.
    pub channels: Set<u64>,
    /// Whether submitted commands are additionally surfaced to logging.
    pub debug: bool,
}

/// Decision reported to the transport for an authentication attempt.
#[derive(Debug, Clone, Copy, PartialEq, Eq, Structural)]
pub enum AuthDecision {
    Accept,
    Reject,
}

/// Errors that terminate the session.
#[derive(Debug, Clone, Copy, PartialEq, Eq, Structural)]
pub enum SessionError {
    /// The channel cap was exceeded; the connection is disconnected.
    Disconnect,
    /// A shell or exec request arrived before any credential capture.
    ProtocolViolation,
}

/// What a shell or exec request leads to.
pub enum ConsumeOutcome {
    /// The addressed channel is not open (already consumed or never
    /// admitted): the request is a no-op.
    Ignored,
    /// No credentials were ever captured: protocol-sequence violation.
    Violation,
    /// The channel is consumed and these bytes are the response.
    Responded(Seq<u8>),
}

/// State of a session that has just been accepted.
pub open spec fn fresh_session(debug: bool) -> SessionView {
    SessionView { captured: None, channels: Set::empty(), debug }
}

/// A password attempt is always accepted; only the first attempt's
/// credentials are retained.
pub open spec fn auth_password_step(s: SessionView, user: Seq<u8>, password: Seq<u8>) -> SessionView {
    if s.captured is None {
        SessionView { captured: Some((user, password)), ..s }
    } else {
        s
    }
}

/// Whether a further channel may be admitted.
pub open spec fn channel_admitted(s: SessionView) -> bool {
    s.channels.len() < MAX_OPEN_CHANNELS as nat
}

/// A channel open request either admits the channel or, past the cap,
/// leaves the state to be torn down by a disconnect.
pub open spec fn channel_open_step(s: SessionView, id: u64) -> SessionView {
    if channel_admitted(s) {
        SessionView { channels: s.channels.insert(id), ..s }
    } else {
        s
    }
}

/// A shell (`command` is `None`) or exec (`command` is `Some`) request:
/// consumes the addressed channel and yields the response, if any.
pub open spec fn consume_step(s: SessionView, id: u64, command: Option<Seq<u8>>) -> (
    SessionView,
    ConsumeOutcome,
) {
    if !s.channels.contains(id) {
        (s, ConsumeOutcome::Ignored)
    } else {
        let after = SessionView { channels: s.channels.remove(id), ..s };
        match s.captured {
            None => (after, ConsumeOutcome::Violation),
            Some(cred) => (
                after,
                ConsumeOutcome::Responded(
                    match command {
                        None => shell_taunt(cred.0, cred.1),
                        Some(c) => exec_taunt(cred.0, cred.1, c),
                    },
                ),
            ),
        }
    }
}

/// Per-connection session: captured credentials and open channels.
pub struct Session {
    captured: Option<(Vec<u8>, Vec<u8>)>,
    channels: HashSetWithView<u64>,
    debug: bool,
}

impl View for Session {
    type V = SessionView;

    closed spec fn view(&self) -> SessionView {
        SessionView {
            captured: match self.captured {
                None => None,
                Some(cred) => Some((cred.0@, cred.1@)),
            },
            channels: self.channels@,
            debug: self.debug,
        }
    }
}

impl Session {
    /// The channel set is finite and never exceeds the cap.
    pub open spec fn wf(self) -> bool {
        &&& self@.channels.finite()
        &&& self@.channels.len() <= MAX_OPEN_CHANNELS as nat
    }

    /// A fresh session for a newly accepted connection.
    pub fn new(debug: bool) -> (s: Session)
        ensures
            s@ == fresh_session(debug),
            s.wf(),
    {
        let s = Session { captured: None, channels: HashSetWithView::new(), debug };
        proof {
            assert(s@ =~= fresh_session(debug));
        }
        s
    }

    /// Password authentication: unconditionally accepted, credentials
    /// captured on the first attempt only.  The caller forwards every
    /// attempt to the credential ledger as a best-effort write.
    pub fn on_auth_password(&mut self, user: &[u8], password: &[u8]) -> (r: AuthDecision)
        requires
            old(self).wf(),
        ensures
            final(self).wf(),
            final(self)@ == auth_password_step(old(self)@, user@, password@),
            r == AuthDecision::Accept,
    {
        if self.captured.is_none() {
            self.captured = Some((slice_to_vec(user), slice_to_vec(password)));
        }
        proof {
            assert(self@ =~= auth_password_step(old(self)@, user@, password@));
        }
        AuthDecision::Accept
    }

    /// Public-key authentication: pure decoy, unconditionally rejected.
    pub fn on_auth_publickey(&self) -> (r: AuthDecision)
        ensures
            r == AuthDecision::Reject,
    {
        AuthDecision::Reject
    }

    /// Channel admission: admits the channel unless the cap is reached, in
    /// which case the session is disconnected.
    pub fn on_channel_open(&mut self, id: u64) -> (r: Result<(), SessionError>)
        requires
            old(self).wf(),
            !old(self)@.channels.contains(id),
        ensures
            final(self).wf(),
            final(self)@ == channel_open_step(old(self)@, id),
            r is Ok <==> channel_admitted(old(self)@),
            r is Err ==> r == Err::<(), SessionError>(SessionError::Disconnect),
    {
        if self.channels.len() >= MAX_OPEN_CHANNELS {
            proof {
                assert(self@ =~= channel_open_step(old(self)@, id));
            }
            return Err(SessionError::Disconnect);
        }
        self.channels.insert(id);
        proof {
            assert(self@ =~= channel_open_step(old(self)@, id));
        }
        Ok(())
    }

    /// Shell request on `id`: consumes the channel and returns the taunt to
    /// write, `Ok(None)` when the channel is not open.
    pub fn on_shell_request(&mut self, id: u64) -> (r: Result<Option<Vec<u8>>, SessionError>)
        requires
            old(self).wf(),
        ensures
            final(self).wf(),
            final(self)@ == consume_step(old(self)@, id, None).0,
            (match consume_step(old(self)@, id, None).1 {
                ConsumeOutcome::Ignored => r == Ok::<Option<Vec<u8>>, SessionError>(None),
                ConsumeOutcome::Violation => r == Err::<Option<Vec<u8>>, SessionError>(
                    SessionError::ProtocolViolation,
                ),
                ConsumeOutcome::Responded(bytes) => r matches Ok(resp) && resp matches Some(v)
                    && v@ == bytes,
            }),
    {
        self.consume_channel(id, None)
    }

    /// Exec request on `id`: as a shell request, with the submitted command
    /// bytes echoed back unchanged inside the taunt.
    pub fn on_exec_request(&mut self, id: u64, command: &[u8]) -> (r: Result<
        Option<Vec<u8>>,
        SessionError,
    >)
        requires
            old(self).wf(),
        ensures
            final(self).wf(),
            final(self)@ == consume_step(old(self)@, id, Some(command@)).0,
            (match consume_step(old(self)@, id, Some(command@)).1 {
                ConsumeOutcome::Ignored => r == Ok::<Option<Vec<u8>>, SessionError>(None),
                ConsumeOutcome::Violation => r == Err::<Option<Vec<u8>>, SessionError>(
                    SessionError::ProtocolViolation,
                ),
                ConsumeOutcome::Responded(bytes) => r matches Ok(resp) && resp matches Some(v)
                    && v@ == bytes,
            }),
    {
        self.consume_channel(id, Some(command))
    }

    /// Shared body of shell and exec handling.
    fn consume_channel(&mut self, id: u64, command: Option<&[u8]>) -> (r: Result<
        Option<Vec<u8>>,
        SessionError,
    >)
        requires
            old(self).wf(),
        ensures
            final(self).wf(),
            final(self)@ == consume_step(
                old(self)@,
                id,
                match command {
                    None => None,
                    Some(c) => Some(c@),
                },
            ).0,
            (match consume_step(
                old(self)@,
                id,
                match command {
                    None => None,
                    Some(c) => Some(c@),
                },
            ).1 {
                ConsumeOutcome::Ignored => r == Ok::<Option<Vec<u8>>, SessionError>(None),
                ConsumeOutcome::Violation => r == Err::<Option<Vec<u8>>, SessionError>(
                    SessionError::ProtocolViolation,
                ),
                ConsumeOutcome::Responded(bytes) => r matches Ok(resp) && resp matches Some(v)
                    && v@ == bytes,
            }),
    {
        if !self.channels.contains(&id) {
            return Ok(None);
        }
        self.channels.remove(&id);
        match &self.captured {
            None => Err(SessionError::ProtocolViolation),
            Some(cred) => {
                let taunt = match command {
                    None => compose_shell_taunt(cred.0.as_slice(), cred.1.as_slice()),
                    Some(c) => compose_exec_taunt(cred.0.as_slice(), cred.1.as_slice(), c),
                };
                Ok(Some(taunt))
            },
        }
    }

    /// Whether commands are additionally surfaced to logging.
    pub fn debug_enabled(&self) -> (r: bool)
        ensures
            r == self@.debug,
    {
        self.debug
    }
}

// ---------------------------------------------------------------------------
// Laws
// ---------------------------------------------------------------------------

/// The session after opening the given channels, one after another.
pub open spec fn open_many(s: SessionView, ids: Seq<u64>) -> SessionView
    decreases ids.len(),
{
    if ids.len() == 0 {
        s
    } else {
        channel_open_step(open_many(s, ids.drop_last()), ids.last())
    }
}

proof fn lemma_open_many_from_fresh(debug: bool, ids: Seq<u64>)
    requires
        ids.no_duplicates(),
        ids.len() <= MAX_OPEN_CHANNELS as nat,
    ensures
        open_many(fresh_session(debug), ids).channels =~= ids.to_set(),
        open_many(fresh_session(debug), ids).channels.finite(),
        open_many(fresh_session(debug), ids).channels.len() == ids.len(),
    decreases ids.len(),
{
    broadcast use vstd::seq_lib::group_seq_properties;

    if ids.len() == 0 {
        assert(open_many(fresh_session(debug), ids).channels =~= ids.to_set());
    } else {
        let prefix = ids.drop_last();
        assert(prefix.no_duplicates());
        lemma_open_many_from_fresh(debug, prefix);
        let before = open_many(fresh_session(debug), prefix);
        assert(channel_admitted(before));
        assert(!prefix.contains(ids.last()));
        assert(!before.channels.contains(ids.last()));
        assert(prefix.push(ids.last()) =~= ids);
        prefix.lemma_push_to_set_commute(ids.last());
        assert(open_many(fresh_session(debug), ids).channels =~= ids.to_set());
    }
}

/// Law: starting from a fresh session, each of the first sixteen channel
/// opens (with distinct ids) is admitted, and the open attempt that follows
/// them is refused, which disconnects the session.
pub proof fn law_channel_cap(debug: bool, ids: Seq<u64>)
    requires
        ids.no_duplicates(),
        ids.len() == MAX_OPEN_CHANNELS as nat,
    ensures
        forall|i: int|
            0 <= i < ids.len() ==> channel_admitted(
                open_many(fresh_session(debug), #[trigger] ids.take(i)),
            ),
        !channel_admitted(open_many(fresh_session(debug), ids)),
{
    assert forall|i: int|
        0 <= i < ids.len() implies channel_admitted(
        open_many(fresh_session(debug), #[trigger] ids.take(i)),
    ) by {
        let prefix = ids.take(i);
        assert(prefix.no_duplicates()) by {
            assert(forall|m: int, n: int|
                0 <= m < n < prefix.len() ==> prefix[m] == ids[m] && prefix[n] == ids[n]);
        }
        lemma_open_many_from_fresh(debug, prefix);
    }
    lemma_open_many_from_fresh(debug, ids);
}

/// Law: a shell or exec request in a session that never captured
/// credentials fails with the protocol-sequence violation and never
/// produces a response.
pub proof fn law_no_capture_no_response(s: SessionView, id: u64, command: Option<Seq<u8>>)
    requires
        s.captured is None,
    ensures
        s.channels.contains(id) ==> consume_step(s, id, command).1 is Violation,
        !(consume_step(s, id, command).1 is Responded),
{
}

/// Law: the response to an exec request embeds the submitted command bytes
/// unchanged, whatever they are, at a fixed offset after the credentials.
pub proof fn law_exec_response_echoes_command(user: Seq<u8>, password: Seq<u8>, command: Seq<u8>)
    ensures
        ({
            let response = exec_taunt(user, password, command);
            let start = taunt_prefix().len() + user.len() + taunt_secret().len() + password.len()
                + taunt_command().len();
            &&& response.len() == start + command.len() + taunt_query().len()
            &&& response.subrange(start as int, (start + command.len()) as int) == command
        }),
{
    let response = exec_taunt(user, password, command);
    let start = taunt_prefix().len() + user.len() + taunt_secret().len() + password.len()
        + taunt_command().len();
    assert(response.subrange(start as int, (start + command.len()) as int) =~= command);
}

/// Law: a consumed channel cannot be addressed again: its id leaves the
/// open set, and a repeated shell or exec request for it is a no-op.
pub proof fn law_channel_single_use(
    s: SessionView,
    id: u64,
    first: Option<Seq<u8>>,
    second: Option<Seq<u8>>,
)
    requires
        s.channels.contains(id),
    ensures
        !consume_step(s, id, first).0.channels.contains(id),
        consume_step(consume_step(s, id, first).0, id, second).1 is Ignored,
        consume_step(consume_step(s, id, first).0, id, second).0 == consume_step(s, id, first).0,
{
}

} // verus!
