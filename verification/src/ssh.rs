//! The SSH side of the session multiplexer: session identifiers, output
//! chunks, the error taxonomy, and the session registry that owns every
//! live session and arbitrates its lifecycle.

use vstd::map::*;
use vstd::prelude::*;

use crate::pump::{Pump, PumpModel, ReadEvent};
use crate::text::{spec_dec, spec_trim, trim_ascii_ws, u64_to_dec};
use crate::upload::{TransportFlag, UploadPhase, UploadTask};

verus! {

/// Type-safe session identifier, unique across the process lifetime.
#[derive(Debug, Eq, Hash)]
pub struct SessionId(pub String);

impl View for SessionId {
    type V = Seq<char>;

    open spec fn view(&self) -> Seq<char> {
        self.0@
    }
}

impl SessionId {
    /// Borrows the underlying string.
    pub fn as_str(&self) -> (r: &str)
        ensures
            r@ == self@,
    {
        self.0.as_str()
    }
}

impl Clone for SessionId {
    fn clone(&self) -> (r: Self)
        ensures
            r == *self,
    {
        SessionId(self.0.clone())
    }
}

impl PartialEq for SessionId {
    fn eq(&self, other: &Self) -> (r: bool) {
        self.0 == other.0
    }
}

impl vstd::std_specs::cmp::PartialEqSpecImpl for SessionId {
    open spec fn obeys_eq_spec() -> bool {
        true
    }

    open spec fn eq_spec(&self, other: &Self) -> bool {
        self.0@ == other.0@
    }
}

impl From<String> for SessionId {
    fn from(s: String) -> (r: Self) {
        SessionId(s)
    }
}

impl vstd::std_specs::convert::FromSpecImpl<String> for SessionId {
    open spec fn obeys_from_spec() -> bool {
        true
    }

    open spec fn from_spec(s: String) -> Self {
        SessionId(s)
    }
}

/// SSH connection configuration kept for a live session.
#[derive(Debug)]
pub struct SshSession {
    pub ip: String,
    pub port: u16,
    pub username: String,
}

impl Clone for SshSession {
    fn clone(&self) -> (r: Self)
        ensures
            r == *self,
    {
        SshSession { ip: self.ip.clone(), port: self.port, username: self.username.clone() }
    }
}

/// A sequenced segment of terminal output, the only unit of delivery.
///
/// `seq` increases by one per emission, starting at 1 for each session;
/// `ts` is the emission time in milliseconds since the epoch.
#[derive(Debug)]
pub struct OutputChunk {
    pub seq: u64,
    pub output: String,
    pub ts: u64,
}

/// Mathematical model of an output chunk, used throughout the contracts.
#[verifier::ext_equal]
pub struct ChunkModel {
    pub seq: u64,
    pub output: Seq<char>,
    pub ts: u64,
}

impl View for OutputChunk {
    type V = ChunkModel;

    open spec fn view(&self) -> ChunkModel {
        ChunkModel { seq: self.seq, output: self.output@, ts: self.ts }
    }
}

/// The models of a sequence of chunks.
pub open spec fn chunks_view(v: Seq<OutputChunk>) -> Seq<ChunkModel> {
    v.map_values(|c: OutputChunk| c@)
}

/// A gap-free emission history: chunk `i` carries sequence number `i + 1`.
/// Both the SSH pump and the local-PTY reader maintain this shape.
pub open spec fn consecutive_seqs(emitted: Seq<ChunkModel>) -> bool {
    forall|i: int| 0 <= i < emitted.len() ==> (#[trigger] emitted[i]).seq == i + 1
}

/// Sequence monotonicity: within one session, chunks are emitted with
/// strictly increasing sequence numbers.
pub proof fn lemma_seq_monotonic(emitted: Seq<ChunkModel>, i: int, j: int)
    requires
        consecutive_seqs(emitted),
        0 <= i < j < emitted.len(),
    ensures
        emitted[i].seq < emitted[j].seq,
{
}

/// No gaps: within one session, the multiset of emitted sequence numbers
/// is exactly `{1, 2, ..., N}`, where `N` is the number of chunks emitted.
pub proof fn lemma_no_gaps(emitted: Seq<ChunkModel>)
    requires
        consecutive_seqs(emitted),
    ensures
        emitted.map_values(|c: ChunkModel| c.seq).to_multiset() == Seq::new(
            emitted.len(),
            |i: int| (i + 1) as u64,
        ).to_multiset(),
{
    assert(emitted.map_values(|c: ChunkModel| c.seq) =~= Seq::new(
        emitted.len(),
        |i: int| (i + 1) as u64,
    ));
}

impl OutputChunk {
    /// Creates a chunk stamped with the given emission time.
    pub fn new(seq: u64, output: String, ts: u64) -> (r: Self)
        ensures
            r.seq == seq,
            r.output == output,
            r.ts == ts,
    {
        OutputChunk { seq, output, ts }
    }
}

impl Clone for OutputChunk {
    fn clone(&self) -> (r: Self)
        ensures
            r == *self,
    {
        OutputChunk { seq: self.seq, output: self.output.clone(), ts: self.ts }
    }
}

/// Error taxonomy for SSH operations, with human-readable context.
#[derive(Debug)]
pub enum SshError {
    /// DNS resolution, TCP connection or handshake failure.
    ConnectionFailed { host: String, port: u16, reason: String },
    /// Explicit credential rejection, or post-auth state not authenticated.
    AuthenticationFailed(String),
    /// Generic runtime failure: session create, exec, parse.
    OperationFailed(String),
    /// Channel open, PTY, shell or resize failure.
    ChannelError(String),
    /// Registry lookup miss.
    SessionNotFound(String),
    /// An internal invariant about shared state was violated.
    LockPoisoned(String),
    /// Background task join failure.
    TaskError(String),
}

impl SshError {
    /// The display message of the error, for contracts.
    pub open spec fn spec_message(self) -> Seq<char> {
        match self {
            SshError::ConnectionFailed { host, port, reason } => "Failed to connect to "@
                + host@ + ":"@ + spec_dec(port as nat) + " - "@ + reason@,
            SshError::AuthenticationFailed(r) => "Authentication failed: "@ + r@,
            SshError::OperationFailed(r) => "SSH operation failed: "@ + r@,
            SshError::ChannelError(r) => "Channel error: "@ + r@,
            SshError::SessionNotFound(r) => "Session not found: "@ + r@,
            SshError::LockPoisoned(r) => "State lock poisoned: "@ + r@,
            SshError::TaskError(r) => "Task join error: "@ + r@,
        }
    }

    /// Renders the error as a human-readable message.
    pub fn message(&self) -> (r: String)
        ensures
            r@ == self.spec_message(),
    {
        match self {
            SshError::ConnectionFailed { host, port, reason } => {
                let mut s = String::from_str("Failed to connect to ");
                s.append(host.as_str());
                s.append(":");
                let p = u64_to_dec(*port as u64);
                s.append(p.as_str());
                s.append(" - ");
                s.append(reason.as_str());
                s
            },
            SshError::AuthenticationFailed(r) => {
                let mut s = String::from_str("Authentication failed: ");
                s.append(r.as_str());
                s
            },
            SshError::OperationFailed(r) => {
                let mut s = String::from_str("SSH operation failed: ");
                s.append(r.as_str());
                s
            },
            SshError::ChannelError(r) => {
                let mut s = String::from_str("Channel error: ");
                s.append(r.as_str());
                s
            },
            SshError::SessionNotFound(r) => {
                let mut s = String::from_str("Session not found: ");
                s.append(r.as_str());
                s
            },
            SshError::LockPoisoned(r) => {
                let mut s = String::from_str("State lock poisoned: ");
                s.append(r.as_str());
                s
            },
            SshError::TaskError(r) => {
                let mut s = String::from_str("Task join error: ");
                s.append(r.as_str());
                s
            },
        }
    }
}

impl Clone for SshError {
    fn clone(&self) -> (r: Self)
        ensures
            r == *self,
    {
        match self {
            SshError::ConnectionFailed { host, port, reason } => SshError::ConnectionFailed {
                host: host.clone(),
                port: *port,
                reason: reason.clone(),
            },
            SshError::AuthenticationFailed(r) => SshError::AuthenticationFailed(r.clone()),
            SshError::OperationFailed(r) => SshError::OperationFailed(r.clone()),
            SshError::ChannelError(r) => SshError::ChannelError(r.clone()),
            SshError::SessionNotFound(r) => SshError::SessionNotFound(r.clone()),
            SshError::LockPoisoned(r) => SshError::LockPoisoned(r.clone()),
            SshError::TaskError(r) => SshError::TaskError(r.clone()),
        }
    }
}

/// A terminal-geometry change requested for a session's PTY.
#[derive(Debug, Clone, Copy, PartialEq, Eq, Structural)]
pub struct ResizeRequest {
    pub cols: u32,
    pub rows: u32,
}

/// Model of the SSH configuration of a session.
#[verifier::ext_equal]
pub struct SshSessionModel {
    pub ip: Seq<char>,
    pub port: u16,
    pub username: Seq<char>,
}

impl View for SshSession {
    type V = SshSessionModel;

    open spec fn view(&self) -> SshSessionModel {
        SshSessionModel { ip: self.ip@, port: self.port, username: self.username@ }
    }
}

/// Everything the registry keeps for one live session: its configuration,
/// the I/O pump (with queue and replay buffer), the queued input items and
/// the coalesced pending resize.
pub struct SessionEntry {
    pub session: SshSession,
    pub pump: Pump,
    pub input_queue: Vec<String>,
    pub pending_resize: Option<ResizeRequest>,
    pub write_errors: Vec<String>,
}

/// Model of a registry entry.
#[verifier::ext_equal]
pub struct SessionEntryModel {
    pub session: SshSessionModel,
    pub pump: PumpModel,
    pub inputs: Seq<Seq<char>>,
    pub resize: Option<ResizeRequest>,
    pub errors: Seq<Seq<char>>,
}

impl View for SessionEntry {
    type V = SessionEntryModel;

    open spec fn view(&self) -> SessionEntryModel {
        SessionEntryModel {
            session: self.session@,
            pump: self.pump@,
            inputs: self.input_queue@.map_values(|s: String| s@),
            resize: self.pending_resize,
            errors: self.write_errors@.map_values(|s: String| s@),
        }
    }
}

/// One registry slot: a session identifier and its entry.
pub struct SessionSlot {
    pub id: SessionId,
    pub entry: SessionEntry,
}

/// Where transport establishment failed, reported by the runtime that
/// performs the blocking connect sequence.  Each variant carries the
/// underlying error text where the failing call reports one.
#[derive(Debug)]
pub enum EstablishFailure {
    /// Address resolution failed.
    Resolve(String),
    /// Resolution returned no addresses.
    NoAddress,
    /// TCP connection failed or timed out.
    Tcp(String),
    /// The SSH session object could not be created.
    SessionCreate(String),
    /// The SSH handshake failed.
    Handshake(String),
    /// The server rejected the credentials.
    Auth,
    /// Authentication completed but the session is not authenticated.
    NotAuthenticated,
    /// The interactive channel could not be opened.
    ChannelOpen(String),
    /// The PTY request failed.
    Pty(String),
    /// Starting the shell failed.
    Shell(String),
    /// The blocking establishment task could not be joined.
    TaskJoin(String),
}

/// The outcome of one registry-level pump iteration.
#[derive(Debug)]
pub enum PumpOutcome {
    /// A chunk was emitted; the caller delivers it on the session's
    /// output event channel (it is already queued and, inside the initial
    /// window, captured for replay).
    Emitted(OutputChunk),
    /// Nothing was emitted this iteration.
    Idle,
    /// The pump has stopped (channel closed or read failed); the caller
    /// stops its loop.
    Stopped,
}

/// The `host:port` text used in connection errors.
pub open spec fn spec_host_addr(ip: Seq<char>, port: u16) -> Seq<char> {
    ip + ":"@ + spec_dec(port as nat)
}

/// The typed error for a failed transport establishment, mirroring the
/// failure step exactly.
pub open spec fn establish_error_matches(
    ip: Seq<char>,
    port: u16,
    f: EstablishFailure,
    r: SshError,
) -> bool {
    match f {
        EstablishFailure::Resolve(e) => (r matches SshError::ConnectionFailed {
            host,
            port: p,
            reason,
        } && host@ == spec_host_addr(ip, port) && p == port && reason@
            == "Failed to resolve address: "@ + e@),
        EstablishFailure::NoAddress => (r matches SshError::ConnectionFailed {
            host,
            port: p,
            reason,
        } && host@ == spec_host_addr(ip, port) && p == port && reason@ == "No addresses found"@),
        EstablishFailure::Tcp(e) => (r matches SshError::ConnectionFailed {
            host,
            port: p,
            reason,
        } && host@ == spec_host_addr(ip, port) && p == port && reason@ == e@),
        EstablishFailure::SessionCreate(e) => (r matches SshError::OperationFailed(m) && m@
            == "Failed to create session: "@ + e@),
        EstablishFailure::Handshake(e) => (r matches SshError::ConnectionFailed {
            host,
            port: p,
            reason,
        } && host@ == spec_host_addr(ip, port) && p == port && reason@ == "Handshake failed: "@
            + e@),
        EstablishFailure::Auth => (r matches SshError::AuthenticationFailed(m) && m@
            == "Invalid credentials"@),
        EstablishFailure::NotAuthenticated => (r matches SshError::AuthenticationFailed(m) && m@
            == "Authentication failed"@),
        EstablishFailure::ChannelOpen(e) => (r matches SshError::ChannelError(m) && m@
            == "Create channel failed: "@ + e@),
        EstablishFailure::Pty(e) => (r matches SshError::ChannelError(m) && m@
            == "Failed to request PTY: "@ + e@),
        EstablishFailure::Shell(e) => (r matches SshError::ChannelError(m) && m@
            == "Failed to start shell: "@ + e@),
        EstablishFailure::TaskJoin(e) => (r matches SshError::TaskError(m) && m@ == e@),
    }
}

/// Maps a failed establishment step to its typed error.
pub fn establish_error(ip: &str, port: u16, f: EstablishFailure) -> (r: SshError)
    ensures
        establish_error_matches(ip@, port, f, r),
{
    let mut host = String::from_str(ip);
    host.append(":");
    let p = u64_to_dec(port as u64);
    host.append(p.as_str());
    match f {
        EstablishFailure::Resolve(e) => {
            let mut reason = String::from_str("Failed to resolve address: ");
            reason.append(e.as_str());
            SshError::ConnectionFailed { host, port, reason }
        },
        EstablishFailure::NoAddress => SshError::ConnectionFailed {
            host,
            port,
            reason: String::from_str("No addresses found"),
        },
        EstablishFailure::Tcp(e) => SshError::ConnectionFailed { host, port, reason: e },
        EstablishFailure::SessionCreate(e) => {
            let mut m = String::from_str("Failed to create session: ");
            m.append(e.as_str());
            SshError::OperationFailed(m)
        },
        EstablishFailure::Handshake(e) => {
            let mut reason = String::from_str("Handshake failed: ");
            reason.append(e.as_str());
            SshError::ConnectionFailed { host, port, reason }
        },
        EstablishFailure::Auth => SshError::AuthenticationFailed(
            String::from_str("Invalid credentials"),
        ),
        EstablishFailure::NotAuthenticated => SshError::AuthenticationFailed(
            String::from_str("Authentication failed"),
        ),
        EstablishFailure::ChannelOpen(e) => {
            let mut m = String::from_str("Create channel failed: ");
            m.append(e.as_str());
            SshError::ChannelError(m)
        },
        EstablishFailure::Pty(e) => {
            let mut m = String::from_str("Failed to request PTY: ");
            m.append(e.as_str());
            SshError::ChannelError(m)
        },
        EstablishFailure::Shell(e) => {
            let mut m = String::from_str("Failed to start shell: ");
            m.append(e.as_str());
            SshError::ChannelError(m)
        },
        EstablishFailure::TaskJoin(e) => SshError::TaskError(e),
    }
}

/// The registry entry created for a freshly established session.
pub open spec fn fresh_entry_model(
    ip: Seq<char>,
    port: u16,
    username: Seq<char>,
    now: u64,
) -> SessionEntryModel {
    SessionEntryModel {
        session: SshSessionModel { ip, port, username },
        pump: PumpModel::init(now),
        inputs: Seq::empty(),
        resize: None,
        errors: Seq::empty(),
    }
}

/// The session registry: owns the set of live sessions, guarantees unique
/// identifiers and serializes lifecycle transitions.  Its model is the map
/// from session identifier to entry model.
pub struct SshManager {
    slots: Vec<SessionSlot>,
}

impl View for SshManager {
    type V = Map<Seq<char>, SessionEntryModel>;

    closed spec fn view(&self) -> Map<Seq<char>, SessionEntryModel> {
        Map::new(
            |id: Seq<char>| self.ids().contains(id),
            |id: Seq<char>| self.slots@[self.ids().index_of(id)].entry@,
        )
    }
}

impl SshManager {
    /// The identifiers currently registered, in slot order.
    pub closed spec fn ids(self) -> Seq<Seq<char>> {
        self.slots@.map_values(|s: SessionSlot| s.id@)
    }

    /// Whether a session with this identifier is registered.
    pub open spec fn has_id(self, id: Seq<char>) -> bool {
        self@.dom().contains(id)
    }

    /// Registry well-formedness: identifiers are unique and every pump
    /// satisfies its invariant.
    pub closed spec fn wf(self) -> bool {
        &&& self.ids().no_duplicates()
        &&& forall|i: int|
            0 <= i < self.slots@.len() ==> (#[trigger] self.slots@[i]).entry.pump@.inv()
    }

    /// Within one registered session the emission history has the
    /// gap-free shape the ordering laws speak of: chunk `i` carries
    /// sequence number `i + 1` (see [`lemma_seq_monotonic`] and
    /// [`lemma_no_gaps`]), and the replay buffer is its prefix from the
    /// initial buffering window (see
    /// [`crate::pump::lemma_replay_prefix`]).
    pub proof fn lemma_session_history_shape(self, id: Seq<char>)
        requires
            self.wf(),
            self.has_id(id),
        ensures
            self@[id].pump.inv(),
            consecutive_seqs(self@[id].pump.emitted),
    {
    }

    /// Creates an empty registry.
    pub fn new() -> (r: Self)
        ensures
            r.wf(),
            r@ == Map::<Seq<char>, SessionEntryModel>::empty(),
    {
        let r = SshManager { slots: Vec::new() };
        proof {
            assert(r@ =~= Map::<Seq<char>, SessionEntryModel>::empty());
        }
        r
    }

    /// An identifier at a slot is found by `index_of` at that slot.
    proof fn lemma_slot_index(self, i: int)
        requires
            self.wf(),
            0 <= i < self.slots@.len(),
        ensures
            self.ids().contains(self.ids()[i]),
            self.ids().index_of(self.ids()[i]) == i,
            self.has_id(self.slots@[i].id@),
            self@[self.slots@[i].id@] == self.slots@[i].entry@,
    {
        let ids = self.ids();
        assert(ids[i] == self.slots@[i].id@);
        assert(ids.contains(ids[i]));
        let j = ids.index_of(ids[i]);
        assert(0 <= j < ids.len() && ids[j] == ids[i]);
        assert(j == i);
    }

    /// Finds the slot holding `id`.
    fn find(&self, id: &SessionId) -> (r: Option<usize>)
        requires
            self.wf(),
        ensures
            (match r {
                Some(i) => i < self.slots@.len() && self.slots@[i as int].id@ == id@
                    && self.ids().index_of(id@) == i && self.has_id(id@) && self@[id@]
                    == self.slots@[i as int].entry@,
                None => !self.has_id(id@),
            }),
    {
        let n = self.slots.len();
        for i in 0..n
            invariant
                n == self.slots@.len(),
                self.wf(),
                forall|j: int| 0 <= j < i ==> (#[trigger] self.slots@[j]).id@ != id@,
        {
            if self.slots[i].id == *id {
                proof {
                    self.lemma_slot_index(i as int);
                }
                return Some(i);
            }
        }
        proof {
            assert forall|j: int| 0 <= j < self.ids().len() implies self.ids()[j] != id@ by {
                assert(self.ids()[j] == self.slots@[j].id@);
            }
            assert(!self.ids().contains(id@));
        }
        None
    }

    /// Checks whether a session exists.
    pub fn has_session(&self, session_id: &SessionId) -> (r: bool)
        requires
            self.wf(),
        ensures
            r == self.has_id(session_id@),
    {
        self.find(session_id).is_some()
    }

    /// Completes a connection attempt.  The blocking establishment
    /// sequence (resolve, TCP connect, handshake, authentication, channel,
    /// PTY, shell) runs outside; its outcome decides here: a failure maps
    /// to its typed error and leaves the registry unchanged, success
    /// registers the session with a fresh pump started at `now_ms`.
    /// An existing entry under the same identifier is replaced.
    pub fn connect_ssh(
        &mut self,
        session_id: SessionId,
        ip: String,
        port: u16,
        username: String,
        outcome: Result<(), EstablishFailure>,
        now_ms: u64,
    ) -> (r: Result<(), SshError>)
        requires
            old(self).wf(),
        ensures
            final(self).wf(),
            (match outcome {
                Err(f) => r matches Err(e) && establish_error_matches(ip@, port, f, e)
                    && final(self)@ == old(self)@,
                Ok(()) => r is Ok && final(self)@ == old(self)@.insert(
                    session_id@,
                    fresh_entry_model(ip@, port, username@, now_ms),
                ),
            }),
    {
        match outcome {
            Err(f) => Err(establish_error(ip.as_str(), port, f)),
            Ok(()) => {
                let entry = SessionEntry {
                    session: SshSession { ip, port, username },
                    pump: Pump::new(now_ms),
                    input_queue: Vec::new(),
                    pending_resize: None,
                    write_errors: Vec::new(),
                };
                proof {
                    assert(entry@ =~= fresh_entry_model(
                        entry.session.ip@,
                        port,
                        entry.session.username@,
                        now_ms,
                    ));
                }
                match self.find(&session_id) {
                    Some(i) => {
                        let slot = vstd::std_specs::vec::vec_index_mut(&mut self.slots, i);
                        slot.entry = entry;
                        proof {
                            assert(self.ids() =~= old(self).ids());
                            self.lemma_model_after_update(*old(self), i as int);
                            assert(self@ =~= old(self)@.insert(
                                session_id@,
                                fresh_entry_model(
                                    self.slots@[i as int].entry.session.ip@,
                                    port,
                                    self.slots@[i as int].entry.session.username@,
                                    now_ms,
                                ),
                            ));
                        }
                        Ok(())
                    },
                    None => {
                        let ghost pre = *self;
                        self.slots.push(SessionSlot { id: session_id, entry });
                        proof {
                            assert(self.slots@.take(pre.slots@.len() as int) =~= pre.slots@);
                            self.lemma_model_after_push(pre);
                        }
                        Ok(())
                    },
                }
            },
        }
    }

    /// After replacing the entry at slot `i` (identifiers untouched), the
    /// model is the old model with that identifier's entry replaced.
    proof fn lemma_model_after_update(self, pre: SshManager, i: int)
        requires
            pre.wf(),
            0 <= i < pre.slots@.len(),
            self.slots@.len() == pre.slots@.len(),
            forall|j: int| 0 <= j < self.slots@.len() ==> #[trigger] self.slots@[j].id
                == pre.slots@[j].id,
            forall|j: int|
                0 <= j < self.slots@.len() && j != i ==> #[trigger] self.slots@[j].entry@
                    == pre.slots@[j].entry@,
            self.slots@[i].entry.pump@.inv(),
        ensures
            self.wf(),
            self@ == pre@.insert(pre.slots@[i].id@, self.slots@[i].entry@),
    {
        assert(self.ids() =~= pre.ids());
        assert forall|j: int| 0 <= j < self.slots@.len() implies (#[trigger] self.slots@[j])
            .entry.pump@.inv() by {
            if j != i {
                assert(self.slots@[j].entry@ == pre.slots@[j].entry@);
                assert(self.slots@[j].entry@.pump == pre.slots@[j].entry@.pump);
            }
        }
        let id = pre.slots@[i].id@;
        pre.lemma_slot_index(i);
        assert forall|o: Seq<char>| #[trigger]
            self@.dom().contains(o) || pre@.insert(id, self.slots@[i].entry@).dom().contains(
                o,
            ) implies self@.dom().contains(o) == pre@.insert(
            id,
            self.slots@[i].entry@,
        ).dom().contains(o) && (self@.dom().contains(o) ==> self@[o] == pre@.insert(
            id,
            self.slots@[i].entry@,
        )[o]) by {
            if self.ids().contains(o) {
                let j = self.ids().index_of(o);
                assert(0 <= j < self.ids().len() && self.ids()[j] == o);
                self.lemma_slot_index_weak(pre, j);
            }
        }
        assert(self@ =~= pre@.insert(id, self.slots@[i].entry@));
    }

    /// Variant of `lemma_slot_index` that borrows well-formedness of the
    /// identifier sequence from another registry with the same identifiers.
    proof fn lemma_slot_index_weak(self, pre: SshManager, i: int)
        requires
            pre.wf(),
            self.ids() == pre.ids(),
            0 <= i < self.slots@.len(),
            self.slots@.len() == pre.slots@.len(),
        ensures
            self.ids().index_of(self.ids()[i]) == i,
    {
        let ids = self.ids();
        assert(ids.contains(ids[i]));
        let j = ids.index_of(ids[i]);
        assert(0 <= j < ids.len() && ids[j] == ids[i]);
        assert(ids.no_duplicates());
    }

    /// After pushing a slot with a fresh identifier, the model gains
    /// exactly that binding.
    proof fn lemma_model_after_push(self, pre: SshManager)
        requires
            pre.wf(),
            self.slots@.len() == pre.slots@.len() + 1,
            self.slots@.take(pre.slots@.len() as int) == pre.slots@,
            !pre.has_id(self.slots@.last().id@),
            self.slots@.last().entry.pump@.inv(),
        ensures
            self.wf(),
            self@ == pre@.insert(self.slots@.last().id@, self.slots@.last().entry@),
    {
        let n = pre.slots@.len() as int;
        let id = self.slots@.last().id@;
        assert(self.ids() =~= pre.ids().push(id));
        assert forall|j: int| 0 <= j < n implies self.slots@[j] == pre.slots@[j] by {
            assert(self.slots@.take(n)[j] == self.slots@[j]);
        }
        assert forall|j: int| 0 <= j < n implies (#[trigger] self.ids()[j]) == pre.ids()[j] by {}
        assert(!pre.ids().contains(id));
        assert(self.ids().no_duplicates());
        assert forall|j: int| 0 <= j < self.slots@.len() implies (#[trigger] self.slots@[j])
            .entry.pump@.inv() by {
            if j < n {
                assert(self.slots@[j] == pre.slots@[j]);
            }
        }
        assert forall|o: Seq<char>| #[trigger]
            self@.dom().contains(o) || pre@.insert(id, self.slots@.last().entry@).dom().contains(
                o,
            ) implies self@.dom().contains(o) == pre@.insert(
            id,
            self.slots@.last().entry@,
        ).dom().contains(o) && (self@.dom().contains(o) ==> self@[o] == pre@.insert(
            id,
            self.slots@.last().entry@,
        )[o]) by {
            if o == id {
                assert(self.ids()[n] == id);
                assert(self.ids().contains(id));
                self.lemma_slot_index(n);
            } else {
                if self.ids().contains(o) {
                    let j = self.ids().index_of(o);
                    assert(0 <= j < self.ids().len() && self.ids()[j] == o);
                    assert(j != n);
                    self.lemma_slot_index(j);
                    assert(pre.ids()[j] == o);
                    assert(pre.ids().contains(o));
                    pre.lemma_slot_index(j);
                } else {
                    if pre.ids().contains(o) {
                        let j = pre.ids().index_of(o);
                        assert(0 <= j < pre.ids().len() && pre.ids()[j] == o);
                        assert(self.ids()[j] == o);
                        assert(self.ids().contains(o));
                    }
                }
            }
        }
        assert(self@ =~= pre@.insert(id, self.slots@.last().entry@));
    }

    /// After removing the slot at `i`, the model loses exactly that
    /// identifier's binding.
    proof fn lemma_model_after_remove(self, pre: SshManager, i: int)
        requires
            pre.wf(),
            0 <= i < pre.slots@.len(),
            self.slots@ == pre.slots@.remove(i),
        ensures
            self.wf(),
            self@ == pre@.remove(pre.slots@[i].id@),
    {
        let id = pre.slots@[i].id@;
        assert(self.ids() =~= pre.ids().remove(i));
        assert forall|j: int| 0 <= j < self.ids().len() implies #[trigger] self.ids()[j] == (
        if j < i {
            pre.ids()[j]
        } else {
            pre.ids()[j + 1]
        }) by {}
        assert(self.ids().no_duplicates());
        assert forall|j: int| 0 <= j < self.slots@.len() implies (#[trigger] self.slots@[j])
            .entry.pump@.inv() by {
            if j < i {
                assert(self.slots@[j] == pre.slots@[j]);
            } else {
                assert(self.slots@[j] == pre.slots@[j + 1]);
            }
        }
        assert(!self.ids().contains(id)) by {
            if self.ids().contains(id) {
                let j = choose|j: int| 0 <= j < self.ids().len() && self.ids()[j] == id;
                if j < i {
                    assert(pre.ids()[j] == id && pre.ids()[i] == id);
                } else {
                    assert(pre.ids()[j + 1] == id && pre.ids()[i] == id);
                }
            }
        }
        assert forall|o: Seq<char>| #[trigger]
            self@.dom().contains(o) || pre@.remove(id).dom().contains(o) implies self@
            .dom().contains(o) == pre@.remove(id).dom().contains(o) && (self@.dom().contains(o)
            ==> self@[o] == pre@.remove(id)[o]) by {
            if self.ids().contains(o) {
                let j = self.ids().index_of(o);
                assert(0 <= j < self.ids().len() && self.ids()[j] == o);
                self.lemma_slot_index(j);
                let jp: int = if j < i {
                    j
                } else {
                    j + 1
                };
                assert(pre.ids()[jp] == o);
                assert(pre.ids().contains(o));
                pre.lemma_slot_index(jp);
                assert(self.slots@[j] == pre.slots@[jp]);
            } else {
                if pre.ids().contains(o) && o != id {
                    let j = choose|j: int| 0 <= j < pre.ids().len() && pre.ids()[j] == o;
                    if j < i {
                        assert(self.ids()[j] == o);
                    } else {
                        assert(j != i);
                        assert(self.ids()[j - 1] == o);
                    }
                    assert(self.ids().contains(o));
                }
            }
        }
        assert(self@ =~= pre@.remove(id));
    }

    /// Appends one input item to a session's FIFO input queue.  Fails with
    /// `SessionNotFound` for an unknown identifier and with `ChannelError`
    /// once the session's pump has stopped.
    pub fn send_ssh_input(&mut self, session_id: &SessionId, input: String) -> (r: Result<
        (),
        SshError,
    >)
        requires
            old(self).wf(),
        ensures
            final(self).wf(),
            (match r {
                Ok(()) => old(self).has_id(session_id@) && !old(self)@[session_id@].pump.stopped
                    && final(self)@ == old(self)@.insert(
                    session_id@,
                    (SessionEntryModel {
                        inputs: old(self)@[session_id@].inputs.push(input@),
                        ..old(self)@[session_id@]
                    }),
                ),
                Err(e) => final(self)@ == old(self)@ && ((e matches SshError::SessionNotFound(s)
                    && s@ == session_id@ && !old(self).has_id(session_id@)) || (
                e matches SshError::ChannelError(m) && m@ == "Failed to send input"@ && old(
                    self,
                ).has_id(session_id@) && old(self)@[session_id@].pump.stopped)),
            }),
    {
        match self.find(session_id) {
            None => Err(SshError::SessionNotFound(session_id.0.clone())),
            Some(i) => {
                if self.slots[i].entry.pump.stopped {
                    Err(SshError::ChannelError(String::from_str("Failed to send input")))
                } else {
                    let ghost pre = *self;
                    let slot = vstd::std_specs::vec::vec_index_mut(&mut self.slots, i);
                    slot.entry.input_queue.push(input);
                    proof {
                        self.lemma_model_after_update(pre, i as int);
                        assert(self.slots@[i as int].entry@ =~= (SessionEntryModel {
                            inputs: pre@[session_id@].inputs.push(input@),
                            ..pre@[session_id@]
                        }));
                    }
                    Ok(())
                }
            },
        }
    }

    /// Removes and returns every queued input item, in the order enqueued.
    /// The pump's writer drains this queue and writes the items to the
    /// channel in exactly this order.
    pub fn take_inputs(&mut self, session_id: &SessionId) -> (r: Result<Vec<String>, SshError>)
        requires
            old(self).wf(),
        ensures
            final(self).wf(),
            (match r {
                Ok(v) => old(self).has_id(session_id@) && v@.map_values(|s: String| s@) == old(
                    self,
                )@[session_id@].inputs && final(self)@ == old(self)@.insert(
                    session_id@,
                    (SessionEntryModel { inputs: Seq::empty(), ..old(self)@[session_id@] }),
                ),
                Err(e) => final(self)@ == old(self)@ && !old(self).has_id(session_id@) && (
                e matches SshError::SessionNotFound(s) && s@ == session_id@),
            }),
    {
        match self.find(session_id) {
            None => Err(SshError::SessionNotFound(session_id.0.clone())),
            Some(i) => {
                let ghost pre = *self;
                let slot = vstd::std_specs::vec::vec_index_mut(&mut self.slots, i);
                let mut v: Vec<String> = Vec::new();
                core::mem::swap(&mut v, &mut slot.entry.input_queue);
                proof {
                    self.lemma_model_after_update(pre, i as int);
                    assert(self.slots@[i as int].entry@ =~= (SessionEntryModel {
                        inputs: Seq::empty(),
                        ..pre@[session_id@]
                    }));
                    assert(v@.map_values(|s: String| s@) == pre@[session_id@].inputs);
                }
                Ok(v)
            },
        }
    }

    /// Drains the session's fan-out queue: every chunk emitted since the
    /// last drain, in emission order.  Each chunk is returned once.
    pub fn get_session_output(&mut self, session_id: &SessionId) -> (r: Result<
        Vec<OutputChunk>,
        SshError,
    >)
        requires
            old(self).wf(),
        ensures
            final(self).wf(),
            (match r {
                Ok(v) => old(self).has_id(session_id@) && chunks_view(v@) == old(
                    self,
                )@[session_id@].pump.queue && final(self)@ == old(self)@.insert(
                    session_id@,
                    (SessionEntryModel {
                        pump: (PumpModel {
                            queue: Seq::empty(),
                            delivered: old(self)@[session_id@].pump.delivered + old(
                                self,
                            )@[session_id@].pump.queue.len(),
                            ..old(self)@[session_id@].pump
                        }),
                        ..old(self)@[session_id@]
                    }),
                ),
                Err(e) => final(self)@ == old(self)@ && !old(self).has_id(session_id@) && (
                e matches SshError::SessionNotFound(s) && s@ == session_id@),
            }),
    {
        match self.find(session_id) {
            None => Err(SshError::SessionNotFound(session_id.0.clone())),
            Some(i) => {
                let ghost pre = *self;
                let slot = vstd::std_specs::vec::vec_index_mut(&mut self.slots, i);
                let v = slot.entry.pump.drain();
                proof {
                    self.lemma_model_after_update(pre, i as int);
                    assert(self.slots@[i as int].entry@ =~= (SessionEntryModel {
                        pump: (PumpModel {
                            queue: Seq::empty(),
                            delivered: pre@[session_id@].pump.delivered
                                + pre@[session_id@].pump.queue.len(),
                            ..pre@[session_id@].pump
                        }),
                        ..pre@[session_id@]
                    }));
                }
                Ok(v)
            },
        }
    }

    /// Returns a copy of the replay buffer captured during the initial
    /// buffering window.  Idempotent: the buffer is never consumed.
    pub fn get_buffered_ssh_output(&self, session_id: &SessionId) -> (r: Result<
        Vec<OutputChunk>,
        SshError,
    >)
        requires
            self.wf(),
        ensures
            (match r {
                Ok(v) => self.has_id(session_id@) && chunks_view(v@)
                    == self@[session_id@].pump.replay,
                Err(e) => !self.has_id(session_id@) && (e matches SshError::SessionNotFound(s)
                    && s@ == session_id@),
            }),
    {
        match self.find(session_id) {
            None => Err(SshError::SessionNotFound(session_id.0.clone())),
            Some(i) => Ok(self.slots[i].entry.pump.replay_snapshot()),
        }
    }

    /// Runs one pump iteration for the session at time `now_ms` on the
    /// given read outcome; see [`crate::pump::PumpModel::spec_step`] for
    /// the exact transition.
    pub fn pump_step(&mut self, session_id: &SessionId, read: ReadEvent, now_ms: u64) -> (r:
        Result<PumpOutcome, SshError>)
        requires
            old(self).wf(),
            old(self).has_id(session_id@) ==> now_ms >= old(self)@[session_id@].pump.clock && old(
                self,
            )@[session_id@].pump.next_seq < u64::MAX,
        ensures
            final(self).wf(),
            (match r {
                Err(e) => final(self)@ == old(self)@ && !old(self).has_id(session_id@) && (
                e matches SshError::SessionNotFound(s) && s@ == session_id@),
                Ok(out) => old(self).has_id(session_id@) && (if old(
                    self,
                )@[session_id@].pump.stopped {
                    final(self)@ == old(self)@ && out is Stopped
                } else {
                    final(self)@ == old(self)@.insert(
                        session_id@,
                        (SessionEntryModel {
                            pump: old(self)@[session_id@].pump.spec_step(read@, now_ms).0,
                            ..old(self)@[session_id@]
                        }),
                    ) && (match out {
                        PumpOutcome::Emitted(c) => old(self)@[session_id@].pump.spec_step(
                            read@,
                            now_ms,
                        ).1 == Some(c@),
                        PumpOutcome::Idle => old(self)@[session_id@].pump.spec_step(
                            read@,
                            now_ms,
                        ).1 is None && !old(self)@[session_id@].pump.spec_step(
                            read@,
                            now_ms,
                        ).0.stopped,
                        PumpOutcome::Stopped => old(self)@[session_id@].pump.spec_step(
                            read@,
                            now_ms,
                        ).1 is None && old(self)@[session_id@].pump.spec_step(
                            read@,
                            now_ms,
                        ).0.stopped,
                    })
                }),
            }),
    {
        match self.find(session_id) {
            None => Err(SshError::SessionNotFound(session_id.0.clone())),
            Some(i) => {
                if self.slots[i].entry.pump.stopped {
                    return Ok(PumpOutcome::Stopped);
                }
                let ghost pre = *self;
                let slot = vstd::std_specs::vec::vec_index_mut(&mut self.slots, i);
                let emitted = slot.entry.pump.step(read, now_ms);
                let stopped_now = slot.entry.pump.stopped;
                proof {
                    self.lemma_model_after_update(pre, i as int);
                    assert(self.slots@[i as int].entry@ =~= (SessionEntryModel {
                        pump: pre@[session_id@].pump.spec_step(read@, now_ms).0,
                        ..pre@[session_id@]
                    }));
                }
                match emitted {
                    Some(chunk) => Ok(PumpOutcome::Emitted(chunk)),
                    None => if stopped_now {
                        Ok(PumpOutcome::Stopped)
                    } else {
                        Ok(PumpOutcome::Idle)
                    },
                }
            },
        }
    }

    /// Records a pending resize for the session, replacing any earlier
    /// request that has not been applied yet: only the most recent
    /// geometry is kept.  Once the session's pump has stopped the request
    /// is ignored, as a listener that checks the stop flag on entry.
    pub fn set_resize(&mut self, session_id: &SessionId, cols: u32, rows: u32) -> (r: Result<
        (),
        SshError,
    >)
        requires
            old(self).wf(),
        ensures
            final(self).wf(),
            (match r {
                Ok(()) => old(self).has_id(session_id@) && (if old(
                    self,
                )@[session_id@].pump.stopped {
                    final(self)@ == old(self)@
                } else {
                    final(self)@ == old(self)@.insert(
                        session_id@,
                        (SessionEntryModel {
                            resize: Some(ResizeRequest { cols, rows }),
                            ..old(self)@[session_id@]
                        }),
                    )
                }),
                Err(e) => final(self)@ == old(self)@ && !old(self).has_id(session_id@) && (
                e matches SshError::SessionNotFound(s) && s@ == session_id@),
            }),
    {
        match self.find(session_id) {
            None => Err(SshError::SessionNotFound(session_id.0.clone())),
            Some(i) => {
                if self.slots[i].entry.pump.stopped {
                    return Ok(());
                }
                let ghost pre = *self;
                let slot = vstd::std_specs::vec::vec_index_mut(&mut self.slots, i);
                slot.entry.pending_resize = Some(ResizeRequest { cols, rows });
                proof {
                    self.lemma_model_after_update(pre, i as int);
                    assert(self.slots@[i as int].entry@ =~= (SessionEntryModel {
                        resize: Some(ResizeRequest { cols, rows }),
                        ..pre@[session_id@]
                    }));
                }
                Ok(())
            },
        }
    }

    /// Takes the pending resize, if any, to apply it to the PTY.
    pub fn take_resize(&mut self, session_id: &SessionId) -> (r: Result<
        Option<ResizeRequest>,
        SshError,
    >)
        requires
            old(self).wf(),
        ensures
            final(self).wf(),
            (match r {
                Ok(o) => old(self).has_id(session_id@) && o == old(self)@[session_id@].resize
                    && final(self)@ == old(self)@.insert(
                    session_id@,
                    (SessionEntryModel { resize: None, ..old(self)@[session_id@] }),
                ),
                Err(e) => final(self)@ == old(self)@ && !old(self).has_id(session_id@) && (
                e matches SshError::SessionNotFound(s) && s@ == session_id@),
            }),
    {
        match self.find(session_id) {
            None => Err(SshError::SessionNotFound(session_id.0.clone())),
            Some(i) => {
                let ghost pre = *self;
                let slot = vstd::std_specs::vec::vec_index_mut(&mut self.slots, i);
                let o = slot.entry.pending_resize;
                slot.entry.pending_resize = None;
                proof {
                    self.lemma_model_after_update(pre, i as int);
                    assert(self.slots@[i as int].entry@ =~= (SessionEntryModel {
                        resize: None,
                        ..pre@[session_id@]
                    }));
                }
                Ok(o)
            },
        }
    }

    /// Whether the session has emitted its first output chunk.  The first
    /// emission after session start always precedes any status or
    /// upload-progress event for the session: the runtime holds those
    /// auxiliary emissions until this turns true.
    pub fn first_output_emitted(&self, session_id: &SessionId) -> (r: Result<bool, SshError>)
        requires
            self.wf(),
        ensures
            (match r {
                Ok(b) => self.has_id(session_id@) && b == (self@[session_id@].pump.emitted.len()
                    > 0),
                Err(e) => !self.has_id(session_id@) && (e matches SshError::SessionNotFound(s)
                    && s@ == session_id@),
            }),
    {
        match self.find(session_id) {
            None => Err(SshError::SessionNotFound(session_id.0.clone())),
            Some(i) => Ok(self.slots[i].entry.pump.seen_first_output),
        }
    }

    /// Records a failed write or flush of an input item in the session's
    /// error queue.  Input errors do not tear the session down: the pump
    /// continues, and the failure is kept here.
    pub fn record_write_error(&mut self, session_id: &SessionId, message: String) -> (r: Result<
        (),
        SshError,
    >)
        requires
            old(self).wf(),
        ensures
            final(self).wf(),
            (match r {
                Ok(()) => old(self).has_id(session_id@) && final(self)@ == old(self)@.insert(
                    session_id@,
                    (SessionEntryModel {
                        errors: old(self)@[session_id@].errors.push(message@),
                        ..old(self)@[session_id@]
                    }),
                ),
                Err(e) => final(self)@ == old(self)@ && !old(self).has_id(session_id@) && (
                e matches SshError::SessionNotFound(s) && s@ == session_id@),
            }),
    {
        match self.find(session_id) {
            None => Err(SshError::SessionNotFound(session_id.0.clone())),
            Some(i) => {
                let ghost pre = *self;
                let slot = vstd::std_specs::vec::vec_index_mut(&mut self.slots, i);
                slot.entry.write_errors.push(message);
                proof {
                    self.lemma_model_after_update(pre, i as int);
                    assert(self.slots@[i as int].entry@ =~= (SessionEntryModel {
                        errors: pre@[session_id@].errors.push(
                            self.slots@[i as int].entry.write_errors@.last()@,
                        ),
                        ..pre@[session_id@]
                    }));
                }
                Ok(())
            },
        }
    }

    /// Removes and returns the recorded write failures, in the order they
    /// happened.
    pub fn take_write_errors(&mut self, session_id: &SessionId) -> (r: Result<
        Vec<String>,
        SshError,
    >)
        requires
            old(self).wf(),
        ensures
            final(self).wf(),
            (match r {
                Ok(v) => old(self).has_id(session_id@) && v@.map_values(|s: String| s@) == old(
                    self,
                )@[session_id@].errors && final(self)@ == old(self)@.insert(
                    session_id@,
                    (SessionEntryModel { errors: Seq::empty(), ..old(self)@[session_id@] }),
                ),
                Err(e) => final(self)@ == old(self)@ && !old(self).has_id(session_id@) && (
                e matches SshError::SessionNotFound(s) && s@ == session_id@),
            }),
    {
        match self.find(session_id) {
            None => Err(SshError::SessionNotFound(session_id.0.clone())),
            Some(i) => {
                let ghost pre = *self;
                let slot = vstd::std_specs::vec::vec_index_mut(&mut self.slots, i);
                let mut v: Vec<String> = Vec::new();
                core::mem::swap(&mut v, &mut slot.entry.write_errors);
                proof {
                    self.lemma_model_after_update(pre, i as int);
                    assert(self.slots@[i as int].entry@ =~= (SessionEntryModel {
                        errors: Seq::empty(),
                        ..pre@[session_id@]
                    }));
                    assert(v@.map_values(|s: String| s@) == pre@[session_id@].errors);
                }
                Ok(v)
            },
        }
    }

    /// Disconnects a session: removes its entry (the caller signals the
    /// stop flag and aborts the background tasks it owns).  Always returns
    /// ok, also for an identifier that is not registered.
    pub fn disconnect_ssh(&mut self, session_id: &SessionId) -> (r: Result<(), SshError>)
        requires
            old(self).wf(),
        ensures
            final(self).wf(),
            r is Ok,
            final(self)@ == old(self)@.remove(session_id@),
    {
        match self.find(session_id) {
            None => {
                proof {
                    assert(self@ =~= old(self)@.remove(session_id@));
                }
                Ok(())
            },
            Some(i) => {
                let ghost pre = *self;
                self.slots.remove(i);
                proof {
                    self.lemma_model_after_remove(pre, i as int);
                }
                Ok(())
            },
        }
    }

    /// Disconnects every session.
    pub fn disconnect_all(&mut self)
        requires
            old(self).wf(),
        ensures
            final(self).wf(),
            final(self)@ == Map::<Seq<char>, SessionEntryModel>::empty(),
    {
        self.slots.clear();
        proof {
            assert(self@ =~= Map::<Seq<char>, SessionEntryModel>::empty());
        }
    }
}

/// Where a path probe failed, reported by the runtime that runs the
/// short-lived exec channel.
#[derive(Debug)]
pub enum ProbeFailure {
    /// The probe channel could not be opened.
    ChannelOpen(String),
    /// Running the command failed.
    Exec(String),
    /// Reading the command output failed.
    Read(String),
    /// The blocking probe task could not be joined.
    Join(String),
}

/// The typed error for a failed path probe.
pub open spec fn probe_error_matches(f: ProbeFailure, r: SshError) -> bool {
    match f {
        ProbeFailure::ChannelOpen(e) => (r matches SshError::ChannelError(m) && m@
            == "Failed to create probe channel: "@ + e@),
        ProbeFailure::Exec(e) => (r matches SshError::OperationFailed(m) && m@ == e@),
        ProbeFailure::Read(e) => (r matches SshError::OperationFailed(m) && m@ == e@),
        ProbeFailure::Join(e) => (r matches SshError::TaskError(m) && m@ == e@),
    }
}

impl SshManager {
    /// Resolves a path probe for the session: the runtime ran `pwd` on a
    /// fresh exec channel under the transport mutex with the blocking flag
    /// raised, and hands the outcome here.  For a registered session the
    /// transport's blocking flag is restored to non-blocking on every
    /// path, a successful probe returns the output with surrounding
    /// whitespace trimmed, and a failed step maps to its typed error.
    pub fn probe_remote_path(
        &self,
        session_id: &SessionId,
        transport: &mut TransportFlag,
        outcome: Result<String, ProbeFailure>,
    ) -> (r: Result<String, SshError>)
        requires
            self.wf(),
        ensures
            self.has_id(session_id@) ==> final(transport).blocking == false,
            (if self.has_id(session_id@) {
                match outcome {
                    Ok(out) => r matches Ok(p) && p@ == spec_trim(out@),
                    Err(f) => r matches Err(e) && probe_error_matches(f, e),
                }
            } else {
                *final(transport) == *old(transport) && (r matches Err(
                    SshError::SessionNotFound(s),
                ) && s@ == session_id@)
            }),
    {
        match self.find(session_id) {
            None => Err(SshError::SessionNotFound(session_id.0.clone())),
            Some(_) => {
                transport.blocking = false;
                match outcome {
                    Ok(out) => Ok(trim_ascii_ws(out.as_str())),
                    Err(ProbeFailure::ChannelOpen(e)) => {
                        let mut m = String::from_str("Failed to create probe channel: ");
                        m.append(e.as_str());
                        Err(SshError::ChannelError(m))
                    },
                    Err(ProbeFailure::Exec(e)) => Err(SshError::OperationFailed(e)),
                    Err(ProbeFailure::Read(e)) => Err(SshError::OperationFailed(e)),
                    Err(ProbeFailure::Join(e)) => Err(SshError::TaskError(e)),
                }
            },
        }
    }

    /// Approves an upload dispatch: for a registered session, returns the
    /// task record a background worker carries (state `pending`, nothing
    /// uploaded, total still unknown until the worker opens the local
    /// file).  The worker reports progress through
    /// [`crate::upload::UploadTask::apply_chunk`] and
    /// [`crate::upload::UploadTask::finish`]; it never blocks the caller.
    pub fn upload_file_sftp(
        &self,
        session_id: &SessionId,
        task_id: String,
        local_path: String,
        remote_path: String,
        now_ms: u64,
    ) -> (r: Result<UploadTask, SshError>)
        requires
            self.wf(),
        ensures
            (match r {
                Ok(task) => self.has_id(session_id@) && task.task_id@ == task_id@
                    && task.session_id@ == session_id@ && task.local_path@ == local_path@
                    && task.remote_path@ == remote_path@ && task.total_bytes == 0
                    && task.uploaded_bytes == 0 && task.state is Pending && task.start_ms
                    == now_ms,
                Err(e) => !self.has_id(session_id@) && (e matches SshError::SessionNotFound(s)
                    && s@ == session_id@),
            }),
    {
        match self.find(session_id) {
            None => Err(SshError::SessionNotFound(session_id.0.clone())),
            Some(_) => Ok(
                UploadTask {
                    task_id,
                    session_id: session_id.0.clone(),
                    local_path,
                    remote_path,
                    total_bytes: 0,
                    uploaded_bytes: 0,
                    state: UploadPhase::Pending,
                    start_ms: now_ms,
                },
            ),
        }
    }
}

impl Default for SshManager {
    /// An empty registry.
    fn default() -> (r: Self)
        ensures
            r.wf(),
            r@ == Map::<Seq<char>, SessionEntryModel>::empty(),
    {
        SshManager::new()
    }
}

/// Idempotent disconnect: removing a session's binding is idempotent and
/// leaves the identifier unregistered, so a second `disconnect_ssh` also
/// returns ok and a subsequent `send_ssh_input` reports `SessionNotFound`.
pub proof fn lemma_idempotent_disconnect(m: Map<Seq<char>, SessionEntryModel>, id: Seq<char>)
    ensures
        m.remove(id).remove(id) == m.remove(id),
        !m.remove(id).dom().contains(id),
{
    assert(m.remove(id).remove(id) =~= m.remove(id));
}

} // verus!
