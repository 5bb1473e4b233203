//! The local-PTY side of the multiplexer: a registry of local shell
//! sessions and the reader state machine that turns PTY output into
//! sequenced chunks.
//!
//! Opening the OS pseudo-terminal, spawning the shell and moving bytes
//! happen outside; this module decides which shell is spawned, numbers
//! the output chunks (the same gap-free numbering the SSH pump
//! guarantees), and tracks which sessions are live.

use vstd::prelude::*;

use crate::pump::{utf8_lossy, utf8_lossy_of, ReadEvent};
use crate::ssh::{consecutive_seqs, ChunkModel};

verus! {

/// Error taxonomy for local terminal operations.
#[derive(Debug)]
pub enum TerminalError {
    /// The PTY could not be opened or the shell could not be started.
    SpawnFailed(String),
    /// Registry lookup miss.
    SessionNotFound(String),
    /// An internal invariant about shared state was violated.
    LockPoisoned(String),
}

impl TerminalError {
    /// The display message of the error, for contracts.
    pub open spec fn spec_message(self) -> Seq<char> {
        match self {
            TerminalError::SpawnFailed(r) => "Failed to spawn shell: "@ + r@,
            TerminalError::SessionNotFound(r) => "Session not found: "@ + r@,
            TerminalError::LockPoisoned(r) => "State lock poisoned: "@ + r@,
        }
    }

    /// Renders the error as a human-readable message.
    pub fn message(&self) -> (r: String)
        ensures
            r@ == self.spec_message(),
    {
        match self {
            TerminalError::SpawnFailed(m) => {
                let mut s = String::from_str("Failed to spawn shell: ");
                s.append(m.as_str());
                s
            },
            TerminalError::SessionNotFound(m) => {
                let mut s = String::from_str("Session not found: ");
                s.append(m.as_str());
                s
            },
            TerminalError::LockPoisoned(m) => {
                let mut s = String::from_str("State lock poisoned: ");
                s.append(m.as_str());
                s
            },
        }
    }
}

/// Type-safe identifier of a local terminal session.
#[derive(Debug, Eq, Hash)]
pub struct SessionId(pub String);

impl View for SessionId {
    type V = Seq<char>;

    open spec fn view(&self) -> Seq<char> {
        self.0@
    }
}

impl SessionId {
    /// Borrows the underlying string.
    pub fn as_str(&self) -> (r: &str)
        ensures
            r@ == self@,
    {
        self.0.as_str()
    }
}

impl Clone for SessionId {
    fn clone(&self) -> (r: Self)
        ensures
            r == *self,
    {
        SessionId(self.0.clone())
    }
}

impl PartialEq for SessionId {
    fn eq(&self, other: &Self) -> (r: bool) {
        self.0 == other.0
    }
}

impl vstd::std_specs::cmp::PartialEqSpecImpl for SessionId {
    open spec fn obeys_eq_spec() -> bool {
        true
    }

    open spec fn eq_spec(&self, other: &Self) -> bool {
        self.0@ == other.0@
    }
}

impl From<String> for SessionId {
    fn from(s: String) -> (r: Self) {
        SessionId(s)
    }
}

impl vstd::std_specs::convert::FromSpecImpl<String> for SessionId {
    open spec fn obeys_from_spec() -> bool {
        true
    }

    open spec fn from_spec(s: String) -> Self {
        SessionId(s)
    }
}

/// A sequenced segment of local terminal output.
#[derive(Debug)]
pub struct OutputChunk {
    pub seq: u64,
    pub output: String,
    pub ts: u64,
}

impl View for OutputChunk {
    type V = ChunkModel;

    open spec fn view(&self) -> ChunkModel {
        ChunkModel { seq: self.seq, output: self.output@, ts: self.ts }
    }
}

impl OutputChunk {
    /// Creates a chunk stamped with the given emission time.
    pub fn new(seq: u64, output: String, ts: u64) -> (r: Self)
        ensures
            r.seq == seq,
            r.output == output,
            r.ts == ts,
    {
        OutputChunk { seq, output, ts }
    }
}

impl Clone for OutputChunk {
    fn clone(&self) -> (r: Self)
        ensures
            r == *self,
    {
        OutputChunk { seq: self.seq, output: self.output.clone(), ts: self.ts }
    }
}

/// The shell a local session spawns: PowerShell on Windows, otherwise the
/// user's `SHELL`, falling back to `zsh`.
pub fn default_shell(env_shell: Option<String>, windows: bool) -> (r: String)
    ensures
        windows ==> r@ == "powershell.exe"@,
        !windows ==> (match env_shell {
            Some(s) => r@ == s@,
            None => r@ == "zsh"@,
        }),
{
    if windows {
        String::from_str("powershell.exe")
    } else {
        match env_shell {
            Some(s) => s,
            None => String::from_str("zsh"),
        }
    }
}

/// The reader state of one local session: the single consumer of the PTY
/// master.  Unlike the SSH pump it does not batch: every successful read
/// becomes one chunk.
pub struct TerminalIo {
    /// Sequence number the next chunk will carry.
    pub next_seq: u64,
    /// Set at end of file or on a read error; the reader is done.
    pub stopped: bool,
    /// Every chunk emitted so far, in emission order.
    pub emitted: Ghost<Seq<ChunkModel>>,
}

impl TerminalIo {
    /// Reader invariant: the emission history is gap-free, chunk `i`
    /// carrying sequence number `i + 1`.
    pub open spec fn inv(self) -> bool {
        &&& 1 <= self.next_seq
        &&& self.emitted@.len() == self.next_seq - 1
        &&& consecutive_seqs(self.emitted@)
    }

    /// A fresh reader: nothing emitted, numbering starts at 1.
    pub fn new() -> (r: Self)
        ensures
            r.inv(),
            r.next_seq == 1,
            !r.stopped,
            r.emitted@ == Seq::<ChunkModel>::empty(),
    {
        TerminalIo { next_seq: 1, stopped: false, emitted: Ghost(Seq::empty()) }
    }

    /// Turns one PTY read outcome at time `now_ms` into a chunk: data
    /// becomes the next chunk verbatim, end of file (an empty read) and
    /// read errors stop the reader.
    pub fn step(&mut self, read: ReadEvent, now_ms: u64) -> (r: Option<OutputChunk>)
        requires
            old(self).inv(),
            !old(self).stopped,
            old(self).next_seq < u64::MAX,
        ensures
            final(self).inv(),
            (match read@ {
                crate::pump::ReadModel::Data(d) => if d.len() > 0 {
                    r matches Some(c) && c.seq == old(self).next_seq && c.output@
                        == utf8_lossy_of(d) && c.ts == now_ms && final(self).next_seq == old(
                        self,
                    ).next_seq + 1 && final(self).emitted@ == old(self).emitted@.push(c@)
                        && !final(self).stopped
                } else {
                    r is None && final(self).stopped && final(self).emitted@ == old(
                        self,
                    ).emitted@ && final(self).next_seq == old(self).next_seq
                },
                crate::pump::ReadModel::WouldBlock => r is None && *final(self) == *old(self),
                _ => r is None && final(self).stopped && final(self).emitted@ == old(
                    self,
                ).emitted@ && final(self).next_seq == old(self).next_seq,
            }),
    {
        match read {
            ReadEvent::Data(d) => {
                if d.len() > 0 {
                    let output = utf8_lossy(&d);
                    let chunk = OutputChunk::new(self.next_seq, output, now_ms);
                    self.next_seq = self.next_seq + 1;
                    proof {
                        self.emitted@ = self.emitted@.push(chunk@);
                    }
                    Some(chunk)
                } else {
                    self.stopped = true;
                    None
                }
            },
            ReadEvent::WouldBlock => None,
            ReadEvent::Closed | ReadEvent::Failed => {
                self.stopped = true;
                None
            },
        }
    }
}

/// Where spawning a local session failed, reported by the runtime that
/// talks to the OS.
#[derive(Debug)]
pub enum SpawnFailure {
    /// The PTY pair could not be opened.
    OpenPty(String),
    /// The shell process could not be spawned.
    Spawn(String),
    /// The PTY reader could not be cloned.
    CloneReader(String),
    /// The PTY writer could not be taken.
    TakeWriter(String),
}

/// The typed error for a failed local spawn step.
pub open spec fn spawn_error_matches(f: SpawnFailure, r: TerminalError) -> bool {
    match f {
        SpawnFailure::OpenPty(e) => (r matches TerminalError::SpawnFailed(m) && m@
            == "Failed to open PTY: "@ + e@),
        SpawnFailure::Spawn(e) => (r matches TerminalError::SpawnFailed(m) && m@
            == "Failed to spawn shell: "@ + e@),
        SpawnFailure::CloneReader(e) => (r matches TerminalError::SpawnFailed(m) && m@
            == "Failed to clone reader: "@ + e@),
        SpawnFailure::TakeWriter(e) => (r matches TerminalError::SpawnFailed(m) && m@
            == "Failed to take writer: "@ + e@),
    }
}

/// The registry of live local sessions.  Its model is the set of
/// registered identifiers; the PTY handles and task handles live with the
/// runtime.
pub struct TerminalManager {
    ids: Vec<SessionId>,
}

impl View for TerminalManager {
    type V = Set<Seq<char>>;

    closed spec fn view(&self) -> Set<Seq<char>> {
        Set::new(|id: Seq<char>| self.id_seq().contains(id))
    }
}

impl TerminalManager {
    /// The identifiers currently registered, in insertion order.
    pub closed spec fn id_seq(self) -> Seq<Seq<char>> {
        self.ids@.map_values(|s: SessionId| s@)
    }

    /// Whether a session with this identifier is registered.
    pub open spec fn has_id(self, id: Seq<char>) -> bool {
        self@.contains(id)
    }

    /// Registry well-formedness: identifiers are unique.
    pub closed spec fn wf(self) -> bool {
        self.id_seq().no_duplicates()
    }

    /// Creates an empty registry.
    pub fn new() -> (r: Self)
        ensures
            r.wf(),
            r@ == Set::<Seq<char>>::empty(),
    {
        let r = TerminalManager { ids: Vec::new() };
        proof {
            assert(r@ =~= Set::<Seq<char>>::empty());
        }
        r
    }

    fn find(&self, id: &SessionId) -> (r: Option<usize>)
        requires
            self.wf(),
        ensures
            (match r {
                Some(i) => i < self.ids@.len() && self.ids@[i as int]@ == id@ && self.has_id(
                    id@,
                ),
                None => !self.has_id(id@),
            }),
    {
        let n = self.ids.len();
        for i in 0..n
            invariant
                n == self.ids@.len(),
                self.wf(),
                forall|j: int| 0 <= j < i ==> (#[trigger] self.ids@[j])@ != id@,
        {
            if self.ids[i] == *id {
                proof {
                    assert(self.id_seq()[i as int] == id@);
                    assert(self.id_seq().contains(id@));
                }
                return Some(i);
            }
        }
        proof {
            assert forall|j: int| 0 <= j < self.id_seq().len() implies self.id_seq()[j]
                != id@ by {
                assert(self.id_seq()[j] == self.ids@[j]@);
            }
        }
        None
    }

    /// Completes a local connection attempt.  The PTY and shell spawn
    /// sequence runs outside; a failed step maps to its typed error and
    /// leaves the registry unchanged, success registers the identifier.
    pub fn connect_local(&mut self, session_id: SessionId, outcome: Result<
        (),
        SpawnFailure,
    >) -> (r: Result<(), TerminalError>)
        requires
            old(self).wf(),
        ensures
            final(self).wf(),
            (match outcome {
                Err(f) => r matches Err(e) && spawn_error_matches(f, e) && final(self)@ == old(
                    self,
                )@,
                Ok(()) => r is Ok && final(self)@ == old(self)@.insert(session_id@),
            }),
    {
        match outcome {
            Err(SpawnFailure::OpenPty(e)) => {
                let mut m = String::from_str("Failed to open PTY: ");
                m.append(e.as_str());
                Err(TerminalError::SpawnFailed(m))
            },
            Err(SpawnFailure::Spawn(e)) => {
                let mut m = String::from_str("Failed to spawn shell: ");
                m.append(e.as_str());
                Err(TerminalError::SpawnFailed(m))
            },
            Err(SpawnFailure::CloneReader(e)) => {
                let mut m = String::from_str("Failed to clone reader: ");
                m.append(e.as_str());
                Err(TerminalError::SpawnFailed(m))
            },
            Err(SpawnFailure::TakeWriter(e)) => {
                let mut m = String::from_str("Failed to take writer: ");
                m.append(e.as_str());
                Err(TerminalError::SpawnFailed(m))
            },
            Ok(()) => {
                match self.find(&session_id) {
                    Some(_) => {
                        proof {
                            assert(self@ =~= old(self)@.insert(session_id@));
                        }
                        Ok(())
                    },
                    None => {
                        let ghost pre = *self;
                        self.ids.push(session_id);
                        proof {
                            let id = self.ids@.last()@;
                            let n = pre.id_seq().len() as int;
                            assert(self.id_seq() =~= pre.id_seq().push(id));
                            assert forall|j: int| 0 <= j < n implies (#[trigger] self.id_seq()[j])
                                == pre.id_seq()[j] by {}
                            assert(self.id_seq().no_duplicates());
                            assert forall|o: Seq<char>| #[trigger]
                                self@.contains(o) == pre@.insert(id).contains(o) by {
                                if self.id_seq().contains(o) {
                                    let j = choose|j: int|
                                        0 <= j < self.id_seq().len() && self.id_seq()[j] == o;
                                    if j < n {
                                        assert(pre.id_seq()[j] == o);
                                        assert(pre.id_seq().contains(o));
                                    } else {
                                        assert(o == id);
                                    }
                                } else {
                                    assert(o != id) by {
                                        assert(self.id_seq()[n] == id);
                                    }
                                    if pre.id_seq().contains(o) {
                                        let j = choose|j: int|
                                            0 <= j < pre.id_seq().len() && pre.id_seq()[j] == o;
                                        assert(self.id_seq()[j] == o);
                                    }
                                }
                            }
                            assert(self@ =~= pre@.insert(id));
                        }
                        Ok(())
                    },
                }
            },
        }
    }

    /// Disconnects a local session: removes its entry (the caller signals
    /// the stop flag and aborts the reader it owns).  Always returns ok.
    pub fn disconnect_local(&mut self, session_id: &SessionId) -> (r: Result<(), TerminalError>)
        requires
            old(self).wf(),
        ensures
            final(self).wf(),
            r is Ok,
            final(self)@ == old(self)@.remove(session_id@),
    {
        match self.find(session_id) {
            None => {
                proof {
                    assert(self@ =~= old(self)@.remove(session_id@));
                }
                Ok(())
            },
            Some(i) => {
                let ghost pre = *self;
                self.ids.remove(i);
                proof {
                    assert(self.id_seq() =~= pre.id_seq().remove(i as int));
                    assert forall|j: int| 0 <= j < self.id_seq().len() implies #[trigger] self
                        .id_seq()[j] == (if j < i as int {
                        pre.id_seq()[j]
                    } else {
                        pre.id_seq()[j + 1]
                    }) by {}
                    assert(self.id_seq().no_duplicates());
                    assert(!self.id_seq().contains(session_id@)) by {
                        if self.id_seq().contains(session_id@) {
                            let j = choose|j: int|
                                0 <= j < self.id_seq().len() && self.id_seq()[j] == session_id@;
                            assert(pre.id_seq()[i as int] == session_id@);
                            if j < i as int {
                                assert(pre.id_seq()[j] == session_id@);
                            } else {
                                assert(pre.id_seq()[j + 1] == session_id@);
                            }
                        }
                    }
                    assert forall|o: Seq<char>| #[trigger]
                        self@.contains(o) == pre@.remove(session_id@).contains(o) by {
                        if o != session_id@ {
                            if pre.id_seq().contains(o) {
                                let j = choose|j: int|
                                    0 <= j < pre.id_seq().len() && pre.id_seq()[j] == o;
                                if j < i as int {
                                    assert(self.id_seq()[j] == o);
                                } else {
                                    assert(j != i as int);
                                    assert(self.id_seq()[j - 1] == o);
                                }
                            } else {
                                if self.id_seq().contains(o) {
                                    let j = choose|j: int|
                                        0 <= j < self.id_seq().len() && self.id_seq()[j] == o;
                                    if j < i as int {
                                        assert(pre.id_seq()[j] == o);
                                    } else {
                                        assert(pre.id_seq()[j + 1] == o);
                                    }
                                }
                            }
                        }
                    }
                    assert(self@ =~= pre@.remove(session_id@));
                }
                Ok(())
            },
        }
    }
}

impl Default for TerminalManager {
    /// An empty registry.
    fn default() -> (r: Self)
        ensures
            r.wf(),
            r@ == Set::<Seq<char>>::empty(),
    {
        TerminalManager::new()
    }
}

} // verus!
