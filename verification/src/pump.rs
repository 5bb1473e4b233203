//! The per-session I/O pump: the single consumer of the shell channel's
//! byte stream.  It batches raw bytes into sequenced [`OutputChunk`]s under
//! a two-regime latency policy, captures the chunks of the initial
//! buffering window into a replay buffer for late-attaching clients, and
//! feeds a drainable fan-out queue.
//!
//! The pump is a pure state machine: the surrounding runtime reads the
//! channel and hands every read outcome to [`Pump::step`] together with the
//! current time.  Every transition is verified against [`Pump::spec_step`],
//! and the ordering guarantees (strictly increasing `seq`, gap-free
//! numbering, replay-is-a-prefix, bounded batching delay) are proved below.

use vstd::prelude::*;

use crate::ssh::{chunks_view, consecutive_seqs, ChunkModel, OutputChunk};

verus! {

/// Size threshold of the initial regime (welcome banner, login prompts).
pub const INITIAL_BATCH_SIZE_THRESHOLD: usize = 200;

/// Time threshold of the initial regime, in milliseconds.
pub const INITIAL_BATCH_TIME_MS: u64 = 100;

/// Length of the initial buffering window after session start, in
/// milliseconds.  Chunks emitted inside the window are captured for replay.
pub const INITIAL_BUFFERING_TIMEOUT_MS: u64 = 2000;

/// Size threshold of the normal regime.
pub const NORMAL_BATCH_SIZE_THRESHOLD: usize = 1024;

/// Time threshold of the normal regime, in milliseconds.
pub const NORMAL_BATCH_TIME_MS: u64 = 20;

/// Outcome of one non-blocking read of the shell channel, reported by the
/// runtime that owns the socket.
#[derive(Debug)]
pub enum ReadEvent {
    /// The read returned these bytes.
    Data(Vec<u8>),
    /// The read would have blocked; nothing arrived.
    WouldBlock,
    /// The channel reported end of stream.
    Closed,
    /// The read failed fatally.
    Failed,
}

/// Model of a read outcome.
pub enum ReadModel {
    Data(Seq<u8>),
    WouldBlock,
    Closed,
    Failed,
}

impl View for ReadEvent {
    type V = ReadModel;

    open spec fn view(&self) -> ReadModel {
        match self {
            ReadEvent::Data(d) => ReadModel::Data(d@),
            ReadEvent::WouldBlock => ReadModel::WouldBlock,
            ReadEvent::Closed => ReadModel::Closed,
            ReadEvent::Failed => ReadModel::Failed,
        }
    }
}

/// What the characters of a byte string decode to.
///
/// Relies on `String::from_utf8_lossy` being a function of the bytes alone;
/// see [`utf8_lossy`].
pub uninterp spec fn utf8_lossy_of(b: Seq<u8>) -> Seq<char>;

/// Relies on `String::from_utf8_lossy`: the result depends on the bytes
/// alone, and bytes that are all ASCII decode to exactly those characters.
#[verifier::external_body]
pub(crate) fn utf8_lossy(b: &Vec<u8>) -> (r: String)
    ensures
        r@ == utf8_lossy_of(b@),
        (forall|i: int| 0 <= i < b@.len() ==> b@[i] < 0x80) ==> r@ == b@.map_values(
            |x: u8| x as char,
        ),
{
    String::from_utf8_lossy(b).into_owned()
}

/// Mathematical model of the pump state.
#[verifier::ext_equal]
pub struct PumpModel {
    /// Sequence number the next chunk will carry.
    pub next_seq: u64,
    /// Bytes read from the channel but not yet emitted.
    pub pending: Seq<u8>,
    /// Time of the most recent emission (session start before the first).
    pub last_emit: u64,
    /// Whether any chunk has been emitted yet.
    pub seen_first_output: bool,
    /// Whether the initial buffering window is still open.
    pub in_initial_buffering: bool,
    /// Session start time, milliseconds since the epoch.
    pub start: u64,
    /// The latest time the pump has observed.
    pub clock: u64,
    /// Set when the channel closed or a read failed; the pump is done.
    pub stopped: bool,
    /// Every chunk emitted so far, in emission order.
    pub emitted: Seq<ChunkModel>,
    /// The chunks captured during the initial buffering window.
    pub replay: Seq<ChunkModel>,
    /// Emitted chunks not yet drained by a consumer.
    pub queue: Seq<ChunkModel>,
    /// Number of chunks already drained from the queue.
    pub delivered: nat,
}

/// The size threshold of the active batching regime.
pub open spec fn size_threshold(in_initial: bool, seen_first: bool) -> int {
    if in_initial && !seen_first {
        INITIAL_BATCH_SIZE_THRESHOLD as int
    } else {
        NORMAL_BATCH_SIZE_THRESHOLD as int
    }
}

/// The time threshold of the active batching regime, in milliseconds.
pub open spec fn time_threshold(in_initial: bool, seen_first: bool) -> int {
    if in_initial && !seen_first {
        INITIAL_BATCH_TIME_MS as int
    } else {
        NORMAL_BATCH_TIME_MS as int
    }
}

impl PumpModel {
    /// The pending bytes after folding in one read outcome.
    pub open spec fn pending_after(self, read: ReadModel) -> Seq<u8> {
        match read {
            ReadModel::Data(d) => self.pending + d,
            _ => self.pending,
        }
    }

    /// Whether the read outcome tears the session down.
    pub open spec fn read_fails(read: ReadModel) -> bool {
        read is Closed || read is Failed
    }

    /// Whether a step at time `now` sees the initial window expire.
    pub open spec fn window_expires(self, now: u64) -> bool {
        self.in_initial_buffering && now - self.start > INITIAL_BUFFERING_TIMEOUT_MS
    }

    /// Whether a step at time `now` emits a chunk: either the expiring
    /// window flushes a non-empty pending buffer, or the buffer crosses the
    /// size or time threshold of the active regime.
    pub open spec fn emits(self, read: ReadModel, now: u64) -> bool {
        let p0 = self.pending_after(read);
        let in_init = self.in_initial_buffering && !self.window_expires(now);
        !Self::read_fails(read) && p0.len() > 0 && (self.window_expires(now) || p0.len()
            > size_threshold(in_init, self.seen_first_output) || now - self.last_emit
            > time_threshold(in_init, self.seen_first_output))
    }

    /// The full transition of one pump iteration: the next state and the
    /// chunk emitted, if any.
    pub open spec fn spec_step(self, read: ReadModel, now: u64) -> (PumpModel, Option<
        ChunkModel,
    >) {
        if Self::read_fails(read) {
            (PumpModel { stopped: true, clock: now, ..self }, None)
        } else {
            let p0 = self.pending_after(read);
            let in_init = self.in_initial_buffering && !self.window_expires(now);
            if self.emits(read, now) {
                let c = ChunkModel { seq: self.next_seq, output: utf8_lossy_of(p0), ts: now };
                (
                    (PumpModel {
                        next_seq: (self.next_seq + 1) as u64,
                        pending: Seq::empty(),
                        last_emit: now,
                        seen_first_output: true,
                        in_initial_buffering: in_init,
                        clock: now,
                        emitted: self.emitted.push(c),
                        replay: if in_init {
                            self.replay.push(c)
                        } else {
                            self.replay
                        },
                        queue: self.queue.push(c),
                        ..self
                    }),
                    Some(c),
                )
            } else {
                (
                    (PumpModel {
                        pending: p0,
                        in_initial_buffering: in_init,
                        clock: now,
                        ..self
                    }),
                    None,
                )
            }
        }
    }

    /// Invariant of a live pump.  It pins the shape of the emission
    /// history: chunk `i` carries sequence number `i + 1`, timestamps
    /// never decrease along the history, the replay buffer is the prefix
    /// of the history emitted inside the initial window, and the queue is
    /// the undrained suffix of the history.
    pub open spec fn inv(self) -> bool {
        &&& 1 <= self.next_seq
        &&& self.emitted.len() == self.next_seq - 1
        &&& consecutive_seqs(self.emitted)
        &&& self.seen_first_output == (self.emitted.len() > 0)
        &&& self.start <= self.last_emit <= self.clock
        &&& self.replay.len() <= self.emitted.len()
        &&& self.replay == self.emitted.take(self.replay.len() as int)
        &&& self.in_initial_buffering ==> self.replay.len() == self.emitted.len()
        &&& !self.in_initial_buffering ==> self.clock - self.start > INITIAL_BUFFERING_TIMEOUT_MS
        &&& forall|i: int|
            0 <= i < self.replay.len() ==> (#[trigger] self.replay[i]).ts - self.start
                <= INITIAL_BUFFERING_TIMEOUT_MS
        &&& forall|i: int|
            self.replay.len() <= i < self.emitted.len() ==> (#[trigger] self.emitted[i]).ts
                - self.start > INITIAL_BUFFERING_TIMEOUT_MS
        &&& forall|i: int|
            0 <= i < self.emitted.len() ==> self.start <= (#[trigger] self.emitted[i]).ts
                <= self.clock
        &&& forall|i: int, j: int|
            0 <= i <= j < self.emitted.len() ==> (#[trigger] self.emitted[i]).ts <= (
            #[trigger] self.emitted[j]).ts
        &&& self.delivered + self.queue.len() == self.emitted.len()
        &&& self.queue == self.emitted.skip(self.delivered as int)
    }

    /// The freshly started pump model.
    pub open spec fn init(start: u64) -> PumpModel {
        PumpModel {
            next_seq: 1,
            pending: Seq::empty(),
            last_emit: start,
            seen_first_output: false,
            in_initial_buffering: true,
            start: start,
            clock: start,
            stopped: false,
            emitted: Seq::empty(),
            replay: Seq::empty(),
            queue: Seq::empty(),
            delivered: 0,
        }
    }
}

/// One pump step preserves the invariant.
pub proof fn lemma_step_preserves_inv(m: PumpModel, read: ReadModel, now: u64)
    requires
        m.inv(),
        now >= m.clock,
        m.next_seq < u64::MAX,
    ensures
        m.spec_step(read, now).0.inv(),
{
    let (post, r) = m.spec_step(read, now);
    if PumpModel::read_fails(read) {
        assert(post.queue =~= post.emitted.skip(post.delivered as int));
        assert(post.replay =~= post.emitted.take(post.replay.len() as int));
    } else {
        let in_init = m.in_initial_buffering && !m.window_expires(now);
        if m.emits(read, now) {
            let c = ChunkModel {
                seq: m.next_seq,
                output: utf8_lossy_of(m.pending_after(read)),
                ts: now,
            };
            assert(post.emitted == m.emitted.push(c));
            assert(post.replay =~= post.emitted.take(post.replay.len() as int));
            assert(post.queue =~= post.emitted.skip(post.delivered as int));
        } else {
            assert(post.replay =~= post.emitted.take(post.replay.len() as int));
            assert(post.queue =~= post.emitted.skip(post.delivered as int));
        }
    }
}

/// Replay prefix: the replay buffer is a prefix of the emission history,
/// and it consists of exactly the chunks stamped inside the initial
/// buffering window.
pub proof fn lemma_replay_prefix(m: PumpModel)
    requires
        m.inv(),
    ensures
        m.replay == m.emitted.take(m.replay.len() as int),
        forall|i: int|
            0 <= i < m.emitted.len() ==> ((#[trigger] m.emitted[i]).ts - m.start
                <= INITIAL_BUFFERING_TIMEOUT_MS <==> i < m.replay.len()),
{
    assert forall|i: int| 0 <= i < m.replay.len() implies m.emitted[i].ts - m.start
        <= INITIAL_BUFFERING_TIMEOUT_MS by {
        assert(m.replay[i] == m.emitted[i]);
    }
}

/// Batching bound: a step taken once the active time threshold has elapsed
/// since the last emission never leaves bytes pending (unless the read
/// itself tore the session down).  Pending bytes always arrive after the
/// last emission — an emission flushes the whole buffer — so no byte
/// waits longer than the threshold plus the gap to the next step.
pub proof fn lemma_batching_bound(m: PumpModel, read: ReadModel, now: u64)
    requires
        m.inv(),
        now >= m.clock,
        m.next_seq < u64::MAX,
        !PumpModel::read_fails(read),
        now - m.last_emit > time_threshold(
            m.in_initial_buffering && !m.window_expires(now),
            m.seen_first_output,
        ),
    ensures
        m.spec_step(read, now).0.pending.len() == 0,
        m.pending_after(read).len() > 0 ==> m.spec_step(read, now).1 is Some,
{
}

/// The live pump state.  `emitted` and `delivered` are ghost bookkeeping:
/// the history of every chunk ever emitted and the count of drained chunks.
pub struct Pump {
    pub next_seq: u64,
    pub pending: Vec<u8>,
    pub last_emit: u64,
    pub seen_first_output: bool,
    pub in_initial_buffering: bool,
    pub start: u64,
    pub clock: u64,
    pub stopped: bool,
    pub emitted: Ghost<Seq<ChunkModel>>,
    pub replay: Vec<OutputChunk>,
    pub queue: Vec<OutputChunk>,
    pub delivered: Ghost<nat>,
}

impl View for Pump {
    type V = PumpModel;

    open spec fn view(&self) -> PumpModel {
        PumpModel {
            next_seq: self.next_seq,
            pending: self.pending@,
            last_emit: self.last_emit,
            seen_first_output: self.seen_first_output,
            in_initial_buffering: self.in_initial_buffering,
            start: self.start,
            clock: self.clock,
            stopped: self.stopped,
            emitted: self.emitted@,
            replay: chunks_view(self.replay@),
            queue: chunks_view(self.queue@),
            delivered: self.delivered@,
        }
    }
}

impl Pump {
    /// Starts a pump for a session that began at time `start`.
    pub fn new(start: u64) -> (r: Pump)
        ensures
            r@ == PumpModel::init(start),
            r@.inv(),
    {
        let r = Pump {
            next_seq: 1,
            pending: Vec::new(),
            last_emit: start,
            seen_first_output: false,
            in_initial_buffering: true,
            start,
            clock: start,
            stopped: false,
            emitted: Ghost(Seq::empty()),
            replay: Vec::new(),
            queue: Vec::new(),
            delivered: Ghost(0),
        };
        proof {
            assert(r@ =~= PumpModel::init(start));
            assert(r@.replay =~= r@.emitted.take(r@.replay.len() as int));
            assert(r@.queue =~= r@.emitted.skip(r@.delivered as int));
        }
        r
    }

    /// Runs one pump iteration at time `now` on the given read outcome.
    /// Returns the chunk emitted by this iteration, if any; the same chunk
    /// is also appended to the fan-out queue and, inside the initial
    /// window, to the replay buffer.
    pub fn step(&mut self, read: ReadEvent, now: u64) -> (r: Option<OutputChunk>)
        requires
            old(self)@.inv(),
            !old(self).stopped,
            now >= old(self).clock,
            old(self).next_seq < u64::MAX,
        ensures
            final(self)@.inv(),
            final(self)@ == old(self)@.spec_step(read@, now).0,
            (match r {
                Some(c) => old(self)@.spec_step(read@, now).1 == Some(c@),
                None => old(self)@.spec_step(read@, now).1 is None,
            }),
    {
        let ghost read0 = read@;
        proof {
            lemma_step_preserves_inv(old(self)@, read0, now);
        }
        self.clock = now;
        match read {
            ReadEvent::Closed | ReadEvent::Failed => {
                self.stopped = true;
                proof {
                    assert(self@ =~= old(self)@.spec_step(read0, now).0);
                }
                return None;
            },
            ReadEvent::Data(d) => {
                let mut d = d;
                self.pending.append(&mut d);
            },
            ReadEvent::WouldBlock => {},
        }
        assert(self.pending@ == old(self)@.pending_after(read0));

        let expired = self.in_initial_buffering && now - self.start > INITIAL_BUFFERING_TIMEOUT_MS;
        if expired {
            self.in_initial_buffering = false;
        }
        let in_init = self.in_initial_buffering;
        assert(in_init == (old(self)@.in_initial_buffering && !old(self)@.window_expires(now)));

        let size_th: usize = if in_init && !self.seen_first_output {
            INITIAL_BATCH_SIZE_THRESHOLD
        } else {
            NORMAL_BATCH_SIZE_THRESHOLD
        };
        let time_th: u64 = if in_init && !self.seen_first_output {
            INITIAL_BATCH_TIME_MS
        } else {
            NORMAL_BATCH_TIME_MS
        };

        let emit = self.pending.len() > 0 && (expired || self.pending.len() > size_th || now
            - self.last_emit > time_th);
        assert(emit == old(self)@.emits(read0, now));

        if emit {
            let output = utf8_lossy(&self.pending);
            self.pending.clear();
            let chunk = OutputChunk::new(self.next_seq, output, now);
            self.next_seq = self.next_seq + 1;
            self.last_emit = now;
            self.seen_first_output = true;
            proof {
                self.emitted@ = self.emitted@.push(chunk@);
            }
            if in_init {
                self.replay.push(chunk.clone());
            }
            self.queue.push(chunk.clone());
            proof {
                assert(self@.replay =~= old(self)@.spec_step(read0, now).0.replay);
                assert(self@.queue =~= old(self)@.spec_step(read0, now).0.queue);
                assert(self@ =~= old(self)@.spec_step(read0, now).0);
            }
            Some(chunk)
        } else {
            proof {
                assert(self@ =~= old(self)@.spec_step(read0, now).0);
            }
            None
        }
    }

    /// Removes and returns every queued chunk, in emission order.
    pub fn drain(&mut self) -> (r: Vec<OutputChunk>)
        requires
            old(self)@.inv(),
        ensures
            final(self)@.inv(),
            chunks_view(r@) == old(self)@.queue,
            final(self)@ == (PumpModel {
                queue: Seq::empty(),
                delivered: old(self)@.delivered + old(self)@.queue.len(),
                ..old(self)@
            }),
    {
        let mut r: Vec<OutputChunk> = Vec::new();
        let n = self.queue.len();
        for i in 0..n
            invariant
                n == self.queue.len(),
                r@.len() == i,
                forall|j: int| 0 <= j < i ==> r@[j] == self.queue@[j],
        {
            r.push(self.queue[i].clone());
        }
        self.queue.clear();
        proof {
            self.delivered@ = self.delivered@ + r@.len();
            assert(chunks_view(r@) =~= old(self)@.queue);
            assert(self@.queue =~= Seq::<ChunkModel>::empty());
            assert(self@ =~= (PumpModel {
                queue: Seq::empty(),
                delivered: old(self)@.delivered + old(self)@.queue.len(),
                ..old(self)@
            }));
            assert(self@.queue =~= self@.emitted.skip(self@.delivered as int));
        }
        r
    }

    /// Returns a copy of the replay buffer; the buffer itself is untouched.
    pub fn replay_snapshot(&self) -> (r: Vec<OutputChunk>)
        ensures
            chunks_view(r@) == self@.replay,
            forall|j: int| 0 <= j < r@.len() ==> r@[j] == self.replay@[j],
    {
        let mut r: Vec<OutputChunk> = Vec::new();
        let n = self.replay.len();
        for i in 0..n
            invariant
                n == self.replay.len(),
                r@.len() == i,
                forall|j: int| 0 <= j < i ==> r@[j] == self.replay@[j],
        {
            r.push(self.replay[i].clone());
        }
        proof {
            assert(chunks_view(r@) =~= self@.replay);
        }
        r
    }
}

} // verus!
