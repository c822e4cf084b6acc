//! Decisions of the application tick: when to (re)attach to the game, how to
//! read the shared data block, which marker to follow and how much of the game
//! module to scan. The caller performs the process work these decisions ask for.

use vstd::prelude::*;
use vstd::bytes::{spec_u32_from_le_bytes, u32_from_le_bytes};
use vstd::slice::slice_subrange;

verus! {

/// Failed attach attempts after which the loop stops until a manual reconnect.
pub const MAX_ATTACH_ATTEMPTS: u32 = 5;

/// Ticks between two attach attempts.
pub const ATTACH_RETRY_TICKS: u32 = 300;

/// What an unattached tick asks for.
pub enum AttachStep {
    /// Not yet time to retry.
    Wait,
    /// Try to attach now.
    Attempt,
    /// Too many failures: the loop has stopped.
    GiveUp,
}

/// What one tick of the application loop does.
pub enum TickStep {
    /// The loop has stopped: nothing happens until a reconnect.
    Stopped,
    /// Attached: check the process and read the shared block.
    Service,
    /// Not attached: the attach schedule's step.
    Attach(AttachStep),
}

/// Outcome of an attach attempt.
pub enum AttachOutcome {
    Attached,
    /// The attempt failed; `pattern_missing` when an AOB pattern was not found
    /// (the game executable changed), which stops the loop for good.
    Failed { pattern_missing: bool },
}

/// Attach scheduling: retry counter, consecutive failures, running flag.
pub struct AttachState {
    attach_retries: u32,
    attach_failure_count: u32,
    running: bool,
}

/// The attach state as plain values: (retries, failures, running).
pub struct AttachView {
    pub retries: nat,
    pub failures: nat,
    pub running: bool,
}

impl View for AttachState {
    type V = AttachView;

    closed spec fn view(&self) -> AttachView {
        AttachView {
            retries: self.attach_retries as nat,
            failures: self.attach_failure_count as nat,
            running: self.running,
        }
    }
}

/// The state after one unattached tick, with the step taken.
pub open spec fn poll_spec(s: AttachView) -> (AttachView, AttachStep) {
    if s.retries + 1 >= ATTACH_RETRY_TICKS {
        if s.failures >= MAX_ATTACH_ATTEMPTS {
            (AttachView { retries: 0, failures: s.failures, running: false }, AttachStep::GiveUp)
        } else {
            (AttachView { retries: 0, failures: s.failures, running: s.running }, AttachStep::Attempt)
        }
    } else {
        (AttachView { retries: s.retries + 1, failures: s.failures, running: s.running }, AttachStep::Wait)
    }
}

/// The state after one tick, with what the tick does: nothing once stopped,
/// service while attached, otherwise the attach schedule's step.
pub open spec fn tick_spec(s: AttachView, attached: bool) -> (AttachView, TickStep) {
    if !s.running {
        (s, TickStep::Stopped)
    } else if attached {
        (s, TickStep::Service)
    } else {
        (poll_spec(s).0, TickStep::Attach(poll_spec(s).1))
    }
}

/// The state after an attach attempt with the given outcome.
pub open spec fn record_spec(s: AttachView, outcome: AttachOutcome) -> AttachView {
    match outcome {
        AttachOutcome::Attached => AttachView { retries: 0, failures: 0, running: s.running },
        AttachOutcome::Failed { pattern_missing } => AttachView {
            retries: s.retries,
            failures: s.failures + 1,
            running: s.running && !pattern_missing,
        },
    }
}


/// The state after `k` unattached ticks.
pub open spec fn polls(s: AttachView, k: nat) -> AttachView
    decreases k,
{
    if k == 0 {
        s
    } else {
        poll_spec(polls(s, (k - 1) as nat)).0
    }
}

proof fn lemma_polls_count_up(s: AttachView, k: nat)
    requires
        s.retries + k < ATTACH_RETRY_TICKS,
    ensures
        polls(s, k) == (AttachView { retries: s.retries + k, ..s }),
    decreases k,
{
    if k > 0 {
        lemma_polls_count_up(s, (k - 1) as nat);
    }
}

/// Attach attempts are spaced `ATTACH_RETRY_TICKS` ticks apart: from a counter
/// of `r`, the next `ATTACH_RETRY_TICKS - 1 - r` ticks wait, and the tick after
/// them attempts, or gives up and stops once `MAX_ATTACH_ATTEMPTS` attempts failed.
pub proof fn lemma_retry_period(s: AttachView)
    requires
        s.retries < ATTACH_RETRY_TICKS,
    ensures
        forall|j: nat|
            j < ATTACH_RETRY_TICKS - 1 - s.retries ==> #[trigger] poll_spec(polls(s, j)).1 is Wait,
        ({
            let due = poll_spec(polls(s, (ATTACH_RETRY_TICKS - 1 - s.retries) as nat));
            &&& s.failures < MAX_ATTACH_ATTEMPTS ==> due.1 is Attempt && due.0.running == s.running
            &&& s.failures >= MAX_ATTACH_ATTEMPTS ==> due.1 is GiveUp && !due.0.running
            &&& due.0.retries == 0
        }),
{
    assert forall|j: nat| j < ATTACH_RETRY_TICKS - 1 - s.retries implies #[trigger] poll_spec(
        polls(s, j),
    ).1 is Wait by {
        lemma_polls_count_up(s, j);
    }
    lemma_polls_count_up(s, (ATTACH_RETRY_TICKS - 1 - s.retries) as nat);
}

/// A fresh state, and a manual reconnect, attempt on the very next tick.
pub proof fn lemma_attempt_right_away(s: AttachView)
    requires
        s == (AttachView { retries: (ATTACH_RETRY_TICKS - 1) as nat, failures: 0, running: true }),
    ensures
        poll_spec(s).1 is Attempt,
        poll_spec(s).0.running,
{
}

/// A stopped loop stays as it is and does nothing, attached or not, until a
/// reconnect; a running, attached loop leaves the attach schedule alone.
pub proof fn lemma_stopped_is_idle(s: AttachView, attached: bool)
    ensures
        !s.running ==> tick_spec(s, attached) == (s, TickStep::Stopped),
        s.running && attached ==> tick_spec(s, attached) == (s, TickStep::Service),
        s.running && !attached ==> tick_spec(s, attached).1 is Attach,
{
}

/// A failure counts toward the limit; a missing pattern stops the loop at once;
/// a success clears the count.
pub proof fn lemma_record_outcomes(s: AttachView, pattern_missing: bool)
    ensures
        record_spec(s, AttachOutcome::Failed { pattern_missing }).failures == s.failures + 1,
        pattern_missing ==> !record_spec(s, AttachOutcome::Failed { pattern_missing }).running,
        record_spec(s, AttachOutcome::Attached).failures == 0,
{
}

/// An ordinary failed attempt (the game is not up yet) only counts: the loop keeps
/// running and the next tick waits for the next retry. A failure stops the loop
/// only when a pattern is missing, and an unattached loop gives up only once
/// `MAX_ATTACH_ATTEMPTS` attempts have failed. Nothing but a reconnect restarts
/// a stopped loop.
pub proof fn lemma_ordinary_failure_keeps_retrying(s: AttachView, pattern_missing: bool, attached: bool)
    ensures
        record_spec(s, AttachOutcome::Failed { pattern_missing: false }).running == s.running,
        record_spec(s, AttachOutcome::Failed { pattern_missing: false }).failures == s.failures + 1,
        s.running && s.retries + 1 < ATTACH_RETRY_TICKS ==> tick_spec(
            record_spec(s, AttachOutcome::Failed { pattern_missing: false }),
            false,
        ).1 matches TickStep::Attach(AttachStep::Wait),
        s.running && !record_spec(s, AttachOutcome::Failed { pattern_missing }).running
            ==> pattern_missing,
        s.running && !tick_spec(s, attached).0.running ==> s.failures >= MAX_ATTACH_ATTEMPTS,
        tick_spec(s, attached).1 matches TickStep::Attach(AttachStep::GiveUp) ==> s.failures
            >= MAX_ATTACH_ATTEMPTS,
        !s.running ==> !tick_spec(s, attached).0.running && !record_spec(
            s,
            AttachOutcome::Failed { pattern_missing },
        ).running && !record_spec(s, AttachOutcome::Attached).running,
{
}

impl AttachState {
    #[verifier::type_invariant]
    closed spec fn inv(self) -> bool {
        &&& self.attach_retries < ATTACH_RETRY_TICKS
        &&& self.attach_failure_count <= MAX_ATTACH_ATTEMPTS
    }

    /// A fresh state: running, no failures, and due to attempt on the first tick.
    pub fn new() -> (s: Self)
        ensures
            s@ == (AttachView { retries: (ATTACH_RETRY_TICKS - 1) as nat, failures: 0, running: true }),
    {
        AttachState { attach_retries: ATTACH_RETRY_TICKS - 1, attach_failure_count: 0, running: true }
    }

    /// Whether the loop is still running.
    pub fn running(&self) -> (r: bool)
        ensures
            r == self@.running,
    {
        self.running
    }

    /// Consecutive failed attempts.
    pub fn attach_failure_count(&self) -> (n: u32)
        ensures
            n == self@.failures,
            n <= MAX_ATTACH_ATTEMPTS,
    {
        proof {
            use_type_invariant(self);
        }
        self.attach_failure_count
    }

    /// Ticks since the last attempt.
    pub fn attach_retries(&self) -> (n: u32)
        ensures
            n == self@.retries,
            n < ATTACH_RETRY_TICKS,
    {
        proof {
            use_type_invariant(self);
        }
        self.attach_retries
    }

    /// An unattached tick: counts up and, every `ATTACH_RETRY_TICKS` ticks, asks
    /// for an attempt, or gives up once `MAX_ATTACH_ATTEMPTS` attempts failed.
    pub fn poll_unattached(&mut self) -> (step: AttachStep)
        ensures
            (final(self)@, step) == poll_spec(old(self)@),
    {
        proof {
            use_type_invariant(&*self);
        }
        let retries = self.attach_retries + 1;
        if retries >= ATTACH_RETRY_TICKS {
            self.attach_retries = 0;
            if self.attach_failure_count >= MAX_ATTACH_ATTEMPTS {
                self.running = false;
                return AttachStep::GiveUp;
            }
            AttachStep::Attempt
        } else {
            self.attach_retries = retries;
            AttachStep::Wait
        }
    }

    /// One tick of the application loop, given whether a process is attached.
    pub fn tick_step(&mut self, attached: bool) -> (step: TickStep)
        ensures
            (final(self)@, step) == tick_spec(old(self)@, attached),
    {
        if !self.running {
            TickStep::Stopped
        } else if attached {
            TickStep::Service
        } else {
            TickStep::Attach(self.poll_unattached())
        }
    }

    /// Record the outcome of the attempt that `poll_unattached` asked for.
    pub fn record_attach(&mut self, outcome: AttachOutcome)
        requires
            old(self)@.failures < MAX_ATTACH_ATTEMPTS,
        ensures
            final(self)@ == record_spec(old(self)@, outcome),
    {
        proof {
            use_type_invariant(&*self);
        }
        match outcome {
            AttachOutcome::Attached => {
                self.attach_failure_count = 0;
                self.attach_retries = 0;
            },
            AttachOutcome::Failed { pattern_missing } => {
                self.attach_failure_count = self.attach_failure_count + 1;
                if pattern_missing {
                    self.running = false;
                }
            },
        }
    }

    /// Manual reconnection: forget failures, resume, and attempt on the next tick.
    pub fn reconnect(&mut self)
        ensures
            final(self)@ == (AttachView {
                retries: (ATTACH_RETRY_TICKS - 1) as nat,
                failures: 0,
                running: true,
            }),
    {
        proof {
            use_type_invariant(&*self);
        }
        self.attach_failure_count = 0;
        self.attach_retries = ATTACH_RETRY_TICKS - 1;
        self.running = true;
    }

    /// Stop the loop.
    pub fn stop(&mut self)
        ensures
            final(self)@ == (AttachView { running: false, ..old(self)@ }),
    {
        proof {
            use_type_invariant(&*self);
        }
        self.running = false;
    }
}

/// Offset in the block of the first byte read each tick (player position).
pub const BLOCK_READ_START: u64 = 0x20;

/// Bytes read each tick: position at 0x20, marker at 0x40, heading at 0x90.
pub const BLOCK_READ_SIZE: usize = 0x74;

/// Bytes read at the world offset (three floats and padding).
pub const WORLD_READ_SIZE: usize = 16;

/// Most of the module that is scanned (the patterns live in the code section).
pub const SCAN_LIMIT: usize = 100 * 1024 * 1024;

/// Size of one read while scanning.
pub const SCAN_CHUNK_SIZE: usize = 5 * 1024 * 1024;

/// One tick's reading of the block, floats kept as their IEEE-754 bit patterns.
pub struct BlockReading {
    /// Player position (x, y, z), absent while all three are zero.
    pub player_pos: Option<(u32, u32, u32)>,
    /// Marker (x, y, z, flag), present when the flag is 1.
    pub marker: Option<(u32, u32, u32, u32)>,
    /// Camera heading.
    pub camera_heading: u32,
}

/// The little-endian 32-bit word at `off`.
pub open spec fn word_at(buf: Seq<u8>, off: int) -> u32 {
    spec_u32_from_le_bytes(buf.subrange(off, off + 4))
}

/// Whether a float bit pattern is +0.0 or -0.0 (the values equal to `0.0`).
pub open spec fn is_float_zero(bits: u32) -> bool {
    bits == 0 || bits == 0x8000_0000
}

/// The reading that a block buffer holds.
pub open spec fn block_reading_spec(buf: Seq<u8>) -> (
    Option<(u32, u32, u32)>,
    Option<(u32, u32, u32, u32)>,
    u32,
) {
    let (px, py, pz) = (word_at(buf, 0x00), word_at(buf, 0x04), word_at(buf, 0x08));
    let pos = if is_float_zero(px) && is_float_zero(py) && is_float_zero(pz) {
        None
    } else {
        Some((px, py, pz))
    };
    let flag = word_at(buf, 0x2C);
    let marker = if flag == 1 {
        Some((word_at(buf, 0x20), word_at(buf, 0x24), word_at(buf, 0x28), flag))
    } else {
        None
    };
    (pos, marker, word_at(buf, 0x70))
}

fn read_word(buf: &[u8], off: usize) -> (w: u32)
    requires
        off + 4 <= buf@.len(),
        off <= 0x70,
    ensures
        w == word_at(buf@, off as int),
{
    u32_from_le_bytes(slice_subrange(buf, off, off + 4))
}

fn is_zero_bits(bits: u32) -> (z: bool)
    ensures
        z == is_float_zero(bits),
{
    bits == 0 || bits == 0x8000_0000
}

/// The reading takes each field from its own word, in order: the player
/// position is the words at 0x00, 0x04, 0x08 as (x, y, z), absent exactly when
/// all three are zero; the marker is the words at 0x20, 0x24, 0x28 as (x, y, z)
/// with its flag, present exactly when the flag word at 0x2C is 1; the heading
/// is the word at 0x70.
pub proof fn lemma_block_fields_in_order(buf: Seq<u8>)
    ensures
        ({
            let (pos, marker, heading) = block_reading_spec(buf);
            &&& pos is None <==> (is_float_zero(word_at(buf, 0x00)) && is_float_zero(
                word_at(buf, 0x04),
            ) && is_float_zero(word_at(buf, 0x08)))
            &&& pos is Some ==> pos == Some((word_at(buf, 0x00), word_at(buf, 0x04), word_at(buf, 0x08)))
            &&& marker is Some <==> word_at(buf, 0x2C) == 1
            &&& marker is Some ==> marker == Some(
                (word_at(buf, 0x20), word_at(buf, 0x24), word_at(buf, 0x28), 1u32),
            )
            &&& heading == word_at(buf, 0x70)
        }),
{
}

/// Decode the `BLOCK_READ_SIZE` bytes read at `block + BLOCK_READ_START`.
pub fn decode_block(buf: &[u8]) -> (r: BlockReading)
    requires
        buf@.len() == BLOCK_READ_SIZE,
    ensures
        (r.player_pos, r.marker, r.camera_heading) == block_reading_spec(buf@),
        r.player_pos is Some ==> r.player_pos == Some(
            (word_at(buf@, 0x00), word_at(buf@, 0x04), word_at(buf@, 0x08)),
        ),
        r.marker is Some <==> word_at(buf@, 0x2C) == 1,
        r.marker is Some ==> r.marker == Some(
            (word_at(buf@, 0x20), word_at(buf@, 0x24), word_at(buf@, 0x28), 1u32),
        ),
        r.camera_heading == word_at(buf@, 0x70),
{
    let px = read_word(buf, 0x00);
    let py = read_word(buf, 0x04);
    let pz = read_word(buf, 0x08);
    let player_pos = if is_zero_bits(px) && is_zero_bits(py) && is_zero_bits(pz) {
        None
    } else {
        Some((px, py, pz))
    };
    let flag = read_word(buf, 0x2C);
    let marker = if flag == 1 {
        Some((read_word(buf, 0x20), read_word(buf, 0x24), read_word(buf, 0x28), flag))
    } else {
        None
    };
    let camera_heading = read_word(buf, 0x70);
    BlockReading { player_pos, marker, camera_heading }
}

/// Decode the world offset (x, y, z) from the `WORLD_READ_SIZE` bytes read there.
pub fn decode_world_offset(buf: &[u8]) -> (w: (u32, u32, u32))
    requires
        buf@.len() == WORLD_READ_SIZE,
    ensures
        w == (word_at(buf@, 0), word_at(buf@, 4), word_at(buf@, 8)),
{
    (read_word(buf, 0), read_word(buf, 4), read_word(buf, 8))
}

/// How much of a module of `module_size` bytes is scanned.
pub open spec fn scan_len(module_size: u64) -> nat {
    if module_size < SCAN_LIMIT {
        module_size as nat
    } else {
        SCAN_LIMIT as nat
    }
}

/// The reads that cover the scanned prefix: consecutive `SCAN_CHUNK_SIZE`
/// chunks, the last one shorter when needed.
pub open spec fn scan_chunks_spec(module_size: u64) -> Seq<(u64, usize)> {
    let n = scan_len(module_size);
    Seq::new(
        ((n + SCAN_CHUNK_SIZE - 1) / SCAN_CHUNK_SIZE as int) as nat,
        |k: int|
            (
                (k * SCAN_CHUNK_SIZE) as u64,
                (if n - k * SCAN_CHUNK_SIZE < SCAN_CHUNK_SIZE {
                    n - k * SCAN_CHUNK_SIZE
                } else {
                    SCAN_CHUNK_SIZE as int
                }) as usize,
            ),
    )
}

proof fn lemma_chunk_start(limit: int, k: int)
    requires
        0 <= limit,
        0 <= k < (limit + SCAN_CHUNK_SIZE - 1) / SCAN_CHUNK_SIZE as int,
    ensures
        k * SCAN_CHUNK_SIZE < limit,
{
    let c = SCAN_CHUNK_SIZE as int;
    let n = (limit + c - 1) / c;
    assert(n * c <= limit + c - 1) by (nonlinear_arith)
        requires
            n == (limit + c - 1) / c,
            c > 0,
            limit >= 0,
    ;
    assert(k * c <= (n - 1) * c) by (nonlinear_arith)
        requires
            k <= n - 1,
            c > 0,
    ;
    assert((n - 1) * c == n * c - c) by (nonlinear_arith);
}


/// The planned reads cover the scanned prefix exactly: they start at 0, follow
/// each other without gaps, are at most `SCAN_CHUNK_SIZE` long and end at the
/// scan length.
pub proof fn lemma_scan_chunks_tile(module_size: u64)
    ensures
        scan_len(module_size) == 0 <==> scan_chunks_spec(module_size).len() == 0,
        scan_chunks_spec(module_size).len() > 0 ==> scan_chunks_spec(module_size)[0].0 == 0,
        forall|k: int|
            0 <= k < scan_chunks_spec(module_size).len() ==> 0 < #[trigger] scan_chunks_spec(
                module_size,
            )[k].1 <= SCAN_CHUNK_SIZE,
        forall|k: int|
            0 <= k < scan_chunks_spec(module_size).len() - 1 ==> #[trigger] scan_chunks_spec(
                module_size,
            )[k].0 + scan_chunks_spec(module_size)[k].1 == scan_chunks_spec(module_size)[k + 1].0,
        scan_chunks_spec(module_size).len() > 0 ==> ({
            let c = scan_chunks_spec(module_size);
            c[c.len() - 1].0 + c[c.len() - 1].1 == scan_len(module_size)
        }),
{
    let c = scan_chunks_spec(module_size);
    let n = scan_len(module_size) as int;
    let cs = SCAN_CHUNK_SIZE as int;
    let cnt = c.len() as int;
    assert(cnt == (n + cs - 1) / cs);
    if n > 0 {
        assert((n + cs - 1) / cs >= 1) by (nonlinear_arith)
            requires
                n > 0,
                cs > 0,
        ;
    } else {
        assert((cs - 1) / cs == 0) by (nonlinear_arith)
            requires
                cs > 0,
        ;
    }
    assert forall|k: int| 0 <= k < c.len() implies 0 < #[trigger] c[k].1 <= SCAN_CHUNK_SIZE by {
        lemma_chunk_start(n, k);
    }
    assert forall|k: int| 0 <= k < c.len() - 1 implies #[trigger] c[k].0 + c[k].1 == c[k + 1].0 by {
        lemma_chunk_start(n, k + 1);
        assert((k + 1) * cs == k * cs + cs) by (nonlinear_arith);
    }
    if cnt > 0 {
        lemma_chunk_start(n, cnt - 1);
        assert(cnt * cs >= n) by (nonlinear_arith)
            requires
                cnt == (n + cs - 1) / cs,
                cs > 0,
                n >= 0,
        ;
        assert((cnt - 1) * cs == cnt * cs - cs) by (nonlinear_arith);
    }
}

/// Plan the reads of the module prefix that is scanned for patterns.
pub fn scan_chunks(module_size: u64) -> (chunks: Vec<(u64, usize)>)
    ensures
        chunks@ == scan_chunks_spec(module_size),
{
    let limit: usize = if module_size < SCAN_LIMIT as u64 {
        module_size as usize
    } else {
        SCAN_LIMIT
    };
    let count: usize = (limit + SCAN_CHUNK_SIZE - 1) / SCAN_CHUNK_SIZE;
    let mut chunks: Vec<(u64, usize)> = Vec::new();
    let mut k: usize = 0;
    while k < count
        invariant
            limit == scan_len(module_size),
            limit <= SCAN_LIMIT,
            count == (limit + SCAN_CHUNK_SIZE - 1) / SCAN_CHUNK_SIZE as int,
            k <= count,
            chunks@.len() == k,
            forall|j: int|
                0 <= j < k ==> #[trigger] chunks@[j] == scan_chunks_spec(module_size)[j],
        decreases count - k,
    {
        proof {
            lemma_chunk_start(limit as int, k as int);
        }
        let offset: usize = k * SCAN_CHUNK_SIZE;
        let to_read: usize = if limit - offset < SCAN_CHUNK_SIZE {
            limit - offset
        } else {
            SCAN_CHUNK_SIZE
        };
        chunks.push((offset as u64, to_read));
        k = k + 1;
    }
    assert(chunks@ =~= scan_chunks_spec(module_size));
    chunks
}
/// A marker position quantized to the 1-unit grid (`x as i32` per axis).
pub type MarkerKey = (i32, i32, i32);

/// Every axis of `a` lies within one unit of `b`.
pub open spec fn within_one(a: MarkerKey, b: MarkerKey) -> bool {
    &&& -1 <= a.0 - b.0 <= 1
    &&& -1 <= a.1 - b.1 <= 1
    &&& -1 <= a.2 - b.2 <= 1
}

/// Whether a manual marker survives this tick ("last set wins"): a new or moved
/// game marker replaces it, and clearing a game marker that the manual marker
/// shadowed clears it too.
pub open spec fn keep_manual_spec(
    last_game: Option<MarkerKey>,
    game: Option<MarkerKey>,
    manual: Option<MarkerKey>,
) -> bool {
    &&& manual is Some
    &&& !(game is Some && game != last_game)
    &&& !(game is None && last_game is Some && within_one(manual.unwrap(), last_game.unwrap()))
}

/// "Last set wins": a manual marker survives while the game's marker stays the
/// same, and a new or moved game marker always replaces it; when the game clears
/// its marker, a manual marker within one unit of it on every axis goes too and
/// any other stays; without a manual marker there is nothing to keep.
pub proof fn lemma_last_set_wins(
    last_game: Option<MarkerKey>,
    game: Option<MarkerKey>,
    manual: Option<MarkerKey>,
)
    ensures
        game is Some && game == last_game && manual is Some ==> keep_manual_spec(
            last_game,
            game,
            manual,
        ),
        game is Some && game != last_game ==> !keep_manual_spec(last_game, game, manual),
        manual is None ==> !keep_manual_spec(last_game, game, manual),
        game is None && last_game is None && manual is Some ==> keep_manual_spec(
            last_game,
            game,
            manual,
        ),
        game is None && last_game is Some && manual is Some ==> (keep_manual_spec(
            last_game,
            game,
            manual,
        ) <==> !(-1 <= manual.unwrap().0 - last_game.unwrap().0 <= 1 && -1 <= manual.unwrap().1
            - last_game.unwrap().1 <= 1 && -1 <= manual.unwrap().2 - last_game.unwrap().2 <= 1)),
{
}

/// Remembers the last game marker to tell new markers from unchanged ones.
pub struct MarkerTracker {
    last_game_marker: Option<MarkerKey>,
}

impl View for MarkerTracker {
    type V = Option<MarkerKey>;

    closed spec fn view(&self) -> Option<MarkerKey> {
        self.last_game_marker
    }
}

fn axis_within_one(a: i32, b: i32) -> (r: bool)
    ensures
        r == (-1 <= a - b <= 1),
{
    let d: i64 = a as i64 - b as i64;
    -1 <= d && d <= 1
}

impl MarkerTracker {
    /// No game marker seen yet.
    pub fn new() -> (t: Self)
        ensures
            t@ is None,
    {
        MarkerTracker { last_game_marker: None }
    }

    /// Take this tick's game marker key and the key of the manual marker (if any);
    /// return whether the manual marker stays in effect.
    pub fn update(&mut self, game: Option<MarkerKey>, manual: Option<MarkerKey>) -> (keep_manual: bool)
        ensures
            keep_manual == keep_manual_spec(old(self)@, game, manual),
            final(self)@ == game,
    {
        let mut keep = manual.is_some();
        match game {
            Some(g) => {
                let changed = match self.last_game_marker {
                    Some(l) => !(g.0 == l.0 && g.1 == l.1 && g.2 == l.2),
                    None => true,
                };
                if changed {
                    keep = false;
                }
            },
            None => {
                if let (Some(m), Some(l)) = (manual, self.last_game_marker) {
                    if axis_within_one(m.0, l.0) && axis_within_one(m.1, l.1) && axis_within_one(
                        m.2,
                        l.2,
                    ) {
                        keep = false;
                    }
                }
            },
        }
        self.last_game_marker = game;
        keep
    }
}

} // verus!
