//! Circular debug log with timestamps.

use vstd::prelude::*;
use std::collections::VecDeque;

verus! {

broadcast use vstd::std_specs::vecdeque::axiom_spec_len;

/// Maximum lines retained in the ring buffer.
pub const MAX_LOG_LINES: usize = 220;

/// Number of lines shown at once.
pub const DISPLAY_LINES: usize = 40;

/// A log line: `[timestamp] message`.
pub open spec fn log_entry(timestamp: Seq<char>, msg: Seq<char>) -> Seq<char> {
    "["@ + timestamp + "] "@ + msg
}

/// The buffer after appending `entry`: the oldest line is dropped when full.
pub open spec fn appended(lines: Seq<Seq<char>>, entry: Seq<char>) -> Seq<Seq<char>> {
    if lines.len() >= MAX_LOG_LINES {
        lines.drop_first().push(entry)
    } else {
        lines.push(entry)
    }
}

/// Lines joined with `\n` separators.
pub open spec fn join_lines(lines: Seq<Seq<char>>) -> Seq<char>
    decreases lines.len(),
{
    if lines.len() == 0 {
        Seq::empty()
    } else if lines.len() == 1 {
        lines[0]
    } else {
        join_lines(lines.drop_last()) + "\n"@ + lines.last()
    }
}

/// The last `n` lines (all of them when there are fewer).
pub open spec fn last_lines(lines: Seq<Seq<char>>, n: nat) -> Seq<Seq<char>> {
    if n >= lines.len() {
        lines
    } else {
        lines.subrange(lines.len() - n, lines.len() as int)
    }
}


/// The buffer always holds the newest `MAX_LOG_LINES` entries ever logged:
/// appending an entry to the last lines of a history gives the last lines of
/// the extended history.
pub proof fn lemma_keeps_newest(history: Seq<Seq<char>>, entry: Seq<char>)
    ensures
        appended(last_lines(history, MAX_LOG_LINES as nat), entry) == last_lines(
            history.push(entry),
            MAX_LOG_LINES as nat,
        ),
{
    let lhs = appended(last_lines(history, MAX_LOG_LINES as nat), entry);
    let rhs = last_lines(history.push(entry), MAX_LOG_LINES as nat);
    assert(lhs =~= rhs);
}

/// Circular debug logger: keeps the newest `MAX_LOG_LINES` lines.
pub struct DebugLogger {
    buffer: VecDeque<String>,
}

impl View for DebugLogger {
    type V = Seq<Seq<char>>;

    closed spec fn view(&self) -> Seq<Seq<char>> {
        self.buffer@.map_values(|s: String| s@)
    }
}

impl DebugLogger {
    #[verifier::type_invariant]
    closed spec fn inv(self) -> bool {
        self.buffer@.len() <= MAX_LOG_LINES
    }

    /// Create an empty logger.
    pub fn new() -> (logger: Self)
        ensures
            logger@ == Seq::<Seq<char>>::empty(),
    {
        let logger = DebugLogger { buffer: VecDeque::with_capacity(MAX_LOG_LINES) };
        assert(logger@ =~= Seq::<Seq<char>>::empty());
        logger
    }

    /// Append `[timestamp] msg`, dropping the oldest line when the buffer is full.
    /// The caller reads the clock and passes the stamp (`HH:MM:SS` in the program).
    pub fn log(&mut self, timestamp: &str, msg: &str)
        ensures
            final(self)@ == appended(old(self)@, log_entry(timestamp@, msg@)),
            final(self)@.len() <= MAX_LOG_LINES,
    {
        proof {
            use_type_invariant(&*self);
        }
        let mut entry = String::from_str("[");
        entry.append(timestamp);
        entry.append("] ");
        entry.append(msg);
        let ghost before = self.buffer@;
        let mut buf: VecDeque<String> = VecDeque::new();
        std::mem::swap(&mut buf, &mut self.buffer);
        if buf.len() >= MAX_LOG_LINES {
            let _ = buf.pop_front();
        }
        buf.push_back(entry);
        self.buffer = buf;
        proof {
            let e = log_entry(timestamp@, msg@);
            if before.len() >= MAX_LOG_LINES {
                assert(self@ =~= before.map_values(|s: String| s@).drop_first().push(e));
            } else {
                assert(self@ =~= before.map_values(|s: String| s@).push(e));
            }
        }
    }

    /// The last `lines` lines joined with newlines.
    pub fn get_display_text(&self, lines: usize) -> (text: String)
        ensures
            text@ == join_lines(last_lines(self@, lines as nat)),
    {
        let len = self.buffer.len();
        let skip: usize = if len >= lines {
            len - lines
        } else {
            0
        };
        let ghost all = self@;
        let mut text = String::new();
        let mut i: usize = skip;
        while i < len
            invariant
                len == self.buffer@.len(),
                all == self@,
                skip <= i <= len,
                text@ == join_lines(all.subrange(skip as int, i as int)),
            decreases len - i,
        {
            let ghost prefix = all.subrange(skip as int, i as int);
            if i > skip {
                text.append("\n");
            }
            text.append(self.buffer[i].as_str());
            proof {
                let next = all.subrange(skip as int, i + 1);
                assert(next.drop_last() =~= prefix);
                assert(next.last() == self.buffer@[i as int]@);
                if i == skip {
                    assert(prefix.len() == 0);
                    assert(text@ =~= next[0]);
                }
            }
            i = i + 1;
        }
        proof {
            if lines as nat >= all.len() {
                assert(all.subrange(0, len as int) =~= all);
            }
        }
        text
    }

    /// The last `DISPLAY_LINES` lines.
    pub fn get_recent_text(&self) -> (text: String)
        ensures
            text@ == join_lines(last_lines(self@, DISPLAY_LINES as nat)),
    {
        self.get_display_text(DISPLAY_LINES)
    }

    /// Remove every line.
    pub fn clear(&mut self)
        ensures
            final(self)@ == Seq::<Seq<char>>::empty(),
    {
        self.buffer = VecDeque::new();
        assert(self@ =~= Seq::<Seq<char>>::empty());
    }

    /// Number of lines held.
    pub fn line_count(&self) -> (n: usize)
        ensures
            n == self@.len(),
            n <= MAX_LOG_LINES,
    {
        proof {
            use_type_invariant(self);
        }
        self.buffer.len()
    }
}

impl Default for DebugLogger {
    fn default() -> (logger: Self)
        ensures
            logger@ == Seq::<Seq<char>>::empty(),
    {
        Self::new()
    }
}

} // verus!
