//! The log subsystem: a bounded buffer fed by a live follow, lazily
//! backfilled with older history whose responses are tagged with the
//! generation of the stream they belong to, and searched incrementally.
use crate::text::{contains_ascii_ci, contains_ci, decimal};
use std::collections::VecDeque;
use vstd::prelude::*;

verus! {

/// Capacity of the log buffer.
pub const MAX_LOG_LINES: usize = 10000;

/// Screen rows the log view spends on borders and status lines.
pub const LOG_CHROME_LINES: usize = 6;

/// Growth of the requested scrollback depth per history fetch.
pub const HISTORY_STEP: i64 = 100;

/// Log view state of one session.
pub struct LogState {
    pub buffer: VecDeque<String>,
    /// Whether a live follow is running.
    pub following: bool,
    /// `None` follows the newest line; `Some(n)` is paused at line `n`.
    pub scroll_offset: Option<usize>,
    pub pod_name: String,
    pub namespace: String,
    /// Requested scrollback depth.
    pub tail_lines: i64,
    /// A history fetch is in flight.
    pub loading_history: bool,
    /// Incremented on every (re)start of the live follow.
    pub generation: u64,
    /// The source has shown that no older lines exist.
    pub history_exhausted: bool,
    /// Lower-cased query of the confirmed search.
    pub search_query: String,
    /// Text being typed into the search prompt.
    pub search_input: String,
    pub search_match_line: Option<usize>,
    /// A search waits for more history to continue.
    pub search_pending: bool,
}

/// What a log operation asks of the session around it.
#[derive(Debug, Clone, Copy, PartialEq, Eq, Structural)]
pub enum LogEvent {
    Quiet,
    /// Fetch the last `tail_lines` lines once, tagged with `generation`.
    Fetch { tail_lines: i64, generation: u64 },
    NoMoreMatches,
    NotFound,
    /// The search failed in the `n` lines loaded so far.
    NotFoundInLoaded(usize),
}

/// The buffer after appending `line`, evicting the oldest line when full.
pub open spec fn pushed(buf: Seq<String>, line: String) -> Seq<String> {
    if buf.len() >= MAX_LOG_LINES {
        buf.subrange(1, buf.len() as int).push(line)
    } else {
        buf.push(line)
    }
}

/// The paused viewport after a push onto a buffer of `len` lines: it moves
/// up one line when the push evicts the oldest line.
pub open spec fn offset_after_push(len: nat, offset: Option<usize>) -> Option<usize> {
    if len >= MAX_LOG_LINES {
        match offset {
            Some(o) => Some(if o > 0 {
                (o - 1) as usize
            } else {
                0
            }),
            None => None,
        }
    } else {
        offset
    }
}

/// The buffer after appending each of `lines` in turn.
pub open spec fn push_all(buf: Seq<String>, lines: Seq<String>) -> Seq<String>
    decreases lines.len(),
{
    if lines.len() == 0 {
        buf
    } else {
        pushed(push_all(buf, lines.drop_last()), lines.last())
    }
}

/// The last position before `end` whose line equals `x`, or -1.
pub open spec fn last_index_of(lines: Seq<String>, x: Seq<char>, end: int) -> int
    decreases end,
{
    if end <= 0 {
        -1
    } else if lines[end - 1]@ == x {
        end - 1
    } else {
        last_index_of(lines, x, end - 1)
    }
}

/// Where the already buffered lines start inside a history response: the
/// last occurrence of the buffer's first line, or the response's end.
pub open spec fn overlap_index(buf: Seq<String>, lines: Seq<String>) -> int {
    if buf.len() == 0 {
        lines.len() as int
    } else {
        let k = last_index_of(lines, buf[0]@, lines.len() as int);
        if k < 0 {
            lines.len() as int
        } else {
            k
        }
    }
}

/// How many response lines are prepended: the new ones, capped by the room left.
pub open spec fn prepend_count(buf: Seq<String>, lines: Seq<String>) -> int {
    let ov = overlap_index(buf, lines);
    let room = MAX_LOG_LINES - buf.len();
    if ov < room {
        ov
    } else {
        room
    }
}

/// The buffer after a history merge of the current generation.
pub open spec fn merged(buf: Seq<String>, lines: Seq<String>) -> Seq<String> {
    let ov = overlap_index(buf, lines);
    lines.subrange(ov - prepend_count(buf, lines), ov) + buf
}

/// The last line before `end` that contains `q` (ASCII case ignored), or -1.
pub open spec fn last_hit_before(buf: Seq<String>, q: Seq<char>, end: int) -> int
    decreases end,
{
    if end <= 0 {
        -1
    } else if contains_ci(buf[end - 1]@, q) {
        end - 1
    } else {
        last_hit_before(buf, q, end - 1)
    }
}

/// The first line at or after `start` that contains `q`, or -1.
pub open spec fn first_hit_from(buf: Seq<String>, q: Seq<char>, start: int) -> int
    decreases buf.len() - start,
{
    if start < 0 || start >= buf.len() {
        -1
    } else if contains_ci(buf[start]@, q) {
        start
    } else {
        first_hit_from(buf, q, start + 1)
    }
}

/// The viewport offset that centres line `i` without scrolling past either end.
pub open spec fn centered_offset(i: int, visible: int, len: int) -> int {
    let c = if i >= visible / 2 {
        i - visible / 2
    } else {
        0
    };
    let m = if len >= visible {
        len - visible
    } else {
        0
    };
    if c < m {
        c
    } else {
        m
    }
}

proof fn lemma_centered_offset(i: int, visible: int, len: int)
    requires
        0 <= i < len,
        0 <= visible,
    ensures
        0 <= centered_offset(i, visible, len) <= len,
{
}

pub open spec fn not_found_message(len: nat) -> Seq<char> {
    "Not found in "@ + decimal(len) + " loaded lines, press n to load more"@
}

proof fn lemma_last_index_of(lines: Seq<String>, x: Seq<char>, end: int)
    requires
        end <= lines.len(),
    ensures
        -1 <= last_index_of(lines, x, end) < end || (end <= 0 && last_index_of(lines, x, end)
            == -1),
        last_index_of(lines, x, end) >= 0 ==> lines[last_index_of(lines, x, end)]@ == x,
    decreases end,
{
    if end > 0 {
        lemma_last_index_of(lines, x, end - 1);
    }
}

proof fn lemma_last_hit_before(buf: Seq<String>, q: Seq<char>, end: int)
    requires
        0 <= end <= buf.len(),
    ensures
        last_hit_before(buf, q, end) < end,
        last_hit_before(buf, q, end) >= -1,
        last_hit_before(buf, q, end) >= 0 ==> contains_ci(buf[last_hit_before(buf, q, end)]@, q),
    decreases end,
{
    if end > 0 {
        lemma_last_hit_before(buf, q, end - 1);
    }
}

proof fn lemma_first_hit_from(buf: Seq<String>, q: Seq<char>, start: int)
    requires
        0 <= start,
    ensures
        first_hit_from(buf, q, start) == -1 || (start <= first_hit_from(buf, q, start) < buf.len()),
    decreases buf.len() - start,
{
    if start < buf.len() {
        lemma_first_hit_from(buf, q, start + 1);
    }
}

/// Pushing keeps the buffer within capacity, and what it holds is always
/// the newest lines of everything ever pushed, in the order they were pushed.
pub proof fn lemma_push_all_bounded(buf: Seq<String>, lines: Seq<String>)
    requires
        buf.len() <= MAX_LOG_LINES,
    ensures
        push_all(buf, lines).len() <= MAX_LOG_LINES,
        push_all(buf, lines).len() <= (buf + lines).len(),
        push_all(buf, lines) == (buf + lines).subrange(
            (buf + lines).len() - push_all(buf, lines).len(),
            (buf + lines).len() as int,
        ),
    decreases lines.len(),
{
    if lines.len() == 0 {
        assert((buf + lines) =~= buf);
        assert(buf.subrange(0, buf.len() as int) =~= buf);
    } else {
        let init = lines.drop_last();
        lemma_push_all_bounded(buf, init);
        let p = push_all(buf, init);
        let all = buf + lines;
        let all0 = buf + init;
        assert(all =~= all0.push(lines.last()));
        if p.len() >= MAX_LOG_LINES {
            assert(pushed(p, lines.last()) =~= all.subrange(
                all.len() - p.len(),
                all.len() as int,
            ));
        } else {
            assert(pushed(p, lines.last()) =~= all.subrange(
                all.len() - p.len() - 1,
                all.len() as int,
            ));
        }
    }
}


/// Where `search_next` starts looking: just above the current match (-1, so
/// nothing, when the match is the first line), else from the bottom of the
/// viewport (or of the buffer when following).
pub open spec fn next_start(a: LogState, visible: int) -> int {
    let len = a.buffer@.len() as int;
    match a.search_match_line {
        Some(m) => m - 1,
        None => match a.scroll_offset {
            Some(o) => if o + visible == 0 {
                0
            } else if o + visible < len {
                o + visible - 1
            } else {
                len - 1
            },
            None => len - 1,
        },
    }
}

/// Where `search_prev` starts looking: just below the current match, else
/// from the top of the viewport.
pub open spec fn prev_start(a: LogState, visible: int) -> int {
    let len = a.buffer@.len() as int;
    match a.search_match_line {
        Some(m) => m + 1,
        None => match a.scroll_offset {
            Some(o) => o as int,
            None => if len >= visible {
                len - visible
            } else {
                0
            },
        },
    }
}

impl LogState {
    /// What the log subsystem keeps true between calls.
    pub open spec fn wf(&self) -> bool {
        &&& self.buffer@.len() <= MAX_LOG_LINES
        &&& 0 <= self.tail_lines < MAX_LOG_LINES + HISTORY_STEP
        &&& (self.scroll_offset matches Some(o) ==> o <= self.buffer@.len())
        &&& (self.search_match_line matches Some(m) ==> m < self.buffer@.len())
    }

    /// An idle log view: nothing buffered, no stream started yet.
    pub fn new() -> (r: LogState)
        ensures
            r.wf(),
            r.buffer@.len() == 0,
            !r.following,
            r.scroll_offset is None,
            r.pod_name@.len() == 0,
            r.namespace@.len() == 0,
            r.tail_lines == HISTORY_STEP,
            !r.loading_history,
            r.generation == 0,
            !r.history_exhausted,
            r.search_query@.len() == 0,
            r.search_input@.len() == 0,
            r.search_match_line is None,
            !r.search_pending,
    {
        LogState {
            buffer: VecDeque::new(),
            following: false,
            scroll_offset: None,
            pod_name: String::new(),
            namespace: String::new(),
            tail_lines: HISTORY_STEP,
            loading_history: false,
            generation: 0,
            history_exhausted: false,
            search_query: String::new(),
            search_input: String::new(),
            search_match_line: None,
            search_pending: false,
        }
    }

    /// What `request_more_history` does from `a` to `b`, announcing `e`.
    pub open spec fn more_post(a: LogState, b: LogState, e: LogEvent) -> bool {
        if a.loading_history || a.history_exhausted {
            b == a && e == LogEvent::Quiet
        } else if a.tail_lines >= MAX_LOG_LINES {
            b == LogState { history_exhausted: true, ..a } && e == LogEvent::Quiet
        } else {
            &&& b == LogState {
                loading_history: true,
                tail_lines: (a.tail_lines + HISTORY_STEP) as i64,
                ..a
            }
            &&& e == LogEvent::Fetch {
                tail_lines: (a.tail_lines + HISTORY_STEP) as i64,
                generation: a.generation,
            }
        }
    }

    /// What resolving a pending search over the first `n` lines does.
    #[verifier::opaque]
    pub open spec fn resolve_post(a: LogState, b: LogState, n: int, visible: int, e: LogEvent) -> bool {
        let base = LogState { search_pending: false, ..a };
        let k = last_hit_before(a.buffer@, a.search_query@, n);
        &&& !a.search_pending ==> b == a && e == LogEvent::Quiet
        &&& a.search_pending && n == 0 ==> b == base && e == (if a.history_exhausted {
            LogEvent::NotFound
        } else {
            LogEvent::Quiet
        })
        &&& a.search_pending && n > 0 && a.search_query@.len() == 0 ==> b == base && e
            == LogEvent::Quiet
        &&& a.search_pending && n > 0 && a.search_query@.len() > 0 && k >= 0 ==> e
            == LogEvent::Quiet && b == LogState {
            search_match_line: Some(k as usize),
            scroll_offset: Some(
                centered_offset(k, visible, a.buffer@.len() as int) as usize,
            ),
            ..base
        }
        &&& a.search_pending && n > 0 && a.search_query@.len() > 0 && k < 0 ==> b == base && e
            == (if a.history_exhausted {
            LogEvent::NotFound
        } else {
            LogEvent::NotFoundInLoaded(a.buffer@.len() as usize)
        })
    }

    /// Appends a line from the live follow, evicting the oldest line when
    /// the buffer is full; a paused viewport moves up with the eviction.
    pub fn push_line(&mut self, line: String)
        requires
            old(self).wf(),
        ensures
            final(self).wf(),
            final(self).buffer@ == pushed(old(self).buffer@, line),
            *final(self) == (LogState {
                buffer: final(self).buffer,
                scroll_offset: if old(self).buffer@.len() >= MAX_LOG_LINES {
                    match old(self).scroll_offset {
                        Some(o) => Some(if o > 0 {
                            (o - 1) as usize
                        } else {
                            0
                        }),
                        None => None,
                    }
                } else {
                    old(self).scroll_offset
                },
                ..*old(self)
            }),
    {
        if self.buffer.len() >= MAX_LOG_LINES {
            self.buffer.pop_front();
            match self.scroll_offset {
                Some(o) => {
                    self.scroll_offset = Some(
                        if o > 0 {
                            o - 1
                        } else {
                            0
                        },
                    );
                },
                None => {},
            }
        }
        self.buffer.push_back(line);
    }

    /// Restarts the live follow for a pod: everything of the previous
    /// stream is dropped and the generation moves on.
    pub fn start(&mut self, pod_name: String, namespace: String)
        requires
            old(self).generation < u64::MAX,
        ensures
            final(self).wf(),
            final(self).buffer@.len() == 0,
            final(self).following,
            final(self).scroll_offset is None,
            final(self).pod_name == pod_name,
            final(self).namespace == namespace,
            final(self).tail_lines == HISTORY_STEP,
            !final(self).loading_history,
            final(self).generation == old(self).generation + 1,
            !final(self).history_exhausted,
            final(self).search_query@.len() == 0,
            final(self).search_input@.len() == 0,
            final(self).search_match_line is None,
            !final(self).search_pending,
    {
        self.buffer.clear();
        self.following = true;
        self.scroll_offset = None;
        self.pod_name = pod_name;
        self.namespace = namespace;
        self.tail_lines = HISTORY_STEP;
        self.loading_history = false;
        self.generation = self.generation + 1;
        self.history_exhausted = false;
        self.search_query = String::new();
        self.search_input = String::new();
        self.search_match_line = None;
        self.search_pending = false;
    }

    /// Stops the live follow and gives up a pending search.
    pub fn abort(&mut self)
        ensures
            *final(self) == (LogState { following: false, search_pending: false, ..*old(self) }),
    {
        self.following = false;
        self.search_pending = false;
    }

    /// Asks for a deeper slice of scrollback, unless a fetch is in flight,
    /// history is known to be exhausted, or the window is already at capacity
    /// (which then marks history exhausted and asks nothing).
    pub fn request_more_history(&mut self) -> (e: LogEvent)
        requires
            old(self).wf(),
        ensures
            final(self).wf(),
            LogState::more_post(*old(self), *final(self), e),
    {
        if self.loading_history || self.history_exhausted {
            return LogEvent::Quiet;
        }
        if self.tail_lines >= MAX_LOG_LINES as i64 {
            self.history_exhausted = true;
            return LogEvent::Quiet;
        }
        self.loading_history = true;
        self.tail_lines = self.tail_lines + HISTORY_STEP;
        LogEvent::Fetch { tail_lines: self.tail_lines, generation: self.generation }
    }

    /// The last position of a line equal to the buffer's first line, or
    /// the response's length.
    fn overlap_in(&self, lines: &Vec<String>) -> (r: usize)
        ensures
            r == overlap_index(self.buffer@, lines@),
            r <= lines@.len(),
    {
        if self.buffer.len() == 0 {
            return lines.len();
        }
        let first = &self.buffer[0];
        proof {
            lemma_last_index_of(lines@, first@, lines@.len() as int);
        }
        let mut i: usize = lines.len();
        while i > 0
            invariant
                i <= lines@.len(),
                self.buffer@.len() > 0,
                *first == self.buffer@[0],
                last_index_of(lines@, first@, lines@.len() as int) == last_index_of(
                    lines@,
                    first@,
                    i as int,
                ),
            decreases i,
        {
            if lines[i - 1] == *first {
                assert(last_index_of(lines@, first@, i as int) == i - 1);
                return i - 1;
            }
            i = i - 1;
        }
        lines.len()
    }

    /// Puts `lines[start..end]` in front of the buffer, oldest first.
    fn prepend(&mut self, lines: &Vec<String>, start: usize, end: usize)
        requires
            start <= end <= lines@.len(),
        ensures
            final(self).buffer@ == lines@.subrange(start as int, end as int) + old(self).buffer@,
            *final(self) == (LogState { buffer: final(self).buffer, ..*old(self) }),
    {
        let mut idx: usize = end;
        assert(lines@.subrange(end as int, end as int) + old(self).buffer@ =~= old(
            self,
        ).buffer@);
        while idx > start
            invariant
                start <= idx <= end <= lines@.len(),
                self.buffer@ == lines@.subrange(idx as int, end as int) + old(self).buffer@,
                *self == (LogState { buffer: self.buffer, ..*old(self) }),
            decreases idx,
        {
            self.buffer.push_front(lines[idx - 1].clone());
            proof {
                assert(lines@.subrange(idx - 1, end as int) =~= seq![lines@[idx - 1]]
                    + lines@.subrange(idx as int, end as int));
            }
            idx = idx - 1;
        }
    }

    /// What `merge_history` does from `a` to `b` for a response of
    /// `generation` holding `lines`, with a viewport of `visible` rows.
    pub open spec fn merge_post(
        a: LogState,
        b: LogState,
        generation: u64,
        lines: Seq<String>,
        visible: int,
        e: LogEvent,
    ) -> bool {
        &&& (generation != a.generation ==> e == LogEvent::Quiet && b == (
        LogState { loading_history: false, ..a }))
        &&& (generation == a.generation ==> ({
            let buf = a.buffer@;
            let cnt = prepend_count(buf, lines);
            let mid = LogState {
                buffer: b.buffer,
                history_exhausted: a.history_exhausted || lines.len()
                    < a.tail_lines || cnt == 0,
                loading_history: false,
                scroll_offset: match a.scroll_offset {
                    Some(o) => Some((o + cnt) as usize),
                    None => None,
                },
                search_match_line: match a.search_match_line {
                    Some(m) => Some((m + cnt) as usize),
                    None => None,
                },
                ..a
            };
            &&& b.buffer@ == merged(buf, lines)
            &&& LogState::resolve_post(mid, b, cnt, visible, e)
        }))
    }

    /// Merges a history response: a response of an earlier generation only
    /// clears the loading flag; otherwise the lines before the overlap with
    /// the buffer are prepended, as many as fit, positions into the buffer
    /// move with them, and a pending search is resolved over exactly the
    /// new lines.
    pub fn merge_history(&mut self, generation: u64, lines: Vec<String>, visible: usize) -> (e: LogEvent)
        requires
            old(self).wf(),
        ensures
            final(self).wf(),
            LogState::merge_post(*old(self), *final(self), generation, lines@, visible as int, e),
            !(e is Fetch),
    {
        if generation != self.generation {
            self.loading_history = false;
            return LogEvent::Quiet;
        }
        if lines.len() < self.tail_lines as usize {
            self.history_exhausted = true;
        }
        let overlap = self.overlap_in(&lines);
        let available = MAX_LOG_LINES - self.buffer.len();
        let count = if overlap < available {
            overlap
        } else {
            available
        };
        if count == 0 {
            self.history_exhausted = true;
            self.loading_history = false;
            assert(*self == (LogState {
                history_exhausted: true,
                loading_history: false,
                ..*old(self)
            }));
            assert(lines@.subrange(overlap as int, overlap as int) =~= Seq::<String>::empty());
            assert(merged(old(self).buffer@, lines@) =~= old(self).buffer@);
            return self.resolve_pending_search(0, visible);
        }
        self.prepend(&lines, overlap - count, overlap);
        assert(self.buffer@ =~= merged(old(self).buffer@, lines@));
        assert(self.buffer@.len() == old(self).buffer@.len() + count);
        match self.scroll_offset {
            Some(o) => {
                self.scroll_offset = Some(o + count);
            },
            None => {},
        }
        match self.search_match_line {
            Some(m) => {
                self.search_match_line = Some(m + count);
            },
            None => {},
        }
        self.loading_history = false;
        assert(*self == (LogState {
            buffer: self.buffer,
            history_exhausted: self.history_exhausted,
            loading_history: false,
            scroll_offset: self.scroll_offset,
            search_match_line: self.search_match_line,
            ..*old(self)
        }));
        self.resolve_pending_search(count, visible)
    }

    /// Looks for the pending query in the first `n` lines, newest first.
    fn resolve_pending_search(&mut self, n: usize, visible: usize) -> (e: LogEvent)
        requires
            old(self).wf(),
            n <= old(self).buffer@.len(),
        ensures
            final(self).wf(),
            final(self).buffer == old(self).buffer,
            LogState::resolve_post(*old(self), *final(self), n as int, visible as int, e),
            !(e is Fetch),
    {
        let e = self.resolve_search_step(n, visible);
        assert(LogState::resolve_post(*old(self), *self, n as int, visible as int, e)) by {
            reveal(LogState::resolve_post);
        }
        e
    }

    fn resolve_search_step(&mut self, n: usize, visible: usize) -> (e: LogEvent)
        requires
            old(self).wf(),
            n <= old(self).buffer@.len(),
        ensures
            final(self).wf(),
            ({
                let a = *old(self);
                let base = LogState { search_pending: false, ..a };
                let k = last_hit_before(a.buffer@, a.search_query@, n as int);
                &&& !a.search_pending ==> *final(self) == a && e == LogEvent::Quiet
                &&& a.search_pending && n == 0 ==> *final(self) == base && e == (
                if a.history_exhausted {
                    LogEvent::NotFound
                } else {
                    LogEvent::Quiet
                })
                &&& a.search_pending && n > 0 && a.search_query@.len() == 0 ==> *final(self)
                    == base && e == LogEvent::Quiet
                &&& a.search_pending && n > 0 && a.search_query@.len() > 0 && k >= 0 ==> e
                    == LogEvent::Quiet && *final(self) == LogState {
                    search_match_line: Some(k as usize),
                    scroll_offset: Some(
                        centered_offset(k, visible as int, a.buffer@.len() as int) as usize,
                    ),
                    ..base
                }
                &&& a.search_pending && n > 0 && a.search_query@.len() > 0 && k < 0 ==> *final(self)
                    == base && e == (if a.history_exhausted {
                    LogEvent::NotFound
                } else {
                    LogEvent::NotFoundInLoaded(a.buffer@.len() as usize)
                })
            }),
    {
        if !self.search_pending {
            return LogEvent::Quiet;
        }
        self.search_pending = false;
        if n == 0 {
            return if self.history_exhausted {
                LogEvent::NotFound
            } else {
                LogEvent::Quiet
            };
        }
        if self.search_query.as_str().is_empty() {
            return LogEvent::Quiet;
        }
        match self.find_hit_before(n) {
            Some(i) => {
                proof {
                    lemma_centered_offset(i as int, visible as int, self.buffer@.len() as int);
                }
                self.search_match_line = Some(i);
                self.scroll_to_line(i, visible);
                LogEvent::Quiet
            },
            None => {
                if self.history_exhausted {
                    LogEvent::NotFound
                } else {
                    LogEvent::NotFoundInLoaded(self.buffer.len())
                }
            },
        }
    }

    /// The last line before `end` that contains the search query.
    fn find_hit_before(&self, end: usize) -> (r: Option<usize>)
        requires
            end <= self.buffer@.len(),
        ensures
            r is Some ==> r->0 == last_hit_before(self.buffer@, self.search_query@, end as int),
            r is None ==> last_hit_before(self.buffer@, self.search_query@, end as int) < 0,
            r is Some ==> r->0 < end,
    {
        proof {
            lemma_last_hit_before(self.buffer@, self.search_query@, end as int);
        }
        let mut idx: usize = end;
        while idx > 0
            invariant
                idx <= end <= self.buffer@.len(),
                last_hit_before(self.buffer@, self.search_query@, end as int) == last_hit_before(
                    self.buffer@,
                    self.search_query@,
                    idx as int,
                ),
            decreases idx,
        {
            if contains_ascii_ci(self.buffer[idx - 1].as_str(), self.search_query.as_str()) {
                return Some(idx - 1);
            }
            idx = idx - 1;
        }
        None
    }

    /// The first line at or after `start` that contains the search query.
    fn find_hit_from(&self, start: usize) -> (r: Option<usize>)
        requires
            start <= self.buffer@.len(),
        ensures
            r is Some ==> r->0 == first_hit_from(self.buffer@, self.search_query@, start as int),
            r is None ==> first_hit_from(self.buffer@, self.search_query@, start as int) < 0,
            r is Some ==> start <= r->0 < self.buffer@.len(),
    {
        proof {
            lemma_first_hit_from(self.buffer@, self.search_query@, start as int);
        }
        let len = self.buffer.len();
        let mut idx: usize = start;
        while idx < len
            invariant
                start <= idx <= len,
                len == self.buffer@.len(),
                first_hit_from(self.buffer@, self.search_query@, start as int) == first_hit_from(
                    self.buffer@,
                    self.search_query@,
                    idx as int,
                ),
            decreases len - idx,
        {
            if contains_ascii_ci(self.buffer[idx].as_str(), self.search_query.as_str()) {
                return Some(idx);
            }
            idx = idx + 1;
        }
        None
    }

    /// Pauses the viewport so that line `idx` is centred.
    pub fn scroll_to_line(&mut self, idx: usize, visible: usize)
        requires
            idx < old(self).buffer@.len(),
        ensures
            *final(self) == (LogState {
                scroll_offset: Some(
                    centered_offset(idx as int, visible as int, old(self).buffer@.len() as int)
                        as usize,
                ),
                ..*old(self)
            }),
    {
        let len = self.buffer.len();
        let half = visible / 2;
        let centered = if idx >= half {
            idx - half
        } else {
            0
        };
        let max = if len >= visible {
            len - visible
        } else {
            0
        };
        self.scroll_offset = Some(
            if centered < max {
                centered
            } else {
                max
            },
        );
    }

    /// What `search_next` does from `a` to `b` with a viewport of `visible` rows.
    pub open spec fn next_post(a: LogState, b: LogState, visible: int, e: LogEvent) -> bool {
        let len = a.buffer@.len() as int;
        let k = last_hit_before(a.buffer@, a.search_query@, next_start(a, visible) + 1);
        if a.search_query@.len() == 0 || len == 0 {
            b == a && e == LogEvent::Quiet
        } else if k >= 0 {
            e == LogEvent::Quiet && b == LogState {
                search_match_line: Some(k as usize),
                scroll_offset: Some(centered_offset(k, visible, len) as usize),
                search_pending: false,
                ..a
            }
        } else if a.history_exhausted {
            e == LogEvent::NoMoreMatches && b == LogState {
                search_pending: false,
                ..a
            }
        } else {
            LogState::more_post(LogState { search_pending: true, ..a }, b, e)
        }
    }

    /// Jumps to the previous (older) line containing the query, centring it
    /// in a viewport of `visible` rows. With nothing found in the buffer it
    /// reports the end of matches when history is exhausted, and otherwise
    /// leaves the search pending and asks for more history.
    pub fn search_next(&mut self, visible: usize) -> (e: LogEvent)
        requires
            old(self).wf(),
        ensures
            final(self).wf(),
            LogState::next_post(*old(self), *final(self), visible as int, e),
    {
        if self.search_query.as_str().is_empty() || self.buffer.len() == 0 {
            return LogEvent::Quiet;
        }
        self.search_pending = false;
        let len = self.buffer.len();
        let end = match self.search_match_line {
            Some(m) => m,
            None => match self.scroll_offset {
                Some(o) => if o == 0 && visible == 0 {
                    1
                } else if o < len && visible < len - o {
                    o + visible
                } else {
                    len
                },
                None => len,
            },
        };
        match self.find_hit_before(end) {
            Some(i) => {
                proof {
                    lemma_centered_offset(i as int, visible as int, len as int);
                }
                self.search_match_line = Some(i);
                self.scroll_to_line(i, visible);
                LogEvent::Quiet
            },
            None => {
                if self.history_exhausted {
                    LogEvent::NoMoreMatches
                } else {
                    self.search_pending = true;
                    self.request_more_history()
                }
            },
        }
    }

    /// What `search_prev` does from `a` to `b` with a viewport of `visible` rows.
    pub open spec fn prev_post(a: LogState, b: LogState, visible: int, e: LogEvent) -> bool {
        let len = a.buffer@.len() as int;
        let k = first_hit_from(a.buffer@, a.search_query@, prev_start(a, visible));
        if a.search_query@.len() == 0 || len == 0 {
            b == a && e == LogEvent::Quiet
        } else if k >= 0 {
            e == LogEvent::Quiet && b == LogState {
                search_match_line: Some(k as usize),
                scroll_offset: Some(centered_offset(k, visible, len) as usize),
                search_pending: false,
                ..a
            }
        } else if a.history_exhausted {
            e == LogEvent::NoMoreMatches && b == LogState {
                search_pending: false,
                ..a
            }
        } else {
            LogState::more_post(LogState { search_pending: true, ..a }, b, e)
        }
    }

    /// Jumps to the next (newer) line containing the query, centring it in
    /// a viewport of `visible` rows. With nothing found it reports the end
    /// of matches when history is exhausted, and otherwise leaves the search
    /// pending and asks for more history.
    pub fn search_prev(&mut self, visible: usize) -> (e: LogEvent)
        requires
            old(self).wf(),
        ensures
            final(self).wf(),
            LogState::prev_post(*old(self), *final(self), visible as int, e),
    {
        if self.search_query.as_str().is_empty() || self.buffer.len() == 0 {
            return LogEvent::Quiet;
        }
        self.search_pending = false;
        let len = self.buffer.len();
        let start = match self.search_match_line {
            Some(m) => m + 1,
            None => match self.scroll_offset {
                Some(o) => o,
                None => if len >= visible {
                    len - visible
                } else {
                    0
                },
            },
        };
        match self.find_hit_from(start) {
            Some(i) => {
                proof {
                    lemma_centered_offset(i as int, visible as int, len as int);
                }
                self.search_match_line = Some(i);
                self.scroll_to_line(i, visible);
                LogEvent::Quiet
            },
            None => {
                if self.history_exhausted {
                    LogEvent::NoMoreMatches
                } else {
                    self.search_pending = true;
                    self.request_more_history()
                }
            },
        }
    }
}

} // verus!
