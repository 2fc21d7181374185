//! Per-server log ring buffers and their aggregation.
//!
//! A `LogBuffer` keeps the most recent lines of one server; a
//! `LogAggregator` keeps one buffer per server and merges them into a single
//! timeline ordered by capture time.
use vstd::prelude::*;
use owo_colors::OwoColorize;
use std::hash::BuildHasher;
use crate::calendar::{
    civil_date, civil_date_is_the_date, civil_from_days, days_from_civil, days_since_epoch_are_in_epoch_years,
    valid_date,
};
use crate::text::{
    all_digits, decimal, decimal_reads_back, digits_value, push_char, push_padded, push_str, zero_pad,
    zero_pad_reads_back,
};

verus! {

/// Wall-clock capture time, as time elapsed since the Unix epoch.
#[derive(Clone, Copy, PartialEq, Eq, Structural, Debug)]
pub struct LogTime {
    /// Whole seconds since the epoch.
    pub secs: u64,
    /// Nanoseconds past `secs`.
    pub nanos: u32,
}

/// `a` is not later than `b`.
pub open spec fn time_le(a: LogTime, b: LogTime) -> bool {
    a.secs < b.secs || (a.secs == b.secs && a.nanos <= b.nanos)
}

/// Executable `time_le`.
pub fn time_not_after(a: LogTime, b: LogTime) -> (r: bool)
    ensures
        r == time_le(a, b),
{
    a.secs < b.secs || (a.secs == b.secs && a.nanos <= b.nanos)
}

/// A single log line emitted by a managed MCP server.
#[derive(Clone, Debug)]
pub struct LogLine {
    /// The name of the server that produced this line.
    pub server: String,
    /// Wall-clock time when the line was captured.
    pub timestamp: LogTime,
    /// The raw log message.
    pub message: String,
}

impl LogLine {
    /// An exact copy of the line.
    pub fn duplicate(&self) -> (r: LogLine)
        ensures
            r == *self,
    {
        LogLine { server: self.server.clone(), timestamp: self.timestamp, message: self.message.clone() }
    }
}

/// Copies of all lines of `v`, in order.
pub fn duplicate_lines(v: &Vec<LogLine>) -> (r: Vec<LogLine>)
    ensures
        r@ == v@,
{
    let mut r: Vec<LogLine> = Vec::new();
    for i in 0..v.len()
        invariant
            r@ == v@.take(i as int),
    {
        r.push(v[i].duplicate());
        assert(v@.take(i + 1) == v@.take(i as int).push(v@[i as int]));
    }
    assert(v@.take(v.len() as int) == v@);
    r
}

/// The lines kept after appending `line` to `lines` in a buffer of
/// `capacity`: the oldest line is evicted first when the buffer is full.
pub open spec fn after_push(lines: Seq<LogLine>, capacity: nat, line: LogLine) -> Seq<LogLine> {
    let kept = if lines.len() >= capacity && lines.len() > 0 { lines.drop_first() } else { lines };
    kept.push(line)
}

/// The last `n` lines of `lines` (all of them when there are fewer).
pub open spec fn last_n(lines: Seq<LogLine>, n: nat) -> Seq<LogLine> {
    if lines.len() > n { lines.subrange(lines.len() - n, lines.len() as int) } else { lines }
}

/// A bounded ring buffer of log lines for a single MCP server.
pub struct LogBuffer {
    lines: std::collections::VecDeque<LogLine>,
    capacity: usize,
}

impl View for LogBuffer {
    type V = Seq<LogLine>;

    closed spec fn view(&self) -> Seq<LogLine> {
        self.lines@
    }
}

impl LogBuffer {
    /// The buffer's maximum number of lines, as given at creation.
    pub closed spec fn spec_capacity(&self) -> nat {
        self.capacity as nat
    }

    /// The buffer never holds more than its capacity, except that a buffer
    /// of capacity zero keeps the single most recent line.
    pub open spec fn wf(&self) -> bool {
        self@.len() <= if self.spec_capacity() == 0 { 1 } else { self.spec_capacity() }
    }

    /// Create an empty buffer with the given maximum `capacity`.
    pub fn new(capacity: usize) -> (b: LogBuffer)
        ensures
            b@ == Seq::<LogLine>::empty(),
            b.spec_capacity() == capacity,
            b.wf(),
    {
        LogBuffer { lines: std::collections::VecDeque::new(), capacity }
    }

    /// The buffer's maximum number of lines.
    pub fn capacity(&self) -> (c: usize)
        ensures
            c == self.spec_capacity(),
    {
        self.capacity
    }

    /// Append a line, evicting the oldest one if the buffer is full.
    pub fn push(&mut self, line: LogLine)
        ensures
            final(self)@ == after_push(old(self)@, old(self).spec_capacity(), line),
            final(self).spec_capacity() == old(self).spec_capacity(),
            old(self).wf() ==> final(self).wf(),
    {
        if self.lines.len() >= self.capacity {
            let _ = self.lines.pop_front();
        }
        self.lines.push_back(line);
    }

    /// Copies of all buffered lines, oldest first.
    pub fn snapshot(&self) -> (r: Vec<LogLine>)
        ensures
            r@ == self@,
    {
        self.snapshot_last(self.lines.len())
    }

    /// Copies of the last `n` buffered lines, oldest first; all lines when
    /// fewer than `n` are buffered.
    pub fn snapshot_last(&self, n: usize) -> (r: Vec<LogLine>)
        ensures
            r@ == last_n(self@, n as nat),
    {
        let len = self.lines.len();
        let start = len.saturating_sub(n);
        let mut r: Vec<LogLine> = Vec::new();
        let mut i = start;
        while i < len
            invariant
                start <= i <= len,
                len == self.lines@.len(),
                start == (if len > n { len - n } else { 0 }),
                r@ == self.lines@.subrange(start as int, i as int),
            decreases len - i,
        {
            r.push(self.lines[i].duplicate());
            assert(self.lines@.subrange(start as int, i + 1) == self.lines@.subrange(
                start as int,
                i as int,
            ).push(self.lines@[i as int]));
            i = i + 1;
        }
        assert(len <= n ==> self.lines@.subrange(0, len as int) == self.lines@);
        r
    }

    /// The number of buffered lines.
    pub fn len(&self) -> (l: usize)
        ensures
            l == self@.len(),
    {
        self.lines.len()
    }

    /// Whether the buffer holds no lines.
    pub fn is_empty(&self) -> (b: bool)
        ensures
            b == (self@.len() == 0),
    {
        self.lines.len() == 0
    }
}

/// A buffer that is full stays full: pushing onto a buffer holding exactly
/// `capacity` lines (capacity at least one) keeps `capacity` lines, the
/// newest last, and drops exactly the oldest.
pub proof fn full_buffer_evicts_oldest(lines: Seq<LogLine>, capacity: nat, line: LogLine)
    requires
        capacity >= 1,
        lines.len() == capacity,
    ensures
        after_push(lines, capacity, line).len() == capacity,
        after_push(lines, capacity, line) == lines.subrange(1, lines.len() as int).push(line),
{
}

/// The lines kept by a buffer of `capacity` that started empty and
/// received `lines` in order.
pub open spec fn after_pushes(capacity: nat, lines: Seq<LogLine>) -> Seq<LogLine>
    decreases lines.len(),
{
    if lines.len() == 0 {
        Seq::empty()
    } else {
        after_push(after_pushes(capacity, lines.drop_last()), capacity, lines.last())
    }
}

/// Ring buffer semantics: a buffer of capacity at least one keeps exactly
/// the most recent `capacity` lines pushed into it, oldest first.
pub proof fn ring_keeps_most_recent(capacity: nat, lines: Seq<LogLine>)
    requires
        capacity >= 1,
    ensures
        after_pushes(capacity, lines) == last_n(lines, capacity),
    decreases lines.len(),
{
    if lines.len() > 0 {
        let d = lines.drop_last();
        ring_keeps_most_recent(capacity, d);
        let p = last_n(d, capacity);
        if d.len() >= capacity {
            assert(p.drop_first().push(lines.last()) =~= last_n(lines, capacity));
        } else {
            assert(p == d);
            assert(d.push(lines.last()) =~= lines);
        }
    }
}

/// Below capacity nothing is evicted.
pub proof fn push_below_capacity_keeps_all(lines: Seq<LogLine>, capacity: nat, line: LogLine)
    requires
        lines.len() < capacity,
    ensures
        after_push(lines, capacity, line) == lines.push(line),
{
}


// ─── Merging buffers into one timeline ────────────────────────────────────

/// Where a line captured at `t` goes when inserted into `lines`: after every
/// trailing line that is later than `t`'s place, i.e. just after the last
/// line not later than `t` among the trailing run of later lines.
pub open spec fn insert_pos(lines: Seq<LogLine>, t: LogTime) -> nat
    decreases lines.len(),
{
    if lines.len() == 0 || time_le(lines.last().timestamp, t) {
        lines.len()
    } else {
        insert_pos(lines.drop_last(), t)
    }
}

/// `lines` with `line` inserted at its time position (after equal times).
pub open spec fn insert_by_time(lines: Seq<LogLine>, line: LogLine) -> Seq<LogLine> {
    lines.insert(insert_pos(lines, line.timestamp) as int, line)
}

/// The stable sort of `lines` by capture time: lines with equal times keep
/// their relative order.
pub open spec fn sort_by_time(lines: Seq<LogLine>) -> Seq<LogLine>
    decreases lines.len(),
{
    if lines.len() == 0 {
        lines
    } else {
        insert_by_time(sort_by_time(lines.drop_last()), lines.last())
    }
}

/// `lines` is ordered by capture time.
pub open spec fn time_sorted(lines: Seq<LogLine>) -> bool {
    forall|i: int, j: int|
        0 <= i < j < lines.len() ==> time_le(#[trigger] lines[i].timestamp, #[trigger] lines[j].timestamp)
}

proof fn insert_pos_bound(lines: Seq<LogLine>, t: LogTime)
    ensures
        insert_pos(lines, t) <= lines.len(),
        forall|k: int| insert_pos(lines, t) <= k < lines.len() ==> !time_le(#[trigger] lines[k].timestamp, t),
    decreases lines.len(),
{
    if lines.len() > 0 && !time_le(lines.last().timestamp, t) {
        insert_pos_bound(lines.drop_last(), t);
        assert forall|k: int| insert_pos(lines, t) <= k < lines.len() implies !time_le(
            #[trigger] lines[k].timestamp,
            t,
        ) by {
            if k < lines.len() - 1 {
                assert(lines.drop_last()[k] == lines[k]);
            }
        }
    }
}

proof fn insert_pos_sorted(lines: Seq<LogLine>, t: LogTime)
    requires
        time_sorted(lines),
    ensures
        forall|k: int| 0 <= k < insert_pos(lines, t) ==> time_le(#[trigger] lines[k].timestamp, t),
    decreases lines.len(),
{
    insert_pos_bound(lines, t);
    if lines.len() > 0 {
        if !time_le(lines.last().timestamp, t) {
            let d = lines.drop_last();
            assert(time_sorted(d)) by {
                assert forall|i: int, j: int| 0 <= i < j < d.len() implies time_le(
                    #[trigger] d[i].timestamp,
                    #[trigger] d[j].timestamp,
                ) by {
                    assert(d[i] == lines[i] && d[j] == lines[j]);
                }
            }
            insert_pos_sorted(d, t);
            insert_pos_bound(d, t);
            assert forall|k: int| 0 <= k < insert_pos(lines, t) implies time_le(
                #[trigger] lines[k].timestamp,
                t,
            ) by {
                assert(d[k] == lines[k]);
            }
        } else {
            assert forall|k: int| 0 <= k < lines.len() implies time_le(#[trigger] lines[k].timestamp, t) by {
                if k < lines.len() - 1 {
                    assert(time_le(lines[k].timestamp, lines[lines.len() - 1].timestamp));
                }
            }
        }
    }
}

/// Inserting by time into a time-ordered sequence keeps it time-ordered.
pub proof fn insert_keeps_sorted(lines: Seq<LogLine>, line: LogLine)
    requires
        time_sorted(lines),
    ensures
        time_sorted(insert_by_time(lines, line)),
{
    insert_pos_bound(lines, line.timestamp);
    insert_pos_sorted(lines, line.timestamp);
    let p = insert_pos(lines, line.timestamp) as int;
    let r = insert_by_time(lines, line);
    assert forall|i: int, j: int| 0 <= i < j < r.len() implies time_le(
        #[trigger] r[i].timestamp,
        #[trigger] r[j].timestamp,
    ) by {
        if i < p && j < p {
            assert(r[i] == lines[i] && r[j] == lines[j]);
        } else if i < p && j == p {
        } else if i < p && j > p {
            assert(r[i] == lines[i] && r[j] == lines[j - 1]);
            assert(time_le(lines[i].timestamp, lines[j - 1].timestamp));
        } else if i == p {
            assert(r[j] == lines[j - 1]);
            assert(!time_le(lines[j - 1].timestamp, line.timestamp));
        } else {
            assert(r[i] == lines[i - 1] && r[j] == lines[j - 1]);
        }
    }
}

/// The merged timeline is ordered by capture time.
pub proof fn sort_by_time_is_sorted(lines: Seq<LogLine>)
    ensures
        time_sorted(sort_by_time(lines)),
    decreases lines.len(),
{
    if lines.len() > 0 {
        sort_by_time_is_sorted(lines.drop_last());
        insert_keeps_sorted(sort_by_time(lines.drop_last()), lines.last());
    }
}

/// The merged timeline holds exactly the lines it was built from.
pub proof fn sort_by_time_keeps_lines(lines: Seq<LogLine>)
    ensures
        sort_by_time(lines).to_multiset() == lines.to_multiset(),
    decreases lines.len(),
{
    broadcast use vstd::seq_lib::group_to_multiset_ensures;
    if lines.len() > 0 {
        let prev = sort_by_time(lines.drop_last());
        sort_by_time_keeps_lines(lines.drop_last());
        insert_pos_bound(prev, lines.last().timestamp);
        let p = insert_pos(prev, lines.last().timestamp) as int;
        vstd::seq_lib::to_multiset_insert(prev, p, lines.last());
        vstd::seq_lib::to_multiset_build(lines.drop_last(), lines.last());
        assert(lines == lines.drop_last().push(lines.last()));
    }
}

/// The lines of `lines` captured at time `t`, in their order.
pub open spec fn captured_at(lines: Seq<LogLine>, t: LogTime) -> Seq<LogLine>
    decreases lines.len(),
{
    if lines.len() == 0 {
        Seq::empty()
    } else {
        let r = captured_at(lines.drop_last(), t);
        if lines.last().timestamp == t {
            r.push(lines.last())
        } else {
            r
        }
    }
}

proof fn captured_at_add(a: Seq<LogLine>, b: Seq<LogLine>, t: LogTime)
    ensures
        captured_at(a + b, t) == captured_at(a, t) + captured_at(b, t),
    decreases b.len(),
{
    if b.len() == 0 {
        assert(a + b =~= a);
        assert(captured_at(a, t) + captured_at(b, t) =~= captured_at(a, t));
    } else {
        captured_at_add(a, b.drop_last(), t);
        assert((a + b).drop_last() =~= a + b.drop_last());
        assert((a + b).last() == b.last());
        assert(captured_at(a, t) + captured_at(b.drop_last(), t).push(b.last()) =~= (captured_at(a, t)
            + captured_at(b.drop_last(), t)).push(b.last()));
    }
}

proof fn captured_at_none(s: Seq<LogLine>, t: LogTime)
    requires
        forall|k: int| 0 <= k < s.len() ==> (#[trigger] s[k]).timestamp != t,
    ensures
        captured_at(s, t) == Seq::<LogLine>::empty(),
    decreases s.len(),
{
    if s.len() > 0 {
        assert forall|k: int| 0 <= k < s.drop_last().len() implies (#[trigger] s.drop_last()[k]).timestamp != t by {
            assert(s.drop_last()[k] == s[k]);
        }
        captured_at_none(s.drop_last(), t);
        assert(s.last() == s[s.len() - 1]);
    }
}

/// The merged timeline is stable: the lines captured at any one time keep
/// the order in which they were given.
pub proof fn sort_by_time_is_stable(lines: Seq<LogLine>, t: LogTime)
    ensures
        captured_at(sort_by_time(lines), t) == captured_at(lines, t),
    decreases lines.len(),
{
    if lines.len() > 0 {
        let prev = sort_by_time(lines.drop_last());
        let x = lines.last();
        sort_by_time_is_stable(lines.drop_last(), t);
        insert_pos_bound(prev, x.timestamp);
        let p = insert_pos(prev, x.timestamp) as int;
        let head = prev.take(p);
        let tail = prev.skip(p);
        assert(prev =~= head + tail);
        assert(sort_by_time(lines) =~= head + seq![x] + tail);
        captured_at_add(head + seq![x], tail, t);
        captured_at_add(head, seq![x], t);
        captured_at_add(head, tail, t);
        assert(seq![x].drop_last() =~= Seq::<LogLine>::empty());
        assert(captured_at(seq![x].drop_last(), t) == Seq::<LogLine>::empty());
        assert(seq![x].last() == x);
        if x.timestamp == t {
            assert(captured_at(seq![x], t) =~= seq![x]);
            assert forall|k: int| 0 <= k < tail.len() implies (#[trigger] tail[k]).timestamp != t by {
                assert(tail[k] == prev[p + k]);
                assert(!time_le(prev[p + k].timestamp, x.timestamp));
            }
            captured_at_none(tail, t);
            assert(captured_at(head, t) + captured_at(tail, t) =~= captured_at(head, t));
            assert(captured_at(head, t) + seq![x] + captured_at(tail, t) =~= captured_at(head, t).push(x));
            assert(captured_at(lines, t) == captured_at(lines.drop_last(), t).push(x));
        } else {
            assert(captured_at(seq![x], t) =~= Seq::<LogLine>::empty());
            assert(captured_at(head, t) + captured_at(seq![x], t) =~= captured_at(head, t));
            assert(captured_at(lines, t) == captured_at(lines.drop_last(), t));
        }
    }
}

fn insert_line_by_time(v: &mut Vec<LogLine>, line: LogLine)
    ensures
        final(v)@ == insert_by_time(old(v)@, line),
{
    let t = line.timestamp;
    let mut j = v.len();
    assert(v@.take(j as int) == v@);
    while j > 0 && !time_not_after(v[j - 1].timestamp, t)
        invariant
            j <= v.len(),
            insert_pos(v@, t) == insert_pos(v@.take(j as int), t),
        decreases j,
    {
        assert(v@.take(j as int).drop_last() == v@.take(j - 1));
        j = j - 1;
    }
    assert(insert_pos(v@.take(j as int), t) == j);
    v.insert(j, line);
}

/// The stable sort by capture time of `lines`.
pub fn sorted_by_time(lines: Vec<LogLine>) -> (r: Vec<LogLine>)
    ensures
        r@ == sort_by_time(lines@),
{
    let mut r: Vec<LogLine> = Vec::new();
    let mut i: usize = 0;
    while i < lines.len()
        invariant
            i <= lines.len(),
            r@ == sort_by_time(lines@.take(i as int)),
        decreases lines.len() - i,
    {
        let line = lines[i].duplicate();
        assert(lines@.take(i + 1).drop_last() == lines@.take(i as int));
        insert_line_by_time(&mut r, line);
        i = i + 1;
    }
    assert(lines@.take(lines.len() as int) == lines@);
    r
}

/// The names in `names` with repeats removed, each kept at its first place.
pub open spec fn distinct_names(names: Seq<Seq<char>>) -> Seq<Seq<char>>
    decreases names.len(),
{
    if names.len() == 0 {
        names
    } else {
        let d = distinct_names(names.drop_last());
        if d.contains(names.last()) { d } else { d.push(names.last()) }
    }
}

/// All lines of the given buffers, buffer after buffer.
pub open spec fn concat_lines(bufs: Seq<Seq<LogLine>>) -> Seq<LogLine>
    decreases bufs.len(),
{
    if bufs.len() == 0 {
        Seq::empty()
    } else {
        concat_lines(bufs.drop_last()) + bufs.last()
    }
}

/// In a sequence without repeats, the position of a present element is the
/// one it occupies.
pub proof fn index_of_unique<A>(s: Seq<A>, a: A, i: int)
    requires
        s.no_duplicates(),
        0 <= i < s.len(),
        s[i] == a,
    ensures
        s.contains(a),
        s.index_of(a) == i,
{
    assert(s.contains(a));
    let j = s.index_of(a);
    assert(s[j] == a);
}

/// Aggregates log lines from all managed MCP servers: one ring buffer per
/// server name.
pub struct LogAggregator {
    names: Vec<String>,
    buffers: Vec<LogBuffer>,
}

impl LogAggregator {
    /// The registered server names, in registration order.
    pub closed spec fn names(&self) -> Seq<Seq<char>> {
        self.names@.map_values(|n: String| n@)
    }

    /// The lines buffered for each registered server, in registration order.
    pub closed spec fn buffers(&self) -> Seq<Seq<LogLine>> {
        self.buffers@.map_values(|b: LogBuffer| b@)
    }

    /// The capacity of each server's buffer.
    pub closed spec fn capacities(&self) -> Seq<nat> {
        self.buffers@.map_values(|b: LogBuffer| b.spec_capacity())
    }

    /// Names are distinct and each has one well-formed buffer.
    pub closed spec fn wf(&self) -> bool {
        &&& self.names@.len() == self.buffers@.len()
        &&& self.names().no_duplicates()
        &&& forall|i: int| 0 <= i < self.buffers@.len() ==> (#[trigger] self.buffers@[i]).wf()
    }

    /// The number of registered servers.
    pub open spec fn count(&self) -> nat {
        self.names().len()
    }

    /// A well-formed aggregator has one buffer, of one capacity, per
    /// registered name.
    pub proof fn one_buffer_per_name(&self)
        requires
            self.wf(),
        ensures
            self.buffers().len() == self.count(),
            self.capacities().len() == self.count(),
    {
    }

    /// Create an aggregator with one empty buffer of `capacity_per_server`
    /// lines for each distinct name of `server_names`.
    pub fn new(server_names: &Vec<String>, capacity_per_server: usize) -> (a: LogAggregator)
        ensures
            a.wf(),
            a.names() == distinct_names(server_names@.map_values(|n: String| n@)),
            a.buffers().len() == a.count(),
            a.capacities().len() == a.count(),
            forall|i: int| 0 <= i < a.count() ==> (#[trigger] a.buffers()[i]).len() == 0,
            forall|i: int| 0 <= i < a.count() ==> #[trigger] a.capacities()[i] == capacity_per_server,
    {
        let ghost all = server_names@.map_values(|n: String| n@);
        let mut names: Vec<String> = Vec::new();
        let mut buffers: Vec<LogBuffer> = Vec::new();
        for i in 0..server_names.len()
            invariant
                all == server_names@.map_values(|n: String| n@),
                names@.len() == buffers@.len(),
                names@.map_values(|n: String| n@) == distinct_names(all.take(i as int)),
                names@.map_values(|n: String| n@).no_duplicates(),
                forall|k: int| 0 <= k < buffers@.len() ==> (#[trigger] buffers@[k]).wf(),
                forall|k: int| 0 <= k < buffers@.len() ==> (#[trigger] buffers@[k])@.len() == 0,
                forall|k: int| 0 <= k < buffers@.len() ==> (#[trigger] buffers@[k]).spec_capacity() == capacity_per_server,
        {
            let ghost before = names@.map_values(|n: String| n@);
            assert(all.take(i + 1).drop_last() == all.take(i as int));
            assert(all.take(i + 1).last() == server_names@[i as int]@);
            let found = Self::position_in(&names, &server_names[i]);
            if found.is_none() {
                names.push(server_names[i].clone());
                buffers.push(LogBuffer::new(capacity_per_server));
                assert(names@.map_values(|n: String| n@) == before.push(server_names@[i as int]@));
            } else {
                proof {
                    let k = found.unwrap() as int;
                    assert(before[k] == server_names@[i as int]@);
                    assert(before.contains(server_names@[i as int]@));
                }
            }
        }
        assert(all.take(server_names.len() as int) == all);
        let a = LogAggregator { names, buffers };
        assert forall|i: int| 0 <= i < a.count() implies (#[trigger] a.buffers()[i]).len() == 0 by {
            assert(a.buffers()[i] == a.buffers@[i]@);
        }
        assert forall|i: int| 0 <= i < a.count() implies #[trigger] a.capacities()[i] == capacity_per_server by {
            assert(a.capacities()[i] == a.buffers@[i].spec_capacity());
        }
        a
    }

    /// The index of `name` in `names`, if present.
    fn position_in(names: &Vec<String>, name: &String) -> (r: Option<usize>)
        ensures
            match r {
                Some(i) => i < names@.len() && names@[i as int]@ == name@,
                None => !names@.map_values(|n: String| n@).contains(name@),
            },
    {
        for i in 0..names.len()
            invariant
                forall|k: int| 0 <= k < i ==> names@[k]@ != name@,
        {
            if names[i] == *name {
                return Some(i);
            }
        }
        proof {
            if names@.map_values(|n: String| n@).contains(name@) {
                let m = names@.map_values(|n: String| n@);
                let k = choose|k: int| 0 <= k < m.len() && #[trigger] m[k] == name@;
                assert(names@[k]@ == name@);
            }
        }
        None
    }

    /// The index of the buffer for `server`, if it is registered.
    pub fn index_of(&self, server: &str) -> (r: Option<usize>)
        requires
            self.wf(),
        ensures
            match r {
                Some(i) => i < self.count() && self.names()[i as int] == server@,
                None => !self.names().contains(server@),
            },
    {
        let key = String::from_str(server);
        let r = Self::position_in(&self.names, &key);
        proof {
            if let Some(i) = r {
                assert(self.names()[i as int] == self.names@[i as int]@);
            }
        }
        r
    }

    /// Append a line with `message` for `server`, captured at `timestamp`,
    /// to that server's buffer, and return the line.  A line for a server
    /// that is not registered is stored nowhere.
    pub fn push(&mut self, server: &str, message: String, timestamp: LogTime) -> (line: LogLine)
        requires
            old(self).wf(),
        ensures
            final(self).wf(),
            line.server@ == server@,
            line.message@ == message@,
            line.timestamp == timestamp,
            final(self).names() == old(self).names(),
            final(self).capacities() == old(self).capacities(),
            final(self).buffers().len() == final(self).count(),
            final(self).buffers() == (if old(self).names().contains(server@) {
                let i = old(self).names().index_of(server@);
                old(self).buffers().update(i, after_push(old(self).buffers()[i], old(self).capacities()[i], line))
            } else {
                old(self).buffers()
            }),
    {
        let line = LogLine { server: String::from_str(server), timestamp, message };
        let idx = self.index_of(server);
        match idx {
            Some(i) => {
                proof {
                    index_of_unique(old(self).names(), server@, i as int);
                }
                let mut b = self.buffers.remove(i);
                assert(b == old(self).buffers@[i as int]);
                b.push(line.duplicate());
                self.buffers.insert(i, b);
                proof {
                    assert(self.buffers@ == old(self).buffers@.update(i as int, b));
                    assert(self.buffers() == old(self).buffers().update(i as int, b@));
                    assert(self.capacities() == old(self).capacities());
                }
            },
            None => {},
        }
        line
    }

    /// The buffer of `server`, if it is registered.
    pub fn get_buffer(&self, server: &str) -> (r: Option<&LogBuffer>)
        requires
            self.wf(),
        ensures
            match r {
                Some(b) => self.names().contains(server@) && b@ == self.buffers()[
                    self.names().index_of(server@)],
                None => !self.names().contains(server@),
            },
    {
        match self.index_of(server) {
            Some(i) => {
                proof {
                    index_of_unique(self.names(), server@, i as int);
                }
                Some(&self.buffers[i])
            },
            None => None,
        }
    }

    /// All buffered lines of all servers merged into one sequence ordered by
    /// capture time; lines with equal times keep registration order, then
    /// buffer order.
    pub fn snapshot_all(&self) -> (r: Vec<LogLine>)
        requires
            self.wf(),
        ensures
            r@ == sort_by_time(concat_lines(self.buffers())),
    {
        let mut all: Vec<LogLine> = Vec::new();
        for i in 0..self.buffers.len()
            invariant
                all@ == concat_lines(self.buffers().take(i as int)),
        {
            let mut part = self.buffers[i].snapshot();
            assert(self.buffers().take(i + 1).drop_last() == self.buffers().take(i as int));
            assert(self.buffers().take(i + 1).last() == self.buffers@[i as int]@);
            all.append(&mut part);
        }
        assert(self.buffers().take(self.buffers@.len() as int) == self.buffers());
        sorted_by_time(all)
    }

    /// The registered server names, in registration order.
    pub fn server_names(&self) -> (r: Vec<String>)
        ensures
            r@.map_values(|n: String| n@) == self.names(),
    {
        let r = self.names.clone();
        proof {
            assert(r@.map_values(|n: String| n@) =~= self.names());
        }
        r
    }
}


// ─── Formatting ───────────────────────────────────────────────────────────

/// The day number used for a time `secs` seconds after the epoch: whole
/// days, taken modulo `2^32` and read as a signed 32-bit number.
pub open spec fn day_number(secs: nat) -> int {
    let d = (secs / 86400) % 0x1_0000_0000;
    if d >= 0x8000_0000 { d - 0x1_0000_0000 } else { d as int }
}

/// The day whose date is shown for a time `secs` seconds after the epoch:
/// the day number shifted to the calendar's origin in 32-bit arithmetic,
/// which wraps for days past the year 5,881,580.
pub open spec fn display_day(secs: nat) -> int {
    let z = day_number(secs) + 719468;
    (if z > 0x7fff_ffff { z - 0x1_0000_0000 } else { z }) - 719468
}

/// A year as `{:04}` prints it: at least four characters, zero padded
/// after the sign.
pub open spec fn year_text(y: int) -> Seq<char> {
    if y < 0 { seq!['-'] + zero_pad(decimal((-y) as nat), 3) } else { zero_pad(decimal(y as nat), 4) }
}

/// `YYYY-MM-DDTHH:MM:SSZ` for a time `secs` seconds after the epoch.
pub open spec fn timestamp_text(secs: nat) -> Seq<char> {
    let ymd = civil_date(display_day(secs));
    let tod = secs % 86400;
    year_text(ymd.0) + seq!['-'] + zero_pad(decimal(ymd.1 as nat), 2) + seq!['-'] + zero_pad(
        decimal(ymd.2 as nat),
        2,
    ) + seq!['T'] + zero_pad(decimal(tod / 3600), 2) + seq![':'] + zero_pad(decimal((tod % 3600) / 60), 2)
        + seq![':'] + zero_pad(decimal(tod % 60), 2) + seq!['Z']
}

proof fn two_digit_field(v: nat)
    requires
        v < 100,
    ensures
        zero_pad(decimal(v), 2).len() == 2,
        all_digits(zero_pad(decimal(v), 2)),
        digits_value(zero_pad(decimal(v), 2)) == v,
{
    decimal_reads_back(v);
    zero_pad_reads_back(decimal(v), 2);
}

/// A timestamp reads back as the time it shows: `YYYY-MM-DDTHH:MM:SSZ`
/// whose fields are digits, `YYYY-MM-DD` a date of the calendar whose day
/// number is the count of whole days since the epoch, and
/// `HH * 3600 + MM * 60 + SS` the seconds into that day, with `HH < 24`
/// and `MM`, `SS` below 60.  Stated for the days before the 32-bit day
/// arithmetic of the format wraps.
#[verifier::rlimit(40)]
pub proof fn timestamp_reads_back(secs: nat)
    requires
        secs / 86400 + 719468 <= 0x7fff_ffff,
    ensures
        ({
            let t = timestamp_text(secs);
            let n = t.len() as int;
            let year = digits_value(t.take(n - 16));
            let month = digits_value(t.subrange(n - 15, n - 13));
            let day = digits_value(t.subrange(n - 12, n - 10));
            let hh = digits_value(t.subrange(n - 9, n - 7));
            let mm = digits_value(t.subrange(n - 6, n - 4));
            let ss = digits_value(t.subrange(n - 3, n - 1));
            &&& n >= 20
            &&& t[n - 16] == '-' && t[n - 13] == '-' && t[n - 10] == 'T'
            &&& t[n - 7] == ':' && t[n - 4] == ':' && t[n - 1] == 'Z'
            &&& all_digits(t.take(n - 16)) && all_digits(t.subrange(n - 15, n - 13)) && all_digits(
                t.subrange(n - 12, n - 10),
            )
            &&& all_digits(t.subrange(n - 9, n - 7)) && all_digits(t.subrange(n - 6, n - 4)) && all_digits(
                t.subrange(n - 3, n - 1),
            )
            &&& valid_date(year as int, month as int, day as int)
            &&& days_from_civil(year as int, month as int, day as int) == secs / 86400
            &&& hh < 24 && mm < 60 && ss < 60
            &&& hh * 3600 + mm * 60 + ss == secs % 86400
        }),
{
    let dn = secs / 86400;
    assert(day_number(secs) == dn);
    assert(display_day(secs) == dn);
    civil_date_is_the_date(dn as int);
    days_since_epoch_are_in_epoch_years(dn as int);
    let ymd = civil_date(dn as int);
    let tod = secs % 86400;
    let h = tod / 3600;
    let m = (tod % 3600) / 60;
    let x = tod % 60;
    assert(h < 24 && m < 60 && x < 60);
    decimal_reads_back(ymd.0 as nat);
    zero_pad_reads_back(decimal(ymd.0 as nat), 4);
    two_digit_field(ymd.1 as nat);
    two_digit_field(ymd.2 as nat);
    two_digit_field(h);
    two_digit_field(m);
    two_digit_field(x);
    let ys = zero_pad(decimal(ymd.0 as nat), 4);
    let ms = zero_pad(decimal(ymd.1 as nat), 2);
    let ds = zero_pad(decimal(ymd.2 as nat), 2);
    let hs = zero_pad(decimal(h), 2);
    let mns = zero_pad(decimal(m), 2);
    let ss = zero_pad(decimal(x), 2);
    let t = timestamp_text(secs);
    assert(year_text(ymd.0) == ys);
    assert(t == ys + seq!['-'] + ms + seq!['-'] + ds + seq!['T'] + hs + seq![':'] + mns + seq![':'] + ss
        + seq!['Z']);
    let n = t.len() as int;
    assert(ys.len() >= 4);
    assert(n == ys.len() + 16);
    assert(t.take(n - 16) =~= ys);
    assert(t.subrange(n - 15, n - 13) =~= ms);
    assert(t.subrange(n - 12, n - 10) =~= ds);
    assert(t.subrange(n - 9, n - 7) =~= hs);
    assert(t.subrange(n - 6, n - 4) =~= mns);
    assert(t.subrange(n - 3, n - 1) =~= ss);
    assert(tod == h * 3600 + m * 60 + x) by (nonlinear_arith)
        requires
            h == tod / 3600,
            m == (tod % 3600) / 60,
            x == tod % 60,
    {
    }
}

/// Format a capture time as `YYYY-MM-DDTHH:MM:SSZ` (RFC 3339, seconds).
/// Every time can be formatted; past the year 5,881,580 the 32-bit day
/// arithmetic of the format wraps (see `display_day`).
pub fn format_system_time(t: LogTime) -> (r: String)
    ensures
        r@ == timestamp_text(t.secs as nat),
{
    let secs = t.secs;
    let d: u64 = (secs / 86400) % 0x1_0000_0000;
    let n: i64 = if d >= 0x8000_0000 { (d as i64) - 0x1_0000_0000 } else { d as i64 };
    let z: i64 = n + 719468;
    let shown: i64 = if z > 0x7fff_ffff { z - 0x1_0000_0000 - 719468 } else { n };
    let (year, month, day) = civil_from_days(shown);
    let tod = secs % 86400;
    let mut r = String::new();
    if year < 0 {
        push_char(&mut r, '-');
        push_padded(&mut r, (0 - year) as u64, 3);
    } else {
        push_padded(&mut r, year as u64, 4);
    }
    push_char(&mut r, '-');
    push_padded(&mut r, month as u64, 2);
    push_char(&mut r, '-');
    push_padded(&mut r, day as u64, 2);
    push_char(&mut r, 'T');
    push_padded(&mut r, tod / 3600, 2);
    push_char(&mut r, ':');
    push_padded(&mut r, (tod % 3600) / 60, 2);
    push_char(&mut r, ':');
    push_padded(&mut r, tod % 60, 2);
    push_char(&mut r, 'Z');
    r
}

/// The colours assigned to server names in terminal output.
#[derive(Clone, Copy, PartialEq, Eq, Structural, Debug)]
pub enum ServerColor {
    Cyan,
    Green,
    Yellow,
    Magenta,
    Blue,
    BrightCyan,
}

/// The colour at position `i` of the palette.
pub open spec fn palette(i: int) -> ServerColor {
    if i == 0 {
        ServerColor::Cyan
    } else if i == 1 {
        ServerColor::Green
    } else if i == 2 {
        ServerColor::Yellow
    } else if i == 3 {
        ServerColor::Magenta
    } else if i == 4 {
        ServerColor::Blue
    } else {
        ServerColor::BrightCyan
    }
}

/// The six places of the palette hold six different colours, each with its
/// own escape code, so names whose hashes differ modulo six are told apart.
pub proof fn palette_colours_are_distinct(i: int, j: int)
    requires
        0 <= i < 6,
        0 <= j < 6,
        i != j,
    ensures
        palette(i) != palette(j),
        fg_code(palette(i)) != fg_code(palette(j)),
{
    let a = fg_code(palette(i));
    let b = fg_code(palette(j));
    assert(a.len() == 2 && b.len() == 2);
    assert(a[0] != b[0] || a[1] != b[1]);
}

/// The ANSI foreground code of a colour.
pub open spec fn fg_code(c: ServerColor) -> Seq<char> {
    match c {
        ServerColor::Cyan => seq!['3', '6'],
        ServerColor::Green => seq!['3', '2'],
        ServerColor::Yellow => seq!['3', '3'],
        ServerColor::Magenta => seq!['3', '5'],
        ServerColor::Blue => seq!['3', '4'],
        ServerColor::BrightCyan => seq!['9', '6'],
    }
}

/// `text` between the escape sequence that selects colour `c` and the one
/// that restores the default foreground.
pub open spec fn colored(text: Seq<char>, c: ServerColor) -> Seq<char> {
    seq!['\x1b', '['] + fg_code(c) + seq!['m'] + text + seq!['\x1b', '[', '3', '9', 'm']
}

/// `text` coloured for the terminal (`OwoColorize::color` with the matching
/// `AnsiColors` variant, displayed): the colour's escape sequence, the
/// text, and the sequence restoring the default foreground colour.
#[verifier::external_body]
fn colorize(text: &str, c: ServerColor) -> (r: String)
    ensures
        r@ == colored(text@, c),
{
    let ansi = match c {
        ServerColor::Cyan => owo_colors::AnsiColors::Cyan,
        ServerColor::Green => owo_colors::AnsiColors::Green,
        ServerColor::Yellow => owo_colors::AnsiColors::Yellow,
        ServerColor::Magenta => owo_colors::AnsiColors::Magenta,
        ServerColor::Blue => owo_colors::AnsiColors::Blue,
        ServerColor::BrightCyan => owo_colors::AnsiColors::BrightCyan,
    };
    text.color(ansi).to_string()
}

/// The standard library's default hash of a string: the `DefaultHasher`
/// hash that `BuildHasherDefault<DefaultHasher>::hash_one` computes.
pub uninterp spec fn default_hash_of(name: Seq<char>) -> u64;

/// `BuildHasher::hash_one` of `name` with a `DefaultHasher` made by
/// `Default`.  The standard library documents that all `DefaultHasher`s
/// made by `new` or `default` are the same, so the hash is a function of
/// the name; its algorithm is left unspecified, so nothing more is said.
#[verifier::external_body]
fn default_hash(name: &str) -> (h: u64)
    ensures
        h == default_hash_of(name@),
{
    std::hash::BuildHasherDefault::<std::collections::hash_map::DefaultHasher>::default().hash_one(name)
}

/// The palette colour for a hash value.
pub fn color_for_hash(h: u64) -> (c: ServerColor)
    ensures
        c == palette((h % 6) as int),
{
    let i = h % 6;
    if i == 0 {
        ServerColor::Cyan
    } else if i == 1 {
        ServerColor::Green
    } else if i == 2 {
        ServerColor::Yellow
    } else if i == 3 {
        ServerColor::Magenta
    } else if i == 4 {
        ServerColor::Blue
    } else {
        ServerColor::BrightCyan
    }
}

/// The colour of a server name: the palette entry its hash selects.
pub open spec fn server_color_of(name: Seq<char>) -> ServerColor {
    palette((default_hash_of(name) % 6) as int)
}

/// The colour of a server name: a palette entry chosen by the name's hash,
/// so that a name always gets the same colour.
pub fn server_color(name: &str) -> (c: ServerColor)
    ensures
        c == server_color_of(name@),
{
    let h = default_hash(name);
    color_for_hash(h)
}

/// `server | timestamp message`, with the server name uncoloured.
pub open spec fn plain_log_text(line: LogLine) -> Seq<char> {
    line.server@ + " | "@ + timestamp_text(line.timestamp.secs as nat) + seq![' '] + line.message@
}

/// A log line as displayed: `server | timestamp message`, the server name
/// in its colour when `color` is set.
pub open spec fn log_text(line: LogLine, color: bool) -> Seq<char> {
    if color {
        colored(line.server@, server_color_of(line.server@)) + " | "@ + timestamp_text(
            line.timestamp.secs as nat,
        ) + seq![' '] + line.message@
    } else {
        plain_log_text(line)
    }
}

/// Format a log line for display: `server | YYYY-MM-DDTHH:MM:SSZ message`.
/// With `color`, the server name is wrapped in the escape sequences of its
/// colour.
pub fn format_log_line(line: &LogLine, color: bool) -> (r: String)
    ensures
        r@ == log_text(*line, color),
{
    let ts = format_system_time(line.timestamp);
    let mut r = if color {
        let c = server_color(line.server.as_str());
        colorize(line.server.as_str(), c)
    } else {
        line.server.clone()
    };
    push_str(&mut r, " | ");
    push_str(&mut r, ts.as_str());
    push_char(&mut r, ' ');
    push_str(&mut r, line.message.as_str());
    r
}


/// A displayed log line starts with the server name and ends with the
/// message; colour changes nothing but the name, which it wraps in the
/// escape sequences of the server's colour.
pub proof fn colour_only_wraps_the_server_name(line: LogLine)
    ensures
        ({
            let plain = log_text(line, false);
            let n = line.server@.len() as int;
            &&& plain.take(n) == line.server@
            &&& plain.skip(plain.len() - line.message@.len()) == line.message@
            &&& log_text(line, true) == colored(line.server@, server_color_of(line.server@)) + plain.skip(n)
        }),
{
    let plain = log_text(line, false);
    let n = line.server@.len() as int;
    let rest = " | "@ + timestamp_text(line.timestamp.secs as nat) + seq![' '] + line.message@;
    assert(plain =~= line.server@ + rest);
    assert(plain.take(n) =~= line.server@);
    assert(plain.skip(n) =~= rest);
    assert(plain.skip(plain.len() - line.message@.len()) =~= line.message@);
    assert(log_text(line, true) =~= colored(line.server@, server_color_of(line.server@)) + rest);
}

/// `text` is `line` formatted for display, coloured or not.
pub open spec fn shows_line(text: Seq<char>, line: LogLine, color: bool) -> bool {
    text == log_text(line, color)
}

/// Each line of `lines` formatted for display.
pub fn format_lines(lines: &Vec<LogLine>, color: bool) -> (r: Vec<String>)
    ensures
        r@.len() == lines@.len(),
        forall|k: int| 0 <= k < lines@.len() ==> shows_line(#[trigger] r@[k]@, lines@[k], color),
{
    let mut r: Vec<String> = Vec::new();
    for i in 0..lines.len()
        invariant
            r@.len() == i,
            forall|k: int| 0 <= k < i ==> shows_line(#[trigger] r@[k]@, lines@[k], color),
    {
        let s = format_log_line(&lines[i], color);
        r.push(s);
    }
    r
}

/// The lines answered for a request of the last `n` log lines: those of
/// `server`'s buffer, or of the merged timeline of all servers.
pub open spec fn recent_lines_of(agg: LogAggregator, server: Option<Seq<char>>, n: nat) -> Option<Seq<LogLine>> {
    match server {
        Some(name) => if agg.names().contains(name) {
            Some(last_n(agg.buffers()[agg.names().index_of(name)], n))
        } else {
            None
        },
        None => Some(last_n(sort_by_time(concat_lines(agg.buffers())), n)),
    }
}

impl LogAggregator {
    /// The last `n` lines of `server` (or of all servers merged by time),
    /// formatted for display; an unknown server is an error naming it.
    pub fn recent_lines(&self, server: Option<&str>, n: usize, color: bool) -> (r: Result<Vec<String>, String>)
        requires
            self.wf(),
        ensures
            match recent_lines_of(*self, match server {
                Some(s) => Some(s@),
                None => None,
            }, n as nat) {
                Some(lines) => r matches Ok(v) && v@.len() == lines.len() && forall|k: int|
                    0 <= k < lines.len() ==> shows_line(#[trigger] v@[k]@, lines[k], color),
                None => r matches Err(m) && server matches Some(s) && m@ == "Unknown server: '"@ + s@
                    + "'"@,
            },
    {
        match server {
            Some(name) => match self.get_buffer(name) {
                Some(buf) => {
                    let lines = buf.snapshot_last(n);
                    Ok(format_lines(&lines, color))
                },
                None => {
                    let mut m = String::from_str("Unknown server: '");
                    push_str(&mut m, name);
                    push_str(&mut m, "'");
                    Err(m)
                },
            },
            None => {
                let all = self.snapshot_all();
                let tail = tail_lines(&all, n);
                Ok(format_lines(&tail, color))
            },
        }
    }
}

/// Copies of the last `n` lines of `lines` (all of them when there are fewer).
pub fn tail_lines(lines: &Vec<LogLine>, n: usize) -> (r: Vec<LogLine>)
    ensures
        r@ == last_n(lines@, n as nat),
{
    let len = lines.len();
    let start = if len > n { len - n } else { 0 };
    let mut r: Vec<LogLine> = Vec::new();
    let mut i = start;
    while i < len
        invariant
            start <= i <= len,
            len == lines@.len(),
            r@ == lines@.subrange(start as int, i as int),
        decreases len - i,
    {
        r.push(lines[i].duplicate());
        assert(lines@.subrange(start as int, i + 1) == lines@.subrange(start as int, i as int).push(lines@[i as int]));
        i = i + 1;
    }
    assert(len <= n ==> lines@.subrange(0, len as int) == lines@);
    r
}

} // verus!
