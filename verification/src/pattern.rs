//! Events, patterns, and the mathematical model of what a run retains.

use vstd::prelude::*;

verus! {

/// One step of a rhythmic pattern: allocate `size_kb` kilobytes of zeroed
/// memory (zero kilobytes means a rest: no allocation), then pause for
/// `delay_ms` milliseconds before the next step.
#[derive(Clone, Copy, PartialEq, Eq, Structural, Debug)]
pub struct Event {
    pub size_kb: usize,
    pub delay_ms: u64,
}

impl Event {
    pub fn new(size_kb: usize, delay_ms: u64) -> (e: Event)
        ensures
            e == (Event { size_kb, delay_ms }),
    {
        Event { size_kb, delay_ms }
    }
}

/// A rest allocates nothing; it only delays.
pub open spec fn is_rest(e: Event) -> bool {
    e.size_kb == 0
}

/// The number of bytes a non-rest event allocates.
pub open spec fn event_bytes(e: Event) -> nat {
    (e.size_kb * 1024) as nat
}

/// An all-zero buffer of `n` bytes, as allocated for one non-rest event.
pub open spec fn zero_buf(n: nat) -> Seq<u8> {
    Seq::new(n, |i: int| 0u8)
}

/// The buffers one pass over `p` retains, in event order; rests retain none.
pub open spec fn alloc_bufs(p: Seq<Event>) -> Seq<Seq<u8>>
    decreases p.len(),
{
    if p.len() == 0 {
        Seq::empty()
    } else if is_rest(p.last()) {
        alloc_bufs(p.drop_last())
    } else {
        alloc_bufs(p.drop_last()).push(zero_buf(event_bytes(p.last())))
    }
}

/// The buffers `r` passes over `p` retain, in order.
pub open spec fn repeat_bufs(p: Seq<Event>, r: nat) -> Seq<Seq<u8>>
    decreases r,
{
    if r == 0 {
        Seq::empty()
    } else {
        repeat_bufs(p, (r - 1) as nat) + alloc_bufs(p)
    }
}

/// The number of non-rest events in `p`.
pub open spec fn alloc_count(p: Seq<Event>) -> nat
    decreases p.len(),
{
    if p.len() == 0 {
        0
    } else {
        alloc_count(p.drop_last()) + if is_rest(p.last()) { 0nat } else { 1nat }
    }
}

/// The total bytes one pass over `p` allocates.
pub open spec fn pattern_bytes(p: Seq<Event>) -> nat
    decreases p.len(),
{
    if p.len() == 0 {
        0
    } else {
        pattern_bytes(p.drop_last()) + if is_rest(p.last()) { 0nat } else { event_bytes(p.last()) }
    }
}

/// The total delay of one pass over `p`, in milliseconds.
pub open spec fn pattern_delay(p: Seq<Event>) -> nat
    decreases p.len(),
{
    if p.len() == 0 {
        0
    } else {
        (pattern_delay(p.drop_last()) + p.last().delay_ms) as nat
    }
}

/// The total length, in bytes, of a sequence of buffers.
pub open spec fn total_len(bufs: Seq<Seq<u8>>) -> nat
    decreases bufs.len(),
{
    if bufs.len() == 0 {
        0
    } else {
        total_len(bufs.drop_last()) + bufs.last().len()
    }
}

/// Extending a prefix of `p` by the event at `i` extends each of the model
/// functions by that event's contribution.
pub proof fn lemma_prefix_step(p: Seq<Event>, i: int)
    requires
        0 <= i < p.len(),
    ensures
        alloc_bufs(p.subrange(0, i + 1)) == (if is_rest(p[i]) {
            alloc_bufs(p.subrange(0, i))
        } else {
            alloc_bufs(p.subrange(0, i)).push(zero_buf(event_bytes(p[i])))
        }),
        alloc_count(p.subrange(0, i + 1)) == alloc_count(p.subrange(0, i)) + (if is_rest(p[i]) {
            0nat
        } else {
            1nat
        }),
        pattern_bytes(p.subrange(0, i + 1)) == pattern_bytes(p.subrange(0, i)) + (if is_rest(
            p[i],
        ) {
            0nat
        } else {
            event_bytes(p[i])
        }),
        pattern_delay(p.subrange(0, i + 1)) == pattern_delay(p.subrange(0, i)) + p[i].delay_ms,
{
    let q = p.subrange(0, i + 1);
    assert(q.last() == p[i]);
    assert(q.drop_last() =~= p.subrange(0, i));
}

/// A pattern's total delay never falls below the total delay of a prefix.
pub proof fn lemma_pattern_delay_prefix_le(p: Seq<Event>, i: int)
    requires
        0 <= i <= p.len(),
    ensures
        pattern_delay(p.subrange(0, i)) <= pattern_delay(p),
    decreases p.len() - i,
{
    if i == p.len() {
        assert(p.subrange(0, i) =~= p);
    } else {
        lemma_prefix_step(p, i);
        lemma_pattern_delay_prefix_le(p, i + 1);
    }
}

/// Extending a prefix of `bufs` by the buffer at `i` adds that buffer's
/// length to the total.
pub proof fn lemma_total_len_step(bufs: Seq<Seq<u8>>, i: int)
    requires
        0 <= i < bufs.len(),
    ensures
        total_len(bufs.subrange(0, i + 1)) == total_len(bufs.subrange(0, i)) + bufs[i].len(),
{
    let q = bufs.subrange(0, i + 1);
    assert(q.last() == bufs[i]);
    assert(q.drop_last() =~= bufs.subrange(0, i));
}

/// The total length of a sequence of buffers never falls below the total
/// length of a prefix.
pub proof fn lemma_total_len_prefix_le(bufs: Seq<Seq<u8>>, i: int)
    requires
        0 <= i <= bufs.len(),
    ensures
        total_len(bufs.subrange(0, i)) <= total_len(bufs),
    decreases bufs.len() - i,
{
    if i == bufs.len() {
        assert(bufs.subrange(0, i) =~= bufs);
    } else {
        lemma_total_len_step(bufs, i);
        lemma_total_len_prefix_le(bufs, i + 1);
    }
}

/// One pass retains exactly one buffer per non-rest event.
pub proof fn lemma_alloc_bufs_len(p: Seq<Event>)
    ensures
        alloc_bufs(p).len() == alloc_count(p),
    decreases p.len(),
{
    if p.len() != 0 {
        lemma_alloc_bufs_len(p.drop_last());
    }
}

/// One pass retains exactly the pattern's non-rest bytes.
pub proof fn lemma_alloc_bufs_bytes(p: Seq<Event>)
    ensures
        total_len(alloc_bufs(p)) == pattern_bytes(p),
    decreases p.len(),
{
    if p.len() != 0 {
        lemma_alloc_bufs_bytes(p.drop_last());
        if !is_rest(p.last()) {
            let x = alloc_bufs(p.drop_last());
            let b = zero_buf(event_bytes(p.last()));
            assert(x.push(b).drop_last() =~= x);
            assert(x.push(b).last() == b);
        }
    }
}

/// Concatenating buffer sequences adds their totals.
pub proof fn lemma_total_len_add(a: Seq<Seq<u8>>, b: Seq<Seq<u8>>)
    ensures
        total_len(a + b) == total_len(a) + total_len(b),
    decreases b.len(),
{
    if b.len() == 0 {
        assert(a + b =~= a);
    } else {
        lemma_total_len_add(a, b.drop_last());
        assert((a + b).drop_last() =~= a + b.drop_last());
        assert((a + b).last() == b.last());
    }
}

/// Law: for every pattern `p` and repetition count `r`, the number of
/// buffers a run retains equals `r` times the number of non-rest events of
/// `p`; rests retain nothing.
pub proof fn lemma_retained_count(p: Seq<Event>, r: nat)
    ensures
        repeat_bufs(p, r).len() == r * alloc_count(p),
    decreases r,
{
    if r != 0 {
        lemma_retained_count(p, (r - 1) as nat);
        lemma_alloc_bufs_len(p);
        assert((r - 1) * alloc_count(p) + alloc_count(p) == r * alloc_count(p))
            by (nonlinear_arith)
            requires
                r >= 1,
        ;
    }
}

/// Law: for every pattern `p` and repetition count `r`, the total number of
/// bytes a run retains equals `r` times the sum of `size_kb * 1024` over the
/// non-rest events of `p`.
pub proof fn lemma_retained_bytes(p: Seq<Event>, r: nat)
    ensures
        total_len(repeat_bufs(p, r)) == r * pattern_bytes(p),
    decreases r,
{
    if r != 0 {
        lemma_retained_bytes(p, (r - 1) as nat);
        lemma_total_len_add(repeat_bufs(p, (r - 1) as nat), alloc_bufs(p));
        lemma_alloc_bufs_bytes(p);
        assert((r - 1) * pattern_bytes(p) + pattern_bytes(p) == r * pattern_bytes(p))
            by (nonlinear_arith)
            requires
                r >= 1,
        ;
    }
}

/// True exactly when every event's allocation size, in bytes, fits in
/// `usize`, so playing the pattern cannot overflow a size computation.
pub fn pattern_fits(pattern: &Vec<Event>) -> (ok: bool)
    ensures
        ok == forall|k: int|
            0 <= k < pattern@.len() ==> #[trigger] pattern@[k].size_kb * 1024 <= usize::MAX,
{
    let mut i: usize = 0;
    while i < pattern.len()
        invariant
            i <= pattern@.len(),
            forall|k: int| 0 <= k < i ==> #[trigger] pattern@[k].size_kb * 1024 <= usize::MAX,
        decreases pattern@.len() - i,
    {
        if pattern[i].size_kb > usize::MAX / 1024 {
            assert(pattern@[i as int].size_kb * 1024 > usize::MAX);
            return false;
        }
        i = i + 1;
    }
    true
}

/// The total delay of one pass over `pattern`, in milliseconds, or `None`
/// when that sum does not fit in `u64`.
pub fn pattern_delay_ms(pattern: &Vec<Event>) -> (r: Option<u64>)
    ensures
        match r {
            Some(t) => t == pattern_delay(pattern@),
            None => pattern_delay(pattern@) > u64::MAX,
        },
{
    let mut sum: u64 = 0;
    let mut i: usize = 0;
    while i < pattern.len()
        invariant
            i <= pattern@.len(),
            sum == pattern_delay(pattern@.subrange(0, i as int)),
        decreases pattern@.len() - i,
    {
        let d = pattern[i].delay_ms;
        proof {
            lemma_prefix_step(pattern@, i as int);
        }
        if sum > u64::MAX - d {
            proof {
                lemma_pattern_delay_prefix_le(pattern@, i as int + 1);
            }
            return None;
        }
        sum = sum + d;
        i = i + 1;
    }
    proof {
        assert(pattern@.subrange(0, pattern@.len() as int) =~= pattern@);
    }
    Some(sum)
}

/// The least total waiting time of a whole run: `repetitions` times the sum
/// of the pattern's delays, in milliseconds, or `None` when that product does
/// not fit in `u64`.
pub fn total_delay_ms(pattern: &Vec<Event>, repetitions: usize) -> (r: Option<u64>)
    ensures
        match r {
            Some(t) => t == repetitions * pattern_delay(pattern@),
            None => repetitions * pattern_delay(pattern@) > u64::MAX,
        },
{
    if repetitions == 0 {
        return Some(0);
    }
    let per: u64 = match pattern_delay_ms(pattern) {
        Some(s) => s,
        None => {
            proof {
                assert(repetitions * pattern_delay(pattern@) >= 1 * pattern_delay(pattern@))
                    by (nonlinear_arith)
                    requires
                        repetitions >= 1,
                        pattern_delay(pattern@) >= 0,
                ;
            }
            return None;
        },
    };
    let mut total: u64 = 0;
    let mut k: usize = 0;
    while k < repetitions
        invariant
            k <= repetitions,
            per == pattern_delay(pattern@),
            total == k * pattern_delay(pattern@),
        decreases repetitions - k,
    {
        proof {
            assert((k + 1) * pattern_delay(pattern@) == k * pattern_delay(pattern@)
                + pattern_delay(pattern@)) by (nonlinear_arith);
        }
        if total > u64::MAX - per {
            proof {
                assert(repetitions * pattern_delay(pattern@) >= (k + 1) * pattern_delay(pattern@))
                    by (nonlinear_arith)
                    requires
                        repetitions >= k + 1,
                        pattern_delay(pattern@) >= 0,
                ;
            }
            return None;
        }
        total = total + per;
        k = k + 1;
    }
    Some(total)
}

} // verus!
