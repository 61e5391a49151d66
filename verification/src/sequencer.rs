//! The sequencer: walks a pattern, allocating and retaining buffers.

use vstd::prelude::*;

use crate::pattern::{
    alloc_bufs, event_bytes, is_rest, lemma_prefix_step, lemma_total_len_prefix_le,
    lemma_total_len_step, repeat_bufs, total_len, zero_buf, Event,
};

verus! {

/// Owns the buffers a run retains. Every buffer allocated for a non-rest
/// event is appended here and kept until the sequencer is dropped, so the
/// process's resident memory grows monotonically during a run.
pub struct Sequencer {
    retained: Vec<Vec<u8>>,
}

impl View for Sequencer {
    type V = Seq<Seq<u8>>;

    /// A sequencer is modelled by the contents of its retained buffers,
    /// oldest first.
    closed spec fn view(&self) -> Seq<Seq<u8>> {
        self.retained@.map_values(|b: Vec<u8>| b@)
    }
}

/// A zero-initialized buffer of `n` bytes.
fn zero_buffer(n: usize) -> (v: Vec<u8>)
    ensures
        v@ == zero_buf(n as nat),
{
    let mut v: Vec<u8> = Vec::new();
    let mut i: usize = 0;
    while i < n
        invariant
            i <= n,
            v@.len() == i,
            forall|j: int| 0 <= j < i ==> v@[j] == 0u8,
        decreases n - i,
    {
        v.push(0u8);
        i = i + 1;
    }
    proof {
        assert(v@ =~= zero_buf(n as nat));
    }
    v
}

impl Sequencer {
    /// A fresh sequencer retains nothing.
    pub fn new() -> (s: Sequencer)
        ensures
            s@ == Seq::<Seq<u8>>::empty(),
    {
        let s = Sequencer { retained: Vec::new() };
        proof {
            assert(s@ =~= Seq::<Seq<u8>>::empty());
        }
        s
    }

    /// The number of buffers retained so far.
    pub fn retained_count(&self) -> (n: usize)
        ensures
            n == self@.len(),
    {
        self.retained.len()
    }

    /// Process one event: for a non-rest event, allocate a zero-initialized
    /// buffer of `size_kb * 1024` bytes and retain it; for a rest, retain
    /// nothing. Returns the delay the caller must wait before the next event.
    pub fn process_event(&mut self, event: &Event) -> (delay_ms: u64)
        requires
            event.size_kb * 1024 <= usize::MAX,
        ensures
            delay_ms == event.delay_ms,
            is_rest(*event) ==> final(self)@ == old(self)@,
            !is_rest(*event) ==> final(self)@ == old(self)@.push(zero_buf(event_bytes(*event))),
    {
        if event.size_kb > 0 {
            let size_bytes: usize = event.size_kb * 1024;
            let buf = zero_buffer(size_bytes);
            self.retained.push(buf);
            proof {
                assert(self@ =~= old(self)@.push(zero_buf(event_bytes(*event))));
            }
        }
        event.delay_ms
    }

    /// Play `pattern` from start to end, `repetitions` times over: allocate
    /// and retain a zero-initialized buffer for every non-rest event, in
    /// event order, and retain nothing for rests. The caller performs the
    /// waiting between events; see [`Self::process_event`] for stepping
    /// through a pattern one delay at a time.
    pub fn run(&mut self, pattern: &Vec<Event>, repetitions: usize)
        requires
            forall|k: int|
                0 <= k < pattern@.len() ==> #[trigger] pattern@[k].size_kb * 1024 <= usize::MAX,
        ensures
            final(self)@ == old(self)@ + repeat_bufs(pattern@, repetitions as nat),
    {
        let ghost orig = self@;
        let mut rep: usize = 0;
        while rep < repetitions
            invariant
                rep <= repetitions,
                self@ == orig + repeat_bufs(pattern@, rep as nat),
                forall|k: int|
                    0 <= k < pattern@.len() ==> #[trigger] pattern@[k].size_kb * 1024
                        <= usize::MAX,
            decreases repetitions - rep,
        {
            let ghost pass_start = self@;
            let mut i: usize = 0;
            while i < pattern.len()
                invariant
                    i <= pattern@.len(),
                    self@ == pass_start + alloc_bufs(pattern@.subrange(0, i as int)),
                    forall|k: int|
                        0 <= k < pattern@.len() ==> #[trigger] pattern@[k].size_kb * 1024
                            <= usize::MAX,
                decreases pattern@.len() - i,
            {
                let event = pattern[i];
                let _delay_ms = self.process_event(&event);
                proof {
                    lemma_prefix_step(pattern@, i as int);
                    assert(pass_start + alloc_bufs(pattern@.subrange(0, i as int)).push(
                        zero_buf(event_bytes(event)),
                    ) =~= (pass_start + alloc_bufs(pattern@.subrange(0, i as int))).push(
                        zero_buf(event_bytes(event)),
                    ));
                }
                i = i + 1;
            }
            proof {
                assert(pattern@.subrange(0, pattern@.len() as int) =~= pattern@);
                assert(pass_start + alloc_bufs(pattern@) =~= orig + (repeat_bufs(
                    pattern@,
                    rep as nat,
                ) + alloc_bufs(pattern@)));
            }
            rep = rep + 1;
        }
    }

    /// The total number of bytes retained so far, or `None` when that sum
    /// does not fit in `usize`.
    pub fn retained_bytes(&self) -> (r: Option<usize>)
        ensures
            match r {
                Some(t) => t == total_len(self@),
                None => total_len(self@) > usize::MAX,
            },
    {
        let mut sum: usize = 0;
        let mut i: usize = 0;
        while i < self.retained.len()
            invariant
                i <= self@.len(),
                self@.len() == self.retained@.len(),
                sum == total_len(self@.subrange(0, i as int)),
            decreases self@.len() - i,
        {
            let buf_len: usize = self.retained[i].len();
            proof {
                assert(self@[i as int] == self.retained@[i as int]@);
                lemma_total_len_step(self@, i as int);
            }
            if sum > usize::MAX - buf_len {
                proof {
                    lemma_total_len_prefix_le(self@, i as int + 1);
                }
                return None;
            }
            sum = sum + buf_len;
            i = i + 1;
        }
        proof {
            assert(self@.subrange(0, self@.len() as int) =~= self@);
        }
        Some(sum)
    }

    /// The sizes, in bytes, of the retained buffers, oldest first.
    pub fn buffer_sizes(&self) -> (sizes: Vec<usize>)
        ensures
            sizes@.len() == self@.len(),
            forall|k: int| 0 <= k < sizes@.len() ==> sizes@[k] == self@[k].len(),
    {
        let mut sizes: Vec<usize> = Vec::new();
        let mut i: usize = 0;
        while i < self.retained.len()
            invariant
                i <= self@.len(),
                self@.len() == self.retained@.len(),
                sizes@.len() == i,
                forall|k: int| 0 <= k < i ==> sizes@[k] == self@[k].len(),
            decreases self@.len() - i,
        {
            sizes.push(self.retained[i].len());
            proof {
                assert(self@[i as int] == self.retained@[i as int]@);
            }
            i = i + 1;
        }
        sizes
    }

    /// The `i`-th retained buffer, oldest first.
    pub fn get_buffer(&self, i: usize) -> (buf: &Vec<u8>)
        requires
            i < self@.len(),
        ensures
            buf@ == self@[i as int],
    {
        proof {
            assert(self@[i as int] == self.retained@[i as int]@);
        }
        &self.retained[i]
    }
}

} // verus!
