//! The audio sampler: an infinite, pull-based sample source bound to
//! one compiled expression, reinterpreted as a function of elapsed
//! time, together with the model of one entry's playback session.
use vstd::prelude::*;

use crate::expr::CompiledExpr;
use crate::expr::ExprModel;

verus! {

/// Samples per second of generated signal time.
pub const SAMPLE_RATE: u32 = 48000;

/// One more than the largest sample index: the width the running
/// sample count wraps at.
pub open spec fn index_width() -> nat {
    usize::MAX as nat + 1
}

/// The sample index a fresh sampler holds after `k` pulls.
pub open spec fn index_after_pulls(k: nat) -> nat {
    k % index_width()
}

/// An infinite audio source: each pull advances a wrapping sample
/// index; the sample emitted for index `i` is the bound expression
/// evaluated at the time `i / SAMPLE_RATE`.
pub struct Math {
    func: CompiledExpr,
    x: usize,
}

impl Math {
    /// The running sample index.
    pub closed spec fn index(&self) -> nat {
        self.x as nat
    }

    /// The model of the bound expression.
    pub closed spec fn expr_model(&self) -> ExprModel {
        self.func@
    }

    pub closed spec fn wf(&self) -> bool {
        self.func.wf()
    }

    /// Bind a sampler to one compiled expression; the index starts at
    /// zero.
    pub fn new(func: CompiledExpr) -> (r: Self)
        ensures
            r.index() == 0,
            r.expr_model() == func@,
            func.wf() ==> r.wf(),
    {
        Math { func, x: 0 }
    }

    /// The expression the sampler is bound to, for the evaluating
    /// caller to walk.
    pub fn expr(&self) -> (r: &CompiledExpr)
        ensures
            r@ == self.expr_model(),
            r.wf() == self.wf(),
    {
        &self.func
    }

    /// Advance to the next sample and return its index: the emitted
    /// sample is the expression at time `index / SAMPLE_RATE`. The
    /// index wraps on overflow rather than failing.
    pub fn next_index(&mut self) -> (i: usize)
        ensures
            final(self).index() == (old(self).index() + 1) % index_width(),
            i as nat == final(self).index(),
            final(self).expr_model() == old(self).expr_model(),
            final(self).wf() == old(self).wf(),
    {
        proof {
            if old(self).x == usize::MAX {
                vstd::arithmetic::div_mod::lemma_mod_self_0(index_width() as int);
            } else {
                vstd::arithmetic::div_mod::lemma_small_mod(
                    (old(self).x + 1) as nat,
                    index_width(),
                );
            }
        }
        self.x = self.x.wrapping_add(1);
        self.x
    }

    /// The signal is generated, not decoded: the current frame has no
    /// known length.
    pub fn current_frame_len(&self) -> (r: Option<usize>)
        ensures
            r is None,
    {
        None
    }

    /// A single (mono) channel.
    pub fn channels(&self) -> (r: u16)
        ensures
            r == 1,
    {
        1
    }

    pub fn sample_rate(&self) -> (r: u32)
        ensures
            r == SAMPLE_RATE,
    {
        SAMPLE_RATE
    }

    /// The source is infinite: it has no total duration (in seconds or
    /// any other unit).
    pub fn total_duration(&self) -> (r: Option<u64>)
        ensures
            r is None,
    {
        None
    }

    /// Seeking repositions the phase of a periodic signal, which is
    /// defined to have no effect here: it always succeeds and never
    /// moves the sample index, so the next sample is what it would
    /// have been anyway.
    pub fn try_seek(&mut self, pos_millis: u64) -> (r: Result<(), ()>)
        ensures
            r is Ok,
            *final(self) == *old(self),
    {
        let _ = pos_millis;
        Ok(())
    }
}

/// The wrap step of `next_index` keeps the running count congruent to
/// the number of pulls: a sampler whose index is `index_after_pulls(k)`
/// holds `index_after_pulls(k + 1)` after one more pull, so after `k`
/// pulls from fresh the index is `k` modulo the index width, and
/// seeking (which never moves the index) cannot disturb the count.
pub proof fn lemma_index_counts_pulls(k: nat)
    ensures
        (index_after_pulls(k) + 1) % index_width() == index_after_pulls(k + 1),
{
    broadcast use vstd::arithmetic::div_mod::lemma_add_mod_noop;

    assert(0 < index_width());
    vstd::arithmetic::div_mod::lemma_small_mod(1nat, index_width());
    assert(((k % index_width()) + (1nat % index_width())) % index_width() == (k + 1)
        % index_width());
}

/// The model of one entry's audio session: the queued signal sources,
/// in order, and whether playback is paused. A fresh session is empty
/// and playing, replacement work empties the queue, and the
/// collection-wide listen flag drives `play` and `pause`.
pub struct Sink {
    queue: Vec<Math>,
    pause_flag: bool,
}

impl Sink {
    /// The queued sources, oldest first.
    pub closed spec fn queued(&self) -> Seq<Math> {
        self.queue@
    }

    /// Whether playback is paused.
    pub closed spec fn paused(&self) -> bool {
        self.pause_flag
    }

    /// A fresh session: nothing queued, playing.
    pub fn new() -> (r: Self)
        ensures
            r.queued().len() == 0,
            !r.paused(),
    {
        Sink { queue: Vec::new(), pause_flag: false }
    }

    pub fn empty(&self) -> (r: bool)
        ensures
            r == (self.queued().len() == 0),
    {
        self.queue.len() == 0
    }

    pub fn len(&self) -> (r: usize)
        ensures
            r == self.queued().len(),
    {
        self.queue.len()
    }

    pub fn is_paused(&self) -> (r: bool)
        ensures
            r == self.paused(),
    {
        self.pause_flag
    }

    /// Discard everything queued; clearing also pauses playback.
    pub fn clear(&mut self)
        ensures
            final(self).queued().len() == 0,
            final(self).paused(),
    {
        self.queue = Vec::new();
        self.pause_flag = true;
    }

    pub fn play(&mut self)
        ensures
            final(self).queued() == old(self).queued(),
            !final(self).paused(),
    {
        self.pause_flag = false;
    }

    pub fn pause(&mut self)
        ensures
            final(self).queued() == old(self).queued(),
            final(self).paused(),
    {
        self.pause_flag = true;
    }

    /// Queue one more source after the ones already queued.
    pub fn append(&mut self, source: Math)
        ensures
            final(self).queued() == old(self).queued().push(source),
            final(self).paused() == old(self).paused(),
    {
        self.queue.push(source);
    }

    /// The queued source at `i`, for the playback loop to sample.
    pub fn source_at(&self, i: usize) -> (r: &Math)
        requires
            i < self.queued().len(),
        ensures
            *r == self.queued()[i as int],
    {
        &self.queue[i]
    }
}

} // verus!
