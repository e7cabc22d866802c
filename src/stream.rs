use vstd::prelude::*;
use crate::chunker::{
    initial_state, is_terminal, lemma_tiling_from, next_plan, next_state, remaining_plans,
    state_wf, valid_params, window_size, AdaptiveMelChunker, ChunkPlan, ChunkerState,
    MIN_CHUNK_SIZE,
};

verus! {

/// One decoder invocation of a stream.
#[derive(Clone, Copy, Debug, PartialEq, Eq, Structural)]
pub enum DecodeStep {
    /// Decode the whole utterance at once.
    Whole,
    /// Decode one window and keep the part that the plan names.
    Chunk(ChunkPlan),
}

/// Whether an utterance is short enough to be decoded in one call.
pub open spec fn spec_one_shot(num_frames: int, chunk_size: int, chunk_padding: int) -> bool {
    num_frames <= 2 * chunk_size + 2 * chunk_padding
}

/// The decoder invocations still to come.
pub open spec fn remaining_steps(c: ChunkerState, one_shot: bool) -> Seq<DecodeStep> {
    if one_shot {
        match next_plan(c) {
            None => Seq::empty(),
            Some(_) => seq![DecodeStep::Whole],
        }
    } else {
        remaining_plans(c).map_values(|p: ChunkPlan| DecodeStep::Chunk(p))
    }
}

/// Decides, step by step, which decoder call a chunked stream makes next.
pub struct StreamPlanner {
    mel_chunker: AdaptiveMelChunker,
    one_shot: bool,
}

impl StreamPlanner {
    pub closed spec fn wf(&self) -> bool {
        state_wf(self.mel_chunker@)
    }

    pub closed spec fn chunker_state(&self) -> ChunkerState {
        self.mel_chunker@
    }

    pub closed spec fn spec_is_one_shot(&self) -> bool {
        self.one_shot
    }

    /// The decoder calls that this stream still makes, in order.
    pub open spec fn steps(&self) -> Seq<DecodeStep> {
        remaining_steps(self.chunker_state(), self.spec_is_one_shot())
    }

    /// A stream over `num_frames` latent frames.
    pub fn new(num_frames: i64, chunk_size: i64, chunk_padding: i64) -> (r: Self)
        requires
            valid_params(num_frames as int, chunk_size as int, chunk_padding as int),
        ensures
            r.wf(),
            r.chunker_state() == initial_state(
                num_frames as int,
                chunk_size as int,
                chunk_padding as int,
            ),
            r.spec_is_one_shot() == spec_one_shot(
                num_frames as int,
                chunk_size as int,
                chunk_padding as int,
            ),
    {
        let mel_chunker = AdaptiveMelChunker::new(num_frames, chunk_size, chunk_padding);
        let one_shot = num_frames <= chunk_size * 2 + chunk_padding * 2;
        StreamPlanner { mel_chunker, one_shot }
    }

    /// Whether the whole utterance is decoded in one call.
    pub fn is_one_shot(&self) -> (r: bool)
        ensures
            r == self.spec_is_one_shot(),
    {
        self.one_shot
    }

    /// The next decoder call, or `None` once the stream is over.
    pub fn next(&mut self) -> (r: Option<DecodeStep>)
        requires
            old(self).wf(),
        ensures
            final(self).wf(),
            final(self).spec_is_one_shot() == old(self).spec_is_one_shot(),
            r is None <==> old(self).steps().len() == 0,
            r is None ==> final(self).steps() == old(self).steps(),
            r matches Some(step) ==> old(self).steps() == seq![step] + final(self).steps(),
    {
        let ghost c = self.mel_chunker@;
        let plan = match self.mel_chunker.next() {
            None => return None,
            Some(p) => p,
        };
        proof {
            assert(remaining_plans(c) == seq![plan] + remaining_plans(next_state(c)));
        }
        if self.one_shot {
            self.mel_chunker.consume();
            proof {
                assert(self.steps() == Seq::<DecodeStep>::empty());
                assert(old(self).steps() =~= seq![DecodeStep::Whole] + self.steps());
            }
            Some(DecodeStep::Whole)
        } else {
            proof {
                assert(old(self).steps() =~= seq![DecodeStep::Chunk(plan)] + self.steps());
            }
            Some(DecodeStep::Chunk(plan))
        }
    }
}

/// A short utterance is decoded by exactly one call over the whole of it; a
/// longer one, whose first window leaves more than the merge threshold behind,
/// is decoded chunk by chunk in more than one call.
pub proof fn lemma_decoder_calls(num_frames: int, chunk_size: int, chunk_padding: int)
    requires
        valid_params(num_frames, chunk_size, chunk_padding),
    ensures
        spec_one_shot(num_frames, chunk_size, chunk_padding) ==> remaining_steps(
            initial_state(num_frames, chunk_size, chunk_padding),
            true,
        ) == seq![DecodeStep::Whole],
        !spec_one_shot(num_frames, chunk_size, chunk_padding) && num_frames > window_size(
            chunk_size,
            1,
        ) + chunk_padding + MIN_CHUNK_SIZE ==> {
            let steps = remaining_steps(
                initial_state(num_frames, chunk_size, chunk_padding),
                false,
            );
            &&& steps.len() >= 2
            &&& forall|i: int| 0 <= i < steps.len() ==> #[trigger] steps[i] is Chunk
        },
{
    let s = initial_state(num_frames, chunk_size, chunk_padding);
    let plans = remaining_plans(s);
    let ns = next_state(s);
    assert(state_wf(s));
    assert(plans == seq![next_plan(s)->0] + remaining_plans(ns));
    if !spec_one_shot(num_frames, chunk_size, chunk_padding) && num_frames > window_size(
        chunk_size,
        1,
    ) + chunk_padding + MIN_CHUNK_SIZE {
        assert(!is_terminal(s, 0));
        crate::chunker::lemma_next_state_wf(s);
        lemma_tiling_from(ns);
    }
}

} // verus!
