use vstd::prelude::*;

verus! {

/// A tail of at most this many frames is merged into the chunk before it.
pub const MIN_CHUNK_SIZE: i64 = 44;

/// The largest window, in frames, that one chunk decodes.
pub const MAX_CHUNK_SIZE: i64 = 1024;

/// Number of audio samples that one latent frame decodes to.
pub const UPSAMPLE_RATIO: i64 = 256;

/// Bound on frame counts and paddings, so that every sample index fits in `i64`.
pub const MAX_FRAMES: i64 = 0x100_0000_0000;

/// One window of the latent sequence and the part of its decoded audio that is kept.
///
/// `mel_start..mel_end` indexes the frame axis (`None`: up to the last frame).
/// `sample_start..sample_end` indexes the chunk's decoded audio: `sample_end`,
/// zero or negative, counts back from the end of that audio, and `None` keeps
/// all of its tail.
#[derive(Clone, Copy, Debug, PartialEq, Eq, Structural)]
pub struct ChunkPlan {
    pub mel_start: i64,
    pub mel_end: Option<i64>,
    pub sample_start: i64,
    pub sample_end: Option<i64>,
}

/// End (exclusive) of the kept samples of a chunk that decoded to `decoded_len` samples.
pub open spec fn kept_sample_end(p: ChunkPlan, decoded_len: int) -> int {
    decoded_len + match p.sample_end {
        Some(t) => t as int,
        None => 0,
    }
}

impl ChunkPlan {
    /// The range of a chunk's `decoded_len` decoded samples that the plan
    /// keeps, or `None` where that range does not lie within them.
    pub fn sample_bounds(&self, decoded_len: usize) -> (r: Option<(usize, usize)>)
        ensures
            r is Some <==> 0 <= self.sample_start <= kept_sample_end(*self, decoded_len as int)
                <= decoded_len,
            r matches Some(b) ==> b.0 == self.sample_start && b.1 == kept_sample_end(
                *self,
                decoded_len as int,
            ),
    {
        let back: i128 = match self.sample_end {
            Some(t) => t as i128,
            None => 0,
        };
        let len = decoded_len as i128;
        let start = self.sample_start as i128;
        let end = len + back;
        if 0 <= start && start <= end && end <= len {
            Some((start as usize, end as usize))
        } else {
            None
        }
    }
}

/// Abstract state of the planner.
pub struct ChunkerState {
    pub num_frames: int,
    pub chunk_size: int,
    pub chunk_padding: int,
    pub last_end: Option<int>,
    pub step: int,
}

/// Stateful generator of the chunk plans that cover an utterance of `num_frames` frames.
pub struct AdaptiveMelChunker {
    num_frames: i64,
    chunk_size: i64,
    chunk_padding: i64,
    last_end_index: Option<i64>,
    step: i64,
}

impl View for AdaptiveMelChunker {
    type V = ChunkerState;

    closed spec fn view(&self) -> ChunkerState {
        ChunkerState {
            num_frames: self.num_frames as int,
            chunk_size: self.chunk_size as int,
            chunk_padding: self.chunk_padding as int,
            last_end: match self.last_end_index {
                Some(l) => Some(l as int),
                None => None,
            },
            step: self.step as int,
        }
    }
}

/// The parameters a planner accepts.
pub open spec fn valid_params(num_frames: int, chunk_size: int, chunk_padding: int) -> bool {
    &&& 0 <= num_frames <= MAX_FRAMES
    &&& 1 <= chunk_size <= MAX_FRAMES
    &&& 0 <= chunk_padding <= MAX_FRAMES
}

/// A reachable planner state.
pub open spec fn state_wf(s: ChunkerState) -> bool {
    &&& valid_params(s.num_frames, s.chunk_size, s.chunk_padding)
    &&& s.step >= 1
    &&& match s.last_end {
        None => true,
        Some(l) => (l == 0 && s.step == 1) || (0 < l < s.num_frames && s.step <= l + 1),
    }
}

/// The state of a fresh planner.
pub open spec fn initial_state(num_frames: int, chunk_size: int, chunk_padding: int) -> ChunkerState {
    ChunkerState { num_frames, chunk_size, chunk_padding, last_end: Some(0), step: 1 }
}

/// Window size at a given step: the base size times the step, capped.
pub open spec fn window_size(chunk_size: int, step: int) -> int {
    if chunk_size * step < MAX_CHUNK_SIZE {
        chunk_size * step
    } else {
        MAX_CHUNK_SIZE as int
    }
}

/// Tentative end of the window that starts after `last`.
pub open spec fn tentative_end(s: ChunkerState, last: int) -> int {
    last + window_size(s.chunk_size, s.step) + s.chunk_padding
}

/// Whether the window after `last` takes every remaining frame.
pub open spec fn is_terminal(s: ChunkerState, last: int) -> bool {
    s.num_frames - tentative_end(s, last) <= MIN_CHUNK_SIZE
}

/// The plan that the next call emits, `None` once the planner is exhausted.
pub open spec fn next_plan(s: ChunkerState) -> Option<ChunkPlan> {
    match s.last_end {
        None => None,
        Some(last) => {
            let first = last == 0;
            let pad = s.chunk_padding;
            let terminal = is_terminal(s, last);
            Some(
                ChunkPlan {
                    mel_start: (if first { 0 } else { last - 2 * pad }) as i64,
                    mel_end: if terminal { None } else { Some(tentative_end(s, last) as i64) },
                    sample_start: (if first { 0 } else { pad * UPSAMPLE_RATIO }) as i64,
                    sample_end: if terminal { None } else { Some((-pad * UPSAMPLE_RATIO) as i64) },
                },
            )
        },
    }
}

/// The state after the next call.
pub open spec fn next_state(s: ChunkerState) -> ChunkerState {
    match s.last_end {
        None => s,
        Some(last) => ChunkerState {
            last_end: if is_terminal(s, last) { None } else { Some(tentative_end(s, last)) },
            step: s.step + 1,
            ..s
        },
    }
}

/// Termination measure of the planner.
pub open spec fn measure(s: ChunkerState) -> int {
    match s.last_end {
        None => 0,
        Some(l) => s.num_frames - l + 1,
    }
}

proof fn lemma_window_bounds(chunk_size: int, step: int)
    requires
        chunk_size >= 1,
        step >= 1,
    ensures
        1 <= window_size(chunk_size, step) <= MAX_CHUNK_SIZE,
{
    assert(chunk_size * step >= 1) by (nonlinear_arith)
        requires
            chunk_size >= 1,
            step >= 1,
    ;
}

/// A step keeps the state reachable and brings the planner closer to its end.
pub proof fn lemma_next_state_wf(s: ChunkerState)
    requires
        state_wf(s),
    ensures
        state_wf(next_state(s)),
        s.last_end is Some ==> 0 <= measure(next_state(s)) < measure(s),
{
    if let Some(last) = s.last_end {
        lemma_window_bounds(s.chunk_size, s.step);
    }
}

/// All plans that a planner in state `s` still emits, in order.
pub open spec fn remaining_plans(s: ChunkerState) -> Seq<ChunkPlan>
    decreases measure(s),
    via remaining_plans_decreases
{
    if !state_wf(s) {
        Seq::empty()
    } else {
        match next_plan(s) {
            None => Seq::empty(),
            Some(p) => seq![p] + remaining_plans(next_state(s)),
        }
    }
}

#[via_fn]
proof fn remaining_plans_decreases(s: ChunkerState) {
    if state_wf(s) && s.last_end is Some {
        lemma_next_state_wf(s);
    }
}

/// First sample of the utterance's timeline that a chunk keeps.
pub open spec fn kept_start(p: ChunkPlan) -> int {
    p.mel_start * UPSAMPLE_RATIO + p.sample_start
}

/// End (exclusive) of the utterance's samples that a chunk keeps.
pub open spec fn kept_end(p: ChunkPlan, num_frames: int) -> int {
    (match p.mel_end {
        Some(e) => e as int,
        None => num_frames,
    }) * UPSAMPLE_RATIO + match p.sample_end {
        Some(t) => t as int,
        None => 0,
    }
}

/// Number of frames a chunk with a bounded window decodes.
pub open spec fn mel_len(p: ChunkPlan) -> int {
    match p.mel_end {
        Some(e) => e - p.mel_start,
        None => 0,
    }
}

/// Total number of samples that a sequence of chunks keeps.
pub open spec fn total_kept(plans: Seq<ChunkPlan>, num_frames: int) -> int
    decreases plans.len(),
{
    if plans.len() == 0 {
        0
    } else {
        kept_end(plans[0], num_frames) - kept_start(plans[0]) + total_kept(
            plans.drop_first(),
            num_frames,
        )
    }
}

/// The chunks keep consecutive, non-overlapping runs of samples that start
/// at frame `from` and end with the last frame; only the last chunk is open.
pub open spec fn tiles(plans: Seq<ChunkPlan>, num_frames: int, from: int) -> bool {
    &&& plans.len() >= 1
    &&& kept_start(plans[0]) == from * UPSAMPLE_RATIO
    &&& forall|i: int|
        0 <= i < plans.len() - 1 ==> (#[trigger] plans[i]).mel_end is Some && kept_end(
            plans[i],
            num_frames,
        ) == kept_start(plans[i + 1])
    &&& plans.last().mel_end is None
    &&& kept_end(plans.last(), num_frames) == num_frames * UPSAMPLE_RATIO
    &&& forall|i: int|
        0 <= i < plans.len() ==> kept_start(#[trigger] plans[i]) <= kept_end(plans[i], num_frames)
}

/// The frame from which a planner in state `s` still has to cover the utterance.
pub open spec fn resume_frame(s: ChunkerState) -> int {
    match s.last_end {
        Some(l) => if l == 0 {
            0
        } else {
            l - s.chunk_padding
        },
        None => s.num_frames,
    }
}

/// The plans still to come from a reachable state tile the rest of the utterance.
pub proof fn lemma_tiling_from(s: ChunkerState)
    requires
        state_wf(s),
        s.last_end is Some,
    ensures
        tiles(remaining_plans(s), s.num_frames, resume_frame(s)),
        total_kept(remaining_plans(s), s.num_frames) == (s.num_frames - resume_frame(s))
            * UPSAMPLE_RATIO,
    decreases measure(s),
{
    let n = s.num_frames;
    let last = s.last_end->0;
    let ns = next_state(s);
    lemma_next_state_wf(s);
    lemma_window_bounds(s.chunk_size, s.step);
    let p = next_plan(s)->0;
    let rest = remaining_plans(ns);
    let plans = remaining_plans(s);
    assert(plans == seq![p] + rest);
    if is_terminal(s, last) {
        assert(rest == Seq::<ChunkPlan>::empty());
        assert(plans.drop_first() =~= rest);
        assert(total_kept(rest, n) == 0);
    } else {
        lemma_tiling_from(ns);
        assert(plans.drop_first() =~= rest);
        assert forall|i: int| 0 <= i < plans.len() - 1 implies (#[trigger] plans[i]).mel_end is Some
            && kept_end(plans[i], n) == kept_start(plans[i + 1]) by {
            if i > 0 {
                assert(plans[i] == rest[i - 1]);
                assert(plans[i + 1] == rest[i]);
            }
        }
        assert forall|i: int| 0 <= i < plans.len() implies kept_start(#[trigger] plans[i])
            <= kept_end(plans[i], n) by {
            if i > 0 {
                assert(plans[i] == rest[i - 1]);
            }
        }
        assert(plans.last() == rest.last());
    }
}

/// Once the trimmed padding is removed, the chunks of a fresh planner cover
/// the samples of every frame of the utterance exactly once, in order: the
/// first starts at sample zero, each starts where the one before ended, and
/// the last, the only one with an open end, ends after the last frame.
pub proof fn lemma_plans_tile_utterance(num_frames: int, chunk_size: int, chunk_padding: int)
    requires
        valid_params(num_frames, chunk_size, chunk_padding),
    ensures
        tiles(
            remaining_plans(initial_state(num_frames, chunk_size, chunk_padding)),
            num_frames,
            0,
        ),
{
    lemma_tiling_from(initial_state(num_frames, chunk_size, chunk_padding));
}

/// The samples that the chunks keep add up to the length of a decode of the
/// whole utterance at once: streaming neither drops nor repeats audio.
pub proof fn lemma_streamed_length(num_frames: int, chunk_size: int, chunk_padding: int)
    requires
        valid_params(num_frames, chunk_size, chunk_padding),
    ensures
        total_kept(
            remaining_plans(initial_state(num_frames, chunk_size, chunk_padding)),
            num_frames,
        ) == num_frames * UPSAMPLE_RATIO,
{
    lemma_tiling_from(initial_state(num_frames, chunk_size, chunk_padding));
}

proof fn lemma_window_monotone(chunk_size: int, step: int)
    requires
        chunk_size >= 1,
        step >= 1,
    ensures
        window_size(chunk_size, step) <= window_size(chunk_size, step + 1),
{
    assert(chunk_size * step <= chunk_size * (step + 1)) by (nonlinear_arith)
        requires
            chunk_size >= 1,
    ;
}

/// Windows never shrink: each chunk but the last decodes at least as many
/// frames as the one before it, and never more than the capped window with
/// its padding.
pub open spec fn windows_grow(plans: Seq<ChunkPlan>, chunk_padding: int) -> bool {
    &&& forall|i: int|
        0 <= i && i + 2 < plans.len() ==> mel_len(#[trigger] plans[i]) <= mel_len(plans[i + 1])
    &&& forall|i: int|
        0 <= i && i + 1 < plans.len() ==> mel_len(#[trigger] plans[i]) <= MAX_CHUNK_SIZE + 3
            * chunk_padding
}

proof fn lemma_windows_from(s: ChunkerState)
    requires
        state_wf(s),
        s.last_end is Some,
    ensures
        windows_grow(remaining_plans(s), s.chunk_padding),
        remaining_plans(s).len() >= 2 ==> mel_len(remaining_plans(s)[0]) <= window_size(
            s.chunk_size,
            s.step,
        ) + 3 * s.chunk_padding,
        remaining_plans(s).len() >= 3 ==> window_size(s.chunk_size, s.step + 1) + 3 * s.chunk_padding
            == mel_len(remaining_plans(s)[1]),
    decreases measure(s),
{
    let last = s.last_end->0;
    let ns = next_state(s);
    lemma_next_state_wf(s);
    lemma_window_bounds(s.chunk_size, s.step);
    lemma_window_monotone(s.chunk_size, s.step);
    let p = next_plan(s)->0;
    let rest = remaining_plans(ns);
    let plans = remaining_plans(s);
    assert(plans == seq![p] + rest);
    if is_terminal(s, last) {
        assert(rest == Seq::<ChunkPlan>::empty());
    } else {
        lemma_tiling_from(ns);
        lemma_windows_from(ns);
        lemma_window_bounds(s.chunk_size, s.step + 1);
        lemma_window_monotone(s.chunk_size, s.step + 1);
        assert forall|i: int| 0 <= i && i + 2 < plans.len() implies mel_len(#[trigger] plans[i])
            <= mel_len(plans[i + 1]) by {
            if i > 0 {
                assert(plans[i] == rest[i - 1]);
                assert(plans[i + 1] == rest[i]);
            } else {
                assert(plans[1] == rest[0]);
            }
        }
        assert forall|i: int| 0 <= i && i + 1 < plans.len() implies mel_len(#[trigger] plans[i])
            <= MAX_CHUNK_SIZE + 3 * s.chunk_padding by {
            if i > 0 {
                assert(plans[i] == rest[i - 1]);
            }
        }
        if plans.len() >= 3 {
            assert(plans[1] == rest[0]);
        }
    }
}

/// Window sizes are non-decreasing along the stream and capped.
pub proof fn lemma_windows_grow(num_frames: int, chunk_size: int, chunk_padding: int)
    requires
        valid_params(num_frames, chunk_size, chunk_padding),
    ensures
        windows_grow(
            remaining_plans(initial_state(num_frames, chunk_size, chunk_padding)),
            chunk_padding,
        ),
{
    lemma_windows_from(initial_state(num_frames, chunk_size, chunk_padding));
}

impl AdaptiveMelChunker {
    pub open spec fn wf(&self) -> bool {
        state_wf(self@)
    }

    /// A planner over `num_frames` frames, base window `chunk_size` and
    /// `chunk_padding` frames of context on each side.
    pub fn new(num_frames: i64, chunk_size: i64, chunk_padding: i64) -> (r: Self)
        requires
            valid_params(num_frames as int, chunk_size as int, chunk_padding as int),
        ensures
            r.wf(),
            r@ == initial_state(num_frames as int, chunk_size as int, chunk_padding as int),
    {
        AdaptiveMelChunker {
            num_frames,
            chunk_size,
            chunk_padding,
            last_end_index: Some(0),
            step: 1,
        }
    }

    /// Marks the planner exhausted.
    pub fn consume(&mut self)
        requires
            old(self).wf(),
        ensures
            final(self).wf(),
            final(self)@ == (ChunkerState { last_end: None, ..old(self)@ }),
            next_plan(final(self)@) is None,
    {
        self.last_end_index = None;
    }

    /// Emits the next plan and advances, or returns `None` once exhausted.
    pub fn next(&mut self) -> (r: Option<ChunkPlan>)
        requires
            old(self).wf(),
        ensures
            final(self).wf(),
            r == next_plan(old(self)@),
            final(self)@ == next_state(old(self)@),
    {
        let last_index = match self.last_end_index {
            None => return None,
            Some(l) => l,
        };
        proof {
            lemma_window_bounds(self.chunk_size as int, self.step as int);
            lemma_next_state_wf(self@);
        }
        let chunk_size: i64 = if self.chunk_size >= MAX_CHUNK_SIZE || self.step >= MAX_CHUNK_SIZE {
            proof {
                let (c, s) = (self.chunk_size as int, self.step as int);
                assert(c * s >= MAX_CHUNK_SIZE) by (nonlinear_arith)
                    requires
                        c >= 1,
                        s >= 1,
                        c >= MAX_CHUNK_SIZE || s >= MAX_CHUNK_SIZE,
                ;
            }
            MAX_CHUNK_SIZE
        } else {
            proof {
                let (c, s) = (self.chunk_size as int, self.step as int);
                assert(c * s < MAX_CHUNK_SIZE * MAX_CHUNK_SIZE) by (nonlinear_arith)
                    requires
                        1 <= c < MAX_CHUNK_SIZE,
                        1 <= s < MAX_CHUNK_SIZE,
                ;
            }
            let product = self.chunk_size * self.step;
            if product < MAX_CHUNK_SIZE {
                product
            } else {
                MAX_CHUNK_SIZE
            }
        };
        let pad = self.chunk_padding;
        let (start_index, start_padding): (i64, i64) = if last_index == 0 {
            (0, 0)
        } else {
            (last_index - pad * 2, pad)
        };
        let chunk_end = last_index + chunk_size + pad;
        let (end_index, end_padding): (Option<i64>, Option<i64>) =
            if self.num_frames - chunk_end <= MIN_CHUNK_SIZE {
            (None, None)
        } else {
            (Some(chunk_end), Some(-pad))
        };
        self.step = self.step + 1;
        self.last_end_index = end_index;
        let sample_end = match end_padding {
            Some(p) => Some(p * UPSAMPLE_RATIO),
            None => None,
        };
        Some(
            ChunkPlan {
                mel_start: start_index,
                mel_end: end_index,
                sample_start: start_padding * UPSAMPLE_RATIO,
                sample_end,
            },
        )
    }
}

} // verus!
