use piper_vits::chunker::{AdaptiveMelChunker, ChunkPlan, MAX_CHUNK_SIZE};
use piper_vits::stream::{DecodeStep, StreamPlanner};

fn all_plans(num_frames: i64, chunk_size: i64, chunk_padding: i64) -> Vec<ChunkPlan> {
    let mut chunker = AdaptiveMelChunker::new(num_frames, chunk_size, chunk_padding);
    let mut plans = Vec::new();
    while let Some(p) = chunker.next() {
        plans.push(p);
    }
    plans
}

fn all_steps(num_frames: i64, chunk_size: i64, chunk_padding: i64) -> Vec<DecodeStep> {
    let mut stream = StreamPlanner::new(num_frames, chunk_size, chunk_padding);
    let mut steps = Vec::new();
    while let Some(s) = stream.next() {
        steps.push(s);
    }
    steps
}

fn kept(p: &ChunkPlan, num_frames: i64) -> (i64, i64) {
    let start = p.mel_start * 256 + p.sample_start;
    let end = p.mel_end.unwrap_or(num_frames) * 256 + p.sample_end.unwrap_or(0);
    (start, end)
}

#[test]
fn short_utterance_is_one_shot() {
    let stream = StreamPlanner::new(80, 44, 2);
    assert!(stream.is_one_shot());
    assert_eq!(all_steps(80, 44, 2), vec![DecodeStep::Whole]);
    // 2 * 44 + 2 * 2 = 92 frames is the threshold itself
    assert_eq!(all_steps(92, 44, 2), vec![DecodeStep::Whole]);
    assert!(!StreamPlanner::new(93, 44, 2).is_one_shot());
}

#[test]
fn hundred_frames_are_chunked() {
    assert!(!StreamPlanner::new(100, 44, 2).is_one_shot());
    let steps = all_steps(100, 44, 2);
    assert!(steps.iter().all(|s| matches!(s, DecodeStep::Chunk(_))));
    // first window 44 + 2 frames leaves 54, more than the merge threshold
    assert_eq!(
        steps[0],
        DecodeStep::Chunk(ChunkPlan { mel_start: 0, mel_end: Some(46), sample_start: 0, sample_end: Some(-512) })
    );
    assert_eq!(
        steps[1],
        DecodeStep::Chunk(ChunkPlan { mel_start: 42, mel_end: None, sample_start: 512, sample_end: None })
    );
    assert_eq!(steps.len(), 2);
}

#[test]
fn long_utterance_windows_grow_to_cap() {
    let plans = all_plans(2000, 44, 8);
    assert!(plans.len() > 1);
    assert_eq!(plans[0], ChunkPlan { mel_start: 0, mel_end: Some(52), sample_start: 0, sample_end: Some(-2048) });
    assert_eq!(plans[1], ChunkPlan { mel_start: 36, mel_end: Some(148), sample_start: 2048, sample_end: Some(-2048) });
    let last = plans.last().unwrap();
    assert_eq!(last.mel_end, None);
    assert_eq!(last.sample_end, None);
    let lens: Vec<i64> = plans[..plans.len() - 1].iter().map(|p| p.mel_end.unwrap() - p.mel_start).collect();
    for w in lens.windows(2) {
        assert!(w[0] <= w[1]);
    }
    assert!(lens.iter().all(|l| *l <= MAX_CHUNK_SIZE + 3 * 8));
    assert!(plans[..plans.len() - 1].iter().all(|p| p.mel_end.is_some()));
}

#[test]
fn kept_samples_tile_the_utterance() {
    for (n, s, p) in [(2000, 44, 8), (100, 44, 2), (5000, 10, 3), (45, 1, 0), (0, 44, 2), (3000, 2000, 5)] {
        let plans = all_plans(n, s, p);
        let mut at = 0;
        for plan in &plans {
            let (start, end) = kept(plan, n);
            assert_eq!(start, at);
            assert!(start <= end);
            at = end;
        }
        assert_eq!(at, n * 256);
    }
}

#[test]
fn window_capped_at_max() {
    let plans = all_plans(100_000, 600, 0);
    assert_eq!(plans[0].mel_end, Some(600));
    // second window would be 1200 frames and is capped
    assert_eq!(plans[1], ChunkPlan { mel_start: 600, mel_end: Some(1624), sample_start: 0, sample_end: Some(0) });
}

#[test]
fn consumed_planner_is_exhausted() {
    let mut chunker = AdaptiveMelChunker::new(2000, 44, 8);
    assert!(chunker.next().is_some());
    chunker.consume();
    assert_eq!(chunker.next(), None);
}

#[test]
fn tail_is_merged_into_last_chunk() {
    // the first window leaves exactly 44 frames: they join it
    let plans = all_plans(90, 44, 2);
    assert_eq!(plans, vec![ChunkPlan { mel_start: 0, mel_end: None, sample_start: 0, sample_end: None }]);
}

#[test]
fn sample_bounds_trim_padding() {
    let plan = ChunkPlan { mel_start: 36, mel_end: Some(148), sample_start: 2048, sample_end: Some(-2048) };
    assert_eq!(plan.sample_bounds(112 * 256), Some((2048, 112 * 256 - 2048)));
    assert_eq!(plan.sample_bounds(3000), None);
    let last = ChunkPlan { mel_start: 42, mel_end: None, sample_start: 512, sample_end: None };
    assert_eq!(last.sample_bounds(58 * 256), Some((512, 58 * 256)));
    let first = ChunkPlan { mel_start: 0, mel_end: Some(600), sample_start: 0, sample_end: Some(0) };
    assert_eq!(first.sample_bounds(600 * 256), Some((0, 600 * 256)));
}
