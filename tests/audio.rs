use podcast_summarize::audio::{
    chunk_sample_budget, progress_position, resample_plan, thread_count, Tap,
};

#[test]
fn resample_same_rate() {
    let plan = resample_plan(3, 44100, 44100);
    assert_eq!(
        plan,
        vec![Tap::Hold { idx: 0 }, Tap::Hold { idx: 1 }, Tap::Hold { idx: 2 }]
    );
}

#[test]
fn resample_empty() {
    let plan = resample_plan(0, 44100, 16000);
    assert!(plan.is_empty());
}

#[test]
fn resample_downsample_length() {
    let plan = resample_plan(44100, 44100, 16000);
    let expected_len = (44100.0_f64 * 16000.0 / 44100.0).ceil() as usize;
    assert_eq!(plan.len(), expected_len);
}

#[test]
fn resample_upsample_interpolation() {
    let plan = resample_plan(2, 1, 2);
    assert!(plan.len() >= 3);
    assert_eq!(plan[0], Tap::Hold { idx: 0 });
}

#[test]
fn resample_upsample_taps() {
    // Two samples at rate 1 to rate 2: positions 0, 0.5, 1, 1.5.
    let plan = resample_plan(2, 1, 2);
    assert_eq!(
        plan,
        vec![
            Tap::Hold { idx: 0 },
            Tap::Interpolate { idx: 0, num: 1, den: 2 },
            Tap::Hold { idx: 1 },
            Tap::Hold { idx: 1 },
        ]
    );
}

#[test]
fn resample_length_rounds_up() {
    assert_eq!(resample_plan(10, 3, 2).len(), 7);
    assert_eq!(resample_plan(5, 48000, 16000).len(), 2);
    assert_eq!(resample_plan(7, 44100, 0).len(), 0);
    let plan = resample_plan(5, 48000, 16000);
    assert_eq!(plan, vec![Tap::Hold { idx: 0 }, Tap::Hold { idx: 3 }]);
}

#[test]
fn chunk_budget_saturates() {
    assert_eq!(chunk_sample_budget(30, 44100, 2), 2_646_000);
    assert_eq!(chunk_sample_budget(30, 44100, 0), 0);
    assert_eq!(chunk_sample_budget(u32::MAX, u32::MAX, usize::MAX), usize::MAX);
}

#[test]
fn thread_share() {
    assert_eq!(thread_count(8, 80), 6);
    assert_eq!(thread_count(8, 0), 1);
    assert_eq!(thread_count(8, 250), 8);
    assert_eq!(thread_count(1, 50), 1);
}

#[test]
fn progress_never_negative() {
    assert_eq!(progress_position(-1), 0);
    assert_eq!(progress_position(42), 42);
}
