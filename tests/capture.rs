use gif_capture::assemble::{assemble_gif, frame_delay_cs, rgba_to_rgb, AssemblyError};
use gif_capture::input::{plan_input_commands, Direction, InputCommand};
use gif_capture::keys::Key;
use gif_capture::schedule::{collect_frames, plan_frame_captures, CaptureError, CapturedFrame, FrameTask, PixelBuffer};
use gif_capture::sequence::InputAction;
use gif_capture::session::{next_search_state, settle_capture, SearchState, MAX_SEARCH_ATTEMPTS};
use gif_capture::timing::{capture_timing, CaptureTiming, TimingError};

fn solid(width: u32, height: u32, value: u8) -> PixelBuffer {
    PixelBuffer { width, height, rgba: vec![value; (width * height * 4) as usize] }
}

#[test]
fn timing_is_ceiling_of_count_and_rounded_delay() {
    assert_eq!(
        capture_timing(10_000, 3_000),
        Ok(CaptureTiming { frame_count: 30, frame_delay_ms: 100 })
    );
    // 15 fps for 1.01 s: 15.15 frames, 66.67 ms.
    assert_eq!(
        capture_timing(15_000, 1_010),
        Ok(CaptureTiming { frame_count: 16, frame_delay_ms: 67 })
    );
    // 16 fps: 62.5 ms rounds up.
    assert_eq!(
        capture_timing(16_000, 1_000),
        Ok(CaptureTiming { frame_count: 16, frame_delay_ms: 63 })
    );
}

#[test]
fn timing_rejects_what_gives_no_capture() {
    assert_eq!(capture_timing(0, 1_000), Err(TimingError::InvalidRate));
    assert_eq!(capture_timing(10_000, 0), Err(TimingError::NoFrames));
    assert_eq!(capture_timing(u64::MAX, u64::MAX), Err(TimingError::TooManyFrames));
}

#[test]
fn tasks_use_absolute_offsets() {
    let tasks = plan_frame_captures(4, 100);
    assert_eq!(
        tasks,
        vec![
            FrameTask { index: 1, offset_ms: 100 },
            FrameTask { index: 2, offset_ms: 200 },
            FrameTask { index: 3, offset_ms: 300 },
        ]
    );
    assert!(plan_frame_captures(1, 100).is_empty());
    assert!(plan_frame_captures(0, 100).is_empty());
}

#[test]
fn out_of_order_results_come_out_sorted() {
    let results = vec![
        (3, Some(solid(1, 1, 3))),
        (1, Some(solid(1, 1, 1))),
        (2, Some(solid(1, 1, 2))),
    ];
    let frames = collect_frames(4, solid(1, 1, 0), results).unwrap();
    let indices: Vec<u32> = frames.iter().map(|f| f.index).collect();
    assert_eq!(indices, vec![0, 1, 2, 3]);
    for f in &frames {
        assert_eq!(f.pixels.rgba[0] as u32, f.index);
    }
}

#[test]
fn single_frame_stream() {
    let frames = collect_frames(1, solid(2, 1, 9), vec![]).unwrap();
    assert_eq!(frames.len(), 1);
    assert_eq!(frames[0].index, 0);
}

#[test]
fn one_failed_capture_fails_the_stream() {
    let results = vec![(1, Some(solid(1, 1, 1))), (2, None), (3, None)];
    let r = collect_frames(4, solid(1, 1, 0), results);
    assert!(matches!(r, Err(CaptureError::FrameCaptureFailed { index: 2 })));
}

#[test]
fn duplicate_or_missing_frames_are_incomplete() {
    let dup = vec![(1, Some(solid(1, 1, 1))), (1, Some(solid(1, 1, 1)))];
    assert!(matches!(collect_frames(3, solid(1, 1, 0), dup), Err(CaptureError::IncompleteFrames)));
    let short = vec![(1, Some(solid(1, 1, 1)))];
    assert!(matches!(collect_frames(3, solid(1, 1, 0), short), Err(CaptureError::IncompleteFrames)));
    let out_of_range = vec![(0, Some(solid(1, 1, 1)))];
    assert!(matches!(collect_frames(2, solid(1, 1, 0), out_of_range), Err(CaptureError::IncompleteFrames)));
}

#[test]
fn input_failure_during_capture_keeps_frames() {
    let frames = collect_frames(2, solid(1, 1, 0), vec![(1, Some(solid(1, 1, 1)))]);
    let settled = settle_capture(frames, false).unwrap();
    assert_eq!(settled.len(), 2);
    assert_eq!(settled[1].index, 1);
}

#[test]
fn actions_become_commands() {
    let actions = vec![
        InputAction::Press { key: Key::Unicode('x'), duration_ms: Some(500) },
        InputAction::Wait { duration_ms: 1000 },
        InputAction::Press { key: Key::Return, duration_ms: None },
        InputAction::KeyDown { key: Key::Shift },
        InputAction::KeyUp { key: Key::Shift },
    ];
    assert_eq!(
        plan_input_commands(&actions),
        vec![
            InputCommand::Key { key: Key::Unicode('x'), direction: Direction::Press },
            InputCommand::Sleep { duration_ms: 500 },
            InputCommand::Key { key: Key::Unicode('x'), direction: Direction::Release },
            InputCommand::Sleep { duration_ms: 1000 },
            InputCommand::Key { key: Key::Return, direction: Direction::Click },
            InputCommand::Key { key: Key::Shift, direction: Direction::Press },
            InputCommand::Key { key: Key::Shift, direction: Direction::Release },
        ]
    );
    assert!(plan_input_commands(&vec![]).is_empty());
}

#[test]
fn window_search_is_bounded() {
    assert_eq!(next_search_state(1, true, true), SearchState::Cancelled);
    assert_eq!(next_search_state(1, false, true), SearchState::Found);
    assert_eq!(next_search_state(1, false, false), SearchState::Searching { attempt: 2 });
    assert_eq!(next_search_state(MAX_SEARCH_ATTEMPTS, false, false), SearchState::Exhausted);
}

#[test]
fn alpha_is_dropped() {
    assert_eq!(rgba_to_rgb(&vec![1, 2, 3, 4, 5, 6, 7, 8]), vec![1, 2, 3, 5, 6, 7]);
}

#[test]
fn delay_is_in_hundredths() {
    assert_eq!(frame_delay_cs(100), 10);
    assert_eq!(frame_delay_cs(67), 6);
    assert_eq!(frame_delay_cs(9), 0);
    assert_eq!(frame_delay_cs(655_349), 65_534);
    assert_eq!(frame_delay_cs(655_360), 65_535);
    assert_eq!(frame_delay_cs(u64::MAX), 65_535);
}

fn two_frames() -> Vec<CapturedFrame> {
    vec![
        CapturedFrame { index: 0, pixels: solid(2, 2, 10) },
        CapturedFrame { index: 1, pixels: solid(2, 2, 200) },
    ]
}

#[test]
fn assembly_is_deterministic() {
    let a = assemble_gif(&two_frames(), 100).unwrap();
    let b = assemble_gif(&two_frames(), 100).unwrap();
    assert_eq!(a, b);
    assert_eq!(&a[0..6], b"GIF89a");
    assert_eq!(a[6..8], [2, 0]);
    assert_eq!(*a.last().unwrap(), 0x3b);
    // the looping extension is present
    assert!(a.windows(11).any(|w| w == b"NETSCAPE2.0"));
}

#[test]
fn assembly_rejects_bad_frames() {
    assert_eq!(assemble_gif(&vec![], 100), Err(AssemblyError::NoFrames));
    let mut frames = two_frames();
    frames[1].pixels = solid(3, 2, 0);
    assert_eq!(assemble_gif(&frames, 100), Err(AssemblyError::FrameSize));
    let mut short = two_frames();
    short[0].pixels.rgba.pop();
    assert_eq!(assemble_gif(&short, 100), Err(AssemblyError::FrameSize));
}
