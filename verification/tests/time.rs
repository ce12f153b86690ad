use wasmgame::time::{FrameAction, FrameLoop, Framerate, LoopHandler, FRAMERATE_WINDOW};

#[test]
fn framerate_window_starts_full_of_the_start_value() {
    let f: Framerate<u64> = Framerate::new(0);
    assert_eq!(f.first(), 0);
    assert_eq!(f.last(), 0);
}

#[test]
fn framerate_window_holds_the_last_records() {
    let mut f: Framerate<u64> = Framerate::new(0);
    f.record_timestamp(5);
    assert_eq!(f.first(), 0);
    assert_eq!(f.last(), 5);
    for t in 1..=(FRAMERATE_WINDOW as u64 + 10) {
        f.record_timestamp(t * 16);
    }
    assert_eq!(f.last(), (FRAMERATE_WINDOW as u64 + 10) * 16);
    assert_eq!(f.first(), 11 * 16);
}

#[test]
fn frame_loop_counts_only_frames_drawn_without_error() {
    let mut l: FrameLoop<u64> = FrameLoop::new(0);
    assert_eq!(l.on_frame(false), FrameAction::Draw);
    l.on_drawn(100, true);
    assert_eq!(l.span(), (0, 100));
    assert_eq!(l.on_frame(false), FrameAction::Draw);
    l.on_drawn(200, false);
    assert_eq!(l.span(), (0, 100));
    assert_eq!(l.on_frame(true), FrameAction::Stop);
}

struct Never;
impl LoopHandler for Never {}

#[test]
fn loop_handler_is_not_done_by_default() {
    assert!(!Never.done());
}
