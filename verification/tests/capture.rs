use sharew::capture::{
    copy_pixels, BufferRequest, Capture, CaptureEvent, ABGR8888, XBGR8888, XRGB8888,
};

fn offer(format: Option<u32>) -> CaptureEvent {
    CaptureEvent::Buffer { format, width: 2, height: 2, stride: 12 }
}

#[test]
fn a_copy_starts_empty() {
    let c = Capture::reset();
    assert_eq!((c.width, c.height, c.stride, c.format), (0, 0, 0, XRGB8888));
    assert!(c.data.is_empty());
    assert!(!c.chosen && !c.done && !c.failed);
    assert!(c.waiting());
}

#[test]
fn the_first_offer_is_taken_up() {
    let mut c = Capture::reset();
    let want = BufferRequest { len: 24, width: 2, height: 2, stride: 12, format: XBGR8888 };
    assert_eq!(c.event(offer(Some(XBGR8888))), Some(want));
    assert_eq!(c.event(CaptureEvent::Attached), None);
    assert_eq!(c.event(offer(Some(XRGB8888))), None);
    let huge = CaptureEvent::Buffer {
        format: None,
        width: u32::MAX,
        height: u32::MAX,
        stride: u32::MAX,
    };
    assert_eq!(c.event(huge), None);
    assert_eq!(c.format, XBGR8888);
    assert_eq!((c.width, c.height, c.stride), (2, 2, 12));
    assert!(c.waiting());
}

#[test]
fn an_unknown_format_counts_as_the_common_one() {
    let mut c = Capture::reset();
    c.event(offer(None));
    assert_eq!(c.format, XRGB8888);
}

#[test]
fn a_copy_ends_when_it_is_ready_or_has_failed() {
    let mut c = Capture::reset();
    c.event(offer(None));
    c.event(CaptureEvent::Attached);
    c.event(CaptureEvent::Other);
    assert!(c.waiting());
    c.event(CaptureEvent::Ready { canvas: Some(vec![1, 2, 3]) });
    assert!(c.done && !c.failed && !c.waiting());
    assert_eq!(c.data, [1, 2, 3]);

    let mut c = Capture::reset();
    c.event(offer(None));
    c.event(CaptureEvent::Unavailable);
    assert!(c.failed && !c.done && !c.waiting());

    let mut c = Capture::reset();
    c.event(CaptureEvent::Failed);
    assert!(c.failed && !c.waiting());

    let mut c = Capture::reset();
    c.event(CaptureEvent::Ready { canvas: Some(vec![9]) });
    assert!(c.done && c.data.is_empty());
    let mut c = Capture::reset();
    c.event(CaptureEvent::Attached);
    c.event(CaptureEvent::Ready { canvas: None });
    assert!(c.done && c.data.is_empty());
}

fn copied(format: u32) -> Capture {
    let mut c = Capture::reset();
    c.event(offer(Some(format)));
    c.event(CaptureEvent::Attached);
    c.event(CaptureEvent::Ready { canvas: Some((0..24).collect()) });
    c
}

#[test]
fn common_formats_are_copied_row_by_row() {
    let c = copied(XRGB8888);
    let mut out = vec![99u8; 20];
    assert!(c.can_build(out.len(), 10));
    c.build_screenshot(&mut out, 10);
    let want = [
        0, 1, 2, 3, 4, 5, 6, 7, 99, 99, 12, 13, 14, 15, 16, 17, 18, 19, 99, 99,
    ];
    assert_eq!(out, want);
}

#[test]
fn reversed_formats_have_red_and_blue_exchanged() {
    for format in [XBGR8888, ABGR8888] {
        let c = copied(format);
        let mut out = vec![99u8; 16];
        assert!(c.can_build(out.len(), 8));
        c.build_screenshot(&mut out, 8);
        let want = [2, 1, 0, 99, 6, 5, 4, 99, 14, 13, 12, 99, 18, 17, 16, 99];
        assert_eq!(out, want);
    }
}

#[test]
fn exchanging_red_and_blue_twice_gives_the_colors_back() {
    let mut first = copied(XBGR8888);
    let mut mid = vec![0u8; 24];
    first.build_screenshot(&mut mid, 12);
    first.data = mid;
    let mut out = vec![0u8; 24];
    first.build_screenshot(&mut out, 12);
    for p in [0, 1, 2, 4, 5, 6, 12, 13, 14, 16, 17, 18] {
        assert_eq!(out[p], p as u8);
    }
}

#[test]
fn short_buffers_are_recognised() {
    let c = copied(XRGB8888);
    assert!(!c.can_build(17, 10));
    assert!(c.can_build(18, 10));
    assert!(!c.can_build(100, 7));
    let mut short = copied(XRGB8888);
    short.data.truncate(19);
    assert!(!short.can_build(100, 10));
    assert!(Capture::reset().can_build(0, 0));
}

#[test]
fn pixels_are_copied_between_rows_of_different_length() {
    let src: Vec<u8> = (0..16).collect();
    let mut dst = vec![0u8; 12];
    copy_pixels(&src, 8, &mut dst, 6, 1, 2);
    assert_eq!(dst, [0, 1, 2, 3, 0, 0, 8, 9, 10, 11, 0, 0]);
}
