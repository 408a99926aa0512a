use glint_screenshot::screencast::{
    can_stitch, offered_formats, poll_frames, stitch, usable_streams, CapturedRaw, Frame, FrameCollector,
    FrameWait, NoUsableStreams, PixelFormat, StitchError, StreamInfo, StreamReport,
};
use std::collections::HashMap;

fn stream(node: u32, x: i32, y: i32, w: i32, h: i32) -> StreamInfo {
    match StreamInfo::new(node, Some((x, y)), Some((w, h))) {
        Some(s) => s,
        None => panic!("no use"),
    }
}

fn frame(s: &StreamInfo, stride: usize, first: u8, n: usize) -> Frame {
    let data = (0..n).map(|i| first.wrapping_add(i as u8)).collect();
    Frame::new(s, stride, data)
}

fn report(node_id: u32, size: Option<(i32, i32)>) -> StreamReport {
    StreamReport { node_id, position: None, size }
}

#[test]
fn streams_need_a_size() {
    assert!(StreamInfo::new(1, None, Some((5, 5))).is_some());
    assert!(StreamInfo::new(1, Some((1, 1)), None).is_none());
    assert!(StreamInfo::new(1, None, Some((0, 5))).is_none());
    assert!(StreamInfo::new(1, None, Some((5, -1))).is_none());
}

#[test]
fn usable_streams_are_kept() {
    let reports = [report(1, None), report(2, Some((5, 5))), report(3, Some((0, 0)))];
    match usable_streams(&reports) {
        Ok(v) => assert_eq!(v.len(), 1),
        Err(NoUsableStreams) => panic!("none"),
    }
    assert!(matches!(usable_streams(&reports[..1]), Err(NoUsableStreams)));
    assert!(matches!(usable_streams(&[]), Err(NoUsableStreams)));
}

#[test]
fn frames_are_put_side_by_side() {
    let a = stream(7, 0, 0, 1, 2);
    let b = stream(8, 1, 0, 1, 1);
    let mut frames = HashMap::new();
    frames.insert(7, frame(&a, 4, 1, 8));
    frames.insert(8, frame(&b, 4, 50, 4));
    let captured = CapturedRaw { streams: vec![a, b], frames };
    assert!(can_stitch(&captured));
    match stitch(captured) {
        Ok(image) => {
            assert_eq!((image.width(), image.height()), (2, 2));
            assert_eq!(
                image.data(),
                &[1, 2, 3, 255, 50, 51, 52, 255, 5, 6, 7, 255, 0, 0, 0, 255][..]
            );
        }
        Err(e) => panic!("{:?}", e),
    }
}

#[test]
fn later_streams_cover_earlier_ones() {
    let a = stream(1, 0, 0, 2, 1);
    let b = stream(2, 1, 0, 1, 1);
    let mut frames = HashMap::new();
    frames.insert(1, frame(&a, 8, 1, 8));
    frames.insert(2, frame(&b, 4, 90, 4));
    match stitch(CapturedRaw { streams: vec![a, b], frames }) {
        Ok(image) => assert_eq!(image.into_data(), vec![1, 2, 3, 255, 90, 91, 92, 255]),
        Err(e) => panic!("{:?}", e),
    }
}

#[test]
fn missing_pixels_are_black() {
    let a = stream(1, 1, 0, 2, 1);
    let mut frames = HashMap::new();
    // The frame breaks off in its second pixel.
    frames.insert(1, frame(&a, 8, 1, 7));
    match stitch(CapturedRaw { streams: vec![a], frames }) {
        Ok(image) => {
            assert_eq!(image.into_data(), vec![0, 0, 0, 255, 1, 2, 3, 255, 0, 0, 0, 255]);
        }
        Err(e) => panic!("{:?}", e),
    }
    // A stream without a frame is passed over.
    let b = stream(9, 0, 0, 1, 1);
    match stitch(CapturedRaw { streams: vec![b], frames: HashMap::new() }) {
        Ok(image) => assert_eq!(image.into_data(), vec![0, 0, 0, 255]),
        Err(e) => panic!("{:?}", e),
    }
}

#[test]
fn gaps_beside_a_monitor_are_black() {
    let a = stream(1, 1, 0, 1, 1);
    let mut frames = HashMap::new();
    frames.insert(1, Frame::new(&a, 4, vec![10, 20, 30, 0]));
    match stitch(CapturedRaw { streams: vec![a], frames }) {
        Ok(image) => assert_eq!(image.into_data(), vec![0, 0, 0, 255, 10, 20, 30, 255]),
        Err(e) => panic!("{:?}", e),
    }
}

#[test]
fn frames_come_with_blue_first() {
    assert_eq!(offered_formats(), vec![PixelFormat::Bgra, PixelFormat::Bgrx]);
}

#[test]
fn desktops_without_extent_are_refused() {
    let nothing = CapturedRaw { streams: vec![], frames: HashMap::new() };
    assert!(can_stitch(&nothing));
    assert!(matches!(stitch(nothing), Err(StitchError::InvalidSize { w: 0, h: 0 })));
    let left = CapturedRaw { streams: vec![stream(1, -10, 0, 5, 5)], frames: HashMap::new() };
    assert!(matches!(stitch(left), Err(StitchError::InvalidSize { w: 0, h: 5 })));
    let wide = CapturedRaw { streams: vec![stream(1, 32000, 0, 800, 5)], frames: HashMap::new() };
    assert!(matches!(stitch(wide), Err(StitchError::TooLarge { w: 32800, h: 5 })));
}

#[test]
fn captures_that_cannot_be_placed() {
    let a = stream(1, -1, 0, 5, 5);
    let mut frames = HashMap::new();
    frames.insert(1, frame(&a, 20, 0, 100));
    assert!(!can_stitch(&CapturedRaw { streams: vec![a], frames }));
    let b = stream(1, i32::MAX, 0, 5, 5);
    assert!(!can_stitch(&CapturedRaw { streams: vec![b], frames: HashMap::new() }));
}

#[test]
fn the_first_frame_of_a_stream_counts() {
    let a = stream(1, 0, 0, 1, 1);
    let b = stream(2, 1, 0, 1, 1);
    let mut c = FrameCollector::new(2);
    assert!(c.wants(1));
    assert!(!c.offer(&a, 4, 4, &[1, 2, 3, 4, 5, 6]));
    assert!(!c.wants(1));
    assert!(!c.offer(&a, 4, 4, &[9, 9, 9, 9]));
    // A chunk larger than its buffer gives the whole buffer.
    assert!(c.offer(&b, 4, 400, &[5, 6, 7, 8]));
    let captured = CapturedRaw { streams: vec![a, b], frames: c.into_frames() };
    match stitch(captured) {
        Ok(image) => assert_eq!(image.into_data(), vec![1, 2, 3, 255, 5, 6, 7, 255]),
        Err(e) => panic!("{:?}", e),
    }
}

#[test]
fn waiting_for_frames() {
    assert_eq!(poll_frames(true, true), FrameWait::Finish);
    assert_eq!(poll_frames(true, false), FrameWait::Finish);
    assert_eq!(poll_frames(false, true), FrameWait::TimeOut);
    assert_eq!(poll_frames(false, false), FrameWait::Wait);
}
