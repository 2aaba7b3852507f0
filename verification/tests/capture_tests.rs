use balabol::capture::{
    capture_source_frame, capture_target, compress_frame_to_jpeg, monitor_source, parse_unsigned, window_source,
    CaptureError, CaptureTarget, TargetKind, VideoRawFrame,
};

#[test]
fn source_ids_designate_their_sources() {
    let m = monitor_source(3, "Display".into(), 1920, 1080);
    assert_eq!(m.id, "mon_3");
    assert_eq!(m.kind, TargetKind::Monitor);
    assert_eq!(capture_target(&m.id), CaptureTarget::Monitor(3));
    let w = window_source(12345, "Editor".into(), "code".into(), 800, 600, false).unwrap();
    assert_eq!(w.id, "win_12345");
    assert_eq!(capture_target(&w.id), CaptureTarget::Window(12345));
    assert!(window_source(1, "   ".into(), "x".into(), 1, 1, false).is_none());
    assert!(window_source(1, "t".into(), "x".into(), 1, 1, true).is_none());
}

#[test]
fn unreadable_ids_fall_back() {
    assert_eq!(capture_target("mon_x"), CaptureTarget::Monitor(0));
    assert_eq!(capture_target("win_99999999999"), CaptureTarget::Window(0));
    assert_eq!(capture_target("other"), CaptureTarget::Monitor(0));
    assert_eq!(capture_target("win_+7"), CaptureTarget::Window(7));
}

#[test]
fn parse_unsigned_follows_str_parse() {
    for s in ["0", "42", "+7", "", "+", "-1", "1a", "4294967295", "4294967296", "007"] {
        assert_eq!(parse_unsigned(s, u32::MAX as u64), s.parse::<u32>().ok().map(|v| v as u64), "{}", s);
    }
}

#[test]
fn capture_source_frame_grabs_the_designated_target() {
    let grab = |t: CaptureTarget| -> Result<VideoRawFrame, CaptureError> {
        match t {
            CaptureTarget::Monitor(i) => Ok(VideoRawFrame { width: i as u32, height: 1, rgba_data: vec![0; 4], timestamp_ms: 0 }),
            CaptureTarget::Window(w) => Err(CaptureError::TargetNotFound(format!("Window ID {}", w))),
        }
    };
    assert_eq!(capture_source_frame("mon_2", grab).unwrap().width, 2);
    match capture_source_frame("win_5", grab) {
        Err(e) => assert_eq!(e, CaptureError::TargetNotFound("Window ID 5".into())),
        Ok(_) => panic!("the window grab fails here"),
    }
}

fn frame(width: u32, height: u32, len: usize) -> VideoRawFrame {
    VideoRawFrame { width, height, rgba_data: vec![200; len], timestamp_ms: 0 }
}

#[test]
fn a_short_buffer_is_an_empty_frame() {
    assert_eq!(compress_frame_to_jpeg(&frame(4, 4, 63), 1280, 70, 4), Err(CaptureError::EmptyFrame));
}

#[test]
fn frames_compress_to_jpeg_files() {
    let small = compress_frame_to_jpeg(&frame(4, 2, 32), 1280, 70, 2).unwrap();
    assert_eq!(&small[..2], &[0xFF, 0xD8]);
    assert_eq!(&small[small.len() - 2..], &[0xFF, 0xD9]);
    let scaled = compress_frame_to_jpeg(&frame(16, 8, 16 * 8 * 4), 8, 70, 4).unwrap();
    assert_eq!(&scaled[..2], &[0xFF, 0xD8]);
    assert_ne!(scaled, compress_frame_to_jpeg(&frame(16, 8, 16 * 8 * 4), 1280, 70, 8).unwrap());
}

#[test]
fn an_empty_size_is_refused_by_the_encoder() {
    match compress_frame_to_jpeg(&frame(0, 0, 0), 1280, 70, 0) {
        Err(CaptureError::TargetNotFound(msg)) => assert!(!msg.is_empty()),
        other => panic!("unexpected {:?}", other.map(|b| b.len())),
    }
}
