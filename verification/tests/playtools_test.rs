use arkd_core::error::Error;
use arkd_core::playtools::{
    bgr_to_rgba, bundle_text, capture_payload, check_handshake, drag_plan, frame_request, hello,
    parse_touch, read_bgr_header, read_size, read_u32, rgba_to_bgr, tap_plan, touch_payload,
    Frame, TouchPhase,
};

fn frame(w: u32, h: u32) -> Frame {
    let mut bgr = Vec::with_capacity((w * h * 3) as usize);
    for i in 0..(w * h) {
        bgr.extend_from_slice(&[(i % 256) as u8, 100, 200]);
    }
    Frame { width: w, height: h, bgr }
}

#[test]
fn png_round_trip_dimensions() {
    let f = frame(20, 10);
    let png = f.to_png().unwrap();
    let dims = arkd_core::screen::png_dimensions(&png).unwrap();
    assert_eq!(dims, (20, 10));
}

#[test]
fn handshake_refusal_is_reported() {
    let err = check_handshake(b"NOPE").unwrap_err();
    let msg = err.message();
    assert!(msg.contains("handshake refused"), "{msg}");
    assert_eq!(msg, "handshake refused: [78, 79, 80, 69]");
    assert!(check_handshake(b"OKAY").is_ok());
    assert_eq!(hello(), b"MAA\0".to_vec());
}

#[test]
fn capture_uses_bgr_when_version_at_least_3() {
    assert_eq!(capture_payload(3), b"BGR\x01".to_vec());
    assert_eq!(capture_payload(4), b"BGR\x01".to_vec());
    // The reply to a BGR capture of a 16x8 frame: width, height and byte count.
    let (w, h, n) = read_bgr_header(&[0, 0, 0, 16, 0, 0, 0, 8, 0, 0, 1, 128]);
    assert_eq!((w, h), (16, 8));
    assert_eq!(n as usize, 16 * 8 * 3);
    assert_eq!(read_bgr_header(&[0, 0, 7, 128, 0, 0, 4, 56, 0, 0x5E, 0xEC, 0]), (1920, 1080, 1920 * 1080 * 3));
}

#[test]
fn capture_uses_rgba_when_version_below_3() {
    assert_eq!(capture_payload(2), b"SCRN".to_vec());
    let rgba = [0u8, 100, 200, 255, 1, 2, 3, 255];
    assert_eq!(rgba_to_bgr(&rgba), vec![200, 100, 0, 3, 2, 1]);
}

#[test]
fn tap_records_began_and_ended() {
    let steps = tap_plan(100, 200);
    let phases: Vec<u8> = steps.iter().map(|s| s.phase.code()).collect();
    assert_eq!(phases, vec![0, 3]);
    assert_eq!((steps[0].x, steps[0].y), (100, 200));
}

#[test]
fn drag_records_moved_between_endpoints() {
    let steps = drag_plan(&vec![(10, 10), (50, 50), (90, 90)]).unwrap();
    let phases: Vec<u8> = steps.iter().map(|s| s.phase.code()).collect();
    assert_eq!(phases, vec![0, 1, 1, 3]);
    assert_eq!((steps.last().unwrap().x, steps.last().unwrap().y), (90, 90));
}

#[test]
fn a_drag_needs_a_point() {
    let err = drag_plan(&vec![]).err().unwrap();
    assert!(matches!(err, Error::PlayTools(_)));
    assert_eq!(err.message(), "drag needs at least one point");
}

#[test]
fn touches_round_trip_through_the_wire_format() {
    let p = touch_payload(TouchPhase::Moved, 1234, 567, 0);
    assert_eq!(p, vec![b'T', b'U', b'C', b'H', 1, 0x04, 0xD2, 0x02, 0x37, 0]);
    let t = parse_touch(&p).unwrap();
    assert_eq!((t.phase, t.x, t.y, t.contact), (1, 1234, 567, 0));
    assert!(parse_touch(b"TUCH").is_none());
    assert!(matches!(TouchPhase::from_code(3), Some(TouchPhase::Ended)));
    assert!(TouchPhase::from_code(9).is_none());
}

#[test]
fn requests_are_length_prefixed() {
    assert_eq!(frame_request(b"VERN").unwrap(), vec![0, 4, b'V', b'E', b'R', b'N']);
    let big = vec![0u8; 70000];
    assert_eq!(frame_request(&big).unwrap_err().message(), "request too large");
}

#[test]
fn replies_are_big_endian() {
    assert_eq!(read_u32(&[0, 0, 1, 2]), 258);
    assert_eq!(read_size(&[0x07, 0x80, 0x04, 0x38]), (1920, 1080));
    assert_eq!(
        read_bgr_header(&[0, 0, 0, 16, 0, 0, 0, 8, 0, 0, 1, 128]),
        (16, 8, 384)
    );
}

#[test]
fn bundle_ids_must_be_utf8() {
    assert_eq!(bundle_text(b"com.hypergryph.arknights".to_vec()).unwrap(), "com.hypergryph.arknights");
    assert!(matches!(bundle_text(vec![0xff, 0xfe]), Err(Error::PlayTools(_))));
}

#[test]
fn pixels_convert_both_ways() {
    let bgr = vec![0u8, 100, 200, 7, 8, 9];
    let rgba = bgr_to_rgba(&bgr);
    assert_eq!(rgba, vec![200, 100, 0, 255, 9, 8, 7, 255]);
    assert_eq!(rgba_to_bgr(&rgba), bgr);
}

#[test]
fn a_short_frame_is_refused() {
    let f = Frame { width: 4, height: 4, bgr: vec![0; 9] };
    let err = f.to_png().unwrap_err();
    assert_eq!(err.message(), "frame dimensions 4x4 do not match 9 bytes");
}

#[test]
fn an_empty_frame_is_refused_and_a_full_one_encodes() {
    assert!(Frame { width: 0, height: 0, bgr: Vec::new() }.to_png().is_err());
    assert!(frame(2, 1).to_png().is_ok());
}
