use arkd_core::events::EventLog;
use arkd_core::json::Json;
use arkd_core::screen::{
    encode_png_passthrough, parse_coord_space, parse_image_format, png_dimensions, CoordSpace,
    Geometry, ImageFormat,
};

fn to_json(v: serde_json::Value) -> Json {
    match v {
        serde_json::Value::Null => Json::Null,
        serde_json::Value::Bool(b) => Json::Bool(b),
        serde_json::Value::Number(n) => {
            if let Some(i) = n.as_i64() {
                Json::Int(i)
            } else if let Some(u) = n.as_u64() {
                Json::UInt(u)
            } else {
                let f = n.as_f64().unwrap();
                Json::Float(n.to_string(), f.to_bits())
            }
        }
        serde_json::Value::String(s) => Json::Str(s),
        serde_json::Value::Array(a) => Json::Array(a.into_iter().map(to_json).collect()),
        serde_json::Value::Object(m) => {
            Json::Object(m.into_iter().map(|(k, v)| (k, to_json(v))).collect())
        }
    }
}

fn parse(text: &str) -> Json {
    to_json(serde_json::from_str(text).unwrap())
}

fn test_png(w: u32, h: u32) -> Vec<u8> {
    let img = image::RgbaImage::from_pixel(w, h, image::Rgba([10, 20, 30, 255]));
    let mut out = Vec::new();
    image::ImageEncoder::write_image(
        image::codecs::png::PngEncoder::new(&mut out),
        img.as_raw(),
        w,
        h,
        image::ExtendedColorType::Rgba8,
    )
    .unwrap();
    out
}

#[test]
fn screenshot_to_device_mapping() {
    let geo = Geometry { device: (1920, 1080), screenshot: (1280, 720) };
    assert_eq!(geo.point_to_device(1210, 55, CoordSpace::Screenshot), (1815, 82));
    assert_eq!(geo.point_to_screenshot(1815, 82, CoordSpace::Device), (1210, 55));
}

#[test]
fn encode_passthrough_when_no_scaling() {
    let png = test_png(100, 50);
    let enc = encode_png_passthrough(&png).unwrap();
    assert_eq!(enc.mime, "image/png");
    assert_eq!((enc.width, enc.height), (100, 50));
    assert_eq!(enc.bytes, png);
}

#[test]
fn events_ring_buffer_drop_count() {
    let mut log = EventLog::new(3);
    for i in 0..10 {
        log.push(10002, parse(&format!(r#"{{"taskid": {i}}}"#)));
    }
    let page = log.page(1, 50, false, false);
    assert!(page.dropped > 0);
    assert_eq!(page.latest_seq, 10);
}

#[test]
fn describe_carries_details_for_battle_events_only() {
    let mut log = EventLog::new(10);
    log.push(20003, parse(r#"{"what": "BattleFormation", "details": {"formation": ["A"]}}"#));
    log.push(20003, parse(r#"{"what": "StageDrops", "details": {"x": 1}}"#));
    let page = log.page(0, 10, false, false);
    assert!(page.events[0].get("details").is_some());
    assert!(page.events[1].get("details").is_none());
}

#[test]
fn points_in_the_same_space_pass_through() {
    let geo = Geometry { device: (1920, 1080), screenshot: (1280, 720) };
    assert_eq!(geo.point_to_device(100, 200, CoordSpace::Device), (100, 200));
    assert_eq!(geo.point_to_screenshot(100, 200, CoordSpace::Screenshot), (100, 200));
}

#[test]
fn scaling_rounds_half_to_even() {
    // 1 * 3 / 2 = 1.5 rounds to 2, 3 * 3 / 2 = 4.5 rounds to 4.
    let geo = Geometry { device: (3, 3), screenshot: (2, 2) };
    assert_eq!(geo.point_to_device(1, 3, CoordSpace::Screenshot), (2, 4));
}

#[test]
fn a_zero_sized_space_saturates() {
    let geo = Geometry { device: (1920, 1080), screenshot: (0, 0) };
    assert_eq!(geo.point_to_device(5, 0, CoordSpace::Screenshot), (i32::MAX, 0));
}

#[test]
fn png_dimensions_of_garbage_is_an_image_error() {
    let err = png_dimensions(b"not an image").unwrap_err();
    assert!(matches!(err, arkd_core::error::Error::Image(_)));
    assert!(encode_png_passthrough(b"nope").is_err());
}

#[test]
fn formats_and_spaces_parse_by_name() {
    assert!(matches!(parse_image_format("png"), Some(ImageFormat::Png)));
    assert!(matches!(parse_image_format("jpeg"), Some(ImageFormat::Jpeg)));
    assert!(parse_image_format("gif").is_none());
    assert_eq!(ImageFormat::Jpeg.mime(), "image/jpeg");
    assert!(matches!(parse_coord_space("device"), Some(CoordSpace::Device)));
    assert!(matches!(parse_coord_space("screenshot"), Some(CoordSpace::Screenshot)));
    assert!(parse_coord_space("world").is_none());
}
