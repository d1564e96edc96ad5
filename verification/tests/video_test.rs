use latte_album::processors::processor_trait::ProcessingError;
use latte_album::processors::raster::Raster;
use latte_album::processors::video_processor::{
    container_duration_ms, frame_thumbnail, normalize_degrees, parse_display_matrix,
    pixel_rotation, plan_frame, rotate, scale_side, seek_timestamp, stream_duration_ms,
    summarize_streams, video_mime_type, DecodeAction, DecodeEvent, FramePlan, FrameSearch,
    PixelRotation, StreamInfo, VideoProbe, VideoProcessor,
};

fn decode(bytes: &[u8]) -> image::RgbImage {
    image::load_from_memory(bytes).unwrap().into_rgb8()
}

#[test]
fn rotation_mapping() {
    assert_eq!(pixel_rotation(None), PixelRotation::Upright);
    assert_eq!(pixel_rotation(Some(0)), PixelRotation::Upright);
    assert_eq!(pixel_rotation(Some(90)), PixelRotation::ThreeQuarters);
    assert_eq!(pixel_rotation(Some(-270)), PixelRotation::ThreeQuarters);
    assert_eq!(pixel_rotation(Some(270)), PixelRotation::Quarter);
    assert_eq!(pixel_rotation(Some(-90)), PixelRotation::Quarter);
    assert_eq!(pixel_rotation(Some(180)), PixelRotation::Half);
    assert_eq!(pixel_rotation(Some(-180)), PixelRotation::Half);
    assert_eq!(pixel_rotation(Some(45)), PixelRotation::Upright);
    assert_eq!(pixel_rotation(Some(450)), PixelRotation::ThreeQuarters);
    assert_eq!(normalize_degrees(-1), 359);
    assert_eq!(normalize_degrees(720), 0);
    assert_eq!(normalize_degrees(i32::MIN), 232);
}

#[test]
fn frame_plans() {
    // A portrait video stored as 1920x1080 with a display rotation of 90.
    let plan = plan_frame(1920, 1080, 900, Some(90)).unwrap();
    assert_eq!(
        plan,
        FramePlan { scale_width: 1600, scale_height: 900, rotation: PixelRotation::ThreeQuarters }
    );
    let plan = plan_frame(1920, 1080, 900, None).unwrap();
    assert_eq!(
        plan,
        FramePlan { scale_width: 900, scale_height: 506, rotation: PixelRotation::Upright }
    );
    let plan = plan_frame(1920, 1080, 900, Some(180)).unwrap();
    assert_eq!((plan.scale_width, plan.scale_height), (900, 506));
    let plan = plan_frame(1920, 1080, 0, Some(270)).unwrap();
    assert_eq!((plan.scale_width, plan.scale_height, plan.rotation), (1920, 1080, PixelRotation::Quarter));
    assert_eq!(plan_frame(0, 1080, 900, None), None);
    assert_eq!(plan_frame(1920, 0, 900, None), None);
    assert_eq!(scale_side(u32::MAX, u32::MAX, 1), u32::MAX);
    assert_eq!(scale_side(10, 1, 3), 3);
    assert_eq!(seek_timestamp(1000), 1_000_000);
}

#[test]
fn frames_are_rotated_after_scaling() {
    // 2 wide, 1 high: a red pixel left of a blue one.
    let frame = || Raster { width: 2, height: 1, data: vec![255, 0, 0, 0, 0, 255] };
    let same = rotate(frame(), PixelRotation::Upright);
    assert_eq!((same.width, same.height), (2, 1));
    assert_eq!(same.data, vec![255, 0, 0, 0, 0, 255]);
    let quarter = rotate(frame(), PixelRotation::Quarter);
    assert_eq!((quarter.width, quarter.height), (1, 2));
    assert_eq!(quarter.data, vec![255, 0, 0, 0, 0, 255]);
    let half = rotate(frame(), PixelRotation::Half);
    assert_eq!((half.width, half.height), (2, 1));
    assert_eq!(half.data, vec![0, 0, 255, 255, 0, 0]);
    let three = rotate(frame(), PixelRotation::ThreeQuarters);
    assert_eq!((three.width, three.height), (1, 2));
    assert_eq!(three.data, vec![0, 0, 255, 255, 0, 0]);
    // 2 wide, 2 high, pixels a b / c d turned a quarter: c a / d b.
    let square = Raster { width: 2, height: 2, data: vec![1, 1, 1, 2, 2, 2, 3, 3, 3, 4, 4, 4] };
    assert_eq!(rotate(square, PixelRotation::Quarter).data, vec![3, 3, 3, 1, 1, 1, 4, 4, 4, 2, 2, 2]);
}

#[test]
fn frame_thumbnails() {
    // 16 wide, 8 high, red, with two bytes of padding behind each row.
    let mut data = Vec::new();
    for _ in 0..8 {
        for _ in 0..16 {
            data.extend_from_slice(&[250, 0, 0]);
        }
        data.extend_from_slice(&[0, 255]);
    }
    let jpeg = frame_thumbnail(&data, 16, 8, 50, Some(90), 80).unwrap();
    assert_eq!(&jpeg[0..2], &[0xFF, 0xD8]);
    let img = decode(&jpeg);
    assert_eq!((img.width(), img.height()), (8, 16));
    assert!(img.get_pixel(4, 8)[0] > 200 && img.get_pixel(4, 8)[1] < 60);
    let upright = decode(&frame_thumbnail(&data, 16, 8, 50, None, 80).unwrap());
    assert_eq!((upright.width(), upright.height()), (16, 8));
    assert!(matches!(
        frame_thumbnail(&data, 16, 9, 50, None, 80),
        Err(ProcessingError::Processing(_))
    ));
    assert!(matches!(frame_thumbnail(&[], 0, 0, 0, None, 80), Err(ProcessingError::Processing(_))));
}

#[test]
fn display_matrix_is_read_little_endian() {
    let mut payload = Vec::new();
    for v in [0i32, 65536, 0, -65536, 0, 0, 0, 0, 1073741824] {
        payload.extend_from_slice(&v.to_le_bytes());
    }
    assert_eq!(
        parse_display_matrix(&payload),
        Some(vec![0, 65536, 0, -65536, 0, 0, 0, 0, 1073741824])
    );
    payload.push(0);
    assert!(parse_display_matrix(&payload).is_some());
    assert_eq!(parse_display_matrix(&payload[..35]), None);
    let extremes: Vec<u8> = [i32::MIN, i32::MAX, -1, 1, 0, 0, 0, 0, 0]
        .iter()
        .flat_map(|v| v.to_le_bytes())
        .collect();
    assert_eq!(parse_display_matrix(&extremes).unwrap()[..4], [i32::MIN, i32::MAX, -1, 1]);
}

#[test]
fn the_search_for_a_frame() {
    let (mut search, first) = FrameSearch::new(1);
    assert_eq!(first, DecodeAction::ReadPacket);
    assert_eq!(search.step(DecodeEvent::Packet { stream: 0 }), DecodeAction::ReadPacket);
    assert_eq!(search.step(DecodeEvent::Packet { stream: 1 }), DecodeAction::SendPacket);
    assert_eq!(search.step(DecodeEvent::PacketSent { accepted: false }), DecodeAction::ReadPacket);
    assert_eq!(search.step(DecodeEvent::Packet { stream: 1 }), DecodeAction::SendPacket);
    assert_eq!(search.step(DecodeEvent::PacketSent { accepted: true }), DecodeAction::ReceiveFrame);
    assert_eq!(search.step(DecodeEvent::NoFrame), DecodeAction::ReadPacket);
    assert_eq!(search.step(DecodeEvent::Packet { stream: 1 }), DecodeAction::SendPacket);
    assert_eq!(search.step(DecodeEvent::PacketSent { accepted: true }), DecodeAction::ReceiveFrame);
    assert_eq!(search.step(DecodeEvent::Frame { scaled: false }), DecodeAction::ReceiveFrame);
    assert_eq!(search.step(DecodeEvent::Frame { scaled: true }), DecodeAction::Done);
    assert!(search.finished);
    assert_eq!(search.step(DecodeEvent::Packet { stream: 1 }), DecodeAction::Fail);

    let (mut search, _) = FrameSearch::new(0);
    assert_eq!(search.step(DecodeEvent::EndOfPackets), DecodeAction::SendEof);
    assert!(search.flushing);
    assert_eq!(search.step(DecodeEvent::EofSent), DecodeAction::ReceiveFrame);
    assert_eq!(search.step(DecodeEvent::Frame { scaled: false }), DecodeAction::ReceiveFrame);
    assert_eq!(search.step(DecodeEvent::NoFrame), DecodeAction::Fail);
    assert!(search.finished);

    let (mut search, _) = FrameSearch::new(0);
    search.step(DecodeEvent::EndOfPackets);
    assert_eq!(search.step(DecodeEvent::Frame { scaled: true }), DecodeAction::Done);
}

#[test]
fn stream_facts_become_a_probe() {
    let audio = StreamInfo {
        frames: 0,
        dimensions: Some((1, 1)),
        codec: Some("aac".to_string()),
        duration: 99,
        time_base_num: 1,
        time_base_den: 1,
    };
    let video = StreamInfo {
        frames: 300,
        dimensions: Some((1920, 1080)),
        codec: Some("h264".to_string()),
        duration: 15015,
        time_base_num: 1,
        time_base_den: 1001,
    };
    let probe: VideoProbe = summarize_streams(&vec![audio.clone(), video.clone()], 9_000_000);
    assert_eq!(probe.width, Some(1920));
    assert_eq!(probe.height, Some(1080));
    assert_eq!(probe.codec, Some("h264".to_string()));
    assert_eq!(probe.duration_ms, Some(15_000));

    let undecodable = StreamInfo { dimensions: None, codec: Some("x".to_string()), duration: 0, ..video.clone() };
    let probe = summarize_streams(&vec![undecodable], 2_500_999);
    assert_eq!(probe.width, None);
    assert_eq!(probe.codec, None);
    assert_eq!(probe.duration_ms, Some(2500));
    let probe = summarize_streams(&vec![audio], 0);
    assert_eq!(probe.duration_ms, None);
    assert_eq!(probe.width, None);

    assert_eq!(stream_duration_ms(3, 1, 2), Some(1500));
    assert_eq!(stream_duration_ms(0, 1, 2), None);
    assert_eq!(stream_duration_ms(3, 0, 2), None);
    assert_eq!(stream_duration_ms(3, 1, 0), None);
    assert_eq!(stream_duration_ms(i64::MAX, i32::MAX, 1), None);
    assert_eq!(container_duration_ms(1_999), Some(1));
    assert_eq!(container_duration_ms(-5), None);
}

#[test]
fn video_metadata() {
    let p = VideoProcessor::new(None);
    let probe = VideoProbe { width: Some(1280), height: Some(720), duration_ms: Some(42), codec: Some("vp9".to_string()) };
    let m = p.process("/v/clip.WEBM", Some(probe));
    assert_eq!(m.mime_type, Some("video/webm".to_string()));
    assert_eq!(m.width, Some(1280));
    assert_eq!(m.height, Some(720));
    assert_eq!(m.duration_ms, Some(42));
    assert_eq!(m.video_codec, Some("vp9".to_string()));
    let bare = p.process("/v/clip.mov", None);
    assert_eq!(bare.mime_type, Some("video/quicktime".to_string()));
    assert_eq!(bare.width, None);
    assert_eq!(p.process("/v/clip", None).mime_type, None);
    assert_eq!(video_mime_type("mp4"), "video/mp4");
    assert_eq!(video_mime_type("avi"), "video/x-msvideo");
    assert_eq!(video_mime_type("mkv"), "video/x-matroska");
    assert_eq!(video_mime_type("wmv"), "video/x-ms-wmv");
    assert_eq!(video_mime_type("flv"), "video/x-flv");
    assert_eq!(video_mime_type("ogv"), "video/mp4");
}
