//! The video processor: what it supports, how stream facts become metadata,
//! how a frame is searched for, scaled, rotated and encoded. Opening the
//! container and decoding are the caller's work; every decision is made here.

use vstd::prelude::*;
use crate::processors::processor_trait::{
    blank_metadata, lowercase_extension, lower_extension, MediaMetadata, MediaMetadataView,
    MediaProcessor, MediaType, ProcessingError,
};
use crate::processors::raster::{
    encode_jpeg, is_jpeg, jpeg_of, pack_rows, packed_rows, padded_len, rotate180, rotate270,
    rotate90, turned_half, turned_quarter, turned_three_quarters, Raster, JPEG_MAX_SIDE,
};
use crate::text::{str_eq, text_of};

verus! {

/// Video processor for MP4, AVI, MOV, MKV and the like.
#[derive(Debug, Clone)]
pub struct VideoProcessor {
    pub ffmpeg_path: Option<String>,
}

/// The lower-cased extensions that the video processor takes.
pub open spec fn video_extensions() -> Set<Seq<char>> {
    set!["mp4"@, "avi"@, "mov"@, "mkv"@, "wmv"@, "flv"@, "webm"@]
}

/// The MIME type that goes with a lower-cased video extension.
pub open spec fn video_mime_of(ext: Seq<char>) -> Seq<char> {
    if ext == "mp4"@ {
        "video/mp4"@
    } else if ext == "mov"@ {
        "video/quicktime"@
    } else if ext == "avi"@ {
        "video/x-msvideo"@
    } else if ext == "mkv"@ {
        "video/x-matroska"@
    } else if ext == "webm"@ {
        "video/webm"@
    } else if ext == "wmv"@ {
        "video/x-ms-wmv"@
    } else if ext == "flv"@ {
        "video/x-flv"@
    } else {
        "video/mp4"@
    }
}

/// The MIME type for a lower-cased video extension; `video/mp4` for any
/// other.
pub fn video_mime_type(ext: &str) -> (r: String)
    ensures
        r@ == video_mime_of(ext@),
{
    if str_eq(ext, "mp4") {
        String::from_str("video/mp4")
    } else if str_eq(ext, "mov") {
        String::from_str("video/quicktime")
    } else if str_eq(ext, "avi") {
        String::from_str("video/x-msvideo")
    } else if str_eq(ext, "mkv") {
        String::from_str("video/x-matroska")
    } else if str_eq(ext, "webm") {
        String::from_str("video/webm")
    } else if str_eq(ext, "wmv") {
        String::from_str("video/x-ms-wmv")
    } else if str_eq(ext, "flv") {
        String::from_str("video/x-flv")
    } else {
        String::from_str("video/mp4")
    }
}

/// What the container says of one stream.
#[derive(Debug, Clone)]
pub struct StreamInfo {
    /// The number of frames that the stream reports.
    pub frames: i64,
    /// Width and height from the stream's decoder, where one could be made.
    pub dimensions: Option<(u32, u32)>,
    /// The codec's name, where a decoder could be made.
    pub codec: Option<String>,
    /// The stream's duration in units of its time base.
    pub duration: i64,
    /// The time base as a fraction of a second.
    pub time_base_num: i32,
    pub time_base_den: i32,
}

/// What the streams of a container add up to.
#[derive(Debug, Clone)]
pub struct VideoProbe {
    pub width: Option<i32>,
    pub height: Option<i32>,
    pub duration_ms: Option<u64>,
    pub codec: Option<String>,
}

/// A stream's duration in whole milliseconds, where it reports a positive
/// one over a positive time base.
pub open spec fn stream_millis(duration: int, num: int, den: int) -> Option<u64> {
    if duration > 0 && num > 0 && den > 0 && duration * num * 1000 / den <= u64::MAX {
        Some((duration * num * 1000 / den) as u64)
    } else {
        None
    }
}

/// A container's duration, given in microseconds, in whole milliseconds.
pub open spec fn container_millis(duration_us: int) -> Option<u64> {
    if duration_us > 0 {
        Some((duration_us / 1000) as u64)
    } else {
        None
    }
}

/// [`stream_millis`] on machine integers.
pub fn stream_duration_ms(duration: i64, num: i32, den: i32) -> (r: Option<u64>)
    ensures
        r == stream_millis(duration as int, num as int, den as int),
{
    if duration > 0 && num > 0 && den > 0 {
        assert(0 < duration * num <= 0x7fff_ffff_ffff_ffff * 0x7fff_ffff) by (nonlinear_arith)
            requires
                0 < duration <= 0x7fff_ffff_ffff_ffff,
                0 < num <= 0x7fff_ffff,
        ;
        let product: u128 = (duration as u128) * (num as u128);
        let wide: u128 = product * 1000;
        let ms: u128 = wide / (den as u128);
        assert(wide == duration * num * 1000);
        if ms <= u64::MAX as u128 {
            Some(ms as u64)
        } else {
            None
        }
    } else {
        None
    }
}

/// [`container_millis`] on machine integers.
pub fn container_duration_ms(duration_us: i64) -> (r: Option<u64>)
    ensures
        r == container_millis(duration_us as int),
{
    if duration_us > 0 {
        Some((duration_us / 1000) as u64)
    } else {
        None
    }
}

/// A side of a frame as the catalog stores it.
pub open spec fn stored_side(side: u32) -> i32 {
    if side <= i32::MAX {
        side as i32
    } else {
        i32::MAX
    }
}

/// [`stored_side`] on machine integers.
pub fn side_to_i32(side: u32) -> (r: i32)
    ensures
        r == stored_side(side),
{
    if side <= 2147483647 {
        side as i32
    } else {
        2147483647
    }
}

/// The probe after the first `n` streams: each stream that reports frames
/// overrides what it can tell; the others change nothing.
pub open spec fn probe_after(streams: Seq<StreamInfo>, n: int) -> VideoProbe
    decreases n,
{
    if n <= 0 {
        VideoProbe { width: None, height: None, duration_ms: None, codec: None }
    } else {
        let before = probe_after(streams, n - 1);
        let s = streams[n - 1];
        if s.frames > 0 {
            VideoProbe {
                width: match s.dimensions {
                    Some(d) => Some(stored_side(d.0)),
                    None => before.width,
                },
                height: match s.dimensions {
                    Some(d) => Some(stored_side(d.1)),
                    None => before.height,
                },
                duration_ms: match stream_millis(
                    s.duration as int,
                    s.time_base_num as int,
                    s.time_base_den as int,
                ) {
                    Some(ms) => Some(ms),
                    None => before.duration_ms,
                },
                codec: match (s.dimensions, s.codec) {
                    (Some(_), Some(c)) => Some(c),
                    _ => before.codec,
                },
            }
        } else {
            before
        }
    }
}

/// The probe of a whole container: the streams in order, then the
/// container's own duration where no stream gave one.
pub open spec fn probe_of(streams: Seq<StreamInfo>, container_duration_us: int) -> VideoProbe {
    let p = probe_after(streams, streams.len() as int);
    VideoProbe {
        duration_ms: if p.duration_ms is None {
            container_millis(container_duration_us)
        } else {
            p.duration_ms
        },
        ..p
    }
}

/// Gathers width, height, duration and codec from the streams of a
/// container.
pub fn summarize_streams(streams: &Vec<StreamInfo>, container_duration_us: i64) -> (r: VideoProbe)
    ensures
        r == probe_of(streams@, container_duration_us as int),
{
    let mut probe = VideoProbe { width: None, height: None, duration_ms: None, codec: None };
    let mut i: usize = 0;
    while i < streams.len()
        invariant
            i <= streams.len(),
            probe == probe_after(streams@, i as int),
        decreases streams.len() - i,
    {
        let s = &streams[i];
        if s.frames > 0 {
            match s.dimensions {
                Some(d) => {
                    probe.width = Some(side_to_i32(d.0));
                    probe.height = Some(side_to_i32(d.1));
                    match &s.codec {
                        Some(c) => {
                            probe.codec = Some(c.clone());
                        },
                        None => {},
                    }
                },
                None => {},
            }
            match stream_duration_ms(s.duration, s.time_base_num, s.time_base_den) {
                Some(ms) => {
                    probe.duration_ms = Some(ms);
                },
                None => {},
            }
        }
        i = i + 1;
    }
    if probe.duration_ms.is_none() {
        probe.duration_ms = container_duration_ms(container_duration_us);
    }
    probe
}

/// The number of bytes of a display matrix: nine 32-bit values.
pub const DISPLAY_MATRIX_LEN: usize = 36;

/// The signed 32-bit value that four little-endian bytes hold.
pub open spec fn le_i32(b0: u8, b1: u8, b2: u8, b3: u8) -> int {
    let u = b0 as int + 256 * (b1 as int) + 65536 * (b2 as int) + 16777216 * (b3 as int);
    if u >= 2147483648 {
        u - 4294967296
    } else {
        u
    }
}

/// The nine 16.16 fixed-point entries of a display matrix, row by row.
pub open spec fn display_matrix_of(data: Seq<u8>) -> Option<Seq<int>> {
    if data.len() >= DISPLAY_MATRIX_LEN {
        Some(
            Seq::new(
                9,
                |k: int| le_i32(data[4 * k], data[4 * k + 1], data[4 * k + 2], data[4 * k + 3]),
            ),
        )
    } else {
        None
    }
}

/// Reads the 3x3 matrix of a DisplayMatrix payload; `None` for a payload
/// under 36 bytes.
pub fn parse_display_matrix(data: &[u8]) -> (r: Option<Vec<i32>>)
    ensures
        r is Some == display_matrix_of(data@) is Some,
        r matches Some(m) ==> m@.len() == 9 && forall|k: int|
            0 <= k < 9 ==> m@[k] as int == display_matrix_of(data@).unwrap()[k],
{
    if data.len() < DISPLAY_MATRIX_LEN {
        return None;
    }
    let mut m: Vec<i32> = Vec::new();
    let mut k: usize = 0;
    while k < 9
        invariant
            k <= 9,
            data@.len() >= 36,
            m@.len() == k,
            forall|j: int|
                0 <= j < k ==> m@[j] as int == le_i32(
                    data@[4 * j],
                    data@[4 * j + 1],
                    data@[4 * j + 2],
                    data@[4 * j + 3],
                ),
        decreases 9 - k,
    {
        let u: i64 = data[4 * k] as i64 + 256 * (data[4 * k + 1] as i64) + 65536 * (data[4 * k
            + 2] as i64) + 16777216 * (data[4 * k + 3] as i64);
        let v: i32 = if u >= 2147483648 {
            (u - 4294967296) as i32
        } else {
            u as i32
        };
        m.push(v);
        k = k + 1;
    }
    Some(m)
}

/// A turn of the pixel grid, clockwise.
#[derive(Debug, Clone, Copy, PartialEq, Eq, Structural)]
pub enum PixelRotation {
    /// Leave the frame as it is.
    Upright,
    /// A quarter turn clockwise.
    Quarter,
    /// A half turn.
    Half,
    /// Three quarter turns clockwise: a quarter turn counter-clockwise.
    ThreeQuarters,
}

/// A display rotation in degrees, reduced to `0..360`.
pub open spec fn normalized_degrees(degrees: int) -> int {
    degrees % 360
}

/// The turn of the pixel grid that a display rotation asks for: 90 degrees
/// means a quarter turn counter-clockwise, 270 a quarter turn clockwise, 180
/// a half turn; any other angle, or none, leaves the frame upright.
pub open spec fn rotation_for(rotation: Option<i32>) -> PixelRotation {
    match rotation {
        Some(r) => if normalized_degrees(r as int) == 90 {
            PixelRotation::ThreeQuarters
        } else if normalized_degrees(r as int) == 270 {
            PixelRotation::Quarter
        } else if normalized_degrees(r as int) == 180 {
            PixelRotation::Half
        } else {
            PixelRotation::Upright
        },
        None => PixelRotation::Upright,
    }
}

/// Whether a turn swaps width and height.
pub open spec fn swaps_sides(rotation: PixelRotation) -> bool {
    rotation == PixelRotation::Quarter || rotation == PixelRotation::ThreeQuarters
}

/// Display degrees reduced to `0..360`.
pub fn normalize_degrees(degrees: i32) -> (r: i32)
    ensures
        r == normalized_degrees(degrees as int),
        0 <= r < 360,
{
    let m: i32 = degrees % 360;
    if m < 0 {
        m + 360
    } else {
        m
    }
}

/// The pixel turn for a display rotation.
pub fn pixel_rotation(rotation: Option<i32>) -> (r: PixelRotation)
    ensures
        r == rotation_for(rotation),
{
    match rotation {
        Some(d) => {
            let n = normalize_degrees(d);
            if n == 90 {
                PixelRotation::ThreeQuarters
            } else if n == 270 {
                PixelRotation::Quarter
            } else if n == 180 {
                PixelRotation::Half
            } else {
                PixelRotation::Upright
            }
        },
        None => PixelRotation::Upright,
    }
}

/// What the scaler is asked for, and the turn that follows it.
#[derive(Debug, Clone, Copy, PartialEq, Eq, Structural)]
pub struct FramePlan {
    /// The size that the scaler outputs, before the turn.
    pub scale_width: u32,
    pub scale_height: u32,
    /// The turn applied to the scaled frame.
    pub rotation: PixelRotation,
}

impl FramePlan {
    /// The width of the finished image.
    pub open spec fn out_width(&self) -> int {
        if swaps_sides(self.rotation) {
            self.scale_height as int
        } else {
            self.scale_width as int
        }
    }

    /// The height of the finished image.
    pub open spec fn out_height(&self) -> int {
        if swaps_sides(self.rotation) {
            self.scale_width as int
        } else {
            self.scale_height as int
        }
    }
}

/// `target * num / den` rounded down, capped at the largest `u32`.
pub open spec fn scaled_side(target: int, num: int, den: int) -> int {
    if target * num / den > u32::MAX {
        u32::MAX as int
    } else {
        target * num / den
    }
}

/// [`scaled_side`] on machine integers.
pub fn scale_side(target: u32, num: u32, den: u32) -> (r: u32)
    requires
        den > 0,
    ensures
        r == scaled_side(target as int, num as int, den as int),
{
    assert(0 <= target * num <= 0xffff_ffff * 0xffff_ffff) by (nonlinear_arith)
        requires
            0 <= target <= 0xffff_ffff,
            0 <= num <= 0xffff_ffff,
    ;
    let wide: u64 = (target as u64) * (num as u64);
    let q: u64 = wide / (den as u64);
    if q > 4294967295 {
        4294967295
    } else {
        q as u32
    }
}

/// The plan for a frame of `source_width` by `source_height` pixels shown
/// with `rotation`, for a thumbnail `target_width` wide.
///
/// The scaler always consumes the decoder's dimensions. The finished image is
/// `target_width` wide; its height follows the displayed aspect ratio, which
/// for a quarter turn is the decoder's width over its height. A target of 0
/// keeps the decoder's size. `None` where the decoder reports an empty frame.
pub open spec fn frame_plan_of(
    source_width: u32,
    source_height: u32,
    target_width: u32,
    rotation: Option<i32>,
) -> Option<FramePlan> {
    let turn = rotation_for(rotation);
    if source_width == 0 || source_height == 0 {
        None
    } else if target_width == 0 {
        Some(FramePlan { scale_width: source_width, scale_height: source_height, rotation: turn })
    } else if swaps_sides(turn) {
        Some(
            FramePlan {
                scale_width: scaled_side(
                    target_width as int,
                    source_width as int,
                    source_height as int,
                ) as u32,
                scale_height: target_width,
                rotation: turn,
            },
        )
    } else {
        Some(
            FramePlan {
                scale_width: target_width,
                scale_height: scaled_side(
                    target_width as int,
                    source_height as int,
                    source_width as int,
                ) as u32,
                rotation: turn,
            },
        )
    }
}

/// Plans scaling and rotation of a video frame.
pub fn plan_frame(
    source_width: u32,
    source_height: u32,
    target_width: u32,
    rotation: Option<i32>,
) -> (r: Option<FramePlan>)
    ensures
        r == frame_plan_of(source_width, source_height, target_width, rotation),
        r matches Some(p) ==> target_width > 0 ==> p.out_width() == target_width,
{
    let turn = pixel_rotation(rotation);
    if source_width == 0 || source_height == 0 {
        None
    } else if target_width == 0 {
        Some(FramePlan { scale_width: source_width, scale_height: source_height, rotation: turn })
    } else if turn == PixelRotation::Quarter || turn == PixelRotation::ThreeQuarters {
        Some(
            FramePlan {
                scale_width: scale_side(target_width, source_width, source_height),
                scale_height: target_width,
                rotation: turn,
            },
        )
    } else {
        Some(
            FramePlan {
                scale_width: target_width,
                scale_height: scale_side(target_width, source_height, source_width),
                rotation: turn,
            },
        )
    }
}

/// The seek target, in microseconds, for an offset in milliseconds.
pub fn seek_timestamp(offset_ms: u32) -> (r: i64)
    ensures
        r == offset_ms as int * 1000,
{
    (offset_ms as i64) * 1000
}

/// What the caller does next while it looks for a frame.
#[derive(Debug, Clone, Copy, PartialEq, Eq, Structural)]
pub enum DecodeAction {
    /// Read the next packet of the container.
    ReadPacket,
    /// Hand the packet just read to the decoder.
    SendPacket,
    /// Ask the decoder for a frame and run it through the scaler.
    ReceiveFrame,
    /// Tell the decoder that the input has ended.
    SendEof,
    /// A scaled frame is at hand.
    Done,
    /// No frame could be decoded.
    Fail,
}

/// What the caller reports back.
#[derive(Debug, Clone, Copy, PartialEq, Eq, Structural)]
pub enum DecodeEvent {
    /// A packet of the given stream was read.
    Packet { stream: usize },
    /// The container has no more packets.
    EndOfPackets,
    /// The decoder took the packet, or refused it.
    PacketSent { accepted: bool },
    /// The decoder gave a frame; the scaler took it, or refused it.
    Frame { scaled: bool },
    /// The decoder has no frame to give.
    NoFrame,
    /// The end of input was signalled.
    EofSent,
}

/// The search for the first frame of one stream that passes the scaler.
#[derive(Debug, Clone, Copy, PartialEq, Eq, Structural)]
pub struct FrameSearch {
    /// The index of the selected video stream.
    pub video_index: usize,
    /// Whether the end of input has been signalled.
    pub flushing: bool,
    /// Whether the search has ended, with `Done` or `Fail`.
    pub finished: bool,
}

/// The state and action that follow an event.
pub open spec fn search_step(s: FrameSearch, e: DecodeEvent) -> (FrameSearch, DecodeAction) {
    if s.finished {
        (s, DecodeAction::Fail)
    } else {
        match e {
            DecodeEvent::Packet { stream } => if s.flushing {
                (s, DecodeAction::ReceiveFrame)
            } else if stream == s.video_index {
                (s, DecodeAction::SendPacket)
            } else {
                (s, DecodeAction::ReadPacket)
            },
            DecodeEvent::EndOfPackets => if s.flushing {
                (s, DecodeAction::ReceiveFrame)
            } else {
                (FrameSearch { flushing: true, ..s }, DecodeAction::SendEof)
            },
            DecodeEvent::PacketSent { accepted } => if s.flushing {
                (s, DecodeAction::ReceiveFrame)
            } else if accepted {
                (s, DecodeAction::ReceiveFrame)
            } else {
                (s, DecodeAction::ReadPacket)
            },
            DecodeEvent::Frame { scaled } => if scaled {
                (FrameSearch { finished: true, ..s }, DecodeAction::Done)
            } else {
                (s, DecodeAction::ReceiveFrame)
            },
            DecodeEvent::NoFrame => if s.flushing {
                (FrameSearch { finished: true, ..s }, DecodeAction::Fail)
            } else {
                (s, DecodeAction::ReadPacket)
            },
            DecodeEvent::EofSent => (FrameSearch { flushing: true, ..s }, DecodeAction::ReceiveFrame),
        }
    }
}

impl FrameSearch {
    /// A search on the stream with this index; the first action is to read a
    /// packet.
    pub fn new(video_index: usize) -> (r: (FrameSearch, DecodeAction))
        ensures
            r.0 == (FrameSearch { video_index, flushing: false, finished: false }),
            r.1 == DecodeAction::ReadPacket,
    {
        (FrameSearch { video_index, flushing: false, finished: false }, DecodeAction::ReadPacket)
    }

    /// Takes an event and says what to do next: packets of other streams are
    /// skipped, a refused packet is dropped, frames are pulled until one
    /// passes the scaler; when the packets run out the decoder is flushed
    /// once, and the search fails if it then has no frame.
    pub fn step(&mut self, event: DecodeEvent) -> (action: DecodeAction)
        ensures
            (*final(self), action) == search_step(*old(self), event),
    {
        if self.finished {
            return DecodeAction::Fail;
        }
        match event {
            DecodeEvent::Packet { stream } => {
                if self.flushing {
                    DecodeAction::ReceiveFrame
                } else if stream == self.video_index {
                    DecodeAction::SendPacket
                } else {
                    DecodeAction::ReadPacket
                }
            },
            DecodeEvent::EndOfPackets => {
                if self.flushing {
                    DecodeAction::ReceiveFrame
                } else {
                    self.flushing = true;
                    DecodeAction::SendEof
                }
            },
            DecodeEvent::PacketSent { accepted } => {
                if self.flushing || accepted {
                    DecodeAction::ReceiveFrame
                } else {
                    DecodeAction::ReadPacket
                }
            },
            DecodeEvent::Frame { scaled } => {
                if scaled {
                    self.finished = true;
                    DecodeAction::Done
                } else {
                    DecodeAction::ReceiveFrame
                }
            },
            DecodeEvent::NoFrame => {
                if self.flushing {
                    self.finished = true;
                    DecodeAction::Fail
                } else {
                    DecodeAction::ReadPacket
                }
            },
            DecodeEvent::EofSent => {
                self.flushing = true;
                DecodeAction::ReceiveFrame
            },
        }
    }
}

/// Once the decoder is being flushed no packet is read or sent again, and a
/// search ends with `Done` only on a frame that passed the scaler.
pub proof fn lemma_search_step(s: FrameSearch, e: DecodeEvent)
    ensures
        s.flushing ==> search_step(s, e).1 != DecodeAction::ReadPacket && search_step(s, e).1
            != DecodeAction::SendPacket && search_step(s, e).0.flushing,
        search_step(s, e).1 == DecodeAction::Done ==> e == (DecodeEvent::Frame { scaled: true }),
        search_step(s, e).1 == DecodeAction::Fail ==> s.finished || (s.flushing && e
            == DecodeEvent::NoFrame),
        search_step(s, e).0.video_index == s.video_index,
{
}

/// The pixels of a scaled frame after the turn.
pub open spec fn turned(rotation: PixelRotation, width: int, height: int, pixels: Seq<u8>) -> (
    int,
    int,
    Seq<u8>,
) {
    match rotation {
        PixelRotation::Upright => (width, height, pixels),
        PixelRotation::Quarter => (height, width, turned_quarter(width, height, pixels)),
        PixelRotation::Half => (width, height, turned_half(width, height, pixels)),
        PixelRotation::ThreeQuarters => (
            height,
            width,
            turned_three_quarters(width, height, pixels),
        ),
    }
}

/// Applies a turn to an image.
pub fn rotate(img: Raster, rotation: PixelRotation) -> (r: Raster)
    requires
        img.wf(),
    ensures
        r.wf(),
        r.view() == turned(rotation, img.width as int, img.height as int, img.data@),
{
    match rotation {
        PixelRotation::Upright => img,
        PixelRotation::Quarter => rotate90(&img),
        PixelRotation::Half => rotate180(&img),
        PixelRotation::ThreeQuarters => rotate270(&img),
    }
}

/// The JPEG quality of video thumbnails.
pub const VIDEO_JPEG_QUALITY: u8 = 80;

/// Whether an RGB24 frame buffer holds `width` by `height` pixels at this
/// stride.
pub open spec fn frame_fits(data: Seq<u8>, width: u32, height: u32, stride: int) -> bool {
    width as int * 3 <= usize::MAX && padded_len(width as int * 3, height as int, stride)
        <= data.len()
}

/// The thumbnail of a scaled RGB24 frame: rows collapsed, the frame turned
/// as the display rotation asks, encoded as JPEG.
pub open spec fn frame_thumbnail_of(
    data: Seq<u8>,
    width: u32,
    height: u32,
    stride: int,
    rotation: Option<i32>,
    quality: u8,
) -> Option<Seq<u8>> {
    if frame_fits(data, width, height, stride) && 1 <= width <= JPEG_MAX_SIDE && 1 <= height
        <= JPEG_MAX_SIDE {
        let packed = packed_rows(data, width as int * 3, height as int, stride);
        let t = turned(rotation_for(rotation), width as int, height as int, packed);
        Some(jpeg_of(t.0, t.1, t.2, quality as int))
    } else {
        None
    }
}

/// The sides of the image that the thumbnail of a frame shows: those of the
/// frame, changed over by a quarter turn.
pub open spec fn frame_thumbnail_size(width: u32, height: u32, rotation: Option<i32>) -> (
    int,
    int,
) {
    if swaps_sides(rotation_for(rotation)) {
        (height as int, width as int)
    } else {
        (width as int, height as int)
    }
}

/// Turns the scaler's RGB24 output into the thumbnail: collapses padded
/// rows, applies the rotation after scaling, encodes JPEG. Fails with a
/// processing error exactly where the buffer is too short for the frame or a
/// side is 0 or above 65535. What comes out opens with the JPEG marker, and
/// the image in it has the sides of the frame, changed over by a quarter
/// turn.
pub fn frame_thumbnail(
    data: &[u8],
    width: u32,
    height: u32,
    stride: usize,
    rotation: Option<i32>,
    quality: u8,
) -> (r: Result<Vec<u8>, ProcessingError>)
    ensures
        match r {
            Ok(bytes) => frame_thumbnail_of(data@, width, height, stride as int, rotation, quality)
                == Some(bytes@),
            Err(e) => e is Processing && frame_thumbnail_of(
                data@,
                width,
                height,
                stride as int,
                rotation,
                quality,
            ) is None,
        },
        r matches Ok(bytes) ==> {
            let packed = packed_rows(data@, width as int * 3, height as int, stride as int);
            let shown = turned(rotation_for(rotation), width as int, height as int, packed);
            &&& is_jpeg(bytes@)
            &&& (shown.0, shown.1) == frame_thumbnail_size(width, height, rotation)
        },
{
    let row_bytes = (width as usize).checked_mul(3);
    if row_bytes.is_none() {
        return Err(
            ProcessingError::Processing(String::from_str("Failed to create image from RGB data")),
        );
    }
    let row_bytes: usize = row_bytes.unwrap();
    let packed = match pack_rows(data, row_bytes, height as usize, stride) {
        Some(p) => p,
        None => {
            return Err(
                ProcessingError::Processing(
                    String::from_str("Failed to create image from RGB data"),
                ),
            );
        },
    };
    assert(packed@.len() == width as int * height as int * 3) by (nonlinear_arith)
        requires
            packed@.len() == height as int * (width as int * 3),
    ;
    let frame = Raster { width, height, data: packed };
    let shown = rotate(frame, pixel_rotation(rotation));
    match encode_jpeg(&shown, quality) {
        Ok(bytes) => Ok(bytes),
        Err(e) => Err(ProcessingError::Processing(e)),
    }
}

/// A frame scaled as planned gives a thumbnail of the planned size: for a
/// target above 0 the image shown is `target_width` wide, whatever the
/// rotation.
pub proof fn lemma_planned_thumbnail_is_target_wide(
    source_width: u32,
    source_height: u32,
    target_width: u32,
    rotation: Option<i32>,
)
    requires
        frame_plan_of(source_width, source_height, target_width, rotation) is Some,
    ensures
        ({
            let p = frame_plan_of(source_width, source_height, target_width, rotation).unwrap();
            &&& frame_thumbnail_size(p.scale_width, p.scale_height, rotation) == (
                p.out_width(),
                p.out_height(),
            )
            &&& target_width > 0 ==> p.out_width() == target_width
        }),
{
}

impl VideoProcessor {
    /// A video processor; the path of an external ffmpeg binary is kept for
    /// callers that want it.
    pub fn new(ffmpeg_path: Option<String>) -> (r: VideoProcessor)
        ensures
            r.ffmpeg_path == ffmpeg_path,
    {
        VideoProcessor { ffmpeg_path }
    }

    /// The metadata of a video file: what the container told, where it could
    /// be probed, and the MIME type by extension.
    pub fn process(&self, path: &str, probe: Option<VideoProbe>) -> (r: MediaMetadata)
        ensures
            r@ == video_metadata_of(path@, probe),
    {
        let mut metadata = MediaMetadata::blank();
        match probe {
            Some(p) => {
                metadata.width = p.width;
                metadata.height = p.height;
                metadata.duration_ms = p.duration_ms;
                metadata.video_codec = p.codec;
            },
            None => {},
        }
        match lowercase_extension(path) {
            Some(ext) => {
                metadata.mime_type = Some(video_mime_type(ext.as_str()));
            },
            None => {},
        }
        metadata
    }
}

/// The metadata that [`VideoProcessor::process`] returns.
pub open spec fn video_metadata_of(path: Seq<char>, probe: Option<VideoProbe>) -> MediaMetadataView {
    MediaMetadataView {
        mime_type: match lower_extension(path) {
            Some(e) => Some(video_mime_of(e)),
            None => None,
        },
        width: match probe {
            Some(p) => p.width,
            None => None,
        },
        height: match probe {
            Some(p) => p.height,
            None => None,
        },
        duration_ms: match probe {
            Some(p) => p.duration_ms,
            None => None,
        },
        video_codec: match probe {
            Some(p) => text_of(p.codec),
            None => None,
        },
        ..blank_metadata()
    }
}

impl MediaProcessor for VideoProcessor {
    open spec fn extensions(&self) -> Set<Seq<char>> {
        video_extensions()
    }

    open spec fn priority_spec(&self) -> int {
        10
    }

    open spec fn media_type_spec(&self) -> MediaType {
        MediaType::Video
    }

    fn supports(&self, path: &str) -> (r: bool) {
        match lowercase_extension(path) {
            Some(e) => {
                let ext = e.as_str();
                str_eq(ext, "mp4") || str_eq(ext, "avi") || str_eq(ext, "mov") || str_eq(
                    ext,
                    "mkv",
                ) || str_eq(ext, "wmv") || str_eq(ext, "flv") || str_eq(ext, "webm")
            },
            None => false,
        }
    }

    fn priority(&self) -> (r: i32) {
        10
    }

    fn media_type(&self) -> (r: MediaType) {
        MediaType::Video
    }
}

} // verus!
