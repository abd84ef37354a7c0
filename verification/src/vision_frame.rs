//! Binary `vision.frame` messages of the broker and their public JSON form.
use vstd::prelude::*;

use crate::broker_client::opt_text;
use crate::error::BridgeError;
use crate::json::{
    a_member_is_the_first_with_its_key, array_of, double_view, lemma_member_at, single_view, Json,
    JsonNumber, JsonView, ObjectBuilder,
};
use crate::mcp::{copy_bytes, object_view};
use crate::text::{first_replaced, join2, replace_first};

verus! {

/// Where the pixels of a frame stand in shared memory.
#[derive(Debug)]
pub struct BrokerFrameHandle {
    pub ring_path: String,
    pub slot: u32,
    pub slot_seq: u64,
    pub offset: u64,
    pub len: u32,
    pub ts_us: u64,
}

/// The viewport of a frame. Each field is the bit pattern of a double.
#[derive(Clone, Copy, Debug)]
pub struct BrokerViewport {
    pub offset_top: u64,
    pub page_scale_factor: u64,
    pub device_width: u64,
    pub device_height: u64,
    pub scroll_offset_x: u64,
    pub scroll_offset_y: u64,
    pub timestamp: u64,
}

/// A tile of the frame that changed.
#[derive(Clone, Copy, Debug)]
pub struct BrokerTileRect {
    pub tile_x: u32,
    pub tile_y: u32,
    pub x: u32,
    pub y: u32,
    pub w: u32,
    pub h: u32,
    pub prev_hash: u64,
    pub next_hash: u64,
}

/// A piece of text that was recognised. The confidence is the bit pattern of a single.
#[derive(Debug)]
pub struct BrokerOcrEntry {
    pub x: u32,
    pub y: u32,
    pub w: u32,
    pub h: u32,
    pub text: String,
    pub confidence: u32,
}

/// One captured frame. The stability is the bit pattern of a single.
#[derive(Debug)]
pub struct BrokerVisionFrameEvent {
    pub session_id: String,
    pub tab_id: String,
    pub ts_ms: u64,
    pub frame_seq: u64,
    pub captured_us: u64,
    pub frame_handle: BrokerFrameHandle,
    pub viewport: BrokerViewport,
    pub changed_tiles: Vec<BrokerTileRect>,
    pub ocr_delta: Vec<BrokerOcrEntry>,
    pub stability: Option<u32>,
    pub state: Option<String>,
}

/// What a frame handle is.
pub struct FrameHandleView {
    pub ring_path: Seq<char>,
    pub slot: u32,
    pub slot_seq: u64,
    pub offset: u64,
    pub len: u32,
    pub ts_us: u64,
}

/// What a recognised piece of text is.
pub struct OcrEntryView {
    pub x: u32,
    pub y: u32,
    pub w: u32,
    pub h: u32,
    pub text: Seq<char>,
    pub confidence: u32,
}

/// What a frame is.
pub struct FrameEventView {
    pub session_id: Seq<char>,
    pub tab_id: Seq<char>,
    pub ts_ms: u64,
    pub frame_seq: u64,
    pub captured_us: u64,
    pub frame_handle: FrameHandleView,
    pub viewport: BrokerViewport,
    pub changed_tiles: Seq<BrokerTileRect>,
    pub ocr_delta: Seq<OcrEntryView>,
    pub stability: Option<u32>,
    pub state: Option<Seq<char>>,
}

impl View for BrokerFrameHandle {
    type V = FrameHandleView;

    open spec fn view(&self) -> FrameHandleView {
        FrameHandleView {
            ring_path: self.ring_path@,
            slot: self.slot,
            slot_seq: self.slot_seq,
            offset: self.offset,
            len: self.len,
            ts_us: self.ts_us,
        }
    }
}

impl View for BrokerOcrEntry {
    type V = OcrEntryView;

    open spec fn view(&self) -> OcrEntryView {
        OcrEntryView {
            x: self.x,
            y: self.y,
            w: self.w,
            h: self.h,
            text: self.text@,
            confidence: self.confidence,
        }
    }
}

impl View for BrokerVisionFrameEvent {
    type V = FrameEventView;

    open spec fn view(&self) -> FrameEventView {
        FrameEventView {
            session_id: self.session_id@,
            tab_id: self.tab_id@,
            ts_ms: self.ts_ms,
            frame_seq: self.frame_seq,
            captured_us: self.captured_us,
            frame_handle: self.frame_handle@,
            viewport: self.viewport,
            changed_tiles: self.changed_tiles@,
            ocr_delta: self.ocr_delta@.map_values(|e: BrokerOcrEntry| e@),
            stability: self.stability,
            state: opt_text(self.state),
        }
    }
}

pub open spec fn uint_view(n: u64) -> JsonView {
    JsonView::Number(JsonNumber::PosInt(n))
}

pub open spec fn viewport_view(v: BrokerViewport) -> JsonView {
    object_view(
        seq![
            ("offset_top"@, double_view(v.offset_top)),
            ("page_scale_factor"@, double_view(v.page_scale_factor)),
            ("device_width"@, double_view(v.device_width)),
            ("device_height"@, double_view(v.device_height)),
            ("scroll_offset_x"@, double_view(v.scroll_offset_x)),
            ("scroll_offset_y"@, double_view(v.scroll_offset_y)),
            ("timestamp"@, double_view(v.timestamp)),
        ],
    )
}

fn viewport_json(v: &BrokerViewport) -> (j: Json)
    ensures
        j@ == viewport_view(*v),
{
    let mut b = ObjectBuilder::new();
    b.put("offset_top", Json::double(v.offset_top));
    b.put("page_scale_factor", Json::double(v.page_scale_factor));
    b.put("device_width", Json::double(v.device_width));
    b.put("device_height", Json::double(v.device_height));
    b.put("scroll_offset_x", Json::double(v.scroll_offset_x));
    b.put("scroll_offset_y", Json::double(v.scroll_offset_y));
    b.put("timestamp", Json::double(v.timestamp));
    assert(b@ =~= viewport_view(*v)->Object_0);
    b.done()
}

pub open spec fn frame_handle_view(h: FrameHandleView) -> JsonView {
    object_view(
        seq![
            ("shm_path"@, JsonView::String(h.ring_path)),
            ("slot_seq"@, uint_view(h.slot_seq)),
            ("slot_index"@, uint_view(h.slot as u64)),
            ("offset"@, uint_view(h.offset)),
            ("len"@, uint_view(h.len as u64)),
            ("ts_us"@, uint_view(h.ts_us)),
        ],
    )
}

fn frame_handle_json(h: &BrokerFrameHandle) -> (j: Json)
    ensures
        j@ == frame_handle_view(h@),
{
    let mut b = ObjectBuilder::new();
    b.put("shm_path", Json::text(h.ring_path.as_str()));
    b.put("slot_seq", Json::uint(h.slot_seq));
    b.put("slot_index", Json::uint(h.slot as u64));
    b.put("offset", Json::uint(h.offset));
    b.put("len", Json::uint(h.len as u64));
    b.put("ts_us", Json::uint(h.ts_us));
    assert(b@ =~= frame_handle_view(h@)->Object_0);
    b.done()
}

pub open spec fn bbox_view(x: u32, y: u32, w: u32, h: u32) -> JsonView {
    object_view(
        seq![
            ("x"@, uint_view(x as u64)),
            ("y"@, uint_view(y as u64)),
            ("w"@, uint_view(w as u64)),
            ("h"@, uint_view(h as u64)),
        ],
    )
}

fn bbox_json(x: u32, y: u32, w: u32, h: u32) -> (j: Json)
    ensures
        j@ == bbox_view(x, y, w, h),
{
    let mut b = ObjectBuilder::new();
    b.put("x", Json::uint(x as u64));
    b.put("y", Json::uint(y as u64));
    b.put("w", Json::uint(w as u64));
    b.put("h", Json::uint(h as u64));
    assert(b@ =~= bbox_view(x, y, w, h)->Object_0);
    b.done()
}

pub open spec fn tile_view(t: BrokerTileRect) -> JsonView {
    object_view(
        seq![
            ("tile_x"@, uint_view(t.tile_x as u64)),
            ("tile_y"@, uint_view(t.tile_y as u64)),
            ("bbox"@, bbox_view(t.x, t.y, t.w, t.h)),
            ("prev_hash"@, uint_view(t.prev_hash)),
            ("next_hash"@, uint_view(t.next_hash)),
        ],
    )
}

fn tile_json(t: &BrokerTileRect) -> (j: Json)
    ensures
        j@ == tile_view(*t),
{
    let mut b = ObjectBuilder::new();
    b.put("tile_x", Json::uint(t.tile_x as u64));
    b.put("tile_y", Json::uint(t.tile_y as u64));
    b.put("bbox", bbox_json(t.x, t.y, t.w, t.h));
    b.put("prev_hash", Json::uint(t.prev_hash));
    b.put("next_hash", Json::uint(t.next_hash));
    assert(b@ =~= tile_view(*t)->Object_0);
    b.done()
}

pub open spec fn ocr_view(e: OcrEntryView) -> JsonView {
    object_view(
        seq![
            ("bbox"@, bbox_view(e.x, e.y, e.w, e.h)),
            ("text"@, JsonView::String(e.text)),
            ("confidence"@, single_view(e.confidence)),
        ],
    )
}

fn ocr_json(e: &BrokerOcrEntry) -> (j: Json)
    ensures
        j@ == ocr_view(e@),
{
    let mut b = ObjectBuilder::new();
    b.put("bbox", bbox_json(e.x, e.y, e.w, e.h));
    b.put("text", Json::text(e.text.as_str()));
    b.put("confidence", Json::single(e.confidence));
    assert(b@ =~= ocr_view(e@)->Object_0);
    b.done()
}

/// The members that every frame has.
pub open spec fn frame_members(ev: FrameEventView) -> Seq<(Seq<char>, JsonView)> {
    seq![
        ("topic"@, JsonView::String("vision.frame"@)),
        ("session_id"@, JsonView::String(ev.session_id)),
        ("tab_id"@, JsonView::String(ev.tab_id)),
        ("seq"@, uint_view(ev.frame_seq)),
        ("captured_us"@, uint_view(ev.captured_us)),
        ("viewport"@, viewport_view(ev.viewport)),
        ("frame"@, frame_handle_view(ev.frame_handle)),
        (
            "changed_tiles"@,
            JsonView::Array(ev.changed_tiles.map_values(|t: BrokerTileRect| tile_view(t))),
        ),
        (
            "ocr_delta"@,
            JsonView::Array(ev.ocr_delta.map_values(|e: OcrEntryView| ocr_view(e))),
        ),
    ]
}

/// The public JSON form of a frame: stability and state only where they are known.
pub open spec fn frame_view(ev: FrameEventView) -> JsonView {
    let head = frame_members(ev);
    let with_stability = match ev.stability {
        Some(s) => head.push(("stability"@, single_view(s))),
        None => head,
    };
    let with_state = match ev.state {
        Some(s) => with_stability.push(("state"@, JsonView::String(s))),
        None => with_stability,
    };
    object_view(with_state)
}

/// The public JSON form of a frame.
pub fn broker_vision_frame_to_json(ev: &BrokerVisionFrameEvent) -> (j: Json)
    ensures
        j@ == frame_view(ev@),
{
    let mut tiles: Vec<Json> = Vec::new();
    let mut i: usize = 0;
    while i < ev.changed_tiles.len()
        invariant
            i <= ev.changed_tiles@.len(),
            tiles@.len() == i,
            forall|k: int| 0 <= k < i ==> (#[trigger] tiles@[k])@ == tile_view(ev.changed_tiles@[k]),
        decreases ev.changed_tiles@.len() - i,
    {
        tiles.push(tile_json(&ev.changed_tiles[i]));
        i += 1;
    }
    let tiles = array_of(tiles);
    assert(tiles@->Array_0 =~= ev.changed_tiles@.map_values(|t: BrokerTileRect| tile_view(t)));
    let mut entries: Vec<Json> = Vec::new();
    let mut k: usize = 0;
    while k < ev.ocr_delta.len()
        invariant
            k <= ev.ocr_delta@.len(),
            entries@.len() == k,
            forall|m: int| 0 <= m < k ==> (#[trigger] entries@[m])@ == ocr_view(ev.ocr_delta@[m]@),
        decreases ev.ocr_delta@.len() - k,
    {
        entries.push(ocr_json(&ev.ocr_delta[k]));
        k += 1;
    }
    let entries = array_of(entries);
    assert(entries@->Array_0 =~= ev@.ocr_delta.map_values(|e: OcrEntryView| ocr_view(e)));
    let mut b = ObjectBuilder::new();
    b.put("topic", Json::text("vision.frame"));
    b.put("session_id", Json::text(ev.session_id.as_str()));
    b.put("tab_id", Json::text(ev.tab_id.as_str()));
    b.put("seq", Json::uint(ev.frame_seq));
    b.put("captured_us", Json::uint(ev.captured_us));
    b.put("viewport", viewport_json(&ev.viewport));
    b.put("frame", frame_handle_json(&ev.frame_handle));
    b.put("changed_tiles", tiles);
    b.put("ocr_delta", entries);
    assert(b@ =~= frame_members(ev@));
    match ev.stability {
        Some(s) => {
            b.put("stability", Json::single(s));
        },
        None => {},
    }
    match &ev.state {
        Some(s) => {
            b.put("state", Json::text(s.as_str()));
        },
        None => {},
    }
    b.done()
}

/// The fields of a frame handle as they stand on the wire.
pub type HandleFields = (String, u32, u64, u64, u32, u64);

/// The fields of a viewport: the little-endian bytes of seven doubles.
pub type ViewportFields = ([u8; 8], [u8; 8], [u8; 8], [u8; 8], [u8; 8], [u8; 8], [u8; 8]);

/// The fields of a tile.
pub type TileFields = (u32, u32, u32, u32, u32, u32, u64, u64);

/// The fields of a piece of text; the last are the little-endian bytes of a single.
pub type OcrFields = (u32, u32, u32, u32, String, [u8; 4]);

/// The fields of a frame in wire order.
pub type FrameFields = (
    String,
    String,
    u64,
    u64,
    u64,
    HandleFields,
    ViewportFields,
    Vec<TileFields>,
    Vec<OcrFields>,
    Option<[u8; 4]>,
    Option<String>,
);

/// The number of eight bytes, the least one first.
pub open spec fn le64(b: Seq<u8>) -> int {
    b[0] + 0x100 * b[1] + 0x1_0000 * b[2] + 0x100_0000 * b[3] + 0x1_0000_0000 * b[4]
        + 0x100_0000_0000 * b[5] + 0x1_0000_0000_0000 * b[6] + 0x100_0000_0000_0000 * b[7]
}

/// The number of four bytes, the least one first.
pub open spec fn le32(b: Seq<u8>) -> int {
    b[0] + 0x100 * b[1] + 0x1_0000 * b[2] + 0x100_0000 * b[3]
}

/// What the fields of a handle are.
pub open spec fn handle_view(f: HandleFields) -> FrameHandleView {
    FrameHandleView {
        ring_path: f.0@,
        slot: f.1,
        slot_seq: f.2,
        offset: f.3,
        len: f.4,
        ts_us: f.5,
    }
}

/// What the fields of a viewport are.
pub open spec fn viewport_of(f: ViewportFields) -> BrokerViewport {
    BrokerViewport {
        offset_top: le64(f.0@) as u64,
        page_scale_factor: le64(f.1@) as u64,
        device_width: le64(f.2@) as u64,
        device_height: le64(f.3@) as u64,
        scroll_offset_x: le64(f.4@) as u64,
        scroll_offset_y: le64(f.5@) as u64,
        timestamp: le64(f.6@) as u64,
    }
}

/// What the fields of a tile are.
pub open spec fn tile_of(f: TileFields) -> BrokerTileRect {
    BrokerTileRect {
        tile_x: f.0,
        tile_y: f.1,
        x: f.2,
        y: f.3,
        w: f.4,
        h: f.5,
        prev_hash: f.6,
        next_hash: f.7,
    }
}

/// What the fields of a piece of text are.
pub open spec fn ocr_of(f: OcrFields) -> OcrEntryView {
    OcrEntryView { x: f.0, y: f.1, w: f.2, h: f.3, text: f.4@, confidence: le32(f.5@) as u32 }
}

/// What the fields of a frame are.
pub open spec fn fields_view(f: FrameFields) -> FrameEventView {
    FrameEventView {
        session_id: f.0@,
        tab_id: f.1@,
        ts_ms: f.2,
        frame_seq: f.3,
        captured_us: f.4,
        frame_handle: handle_view(f.5),
        viewport: viewport_of(f.6),
        changed_tiles: f.7@.map_values(|t: TileFields| tile_of(t)),
        ocr_delta: f.8@.map_values(|e: OcrFields| ocr_of(e)),
        stability: match f.9 {
            Some(b) => Some(le32(b@) as u32),
            None => None,
        },
        state: opt_text(f.10),
    }
}

/// The most bytes that a vector can take.
pub const MAX_VECTOR_BYTES: usize = isize::MAX as usize;

/// The frame that a payload encodes, or the decoder's message where it encodes none.
pub uninterp spec fn frame_decoded(payload: Seq<u8>) -> Result<FrameEventView, Seq<char>>;

/// `bincode::decode_from_slice` in the standard configuration, with the fields of a frame as
/// a tuple, which has the encoding of the struct; a double or a single stands as its
/// little-endian bytes. The limit only turns a declared length that no vector can have, on
/// which the decoder would panic, into an error. What the decoder makes of a payload is
/// named, not described.
#[verifier::external_body]
fn decode_fields(payload: &[u8]) -> (r: Result<FrameFields, String>)
    ensures
        match r {
            Ok(f) => frame_decoded(payload@) == Ok::<FrameEventView, Seq<char>>(fields_view(f)),
            Err(e) => frame_decoded(payload@) == Err::<FrameEventView, Seq<char>>(e@),
        },
{
    let config = bincode::config::standard().with_limit::<MAX_VECTOR_BYTES>();
    match bincode::decode_from_slice::<FrameFields, _>(payload, config) {
        Ok((fields, _)) => Ok(fields),
        Err(e) => Err(e.to_string()),
    }
}

/// What the decoder calls an optional single, which it sees as bytes.
pub const OPTIONAL_BYTES: &'static str = "core::option::Option<[u8; 4]>";

/// What an optional single is called.
pub const OPTIONAL_SINGLE: &'static str = "core::option::Option<f32>";

/// What is said of a payload that is no frame: the decoder's message, which calls an optional
/// single by its name.
pub open spec fn fault_message(text: Seq<char>) -> Seq<char> {
    first_replaced(text, OPTIONAL_BYTES@, OPTIONAL_SINGLE@)
}

/// Says what is wrong with a payload, where the decoder said `text`.
pub fn fault_text(text: &str) -> (s: String)
    ensures
        s@ == fault_message(text@),
{
    replace_first(text, OPTIONAL_BYTES, OPTIONAL_SINGLE)
}

fn u64_le(b: &[u8; 8]) -> (n: u64)
    ensures
        n == le64(b@),
{
    b[0] as u64 + 0x100 * (b[1] as u64) + 0x1_0000 * (b[2] as u64) + 0x100_0000 * (b[3] as u64)
        + 0x1_0000_0000 * (b[4] as u64) + 0x100_0000_0000 * (b[5] as u64) + 0x1_0000_0000_0000 * (
    b[6] as u64) + 0x100_0000_0000_0000 * (b[7] as u64)
}

fn u32_le(b: &[u8; 4]) -> (n: u32)
    ensures
        n == le32(b@),
{
    b[0] as u32 + 0x100 * (b[1] as u32) + 0x1_0000 * (b[2] as u32) + 0x100_0000 * (b[3] as u32)
}

/// The frame that these wire fields make up.
pub fn frame_of_fields(f: FrameFields) -> (ev: BrokerVisionFrameEvent)
    ensures
        ev@ == fields_view(f),
{
    let (session_id, tab_id, ts_ms, frame_seq, captured_us, handle, viewport, tiles, ocr, stab, state) =
        f;
    let (ring_path, slot, slot_seq, offset, len, ts_us) = handle;
    let mut changed_tiles: Vec<BrokerTileRect> = Vec::new();
    let mut i: usize = 0;
    while i < tiles.len()
        invariant
            i <= tiles@.len(),
            changed_tiles@.len() == i,
            forall|k: int| 0 <= k < i ==> #[trigger] changed_tiles@[k] == tile_of(tiles@[k]),
        decreases tiles@.len() - i,
    {
        let t = &tiles[i];
        changed_tiles.push(
            BrokerTileRect {
                tile_x: t.0,
                tile_y: t.1,
                x: t.2,
                y: t.3,
                w: t.4,
                h: t.5,
                prev_hash: t.6,
                next_hash: t.7,
            },
        );
        i += 1;
    }
    let mut ocr_delta: Vec<BrokerOcrEntry> = Vec::new();
    let mut j: usize = 0;
    while j < ocr.len()
        invariant
            j <= ocr@.len(),
            ocr_delta@.len() == j,
            forall|k: int| 0 <= k < j ==> (#[trigger] ocr_delta@[k])@ == ocr_of(ocr@[k]),
        decreases ocr@.len() - j,
    {
        let e = &ocr[j];
        ocr_delta.push(
            BrokerOcrEntry {
                x: e.0,
                y: e.1,
                w: e.2,
                h: e.3,
                text: e.4.clone(),
                confidence: u32_le(&e.5),
            },
        );
        j += 1;
    }
    let ev = BrokerVisionFrameEvent {
        session_id,
        tab_id,
        ts_ms,
        frame_seq,
        captured_us,
        frame_handle: BrokerFrameHandle { ring_path, slot, slot_seq, offset, len, ts_us },
        viewport: BrokerViewport {
            offset_top: u64_le(&viewport.0),
            page_scale_factor: u64_le(&viewport.1),
            device_width: u64_le(&viewport.2),
            device_height: u64_le(&viewport.3),
            scroll_offset_x: u64_le(&viewport.4),
            scroll_offset_y: u64_le(&viewport.5),
            timestamp: u64_le(&viewport.6),
        },
        changed_tiles,
        ocr_delta,
        stability: match stab {
            Some(b) => Some(u32_le(&b)),
            None => None,
        },
        state,
    };
    assert(ev@.changed_tiles =~= fields_view(f).changed_tiles);
    assert(ev@.ocr_delta =~= fields_view(f).ocr_delta);
    ev
}

/// What is wrong with the head of a binary message, if anything: it starts with the byte
/// one, followed by the length of the rest in four bytes, the least one first.
pub open spec fn head_fault(line: Seq<u8>) -> Option<Seq<char>> {
    if line.len() == 0 {
        Some("empty broker frame"@)
    } else if line[0] != 1 {
        Some("not a binary broker frame"@)
    } else if line.len() < 5 {
        Some("binary broker frame shorter than header"@)
    } else if line.len() != 5 + le32(line.subrange(1, 5)) {
        Some("binary broker frame length mismatch"@)
    } else {
        None
    }
}

/// The public JSON form of a binary message, or the fault of one that is malformed.
pub open spec fn binary_frame(line: Seq<u8>) -> Result<JsonView, Seq<char>> {
    match head_fault(line) {
        Some(msg) => Err(msg),
        None => match frame_decoded(line.skip(5)) {
            Ok(ev) => Ok(frame_view(ev)),
            Err(e) => Err("binary vision.frame decode: "@ + fault_message(e)),
        },
    }
}

/// Checks the head of a binary message and gives its payload.
pub fn binary_payload(line: &[u8]) -> (r: Result<Vec<u8>, BridgeError>)
    ensures
        match r {
            Ok(p) => head_fault(line@) is None && p@ == line@.skip(5),
            Err(BridgeError::Protocol(msg)) => head_fault(line@) == Some(msg@),
            Err(_) => false,
        },
{
    if line.len() == 0 {
        return Err(BridgeError::Protocol("empty broker frame".to_owned()));
    }
    if line[0] != 1 {
        return Err(BridgeError::Protocol("not a binary broker frame".to_owned()));
    }
    if line.len() < 5 {
        return Err(BridgeError::Protocol("binary broker frame shorter than header".to_owned()));
    }
    let len_bytes = [line[1], line[2], line[3], line[4]];
    assert(len_bytes@ =~= line@.subrange(1, 5));
    let len: u32 = u32_le(&len_bytes);
    if (line.len() - 5) as u64 != len as u64 {
        return Err(BridgeError::Protocol("binary broker frame length mismatch".to_owned()));
    }
    let p = copy_bytes(line, 5, line.len());
    assert(p@ =~= line@.skip(5));
    Ok(p)
}

/// Decodes a binary message into its public JSON form.
pub fn decode_binary_vision_frame(line: &[u8]) -> (r: Result<Json, BridgeError>)
    ensures
        match r {
            Ok(j) => binary_frame(line@) == Ok::<JsonView, Seq<char>>(j@),
            Err(BridgeError::Protocol(msg)) => binary_frame(line@) == Err::<JsonView, Seq<char>>(
                msg@,
            ),
            Err(_) => false,
        },
{
    let payload = match binary_payload(line) {
        Ok(p) => p,
        Err(e) => {
            return Err(e);
        },
    };
    match decode_fields(payload.as_slice()) {
        Ok(fields) => {
            let ev = frame_of_fields(fields);
            Ok(broker_vision_frame_to_json(&ev))
        },
        Err(e) => {
            let text = fault_text(e.as_str());
            Err(BridgeError::Protocol(join2("binary vision.frame decode: ", text.as_str())))
        },
    }
}

/// The JSON number of a natural number that fits in 64 bits.
pub open spec fn number(n: nat) -> JsonView {
    JsonView::Number(JsonNumber::PosInt(n as u64))
}

/// In the JSON of a frame, its handle stands field by field: where the pixels begin, how many
/// bytes they are, in which file and which slot.
pub proof fn handles_are_written_field_by_field(ev: BrokerVisionFrameEvent)
    ensures
        ({
            let h = ev.frame_handle;
            &&& frame_view(ev@).member("frame"@) matches Some(j)
            &&& j.member("shm_path"@) == Some(JsonView::String(h.ring_path@))
            &&& j.member("slot_seq"@) == Some(number(h.slot_seq as nat))
            &&& j.member("slot_index"@) == Some(number(h.slot as nat))
            &&& j.member("offset"@) == Some(number(h.offset as nat))
            &&& j.member("len"@) == Some(number(h.len as nat))
            &&& j.member("ts_us"@) == Some(number(h.ts_us as nat))
        }),
{
    reveal_strlit("topic");
    reveal_strlit("session_id");
    reveal_strlit("tab_id");
    reveal_strlit("seq");
    reveal_strlit("captured_us");
    reveal_strlit("viewport");
    reveal_strlit("frame");
    reveal_strlit("changed_tiles");
    reveal_strlit("ocr_delta");
    reveal_strlit("shm_path");
    reveal_strlit("slot_seq");
    reveal_strlit("slot_index");
    reveal_strlit("offset");
    reveal_strlit("len");
    reveal_strlit("ts_us");
    assert("topic"@.len() == 5 && "session_id"@.len() == 10 && "tab_id"@.len() == 6
        && "seq"@.len() == 3 && "captured_us"@.len() == 11 && "viewport"@.len() == 8
        && "frame"@.len() == 5 && "changed_tiles"@.len() == 13 && "ocr_delta"@.len() == 9
        && "shm_path"@.len() == 8 && "slot_seq"@.len() == 8 && "slot_index"@.len() == 10
        && "offset"@.len() == 6 && "len"@.len() == 3 && "ts_us"@.len() == 5 && "topic"@[0] == 't'
        && "frame"@[0] == 'f' && "topic"@[1] == 'o' && "ts_us"@[1] == 's'
        && "session_id"@[1] == 'e' && "slot_index"@[1] == 'l' && "tab_id"@[0] == 't'
        && "offset"@[0] == 'o' && "seq"@[0] == 's' && "len"@[0] == 'l' && "viewport"@[0] == 'v'
        && "shm_path"@[0] == 's' && "slot_seq"@[0] == 's' && "ts_us"@[0] == 't'
        && "shm_path"@[1] == 'h' && "slot_seq"@[1] == 'l');
    let m = frame_view(ev@)->Object_0;
    assert(m[0].0 == "topic"@ && m[1].0 == "session_id"@ && m[2].0 == "tab_id"@
        && m[3].0 == "seq"@ && m[4].0 == "captured_us"@ && m[5].0 == "viewport"@
        && m[6].0 == "frame"@ && m[7].0 == "changed_tiles"@ && m[8].0 == "ocr_delta"@);
    lemma_member_at(m, "frame"@, 6);
    let h = m[6].1->Object_0;
    assert(h[0].0 == "shm_path"@ && h[1].0 == "slot_seq"@ && h[2].0 == "slot_index"@
        && h[3].0 == "offset"@ && h[4].0 == "len"@ && h[5].0 == "ts_us"@);
    lemma_member_at(h, "shm_path"@, 0);
    lemma_member_at(h, "slot_seq"@, 1);
    lemma_member_at(h, "slot_index"@, 2);
    lemma_member_at(h, "offset"@, 3);
    lemma_member_at(h, "len"@, 4);
    lemma_member_at(h, "ts_us"@, 5);
}

/// In the JSON of a frame, its viewport stands field by field.
pub proof fn viewports_are_written_field_by_field(ev: BrokerVisionFrameEvent)
    ensures
        ({
            let v = ev.viewport;
            &&& frame_view(ev@).member("viewport"@) matches Some(j)
            &&& j.member("offset_top"@) == Some(double_view(v.offset_top))
            &&& j.member("page_scale_factor"@) == Some(double_view(v.page_scale_factor))
            &&& j.member("device_width"@) == Some(double_view(v.device_width))
            &&& j.member("device_height"@) == Some(double_view(v.device_height))
            &&& j.member("scroll_offset_x"@) == Some(double_view(v.scroll_offset_x))
            &&& j.member("scroll_offset_y"@) == Some(double_view(v.scroll_offset_y))
            &&& j.member("timestamp"@) == Some(double_view(v.timestamp))
        }),
{
    reveal_strlit("topic");
    reveal_strlit("session_id");
    reveal_strlit("tab_id");
    reveal_strlit("seq");
    reveal_strlit("captured_us");
    reveal_strlit("viewport");
    reveal_strlit("frame");
    reveal_strlit("changed_tiles");
    reveal_strlit("ocr_delta");
    reveal_strlit("offset_top");
    reveal_strlit("page_scale_factor");
    reveal_strlit("device_width");
    reveal_strlit("device_height");
    reveal_strlit("scroll_offset_x");
    reveal_strlit("scroll_offset_y");
    reveal_strlit("timestamp");
    assert("topic"@.len() == 5 && "session_id"@.len() == 10 && "tab_id"@.len() == 6
        && "seq"@.len() == 3 && "captured_us"@.len() == 11 && "viewport"@.len() == 8
        && "frame"@.len() == 5 && "changed_tiles"@.len() == 13 && "ocr_delta"@.len() == 9
        && "offset_top"@.len() == 10 && "page_scale_factor"@.len() == 17
        && "device_width"@.len() == 12 && "device_height"@.len() == 13
        && "scroll_offset_x"@.len() == 15 && "scroll_offset_y"@.len() == 15
        && "timestamp"@.len() == 9 && "topic"@[0] == 't' && "frame"@[0] == 'f'
        && "session_id"@[0] == 's' && "offset_top"@[0] == 'o' && "changed_tiles"@[0] == 'c'
        && "device_height"@[0] == 'd' && "ocr_delta"@[0] == 'o' && "timestamp"@[0] == 't'
        && "scroll_offset_x"@[14] == 'x' && "scroll_offset_y"@[14] == 'y');
    let m = frame_view(ev@)->Object_0;
    assert(m[0].0 == "topic"@ && m[1].0 == "session_id"@ && m[2].0 == "tab_id"@
        && m[3].0 == "seq"@ && m[4].0 == "captured_us"@ && m[5].0 == "viewport"@
        && m[6].0 == "frame"@ && m[7].0 == "changed_tiles"@ && m[8].0 == "ocr_delta"@);
    lemma_member_at(m, "viewport"@, 5);
    let v = m[5].1->Object_0;
    assert(v[0].0 == "offset_top"@ && v[1].0 == "page_scale_factor"@ && v[2].0 == "device_width"@
        && v[3].0 == "device_height"@ && v[4].0 == "scroll_offset_x"@
        && v[5].0 == "scroll_offset_y"@ && v[6].0 == "timestamp"@);
    lemma_member_at(v, "offset_top"@, 0);
    lemma_member_at(v, "page_scale_factor"@, 1);
    lemma_member_at(v, "device_width"@, 2);
    lemma_member_at(v, "device_height"@, 3);
    lemma_member_at(v, "scroll_offset_x"@, 4);
    lemma_member_at(v, "scroll_offset_y"@, 5);
    lemma_member_at(v, "timestamp"@, 6);
}

/// The JSON of a frame names its topic, session and tab, its number and when it was captured;
/// stability and state are there exactly where they are known.
pub proof fn frames_are_written_field_by_field(ev: BrokerVisionFrameEvent)
    ensures
        ({
            let j = frame_view(ev@);
            &&& j.member("topic"@) == Some(JsonView::String("vision.frame"@))
            &&& j.member("session_id"@) == Some(JsonView::String(ev.session_id@))
            &&& j.member("tab_id"@) == Some(JsonView::String(ev.tab_id@))
            &&& j.member("seq"@) == Some(number(ev.frame_seq as nat))
            &&& j.member("captured_us"@) == Some(number(ev.captured_us as nat))
            &&& match ev.stability {
                Some(bits) => j.member("stability"@) == Some(single_view(bits)),
                None => j.member("stability"@) is None,
            }
            &&& match ev.state {
                Some(s) => j.member("state"@) == Some(JsonView::String(s@)),
                None => j.member("state"@) is None,
            }
        }),
{
    reveal_strlit("topic");
    reveal_strlit("session_id");
    reveal_strlit("tab_id");
    reveal_strlit("seq");
    reveal_strlit("captured_us");
    reveal_strlit("viewport");
    reveal_strlit("frame");
    reveal_strlit("changed_tiles");
    reveal_strlit("ocr_delta");
    reveal_strlit("stability");
    reveal_strlit("state");
    assert("topic"@.len() == 5 && "session_id"@.len() == 10 && "tab_id"@.len() == 6
        && "seq"@.len() == 3 && "captured_us"@.len() == 11 && "viewport"@.len() == 8
        && "frame"@.len() == 5 && "changed_tiles"@.len() == 13 && "ocr_delta"@.len() == 9
        && "stability"@.len() == 9 && "state"@.len() == 5 && "topic"@[0] == 't'
        && "frame"@[0] == 'f' && "state"@[0] == 's' && "ocr_delta"@[0] == 'o'
        && "stability"@[0] == 's');
    let m = frame_view(ev@)->Object_0;
    assert(m[0].0 == "topic"@ && m[1].0 == "session_id"@ && m[2].0 == "tab_id"@
        && m[3].0 == "seq"@ && m[4].0 == "captured_us"@ && m[5].0 == "viewport"@
        && m[6].0 == "frame"@ && m[7].0 == "changed_tiles"@ && m[8].0 == "ocr_delta"@);
    lemma_member_at(m, "topic"@, 0);
    lemma_member_at(m, "session_id"@, 1);
    lemma_member_at(m, "tab_id"@, 2);
    lemma_member_at(m, "seq"@, 3);
    lemma_member_at(m, "captured_us"@, 4);
    if ev.stability is Some {
        assert(m[9].0 == "stability"@);
    }
    match ev.stability {
        Some(_) => {
            lemma_member_at(m, "stability"@, 9);
        },
        None => {
            a_member_is_the_first_with_its_key(m, "stability"@, m.len() as int);
        },
    }
    match ev.state {
        Some(_) => {
            lemma_member_at(m, "state"@, m.len() - 1);
        },
        None => {
            a_member_is_the_first_with_its_key(m, "state"@, m.len() as int);
        },
    }
}

/// Every tile that changed is in the JSON of the frame, in its place, with its box.
pub proof fn tiles_are_written_field_by_field(ev: BrokerVisionFrameEvent, i: int)
    ensures
        ({
            let t = ev.changed_tiles@[i];
            &&& frame_view(ev@).member("changed_tiles"@) matches Some(JsonView::Array(list))
            &&& list.len() == ev.changed_tiles@.len()
            &&& 0 <= i < list.len() ==> {
                &&& list[i].member("tile_x"@) == Some(number(t.tile_x as nat))
                &&& list[i].member("tile_y"@) == Some(number(t.tile_y as nat))
                &&& list[i].member("prev_hash"@) == Some(number(t.prev_hash as nat))
                &&& list[i].member("next_hash"@) == Some(number(t.next_hash as nat))
                &&& list[i].member("bbox"@) matches Some(b)
                &&& b.member("x"@) == Some(number(t.x as nat))
                &&& b.member("y"@) == Some(number(t.y as nat))
                &&& b.member("w"@) == Some(number(t.w as nat))
                &&& b.member("h"@) == Some(number(t.h as nat))
            }
        }),
{
    reveal_strlit("topic");
    reveal_strlit("session_id");
    reveal_strlit("tab_id");
    reveal_strlit("seq");
    reveal_strlit("captured_us");
    reveal_strlit("viewport");
    reveal_strlit("frame");
    reveal_strlit("changed_tiles");
    reveal_strlit("ocr_delta");
    reveal_strlit("tile_x");
    reveal_strlit("tile_y");
    reveal_strlit("bbox");
    reveal_strlit("prev_hash");
    reveal_strlit("next_hash");
    reveal_strlit("x");
    reveal_strlit("y");
    reveal_strlit("w");
    reveal_strlit("h");
    assert("topic"@.len() == 5 && "session_id"@.len() == 10 && "tab_id"@.len() == 6
        && "seq"@.len() == 3 && "captured_us"@.len() == 11 && "viewport"@.len() == 8
        && "frame"@.len() == 5 && "changed_tiles"@.len() == 13 && "ocr_delta"@.len() == 9
        && "tile_x"@.len() == 6 && "tile_y"@.len() == 6 && "bbox"@.len() == 4
        && "prev_hash"@.len() == 9 && "next_hash"@.len() == 9 && "x"@.len() == 1
        && "y"@.len() == 1 && "w"@.len() == 1 && "h"@.len() == 1 && "topic"@[0] == 't'
        && "frame"@[0] == 'f' && "tab_id"@[1] == 'a' && "tile_x"@[1] == 'i' && "tile_y"@[1] == 'i'
        && "ocr_delta"@[0] == 'o' && "prev_hash"@[0] == 'p' && "next_hash"@[0] == 'n'
        && "tile_x"@[5] == 'x' && "tile_y"@[5] == 'y' && "x"@[0] == 'x' && "y"@[0] == 'y'
        && "w"@[0] == 'w' && "h"@[0] == 'h');
    let m = frame_view(ev@)->Object_0;
    assert(m[0].0 == "topic"@ && m[1].0 == "session_id"@ && m[2].0 == "tab_id"@
        && m[3].0 == "seq"@ && m[4].0 == "captured_us"@ && m[5].0 == "viewport"@
        && m[6].0 == "frame"@ && m[7].0 == "changed_tiles"@ && m[8].0 == "ocr_delta"@);
    lemma_member_at(m, "changed_tiles"@, 7);
    if 0 <= i < ev.changed_tiles@.len() {
        let t = (m[7].1->Array_0)[i]->Object_0;
        assert(t[0].0 == "tile_x"@ && t[1].0 == "tile_y"@ && t[2].0 == "bbox"@
            && t[3].0 == "prev_hash"@ && t[4].0 == "next_hash"@);
        lemma_member_at(t, "tile_x"@, 0);
        lemma_member_at(t, "tile_y"@, 1);
        lemma_member_at(t, "bbox"@, 2);
        lemma_member_at(t, "prev_hash"@, 3);
        lemma_member_at(t, "next_hash"@, 4);
        let b = t[2].1->Object_0;
        assert(b[0].0 == "x"@ && b[1].0 == "y"@ && b[2].0 == "w"@ && b[3].0 == "h"@);
        lemma_member_at(b, "x"@, 0);
        lemma_member_at(b, "y"@, 1);
        lemma_member_at(b, "w"@, 2);
        lemma_member_at(b, "h"@, 3);
    }
}

/// Every piece of text that was recognised is in the JSON of the frame, in its place.
pub proof fn recognised_texts_are_written_field_by_field(ev: BrokerVisionFrameEvent, i: int)
    ensures
        ({
            let e = ev.ocr_delta@[i];
            &&& frame_view(ev@).member("ocr_delta"@) matches Some(JsonView::Array(list))
            &&& list.len() == ev.ocr_delta@.len()
            &&& 0 <= i < list.len() ==> {
                &&& list[i].member("text"@) == Some(JsonView::String(e.text@))
                &&& list[i].member("confidence"@) == Some(single_view(e.confidence))
                &&& list[i].member("bbox"@) matches Some(b)
                &&& b.member("x"@) == Some(number(e.x as nat))
                &&& b.member("y"@) == Some(number(e.y as nat))
                &&& b.member("w"@) == Some(number(e.w as nat))
                &&& b.member("h"@) == Some(number(e.h as nat))
            }
        }),
{
    reveal_strlit("topic");
    reveal_strlit("session_id");
    reveal_strlit("tab_id");
    reveal_strlit("seq");
    reveal_strlit("captured_us");
    reveal_strlit("viewport");
    reveal_strlit("frame");
    reveal_strlit("changed_tiles");
    reveal_strlit("ocr_delta");
    reveal_strlit("bbox");
    reveal_strlit("text");
    reveal_strlit("confidence");
    reveal_strlit("x");
    reveal_strlit("y");
    reveal_strlit("w");
    reveal_strlit("h");
    assert("topic"@.len() == 5 && "session_id"@.len() == 10 && "tab_id"@.len() == 6
        && "seq"@.len() == 3 && "captured_us"@.len() == 11 && "viewport"@.len() == 8
        && "frame"@.len() == 5 && "changed_tiles"@.len() == 13 && "ocr_delta"@.len() == 9
        && "bbox"@.len() == 4 && "text"@.len() == 4 && "confidence"@.len() == 10
        && "x"@.len() == 1 && "y"@.len() == 1 && "w"@.len() == 1 && "h"@.len() == 1
        && "topic"@[0] == 't' && "frame"@[0] == 'f' && "session_id"@[0] == 's'
        && "confidence"@[0] == 'c' && "bbox"@[0] == 'b' && "text"@[0] == 't' && "x"@[0] == 'x'
        && "y"@[0] == 'y' && "w"@[0] == 'w' && "h"@[0] == 'h');
    let m = frame_view(ev@)->Object_0;
    assert(m[0].0 == "topic"@ && m[1].0 == "session_id"@ && m[2].0 == "tab_id"@
        && m[3].0 == "seq"@ && m[4].0 == "captured_us"@ && m[5].0 == "viewport"@
        && m[6].0 == "frame"@ && m[7].0 == "changed_tiles"@ && m[8].0 == "ocr_delta"@);
    lemma_member_at(m, "ocr_delta"@, 8);
    if 0 <= i < ev.ocr_delta@.len() {
        let t = (m[8].1->Array_0)[i]->Object_0;
        assert(t[0].0 == "bbox"@ && t[1].0 == "text"@ && t[2].0 == "confidence"@);
        lemma_member_at(t, "bbox"@, 0);
        lemma_member_at(t, "text"@, 1);
        lemma_member_at(t, "confidence"@, 2);
        let b = t[0].1->Object_0;
        assert(b[0].0 == "x"@ && b[1].0 == "y"@ && b[2].0 == "w"@ && b[3].0 == "h"@);
        lemma_member_at(b, "x"@, 0);
        lemma_member_at(b, "y"@, 1);
        lemma_member_at(b, "w"@, 2);
        lemma_member_at(b, "h"@, 3);
    }
}

/// A little-endian number is its first byte and 256 times the number of the bytes behind it.
pub proof fn little_endian_numbers_begin_with_the_lowest_byte(b: Seq<u8>)
    requires
        b.len() == 8,
    ensures
        le32(b.take(4)) == le64(b) % 0x1_0000_0000,
        le32(b.skip(4)) == le64(b) / 0x1_0000_0000,
        le32(b) % 0x100 == b[0],
        (le32(b) / 0x100) % 0x100 == b[1],
        (le32(b) / 0x1_0000) % 0x100 == b[2],
        le32(b) / 0x100_0000 == b[3],
{
    let low = le32(b.take(4));
    let high = le32(b.skip(4));
    assert(le64(b) == low + 0x1_0000_0000 * high);
    assert(0 <= low < 0x1_0000_0000);
}

/// What is decoded is what stands on the wire, field by field and in wire order.
pub proof fn decoded_frames_keep_their_fields(f: FrameFields, i: int)
    ensures
        ({
            let ev = fields_view(f);
            &&& ev.session_id == f.0@
            &&& ev.tab_id == f.1@
            &&& ev.ts_ms == f.2
            &&& ev.frame_seq == f.3
            &&& ev.captured_us == f.4
            &&& ev.frame_handle.ring_path == f.5.0@
            &&& ev.frame_handle.slot == f.5.1
            &&& ev.frame_handle.slot_seq == f.5.2
            &&& ev.frame_handle.offset == f.5.3
            &&& ev.frame_handle.len == f.5.4
            &&& ev.frame_handle.ts_us == f.5.5
            &&& ev.viewport.offset_top == le64(f.6.0@)
            &&& ev.viewport.page_scale_factor == le64(f.6.1@)
            &&& ev.viewport.device_width == le64(f.6.2@)
            &&& ev.viewport.device_height == le64(f.6.3@)
            &&& ev.viewport.scroll_offset_x == le64(f.6.4@)
            &&& ev.viewport.scroll_offset_y == le64(f.6.5@)
            &&& ev.viewport.timestamp == le64(f.6.6@)
            &&& ev.changed_tiles.len() == f.7@.len()
            &&& 0 <= i < f.7@.len() ==> {
                let t = ev.changed_tiles[i];
                (t.tile_x, t.tile_y, t.x, t.y, t.w, t.h, t.prev_hash, t.next_hash) == f.7@[i]
            }
            &&& ev.ocr_delta.len() == f.8@.len()
            &&& 0 <= i < f.8@.len() ==> {
                let e = ev.ocr_delta[i];
                &&& (e.x, e.y, e.w, e.h) == (f.8@[i].0, f.8@[i].1, f.8@[i].2, f.8@[i].3)
                &&& e.text == f.8@[i].4@
                &&& e.confidence == le32(f.8@[i].5@)
            }
            &&& match f.9 {
                Some(b) => ev.stability matches Some(bits) && bits == le32(b@),
                None => ev.stability is None,
            }
            &&& match f.10 {
                Some(s) => ev.state == Some(s@),
                None => ev.state is None,
            }
        }),
{
}

/// A binary message is the byte one, the length of its payload in four bytes, the least one
/// first, and the payload. What the payload holds is the answer; a message of any other length
/// is refused.
pub proof fn binary_messages_declare_their_length(head: Seq<u8>, payload: Seq<u8>)
    requires
        head.len() == 4,
    ensures
        ({
            let line = seq![1u8] + head + payload;
            let n = head[0] + 256 * (head[1] + 256 * (head[2] + 256 * (head[3] as int)));
            &&& payload.len() == n ==> match frame_decoded(payload) {
                Ok(ev) => binary_frame(line) == Ok::<JsonView, Seq<char>>(frame_view(ev)),
                Err(e) => binary_frame(line) == Err::<JsonView, Seq<char>>(
                    "binary vision.frame decode: "@ + fault_message(e),
                ),
            }
            &&& payload.len() != n ==> binary_frame(line) == Err::<JsonView, Seq<char>>(
                "binary broker frame length mismatch"@,
            )
        }),
{
    let line = seq![1u8] + head + payload;
    assert(line.subrange(1, 5) =~= head);
    assert(line.skip(5) =~= payload);
    assert(line[0] == 1);
}

/// What is no binary message is refused with what is wrong with it.
pub proof fn other_messages_are_refused(line: Seq<u8>)
    ensures
        line.len() == 0 ==> binary_frame(line) == Err::<JsonView, Seq<char>>(
            "empty broker frame"@,
        ),
        line.len() > 0 && line[0] != 1 ==> binary_frame(line) == Err::<JsonView, Seq<char>>(
            "not a binary broker frame"@,
        ),
        0 < line.len() < 5 && line[0] == 1 ==> binary_frame(line) == Err::<JsonView, Seq<char>>(
            "binary broker frame shorter than header"@,
        ),
{
}

} // verus!
