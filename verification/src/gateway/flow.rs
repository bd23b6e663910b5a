//! Flow template: turns one declared input into the flow document that captures,
//! encodes, and pushes it to the cloud.
//!
//! ```text
//!   builtin.decklink_input        builtin.videoenc         builtin.mpegtssrt_output
//!   (or builtin.local_input)
//!        video_out  ---------->  video_in    encoded_out ---------->  video_in
//!        audio_out  ------------------------------------------------>  audio_in_0
//! ```
//!
//! Audio goes straight from capture to the TS output: that block encodes raw audio to
//! AAC itself, so no separate audio encoder block is needed. Block ids and property
//! names are Strom's.

use crate::config::{cross_at, lemma_crossed};
use crate::flow::{derived_id, flow_id as derive_id, uuid_text};
use crate::gateway::config::{CaptureConfig, InputConfig, VideoConfig};
use crate::json::{
    by_value, items_of, json_view, lemma_list_view, list_view, member, or_null, push_item,
    same_json, same_list, text_of, uint_of, Fields, Json, JsonView, Number,
};
use crate::text::{
    comes_before, dec, decimal, digits_value, find_char, is_digit,
    law_a_notation_names_one_number, law_a_number_is_read_up_to_the_limit, lemma_char_from,
    lemma_decimal_is_read_back, lemma_precedes_irreflexive,
    lemma_precedes_total, lemma_precedes_transitive, nonempty, parse_number, parsed_number,
    precedes, string_of, to_chars, trim, trimmed,
};
use vstd::prelude::*;

verus! {

pub const BLOCK_CAPTURE: &'static str = "capture";

pub const BLOCK_ENCODER: &'static str = "encoder";

pub const BLOCK_UPLINK: &'static str = "uplink";

pub const ELEMENT_TEST_VIDEO: &'static str = "testvideo";

pub const ELEMENT_TEST_AUDIO: &'static str = "testaudio";

pub const ELEMENT_TEST_VIDEO_CAPS: &'static str = "testvideocaps";

pub const ELEMENT_TEST_AUDIO_CAPS: &'static str = "testaudiocaps";

/// The doubles of the editor positions and of the test tone, by their bits.
pub const X_120: u64 = 0x405E_0000_0000_0000;

pub const Y_150: u64 = 0x4062_C000_0000_0000;

pub const X_250: u64 = 0x406F_4000_0000_0000;

pub const X_500: u64 = 0x407F_4000_0000_0000;

pub const HZ_1000: u64 = 0x408F_4000_0000_0000;

/// The id of an input's flow. The same gateway id and input id always address the same
/// flow, so a reboot needs no local state to find it.
pub fn flow_id(gateway_id: &str, input_id: &str) -> (r: String)
    ensures
        r@ == uuid_text(derived_id(gateway_id@, input_id@).value),
{
    derive_id(gateway_id, input_id).text()
}

// ---------------------------------------------------------------------------
// Parts of a flow document
// ---------------------------------------------------------------------------

pub open spec fn nothing() -> Map<Seq<char>, JsonView> {
    Map::empty()
}

pub open spec fn uint(n: nat) -> JsonView {
    JsonView::Number(Number::PosInt(n as u64))
}

pub open spec fn double(bits: u64) -> JsonView {
    JsonView::Number(by_value(Number::Float(bits)))
}

/// A signed number, as it is written.
pub open spec fn signed(n: i32) -> JsonView {
    if n < 0 {
        JsonView::Number(Number::NegInt(n as i64))
    } else {
        uint(n as nat)
    }
}

pub open spec fn block_json(
    id: Seq<char>,
    definition: Seq<char>,
    name: Seq<char>,
    properties: Map<Seq<char>, JsonView>,
    x: u64,
) -> JsonView {
    JsonView::Object(
        nothing().insert("id"@, JsonView::Text(id)).insert(
            "block_definition_id"@,
            JsonView::Text(definition),
        ).insert("name"@, JsonView::Text(name)).insert(
            "properties"@,
            JsonView::Object(properties),
        ).insert(
            "position"@,
            JsonView::Object(nothing().insert("x"@, double(x)).insert("y"@, double(0))),
        ),
    )
}

pub open spec fn element_json(
    id: Seq<char>,
    element_type: Seq<char>,
    properties: Map<Seq<char>, JsonView>,
    x: u64,
    y: u64,
) -> JsonView {
    JsonView::Object(
        nothing().insert("id"@, JsonView::Text(id)).insert(
            "element_type"@,
            JsonView::Text(element_type),
        ).insert("properties"@, JsonView::Object(properties)).insert(
            "position"@,
            JsonView::List(seq![double(x), double(y)]),
        ),
    )
}

pub open spec fn link_json(
    from_id: Seq<char>,
    from_pad: Seq<char>,
    to_id: Seq<char>,
    to_pad: Seq<char>,
) -> JsonView {
    JsonView::Object(
        nothing().insert("from"@, JsonView::Text(from_id + ":"@ + from_pad)).insert(
            "to"@,
            JsonView::Text(to_id + ":"@ + to_pad),
        ),
    )
}

fn float(bits: u64) -> (r: Json)
    ensures
        r@ == double(bits),
{
    Json::Number(Number::Float(bits))
}

fn block(id: &str, definition: &str, name: &str, properties: Fields, x: u64) -> (r: Json)
    ensures
        r@ == block_json(id@, definition@, name@, properties@, x),
{
    Fields::new().with("id", Json::text(id)).with(
        "block_definition_id",
        Json::text(definition),
    ).with("name", Json::text(name)).with("properties", properties.object()).with(
        "position",
        Fields::new().with("x", float(x)).with("y", float(0)).object(),
    ).object()
}

fn element(id: &str, element_type: &str, properties: Fields, x: u64, y: u64) -> (r: Json)
    ensures
        r@ == element_json(id@, element_type@, properties@, x, y),
{
    let mut position: Vec<Json> = Vec::new();
    push_item(&mut position, float(x));
    push_item(&mut position, float(y));
    assert(list_view(position@) =~= seq![double(x), double(y)]);
    Fields::new().with("id", Json::text(id)).with("element_type", Json::text(element_type)).with(
        "properties",
        properties.object(),
    ).with("position", Json::List(position)).object()
}

fn link(from_id: &str, from_pad: &str, to_id: &str, to_pad: &str) -> (r: Json)
    ensures
        r@ == link_json(from_id@, from_pad@, to_id@, to_pad@),
{
    let from = from_id.to_owned().concat(":").concat(from_pad);
    let to = to_id.to_owned().concat(":").concat(to_pad);
    Fields::new().with("from", Json::Text(from)).with("to", Json::Text(to)).object()
}

// ---------------------------------------------------------------------------
// Resolutions
// ---------------------------------------------------------------------------

/// Why a resolution was refused.
#[derive(Debug)]
pub enum ResolutionError {
    NotWxH { text: String },
    /// A side that is no number.
    Empty,
    NotDigits,
    TooLarge,
}

pub enum ResolutionFault {
    NotWxH(Seq<char>),
    Empty,
    NotDigits,
    TooLarge,
}

impl ResolutionError {
    pub open spec fn view(&self) -> ResolutionFault {
        match self {
            ResolutionError::NotWxH { text } => ResolutionFault::NotWxH(text@),
            ResolutionError::Empty => ResolutionFault::Empty,
            ResolutionError::NotDigits => ResolutionFault::NotDigits,
            ResolutionError::TooLarge => ResolutionFault::TooLarge,
        }
    }

    pub open spec fn text(&self) -> Seq<char> {
        match self@ {
            ResolutionFault::NotWxH(text) => "resolution must be WxH, got "@ + text,
            ResolutionFault::Empty => "cannot parse integer from empty string"@,
            ResolutionFault::NotDigits => "invalid digit found in string"@,
            ResolutionFault::TooLarge => "number too large to fit in target type"@,
        }
    }

    pub fn message(&self) -> (r: String)
        ensures
            r@ == self.text(),
    {
        match self {
            ResolutionError::NotWxH { text } => "resolution must be WxH, got ".to_owned().concat(
                text.as_str(),
            ),
            ResolutionError::Empty => "cannot parse integer from empty string".to_owned(),
            ResolutionError::NotDigits => "invalid digit found in string".to_owned(),
            ResolutionError::TooLarge => "number too large to fit in target type".to_owned(),
        }
    }
}

/// How far the digits reach from `i`.
pub open spec fn digits_end(s: Seq<char>, i: int) -> int
    decreases s.len() - i,
{
    if i < s.len() && is_digit(s[i]) {
        digits_end(s, i + 1)
    } else {
        i
    }
}

/// What is wrong with a text that is no number: the first trouble from the left.
pub open spec fn side_fault(s: Seq<char>) -> ResolutionFault {
    let d = if s.len() > 0 && s[0] == '+' {
        s.drop_first()
    } else {
        s
    };
    if s.len() == 0 {
        ResolutionFault::Empty
    } else if digits_value(d.subrange(0, digits_end(d, 0))) > u32::MAX {
        ResolutionFault::TooLarge
    } else {
        ResolutionFault::NotDigits
    }
}

pub open spec fn parsed_side(s: Seq<char>) -> Result<u32, ResolutionFault> {
    match parsed_number(s, u32::MAX as nat) {
        Some(n) => Ok(n as u32),
        None => Err(side_fault(s)),
    }
}

pub open spec fn parsed_size(s: Seq<char>) -> Result<(u32, u32), ResolutionFault> {
    let k = cross_at(s);
    if k >= s.len() {
        Err(ResolutionFault::NotWxH(s))
    } else {
        match parsed_side(trimmed(s.subrange(0, k))) {
            Err(e) => Err(e),
            Ok(w) => match parsed_side(trimmed(s.subrange(k + 1, s.len() as int))) {
                Err(e) => Err(e),
                Ok(h) => Ok((w, h)),
            },
        }
    }
}

pub open spec fn size_of<T>(r: Result<T, ResolutionError>) -> Result<T, ResolutionFault> {
    match r {
        Ok(v) => Ok(v),
        Err(e) => Err(e@),
    }
}

proof fn lemma_digits_grow(s: Seq<char>, i: int, j: int)
    requires
        0 <= i <= j <= s.len(),
    ensures
        digits_value(s.subrange(0, i)) <= digits_value(s.subrange(0, j)),
    decreases j - i,
{
    if i < j {
        assert(s.subrange(0, j).drop_last() =~= s.subrange(0, j - 1));
        lemma_digits_grow(s, i, j - 1);
    }
}

proof fn lemma_digits_end(s: Seq<char>, i: int)
    requires
        0 <= i <= s.len(),
    ensures
        i <= digits_end(s, i) <= s.len(),
    decreases s.len() - i,
{
    if i < s.len() && is_digit(s[i]) {
        lemma_digits_end(s, i + 1);
    }
}

/// What is wrong with a side of a resolution that is no number.
fn explain_side(s: &str) -> (r: ResolutionError)
    ensures
        r@ == side_fault(s@),
{
    let v = to_chars(s);
    if v.len() == 0 {
        return ResolutionError::Empty;
    }
    let from: usize = if v[0] == '+' {
        1
    } else {
        0
    };
    let ghost d = v@.subrange(from as int, v@.len() as int);
    proof {
        if from == 1 {
            assert(d =~= s@.drop_first());
        } else {
            assert(d =~= s@);
        }
    }
    let mut i: usize = from;
    let mut value: u64 = 0;
    while i < v.len() && '0' <= v[i] && v[i] <= '9'
        invariant
            0 <= from <= i <= v@.len(),
            d == v@.subrange(from as int, v@.len() as int),
            digits_end(d, 0) == digits_end(d, i - from),
            value == digits_value(d.subrange(0, i - from)),
            value <= u32::MAX,
            side_fault(s@) == (if digits_value(d.subrange(0, digits_end(d, 0))) > u32::MAX {
                ResolutionFault::TooLarge
            } else {
                ResolutionFault::NotDigits
            }),
        decreases v@.len() - i,
    {
        let c: char = v[i];
        assert(d[i - from] == c);
        let digit: u64 = (c as u32 - 48) as u64;
        assert(d.subrange(0, i - from + 1).drop_last() =~= d.subrange(0, i - from));
        value = value * 10 + digit;
        i = i + 1;
        if value > u32::MAX as u64 {
            proof {
                lemma_digits_end(d, i - from);
                lemma_digits_grow(d, i - from, digits_end(d, 0));
            }
            return ResolutionError::TooLarge;
        }
    }
    proof {
        if i < v@.len() {
            assert(d[i - from] == v@[i as int]);
        }
    }
    ResolutionError::NotDigits
}

fn parse_side(s: &str) -> (r: Result<u32, ResolutionError>)
    ensures
        size_of(r) == parsed_side(s@),
{
    match parse_number(s, u32::MAX as u64) {
        Some(n) => Ok(n as u32),
        None => Err(explain_side(s)),
    }
}

/// Splits a `WxH` resolution.
pub fn parse_resolution(resolution: &str) -> (r: Result<(u32, u32), ResolutionError>)
    ensures
        size_of(r) == parsed_size(resolution@),
{
    let v = to_chars(resolution);
    let small: usize = find_char(&v, 'x', 0);
    let large: usize = find_char(&v, 'X', 0);
    let k: usize = if small <= large {
        small
    } else {
        large
    };
    if k >= v.len() {
        return Err(ResolutionError::NotWxH { text: resolution.to_owned() });
    }
    let w: u32 = match parse_side(trim(string_of(&v, 0, k).as_str()).as_str()) {
        Ok(n) => n,
        Err(e) => return Err(e),
    };
    let h: u32 = match parse_side(trim(string_of(&v, k + 1, v.len()).as_str()).as_str()) {
        Ok(n) => n,
        Err(e) => return Err(e),
    };
    Ok((w, h))
}

// ---------------------------------------------------------------------------
// The capture stage
// ---------------------------------------------------------------------------

/// The capture stage and its links into the encoder and the uplink.
#[derive(Debug)]
pub struct CaptureStage {
    pub blocks: Vec<Json>,
    pub elements: Vec<Json>,
    pub links: Vec<Json>,
    pub has_audio: bool,
}

pub struct StageView {
    pub blocks: Seq<JsonView>,
    pub elements: Seq<JsonView>,
    pub links: Seq<JsonView>,
    pub has_audio: bool,
}

impl CaptureStage {
    pub open spec fn view(&self) -> StageView {
        StageView {
            blocks: list_view(self.blocks@),
            elements: list_view(self.elements@),
            links: list_view(self.links@),
            has_audio: self.has_audio,
        }
    }
}

pub open spec fn stream_mode(audio: bool) -> JsonView {
    JsonView::Text(
        if audio {
            "audio_video"@
        } else {
            "video"@
        },
    )
}

/// The links of a capture block: video into the encoder, audio around it.
pub open spec fn capture_links(audio: bool) -> Seq<JsonView> {
    let video = seq![link_json(BLOCK_CAPTURE@, "video_out"@, BLOCK_ENCODER@, "video_in"@)];
    if audio {
        video.push(link_json(BLOCK_CAPTURE@, "audio_out"@, BLOCK_UPLINK@, "audio_in_0"@))
    } else {
        video
    }
}

pub open spec fn decklink_properties(
    device_number: i32,
    connection: Seq<char>,
    mode: Seq<char>,
    video_format: Seq<char>,
    drop_no_signal_frames: bool,
    audio: bool,
) -> Map<Seq<char>, JsonView> {
    nothing().insert("device_number"@, signed(device_number)).insert(
        "connection"@,
        JsonView::Text(connection),
    ).insert("mode"@, JsonView::Text(mode)).insert(
        "video_format"@,
        JsonView::Text(video_format),
    ).insert("drop_no_signal_frames"@, JsonView::Bool(drop_no_signal_frames)).insert(
        "stream_mode"@,
        stream_mode(audio),
    )
}

/// A device is named only where there is one: without it Strom picks the OS default,
/// which is what a single-camera box wants.
pub open spec fn local_properties(
    video_device: Option<Seq<char>>,
    resolution: Seq<char>,
    framerate: Seq<char>,
    audio_device: Option<Seq<char>>,
    channels: u32,
    rate: u32,
) -> Map<Seq<char>, JsonView> {
    let base = nothing().insert("video_resolution"@, JsonView::Text(resolution)).insert(
        "video_framerate"@,
        JsonView::Text(framerate),
    ).insert("stream_mode"@, stream_mode(audio_device is Some));
    let video = match video_device {
        Some(device) => base.insert("video_device"@, JsonView::Text(device)),
        None => base,
    };
    match audio_device {
        Some(device) => video.insert("audio_device"@, JsonView::Text(device)).insert(
            "audio_channels"@,
            uint(channels as nat),
        ).insert("audio_rate"@, uint(rate as nat)),
        None => video,
    }
}

pub open spec fn video_caps(w: u32, h: u32, framerate: Seq<char>) -> Seq<char> {
    "video/x-raw,width="@ + dec(w as nat) + ",height="@ + dec(h as nat) + ",framerate="@ + framerate
}

pub open spec fn audio_caps(rate: u32, channels: u32) -> Seq<char> {
    "audio/x-raw,rate="@ + dec(rate as nat) + ",channels="@ + dec(channels as nat)
}

/// Raw elements rather than a block, with pinned caps: without them the sources
/// negotiate formats that tell nothing about a real uplink.
pub open spec fn test_stage(
    w: u32,
    h: u32,
    framerate: Seq<char>,
    rate: u32,
    channels: u32,
) -> StageView {
    StageView {
        blocks: Seq::empty(),
        elements: seq![
            element_json(
                ELEMENT_TEST_VIDEO@,
                "videotestsrc"@,
                nothing().insert("is-live"@, JsonView::Bool(true)).insert(
                    "pattern"@,
                    JsonView::Text("smpte"@),
                ),
                0,
                0,
            ),
            element_json(
                ELEMENT_TEST_VIDEO_CAPS@,
                "capsfilter"@,
                nothing().insert("caps"@, JsonView::Text(video_caps(w, h, framerate))),
                X_120,
                0,
            ),
            element_json(
                ELEMENT_TEST_AUDIO@,
                "audiotestsrc"@,
                nothing().insert("is-live"@, JsonView::Bool(true)).insert(
                    "wave"@,
                    JsonView::Text("sine"@),
                ).insert("freq"@, double(HZ_1000)),
                0,
                Y_150,
            ),
            element_json(
                ELEMENT_TEST_AUDIO_CAPS@,
                "capsfilter"@,
                nothing().insert("caps"@, JsonView::Text(audio_caps(rate, channels))),
                X_120,
                Y_150,
            ),
        ],
        links: seq![
            link_json(ELEMENT_TEST_VIDEO@, "src"@, ELEMENT_TEST_VIDEO_CAPS@, "sink"@),
            link_json(ELEMENT_TEST_VIDEO_CAPS@, "src"@, BLOCK_ENCODER@, "video_in"@),
            link_json(ELEMENT_TEST_AUDIO@, "src"@, ELEMENT_TEST_AUDIO_CAPS@, "sink"@),
            link_json(ELEMENT_TEST_AUDIO_CAPS@, "src"@, BLOCK_UPLINK@, "audio_in_0"@),
        ],
        has_audio: true,
    }
}

pub open spec fn stage_of(capture: CaptureConfig) -> Result<StageView, ResolutionFault> {
    match capture {
        CaptureConfig::Decklink {
            device_number,
            connection,
            mode,
            video_format,
            drop_no_signal_frames,
            audio,
        } => Ok(
            StageView {
                blocks: seq![
                    block_json(
                        BLOCK_CAPTURE@,
                        "builtin.decklink_input"@,
                        "SDI Capture"@,
                        decklink_properties(
                            device_number,
                            connection@,
                            mode@,
                            video_format@,
                            drop_no_signal_frames,
                            audio,
                        ),
                        0,
                    ),
                ],
                elements: Seq::empty(),
                links: capture_links(audio),
                has_audio: audio,
            },
        ),
        CaptureConfig::Local {
            video_device,
            video_resolution,
            video_framerate,
            audio_device,
            audio_channels,
            audio_rate,
        } => Ok(
            StageView {
                blocks: seq![
                    block_json(
                        BLOCK_CAPTURE@,
                        "builtin.local_input"@,
                        "USB Capture"@,
                        local_properties(
                            nonempty(video_device),
                            video_resolution@,
                            video_framerate@,
                            nonempty(audio_device),
                            audio_channels,
                            audio_rate,
                        ),
                        0,
                    ),
                ],
                elements: Seq::empty(),
                links: capture_links(nonempty(audio_device) is Some),
                has_audio: nonempty(audio_device) is Some,
            },
        ),
        CaptureConfig::Test { video_resolution, video_framerate, audio_rate, audio_channels } => {
            match parsed_size(video_resolution@) {
                Ok((w, h)) => Ok(test_stage(w, h, video_framerate@, audio_rate, audio_channels)),
                Err(e) => Err(e),
            }
        },
    }
}

fn mode_of(audio: bool) -> (r: Json)
    ensures
        r@ == stream_mode(audio),
{
    if audio {
        Json::text("audio_video")
    } else {
        Json::text("video")
    }
}

fn signed_number(n: i32) -> (r: Json)
    ensures
        r@ == signed(n),
{
    if n < 0 {
        Json::Number(Number::NegInt(n as i64))
    } else {
        Json::uint(n as u64)
    }
}

fn link_capture(audio: bool) -> (r: Vec<Json>)
    ensures
        list_view(r@) == capture_links(audio),
{
    let mut links: Vec<Json> = Vec::new();
    push_item(&mut links, link(BLOCK_CAPTURE, "video_out", BLOCK_ENCODER, "video_in"));
    assert(list_view(links@) =~= seq![
        link_json(BLOCK_CAPTURE@, "video_out"@, BLOCK_ENCODER@, "video_in"@),
    ]);
    if audio {
        push_item(&mut links, link(BLOCK_CAPTURE, "audio_out", BLOCK_UPLINK, "audio_in_0"));
    }
    links
}

fn capture_block_stage(only: Json, audio: bool) -> (r: CaptureStage)
    ensures
        r@ == (StageView {
            blocks: seq![only@],
            elements: Seq::empty(),
            links: capture_links(audio),
            has_audio: audio,
        }),
{
    let mut blocks: Vec<Json> = Vec::new();
    let ghost block = only@;
    push_item(&mut blocks, only);
    assert(list_view(blocks@) =~= seq![block]);
    CaptureStage { blocks, elements: Vec::new(), links: link_capture(audio), has_audio: audio }
}

fn test_capture(w: u32, h: u32, framerate: &str, rate: u32, channels: u32) -> (r: CaptureStage)
    ensures
        r@ == test_stage(w, h, framerate@, rate, channels),
{
    let video = "video/x-raw,width=".to_owned().concat(decimal(w as u64).as_str()).concat(
        ",height=",
    ).concat(decimal(h as u64).as_str()).concat(",framerate=").concat(framerate);
    let audio = "audio/x-raw,rate=".to_owned().concat(decimal(rate as u64).as_str()).concat(
        ",channels=",
    ).concat(decimal(channels as u64).as_str());
    let mut elements: Vec<Json> = Vec::new();
    push_item(
        &mut elements,
        element(
            ELEMENT_TEST_VIDEO,
            "videotestsrc",
            Fields::new().with("is-live", Json::Bool(true)).with("pattern", Json::text("smpte")),
            0,
            0,
        ),
    );
    push_item(
        &mut elements,
        element(
            ELEMENT_TEST_VIDEO_CAPS,
            "capsfilter",
            Fields::new().with("caps", Json::Text(video)),
            X_120,
            0,
        ),
    );
    push_item(
        &mut elements,
        element(
            ELEMENT_TEST_AUDIO,
            "audiotestsrc",
            Fields::new().with("is-live", Json::Bool(true)).with("wave", Json::text("sine")).with(
                "freq",
                float(HZ_1000),
            ),
            0,
            Y_150,
        ),
    );
    push_item(
        &mut elements,
        element(
            ELEMENT_TEST_AUDIO_CAPS,
            "capsfilter",
            Fields::new().with("caps", Json::Text(audio)),
            X_120,
            Y_150,
        ),
    );
    let mut links: Vec<Json> = Vec::new();
    push_item(&mut links, link(ELEMENT_TEST_VIDEO, "src", ELEMENT_TEST_VIDEO_CAPS, "sink"));
    push_item(&mut links, link(ELEMENT_TEST_VIDEO_CAPS, "src", BLOCK_ENCODER, "video_in"));
    push_item(&mut links, link(ELEMENT_TEST_AUDIO, "src", ELEMENT_TEST_AUDIO_CAPS, "sink"));
    push_item(&mut links, link(ELEMENT_TEST_AUDIO_CAPS, "src", BLOCK_UPLINK, "audio_in_0"));
    let stage = CaptureStage { blocks: Vec::new(), elements, links, has_audio: true };
    proof {
        let want = test_stage(w, h, framerate@, rate, channels);
        assert(stage@.elements =~= want.elements);
        assert(stage@.links =~= want.links);
        assert(stage@.blocks =~= want.blocks);
    }
    stage
}

fn nonempty_ref(o: &Option<String>) -> (r: Option<&str>)
    ensures
        match r {
            Some(s) => nonempty(*o) == Some(s@),
            None => nonempty(*o) is None,
        },
{
    match o {
        Some(s) => if s.as_str().is_empty() {
            None
        } else {
            Some(s.as_str())
        },
        None => None,
    }
}

pub open spec fn stage_outcome(r: Result<CaptureStage, ResolutionError>) -> Result<
    StageView,
    ResolutionFault,
> {
    match r {
        Ok(stage) => Ok(stage@),
        Err(e) => Err(e@),
    }
}

/// Builds the capture stage and its links into the encoder and the uplink.
pub fn capture_stage(capture: &CaptureConfig) -> (r: Result<CaptureStage, ResolutionError>)
    ensures
        stage_outcome(r) == stage_of(*capture),
{
    match capture {
        CaptureConfig::Decklink {
            device_number,
            connection,
            mode,
            video_format,
            drop_no_signal_frames,
            audio,
        } => {
            let properties = Fields::new().with(
                "device_number",
                signed_number(*device_number),
            ).with("connection", Json::text(connection.as_str())).with(
                "mode",
                Json::text(mode.as_str()),
            ).with("video_format", Json::text(video_format.as_str())).with(
                "drop_no_signal_frames",
                Json::Bool(*drop_no_signal_frames),
            ).with("stream_mode", mode_of(*audio));
            let only = block(BLOCK_CAPTURE, "builtin.decklink_input", "SDI Capture", properties, 0);
            Ok(capture_block_stage(only, *audio))
        },
        CaptureConfig::Local {
            video_device,
            video_resolution,
            video_framerate,
            audio_device,
            audio_channels,
            audio_rate,
        } => {
            let microphone = nonempty_ref(audio_device);
            let audio = microphone.is_some();
            let mut properties = Fields::new().with(
                "video_resolution",
                Json::text(video_resolution.as_str()),
            ).with("video_framerate", Json::text(video_framerate.as_str())).with(
                "stream_mode",
                mode_of(audio),
            );
            if let Some(device) = nonempty_ref(video_device) {
                properties = properties.with("video_device", Json::text(device));
            }
            if let Some(device) = microphone {
                properties = properties.with("audio_device", Json::text(device)).with(
                    "audio_channels",
                    Json::uint(*audio_channels as u64),
                ).with("audio_rate", Json::uint(*audio_rate as u64));
            }
            let only = block(BLOCK_CAPTURE, "builtin.local_input", "USB Capture", properties, 0);
            Ok(capture_block_stage(only, audio))
        },
        CaptureConfig::Test { video_resolution, video_framerate, audio_rate, audio_channels } => {
            match parse_resolution(video_resolution.as_str()) {
                Ok((w, h)) => Ok(
                    test_capture(w, h, video_framerate.as_str(), *audio_rate, *audio_channels),
                ),
                Err(e) => Err(e),
            }
        },
    }
}

// ---------------------------------------------------------------------------
// The flow
// ---------------------------------------------------------------------------

pub open spec fn encoder_json(video: VideoConfig) -> JsonView {
    block_json(
        BLOCK_ENCODER@,
        "builtin.videoenc"@,
        "Encoder"@,
        nothing().insert("codec"@, JsonView::Text(video.codec@)).insert(
            "encoder_preference"@,
            JsonView::Text(video.encoder_preference@),
        ).insert("bitrate"@, uint(video.bitrate_kbps as nat)).insert(
            "quality_preset"@,
            JsonView::Text(video.quality_preset@),
        ).insert("tune"@, JsonView::Text(video.tune@)).insert(
            "rate_control"@,
            JsonView::Text(video.rate_control@),
        ).insert("keyframe_interval"@, uint(video.keyframe_interval as nat)),
        X_250,
    )
}

/// Declaring an audio track that the flow does not deliver would leave the output
/// waiting on a pad that never produces.
pub open spec fn uplink_json(uri: Seq<char>, latency_ms: u32, audio: bool) -> JsonView {
    block_json(
        BLOCK_UPLINK@,
        "builtin.mpegtssrt_output"@,
        "SRT Uplink"@,
        nothing().insert("srt_uri"@, JsonView::Text(uri)).insert(
            "latency"@,
            uint(latency_ms as nat),
        ).insert("num_video_tracks"@, uint(1)).insert(
            "num_audio_tracks"@,
            uint(
                if audio {
                    1
                } else {
                    0
                },
            ),
        ),
        X_500,
    )
}

pub open spec fn flow_document(
    gateway_id: Seq<char>,
    gateway_name: Seq<char>,
    input: InputConfig,
    stage: StageView,
) -> JsonView {
    JsonView::Object(
        nothing().insert(
            "id"@,
            JsonView::Text(uuid_text(derived_id(gateway_id, input.id@).value)),
        ).insert("name"@, JsonView::Text(gateway_name + " — "@ + input.id@ + " uplink"@)).insert(
            "elements"@,
            JsonView::List(stage.elements),
        ).insert(
            "blocks"@,
            JsonView::List(
                stage.blocks.push(encoder_json(input.video)).push(
                    uplink_json(
                        input.uplink.venue_address(),
                        input.uplink.latency_ms,
                        stage.has_audio,
                    ),
                ),
            ),
        ).insert(
            "links"@,
            JsonView::List(
                stage.links.push(
                    link_json(BLOCK_ENCODER@, "encoded_out"@, BLOCK_UPLINK@, "video_in"@),
                ),
            ),
        ),
    )
}

pub open spec fn built(
    gateway_id: Seq<char>,
    gateway_name: Seq<char>,
    input: InputConfig,
) -> Result<JsonView, ResolutionFault> {
    match stage_of(input.capture) {
        Ok(stage) => Ok(flow_document(gateway_id, gateway_name, input, stage)),
        Err(e) => Err(e),
    }
}

pub open spec fn build_outcome(r: Result<Json, ResolutionError>) -> Result<
    JsonView,
    ResolutionFault,
> {
    match r {
        Ok(flow) => Ok(flow@),
        Err(e) => Err(e@),
    }
}

/// Builds the complete flow document for one input.
pub fn build(gateway_id: &str, gateway_name: &str, input: &InputConfig) -> (r: Result<
    Json,
    ResolutionError,
>)
    ensures
        build_outcome(r) == built(gateway_id@, gateway_name@, *input),
{
    let id = flow_id(gateway_id, input.id.as_str());
    let stage = match capture_stage(&input.capture) {
        Ok(stage) => stage,
        Err(e) => return Err(e),
    };
    let mut blocks = stage.blocks;
    let mut links = stage.links;
    let video = &input.video;
    let encoder = Fields::new().with("codec", Json::text(video.codec.as_str())).with(
        "encoder_preference",
        Json::text(video.encoder_preference.as_str()),
    ).with("bitrate", Json::uint(video.bitrate_kbps as u64)).with(
        "quality_preset",
        Json::text(video.quality_preset.as_str()),
    ).with("tune", Json::text(video.tune.as_str())).with(
        "rate_control",
        Json::text(video.rate_control.as_str()),
    ).with("keyframe_interval", Json::uint(video.keyframe_interval as u64));
    push_item(&mut blocks, block(BLOCK_ENCODER, "builtin.videoenc", "Encoder", encoder, X_250));
    let tracks: u64 = if stage.has_audio {
        1
    } else {
        0
    };
    let uplink = Fields::new().with("srt_uri", Json::Text(input.uplink.venue_uri())).with(
        "latency",
        Json::uint(input.uplink.latency_ms as u64),
    ).with("num_video_tracks", Json::uint(1)).with("num_audio_tracks", Json::uint(tracks));
    push_item(
        &mut blocks,
        block(BLOCK_UPLINK, "builtin.mpegtssrt_output", "SRT Uplink", uplink, X_500),
    );
    push_item(&mut links, link(BLOCK_ENCODER, "encoded_out", BLOCK_UPLINK, "video_in"));
    let name = gateway_name.to_owned().concat(" — ").concat(input.id.as_str()).concat(" uplink");
    Ok(
        Fields::new().with("id", Json::Text(id)).with("name", Json::Text(name)).with(
            "elements",
            Json::List(stage.elements),
        ).with("blocks", Json::List(blocks)).with("links", Json::List(links)).object(),
    )
}

pub proof fn lemma_block_members(
    id: Seq<char>,
    definition: Seq<char>,
    name: Seq<char>,
    properties: Map<Seq<char>, JsonView>,
    x: u64,
)
    ensures
        ({
            let b = block_json(id, definition, name, properties, x);
            &&& member(b, "id"@) == Some(JsonView::Text(id))
            &&& member(b, "block_definition_id"@) == Some(JsonView::Text(definition))
            &&& member(b, "properties"@) == Some(JsonView::Object(properties))
        }),
{
    reveal_strlit("id");
    reveal_strlit("block_definition_id");
    reveal_strlit("name");
    reveal_strlit("properties");
    reveal_strlit("position");
    assert("id"@.len() == 2 && "block_definition_id"@.len() == 19 && "name"@.len() == 4
        && "properties"@.len() == 10 && "position"@.len() == 8);
}

pub proof fn lemma_document_members(
    gateway_id: Seq<char>,
    gateway_name: Seq<char>,
    input: InputConfig,
    stage: StageView,
)
    ensures
        ({
            let f = flow_document(gateway_id, gateway_name, input, stage);
            &&& member(f, "elements"@) == Some(JsonView::List(stage.elements))
            &&& member(f, "blocks"@) == Some(
                JsonView::List(
                    stage.blocks.push(encoder_json(input.video)).push(
                        uplink_json(
                            input.uplink.venue_address(),
                            input.uplink.latency_ms,
                            stage.has_audio,
                        ),
                    ),
                ),
            )
        }),
{
    reveal_strlit("id");
    reveal_strlit("name");
    reveal_strlit("elements");
    reveal_strlit("blocks");
    reveal_strlit("links");
    assert("id"@.len() == 2 && "name"@.len() == 4 && "elements"@.len() == 8 && "blocks"@.len() == 6
        && "links"@.len() == 5);
}

// ---------------------------------------------------------------------------
// Drift
// ---------------------------------------------------------------------------

/// What the gateway owns of a block. Positions, computed pads and whatever else Strom
/// adds are not part of it.
pub open spec fn owned_block(b: JsonView) -> JsonView {
    JsonView::Object(
        nothing().insert("id"@, or_null(member(b, "id"@))).insert(
            "block_definition_id"@,
            or_null(member(b, "block_definition_id"@)),
        ).insert("properties"@, or_null(member(b, "properties"@))),
    )
}

pub open spec fn owned_element(e: JsonView) -> JsonView {
    JsonView::Object(
        nothing().insert("id"@, or_null(member(e, "id"@))).insert(
            "element_type"@,
            or_null(member(e, "element_type"@)),
        ).insert("properties"@, or_null(member(e, "properties"@))),
    )
}

pub open spec fn text_or_empty(j: Option<JsonView>) -> Seq<char> {
    match text_of(j) {
        Some(s) => s,
        None => Seq::empty(),
    }
}

/// A link as one text.
pub open spec fn link_text(l: JsonView) -> JsonView {
    JsonView::Text(text_or_empty(member(l, "from"@)) + "->"@ + text_or_empty(member(l, "to"@)))
}

/// What items are put in order by: the id of a block or element, a text itself.
pub open spec fn sort_key(j: JsonView) -> Seq<char> {
    match j {
        JsonView::Text(s) => s,
        _ => text_or_empty(member(j, "id"@)),
    }
}

/// The position behind every item whose key does not come after `key`.
pub open spec fn place(s: Seq<JsonView>, key: Seq<char>) -> int
    decreases s.len(),
{
    if s.len() == 0 || !precedes(key, sort_key(s.last())) {
        s.len() as int
    } else {
        place(s.drop_last(), key)
    }
}

/// In the order of their keys; items of one key stay in the order given.
pub open spec fn by_key(s: Seq<JsonView>) -> Seq<JsonView>
    decreases s.len(),
{
    if s.len() == 0 {
        Seq::empty()
    } else {
        let before = by_key(s.drop_last());
        before.insert(place(before, sort_key(s.last())), s.last())
    }
}

pub open spec fn owned_blocks(flow: JsonView) -> Seq<JsonView> {
    items_of(member(flow, "blocks"@)).map_values(|b: JsonView| owned_block(b))
}

pub open spec fn owned_elements(flow: JsonView) -> Seq<JsonView> {
    items_of(member(flow, "elements"@)).map_values(|e: JsonView| owned_element(e))
}

pub open spec fn link_texts(flow: JsonView) -> Seq<JsonView> {
    items_of(member(flow, "links"@)).map_values(|l: JsonView| link_text(l))
}

/// Whether the flow Strom holds differs from the wanted one in something the gateway
/// owns.
pub open spec fn drifted(existing: JsonView, desired: JsonView) -> bool {
    ||| member(existing, "name"@) != member(desired, "name"@)
    ||| by_key(owned_blocks(existing)) != by_key(owned_blocks(desired))
    ||| by_key(owned_elements(existing)) != by_key(owned_elements(desired))
    ||| by_key(link_texts(existing)) != by_key(link_texts(desired))
}

/// What a part of a flow is compared by.
#[derive(Clone, Copy, Debug, PartialEq, Eq, Structural)]
enum Part {
    Blocks,
    Elements,
    Links,
}

spec fn owned_item(item: JsonView, part: Part) -> JsonView {
    match part {
        Part::Blocks => owned_block(item),
        Part::Elements => owned_element(item),
        Part::Links => link_text(item),
    }
}

spec fn part_items(flow: JsonView, part: Part) -> Seq<JsonView> {
    match part {
        Part::Blocks => owned_blocks(flow),
        Part::Elements => owned_elements(flow),
        Part::Links => link_texts(flow),
    }
}

fn member_or_null(j: &Json, key: &str) -> (r: Json)
    ensures
        r@ == or_null(member(j@, key@)),
{
    match j.get(key) {
        Some(v) => v.copy(),
        None => Json::Null,
    }
}

fn member_text(j: &Json, key: &str) -> (r: String)
    ensures
        r@ == text_or_empty(member(j@, key@)),
{
    match j.text_at(key) {
        Some(s) => s.to_owned(),
        None => String::new(),
    }
}

fn owned_part(item: &Json, part: Part) -> (r: Json)
    ensures
        r@ == owned_item(item@, part),
{
    match part {
        Part::Blocks => Fields::new().with("id", member_or_null(item, "id")).with(
            "block_definition_id",
            member_or_null(item, "block_definition_id"),
        ).with("properties", member_or_null(item, "properties")).object(),
        Part::Elements => Fields::new().with("id", member_or_null(item, "id")).with(
            "element_type",
            member_or_null(item, "element_type"),
        ).with("properties", member_or_null(item, "properties")).object(),
        Part::Links => Json::Text(
            member_text(item, "from").concat("->").concat(member_text(item, "to").as_str()),
        ),
    }
}

fn key_of(item: &Json) -> (r: String)
    ensures
        r@ == sort_key(item@),
{
    match item {
        Json::Text(s) => s.clone(),
        _ => member_text(item, "id"),
    }
}

proof fn lemma_list_insert(s: Seq<Json>, k: int, item: Json)
    requires
        0 <= k <= s.len(),
    ensures
        list_view(s.insert(k, item)) == list_view(s).insert(k, item@),
{
    lemma_list_view(s);
    lemma_list_view(s.insert(k, item));
    assert(list_view(s.insert(k, item)) =~= list_view(s).insert(k, item@));
}

fn insert_by_key(out: &mut Vec<Json>, item: Json)
    ensures
        list_view(final(out)@) == list_view(old(out)@).insert(
            place(list_view(old(out)@), sort_key(item@)),
            item@,
        ),
{
    let key = key_of(&item);
    let ghost before = list_view(out@);
    proof {
        lemma_list_view(out@);
    }
    let mut at: usize = out.len();
    assert(before.subrange(0, at as int) =~= before);
    while at > 0
        invariant_except_break
            place(before, key@) == place(before.subrange(0, at as int), key@),
        invariant
            at <= out@.len(),
            before == list_view(out@),
            before.len() == out@.len(),
            forall|i: int| 0 <= i < out@.len() ==> #[trigger] before[i] == json_view(out@[i]),
        ensures
            place(before, key@) == at,
        decreases at,
    {
        let other = key_of(&out[at - 1]);
        assert(before[at - 1] == out@[at - 1]@);
        assert(before.subrange(0, at as int).last() == before[at - 1]);
        if !comes_before(key.as_str(), other.as_str()) {
            break;
        }
        assert(before.subrange(0, at as int).drop_last() =~= before.subrange(0, at - 1));
        at = at - 1;
    }
    proof {
        lemma_list_insert(out@, at as int, item);
    }
    out.insert(at, item);
}

fn part_of(flow: &Json, key: &str, part: Part) -> (r: Vec<Json>)
    requires
        part_items(flow@, part) == items_of(member(flow@, key@)).map_values(
            |b: JsonView| owned_item(b, part),
        ),
    ensures
        list_view(r@) == by_key(part_items(flow@, part)),
{
    let mut out: Vec<Json> = Vec::new();
    let ghost wanted = part_items(flow@, part);
    let items = match flow.get(key) {
        Some(v) => match v.as_list() {
            Some(items) => items,
            None => {
                assert(wanted =~= Seq::empty());
                return out;
            },
        },
        None => {
            assert(wanted =~= Seq::empty());
            return out;
        },
    };
    proof {
        lemma_list_view(items@);
    }
    let mut i: usize = 0;
    while i < items.len()
        invariant
            i <= items@.len(),
            wanted.len() == items@.len(),
            forall|j: int|
                0 <= j < items@.len() ==> #[trigger] wanted[j] == owned_item(items@[j]@, part),
            list_view(out@) == by_key(wanted.subrange(0, i as int)),
        decreases items@.len() - i,
    {
        assert(wanted.subrange(0, i + 1).drop_last() =~= wanted.subrange(0, i as int));
        assert(wanted.subrange(0, i + 1).last() == wanted[i as int]);
        insert_by_key(&mut out, owned_part(&items[i], part));
        i = i + 1;
    }
    assert(wanted.subrange(0, wanted.len() as int) =~= wanted);
    out
}

fn shape_part(flow: &Json, part: Part) -> (r: Vec<Json>)
    ensures
        list_view(r@) == by_key(part_items(flow@, part)),
{
    match part {
        Part::Blocks => {
            assert(part_items(flow@, part) =~= items_of(member(flow@, "blocks"@)).map_values(
                |b: JsonView| owned_item(b, part),
            ));
            part_of(flow, "blocks", part)
        },
        Part::Elements => {
            assert(part_items(flow@, part) =~= items_of(member(flow@, "elements"@)).map_values(
                |b: JsonView| owned_item(b, part),
            ));
            part_of(flow, "elements", part)
        },
        Part::Links => {
            assert(part_items(flow@, part) =~= items_of(member(flow@, "links"@)).map_values(
                |b: JsonView| owned_item(b, part),
            ));
            part_of(flow, "links", part)
        },
    }
}

fn same_member(a: &Json, b: &Json, key: &str) -> (r: bool)
    ensures
        r == (member(a@, key@) == member(b@, key@)),
{
    match (a.get(key), b.get(key)) {
        (Some(x), Some(y)) => same_json(x, y),
        (None, None) => true,
        _ => false,
    }
}

/// Whether the flow Strom holds differs from the one the gateway wants. Compares only
/// what the gateway owns, and ignores everything Strom owns or derives: otherwise the
/// flow would be rewritten on every tick, and each rewrite drops the fields Strom set.
pub fn differs(existing: &Json, desired: &Json) -> (r: bool)
    ensures
        r == drifted(existing@, desired@),
{
    !same_member(existing, desired, "name") || !same_list(
        &shape_part(existing, Part::Blocks),
        &shape_part(desired, Part::Blocks),
    ) || !same_list(
        &shape_part(existing, Part::Elements),
        &shape_part(desired, Part::Elements),
    ) || !same_list(&shape_part(existing, Part::Links), &shape_part(desired, Part::Links))
}

proof fn lemma_place(s: Seq<JsonView>, key: Seq<char>)
    ensures
        0 <= place(s, key) <= s.len(),
        place(s, key) > 0 ==> !precedes(key, sort_key(s[place(s, key) - 1])),
        forall|j: int| place(s, key) <= j < s.len() ==> precedes(key, sort_key(#[trigger] s[j])),
    decreases s.len(),
{
    if s.len() > 0 && precedes(key, sort_key(s.last())) {
        let init = s.drop_last();
        lemma_place(init, key);
        assert forall|j: int| place(s, key) <= j < s.len() implies precedes(
            key,
            sort_key(#[trigger] s[j]),
        ) by {
            if j < s.len() - 1 {
                assert(init[j] == s[j]);
            }
        }
    }
}

pub open spec fn in_key_order(s: Seq<JsonView>) -> bool {
    forall|i: int, j: int|
        0 <= i < j < s.len() ==> !precedes(sort_key(#[trigger] s[j]), sort_key(#[trigger] s[i]))
}

proof fn lemma_by_key(s: Seq<JsonView>)
    ensures
        in_key_order(by_key(s)),
        by_key(s).to_multiset() == s.to_multiset(),
        by_key(s).len() == s.len(),
    decreases s.len(),
{
    broadcast use vstd::seq_lib::group_to_multiset_ensures;

    if s.len() > 0 {
        let d = s.last();
        let key = sort_key(d);
        let before = by_key(s.drop_last());
        lemma_by_key(s.drop_last());
        lemma_place(before, key);
        let k = place(before, key);
        let after = by_key(s);
        assert(after == before.insert(k, d));
        assert forall|i: int, j: int| 0 <= i < j < after.len() implies !precedes(
            sort_key(#[trigger] after[j]),
            sort_key(#[trigger] after[i]),
        ) by {
            if j == k {
                assert(after[i] == before[i]);
                if i < k - 1 && precedes(key, sort_key(before[i])) {
                    lemma_precedes_total(sort_key(before[i]), sort_key(before[k - 1]));
                    if precedes(sort_key(before[i]), sort_key(before[k - 1])) {
                        lemma_precedes_transitive(
                            key,
                            sort_key(before[i]),
                            sort_key(before[k - 1]),
                        );
                    }
                }
            } else if i == k {
                assert(after[j] == before[j - 1]);
                if precedes(sort_key(before[j - 1]), key) {
                    lemma_precedes_transitive(key, sort_key(before[j - 1]), key);
                    lemma_precedes_irreflexive(key);
                }
            } else {
                let a = if i < k {
                    i
                } else {
                    i - 1
                };
                let b = if j < k {
                    j
                } else {
                    j - 1
                };
                assert(after[i] == before[a] && after[j] == before[b]);
            }
        }
        assert(s =~= s.drop_last().push(d));
        assert(s.to_multiset() == s.drop_last().to_multiset().insert(d));
        assert(after.to_multiset() == before.to_multiset().insert(d));
    } else {
        assert(by_key(s) =~= s);
    }
}

/// No two different items share a key.
pub open spec fn told_apart(s: Seq<JsonView>) -> bool {
    forall|i: int, j: int|
        0 <= i < s.len() && 0 <= j < s.len() && sort_key(#[trigger] s[i]) == sort_key(
            #[trigger] s[j],
        ) ==> s[i] == s[j]
}

proof fn lemma_one_order(x: Seq<JsonView>, y: Seq<JsonView>)
    requires
        in_key_order(x),
        in_key_order(y),
        told_apart(x),
        x.to_multiset() == y.to_multiset(),
    ensures
        x == y,
    decreases x.len(),
{
    broadcast use vstd::seq_lib::group_to_multiset_ensures;

    assert(x.len() == x.to_multiset().len());
    assert(y.len() == y.to_multiset().len());
    if x.len() > 0 {
        let a = x.last();
        let b = y.last();
        assert(x.contains(a) && y.contains(b)) by {
            assert(x[x.len() - 1] == a);
            assert(y[y.len() - 1] == b);
        }
        assert(x.to_multiset().count(a) > 0);
        assert(y.to_multiset().count(b) > 0);
        assert(x.contains(b) && y.contains(a));
        let p = choose|p: int| 0 <= p < x.len() && x[p] == b;
        let q = choose|q: int| 0 <= q < y.len() && y[q] == a;
        assert(!precedes(sort_key(a), sort_key(b))) by {
            if p < x.len() - 1 {
                assert(!precedes(sort_key(x[x.len() - 1]), sort_key(x[p])));
            } else {
                lemma_precedes_irreflexive(sort_key(a));
            }
        }
        assert(!precedes(sort_key(b), sort_key(a))) by {
            if q < y.len() - 1 {
                assert(!precedes(sort_key(y[y.len() - 1]), sort_key(y[q])));
            } else {
                lemma_precedes_irreflexive(sort_key(a));
            }
        }
        lemma_precedes_total(sort_key(a), sort_key(b));
        assert(x[x.len() - 1] == x[p]);
        let x1 = x.drop_last();
        let y1 = y.drop_last();
        assert(x =~= x1.push(a));
        assert(y =~= y1.push(a));
        assert(x1.to_multiset() =~= x.to_multiset().remove(a));
        assert(y1.to_multiset() =~= y.to_multiset().remove(a));
        assert forall|i: int, j: int|
            0 <= i < x1.len() && 0 <= j < x1.len() && sort_key(#[trigger] x1[i]) == sort_key(
                #[trigger] x1[j],
            ) implies x1[i] == x1[j] by {
            assert(x1[i] == x[i] && x1[j] == x[j]);
        }
        assert forall|i: int, j: int| 0 <= i < j < x1.len() implies !precedes(
            sort_key(#[trigger] x1[j]),
            sort_key(#[trigger] x1[i]),
        ) by {
            assert(x1[i] == x[i] && x1[j] == x[j]);
        }
        assert forall|i: int, j: int| 0 <= i < j < y1.len() implies !precedes(
            sort_key(#[trigger] y1[j]),
            sort_key(#[trigger] y1[i]),
        ) by {
            assert(y1[i] == y[i] && y1[j] == y[j]);
        }
        lemma_one_order(x1, y1);
    } else {
        assert(x =~= y);
    }
}

proof fn lemma_order_does_not_matter(a: Seq<JsonView>, b: Seq<JsonView>)
    requires
        a.to_multiset() == b.to_multiset(),
        told_apart(a),
    ensures
        by_key(a) == by_key(b),
{
    broadcast use vstd::seq_lib::group_to_multiset_ensures;

    lemma_by_key(a);
    lemma_by_key(b);
    let x = by_key(a);
    assert forall|i: int, j: int|
        0 <= i < x.len() && 0 <= j < x.len() && sort_key(#[trigger] x[i]) == sort_key(
            #[trigger] x[j],
        ) implies x[i] == x[j] by {
        assert(x.contains(x[i]) && x.contains(x[j]));
        assert(a.to_multiset().count(x[i]) > 0 && a.to_multiset().count(x[j]) > 0);
        assert(a.contains(x[i]) && a.contains(x[j]));
        let p = choose|p: int| 0 <= p < a.len() && a[p] == x[i];
        let q = choose|q: int| 0 <= q < a.len() && a[q] == x[j];
        assert(a[p] == a[q]);
    }
    lemma_one_order(x, by_key(b));
}

/// Whether a link of a document ends at a pad.
pub open spec fn feeds(links: Seq<JsonView>, pad: Seq<char>) -> bool {
    exists|i: int|
        0 <= i < links.len() && text_of(member(#[trigger] links[i], "to"@)) == Some(pad)
}

proof fn lemma_stage_sound(capture: CaptureConfig)
    requires
        stage_of(capture) is Ok,
    ensures
        feeds(stage_of(capture)->Ok_0.links, BLOCK_UPLINK@ + ":"@ + "audio_in_0"@) == stage_of(
            capture,
        )->Ok_0.has_audio,
{
    let stage = stage_of(capture)->Ok_0;
    let sound = BLOCK_UPLINK@ + ":"@ + "audio_in_0"@;
    reveal_strlit("from");
    reveal_strlit("to");
    assert("from"@.len() != "to"@.len());
    reveal_strlit("uplink");
    reveal_strlit("encoder");
    reveal_strlit(":");
    reveal_strlit("audio_in_0");
    reveal_strlit("video_in");
    match capture {
        CaptureConfig::Test { .. } => {
            assert(text_of(member(stage.links[3], "to"@)) == Some(sound));
        },
        _ => {
            if stage.has_audio {
                assert(text_of(member(stage.links[1], "to"@)) == Some(sound));
            } else {
                assert(text_of(member(stage.links[0], "to"@))->0.len() == 16);
            }
        },
    }
}

/// How many audio tracks a block of a document declares.
pub open spec fn audio_tracks(block: JsonView) -> Option<u64> {
    match member(block, "properties"@) {
        Some(properties) => uint_of(member(properties, "num_audio_tracks"@)),
        None => None,
    }
}

/// An audio track is declared exactly where the flow delivers one: a declared track that
/// nothing feeds would leave the output waiting on a pad that never produces.
pub proof fn law_a_declared_audio_track_is_delivered(
    gateway_id: Seq<char>,
    gateway_name: Seq<char>,
    input: InputConfig,
)
    requires
        built(gateway_id, gateway_name, input) is Ok,
    ensures
        ({
            let flow = built(gateway_id, gateway_name, input)->Ok_0;
            let blocks = items_of(member(flow, "blocks"@));
            let links = items_of(member(flow, "links"@));
            &&& blocks.len() > 0
            &&& audio_tracks(blocks.last()) == Some(
                if feeds(links, BLOCK_UPLINK@ + ":"@ + "audio_in_0"@) {
                    1u64
                } else {
                    0u64
                },
            )
        }),
{
    let flow = built(gateway_id, gateway_name, input)->Ok_0;
    let stage = stage_of(input.capture)->Ok_0;
    let sound = BLOCK_UPLINK@ + ":"@ + "audio_in_0"@;
    lemma_stage_sound(input.capture);
    reveal_strlit("id");
    reveal_strlit("name");
    reveal_strlit("elements");
    reveal_strlit("blocks");
    reveal_strlit("links");
    assert("blocks"@.len() == 6 && "links"@.len() == 5);
    reveal_strlit("properties");
    reveal_strlit("position");
    assert("properties"@.len() != "position"@.len());
    reveal_strlit("from");
    reveal_strlit("to");
    assert("from"@.len() != "to"@.len());
    reveal_strlit("uplink");
    reveal_strlit(":");
    reveal_strlit("audio_in_0");
    reveal_strlit("video_in");
    let last = link_json(BLOCK_ENCODER@, "encoded_out"@, BLOCK_UPLINK@, "video_in"@);
    let links = stage.links.push(last);
    assert(items_of(member(flow, "links"@)) == links);
    assert(text_of(member(last, "to"@))->0.len() == 15 && sound.len() == 17);
    if feeds(stage.links, sound) {
        let i = choose|i: int|
            0 <= i < stage.links.len() && text_of(member(#[trigger] stage.links[i], "to"@)) == Some(
                sound,
            );
        assert(links[i] == stage.links[i]);
    }
    if feeds(links, sound) {
        let i = choose|i: int|
            0 <= i < links.len() && text_of(member(#[trigger] links[i], "to"@)) == Some(sound);
        assert(links[i] == stage.links[i]);
    }
}

/// A flow that is what it should be has not drifted.
pub proof fn law_an_unchanged_flow_does_not_drift(flow: JsonView)
    ensures
        !drifted(flow, flow),
{
}

/// What Strom owns or derives is no drift, nor is the order in which it lists things:
/// flows of one name with the same owned blocks, owned elements and links, in whatever
/// order, count as the same as long as an id names one thing.
pub proof fn law_strom_owned_fields_and_order_are_no_drift(existing: JsonView, desired: JsonView)
    requires
        member(existing, "name"@) == member(desired, "name"@),
        owned_blocks(existing).to_multiset() == owned_blocks(desired).to_multiset(),
        owned_elements(existing).to_multiset() == owned_elements(desired).to_multiset(),
        link_texts(existing).to_multiset() == link_texts(desired).to_multiset(),
        told_apart(owned_blocks(existing)),
        told_apart(owned_elements(existing)),
    ensures
        !drifted(existing, desired),
{
    lemma_order_does_not_matter(owned_blocks(existing), owned_blocks(desired));
    lemma_order_does_not_matter(owned_elements(existing), owned_elements(desired));
    lemma_order_does_not_matter(link_texts(existing), link_texts(desired));
}

/// A change in anything the gateway owns is drift: another name, another block, element
/// or link, one too many or one missing.
pub proof fn law_a_change_in_what_is_owned_is_drift(existing: JsonView, desired: JsonView)
    requires
        member(existing, "name"@) != member(desired, "name"@) || owned_blocks(
            existing,
        ).to_multiset() != owned_blocks(desired).to_multiset() || owned_elements(
            existing,
        ).to_multiset() != owned_elements(desired).to_multiset() || link_texts(
            existing,
        ).to_multiset() != link_texts(desired).to_multiset(),
    ensures
        drifted(existing, desired),
{
    lemma_by_key(owned_blocks(existing));
    lemma_by_key(owned_blocks(desired));
    lemma_by_key(owned_elements(existing));
    lemma_by_key(owned_elements(desired));
    lemma_by_key(link_texts(existing));
    lemma_by_key(link_texts(desired));
}

// ---------------------------------------------------------------------------
// Updating
// ---------------------------------------------------------------------------

/// A document with one member set.
pub open spec fn with_member(j: JsonView, key: Seq<char>, value: JsonView) -> JsonView {
    match j {
        JsonView::Object(m) => JsonView::Object(m.insert(key, value)),
        _ => JsonView::Object(nothing().insert(key, value)),
    }
}

pub open spec fn carried(body: JsonView, existing: JsonView, key: Seq<char>) -> JsonView {
    match member(existing, key) {
        Some(value) => with_member(body, key, value),
        None => body,
    }
}

/// The wanted flow with the lifecycle state that Strom owns.
pub open spec fn preserved(desired: JsonView, existing: JsonView) -> JsonView {
    carried(
        carried(carried(desired, existing, "properties"@), existing, "running"@),
        existing,
        "gst_state"@,
    )
}

fn carry(body: Json, existing: &Json, key: &str) -> (r: Json)
    requires
        body@ is Object || body@ is Null || member(existing@, key@) is None,
    ensures
        r@ == carried(body@, existing@, key@),
{
    match existing.get(key) {
        Some(value) => {
            let entries = match body {
                Json::Object(entries) => entries,
                _ => Vec::new(),
            };
            Fields { entries }.with(key, value.copy()).object()
        },
        None => body,
    }
}

/// Whether a stored flow has any lifecycle state of Strom's.
pub open spec fn carries_state(existing: JsonView) -> bool {
    ||| member(existing, "properties"@) is Some
    ||| member(existing, "running"@) is Some
    ||| member(existing, "gst_state"@) is Some
}

/// Copies Strom-owned lifecycle state from the stored flow onto an update body, so that
/// updating a flow does not stop it restarting after a reboot or make Strom report a
/// live flow as stopped.
pub fn preserving_strom_state(desired: &Json, existing: &Json) -> (r: Json)
    requires
        desired@ is Object || desired@ is Null || !carries_state(existing@),
    ensures
        r@ == preserved(desired@, existing@),
{
    let body = carry(desired.copy(), existing, "properties");
    let body = carry(body, existing, "running");
    carry(body, existing, "gst_state")
}

/// An update brings back Strom's own fields and nothing else of the stored flow, so it
/// has not drifted from what is wanted.
pub proof fn law_an_update_keeps_the_wanted_shape(desired: JsonView, existing: JsonView)
    requires
        desired is Object,
    ensures
        !drifted(preserved(desired, existing), desired),
        forall|key: Seq<char>| #[trigger]
            member(preserved(desired, existing), key) == (if (key == "properties"@ || key
                == "running"@ || key == "gst_state"@) && member(existing, key) is Some {
                member(existing, key)
            } else {
                member(desired, key)
            }),
{
    reveal_strlit("name");
    reveal_strlit("blocks");
    reveal_strlit("elements");
    reveal_strlit("links");
    reveal_strlit("properties");
    reveal_strlit("running");
    reveal_strlit("gst_state");
    let r = preserved(desired, existing);
    assert("name"@.len() == 4 && "blocks"@.len() == 6 && "elements"@.len() == 8 && "links"@.len()
        == 5 && "properties"@.len() == 10 && "running"@.len() == 7 && "gst_state"@.len() == 9);
    assert(member(r, "name"@) == member(desired, "name"@));
    assert(member(r, "blocks"@) == member(desired, "blocks"@));
    assert(member(r, "elements"@) == member(desired, "elements"@));
    assert(member(r, "links"@) == member(desired, "links"@));
}

// ---------------------------------------------------------------------------
// What a built flow asks of Strom
// ---------------------------------------------------------------------------

/// The names that a document uses are all different.
proof fn lemma_document_keys()
    ensures
        "id"@ != "name"@ && "id"@ != "elements"@ && "id"@ != "blocks"@ && "id"@ != "links"@,
        "name"@ != "elements"@ && "name"@ != "blocks"@ && "name"@ != "links"@,
        "elements"@ != "blocks"@ && "elements"@ != "links"@ && "blocks"@ != "links"@,
        "id"@ != "block_definition_id"@ && "id"@ != "properties"@ && "id"@ != "position"@,
        "name"@ != "block_definition_id"@ && "name"@ != "properties"@ && "name"@ != "position"@,
        "block_definition_id"@ != "properties"@ && "block_definition_id"@ != "position"@,
        "properties"@ != "position"@,
        "element_type"@ != "id"@ && "element_type"@ != "properties"@ && "element_type"@
            != "position"@,
        "from"@ != "to"@,
{
    reveal_strlit("id");
    reveal_strlit("name");
    reveal_strlit("elements");
    reveal_strlit("blocks");
    reveal_strlit("links");
    reveal_strlit("block_definition_id");
    reveal_strlit("properties");
    reveal_strlit("position");
    reveal_strlit("element_type");
    reveal_strlit("from");
    reveal_strlit("to");
    assert("id"@.len() == 2 && "name"@.len() == 4 && "elements"@.len() == 8 && "blocks"@.len() == 6
        && "links"@.len() == 5 && "block_definition_id"@.len() == 19 && "properties"@.len() == 10
        && "position"@.len() == 8 && "element_type"@.len() == 12 && "from"@.len() == 4
        && "to"@.len() == 2);
}

/// A document has the id that the two ids give, a name that tells the gateway and the
/// input, and the parts of its capture, with an encoder and an uplink after the blocks
/// and the way from the one to the other after the links.
pub proof fn law_a_document_holds_the_capture_and_the_uplink(
    gateway_id: Seq<char>,
    gateway_name: Seq<char>,
    input: InputConfig,
)
    requires
        built(gateway_id, gateway_name, input) is Ok,
    ensures
        ({
            let doc = built(gateway_id, gateway_name, input)->Ok_0;
            let stage = stage_of(input.capture)->Ok_0;
            let blocks = items_of(member(doc, "blocks"@));
            let links = items_of(member(doc, "links"@));
            let last = links[links.len() - 1];
            &&& stage_of(input.capture) is Ok
            &&& text_of(member(doc, "id"@)) == Some(
                uuid_text(derived_id(gateway_id, input.id@).value),
            )
            &&& text_of(member(doc, "name"@)) == Some(
                gateway_name + " — "@ + input.id@ + " uplink"@,
            )
            &&& items_of(member(doc, "elements"@)) == stage.elements
            &&& blocks.len() == stage.blocks.len() + 2
            &&& blocks.subrange(0, stage.blocks.len() as int) == stage.blocks
            &&& links.len() == stage.links.len() + 1
            &&& links.subrange(0, stage.links.len() as int) == stage.links
            &&& text_of(member(last, "from"@)) == Some("encoder:encoded_out"@)
            &&& text_of(member(last, "to"@)) == Some("uplink:video_in"@)
        }),
{
    lemma_document_keys();
    lemma_pads();
    let doc = built(gateway_id, gateway_name, input)->Ok_0;
    let stage = stage_of(input.capture)->Ok_0;
    let blocks = items_of(member(doc, "blocks"@));
    let links = items_of(member(doc, "links"@));
    assert(blocks.subrange(0, stage.blocks.len() as int) =~= stage.blocks);
    assert(links.subrange(0, stage.links.len() as int) =~= stage.links);
}

proof fn lemma_pads()
    ensures
        "encoder"@ + ":"@ + "encoded_out"@ == "encoder:encoded_out"@,
        "encoder"@ + ":"@ + "video_in"@ == "encoder:video_in"@,
        "uplink"@ + ":"@ + "video_in"@ == "uplink:video_in"@,
        "uplink"@ + ":"@ + "audio_in_0"@ == "uplink:audio_in_0"@,
        "capture"@ + ":"@ + "video_out"@ == "capture:video_out"@,
        "capture"@ + ":"@ + "audio_out"@ == "capture:audio_out"@,
        "testvideo"@ + ":"@ + "src"@ == "testvideo:src"@,
        "testvideocaps"@ + ":"@ + "sink"@ == "testvideocaps:sink"@,
        "testvideocaps"@ + ":"@ + "src"@ == "testvideocaps:src"@,
        "testaudio"@ + ":"@ + "src"@ == "testaudio:src"@,
        "testaudiocaps"@ + ":"@ + "sink"@ == "testaudiocaps:sink"@,
        "testaudiocaps"@ + ":"@ + "src"@ == "testaudiocaps:src"@,
{
    reveal_strlit("capture");
    reveal_strlit("encoder");
    reveal_strlit("uplink");
    reveal_strlit("testvideo");
    reveal_strlit("testvideocaps");
    reveal_strlit("testaudio");
    reveal_strlit("testaudiocaps");
    reveal_strlit(":");
    reveal_strlit("video_out");
    reveal_strlit("audio_out");
    reveal_strlit("video_in");
    reveal_strlit("encoded_out");
    reveal_strlit("audio_in_0");
    reveal_strlit("src");
    reveal_strlit("sink");
    reveal_strlit("capture:video_out");
    reveal_strlit("capture:audio_out");
    reveal_strlit("encoder:video_in");
    reveal_strlit("encoder:encoded_out");
    reveal_strlit("uplink:video_in");
    reveal_strlit("uplink:audio_in_0");
    reveal_strlit("testvideo:src");
    reveal_strlit("testvideocaps:sink");
    reveal_strlit("testvideocaps:src");
    reveal_strlit("testaudio:src");
    reveal_strlit("testaudiocaps:sink");
    reveal_strlit("testaudiocaps:src");
    assert("encoder"@ + ":"@ + "encoded_out"@ =~= "encoder:encoded_out"@);
    assert("encoder"@ + ":"@ + "video_in"@ =~= "encoder:video_in"@);
    assert("uplink"@ + ":"@ + "video_in"@ =~= "uplink:video_in"@);
    assert("uplink"@ + ":"@ + "audio_in_0"@ =~= "uplink:audio_in_0"@);
    assert("capture"@ + ":"@ + "video_out"@ =~= "capture:video_out"@);
    assert("capture"@ + ":"@ + "audio_out"@ =~= "capture:audio_out"@);
    assert("testvideo"@ + ":"@ + "src"@ =~= "testvideo:src"@);
    assert("testvideocaps"@ + ":"@ + "sink"@ =~= "testvideocaps:sink"@);
    assert("testvideocaps"@ + ":"@ + "src"@ =~= "testvideocaps:src"@);
    assert("testaudio"@ + ":"@ + "src"@ =~= "testaudio:src"@);
    assert("testaudiocaps"@ + ":"@ + "sink"@ =~= "testaudiocaps:sink"@);
    assert("testaudiocaps"@ + ":"@ + "src"@ =~= "testaudiocaps:src"@);
}

/// The encoder of a flow gets each video setting of its input under the setting's own
/// name, as it stands, and nothing else.
pub proof fn law_the_encoder_gets_each_setting_under_its_own_name(
    gateway_id: Seq<char>,
    gateway_name: Seq<char>,
    input: InputConfig,
)
    requires
        built(gateway_id, gateway_name, input) is Ok,
    ensures
        ({
            let doc = built(gateway_id, gateway_name, input)->Ok_0;
            let blocks = items_of(member(doc, "blocks"@));
            let encoder = blocks[blocks.len() - 2];
            let p = member(encoder, "properties"@)->0;
            &&& blocks.len() >= 2
            &&& text_of(member(encoder, "id"@)) == Some("encoder"@)
            &&& text_of(member(encoder, "block_definition_id"@)) == Some("builtin.videoenc"@)
            &&& member(encoder, "properties"@) is Some && p is Object
            &&& p->Object_0.dom() =~= set![
                "codec"@,
                "encoder_preference"@,
                "bitrate"@,
                "quality_preset"@,
                "tune"@,
                "rate_control"@,
                "keyframe_interval"@,
            ]
            &&& text_of(member(p, "codec"@)) == Some(input.video.codec@)
            &&& text_of(member(p, "encoder_preference"@)) == Some(input.video.encoder_preference@)
            &&& uint_of(member(p, "bitrate"@)) == Some(input.video.bitrate_kbps as u64)
            &&& text_of(member(p, "quality_preset"@)) == Some(input.video.quality_preset@)
            &&& text_of(member(p, "tune"@)) == Some(input.video.tune@)
            &&& text_of(member(p, "rate_control"@)) == Some(input.video.rate_control@)
            &&& uint_of(member(p, "keyframe_interval"@)) == Some(
                input.video.keyframe_interval as u64,
            )
        }),
{
    lemma_document_keys();
    reveal_strlit("codec");
    reveal_strlit("encoder_preference");
    reveal_strlit("bitrate");
    reveal_strlit("quality_preset");
    reveal_strlit("tune");
    reveal_strlit("rate_control");
    reveal_strlit("keyframe_interval");
    assert("codec"@.len() == 5 && "encoder_preference"@.len() == 18 && "bitrate"@.len() == 7);
    assert("quality_preset"@.len() == 14 && "tune"@.len() == 4 && "rate_control"@.len() == 12);
    assert("keyframe_interval"@.len() == 17);
    let doc = built(gateway_id, gateway_name, input)->Ok_0;
    let blocks = items_of(member(doc, "blocks"@));
    assert(blocks[blocks.len() - 2] == encoder_json(input.video));
}

/// The uplink of a flow sends to the venue's address of its input, with the latency of
/// the link, one picture, and a sound exactly where the capture has one.
pub proof fn law_the_uplink_sends_to_the_address_of_the_input(
    gateway_id: Seq<char>,
    gateway_name: Seq<char>,
    input: InputConfig,
)
    requires
        built(gateway_id, gateway_name, input) is Ok,
    ensures
        ({
            let doc = built(gateway_id, gateway_name, input)->Ok_0;
            let blocks = items_of(member(doc, "blocks"@));
            let uplink = blocks[blocks.len() - 1];
            let p = member(uplink, "properties"@)->0;
            &&& text_of(member(uplink, "id"@)) == Some("uplink"@)
            &&& text_of(member(uplink, "block_definition_id"@)) == Some(
                "builtin.mpegtssrt_output"@,
            )
            &&& member(uplink, "properties"@) is Some && p is Object
            &&& text_of(member(p, "srt_uri"@)) == Some(input.uplink.venue_address())
            &&& uint_of(member(p, "latency"@)) == Some(input.uplink.latency_ms as u64)
            &&& uint_of(member(p, "num_video_tracks"@)) == Some(1u64)
            &&& uint_of(member(p, "num_audio_tracks"@)) == Some(
                match input.capture {
                    CaptureConfig::Decklink { audio, .. } => if audio {
                        1u64
                    } else {
                        0
                    },
                    CaptureConfig::Local { audio_device, .. } => if audio_device is Some
                        && audio_device->0@.len() > 0 {
                        1
                    } else {
                        0
                    },
                    CaptureConfig::Test { .. } => 1,
                },
            )
        }),
{
    lemma_document_keys();
    reveal_strlit("srt_uri");
    reveal_strlit("latency");
    reveal_strlit("num_video_tracks");
    reveal_strlit("num_audio_tracks");
    assert("srt_uri"@[0] == 's' && "latency"@[0] == 'l');
    assert("num_video_tracks"@[4] == 'v' && "num_audio_tracks"@[4] == 'a');
    assert("srt_uri"@.len() == 7 && "latency"@.len() == 7 && "num_video_tracks"@.len() == 16
        && "num_audio_tracks"@.len() == 16);
    let doc = built(gateway_id, gateway_name, input)->Ok_0;
    let blocks = items_of(member(doc, "blocks"@));
    let stage = stage_of(input.capture)->Ok_0;
    assert(blocks[blocks.len() - 1] == uplink_json(
        input.uplink.venue_address(),
        input.uplink.latency_ms,
        stage.has_audio,
    ));
}

/// An SDI card is captured with each setting under the block's own name for it. Its
/// picture goes to the encoder, and its sound, where it is wanted, straight to the uplink.
pub proof fn law_a_card_is_captured_as_it_is_set(capture: CaptureConfig)
    requires
        capture is Decklink,
    ensures
        stage_of(capture) is Ok,
        ({
            let stage = stage_of(capture)->Ok_0;
            let b = stage.blocks[0];
            let p = member(b, "properties"@)->0;
            &&& stage.blocks.len() == 1 && stage.elements.len() == 0
            &&& text_of(member(b, "id"@)) == Some("capture"@)
            &&& text_of(member(b, "block_definition_id"@)) == Some("builtin.decklink_input"@)
            &&& member(b, "properties"@) is Some && p is Object
            &&& capture->device_number >= 0 ==> uint_of(member(p, "device_number"@)) == Some(
                capture->device_number as u64,
            )
            &&& capture->device_number < 0 ==> member(p, "device_number"@) == Some(
                JsonView::Number(Number::NegInt(capture->device_number as i64)),
            )
            &&& text_of(member(p, "connection"@)) == Some(capture->connection@)
            &&& text_of(member(p, "mode"@)) == Some(capture->mode@)
            &&& text_of(member(p, "video_format"@)) == Some(capture->video_format@)
            &&& member(p, "drop_no_signal_frames"@) == Some(
                JsonView::Bool(capture->drop_no_signal_frames),
            )
            &&& text_of(member(p, "stream_mode"@)) == Some(
                if capture->audio {
                    "audio_video"@
                } else {
                    "video"@
                },
            )
            &&& text_of(member(stage.links[0], "from"@)) == Some("capture:video_out"@)
            &&& text_of(member(stage.links[0], "to"@)) == Some("encoder:video_in"@)
            &&& stage.links.len() == if capture->audio {
                2int
            } else {
                1
            }
            &&& capture->audio ==> text_of(member(stage.links[1], "from"@)) == Some(
                "capture:audio_out"@,
            ) && text_of(member(stage.links[1], "to"@)) == Some("uplink:audio_in_0"@)
        }),
{
    lemma_document_keys();
    lemma_pads();
    reveal_strlit("device_number");
    reveal_strlit("connection");
    reveal_strlit("mode");
    reveal_strlit("video_format");
    reveal_strlit("drop_no_signal_frames");
    reveal_strlit("stream_mode");
    assert("device_number"@.len() == 13 && "connection"@.len() == 10 && "mode"@.len() == 4
        && "video_format"@.len() == 12 && "drop_no_signal_frames"@.len() == 21
        && "stream_mode"@.len() == 11);
}

/// A device of the machine is captured with each setting under the block's own name for
/// it. A device that is not named is left for Strom to pick, and the sound is asked for
/// only where a device for it is named.
pub proof fn law_a_local_device_is_captured_as_it_is_set(capture: CaptureConfig)
    requires
        capture is Local,
    ensures
        stage_of(capture) is Ok,
        ({
            let stage = stage_of(capture)->Ok_0;
            let b = stage.blocks[0];
            let p = member(b, "properties"@)->0;
            let sound = capture->audio_device is Some && capture->audio_device->0@.len() > 0;
            &&& stage.blocks.len() == 1 && stage.elements.len() == 0
            &&& text_of(member(b, "id"@)) == Some("capture"@)
            &&& text_of(member(b, "block_definition_id"@)) == Some("builtin.local_input"@)
            &&& member(b, "properties"@) is Some && p is Object
            &&& text_of(member(p, "video_resolution"@)) == Some(capture->Local_video_resolution@)
            &&& text_of(member(p, "video_framerate"@)) == Some(capture->Local_video_framerate@)
            &&& text_of(member(p, "stream_mode"@)) == Some(
                if sound {
                    "audio_video"@
                } else {
                    "video"@
                },
            )
            &&& member(p, "video_device"@) is Some <==> capture->video_device is Some
                && capture->video_device->0@.len() > 0
            &&& member(p, "video_device"@) is Some ==> text_of(member(p, "video_device"@)) == Some(
                capture->video_device->0@,
            )
            &&& member(p, "audio_device"@) is Some <==> sound
            &&& sound ==> {
                &&& text_of(member(p, "audio_device"@)) == Some(capture->audio_device->0@)
                &&& uint_of(member(p, "audio_channels"@)) == Some(
                    capture->Local_audio_channels as u64,
                )
                &&& uint_of(member(p, "audio_rate"@)) == Some(capture->Local_audio_rate as u64)
            }
            &&& text_of(member(stage.links[0], "from"@)) == Some("capture:video_out"@)
            &&& text_of(member(stage.links[0], "to"@)) == Some("encoder:video_in"@)
            &&& stage.links.len() == if sound {
                2int
            } else {
                1
            }
            &&& sound ==> text_of(member(stage.links[1], "from"@)) == Some("capture:audio_out"@)
                && text_of(member(stage.links[1], "to"@)) == Some("uplink:audio_in_0"@)
        }),
{
    lemma_document_keys();
    lemma_pads();
    reveal_strlit("video_resolution");
    reveal_strlit("video_framerate");
    reveal_strlit("stream_mode");
    reveal_strlit("video_device");
    reveal_strlit("audio_device");
    reveal_strlit("audio_channels");
    reveal_strlit("audio_rate");
    assert("video_resolution"@.len() == 16 && "video_framerate"@.len() == 15 && "stream_mode"@.len()
        == 11 && "video_device"@.len() == 12 && "audio_device"@.len() == 12
        && "audio_channels"@.len() == 14 && "audio_rate"@.len() == 10);
    assert("video_device"@[0] == 'v' && "audio_device"@[0] == 'a');
}

/// The test pattern is a live picture of the size and rate that are set, and a live tone
/// of the rate and channels that are set. The picture goes to the encoder, the tone
/// straight to the uplink. Only a size that cannot be read stops it.
pub proof fn law_the_test_pattern_has_the_format_that_is_set(capture: CaptureConfig)
    requires
        capture is Test,
    ensures
        stage_of(capture) is Ok <==> parsed_size(capture->Test_video_resolution@) is Ok,
        stage_of(capture) is Ok ==> {
            let stage = stage_of(capture)->Ok_0;
            let size = parsed_size(capture->Test_video_resolution@)->Ok_0;
            let e = stage.elements;
            let of = |k: int| member(e[k], "properties"@)->0;
            &&& stage.blocks.len() == 0 && e.len() == 4 && stage.links.len() == 4
            &&& text_of(member(e[0], "id"@)) == Some("testvideo"@)
            &&& text_of(member(e[0], "element_type"@)) == Some("videotestsrc"@)
            &&& member(of(0), "is-live"@) == Some(JsonView::Bool(true))
            &&& text_of(member(of(0), "pattern"@)) == Some("smpte"@)
            &&& text_of(member(e[1], "id"@)) == Some("testvideocaps"@)
            &&& text_of(member(e[1], "element_type"@)) == Some("capsfilter"@)
            &&& text_of(member(of(1), "caps"@)) == Some(
                "video/x-raw,width="@ + dec(size.0 as nat) + ",height="@ + dec(size.1 as nat)
                    + ",framerate="@ + capture->Test_video_framerate@,
            )
            &&& text_of(member(e[2], "id"@)) == Some("testaudio"@)
            &&& text_of(member(e[2], "element_type"@)) == Some("audiotestsrc"@)
            &&& member(of(2), "is-live"@) == Some(JsonView::Bool(true))
            &&& text_of(member(of(2), "wave"@)) == Some("sine"@)
            &&& member(of(2), "freq"@) == Some(
                JsonView::Number(Number::Float(0x408F_4000_0000_0000)),
            )
            &&& text_of(member(e[3], "id"@)) == Some("testaudiocaps"@)
            &&& text_of(member(e[3], "element_type"@)) == Some("capsfilter"@)
            &&& text_of(member(of(3), "caps"@)) == Some(
                "audio/x-raw,rate="@ + dec(capture->Test_audio_rate as nat) + ",channels="@ + dec(
                    capture->Test_audio_channels as nat,
                ),
            )
            &&& text_of(member(stage.links[0], "from"@)) == Some("testvideo:src"@)
            &&& text_of(member(stage.links[0], "to"@)) == Some("testvideocaps:sink"@)
            &&& text_of(member(stage.links[1], "from"@)) == Some("testvideocaps:src"@)
            &&& text_of(member(stage.links[1], "to"@)) == Some("encoder:video_in"@)
            &&& text_of(member(stage.links[2], "from"@)) == Some("testaudio:src"@)
            &&& text_of(member(stage.links[2], "to"@)) == Some("testaudiocaps:sink"@)
            &&& text_of(member(stage.links[3], "from"@)) == Some("testaudiocaps:src"@)
            &&& text_of(member(stage.links[3], "to"@)) == Some("uplink:audio_in_0"@)
        },
{
    lemma_document_keys();
    lemma_pads();
    reveal_strlit("is-live");
    reveal_strlit("pattern");
    reveal_strlit("wave");
    reveal_strlit("freq");
    assert("is-live"@[0] == 'i' && "pattern"@[0] == 'p' && "wave"@[0] == 'w' && "freq"@[0] == 'f');
}

/// Two numbers with a cross of either case between them are a size, width first. One
/// that does not fit is refused as too large, and a text without a cross is no size.
pub proof fn law_a_size_is_two_numbers(w: nat, h: nat, s: Seq<char>)
    ensures
        parsed_size(dec(w) + "x"@ + dec(h)) == (if w > 0xFFFF_FFFF || h > 0xFFFF_FFFF {
            Err(ResolutionFault::TooLarge)
        } else {
            Ok((w as u32, h as u32))
        }),
        parsed_size(dec(w) + "X"@ + dec(h)) == parsed_size(dec(w) + "x"@ + dec(h)),
        !s.contains('x') && !s.contains('X') ==> parsed_size(s) == Err::<
            (u32, u32),
            ResolutionFault,
        >(ResolutionFault::NotWxH(s)),
{
    reveal_strlit("x");
    reveal_strlit("X");
    law_a_notation_names_one_number(w, w);
    law_a_notation_names_one_number(h, h);
    law_a_number_is_read_up_to_the_limit(w, u32::MAX as nat);
    law_a_number_is_read_up_to_the_limit(h, u32::MAX as nat);
    lemma_decimal_is_read_back(w, w);
    lemma_decimal_is_read_back(h, h);
    lemma_crossed(dec(w), 'x', dec(h));
    lemma_crossed(dec(w), 'X', dec(h));
    lemma_a_notation_is_a_side(w);
    lemma_a_notation_is_a_side(h);
    assert("x"@ =~= seq!['x']);
    assert("X"@ =~= seq!['X']);
    lemma_char_from(s, 'x', 0);
    lemma_char_from(s, 'X', 0);
}

proof fn lemma_a_notation_is_a_side(n: nat)
    ensures
        parsed_side(dec(n)) == (if n <= 0xFFFF_FFFF {
            Ok(n as u32)
        } else {
            Err(ResolutionFault::TooLarge)
        }),
{
    law_a_notation_names_one_number(n, n);
    law_a_number_is_read_up_to_the_limit(n, u32::MAX as nat);
    let d = dec(n);
    lemma_digits_end_at(d, 0);
    assert(d.subrange(0, d.len() as int) =~= d);
    law_a_number_is_read_up_to_the_limit(n, n);
    assert(parsed_number(d, n) == Some(digits_value(d)));
}

proof fn lemma_digits_end_at(d: Seq<char>, i: int)
    requires
        0 <= i <= d.len(),
        forall|k: int| 0 <= k < d.len() ==> '0' <= #[trigger] d[k] <= '9',
    ensures
        digits_end(d, i) == d.len(),
    decreases d.len() - i,
{
    if i < d.len() {
        lemma_digits_end_at(d, i + 1);
    }
}

// ---------------------------------------------------------------------------
// What counts as drift
// ---------------------------------------------------------------------------

/// Flows that agree in their names, in the id, the definition and the properties of each
/// block, in the id, the type and the properties of each element, and in the two ends of
/// each link have not drifted, whatever else Strom keeps about any of them.
pub proof fn law_only_what_the_gateway_sets_is_compared(existing: JsonView, desired: JsonView)
    requires
        member(existing, "name"@) == member(desired, "name"@),
        items_of(member(existing, "blocks"@)).len() == items_of(member(desired, "blocks"@)).len(),
        items_of(member(existing, "elements"@)).len() == items_of(
            member(desired, "elements"@),
        ).len(),
        items_of(member(existing, "links"@)).len() == items_of(member(desired, "links"@)).len(),
        forall|i: int|
            #![trigger items_of(member(existing, "blocks"@))[i]]
            0 <= i < items_of(member(existing, "blocks"@)).len() ==> {
                let a = items_of(member(existing, "blocks"@))[i];
                let b = items_of(member(desired, "blocks"@))[i];
                &&& member(a, "id"@) == member(b, "id"@)
                &&& member(a, "block_definition_id"@) == member(b, "block_definition_id"@)
                &&& member(a, "properties"@) == member(b, "properties"@)
            },
        forall|i: int|
            #![trigger items_of(member(existing, "elements"@))[i]]
            0 <= i < items_of(member(existing, "elements"@)).len() ==> {
                let a = items_of(member(existing, "elements"@))[i];
                let b = items_of(member(desired, "elements"@))[i];
                &&& member(a, "id"@) == member(b, "id"@)
                &&& member(a, "element_type"@) == member(b, "element_type"@)
                &&& member(a, "properties"@) == member(b, "properties"@)
            },
        forall|i: int|
            #![trigger items_of(member(existing, "links"@))[i]]
            0 <= i < items_of(member(existing, "links"@)).len() ==> {
                let a = items_of(member(existing, "links"@))[i];
                let b = items_of(member(desired, "links"@))[i];
                &&& member(a, "from"@) == member(b, "from"@)
                &&& member(a, "to"@) == member(b, "to"@)
            },
    ensures
        !drifted(existing, desired),
{
    assert(owned_blocks(existing) =~= owned_blocks(desired));
    assert(owned_elements(existing) =~= owned_elements(desired));
    assert(link_texts(existing) =~= link_texts(desired));
}

/// One block that differs in its id, its definition or its properties is drift.
pub proof fn law_a_changed_block_is_drift(existing: JsonView, desired: JsonView, i: int)
    requires
        ({
            let e = items_of(member(existing, "blocks"@));
            let d = items_of(member(desired, "blocks"@));
            &&& e.len() == d.len() && 0 <= i < e.len()
            &&& forall|j: int| 0 <= j < e.len() && j != i ==> #[trigger] e[j] == d[j]
            &&& or_null(member(e[i], "id"@)) != or_null(member(d[i], "id"@)) || or_null(
                member(e[i], "block_definition_id"@),
            ) != or_null(member(d[i], "block_definition_id"@)) || or_null(
                member(e[i], "properties"@),
            ) != or_null(member(d[i], "properties"@))
        }),
    ensures
        drifted(existing, desired),
{
    lemma_document_keys();
    let e = items_of(member(existing, "blocks"@));
    let d = items_of(member(desired, "blocks"@));
    let key = if or_null(member(e[i], "id"@)) != or_null(member(d[i], "id"@)) {
        "id"@
    } else if or_null(member(e[i], "block_definition_id"@)) != or_null(
        member(d[i], "block_definition_id"@),
    ) {
        "block_definition_id"@
    } else {
        "properties"@
    };
    assert(owned_block(e[i])->Object_0[key] == or_null(member(e[i], key)));
    assert(owned_block(d[i])->Object_0[key] == or_null(member(d[i], key)));
    lemma_one_changed(owned_blocks(existing), owned_blocks(desired), i);
    law_a_change_in_what_is_owned_is_drift(existing, desired);
}

/// One element that differs in its id, its type or its properties is drift.
pub proof fn law_a_changed_element_is_drift(existing: JsonView, desired: JsonView, i: int)
    requires
        ({
            let e = items_of(member(existing, "elements"@));
            let d = items_of(member(desired, "elements"@));
            &&& e.len() == d.len() && 0 <= i < e.len()
            &&& forall|j: int| 0 <= j < e.len() && j != i ==> #[trigger] e[j] == d[j]
            &&& or_null(member(e[i], "id"@)) != or_null(member(d[i], "id"@)) || or_null(
                member(e[i], "element_type"@),
            ) != or_null(member(d[i], "element_type"@)) || or_null(member(e[i], "properties"@))
                != or_null(member(d[i], "properties"@))
        }),
    ensures
        drifted(existing, desired),
{
    lemma_document_keys();
    let e = items_of(member(existing, "elements"@));
    let d = items_of(member(desired, "elements"@));
    let key = if or_null(member(e[i], "id"@)) != or_null(member(d[i], "id"@)) {
        "id"@
    } else if or_null(member(e[i], "element_type"@)) != or_null(member(d[i], "element_type"@)) {
        "element_type"@
    } else {
        "properties"@
    };
    assert(owned_element(e[i])->Object_0[key] == or_null(member(e[i], key)));
    assert(owned_element(d[i])->Object_0[key] == or_null(member(d[i], key)));
    lemma_one_changed(owned_elements(existing), owned_elements(desired), i);
    law_a_change_in_what_is_owned_is_drift(existing, desired);
}

/// One link that starts or ends somewhere else is drift.
pub proof fn law_a_changed_link_is_drift(
    existing: JsonView,
    desired: JsonView,
    i: int,
    from: Seq<char>,
    other_from: Seq<char>,
    to: Seq<char>,
    other_to: Seq<char>,
)
    requires
        ({
            let e = items_of(member(existing, "links"@));
            let d = items_of(member(desired, "links"@));
            &&& e.len() == d.len() && 0 <= i < e.len()
            &&& forall|j: int| 0 <= j < e.len() && j != i ==> #[trigger] e[j] == d[j]
            &&& text_of(member(e[i], "from"@)) == Some(from)
            &&& text_of(member(e[i], "to"@)) == Some(to)
            &&& text_of(member(d[i], "from"@)) == Some(other_from)
            &&& text_of(member(d[i], "to"@)) == Some(other_to)
            &&& from != other_from && to == other_to || from == other_from && to != other_to
        }),
    ensures
        drifted(existing, desired),
{
    let e = items_of(member(existing, "links"@));
    let d = items_of(member(desired, "links"@));
    let arrow = "->"@;
    let a = from + arrow + to;
    let b = other_from + arrow + other_to;
    if a == b {
        if to == other_to {
            assert(from.len() == other_from.len());
            assert(a.subrange(0, from.len() as int) =~= from);
            assert(b.subrange(0, from.len() as int) =~= other_from);
        } else {
            let n = (from.len() + arrow.len()) as int;
            assert(a.subrange(n, a.len() as int) =~= to);
            assert(b.subrange(n, b.len() as int) =~= other_to);
        }
    }
    assert(link_texts(existing)[i] == JsonView::Text(a));
    assert(link_texts(desired)[i] == JsonView::Text(b));
    lemma_one_changed(link_texts(existing), link_texts(desired), i);
    law_a_change_in_what_is_owned_is_drift(existing, desired);
}

/// A block, an element or a link too many, or one too few, is drift, and so is another
/// name.
pub proof fn law_a_part_too_many_is_drift(existing: JsonView, desired: JsonView)
    requires
        member(existing, "name"@) != member(desired, "name"@) || items_of(
            member(existing, "blocks"@),
        ).len() != items_of(member(desired, "blocks"@)).len() || items_of(
            member(existing, "elements"@),
        ).len() != items_of(member(desired, "elements"@)).len() || items_of(
            member(existing, "links"@),
        ).len() != items_of(member(desired, "links"@)).len(),
    ensures
        drifted(existing, desired),
{
    lemma_by_key(owned_blocks(existing));
    lemma_by_key(owned_blocks(desired));
    lemma_by_key(owned_elements(existing));
    lemma_by_key(owned_elements(desired));
    lemma_by_key(link_texts(existing));
    lemma_by_key(link_texts(desired));
}

proof fn lemma_one_changed(a: Seq<JsonView>, b: Seq<JsonView>, i: int)
    requires
        a.len() == b.len(),
        0 <= i < a.len(),
        a[i] != b[i],
        forall|j: int| 0 <= j < a.len() && j != i ==> #[trigger] a[j] == b[j],
    ensures
        a.to_multiset() != b.to_multiset(),
{
    broadcast use vstd::seq_lib::group_to_multiset_ensures;

    let rest = a.remove(i);
    assert(b.remove(i) =~= rest);
    assert(a =~= rest.insert(i, a[i]));
    assert(b =~= rest.insert(i, b[i]));
    vstd::seq_lib::to_multiset_insert(rest, i, a[i]);
    vstd::seq_lib::to_multiset_insert(rest, i, b[i]);
    assert(a.to_multiset().count(a[i]) == rest.to_multiset().count(a[i]) + 1);
    assert(b.to_multiset().count(a[i]) == rest.to_multiset().count(a[i]));
}

/// A block and an element stand where they are put, a block on the first row.
pub proof fn law_a_part_stands_where_it_is_put(
    id: Seq<char>,
    kind: Seq<char>,
    name: Seq<char>,
    properties: Map<Seq<char>, JsonView>,
    x: u64,
    y: u64,
)
    requires
        x != 0x8000_0000_0000_0000,
        y != 0x8000_0000_0000_0000,
    ensures
        ({
            let at = member(block_json(id, kind, name, properties, x), "position"@)->0;
            &&& member(at, "x"@) == Some(JsonView::Number(Number::Float(x)))
            &&& member(at, "y"@) == Some(JsonView::Number(Number::Float(0)))
        }),
        member(element_json(id, kind, properties, x, y), "position"@) == Some(
            JsonView::List(
                seq![
                    JsonView::Number(Number::Float(x)),
                    JsonView::Number(Number::Float(y)),
                ],
            ),
        ),
{
    reveal_strlit("x");
    reveal_strlit("y");
    assert("x"@[0] == 'x' && "y"@[0] == 'y');
    lemma_document_keys();
}

} // verus!
