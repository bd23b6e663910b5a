//! The flow the gateway asks Strom to run for one input.
//!
//! ```text
//!   builtin.local_input ── video_out ──> builtin.videoenc ── encoded_out ──> builtin.mpegtssrt_output
//!   (or videotestsrc/audiotestsrc)                                           audio_in_0 <── test tone
//! ```
//!
//! Block definition ids and property names are Strom's own strings: they live in each
//! block's builder there, so a rename fails at runtime rather than at compile time.
//! `GET /api/blocks` on a live Strom is the authority.

use crate::config::{parse_resolution, parsed_resolution, Endpoint, Video};
use crate::text::{
    after_prefix, char_is_alphanumeric, copy_opt, dec, decimal, is_alphanumeric, nonempty,
    opt_text, same_text, strip_prefix, to_chars,
};
use vstd::prelude::*;

verus! {

// ---------------------------------------------------------------------------
// Flow ids
// ---------------------------------------------------------------------------

/// Namespace for flow ids: the same gateway id and input id always name the same
/// flow, so nothing has to be stored to find it again.
pub const NAMESPACE: u128 = 0x6f70656e_2d6c6976_652d6777_00000001;

/// The input id of the test pattern, which has no device.
pub const TEST_INPUT_ID: &'static str = "test";

/// A flow's id: a UUID as one number, most significant byte first.
#[derive(Clone, Copy, Debug, PartialEq, Eq, Structural)]
pub struct FlowId {
    pub value: u128,
}

/// The UUID that `Uuid::new_v5` derives from a namespace and a name.
pub uninterp spec fn uuid_v5_value(namespace: u128, name: Seq<char>) -> u128;

/// Calls `Uuid::new_v5` on the UTF-8 bytes of `name`, with both UUIDs taken as
/// numbers. The contract claims that the result depends on nothing but the two
/// arguments; that different names give different ids is left unsaid, since it rests
/// on SHA-1.
#[verifier::external_body]
fn uuid_v5(namespace: u128, name: &str) -> (r: u128)
    ensures
        r == uuid_v5_value(namespace, name@),
{
    uuid::Uuid::new_v5(&uuid::Uuid::from_u128(namespace), name.as_bytes()).as_u128()
}

/// The id of the flow that a gateway runs for an input.
pub open spec fn derived_id(gateway_id: Seq<char>, input_id: Seq<char>) -> FlowId {
    FlowId { value: uuid_v5_value(NAMESPACE, gateway_id + "/"@ + input_id) }
}

pub fn flow_id(gateway_id: &str, input_id: &str) -> (r: FlowId)
    ensures
        r == derived_id(gateway_id@, input_id@),
{
    let name = gateway_id.to_owned().concat("/").concat(input_id);
    FlowId { value: uuid_v5(NAMESPACE, name.as_str()) }
}

pub open spec fn hex_char(d: nat) -> char {
    if d < 10 {
        ((48 + d) as u8) as char
    } else {
        ((87 + d) as u8) as char
    }
}

/// The last `digits` digits of a number in base 16, lower case.
pub open spec fn hex(n: nat, digits: nat) -> Seq<char>
    decreases digits,
{
    if digits == 0 {
        Seq::empty()
    } else {
        hex(n / 16, (digits - 1) as nat).push(hex_char(n % 16))
    }
}

/// A UUID's usual form: 32 hexadecimal digits in groups of 8, 4, 4, 4, and 12.
pub open spec fn uuid_text(value: u128) -> Seq<char> {
    hex(value as nat / 0x1_0000_0000_0000_0000_0000_0000, 8) + "-"@ + hex(
        value as nat / 0x1_0000_0000_0000_0000_0000,
        4,
    ) + "-"@ + hex(value as nat / 0x1_0000_0000_0000_0000, 4) + "-"@ + hex(
        value as nat / 0x1_0000_0000_0000,
        4,
    ) + "-"@ + hex(value as nat, 12)
}

fn write_hex(n: u128, digits: u8) -> (r: String)
    ensures
        r@ == hex(n as nat, digits as nat),
    decreases digits,
{
    if digits == 0 {
        return String::new();
    }
    let mut out = write_hex(n / 16, digits - 1);
    let d: u8 = (n % 16) as u8;
    if d < 10 {
        out.push((48 + d) as char);
    } else {
        out.push((87 + d) as char);
    }
    out
}

impl FlowId {
    pub fn text(&self) -> (r: String)
        ensures
            r@ == uuid_text(self.value),
    {
        let v: u128 = self.value;
        write_hex(v / 0x1_0000_0000_0000_0000_0000_0000, 8).concat("-").concat(
            write_hex(v / 0x1_0000_0000_0000_0000_0000, 4).as_str(),
        ).concat("-").concat(write_hex(v / 0x1_0000_0000_0000_0000, 4).as_str()).concat("-").concat(
            write_hex(v / 0x1_0000_0000_0000, 4).as_str(),
        ).concat("-").concat(write_hex(v, 12).as_str())
    }
}

// ---------------------------------------------------------------------------
// What Strom holds of a flow
// ---------------------------------------------------------------------------

/// A property of a block or an element. A fractional number is held by the bits of
/// its double-precision form.
#[derive(Debug)]
pub enum PropertyValue {
    Text(String),
    Bool(bool),
    UInt(u64),
    Float(u64),
}

pub enum PropView {
    Text(Seq<char>),
    Bool(bool),
    UInt(u64),
    Float(u64),
}

impl PropertyValue {
    pub open spec fn view(&self) -> PropView {
        match self {
            PropertyValue::Text(s) => PropView::Text(s@),
            PropertyValue::Bool(b) => PropView::Bool(*b),
            PropertyValue::UInt(n) => PropView::UInt(*n),
            PropertyValue::Float(n) => PropView::Float(*n),
        }
    }
}

/// Named properties. Of two entries with one name the later counts.
#[derive(Debug)]
pub struct Properties {
    pub entries: Vec<(String, PropertyValue)>,
}

pub open spec fn entries_map(s: Seq<(String, PropertyValue)>) -> Map<Seq<char>, PropView>
    decreases s.len(),
{
    if s.len() == 0 {
        Map::empty()
    } else {
        entries_map(s.drop_last()).insert(s.last().0@, s.last().1@)
    }
}

impl Properties {
    pub open spec fn view(&self) -> Map<Seq<char>, PropView> {
        entries_map(self.entries@)
    }

    pub fn new() -> (r: Properties)
        ensures
            r@ == Map::<Seq<char>, PropView>::empty(),
    {
        Properties { entries: Vec::new() }
    }

    pub fn insert(&mut self, key: &str, value: PropertyValue)
        ensures
            final(self)@ == old(self)@.insert(key@, value@),
    {
        let ghost before = self.entries@;
        self.entries.push((key.to_owned(), value));
        assert(self.entries@.drop_last() =~= before);
    }

    fn text(&mut self, key: &str, value: &str)
        ensures
            final(self)@ == old(self)@.insert(key@, PropView::Text(value@)),
    {
        self.insert(key, PropertyValue::Text(value.to_owned()));
    }

    fn uint(&mut self, key: &str, value: u32)
        ensures
            final(self)@ == old(self)@.insert(key@, PropView::UInt(value as u64)),
    {
        self.insert(key, PropertyValue::UInt(value as u64));
    }

    pub fn get(&self, key: &str) -> (r: Option<&PropertyValue>)
        ensures
            match r {
                Some(v) => self@.contains_key(key@) && self@[key@] == v@,
                None => !self@.contains_key(key@),
            },
    {
        let mut i: usize = self.entries.len();
        assert(self.entries@.subrange(0, i as int) =~= self.entries@);
        while i > 0
            invariant
                i <= self.entries@.len(),
                self@.contains_key(key@) == entries_map(
                    self.entries@.subrange(0, i as int),
                ).contains_key(key@),
                self@.contains_key(key@) ==> self@[key@] == entries_map(
                    self.entries@.subrange(0, i as int),
                )[key@],
            decreases i,
        {
            let ghost upto = self.entries@.subrange(0, i as int);
            assert(upto.drop_last() =~= self.entries@.subrange(0, i - 1));
            i = i - 1;
            if same_text(self.entries[i].0.as_str(), key) {
                return Some(&self.entries[i].1);
            }
        }
        None
    }
}

/// A block in a flow: an instance of one of Strom's definitions.
#[derive(Debug)]
pub struct BlockInstance {
    pub id: String,
    pub block_definition_id: String,
    pub name: Option<String>,
    pub properties: Properties,
    /// Where the editor draws it.
    pub x: u32,
}

pub struct BlockView {
    pub id: Seq<char>,
    pub definition: Seq<char>,
    pub name: Option<Seq<char>>,
    pub properties: Map<Seq<char>, PropView>,
    pub x: u32,
}

impl BlockInstance {
    pub open spec fn view(&self) -> BlockView {
        BlockView {
            id: self.id@,
            definition: self.block_definition_id@,
            name: opt_text(self.name),
            properties: self.properties@,
            x: self.x,
        }
    }
}

/// A raw element in a flow.
#[derive(Debug)]
pub struct Element {
    pub id: String,
    pub element_type: String,
    pub properties: Properties,
    /// Where the editor draws it.
    pub x: u32,
    pub y: u32,
}

pub struct ElementView {
    pub id: Seq<char>,
    pub element_type: Seq<char>,
    pub properties: Map<Seq<char>, PropView>,
    pub x: u32,
    pub y: u32,
}

impl Element {
    pub open spec fn view(&self) -> ElementView {
        ElementView {
            id: self.id@,
            element_type: self.element_type@,
            properties: self.properties@,
            x: self.x,
            y: self.y,
        }
    }
}

/// A connection between two pads, each written `id:pad`.
#[derive(Debug)]
pub struct Link {
    pub from: String,
    pub to: String,
}

impl Link {
    pub open spec fn view(&self) -> (Seq<char>, Seq<char>) {
        (self.from@, self.to@)
    }
}

#[derive(Debug)]
pub struct Flow {
    pub id: FlowId,
    pub name: String,
    pub elements: Vec<Element>,
    pub blocks: Vec<BlockInstance>,
    pub links: Vec<Link>,
    pub running: bool,
    pub gst_state: Option<String>,
}

pub struct FlowView {
    pub id: FlowId,
    pub name: Seq<char>,
    pub elements: Seq<ElementView>,
    pub blocks: Seq<BlockView>,
    pub links: Seq<(Seq<char>, Seq<char>)>,
    pub running: bool,
    pub gst_state: Option<Seq<char>>,
}

impl Flow {
    pub open spec fn view(&self) -> FlowView {
        FlowView {
            id: self.id,
            name: self.name@,
            elements: self.elements@.map_values(|e: Element| e@),
            blocks: self.blocks@.map_values(|b: BlockInstance| b@),
            links: self.links@.map_values(|l: Link| l@),
            running: self.running,
            gst_state: opt_text(self.gst_state),
        }
    }
}

// ---------------------------------------------------------------------------
// Inputs
// ---------------------------------------------------------------------------

/// A character of an input id: letters and digits stay, anything else is a dash.
pub open spec fn id_char(c: char) -> char {
    if is_alphanumeric(c) {
        c
    } else {
        '-'
    }
}

/// The input id of a device: its Strom id without its own prefix, made of letters,
/// digits, and dashes, behind `dev-`.
pub open spec fn id_of_device(device_id: Seq<char>) -> Seq<char> {
    "dev-"@ + (match after_prefix(device_id, "dev-"@) {
        Some(rest) => rest,
        None => device_id,
    }).map_values(|c: char| id_char(c))
}

/// A stable input id for a device, so the same camera addresses the same flow and
/// the same source across runs. Strom ids look like `dev-d24eb9fb6733c220`.
pub fn device_input_id(device_id: &str) -> (r: String)
    ensures
        r@ == id_of_device(device_id@),
{
    let trimmed = match strip_prefix(device_id, "dev-") {
        Some(rest) => rest,
        None => device_id.to_owned(),
    };
    let v = to_chars(trimmed.as_str());
    let mut out = "dev-".to_owned();
    let mut i: usize = 0;
    assert(out@ =~= "dev-"@ + v@.map_values(|c: char| id_char(c)).subrange(0, 0));
    while i < v.len()
        invariant
            i <= v@.len(),
            out@ == "dev-"@ + v@.map_values(|c: char| id_char(c)).subrange(0, i as int),
        decreases v@.len() - i,
    {
        let ghost cleaned = v@.map_values(|c: char| id_char(c));
        let c: char = if char_is_alphanumeric(v[i]) {
            v[i]
        } else {
            '-'
        };
        out.push(c);
        assert(cleaned.subrange(0, i + 1) =~= cleaned.subrange(0, i as int).push(c));
        assert(out@ =~= "dev-"@ + cleaned.subrange(0, i + 1));
        i = i + 1;
    }
    assert(v@.map_values(|c: char| id_char(c)).subrange(0, v@.len() as int) =~= v@.map_values(
        |c: char| id_char(c),
    ));
    out
}

/// What an input captures.
#[allow(inconsistent_fields)]
#[derive(Debug)]
pub enum Source {
    /// A device Strom can see, by its discovery id. Video only: a webcam's
    /// microphone is a separate device on its own clock and drifts against the
    /// video over a long show. Embedded audio means SDI.
    Device { device_id: String, resolution: Option<String>, framerate: Option<String> },
    /// SMPTE bars and a 1 kHz tone, for commissioning a link before cameras arrive.
    Test { resolution: String, framerate: String },
}

impl Clone for Source {
    fn clone(&self) -> (r: Self)
        ensures
            r == *self,
    {
        match self {
            Source::Device { device_id, resolution, framerate } => Source::Device {
                device_id: device_id.clone(),
                resolution: copy_opt(resolution),
                framerate: copy_opt(framerate),
            },
            Source::Test { resolution, framerate } => Source::Test {
                resolution: resolution.clone(),
                framerate: framerate.clone(),
            },
        }
    }
}

#[derive(Debug)]
pub struct Input {
    pub id: String,
    /// Both the flow name in Strom and the source name in Open Live.
    pub name: String,
    pub source: Source,
    pub endpoint: Endpoint,
}

impl Clone for Input {
    fn clone(&self) -> (r: Self)
        ensures
            r == *self,
    {
        Input {
            id: self.id.clone(),
            name: self.name.clone(),
            source: self.source.clone(),
            endpoint: self.endpoint.clone(),
        }
    }
}

/// The id an input has by what it captures.
pub open spec fn id_of_source(source: Source) -> Seq<char> {
    match source {
        Source::Device { device_id, .. } => id_of_device(device_id@),
        Source::Test { .. } => "test"@,
    }
}

impl Input {
    /// The input goes by the id its source gives it, and a device it captures has one.
    pub open spec fn wf(&self) -> bool {
        &&& self.id@ == id_of_source(self.source)
        &&& match self.source {
            Source::Device { device_id, .. } => device_id@.len() > 0,
            Source::Test { .. } => true,
        }
    }
}

// ---------------------------------------------------------------------------
// Building
// ---------------------------------------------------------------------------

/// 1000 as a double: the test tone in hertz.
pub const TONE_HZ: u64 = 0x408F_4000_0000_0000;

pub open spec fn no_props() -> Map<Seq<char>, PropView> {
    Map::empty()
}

pub open spec fn block_of(
    id: Seq<char>,
    definition: Seq<char>,
    name: Seq<char>,
    properties: Map<Seq<char>, PropView>,
    x: u32,
) -> BlockView {
    BlockView { id, definition, name: Some(name), properties, x }
}

pub open spec fn link_of(
    from_id: Seq<char>,
    from_pad: Seq<char>,
    to_id: Seq<char>,
    to_pad: Seq<char>,
) -> (Seq<char>, Seq<char>) {
    (from_id + ":"@ + from_pad, to_id + ":"@ + to_pad)
}

/// The property is set only where a value was asked for: by default a device is taken
/// in whatever format it offers.
pub open spec fn with_optional(
    m: Map<Seq<char>, PropView>,
    key: Seq<char>,
    value: Option<Seq<char>>,
) -> Map<Seq<char>, PropView> {
    match value {
        Some(v) => m.insert(key, PropView::Text(v)),
        None => m,
    }
}

/// The block that captures a device.
pub open spec fn capture_block(
    device_id: Seq<char>,
    resolution: Option<Seq<char>>,
    framerate: Option<Seq<char>>,
) -> BlockView {
    block_of(
        "capture"@,
        "builtin.local_input"@,
        "Capture"@,
        with_optional(
            with_optional(
                no_props().insert("stream_mode"@, PropView::Text("video"@)).insert(
                    "video_device"@,
                    PropView::Text(device_id),
                ),
                "video_resolution"@,
                resolution,
            ),
            "video_framerate"@,
            framerate,
        ),
        0,
    )
}

/// The size of the test picture: as asked, or full HD where that is no size.
pub open spec fn test_size(resolution: Seq<char>) -> (u32, u32) {
    match parsed_resolution(resolution) {
        Ok(size) => size,
        Err(_) => (1920, 1080),
    }
}

pub open spec fn test_video_caps(resolution: Seq<char>, framerate: Seq<char>) -> Seq<char> {
    "video/x-raw,width="@ + dec(test_size(resolution).0 as nat) + ",height="@ + dec(
        test_size(resolution).1 as nat,
    ) + ",framerate="@ + framerate
}

/// The raw elements of the test pattern and its tone. The capsfilters are not
/// optional; without them the sources negotiate 320x240 and 44.1 kHz mono.
pub open spec fn test_elements(resolution: Seq<char>, framerate: Seq<char>) -> Seq<ElementView> {
    seq![
        ElementView {
            id: "testvideo"@,
            element_type: "videotestsrc"@,
            properties: no_props().insert("is-live"@, PropView::Bool(true)).insert(
                "pattern"@,
                PropView::Text("smpte"@),
            ),
            x: 0,
            y: 0,
        },
        ElementView {
            id: "testvideocaps"@,
            element_type: "capsfilter"@,
            properties: no_props().insert(
                "caps"@,
                PropView::Text(test_video_caps(resolution, framerate)),
            ),
            x: 120,
            y: 0,
        },
        ElementView {
            id: "testaudio"@,
            element_type: "audiotestsrc"@,
            properties: no_props().insert("is-live"@, PropView::Bool(true)).insert(
                "wave"@,
                PropView::Text("sine"@),
            ).insert("freq"@, PropView::Float(TONE_HZ)),
            x: 0,
            y: 150,
        },
        ElementView {
            id: "testaudiocaps"@,
            element_type: "capsfilter"@,
            properties: no_props().insert(
                "caps"@,
                PropView::Text("audio/x-raw,rate=48000,channels=2"@),
            ),
            x: 120,
            y: 150,
        },
    ]
}

pub open spec fn encoder_block(video: Video) -> BlockView {
    block_of(
        "encoder"@,
        "builtin.videoenc"@,
        "Encoder"@,
        no_props().insert("codec"@, PropView::Text(video.codec@)).insert(
            "encoder_preference"@,
            PropView::Text(video.encoder_preference@),
        ).insert("bitrate"@, PropView::UInt(video.bitrate_kbps as u64)).insert(
            "quality_preset"@,
            PropView::Text(video.quality_preset@),
        ).insert("tune"@, PropView::Text(video.tune@)).insert(
            "rate_control"@,
            PropView::Text(video.rate_control@),
        ).insert("keyframe_interval"@, PropView::UInt(video.keyframe_interval as u64)),
        250,
    )
}

/// The block that sends. Declaring an audio track the flow never delivers would stall
/// the pipeline on a pad that never produces, so the count follows the source.
pub open spec fn uplink_block(endpoint: Endpoint, audio: bool) -> BlockView {
    block_of(
        "uplink"@,
        "builtin.mpegtssrt_output"@,
        "SRT Uplink"@,
        no_props().insert("srt_uri"@, PropView::Text(endpoint.venue_address())).insert(
            "latency"@,
            PropView::UInt(endpoint.latency_ms as u64),
        ).insert("num_video_tracks"@, PropView::UInt(1)).insert(
            "num_audio_tracks"@,
            PropView::UInt(
                if audio {
                    1
                } else {
                    0
                },
            ),
        ),
        500,
    )
}

/// The flow of an input, as a whole.
pub open spec fn built(gateway_id: Seq<char>, input: Input, video: Video) -> FlowView {
    FlowView {
        id: derived_id(gateway_id, input.id@),
        name: input.name@,
        elements: match input.source {
            Source::Device { .. } => Seq::empty(),
            Source::Test { resolution, framerate } => test_elements(resolution@, framerate@),
        },
        blocks: match input.source {
            Source::Device { device_id, resolution, framerate } => seq![
                capture_block(device_id@, nonempty(resolution), nonempty(framerate)),
                encoder_block(video),
                uplink_block(input.endpoint, false),
            ],
            Source::Test { .. } => seq![encoder_block(video), uplink_block(input.endpoint, true)],
        },
        links: match input.source {
            Source::Device { .. } => seq![
                link_of("capture"@, "video_out"@, "encoder"@, "video_in"@),
                link_of("encoder"@, "encoded_out"@, "uplink"@, "video_in"@),
            ],
            Source::Test { .. } => seq![
                link_of("testvideo"@, "src"@, "testvideocaps"@, "sink"@),
                link_of("testvideocaps"@, "src"@, "encoder"@, "video_in"@),
                link_of("testaudio"@, "src"@, "testaudiocaps"@, "sink"@),
                link_of("testaudiocaps"@, "src"@, "uplink"@, "audio_in_0"@),
                link_of("encoder"@, "encoded_out"@, "uplink"@, "video_in"@),
            ],
        },
        running: false,
        gst_state: None,
    }
}

fn block(id: &str, definition: &str, name: &str, properties: Properties, x: u32) -> (r:
    BlockInstance)
    ensures
        r@ == block_of(id@, definition@, name@, properties@, x),
{
    BlockInstance {
        id: id.to_owned(),
        block_definition_id: definition.to_owned(),
        name: Some(name.to_owned()),
        properties,
        x,
    }
}

fn element(id: &str, element_type: &str, properties: Properties, x: u32, y: u32) -> (r: Element)
    ensures
        r@ == (ElementView {
            id: id@,
            element_type: element_type@,
            properties: properties@,
            x,
            y,
        }),
{
    Element { id: id.to_owned(), element_type: element_type.to_owned(), properties, x, y }
}

fn link(from_id: &str, from_pad: &str, to_id: &str, to_pad: &str) -> (r: Link)
    ensures
        r@ == link_of(from_id@, from_pad@, to_id@, to_pad@),
{
    Link {
        from: from_id.to_owned().concat(":").concat(from_pad),
        to: to_id.to_owned().concat(":").concat(to_pad),
    }
}

fn build_capture(device_id: &str, resolution: &Option<String>, framerate: &Option<String>) -> (r:
    BlockInstance)
    ensures
        r@ == capture_block(device_id@, nonempty(*resolution), nonempty(*framerate)),
{
    let mut p = Properties::new();
    p.text("stream_mode", "video");
    p.text("video_device", device_id);
    if let Some(res) = resolution {
        if !res.as_str().is_empty() {
            p.text("video_resolution", res.as_str());
        }
    }
    if let Some(rate) = framerate {
        if !rate.as_str().is_empty() {
            p.text("video_framerate", rate.as_str());
        }
    }
    block("capture", "builtin.local_input", "Capture", p, 0)
}

fn build_test_elements(resolution: &str, framerate: &str) -> (r: Vec<Element>)
    ensures
        r@.map_values(|e: Element| e@) == test_elements(resolution@, framerate@),
{
    let (width, height): (u32, u32) = match parse_resolution(resolution) {
        Ok(size) => size,
        Err(_) => (1920, 1080),
    };
    let mut elements: Vec<Element> = Vec::new();
    let mut p = Properties::new();
    p.insert("is-live", PropertyValue::Bool(true));
    p.text("pattern", "smpte");
    elements.push(element("testvideo", "videotestsrc", p, 0, 0));
    let caps = "video/x-raw,width=".to_owned().concat(decimal(width as u64).as_str()).concat(
        ",height=",
    ).concat(decimal(height as u64).as_str()).concat(",framerate=").concat(framerate);
    let mut p = Properties::new();
    p.text("caps", caps.as_str());
    elements.push(element("testvideocaps", "capsfilter", p, 120, 0));
    let mut p = Properties::new();
    p.insert("is-live", PropertyValue::Bool(true));
    p.text("wave", "sine");
    p.insert("freq", PropertyValue::Float(TONE_HZ));
    elements.push(element("testaudio", "audiotestsrc", p, 0, 150));
    let mut p = Properties::new();
    p.text("caps", "audio/x-raw,rate=48000,channels=2");
    elements.push(element("testaudiocaps", "capsfilter", p, 120, 150));
    assert(elements@.map_values(|e: Element| e@) =~= test_elements(resolution@, framerate@));
    elements
}

fn build_encoder(video: &Video) -> (r: BlockInstance)
    ensures
        r@ == encoder_block(*video),
{
    let mut p = Properties::new();
    p.text("codec", video.codec.as_str());
    p.text("encoder_preference", video.encoder_preference.as_str());
    p.uint("bitrate", video.bitrate_kbps);
    p.text("quality_preset", video.quality_preset.as_str());
    p.text("tune", video.tune.as_str());
    p.text("rate_control", video.rate_control.as_str());
    p.uint("keyframe_interval", video.keyframe_interval);
    block("encoder", "builtin.videoenc", "Encoder", p, 250)
}

fn build_uplink(endpoint: &Endpoint, audio: bool) -> (r: BlockInstance)
    ensures
        r@ == uplink_block(*endpoint, audio),
{
    let mut p = Properties::new();
    p.text("srt_uri", endpoint.venue_uri().as_str());
    p.uint("latency", endpoint.latency_ms);
    p.uint("num_video_tracks", 1);
    p.uint(
        "num_audio_tracks",
        if audio {
            1
        } else {
            0
        },
    );
    block("uplink", "builtin.mpegtssrt_output", "SRT Uplink", p, 500)
}

pub fn build(gateway_id: &str, input: &Input, video: &Video) -> (r: Flow)
    ensures
        r@ == built(gateway_id@, *input, *video),
{
    let mut blocks: Vec<BlockInstance> = Vec::new();
    let mut elements: Vec<Element> = Vec::new();
    let mut links: Vec<Link> = Vec::new();
    let audio: bool = match &input.source {
        Source::Device { device_id, resolution, framerate } => {
            blocks.push(build_capture(device_id.as_str(), resolution, framerate));
            links.push(link("capture", "video_out", "encoder", "video_in"));
            false
        },
        Source::Test { resolution, framerate } => {
            elements = build_test_elements(resolution.as_str(), framerate.as_str());
            links.push(link("testvideo", "src", "testvideocaps", "sink"));
            links.push(link("testvideocaps", "src", "encoder", "video_in"));
            links.push(link("testaudio", "src", "testaudiocaps", "sink"));
            links.push(link("testaudiocaps", "src", "uplink", "audio_in_0"));
            true
        },
    };
    blocks.push(build_encoder(video));
    blocks.push(build_uplink(&input.endpoint, audio));
    links.push(link("encoder", "encoded_out", "uplink", "video_in"));
    let flow = Flow {
        id: flow_id(gateway_id, input.id.as_str()),
        name: input.name.clone(),
        elements,
        blocks,
        links,
        running: false,
        gst_state: None,
    };
    proof {
        let want = built(gateway_id@, *input, *video);
        assert(flow@.elements =~= want.elements);
        assert(flow@.blocks =~= want.blocks);
        assert(flow@.links =~= want.links);
    }
    flow
}

// ---------------------------------------------------------------------------
// Recognising flows
// ---------------------------------------------------------------------------

/// The first block made from a definition.
pub open spec fn first_block(blocks: Seq<BlockView>, definition: Seq<char>) -> Option<BlockView>
    decreases blocks.len(),
{
    if blocks.len() == 0 {
        None
    } else if blocks[0].definition == definition {
        Some(blocks[0])
    } else {
        first_block(blocks.drop_first(), definition)
    }
}

/// The device a flow captures from.
pub open spec fn captured_device(flow: FlowView) -> Option<Seq<char>> {
    match first_block(flow.blocks, "builtin.local_input"@) {
        None => None,
        Some(b) => if b.properties.contains_key("video_device"@) {
            match b.properties["video_device"@] {
                PropView::Text(device) => if device.len() > 0 {
                    Some(device)
                } else {
                    None
                },
                _ => None,
            }
        } else {
            None
        },
    }
}

pub open spec fn has_test_source(flow: FlowView) -> bool {
    exists|i: int|
        0 <= i < flow.elements.len() && (#[trigger] flow.elements[i]).element_type
            == "videotestsrc"@
}

/// The input id a flow would have been built for.
pub open spec fn built_for(flow: FlowView) -> Option<Seq<char>> {
    match captured_device(flow) {
        Some(device) => Some(id_of_device(device)),
        None => if has_test_source(flow) {
            Some("test"@)
        } else {
            None
        },
    }
}

/// A flow is this gateway's when its id is the one it would derive for its input.
pub open spec fn ours(flow: FlowView, gateway_id: Seq<char>) -> bool {
    match built_for(flow) {
        Some(input_id) => derived_id(gateway_id, input_id) == flow.id,
        None => false,
    }
}

/// The device a flow captures from, if it has a local-input block with one set.
pub fn capture_device_of(flow: &Flow) -> (r: Option<&str>)
    ensures
        match r {
            Some(device) => captured_device(flow@) == Some(device@),
            None => captured_device(flow@) is None,
        },
{
    let mut i: usize = 0;
    assert(flow@.blocks.subrange(0, flow@.blocks.len() as int) =~= flow@.blocks);
    while i < flow.blocks.len()
        invariant
            i <= flow.blocks@.len(),
            first_block(flow@.blocks, "builtin.local_input"@) == first_block(
                flow@.blocks.subrange(i as int, flow@.blocks.len() as int),
                "builtin.local_input"@,
            ),
        decreases flow.blocks@.len() - i,
    {
        let ghost rest = flow@.blocks.subrange(i as int, flow@.blocks.len() as int);
        assert(rest[0] == flow.blocks@[i as int]@);
        if same_text(flow.blocks[i].block_definition_id.as_str(), "builtin.local_input") {
            return match flow.blocks[i].properties.get("video_device") {
                Some(PropertyValue::Text(device)) => if device.as_str().is_empty() {
                    None
                } else {
                    Some(device.as_str())
                },
                _ => None,
            };
        }
        assert(rest.drop_first() =~= flow@.blocks.subrange(i + 1, flow@.blocks.len() as int));
        i = i + 1;
    }
    None
}

/// The input id a flow would have been built for, if it has the shape of one of ours.
pub fn input_id_of(flow: &Flow) -> (r: Option<String>)
    ensures
        opt_text(r) == built_for(flow@),
{
    if let Some(device) = capture_device_of(flow) {
        return Some(device_input_id(device));
    }
    let mut i: usize = 0;
    while i < flow.elements.len()
        invariant
            i <= flow.elements@.len(),
            captured_device(flow@) is None,
            forall|j: int|
                0 <= j < i ==> (#[trigger] flow@.elements[j]).element_type != "videotestsrc"@,
        decreases flow.elements@.len() - i,
    {
        assert(flow@.elements[i as int] == flow.elements@[i as int]@);
        if same_text(flow.elements[i].element_type.as_str(), "videotestsrc") {
            return Some("test".to_owned());
        }
        i = i + 1;
    }
    None
}

/// Whether a flow is one this gateway built: its id is the one this gateway would
/// derive for its input. No name convention and no stored state needed, and a flow
/// someone built by hand on the same camera is never mistaken for ours.
pub fn is_ours(flow: &Flow, gateway_id: &str) -> (r: bool)
    ensures
        r == ours(flow@, gateway_id@),
{
    match input_id_of(flow) {
        Some(input_id) => {
            let id = flow_id(gateway_id, input_id.as_str());
            id == flow.id
        },
        None => false,
    }
}

/// Every flow a gateway builds is recognised as its own afterwards, from the flow
/// alone: nothing has to be stored to find it again.
pub proof fn law_a_built_flow_is_recognised(gateway_id: Seq<char>, input: Input, video: Video)
    requires
        input.wf(),
    ensures
        ours(built(gateway_id, input, video), gateway_id),
        built_for(built(gateway_id, input, video)) == Some(input.id@),
{
    let flow = built(gateway_id, input, video);
    reveal_strlit("builtin.local_input");
    reveal_strlit("builtin.videoenc");
    reveal_strlit("builtin.mpegtssrt_output");
    assert("builtin.local_input"@.len() != "builtin.videoenc"@.len());
    assert("builtin.local_input"@.len() != "builtin.mpegtssrt_output"@.len());
    reveal_with_fuel(first_block, 4);
    match input.source {
        Source::Device { device_id, resolution, framerate } => {
            assert(first_block(flow.blocks, "builtin.local_input"@) == Some(flow.blocks[0]));
            lemma_video_device(device_id@, nonempty(resolution), nonempty(framerate));
        },
        Source::Test { resolution, framerate } => {
            assert(flow.blocks.drop_first()[0] == flow.blocks[1]);
            assert(flow.blocks.drop_first().drop_first().len() == 0);
            assert(captured_device(flow) is None);
            assert(flow.elements[0].element_type == "videotestsrc"@);
        },
    }
}

proof fn lemma_video_device(
    device_id: Seq<char>,
    resolution: Option<Seq<char>>,
    framerate: Option<Seq<char>>,
)
    ensures
        capture_block(device_id, resolution, framerate).properties.contains_key("video_device"@),
        capture_block(device_id, resolution, framerate).properties["video_device"@]
            == PropView::Text(device_id),
{
    reveal_strlit("video_device");
    reveal_strlit("video_resolution");
    reveal_strlit("video_framerate");
    assert("video_device"@.len() != "video_resolution"@.len());
    assert("video_device"@.len() != "video_framerate"@.len());
}

/// Whether a link ends at a pad.
pub open spec fn feeds(links: Seq<(Seq<char>, Seq<char>)>, pad: Seq<char>) -> bool {
    exists|i: int| 0 <= i < links.len() && (#[trigger] links[i]).1 == pad
}

/// An audio track is declared exactly where the flow delivers one: a declared track that
/// nothing feeds would stall the pipeline on a pad that never produces.
pub proof fn law_a_declared_audio_track_is_delivered(
    gateway_id: Seq<char>,
    input: Input,
    video: Video,
)
    ensures
        ({
            let flow = built(gateway_id, input, video);
            let uplink = flow.blocks.last();
            &&& uplink.definition == "builtin.mpegtssrt_output"@
            &&& uplink.properties["num_audio_tracks"@] == PropView::UInt(
                if feeds(flow.links, "uplink"@ + ":"@ + "audio_in_0"@) {
                    1
                } else {
                    0
                },
            )
            &&& feeds(flow.links, "uplink"@ + ":"@ + "video_in"@)
        }),
{
    let flow = built(gateway_id, input, video);
    let sound = "uplink"@ + ":"@ + "audio_in_0"@;
    let picture = "uplink"@ + ":"@ + "video_in"@;
    reveal_strlit("uplink");
    reveal_strlit("encoder");
    reveal_strlit(":");
    reveal_strlit("audio_in_0");
    reveal_strlit("video_in");
    match input.source {
        Source::Device { .. } => {
            assert(flow.links[1].1 == picture);
            assert(flow.links[0].1.len() == 16 && flow.links[1].1.len() == 15 && sound.len() == 17);
        },
        Source::Test { .. } => {
            assert(flow.links[3].1 == sound);
            assert(flow.links[4].1 == picture);
        },
    }
}

/// A flow made by hand on a camera is left alone: a flow whose id is not the one
/// derived for what it captures is never taken for one of the gateway's.
pub proof fn law_a_hand_built_flow_is_left_alone(flow: FlowView, gateway_id: Seq<char>)
    requires
        built_for(flow) is Some ==> derived_id(gateway_id, built_for(flow)->0) != flow.id,
    ensures
        !ours(flow, gateway_id),
{
}

// ---------------------------------------------------------------------------
// What a built flow asks of Strom
// ---------------------------------------------------------------------------

/// Every flow has one encoder, and each property of it is the video setting of the same
/// name, as it stands. It is asked for nothing else.
pub proof fn law_the_encoder_gets_each_setting_under_its_own_name(
    gateway_id: Seq<char>,
    input: Input,
    video: Video,
    i: int,
)
    ensures
        ({
            let blocks = built(gateway_id, input, video).blocks;
            &&& exists|k: int| 0 <= k < blocks.len() && (#[trigger] blocks[k]).id == "encoder"@
            &&& 0 <= i < blocks.len() && blocks[i].id == "encoder"@ ==> {
                let p = blocks[i].properties;
                &&& blocks[i].definition == "builtin.videoenc"@
                &&& p.dom() =~= set![
                    "codec"@,
                    "encoder_preference"@,
                    "bitrate"@,
                    "quality_preset"@,
                    "tune"@,
                    "rate_control"@,
                    "keyframe_interval"@,
                ]
                &&& p["codec"@] == PropView::Text(video.codec@)
                &&& p["encoder_preference"@] == PropView::Text(video.encoder_preference@)
                &&& p["bitrate"@] == PropView::UInt(video.bitrate_kbps as u64)
                &&& p["quality_preset"@] == PropView::Text(video.quality_preset@)
                &&& p["tune"@] == PropView::Text(video.tune@)
                &&& p["rate_control"@] == PropView::Text(video.rate_control@)
                &&& p["keyframe_interval"@] == PropView::UInt(video.keyframe_interval as u64)
            }
        }),
{
    lemma_block_ids();
    reveal_strlit("codec");
    reveal_strlit("encoder_preference");
    reveal_strlit("bitrate");
    reveal_strlit("quality_preset");
    reveal_strlit("tune");
    reveal_strlit("rate_control");
    reveal_strlit("keyframe_interval");
    assert("codec"@.len() == 5 && "encoder_preference"@.len() == 18 && "bitrate"@.len() == 7);
    assert("quality_preset"@.len() == 14 && "tune"@.len() == 4 && "rate_control"@.len() == 12);
    assert("keyframe_interval"@.len() == 17);
    let blocks = built(gateway_id, input, video).blocks;
    match input.source {
        Source::Device { .. } => {
            assert(blocks[1].id == "encoder"@);
        },
        Source::Test { .. } => {
            assert(blocks[0].id == "encoder"@);
        },
    }
}

proof fn lemma_block_ids()
    ensures
        "capture"@ != "encoder"@,
        "capture"@ != "uplink"@,
        "encoder"@ != "uplink"@,
{
    reveal_strlit("capture");
    reveal_strlit("encoder");
    reveal_strlit("uplink");
    assert("capture"@[0] == 'c' && "encoder"@[0] == 'e' && "uplink"@[0] == 'u');
}

/// Every flow has one uplink. It sends to the venue's address of the input, with the
/// latency of the link, one picture, and a sound exactly where the flow makes one.
pub proof fn law_the_uplink_sends_to_the_address_of_the_input(
    gateway_id: Seq<char>,
    input: Input,
    video: Video,
    i: int,
)
    ensures
        ({
            let blocks = built(gateway_id, input, video).blocks;
            &&& exists|k: int| 0 <= k < blocks.len() && (#[trigger] blocks[k]).id == "uplink"@
            &&& 0 <= i < blocks.len() && blocks[i].id == "uplink"@ ==> {
                let p = blocks[i].properties;
                &&& blocks[i].definition == "builtin.mpegtssrt_output"@
                &&& p.dom() =~= set![
                    "srt_uri"@,
                    "latency"@,
                    "num_video_tracks"@,
                    "num_audio_tracks"@,
                ]
                &&& p["srt_uri"@] == PropView::Text(input.endpoint.venue_address())
                &&& p["latency"@] == PropView::UInt(input.endpoint.latency_ms as u64)
                &&& p["num_video_tracks"@] == PropView::UInt(1)
                &&& p["num_audio_tracks"@] == PropView::UInt(
                    if input.source is Test {
                        1
                    } else {
                        0
                    },
                )
            }
        }),
{
    lemma_block_ids();
    reveal_strlit("srt_uri");
    reveal_strlit("latency");
    reveal_strlit("num_video_tracks");
    reveal_strlit("num_audio_tracks");
    assert("srt_uri"@[0] == 's' && "latency"@[0] == 'l');
    assert("num_video_tracks"@[4] == 'v' && "num_audio_tracks"@[4] == 'a');
    assert("srt_uri"@.len() == 7 && "latency"@.len() == 7 && "num_video_tracks"@.len() == 16
        && "num_audio_tracks"@.len() == 16);
    let blocks = built(gateway_id, input, video).blocks;
    match input.source {
        Source::Device { .. } => {
            assert(blocks[2].id == "uplink"@);
        },
        Source::Test { .. } => {
            assert(blocks[1].id == "uplink"@);
        },
    }
}

/// The flow of a device captures the picture of that device, asks for the size and the
/// rate that the input names and for none that it leaves empty, and puts what it
/// captures through the encoder to the uplink.
pub proof fn law_a_device_flow_captures_its_device(
    gateway_id: Seq<char>,
    input: Input,
    video: Video,
)
    requires
        input.source is Device,
    ensures
        ({
            let flow = built(gateway_id, input, video);
            let b = flow.blocks[0];
            let p = b.properties;
            let size = input.source->Device_resolution;
            let rate = input.source->Device_framerate;
            &&& flow.blocks.len() == 3 && flow.elements.len() == 0
            &&& b.id == "capture"@ && b.definition == "builtin.local_input"@
            &&& p.contains_key("stream_mode"@) && p["stream_mode"@] == PropView::Text("video"@)
            &&& p.contains_key("video_device"@) && p["video_device"@] == PropView::Text(
                input.source->device_id@,
            )
            &&& p.contains_key("video_resolution"@) <==> size is Some && size->0@.len() > 0
            &&& p.contains_key("video_resolution"@) ==> p["video_resolution"@] == PropView::Text(
                size->0@,
            )
            &&& p.contains_key("video_framerate"@) <==> rate is Some && rate->0@.len() > 0
            &&& p.contains_key("video_framerate"@) ==> p["video_framerate"@] == PropView::Text(
                rate->0@,
            )
            &&& flow.links == seq![
                ("capture:video_out"@, "encoder:video_in"@),
                ("encoder:encoded_out"@, "uplink:video_in"@),
            ]
        }),
{
    reveal_strlit("stream_mode");
    reveal_strlit("video_device");
    reveal_strlit("video_resolution");
    reveal_strlit("video_framerate");
    assert("stream_mode"@.len() == 11 && "video_device"@.len() == 12 && "video_resolution"@.len()
        == 16 && "video_framerate"@.len() == 15);
    lemma_pads();
}

proof fn lemma_pads()
    ensures
        "capture"@ + ":"@ + "video_out"@ == "capture:video_out"@,
        "encoder"@ + ":"@ + "video_in"@ == "encoder:video_in"@,
        "encoder"@ + ":"@ + "encoded_out"@ == "encoder:encoded_out"@,
        "uplink"@ + ":"@ + "video_in"@ == "uplink:video_in"@,
        "uplink"@ + ":"@ + "audio_in_0"@ == "uplink:audio_in_0"@,
        "testvideo"@ + ":"@ + "src"@ == "testvideo:src"@,
        "testvideocaps"@ + ":"@ + "sink"@ == "testvideocaps:sink"@,
        "testvideocaps"@ + ":"@ + "src"@ == "testvideocaps:src"@,
        "testaudio"@ + ":"@ + "src"@ == "testaudio:src"@,
        "testaudiocaps"@ + ":"@ + "sink"@ == "testaudiocaps:sink"@,
        "testaudiocaps"@ + ":"@ + "src"@ == "testaudiocaps:src"@,
{
    reveal_strlit("capture");
    reveal_strlit("encoder");
    reveal_strlit("uplink");
    reveal_strlit("testvideo");
    reveal_strlit("testvideocaps");
    reveal_strlit("testaudio");
    reveal_strlit("testaudiocaps");
    reveal_strlit(":");
    reveal_strlit("video_out");
    reveal_strlit("video_in");
    reveal_strlit("encoded_out");
    reveal_strlit("audio_in_0");
    reveal_strlit("src");
    reveal_strlit("sink");
    reveal_strlit("capture:video_out");
    reveal_strlit("encoder:video_in");
    reveal_strlit("encoder:encoded_out");
    reveal_strlit("uplink:video_in");
    reveal_strlit("uplink:audio_in_0");
    reveal_strlit("testvideo:src");
    reveal_strlit("testvideocaps:sink");
    reveal_strlit("testvideocaps:src");
    reveal_strlit("testaudio:src");
    reveal_strlit("testaudiocaps:sink");
    reveal_strlit("testaudiocaps:src");
    assert("capture"@ + ":"@ + "video_out"@ =~= "capture:video_out"@);
    assert("encoder"@ + ":"@ + "video_in"@ =~= "encoder:video_in"@);
    assert("encoder"@ + ":"@ + "encoded_out"@ =~= "encoder:encoded_out"@);
    assert("uplink"@ + ":"@ + "video_in"@ =~= "uplink:video_in"@);
    assert("uplink"@ + ":"@ + "audio_in_0"@ =~= "uplink:audio_in_0"@);
    assert("testvideo"@ + ":"@ + "src"@ =~= "testvideo:src"@);
    assert("testvideocaps"@ + ":"@ + "sink"@ =~= "testvideocaps:sink"@);
    assert("testvideocaps"@ + ":"@ + "src"@ =~= "testvideocaps:src"@);
    assert("testaudio"@ + ":"@ + "src"@ =~= "testaudio:src"@);
    assert("testaudiocaps"@ + ":"@ + "sink"@ =~= "testaudiocaps:sink"@);
    assert("testaudiocaps"@ + ":"@ + "src"@ =~= "testaudiocaps:src"@);
}

/// The test pattern is a live picture and a live tone. The picture has the size and the
/// rate that the input names, full HD where the size cannot be read; the tone is stereo
/// at 48 kHz. The picture goes through the encoder to the uplink, the tone straight to it.
pub proof fn law_a_test_flow_makes_a_picture_and_a_tone(
    gateway_id: Seq<char>,
    input: Input,
    video: Video,
)
    requires
        input.source is Test,
    ensures
        ({
            let flow = built(gateway_id, input, video);
            let e = flow.elements;
            let size = parsed_resolution(input.source->Test_resolution@);
            let width: nat = if size is Ok {
                size->Ok_0.0 as nat
            } else {
                1920
            };
            let height: nat = if size is Ok {
                size->Ok_0.1 as nat
            } else {
                1080
            };
            &&& flow.blocks.len() == 2 && e.len() == 4
            &&& e[0].id == "testvideo"@ && e[0].element_type == "videotestsrc"@
            &&& e[0].properties.contains_key("is-live"@) && e[0].properties["is-live"@]
                == PropView::Bool(true)
            &&& e[0].properties["pattern"@] == PropView::Text("smpte"@)
            &&& e[1].id == "testvideocaps"@ && e[1].element_type == "capsfilter"@
            &&& e[1].properties["caps"@] == PropView::Text(
                "video/x-raw,width="@ + dec(width) + ",height="@ + dec(height) + ",framerate="@
                    + input.source->Test_framerate@,
            )
            &&& e[2].id == "testaudio"@ && e[2].element_type == "audiotestsrc"@
            &&& e[2].properties.contains_key("is-live"@) && e[2].properties["is-live"@]
                == PropView::Bool(true)
            &&& e[2].properties["wave"@] == PropView::Text("sine"@)
            &&& e[2].properties["freq"@] == PropView::Float(0x408F_4000_0000_0000)
            &&& e[3].id == "testaudiocaps"@ && e[3].element_type == "capsfilter"@
            &&& e[3].properties["caps"@] == PropView::Text("audio/x-raw,rate=48000,channels=2"@)
            &&& flow.links == seq![
                ("testvideo:src"@, "testvideocaps:sink"@),
                ("testvideocaps:src"@, "encoder:video_in"@),
                ("testaudio:src"@, "testaudiocaps:sink"@),
                ("testaudiocaps:src"@, "uplink:audio_in_0"@),
                ("encoder:encoded_out"@, "uplink:video_in"@),
            ]
        }),
{
    reveal_strlit("is-live");
    reveal_strlit("pattern");
    reveal_strlit("wave");
    reveal_strlit("freq");
    assert("is-live"@[0] == 'i' && "pattern"@[0] == 'p' && "wave"@[0] == 'w' && "freq"@[0] == 'f');
    lemma_pads();
}

/// A flow carries the name of its input and an id made from the two ids alone, and is
/// handed over stopped: two flows for one input on one machine have one id, whatever else
/// is set.
pub proof fn law_the_two_ids_name_the_flow(
    gateway_id: Seq<char>,
    input: Input,
    other: Input,
    video: Video,
    other_video: Video,
)
    ensures
        built(gateway_id, input, video).name == input.name@,
        !built(gateway_id, input, video).running,
        built(gateway_id, input, video).gst_state is None,
        built(gateway_id, input, video).id.value == uuid_v5_value(
            0x6f70656e_2d6c6976_652d6777_00000001,
            gateway_id + "/"@ + input.id@,
        ),
        input.id@ == other.id@ ==> built(gateway_id, input, video).id == built(
            gateway_id,
            other,
            other_video,
        ).id,
{
}

/// The input id of a device is its own id behind one prefix, with a dash in place of
/// everything but letters and digits. A prefix that is already there is not doubled.
pub proof fn law_an_input_id_is_the_device_id_made_plain(device_id: Seq<char>, rest: Seq<char>)
    ensures
        !"dev-"@.is_prefix_of(device_id) ==> {
            let id = id_of_device(device_id);
            &&& id.len() == 4 + device_id.len()
            &&& id.subrange(0, 4) == "dev-"@
            &&& forall|i: int|
                0 <= i < device_id.len() ==> #[trigger] id[4 + i] == (if 'a' <= device_id[i] <= 'z'
                    || 'A' <= device_id[i] <= 'Z' || '0' <= device_id[i] <= '9' {
                    device_id[i]
                } else {
                    '-'
                })
        },
        !"dev-"@.is_prefix_of(rest) ==> id_of_device("dev-"@ + rest) == id_of_device(rest),
{
    reveal_strlit("dev-");
    let id = id_of_device(device_id);
    if !"dev-"@.is_prefix_of(device_id) {
        assert(id.subrange(0, 4) =~= "dev-"@);
    }
    let whole = "dev-"@ + rest;
    assert(whole.subrange(0, 4) =~= "dev-"@);
    assert(whole.subrange(4, whole.len() as int) =~= rest);
}

/// A flow is told to be the gateway's by what it captures: its first capture block names
/// a device, or it makes a test picture, and its id is the one derived for that. Nothing
/// else about the flow matters, its name least of all.
pub proof fn law_a_flow_is_told_by_what_it_captures(
    flow: FlowView,
    gateway_id: Seq<char>,
    k: int,
    device: Seq<char>,
    e: int,
)
    ensures
        0 <= k < flow.blocks.len() && flow.blocks[k].definition == "builtin.local_input"@ && (
        forall|j: int|
            0 <= j < k ==> (#[trigger] flow.blocks[j]).definition != "builtin.local_input"@)
            && flow.blocks[k].properties.contains_key("video_device"@)
            && flow.blocks[k].properties["video_device"@] == PropView::Text(device) && device.len()
            > 0 ==> (ours(flow, gateway_id) <==> flow.id == derived_id(
            gateway_id,
            id_of_device(device),
        )),
        (forall|j: int|
            0 <= j < flow.blocks.len() ==> (#[trigger] flow.blocks[j]).definition
                != "builtin.local_input"@) && 0 <= e < flow.elements.len()
            && flow.elements[e].element_type == "videotestsrc"@ ==> (ours(flow, gateway_id)
            <==> flow.id == derived_id(gateway_id, "test"@)),
        (forall|j: int|
            0 <= j < flow.blocks.len() ==> (#[trigger] flow.blocks[j]).definition
                != "builtin.local_input"@) && (forall|j: int|
            0 <= j < flow.elements.len() ==> (#[trigger] flow.elements[j]).element_type
                != "videotestsrc"@) ==> !ours(flow, gateway_id),
{
    lemma_first_block(flow.blocks, "builtin.local_input"@);
    if 0 <= e < flow.elements.len() && flow.elements[e].element_type == "videotestsrc"@ {
        assert(has_test_source(flow));
    }
}

proof fn lemma_first_block(blocks: Seq<BlockView>, definition: Seq<char>)
    ensures
        match first_block(blocks, definition) {
            Some(b) => exists|k: int|
                0 <= k < blocks.len() && #[trigger] blocks[k] == b && b.definition == definition
                    && forall|j: int|
                    0 <= j < k ==> (#[trigger] blocks[j]).definition != definition,
            None => forall|j: int|
                0 <= j < blocks.len() ==> (#[trigger] blocks[j]).definition != definition,
        },
    decreases blocks.len(),
{
    if blocks.len() > 0 {
        let rest = blocks.drop_first();
        lemma_first_block(rest, definition);
        if blocks[0].definition == definition {
            assert(first_block(blocks, definition) == Some(blocks[0]));
        } else {
            match first_block(rest, definition) {
                Some(b) => {
                    let k = choose|k: int|
                        0 <= k < rest.len() && #[trigger] rest[k] == b && b.definition == definition
                            && forall|j: int|
                            0 <= j < k ==> (#[trigger] rest[j]).definition != definition;
                    assert(blocks[k + 1] == b);
                    assert forall|j: int| 0 <= j < k + 1 implies (#[trigger] blocks[j]).definition
                        != definition by {
                        if j > 0 {
                            assert(rest[j - 1] == blocks[j]);
                        }
                    }
                },
                None => {
                    assert forall|j: int| 0 <= j < blocks.len() implies (
                    #[trigger] blocks[j]).definition != definition by {
                        if j > 0 {
                            assert(rest[j - 1] == blocks[j]);
                        }
                    }
                },
            }
        }
    }
}

/// A UUID is written as groups of eight, four, four, four and twelve hexadecimal digits
/// in lower case, with dashes between them.
pub proof fn law_an_id_is_written_in_five_groups(value: u128, i: int)
    ensures
        uuid_text(value).len() == 36,
        0 <= i < 36 ==> (uuid_text(value)[i] == '-' <==> i == 8 || i == 13 || i == 18 || i == 23),
        0 <= i < 36 && uuid_text(value)[i] != '-' ==> '0' <= uuid_text(value)[i] <= '9' || 'a'
            <= uuid_text(value)[i] <= 'f',
{
    reveal_strlit("-");
    lemma_hex_digits(value as nat / 0x1_0000_0000_0000_0000_0000_0000, 8);
    lemma_hex_digits(value as nat / 0x1_0000_0000_0000_0000_0000, 4);
    lemma_hex_digits(value as nat / 0x1_0000_0000_0000_0000, 4);
    lemma_hex_digits(value as nat / 0x1_0000_0000_0000, 4);
    lemma_hex_digits(value as nat, 12);
}

proof fn lemma_hex_digits(n: nat, digits: nat)
    ensures
        hex(n, digits).len() == digits,
        forall|i: int|
            0 <= i < digits ==> '0' <= #[trigger] hex(n, digits)[i] <= '9' || 'a' <= hex(
                n,
                digits,
            )[i] <= 'f',
    decreases digits,
{
    if digits > 0 {
        lemma_hex_digits(n / 16, (digits - 1) as nat);
    }
}

} // verus!
