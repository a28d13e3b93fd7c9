//! Icons: process icons as data URLs, and the tray icon.

use vstd::hash_map::StringHashMap;
use vstd::prelude::*;

use crate::state::app_state::clone_opt_text;
use crate::text::{concat2, opt_text};

verus! {

// ---------------------------------------------------------------------------
// Base64
// ---------------------------------------------------------------------------

/// The base64 digit of a value below 64.
pub open spec fn base64_digit(v: int) -> char {
    if v < 26 {
        (65 + v) as char
    } else if v < 52 {
        (71 + v) as char
    } else if v < 62 {
        (v - 4) as char
    } else if v == 62 {
        '+'
    } else {
        '/'
    }
}

/// Bytes in base64: four digits for every three bytes, and `=` where the last
/// group is short.
pub open spec fn base64(data: Seq<u8>) -> Seq<char>
    decreases data.len(),
{
    if data.len() == 0 {
        Seq::empty()
    } else if data.len() == 1 {
        seq![
            base64_digit(data[0] as int / 4),
            base64_digit(data[0] as int % 4 * 16),
            '=',
            '=',
        ]
    } else if data.len() == 2 {
        seq![
            base64_digit(data[0] as int / 4),
            base64_digit(data[0] as int % 4 * 16 + data[1] as int / 16),
            base64_digit(data[1] as int % 16 * 4),
            '=',
        ]
    } else {
        seq![
            base64_digit(data[0] as int / 4),
            base64_digit(data[0] as int % 4 * 16 + data[1] as int / 16),
            base64_digit(data[1] as int % 16 * 4 + data[2] as int / 64),
            base64_digit(data[2] as int % 64),
        ] + base64(data.skip(3))
    }
}

fn digit(v: u8) -> (r: char)
    requires
        v < 64,
    ensures
        r == base64_digit(v as int),
{
    if v < 26 {
        (65 + v) as char
    } else if v < 52 {
        (71 + v) as char
    } else if v < 62 {
        (v - 4) as char
    } else if v == 62 {
        '+'
    } else {
        '/'
    }
}

/// Writes bytes in base64.
pub fn base64_encode(data: &Vec<u8>) -> (r: String)
    ensures
        r@ == base64(data@),
{
    let mut r: String = String::new();
    let mut i: usize = 0;
    assert(data@.skip(0) =~= data@);
    assert(r@ + base64(data@) =~= base64(data@));
    while data.len() - i >= 3
        invariant
            i <= data.len(),
            r@ + base64(data@.skip(i as int)) == base64(data@),
        decreases data@.len() - i,
    {
        let ghost done = r@;
        let ghost rest = data@.skip(i as int);
        let b0: u8 = data[i];
        let b1: u8 = data[i + 1];
        let b2: u8 = data[i + 2];
        r.push(digit(b0 / 4));
        r.push(digit(b0 % 4 * 16 + b1 / 16));
        r.push(digit(b1 % 16 * 4 + b2 / 64));
        r.push(digit(b2 % 64));
        proof {
            assert(rest.skip(3) =~= data@.skip(i + 3));
            assert(r@ + base64(data@.skip(i + 3)) =~= done + base64(rest));
        }
        i = i + 3;
    }
    let ghost done = r@;
    let ghost rest = data@.skip(i as int);
    if data.len() - i == 1 {
        let b0: u8 = data[i];
        r.push(digit(b0 / 4));
        r.push(digit(b0 % 4 * 16));
        r.push('=');
        r.push('=');
    } else if data.len() - i == 2 {
        let b0: u8 = data[i];
        let b1: u8 = data[i + 1];
        r.push(digit(b0 / 4));
        r.push(digit(b0 % 4 * 16 + b1 / 16));
        r.push(digit(b1 % 16 * 4));
        r.push('=');
    }
    assert(r@ =~= done + base64(rest));
    r
}

/// The value of a base64 digit.
pub open spec fn base64_value(c: char) -> int {
    if 'A' <= c && c <= 'Z' {
        c as int - 65
    } else if 'a' <= c && c <= 'z' {
        c as int - 71
    } else if '0' <= c && c <= '9' {
        c as int + 4
    } else if c == '+' {
        62
    } else {
        63
    }
}

/// The bytes that a base64 text stands for.
pub open spec fn base64_decoded(text: Seq<char>) -> Seq<u8>
    decreases text.len(),
{
    if text.len() < 4 {
        Seq::empty()
    } else {
        let v0 = base64_value(text[0]);
        let v1 = base64_value(text[1]);
        let v2 = base64_value(text[2]);
        let v3 = base64_value(text[3]);
        let b0 = (v0 * 4 + v1 / 16) as u8;
        let b1 = (v1 % 16 * 16 + v2 / 4) as u8;
        let b2 = (v2 % 4 * 64 + v3) as u8;
        if text[2] == '=' {
            seq![b0]
        } else if text[3] == '=' {
            seq![b0, b1]
        } else {
            seq![b0, b1, b2] + base64_decoded(text.skip(4))
        }
    }
}

proof fn lemma_digit(v: int)
    requires
        0 <= v < 64,
    ensures
        base64_value(base64_digit(v)) == v,
        base64_digit(v) != '=',
{
}

/// Nothing is lost in base64: decoding gives the bytes back.
pub proof fn base64_can_be_decoded(data: Seq<u8>)
    ensures
        base64_decoded(base64(data)) == data,
    decreases data.len(),
{
    let text = base64(data);
    if data.len() > 0 {
        let a = data[0] as int;
        lemma_digit(a / 4);
        if data.len() == 1 {
            lemma_digit(a % 4 * 16);
        } else {
            let b = data[1] as int;
            lemma_digit(a % 4 * 16 + b / 16);
            if data.len() == 2 {
                lemma_digit(b % 16 * 4);
            } else {
                let c = data[2] as int;
                lemma_digit(b % 16 * 4 + c / 64);
                lemma_digit(c % 64);
                base64_can_be_decoded(data.skip(3));
                assert(text.skip(4) =~= base64(data.skip(3)));
            }
        }
        assert(base64_decoded(text) =~= data);
    }
}

/// The digits of base64 are the letters, the figures, plus and slash, in this order;
/// there are four of them for every three bytes that were begun.
pub proof fn base64_has_its_alphabet(v: int, data: Seq<u8>)
    requires
        0 <= v < 64,
    ensures
        base64_digit(v)
            == "ABCDEFGHIJKLMNOPQRSTUVWXYZabcdefghijklmnopqrstuvwxyz0123456789+/"@[v],
        base64(data).len() == (data.len() + 2) / 3 * 4,
    decreases data.len(),
{
    reveal_strlit("ABCDEFGHIJKLMNOPQRSTUVWXYZabcdefghijklmnopqrstuvwxyz0123456789+/");
    if data.len() >= 3 {
        base64_has_its_alphabet(v, data.skip(3));
    }
}

/// The first three bytes are the first four digits: the upper six bits of the first
/// byte, its lower two with the upper four of the second, and so on.
pub proof fn base64_cuts_bytes_into_six_bits(data: Seq<u8>)
    requires
        data.len() >= 3,
    ensures
        ({
            let text = base64(data);
            let v0 = base64_value(text[0]);
            let v1 = base64_value(text[1]);
            let v2 = base64_value(text[2]);
            let v3 = base64_value(text[3]);
            &&& v0 * 0x4_0000 + v1 * 0x1000 + v2 * 0x40 + v3 == data[0] * 0x1_0000 + data[1] * 0x100
                + data[2]
            &&& 0 <= v0 < 64 && 0 <= v1 < 64 && 0 <= v2 < 64 && 0 <= v3 < 64
            &&& text.skip(4) == base64(data.skip(3))
        }),
{
    let a = data[0] as int;
    let b = data[1] as int;
    let c = data[2] as int;
    lemma_digit(a / 4);
    lemma_digit(a % 4 * 16 + b / 16);
    lemma_digit(b % 16 * 4 + c / 64);
    lemma_digit(c % 64);
    assert(base64(data).skip(4) =~= base64(data.skip(3)));
}

// ---------------------------------------------------------------------------
// Pixels
// ---------------------------------------------------------------------------

/// The opacity of a pixel.
pub open spec fn alpha_at(bgra: Seq<u8>, p: int) -> u8 {
    bgra[p * 4 + 3]
}

/// No pixel has any opacity.
pub open spec fn is_transparent(bgra: Seq<u8>) -> bool {
    forall|p: int| 0 <= p < bgra.len() / 4 ==> #[trigger] alpha_at(bgra, p) == 0
}

/// The pixels in the order red, green, blue, alpha. Where no pixel has any
/// opacity the image has none to tell, and all count as opaque. A last pixel
/// that is cut short is dropped.
pub open spec fn rgba_of(bgra: Seq<u8>) -> Seq<u8> {
    Seq::new(
        (bgra.len() / 4 * 4) as nat,
        |i: int|
            if i % 4 == 0 {
                bgra[i + 2]
            } else if i % 4 == 1 {
                bgra[i]
            } else if i % 4 == 2 {
                bgra[i - 2]
            } else if is_transparent(bgra) {
                255
            } else {
                bgra[i]
            },
    )
}

proof fn lemma_pixel(bgra: Seq<u8>, p: int)
    requires
        0 <= p < bgra.len() / 4,
    ensures
        rgba_of(bgra)[p * 4] == bgra[p * 4 + 2],
        rgba_of(bgra)[p * 4 + 1] == bgra[p * 4 + 1],
        rgba_of(bgra)[p * 4 + 2] == bgra[p * 4],
        rgba_of(bgra)[p * 4 + 3] == (if is_transparent(bgra) {
            255
        } else {
            bgra[p * 4 + 3]
        }),
{
}

/// Each pixel keeps its colours, red and blue changing places. Its opacity stays
/// where any pixel has some, and else all are opaque.
pub proof fn pixels_keep_their_colours(bgra: Seq<u8>, p: int)
    requires
        0 <= p < bgra.len() / 4,
    ensures
        rgba_of(bgra).len() == bgra.len() / 4 * 4,
        rgba_of(bgra)[p * 4] == bgra[p * 4 + 2],
        rgba_of(bgra)[p * 4 + 1] == bgra[p * 4 + 1],
        rgba_of(bgra)[p * 4 + 2] == bgra[p * 4],
        (exists|q: int| 0 <= q < bgra.len() / 4 && #[trigger] alpha_at(bgra, q) > 0)
            ==> rgba_of(bgra)[p * 4 + 3] == bgra[p * 4 + 3],
        (forall|q: int| 0 <= q < bgra.len() / 4 ==> #[trigger] alpha_at(bgra, q) == 0)
            ==> rgba_of(bgra)[p * 4 + 3] == 255,
        alpha_at(bgra, p) == bgra[p * 4 + 3],
{
    lemma_pixel(bgra, p);
}

/// Reorders pixels from blue, green, red, alpha to red, green, blue, alpha.
pub fn to_rgba(bgra: &Vec<u8>) -> (r: Vec<u8>)
    ensures
        r@ == rgba_of(bgra@),
{
    let pixels: usize = bgra.len() / 4;
    let mut transparent: bool = true;
    let mut p: usize = 0;
    while p < pixels
        invariant
            p <= pixels,
            pixels == bgra.len() / 4,
            transparent == (forall|q: int| 0 <= q < p ==> #[trigger] alpha_at(bgra@, q) == 0),
        decreases pixels - p,
    {
        assert(alpha_at(bgra@, p as int) == bgra@[p * 4 + 3]);
        if bgra[p * 4 + 3] != 0 {
            transparent = false;
        }
        p = p + 1;
    }
    let mut r: Vec<u8> = Vec::new();
    p = 0;
    while p < pixels
        invariant
            p <= pixels,
            pixels == bgra.len() / 4,
            transparent == is_transparent(bgra@),
            r@ == rgba_of(bgra@).take(p * 4),
        decreases pixels - p,
    {
        let at: usize = p * 4;
        let alpha: u8 = if transparent {
            255
        } else {
            bgra[at + 3]
        };
        r.push(bgra[at + 2]);
        r.push(bgra[at + 1]);
        r.push(bgra[at]);
        r.push(alpha);
        proof {
            lemma_pixel(bgra@, p as int);
            let all = rgba_of(bgra@);
            assert(all.take(at + 4) =~= all.take(at as int).push(all[at as int]).push(
                all[at + 1],
            ).push(all[at + 2]).push(all[at + 3]));
        }
        p = p + 1;
    }
    assert(r@ =~= rgba_of(bgra@));
    r
}

// ---------------------------------------------------------------------------
// Process icons
// ---------------------------------------------------------------------------

/// The bytes of an optional buffer.
pub open spec fn opt_bytes(bytes: Option<Vec<u8>>) -> Option<Seq<u8>> {
    match bytes {
        Some(bytes) => Some(bytes@),
        None => None,
    }
}

/// The PNG file for pixels in the order red, green, blue, alpha, eight bits
/// each.
pub uninterp spec fn png_encoding(width: u32, height: u32, rgba: Seq<u8>) -> Option<Seq<u8>>;

/// `png::Encoder`, with colour type RGBA and eight bits per sample, through
/// `write_header` and `Writer::write_image_data`. Claims that the file depends on
/// the size and the pixels alone, and that there is one just where neither side
/// is zero and there are four bytes for each pixel.
#[verifier::external_body]
fn encode_png(width: u32, height: u32, rgba: &Vec<u8>) -> (r: Option<Vec<u8>>)
    requires
        width * height <= 0x100_0000,
    ensures
        opt_bytes(r) == png_encoding(width, height, rgba@),
        r is Some <==> (width > 0 && height > 0 && rgba@.len() == width * height * 4),
{
    let mut png_bytes: Vec<u8> = Vec::new();
    let mut encoder = png::Encoder::new(std::io::Cursor::new(&mut png_bytes), width, height);
    encoder.set_color(png::ColorType::Rgba);
    encoder.set_depth(png::BitDepth::Eight);
    let mut writer = encoder.write_header().ok()?;
    writer.write_image_data(rgba).ok()?;
    drop(writer);
    Some(png_bytes)
}

/// A PNG file as a data URL.
pub open spec fn data_url(png_bytes: Seq<u8>) -> Seq<char> {
    "data:image/png;base64,"@ + base64(png_bytes)
}

/// Writes a PNG file as a data URL.
pub fn png_data_url(png_bytes: &Vec<u8>) -> (r: String)
    ensures
        r@ == data_url(png_bytes@),
{
    concat2("data:image/png;base64,", base64_encode(png_bytes).as_str())
}

/// Sides of a process icon, in pixels.
pub const ICON_SIZE: u32 = 16;

/// The data URL of a process icon.
pub open spec fn icon_url(bgra: Seq<u8>) -> Option<Seq<char>> {
    match png_encoding(ICON_SIZE, ICON_SIZE, rgba_of(bgra)) {
        Some(bytes) => Some(data_url(bytes)),
        None => None,
    }
}

/// An icon is the PNG file of 16 by 16 pixels, and the data URL holds just the bytes
/// of that file.
pub proof fn an_icon_holds_its_pixels(bgra: Seq<u8>)
    ensures
        icon_url(bgra) is Some <==> png_encoding(16, 16, rgba_of(bgra)) is Some,
        icon_url(bgra) matches Some(url) ==> {
            let head = "data:image/png;base64,"@;
            &&& url.take(head.len() as int) == head
            &&& Some(base64_decoded(url.skip(head.len() as int))) == png_encoding(
                16,
                16,
                rgba_of(bgra),
            )
        },
{
    if let Some(bytes) = png_encoding(16, 16, rgba_of(bgra)) {
        let head = "data:image/png;base64,"@;
        base64_can_be_decoded(bytes);
        assert(data_url(bytes).take(head.len() as int) =~= head);
        assert(data_url(bytes).skip(head.len() as int) =~= base64(bytes));
    }
}

/// The data URL of an icon that was drawn as 16 by 16 pixels in the order blue,
/// green, red, alpha.
pub fn icon_data_url(bgra: &Vec<u8>) -> (r: Option<String>)
    ensures
        opt_text(r) == icon_url(bgra@),
        r is Some <==> bgra@.len() / 4 == 256,
{
    let rgba: Vec<u8> = to_rgba(bgra);
    match encode_png(ICON_SIZE, ICON_SIZE, &rgba) {
        Some(bytes) => Some(png_data_url(&bytes)),
        None => None,
    }
}

// ---------------------------------------------------------------------------
// Extracting an icon
// ---------------------------------------------------------------------------

/// How far the extraction of an icon has come.
#[derive(Debug, Clone, Copy, PartialEq, Eq, Structural)]
pub enum IconPhase {
    Start,
    FindingIcon,
    CreatingCanvas,
    CreatingBitmap,
    Drawing,
    DeletingBitmap,
    DeletingCanvas,
    DestroyingIcon,
    Returned,
}

/// What to do next.
#[derive(Debug, Clone, Copy, PartialEq, Eq, Structural)]
pub enum IconAction {
    /// Ask the shell for the small icon of the executable.
    FindIcon,
    /// Create a canvas that can be drawn on.
    CreateCanvas,
    /// Create a bitmap of 16 by 16 pixels for it.
    CreateBitmap,
    /// Draw the icon on the bitmap and read its pixels.
    Draw,
    DeleteBitmap,
    DeleteCanvas,
    DestroyIcon,
    /// Done.
    Return,
}

/// What came of the last action.
#[derive(Debug)]
pub enum IconReply {
    /// It was carried out, or nothing was done yet.
    Done,
    /// It failed, and there is nothing to clean up of it.
    Failed,
    /// There is a bitmap, but its pixels cannot be reached.
    NoPixels,
    /// The pixels, in the order blue, green, red, alpha.
    Pixels(Vec<u8>),
}

/// The extraction of an icon that is under way.
#[derive(Debug)]
pub struct IconExtraction {
    pub phase: IconPhase,
    /// What it has come to so far.
    pub url: Option<String>,
}

/// What the machine makes of a reply: the next phase and the next action.
pub open spec fn icon_step(phase: IconPhase, reply: IconReply) -> (IconPhase, IconAction) {
    match phase {
        IconPhase::Start => (IconPhase::FindingIcon, IconAction::FindIcon),
        IconPhase::FindingIcon => if reply is Done {
            (IconPhase::CreatingCanvas, IconAction::CreateCanvas)
        } else {
            (IconPhase::Returned, IconAction::Return)
        },
        IconPhase::CreatingCanvas => if reply is Done {
            (IconPhase::CreatingBitmap, IconAction::CreateBitmap)
        } else {
            (IconPhase::DestroyingIcon, IconAction::DestroyIcon)
        },
        IconPhase::CreatingBitmap => if reply is Done {
            (IconPhase::Drawing, IconAction::Draw)
        } else if reply is NoPixels {
            (IconPhase::DeletingBitmap, IconAction::DeleteBitmap)
        } else {
            (IconPhase::DeletingCanvas, IconAction::DeleteCanvas)
        },
        IconPhase::Drawing => (IconPhase::DeletingBitmap, IconAction::DeleteBitmap),
        IconPhase::DeletingBitmap => (IconPhase::DeletingCanvas, IconAction::DeleteCanvas),
        IconPhase::DeletingCanvas => (IconPhase::DestroyingIcon, IconAction::DestroyIcon),
        IconPhase::DestroyingIcon => (IconPhase::Returned, IconAction::Return),
        IconPhase::Returned => (IconPhase::Returned, IconAction::Return),
    }
}

/// What the extraction has come to behind a step: the data URL once the pixels
/// were read.
pub open spec fn icon_effect(
    url: Option<Seq<char>>,
    phase: IconPhase,
    reply: IconReply,
) -> Option<Seq<char>> {
    match (phase, reply) {
        (IconPhase::Drawing, IconReply::Pixels(bgra)) => icon_url(bgra@),
        (_, _) => url,
    }
}

impl IconExtraction {
    /// An extraction that is yet to start.
    pub fn new() -> (r: Self)
        ensures
            r.phase == IconPhase::Start,
            r.url is None,
    {
        IconExtraction { phase: IconPhase::Start, url: None }
    }
}

/// One step of extracting the icon of an executable: takes what came of the last
/// action and says what to do next. The data URL stands in the extraction at the
/// end.
pub fn extract_icon(extraction: &mut IconExtraction, reply: IconReply) -> (r: IconAction)
    ensures
        (final(extraction).phase, r) == icon_step(old(extraction).phase, reply),
        opt_text(final(extraction).url) == icon_effect(
            opt_text(old(extraction).url),
            old(extraction).phase,
            reply,
        ),
{
    let done: bool = match &reply {
        IconReply::Done => true,
        _ => false,
    };
    match extraction.phase {
        IconPhase::Start => {
            extraction.phase = IconPhase::FindingIcon;
            IconAction::FindIcon
        },
        IconPhase::FindingIcon => {
            if done {
                extraction.phase = IconPhase::CreatingCanvas;
                IconAction::CreateCanvas
            } else {
                extraction.phase = IconPhase::Returned;
                IconAction::Return
            }
        },
        IconPhase::CreatingCanvas => {
            if done {
                extraction.phase = IconPhase::CreatingBitmap;
                IconAction::CreateBitmap
            } else {
                extraction.phase = IconPhase::DestroyingIcon;
                IconAction::DestroyIcon
            }
        },
        IconPhase::CreatingBitmap => match &reply {
            IconReply::Done => {
                extraction.phase = IconPhase::Drawing;
                IconAction::Draw
            },
            IconReply::NoPixels => {
                extraction.phase = IconPhase::DeletingBitmap;
                IconAction::DeleteBitmap
            },
            _ => {
                extraction.phase = IconPhase::DeletingCanvas;
                IconAction::DeleteCanvas
            },
        },
        IconPhase::Drawing => {
            if let IconReply::Pixels(bgra) = &reply {
                extraction.url = icon_data_url(bgra);
            }
            extraction.phase = IconPhase::DeletingBitmap;
            IconAction::DeleteBitmap
        },
        IconPhase::DeletingBitmap => {
            extraction.phase = IconPhase::DeletingCanvas;
            IconAction::DeleteCanvas
        },
        IconPhase::DeletingCanvas => {
            extraction.phase = IconPhase::DestroyingIcon;
            IconAction::DestroyIcon
        },
        _ => {
            extraction.phase = IconPhase::Returned;
            IconAction::Return
        },
    }
}

/// How the operating system answers one extraction.
pub struct IconAnswers {
    pub found: bool,
    pub canvas: bool,
    pub bitmap: bool,
    pub reachable: bool,
    pub pixels: Vec<u8>,
}

/// The reply to the action that led into `phase`.
pub open spec fn icon_answer(phase: IconPhase, answers: IconAnswers) -> IconReply {
    match phase {
        IconPhase::FindingIcon => if answers.found {
            IconReply::Done
        } else {
            IconReply::Failed
        },
        IconPhase::CreatingCanvas => if answers.canvas {
            IconReply::Done
        } else {
            IconReply::Failed
        },
        IconPhase::CreatingBitmap => if !answers.bitmap {
            IconReply::Failed
        } else if answers.reachable {
            IconReply::Done
        } else {
            IconReply::NoPixels
        },
        IconPhase::Drawing => IconReply::Pixels(answers.pixels),
        _ => IconReply::Done,
    }
}

/// How many actions are left at most.
pub open spec fn icon_steps_left(phase: IconPhase) -> nat {
    match phase {
        IconPhase::Start => 8,
        IconPhase::FindingIcon => 7,
        IconPhase::CreatingCanvas => 6,
        IconPhase::CreatingBitmap => 5,
        IconPhase::Drawing => 4,
        IconPhase::DeletingBitmap => 3,
        IconPhase::DeletingCanvas => 2,
        IconPhase::DestroyingIcon => 1,
        IconPhase::Returned => 0,
    }
}

/// All actions of an extraction from `phase` on, and what it comes to.
pub open spec fn icon_run(phase: IconPhase, url: Option<Seq<char>>, answers: IconAnswers) -> (
    Option<Seq<char>>,
    Seq<IconAction>,
)
    decreases icon_steps_left(phase),
{
    if phase is Returned {
        (url, Seq::empty())
    } else {
        let reply = icon_answer(phase, answers);
        let (next, action) = icon_step(phase, reply);
        let (end, rest) = icon_run(next, icon_effect(url, phase, reply), answers);
        (end, seq![action] + rest)
    }
}

/// However the operating system answers, an extraction ends; whatever was
/// created or found is given up again; and it comes to the icon just where
/// nothing failed.
pub proof fn an_extraction_ends_and_cleans_up(answers: IconAnswers)
    ensures
        ({
            let (end, run) = icon_run(IconPhase::Start, None, answers);
            let canvas = answers.found && answers.canvas;
            let bitmap = canvas && answers.bitmap;
            &&& run.last() == IconAction::Return
            &&& run.contains(IconAction::DestroyIcon) <==> answers.found
            &&& run.contains(IconAction::DeleteCanvas) <==> canvas
            &&& run.contains(IconAction::DeleteBitmap) <==> bitmap
            &&& end == (if bitmap && answers.reachable {
                icon_url(answers.pixels@)
            } else {
                None
            })
        }),
{
    reveal_with_fuel(icon_run, 9);
    let (end, run) = icon_run(IconPhase::Start, None, answers);
    assert(run[0] == IconAction::FindIcon);
    if !answers.found {
        assert(run.len() == 2);
    } else {
        assert(run[1] == IconAction::CreateCanvas);
        if !answers.canvas {
            assert(run[2] == IconAction::DestroyIcon);
            assert(run.len() == 4);
        } else {
            assert(run[2] == IconAction::CreateBitmap);
            if !answers.bitmap {
                assert(run[3] == IconAction::DeleteCanvas);
                assert(run[4] == IconAction::DestroyIcon);
                assert(run.len() == 6);
            } else if !answers.reachable {
                assert(run[3] == IconAction::DeleteBitmap);
                assert(run[4] == IconAction::DeleteCanvas);
                assert(run[5] == IconAction::DestroyIcon);
                assert(run.len() == 7);
            } else {
                assert(run[3] == IconAction::Draw);
                assert(run[4] == IconAction::DeleteBitmap);
                assert(run[5] == IconAction::DeleteCanvas);
                assert(run[6] == IconAction::DestroyIcon);
                assert(run.len() == 8);
            }
        }
    }
}

/// An extraction draws the icon once there is an icon, a canvas and a bitmap, and
/// gives them up in the opposite order.
pub proof fn an_extraction_takes_its_steps(answers: IconAnswers)
    ensures
        ({
            let run = icon_run(IconPhase::Start, None, answers).1;
            &&& !answers.found ==> run == seq![
                IconAction::FindIcon,
                IconAction::Return,
            ]
            &&& answers.found && !answers.canvas ==> run == seq![
                IconAction::FindIcon,
                IconAction::CreateCanvas,
                IconAction::DestroyIcon,
                IconAction::Return,
            ]
            &&& answers.found && answers.canvas && !answers.bitmap ==> run == seq![
                IconAction::FindIcon,
                IconAction::CreateCanvas,
                IconAction::CreateBitmap,
                IconAction::DeleteCanvas,
                IconAction::DestroyIcon,
                IconAction::Return,
            ]
            &&& answers.found && answers.canvas && answers.bitmap && !answers.reachable ==> run == seq![
                IconAction::FindIcon,
                IconAction::CreateCanvas,
                IconAction::CreateBitmap,
                IconAction::DeleteBitmap,
                IconAction::DeleteCanvas,
                IconAction::DestroyIcon,
                IconAction::Return,
            ]
            &&& answers.found && answers.canvas && answers.bitmap && answers.reachable ==> run == seq![
                IconAction::FindIcon,
                IconAction::CreateCanvas,
                IconAction::CreateBitmap,
                IconAction::Draw,
                IconAction::DeleteBitmap,
                IconAction::DeleteCanvas,
                IconAction::DestroyIcon,
                IconAction::Return,
            ]
        }),
{
    reveal_with_fuel(icon_run, 9);
    let run = icon_run(IconPhase::Start, None, answers).1;
    if !answers.found {
        assert(run =~= seq![
            IconAction::FindIcon,
            IconAction::Return,
        ]);
    }
    if answers.found && !answers.canvas {
        assert(run =~= seq![
            IconAction::FindIcon,
            IconAction::CreateCanvas,
            IconAction::DestroyIcon,
            IconAction::Return,
        ]);
    }
    if answers.found && answers.canvas && !answers.bitmap {
        assert(run =~= seq![
            IconAction::FindIcon,
            IconAction::CreateCanvas,
            IconAction::CreateBitmap,
            IconAction::DeleteCanvas,
            IconAction::DestroyIcon,
            IconAction::Return,
        ]);
    }
    if answers.found && answers.canvas && answers.bitmap && !answers.reachable {
        assert(run =~= seq![
            IconAction::FindIcon,
            IconAction::CreateCanvas,
            IconAction::CreateBitmap,
            IconAction::DeleteBitmap,
            IconAction::DeleteCanvas,
            IconAction::DestroyIcon,
            IconAction::Return,
        ]);
    }
    if answers.found && answers.canvas && answers.bitmap && answers.reachable {
        assert(run =~= seq![
            IconAction::FindIcon,
            IconAction::CreateCanvas,
            IconAction::CreateBitmap,
            IconAction::Draw,
            IconAction::DeleteBitmap,
            IconAction::DeleteCanvas,
            IconAction::DestroyIcon,
            IconAction::Return,
        ]);
    }
}

// ---------------------------------------------------------------------------
// Remembering icons
// ---------------------------------------------------------------------------

/// Icons by process name. That a process has none is remembered too.
pub struct IconCache {
    entries: StringHashMap<Option<String>>,
}

/// Where the icon of a process comes from.
#[derive(Debug)]
pub enum IconSource {
    /// It was looked for before; this is what was found.
    Known(Option<String>),
    /// Extract it from the executable, and remember what was found.
    Extract,
    /// There is none; remember that.
    Absent,
}

impl View for IconCache {
    type V = Map<Seq<char>, Option<String>>;

    closed spec fn view(&self) -> Map<Seq<char>, Option<String>> {
        self.entries@
    }
}

impl IconCache {
    /// An empty cache.
    pub fn new() -> (r: Self)
        ensures
            r@ == Map::<Seq<char>, Option<String>>::empty(),
    {
        IconCache { entries: StringHashMap::new() }
    }

    /// Says where the icon of a process comes from: it is known, or it is to be
    /// extracted from the executable, or there is none to be had.
    pub fn get_cached_icon(&self, name: &str, win32_path: &Option<String>) -> (r: IconSource)
        ensures
            r == (if self@.contains_key(name@) {
                IconSource::Known(self@[name@])
            } else if win32_path is Some {
                IconSource::Extract
            } else {
                IconSource::Absent
            }),
    {
        match self.entries.get(name) {
            Some(url) => IconSource::Known(clone_opt_text(url)),
            None => if win32_path.is_some() {
                IconSource::Extract
            } else {
                IconSource::Absent
            },
        }
    }

    /// Remembers the icon of a process, and hands it back.
    pub fn remember(&mut self, name: &str, url: Option<String>) -> (r: Option<String>)
        ensures
            final(self)@ == old(self)@.insert(name@, url),
            r == url,
    {
        let kept: Option<String> = clone_opt_text(&url);
        self.entries.insert(name.to_owned(), kept);
        url
    }
}

// ---------------------------------------------------------------------------
// The tray icon
// ---------------------------------------------------------------------------

/// A decoded image.
#[derive(Debug)]
pub struct DecodedImage {
    pub pixels: Vec<u8>,
    pub width: u32,
    pub height: u32,
}

/// Where decoding an image failed, and why.
#[derive(Debug)]
pub enum DecodeFailure {
    /// In the information ahead of the pixels.
    Info(String),
    /// In the pixels.
    Frame(String),
}

/// A decoded image, or why there is none, as plain mathematical values. The
/// failure tells whether it lay in the information ahead of the pixels.
pub open spec fn decoding_view(r: Result<DecodedImage, DecodeFailure>) -> Result<
    (Seq<u8>, u32, u32),
    (bool, Seq<char>),
> {
    match r {
        Ok(image) => Ok((image.pixels@, image.width, image.height)),
        Err(DecodeFailure::Info(e)) => Err((true, e@)),
        Err(DecodeFailure::Frame(e)) => Err((false, e@)),
    }
}

/// What a PNG file decodes to.
pub uninterp spec fn png_decoding(bytes: Seq<u8>) -> Result<(Seq<u8>, u32, u32), (bool, Seq<char>)>;

/// Four bytes as a number, the highest first.
pub open spec fn number_at(bytes: Seq<u8>, at: int) -> int {
    bytes[at] * 0x100_0000 + bytes[at + 1] * 0x1_0000 + bytes[at + 2] * 0x100 + bytes[at + 3]
}

/// The header of a PNG file, where it has one, claims no more pixels than can be
/// held in memory.
pub open spec fn claims_few_pixels(bytes: Seq<u8>) -> bool {
    bytes.len() >= 24 ==> number_at(bytes, 16) * number_at(bytes, 20) <= 0x100_0000
}

/// `png::Decoder` through `read_info`, `Reader::output_buffer_size` and
/// `Reader::next_frame`. Claims that the first frame, or the text of the error and
/// which of the two calls it came from, depends on the bytes alone. Nothing is
/// said of what the pixels are.
#[verifier::external_body]
fn decode_png(bytes: &Vec<u8>) -> (r: Result<DecodedImage, DecodeFailure>)
    requires
        claims_few_pixels(bytes@),
    ensures
        decoding_view(r) == png_decoding(bytes@),
{
    let decoder = png::Decoder::new(std::io::Cursor::new(bytes.as_slice()));
    let mut reader = match decoder.read_info() {
        Ok(reader) => reader,
        Err(e) => return Err(DecodeFailure::Info(e.to_string())),
    };
    let mut pixels = vec![0u8; reader.output_buffer_size()];
    match reader.next_frame(&mut pixels) {
        Ok(info) => {
            pixels.truncate(info.buffer_size());
            Ok(DecodedImage { pixels, width: info.width, height: info.height })
        }
        Err(e) => Err(DecodeFailure::Frame(e.to_string())),
    }
}

/// Tells why the tray icon could not be decoded.
pub fn tray_icon_error(failure: &DecodeFailure) -> (r: String)
    ensures
        r@ == (match *failure {
            DecodeFailure::Info(e) => "tray icon decode (read_info): "@ + e@,
            DecodeFailure::Frame(e) => "tray icon decode (next_frame): "@ + e@,
        }),
{
    match failure {
        DecodeFailure::Info(e) => concat2("tray icon decode (read_info): ", e.as_str()),
        DecodeFailure::Frame(e) => concat2("tray icon decode (next_frame): ", e.as_str()),
    }
}

/// Decodes the tray icon.
pub fn tray_icon(bytes: &Vec<u8>) -> (r: Result<DecodedImage, String>)
    requires
        claims_few_pixels(bytes@),
    ensures
        match png_decoding(bytes@) {
            Ok(image) => r is Ok && r->Ok_0.pixels@ == image.0 && r->Ok_0.width == image.1
                && r->Ok_0.height == image.2,
            Err(failure) => r is Err && r->Err_0@ == (if failure.0 {
                "tray icon decode (read_info): "@
            } else {
                "tray icon decode (next_frame): "@
            }) + failure.1,
        },
{
    match decode_png(bytes) {
        Ok(image) => Ok(image),
        Err(failure) => Err(tray_icon_error(&failure)),
    }
}

} // verus!
