//! The preview of a file: what is read of it, when, and what is shown.

use crate::highlight::{colored_view, highlight_source, source_lines, HighlightedLine, Highlighter};
use crate::path::{extension, extension_of, parent, parent_of, path_eq, same_path};
use crate::terminal::Color;
use crate::text::{
    ascii_lower, chars_of, copy_opt, lemma_next_at, lines, lines_from, next_at, opt_text, same_text,
    split_lines, string_of, texts, to_ascii_lower,
};
use image::ImageDecoder;
use vstd::prelude::*;
use vstd::string::*;
use vstd::utf8::*;

verus! {

/// How much of the end of a file is read.
pub const TAIL_BYTES: u64 = 64 * 1024;

/// How much of a file is searched for a zero byte.
pub const BINARY_SCAN_BYTES: usize = 8 * 1024;

/// Two reads are at least this many nanoseconds apart.
pub const READ_DEBOUNCE: u64 = 100_000_000;

/// Image files larger than this are not decoded.
pub const IMAGE_MAX_BYTES: u64 = 32 * 1024 * 1024;

/// How much of a difference is shown.
pub const DIFF_MAX_BYTES: usize = 512 * 1024;

/// How many lines of a difference are shown.
pub const DIFF_MAX_LINES: usize = 5000;

// ---------------------------------------------------------------------------
// Contents
// ---------------------------------------------------------------------------

/// The text of a file. `truncated` says that its start is missing.
#[derive(Debug)]
pub struct TextContent {
    pub lines: Vec<String>,
    pub highlighted: Option<Vec<HighlightedLine>>,
    pub truncated: bool,
}

/// What is shown of a file.
#[derive(Debug)]
pub enum PreviewContent {
    Text(TextContent),
    Diff(Vec<String>),
    /// Three bytes for each pixel, from the top left.
    Image { rgb: Vec<u8>, w: u32, h: u32 },
    Binary,
    Deleted,
    Empty,
}

/// The contents of what is shown of a file.
pub ghost enum Content {
    Text {
        lines: Seq<Seq<char>>,
        highlighted: Option<Seq<Seq<(Color, Seq<char>)>>>,
        truncated: bool,
    },
    Diff(Seq<Seq<char>>),
    Image { rgb: Seq<u8>, w: u32, h: u32 },
    Binary,
    Deleted,
    Empty,
}

impl View for PreviewContent {
    type V = Content;

    open spec fn view(&self) -> Content {
        match *self {
            PreviewContent::Text(t) => Content::Text {
                lines: texts(t.lines@),
                highlighted: colored_view(t.highlighted),
                truncated: t.truncated,
            },
            PreviewContent::Diff(d) => Content::Diff(texts(d@)),
            PreviewContent::Image { rgb, w, h } => Content::Image { rgb: rgb@, w, h },
            PreviewContent::Binary => Content::Binary,
            PreviewContent::Deleted => Content::Deleted,
            PreviewContent::Empty => Content::Empty,
        }
    }
}

/// Text without colours.
pub open spec fn plain_text(lines: Seq<Seq<char>>) -> Content {
    Content::Text { lines, highlighted: None, truncated: false }
}

/// The endings of image files.
pub open spec fn names_image(path: Seq<char>) -> bool {
    match extension(path) {
        None => false,
        Some(e) => {
            let x = ascii_lower(e);
            x == "png"@ || x == "jpg"@ || x == "jpeg"@ || x == "gif"@ || x == "webp"@ || x == "bmp"@
        },
    }
}

/// Whether a path is that of an image, by its ending.
pub fn is_image_path(path: &str) -> (r: bool)
    ensures
        r == names_image(path@),
{
    match extension_of(path) {
        None => false,
        Some(e) => {
            let low = to_ascii_lower(e.as_str());
            let x = low.as_str();
            same_text(x, "png") || same_text(x, "jpg") || same_text(x, "jpeg") || same_text(x, "gif")
                || same_text(x, "webp") || same_text(x, "bmp")
        },
    }
}

// ---------------------------------------------------------------------------
// Text
// ---------------------------------------------------------------------------

/// The text that `String::from_utf8_lossy` makes of bytes.
pub uninterp spec fn lossy_text(bytes: Seq<u8>) -> Seq<char>;

/// Calls `String::from_utf8_lossy`: bytes that are valid UTF-8 give the text
/// they encode, and in others each sequence that is not valid is replaced by a
/// character and the rest is kept. So only no bytes give no text, and a line
/// feed at the end, which is valid wherever it stands, stays there.
#[verifier::external_body]
fn from_utf8_lossy(bytes: &[u8]) -> (r: String)
    ensures
        r@ == lossy_text(bytes@),
        valid_utf8(bytes@) ==> r@ == decode_utf8(bytes@),
        r@.len() == 0 <==> bytes@.len() == 0,
        bytes@.len() > 0 && bytes@.last() == 0x0Au8 ==> r@.len() > 0 && r@.last() == '\n',
{
    String::from_utf8_lossy(bytes).into_owned()
}

/// A text with four spaces for every tab.
pub open spec fn untabbed(s: Seq<char>) -> Seq<char>
    decreases s.len(),
{
    if s.len() == 0 {
        Seq::empty()
    } else if s.last() == '\t' {
        untabbed(s.drop_last()) + seq![' ', ' ', ' ', ' ']
    } else {
        untabbed(s.drop_last()).push(s.last())
    }
}

fn expand_tabs(s: &str) -> (r: String)
    ensures
        r@ == untabbed(s@),
{
    let cs = chars_of(s);
    let mut out: Vec<char> = Vec::new();
    let mut i: usize = 0;
    assert(cs@.subrange(0, 0) =~= Seq::empty());
    while i < cs.len()
        invariant
            i <= cs.len(),
            cs@ == s@,
            out@ == untabbed(cs@.subrange(0, i as int)),
        decreases cs.len() - i,
    {
        proof {
            assert(cs@.subrange(0, i + 1).drop_last() =~= cs@.subrange(0, i as int));
            assert(cs@.subrange(0, i + 1).last() == cs@[i as int]);
        }
        if cs[i] == '\t' {
            let ghost before = out@;
            out.push(' ');
            out.push(' ');
            out.push(' ');
            out.push(' ');
            assert(out@ =~= before + seq![' ', ' ', ' ', ' ']);
        } else {
            out.push(cs[i]);
        }
        i += 1;
    }
    assert(cs@.subrange(0, i as int) =~= cs@);
    string_of(&out)
}

/// The lines of a text, with an empty one behind a line feed at its end.
pub open spec fn all_lines(text: Seq<char>) -> Seq<Seq<char>> {
    if text.len() > 0 && text.last() == '\n' {
        lines(text).push(Seq::empty())
    } else {
        lines(text)
    }
}

/// The last `max` elements, or all if there are fewer.
pub open spec fn last_of<T>(s: Seq<T>, max: nat) -> Seq<T> {
    if s.len() > max {
        s.subrange(s.len() - max, s.len() as int)
    } else {
        s
    }
}

/// The last `max` lines of a text, without tabs.
pub open spec fn tail_of_text(text: Seq<char>, max: nat) -> Seq<Seq<char>> {
    last_of(all_lines(untabbed(text)), max)
}

/// The last `max` lines of bytes read as text.
pub open spec fn tail_of(bytes: Seq<u8>, max: nat) -> Seq<Seq<char>> {
    if bytes.len() == 0 || max == 0 {
        Seq::empty()
    } else {
        tail_of_text(lossy_text(bytes), max)
    }
}

/// Fewer lines of the end are the last of more of them.
pub proof fn law_tail_of_tail(bytes: Seq<u8>, more: nat, max: nat)
    requires
        max <= more,
    ensures
        tail_of(bytes, max) == last_of(tail_of(bytes, more), max),
{
    assert(tail_of(bytes, max) =~= last_of(tail_of(bytes, more), max));
}

/// Whether a text is one line without tabs.
pub open spec fn is_plain_line(s: Seq<char>) -> bool {
    forall|j: int| 0 <= j < s.len() ==> #[trigger] s[j] != '\n' && s[j] != '\t'
}

proof fn lemma_untabbed(s: Seq<char>)
    ensures
        forall|j: int| 0 <= j < untabbed(s).len() ==> #[trigger] untabbed(s)[j] != '\t',
        s.len() <= untabbed(s).len(),
        s.len() > 0 && s.last() == '\n' ==> untabbed(s).last() == '\n',
    decreases s.len(),
{
    if s.len() > 0 {
        lemma_untabbed(s.drop_last());
        let before = untabbed(s.drop_last());
        assert forall|j: int| 0 <= j < untabbed(s).len() implies #[trigger] untabbed(s)[j]
            != '\t' by {
            if j < before.len() {
                assert(untabbed(s)[j] == before[j]);
            }
        }
    }
}

proof fn lemma_plain_lines(s: Seq<char>, from: int)
    requires
        0 <= from,
        forall|j: int| 0 <= j < s.len() ==> #[trigger] s[j] != '\t',
    ensures
        forall|i: int| 0 <= i < lines_from(s, from).len() ==> is_plain_line(
            #[trigger] lines_from(s, from)[i],
        ),
        from < s.len() ==> lines_from(s, from).len() > 0,
    decreases s.len() - from,
{
    if from < s.len() {
        lemma_next_at(s, '\n', from);
        let k = next_at(s, '\n', from);
        if k < s.len() {
            lemma_plain_lines(s, k + 1);
        }
        assert forall|i: int| 0 <= i < lines_from(s, from).len() implies is_plain_line(
            #[trigger] lines_from(s, from)[i],
        ) by {
            let line = lines_from(s, from)[i];
            if i == 0 {
                assert forall|j: int| 0 <= j < line.len() implies #[trigger] line[j] != '\n'
                    && line[j] != '\t' by {
                    assert(line[j] == s[from + j]);
                }
            } else {
                assert(line == lines_from(s, k + 1)[i - 1]);
            }
        }
    }
}

proof fn lemma_tail_of_text(text: Seq<char>, max: nat)
    requires
        max > 0,
    ensures
        forall|i: int| 0 <= i < tail_of_text(text, max).len() ==> is_plain_line(
            #[trigger] tail_of_text(text, max)[i],
        ),
        text.len() > 0 ==> tail_of_text(text, max).len() > 0,
        text.len() > 0 && text.last() == '\n' ==> tail_of_text(text, max).last().len() == 0,
{
    let s = untabbed(text);
    let all = all_lines(s);
    lemma_untabbed(text);
    lemma_plain_lines(s, 0);
    assert forall|i: int| 0 <= i < all.len() implies is_plain_line(#[trigger] all[i]) by {
        if i < lines(s).len() {
            assert(all[i] == lines_from(s, 0)[i]);
        }
    }
}

/// The lines of a text, with an empty one behind a line feed at its end.
fn split_all_lines(text: &str) -> (r: Vec<String>)
    ensures
        texts(r@) == all_lines(text@),
{
    let mut out = split_lines(text);
    let cs = chars_of(text);
    if cs.len() > 0 && cs[cs.len() - 1] == '\n' {
        let ghost before = out@;
        let e = String::new();
        assert(e@ =~= Seq::empty());
        out.push(e);
        assert(texts(out@) =~= texts(before).push(e@));
    }
    out
}

/// The last `max` lines of bytes read as text, with four spaces for a tab. An
/// empty line stands behind a line feed at the end.
pub fn tail_lines(bytes: &[u8], max: usize) -> (r: Vec<String>)
    ensures
        texts(r@) == tail_of(bytes@, max as nat),
        bytes@.len() > 0 && max > 0 && valid_utf8(bytes@) ==> texts(r@) == tail_of_text(
            decode_utf8(bytes@),
            max as nat,
        ),
        r.len() <= max,
        r.len() == 0 <==> bytes@.len() == 0 || max == 0,
        forall|i: int| 0 <= i < r.len() ==> is_plain_line((#[trigger] texts(r@)[i])),
        max > 0 && bytes@.len() > 0 && bytes@.last() == 0x0Au8 ==> texts(r@).last().len() == 0,
{
    if bytes.len() == 0 || max == 0 {
        let e: Vec<String> = Vec::new();
        assert(texts(e@) =~= Seq::empty());
        return e;
    }
    let raw = from_utf8_lossy(bytes);
    proof {
        lemma_tail_of_text(raw@, max as nat);
    }
    let text = expand_tabs(raw.as_str());
    let mut all = split_all_lines(text.as_str());
    let ghost av = texts(all@);
    if all.len() > max {
        let n = all.len();
        let rest = all.split_off(n - max);
        assert(texts(rest@) =~= last_of(av, max as nat));
        rest
    } else {
        all
    }
}

/// Whether a zero byte stands near the start.
pub open spec fn has_nul(bytes: Seq<u8>) -> bool {
    exists|i: int| 0 <= i < bytes.len() && i < BINARY_SCAN_BYTES && #[trigger] bytes[i] == 0
}

/// Whether bytes are not text: a zero byte stands near the start.
pub fn looks_binary(bytes: &[u8]) -> (r: bool)
    ensures
        r == has_nul(bytes@),
{
    let mut i: usize = 0;
    while i < bytes.len() && i < BINARY_SCAN_BYTES
        invariant
            i <= bytes.len(),
            i <= BINARY_SCAN_BYTES,
            forall|k: int| 0 <= k < i ==> bytes@[k] != 0,
        decreases bytes.len() - i,
    {
        if bytes[i] == 0 {
            assert(bytes@[i as int] == 0);
            return true;
        }
        i += 1;
    }
    false
}

/// Where reading a file of a length begins, so that only its end is read.
pub fn tail_offset(len: u64) -> (r: u64)
    ensures
        r == if len > TAIL_BYTES {
            len - TAIL_BYTES
        } else {
            0
        },
        len - r <= TAIL_BYTES,
{
    if len > TAIL_BYTES {
        len - TAIL_BYTES
    } else {
        0
    }
}

/// What is shown of a file of length `len` of which `bytes` were read.
pub open spec fn tail_content(bytes: Option<Seq<u8>>, len: u64, path: Seq<char>) -> Content {
    match bytes {
        None => Content::Deleted,
        Some(b) => if has_nul(b) {
            Content::Binary
        } else {
            Content::Text {
                lines: tail_of(b, usize::MAX as nat),
                highlighted: source_lines(untabbed(lossy_text(b)), path),
                truncated: len > TAIL_BYTES,
            }
        },
    }
}

/// The contents of bytes, where there are any.
pub open spec fn opt_bytes(o: Option<Vec<u8>>) -> Option<Seq<u8>> {
    match o {
        Some(v) => Some(v@),
        None => None,
    }
}

/// Makes the preview of a file of length `len` from what was read of its end;
/// `None` where it could not be read.
pub fn read_tail(bytes: Option<Vec<u8>>, len: u64, path: &str, h: &Highlighter) -> (r: PreviewContent)
    ensures
        r@ == tail_content(opt_bytes(bytes), len, path@),
{
    let b = match bytes {
        None => {
            return PreviewContent::Deleted;
        },
        Some(b) => b,
    };
    if looks_binary(b.as_slice()) {
        return PreviewContent::Binary;
    }
    let raw = from_utf8_lossy(b.as_slice());
    let text = expand_tabs(raw.as_str());
    let highlighted = highlight_source(h, text.as_str(), path);
    PreviewContent::Text(
        TextContent {
            lines: tail_lines(b.as_slice(), usize::MAX),
            highlighted,
            truncated: len > TAIL_BYTES,
        },
    )
}

/// The first `n` elements, or all if there are fewer.
pub open spec fn first_of<T>(s: Seq<T>, n: nat) -> Seq<T> {
    if s.len() > n {
        s.subrange(0, n as int)
    } else {
        s
    }
}

/// The arguments of the `git` command that tells how a file differs from the
/// last commit; `None` for a path without a parent.
pub fn diff_args(abs_path: &str) -> (r: Option<Vec<String>>)
    ensures
        r is Some <==> parent(abs_path@) is Some,
        r is Some ==> texts(r->0@) == seq![
            "-C"@,
            parent(abs_path@)->0,
            "diff"@,
            "HEAD"@,
            "--no-color"@,
            "--"@,
            abs_path@,
        ],
{
    match parent_of(abs_path) {
        None => None,
        Some(p) => {
            let mut v: Vec<String> = Vec::new();
            v.push("-C".to_owned());
            v.push(p);
            v.push("diff".to_owned());
            v.push("HEAD".to_owned());
            v.push("--no-color".to_owned());
            v.push("--".to_owned());
            v.push(abs_path.to_owned());
            assert(texts(v@) =~= seq![
                "-C"@,
                p@,
                "diff"@,
                "HEAD"@,
                "--no-color"@,
                "--"@,
                abs_path@,
            ]);
            Some(v)
        },
    }
}

/// The lines of a difference: its start, up to the limits. There is none
/// where the command failed or printed nothing.
pub open spec fn diff_lines(success: bool, stdout: Seq<u8>) -> Option<Seq<Seq<char>>> {
    if !success || stdout.len() == 0 {
        None
    } else {
        Some(
            first_of(
                tail_of(first_of(stdout, DIFF_MAX_BYTES as nat), usize::MAX as nat),
                DIFF_MAX_LINES as nat,
            ),
        )
    }
}

/// The lines of a difference that a command printed.
pub fn read_diff(success: bool, stdout: &Vec<u8>) -> (r: Option<Vec<String>>)
    ensures
        (match r {
            Some(v) => Some(texts(v@)),
            None => None,
        }) == diff_lines(success, stdout@),
        r is Some ==> r->0.len() <= DIFF_MAX_LINES,
{
    if !success || stdout.len() == 0 {
        return None;
    }
    let limit: usize = if stdout.len() < DIFF_MAX_BYTES {
        stdout.len()
    } else {
        DIFF_MAX_BYTES
    };
    let mut part: Vec<u8> = Vec::new();
    let mut i: usize = 0;
    while i < limit
        invariant
            i <= limit <= stdout.len(),
            part@ == stdout@.subrange(0, i as int),
        decreases limit - i,
    {
        part.push(stdout[i]);
        assert(stdout@.subrange(0, i + 1) =~= stdout@.subrange(0, i as int).push(stdout@[i as int]));
        i += 1;
    }
    assert(part@ =~= first_of(stdout@, DIFF_MAX_BYTES as nat));
    let mut all = tail_lines(part.as_slice(), usize::MAX);
    let ghost av = texts(all@);
    all.truncate(DIFF_MAX_LINES);
    assert(texts(all@) =~= first_of(av, DIFF_MAX_LINES as nat));
    Some(all)
}

// ---------------------------------------------------------------------------
// Images
// ---------------------------------------------------------------------------

/// What `ImageReader::into_decoder` tells of the image in a file's bytes, or why
/// it cannot: its width and height, and the bits and the channels of a pixel.
pub uninterp spec fn image_header(bytes: Seq<u8>) -> Result<((u32, u32), (u16, u8)), Seq<char>>;

/// The width, the height and the pixels, three bytes for each, of the image
/// that `ImageReader::decode` finds in a file's bytes, or why it finds none.
pub uninterp spec fn image_pixels(bytes: Seq<u8>) -> Result<((u32, u32), Seq<u8>), Seq<char>>;

/// The width, the height and the pixels of what `DynamicImage::thumbnail` makes
/// of the image in a file's bytes for a width and a height, or why there is no
/// image.
pub uninterp spec fn image_thumbnail(bytes: Seq<u8>, w: u32, h: u32) -> Result<
    ((u32, u32), Seq<u8>),
    Seq<char>,
>;

/// A width, a height and pixels, or the reason why there are none.
pub open spec fn pixels_view(r: Result<((u32, u32), Vec<u8>), String>) -> Result<
    ((u32, u32), Seq<u8>),
    Seq<char>,
> {
    match r {
        Ok((size, rgb)) => Ok((size, rgb@)),
        Err(e) => Err(e@),
    }
}

/// Three bytes for each pixel.
pub open spec fn has_all_pixels(r: Result<((u32, u32), Seq<u8>), Seq<char>>) -> bool {
    r is Ok ==> (r->Ok_0).1.len() == ((r->Ok_0).0).0 * ((r->Ok_0).0).1 * 3
}

/// What is told of an image, or the reason why nothing is.
pub open spec fn header_view(r: Result<((u32, u32), (u16, u8)), String>) -> Result<
    ((u32, u32), (u16, u8)),
    Seq<char>,
> {
    match r {
        Ok(told) => Ok(told),
        Err(e) => Err(e@),
    }
}

/// Calls `ImageReader::with_guessed_format` and `ImageReader::into_decoder` on
/// the bytes of a file, and asks the decoder for the size and the colour type
/// of what it decodes: the format is found from the bytes, and the result
/// depends on them alone.
#[verifier::external_body]
fn read_header(bytes: &Vec<u8>) -> (r: Result<((u32, u32), (u16, u8)), String>)
    ensures
        header_view(r) == image_header(bytes@),
{
    let reader = image::ImageReader::new(std::io::Cursor::new(bytes.as_slice())).with_guessed_format();
    let decoder = reader.map_err(|e| e.to_string())?.into_decoder().map_err(|e| e.to_string())?;
    let color = decoder.color_type();
    Ok((decoder.dimensions(), (color.bits_per_pixel(), color.channel_count())))
}

/// Calls `ImageReader::with_guessed_format`, `ImageReader::decode` and
/// `DynamicImage::to_rgb8` on the bytes of a file: the result depends on them
/// alone, and there are three bytes for each pixel.
#[verifier::external_body]
fn decode_pixels(bytes: &Vec<u8>) -> (r: Result<((u32, u32), Vec<u8>), String>)
    ensures
        pixels_view(r) == image_pixels(bytes@),
        has_all_pixels(pixels_view(r)),
{
    let reader = image::ImageReader::new(std::io::Cursor::new(bytes.as_slice())).with_guessed_format();
    let rgb = reader.map_err(|e| e.to_string())?.decode().map_err(|e| e.to_string())?.to_rgb8();
    Ok((rgb.dimensions(), rgb.into_raw()))
}

/// Calls `ImageReader::with_guessed_format`, `ImageReader::decode`,
/// `DynamicImage::thumbnail` and `DynamicImage::to_rgb8` on the bytes of a file
/// whose image is larger than the bounds, but not by more than can be averaged:
/// `thumbnail` adds the samples of all pixels that become one in 32 bits, which
/// holds 65,536 samples of 16 bits and 16,800,000 of 8. The result depends on
/// the bytes and the bounds alone: an image that keeps its shape and fits within
/// the bounds, with three bytes for each pixel.
#[verifier::external_body]
fn decode_thumbnail(bytes: &Vec<u8>, w: u32, h: u32) -> (r: Result<((u32, u32), Vec<u8>), String>)
    requires
        w > 0,
        h > 0,
        image_plan(image_header(bytes@), (w, h)) == ImagePlan::Shrunk,
    ensures
        pixels_view(r) == image_thumbnail(bytes@, w, h),
        has_all_pixels(pixels_view(r)),
        r is Ok ==> 0 < ((r->Ok_0).0).0 <= w && 0 < ((r->Ok_0).0).1 <= h,
{
    let reader = image::ImageReader::new(std::io::Cursor::new(bytes.as_slice())).with_guessed_format();
    let img = reader.map_err(|e| e.to_string())?.decode().map_err(|e| e.to_string())?;
    let rgb = img.thumbnail(w, h).to_rgb8();
    Ok((rgb.dimensions(), rgb.into_raw()))
}

/// At least one.
pub open spec fn one_or(v: u32) -> u32 {
    if v == 0 {
        1
    } else {
        v
    }
}

/// Whether an image is shown smaller than it is.
pub open spec fn too_big(size: (u32, u32), fit: (u32, u32)) -> bool {
    size.0 > 0 && size.1 > 0 && (size.0 > one_or(fit.0) || size.1 > one_or(fit.1))
}

/// The largest extent of an image that is made smaller. Up to it every pixel is
/// counted exactly where extents are divided.
pub const SHRINK_EXTENT_MAX: u32 = 0x0100_0000;

/// Whether the pixels that become one when an image is made to fit are few
/// enough to be averaged. They are never more than the whole image has. One of
/// its sides shrinks by as much as it exceeds the bounds, and the other, which
/// is rounded, by at most half as much again. So they are at most 200 by 301
/// where no side exceeds its bound more than 200 times, and at most 3000 by 4501
/// where none exceeds it more than 3000 times.
pub open spec fn can_average(size: (u32, u32), deep: bool, fit: (u32, u32)) -> bool {
    let whole: int = if deep {
        65_536
    } else {
        16_800_000
    };
    let step: int = if deep {
        200
    } else {
        3000
    };
    &&& size.0 <= SHRINK_EXTENT_MAX
    &&& size.1 <= SHRINK_EXTENT_MAX
    &&& size.0 * size.1 <= whole || (size.0 <= step * one_or(fit.0) && size.1 <= step * one_or(
        fit.1,
    ))
}

/// How an image is shown.
#[derive(Debug, Clone, Copy, PartialEq, Eq, Structural)]
pub enum ImagePlan {
    /// As it is.
    Whole,
    /// Smaller than it is.
    Shrunk,
    /// Not at all: it exceeds the bounds by too much.
    TooLarge,
}

/// How an image is shown within bounds, from what is told of it. Where nothing
/// is told, decoding it tells why. A sample is deep if it has more than 8 bits.
pub open spec fn image_plan<E>(header: Result<((u32, u32), (u16, u8)), E>, fit: (u32, u32))
    -> ImagePlan {
    match header {
        Ok((size, (bits, channels))) => if !too_big(size, fit) {
            ImagePlan::Whole
        } else if can_average(size, bits != 8 * channels, fit) {
            ImagePlan::Shrunk
        } else {
            ImagePlan::TooLarge
        },
        Err(_) => ImagePlan::Whole,
    }
}

/// Decides how an image is shown within bounds.
pub fn plan_image(header: &Result<((u32, u32), (u16, u8)), String>, fit: (u32, u32)) -> (r:
    ImagePlan)
    ensures
        r == image_plan(header_view(*header), fit),
{
    let (size, color) = match header {
        Ok(told) => *told,
        Err(_) => {
            return ImagePlan::Whole;
        },
    };
    if !exceeds(size, fit) {
        return ImagePlan::Whole;
    }
    if size.0 > SHRINK_EXTENT_MAX || size.1 > SHRINK_EXTENT_MAX {
        return ImagePlan::TooLarge;
    }
    let deep = color.0 as u32 != 8 * color.1 as u32;
    let whole: u64 = if deep {
        65_536
    } else {
        16_800_000
    };
    let step: u64 = if deep {
        200
    } else {
        3000
    };
    proof {
        assert(size.0 * size.1 <= 0x0100_0000 * 0x0100_0000) by (nonlinear_arith)
            requires
                size.0 <= 0x0100_0000,
                size.1 <= 0x0100_0000,
        ;
    }
    let fits = size.0 as u64 <= step * at_least_one(fit.0) as u64 && size.1 as u64 <= step
        * at_least_one(fit.1) as u64;
    if size.0 as u64 * size.1 as u64 <= whole || fits {
        ImagePlan::Shrunk
    } else {
        ImagePlan::TooLarge
    }
}

/// The message for an image that is not shown for its size.
pub open spec fn large_image() -> Content {
    plain_text(seq!["(画像が大きすぎるため表示しません)"@])
}

fn large_image_content() -> (r: PreviewContent)
    ensures
        r@ == large_image(),
{
    let mut v: Vec<String> = Vec::new();
    v.push("(画像が大きすぎるため表示しません)".to_owned());
    assert(texts(v@) =~= seq!["(画像が大きすぎるため表示しません)"@]);
    PreviewContent::Text(TextContent { lines: v, highlighted: None, truncated: false })
}

/// The message for an image that could not be decoded.
pub open spec fn broken_image(reason: Seq<char>) -> Content {
    plain_text(seq!["(この画像は表示できませんでした)"@, "  "@ + reason])
}

fn broken_image_content(reason: &str) -> (r: PreviewContent)
    ensures
        r@ == broken_image(reason@),
{
    let mut v: Vec<String> = Vec::new();
    v.push("(この画像は表示できませんでした)".to_owned());
    let mut line = "  ".to_owned();
    line.append(reason);
    v.push(line);
    assert(texts(v@) =~= seq!["(この画像は表示できませんでした)"@, "  "@ + reason@]);
    PreviewContent::Text(TextContent { lines: v, highlighted: None, truncated: false })
}

/// What is shown of pixels, or where there are none.
pub open spec fn picture_content(r: Result<((u32, u32), Seq<u8>), Seq<char>>) -> Content {
    match r {
        Ok((size, rgb)) => Content::Image { rgb, w: size.0, h: size.1 },
        Err(reason) => broken_image(reason),
    }
}

/// Makes the preview of pixels, or tells why there are none.
pub fn image_content(pixels: Result<((u32, u32), Vec<u8>), String>) -> (r: PreviewContent)
    ensures
        r@ == picture_content(pixels_view(pixels)),
{
    match pixels {
        Ok((size, rgb)) => PreviewContent::Image { rgb, w: size.0, h: size.1 },
        Err(e) => broken_image_content(e.as_str()),
    }
}

/// What is shown of the image in a file's bytes: it is scaled down to the bounds
/// where it exceeds them, never up, and not shown where it exceeds them by too
/// much.
pub open spec fn shown_image(bytes: Seq<u8>, fit: (u32, u32)) -> Content {
    match image_plan(image_header(bytes), fit) {
        ImagePlan::Whole => picture_content(image_pixels(bytes)),
        ImagePlan::Shrunk => picture_content(
            image_thumbnail(bytes, one_or(fit.0), one_or(fit.1)),
        ),
        ImagePlan::TooLarge => large_image(),
    }
}

/// Whether an image is shown smaller than it is.
pub fn exceeds(size: (u32, u32), fit: (u32, u32)) -> (r: bool)
    ensures
        r == too_big(size, fit),
{
    size.0 > 0 && size.1 > 0 && (size.0 > at_least_one(fit.0) || size.1 > at_least_one(fit.1))
}

fn at_least_one(v: u32) -> (r: u32)
    ensures
        r == one_or(v),
{
    if v == 0 {
        1
    } else {
        v
    }
}

/// Makes the preview of an image file: `len` is its length, `bytes` what was
/// read of it, each `None` where the file could not be looked at.
pub fn read_image(len: Option<u64>, bytes: Option<Vec<u8>>, fit: (u32, u32)) -> (r: PreviewContent)
    ensures
        r@ == (if len is None {
            Content::Deleted
        } else if len->0 > IMAGE_MAX_BYTES {
            large_image()
        } else if bytes is None {
            Content::Deleted
        } else {
            shown_image(bytes->0@, fit)
        }),
        r is Image ==> r->rgb@.len() == r->w * r->h * 3,
{
    let n = match len {
        None => {
            return PreviewContent::Deleted;
        },
        Some(n) => n,
    };
    if n > IMAGE_MAX_BYTES {
        return large_image_content();
    }
    let b = match bytes {
        None => {
            return PreviewContent::Deleted;
        },
        Some(b) => b,
    };
    match plan_image(&read_header(&b), fit) {
        ImagePlan::Whole => image_content(decode_pixels(&b)),
        ImagePlan::Shrunk => image_content(
            decode_thumbnail(&b, at_least_one(fit.0), at_least_one(fit.1)),
        ),
        ImagePlan::TooLarge => large_image_content(),
    }
}

// ---------------------------------------------------------------------------
// The preview
// ---------------------------------------------------------------------------

/// A file to read in the background.
#[derive(Debug)]
pub struct ReadRequest {
    pub abs_path: String,
    pub display_path: String,
    pub fit: (u32, u32),
}

/// A file that was read.
#[derive(Debug)]
pub struct PreviewRead {
    pub target: String,
    pub content: PreviewContent,
}

/// What has become of the read under way.
#[derive(Debug)]
pub enum ReadStatus {
    Running,
    Done(PreviewRead),
    /// The reader is gone without a result.
    Lost,
}

/// The preview: the file shown, its contents, and the reads under way and
/// waiting. Times are in nanoseconds.
#[derive(Debug)]
pub struct FilePreview {
    pub target: Option<String>,
    pub target_abs: Option<String>,
    pub content: PreviewContent,
    pub pending: bool,
    pub last_read: Option<u64>,
    pub queued: Option<(String, String)>,
    /// The size in pixels that images are scaled to.
    pub fit: (u32, u32),
}

/// The contents of a preview.
pub ghost struct Preview {
    pub target: Option<Seq<char>>,
    pub target_abs: Option<Seq<char>>,
    pub content: Content,
    pub pending: bool,
    pub last_read: Option<u64>,
    pub queued: Option<(Seq<char>, Seq<char>)>,
    pub fit: (u32, u32),
}

impl View for FilePreview {
    type V = Preview;

    open spec fn view(&self) -> Preview {
        Preview {
            target: opt_text(self.target),
            target_abs: opt_text(self.target_abs),
            content: self.content@,
            pending: self.pending,
            last_read: self.last_read,
            queued: match self.queued {
                Some((a, d)) => Some((a@, d@)),
                None => None,
            },
            fit: self.fit,
        }
    }
}

/// A read to start: the path, the path shown, and the size for an image.
pub open spec fn request_view(r: Option<ReadRequest>) -> Option<(Seq<char>, Seq<char>, (u32, u32))> {
    match r {
        Some(q) => Some((q.abs_path@, q.display_path@, q.fit)),
        None => None,
    }
}

/// Whether a read may start.
pub open spec fn may_read(last_read: Option<u64>, now: u64) -> bool {
    match last_read {
        None => true,
        Some(t) => now - t >= READ_DEBOUNCE,
    }
}

fn can_read(last_read: Option<u64>, now: u64) -> (r: bool)
    ensures
        r == may_read(last_read, now),
{
    match last_read {
        None => true,
        Some(t) => now >= t && now - t >= READ_DEBOUNCE,
    }
}

/// A read started at `now`.
pub open spec fn started(p: Preview, now: u64) -> Preview {
    Preview { pending: true, last_read: Some(now), ..p }
}

/// A read asked for: it starts at once, or waits.
pub open spec fn asked(p: Preview, abs: Seq<char>, shown: Seq<char>, immediate: bool, now: u64) -> (
    Preview,
    Option<(Seq<char>, Seq<char>, (u32, u32))>,
) {
    if immediate || may_read(p.last_read, now) {
        (started(p, now), Some((abs, shown, p.fit)))
    } else {
        (Preview { queued: Some((abs, shown)), ..p }, None)
    }
}

/// What is shown of a preview.
#[derive(Debug)]
pub enum PreviewLines<'a> {
    Text(&'a TextContent),
    Diff(&'a Vec<String>),
    Message(&'static str),
}

/// The message shown in place of contents.
pub open spec fn content_message(c: Content) -> Seq<char> {
    match c {
        Content::Image { .. } => "(画像)"@,
        Content::Binary => "(バイナリファイル)"@,
        Content::Deleted => "(削除されました)"@,
        _ => "(AIやコマンドがファイルを変更すると、ここに中身が流れます)"@,
    }
}

impl FilePreview {
    pub fn new() -> (r: Self)
        ensures
            r@ == (Preview {
                target: None,
                target_abs: None,
                content: Content::Empty,
                pending: false,
                last_read: None,
                queued: None,
                fit: (640, 480),
            }),
    {
        FilePreview {
            target: None,
            target_abs: None,
            content: PreviewContent::Empty,
            pending: false,
            last_read: None,
            queued: None,
            fit: (640, 480),
        }
    }

    /// Sets the size that images are scaled to; `true` if it changed.
    pub fn set_fit(&mut self, w: u32, h: u32) -> (r: bool)
        ensures
            final(self)@ == (Preview { fit: (one_or(w), one_or(h)), ..old(self)@ }),
            *final(self) == (FilePreview { fit: (one_or(w), one_or(h)), ..*old(self) }),
            r == (old(self).fit != (one_or(w), one_or(h))),
    {
        let next: (u32, u32) = (
            if w == 0 {
                1
            } else {
                w
            },
            if h == 0 {
                1
            } else {
                h
            },
        );
        if self.fit.0 != next.0 || self.fit.1 != next.1 {
            self.fit = next;
            true
        } else {
            false
        }
    }

    /// The image shown, if an image is shown.
    pub fn image(&self) -> (r: Option<(&Vec<u8>, u32, u32)>)
        ensures
            match r {
                Some((rgb, w, h)) => self@.content == (Content::Image { rgb: rgb@, w, h }),
                None => !(self@.content is Image),
            },
    {
        match &self.content {
            PreviewContent::Image { rgb, w, h } => Some((rgb, *w, *h)),
            _ => None,
        }
    }

    pub fn is_diff(&self) -> (r: bool)
        ensures
            r == (self@.content is Diff),
    {
        match &self.content {
            PreviewContent::Diff(_) => true,
            _ => false,
        }
    }

    pub fn target(&self) -> (r: Option<&String>)
        ensures
            (match r {
                Some(s) => Some(s@),
                None => None,
            }) == self@.target,
    {
        match &self.target {
            Some(s) => Some(s),
            None => None,
        }
    }

    pub fn target_abs(&self) -> (r: Option<&String>)
        ensures
            (match r {
                Some(s) => Some(s@),
                None => None,
            }) == self@.target_abs,
    {
        match &self.target_abs {
            Some(s) => Some(s),
            None => None,
        }
    }

    /// Shows a file: what was shown before is gone, and it is read at once.
    pub fn set_target_abs(&mut self, abs_path: &str, display_path: &str, now: u64) -> (r: Option<
        ReadRequest,
    >)
        ensures
            final(self)@ == started(
                Preview {
                    target: Some(display_path@),
                    target_abs: Some(abs_path@),
                    content: Content::Empty,
                    ..old(self)@
                },
                now,
            ),
            request_view(r) == Some((abs_path@, display_path@, old(self).fit)),
    {
        self.target = Some(display_path.to_owned());
        self.target_abs = Some(abs_path.to_owned());
        self.content = PreviewContent::Empty;
        self.request_read(abs_path, display_path, true, now)
    }

    /// Shows a file that changed: what was shown stays until it is read, and
    /// it is read no more often than the debounce time allows.
    pub fn notify_target_abs(&mut self, abs_path: &str, display_path: &str, now: u64) -> (r: Option<
        ReadRequest,
    >)
        ensures
            ({
                let p = Preview {
                    target: Some(display_path@),
                    target_abs: Some(abs_path@),
                    ..old(self)@
                };
                (final(self)@, request_view(r)) == asked(p, abs_path@, display_path@, false, now)
            }),
    {
        self.target = Some(display_path.to_owned());
        self.target_abs = Some(abs_path.to_owned());
        self.request_read(abs_path, display_path, false, now)
    }

    /// Shows bytes that are not on disk; reads under way or waiting are dropped.
    pub fn set_memory_content(&mut self, display_path: &str, bytes: Vec<u8>)
        ensures
            final(self)@ == (Preview {
                target: Some(display_path@),
                target_abs: None,
                pending: false,
                queued: None,
                content: if has_nul(bytes@) {
                    Content::Binary
                } else {
                    plain_text(tail_of(bytes@, usize::MAX as nat))
                },
                ..old(self)@
            }),
    {
        self.target = Some(display_path.to_owned());
        self.target_abs = None;
        self.pending = false;
        self.queued = None;
        self.content = if looks_binary(bytes.as_slice()) {
            PreviewContent::Binary
        } else {
            PreviewContent::Text(
                TextContent {
                    lines: tail_lines(bytes.as_slice(), usize::MAX),
                    highlighted: None,
                    truncated: false,
                },
            )
        };
    }

    /// Reads the file shown again, at once; contents that are not on disk stay.
    pub fn refresh_current(&mut self, now: u64) -> (r: Option<ReadRequest>)
        ensures
            old(self)@.target is Some && old(self)@.target_abs is Some ==> {
                &&& final(self)@ == started(old(self)@, now)
                &&& request_view(r) == Some(
                    (old(self)@.target_abs->0, old(self)@.target->0, old(self).fit),
                )
            },
            old(self)@.target is None || old(self)@.target_abs is None ==> {
                &&& *final(self) == *old(self)
                &&& r is None
            },
    {
        let abs = copy_opt(&self.target_abs);
        let shown = copy_opt(&self.target);
        match (abs, shown) {
            (Some(a), Some(d)) => self.request_read(a.as_str(), d.as_str(), true, now),
            _ => None,
        }
    }

    /// Takes up what has become of the read under way, and starts the one
    /// that waits if it may. The first result says whether what is shown
    /// changed; a read of a file no longer shown changes nothing.
    pub fn poll(&mut self, status: ReadStatus, now: u64) -> (r: (bool, Option<ReadRequest>))
        ensures
            (final(self)@, r.0, request_view(r.1)) == polled(old(self)@, status, now),
    {
        let mut changed = false;
        if self.pending {
            match status {
                ReadStatus::Running => {},
                ReadStatus::Done(read) => {
                    let same = match &self.target {
                        Some(t) => same_path(t.as_str(), read.target.as_str()),
                        None => false,
                    };
                    if same {
                        self.content = read.content;
                        changed = true;
                    }
                    self.pending = false;
                },
                ReadStatus::Lost => {
                    self.pending = false;
                    changed = true;
                },
            }
        }
        if !self.pending && can_read(self.last_read, now) {
            let waiting = self.queued.take();
            if let Some((abs, shown)) = waiting {
                let req = self.spawn_read(abs.as_str(), shown.as_str(), now);
                return (changed, Some(req));
            }
        }
        (changed, None)
    }

    /// What is shown: text, a difference, or a message.
    pub fn lines(&self) -> (r: PreviewLines<'_>)
        ensures
            match self.content {
                PreviewContent::Text(t) => r is Text && *r->Text_0 == t,
                PreviewContent::Diff(d) => r is Diff && *r->Diff_0 == d,
                _ => r is Message && r->Message_0@ == content_message(self@.content),
            },
    {
        match &self.content {
            PreviewContent::Text(t) => PreviewLines::Text(t),
            PreviewContent::Diff(d) => PreviewLines::Diff(d),
            PreviewContent::Image { .. } => PreviewLines::Message("(画像)"),
            PreviewContent::Binary => PreviewLines::Message("(バイナリファイル)"),
            PreviewContent::Deleted => PreviewLines::Message("(削除されました)"),
            PreviewContent::Empty => PreviewLines::Message(
                "(AIやコマンドがファイルを変更すると、ここに中身が流れます)",
            ),
        }
    }

    fn request_read(&mut self, abs_path: &str, display_path: &str, immediate: bool, now: u64) -> (r:
        Option<ReadRequest>)
        ensures
            (final(self)@, request_view(r)) == asked(
                old(self)@,
                abs_path@,
                display_path@,
                immediate,
                now,
            ),
    {
        if immediate || can_read(self.last_read, now) {
            Some(self.spawn_read(abs_path, display_path, now))
        } else {
            self.queued = Some((abs_path.to_owned(), display_path.to_owned()));
            None
        }
    }

    fn spawn_read(&mut self, abs_path: &str, display_path: &str, now: u64) -> (r: ReadRequest)
        ensures
            final(self)@ == started(old(self)@, now),
            request_view(Some(r)) == Some((abs_path@, display_path@, old(self).fit)),
    {
        self.pending = true;
        self.last_read = Some(now);
        ReadRequest {
            abs_path: abs_path.to_owned(),
            display_path: display_path.to_owned(),
            fit: self.fit,
        }
    }
}

/// A preview after its read was taken up, and whether what it shows changed.
pub open spec fn taken_up(p: Preview, status: ReadStatus) -> (Preview, bool) {
    if !p.pending {
        (p, false)
    } else {
        match status {
            ReadStatus::Running => (p, false),
            ReadStatus::Done(read) => if p.target is Some && path_eq(p.target->0, read.target@) {
                (Preview { pending: false, content: read.content@, ..p }, true)
            } else {
                (Preview { pending: false, ..p }, false)
            },
            ReadStatus::Lost => (Preview { pending: false, ..p }, true),
        }
    }
}

/// A preview after its read was taken up and the one that waits has started
/// if it may, whether what it shows changed, and the read to start.
pub open spec fn polled(p: Preview, status: ReadStatus, now: u64) -> (
    Preview,
    bool,
    Option<(Seq<char>, Seq<char>, (u32, u32))>,
) {
    let (taken, changed) = taken_up(p, status);
    match taken.queued {
        Some((abs, shown)) => if !taken.pending && may_read(taken.last_read, now) {
            (
                started(Preview { queued: None, ..taken }, now),
                changed,
                Some((abs, shown, taken.fit)),
            )
        } else {
            (taken, changed, None)
        },
        None => (taken, changed, None),
    }
}

/// A read asked for too soon is not lost: it starts as soon as the debounce
/// time has passed and no read is under way.
pub proof fn law_waiting_read_starts(p: Preview, abs: Seq<char>, shown: Seq<char>, now: u64, later: u64)
    requires
        !p.pending,
        !may_read(p.last_read, now),
        may_read(p.last_read, later),
    ensures
        asked(p, abs, shown, false, now).1 is None,
        polled(asked(p, abs, shown, false, now).0, ReadStatus::Running, later).2 == Some(
            (abs, shown, p.fit),
        ),
{
}

/// Two reads that were not asked for at once start at least the debounce time
/// apart.
pub proof fn law_reads_apart(p: Preview, status: ReadStatus, now: u64)
    requires
        p.last_read is Some,
        polled(p, status, now).2 is Some,
    ensures
        now - p.last_read->0 >= READ_DEBOUNCE,
        polled(p, status, now).0.last_read == Some(now),
{
}

/// A read of a file that is no longer shown changes nothing that is shown.
pub proof fn law_stale_read_ignored(p: Preview, read: PreviewRead, now: u64)
    requires
        p.pending,
        p.target is Some,
        !path_eq(p.target->0, read.target@),
    ensures
        polled(p, ReadStatus::Done(read), now).0.content == p.content,
        !polled(p, ReadStatus::Done(read), now).1,
{
}

} // verus!
