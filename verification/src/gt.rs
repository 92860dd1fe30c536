//! Messages a remote shell sends inside escape sequences: changes of files,
//! and files in pieces.

use crate::path::{path_eq, same_path};
use crate::text::{
    chars_of, find_next, from_utf8, next_at, parse_u32, pieces, same_text, split_at_char, string_between, texts, u32_value,
};
use crate::watcher::ChangeKind;
use vstd::prelude::*;
use vstd::string::*;
use vstd::utf8::*;

verus! {

/// The most bytes of a file that are taken over.
pub const GT_FILE_MAX_BYTES: usize = 64 * 1024;

// ---------------------------------------------------------------------------
// Base64
// ---------------------------------------------------------------------------

/// The symbol for the six bits `v`.
pub open spec fn b64_symbol(v: u8) -> u8 {
    if v < 26 {
        (65 + v) as u8
    } else if v < 52 {
        (97 + (v - 26)) as u8
    } else if v < 62 {
        (48 + (v - 52)) as u8
    } else if v == 62 {
        43
    } else {
        47
    }
}

/// The four symbols for one, two or three bytes, filled up with `=`.
pub open spec fn quad(g: Seq<u8>) -> Seq<u8> {
    if g.len() == 1 {
        seq![b64_symbol(g[0] >> 2), b64_symbol((g[0] & 3) << 4), 61u8, 61u8]
    } else if g.len() == 2 {
        seq![
            b64_symbol(g[0] >> 2),
            b64_symbol(((g[0] & 3) << 4) | (g[1] >> 4)),
            b64_symbol((g[1] & 15) << 2),
            61u8,
        ]
    } else {
        seq![
            b64_symbol(g[0] >> 2),
            b64_symbol(((g[0] & 3) << 4) | (g[1] >> 4)),
            b64_symbol(((g[1] & 15) << 2) | (g[2] >> 6)),
            b64_symbol(g[2] & 63),
        ]
    }
}

/// How many groups of three bytes `d` makes, the last one perhaps shorter.
pub open spec fn group_count(d: Seq<u8>) -> int {
    (d.len() as int + 2) / 3
}

/// The group of bytes with number `k`.
pub open spec fn group(d: Seq<u8>, k: int) -> Seq<u8> {
    d.subrange(
        3 * k,
        if 3 * k + 3 <= d.len() {
            3 * k + 3
        } else {
            d.len() as int
        },
    )
}

/// The standard Base64 encoding of `d`, with padding.
pub open spec fn base64(d: Seq<u8>) -> Seq<u8> {
    Seq::new((4 * group_count(d)) as nat, |i: int| quad(group(d, i / 4))[i % 4])
}

/// The bytes whose encoding is `b`, if there are any.
pub open spec fn base64_decoded(b: Seq<u8>) -> Option<Seq<u8>> {
    if exists|d: Seq<u8>| d.len() > 0 && #[trigger] base64(d) == b {
        Some(choose|d: Seq<u8>| d.len() > 0 && #[trigger] base64(d) == b)
    } else {
        None
    }
}

proof fn lemma_symbol_injective(v: u8, w: u8)
    requires
        v < 64,
        w < 64,
        b64_symbol(v) == b64_symbol(w),
    ensures
        v == w,
{
}

proof fn lemma_bits(a: u8, b: u8, c: u8)
    ensures
        a >> 2 < 64,
        (a & 3) << 4 < 64,
        ((a & 3) << 4) & 0x0f == 0,
        ((a & 3) << 4) | (b >> 4) < 64,
        (b & 15) << 2 < 64,
        ((b & 15) << 2) & 0x03 == 0,
        ((b & 15) << 2) | (c >> 6) < 64,
        c & 63 < 64,
        ((a >> 2) << 2) | (((a & 3) << 4) >> 4) == a,
        ((a >> 2) << 2) | ((((a & 3) << 4) | (b >> 4)) >> 4) == a,
        ((((a & 3) << 4) | (b >> 4)) << 4) | (((b & 15) << 2) >> 2) == b,
        ((((a & 3) << 4) | (b >> 4)) << 4) | ((((b & 15) << 2) | (c >> 6)) >> 2) == b,
        ((((b & 15) << 2) | (c >> 6)) << 6) | (c & 63) == c,
{
    assert(a >> 2 < 64 && (a & 3) << 4 < 64 && ((a & 3) << 4) & 0x0f == 0 && ((a & 3) << 4) | (b
        >> 4) < 64 && (b & 15) << 2 < 64 && ((b & 15) << 2) & 0x03 == 0 && ((b & 15) << 2) | (c
        >> 6) < 64 && c & 63 < 64) by (bit_vector);
    assert(((a >> 2) << 2) | (((a & 3) << 4) >> 4) == a && ((a >> 2) << 2) | ((((a & 3) << 4) | (b
        >> 4)) >> 4) == a && ((((a & 3) << 4) | (b >> 4)) << 4) | (((b & 15) << 2) >> 2) == b && (((
    (a & 3) << 4) | (b >> 4)) << 4) | ((((b & 15) << 2) | (c >> 6)) >> 2) == b && ((((b & 15) << 2)
        | (c >> 6)) << 6) | (c & 63) == c) by (bit_vector);
}

proof fn lemma_values(v0: u8, v1: u8, v2: u8, v3: u8)
    requires
        v0 < 64,
        v1 < 64,
        v2 < 64,
        v3 < 64,
    ensures
        ((v0 << 2) | (v1 >> 4)) >> 2 == v0,
        (((v0 << 2) | (v1 >> 4)) & 3) << 4 == v1 & 0x30,
        v1 & 0x0f == 0 ==> v1 & 0x30 == v1,
        ((((v0 << 2) | (v1 >> 4)) & 3) << 4) | (((v1 << 4) | (v2 >> 2)) >> 4) == v1,
        (((v1 << 4) | (v2 >> 2)) & 15) << 2 == v2 & 0x3c,
        v2 & 0x03 == 0 ==> v2 & 0x3c == v2,
        ((((v1 << 4) | (v2 >> 2)) & 15) << 2) | (((v2 << 6) | v3) >> 6) == v2,
        ((v2 << 6) | v3) & 63 == v3,
{
    assert(((v0 << 2) | (v1 >> 4)) >> 2 == v0 && (((v0 << 2) | (v1 >> 4)) & 3) << 4 == v1 & 0x30 && (
    v1 & 0x0f == 0 ==> v1 & 0x30 == v1)) by (bit_vector)
        requires
            v0 < 64,
            v1 < 64,
    ;
    assert(((((v0 << 2) | (v1 >> 4)) & 3) << 4) | (((v1 << 4) | (v2 >> 2)) >> 4) == v1 && (((v1
        << 4) | (v2 >> 2)) & 15) << 2 == v2 & 0x3c && (v2 & 0x03 == 0 ==> v2 & 0x3c == v2))
        by (bit_vector)
        requires
            v0 < 64,
            v1 < 64,
            v2 < 64,
    ;
    assert(((((v1 << 4) | (v2 >> 2)) & 15) << 2) | (((v2 << 6) | v3) >> 6) == v2 && ((v2 << 6)
        | v3) & 63 == v3) by (bit_vector)
        requires
            v1 < 64,
            v2 < 64,
            v3 < 64,
    ;
}

/// Different groups have different symbols.
proof fn lemma_quad_injective(g: Seq<u8>, h: Seq<u8>)
    requires
        1 <= g.len() <= 3,
        1 <= h.len() <= 3,
        quad(g) == quad(h),
    ensures
        g == h,
{
    let zero = 0u8;
    let g1 = if g.len() > 1 { g[1] } else { zero };
    let g2 = if g.len() > 2 { g[2] } else { zero };
    let h1 = if h.len() > 1 { h[1] } else { zero };
    let h2 = if h.len() > 2 { h[2] } else { zero };
    lemma_bits(g[0], g1, g2);
    lemma_bits(h[0], h1, h2);
    assert(quad(g)[0] == quad(h)[0]);
    assert(quad(g)[1] == quad(h)[1]);
    assert(quad(g)[2] == quad(h)[2]);
    assert(quad(g)[3] == quad(h)[3]);
    assert(g.len() == h.len());
    lemma_symbol_injective(g[0] >> 2, h[0] >> 2);
    if g.len() == 1 {
        lemma_symbol_injective((g[0] & 3) << 4, (h[0] & 3) << 4);
    } else {
        lemma_symbol_injective(((g[0] & 3) << 4) | (g1 >> 4), ((h[0] & 3) << 4) | (h1 >> 4));
        if g.len() == 2 {
            lemma_symbol_injective((g1 & 15) << 2, (h1 & 15) << 2);
        } else {
            lemma_symbol_injective(((g1 & 15) << 2) | (g2 >> 6), ((h1 & 15) << 2) | (h2 >> 6));
            lemma_symbol_injective(g2 & 63, h2 & 63);
        }
    }
    assert(g =~= h);
}

/// The four symbols with number `k` of an encoding are those of the group
/// with that number.
proof fn lemma_base64_group(d: Seq<u8>, k: int)
    requires
        0 <= k < group_count(d),
    ensures
        base64(d).len() == 4 * group_count(d),
        base64(d).subrange(4 * k, 4 * k + 4) == quad(group(d, k)),
        1 <= group(d, k).len() <= 3,
        k + 1 < group_count(d) ==> group(d, k).len() == 3,
{
    let q = base64(d).subrange(4 * k, 4 * k + 4);
    assert forall|j: int| 0 <= j < 4 implies q[j] == quad(group(d, k))[j] by {
        assert((4 * k + j) / 4 == k);
        assert((4 * k + j) % 4 == j);
    }
    assert(q =~= quad(group(d, k)));
}

/// No two texts have the same encoding.
pub proof fn law_base64_injective(a: Seq<u8>, b: Seq<u8>)
    requires
        base64(a) == base64(b),
    ensures
        a == b,
{
    assert(base64(a).len() == 4 * group_count(a));
    assert(base64(b).len() == 4 * group_count(b));
    let n = group_count(a);
    assert(n == group_count(b));
    assert forall|k: int| 0 <= k < n implies #[trigger] group(a, k) == group(b, k) by {
        lemma_base64_group(a, k);
        lemma_base64_group(b, k);
        lemma_quad_injective(group(a, k), group(b, k));
    }
    if n > 0 {
        assert(group(a, n - 1).len() == group(b, n - 1).len());
    }
    assert(a.len() == b.len());
    assert forall|i: int| 0 <= i < a.len() implies a[i] == b[i] by {
        let k = i / 3;
        assert(group(a, k) == group(b, k));
        assert(group(a, k)[i - 3 * k] == a[i]);
        assert(group(b, k)[i - 3 * k] == b[i]);
    }
    assert(a =~= b);
}

/// Decoding gives back what was encoded.
pub proof fn law_base64_round_trip(d: Seq<u8>)
    requires
        d.len() > 0,
    ensures
        base64_decoded(base64(d)) == Some(d),
{
    let b = base64(d);
    assert(d.len() > 0 && base64(d) == b);
    let e = choose|e: Seq<u8>| e.len() > 0 && #[trigger] base64(e) == b;
    law_base64_injective(d, e);
}

/// The six bits of a symbol.
fn b64_value(byte: u8) -> (r: Option<u8>)
    ensures
        r is Some ==> r->0 < 64 && b64_symbol(r->0) == byte && byte != 61,
        r is None ==> forall|v: u8| v < 64 ==> #[trigger] b64_symbol(v) != byte,
        forall|v: u8| v < 64 && #[trigger] b64_symbol(v) == byte ==> r == Some(v),
{
    match byte {
        65..=90 => Some(byte - 65),
        97..=122 => Some(byte - 97 + 26),
        48..=57 => Some(byte - 48 + 52),
        43 => Some(62),
        47 => Some(63),
        _ => None,
    }
}

/// The bytes that four symbols stand for.
fn decode_quad(c0: u8, c1: u8, c2: u8, c3: u8) -> (r: Option<Vec<u8>>)
    ensures
        r is Some ==> 1 <= r->0@.len() <= 3 && quad(r->0@) == seq![c0, c1, c2, c3],
        r is None ==> forall|g: Seq<u8>|
            1 <= g.len() <= 3 ==> #[trigger] quad(g) != seq![c0, c1, c2, c3],
{
    let ghost want = seq![c0, c1, c2, c3];
    proof {
        assert forall|g: Seq<u8>| 1 <= g.len() <= 3 && #[trigger] quad(g) == want implies {
            &&& quad(g)[0] == c0
            &&& quad(g)[1] == c1
            &&& quad(g)[2] == c2
            &&& quad(g)[3] == c3
            &&& (c2 == 61 ==> c3 == 61 && g.len() == 1)
            &&& (c2 != 61 && c3 == 61 ==> g.len() == 2)
            &&& (c3 != 61 ==> g.len() == 3)
        } by {
            assert(want[0] == c0 && want[1] == c1 && want[2] == c2 && want[3] == c3);
            let z = 0u8;
            lemma_bits(
                g[0],
                if g.len() > 1 { g[1] } else { z },
                if g.len() > 2 { g[2] } else { z },
            );
        }
        assert forall|g: Seq<u8>| 1 <= g.len() <= 3 implies {
            let z = 0u8;
            let g1 = if g.len() > 1 { g[1] } else { z };
            let g2 = if g.len() > 2 { g[2] } else { z };
            &&& #[trigger] g[0] >> 2 < 64
            &&& (g[0] & 3) << 4 < 64
            &&& ((g[0] & 3) << 4) & 0x0f == 0
            &&& ((g[0] & 3) << 4) | (g1 >> 4) < 64
            &&& (g1 & 15) << 2 < 64
            &&& ((g1 & 15) << 2) & 0x03 == 0
            &&& ((g1 & 15) << 2) | (g2 >> 6) < 64
            &&& g2 & 63 < 64
        } by {
            let z = 0u8;
            lemma_bits(
                g[0],
                if g.len() > 1 { g[1] } else { z },
                if g.len() > 2 { g[2] } else { z },
            );
        }
    }
    if c2 == 61 && c3 != 61 {
        return None;
    }
    let a = match b64_value(c0) {
        Some(v) => v,
        None => {
            return None;
        },
    };
    let b = match b64_value(c1) {
        Some(v) => v,
        None => {
            return None;
        },
    };
    let c = if c2 == 61 {
        0
    } else {
        match b64_value(c2) {
            Some(v) => v,
            None => {
                return None;
            },
        }
    };
    let d = if c3 == 61 {
        0
    } else {
        match b64_value(c3) {
            Some(v) => v,
            None => {
                return None;
            },
        }
    };
    if c2 == 61 && (b & 0x0f) != 0 {
        return None;
    }
    if c2 != 61 && c3 == 61 && (c & 0x03) != 0 {
        return None;
    }
    proof {
        lemma_values(a, b, c, d);
    }
    let mut out: Vec<u8> = Vec::new();
    out.push((a << 2) | (b >> 4));
    if c2 != 61 {
        out.push((b << 4) | (c >> 2));
    }
    if c3 != 61 {
        out.push((c << 6) | d);
    }
    assert(quad(out@) =~= want);
    Some(out)
}

/// Decodes standard Base64 with padding. The empty text, and any text that is
/// not the encoding of some bytes, is refused.
pub fn decode_base64(input: &str) -> (r: Option<Vec<u8>>)
    ensures
        r is Some ==> r->0@.len() > 0 && base64(r->0@) == encode_utf8(input@),
        r is None ==> forall|d: Seq<u8>| d.len() > 0 ==> #[trigger] base64(d) != encode_utf8(input@),
        (match r {
            Some(v) => Some(v@),
            None => None,
        }) == base64_decoded(encode_utf8(input@)),
{
    let bytes = input.as_bytes();
    let ghost b = encode_utf8(input@);
    let n = bytes.len() / 4;
    proof {
        assert forall|d: Seq<u8>| d.len() > 0 && #[trigger] base64(d) == b implies b.len() == 4 * n
            && n == group_count(d) && n > 0 by {
            assert(base64(d).len() == 4 * group_count(d));
        }
    }
    if bytes.len() == 0 || bytes.len() % 4 != 0 {
        return None;
    }
    let mut out: Vec<u8> = Vec::new();
    let mut k: usize = 0;
    while k < n
        invariant
            bytes@ == b,
            b == encode_utf8(input@),
            b.len() == 4 * n,
            n == bytes.len() / 4,
            k <= n,
            k < n ==> out@.len() == 3 * k,
            k == n ==> 3 * k - 2 <= out@.len() <= 3 * k,
            forall|j: int|
                0 <= j < k ==> #[trigger] quad(group(out@, j)) == b.subrange(4 * j, 4 * j + 4),
            forall|d: Seq<u8>| d.len() > 0 && #[trigger] base64(d) == b ==> n == group_count(d),
        decreases n - k,
    {
        let ghost q = b.subrange(4 * k, 4 * k + 4);
        let (c0, c1, c2, c3) = (bytes[4 * k], bytes[4 * k + 1], bytes[4 * k + 2], bytes[4 * k + 3]);
        assert(q =~= seq![c0, c1, c2, c3]);
        let piece = decode_quad(c0, c1, c2, c3);
        let ghost before = out@;
        match piece {
            None => {
                proof {
                    assert forall|d: Seq<u8>| d.len() > 0 implies #[trigger] base64(d) != b by {
                        if base64(d) == b {
                            lemma_base64_group(d, k as int);
                            assert(quad(group(d, k as int)) == q);
                        }
                    }
                }
                return None;
            },
            Some(mut g) => {
                let ghost gv = g@;
                if g.len() < 3 && k + 1 < n {
                    proof {
                        assert forall|d: Seq<u8>| d.len() > 0 implies #[trigger] base64(d) != b by {
                            if base64(d) == b {
                                lemma_base64_group(d, k as int);
                                lemma_quad_injective(group(d, k as int), gv);
                            }
                        }
                    }
                    return None;
                }
                out.append(&mut g);
                proof {
                    assert(out@ =~= before + gv);
                    assert(group(out@, k as int) =~= gv);
                    assert forall|j: int| 0 <= j < k implies #[trigger] quad(group(out@, j))
                        == b.subrange(4 * j, 4 * j + 4) by {
                        assert(group(out@, j) =~= group(before, j));
                        assert(quad(group(before, j)) == b.subrange(4 * j, 4 * j + 4));
                    }
                }
            },
        }
        k += 1;
    }
    proof {
        assert(group_count(out@) == n);
        let e = base64(out@);
        assert forall|i: int| 0 <= i < b.len() implies e[i] == b[i] by {
            let j = i / 4;
            assert(quad(group(out@, j)) == b.subrange(4 * j, 4 * j + 4));
            assert(b.subrange(4 * j, 4 * j + 4)[i % 4] == b[i]);
        }
        assert(e =~= b);
        law_base64_round_trip(out@);
    }
    Some(out)
}

// ---------------------------------------------------------------------------
// Messages
// ---------------------------------------------------------------------------

/// A message from a remote shell.
#[derive(Debug)]
pub enum GtMessage {
    /// A file changed.
    Event { kind: ChangeKind, path: String, tool: Option<String> },
    /// A piece of a file.
    FileChunk { path: String, seq: u32, last: bool, data: Vec<u8> },
}

/// The contents of a message.
pub ghost enum Message {
    Event { kind: ChangeKind, path: Seq<char>, tool: Option<Seq<char>> },
    FileChunk { path: Seq<char>, seq: u32, last: bool, data: Seq<u8> },
}

impl View for GtMessage {
    type V = Message;

    open spec fn view(&self) -> Message {
        match *self {
            GtMessage::Event { kind, path, tool } => Message::Event {
                kind,
                path: path@,
                tool: match tool {
                    Some(t) => Some(t@),
                    None => None,
                },
            },
            GtMessage::FileChunk { path, seq, last, data } => Message::FileChunk {
                path: path@,
                seq,
                last,
                data: data@,
            },
        }
    }
}

/// The kind of change a value names.
pub open spec fn kind_named(value: Seq<char>) -> Option<ChangeKind> {
    if value == "new"@ {
        Some(ChangeKind::New)
    } else if value == "mod"@ {
        Some(ChangeKind::Modified)
    } else if value == "del"@ {
        Some(ChangeKind::Deleted)
    } else {
        None
    }
}

fn parse_kind(value: &str) -> (r: Option<ChangeKind>)
    ensures
        r == kind_named(value@),
{
    if same_text(value, "new") {
        Some(ChangeKind::New)
    } else if same_text(value, "mod") {
        Some(ChangeKind::Modified)
    } else if same_text(value, "del") {
        Some(ChangeKind::Deleted)
    } else {
        None
    }
}

/// The bytes a value encodes.
pub open spec fn value_bytes(value: Seq<char>) -> Option<Seq<u8>> {
    base64_decoded(encode_utf8(value))
}

/// The text a value encodes.
pub open spec fn value_text(value: Seq<char>) -> Option<Seq<char>> {
    match value_bytes(value) {
        Some(b) => if valid_utf8(b) {
            Some(decode_utf8(b))
        } else {
            None
        },
        None => None,
    }
}

/// Decodes a value that holds a text, such as a path.
fn text_from_b64(value: &str) -> (r: Option<String>)
    ensures
        (match r {
            Some(s) => Some(s@),
            None => None,
        }) == value_text(value@),
{
    match decode_base64(value) {
        Some(b) => from_utf8(b),
        None => None,
    }
}

/// What the fields of a message have said so far.
pub ghost struct Fields {
    pub kind: Option<ChangeKind>,
    pub path: Option<Seq<char>>,
    pub tool: Option<Seq<char>>,
    pub seq: Option<u32>,
    pub last: Option<bool>,
    pub data: Option<Seq<u8>>,
}

pub open spec fn no_fields() -> Fields {
    Fields { kind: None, path: None, tool: None, seq: None, last: None, data: None }
}

/// The effect of one field `key=value`; `None` if the value is malformed.
/// Fields with other keys say nothing.
pub open spec fn with_field(f: Fields, key: Seq<char>, value: Seq<char>) -> Option<Fields> {
    if key == "kind"@ {
        match kind_named(value) {
            Some(k) => Some(Fields { kind: Some(k), ..f }),
            None => None,
        }
    } else if key == "path"@ {
        match value_text(value) {
            Some(p) => Some(Fields { path: Some(p), ..f }),
            None => None,
        }
    } else if key == "tool"@ {
        match value_text(value) {
            Some(t) => Some(Fields { tool: Some(t), ..f }),
            None => None,
        }
    } else if key == "seq"@ {
        match u32_value(value) {
            Some(n) => Some(Fields { seq: Some(n), ..f }),
            None => None,
        }
    } else if key == "last"@ {
        if value == "0"@ {
            Some(Fields { last: Some(false), ..f })
        } else if value == "1"@ {
            Some(Fields { last: Some(true), ..f })
        } else {
            None
        }
    } else if key == "data"@ {
        match value_bytes(value) {
            Some(d) => Some(Fields { data: Some(d), ..f }),
            None => None,
        }
    } else {
        Some(f)
    }
}

/// What a list of fields says; `None` if one of them is malformed.
pub open spec fn all_fields(fields: Seq<Seq<char>>) -> Option<Fields>
    decreases fields.len(),
{
    if fields.len() == 0 {
        Some(no_fields())
    } else {
        match all_fields(fields.drop_last()) {
            Some(f) => {
                let s = fields.last();
                let k = next_at(s, '=', 0);
                if k >= s.len() {
                    None
                } else {
                    with_field(f, s.subrange(0, k), s.subrange(k + 1, s.len() as int))
                }
            },
            None => None,
        }
    }
}

/// The message a payload holds: its type, then fields, all separated by
/// semicolons; `None` if the type is unknown, a field is malformed, or one
/// that the type needs is missing.
pub open spec fn message_in(payload: Seq<char>) -> Option<Message> {
    let parts = pieces(payload, ';');
    match all_fields(parts.subrange(1, parts.len() as int)) {
        None => None,
        Some(f) => if parts[0] == "event"@ {
            if f.kind is Some && f.path is Some {
                Some(Message::Event { kind: f.kind->0, path: f.path->0, tool: f.tool })
            } else {
                None
            }
        } else if parts[0] == "file"@ {
            if f.path is Some && f.seq is Some && f.last is Some && f.data is Some {
                Some(
                    Message::FileChunk {
                        path: f.path->0,
                        seq: f.seq->0,
                        last: f.last->0,
                        data: f.data->0,
                    },
                )
            } else {
                None
            }
        } else {
            None
        },
    }
}

/// The fields read so far.
struct Collected {
    kind: Option<ChangeKind>,
    path: Option<String>,
    tool: Option<String>,
    seq: Option<u32>,
    last: Option<bool>,
    data: Option<Vec<u8>>,
}

impl Collected {
    spec fn fields(&self) -> Fields {
        Fields {
            kind: self.kind,
            path: match self.path {
                Some(p) => Some(p@),
                None => None,
            },
            tool: match self.tool {
                Some(t) => Some(t@),
                None => None,
            },
            seq: self.seq,
            last: self.last,
            data: match self.data {
                Some(d) => Some(d@),
                None => None,
            },
        }
    }

    /// Takes one field; `false` if its value is malformed.
    fn set(&mut self, key: &str, value: &str) -> (r: bool)
        ensures
            r == with_field(old(self).fields(), key@, value@) is Some,
            r ==> with_field(old(self).fields(), key@, value@) == Some(final(self).fields()),
    {
        if same_text(key, "kind") {
            self.kind = parse_kind(value);
            self.kind.is_some()
        } else if same_text(key, "path") {
            self.path = text_from_b64(value);
            self.path.is_some()
        } else if same_text(key, "tool") {
            self.tool = text_from_b64(value);
            self.tool.is_some()
        } else if same_text(key, "seq") {
            self.seq = parse_u32(value);
            self.seq.is_some()
        } else if same_text(key, "last") {
            if same_text(value, "0") {
                self.last = Some(false);
                true
            } else if same_text(value, "1") {
                self.last = Some(true);
                true
            } else {
                false
            }
        } else if same_text(key, "data") {
            self.data = decode_base64(value);
            self.data.is_some()
        } else {
            true
        }
    }
}

/// Once a field is malformed, so is every longer list.
proof fn lemma_malformed(fields: Seq<Seq<char>>, k: int)
    requires
        0 <= k <= fields.len(),
        all_fields(fields.subrange(0, k)) is None,
    ensures
        all_fields(fields) is None,
    decreases fields.len() - k,
{
    if k < fields.len() {
        assert(fields.subrange(0, k + 1).drop_last() =~= fields.subrange(0, k));
        lemma_malformed(fields, k + 1);
    } else {
        assert(fields.subrange(0, k) =~= fields);
    }
}

/// Reads the message in a payload.
pub fn parse_gt_message(payload: &str) -> (r: Option<GtMessage>)
    ensures
        (match r {
            Some(m) => Some(m@),
            None => None,
        }) == message_in(payload@),
{
    let parts = split_at_char(payload, ';');
    let ghost all = texts(parts@);
    let ghost fields = all.subrange(1, all.len() as int);
    let mut c = Collected { kind: None, path: None, tool: None, seq: None, last: None, data: None };
    let mut i: usize = 1;
    assert(fields.subrange(0, 0) =~= Seq::empty());
    while i < parts.len()
        invariant
            1 <= i <= parts.len(),
            all == texts(parts@),
            all == pieces(payload@, ';'),
            fields == all.subrange(1, all.len() as int),
            all_fields(fields.subrange(0, i - 1)) == Some(c.fields()),
        decreases parts.len() - i,
    {
        let field = chars_of(parts[i].as_str());
        let k = find_next(&field, '=', 0);
        proof {
            assert(fields[i - 1] == all[i as int]);
            assert(fields.subrange(0, i as int).drop_last() =~= fields.subrange(0, i - 1));
            assert(fields.subrange(0, i as int).last() == field@);
        }
        if k >= field.len() {
            proof {
                lemma_malformed(fields, i as int);
            }
            return None;
        }
        let key = string_between(&field, 0, k);
        let value = string_between(&field, k + 1, field.len());
        if !c.set(key.as_str(), value.as_str()) {
            proof {
                lemma_malformed(fields, i as int);
            }
            return None;
        }
        i += 1;
    }
    assert(fields.subrange(0, i - 1) =~= fields);
    let typ = parts[0].as_str();
    assert(typ@ == all[0]);
    if same_text(typ, "event") {
        match (c.kind, c.path) {
            (Some(kind), Some(path)) => Some(GtMessage::Event { kind, path, tool: c.tool }),
            _ => None,
        }
    } else if same_text(typ, "file") {
        match (c.path, c.seq, c.last, c.data) {
            (Some(path), Some(seq), Some(last), Some(data)) => Some(
                GtMessage::FileChunk { path, seq, last, data },
            ),
            _ => None,
        }
    } else {
        None
    }
}

// ---------------------------------------------------------------------------
// Files in pieces
// ---------------------------------------------------------------------------

/// Puts the pieces of a file together.
#[derive(Debug)]
pub struct GtFileAssembler {
    pub path: Option<String>,
    pub next_seq: u32,
    pub data: Vec<u8>,
    pub broken: bool,
}

/// The contents of an assembler: the file under way, the number of its next
/// piece, and what it has so far.
pub ghost struct Assembly {
    pub path: Option<Seq<char>>,
    pub next_seq: u32,
    pub data: Seq<u8>,
    pub broken: bool,
}

impl View for GtFileAssembler {
    type V = Assembly;

    open spec fn view(&self) -> Assembly {
        Assembly {
            path: match self.path {
                Some(p) => Some(p@),
                None => None,
            },
            next_seq: self.next_seq,
            data: self.data@,
            broken: self.broken,
        }
    }
}

/// No file is under way.
pub open spec fn idle() -> Assembly {
    Assembly { path: None, next_seq: 0, data: Seq::empty(), broken: false }
}

/// The state in which the piece with number `seq` is looked at: the first
/// piece of a file starts over.
pub open spec fn started(a: Assembly, path: Seq<char>, seq: u32) -> Assembly {
    if seq == 0 {
        Assembly { path: Some(path), next_seq: 0, data: Seq::empty(), broken: false }
    } else {
        a
    }
}

/// The effect of a piece: the next state, and the file if it is complete. A
/// piece of another file, out of order, or that makes the file too long drops
/// the file.
pub open spec fn after_piece(a: Assembly, path: Seq<char>, seq: u32, last: bool, chunk: Seq<u8>) -> (
    Assembly,
    Option<(Seq<char>, Seq<u8>)>,
) {
    let s = started(a, path, seq);
    if s.path is None {
        (s, None)
    } else if s.broken || !path_eq(s.path->0, path) || seq != s.next_seq || s.data.len()
        + chunk.len() > GT_FILE_MAX_BYTES {
        (idle(), None)
    } else if seq == u32::MAX {
        (Assembly { next_seq: 0, data: s.data + chunk, broken: true, ..s }, None)
    } else if last {
        (idle(), Some((s.path->0, s.data + chunk)))
    } else {
        (Assembly { next_seq: (seq + 1) as u32, data: s.data + chunk, ..s }, None)
    }
}

impl Default for GtFileAssembler {
    fn default() -> (r: Self)
        ensures
            r@ == idle(),
    {
        GtFileAssembler { path: None, next_seq: 0, data: Vec::new(), broken: false }
    }
}

impl GtFileAssembler {
    /// Takes a piece of a file; gives the file when it is complete.
    pub fn push(&mut self, path: String, seq: u32, last: bool, chunk: Vec<u8>) -> (r: Option<
        (String, Vec<u8>),
    >)
        ensures
            final(self)@ == after_piece(old(self)@, path@, seq, last, chunk@).0,
            (match r {
                Some((p, d)) => Some((p@, d@)),
                None => None,
            }) == after_piece(old(self)@, path@, seq, last, chunk@).1,
            old(self)@.data.len() <= GT_FILE_MAX_BYTES ==> final(self)@.data.len()
                <= GT_FILE_MAX_BYTES,
            r is Some ==> (r->0).1@.len() <= GT_FILE_MAX_BYTES,
    {
        if seq == 0 {
            self.path = Some(path.clone());
            self.next_seq = 0;
            self.data.clear();
            self.broken = false;
        }
        let ghost s = self@;
        assert(s == started(old(self)@, path@, seq));
        let same = match &self.path {
            Some(current) => same_path(current.as_str(), path.as_str()),
            None => {
                return None;
            },
        };
        if self.broken || !same || seq != self.next_seq {
            self.reset();
            return None;
        }
        if chunk.len() > GT_FILE_MAX_BYTES || self.data.len() > GT_FILE_MAX_BYTES - chunk.len() {
            self.reset();
            return None;
        }
        let mut rest = chunk;
        self.data.append(&mut rest);
        assert(self.data@ == s.data + chunk@);
        if self.next_seq == u32::MAX {
            self.next_seq = 0;
            self.broken = true;
            return None;
        }
        self.next_seq = self.next_seq + 1;
        if last {
            let done_path = self.path.take();
            let mut done_data: Vec<u8> = Vec::new();
            std::mem::swap(&mut done_data, &mut self.data);
            self.next_seq = 0;
            match done_path {
                Some(p) => Some((p, done_data)),
                None => None,
            }
        } else {
            None
        }
    }

    fn reset(&mut self)
        ensures
            final(self)@ == idle(),
    {
        self.path = None;
        self.next_seq = 0;
        self.data.clear();
        self.broken = false;
        assert(self.data@ =~= Seq::empty());
    }
}

/// The pieces of a file one after the other.
pub open spec fn joined_pieces(chunks: Seq<Seq<u8>>) -> Seq<u8>
    decreases chunks.len(),
{
    if chunks.len() == 0 {
        Seq::empty()
    } else {
        joined_pieces(chunks.drop_last()) + chunks.last()
    }
}

/// The state after the pieces `chunks` of a file, numbered from zero, none of
/// them the last.
pub open spec fn after_pieces(a: Assembly, path: Seq<char>, chunks: Seq<Seq<u8>>) -> Assembly
    decreases chunks.len(),
{
    if chunks.len() == 0 {
        a
    } else {
        after_piece(
            after_pieces(a, path, chunks.drop_last()),
            path,
            (chunks.len() - 1) as u32,
            false,
            chunks.last(),
        ).0
    }
}

proof fn lemma_joined_grows(chunks: Seq<Seq<u8>>)
    requires
        chunks.len() > 0,
    ensures
        joined_pieces(chunks).len() == joined_pieces(chunks.drop_last()).len() + chunks.last().len(),
{
}

proof fn lemma_under_way(a: Assembly, path: Seq<char>, chunks: Seq<Seq<u8>>)
    requires
        0 < chunks.len() < u32::MAX,
        joined_pieces(chunks).len() <= GT_FILE_MAX_BYTES,
    ensures
        after_pieces(a, path, chunks) == (Assembly {
            path: Some(path),
            next_seq: chunks.len() as u32,
            data: joined_pieces(chunks),
            broken: false,
        }),
    decreases chunks.len(),
{
    let rest = chunks.drop_last();
    lemma_joined_grows(chunks);
    if rest.len() > 0 {
        lemma_under_way(a, path, rest);
    } else {
        assert(joined_pieces(rest) =~= Seq::empty());
        assert(Seq::<u8>::empty() + chunks.last() =~= joined_pieces(chunks));
    }
}

/// A file that is not too long arrives whole, whatever came before it: its
/// pieces in order, the last one marked, give its path and its contents.
pub proof fn law_file_arrives(a: Assembly, path: Seq<char>, chunks: Seq<Seq<u8>>, end: Seq<u8>)
    requires
        chunks.len() < u32::MAX,
        joined_pieces(chunks.push(end)).len() <= GT_FILE_MAX_BYTES,
    ensures
        ({
            let (next, file) = after_piece(
                after_pieces(a, path, chunks),
                path,
                chunks.len() as u32,
                true,
                end,
            );
            &&& file == Some((path, joined_pieces(chunks.push(end))))
            &&& next == idle()
        }),
{
    let all = chunks.push(end);
    assert(all.drop_last() =~= chunks);
    lemma_joined_grows(all);
    if chunks.len() > 0 {
        lemma_under_way(a, path, chunks);
    } else {
        assert(joined_pieces(chunks) =~= Seq::empty());
    }
}

/// A file with a piece missing does not arrive: a later piece than the next
/// one drops it.
pub proof fn law_gap_drops_file(a: Assembly, path: Seq<char>, seq: u32, last: bool, chunk: Seq<u8>)
    requires
        seq != 0,
        seq != a.next_seq,
    ensures
        after_piece(a, path, seq, last, chunk).1 is None,
        a.path is Some ==> after_piece(a, path, seq, last, chunk).0 == idle(),
{
}

} // verus!
