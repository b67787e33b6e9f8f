//! Source map v3 `mappings`: each segment is `[genCol, srcIdx, srcLine,
//! srcCol]`, every field relative to the previous segment, written in base64
//! VLQ (a single source, index 0).
use vstd::prelude::*;
use crate::json::{json_quote, json_string};
use crate::text::{push_char, repeat_char};

verus! {

/// One mapping; every field is 0-based.
#[derive(Debug, Clone, Copy, PartialEq, Eq, Structural)]
pub struct Mapping {
    pub gen_line: u32,
    pub gen_col: u32,
    pub src_line: u32,
    pub src_col: u32,
}

/// The base64 digit for `d < 64` (`A-Z a-z 0-9 + /`).
pub open spec fn b64(d: nat) -> char {
    if d < 26 {
        (65 + d) as char
    } else if d < 52 {
        (97 + (d - 26)) as char
    } else if d < 62 {
        (48 + (d - 52)) as char
    } else if d == 62 {
        '+'
    } else {
        '/'
    }
}

/// The value of a base64 digit (inverse of [`b64`]).
pub open spec fn b64_value(c: char) -> nat {
    let x = c as int;
    if 65 <= x <= 90 {
        (x - 65) as nat
    } else if 97 <= x <= 122 {
        (x - 97 + 26) as nat
    } else if 48 <= x <= 57 {
        (x - 48 + 52) as nat
    } else if c == '+' {
        62
    } else {
        63
    }
}

/// A signed value with its sign moved into the lowest bit.
pub open spec fn zigzag(v: int) -> nat {
    if v < 0 { (-v * 2 + 1) as nat } else { (v * 2) as nat }
}

pub open spec fn unzigzag(n: nat) -> int {
    if n % 2 == 1 { -((n / 2) as int) } else { (n / 2) as int }
}

/// Five bits per digit, least significant first; the continuation bit (32)
/// marks every digit but the last.
pub open spec fn vlq_digits(n: nat) -> Seq<char>
    decreases n,
{
    if n / 32 == 0 {
        seq![b64(n % 32)]
    } else {
        seq![b64(n % 32 + 32)] + vlq_digits(n / 32)
    }
}

/// The VLQ text of a signed value.
pub open spec fn vlq(v: int) -> Seq<char> {
    vlq_digits(zigzag(v))
}

/// Reads the digits back.
pub open spec fn vlq_read(s: Seq<char>) -> nat
    decreases s.len(),
{
    if s.len() == 0 {
        0
    } else {
        let d = b64_value(s[0]);
        if d >= 32 {
            (d - 32) as nat + 32 * vlq_read(s.drop_first())
        } else {
            d
        }
    }
}

proof fn lemma_b64_roundtrip(d: nat)
    requires
        d < 64,
    ensures
        b64_value(b64(d)) == d,
{
}

/// Decoding an encoded value gives the value back.
pub proof fn law_vlq_roundtrip(v: int)
    ensures
        unzigzag(vlq_read(vlq(v))) == v,
{
    lemma_vlq_digits_roundtrip(zigzag(v));
}

proof fn lemma_vlq_digits_roundtrip(n: nat)
    ensures
        vlq_read(vlq_digits(n)) == n,
    decreases n,
{
    if n / 32 == 0 {
        lemma_b64_roundtrip(n % 32);
    } else {
        lemma_b64_roundtrip(n % 32 + 32);
        lemma_vlq_digits_roundtrip(n / 32);
        let s = vlq_digits(n);
        assert(s.drop_first() =~= vlq_digits(n / 32));
    }
}

fn b64_char(d: u64) -> (c: char)
    requires
        d < 64,
    ensures
        c == b64(d as nat),
{
    if d < 26 {
        ((65 + d) as u8) as char
    } else if d < 52 {
        ((97 + (d - 26)) as u8) as char
    } else if d < 62 {
        ((48 + (d - 52)) as u8) as char
    } else if d == 62 {
        '+'
    } else {
        '/'
    }
}

/// Appends the VLQ text of `value`.
pub fn vlq_encode(value: i64, out: &mut String)
    requires
        value != i64::MIN,
    ensures
        final(out)@ == old(out)@ + vlq(value as int),
{
    let mut v: u64 = if value < 0 {
        ((-value) as u64) * 2 + 1
    } else {
        (value as u64) * 2
    };
    let ghost out0 = out@;
    assert(v == zigzag(value as int));
    assert(out0 + vlq(value as int) =~= out@ + vlq_digits(v as nat));
    loop
        invariant_except_break
            out0 + vlq(value as int) == out@ + vlq_digits(v as nat),
        ensures
            out@ == out0 + vlq(value as int),
        decreases v,
    {
        let mut digit = v % 32;
        let rest = v / 32;
        let ghost n = v as nat;
        v = rest;
        if v != 0 {
            digit = digit + 32;
        }
        push_char(out, b64_char(digit));
        if v == 0 {
            assert(vlq_digits(n) =~= seq![b64(n % 32)]);
            assert(out0 + vlq(value as int) =~= out@);
            break;
        }
        assert(vlq_digits(n) =~= seq![b64(n % 32 + 32)] + vlq_digits(n / 32));
        assert(out0 + vlq(value as int) =~= out@ + vlq_digits(v as nat));
    }
}

/// The mappings text from the segment state reached so far: the current
/// generated line, the previous generated column (reset at each new line),
/// the previous source line and column, and whether the line has no segment yet.
pub open spec fn encode_from(ms: Seq<Mapping>, line: int, gen_col: int, src_line: int, src_col: int, first: bool) -> Seq<char>
    decreases ms.len(),
{
    if ms.len() == 0 {
        Seq::empty()
    } else {
        let m = ms[0];
        let new_line = m.gen_line > line;
        let pgc = if new_line { 0 } else { gen_col };
        let fresh = if new_line { true } else { first };
        let semis = if new_line { repeat_char(';', (m.gen_line - line) as nat) } else { Seq::empty() };
        let comma = if fresh { Seq::empty() } else { seq![','] };
        semis + comma + vlq(m.gen_col - pgc) + vlq(0) + vlq(m.src_line - src_line) + vlq(m.src_col - src_col)
            + encode_from(ms.drop_first(), if new_line { m.gen_line as int } else { line },
                m.gen_col as int, m.src_line as int, m.src_col as int, false)
    }
}

/// The text that one mapping contributes, given the state before it.
pub open spec fn segment(m: Mapping, line: int, gen_col: int, src_line: int, src_col: int, first: bool) -> Seq<char> {
    let new_line = m.gen_line > line;
    let pgc = if new_line { 0 } else { gen_col };
    let fresh = if new_line { true } else { first };
    let semis = if new_line { repeat_char(';', (m.gen_line - line) as nat) } else { Seq::empty() };
    let comma = if fresh { Seq::empty() } else { seq![','] };
    semis + comma + vlq(m.gen_col - pgc) + vlq(0) + vlq(m.src_line - src_line) + vlq(m.src_col - src_col)
}

fn push_segment(out: &mut String, m: Mapping, line: u32, gen_col: i64, src_line: i64, src_col: i64, first: bool)
    requires
        0 <= gen_col <= u32::MAX,
        0 <= src_line <= u32::MAX,
        0 <= src_col <= u32::MAX,
    ensures
        final(out)@ == old(out)@ + segment(m, line as int, gen_col as int, src_line as int, src_col as int, first),
{
    let ghost out0 = out@;
    let mut pgc = gen_col;
    let mut fresh = first;
    let mut k: u32 = line;
    while k < m.gen_line
        invariant
            line <= k,
            k <= m.gen_line || k == line,
            out@ == out0 + repeat_char(';', (k - line) as nat),
        decreases m.gen_line - k,
    {
        push_char(out, ';');
        assert(out0 + repeat_char(';', (k + 1 - line) as nat) =~= (out0 + repeat_char(';', (k - line) as nat)).push(';'));
        k = k + 1;
    }
    if m.gen_line > line {
        pgc = 0;
        fresh = true;
    } else {
        assert(repeat_char(';', 0) =~= Seq::<char>::empty());
    }
    let ghost out1 = out@;
    if !fresh {
        push_char(out, ',');
    }
    vlq_encode(m.gen_col as i64 - pgc, out);
    vlq_encode(0, out);
    vlq_encode(m.src_line as i64 - src_line, out);
    vlq_encode(m.src_col as i64 - src_col, out);
    assert(out@ =~= out0 + segment(m, line as int, gen_col as int, src_line as int, src_col as int, first));
}

/// Encodes mappings (ordered by generated line and column) as a `mappings` string.
pub fn encode_mappings(mappings: &[Mapping]) -> (r: String)
    ensures
        r@ == encode_from(mappings@, 0, 0, 0, 0, true),
{
    let mut out = String::new();
    let mut cur_line: u32 = 0;
    let mut prev_gen_col: i64 = 0;
    let mut prev_src_line: i64 = 0;
    let mut prev_src_col: i64 = 0;
    let mut first_in_line = true;
    let mut i: usize = 0;
    assert(mappings@.subrange(0, mappings@.len() as int) =~= mappings@);
    assert(out@ + encode_from(mappings@, 0, 0, 0, 0, true) =~= encode_from(mappings@, 0, 0, 0, 0, true));
    while i < mappings.len()
        invariant
            i <= mappings@.len(),
            0 <= prev_gen_col <= u32::MAX,
            0 <= prev_src_line <= u32::MAX,
            0 <= prev_src_col <= u32::MAX,
            out@ + encode_from(mappings@.subrange(i as int, mappings@.len() as int), cur_line as int,
                prev_gen_col as int, prev_src_line as int, prev_src_col as int, first_in_line)
                == encode_from(mappings@, 0, 0, 0, 0, true),
        decreases mappings@.len() - i,
    {
        let m = mappings[i];
        let ghost rest = mappings@.subrange(i as int, mappings@.len() as int);
        let ghost out0 = out@;
        let ghost st = (cur_line as int, prev_gen_col as int, prev_src_line as int, prev_src_col as int, first_in_line);
        assert(rest[0] == m);
        push_segment(&mut out, m, cur_line, prev_gen_col, prev_src_line, prev_src_col, first_in_line);
        if m.gen_line > cur_line {
            cur_line = m.gen_line;
        }
        prev_gen_col = m.gen_col as i64;
        prev_src_line = m.src_line as i64;
        prev_src_col = m.src_col as i64;
        first_in_line = false;
        i = i + 1;
        proof {
            assert(rest.drop_first() =~= mappings@.subrange(i as int, mappings@.len() as int));
            let tail = encode_from(rest.drop_first(), cur_line as int, prev_gen_col as int,
                prev_src_line as int, prev_src_col as int, false);
            let seg = segment(m, st.0, st.1, st.2, st.3, st.4);
            assert(encode_from(rest, st.0, st.1, st.2, st.3, st.4) == seg + tail);
            assert(out@ + tail =~= out0 + (seg + tail));
        }
    }
    assert(mappings@.subrange(mappings@.len() as int, mappings@.len() as int) =~= Seq::<Mapping>::empty());
    assert(out@ + Seq::<char>::empty() =~= out@);
    out
}

/// The source map v3 document, as `serde_json`'s pretty printer writes the
/// object (keys in sorted order, two-space indentation), and a final line
/// break.
pub open spec fn source_map_text(ts_file: Seq<char>, src_file: Seq<char>, source: Seq<char>, mappings: Seq<char>) -> Seq<char> {
    "{\n  \"file\": "@ + json_quote(ts_file)
        + ",\n  \"mappings\": "@ + json_quote(mappings)
        + ",\n  \"names\": [],\n  \"sources\": [\n    "@ + json_quote(src_file)
        + "\n  ],\n  \"sourcesContent\": [\n    "@ + json_quote(source)
        + "\n  ],\n  \"version\": 3\n}\n"@
}

/// The source map of `ts_file`, generated from `src_file` (whose text is
/// `source`), with `mappings` ordered by generated line and column.
pub fn build_map(ts_file: &str, src_file: &str, source: &str, mappings: &[Mapping]) -> (r: String)
    ensures
        r@ == source_map_text(ts_file@, src_file@, source@, encode_from(mappings@, 0, 0, 0, 0, true)),
{
    let encoded = encode_mappings(mappings);
    let mut s = String::new();
    s.append("{\n  \"file\": ");
    let q = json_string(ts_file);
    s.append(q.as_str());
    s.append(",\n  \"mappings\": ");
    let q = json_string(encoded.as_str());
    s.append(q.as_str());
    s.append(",\n  \"names\": [],\n  \"sources\": [\n    ");
    let q = json_string(src_file);
    s.append(q.as_str());
    s.append("\n  ],\n  \"sourcesContent\": [\n    ");
    let q = json_string(source);
    s.append(q.as_str());
    s.append("\n  ],\n  \"version\": 3\n}\n");
    assert(s@ =~= source_map_text(ts_file@, src_file@, source@, encode_from(mappings@, 0, 0, 0, 0, true)));
    s
}

} // verus!
