use vstd::prelude::*;
use crate::error::CT3DError;
use crate::volume::{IVec3, Vec3Bits, Volume, MAX_RESOLUTION};
use crate::codec::{
    payload_bytes,
    parse_payload,
    spec_payload_bytes,
    spec_payload_words,
    lemma_payload_roundtrip,
};

verus! {

// The text half of the on-disk volume format. A persisted volume is two
// ASCII header lines — the three half-extents, then the three per-axis
// cell counts — followed by the raw density payload. The cell-count line
// is integer text and is parsed and produced here, exactly; the
// half-extent line is floating-point text and is converted outside the
// library, passing through these functions as opaque bytes.

/// ASCII whitespace, as the header tokenizer understands it.
pub open spec fn is_space(b: u8) -> bool {
    b == 32 || b == 9 || b == 10 || b == 13
}

/// First index at or after `i` holding a non-space byte, or the length.
pub open spec fn spec_skip(s: Seq<u8>, i: int) -> int
    decreases s.len() - i,
{
    if i < 0 || i >= s.len() {
        s.len() as int
    } else if is_space(s[i]) {
        spec_skip(s, i + 1)
    } else {
        i
    }
}

/// First index at or after `i` holding a space byte, or the length.
pub open spec fn spec_end(s: Seq<u8>, i: int) -> int
    decreases s.len() - i,
{
    if i < 0 || i >= s.len() {
        s.len() as int
    } else if !is_space(s[i]) {
        spec_end(s, i + 1)
    } else {
        i
    }
}

/// The bytes in `[a, e)` are all decimal digits (and there is at least
/// one of them).
pub open spec fn spec_is_digits_range(s: Seq<u8>, a: int, e: int) -> bool {
    &&& 0 <= a < e <= s.len()
    &&& forall|i: int| a <= i < e ==> 48 <= #[trigger] s[i] <= 57
}

/// The number the digit bytes in `[a, e)` spell out.
pub open spec fn spec_dec_value_range(s: Seq<u8>, a: int, e: int) -> int
    decreases e - a,
{
    if e <= a {
        0
    } else {
        spec_dec_value_range(s, a, e - 1) * 10 + (s[e - 1] - 48)
    }
}

pub proof fn lemma_dec_value_nonneg(s: Seq<u8>, a: int, e: int)
    requires
        forall|i: int| a <= i < e ==> 48 <= #[trigger] s[i] <= 57,
    ensures
        spec_dec_value_range(s, a, e) >= 0,
    decreases e - a,
{
    if e > a {
        lemma_dec_value_nonneg(s, a, e - 1);
    }
}

/// Reading more digits never makes the number smaller.
pub proof fn lemma_dec_value_grows(s: Seq<u8>, a: int, k: int, e: int)
    requires
        a <= k <= e,
        forall|i: int| a <= i < e ==> 48 <= #[trigger] s[i] <= 57,
    ensures
        spec_dec_value_range(s, a, e) >= spec_dec_value_range(s, a, k),
    decreases e - k,
{
    if k < e {
        lemma_dec_value_grows(s, a, k, e - 1);
        lemma_dec_value_nonneg(s, a, e - 1);
    }
}

/// Parses the digit run `[a, e)` as a number no larger than `i32::MAX`:
/// the value, or `None` when a byte is not a digit, the run is empty, or
/// the value is too large.
pub fn parse_number_range(s: &Vec<u8>, a: usize, e: usize) -> (r: Option<i32>)
    requires
        a <= e <= s@.len(),
    ensures
        match r {
            Some(v) => {
                &&& spec_is_digits_range(s@, a as int, e as int)
                &&& v == spec_dec_value_range(s@, a as int, e as int)
                &&& 0 <= v
            },
            None => !spec_is_digits_range(s@, a as int, e as int)
                || spec_dec_value_range(s@, a as int, e as int) > i32::MAX,
        },
{
    if a == e {
        return None;
    }
    let mut acc: i32 = 0;
    let mut i: usize = a;
    while i < e
        invariant
            a <= i <= e <= s@.len(),
            0 <= acc,
            acc == spec_dec_value_range(s@, a as int, i as int),
            forall|j: int| a <= j < i ==> 48 <= #[trigger] s@[j] <= 57,
        decreases e - i,
    {
        let b = s[i];
        if b < 48 || b > 57 {
            return None;
        }
        let d: i32 = (b - 48) as i32;
        if acc > (0x7FFF_FFFF - d) / 10 {
            proof {
                assert(acc * 10 + d > 0x7FFF_FFFF) by (nonlinear_arith)
                    requires
                        acc > (0x7FFF_FFFF - d) / 10,
                        0 <= d <= 9,
                        acc >= 0,
                ;
                if spec_is_digits_range(s@, a as int, e as int) {
                    lemma_dec_value_grows(s@, a as int, i + 1, e as int);
                }
            }
            return None;
        }
        proof {
            assert(acc * 10 + d <= 0x7FFF_FFFF) by (nonlinear_arith)
                requires
                    acc <= (0x7FFF_FFFF - d) / 10,
                    0 <= d <= 9,
                    acc >= 0,
            ;
        }
        acc = acc * 10 + d;
        i = i + 1;
    }
    Some(acc)
}

/// The parse of a cell-count header line: `Some(x, y, z)` exactly when
/// the line holds three whitespace-separated decimal numbers, each
/// fitting `i32`, and nothing else.
pub open spec fn spec_res_line_parse(s: Seq<u8>) -> Option<(int, int, int)> {
    let a1 = spec_skip(s, 0);
    let e1 = spec_end(s, a1);
    let a2 = spec_skip(s, e1);
    let e2 = spec_end(s, a2);
    let a3 = spec_skip(s, e2);
    let e3 = spec_end(s, a3);
    if a1 < s.len() && a2 < s.len() && a3 < s.len() && spec_skip(s, e3) == s.len()
        && spec_is_digits_range(s, a1, e1) && spec_dec_value_range(s, a1, e1) <= i32::MAX
        && spec_is_digits_range(s, a2, e2) && spec_dec_value_range(s, a2, e2) <= i32::MAX
        && spec_is_digits_range(s, a3, e3) && spec_dec_value_range(s, a3, e3) <= i32::MAX {
        Some(
            (
                spec_dec_value_range(s, a1, e1),
                spec_dec_value_range(s, a2, e2),
                spec_dec_value_range(s, a3, e3),
            ),
        )
    } else {
        None
    }
}

/// Exec mirror of `spec_skip`.
fn skip_spaces(s: &Vec<u8>, from: usize) -> (r: usize)
    requires
        from <= s@.len(),
    ensures
        r == spec_skip(s@, from as int),
        from <= r <= s@.len(),
{
    let n = s.len();
    let mut i: usize = from;
    while i < n
        invariant
            from <= i <= n,
            n == s@.len(),
            spec_skip(s@, from as int) == spec_skip(s@, i as int),
        decreases n - i,
    {
        let b = s[i];
        if b != 32 && b != 9 && b != 10 && b != 13 {
            return i;
        }
        i = i + 1;
    }
    i
}

/// Exec mirror of `spec_end`.
fn token_end(s: &Vec<u8>, from: usize) -> (r: usize)
    requires
        from <= s@.len(),
    ensures
        r == spec_end(s@, from as int),
        from <= r <= s@.len(),
{
    let n = s.len();
    let mut i: usize = from;
    while i < n
        invariant
            from <= i <= n,
            n == s@.len(),
            spec_end(s@, from as int) == spec_end(s@, i as int),
        decreases n - i,
    {
        if s[i] == 32 || s[i] == 9 || s[i] == 10 || s[i] == 13 {
            return i;
        }
        i = i + 1;
    }
    i
}

/// Parses a cell-count header line: exactly three whitespace-separated
/// decimal numbers, each fitting `i32`; anything else is a format error.
#[allow(non_snake_case)]
pub fn text_to_IVec3(line: &Vec<u8>) -> (r: Result<IVec3, CT3DError>)
    ensures
        match r {
            Ok(v) => spec_res_line_parse(line@) == Some(
                (v.x as int, v.y as int, v.z as int),
            ),
            Err(_) => spec_res_line_parse(line@) is None,
        },
{
    let n = line.len();
    let a1 = skip_spaces(line, 0);
    if a1 == n {
        return Err(CT3DError::new(None));
    }
    let e1 = token_end(line, a1);
    let a2 = skip_spaces(line, e1);
    if a2 == n {
        return Err(CT3DError::new(None));
    }
    let e2 = token_end(line, a2);
    let a3 = skip_spaces(line, e2);
    if a3 == n {
        return Err(CT3DError::new(None));
    }
    let e3 = token_end(line, a3);
    let tail = skip_spaces(line, e3);
    if tail != n {
        return Err(CT3DError::new(None));
    }
    let x = match parse_number_range(line, a1, e1) {
        Some(v) => v,
        None => { return Err(CT3DError::new(None)); },
    };
    let y = match parse_number_range(line, a2, e2) {
        Some(v) => v,
        None => { return Err(CT3DError::new(None)); },
    };
    let z = match parse_number_range(line, a3, e3) {
        Some(v) => v,
        None => { return Err(CT3DError::new(None)); },
    };
    Ok(IVec3 { x, y, z })
}

// ---------------------------------------------------------------------
// Producing the cell-count line.

/// The decimal digits of a non-negative number, most significant first.
pub open spec fn spec_dec_digits(n: int) -> Seq<u8>
    decreases n,
{
    if n < 10 {
        seq![(48 + n) as u8]
    } else {
        spec_dec_digits(n / 10).push((48 + n % 10) as u8)
    }
}

pub proof fn lemma_dec_digits_are_digits(n: int)
    requires
        0 <= n,
    ensures
        spec_dec_digits(n).len() >= 1,
        forall|i: int|
            0 <= i < spec_dec_digits(n).len() ==> 48 <= #[trigger] spec_dec_digits(n)[i] <= 57,
    decreases n,
{
    if n >= 10 {
        lemma_dec_digits_are_digits(n / 10);
    }
}

/// A digit run spelling `spec_dec_digits(n)` parses back to `n`.
pub proof fn lemma_parse_digits(s: Seq<u8>, a: int, e: int, n: int)
    requires
        0 <= a <= e <= s.len(),
        0 <= n,
        s.subrange(a, e) == spec_dec_digits(n),
    ensures
        spec_is_digits_range(s, a, e),
        spec_dec_value_range(s, a, e) == n,
    decreases n,
{
    lemma_dec_digits_are_digits(n);
    let d = spec_dec_digits(n);
    assert(e - a == d.len());
    assert forall|i: int| a <= i < e implies 48 <= #[trigger] s[i] <= 57 by {
        assert(s[i] == d[i - a]);
    }
    if n < 10 {
        assert(s[a] == d[0]);
        assert(spec_dec_value_range(s, a, a) == 0);
        assert(spec_dec_value_range(s, a, e) == spec_dec_value_range(s, a, a) * 10 + (s[a]
            - 48));
    } else {
        assert(s.subrange(a, e - 1) =~= spec_dec_digits(n / 10)) by {
            assert forall|i: int| 0 <= i < e - 1 - a implies #[trigger] s.subrange(a, e - 1)[i]
                == spec_dec_digits(n / 10)[i] by {
                assert(s[a + i] == d[i]);
            }
        }
        lemma_parse_digits(s, a, e - 1, n / 10);
        assert(s[e - 1] == d[e - 1 - a]);
        assert(d[d.len() - 1] == (48 + n % 10) as u8);
        assert(spec_dec_value_range(s, a, e) == spec_dec_value_range(s, a, e - 1) * 10 + (s[e
            - 1] - 48));
        assert(spec_dec_value_range(s, a, e) == (n / 10) * 10 + n % 10);
    }
}

/// Formats a number as its decimal digits.
pub fn format_u32(n: u32) -> (r: Vec<u8>)
    ensures
        r@ == spec_dec_digits(n as int),
    decreases n,
{
    if n < 10 {
        let mut v: Vec<u8> = Vec::new();
        v.push(48 + (n as u8));
        proof {
            assert(v@ =~= spec_dec_digits(n as int));
        }
        v
    } else {
        let mut v = format_u32(n / 10);
        v.push(48 + ((n % 10) as u8));
        v
    }
}

/// The cell-count header line body: three numbers separated by single
/// spaces, no trailing newline.
pub open spec fn spec_res_line(x: int, y: int, z: int) -> Seq<u8> {
    spec_dec_digits(x) + seq![32u8] + spec_dec_digits(y) + seq![32u8] + spec_dec_digits(z)
}

/// Formats the cell-count header line body.
pub fn format_res_line(res: IVec3) -> (r: Vec<u8>)
    requires
        res.x >= 0,
        res.y >= 0,
        res.z >= 0,
    ensures
        r@ == spec_res_line(res.x as int, res.y as int, res.z as int),
{
    let mut out = format_u32(res.x as u32);
    out.push(32);
    let mut ty = format_u32(res.y as u32);
    out.append(&mut ty);
    out.push(32);
    let mut tz = format_u32(res.z as u32);
    out.append(&mut tz);
    proof {
        assert(out@ =~= spec_res_line(res.x as int, res.y as int, res.z as int));
    }
    out
}

/// No byte of the cell-count line is a newline, so the line survives the
/// header framing intact.
pub proof fn lemma_res_line_no_newline(x: int, y: int, z: int)
    requires
        0 <= x,
        0 <= y,
        0 <= z,
    ensures
        forall|i: int|
            0 <= i < spec_res_line(x, y, z).len() ==> #[trigger] spec_res_line(x, y, z)[i]
                != 10,
{
    lemma_dec_digits_are_digits(x);
    lemma_dec_digits_are_digits(y);
    lemma_dec_digits_are_digits(z);
}

/// The formatted cell-count line parses back to exactly its three
/// numbers.
pub proof fn lemma_res_line_parse(x: int, y: int, z: int)
    requires
        0 <= x <= i32::MAX,
        0 <= y <= i32::MAX,
        0 <= z <= i32::MAX,
    ensures
        spec_res_line_parse(spec_res_line(x, y, z)) == Some((x, y, z)),
{
    let dx = spec_dec_digits(x);
    let dy = spec_dec_digits(y);
    let dz = spec_dec_digits(z);
    let s = spec_res_line(x, y, z);
    let lx = dx.len() as int;
    let ly = dy.len() as int;
    let lz = dz.len() as int;
    lemma_dec_digits_are_digits(x);
    lemma_dec_digits_are_digits(y);
    lemma_dec_digits_are_digits(z);
    assert(s.len() == lx + ly + lz + 2);
    assert forall|i: int| 0 <= i < lx implies s[i] == dx[i] && !is_space(s[i]) by {}
    assert(s[lx] == 32);
    assert forall|i: int| 0 <= i < ly implies s[lx + 1 + i] == dy[i] && !is_space(s[lx + 1 + i])
        by {}
    assert(s[lx + 1 + ly] == 32);
    assert forall|i: int| 0 <= i < lz implies s[lx + ly + 2 + i] == dz[i] && !is_space(
        s[lx + ly + 2 + i],
    ) by {}
    lemma_skip_is(s, 0, 0);
    lemma_end_is(s, 0, lx);
    lemma_skip_is(s, lx, lx + 1);
    lemma_end_is(s, lx + 1, lx + 1 + ly);
    lemma_skip_is(s, lx + 1 + ly, lx + ly + 2);
    lemma_end_is(s, lx + ly + 2, s.len() as int);
    assert(s.subrange(0, lx) =~= dx);
    assert(s.subrange(lx + 1, lx + 1 + ly) =~= dy);
    assert(s.subrange(lx + ly + 2, s.len() as int) =~= dz);
    lemma_parse_digits(s, 0, lx, x);
    lemma_parse_digits(s, lx + 1, lx + 1 + ly, y);
    lemma_parse_digits(s, lx + ly + 2, s.len() as int, z);
}

/// `spec_skip` jumps over a known all-space run.
pub proof fn lemma_skip_is(s: Seq<u8>, i: int, e: int)
    requires
        0 <= i <= e <= s.len(),
        forall|j: int| i <= j < e ==> is_space(#[trigger] s[j]),
        e < s.len() ==> !is_space(s[e]),
    ensures
        spec_skip(s, i) == e,
    decreases e - i,
{
    if i < e {
        lemma_skip_is(s, i + 1, e);
    }
}

/// `spec_end` stops exactly at the end of a known non-space run.
pub proof fn lemma_end_is(s: Seq<u8>, i: int, e: int)
    requires
        0 <= i <= e <= s.len(),
        forall|j: int| i <= j < e ==> !is_space(#[trigger] s[j]),
        e < s.len() ==> is_space(s[e]),
    ensures
        spec_end(s, i) == e,
    decreases e - i,
{
    if i < e {
        lemma_end_is(s, i + 1, e);
    }
}

// ---------------------------------------------------------------------
// Header framing: two newline-terminated lines, then the raw payload.

/// First index at or after `i` holding a newline, or the length.
pub open spec fn spec_find_nl(s: Seq<u8>, i: int) -> int
    decreases s.len() - i,
{
    if i < 0 || i >= s.len() {
        s.len() as int
    } else if s[i] == 10 {
        i
    } else {
        spec_find_nl(s, i + 1)
    }
}

/// `spec_find_nl` lands on the first newline after a known newline-free
/// run.
pub proof fn lemma_find_nl_is(s: Seq<u8>, i: int, e: int)
    requires
        0 <= i <= e <= s.len(),
        forall|j: int| i <= j < e ==> #[trigger] s[j] != 10,
        e < s.len() ==> s[e] == 10,
    ensures
        spec_find_nl(s, i) == e,
    decreases e - i,
{
    if i < e {
        lemma_find_nl_is(s, i + 1, e);
    }
}

/// Splits a serialized volume file at its first two newlines: the two
/// header lines (newlines not included) and the raw payload after them.
/// `None` exactly when the file has fewer than two newlines.
pub open spec fn spec_split_header(s: Seq<u8>) -> Option<(Seq<u8>, Seq<u8>, Seq<u8>)> {
    let p1 = spec_find_nl(s, 0);
    if p1 == s.len() {
        None
    } else {
        let p2 = spec_find_nl(s, p1 + 1);
        if p2 == s.len() {
            None
        } else {
            Some(
                (
                    s.subrange(0, p1),
                    s.subrange(p1 + 1, p2),
                    s.subrange(p2 + 1, s.len() as int),
                ),
            )
        }
    }
}

/// Exec mirror of `spec_find_nl`.
fn find_nl(s: &Vec<u8>, from: usize) -> (r: usize)
    requires
        from <= s@.len(),
    ensures
        r == spec_find_nl(s@, from as int),
        from <= r <= s@.len(),
{
    let n = s.len();
    let mut i: usize = from;
    while i < n
        invariant
            from <= i <= n,
            n == s@.len(),
            spec_find_nl(s@, from as int) == spec_find_nl(s@, i as int),
        decreases n - i,
    {
        if s[i] == 10 {
            return i;
        }
        i = i + 1;
    }
    i
}

/// A copy of the bytes in `[a, e)`.
fn copy_range(s: &Vec<u8>, a: usize, e: usize) -> (r: Vec<u8>)
    requires
        a <= e <= s@.len(),
    ensures
        r@ == s@.subrange(a as int, e as int),
{
    let mut out: Vec<u8> = Vec::new();
    let mut i: usize = a;
    while i < e
        invariant
            a <= i <= e <= s@.len(),
            out@ =~= s@.subrange(a as int, i as int),
        decreases e - i,
    {
        out.push(s[i]);
        i = i + 1;
        proof {
            assert(out@ =~= s@.subrange(a as int, i as int));
        }
    }
    out
}

/// Splits a serialized volume file into its two header lines and raw
/// payload; fails exactly when fewer than two newlines are present.
pub fn split_header(bytes: &Vec<u8>) -> (r: Option<(Vec<u8>, Vec<u8>, Vec<u8>)>)
    ensures
        match r {
            Some(parts) => spec_split_header(bytes@) == Some(
                (parts.0@, parts.1@, parts.2@),
            ),
            None => spec_split_header(bytes@) is None,
        },
{
    let n = bytes.len();
    let p1 = find_nl(bytes, 0);
    if p1 == n {
        return None;
    }
    let p2 = find_nl(bytes, p1 + 1);
    if p2 == n {
        return None;
    }
    let l1 = copy_range(bytes, 0, p1);
    let l2 = copy_range(bytes, p1 + 1, p2);
    let rest = copy_range(bytes, p2 + 1, n);
    Some((l1, l2, rest))
}

// ---------------------------------------------------------------------
// The whole file, both directions.

/// The serialized form of a volume, given the externally formatted
/// half-extent line (newline-free): the two newline-terminated header
/// lines followed by the density payload.
pub open spec fn spec_serialize(v: Volume, radii_line: Seq<u8>) -> Seq<u8> {
    radii_line + seq![10u8] + spec_res_line(v.res.x as int, v.res.y as int, v.res.z as int)
        + seq![10u8] + spec_payload_bytes(v.data@)
}

/// Serializes a volume around the externally formatted half-extent line.
pub fn serialize_bytes(v: &Volume, radii_line: &Vec<u8>) -> (r: Vec<u8>)
    requires
        v.wf(),
        forall|i: int| 0 <= i < radii_line@.len() ==> #[trigger] radii_line@[i] != 10,
    ensures
        r@ == spec_serialize(*v, radii_line@),
{
    let n = radii_line.len();
    let mut out = copy_range(radii_line, 0, n);
    out.push(10);
    let mut line2 = format_res_line(v.res);
    out.append(&mut line2);
    out.push(10);
    let mut payload = payload_bytes(&v.data);
    out.append(&mut payload);
    proof {
        assert(out@ =~= spec_serialize(*v, radii_line@));
    }
    out
}

/// What a parsed cell-count line and payload must amount to: counts in
/// range, payload a whole number of samples, and exactly one sample per
/// cell.
pub open spec fn spec_assemble(res_line: Seq<u8>, payload: Seq<u8>) -> Option<(IVec3, Seq<u32>)> {
    match spec_res_line_parse(res_line) {
        Some((x, y, z)) => {
            if 1 <= x <= MAX_RESOLUTION && 1 <= y <= MAX_RESOLUTION && 1 <= z <= MAX_RESOLUTION
                && payload.len() % 4 == 0 && payload.len() / 4 == (x * y) * z {
                Some(
                    (
                        IVec3 { x: x as i32, y: y as i32, z: z as i32 },
                        spec_payload_words(payload),
                    ),
                )
            } else {
                None
            }
        },
        None => None,
    }
}

/// Builds a volume from the parsed pieces of a serialized file: the
/// half-extent bits (parsed outside the library), the cell-count line and
/// the raw payload. Fails exactly when the line is not three numbers,
/// a count is out of range, the payload is not whole samples, or the
/// sample count does not match the grid.
pub fn assemble_volume(radii: Vec3Bits, res_line: &Vec<u8>, payload: &Vec<u8>) -> (r: Result<
    Volume,
    CT3DError,
>)
    ensures
        match r {
            Ok(v) => {
                &&& v.wf()
                &&& v.radii == radii
                &&& spec_assemble(res_line@, payload@) == Some((v.res, v.data@))
            },
            Err(_) => spec_assemble(res_line@, payload@) is None,
        },
{
    let res = match text_to_IVec3(res_line) {
        Ok(v) => v,
        Err(e) => { return Err(e); },
    };
    if res.x < 1 || res.x > MAX_RESOLUTION || res.y < 1 || res.y > MAX_RESOLUTION || res.z < 1
        || res.z > MAX_RESOLUTION {
        return Err(CT3DError::new(None));
    }
    let data = match parse_payload(payload) {
        Ok(d) => d,
        Err(e) => { return Err(e); },
    };
    proof {
        assert(1 <= (res.x as int) * (res.y as int) <= 0x1_0000_0000_0000) by (nonlinear_arith)
            requires
                1 <= res.x as int <= 0x100_0000,
                1 <= res.y as int <= 0x100_0000,
        ;
    }
    let a: u64 = (res.x as u64) * (res.y as u64);
    let cnt: u64 = data.len() as u64;
    if cnt % a != 0 {
        proof {
            assert(cnt != a * (res.z as u64)) by (nonlinear_arith)
                requires
                    a >= 1,
                    cnt % a != 0,
            ;
        }
        return Err(CT3DError::new(None));
    }
    if cnt / a != res.z as u64 {
        proof {
            assert(cnt != a * (res.z as u64)) by (nonlinear_arith)
                requires
                    a >= 1,
                    cnt % a == 0,
                    cnt / a != res.z as u64,
            ;
        }
        return Err(CT3DError::new(None));
    }
    proof {
        assert(cnt == a * (res.z as u64)) by (nonlinear_arith)
            requires
                a >= 1,
                cnt % a == 0,
                cnt / a == res.z as u64,
        ;
    }
    Ok(Volume { radii, res, data })
}

/// Serializing a well-formed volume and taking the file apart again
/// reproduces it exactly — header framing, cell counts and every density
/// sample bit for bit. (The half-extent line passes through the framing
/// untouched; its float text is parsed outside the library.)
pub proof fn lemma_serialize_roundtrip(v: Volume, radii_line: Seq<u8>)
    requires
        v.wf(),
        forall|i: int| 0 <= i < radii_line.len() ==> #[trigger] radii_line[i] != 10,
    ensures
        spec_split_header(spec_serialize(v, radii_line)) == Some(
            (
                radii_line,
                spec_res_line(v.res.x as int, v.res.y as int, v.res.z as int),
                spec_payload_bytes(v.data@),
            ),
        ),
        spec_assemble(
            spec_res_line(v.res.x as int, v.res.y as int, v.res.z as int),
            spec_payload_bytes(v.data@),
        ) == Some((v.res, v.data@)),
{
    let x = v.res.x as int;
    let y = v.res.y as int;
    let z = v.res.z as int;
    let line2 = spec_res_line(x, y, z);
    let payload = spec_payload_bytes(v.data@);
    let file = spec_serialize(v, radii_line);
    let p1 = radii_line.len() as int;
    let p2 = p1 + 1 + line2.len();
    lemma_res_line_no_newline(x, y, z);
    assert(file.len() == p2 + 1 + payload.len());
    assert(file[p1] == 10);
    assert(file[p2] == 10);
    assert forall|j: int| 0 <= j < p1 implies #[trigger] file[j] != 10 by {
        assert(file[j] == radii_line[j]);
    }
    assert forall|j: int| p1 + 1 <= j < p2 implies #[trigger] file[j] != 10 by {
        assert(file[j] == line2[j - (p1 + 1)]);
    }
    lemma_find_nl_is(file, 0, p1);
    lemma_find_nl_is(file, p1 + 1, p2);
    assert(file.subrange(0, p1) =~= radii_line);
    assert(file.subrange(p1 + 1, p2) =~= line2);
    assert(file.subrange(p2 + 1, file.len() as int) =~= payload);
    lemma_res_line_parse(x, y, z);
    lemma_payload_roundtrip(v.data@);
    assert(payload.len() / 4 == v.data@.len());
    assert((x as i32) == v.res.x && (y as i32) == v.res.y && (z as i32) == v.res.z);
    assert(spec_payload_words(payload) == v.data@);
}

} // verus!
