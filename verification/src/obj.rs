//! A verified parser for a Wavefront OBJ subset.
//!
//! The input is taken line by line. A `v` line carries a vertex position and
//! a `vn` line a vertex normal, each as exactly three decimal float fields; an
//! `f` line carries a triangle as exactly three `p//n` references whose two
//! 1-based indices must agree; any other line is ignored. Fields are
//! separated by ASCII whitespace (see `is_space`). Coordinates are kept as
//! the validated source bytes of each field — the mesh consumer, which owns
//! the floating-point pipeline, converts them when it uploads the mesh.

use vstd::prelude::*;
use vstd::slice::slice_index_get;
use vstd::slice::slice_subrange;
use vstd::string::StringSliceAdditionalSpecFns;

verus! {

/// `std::io::Error`, declared so that `ObjError::Io` can carry the cause of a
/// failed read. Nothing is assumed about it.
#[verifier::external_type_specification]
#[verifier::external_body]
pub struct ExIoError(std::io::Error);

/// Why a load failed: an unreadable source, a malformed record, or a
/// recognized but unsupported construct (a face reference whose position and
/// normal index differ).
#[derive(Debug)]
pub enum ObjError {
    Io(std::io::Error),
    SyntaxError,
    NotSupported,
}

impl From<std::io::Error> for ObjError {
    fn from(err: std::io::Error) -> (r: ObjError) {
        ObjError::Io(err)
    }
}

impl vstd::std_specs::convert::FromSpecImpl<std::io::Error> for ObjError {
    open spec fn obeys_from_spec() -> bool {
        true
    }

    open spec fn from_spec(err: std::io::Error) -> ObjError {
        ObjError::Io(err)
    }
}

/// The spec-level failures of parsing itself (reading the source can
/// additionally fail with `ObjError::Io`, which parsing never produces).
pub ghost enum ParseErr {
    Syntax,
    Unsupported,
}

/// One vertex position: the three coordinate fields exactly as they stood in
/// the source line, each validated against the decimal float grammar
/// (`is_float_field`). The numeric interpretation belongs to the renderer.
#[derive(Debug, PartialEq, Eq)]
pub struct Vertex {
    pub position: (Vec<u8>, Vec<u8>, Vec<u8>),
}

impl View for Vertex {
    type V = (Seq<u8>, Seq<u8>, Seq<u8>);

    open spec fn view(&self) -> Self::V {
        (self.position.0@, self.position.1@, self.position.2@)
    }
}

impl From<(Vec<u8>, Vec<u8>, Vec<u8>)> for Vertex {
    fn from(p: (Vec<u8>, Vec<u8>, Vec<u8>)) -> (v: Vertex) {
        Vertex { position: p }
    }
}

impl vstd::std_specs::convert::FromSpecImpl<(Vec<u8>, Vec<u8>, Vec<u8>)> for Vertex {
    open spec fn obeys_from_spec() -> bool {
        true
    }

    open spec fn from_spec(p: (Vec<u8>, Vec<u8>, Vec<u8>)) -> Vertex {
        Vertex { position: p }
    }
}

/// One vertex normal, held like `Vertex`: three validated float fields.
#[derive(Debug, PartialEq, Eq)]
pub struct Normal {
    pub normal: (Vec<u8>, Vec<u8>, Vec<u8>),
}

impl View for Normal {
    type V = (Seq<u8>, Seq<u8>, Seq<u8>);

    open spec fn view(&self) -> Self::V {
        (self.normal.0@, self.normal.1@, self.normal.2@)
    }
}

impl From<(Vec<u8>, Vec<u8>, Vec<u8>)> for Normal {
    fn from(n: (Vec<u8>, Vec<u8>, Vec<u8>)) -> (r: Normal) {
        Normal { normal: n }
    }
}

impl vstd::std_specs::convert::FromSpecImpl<(Vec<u8>, Vec<u8>, Vec<u8>)> for Normal {
    open spec fn obeys_from_spec() -> bool {
        true
    }

    open spec fn from_spec(n: (Vec<u8>, Vec<u8>, Vec<u8>)) -> Normal {
        Normal { normal: n }
    }
}

/// A parsed mesh: positions in `v`-line order, normals in `vn`-line order,
/// and the flat triangle index list, three indices per face. Each index
/// refers to one position and the same-numbered normal.
#[derive(Debug)]
pub struct Obj {
    pub vertices: Vec<Vertex>,
    pub normals: Vec<Normal>,
    pub indices: Vec<u16>,
}

/// The mathematical content of an `Obj`.
#[verifier::ext_equal]
pub ghost struct ObjView {
    pub positions: Seq<(Seq<u8>, Seq<u8>, Seq<u8>)>,
    pub normals: Seq<(Seq<u8>, Seq<u8>, Seq<u8>)>,
    pub indices: Seq<u16>,
}

impl View for Obj {
    type V = ObjView;

    open spec fn view(&self) -> ObjView {
        ObjView {
            positions: self.vertices@.map_values(|v: Vertex| v@),
            normals: self.normals@.map_values(|n: Normal| n@),
            indices: self.indices@,
        }
    }
}

/// Every index refers to an existing position and an existing normal.
pub open spec fn indices_in_range(ind: Seq<u16>, np: int, nn: int) -> bool {
    forall|k: int| 0 <= k < ind.len() ==> (#[trigger] ind[k]) < np && ind[k] < nn
}

impl ObjView {
    /// The mesh invariant: the triangle list is whole faces and every index
    /// is in range for both the positions and the normals.
    pub open spec fn wf(self) -> bool {
        self.indices.len() % 3 == 0 && indices_in_range(
            self.indices,
            self.positions.len() as int,
            self.normals.len() as int,
        )
    }
}

// ---------------------------------------------------------------------------
// Byte classes
// ---------------------------------------------------------------------------

/// The whitespace that separates fields within a line: space, tab, carriage
/// return, vertical tab and form feed. This is deliberately the ASCII
/// whitespace class and nothing wider: the OBJ records this parser accepts
/// are ASCII, and a field carrying some other Unicode separator fails the
/// float grammar and rejects the line rather than silently splitting it.
pub open spec fn is_space(b: u8) -> bool {
    b == 32 || b == 9 || b == 13 || b == 11 || b == 12
}

/// An ASCII decimal digit.
pub open spec fn is_digit(b: u8) -> bool {
    48 <= b && b <= 57
}

/// ASCII upper case folded to lower case; other bytes unchanged.
pub open spec fn to_lower(b: u8) -> u8 {
    if 65 <= b && b <= 90 {
        (b + 32) as u8
    } else {
        b
    }
}

fn byte_is_space(b: u8) -> (r: bool)
    ensures
        r == is_space(b),
{
    b == 32 || b == 9 || b == 13 || b == 11 || b == 12
}

fn byte_is_digit(b: u8) -> (r: bool)
    ensures
        r == is_digit(b),
{
    48 <= b && b <= 57
}

// ---------------------------------------------------------------------------
// The float field grammar
// ---------------------------------------------------------------------------
//
// A coordinate field is valid when it matches the grammar that `f32`'s
// `FromStr` documents:
//
//     Float  ::= Sign? ( 'inf' | 'infinity' | 'nan' | Number )
//     Number ::= Count '.'? Count? Exp? | '.' Count Exp?
//     Exp    ::= ('e' | 'E') Sign? Count
//     Count  ::= Digit+
//
// with the three words matched case-insensitively. The predicates below state
// it over byte ranges `[lo, hi)` of a field.

/// All bytes of `s` in `[lo, hi)` are digits.
pub open spec fn all_digits_in(s: Seq<u8>, lo: int, hi: int) -> bool {
    forall|i: int| lo <= i < hi ==> is_digit(#[trigger] s[i])
}

/// The first index in `[i, hi)` whose byte is not a digit, or `hi`.
pub open spec fn digits_end(s: Seq<u8>, i: int, hi: int) -> int
    decreases hi - i,
    when i <= hi <= s.len()
{
    if i >= hi {
        hi
    } else if is_digit(s[i]) {
        digits_end(s, i + 1, hi)
    } else {
        i
    }
}

/// `[lo, hi)` of `s` reads as a mantissa: digits, an optional dot, and
/// optional further digits; or a dot followed by at least one digit.
pub open spec fn is_mantissa_in(s: Seq<u8>, lo: int, hi: int) -> bool {
    if hi <= lo {
        false
    } else if s[lo] == 46 {
        hi - lo >= 2 && all_digits_in(s, lo + 1, hi)
    } else {
        let d = digits_end(s, lo, hi);
        d > lo && (d == hi || (s[d] == 46 && all_digits_in(s, d + 1, hi)))
    }
}

/// The first index in `[i, hi)` holding `e` or `E`, or `hi`.
pub open spec fn first_e(s: Seq<u8>, i: int, hi: int) -> int
    decreases hi - i,
    when i <= hi <= s.len()
{
    if i >= hi {
        hi
    } else if s[i] == 101 || s[i] == 69 {
        i
    } else {
        first_e(s, i + 1, hi)
    }
}

/// `[lo, hi)` of `s` reads as an exponent body: an optional sign and at least
/// one digit.
pub open spec fn is_exponent_in(s: Seq<u8>, lo: int, hi: int) -> bool {
    let l2 = if lo < hi && (s[lo] == 43 || s[lo] == 45) {
        lo + 1
    } else {
        lo
    };
    l2 < hi && all_digits_in(s, l2, hi)
}

/// `[lo, hi)` of `s` spells `inf`, case-insensitively.
pub open spec fn is_inf_word(s: Seq<u8>, lo: int, hi: int) -> bool {
    hi - lo == 3 && to_lower(s[lo]) == 105 && to_lower(s[lo + 1]) == 110 && to_lower(s[lo + 2])
        == 102
}

/// `[lo, hi)` of `s` spells `infinity`, case-insensitively.
pub open spec fn is_infinity_word(s: Seq<u8>, lo: int, hi: int) -> bool {
    hi - lo == 8 && to_lower(s[lo]) == 105 && to_lower(s[lo + 1]) == 110 && to_lower(s[lo + 2])
        == 102 && to_lower(s[lo + 3]) == 105 && to_lower(s[lo + 4]) == 110 && to_lower(s[lo + 5])
        == 105 && to_lower(s[lo + 6]) == 116 && to_lower(s[lo + 7]) == 121
}

/// `[lo, hi)` of `s` spells `nan`, case-insensitively.
pub open spec fn is_nan_word(s: Seq<u8>, lo: int, hi: int) -> bool {
    hi - lo == 3 && to_lower(s[lo]) == 110 && to_lower(s[lo + 1]) == 97 && to_lower(s[lo + 2])
        == 110
}

/// The whole field `s` matches the float grammar above.
pub open spec fn is_float_field(s: Seq<u8>) -> bool {
    let lo = if s.len() > 0 && (s[0] == 43 || s[0] == 45) {
        1int
    } else {
        0int
    };
    let hi = s.len() as int;
    ||| is_inf_word(s, lo, hi)
    ||| is_infinity_word(s, lo, hi)
    ||| is_nan_word(s, lo, hi)
    ||| ({
        let e = first_e(s, lo, hi);
        if e == hi {
            is_mantissa_in(s, lo, hi)
        } else {
            is_mantissa_in(s, lo, e) && is_exponent_in(s, e + 1, hi)
        }
    })
}

// ---------------------------------------------------------------------------
// The float recognizer
// ---------------------------------------------------------------------------

fn byte_to_lower(b: u8) -> (r: u8)
    ensures
        r == to_lower(b),
{
    if 65 <= b && b <= 90 {
        b + 32
    } else {
        b
    }
}

/// First non-digit index in `[i, hi)` of `s`, or `hi`.
fn scan_digits(s: &[u8], i: usize, hi: usize) -> (r: usize)
    requires
        i <= hi <= s@.len(),
    ensures
        i <= r <= hi,
        r == digits_end(s@, i as int, hi as int),
{
    let mut j = i;
    while j < hi && byte_is_digit(*slice_index_get(s, j))
        invariant
            i <= j <= hi <= s@.len(),
            digits_end(s@, i as int, hi as int) == digits_end(s@, j as int, hi as int),
        decreases hi - j,
    {
        j += 1;
    }
    j
}

/// First `e` or `E` in `[i, hi)` of `s`, or `hi`.
fn scan_e(s: &[u8], i: usize, hi: usize) -> (r: usize)
    requires
        i <= hi <= s@.len(),
    ensures
        i <= r <= hi,
        r == first_e(s@, i as int, hi as int),
{
    let mut j = i;
    while j < hi && *slice_index_get(s, j) != 101 && *slice_index_get(s, j) != 69
        invariant
            i <= j <= hi <= s@.len(),
            first_e(s@, i as int, hi as int) == first_e(s@, j as int, hi as int),
        decreases hi - j,
    {
        j += 1;
    }
    j
}

fn check_all_digits(s: &[u8], lo: usize, hi: usize) -> (r: bool)
    requires
        lo <= hi <= s@.len(),
    ensures
        r == all_digits_in(s@, lo as int, hi as int),
{
    let mut j = lo;
    while j < hi
        invariant
            lo <= j <= hi <= s@.len(),
            forall|t: int| lo <= t < j ==> is_digit(#[trigger] s@[t]),
        decreases hi - j,
    {
        if !byte_is_digit(*slice_index_get(s, j)) {
            assert(!is_digit(s@[j as int]));
            return false;
        }
        j += 1;
    }
    true
}

fn check_mantissa(s: &[u8], lo: usize, hi: usize) -> (r: bool)
    requires
        lo <= hi <= s@.len(),
    ensures
        r == is_mantissa_in(s@, lo as int, hi as int),
{
    if hi <= lo {
        return false;
    }
    let b0 = *slice_index_get(s, lo);
    if b0 == 46 {
        hi - lo >= 2 && check_all_digits(s, lo + 1, hi)
    } else {
        let d = scan_digits(s, lo, hi);
        if d == lo {
            return false;
        }
        if d == hi {
            return true;
        }
        *slice_index_get(s, d) == 46 && check_all_digits(s, d + 1, hi)
    }
}

fn check_exponent(s: &[u8], lo: usize, hi: usize) -> (r: bool)
    requires
        lo <= hi <= s@.len(),
    ensures
        r == is_exponent_in(s@, lo as int, hi as int),
{
    let l2 = if lo < hi && (*slice_index_get(s, lo) == 43 || *slice_index_get(s, lo) == 45) {
        lo + 1
    } else {
        lo
    };
    if l2 >= hi {
        return false;
    }
    check_all_digits(s, l2, hi)
}

fn check_inf(s: &[u8], lo: usize) -> (r: bool)
    requires
        lo <= s@.len(),
    ensures
        r == is_inf_word(s@, lo as int, s@.len() as int),
{
    let n = s.len();
    n - lo == 3 && byte_to_lower(*slice_index_get(s, lo)) == 105 && byte_to_lower(
        *slice_index_get(s, lo + 1),
    ) == 110 && byte_to_lower(*slice_index_get(s, lo + 2)) == 102
}

fn check_infinity(s: &[u8], lo: usize) -> (r: bool)
    requires
        lo <= s@.len(),
    ensures
        r == is_infinity_word(s@, lo as int, s@.len() as int),
{
    let n = s.len();
    n - lo == 8 && byte_to_lower(*slice_index_get(s, lo)) == 105 && byte_to_lower(
        *slice_index_get(s, lo + 1),
    ) == 110 && byte_to_lower(*slice_index_get(s, lo + 2)) == 102 && byte_to_lower(
        *slice_index_get(s, lo + 3),
    ) == 105 && byte_to_lower(*slice_index_get(s, lo + 4)) == 110 && byte_to_lower(
        *slice_index_get(s, lo + 5),
    ) == 105 && byte_to_lower(*slice_index_get(s, lo + 6)) == 116 && byte_to_lower(
        *slice_index_get(s, lo + 7),
    ) == 121
}

fn check_nan(s: &[u8], lo: usize) -> (r: bool)
    requires
        lo <= s@.len(),
    ensures
        r == is_nan_word(s@, lo as int, s@.len() as int),
{
    let n = s.len();
    n - lo == 3 && byte_to_lower(*slice_index_get(s, lo)) == 110 && byte_to_lower(
        *slice_index_get(s, lo + 1),
    ) == 97 && byte_to_lower(*slice_index_get(s, lo + 2)) == 110
}

/// Whether one coordinate field matches the float grammar; see
/// `is_float_field`.
pub fn field_is_float(field: &[u8]) -> (r: bool)
    ensures
        r == is_float_field(field@),
{
    let n = field.len();
    let lo: usize = if n > 0 && (*slice_index_get(field, 0) == 43 || *slice_index_get(field, 0)
        == 45) {
        1
    } else {
        0
    };
    if check_inf(field, lo) || check_infinity(field, lo) || check_nan(field, lo) {
        return true;
    }
    let e = scan_e(field, lo, n);
    if e == n {
        check_mantissa(field, lo, n)
    } else {
        check_mantissa(field, lo, e) && check_exponent(field, e + 1, n)
    }
}

// ---------------------------------------------------------------------------
// Tokenizing
// ---------------------------------------------------------------------------

/// The whitespace-separated fields of `s` from index `i` on, given the
/// partial field `cur` and the fields `acc` already taken.
pub open spec fn fields_from(s: Seq<u8>, i: int, cur: Seq<u8>, acc: Seq<Seq<u8>>) -> Seq<Seq<u8>>
    decreases s.len() - i,
    when 0 <= i
{
    if i >= s.len() {
        if cur.len() > 0 {
            acc.push(cur)
        } else {
            acc
        }
    } else if is_space(s[i]) {
        if cur.len() > 0 {
            fields_from(s, i + 1, Seq::empty(), acc.push(cur))
        } else {
            fields_from(s, i + 1, cur, acc)
        }
    } else {
        fields_from(s, i + 1, cur.push(s[i]), acc)
    }
}

/// The whitespace-separated fields of a line, in order.
pub open spec fn fields_of(s: Seq<u8>) -> Seq<Seq<u8>> {
    fields_from(s, 0, Seq::empty(), Seq::empty())
}

/// The parts of `s` split on each occurrence of `//`, scanning left to
/// right; always at least one part, and empty parts are kept.
pub open spec fn slash_parts_from(s: Seq<u8>, i: int, cur: Seq<u8>, acc: Seq<Seq<u8>>) -> Seq<
    Seq<u8>,
>
    decreases s.len() - i,
    when 0 <= i
{
    if i >= s.len() {
        acc.push(cur)
    } else if i + 1 < s.len() && s[i] == 47 && s[i + 1] == 47 {
        slash_parts_from(s, i + 2, Seq::empty(), acc.push(cur))
    } else {
        slash_parts_from(s, i + 1, cur.push(s[i]), acc)
    }
}

/// The parts of `s` split on `//`.
pub open spec fn slash_parts(s: Seq<u8>) -> Seq<Seq<u8>> {
    slash_parts_from(s, 0, Seq::empty(), Seq::empty())
}

fn split_fields(line: &[u8]) -> (r: Vec<Vec<u8>>)
    ensures
        r.deep_view() == fields_of(line@),
{
    let mut acc: Vec<Vec<u8>> = Vec::new();
    let mut cur: Vec<u8> = Vec::new();
    let mut i: usize = 0;
    proof {
        assert(acc.deep_view() =~~= Seq::<Seq<u8>>::empty());
        assert(cur@ =~= Seq::<u8>::empty());
    }
    while i < line.len()
        invariant
            i <= line@.len(),
            fields_of(line@) == fields_from(line@, i as int, cur@, acc.deep_view()),
        decreases line@.len() - i,
    {
        let b = *slice_index_get(line, i);
        if byte_is_space(b) {
            if cur.len() > 0 {
                let ghost old_acc = acc.deep_view();
                let ghost old_cur = cur@;
                acc.push(cur);
                cur = Vec::new();
                proof {
                    assert(acc.deep_view() =~~= old_acc.push(old_cur));
                }
            }
        } else {
            cur.push(b);
        }
        i += 1;
    }
    if cur.len() > 0 {
        let ghost old_acc = acc.deep_view();
        let ghost old_cur = cur@;
        acc.push(cur);
        proof {
            assert(acc.deep_view() =~~= old_acc.push(old_cur));
        }
    }
    acc
}

fn split_slashes(s: &[u8]) -> (r: Vec<Vec<u8>>)
    ensures
        r.deep_view() == slash_parts(s@),
{
    let mut acc: Vec<Vec<u8>> = Vec::new();
    let mut cur: Vec<u8> = Vec::new();
    let mut i: usize = 0;
    proof {
        assert(acc.deep_view() =~~= Seq::<Seq<u8>>::empty());
        assert(cur@ =~= Seq::<u8>::empty());
    }
    while i < s.len()
        invariant
            i <= s@.len(),
            slash_parts(s@) == slash_parts_from(s@, i as int, cur@, acc.deep_view()),
        decreases s@.len() - i,
    {
        if i + 1 < s.len() && *slice_index_get(s, i) == 47 && *slice_index_get(s, i + 1) == 47 {
            let ghost old_acc = acc.deep_view();
            let ghost old_cur = cur@;
            acc.push(cur);
            cur = Vec::new();
            proof {
                assert(acc.deep_view() =~~= old_acc.push(old_cur));
            }
            i += 2;
        } else {
            cur.push(*slice_index_get(s, i));
            i += 1;
        }
    }
    let ghost old_acc = acc.deep_view();
    let ghost old_cur = cur@;
    acc.push(cur);
    proof {
        assert(acc.deep_view() =~~= old_acc.push(old_cur));
    }
    acc
}

// ---------------------------------------------------------------------------
// Indices
// ---------------------------------------------------------------------------

/// The value of the digit run `[i, len)` of `s` on top of `acc`, or `None`
/// when a byte is not a digit or the value leaves `u16`.
pub open spec fn dec_val(s: Seq<u8>, i: int, acc: int) -> Option<u16>
    decreases s.len() - i,
    when 0 <= i && 0 <= acc <= 65535
{
    if i >= s.len() {
        Some(acc as u16)
    } else if is_digit(s[i]) {
        if acc * 10 + (s[i] - 48) > 65535 {
            None
        } else {
            dec_val(s, i + 1, acc * 10 + (s[i] - 48))
        }
    } else {
        None
    }
}

/// The `u16` a field denotes: an optional `+`, then at least one digit, with
/// the value within `u16`; `None` otherwise.
pub open spec fn spec_parse_u16(s: Seq<u8>) -> Option<u16> {
    let lo = if s.len() > 0 && s[0] == 43 {
        1int
    } else {
        0int
    };
    if s.len() <= lo {
        None
    } else {
        dec_val(s, lo, 0)
    }
}

fn parse_u16(s: &[u8]) -> (r: Option<u16>)
    ensures
        r == spec_parse_u16(s@),
{
    let n = s.len();
    let lo: usize = if n > 0 && *slice_index_get(s, 0) == 43 {
        1
    } else {
        0
    };
    if n <= lo {
        return None;
    }
    let mut i = lo;
    let mut acc: u32 = 0;
    while i < n
        invariant
            lo <= i <= n == s@.len(),
            acc <= 65535,
            spec_parse_u16(s@) == dec_val(s@, i as int, acc as int),
        decreases n - i,
    {
        let b = *slice_index_get(s, i);
        if !byte_is_digit(b) {
            return None;
        }
        let a2: u32 = acc * 10 + ((b - 48) as u32);
        if a2 > 65535 {
            return None;
        }
        acc = a2;
        i += 1;
    }
    Some(acc as u16)
}

/// What one face-vertex token such as `7//7` denotes. The token is split on
/// `//`; every part must read as a nonzero `u16`, there must be exactly two
/// parts, and both must agree — the common index, made 0-based, is the
/// result. A part that is no index (or the 1-based `0`) is a syntax error;
/// two well-formed but different indices are the unsupported general OBJ
/// form with independent normal indexing.
pub open spec fn spec_parse_index(tok: Seq<u8>) -> Result<u16, ParseErr> {
    let parts = slash_parts(tok);
    if exists|k: int|
        0 <= k < parts.len() && spec_parse_u16(#[trigger] parts[k]) is None {
        Err(ParseErr::Syntax)
    } else if exists|k: int|
        0 <= k < parts.len() && spec_parse_u16(#[trigger] parts[k]) == Some(0u16) {
        Err(ParseErr::Syntax)
    } else if parts.len() != 2 {
        Err(ParseErr::Syntax)
    } else if spec_parse_u16(parts[0]) != spec_parse_u16(parts[1]) {
        Err(ParseErr::Unsupported)
    } else {
        Ok((spec_parse_u16(parts[0])->Some_0 - 1) as u16)
    }
}

/// How an exec error mirrors a spec-level parse failure.
pub open spec fn err_matches(e: ObjError, m: ParseErr) -> bool {
    match e {
        ObjError::SyntaxError => m == ParseErr::Syntax,
        ObjError::NotSupported => m == ParseErr::Unsupported,
        ObjError::Io(_) => false,
    }
}

/// Parses one face-vertex token; see `spec_parse_index`.
pub fn parse_index(s: &[u8]) -> (r: Result<u16, ObjError>)
    ensures
        match r {
            Ok(v) => spec_parse_index(s@) == Ok::<u16, ParseErr>(v),
            Err(e) => spec_parse_index(s@) is Err && err_matches(e, spec_parse_index(s@)->Err_0),
        },
{
    let parts = split_slashes(s);
    let ghost pdv = parts.deep_view();
    let mut vals: Vec<u16> = Vec::new();
    let mut k: usize = 0;
    while k < parts.len()
        invariant
            pdv == slash_parts(s@),
            pdv == parts.deep_view(),
            k <= parts@.len() == pdv.len(),
            vals@.len() == k,
            forall|j: int|
                0 <= j < k ==> spec_parse_u16(#[trigger] pdv[j]) == Some(vals@[j]) && vals@[j]
                    != 0,
        decreases parts@.len() - k,
    {
        proof {
            assert(pdv[k as int] == parts@[k as int].deep_view());
            assert(parts@[k as int].deep_view() =~= parts@[k as int]@);
        }
        match parse_u16(vec_u8_as_slice(&parts, k)) {
            None => {
                assert(spec_parse_u16(pdv[k as int]) is None);
                return Err(ObjError::SyntaxError);
            },
            Some(v) => {
                if v == 0 {
                    assert(spec_parse_u16(pdv[k as int]) == Some(0u16));
                    return Err(ObjError::SyntaxError);
                }
                vals.push(v);
            },
        }
        k += 1;
    }
    if parts.len() != 2 {
        return Err(ObjError::SyntaxError);
    }
    let a = vals[0];
    let b = vals[1];
    if a != b {
        return Err(ObjError::NotSupported);
    }
    Ok(a - 1)
}

/// Reads element `k` of a split result as a slice.
fn vec_u8_as_slice(parts: &Vec<Vec<u8>>, k: usize) -> (r: &[u8])
    requires
        k < parts@.len(),
    ensures
        r@ == parts@[k as int]@,
{
    parts[k].as_slice()
}

// ---------------------------------------------------------------------------
// Records
// ---------------------------------------------------------------------------

/// What a `v` or `vn` line denotes: after the record tag, exactly three
/// fields, each matching the float grammar; the fields themselves are the
/// value. Anything else is a syntax error.
pub open spec fn spec_parse_vec(line: Seq<u8>) -> Option<(Seq<u8>, Seq<u8>, Seq<u8>)> {
    let fs = fields_of(line);
    if fs.len() == 4 && is_float_field(fs[1]) && is_float_field(fs[2]) && is_float_field(fs[3]) {
        Some((fs[1], fs[2], fs[3]))
    } else {
        None
    }
}

/// Parses the three coordinate fields of a `v` or `vn` line; see
/// `spec_parse_vec`.
fn parse_vec(line: &[u8]) -> (r: Result<(Vec<u8>, Vec<u8>, Vec<u8>), ObjError>)
    ensures
        match r {
            Ok(t) => spec_parse_vec(line@) == Some((t.0@, t.1@, t.2@)),
            Err(e) => spec_parse_vec(line@) is None && e is SyntaxError,
        },
{
    let mut fs = split_fields(line);
    let ghost fdv = fs.deep_view();
    if fs.len() != 4 {
        return Err(ObjError::SyntaxError);
    }
    proof {
        assert(fs@[1].deep_view() =~= fs@[1]@);
        assert(fs@[2].deep_view() =~= fs@[2]@);
        assert(fs@[3].deep_view() =~= fs@[3]@);
    }
    let c3 = fs.pop().unwrap();
    let c2 = fs.pop().unwrap();
    let c1 = fs.pop().unwrap();
    if field_is_float(c1.as_slice()) && field_is_float(c2.as_slice()) && field_is_float(
        c3.as_slice(),
    ) {
        Ok((c1, c2, c3))
    } else {
        Err(ObjError::SyntaxError)
    }
}

/// The indices of the face-vertex tokens `toks[k..]`, appended to `acc`; the
/// first failing token decides the error.
pub open spec fn face_indices_from(toks: Seq<Seq<u8>>, k: int, acc: Seq<u16>) -> Result<
    Seq<u16>,
    ParseErr,
>
    decreases toks.len() - k,
    when 0 <= k
{
    if k >= toks.len() {
        Ok(acc)
    } else {
        match spec_parse_index(toks[k]) {
            Err(e) => Err(e),
            Ok(v) => face_indices_from(toks, k + 1, acc.push(v)),
        }
    }
}

/// What an `f` line denotes: after the tag, face-vertex tokens that all
/// parse (the first failing token decides the error), and exactly three of
/// them — a triangle.
pub open spec fn spec_parse_face(line: Seq<u8>) -> Result<Seq<u16>, ParseErr> {
    match face_indices_from(fields_of(line), 1, Seq::empty()) {
        Err(e) => Err(e),
        Ok(vs) => if vs.len() == 3 {
            Ok(vs)
        } else {
            Err(ParseErr::Syntax)
        },
    }
}

/// Parses the three indices of an `f` line; see `spec_parse_face`.
pub fn parse_face(line: &[u8]) -> (r: Result<Vec<u16>, ObjError>)
    ensures
        match r {
            Ok(v) => spec_parse_face(line@) == Ok::<Seq<u16>, ParseErr>(v@),
            Err(e) => spec_parse_face(line@) is Err && err_matches(e, spec_parse_face(line@)->Err_0),
        },
{
    let fs = split_fields(line);
    let ghost fdv = fs.deep_view();
    let mut out: Vec<u16> = Vec::new();
    let mut k: usize = 1;
    while k < fs.len()
        invariant
            fdv == fields_of(line@),
            fdv == fs.deep_view(),
            1 <= k,
            k <= fs@.len() || k == 1,
            face_indices_from(fdv, 1, Seq::empty()) == face_indices_from(fdv, k as int, out@),
        decreases fs@.len() - k,
    {
        proof {
            assert(fdv[k as int] == fs@[k as int].deep_view());
            assert(fs@[k as int].deep_view() =~= fs@[k as int]@);
        }
        match parse_index(vec_u8_as_slice(&fs, k)) {
            Ok(v) => {
                out.push(v);
            },
            Err(e) => {
                return Err(e);
            },
        }
        k += 1;
    }
    if out.len() != 3 {
        return Err(ObjError::SyntaxError);
    }
    Ok(out)
}

// ---------------------------------------------------------------------------
// The whole input
// ---------------------------------------------------------------------------

/// The first index at or after `i` holding a newline, or the end of `s`.
pub open spec fn line_end(s: Seq<u8>, i: int) -> int
    decreases s.len() - i,
    when 0 <= i
{
    if i >= s.len() {
        s.len() as int
    } else if s[i] == 10 {
        i
    } else {
        line_end(s, i + 1)
    }
}

proof fn lemma_line_end(s: Seq<u8>, i: int)
    requires
        0 <= i <= s.len(),
    ensures
        i <= line_end(s, i) <= s.len(),
    decreases s.len() - i,
{
    if i < s.len() && s[i] != 10 {
        lemma_line_end(s, i + 1);
    }
}

/// A mesh with nothing in it yet.
pub open spec fn empty_obj() -> ObjView {
    ObjView { positions: Seq::empty(), normals: Seq::empty(), indices: Seq::empty() }
}

/// The line starts with the vertex-position tag `v` and a space.
pub open spec fn starts_v(line: Seq<u8>) -> bool {
    line.len() >= 2 && line[0] == 118 && line[1] == 32
}

/// The line starts with the vertex-normal tag `vn` and a space.
pub open spec fn starts_vn(line: Seq<u8>) -> bool {
    line.len() >= 3 && line[0] == 118 && line[1] == 110 && line[2] == 32
}

/// The line starts with the face tag `f` and a space.
pub open spec fn starts_f(line: Seq<u8>) -> bool {
    line.len() >= 2 && line[0] == 102 && line[1] == 32
}

/// How one line changes the mesh built so far: a `v` line appends a
/// position, a `vn` line a normal, an `f` line three indices; any other line
/// changes nothing.
pub open spec fn spec_parse_line(line: Seq<u8>, acc: ObjView) -> Result<ObjView, ParseErr> {
    if starts_v(line) {
        match spec_parse_vec(line) {
            Some(p) => Ok(ObjView { positions: acc.positions.push(p), ..acc }),
            None => Err(ParseErr::Syntax),
        }
    } else if starts_vn(line) {
        match spec_parse_vec(line) {
            Some(p) => Ok(ObjView { normals: acc.normals.push(p), ..acc }),
            None => Err(ParseErr::Syntax),
        }
    } else if starts_f(line) {
        match spec_parse_face(line) {
            Ok(vs) => Ok(ObjView { indices: acc.indices + vs, ..acc }),
            Err(e) => Err(e),
        }
    } else {
        Ok(acc)
    }
}

/// The mesh accumulated from the lines of `data` from index `i` on, on top
/// of `acc`. Lines are separated by newline bytes; the first failing line
/// decides the error.
pub open spec fn spec_parse_from(data: Seq<u8>, i: int, acc: ObjView) -> Result<ObjView, ParseErr>
    decreases data.len() - i,
    when 0 <= i
    via spec_parse_from_dec
{
    if i >= data.len() {
        Ok(acc)
    } else {
        let j = line_end(data, i);
        match spec_parse_line(data.subrange(i, j), acc) {
            Err(e) => Err(e),
            Ok(a2) => spec_parse_from(
                data,
                if j < data.len() {
                    j + 1
                } else {
                    j
                },
                a2,
            ),
        }
    }
}

#[via_fn]
proof fn spec_parse_from_dec(data: Seq<u8>, i: int, acc: ObjView) {
    if 0 <= i < data.len() {
        lemma_line_end(data, i);
    }
}

/// What parsing the whole input yields: the mesh folded from every line,
/// accepted only when every triangle index falls within both the positions
/// and the normals that the file declared.
pub open spec fn spec_parse(data: Seq<u8>) -> Result<ObjView, ParseErr> {
    match spec_parse_from(data, 0, empty_obj()) {
        Err(e) => Err(e),
        Ok(o) => if indices_in_range(o.indices, o.positions.len() as int, o.normals.len() as int) {
            Ok(o)
        } else {
            Err(ParseErr::Syntax)
        },
    }
}

/// The view a mesh under construction will have.
pub open spec fn mesh_view(vs: Seq<Vertex>, ns: Seq<Normal>, ind: Seq<u16>) -> ObjView {
    ObjView {
        positions: vs.map_values(|v: Vertex| v@),
        normals: ns.map_values(|n: Normal| n@),
        indices: ind,
    }
}

/// Parses OBJ text into a mesh; see `spec_parse`. All-or-nothing: on any
/// malformed `v`, `vn` or `f` line, or any out-of-range index, the error is
/// returned and no partial mesh escapes. `Io` is never returned.
pub fn parse(data: &str) -> (r: Result<Obj, ObjError>)
    ensures
        match r {
            Ok(o) => spec_parse(data.spec_bytes()) == Ok::<ObjView, ParseErr>(o@) && o@.wf(),
            Err(e) => spec_parse(data.spec_bytes()) is Err && err_matches(
                e,
                spec_parse(data.spec_bytes())->Err_0,
            ),
        },
{
    let bytes: &[u8] = data.as_bytes();
    let n = bytes.len();
    let mut vertices: Vec<Vertex> = Vec::new();
    let mut normals: Vec<Normal> = Vec::new();
    let mut indices: Vec<u16> = Vec::new();
    let mut i: usize = 0;
    proof {
        assert(mesh_view(vertices@, normals@, indices@) =~~= empty_obj());
    }
    while i < n
        invariant
            bytes@ == data.spec_bytes(),
            n == bytes@.len(),
            i <= n,
            spec_parse_from(bytes@, 0, empty_obj()) == spec_parse_from(
                bytes@,
                i as int,
                mesh_view(vertices@, normals@, indices@),
            ),
        decreases n - i,
    {
        let ghost acc = mesh_view(vertices@, normals@, indices@);
        let mut j: usize = i;
        while j < n && *slice_index_get(bytes, j) != 10
            invariant
                i <= j <= n == bytes@.len(),
                line_end(bytes@, i as int) == line_end(bytes@, j as int),
            decreases n - j,
        {
            j += 1;
        }
        let line = slice_subrange(bytes, i, j);
        if line.len() >= 2 && *slice_index_get(line, 0) == 118 && *slice_index_get(line, 1)
            == 32 {
            match parse_vec(line) {
                Ok(p) => {
                    vertices.push(Vertex { position: p });
                    proof {
                        assert(mesh_view(vertices@, normals@, indices@) =~~= (ObjView {
                            positions: acc.positions.push((p.0@, p.1@, p.2@)),
                            ..acc
                        }));
                    }
                },
                Err(e) => {
                    return Err(e);
                },
            }
        } else if line.len() >= 3 && *slice_index_get(line, 0) == 118 && *slice_index_get(line, 1)
            == 110 && *slice_index_get(line, 2) == 32 {
            match parse_vec(line) {
                Ok(p) => {
                    normals.push(Normal { normal: p });
                    proof {
                        assert(mesh_view(vertices@, normals@, indices@) =~~= (ObjView {
                            normals: acc.normals.push((p.0@, p.1@, p.2@)),
                            ..acc
                        }));
                    }
                },
                Err(e) => {
                    return Err(e);
                },
            }
        } else if line.len() >= 2 && *slice_index_get(line, 0) == 102 && *slice_index_get(line, 1)
            == 32 {
            match parse_face(line) {
                Ok(mut vs) => {
                    let ghost vsv = vs@;
                    indices.append(&mut vs);
                    proof {
                        assert(mesh_view(vertices@, normals@, indices@) =~~= (ObjView {
                            indices: acc.indices + vsv,
                            ..acc
                        }));
                    }
                },
                Err(e) => {
                    return Err(e);
                },
            }
        }
        i = if j < n {
            j + 1
        } else {
            j
        };
    }
    proof {
        let o = mesh_view(vertices@, normals@, indices@);
        assert(spec_parse_from(bytes@, n as int, o) == Ok::<ObjView, ParseErr>(o));
        assert(o.positions.len() == vertices@.len());
        assert(o.normals.len() == normals@.len());
    }
    // Every line was taken; what remains is the index range check.
    let nv = vertices.len();
    let nn = normals.len();
    let mut k: usize = 0;
    while k < indices.len()
        invariant
            bytes@ == data.spec_bytes(),
            nv == vertices@.len(),
            nn == normals@.len(),
            k <= indices@.len(),
            spec_parse_from(bytes@, 0, empty_obj()) == Ok::<ObjView, ParseErr>(
                mesh_view(vertices@, normals@, indices@),
            ),
            forall|t: int|
                0 <= t < k ==> (#[trigger] indices@[t]) < nv as int && indices@[t] < nn as int,
        decreases indices@.len() - k,
    {
        let idx = indices[k];
        if !((idx as usize) < nv && (idx as usize) < nn) {
            assert(!indices_in_range(indices@, nv as int, nn as int));
            return Err(ObjError::SyntaxError);
        }
        k += 1;
    }
    let o = Obj { vertices, normals, indices };
    proof {
        assert(o@ =~~= mesh_view(o.vertices@, o.normals@, o.indices@));
        lemma_parse_from_mod3(bytes@, 0, empty_obj());
    }
    Ok(o)
}

// ---------------------------------------------------------------------------
// Parsing succeeds on well-formed input
// ---------------------------------------------------------------------------

/// One line is well formed: a `v` or `vn` line carries three valid float
/// fields, an `f` line three agreeing face-vertex tokens; any other line is
/// well formed by being ignored.
pub open spec fn line_well_formed(line: Seq<u8>) -> bool {
    if starts_v(line) || starts_vn(line) {
        spec_parse_vec(line) is Some
    } else if starts_f(line) {
        spec_parse_face(line) is Ok
    } else {
        true
    }
}

/// Every line of `data` from index `i` on is well formed.
pub open spec fn lines_well_formed(data: Seq<u8>, i: int) -> bool
    decreases data.len() - i,
    when 0 <= i
    via lines_well_formed_dec
{
    if i >= data.len() {
        true
    } else {
        let j = line_end(data, i);
        line_well_formed(data.subrange(i, j)) && lines_well_formed(
            data,
            if j < data.len() {
                j + 1
            } else {
                j
            },
        )
    }
}

#[via_fn]
proof fn lines_well_formed_dec(data: Seq<u8>, i: int) {
    if 0 <= i < data.len() {
        lemma_line_end(data, i);
    }
}

/// How many `v`, `vn` and `f` lines `data` holds from index `i` on.
pub open spec fn spec_counts(data: Seq<u8>, i: int) -> (int, int, int)
    decreases data.len() - i,
    when 0 <= i
    via spec_counts_dec
{
    if i >= data.len() {
        (0int, 0int, 0int)
    } else {
        let j = line_end(data, i);
        let line = data.subrange(i, j);
        let rest = spec_counts(
            data,
            if j < data.len() {
                j + 1
            } else {
                j
            },
        );
        (
            rest.0 + if starts_v(line) {
                1int
            } else {
                0int
            },
            rest.1 + if starts_vn(line) {
                1int
            } else {
                0int
            },
            rest.2 + if starts_f(line) {
                1int
            } else {
                0int
            },
        )
    }
}

#[via_fn]
proof fn spec_counts_dec(data: Seq<u8>, i: int) {
    if 0 <= i < data.len() {
        lemma_line_end(data, i);
    }
}

proof fn lemma_parse_from_well_formed(data: Seq<u8>, i: int, acc: ObjView)
    requires
        0 <= i,
        lines_well_formed(data, i),
    ensures
        spec_parse_from(data, i, acc) is Ok,
        spec_parse_from(data, i, acc)->Ok_0.positions.len() == acc.positions.len() + spec_counts(
            data,
            i,
        ).0,
        spec_parse_from(data, i, acc)->Ok_0.normals.len() == acc.normals.len() + spec_counts(
            data,
            i,
        ).1,
        spec_parse_from(data, i, acc)->Ok_0.indices.len() == acc.indices.len() + 3 * spec_counts(
            data,
            i,
        ).2,
    decreases data.len() - i,
{
    if i < data.len() {
        lemma_line_end(data, i);
        let j = line_end(data, i);
        let line = data.subrange(i, j);
        let i2 = if j < data.len() {
            j + 1
        } else {
            j
        };
        let a2 = spec_parse_line(line, acc)->Ok_0;
        lemma_parse_from_well_formed(data, i2, a2);
    }
}

/// For well-formed input — every `v` and `vn` line three valid float fields,
/// every `f` line three agreeing face-vertex tokens — parsing the lines
/// succeeds, with exactly one position per `v` line, one normal per `vn`
/// line and three indices per `f` line; and when every collected index falls
/// within those counts, the whole parse returns that mesh.
pub proof fn lemma_parse_well_formed(data: Seq<u8>)
    ensures
        lines_well_formed(data, 0) ==> {
            let r = spec_parse_from(data, 0, empty_obj());
            let c = spec_counts(data, 0);
            &&& r is Ok
            &&& r->Ok_0.positions.len() == c.0
            &&& r->Ok_0.normals.len() == c.1
            &&& r->Ok_0.indices.len() == 3 * c.2
            &&& (indices_in_range(r->Ok_0.indices, c.0, c.1) ==> spec_parse(data) == Ok::<
                ObjView,
                ParseErr,
            >(r->Ok_0))
        },
{
    if lines_well_formed(data, 0) {
        lemma_parse_from_well_formed(data, 0, empty_obj());
    }
}

/// Whatever `spec_parse_from` accumulates keeps the index count a whole
/// number of triangles.
proof fn lemma_parse_from_mod3(data: Seq<u8>, i: int, acc: ObjView)
    requires
        0 <= i,
        acc.indices.len() % 3 == 0,
        spec_parse_from(data, i, acc) is Ok,
    ensures
        spec_parse_from(data, i, acc)->Ok_0.indices.len() % 3 == 0,
    decreases data.len() - i,
{
    if i < data.len() {
        lemma_line_end(data, i);
        let j = line_end(data, i);
        let line = data.subrange(i, j);
        match spec_parse_line(line, acc) {
            Err(_) => {},
            Ok(a2) => {
                assert(a2.indices.len() % 3 == 0);
                lemma_parse_from_mod3(
                    data,
                    if j < data.len() {
                        j + 1
                    } else {
                        j
                    },
                    a2,
                );
            },
        }
    }
}

} // verus!
