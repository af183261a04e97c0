//! The structure of the Wavefront OBJ text format: the fields of a line,
//! keywords, decimal indices, the corners of a face (`position/uv/normal`,
//! counted from 1), and how a corner finds its entries in the lists read so
//! far. Coordinates are numbers with a fraction; a line gives them as the
//! byte ranges of their fields, for the caller to read.

use vstd::prelude::*;
use vstd::slice::slice_subrange;

verus! {

/// What this reader refuses.
#[derive(Clone, Copy, Debug, PartialEq, Eq, Structural)]
pub enum ObjError {
    /// The position index of a face corner is no decimal number that fits
    /// the index type.
    InvalidFacePositionIndex,
    /// The text gave no vertex.
    NoVertices,
}

/// The kind of a line, by its first field.
#[derive(Clone, Copy, Debug, PartialEq, Eq, Structural)]
pub enum LineKind {
    /// `v`: a vertex position.
    Position,
    /// `vn`: a vertex normal.
    Normal,
    /// `vt`: a texture coordinate.
    TexCoord,
    /// `f`: a face.
    Face,
    /// Any other keyword; the line is passed over.
    Other,
}

/// One corner of a face as written: indices counted from 0, `None` where the
/// text gives none, gives one that is no number, or gives 0.
#[derive(Clone, Copy, Debug, PartialEq, Eq, Structural)]
pub struct FaceCorner {
    pub position: Option<usize>,
    pub uv: Option<usize>,
    pub normal: Option<usize>,
}

/// One corner of a face with each index checked against its list. `None` for
/// the normal or the texture coordinate says that the corner has none of its
/// own and the value is to be derived from the position.
#[derive(Clone, Copy, Debug, PartialEq, Eq, Structural)]
pub struct ResolvedCorner {
    pub position: usize,
    pub uv: Option<usize>,
    pub normal: Option<usize>,
}

/// A field of a line: the bytes from `start` up to `end`.
#[derive(Clone, Copy, Debug, PartialEq, Eq, Structural)]
pub struct Field {
    pub start: usize,
    pub end: usize,
}

/// What one line of the text says.
#[derive(Clone, Copy, Debug, PartialEq, Eq, Structural)]
pub enum Record {
    /// Nothing: an empty line, a comment, an unknown keyword, or a known one
    /// with too few fields.
    Skip,
    /// A vertex position, as the fields of its three coordinates.
    Position { x: Field, y: Field, z: Field },
    /// A vertex normal, as the fields of its three coordinates.
    Normal { x: Field, y: Field, z: Field },
    /// A texture coordinate, as the fields of its two coordinates.
    TexCoord { u: Field, v: Field },
    /// A triangle, as its three corners.
    Face { a: FaceCorner, b: FaceCorner, c: FaceCorner },
}

/// What the reader of a whole text does on one line, given the lists that
/// it has built so far.
#[derive(Clone, Copy, Debug, PartialEq, Eq, Structural)]
pub enum Action {
    /// Nothing.
    Nothing,
    /// Read the three fields as numbers and add them to the positions.
    AddPosition { x: Field, y: Field, z: Field },
    /// Read the three fields as numbers and add them to the normals.
    AddNormal { x: Field, y: Field, z: Field },
    /// Read the two fields as numbers and add them to the texture
    /// coordinates.
    AddTexCoord { u: Field, v: Field },
    /// For each corner that is there, in this order, add one vertex and one
    /// index that names it; a corner that is not there is passed over.
    AddCorners { a: Option<ResolvedCorner>, b: Option<ResolvedCorner>, c: Option<ResolvedCorner> },
}

/// The number of bytes of the white-space character that begins at `i`, or
/// 0 if none begins there. White space is what Unicode calls so, in UTF-8:
/// tab to carriage return, the space, U+0085, U+00A0, U+1680, U+2000 to
/// U+200A, U+2028, U+2029, U+202F, U+205F and U+3000.
pub open spec fn ws_len(s: Seq<u8>, i: int) -> nat {
    if i < 0 || i >= s.len() {
        0
    } else if (0x09 <= s[i] <= 0x0D) || s[i] == 0x20 {
        1
    } else if i + 1 < s.len() && s[i] == 0xC2 && (s[i + 1] == 0x85 || s[i + 1] == 0xA0) {
        2
    } else if i + 2 < s.len() && s[i] == 0xE1 && s[i + 1] == 0x9A && s[i + 2] == 0x80 {
        3
    } else if i + 2 < s.len() && s[i] == 0xE2 && s[i + 1] == 0x80 && ((0x80 <= s[i + 2] <= 0x8A)
        || s[i + 2] == 0xA8 || s[i + 2] == 0xA9 || s[i + 2] == 0xAF) {
        3
    } else if i + 2 < s.len() && s[i] == 0xE2 && s[i + 1] == 0x81 && s[i + 2] == 0x9F {
        3
    } else if i + 2 < s.len() && s[i] == 0xE3 && s[i + 1] == 0x80 && s[i + 2] == 0x80 {
        3
    } else {
        0
    }
}

/// The first position at or after `i` at which no white space begins.
pub open spec fn skip_ws(s: Seq<u8>, i: int) -> int
    decreases s.len() - i,
{
    if ws_len(s, i) > 0 {
        skip_ws(s, i + ws_len(s, i))
    } else {
        i
    }
}

/// The first position at or after `i` at which the text ends or white space
/// begins.
pub open spec fn skip_field(s: Seq<u8>, i: int) -> int
    decreases s.len() - i,
{
    if i >= s.len() || ws_len(s, i) > 0 {
        i
    } else {
        skip_field(s, i + 1)
    }
}

/// The fields of the text from position `i` on: the runs of bytes between
/// white space, in order.
pub open spec fn fields_from(s: Seq<u8>, i: int) -> Seq<Field>
    decreases s.len() - i,
{
    let start = skip_ws(s, i);
    let end = skip_field(s, start + 1);
    if 0 <= i <= start && start < end <= s.len() {
        seq![Field { start: start as usize, end: end as usize }] + fields_from(s, end)
    } else {
        Seq::<Field>::empty()
    }
}

/// The bytes of a field.
pub open spec fn field_bytes(s: Seq<u8>, f: Field) -> Seq<u8> {
    s.subrange(f.start as int, f.end as int)
}

/// The face that three fields write: the first corner that is refused
/// refuses the face.
pub open spec fn spec_parse_face(s: Seq<u8>, a: Field, b: Field, c: Field) -> Result<Record, ObjError> {
    match spec_parse_face_corner(field_bytes(s, a)) {
        Err(e) => Err(e),
        Ok(ca) => match spec_parse_face_corner(field_bytes(s, b)) {
            Err(e) => Err(e),
            Ok(cb) => match spec_parse_face_corner(field_bytes(s, c)) {
                Err(e) => Err(e),
                Ok(cc) => Ok(Record::Face { a: ca, b: cb, c: cc }),
            },
        },
    }
}

/// What a line says. A line without fields or whose first field begins
/// with `#` says nothing. Else the first field is the keyword: `v` and `vn`
/// take the next three fields, `vt` the next two, `f` the next three as
/// corners; further fields are not read, and a line with too few says
/// nothing.
pub open spec fn spec_parse_line(s: Seq<u8>) -> Result<Record, ObjError> {
    let f = fields_from(s, 0);
    if f.len() == 0 || s[f[0].start as int] == 0x23 {
        Ok(Record::Skip)
    } else {
        match spec_line_kind(field_bytes(s, f[0])) {
            LineKind::Position => if f.len() >= 4 {
                Ok(Record::Position { x: f[1], y: f[2], z: f[3] })
            } else {
                Ok(Record::Skip)
            },
            LineKind::Normal => if f.len() >= 4 {
                Ok(Record::Normal { x: f[1], y: f[2], z: f[3] })
            } else {
                Ok(Record::Skip)
            },
            LineKind::TexCoord => if f.len() >= 3 {
                Ok(Record::TexCoord { u: f[1], v: f[2] })
            } else {
                Ok(Record::Skip)
            },
            LineKind::Face => if f.len() >= 4 {
                spec_parse_face(s, f[1], f[2], f[3])
            } else {
                Ok(Record::Skip)
            },
            LineKind::Other => Ok(Record::Skip),
        }
    }
}

/// What the reader does on a line when its lists of positions, texture
/// coordinates and normals have the given lengths.
pub open spec fn spec_read_line(s: Seq<u8>, positions: usize, uvs: usize, normals: usize) -> Result<
    Action,
    ObjError,
> {
    match spec_parse_line(s) {
        Err(e) => Err(e),
        Ok(Record::Skip) => Ok(Action::Nothing),
        Ok(Record::Position { x, y, z }) => Ok(Action::AddPosition { x, y, z }),
        Ok(Record::Normal { x, y, z }) => Ok(Action::AddNormal { x, y, z }),
        Ok(Record::TexCoord { u, v }) => Ok(Action::AddTexCoord { u, v }),
        Ok(Record::Face { a, b, c }) => Ok(
            Action::AddCorners {
                a: spec_resolve_corner(a, positions, uvs, normals),
                b: spec_resolve_corner(b, positions, uvs, normals),
                c: spec_resolve_corner(c, positions, uvs, normals),
            },
        ),
    }
}

/// Whether the byte is an ASCII decimal digit.
pub open spec fn is_digit(b: u8) -> bool {
    0x30 <= b <= 0x39
}

/// Whether all bytes are ASCII decimal digits.
pub open spec fn all_digits(s: Seq<u8>) -> bool {
    forall|i: int| 0 <= i < s.len() ==> is_digit(#[trigger] s[i])
}

/// The number that a string of decimal digits writes.
pub open spec fn digits_value(s: Seq<u8>) -> nat
    decreases s.len(),
{
    if s.len() == 0 {
        0
    } else {
        (digits_value(s.drop_last()) * 10 + (s.last() - 0x30)) as nat
    }
}

/// The text without one leading plus sign.
pub open spec fn without_plus(s: Seq<u8>) -> Seq<u8> {
    if s.len() > 0 && s[0] == 0x2B {
        s.subrange(1, s.len() as int)
    } else {
        s
    }
}

/// The index that a field writes: one or more decimal digits after at most
/// one plus sign, whose value fits the index type.
pub open spec fn spec_parse_index(s: Seq<u8>) -> Option<usize> {
    let d = without_plus(s);
    if d.len() > 0 && all_digits(d) && digits_value(d) <= usize::MAX {
        Some(digits_value(d) as usize)
    } else {
        None
    }
}

/// The index counted from 0 for one counted from 1; 0 names nothing.
pub open spec fn from_one_based(n: Option<usize>) -> Option<usize> {
    match n {
        Some(v) => if v >= 1 {
            Some((v - 1) as usize)
        } else {
            None
        },
        None => None,
    }
}

/// The position of the first byte `sep` at or after `from`, or the length of
/// the text if there is none.
pub open spec fn find_byte(s: Seq<u8>, sep: u8, from: int) -> int
    decreases s.len() - from,
{
    if from >= s.len() {
        s.len() as int
    } else if s[from] == sep {
        from
    } else {
        find_byte(s, sep, from + 1)
    }
}

/// Where component `k` of the text begins, the components being what stands
/// between the bytes `sep`; past the last component this is one past the end
/// of the text.
pub open spec fn component_start(s: Seq<u8>, sep: u8, k: nat) -> int
    decreases k,
{
    if k == 0 {
        0
    } else {
        let before = component_start(s, sep, (k - 1) as nat);
        if before > s.len() {
            before
        } else {
            find_byte(s, sep, before) + 1
        }
    }
}

/// Component `k` of the text, or `None` if the text has `k` components or
/// fewer.
pub open spec fn component(s: Seq<u8>, sep: u8, k: nat) -> Option<Seq<u8>> {
    let start = component_start(s, sep, k);
    if start > s.len() {
        None
    } else {
        Some(s.subrange(start, find_byte(s, sep, start)))
    }
}

/// An optional index of a corner: component `k`, where it is there, not
/// empty and a number above 0.
pub open spec fn spec_optional_index(s: Seq<u8>, k: nat) -> Option<usize> {
    match component(s, 0x2F, k) {
        Some(c) => if c.len() > 0 {
            from_one_based(spec_parse_index(c))
        } else {
            None
        },
        None => None,
    }
}

/// The corner that a field of a face line writes.
pub open spec fn spec_parse_face_corner(s: Seq<u8>) -> Result<FaceCorner, ObjError> {
    match spec_parse_index(component(s, 0x2F, 0).unwrap()) {
        None => Err(ObjError::InvalidFacePositionIndex),
        Some(p) => Ok(
            FaceCorner {
                position: from_one_based(Some(p)),
                uv: spec_optional_index(s, 1),
                normal: spec_optional_index(s, 2),
            },
        ),
    }
}

/// The kind of line that a keyword opens.
pub open spec fn spec_line_kind(keyword: Seq<u8>) -> LineKind {
    if keyword =~= seq![0x76u8] {
        LineKind::Position
    } else if keyword =~= seq![0x76u8, 0x6Eu8] {
        LineKind::Normal
    } else if keyword =~= seq![0x76u8, 0x74u8] {
        LineKind::TexCoord
    } else if keyword =~= seq![0x66u8] {
        LineKind::Face
    } else {
        LineKind::Other
    }
}

/// The corner with its indices checked against lists of the given lengths:
/// `None` if the position names no entry, and an index of a normal or a
/// texture coordinate that names no entry is dropped.
pub open spec fn spec_resolve_corner(corner: FaceCorner, positions: usize, uvs: usize, normals: usize) -> Option<
    ResolvedCorner,
> {
    match corner.position {
        Some(p) => if p < positions {
            Some(
                ResolvedCorner {
                    position: p,
                    uv: match corner.uv {
                        Some(t) => if t < uvs {
                            Some(t)
                        } else {
                            None
                        },
                        None => None,
                    },
                    normal: match corner.normal {
                        Some(n) => if n < normals {
                            Some(n)
                        } else {
                            None
                        },
                        None => None,
                    },
                },
            )
        } else {
            None
        },
        None => None,
    }
}

/// A longer string of digits writes no smaller number than its beginning.
proof fn lemma_digits_value_grows(s: Seq<u8>, n: int)
    requires
        0 <= n <= s.len(),
        all_digits(s),
    ensures
        digits_value(s.subrange(0, n)) <= digits_value(s),
    decreases s.len() - n,
{
    if n < s.len() {
        let longer = s.subrange(0, n + 1);
        assert(longer.drop_last() =~= s.subrange(0, n));
        assert(is_digit(s[n]));
        assert(longer.last() == s[n]);
        lemma_digits_value_grows(s, n + 1);
    } else {
        assert(s.subrange(0, n) =~= s);
    }
}

/// Reads a decimal index: one or more digits after at most one plus sign.
/// `None` if the field is anything else or the number does not fit.
pub fn parse_index(field: &[u8]) -> (index: Option<usize>)
    ensures
        index == spec_parse_index(field@),
{
    let n: usize = field.len();
    let start: usize = if n > 0 && field[0] == 0x2B { 1 } else { 0 };
    let ghost d = without_plus(field@);
    assert(d =~= field@.subrange(start as int, n as int));
    if start == n {
        return None;
    }
    let mut value: usize = 0;
    let mut i: usize = start;
    while i < n
        invariant
            start <= i <= n,
            n == field@.len(),
            d == field@.subrange(start as int, n as int),
            d == without_plus(field@),
            all_digits(d.subrange(0, i - start)),
            value == digits_value(d.subrange(0, i - start)),
        decreases n - i,
    {
        let b: u8 = field[i];
        let ghost seen = d.subrange(0, i - start);
        let ghost next = d.subrange(0, i - start + 1);
        assert(next.drop_last() =~= seen);
        assert(next.last() == b);
        if b < 0x30 || b > 0x39 {
            assert(!is_digit(d[i - start]));
            return None;
        }
        let digit: usize = (b - 0x30) as usize;
        assert(digits_value(next) == value * 10 + digit);
        if value > (usize::MAX - digit) / 10 {
            proof {
                assert(value * 10 + digit > usize::MAX);
                if all_digits(d) {
                    lemma_digits_value_grows(d, i - start + 1);
                }
            }
            return None;
        }
        value = value * 10 + digit;
        assert(all_digits(next)) by {
            assert forall|k: int| 0 <= k < next.len() implies is_digit(#[trigger] next[k]) by {
                if k < seen.len() {
                    assert(next[k] == seen[k]);
                }
            }
        }
        i += 1;
    }
    assert(d.subrange(0, n - start) =~= d);
    Some(value)
}

/// The position of the first byte `sep` at or after `from`, or the length of
/// the text if there is none.
fn find_from(text: &[u8], sep: u8, from: usize) -> (at: usize)
    requires
        from <= text@.len(),
    ensures
        at == find_byte(text@, sep, from as int),
        from <= at <= text@.len(),
{
    let mut i: usize = from;
    while i < text.len() && text[i] != sep
        invariant
            from <= i <= text@.len(),
            find_byte(text@, sep, from as int) == find_byte(text@, sep, i as int),
        decreases text@.len() - i,
    {
        i += 1;
    }
    i
}

/// Reads one corner of a face: up to three indices counted from 1 and
/// divided by `/`, of which the second and third may be missing or empty.
/// The first must be a number; a second or third that is no number counts as
/// missing, and so does any index 0.
pub fn parse_face_corner(field: &[u8]) -> (corner: Result<FaceCorner, ObjError>)
    ensures
        corner == spec_parse_face_corner(field@),
{
    let n: usize = field.len();
    let end0: usize = find_from(field, 0x2F, 0);
    let position = match parse_index(slice_subrange(field, 0, end0)) {
        None => {
            return Err(ObjError::InvalidFacePositionIndex);
        },
        Some(p) => one_based(Some(p)),
    };
    assert(component_start(field@, 0x2F, 1) == end0 + 1);
    let mut uv: Option<usize> = None;
    let mut normal: Option<usize> = None;
    if end0 < n {
        let start1: usize = end0 + 1;
        let end1: usize = find_from(field, 0x2F, start1);
        if end1 > start1 {
            uv = one_based(parse_index(slice_subrange(field, start1, end1)));
        }
        assert(component_start(field@, 0x2F, 2) == end1 + 1) by {
            assert(component_start(field@, 0x2F, 1) == start1);
        }
        if end1 < n {
            let start2: usize = end1 + 1;
            let end2: usize = find_from(field, 0x2F, start2);
            if end2 > start2 {
                normal = one_based(parse_index(slice_subrange(field, start2, end2)));
            }
        }
    } else {
        assert(component_start(field@, 0x2F, 2) > n) by {
            assert(component_start(field@, 0x2F, 1) == n + 1);
        }
    }
    Ok(FaceCorner { position, uv, normal })
}

/// Turns an index counted from 1 into one counted from 0; 0 names nothing.
fn one_based(n: Option<usize>) -> (index: Option<usize>)
    ensures
        index == from_one_based(n),
{
    match n {
        Some(v) => if v >= 1 {
            Some(v - 1)
        } else {
            None
        },
        None => None,
    }
}

/// The kind of line that the keyword opens: `v`, `vn`, `vt` and `f` are
/// read, every other keyword is passed over.
pub fn line_kind(keyword: &[u8]) -> (kind: LineKind)
    ensures
        kind == spec_line_kind(keyword@),
{
    let n: usize = keyword.len();
    if n == 1 && keyword[0] == 0x76 {
        LineKind::Position
    } else if n == 2 && keyword[0] == 0x76 && keyword[1] == 0x6E {
        LineKind::Normal
    } else if n == 2 && keyword[0] == 0x76 && keyword[1] == 0x74 {
        LineKind::TexCoord
    } else if n == 1 && keyword[0] == 0x66 {
        LineKind::Face
    } else {
        LineKind::Other
    }
}

/// Checks the indices of a corner against the lists read so far. A corner
/// whose position names no entry gives `None` and is passed over; a normal
/// or texture index that names no entry is dropped, so that the value is
/// derived from the position.
pub fn resolve_corner(corner: &FaceCorner, positions: usize, uvs: usize, normals: usize) -> (resolved:
    Option<ResolvedCorner>)
    ensures
        resolved == spec_resolve_corner(*corner, positions, uvs, normals),
{
    match corner.position {
        Some(p) => if p < positions {
            let uv = match corner.uv {
                Some(t) => if t < uvs {
                    Some(t)
                } else {
                    None
                },
                None => None,
            };
            let normal = match corner.normal {
                Some(n) => if n < normals {
                    Some(n)
                } else {
                    None
                },
                None => None,
            };
            Some(ResolvedCorner { position: p, uv, normal })
        } else {
            None
        },
        None => None,
    }
}

/// The fields of a line lie inside it, one after the other, and none is
/// empty.
pub proof fn lemma_fields_in_order(s: Seq<u8>, i: int)
    requires
        0 <= i <= s.len() <= usize::MAX,
    ensures
        forall|k: int|
            0 <= k < fields_from(s, i).len() ==> i <= (#[trigger] fields_from(s, i)[k]).start
                < fields_from(s, i)[k].end <= s.len(),
        forall|k: int, m: int|
            0 <= k < m < fields_from(s, i).len() ==> (#[trigger] fields_from(s, i)[k]).end < (
            #[trigger] fields_from(s, i)[m]).start,
    decreases s.len() - i,
{
    let start = skip_ws(s, i);
    lemma_skip_ws_bounds(s, i);
    if start < s.len() {
        let end = skip_field(s, start + 1);
        lemma_skip_field_bounds(s, start + 1);
        lemma_fields_in_order(s, end);
        assert(start as usize == start && end as usize == end);
        lemma_skip_ws_bounds(s, end);
        let rest = fields_from(s, end);
        let all = fields_from(s, i);
        assert(all =~= seq![Field { start: start as usize, end: end as usize }] + rest);
        assert forall|k: int| 0 <= k < all.len() implies i <= (#[trigger] all[k]).start
            < all[k].end <= s.len() by {
            if k > 0 {
                assert(all[k] == rest[k - 1]);
            }
        }
        assert forall|k: int, m: int| 0 <= k < m < all.len() implies (#[trigger] all[k]).end < (
        #[trigger] all[m]).start by {
            assert(all[m] == rest[m - 1]);
            if k > 0 {
                assert(all[k] == rest[k - 1]);
            } else {
                if rest.len() > 0 {
                    lemma_field_starts_after_ws(s, end);
                }
            }
        }
    }
}

/// No white space begins inside a field.
pub proof fn lemma_fields_hold_no_white_space(s: Seq<u8>, i: int, k: int, p: int)
    requires
        0 <= i <= s.len() <= usize::MAX,
        0 <= k < fields_from(s, i).len(),
        fields_from(s, i)[k].start <= p < fields_from(s, i)[k].end,
    ensures
        ws_len(s, p) == 0,
    decreases s.len() - i,
{
    let start = skip_ws(s, i);
    let end = skip_field(s, start + 1);
    lemma_skip_ws_bounds(s, i);
    lemma_skip_field_bounds(s, start + 1);
    let rest = fields_from(s, end);
    assert(fields_from(s, i) =~= seq![Field { start: start as usize, end: end as usize }] + rest);
    if k == 0 {
        if p > start {
            lemma_skip_field_none_before(s, start + 1, p);
        }
    } else {
        assert(fields_from(s, i)[k] == rest[k - 1]);
        lemma_fields_hold_no_white_space(s, end, k - 1, p);
    }
}

/// No white space begins between a position and where skipping a field
/// from it stops.
proof fn lemma_skip_field_none_before(s: Seq<u8>, i: int, p: int)
    requires
        0 <= i <= p < skip_field(s, i),
    ensures
        ws_len(s, p) == 0,
    decreases s.len() - i,
{
    if i < p {
        lemma_skip_field_none_before(s, i + 1, p);
    }
}

/// Skipping white space stays inside the text and goes forward.
proof fn lemma_skip_ws_bounds(s: Seq<u8>, i: int)
    requires
        0 <= i <= s.len(),
    ensures
        i <= skip_ws(s, i) <= s.len(),
        ws_len(s, skip_ws(s, i)) == 0,
    decreases s.len() - i,
{
    if ws_len(s, i) > 0 {
        lemma_skip_ws_bounds(s, i + ws_len(s, i));
    }
}

/// Skipping a field stays inside the text and goes forward.
proof fn lemma_skip_field_bounds(s: Seq<u8>, i: int)
    requires
        0 <= i <= s.len(),
    ensures
        i <= skip_field(s, i) <= s.len(),
        skip_field(s, i) < s.len() ==> ws_len(s, skip_field(s, i)) > 0,
    decreases s.len() - i,
{
    if !(i >= s.len() || ws_len(s, i) > 0) {
        lemma_skip_field_bounds(s, i + 1);
    }
}

/// A field that follows the end of another begins after the white space
/// that ended the first.
proof fn lemma_field_starts_after_ws(s: Seq<u8>, end: int)
    requires
        0 <= end <= s.len() <= usize::MAX,
        end < s.len() ==> ws_len(s, end) > 0,
        fields_from(s, end).len() > 0,
    ensures
        fields_from(s, end)[0].start > end,
{
    lemma_skip_ws_bounds(s, end);
    if end < s.len() {
        lemma_skip_ws_bounds(s, end + ws_len(s, end));
    }
    let start = skip_ws(s, end);
    let stop = skip_field(s, start + 1);
    assert(fields_from(s, end)[0] == (Field { start: start as usize, end: stop as usize }));
}

/// The number of bytes of the white-space character that begins at `i`, or
/// 0 if none begins there.
fn whitespace_len(line: &[u8], i: usize) -> (n: usize)
    requires
        i <= line@.len(),
    ensures
        n == ws_len(line@, i as int),
        i + n <= line@.len(),
{
    let len: usize = line.len();
    if i >= len {
        return 0;
    }
    let b0: u8 = line[i];
    if (0x09 <= b0 && b0 <= 0x0D) || b0 == 0x20 {
        return 1;
    }
    if len - i >= 2 {
        let b1: u8 = line[i + 1];
        if b0 == 0xC2 && (b1 == 0x85 || b1 == 0xA0) {
            return 2;
        }
        if len - i >= 3 {
            let b2: u8 = line[i + 2];
            if b0 == 0xE1 && b1 == 0x9A && b2 == 0x80 {
                return 3;
            }
            if b0 == 0xE2 && b1 == 0x80 && ((0x80 <= b2 && b2 <= 0x8A) || b2 == 0xA8 || b2 == 0xA9
                || b2 == 0xAF) {
                return 3;
            }
            if b0 == 0xE2 && b1 == 0x81 && b2 == 0x9F {
                return 3;
            }
            if b0 == 0xE3 && b1 == 0x80 && b2 == 0x80 {
                return 3;
            }
        }
    }
    0
}

/// Divides a line into its fields: the runs of bytes between white space.
pub fn split_fields(line: &[u8]) -> (fields: Vec<Field>)
    ensures
        fields@ == fields_from(line@, 0),
{
    let len: usize = line.len();
    let mut fields: Vec<Field> = Vec::new();
    let mut i: usize = 0;
    loop
        invariant
            i <= len,
            len == line@.len(),
            fields_from(line@, 0) == fields@ + fields_from(line@, i as int),
        ensures
            fields@ == fields_from(line@, 0),
        decreases len - i,
    {
        let ghost from = i;
        let mut start: usize = i;
        loop
            invariant
                from <= start <= len,
                len == line@.len(),
                skip_ws(line@, from as int) == skip_ws(line@, start as int),
            ensures
                from <= start <= len,
                start == skip_ws(line@, from as int),
            decreases len - start,
        {
            let n: usize = whitespace_len(line, start);
            if n == 0 {
                break ;
            }
            start += n;
        }
        if start >= len {
            assert(skip_field(line@, start + 1) == start + 1);
            assert(fields_from(line@, from as int) =~= Seq::<Field>::empty());
            assert(fields@ + Seq::<Field>::empty() =~= fields@);
            break ;
        }
        let mut end: usize = start + 1;
        loop
            invariant
                start < end <= len,
                len == line@.len(),
                skip_field(line@, start + 1) == skip_field(line@, end as int),
            ensures
                start < end <= len,
                end == skip_field(line@, start + 1),
            decreases len - end,
        {
            if end >= len {
                break ;
            }
            let n: usize = whitespace_len(line, end);
            if n > 0 {
                break ;
            }
            end += 1;
        }
        let ghost before = fields@;
        fields.push(Field { start, end });
        assert(fields_from(line@, from as int) =~= seq![Field { start, end }] + fields_from(
            line@,
            end as int,
        ));
        assert(fields@ + fields_from(line@, end as int) =~= before + fields_from(line@, from as int));
        i = end;
    }
    fields
}

/// Reads the three corners of a face from three fields of the line.
fn parse_face(line: &[u8], a: Field, b: Field, c: Field) -> (record: Result<Record, ObjError>)
    requires
        a.start <= a.end <= line@.len(),
        b.start <= b.end <= line@.len(),
        c.start <= c.end <= line@.len(),
    ensures
        record == spec_parse_face(line@, a, b, c),
{
    let ca = match parse_face_corner(slice_subrange(line, a.start, a.end)) {
        Err(e) => {
            return Err(e);
        },
        Ok(corner) => corner,
    };
    let cb = match parse_face_corner(slice_subrange(line, b.start, b.end)) {
        Err(e) => {
            return Err(e);
        },
        Ok(corner) => corner,
    };
    let cc = match parse_face_corner(slice_subrange(line, c.start, c.end)) {
        Err(e) => {
            return Err(e);
        },
        Ok(corner) => corner,
    };
    Ok(Record::Face { a: ca, b: cb, c: cc })
}

/// Reads one line of the text, without its line end. Empty lines, comments
/// and lines that this reader has no use for give `Record::Skip`; the one
/// error is a face corner whose position index is no number.
pub fn parse_line(line: &[u8]) -> (record: Result<Record, ObjError>)
    ensures
        record == spec_parse_line(line@),
{
    if line.len() == 0 {
        return Ok(Record::Skip);
    }
    let fields = split_fields(line);
    proof {
        lemma_fields_in_order(line@, 0);
    }
    if fields.len() == 0 {
        return Ok(Record::Skip);
    }
    let keyword: Field = fields[0];
    if line[keyword.start] == 0x23 {
        return Ok(Record::Skip);
    }
    match line_kind(slice_subrange(line, keyword.start, keyword.end)) {
        LineKind::Position => if fields.len() >= 4 {
            Ok(Record::Position { x: fields[1], y: fields[2], z: fields[3] })
        } else {
            Ok(Record::Skip)
        },
        LineKind::Normal => if fields.len() >= 4 {
            Ok(Record::Normal { x: fields[1], y: fields[2], z: fields[3] })
        } else {
            Ok(Record::Skip)
        },
        LineKind::TexCoord => if fields.len() >= 3 {
            Ok(Record::TexCoord { u: fields[1], v: fields[2] })
        } else {
            Ok(Record::Skip)
        },
        LineKind::Face => if fields.len() >= 4 {
            parse_face(line, fields[1], fields[2], fields[3])
        } else {
            Ok(Record::Skip)
        },
        LineKind::Other => Ok(Record::Skip),
    }
}

/// Decides what to do on one line of the text, given how many positions,
/// texture coordinates and normals were read before it. The corners of a
/// face are checked against those lists as they stand before the line.
pub fn read_line(line: &[u8], positions: usize, uvs: usize, normals: usize) -> (action: Result<
    Action,
    ObjError,
>)
    ensures
        action == spec_read_line(line@, positions, uvs, normals),
{
    match parse_line(line) {
        Err(e) => Err(e),
        Ok(Record::Skip) => Ok(Action::Nothing),
        Ok(Record::Position { x, y, z }) => Ok(Action::AddPosition { x, y, z }),
        Ok(Record::Normal { x, y, z }) => Ok(Action::AddNormal { x, y, z }),
        Ok(Record::TexCoord { u, v }) => Ok(Action::AddTexCoord { u, v }),
        Ok(Record::Face { a, b, c }) => Ok(
            Action::AddCorners {
                a: resolve_corner(&a, positions, uvs, normals),
                b: resolve_corner(&b, positions, uvs, normals),
                c: resolve_corner(&c, positions, uvs, normals),
            },
        ),
    }
}

/// The result of reading a whole text that gave `vertices` vertices: a text
/// without a vertex is refused.
pub fn check_not_empty(vertices: usize) -> (r: Result<(), ObjError>)
    ensures
        r == if vertices == 0 {
            Err::<(), ObjError>(ObjError::NoVertices)
        } else {
            Ok::<(), ObjError>(())
        },
{
    if vertices == 0 {
        Err(ObjError::NoVertices)
    } else {
        Ok(())
    }
}

} // verus!
