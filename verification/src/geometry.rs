use vstd::prelude::*;
use vstd::string::StrSliceExecFns;
use vstd::string::StringSliceAdditionalSpecFns;

use crate::errors::ResolveError;

verus! {

/// The byte values the region grammar is built from.
pub const SPACE_BYTE: u8 = 0x20;

pub const COMMA_BYTE: u8 = 0x2c;

pub const LOWER_X_BYTE: u8 = 0x78;

pub const PLUS_BYTE: u8 = 0x2b;

pub const MINUS_BYTE: u8 = 0x2d;

/// A rectangle in logical (pre-scale) coordinates: origin and size.
///
/// A region is *empty* when its width or height is not positive; an empty
/// region intersects nothing.
#[derive(Clone, Copy, Debug, PartialEq, Eq, Structural)]
pub struct Region {
    pub x: i32,
    pub y: i32,
    pub width: i32,
    pub height: i32,
}

impl Region {
    /// True when the region encloses no area.
    pub open spec fn spec_is_empty(self) -> bool {
        self.width <= 0 || self.height <= 0
    }

    pub fn is_empty(&self) -> (r: bool)
        ensures
            r == self.spec_is_empty(),
    {
        self.width <= 0 || self.height <= 0
    }

    /// Two regions intersect when both are non-empty and overlap by a
    /// positive amount on both axes.
    pub open spec fn spec_intersects(self, other: Region) -> bool {
        &&& !self.spec_is_empty()
        &&& !other.spec_is_empty()
        &&& vstd::math::max(self.x as int, other.x as int) < vstd::math::min(
            self.x + self.width,
            other.x + other.width,
        )
        &&& vstd::math::max(self.y as int, other.y as int) < vstd::math::min(
            self.y + self.height,
            other.y + other.height,
        )
    }

    pub fn intersects(&self, other: &Region) -> (r: bool)
        ensures
            r == self.spec_intersects(*other),
    {
        if self.is_empty() || other.is_empty() {
            return false;
        }
        let x1: i64 = if self.x > other.x {
            self.x as i64
        } else {
            other.x as i64
        };
        let y1: i64 = if self.y > other.y {
            self.y as i64
        } else {
            other.y as i64
        };
        let sx2: i64 = self.x as i64 + self.width as i64;
        let ox2: i64 = other.x as i64 + other.width as i64;
        let x2: i64 = if sx2 < ox2 {
            sx2
        } else {
            ox2
        };
        let sy2: i64 = self.y as i64 + self.height as i64;
        let oy2: i64 = other.y as i64 + other.height as i64;
        let y2: i64 = if sy2 < oy2 {
            sy2
        } else {
            oy2
        };
        x2 > x1 && y2 > y1
    }
}

/// A decimal digit, as a byte.
pub open spec fn is_ascii_digit_byte(b: u8) -> bool {
    0x30 <= b <= 0x39
}

/// Value of a sequence of decimal digit bytes, most significant first.
pub open spec fn decimal_value(s: Seq<u8>) -> int
    decreases s.len(),
{
    if s.len() == 0 {
        0
    } else {
        decimal_value(s.drop_last()) * 10 + (s.last() - 0x30)
    }
}

/// The digits of an integer literal: everything after an optional sign.
pub open spec fn int_literal_body(s: Seq<u8>) -> Seq<u8> {
    if s.len() > 0 && (s[0] == PLUS_BYTE || s[0] == MINUS_BYTE) {
        s.drop_first()
    } else {
        s
    }
}

/// An integer literal: an optional sign followed by at least one digit.
/// This is exactly what `i32::from_str` accepts, range aside.
pub open spec fn is_int_literal(s: Seq<u8>) -> bool {
    &&& s.len() > 0
    &&& int_literal_body(s).len() > 0
    &&& forall|i: int|
        0 <= i < int_literal_body(s).len() ==> is_ascii_digit_byte(#[trigger] int_literal_body(s)[i])
}

/// The value an integer literal denotes.
pub open spec fn int_literal_value(s: Seq<u8>) -> int {
    if s.len() > 0 && s[0] == MINUS_BYTE {
        -decimal_value(int_literal_body(s))
    } else {
        decimal_value(int_literal_body(s))
    }
}

/// The texts that parse as an `i32`: well-formed literals whose value is in
/// range.
pub open spec fn parses_as_i32(s: Seq<u8>) -> bool {
    is_int_literal(s) && i32::MIN <= int_literal_value(s) <= i32::MAX
}

/// How many times byte `b` occurs in `s`.
pub open spec fn count_byte(s: Seq<u8>, b: u8) -> int
    decreases s.len(),
{
    if s.len() == 0 {
        0
    } else {
        count_byte(s.drop_last(), b) + if s.last() == b {
            1int
        } else {
            0int
        }
    }
}

/// The index of the first occurrence of `b` in `s` (meaningful only when
/// one exists).
pub open spec fn first_index(s: Seq<u8>, b: u8) -> int
    decreases s.len(),
{
    if s.len() == 0 {
        0
    } else if s[0] == b {
        0
    } else {
        1 + first_index(s.drop_first(), b)
    }
}

/// The region grammar, as grim reads it: the text is
/// split on a single space into `X,Y` and `WIDTHxHEIGHT`, and each of the
/// four fields must parse as an `i32`. `None` means the text is malformed.
pub open spec fn region_parse_spec(s: Seq<u8>) -> Option<Region> {
    if count_byte(s, SPACE_BYTE) != 1 {
        None
    } else {
        let sp = first_index(s, SPACE_BYTE);
        let left = s.subrange(0, sp);
        let right = s.subrange(sp + 1, s.len() as int);
        if count_byte(left, COMMA_BYTE) != 1 || count_byte(right, LOWER_X_BYTE) != 1 {
            None
        } else {
            let c = first_index(left, COMMA_BYTE);
            let xp = first_index(right, LOWER_X_BYTE);
            let tx = left.subrange(0, c);
            let ty = left.subrange(c + 1, left.len() as int);
            let tw = right.subrange(0, xp);
            let th = right.subrange(xp + 1, right.len() as int);
            if parses_as_i32(tx) && parses_as_i32(ty) && parses_as_i32(tw) && parses_as_i32(th) {
                Some(
                    Region {
                        x: int_literal_value(tx) as i32,
                        y: int_literal_value(ty) as i32,
                        width: int_literal_value(tw) as i32,
                        height: int_literal_value(th) as i32,
                    },
                )
            } else {
                None
            }
        }
    }
}

proof fn lemma_count_byte_zero(s: Seq<u8>, b: u8)
    requires
        forall|m: int| 0 <= m < s.len() ==> s[m] != b,
    ensures
        count_byte(s, b) == 0,
    decreases s.len(),
{
    if s.len() > 0 {
        lemma_count_byte_zero(s.drop_last(), b);
    }
}

proof fn lemma_count_byte_nonneg(s: Seq<u8>, b: u8)
    ensures
        count_byte(s, b) >= 0,
    decreases s.len(),
{
    if s.len() > 0 {
        lemma_count_byte_nonneg(s.drop_last(), b);
    }
}

proof fn lemma_count_byte_at_least_one(s: Seq<u8>, b: u8, i: int)
    requires
        0 <= i < s.len(),
        s[i] == b,
    ensures
        count_byte(s, b) >= 1,
    decreases s.len(),
{
    if i < s.len() - 1 {
        lemma_count_byte_at_least_one(s.drop_last(), b, i);
    } else {
        lemma_count_byte_nonneg(s.drop_last(), b);
    }
}

proof fn lemma_count_byte_two(s: Seq<u8>, b: u8, i: int, j: int)
    requires
        0 <= i < j < s.len(),
        s[i] == b,
        s[j] == b,
    ensures
        count_byte(s, b) >= 2,
    decreases s.len(),
{
    if j == s.len() - 1 {
        lemma_count_byte_at_least_one(s.drop_last(), b, i);
    } else {
        lemma_count_byte_two(s.drop_last(), b, i, j);
    }
}

proof fn lemma_count_byte_single(s: Seq<u8>, b: u8, i: int)
    requires
        0 <= i < s.len(),
        s[i] == b,
        forall|m: int| 0 <= m < s.len() && m != i ==> s[m] != b,
    ensures
        count_byte(s, b) == 1,
    decreases s.len(),
{
    if i == s.len() - 1 {
        lemma_count_byte_zero(s.drop_last(), b);
    } else {
        lemma_count_byte_single(s.drop_last(), b, i);
    }
}

proof fn lemma_first_index_at(s: Seq<u8>, b: u8, i: int)
    requires
        0 <= i < s.len(),
        s[i] == b,
        forall|m: int| 0 <= m < i ==> s[m] != b,
    ensures
        first_index(s, b) == i,
    decreases s.len(),
{
    if i > 0 {
        lemma_first_index_at(s.drop_first(), b, i - 1);
    }
}

proof fn lemma_decimal_value_nonneg(s: Seq<u8>)
    requires
        forall|i: int| 0 <= i < s.len() ==> is_ascii_digit_byte(#[trigger] s[i]),
    ensures
        decimal_value(s) >= 0,
    decreases s.len(),
{
    if s.len() > 0 {
        lemma_decimal_value_nonneg(s.drop_last());
    }
}

proof fn lemma_decimal_value_prefix(s: Seq<u8>, i: int)
    requires
        forall|m: int| 0 <= m < s.len() ==> is_ascii_digit_byte(#[trigger] s[m]),
        0 <= i <= s.len(),
    ensures
        decimal_value(s.subrange(0, i)) <= decimal_value(s),
    decreases s.len() - i,
{
    if i == s.len() {
        assert(s.subrange(0, i) =~= s);
    } else {
        lemma_decimal_value_prefix(s, i + 1);
        let t = s.subrange(0, i + 1);
        assert(t.drop_last() =~= s.subrange(0, i));
        lemma_decimal_value_nonneg(t.drop_last());
    }
}

/// Find the single occurrence of `b` in `v[lo..hi]`. `Some(i)` is an
/// absolute index; `None` means there is no occurrence, or more than one.
fn find_single_range(v: &Vec<u8>, lo: usize, hi: usize, b: u8) -> (r: Option<usize>)
    requires
        lo <= hi <= v@.len(),
    ensures
        ({
            let sub = v@.subrange(lo as int, hi as int);
            match r {
                Some(i) => {
                    &&& lo <= i < hi
                    &&& count_byte(sub, b) == 1
                    &&& first_index(sub, b) == i - lo
                },
                None => count_byte(sub, b) != 1,
            }
        }),
{
    let ghost sub = v@.subrange(lo as int, hi as int);
    let mut found: bool = false;
    let mut idx: usize = lo;
    let mut j: usize = lo;
    while j < hi
        invariant
            lo <= j <= hi <= v@.len(),
            sub == v@.subrange(lo as int, hi as int),
            found ==> lo <= idx < j && v@[idx as int] == b,
            found ==> forall|m: int| lo <= m < j && m != idx ==> v@[m] != b,
            !found ==> forall|m: int| lo <= m < j ==> v@[m] != b,
        decreases hi - j,
    {
        if v[j] == b {
            if found {
                proof {
                    lemma_count_byte_two(sub, b, idx - lo, j - lo);
                }
                return None;
            }
            found = true;
            idx = j;
        }
        j += 1;
    }
    if found {
        proof {
            lemma_count_byte_single(sub, b, idx - lo);
            lemma_first_index_at(sub, b, idx - lo);
        }
        Some(idx)
    } else {
        proof {
            lemma_count_byte_zero(sub, b);
        }
        None
    }
}

/// Parse `v[lo..hi]` exactly as `i32::from_str` would: an optional sign,
/// then digits, rejected when the value leaves the `i32` range.
fn parse_i32_range(v: &Vec<u8>, lo: usize, hi: usize) -> (r: Option<i32>)
    requires
        lo <= hi <= v@.len(),
    ensures
        ({
            let sub = v@.subrange(lo as int, hi as int);
            match r {
                Some(val) => parses_as_i32(sub) && val as int == int_literal_value(sub),
                None => !parses_as_i32(sub),
            }
        }),
{
    let ghost sub = v@.subrange(lo as int, hi as int);
    if lo == hi {
        return None;
    }
    let first = v[lo];
    let neg: bool = first == MINUS_BYTE;
    let body_lo: usize = if first == MINUS_BYTE || first == PLUS_BYTE {
        lo + 1
    } else {
        lo
    };
    let ghost body = v@.subrange(body_lo as int, hi as int);
    proof {
        assert(int_literal_body(sub) =~= body);
    }
    if body_lo == hi {
        return None;
    }
    let mut acc: u64 = 0;
    let mut i: usize = body_lo;
    while i < hi
        invariant
            body_lo <= i <= hi <= v@.len(),
            body == v@.subrange(body_lo as int, hi as int),
            sub == v@.subrange(lo as int, hi as int),
            int_literal_body(sub) == body,
            sub.len() > 0,
            body.len() > 0,
            neg == (sub[0] == MINUS_BYTE),
            acc == decimal_value(v@.subrange(body_lo as int, i as int)),
            acc <= 0x8000_0000,
            forall|m: int| body_lo <= m < i ==> is_ascii_digit_byte(#[trigger] v@[m]),
        decreases hi - i,
    {
        let c = v[i];
        if c < 0x30 || 0x39 < c {
            proof {
                assert(!is_ascii_digit_byte(body[i - body_lo]));
            }
            return None;
        }
        let ghost prefix = v@.subrange(body_lo as int, i as int);
        let ghost prefix2 = v@.subrange(body_lo as int, i + 1);
        proof {
            assert(prefix2.drop_last() =~= prefix);
        }
        acc = acc * 10 + ((c - 0x30) as u64);
        if acc > 0x8000_0000 {
            proof {
                if is_int_literal(sub) {
                    lemma_decimal_value_prefix(body, i + 1 - body_lo);
                    assert(body.subrange(0, i + 1 - body_lo) =~= prefix2);
                }
            }
            return None;
        }
        i += 1;
    }
    proof {
        assert(v@.subrange(body_lo as int, i as int) =~= body);
        assert(is_int_literal(sub));
    }
    if neg {
        let val: i64 = -(acc as i64);
        Some(val as i32)
    } else {
        if acc > 0x7fff_ffff {
            return None;
        }
        Some(acc as i32)
    }
}

/// Parse a region literal `X,Y WIDTHxHEIGHT`, with the same grammar grim
/// accepts. A malformed text is reported with the offending
/// text, as a geometry parse error.
#[verifier::rlimit(80)]
pub fn parse_region(s: &str) -> (r: Result<Region, ResolveError>)
    ensures
        match region_parse_spec(s.spec_bytes()) {
            Some(reg) => r == Ok::<Region, ResolveError>(reg),
            None => r matches Err(ResolveError::GeometryParse(t)) && t@ == s@,
        },
{
    let bytes = s.as_bytes_vec();
    let n = bytes.len();
    let sp_opt = find_single_range(&bytes, 0, n, SPACE_BYTE);
    proof {
        assert(bytes@.subrange(0, n as int) =~= bytes@);
    }
    let sp = match sp_opt {
        Some(i) => i,
        None => {
            return Err(ResolveError::GeometryParse(s.to_owned()));
        },
    };
    let comma_opt = find_single_range(&bytes, 0, sp, COMMA_BYTE);
    let x_opt = find_single_range(&bytes, sp + 1, n, LOWER_X_BYTE);
    proof {
        assert(bytes@.subrange(0, sp as int) =~= bytes@.subrange(0, first_index(bytes@, SPACE_BYTE)));
        assert(bytes@.subrange(sp + 1, n as int) =~= bytes@.subrange(
            first_index(bytes@, SPACE_BYTE) + 1,
            bytes@.len() as int,
        ));
    }
    let (c, xp) = match (comma_opt, x_opt) {
        (Some(c), Some(xp)) => (c, xp),
        _ => {
            return Err(ResolveError::GeometryParse(s.to_owned()));
        },
    };
    proof {
        let left = bytes@.subrange(0, sp as int);
        let right = bytes@.subrange(sp + 1, n as int);
        assert(bytes@.subrange(0, c as int) =~= left.subrange(0, first_index(left, COMMA_BYTE)));
        assert(bytes@.subrange(c + 1, sp as int) =~= left.subrange(
            first_index(left, COMMA_BYTE) + 1,
            left.len() as int,
        ));
        assert(bytes@.subrange(sp + 1, xp as int) =~= right.subrange(
            0,
            first_index(right, LOWER_X_BYTE),
        ));
        assert(bytes@.subrange(xp + 1, n as int) =~= right.subrange(
            first_index(right, LOWER_X_BYTE) + 1,
            right.len() as int,
        ));
    }
    let x = parse_i32_range(&bytes, 0, c);
    let y = parse_i32_range(&bytes, c + 1, sp);
    let w = parse_i32_range(&bytes, sp + 1, xp);
    let h = parse_i32_range(&bytes, xp + 1, n);
    match (x, y, w, h) {
        (Some(x), Some(y), Some(w), Some(h)) => Ok(Region { x, y, width: w, height: h }),
        _ => Err(ResolveError::GeometryParse(s.to_owned())),
    }
}

} // verus!
