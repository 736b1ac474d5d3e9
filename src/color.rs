use crate::error::ConfigError;
use crate::matcher::MatchResult;
use rustc_serialize::hex::{FromHex, FromHexError};
use vstd::prelude::*;

verus! {

#[verifier::external_type_specification]
#[verifier::external_body]
pub struct ExFromHexError(FromHexError);

pub open spec fn is_hex_digit(c: char) -> bool {
    ('0' <= c && c <= '9') || ('a' <= c && c <= 'f') || ('A' <= c && c <= 'F')
}

/// The characters that the hex decoder passes over.
pub open spec fn is_hex_blank(c: char) -> bool {
    c == ' ' || c == '\r' || c == '\n' || c == '\t'
}

pub open spec fn all_hex(s: Seq<char>) -> bool {
    forall|i: int| 0 <= i < s.len() ==> is_hex_digit(#[trigger] s[i])
}

/// `s` holds a character that is neither a hex digit nor a blank.
pub open spec fn has_foreign_char(s: Seq<char>) -> bool {
    exists|i: int| 0 <= i < s.len() && !is_hex_digit(#[trigger] s[i]) && !is_hex_blank(s[i])
}

pub open spec fn hex_value(c: char) -> nat {
    if '0' <= c && c <= '9' {
        (c as u32 - '0' as u32) as nat
    } else if 'a' <= c && c <= 'f' {
        (c as u32 - 'a' as u32 + 10) as nat
    } else {
        (c as u32 - 'A' as u32 + 10) as nat
    }
}

/// One byte for each pair of hex digits, the first digit of a pair the high one.
pub open spec fn hex_decode(s: Seq<char>) -> Seq<u8> {
    Seq::new(s.len() / 2, |i: int| (16 * hex_value(s[2 * i]) + hex_value(s[2 * i + 1])) as u8)
}

/// Relies on rustc_serialize's `FromHex::from_hex` for `str`: blanks are passed
/// over, any other character that is not a hex digit is an error, an odd number
/// of digits is an error, and each pair of digits gives one byte.
#[verifier::external_body]
fn from_hex(s: &str) -> (r: Result<Vec<u8>, FromHexError>)
    ensures
        all_hex(s@) && s@.len() % 2 == 0 ==> r is Ok && r->Ok_0@ == hex_decode(s@),
        has_foreign_char(s@) ==> r is Err,
        r is Ok ==> 2 * r->Ok_0@.len() <= s@.len(),
        r is Ok && 2 * r->Ok_0@.len() == s@.len() ==> all_hex(s@),
{
    s.from_hex()
}

/// The six digits of a color text: the text itself, or what follows a leading `#`.
pub open spec fn color_digits(s: Seq<char>) -> Option<Seq<char>> {
    if s.len() == 7 && s[0] == '#' {
        Some(s.drop_first())
    } else if s.len() == 6 {
        Some(s)
    } else {
        None
    }
}

/// A color text is six hex digits, optionally after a `#`.
pub open spec fn is_color_text(s: Seq<char>) -> bool {
    color_digits(s) matches Some(d) && all_hex(d)
}

/// Reads a color such as `#f0f0f0` or `99cc33` as its red, green and blue bytes.
pub fn to_color(text: &str) -> (r: Result<[u8; 3], ConfigError>)
    ensures
        r is Ok <==> is_color_text(text@),
        r matches Ok(c) ==> c@ == hex_decode(color_digits(text@)->Some_0),
        r matches Err(e) ==> e == ConfigError::ColorFormatError,
{
    let n = text.unicode_len();
    let digits: &str = if n == 7 && text.get_char(0) == '#' {
        text.substring_char(1, 7)
    } else if n == 6 {
        text
    } else {
        return Err(ConfigError::ColorFormatError);
    };
    assert(digits@ == color_digits(text@)->Some_0);
    match from_hex(digits) {
        Ok(v) => {
            if v.len() == 3 {
                let c: [u8; 3] = [v[0], v[1], v[2]];
                assert(c@ =~= v@);
                Ok(c)
            } else {
                Err(ConfigError::ColorFormatError)
            }
        },
        Err(_) => Err(ConfigError::ColorFormatError),
    }
}

/// The channel `a + (part / whole) * (b - a)`, computed exactly and truncated toward
/// zero. The value is never negative, so truncation is the floor; with `part == whole`
/// it is exactly `b`.
pub open spec fn lerp(a: u8, b: u8, part: nat, whole: nat) -> int {
    (a * (whole - part) + b * part) / (whole as int)
}

/// Blends channel `x` toward channel `y` by the proportion `part / whole`.
pub fn u8_lerp(part: usize, whole: usize, x: u8, y: u8) -> (r: u8)
    requires
        0 < whole,
        part <= whole,
    ensures
        r == lerp(x, y, part as nat, whole as nat),
{
    let (a, b, p, w) = (x as u128, y as u128, part as u128, whole as u128);
    assert(a * (w - p) <= 255 * (w - p)) by (nonlinear_arith)
        requires
            a <= 255,
            p <= w,
    ;
    assert(b * p <= 255 * p) by (nonlinear_arith)
        requires
            b <= 255,
    ;
    assert(w <= usize::MAX);
    let num: u128 = a * (w - p) + b * p;
    assert(num as int / w as int <= 255) by (nonlinear_arith)
        requires
            num <= 255 * w,
            0 < w,
    ;
    (num / whole as u128) as u8
}

/// The color whose channels blend `fst` toward `snd` by `part / whole`.
pub open spec fn blend(fst: [u8; 3], snd: [u8; 3], part: nat, whole: nat) -> Seq<u8> {
    Seq::new(3, |i: int| lerp(fst[i], snd[i], part, whole) as u8)
}

/// Blends each channel of `fst` toward `snd` by the proportion `part / whole`.
pub fn color_lerp(part: usize, whole: usize, fst: [u8; 3], snd: [u8; 3]) -> (r: [u8; 3])
    requires
        0 < whole,
        part <= whole,
    ensures
        r@ == blend(fst, snd, part as nat, whole as nat),
{
    let r: [u8; 3] = [
        u8_lerp(part, whole, fst[0], snd[0]),
        u8_lerp(part, whole, fst[1], snd[1]),
        u8_lerp(part, whole, fst[2], snd[2]),
    ];
    assert(r@ =~= blend(fst, snd, part as nat, whole as nat));
    r
}

/// The color of a pixel: `off` where nothing matched, else `on` blended toward
/// `match_color` by the matched proportion.
pub open spec fn resolve_spec(mr: MatchResult, on: [u8; 3], off: [u8; 3], match_color: [u8; 3]) -> Seq<u8> {
    match mr {
        MatchResult::Unmatched => off@,
        MatchResult::Matched { part, whole } => blend(on, match_color, part as nat, whole as nat),
    }
}

proof fn lemma_blend_at_zero(on: [u8; 3], m: [u8; 3], whole: nat)
    requires
        0 < whole,
    ensures
        blend(on, m, 0, whole) == on@,
{
    assert forall|i: int| 0 <= i < 3 implies #[trigger] blend(on, m, 0, whole)[i] == on@[i] by {
        let a = on[i] as int;
        assert(a * (whole - 0) + m[i] * 0 == a * whole) by (nonlinear_arith);
        assert((a * whole) / (whole as int) == a) by (nonlinear_arith)
            requires
                0 < whole,
        ;
    }
    assert(blend(on, m, 0, whole) =~= on@);
}

/// Resolves the color of a pixel from what matching its address gave.
pub fn resolve(mr: MatchResult, on: [u8; 3], off: [u8; 3], match_color: [u8; 3]) -> (r: [u8; 3])
    requires
        mr.wf(),
    ensures
        r@ == resolve_spec(mr, on, off, match_color),
        mr is Unmatched ==> r == off,
        mr matches MatchResult::Matched { part, .. } && part == 0 ==> r == on,
{
    match mr {
        MatchResult::Unmatched => off,
        MatchResult::Matched { part, whole } => {
            let r = color_lerp(part, whole, on, match_color);
            proof {
                if part == 0 {
                    lemma_blend_at_zero(on, match_color, whole as nat);
                    assert(r@ == on@);
                }
            }
            r
        },
    }
}

} // verus!
