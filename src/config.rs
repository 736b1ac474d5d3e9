use crate::color::{color_digits, hex_decode, is_color_text, to_color};
use crate::error::ConfigError;
use crate::matcher::{regex_accepts, PatternMatcher};
use vstd::prelude::*;

verus! {

/// The side of the canvas when none is given.
pub const DEFAULT_SIZE: u32 = 2048;

pub open spec fn is_digit(c: char) -> bool {
    '0' <= c && c <= '9'
}

/// The value of a text of decimal digits, the last digit the lowest.
pub open spec fn decimal_value(s: Seq<char>) -> nat
    decreases s.len(),
{
    if s.len() == 0 {
        0
    } else {
        10 * decimal_value(s.drop_last()) + (s.last() as u32 - '0' as u32) as nat
    }
}

/// A size text is a non-empty run of decimal digits whose value fits in 32 bits.
pub open spec fn is_size_text(s: Seq<char>) -> bool {
    &&& s.len() > 0
    &&& forall|i: int| 0 <= i < s.len() ==> is_digit(#[trigger] s[i])
    &&& decimal_value(s) <= u32::MAX
}

proof fn lemma_decimal_grows(s: Seq<char>, i: int)
    requires
        0 <= i <= s.len(),
        forall|j: int| 0 <= j < s.len() ==> is_digit(#[trigger] s[j]),
    ensures
        decimal_value(s.take(i)) <= decimal_value(s),
    decreases s.len() - i,
{
    if i < s.len() {
        lemma_decimal_grows(s, i + 1);
        let t = s.take(i + 1);
        assert(t.drop_last() =~= s.take(i));
    } else {
        assert(s.take(i) =~= s);
    }
}

/// Reads a canvas side written in decimal digits.
pub fn parse_size(text: &str) -> (r: Result<u32, ConfigError>)
    ensures
        r is Ok <==> is_size_text(text@),
        r is Ok ==> r->Ok_0 == decimal_value(text@),
        r is Err ==> r->Err_0 == ConfigError::InvalidSizeError,
{
    let n = text.unicode_len();
    if n == 0 {
        return Err(ConfigError::InvalidSizeError);
    }
    let mut acc: u64 = 0;
    let mut i: usize = 0;
    while i < n
        invariant
            n == text@.len(),
            0 <= i <= n,
            forall|j: int| 0 <= j < i ==> is_digit(#[trigger] text@[j]),
            acc == decimal_value(text@.take(i as int)),
            acc <= u32::MAX,
        decreases n - i,
    {
        let c = text.get_char(i);
        if !('0' <= c && c <= '9') {
            return Err(ConfigError::InvalidSizeError);
        }
        let d = (c as u32 - '0' as u32) as u64;
        let next = acc * 10 + d;
        proof {
            let t = text@.take(i as int + 1);
            assert(t.drop_last() =~= text@.take(i as int));
            assert(next == decimal_value(t));
        }
        if next > u32::MAX as u64 {
            proof {
                if forall|j: int| 0 <= j < text@.len() ==> is_digit(#[trigger] text@[j]) {
                    lemma_decimal_grows(text@, i as int + 1);
                }
            }
            return Err(ConfigError::InvalidSizeError);
        }
        acc = next;
        i = i + 1;
    }
    assert(text@.take(n as int) =~= text@);
    Ok(acc as u32)
}

/// The canvas of side `size` has at least one pixel and its pixel count fits in
/// a `usize`.
pub open spec fn is_canvas_size(size: nat) -> bool {
    0 < size && size * size <= usize::MAX
}

fn fits_canvas(size: u32) -> (r: bool)
    ensures
        r == is_canvas_size(size as nat),
{
    let s = size as u64;
    assert(s * s <= u32::MAX * u32::MAX) by (nonlinear_arith)
        requires
            s <= u32::MAX,
    ;
    size > 0 && s * s <= usize::MAX as u64
}

/// What a render works from: a compiled pattern, the side of the square canvas,
/// and the three reference colors.
pub struct RenderConfig {
    matcher: PatternMatcher,
    size: u32,
    on_color: [u8; 3],
    off_color: [u8; 3],
    match_color: [u8; 3],
}

impl RenderConfig {
    pub closed spec fn pattern(&self) -> Seq<char> {
        self.matcher@
    }

    pub closed spec fn side(&self) -> nat {
        self.size as nat
    }

    pub closed spec fn on(&self) -> [u8; 3] {
        self.on_color
    }

    pub closed spec fn off(&self) -> [u8; 3] {
        self.off_color
    }

    pub closed spec fn matched(&self) -> [u8; 3] {
        self.match_color
    }

    pub open spec fn wf(&self) -> bool {
        is_canvas_size(self.side())
    }

    pub(crate) fn matcher(&self) -> (r: &PatternMatcher)
        ensures
            r@ == self.pattern(),
    {
        &self.matcher
    }

    pub fn size(&self) -> (r: u32)
        ensures
            r == self.side(),
    {
        self.size
    }

    pub fn on_color(&self) -> (r: [u8; 3])
        ensures
            r == self.on(),
    {
        self.on_color
    }

    pub fn off_color(&self) -> (r: [u8; 3])
        ensures
            r == self.off(),
    {
        self.off_color
    }

    pub fn match_color(&self) -> (r: [u8; 3])
        ensures
            r == self.matched(),
    {
        self.match_color
    }

    /// Validates the size and compiles the pattern. A bad size is reported first.
    pub fn new(pattern: &str, size: u32, on_color: [u8; 3], off_color: [u8; 3], match_color: [u8; 3]) -> (r: Result<RenderConfig, ConfigError>)
        ensures
            r is Ok <==> is_canvas_size(size as nat) && regex_accepts(pattern@),
            !is_canvas_size(size as nat) ==> r == Err::<RenderConfig, ConfigError>(ConfigError::InvalidSizeError),
            is_canvas_size(size as nat) && !regex_accepts(pattern@) ==> r == Err::<RenderConfig, ConfigError>(ConfigError::PatternError),
            r is Ok ==> ({
                let c = r->Ok_0;
                &&& c.wf()
                &&& c.pattern() == pattern@
                &&& c.side() == size
                &&& c.on() == on_color
                &&& c.off() == off_color
                &&& c.matched() == match_color
            }),
    {
        if !fits_canvas(size) {
            return Err(ConfigError::InvalidSizeError);
        }
        let matcher = PatternMatcher::new(pattern)?;
        Ok(RenderConfig { matcher, size, on_color, off_color, match_color })
    }

    /// Builds a configuration from texts as a command line gives them; a missing
    /// size is 2048, a missing on color `#ffffff`, off color `#222222` and match
    /// color `#ffffff`. The size is checked first, then the on, off and match
    /// colors, then the pattern.
    pub fn from_options(
        pattern: &str,
        size: Option<&str>,
        on_color: Option<&str>,
        off_color: Option<&str>,
        match_color: Option<&str>,
    ) -> (r: Result<RenderConfig, ConfigError>)
        ensures
            ({
                let sz = requested_size(opt_view(size));
                let on = requested_color(opt_view(on_color), seq![255u8, 255, 255]);
                let off = requested_color(opt_view(off_color), seq![34u8, 34, 34]);
                let m = requested_color(opt_view(match_color), seq![255u8, 255, 255]);
                &&& r is Ok <==> sz is Some && is_canvas_size(sz->Some_0) && on is Some
                    && off is Some && m is Some && regex_accepts(pattern@)
                &&& (sz is None || !is_canvas_size(sz->Some_0)) ==> r
                    == Err::<RenderConfig, ConfigError>(ConfigError::InvalidSizeError)
                &&& sz is Some && is_canvas_size(sz->Some_0) && (on is None || off is None
                    || m is None) ==> r == Err::<RenderConfig, ConfigError>(
                    ConfigError::ColorFormatError,
                )
                &&& sz is Some && is_canvas_size(sz->Some_0) && on is Some && off is Some
                    && m is Some && !regex_accepts(pattern@) ==> r == Err::<RenderConfig, ConfigError>(
                    ConfigError::PatternError,
                )
                &&& r is Ok ==> ({
                    let c = r->Ok_0;
                    &&& c.wf()
                    &&& c.pattern() == pattern@
                    &&& c.side() == sz->Some_0
                    &&& c.on()@ == on->Some_0
                    &&& c.off()@ == off->Some_0
                    &&& c.matched()@ == m->Some_0
                })
            }),
    {
        let sz: u32 = match size {
            Some(t) => parse_size(t)?,
            None => DEFAULT_SIZE,
        };
        if !fits_canvas(sz) {
            return Err(ConfigError::InvalidSizeError);
        }
        let on = color_or(on_color, [255u8, 255, 255])?;
        let off = color_or(off_color, [34u8, 34, 34])?;
        let m = color_or(match_color, [255u8, 255, 255])?;
        RenderConfig::new(pattern, sz, on, off, m)
    }
}

pub open spec fn opt_view(s: Option<&str>) -> Option<Seq<char>> {
    match s {
        Some(t) => Some(t@),
        None => None,
    }
}

/// The size that a size option asks for: the default when absent, `None` when
/// the text is no size.
pub open spec fn requested_size(s: Option<Seq<char>>) -> Option<nat> {
    match s {
        None => Some(DEFAULT_SIZE as nat),
        Some(t) => if is_size_text(t) {
            Some(decimal_value(t))
        } else {
            None
        },
    }
}

/// The color that a color option asks for: `default` when absent, `None` when
/// the text is no color.
pub open spec fn requested_color(s: Option<Seq<char>>, default: Seq<u8>) -> Option<Seq<u8>> {
    match s {
        None => Some(default),
        Some(t) => if is_color_text(t) {
            Some(hex_decode(color_digits(t)->Some_0))
        } else {
            None
        },
    }
}

fn color_or(text: Option<&str>, default: [u8; 3]) -> (r: Result<[u8; 3], ConfigError>)
    ensures
        r is Ok <==> requested_color(opt_view(text), default@) is Some,
        r is Ok ==> r->Ok_0@ == requested_color(opt_view(text), default@)->Some_0,
        r is Err ==> r->Err_0 == ConfigError::ColorFormatError,
{
    match text {
        Some(t) => to_color(t),
        None => Ok(default),
    }
}

} // verus!
