use crate::address::{address, pixel_string};
use crate::color::{resolve, resolve_spec};
use crate::config::RenderConfig;
use crate::matcher::outcome;
use vstd::arithmetic::div_mod::{lemma_fundamental_div_mod, lemma_fundamental_div_mod_converse};
use vstd::prelude::*;

verus! {

/// The square grid of colors that a render produces, row after row.
pub struct PixelGrid {
    size: u32,
    pixels: Vec<[u8; 3]>,
}

impl View for PixelGrid {
    type V = Seq<[u8; 3]>;

    closed spec fn view(&self) -> Seq<[u8; 3]> {
        self.pixels@
    }
}

impl PixelGrid {
    pub closed spec fn side(&self) -> nat {
        self.size as nat
    }

    /// Row `y` comes after all the rows above it.
    pub open spec fn at(&self, x: nat, y: nat) -> [u8; 3] {
        self@[(y * self.side() + x) as int]
    }

    pub open spec fn wf(&self) -> bool {
        self@.len() == self.side() * self.side()
    }

    pub fn size(&self) -> (r: u32)
        ensures
            r == self.side(),
    {
        self.size
    }

    /// The color of pixel `(x, y)`.
    pub fn pixel(&self, x: u32, y: u32) -> (r: [u8; 3])
        requires
            self.wf(),
            x < self.side(),
            y < self.side(),
        ensures
            r == self.at(x as nat, y as nat),
    {
        let s = self.size as usize;
        let len = self.pixels.len();
        proof {
            let (xi, yi, si) = (x as int, y as int, s as int);
            assert(yi * si <= (si - 1) * si) by (nonlinear_arith)
                requires
                    yi < si,
                    0 <= si,
            ;
            assert((si - 1) * si == si * si - si) by (nonlinear_arith);
        }
        self.pixels[y as usize * s + x as usize]
    }

    /// The colors, row after row.
    pub fn into_pixels(self) -> (r: Vec<[u8; 3]>)
        ensures
            r@ == self@,
    {
        self.pixels
    }
}

/// The color of pixel `(x, y)` under configuration `c`.
pub open spec fn expected_pixel(c: RenderConfig, x: nat, y: nat) -> Seq<u8> {
    resolve_spec(outcome(c.pattern(), address(x, y, c.side())), c.on(), c.off(), c.matched())
}

/// `g` is the rendering of `c`: its side is `c`'s, and each pixel has the color that
/// `c` gives it.
pub open spec fn is_rendering(c: RenderConfig, g: PixelGrid) -> bool {
    &&& g.wf()
    &&& g.side() == c.side()
    &&& forall|x: nat, y: nat|
        x < g.side() && y < g.side() ==> (#[trigger] g.at(x, y))@ == expected_pixel(c, x, y)
}

proof fn lemma_index_split(i: int, s: int)
    requires
        0 < s,
        0 <= i < s * s,
    ensures
        i == (i / s) * s + i % s,
        0 <= i % s < s,
        0 <= i / s < s,
{
    lemma_fundamental_div_mod(i, s);
    assert(s * (i / s) == (i / s) * s) by (nonlinear_arith);
    if i / s >= s {
        assert(s * (i / s) >= s * s) by (nonlinear_arith)
            requires
                i / s >= s,
                0 < s,
        ;
    }
    assert(0 <= i / s) by (nonlinear_arith)
        requires
            0 <= i,
            0 < s,
    ;
}

/// Colors every pixel of the canvas: its address is matched against the pattern and
/// the outcome picks or blends the reference colors.
pub fn render(config: &RenderConfig) -> (g: PixelGrid)
    requires
        config.wf(),
    ensures
        is_rendering(*config, g),
{
    let size = config.size();
    let s = size as usize;
    assert(s * s <= usize::MAX);
    let n = s * s;
    let matcher = config.matcher();
    let on = config.on_color();
    let off = config.off_color();
    let m = config.match_color();
    let mut pixels: Vec<[u8; 3]> = Vec::new();
    let mut i: usize = 0;
    while i < n
        invariant
            s == config.side(),
            s == size,
            0 < s,
            n == s * s,
            i <= n,
            matcher@ == config.pattern(),
            on == config.on(),
            off == config.off(),
            m == config.matched(),
            pixels@.len() == i,
            forall|j: int|
                0 <= j < i ==> (#[trigger] pixels@[j])@ == expected_pixel(
                    *config,
                    (j % s as int) as nat,
                    (j / s as int) as nat,
                ),
        decreases n - i,
    {
        proof {
            lemma_index_split(i as int, s as int);
        }
        let x = (i % s) as u32;
        let y = (i / s) as u32;
        let id = pixel_string(x, y, size);
        let mr = matcher.evaluate(id.as_str());
        let color = resolve(mr, on, off, m);
        pixels.push(color);
        i = i + 1;
    }
    let g = PixelGrid { size, pixels };
    proof {
        assert forall|x: nat, y: nat| x < g.side() && y < g.side() implies (#[trigger] g.at(
            x,
            y,
        ))@ == expected_pixel(*config, x, y) by {
            let j = (y * s + x) as int;
            assert(j < s * s) by (nonlinear_arith)
                requires
                    x < s,
                    y < s,
                    j == y * s + x,
            ;
            lemma_fundamental_div_mod_converse(j, s as int, y as int, x as int);
        }
    }
    g
}

/// Rendering depends on nothing but the configuration: two configurations with the
/// same pattern, size and colors render to the same pixels.
pub proof fn render_deterministic(c1: RenderConfig, c2: RenderConfig, g1: PixelGrid, g2: PixelGrid)
    requires
        c1.pattern() == c2.pattern(),
        c1.side() == c2.side(),
        c1.on() == c2.on(),
        c1.off() == c2.off(),
        c1.matched() == c2.matched(),
        is_rendering(c1, g1),
        is_rendering(c2, g2),
    ensures
        g1@ == g2@,
{
    let s = c1.side() as int;
    if g1@.len() > 0 {
        assert(s > 0) by (nonlinear_arith)
            requires
                g1@.len() == s * s,
                g1@.len() > 0,
                s >= 0,
        ;
    }
    assert forall|i: int| 0 <= i < g1@.len() implies g1@[i] == g2@[i] by {
        lemma_index_split(i, s);
        let (x, y) = ((i % s) as nat, (i / s) as nat);
        assert(g1.at(x, y)@ == g2.at(x, y)@);
        assert(g1.at(x, y)@ =~= g2.at(x, y)@);
    }
    assert(g1@ =~= g2@);
}

} // verus!
