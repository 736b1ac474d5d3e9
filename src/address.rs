use vstd::prelude::*;

verus! {

/// `2` raised to the power `k`.
pub open spec fn pow2(k: nat) -> nat
    decreases k,
{
    if k == 0 {
        1
    } else {
        2 * pow2((k - 1) as nat)
    }
}

/// The quadrant symbol of `(x, y)` in a square whose half side is `half`.
pub open spec fn quadrant(x: nat, y: nat, half: nat) -> char {
    if x >= half && y < half {
        '1'
    } else if x < half && y < half {
        '2'
    } else if x < half && y >= half {
        '3'
    } else {
        '4'
    }
}

/// The coordinate left after stepping into the quadrant that holds `c`.
pub open spec fn reduce(c: nat, half: nat) -> nat {
    if c >= half {
        (c - half) as nat
    } else {
        c
    }
}

/// The quadrant walk from half side `half` down to a half side of one.
pub open spec fn walk(x: nat, y: nat, half: nat) -> Seq<char>
    decreases half,
{
    if half <= 1 {
        seq![]
    } else {
        seq![quadrant(x, y, half)] + walk(reduce(x, half), reduce(y, half), half / 2)
    }
}

/// The address of pixel `(x, y)` on a canvas of side `size`.
pub open spec fn address(x: nat, y: nat, size: nat) -> Seq<char> {
    walk(x, y, size / 2)
}

/// Computes the quadrant address of pixel `(x, y)` on a canvas of side `size`:
/// one symbol per halving, `1` north-east, `2` north-west, `3` south-west,
/// `4` south-east.
pub fn pixel_string(x: u32, y: u32, size: u32) -> (r: String)
    ensures
        r@ == address(x as nat, y as nat, size as nat),
{
    let mut cx: u32 = x;
    let mut cy: u32 = y;
    let mut half: u32 = size / 2;
    let mut id = String::new();
    while half > 1
        invariant
            id@ + walk(cx as nat, cy as nat, half as nat) == address(x as nat, y as nat, size as nat),
        decreases half,
    {
        let ghost before = id@;
        let ghost (ox, oy, oh) = (cx as nat, cy as nat, half as nat);
        if cx >= half && cy < half {
            proof {
                reveal_strlit("1");
                assert("1"@ =~= seq!['1']);
            }
            id.append("1");
            assert(id@ =~= before + seq!['1']);
            cx = cx - half;
        } else if cx < half && cy < half {
            proof {
                reveal_strlit("2");
                assert("2"@ =~= seq!['2']);
            }
            id.append("2");
            assert(id@ =~= before + seq!['2']);
        } else if cx < half && cy >= half {
            proof {
                reveal_strlit("3");
                assert("3"@ =~= seq!['3']);
            }
            id.append("3");
            assert(id@ =~= before + seq!['3']);
            cy = cy - half;
        } else {
            proof {
                reveal_strlit("4");
                assert("4"@ =~= seq!['4']);
            }
            id.append("4");
            assert(id@ =~= before + seq!['4']);
            cx = cx - half;
            cy = cy - half;
        }
        half = half / 2;
        proof {
            let q = quadrant(ox, oy, oh);
            assert(id@ == before + seq![q]);
            let rest = walk(cx as nat, cy as nat, half as nat);
            assert(walk(ox, oy, oh) == seq![q] + rest);
            assert((before + seq![q]) + rest =~= before + (seq![q] + rest));
        }
    }
    assert(id@ + seq![] =~= id@);
    id
}

proof fn lemma_pow2_halves(k: nat)
    requires
        k >= 1,
    ensures
        pow2(k) >= 2,
        pow2(k) / 2 == pow2((k - 1) as nat),
        pow2(k) % 2 == 0,
    decreases k,
{
    reveal_with_fuel(pow2, 2);
    if k > 1 {
        lemma_pow2_halves((k - 1) as nat);
    }
}

proof fn lemma_walk_len(x: nat, y: nat, j: nat)
    ensures
        walk(x, y, pow2(j)).len() == j,
    decreases j,
{
    if j >= 1 {
        lemma_pow2_halves(j);
        lemma_walk_len(reduce(x, pow2(j)), reduce(y, pow2(j)), (j - 1) as nat);
    }
}

proof fn lemma_walk_block(x1: nat, y1: nat, x2: nat, y2: nat, j: nat)
    requires
        x1 < 2 * pow2(j),
        y1 < 2 * pow2(j),
        x2 < 2 * pow2(j),
        y2 < 2 * pow2(j),
        walk(x1, y1, pow2(j)) == walk(x2, y2, pow2(j)),
    ensures
        x1 / 2 == x2 / 2,
        y1 / 2 == y2 / 2,
    decreases j,
{
    if j >= 1 {
        let h = pow2(j);
        lemma_pow2_halves(j);
        let m = pow2((j - 1) as nat);
        let w1 = walk(x1, y1, h);
        let w2 = walk(x2, y2, h);
        let r1 = walk(reduce(x1, h), reduce(y1, h), m);
        let r2 = walk(reduce(x2, h), reduce(y2, h), m);
        assert(w1 == seq![quadrant(x1, y1, h)] + r1);
        assert(w2 == seq![quadrant(x2, y2, h)] + r2);
        assert(w1[0] == quadrant(x1, y1, h));
        assert(w2[0] == quadrant(x2, y2, h));
        assert(r1 =~= w1.subrange(1, w1.len() as int));
        assert(r2 =~= w2.subrange(1, w2.len() as int));
        lemma_walk_block(reduce(x1, h), reduce(y1, h), reduce(x2, h), reduce(y2, h), (j - 1) as nat);
    }
}

/// On a canvas whose side is `2^k` with `k >= 1`, every address holds `k - 1` symbols.
pub proof fn address_length(x: nat, y: nat, size: nat, k: nat)
    requires
        k >= 1,
        size == pow2(k),
        x < size,
        y < size,
    ensures
        address(x, y, size).len() == k - 1,
{
    lemma_pow2_halves(k);
    lemma_walk_len(x, y, (k - 1) as nat);
}

/// On a canvas whose side is `2^k` with `k >= 1`, pixels that lie in different aligned
/// two-by-two blocks have different addresses. (The walk stops at a half side of one,
/// so the four pixels of one such block share their address.)
pub proof fn address_injective(x1: nat, y1: nat, x2: nat, y2: nat, size: nat, k: nat)
    requires
        k >= 1,
        size == pow2(k),
        x1 < size,
        y1 < size,
        x2 < size,
        y2 < size,
        x1 / 2 != x2 / 2 || y1 / 2 != y2 / 2,
    ensures
        address(x1, y1, size) != address(x2, y2, size),
{
    lemma_pow2_halves(k);
    if address(x1, y1, size) == address(x2, y2, size) {
        lemma_walk_block(x1, y1, x2, y2, (k - 1) as nat);
    }
}

} // verus!
