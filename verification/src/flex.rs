//! The flex layout algorithm: partitioning a container's extent among
//! children with mixed fixed-size and proportional-growth constraints.

use vstd::prelude::*;
use vstd::arithmetic::div_mod::{
    lemma_div_is_ordered, lemma_div_multiples_vanish, lemma_div_pos_is_pos,
    lemma_fundamental_div_mod, lemma_mod_bound,
};
use vstd::arithmetic::mul::lemma_mul_inequality;
use crate::rect::Rect;

verus! {

/// A per-child layout directive: a fixed number of cells along the
/// layout axis, or a proportional share of the space left over once the
/// fixed-size children are served.
#[derive(Clone, Copy, PartialEq, Eq, Structural, Debug)]
pub enum Flex {
    Block(u16),
    Grow(u16),
}

/// Cells demanded by the fixed-size children among the first `i`.
pub open spec fn fixed_prefix(s: Seq<Flex>, i: int) -> int
    decreases i,
{
    if i <= 0 {
        0
    } else {
        fixed_prefix(s, i - 1) + (match s[i - 1] {
            Flex::Block(len) => len as int,
            Flex::Grow(_) => 0,
        })
    }
}

/// Cells demanded by all fixed-size children together.
pub open spec fn fixed_total(s: Seq<Flex>) -> int {
    fixed_prefix(s, s.len() as int)
}

/// Weight of the growing children among the first `i`.
pub open spec fn grow_prefix(s: Seq<Flex>, i: int) -> int
    decreases i,
{
    if i <= 0 {
        0
    } else {
        grow_prefix(s, i - 1) + (match s[i - 1] {
            Flex::Block(_) => 0,
            Flex::Grow(weight) => weight as int,
        })
    }
}

/// Weight of all growing children together.
pub open spec fn grow_total(s: Seq<Flex>) -> int {
    grow_prefix(s, s.len() as int)
}

/// The space left for growing children: the container's extent less the
/// fixed demand, clamped at zero so oversized fixed children overflow
/// the container instead of failing.
pub open spec fn remaining_space(extent: int, s: Seq<Flex>) -> int {
    if fixed_total(s) >= extent {
        0
    } else {
        extent - fixed_total(s)
    }
}

/// The extent one flex spec receives: a fixed child its length, a
/// growing child its weight's floor-rounded share of the remaining
/// space. With no positive grow weight the division never happens and
/// growing children receive nothing.
pub open spec fn flex_share(f: Flex, remaining: int, total_grow: int) -> int {
    match f {
        Flex::Block(len) => len as int,
        Flex::Grow(weight) => if total_grow <= 0 {
            0
        } else {
            (weight as int) * remaining / total_grow
        },
    }
}

/// Cells allocated to the first `i` children together; child `i` begins
/// this many cells past the container's origin.
pub open spec fn alloc_prefix(s: Seq<Flex>, remaining: int, total_grow: int, i: int) -> int
    decreases i,
{
    if i <= 0 {
        0
    } else {
        alloc_prefix(s, remaining, total_grow, i - 1) + flex_share(s[i - 1], remaining, total_grow)
    }
}

/// Cells allocated to all children of a container of the given extent.
pub open spec fn alloc_total(s: Seq<Flex>, extent: int) -> int {
    alloc_prefix(s, remaining_space(extent, s), grow_total(s), s.len() as int)
}

/// How many of the first `i` children grow with positive weight.
pub open spec fn grow_count(s: Seq<Flex>, i: int) -> int
    decreases i,
{
    if i <= 0 {
        0
    } else {
        grow_count(s, i - 1) + (match s[i - 1] {
            Flex::Block(_) => 0,
            Flex::Grow(weight) => if weight > 0 { 1int } else { 0 },
        })
    }
}

proof fn lemma_prefixes_nonneg(s: Seq<Flex>, i: int)
    ensures
        fixed_prefix(s, i) >= 0,
        grow_prefix(s, i) >= 0,
        grow_count(s, i) >= 0,
        grow_count(s, i) <= grow_prefix(s, i),
    decreases i,
{
    if i > 0 {
        lemma_prefixes_nonneg(s, i - 1);
    }
}

proof fn lemma_grow_prefix_mono(s: Seq<Flex>, i: int, j: int)
    requires
        0 <= i <= j,
    ensures
        grow_prefix(s, i) <= grow_prefix(s, j),
        fixed_prefix(s, i) <= fixed_prefix(s, j),
    decreases j,
{
    if i < j {
        lemma_grow_prefix_mono(s, i, j - 1);
    }
}

/// The weight of any single growing child never exceeds the total.
proof fn lemma_weight_le_total(s: Seq<Flex>, i: int)
    requires
        0 <= i < s.len(),
        s[i] is Grow,
    ensures
        s[i]->Grow_0 as int <= grow_total(s),
{
    lemma_prefixes_nonneg(s, i);
    lemma_grow_prefix_mono(s, i + 1, s.len() as int);
}

/// A share is never negative, and a growing share never exceeds the
/// remaining space.
proof fn lemma_share_bounds(s: Seq<Flex>, remaining: int, i: int)
    requires
        0 <= i < s.len(),
        remaining >= 0,
    ensures
        flex_share(s[i], remaining, grow_total(s)) >= 0,
        s[i] is Grow ==> flex_share(s[i], remaining, grow_total(s)) <= remaining,
{
    let g = grow_total(s);
    if s[i] is Grow && g > 0 {
        let w = s[i]->Grow_0 as int;
        lemma_weight_le_total(s, i);
        lemma_div_pos_is_pos(w * remaining, g);
        lemma_mul_inequality(w, g, remaining);
        lemma_div_is_ordered(w * remaining, g * remaining, g);
        lemma_div_multiples_vanish(remaining, g);
        assert(g * remaining == remaining * g) by (nonlinear_arith);
        assert((g * remaining) / g == remaining);
    }
}

/// Upper bound: scaled by the total weight, the cells given to growing
/// children among the first `i` never exceed their weight's exact share.
proof fn lemma_alloc_prefix_upper(s: Seq<Flex>, remaining: int, g: int, i: int)
    requires
        0 <= i <= s.len(),
        remaining >= 0,
        g == grow_total(s),
    ensures
        g > 0 ==> g * (alloc_prefix(s, remaining, g, i) - fixed_prefix(s, i)) <= grow_prefix(s, i)
            * remaining,
        g <= 0 ==> alloc_prefix(s, remaining, g, i) == fixed_prefix(s, i),
    decreases i,
{
    if i == 0 && g > 0 {
        assert(g * (alloc_prefix(s, remaining, g, 0) - fixed_prefix(s, 0)) <= grow_prefix(s, 0)
            * remaining) by (nonlinear_arith)
        requires
            alloc_prefix(s, remaining, g, 0) == 0,
            fixed_prefix(s, 0) == 0,
            grow_prefix(s, 0) == 0,
        ;
    }
    if i > 0 {
        lemma_alloc_prefix_upper(s, remaining, g, i - 1);
        if g > 0 {
            let a = alloc_prefix(s, remaining, g, i - 1) - fixed_prefix(s, i - 1);
            let p = grow_prefix(s, i - 1);
            match s[i - 1] {
                Flex::Block(_) => {
                    assert(g * (alloc_prefix(s, remaining, g, i) - fixed_prefix(s, i))
                        <= grow_prefix(s, i) * remaining) by (nonlinear_arith)
                    requires
                        alloc_prefix(s, remaining, g, i) - fixed_prefix(s, i) == a,
                        grow_prefix(s, i) == p,
                        g * a <= p * remaining,
                    ;
                }
                Flex::Grow(w0) => {
                    let w = w0 as int;
                    let q = w * remaining / g;
                    lemma_fundamental_div_mod(w * remaining, g);
                    lemma_mod_bound(w * remaining, g);
                    assert(g * q <= w * remaining);
                    assert(g * (alloc_prefix(s, remaining, g, i) - fixed_prefix(s, i))
                        <= grow_prefix(s, i) * remaining) by (nonlinear_arith)
                    requires
                        alloc_prefix(s, remaining, g, i) - fixed_prefix(s, i) == a + q,
                        grow_prefix(s, i) == p + w,
                        g * a <= p * remaining,
                        g * q <= w * remaining,
                    ;
                }
            }
        }
    }
}

/// Lower bound: scaled by the total weight, the cells given to growing
/// children among the first `i` fall short of their exact share by less
/// than one cell per positively weighted child.
proof fn lemma_alloc_prefix_lower(s: Seq<Flex>, remaining: int, g: int, i: int)
    requires
        0 <= i <= s.len(),
        remaining >= 0,
        g == grow_total(s),
        g > 0,
    ensures
        g * (alloc_prefix(s, remaining, g, i) - fixed_prefix(s, i)) >= grow_prefix(s, i)
            * remaining - grow_count(s, i) * (g - 1),
    decreases i,
{
    if i == 0 {
        assert(g * (alloc_prefix(s, remaining, g, 0) - fixed_prefix(s, 0)) >= grow_prefix(s, 0)
            * remaining - grow_count(s, 0) * (g - 1)) by (nonlinear_arith)
        requires
            alloc_prefix(s, remaining, g, 0) == 0,
            fixed_prefix(s, 0) == 0,
            grow_prefix(s, 0) == 0,
            grow_count(s, 0) == 0,
        ;
    }
    if i > 0 {
        lemma_alloc_prefix_lower(s, remaining, g, i - 1);
        let a = alloc_prefix(s, remaining, g, i - 1) - fixed_prefix(s, i - 1);
        let p = grow_prefix(s, i - 1);
        let c = grow_count(s, i - 1);
        match s[i - 1] {
            Flex::Block(_) => {
                assert(g * (alloc_prefix(s, remaining, g, i) - fixed_prefix(s, i))
                    >= grow_prefix(s, i) * remaining - grow_count(s, i) * (g - 1))
                    by (nonlinear_arith)
                requires
                    alloc_prefix(s, remaining, g, i) - fixed_prefix(s, i) == a,
                    grow_prefix(s, i) == p,
                    grow_count(s, i) == c,
                    g * a >= p * remaining - c * (g - 1),
                ;
            }
            Flex::Grow(w0) => {
                let w = w0 as int;
                let q = w * remaining / g;
                lemma_fundamental_div_mod(w * remaining, g);
                lemma_mod_bound(w * remaining, g);
                if w > 0 {
                    assert(g * q >= w * remaining - (g - 1));
                    assert(g * (alloc_prefix(s, remaining, g, i) - fixed_prefix(s, i))
                        >= grow_prefix(s, i) * remaining - grow_count(s, i) * (g - 1))
                        by (nonlinear_arith)
                    requires
                        alloc_prefix(s, remaining, g, i) - fixed_prefix(s, i) == a + q,
                        grow_prefix(s, i) == p + w,
                        grow_count(s, i) == c + 1,
                        g * a >= p * remaining - c * (g - 1),
                        g * q >= w * remaining - (g - 1),
                        w >= 1,
                        remaining >= 0,
                        g > 0,
                    ;
                } else {
                    assert(w * remaining == 0) by (nonlinear_arith)
                    requires
                        w == 0,
                    ;
                    lemma_div_pos_is_pos(w * remaining, g);
                    assert(g * q <= 0);
                    assert(g * q == 0) by (nonlinear_arith)
                    requires
                        g > 0,
                        q >= 0,
                        g * q <= 0,
                    ;
                    assert(g * (alloc_prefix(s, remaining, g, i) - fixed_prefix(s, i))
                        >= grow_prefix(s, i) * remaining - grow_count(s, i) * (g - 1))
                        by (nonlinear_arith)
                    requires
                        alloc_prefix(s, remaining, g, i) - fixed_prefix(s, i) == a + q,
                        grow_prefix(s, i) == p,
                        grow_count(s, i) == c,
                        g * a >= p * remaining - c * (g - 1),
                        g * q == 0,
                        g > 0,
                    ;
                }
            }
        }
    }
}

/// Law (partition): the computed extents tile the container from its
/// origin — child `i` occupies the cells from `alloc_prefix(.., i)` to
/// `alloc_prefix(.., i + 1)`, so consecutive children touch and never
/// overlap — and when the fixed children fit, the allocation stays
/// within the container's extent. The unallocated cells are exactly the
/// trailing run past the last child: strictly fewer than the total grow
/// weight when any child grows, and exactly the undistributed remainder
/// when none does.
pub proof fn lemma_layout_partition(extent: u16, s: Seq<Flex>)
    requires
        fixed_total(s) <= extent,
    ensures
        forall|i: int, j: int|
            0 <= i <= j <= s.len() ==> #[trigger] alloc_prefix(
                s,
                remaining_space(extent as int, s),
                grow_total(s),
                i,
            ) <= #[trigger] alloc_prefix(s, remaining_space(extent as int, s), grow_total(s), j),
        alloc_total(s, extent as int) <= extent,
        grow_total(s) > 0 ==> extent - alloc_total(s, extent as int) < grow_total(s),
        grow_total(s) == 0 ==> alloc_total(s, extent as int) == fixed_total(s),
{
    let rem = remaining_space(extent as int, s);
    let g = grow_total(s);
    let n = s.len() as int;
    lemma_prefixes_nonneg(s, n);
    assert forall|i: int, j: int| 0 <= i <= j <= s.len() implies #[trigger] alloc_prefix(
        s,
        rem,
        g,
        i,
    ) <= #[trigger] alloc_prefix(s, rem, g, j) by {
        lemma_alloc_prefix_mono(s, rem, i, j);
    }
    lemma_alloc_prefix_upper(s, rem, g, n);
    if g > 0 {
        let alloc = alloc_prefix(s, rem, g, n);
        assert(g * (alloc - fixed_prefix(s, n)) <= g * rem) by {
            lemma_mul_inequality(grow_prefix(s, n), g, rem);
            assert(g * rem == rem * g) by (nonlinear_arith);
            assert(grow_prefix(s, n) * rem <= g * rem);
        }
        assert(alloc - fixed_prefix(s, n) <= rem) by (nonlinear_arith)
        requires
            g > 0,
            g * (alloc - fixed_prefix(s, n)) <= g * rem,
        ;
        lemma_alloc_prefix_lower(s, rem, g, n);
        assert(grow_count(s, n) * (g - 1) <= g * (g - 1)) by {
            lemma_mul_inequality(grow_count(s, n), g, g - 1);
            assert(grow_count(s, n) * (g - 1) <= g * (g - 1)) by (nonlinear_arith)
            requires
                grow_count(s, n) * (g - 1) <= (g - 1) * g || grow_count(s, n) * (g - 1) <= g * (g
                    - 1),
            ;
        }
        assert(g * (alloc - fixed_prefix(s, n)) >= g * rem - g * (g - 1)) by (nonlinear_arith)
        requires
            g * (alloc - fixed_prefix(s, n)) >= grow_prefix(s, n) * remaining_space(
                extent as int,
                s,
            ) - grow_count(s, n) * (g - 1),
            grow_count(s, n) * (g - 1) <= g * (g - 1),
            grow_prefix(s, n) == g,
            rem == remaining_space(extent as int, s),
        ;
        assert(alloc - fixed_prefix(s, n) >= rem - (g - 1)) by (nonlinear_arith)
        requires
            g > 0,
            g * (alloc - fixed_prefix(s, n)) >= g * rem - g * (g - 1),
        ;
    }
}

proof fn lemma_alloc_prefix_mono(s: Seq<Flex>, remaining: int, i: int, j: int)
    requires
        0 <= i <= j <= s.len(),
        remaining >= 0,
    ensures
        alloc_prefix(s, remaining, grow_total(s), i) <= alloc_prefix(
            s,
            remaining,
            grow_total(s),
            j,
        ),
    decreases j,
{
    if i < j {
        lemma_alloc_prefix_mono(s, remaining, i, j - 1);
        lemma_share_bounds(s, remaining, j - 1);
    }
}

/// Law (exact fixed partition): when every child is fixed and the fixed
/// demands sum to exactly the container's extent, each child receives
/// exactly its demand and the allocation covers the container cell for
/// cell, with no rounding error and no slack.
pub proof fn lemma_fixed_exact(extent: u16, s: Seq<Flex>)
    requires
        forall|i: int| 0 <= i < s.len() ==> s[i] is Block,
        fixed_total(s) == extent,
    ensures
        forall|i: int|
            0 <= i < s.len() ==> flex_share(
                s[i],
                remaining_space(extent as int, s),
                grow_total(s),
            ) == s[i]->Block_0 as int,
        alloc_total(s, extent as int) == extent,
{
    let n = s.len() as int;
    lemma_all_blocks(s, n);
    lemma_alloc_prefix_upper(s, remaining_space(extent as int, s), grow_total(s), n);
}

proof fn lemma_all_blocks(s: Seq<Flex>, i: int)
    requires
        0 <= i <= s.len(),
        forall|k: int| 0 <= k < s.len() ==> s[k] is Block,
    ensures
        grow_prefix(s, i) == 0,
    decreases i,
{
    if i > 0 {
        lemma_all_blocks(s, i - 1);
    }
}

/// Law (even split): with N children all growing at weight 1 and a
/// container extent evenly divisible by N, every child receives exactly
/// extent / N cells.
pub proof fn lemma_even_split(extent: u16, s: Seq<Flex>)
    requires
        s.len() > 0,
        forall|i: int| 0 <= i < s.len() ==> s[i] == Flex::Grow(1u16),
        extent as int % (s.len() as int) == 0,
    ensures
        forall|i: int|
            0 <= i < s.len() ==> flex_share(
                s[i],
                remaining_space(extent as int, s),
                grow_total(s),
            ) == extent as int / (s.len() as int),
{
    let n = s.len() as int;
    lemma_all_grow_one(s, n);
    assert(fixed_total(s) == 0);
    assert(grow_total(s) == n);
    assert(remaining_space(extent as int, s) == extent as int);
    assert forall|i: int| 0 <= i < s.len() implies flex_share(
        s[i],
        remaining_space(extent as int, s),
        grow_total(s),
    ) == extent as int / n by {
        assert(1 * (extent as int) == extent as int) by (nonlinear_arith);
    }
}

proof fn lemma_all_grow_one(s: Seq<Flex>, i: int)
    requires
        0 <= i <= s.len(),
        forall|k: int| 0 <= k < s.len() ==> s[k] == Flex::Grow(1u16),
    ensures
        grow_prefix(s, i) == i,
        fixed_prefix(s, i) == 0,
    decreases i,
{
    if i > 0 {
        lemma_all_grow_one(s, i - 1);
    }
}

/// Every prefix allocation is non-negative and stays within the fixed
/// demand plus the remaining space.
pub proof fn lemma_alloc_prefix_bound(s: Seq<Flex>, remaining: int, i: int)
    requires
        0 <= i <= s.len(),
        remaining >= 0,
    ensures
        0 <= alloc_prefix(s, remaining, grow_total(s), i),
        alloc_prefix(s, remaining, grow_total(s), i) <= fixed_total(s) + remaining,
{
    let g = grow_total(s);
    let n = s.len() as int;
    lemma_alloc_prefix_upper(s, remaining, g, i);
    lemma_prefixes_nonneg(s, i);
    lemma_prefixes_nonneg(s, n);
    lemma_grow_prefix_mono(s, i, n);
    lemma_alloc_prefix_mono(s, remaining, 0, i);
    if g > 0 {
        lemma_mul_inequality(grow_prefix(s, i), g, remaining);
        assert(alloc_prefix(s, remaining, g, i) - fixed_prefix(s, i) <= remaining)
            by (nonlinear_arith)
        requires
            g > 0,
            g * (alloc_prefix(s, remaining, g, i) - fixed_prefix(s, i)) <= grow_prefix(s, i)
                * remaining,
            grow_prefix(s, i) * remaining <= g * remaining,
        ;
    }
}

/// The sub-rectangle a vertical stack hands its `i`-th child: the
/// container's full width, placed after the extents of the children
/// before it, with the child's own computed extent as its height.
pub open spec fn child_rect(rect: Rect, s: Seq<Flex>, i: int) -> Rect {
    Rect {
        x: rect.x,
        y: (rect.y + alloc_prefix(
            s,
            remaining_space(rect.height as int, s),
            grow_total(s),
            i,
        )) as u16,
        width: rect.width,
        height: flex_share(
            s[i],
            remaining_space(rect.height as int, s),
            grow_total(s),
        ) as u16,
    }
}

/// Whether a stack's sub-rectangles stay within the 16-bit grid even
/// when oversized fixed children overflow the container: the children
/// together reach at most `max(fixed_total, height)` cells past the
/// container's top edge.
pub open spec fn stack_fits(rect: Rect, s: Seq<Flex>) -> bool {
    rect.y + fixed_total(s) <= 0xFFFF && rect.y + rect.height <= 0xFFFF
}

/// Splits `rect` into one sub-rectangle per flex spec, stacked top to
/// bottom in spec order at the container's full width.
pub fn layout(rect: Rect, specs: &Vec<Flex>) -> (r: Vec<Rect>)
    requires
        stack_fits(rect, specs@),
    ensures
        r@.len() == specs@.len(),
        forall|i: int| 0 <= i < specs@.len() ==> r@[i] == child_rect(rect, specs@, i),
{
    let ghost s = specs@;
    let ghost rem = remaining_space(rect.height as int, s);
    let ghost g = grow_total(s);
    let extents = layout_extents(rect.height, specs);
    proof {
        lemma_prefixes_nonneg(s, s.len() as int);
    }
    let mut out: Vec<Rect> = Vec::new();
    let mut y: u32 = rect.y as u32;
    let mut i: usize = 0;
    while i < specs.len()
        invariant
            0 <= i <= s.len(),
            specs@ == s,
            rem == remaining_space(rect.height as int, s),
            g == grow_total(s),
            stack_fits(rect, s),
            rem <= rect.height,
            extents@.len() == s.len(),
            forall|j: int| 0 <= j < s.len() ==> extents@[j] as int == flex_share(s[j], rem, g),
            out@.len() == i,
            forall|j: int| 0 <= j < i ==> out@[j] == child_rect(rect, s, j),
            y as int == rect.y + alloc_prefix(s, rem, g, i as int),
            y <= 0xFFFF,
        decreases s.len() - i,
    {
        proof {
            lemma_alloc_prefix_bound(s, rem, i as int + 1);
            lemma_share_bounds(s, rem, i as int);
        }
        let cell = Rect { x: rect.x, y: y as u16, width: rect.width, height: extents[i] };
        out.push(cell);
        y = y + extents[i] as u32;
        i = i + 1;
    }
    out
}

/// Law (rectangle tiling): when the sub-rectangles stay on the grid,
/// each child rectangle spans the container's full width and begins
/// exactly where its predecessor ends — neighbours neither overlap nor
/// leave a gap, so the only unallocated cells are the trailing run that
/// [`lemma_layout_partition`] bounds.
pub proof fn lemma_rects_tile(rect: Rect, s: Seq<Flex>, i: int)
    requires
        stack_fits(rect, s),
        0 <= i < s.len(),
    ensures
        child_rect(rect, s, i).x == rect.x,
        child_rect(rect, s, i).width == rect.width,
        child_rect(rect, s, i).y == rect.y + alloc_prefix(
            s,
            remaining_space(rect.height as int, s),
            grow_total(s),
            i,
        ),
        i + 1 < s.len() ==> child_rect(rect, s, i + 1).y == child_rect(rect, s, i).y + child_rect(
            rect,
            s,
            i,
        ).height,
{
    let rem = remaining_space(rect.height as int, s);
    lemma_prefixes_nonneg(s, s.len() as int);
    lemma_alloc_prefix_bound(s, rem, i);
    lemma_alloc_prefix_bound(s, rem, i + 1);
    lemma_share_bounds(s, rem, i);
}

/// Computes the extent each child receives along the layout axis of a
/// container `extent` cells long: the algorithm of the flex engine.
pub fn layout_extents(extent: u16, specs: &Vec<Flex>) -> (r: Vec<u16>)
    ensures
        r@.len() == specs@.len(),
        forall|i: int|
            0 <= i < specs@.len() ==> r@[i] as int == flex_share(
                specs@[i],
                remaining_space(extent as int, specs@),
                grow_total(specs@),
            ),
{
    let ghost s = specs@;
    // Fixed demand, clamped just above the largest possible extent so the
    // running sum cannot overflow while the comparison with `extent` is
    // still exact.
    let mut fixed: u32 = 0;
    let mut k: usize = 0;
    while k < specs.len()
        invariant
            0 <= k <= s.len(),
            specs@ == s,
            fixed as int == if fixed_prefix(s, k as int) > 0x10000 {
                0x10000int
            } else {
                fixed_prefix(s, k as int)
            },
        decreases s.len() - k,
    {
        proof {
            lemma_prefixes_nonneg(s, k as int);
        }
        match specs[k] {
            Flex::Block(len) => {
                fixed = fixed + len as u32;
                if fixed > 0x10000 {
                    fixed = 0x10000;
                }
            },
            Flex::Grow(_) => {},
        }
        k = k + 1;
    }
    let remaining: u16 = if fixed >= extent as u32 {
        0
    } else {
        extent - fixed as u16
    };
    proof {
        lemma_prefixes_nonneg(s, s.len() as int);
        assert(remaining as int == remaining_space(extent as int, s));
    }
    // Exact total grow weight; the sum of n 16-bit weights fits easily in
    // 128 bits.
    let mut grow: u128 = 0;
    let mut k2: usize = 0;
    while k2 < specs.len()
        invariant
            0 <= k2 <= s.len(),
            specs@ == s,
            grow as int == grow_prefix(s, k2 as int),
            grow_prefix(s, k2 as int) <= (k2 as int) * 0x10000,
        decreases s.len() - k2,
    {
        match specs[k2] {
            Flex::Block(_) => {},
            Flex::Grow(weight) => {
                grow = grow + weight as u128;
            },
        }
        proof {
            assert((k2 as int) * 0x10000 + 0x10000 == (k2 as int + 1) * 0x10000)
                by (nonlinear_arith);
        }
        k2 = k2 + 1;
    }
    let ghost g = grow_total(s);
    let mut out: Vec<u16> = Vec::new();
    let mut i: usize = 0;
    while i < specs.len()
        invariant
            0 <= i <= s.len(),
            specs@ == s,
            grow as int == g,
            g == grow_total(s),
            remaining as int == remaining_space(extent as int, s),
            out@.len() == i,
            forall|j: int|
                0 <= j < i ==> out@[j] as int == flex_share(
                    s[j],
                    remaining_space(extent as int, s),
                    g,
                ),
        decreases s.len() - i,
    {
        let share: u16 = match specs[i] {
            Flex::Block(len) => len,
            Flex::Grow(weight) => {
                if grow == 0 {
                    0
                } else {
                    proof {
                        lemma_share_bounds(s, remaining as int, i as int);
                        assert(s[i as int]->Grow_0 == weight);
                        assert((weight as int) * (remaining as int) / (grow as int)
                            <= remaining as int);
                        assert((weight as int) * (remaining as int) >= 0) by (nonlinear_arith);
                        assert((weight as int) * (remaining as int) < 0x100000000)
                            by (nonlinear_arith)
                        requires
                            weight <= 0xFFFF,
                            remaining <= 0xFFFF,
                        ;
                        lemma_div_pos_is_pos((weight as int) * (remaining as int), grow as int);
                    }
                    (((weight as u128) * (remaining as u128)) / grow) as u16
                }
            },
        };
        out.push(share);
        i = i + 1;
    }
    out
}

} // verus!
