use crate::kernel::side_of;
use vstd::prelude::*;

verus! {

/// One tap of the local window around a pixel `(x, y)`: the kernel offset
/// `(dx, dy)` together with the in-bounds image pixel `(px, py)` it reads.
/// Both local-statistics passes weight the sample (or its deviation) at
/// `(px, py)` by the kernel entry at `(dx, dy)`.
#[derive(Clone, Copy, Debug, PartialEq, Eq, Structural)]
pub struct Tap {
    pub dx: i32,
    pub dy: i32,
    pub px: usize,
    pub py: usize,
}

/// The offset visited `k`-th when a window of the given radius is walked in
/// row-major order (`dy` outer, `dx` inner), returned as `(dx, dy)`.
pub open spec fn offset_at(radius: int, k: int) -> (int, int) {
    (k % side_of(radius) - radius, k / side_of(radius) - radius)
}

/// Offset `(dx, dy)` of the window at `(x, y)` reads a pixel inside a
/// `width × height` image.
pub open spec fn tap_in_bounds(x: int, y: int, dx: int, dy: int, width: int, height: int) -> bool {
    &&& 0 <= x + dx < width
    &&& 0 <= y + dy < height
}

/// The tap that offset `(dx, dy)` contributes at pixel `(x, y)`.
pub open spec fn tap_at(x: int, y: int, dx: int, dy: int) -> Tap {
    Tap { dx: dx as i32, dy: dy as i32, px: (x + dx) as usize, py: (y + dy) as usize }
}

/// The taps collected after the first `k` offsets of the window at `(x, y)`
/// have been visited in row-major order. An offset whose pixel falls outside
/// the image is skipped entirely — the window keeps no placeholder and makes
/// no later correction for the lost weight.
pub open spec fn window_prefix(
    x: int,
    y: int,
    width: int,
    height: int,
    radius: int,
    k: nat,
) -> Seq<Tap>
    decreases k,
{
    if k == 0 {
        Seq::empty()
    } else {
        let prev = window_prefix(x, y, width, height, radius, (k - 1) as nat);
        let off = offset_at(radius, k - 1);
        if tap_in_bounds(x, y, off.0, off.1, width, height) {
            prev.push(tap_at(x, y, off.0, off.1))
        } else {
            prev
        }
    }
}

/// The full tap sequence of the window at `(x, y)`: the boundary policy of
/// the local-statistics passes, stated once.
pub open spec fn window(x: int, y: int, width: int, height: int, radius: int) -> Seq<Tap> {
    window_prefix(x, y, width, height, radius, (side_of(radius) * side_of(radius)) as nat)
}

/// What holds of every tap a window yields: the offset lies within the
/// radius, the pixel is the offset applied to `(x, y)`, and it is inside the
/// image.
pub open spec fn valid_tap(x: int, y: int, width: int, height: int, radius: int, t: Tap) -> bool {
    &&& -radius <= t.dx <= radius
    &&& -radius <= t.dy <= radius
    &&& t.px == x + t.dx
    &&& t.py == y + t.dy
    &&& t.px < width
    &&& t.py < height
}

/// The `k`-th offset of a window lies within the radius on both axes.
proof fn lemma_offset_at_in_range(radius: int, k: int)
    requires
        0 <= radius,
        0 <= k < side_of(radius) * side_of(radius),
    ensures
        -radius <= offset_at(radius, k).0 <= radius,
        -radius <= offset_at(radius, k).1 <= radius,
{
    let s = side_of(radius);
    assert(0 <= k % s < s && 0 <= k / s < s) by (nonlinear_arith)
        requires
            0 < s,
            0 <= k < s * s,
    ;
}

/// Never more taps than offsets visited, and every collected tap valid.
proof fn lemma_window_prefix_props(x: int, y: int, width: int, height: int, radius: int, k: nat)
    requires
        0 <= x < width <= usize::MAX,
        0 <= y < height <= usize::MAX,
        0 <= radius <= 0x7FFF_FFFF,
        k <= side_of(radius) * side_of(radius),
    ensures
        window_prefix(x, y, width, height, radius, k).len() <= k,
        forall|i: int|
            0 <= i < window_prefix(x, y, width, height, radius, k).len() ==> valid_tap(
                x,
                y,
                width,
                height,
                radius,
                #[trigger] window_prefix(x, y, width, height, radius, k)[i],
            ),
    decreases k,
{
    if k > 0 {
        lemma_window_prefix_props(x, y, width, height, radius, (k - 1) as nat);
        lemma_offset_at_in_range(radius, k - 1);
        let prev = window_prefix(x, y, width, height, radius, (k - 1) as nat);
        let cur = window_prefix(x, y, width, height, radius, k);
        let off = offset_at(radius, k - 1);
        if tap_in_bounds(x, y, off.0, off.1, width, height) {
            let t = tap_at(x, y, off.0, off.1);
            assert(t.dx == off.0 && t.dy == off.1);
            assert(t.px == x + off.0 && t.py == y + off.1);
            assert(valid_tap(x, y, width, height, radius, t));
            assert(cur == prev.push(t));
            assert forall|i: int| 0 <= i < cur.len() implies valid_tap(
                x,
                y,
                width,
                height,
                radius,
                cur[i],
            ) by {
                if i < prev.len() {
                    assert(cur[i] == prev[i]);
                }
            }
        } else {
            assert(cur == prev);
        }
    }
}

/// Walks the window of the given radius around pixel `(x, y)` of a
/// `width × height` image, in row-major offset order, and returns exactly the
/// taps whose pixel lies inside the image — the boundary-skip policy of the
/// local-statistics passes.
pub fn window_taps(x: usize, y: usize, width: usize, height: usize, radius: usize) -> (taps: Vec<
    Tap,
>)
    requires
        x < width,
        y < height,
        radius <= 0x7FFE,
        width + 2 * radius <= usize::MAX,
        height + 2 * radius <= usize::MAX,
    ensures
        taps@ == window(x as int, y as int, width as int, height as int, radius as int),
        taps@.len() <= side_of(radius as int) * side_of(radius as int),
        forall|i: int|
            0 <= i < taps@.len() ==> valid_tap(
                x as int,
                y as int,
                width as int,
                height as int,
                radius as int,
                #[trigger] taps@[i],
            ),
{
    proof {
        let s = side_of(radius as int);
        assert(s <= s * s && s * s <= 0xFFFF_FFFF) by (nonlinear_arith)
            requires
                1 <= s <= 0xFFFD,
        ;
    }
    let side = 2 * radius + 1;
    let total = side * side;
    let mut taps: Vec<Tap> = Vec::new();
    let mut k: usize = 0;
    while k < total
        invariant
            taps@ == window_prefix(
                x as int,
                y as int,
                width as int,
                height as int,
                radius as int,
                k as nat,
            ),
            k <= total,
            side == side_of(radius as int),
            total == side_of(radius as int) * side_of(radius as int),
            x < width,
            y < height,
            radius <= 0x7FFF_FFFF,
            width + 2 * radius <= usize::MAX,
            height + 2 * radius <= usize::MAX,
        decreases total - k,
    {
        let dyi = k / side;
        let dxi = k % side;
        proof {
            assert(0 <= (k as int) % (side as int) < (side as int) && 0 <= (k as int) / (
            side as int) < (side as int)) by (nonlinear_arith)
                requires
                    0 < (side as int),
                    0 <= (k as int) < (side as int) * (side as int),
            ;
        }
        let xe = x + dxi;
        let ye = y + dyi;
        let ghost off = offset_at(radius as int, k as int);
        proof {
            assert(off.0 == dxi as int - radius as int);
            assert(off.1 == dyi as int - radius as int);
        }
        if xe >= radius && xe - radius < width && ye >= radius && ye - radius < height {
            let px = xe - radius;
            let py = ye - radius;
            let dx = (dxi as i64 - radius as i64) as i32;
            let dy = (dyi as i64 - radius as i64) as i32;
            proof {
                assert(-0x8000_0000 <= off.0 <= 0x7FFF_FFFF);
                assert(-0x8000_0000 <= off.1 <= 0x7FFF_FFFF);
                assert(tap_in_bounds(
                    x as int,
                    y as int,
                    off.0,
                    off.1,
                    width as int,
                    height as int,
                ));
                assert(Tap { dx, dy, px, py } == tap_at(x as int, y as int, off.0, off.1));
            }
            taps.push(Tap { dx, dy, px, py });
        } else {
            proof {
                assert(!tap_in_bounds(
                    x as int,
                    y as int,
                    off.0,
                    off.1,
                    width as int,
                    height as int,
                ));
            }
        }
        proof {
            assert(taps@ == window_prefix(
                x as int,
                y as int,
                width as int,
                height as int,
                radius as int,
                (k + 1) as nat,
            ));
        }
        k = k + 1;
    }
    proof {
        lemma_window_prefix_props(
            x as int,
            y as int,
            width as int,
            height as int,
            radius as int,
            (side_of(radius as int) * side_of(radius as int)) as nat,
        );
    }
    taps
}

/// A radius-zero window reads exactly the pixel itself. The local mean pass
/// therefore degenerates to the identity on the image, and the dispersion
/// pass to a single tap of zero deviation.
pub proof fn lemma_radius_zero_window(x: int, y: int, width: int, height: int)
    requires
        0 <= x < width <= usize::MAX,
        0 <= y < height <= usize::MAX,
    ensures
        window(x, y, width, height, 0) =~= seq![tap_at(x, y, 0, 0)],
{
    assert(side_of(0) == 1);
    assert(offset_at(0, 0) == (0int, 0int)) by {
        assert(0int % 1 == 0 && 0int / 1 == 0) by (nonlinear_arith);
    }
    assert(tap_in_bounds(x, y, 0, 0, width, height));
    assert(window_prefix(x, y, width, height, 0, 0) =~= Seq::<Tap>::empty());
    assert(window_prefix(x, y, width, height, 0, 1) =~= Seq::<Tap>::empty().push(
        tap_at(x, y, 0, 0),
    ));
}

/// Helper for the interior law: as long as every visited offset stays inside
/// the image, the window keeps every offset, in exact row-major order.
proof fn lemma_interior_prefix(x: int, y: int, width: int, height: int, radius: int, k: nat)
    requires
        0 <= radius <= 0x7FFF_FFFF,
        radius <= x && x + radius < width <= usize::MAX,
        radius <= y && y + radius < height <= usize::MAX,
        k <= side_of(radius) * side_of(radius),
    ensures
        window_prefix(x, y, width, height, radius, k).len() == k,
        forall|i: int|
            0 <= i < k ==> #[trigger] window_prefix(x, y, width, height, radius, k)[i] == tap_at(
                x,
                y,
                offset_at(radius, i).0,
                offset_at(radius, i).1,
            ),
    decreases k,
{
    if k > 0 {
        lemma_interior_prefix(x, y, width, height, radius, (k - 1) as nat);
        lemma_offset_at_in_range(radius, k - 1);
        let off = offset_at(radius, k - 1);
        assert(tap_in_bounds(x, y, off.0, off.1, width, height));
        let prev = window_prefix(x, y, width, height, radius, (k - 1) as nat);
        let cur = window_prefix(x, y, width, height, radius, k);
        assert(cur == prev.push(tap_at(x, y, off.0, off.1)));
    }
}

/// An interior pixel — at least `radius` away from every border — keeps all
/// `side²` offsets of its window, in exact row-major order: no tap is
/// skipped. This is the regime in which a flat image yields a flat local
/// mean.
pub proof fn lemma_interior_window_full(x: int, y: int, width: int, height: int, radius: int)
    requires
        0 <= radius <= 0x7FFF_FFFF,
        radius <= x && x + radius < width <= usize::MAX,
        radius <= y && y + radius < height <= usize::MAX,
    ensures
        window(x, y, width, height, radius).len() == side_of(radius) * side_of(radius),
        forall|k: int|
            0 <= k < side_of(radius) * side_of(radius) ==> #[trigger] window(
                x,
                y,
                width,
                height,
                radius,
            )[k] == tap_at(x, y, offset_at(radius, k).0, offset_at(radius, k).1),
{
    lemma_interior_prefix(
        x,
        y,
        width,
        height,
        radius,
        (side_of(radius) * side_of(radius)) as nat,
    );
}

/// Helper for the boundary law: once the very first offset of the window is
/// skipped, a prefix of `k` visited offsets holds at most `k - 1` taps.
proof fn lemma_skipped_prefix(x: int, y: int, width: int, height: int, radius: int, k: nat)
    requires
        0 <= x,
        0 <= y,
        x < radius || y < radius,
        1 <= k,
    ensures
        window_prefix(x, y, width, height, radius, k).len() <= k - 1,
    decreases k,
{
    let s = side_of(radius);
    if k == 1 {
        assert(0int % s == 0 && 0int / s == 0) by (nonlinear_arith)
            requires
                0 < s,
        ;
        assert(offset_at(radius, 0) == (-radius, -radius));
        assert(!tap_in_bounds(x, y, -radius, -radius, width, height));
        assert(window_prefix(x, y, width, height, radius, 0) =~= Seq::<Tap>::empty());
        assert(window_prefix(x, y, width, height, radius, 1) =~= Seq::<Tap>::empty());
    } else {
        lemma_skipped_prefix(x, y, width, height, radius, (k - 1) as nat);
        let prev = window_prefix(x, y, width, height, radius, (k - 1) as nat);
        let cur = window_prefix(x, y, width, height, radius, k);
        let off = offset_at(radius, k - 1);
        if tap_in_bounds(x, y, off.0, off.1, width, height) {
            assert(cur == prev.push(tap_at(x, y, off.0, off.1)));
        } else {
            assert(cur == prev);
        }
    }
}

/// Whatever a window prefix holds, every longer prefix holds too: taps are
/// only ever appended.
proof fn lemma_prefix_monotone_contains(
    x: int,
    y: int,
    width: int,
    height: int,
    radius: int,
    j: nat,
    m: nat,
    t: Tap,
)
    requires
        j <= m,
        window_prefix(x, y, width, height, radius, j).contains(t),
    ensures
        window_prefix(x, y, width, height, radius, m).contains(t),
    decreases m,
{
    if m > j {
        lemma_prefix_monotone_contains(x, y, width, height, radius, j, (m - 1) as nat, t);
        let prev = window_prefix(x, y, width, height, radius, (m - 1) as nat);
        let cur = window_prefix(x, y, width, height, radius, m);
        let off = offset_at(radius, m - 1);
        if tap_in_bounds(x, y, off.0, off.1, width, height) {
            assert(cur == prev.push(tap_at(x, y, off.0, off.1)));
            let i = choose|i: int| 0 <= i < prev.len() && prev[i] == t;
            assert(cur[i] == t);
        } else {
            assert(cur == prev);
        }
    }
}

/// The window skips nothing it could read: every offset within the radius
/// whose pixel lies inside the image contributes a tap. Together with the
/// validity of each tap, the skipped offsets are exactly the out-of-image
/// ones.
pub proof fn lemma_window_complete(
    x: int,
    y: int,
    width: int,
    height: int,
    radius: int,
    dx: int,
    dy: int,
)
    requires
        0 <= x < width <= usize::MAX,
        0 <= y < height <= usize::MAX,
        0 <= radius <= 0x7FFE,
        -radius <= dx <= radius,
        -radius <= dy <= radius,
        tap_in_bounds(x, y, dx, dy, width, height),
    ensures
        window(x, y, width, height, radius).contains(tap_at(x, y, dx, dy)),
{
    let s = side_of(radius);
    let k = (dy + radius) * s + (dx + radius);
    vstd::arithmetic::div_mod::lemma_fundamental_div_mod_converse(k, s, dy + radius, dx + radius);
    assert(0 <= k && k + 1 <= s * s) by (nonlinear_arith)
        requires
            0 <= dx + radius < s,
            0 <= dy + radius < s,
            k == (dy + radius) * s + (dx + radius),
    ;
    assert(offset_at(radius, k) == (dx, dy));
    let t = tap_at(x, y, dx, dy);
    let prev = window_prefix(x, y, width, height, radius, k as nat);
    let cur = window_prefix(x, y, width, height, radius, (k + 1) as nat);
    assert(cur == prev.push(t));
    assert(cur[prev.len() as int] == t);
    assert(cur.contains(t));
    lemma_prefix_monotone_contains(
        x,
        y,
        width,
        height,
        radius,
        (k + 1) as nat,
        (s * s) as nat,
        t,
    );
}

/// A pixel strictly nearer to the top or left border than the radius loses
/// at least its first window offset, so it keeps strictly fewer taps than any
/// pixel with a full window. Because the skipped weight is never
/// re-normalized, this is the reproducible near-border bias of the local
/// mean.
pub proof fn lemma_boundary_window_smaller(
    x: int,
    y: int,
    width: int,
    height: int,
    radius: int,
    xi: int,
    yi: int,
)
    requires
        0 <= x < width <= usize::MAX,
        0 <= y < height <= usize::MAX,
        x < radius || y < radius,
        radius <= 0x7FFF_FFFF,
        radius <= xi && xi + radius < width,
        radius <= yi && yi + radius < height,
    ensures
        window(x, y, width, height, radius).len() < window(xi, yi, width, height, radius).len(),
{
    lemma_interior_window_full(xi, yi, width, height, radius);
    let s = side_of(radius);
    assert(1 <= s * s) by (nonlinear_arith)
        requires
            1 <= s,
    ;
    lemma_skipped_prefix(x, y, width, height, radius, (s * s) as nat);
}

} // verus!
