//! Layout engine: partitions a rectangular area into contiguous
//! sub-rectangles along one axis, following a list of size
//! constraints, after insetting the area by a margin.
//!
//! The resolution rule: a `Fixed(n)` constraint asks for `n` cells, a
//! `Percent(p)` for `p` percent of the available length rounded to
//! the nearest cell, and a `Min(n)` for everything the other
//! constraints leave over, but never less than `n`.  When several
//! `Min` constraints appear, the last one absorbs the leftover and the
//! earlier ones resolve to their floor.  Every resolved length is
//! clamped to the available length, and segments are then laid out
//! greedily: each gets its resolved length or whatever space remains,
//! whichever is smaller, so the total never exceeds the available
//! length and any excess is clipped from the trailing segments.

use vstd::math::min;
use vstd::prelude::*;

verus! {

/// A rectangle in terminal cell coordinates.
#[derive(Clone, Copy, PartialEq, Eq, Structural, Debug)]
pub struct Rect {
    pub x: u16,
    pub y: u16,
    pub width: u16,
    pub height: u16,
}

impl Rect {
    /// The rectangle stays inside the u16 coordinate plane.
    pub open spec fn wf(&self) -> bool {
        self.x + self.width <= u16::MAX && self.y + self.height <= u16::MAX
    }
}

/// The axis along which a split divides an area.
#[derive(Clone, Copy, PartialEq, Eq, Structural, Debug)]
pub enum Direction {
    Horizontal,
    Vertical,
}

/// A size constraint for one segment of a split.
#[derive(Clone, Copy, PartialEq, Eq, Structural, Debug)]
pub enum Size {
    /// Exactly this many cells.
    Fixed(u16),
    /// This percentage of the available length, rounded to the
    /// nearest cell.
    Percent(u16),
    /// Whatever length the other constraints leave over, floored at
    /// this many cells.
    Min(u16),
}

/// Length of `r` along axis `d`.
pub open spec fn axis_len(r: Rect, d: Direction) -> int {
    match d {
        Direction::Horizontal => r.width as int,
        Direction::Vertical => r.height as int,
    }
}

/// Position of `r` along axis `d`.
pub open spec fn axis_pos(r: Rect, d: Direction) -> int {
    match d {
        Direction::Horizontal => r.x as int,
        Direction::Vertical => r.y as int,
    }
}

/// Position of `r` across axis `d`.
pub open spec fn cross_pos(r: Rect, d: Direction) -> int {
    match d {
        Direction::Horizontal => r.y as int,
        Direction::Vertical => r.x as int,
    }
}

/// Length of `r` across axis `d`.
pub open spec fn cross_len(r: Rect, d: Direction) -> int {
    match d {
        Direction::Horizontal => r.height as int,
        Direction::Vertical => r.width as int,
    }
}

/// The area left after insetting `area` by `margin` cells on every
/// side.  A margin larger than half an extent shrinks that extent to
/// zero rather than turning it negative.
pub open spec fn inner_rect(area: Rect, margin: u16) -> Rect {
    let mx = min(margin as int, area.width as int / 2);
    let my = min(margin as int, area.height as int / 2);
    Rect {
        x: (area.x + mx) as u16,
        y: (area.y + my) as u16,
        width: (area.width - 2 * mx) as u16,
        height: (area.height - 2 * my) as u16,
    }
}

/// A percentage of the available length, rounded to the nearest cell.
pub open spec fn percent_len(p: int, avail: int) -> int {
    (p * avail + 50) / 100
}

/// The length one constraint asks for before leftover distribution,
/// clamped to the available length.  A `Min` asks for its floor here;
/// the leftover is added separately.
pub open spec fn want_of(s: Size, avail: int) -> int {
    let base = match s {
        Size::Fixed(n) => n as int,
        Size::Percent(p) => percent_len(p as int, avail),
        Size::Min(n) => n as int,
    };
    min(base, avail)
}

/// Sum of a sequence of integers.
pub open spec fn seq_sum(s: Seq<int>) -> int
    decreases s.len(),
{
    if s.len() == 0 {
        0
    } else {
        s[0] + seq_sum(s.drop_first())
    }
}

/// The clamped wants of a constraint list, in order.
pub open spec fn wants_of(sizes: Seq<Size>, avail: int) -> Seq<int> {
    Seq::new(sizes.len(), |i: int| want_of(sizes[i], avail))
}

/// Total length the constraints claim before leftover distribution.
pub open spec fn sum_wants(sizes: Seq<Size>, avail: int) -> int {
    seq_sum(wants_of(sizes, avail))
}

/// Whether the list holds at least one `Min` constraint.
pub open spec fn has_min(sizes: Seq<Size>) -> bool {
    exists|i: int| 0 <= i < sizes.len() && sizes[i] is Min
}

/// Index of the last `Min` constraint, or -1 when there is none.
pub open spec fn last_min_index(sizes: Seq<Size>) -> int
    decreases sizes.len(),
{
    if sizes.len() == 0 {
        -1
    } else if sizes.last() is Min {
        sizes.len() - 1
    } else {
        last_min_index(sizes.drop_last())
    }
}

/// The length no constraint claims, handed to the last `Min`.
pub open spec fn leftover(sizes: Seq<Size>, avail: int) -> int {
    vstd::math::max(0, avail - sum_wants(sizes, avail))
}

/// The length constraint `i` resolves to before clipping: its clamped
/// want, plus the leftover when it is the last `Min`.
pub open spec fn want_at(sizes: Seq<Size>, avail: int, i: int) -> int {
    want_of(sizes[i], avail) + if i == last_min_index(sizes) {
        leftover(sizes, avail)
    } else {
        0
    }
}

/// All resolved lengths of a constraint list, in order.
pub open spec fn wants_seq(sizes: Seq<Size>, avail: int) -> Seq<int> {
    Seq::new(sizes.len(), |i: int| want_at(sizes, avail, i))
}

/// Clip resolved lengths so segments never outrun the space left:
/// each segment gets its resolved length or the remaining space,
/// whichever is smaller.
pub open spec fn clip_lens(wants: Seq<int>, space: int) -> Seq<int>
    decreases wants.len(),
{
    if wants.len() == 0 {
        Seq::<int>::empty()
    } else {
        let l = min(wants[0], space);
        seq![l] + clip_lens(wants.drop_first(), space - l)
    }
}

/// Segments of the given lengths laid contiguously along axis `d`
/// from `pos`, each spanning the full cross extent of `inner`.
pub open spec fn rects_from(lens: Seq<int>, pos: int, inner: Rect, d: Direction) -> Seq<Rect>
    decreases lens.len(),
{
    if lens.len() == 0 {
        Seq::<Rect>::empty()
    } else {
        let r = match d {
            Direction::Horizontal => Rect {
                x: pos as u16,
                y: inner.y,
                width: lens[0] as u16,
                height: inner.height,
            },
            Direction::Vertical => Rect {
                x: inner.x,
                y: pos as u16,
                width: inner.width,
                height: lens[0] as u16,
            },
        };
        seq![r] + rects_from(lens.drop_first(), pos + lens[0], inner, d)
    }
}

/// The whole split as a mathematical function of its inputs: inset by
/// the margin, resolve every constraint against the available length,
/// clip, and lay the segments out in order.
pub open spec fn split_spec(area: Rect, d: Direction, sizes: Seq<Size>, margin: u16) -> Seq<
    Rect,
> {
    let inner = inner_rect(area, margin);
    let avail = axis_len(inner, d);
    rects_from(clip_lens(wants_seq(sizes, avail), avail), axis_pos(inner, d), inner, d)
}

/// Inset `area` by `margin` cells on every side.
fn inset(area: Rect, margin: u16) -> (r: Rect)
    requires
        area.wf(),
    ensures
        r == inner_rect(area, margin),
        r.wf(),
        r.width <= area.width,
        r.height <= area.height,
{
    let mx: u16 = if margin <= area.width / 2 {
        margin
    } else {
        area.width / 2
    };
    let my: u16 = if margin <= area.height / 2 {
        margin
    } else {
        area.height / 2
    };
    Rect {
        x: area.x + mx,
        y: area.y + my,
        width: area.width - 2 * mx,
        height: area.height - 2 * my,
    }
}

/// Partition `area` along `d` by `sizes`, after insetting it by
/// `margin`.  Returns one rectangle per constraint, contiguous in
/// constraint order; the result is exactly `split_spec` of the
/// inputs, so equal inputs always give equal output.
#[verifier::loop_isolation(false)]
#[verifier::rlimit(60)]
pub fn split(area: Rect, d: Direction, sizes: &Vec<Size>, margin: u16) -> (r: Vec<Rect>)
    requires
        area.wf(),
    ensures
        r@ == split_spec(area, d, sizes@, margin),
        r@.len() == sizes@.len(),
        forall|i: int| 0 <= i < r@.len() ==> (#[trigger] r@[i]).wf(),
{
    let inner = inset(area, margin);
    let avail: u16 = match d {
        Direction::Horizontal => inner.width,
        Direction::Vertical => inner.height,
    };
    let start: u16 = match d {
        Direction::Horizontal => inner.x,
        Direction::Vertical => inner.y,
    };
    let ghost av: int = avail as int;
    proof {
        assert(av == axis_len(inner, d));
        assert(start as int == axis_pos(inner, d));
    }
    let n = sizes.len();

    // First pass: resolve every constraint to its clamped want, track
    // the saturating total and the position of the last `Min`.
    let mut wants: Vec<u16> = Vec::new();
    let mut used: u16 = 0;
    let mut last_min: Option<usize> = None;
    let mut i: usize = 0;
    while i < n
        invariant
            i <= n,
            wants@.len() == i,
            forall|j: int| 0 <= j < i ==> wants@[j] as int == want_of(sizes@[j], av),
            used <= avail,
            used as int == min(sum_wants(sizes@.take(i as int), av), av),
            match last_min {
                Option::Some(j) => j < i && last_min_index(sizes@.take(i as int)) == j as int,
                Option::None => last_min_index(sizes@.take(i as int)) == -1,
            },
        decreases n - i,
    {
        let s = sizes[i];
        let w: u16 = match s {
            Size::Fixed(m) => if m <= avail {
                m
            } else {
                avail
            },
            Size::Percent(p) => {
                proof {
                    vstd::arithmetic::mul::lemma_mul_upper_bound(
                        p as int,
                        u16::MAX as int,
                        avail as int,
                        u16::MAX as int,
                    );
                }
                let raw: u32 = (p as u32 * avail as u32 + 50) / 100;
                if raw <= avail as u32 {
                    raw as u16
                } else {
                    avail
                }
            },
            Size::Min(m) => {
                last_min = Some(i);
                if m <= avail {
                    m
                } else {
                    avail
                }
            },
        };
        proof {
            assert(w as int == want_of(sizes@[i as int], av));
            assert(sizes@.take(i as int + 1).drop_last() =~= sizes@.take(i as int));
            assert(sizes@.take(i as int + 1).last() == sizes@[i as int]);
            assert(wants_of(sizes@.take(i as int + 1), av) =~= wants_of(
                sizes@.take(i as int),
                av,
            ).push(want_of(sizes@[i as int], av)));
            lemma_seq_sum_push(wants_of(sizes@.take(i as int), av), want_of(sizes@[i as int], av));
        }
        wants.push(w);
        let total: u32 = used as u32 + w as u32;
        used = if total <= avail as u32 {
            total as u16
        } else {
            avail
        };
        i += 1;
    }
    proof {
        assert(sizes@.take(n as int) =~= sizes@);
    }
    let spare: u16 = avail - used;
    proof {
        assert(spare as int == leftover(sizes@, av));
    }

    // Second pass: hand the leftover to the last `Min`, clip each
    // segment to the space remaining, and emit the rectangles.
    let ghost wseq: Seq<int> = wants_seq(sizes@, av);
    let mut out: Vec<Rect> = Vec::new();
    let mut pos: u16 = start;
    let mut space: u16 = avail;
    let mut k: usize = 0;
    proof {
        assert(wseq.skip(0) =~= wseq);
        assert(out@ =~= Seq::<Rect>::empty());
        assert(Seq::<Rect>::empty() + rects_from(clip_lens(wseq, av), start as int, inner, d)
            =~= rects_from(clip_lens(wseq, av), start as int, inner, d));
    }
    while k < n
        invariant
            k <= n,
            out@.len() == k,
            space <= avail,
            pos as int + space as int == start as int + av,
            out@ + rects_from(clip_lens(wseq.skip(k as int), space as int), pos as int, inner, d)
                == rects_from(clip_lens(wseq, av), start as int, inner, d),
            forall|j: int| 0 <= j < k ==> (#[trigger] out@[j]).wf(),
        decreases n - k,
    {
        let w = wants[k];
        let is_last_min: bool = match last_min {
            Option::Some(j) => j == k,
            Option::None => false,
        };
        let w32: u32 = w as u32 + if is_last_min {
            spare as u32
        } else {
            0
        };
        let len: u16 = if w32 <= space as u32 {
            w32 as u16
        } else {
            space
        };
        proof {
            assert(wseq.skip(k as int)[0] == want_at(sizes@, av, k as int));
            assert(w32 as int == want_at(sizes@, av, k as int));
            assert(len as int == min(wseq.skip(k as int)[0], space as int));
            assert(wseq.skip(k as int).drop_first() =~= wseq.skip(k as int + 1));
        }
        let rect = match d {
            Direction::Horizontal => Rect { x: pos, y: inner.y, width: len, height: inner.height },
            Direction::Vertical => Rect { x: inner.x, y: pos, width: inner.width, height: len },
        };
        let ghost old_out = out@;
        out.push(rect);
        proof {
            let cl = clip_lens(wseq.skip(k as int), space as int);
            let cl_rest = clip_lens(wseq.skip(k as int + 1), space as int - len as int);
            let rest = rects_from(cl_rest, pos as int + len as int, inner, d);
            assert(cl == seq![len as int] + cl_rest);
            assert(cl.len() > 0);
            assert(cl[0] == len as int);
            assert(cl.drop_first() =~= cl_rest);
            assert(rects_from(cl, pos as int, inner, d) == seq![
                match d {
                    Direction::Horizontal => Rect {
                        x: (pos as int) as u16,
                        y: inner.y,
                        width: cl[0] as u16,
                        height: inner.height,
                    },
                    Direction::Vertical => Rect {
                        x: inner.x,
                        y: (pos as int) as u16,
                        width: inner.width,
                        height: cl[0] as u16,
                    },
                },
            ] + rects_from(cl.drop_first(), pos as int + cl[0], inner, d));
            assert(rects_from(cl, pos as int, inner, d) == seq![rect] + rest);
            assert((old_out + seq![rect]) + rest =~= old_out + (seq![rect] + rest));
            assert(out@ == old_out + seq![rect]);
        }
        pos = pos + len;
        space = space - len;
        k += 1;
    }
    proof {
        assert(wseq.skip(n as int) =~= Seq::<int>::empty());
        assert(out@ == rects_from(clip_lens(wseq, av), start as int, inner, d));
        assert(out@ == split_spec(area, d, sizes@, margin));
    }
    out
}

/// Total length of a sequence of rectangles along axis `d`.
pub open spec fn total_axis_len(rs: Seq<Rect>, d: Direction) -> int {
    seq_sum(Seq::new(rs.len(), |i: int| axis_len(rs[i], d)))
}

/// The length available to a split along `d`: the inset area's extent.
pub open spec fn avail_len(area: Rect, d: Direction, margin: u16) -> int {
    axis_len(inner_rect(area, margin), d)
}

/// Appending one element adds its value to the sum.
pub proof fn lemma_seq_sum_push(s: Seq<int>, x: int)
    ensures
        seq_sum(s.push(x)) == seq_sum(s) + x,
    decreases s.len(),
{
    if s.len() == 0 {
        assert(s.push(x).drop_first() =~= Seq::<int>::empty());
        assert(s.push(x)[0] == x);
        assert(seq_sum(s.push(x)) == x + seq_sum(Seq::<int>::empty()));
    } else {
        assert(s.push(x)[0] == s[0]);
        assert(s.push(x).drop_first() =~= s.drop_first().push(x));
        lemma_seq_sum_push(s.drop_first(), x);
        assert(seq_sum(s.push(x)) == s[0] + seq_sum(s.drop_first().push(x)));
    }
}

/// A sum of non-negative values is non-negative.
pub proof fn lemma_seq_sum_nonneg(s: Seq<int>)
    requires
        forall|i: int| 0 <= i < s.len() ==> #[trigger] s[i] >= 0,
    ensures
        seq_sum(s) >= 0,
    decreases s.len(),
{
    if s.len() > 0 {
        lemma_seq_sum_nonneg(s.drop_first());
    }
}

/// Extending a prefix by one element adds that element to its sum.
pub proof fn lemma_seq_sum_take_succ(s: Seq<int>, i: int)
    requires
        0 <= i < s.len(),
    ensures
        seq_sum(s.take(i + 1)) == seq_sum(s.take(i)) + s[i],
{
    assert(s.take(i + 1) =~= s.take(i).push(s[i]));
    lemma_seq_sum_push(s.take(i), s[i]);
}

/// Prefix sums of non-negative values grow with the prefix.
pub proof fn lemma_seq_sum_take_mono(s: Seq<int>, i: int, j: int)
    requires
        forall|k: int| 0 <= k < s.len() ==> #[trigger] s[k] >= 0,
        0 <= i <= j <= s.len(),
    ensures
        seq_sum(s.take(i)) <= seq_sum(s.take(j)),
    decreases j - i,
{
    if i < j {
        lemma_seq_sum_take_succ(s, j - 1);
        lemma_seq_sum_take_mono(s, i, j - 1);
    }
}

/// Raising one element raises the sum by the same amount.
pub proof fn lemma_seq_sum_update_add(s: Seq<int>, j: int, c: int)
    requires
        0 <= j < s.len(),
    ensures
        seq_sum(s.update(j, s[j] + c)) == seq_sum(s) + c,
    decreases s.len(),
{
    let u = s.update(j, s[j] + c);
    if j == 0 {
        assert(u.drop_first() =~= s.drop_first());
    } else {
        assert(u.drop_first() =~= s.drop_first().update(j - 1, s.drop_first()[j - 1] + c));
        lemma_seq_sum_update_add(s.drop_first(), j - 1, c);
    }
}

/// A resolved want is a length between zero and the available extent.
pub proof fn lemma_want_of_bounds(s: Size, avail: int)
    requires
        avail >= 0,
    ensures
        0 <= want_of(s, avail) <= avail,
{
    match s {
        Size::Percent(p) => {
            vstd::arithmetic::mul::lemma_mul_nonnegative(p as int, avail);
        },
        _ => {},
    }
}

/// The last `Min` index is a valid index exactly when a `Min` exists,
/// and it points at a `Min`.
pub proof fn lemma_last_min_bounds(sizes: Seq<Size>)
    ensures
        -1 <= last_min_index(sizes) < sizes.len(),
        has_min(sizes) <==> last_min_index(sizes) >= 0,
        last_min_index(sizes) >= 0 ==> sizes[last_min_index(sizes)] is Min,
    decreases sizes.len(),
{
    if sizes.len() == 0 {
    } else if sizes.last() is Min {
        assert(has_min(sizes));
    } else {
        lemma_last_min_bounds(sizes.drop_last());
        if has_min(sizes) {
            let i = choose|i: int| 0 <= i < sizes.len() && sizes[i] is Min;
            assert(sizes.drop_last()[i] is Min);
            assert(has_min(sizes.drop_last()));
        }
        if has_min(sizes.drop_last()) {
            let i = last_min_index(sizes.drop_last());
            assert(sizes[i] is Min);
            assert(has_min(sizes));
        }
    }
}

/// The resolved lengths sum to the claimed total plus, when a `Min`
/// exists, the leftover that it absorbs.
pub proof fn lemma_wants_seq_sum(sizes: Seq<Size>, avail: int)
    requires
        avail >= 0,
    ensures
        seq_sum(wants_seq(sizes, avail)) == sum_wants(sizes, avail) + if has_min(sizes) {
            leftover(sizes, avail)
        } else {
            0
        },
{
    lemma_last_min_bounds(sizes);
    if has_min(sizes) {
        let lm = last_min_index(sizes);
        let base = wants_of(sizes, avail);
        assert(wants_seq(sizes, avail) =~= base.update(lm, base[lm] + leftover(sizes, avail)));
        lemma_seq_sum_update_add(base, lm, leftover(sizes, avail));
    } else {
        assert(wants_seq(sizes, avail) =~= wants_of(sizes, avail));
    }
}

/// Every resolved length is non-negative.
pub proof fn lemma_wants_seq_nonneg(sizes: Seq<Size>, avail: int)
    requires
        avail >= 0,
    ensures
        forall|i: int| 0 <= i < sizes.len() ==> #[trigger] wants_seq(sizes, avail)[i] >= 0,
{
    assert forall|i: int| 0 <= i < sizes.len() implies #[trigger] wants_seq(sizes, avail)[i]
        >= 0 by {
        lemma_want_of_bounds(sizes[i], avail);
    }
}

/// Clipping keeps the count, keeps lengths within the space and under
/// their wants, and makes them sum to the smaller of the wanted total
/// and the space.
pub proof fn lemma_clip_lens_props(wants: Seq<int>, space: int)
    requires
        forall|i: int| 0 <= i < wants.len() ==> #[trigger] wants[i] >= 0,
        space >= 0,
    ensures
        ({
            let c = clip_lens(wants, space);
            &&& c.len() == wants.len()
            &&& forall|i: int| 0 <= i < c.len() ==> 0 <= #[trigger] c[i] <= space
            &&& forall|i: int| 0 <= i < c.len() ==> #[trigger] c[i] <= wants[i]
            &&& seq_sum(c) == min(seq_sum(wants), space)
        }),
    decreases wants.len(),
{
    if wants.len() == 0 {
    } else {
        let l = min(wants[0], space);
        let rest = clip_lens(wants.drop_first(), space - l);
        lemma_clip_lens_props(wants.drop_first(), space - l);
        lemma_seq_sum_nonneg(wants.drop_first());
        let c = clip_lens(wants, space);
        assert(c == seq![l] + rest);
        assert(c.drop_first() =~= rest);
        assert(seq_sum(c) == l + seq_sum(rest));
        assert(seq_sum(wants) == wants[0] + seq_sum(wants.drop_first()));
    }
}

/// When the wants fit in the space, clipping changes nothing.
pub proof fn lemma_clip_lens_exact(wants: Seq<int>, space: int)
    requires
        forall|i: int| 0 <= i < wants.len() ==> #[trigger] wants[i] >= 0,
        seq_sum(wants) <= space,
    ensures
        clip_lens(wants, space) == wants,
    decreases wants.len(),
{
    if wants.len() > 0 {
        lemma_seq_sum_nonneg(wants.drop_first());
        let l = min(wants[0], space);
        assert(l == wants[0]);
        lemma_clip_lens_exact(wants.drop_first(), space - l);
        assert(seq![wants[0]] + wants.drop_first() =~= wants);
    }
}

/// The inset area stays well-formed and inside the outer area.
pub proof fn lemma_inner_rect_wf(area: Rect, margin: u16)
    requires
        area.wf(),
    ensures
        inner_rect(area, margin).wf(),
        inner_rect(area, margin).x as int == area.x + min(margin as int, area.width as int / 2),
        inner_rect(area, margin).y as int == area.y + min(margin as int, area.height as int / 2),
        inner_rect(area, margin).width as int == area.width - 2 * min(
            margin as int,
            area.width as int / 2,
        ),
        inner_rect(area, margin).height as int == area.height - 2 * min(
            margin as int,
            area.height as int / 2,
        ),
{
}

/// Rectangles laid out from a length list: one per length, with that
/// length along the axis, at consecutive positions, all spanning the
/// cross extent of the inset area.
pub proof fn lemma_rects_from_props(lens: Seq<int>, pos: int, inner: Rect, d: Direction)
    requires
        forall|i: int| 0 <= i < lens.len() ==> 0 <= #[trigger] lens[i] <= u16::MAX,
        0 <= pos,
        pos + seq_sum(lens) <= u16::MAX,
    ensures
        ({
            let r = rects_from(lens, pos, inner, d);
            &&& r.len() == lens.len()
            &&& forall|i: int|
                0 <= i < lens.len() ==> axis_len(#[trigger] r[i], d) == lens[i]
            &&& forall|i: int|
                0 <= i < lens.len() ==> axis_pos(#[trigger] r[i], d) == pos + seq_sum(
                    lens.take(i),
                )
            &&& forall|i: int|
                0 <= i < lens.len() ==> cross_pos(#[trigger] r[i], d) == cross_pos(inner, d)
                    && cross_len(r[i], d) == cross_len(inner, d)
        }),
    decreases lens.len(),
{
    if lens.len() > 0 {
        lemma_seq_sum_nonneg(lens);
        lemma_seq_sum_nonneg(lens.drop_first());
        let r = rects_from(lens, pos, inner, d);
        let rest = rects_from(lens.drop_first(), pos + lens[0], inner, d);
        lemma_rects_from_props(lens.drop_first(), pos + lens[0], inner, d);
        assert(r == seq![r[0]] + rest);
        assert(lens.take(0) =~= Seq::<int>::empty());
        assert forall|i: int| 1 <= i < lens.len() implies axis_pos(#[trigger] r[i], d) == pos
            + seq_sum(lens.take(i)) by {
            assert(r[i] == rest[i - 1]);
            assert(lens.take(i)[0] == lens[0]);
            assert(lens.take(i).drop_first() =~= lens.drop_first().take(i - 1));
            assert(seq_sum(lens.take(i)) == lens[0] + seq_sum(lens.drop_first().take(i - 1)));
        }
    }
}

/// A split partitions the inset area: one rectangle per constraint,
/// laid contiguously and without overlap along the axis, each spanning
/// the full cross extent; their total length never exceeds the
/// available length, and equals it when a `Min` constraint is present.
pub proof fn lemma_split_partition(
    r: Seq<Rect>,
    area: Rect,
    d: Direction,
    sizes: Seq<Size>,
    margin: u16,
)
    requires
        area.wf(),
        r == split_spec(area, d, sizes, margin),
    ensures
        r.len() == sizes.len(),
        sizes.len() > 0 ==> axis_pos(r[0], d) == axis_pos(inner_rect(area, margin), d),
        forall|i: int|
            0 < i < r.len() ==> axis_pos(#[trigger] r[i], d) == axis_pos(r[i - 1], d) + axis_len(
                r[i - 1],
                d,
            ),
        forall|i: int, j: int|
            0 <= i < j < r.len() ==> axis_pos(#[trigger] r[i], d) + axis_len(r[i], d) <= axis_pos(
                #[trigger] r[j],
                d,
            ),
        forall|i: int|
            0 <= i < r.len() ==> cross_pos(#[trigger] r[i], d) == cross_pos(
                inner_rect(area, margin),
                d,
            ) && cross_len(r[i], d) == cross_len(inner_rect(area, margin), d),
        total_axis_len(r, d) <= avail_len(area, d, margin),
        has_min(sizes) ==> total_axis_len(r, d) == avail_len(area, d, margin),
{
    let inner = inner_rect(area, margin);
    let avail = axis_len(inner, d);
    let pos0 = axis_pos(inner, d);
    let wseq = wants_seq(sizes, avail);
    let lens = clip_lens(wseq, avail);
    lemma_inner_rect_wf(area, margin);
    lemma_wants_seq_nonneg(sizes, avail);
    lemma_clip_lens_props(wseq, avail);
    lemma_wants_seq_sum(sizes, avail);
    lemma_rects_from_props(lens, pos0, inner, d);
    assert(Seq::new(r.len(), |i: int| axis_len(r[i], d)) =~= lens);
    assert forall|i: int| 0 < i < r.len() implies axis_pos(#[trigger] r[i], d) == axis_pos(
        r[i - 1],
        d,
    ) + axis_len(r[i - 1], d) by {
        lemma_seq_sum_take_succ(lens, i - 1);
    }
    assert forall|i: int, j: int| 0 <= i < j < r.len() implies axis_pos(#[trigger] r[i], d)
        + axis_len(r[i], d) <= axis_pos(#[trigger] r[j], d) by {
        lemma_seq_sum_take_succ(lens, i);
        lemma_seq_sum_take_mono(lens, i + 1, j);
    }
}

/// When the claimed total fits in the available length, every segment
/// gets exactly its resolved length: nothing is clipped.
pub proof fn lemma_split_exact_when_fits(
    r: Seq<Rect>,
    area: Rect,
    d: Direction,
    sizes: Seq<Size>,
    margin: u16,
)
    requires
        area.wf(),
        r == split_spec(area, d, sizes, margin),
        sum_wants(sizes, avail_len(area, d, margin)) <= avail_len(area, d, margin),
    ensures
        forall|i: int|
            0 <= i < r.len() ==> axis_len(#[trigger] r[i], d) == want_at(
                sizes,
                avail_len(area, d, margin),
                i,
            ),
{
    let inner = inner_rect(area, margin);
    let avail = axis_len(inner, d);
    let pos0 = axis_pos(inner, d);
    let wseq = wants_seq(sizes, avail);
    lemma_inner_rect_wf(area, margin);
    lemma_wants_seq_nonneg(sizes, avail);
    lemma_wants_seq_sum(sizes, avail);
    lemma_clip_lens_exact(wseq, avail);
    lemma_clip_lens_props(wseq, avail);
    lemma_rects_from_props(wseq, pos0, inner, d);
}

/// The split is deterministic: any two results of the same inputs are
/// the same rectangles.
pub proof fn lemma_split_deterministic(
    r1: Seq<Rect>,
    r2: Seq<Rect>,
    area: Rect,
    d: Direction,
    sizes: Seq<Size>,
    margin: u16,
)
    requires
        r1 == split_spec(area, d, sizes, margin),
        r2 == split_spec(area, d, sizes, margin),
    ensures
        r1 == r2,
{
}

} // verus!
