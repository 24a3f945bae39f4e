//! Rectangles of terminal cells, and the two ways this library cuts them:
//! into equal shares side by side, and down to a centred box.

use crate::toolkit::{solve_center, solve_split};
use vstd::prelude::*;

verus! {

/// The direction along which an area is cut.
#[derive(Clone, Copy, Debug, PartialEq, Eq, Structural)]
pub enum Axis {
    Horizontal,
    Vertical,
}

/// A rectangle of cells: its top left corner and its size.
#[derive(Clone, Copy, Debug, PartialEq, Eq, Structural)]
pub struct Area {
    pub x: u16,
    pub y: u16,
    pub width: u16,
    pub height: u16,
}

/// The smaller of two integers.
pub open spec fn lesser(a: int, b: int) -> int {
    if a <= b {
        a
    } else {
        b
    }
}

impl Area {
    /// An area is valid when its far edges are coordinates too.
    pub open spec fn valid(self) -> bool {
        &&& self.x + self.width <= u16::MAX
        &&& self.y + self.height <= u16::MAX
    }

    /// Whether a buffer can cover the area: it is valid and ends before the
    /// last column, so that the column behind it is a coordinate too.
    pub open spec fn drawable(self) -> bool {
        &&& self.valid()
        &&& self.x + self.width < u16::MAX
    }

    /// Whether the cell at column `x` of row `y` lies in the area.
    pub open spec fn holds(self, x: int, y: int) -> bool {
        &&& self.x <= x < self.x + self.width
        &&& self.y <= y < self.y + self.height
    }

    /// Where the area begins along `axis`.
    pub open spec fn start(self, axis: Axis) -> int {
        match axis {
            Axis::Horizontal => self.x as int,
            Axis::Vertical => self.y as int,
        }
    }

    /// How far the area reaches along `axis`.
    pub open spec fn extent(self, axis: Axis) -> int {
        match axis {
            Axis::Horizontal => self.width as int,
            Axis::Vertical => self.height as int,
        }
    }

    /// Where the area ends along `axis`, one past its last cell.
    pub open spec fn end(self, axis: Axis) -> int {
        self.start(axis) + self.extent(axis)
    }

    /// Whether `self` and `other` agree in everything but their place along `axis`.
    pub open spec fn same_band(self, other: Area, axis: Axis) -> bool {
        match axis {
            Axis::Horizontal => self.y == other.y && self.height == other.height,
            Axis::Vertical => self.x == other.x && self.width == other.width,
        }
    }

    /// The part of `self` that begins at `start` and reaches `extent` along `axis`.
    pub open spec fn band(self, axis: Axis, start: int, extent: int) -> Area {
        match axis {
            Axis::Horizontal => Area { x: start as u16, width: extent as u16, ..self },
            Axis::Vertical => Area { y: start as u16, height: extent as u16, ..self },
        }
    }

    /// An area at `(x, y)`; a size that would reach past the last coordinate is cut there.
    pub fn new(x: u16, y: u16, width: u16, height: u16) -> (area: Area)
        ensures
            area.valid(),
            area.x == x,
            area.y == y,
            area.width == lesser(width as int, u16::MAX - x),
            area.height == lesser(height as int, u16::MAX - y),
    {
        let room_x: u16 = u16::MAX - x;
        let room_y: u16 = u16::MAX - y;
        Area {
            x,
            y,
            width: if width <= room_x { width } else { room_x },
            height: if height <= room_y { height } else { room_y },
        }
    }

    /// Where the area begins along `axis`.
    pub fn start_along(&self, axis: Axis) -> (start: u16)
        ensures
            start == self.start(axis),
    {
        match axis {
            Axis::Horizontal => self.x,
            Axis::Vertical => self.y,
        }
    }

    /// How far the area reaches along `axis`.
    pub fn extent_along(&self, axis: Axis) -> (extent: u16)
        ensures
            extent == self.extent(axis),
    {
        match axis {
            Axis::Horizontal => self.width,
            Axis::Vertical => self.height,
        }
    }

    /// The same area, but from `start` over `extent` cells along `axis`.
    pub fn with_band(&self, axis: Axis, start: u16, extent: u16) -> (area: Area)
        ensures
            area == self.band(axis, start as int, extent as int),
    {
        match axis {
            Axis::Horizontal => Area { x: start, y: self.y, width: extent, height: self.height },
            Axis::Vertical => Area { x: self.x, y: start, width: self.width, height: extent },
        }
    }

    /// Whether the far edges of the area are coordinates.
    pub fn is_valid(&self) -> (valid: bool)
        ensures
            valid == self.valid(),
    {
        self.width <= u16::MAX - self.x && self.height <= u16::MAX - self.y
    }

    /// Whether a buffer can cover the area.
    pub fn is_drawable(&self) -> (drawable: bool)
        ensures
            drawable == self.drawable(),
    {
        self.width < u16::MAX - self.x && self.height <= u16::MAX - self.y
    }
}

/// The length of share `i` when `total` cells go to `count` shares: the
/// quotient, and one more for each of the first `total % count` shares.
pub open spec fn share(total: int, count: int, i: int) -> int {
    total / count + if i < total % count {
        1int
    } else {
        0int
    }
}

/// The cells that lie before share `i`.
pub open spec fn shares_before(total: int, count: int, i: int) -> int {
    i * (total / count) + lesser(i, total % count)
}

/// Share `i` of `area` cut into `count` along `axis`.
pub open spec fn even_region(area: Area, axis: Axis, count: int, i: int) -> Area {
    area.band(
        axis,
        area.start(axis) + shares_before(area.extent(axis), count, i),
        share(area.extent(axis), count, i),
    )
}

/// The library's own cut of `area` into `count` shares along `axis`.
pub open spec fn even_split(area: Area, axis: Axis, count: nat) -> Seq<Area> {
    Seq::new(count, |i: int| even_region(area, axis, count as int, i))
}

/// Whether `regions` cut `area` into `count` shares along `axis`: they lie in
/// `area`'s band, follow one another from its start to its end without gap or
/// overlap, and no two differ in length by more than one cell.
pub open spec fn is_even_split(area: Area, axis: Axis, count: nat, regions: Seq<Area>) -> bool {
    &&& regions.len() == count
    &&& forall|i: int| 0 <= i < count ==> (#[trigger] regions[i]).same_band(area, axis)
    &&& count > 0 ==> regions[0].start(axis) == area.start(axis)
    &&& forall|i: int, j: int|
        #![trigger regions[i], regions[j]]
        0 <= i && j == i + 1 && j < count ==> regions[j].start(axis) == regions[i].end(axis)
    &&& count > 0 ==> regions[count - 1].end(axis) == area.end(axis)
    &&& forall|i: int, j: int|
        #![trigger regions[i], regions[j]]
        0 <= i < count && 0 <= j < count ==> regions[i].extent(axis) <= regions[j].extent(axis) + 1
}

/// The lengths of `regions` along `axis`, added up.
pub open spec fn total_extent(regions: Seq<Area>, axis: Axis) -> int
    decreases regions.len(),
{
    if regions.len() == 0 {
        0
    } else {
        total_extent(regions.drop_last(), axis) + regions.last().extent(axis)
    }
}

/// Whether `inner` takes `extent` cells of `area` along `axis` (or all of
/// them, if `area` has fewer) and lies in the middle of it: the room before
/// it and the room after it differ by at most one cell.
pub open spec fn is_middle(area: Area, axis: Axis, extent: int, inner: Area) -> bool {
    &&& inner.extent(axis) == lesser(extent, area.extent(axis))
    &&& area.start(axis) <= inner.start(axis)
    &&& inner.end(axis) <= area.end(axis)
    &&& (inner.start(axis) - area.start(axis)) - (area.end(axis) - inner.end(axis)) <= 1
    &&& (area.end(axis) - inner.end(axis)) - (inner.start(axis) - area.start(axis)) <= 1
}

/// Whether `inner` is the box of length `extent` centred in `area` along
/// `axis`, and as `area` is across it.
pub open spec fn is_centered_along(area: Area, axis: Axis, extent: int, inner: Area) -> bool {
    &&& inner.same_band(area, axis)
    &&& is_middle(area, axis, extent, inner)
}

/// The library's own centred box: the odd cell, if any, stays behind it.
pub open spec fn centered_along(area: Area, axis: Axis, extent: int) -> Area {
    let length = lesser(extent, area.extent(axis));
    area.band(axis, area.start(axis) + (area.extent(axis) - length) / 2, length)
}

/// Whether `inner` is centred in `area` along both axes, `width` cells wide
/// and `height` cells high as far as `area` has room.
pub open spec fn is_centered(area: Area, width: int, height: int, inner: Area) -> bool {
    &&& is_middle(area, Axis::Horizontal, width, inner)
    &&& is_middle(area, Axis::Vertical, height, inner)
}

proof fn lemma_shares(total: int, count: int, i: int)
    requires
        0 <= total,
        0 < count,
        0 <= i < count,
    ensures
        0 <= total % count < count,
        total == count * (total / count) + total % count,
        0 <= total / count,
        shares_before(total, count, 0) == 0,
        shares_before(total, count, i + 1) == shares_before(total, count, i) + share(
            total,
            count,
            i,
        ),
        0 <= shares_before(total, count, i),
        shares_before(total, count, i + 1) <= total,
        shares_before(total, count, count) == total,
        total / count <= share(total, count, i) <= total / count + 1,
        total / count <= total,
        share(total, count, i) <= total || total % count == 0,
{
    let q = total / count;
    let r = total % count;
    vstd::arithmetic::div_mod::lemma_fundamental_div_mod(total, count);
    vstd::arithmetic::div_mod::lemma_mod_bound(total, count);
    vstd::arithmetic::div_mod::lemma_div_pos_is_pos(total, count);
    assert((i + 1) * q == i * q + q) by (nonlinear_arith);
    assert(0 <= i * q) by (nonlinear_arith)
        requires
            0 <= i,
            0 <= q,
    ;
    assert((i + 1) * q <= count * q) by (nonlinear_arith)
        requires
            i + 1 <= count,
            0 <= q,
    ;
    assert(q <= count * q) by (nonlinear_arith)
        requires
            1 <= count,
            0 <= q,
    ;
}

/// The library's own cut is an even split.
pub proof fn lemma_even_split_is_even(area: Area, axis: Axis, count: nat)
    requires
        area.valid(),
    ensures
        is_even_split(area, axis, count, even_split(area, axis, count)),
        forall|i: int| 0 <= i < count ==> (#[trigger] even_split(area, axis, count)[i]).valid(),
{
    let regions = even_split(area, axis, count);
    let total = area.extent(axis);
    let n = count as int;
    assert forall|i: int| 0 <= i < count implies (#[trigger] regions[i]).same_band(area, axis)
        && regions[i].valid() && regions[i].start(axis) == area.start(axis) + shares_before(
        total,
        n,
        i,
    ) && regions[i].extent(axis) == share(total, n, i) by {
        lemma_shares(total, n, i);
    }
    if count > 0 {
        lemma_shares(total, n, 0);
        lemma_shares(total, n, n - 1);
    }
    assert forall|i: int, j: int|
        #![trigger regions[i], regions[j]]
        0 <= i && j == i + 1 && j < count implies regions[j].start(axis) == regions[i].end(
        axis,
    ) by {
        lemma_shares(total, n, i);
    }
    assert forall|i: int, j: int|
        #![trigger regions[i], regions[j]]
        0 <= i < count && 0 <= j < count implies regions[i].extent(axis) <= regions[j].extent(
        axis,
    ) + 1 by {
        lemma_shares(total, n, i);
        lemma_shares(total, n, j);
    }
}

proof fn lemma_prefix_extent(area: Area, axis: Axis, regions: Seq<Area>, k: int)
    requires
        is_even_split(area, axis, regions.len(), regions),
        1 <= k <= regions.len(),
    ensures
        total_extent(regions.take(k), axis) == regions[k - 1].end(axis) - area.start(axis),
    decreases k,
{
    let prefix = regions.take(k);
    assert(prefix.drop_last() =~= regions.take(k - 1));
    assert(prefix.last() == regions[k - 1]);
    if k == 1 {
        assert(total_extent(regions.take(0), axis) == 0);
    } else {
        lemma_prefix_extent(area, axis, regions, k - 1);
        assert(regions[k - 1].start(axis) == regions[k - 2].end(axis));
    }
}

/// The regions of an even split into at least one share are as long, taken
/// together, as the area they cut, and no two of them differ by more than one
/// cell.
pub proof fn lemma_even_split_sums(area: Area, axis: Axis, count: nat, regions: Seq<Area>)
    requires
        count >= 1,
        is_even_split(area, axis, count, regions),
    ensures
        total_extent(regions, axis) == area.extent(axis),
        forall|i: int, j: int|
            #![trigger regions[i], regions[j]]
            0 <= i < count && 0 <= j < count ==> regions[i].extent(axis) - regions[j].extent(axis)
                <= 1,
{
    lemma_prefix_extent(area, axis, regions, count as int);
    assert(regions.take(count as int) =~= regions);
}

impl Area {
    /// Whether `self` and `other` agree in everything but their place along `axis`.
    pub fn in_band_of(&self, other: &Area, axis: Axis) -> (same: bool)
        ensures
            same == self.same_band(*other, axis),
    {
        match axis {
            Axis::Horizontal => self.y == other.y && self.height == other.height,
            Axis::Vertical => self.x == other.x && self.width == other.width,
        }
    }

    /// The cells that `self` and `other` share, if there are any.
    pub open spec fn overlap(self, other: Area) -> Option<Area> {
        let left = if self.x >= other.x {
            self.x as int
        } else {
            other.x as int
        };
        let top = if self.y >= other.y {
            self.y as int
        } else {
            other.y as int
        };
        let right = lesser(self.x + self.width, other.x + other.width);
        let bottom = lesser(self.y + self.height, other.y + other.height);
        if left < right && top < bottom {
            Some(
                Area {
                    x: left as u16,
                    y: top as u16,
                    width: (right - left) as u16,
                    height: (bottom - top) as u16,
                },
            )
        } else {
            None
        }
    }

    /// The cells that `self` and `other` share, if there are any.
    pub fn clip(&self, other: &Area) -> (shared: Option<Area>)
        requires
            self.valid(),
            other.valid(),
        ensures
            shared == self.overlap(*other),
            shared matches Some(part) ==> part.valid() && part.width > 0 && part.height > 0
                && other.x <= part.x && other.y <= part.y && part.x + part.width <= other.x
                + other.width && part.y + part.height <= other.y + other.height,
    {
        let left: u16 = if self.x >= other.x { self.x } else { other.x };
        let top: u16 = if self.y >= other.y { self.y } else { other.y };
        let self_right: u16 = self.x + self.width;
        let other_right: u16 = other.x + other.width;
        let self_bottom: u16 = self.y + self.height;
        let other_bottom: u16 = other.y + other.height;
        let right: u16 = if self_right <= other_right { self_right } else { other_right };
        let bottom: u16 = if self_bottom <= other_bottom { self_bottom } else { other_bottom };
        if left < right && top < bottom {
            Some(Area { x: left, y: top, width: right - left, height: bottom - top })
        } else {
            None
        }
    }
}

/// Every region of an even split of a valid area is valid.
pub proof fn lemma_even_split_regions_valid(
    area: Area,
    axis: Axis,
    count: nat,
    regions: Seq<Area>,
    i: int,
)
    requires
        area.valid(),
        is_even_split(area, axis, count, regions),
        0 <= i < count,
    ensures
        regions[i].valid(),
{
    assert(regions[i].same_band(area, axis));
    if i + 1 < count {
        assert(regions[i + 1].start(axis) == regions[i].end(axis));
    }
}

/// Every region of an even split lies within the area that is cut.
pub proof fn lemma_even_split_regions_inside(
    area: Area,
    axis: Axis,
    count: nat,
    regions: Seq<Area>,
    i: int,
)
    requires
        is_even_split(area, axis, count, regions),
        0 <= i < count,
    ensures
        regions[i].same_band(area, axis),
        area.start(axis) <= regions[i].start(axis),
        regions[i].end(axis) <= area.end(axis),
        forall|x: int, y: int| regions[i].holds(x, y) ==> area.holds(x, y),
{
    lemma_region_starts_late(area, axis, regions, i);
    lemma_region_ends_early(area, axis, regions, i);
    assert(regions[i].same_band(area, axis));
}

proof fn lemma_region_starts_late(area: Area, axis: Axis, regions: Seq<Area>, i: int)
    requires
        is_even_split(area, axis, regions.len(), regions),
        0 <= i < regions.len(),
    ensures
        area.start(axis) <= regions[i].start(axis),
    decreases i,
{
    if i > 0 {
        lemma_region_starts_late(area, axis, regions, i - 1);
        assert(regions[i].start(axis) == regions[i - 1].end(axis));
    }
}

proof fn lemma_region_ends_early(area: Area, axis: Axis, regions: Seq<Area>, i: int)
    requires
        is_even_split(area, axis, regions.len(), regions),
        0 <= i < regions.len(),
    ensures
        regions[i].end(axis) <= area.end(axis),
    decreases regions.len() - i,
{
    if i + 1 < regions.len() {
        lemma_region_ends_early(area, axis, regions, i + 1);
        assert(regions[i + 1].start(axis) == regions[i].end(axis));
    }
}

/// Cuts `area` into `count` shares along `axis` by division: each share gets
/// the quotient, and the first shares one cell more until the remainder is spent.
pub fn even_regions(area: Area, axis: Axis, count: usize) -> (regions: Vec<Area>)
    requires
        area.valid(),
    ensures
        regions@ == even_split(area, axis, count as nat),
{
    let mut regions: Vec<Area> = Vec::new();
    if count == 0 {
        assert(regions@ =~= even_split(area, axis, 0));
        return regions;
    }
    let total: usize = area.extent_along(axis) as usize;
    proof {
        lemma_shares(total as int, count as int, 0);
    }
    let quotient: u16 = (total / count) as u16;
    let remainder: usize = total % count;
    let mut start: u16 = area.start_along(axis);
    let mut i: usize = 0;
    while i < count
        invariant
            0 < count,
            i <= count,
            area.valid(),
            total == area.extent(axis),
            quotient == total as int / count as int,
            remainder == total as int % count as int,
            start == area.start(axis) + shares_before(total as int, count as int, i as int),
            regions@.len() == i,
            forall|k: int|
                0 <= k < i ==> #[trigger] regions@[k] == even_region(area, axis, count as int, k),
        decreases count - i,
    {
        proof {
            lemma_shares(total as int, count as int, i as int);
        }
        let extent: u16 = if i < remainder {
            quotient + 1
        } else {
            quotient
        };
        regions.push(area.with_band(axis, start, extent));
        start = start + extent;
        i = i + 1;
    }
    assert(regions@ =~= even_split(area, axis, count as nat));
    regions
}

/// Whether `regions` are an even split of `area` into `count` shares.
pub fn check_even_split(area: Area, axis: Axis, count: usize, regions: &Vec<Area>) -> (even: bool)
    requires
        area.valid(),
    ensures
        even == is_even_split(area, axis, count as nat, regions@),
{
    if regions.len() != count {
        return false;
    }
    if count == 0 {
        return true;
    }
    let first: Area = regions[0];
    if first.start_along(axis) != area.start_along(axis) {
        return false;
    }
    let mut shortest: u16 = first.extent_along(axis);
    let mut longest: u16 = shortest;
    let ghost mut at_shortest: int = 0;
    let ghost mut at_longest: int = 0;
    let mut reach: u32 = first.start_along(axis) as u32;
    let mut i: usize = 0;
    while i < count
        invariant
            0 < count,
            i <= count,
            regions@.len() == count,
            regions@[0].start(axis) == area.start(axis),
            reach == (if i == 0 {
                area.start(axis)
            } else {
                regions@[i - 1].end(axis)
            }),
            forall|k: int| 0 <= k < i ==> (#[trigger] regions@[k]).same_band(area, axis),
            forall|k: int, j: int|
                #![trigger regions@[k], regions@[j]]
                0 <= k && j == k + 1 && j < i ==> regions@[j].start(axis) == regions@[k].end(axis),
            forall|k: int|
                0 <= k < i ==> shortest <= (#[trigger] regions@[k]).extent(axis) <= longest,
            0 <= at_shortest < count,
            0 <= at_longest < count,
            regions@[at_shortest].extent(axis) == shortest,
            regions@[at_longest].extent(axis) == longest,
        decreases count - i,
    {
        let region: Area = regions[i];
        if !region.in_band_of(&area, axis) {
            return false;
        }
        if region.start_along(axis) as u32 != reach {
            proof {
                assert(i > 0);
                let k = i as int - 1;
                assert(regions@[k + 1].start(axis) != regions@[k].end(axis));
            }
            return false;
        }
        let extent: u16 = region.extent_along(axis);
        if extent < shortest {
            shortest = extent;
            proof {
                at_shortest = i as int;
            }
        }
        if extent > longest {
            longest = extent;
            proof {
                at_longest = i as int;
            }
        }
        reach = region.start_along(axis) as u32 + extent as u32;
        i = i + 1;
    }
    if reach != area.start_along(axis) as u32 + area.extent_along(axis) as u32 {
        return false;
    }
    if longest - shortest > 1 {
        proof {
            assert(regions@[at_longest].extent(axis) > regions@[at_shortest].extent(axis) + 1);
        }
        return false;
    }
    true
}

/// The split that the library goes by when a layout engine has offered
/// `candidate`: the candidate where it is an even split, else the library's own.
pub open spec fn settled_split(area: Area, axis: Axis, count: nat, candidate: Seq<Area>) -> Seq<
    Area,
> {
    if is_even_split(area, axis, count, candidate) {
        candidate
    } else {
        even_split(area, axis, count)
    }
}

/// Whatever a layout engine has offered, the split that the library goes by
/// cuts the area into `count` regions that are as long, taken together, as
/// the area, and of which no two differ by more than one cell.
pub proof fn lemma_settled_split_is_even(area: Area, axis: Axis, count: nat, candidate: Seq<Area>)
    requires
        area.valid(),
        count >= 1,
    ensures
        ({
            let regions = settled_split(area, axis, count, candidate);
            &&& regions.len() == count
            &&& is_even_split(area, axis, count, regions)
            &&& total_extent(regions, axis) == area.extent(axis)
            &&& forall|i: int, j: int|
                #![trigger regions[i], regions[j]]
                0 <= i < count && 0 <= j < count ==> regions[i].extent(axis) - regions[j].extent(
                    axis,
                ) <= 1
        }),
{
    lemma_even_split_is_even(area, axis, count);
    lemma_even_split_sums(area, axis, count, settled_split(area, axis, count, candidate));
}

/// Takes `candidate` where it is an even split of `area`, and cuts `area`
/// anew where it is not.
pub fn settle_split(area: Area, axis: Axis, count: usize, candidate: Vec<Area>) -> (regions: Vec<
    Area,
>)
    requires
        area.valid(),
    ensures
        regions@ == settled_split(area, axis, count as nat, candidate@),
        is_even_split(area, axis, count as nat, regions@),
{
    proof {
        lemma_even_split_is_even(area, axis, count as nat);
    }
    if check_even_split(area, axis, count, &candidate) {
        candidate
    } else {
        even_regions(area, axis, count)
    }
}

/// Cuts `area` into `count` equal shares along `axis`, in order. For one to
/// `u16::MAX` shares the layout engine is asked first, with one constraint
/// of `1 / count` for each share. Whatever it answers, the result is an even
/// split: the shares are as long, taken together, as `area`, and no two
/// differ by more than one cell.
pub fn split_evenly(area: Area, axis: Axis, count: usize) -> (regions: Vec<Area>)
    requires
        area.valid(),
    ensures
        is_even_split(area, axis, count as nat, regions@),
        count >= 1 ==> total_extent(regions@, axis) == area.extent(axis),
{
    let regions: Vec<Area> = if 0 < count && count <= u16::MAX as usize {
        let candidate: Vec<Area> = solve_split(area, axis, 1, count as u32, count);
        settle_split(area, axis, count, candidate)
    } else {
        proof {
            lemma_even_split_is_even(area, axis, count as nat);
        }
        even_regions(area, axis, count)
    };
    proof {
        if count >= 1 {
            lemma_even_split_sums(area, axis, count as nat, regions@);
        }
    }
    regions
}

/// Whether `inner` is centred in `area` along `axis` with length `extent`.
pub fn check_centered_along(area: Area, axis: Axis, extent: u16, inner: Area) -> (centered: bool)
    requires
        area.valid(),
    ensures
        centered == is_centered_along(area, axis, extent as int, inner),
{
    let room: u16 = area.extent_along(axis);
    let length: u16 = if extent <= room {
        extent
    } else {
        room
    };
    if !inner.in_band_of(&area, axis) || inner.extent_along(axis) != length {
        return false;
    }
    let outer_start: u32 = area.start_along(axis) as u32;
    let inner_start: u32 = inner.start_along(axis) as u32;
    let outer_end: u32 = outer_start + room as u32;
    let inner_end: u32 = inner_start + length as u32;
    if inner_start < outer_start || outer_end < inner_end {
        return false;
    }
    let before: u32 = inner_start - outer_start;
    let after: u32 = outer_end - inner_end;
    before <= after + 1 && after <= before + 1
}

/// Centres a box of length `extent` in `area` along `axis` by halving the room
/// that is left over.
pub fn centered_box(area: Area, axis: Axis, extent: u16) -> (inner: Area)
    requires
        area.valid(),
    ensures
        inner == centered_along(area, axis, extent as int),
{
    let room: u16 = area.extent_along(axis);
    let length: u16 = if extent <= room {
        extent
    } else {
        room
    };
    let margin: u16 = (room - length) / 2;
    area.with_band(axis, area.start_along(axis) + margin, length)
}

/// The box that the library goes by when a layout engine has offered
/// `candidate`: the candidate where it is centred, else the library's own.
pub open spec fn settled_center(area: Area, axis: Axis, extent: int, candidate: Area) -> Area {
    if is_centered_along(area, axis, extent, candidate) {
        candidate
    } else {
        centered_along(area, axis, extent)
    }
}

/// Whatever a layout engine has offered, the box that the library goes by is
/// centred in the area and lies within it.
pub proof fn lemma_settled_center_is_centered(
    area: Area,
    axis: Axis,
    extent: int,
    candidate: Area,
)
    requires
        area.valid(),
        0 <= extent,
    ensures
        is_centered_along(area, axis, extent, settled_center(area, axis, extent, candidate)),
        settled_center(area, axis, extent, candidate).valid(),
{
}

/// Takes `candidate` where it is centred in `area`, and centres a box anew
/// where it is not.
pub fn settle_center(area: Area, axis: Axis, extent: u16, candidate: Area) -> (inner: Area)
    requires
        area.valid(),
    ensures
        inner == settled_center(area, axis, extent as int, candidate),
        is_centered_along(area, axis, extent as int, inner),
        inner.valid(),
{
    if check_centered_along(area, axis, extent, candidate) {
        candidate
    } else {
        centered_box(area, axis, extent)
    }
}

/// Centres a box of length `extent` in `area` along `axis`. The layout engine
/// is asked first; whatever it answers, the result is centred.
pub fn center_along(area: Area, axis: Axis, extent: u16) -> (inner: Area)
    requires
        area.valid(),
    ensures
        is_centered_along(area, axis, extent as int, inner),
        inner.valid(),
{
    let candidate: Area = solve_center(area, axis, extent);
    settle_center(area, axis, extent, candidate)
}

/// Centres a box of `horizontal` by `vertical` cells in `area`: first across,
/// then down.
pub fn center(area: Area, horizontal: u16, vertical: u16) -> (inner: Area)
    requires
        area.valid(),
    ensures
        is_centered(area, horizontal as int, vertical as int, inner),
        inner.valid(),
{
    let row: Area = center_along(area, Axis::Horizontal, horizontal);
    center_along(row, Axis::Vertical, vertical)
}

} // verus!
