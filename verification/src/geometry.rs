//! Rectangles of terminal cells, and how an area is divided.

use vstd::prelude::*;

verus! {

/// A rectangle of terminal cells.
#[derive(Debug, Clone, Copy, PartialEq, Eq, Structural)]
pub struct Rect {
    pub x: u16,
    pub y: u16,
    pub width: u16,
    pub height: u16,
}

/// The smaller of two numbers.
pub open spec fn least(a: int, b: int) -> int {
    if a < b {
        a
    } else {
        b
    }
}

/// The larger of two numbers.
pub open spec fn most(a: nat, b: nat) -> nat {
    if a < b {
        b
    } else {
        a
    }
}

/// What is left of `a` without `b`, at least nothing.
pub open spec fn less(a: int, b: int) -> int {
    if a > b {
        a - b
    } else {
        0
    }
}

/// A rectangle cut off where the coordinates end.
pub open spec fn rect(x: int, y: int, width: int, height: int) -> Rect {
    Rect {
        x: x as u16,
        y: y as u16,
        width: least(width, u16::MAX - x) as u16,
        height: least(height, u16::MAX - y) as u16,
    }
}

/// No cells at the origin.
pub open spec fn nowhere() -> Rect {
    Rect { x: 0, y: 0, width: 0, height: 0 }
}

impl Rect {
    /// The rectangle ends within the coordinates.
    pub open spec fn wf(self) -> bool {
        self.x + self.width <= u16::MAX && self.y + self.height <= u16::MAX
    }

    /// Whether the rectangle lies in another one.
    pub open spec fn within(self, other: Rect) -> bool {
        &&& other.x <= self.x
        &&& other.y <= self.y
        &&& self.x + self.width <= other.x + other.width
        &&& self.y + self.height <= other.y + other.height
    }

    /// A rectangle, cut off where the coordinates end.
    pub fn new(x: u16, y: u16, width: u16, height: u16) -> (r: Rect)
        ensures
            r == rect(x as int, y as int, width as int, height as int),
            r.wf(),
            x + width <= u16::MAX ==> r.width == width,
            y + height <= u16::MAX ==> r.height == height,
    {
        Rect { x, y, width: x.saturating_add(width) - x, height: y.saturating_add(height) - y }
    }

    /// No cells at the origin.
    pub fn nowhere() -> (r: Rect)
        ensures
            r == nowhere(),
            r.wf(),
    {
        Rect { x: 0, y: 0, width: 0, height: 0 }
    }

    /// The first column behind the rectangle.
    pub fn right(self) -> (column: u16)
        ensures
            column == least(self.x + self.width, u16::MAX as int),
    {
        self.x.saturating_add(self.width)
    }

    /// The first row below the rectangle.
    pub fn bottom(self) -> (row: u16)
        ensures
            row == least(self.y + self.height, u16::MAX as int),
    {
        self.y.saturating_add(self.height)
    }

    /// What a frame of one cell around the rectangle leaves inside.
    pub open spec fn framed(self) -> Rect {
        Rect {
            x: least(self.x + 1, least(self.x + self.width, u16::MAX as int)) as u16,
            y: least(self.y + 1, least(self.y + self.height, u16::MAX as int)) as u16,
            width: less(self.width as int, 2) as u16,
            height: less(self.height as int, 2) as u16,
        }
    }

    /// What a frame of one cell around the rectangle leaves inside.
    pub fn inner(self) -> (r: Rect)
        ensures
            r == self.framed(),
            self.wf() ==> r.wf() && r.within(self),
    {
        let right: u16 = self.right();
        let bottom: u16 = self.bottom();
        let x: u16 = if self.x < right {
            self.x + 1
        } else {
            right
        };
        let y: u16 = if self.y < bottom {
            self.y + 1
        } else {
            bottom
        };
        Rect { x, y, width: self.width.saturating_sub(2), height: self.height.saturating_sub(2) }
    }
}

/// The smaller of two numbers.
pub fn smaller(a: u16, b: u16) -> (c: u16)
    ensures
        c == least(a as int, b as int),
{
    if a < b {
        a
    } else {
        b
    }
}

/// The way in which an area is divided.
#[derive(Debug, Clone, Copy, PartialEq, Eq, Structural)]
pub enum Direction {
    /// Side by side.
    Horizontal,
    /// One below the other.
    Vertical,
}

/// How much of an area a part takes.
#[derive(Debug, Clone, Copy, PartialEq, Eq, Structural)]
pub enum Extent {
    /// So many cells.
    Length(u16),
    /// So many cells at least, and what the others leave.
    Min(u16),
}

impl Extent {
    /// The cells that a part asks for.
    pub open spec fn asked(self) -> int {
        match self {
            Extent::Length(n) => n as int,
            Extent::Min(n) => n as int,
        }
    }
}

/// The cells that all parts ask for.
pub open spec fn total(extents: Seq<Extent>) -> int
    decreases extents.len(),
{
    if extents.len() == 0 {
        0
    } else {
        total(extents.drop_last()) + extents.last().asked()
    }
}

/// Whether every part can have what it asks for, and at most one may take more.
pub open spec fn fits(extents: Seq<Extent>, size: int) -> bool {
    &&& total(extents) <= size
    &&& forall|i: int, j: int|
        0 <= i < j < extents.len() ==> !(extents[i] is Min && extents[j] is Min)
}

/// The cells that a part gets where all fit.
pub open spec fn given(extents: Seq<Extent>, size: int, i: int) -> int {
    match extents[i] {
        Extent::Length(n) => n as int,
        Extent::Min(n) => n + size - total(extents),
    }
}

/// Where a part begins, counted from the beginning of the area, where all fit.
pub open spec fn start(extents: Seq<Extent>, size: int, i: int) -> int
    decreases i,
{
    if i <= 0 {
        0
    } else {
        start(extents, size, i - 1) + given(extents, size, i - 1)
    }
}

impl Rect {
    /// Where the rectangle begins along a direction.
    pub open spec fn begin(self, direction: Direction) -> int {
        match direction {
            Direction::Horizontal => self.x as int,
            Direction::Vertical => self.y as int,
        }
    }

    /// How many cells the rectangle has along a direction.
    pub open spec fn span(self, direction: Direction) -> int {
        match direction {
            Direction::Horizontal => self.width as int,
            Direction::Vertical => self.height as int,
        }
    }
}

/// The most parts of which more is said where they do not fit.
pub const FEW_PARTS: usize = 16;

/// Whether a few parts ask for more than there is, and at most one of them may
/// take more than it asks for. That one asks for no more than 32767 cells.
pub open spec fn crowded(extents: Seq<Extent>, size: int) -> bool {
    &&& total(extents) > size
    &&& extents.len() <= FEW_PARTS
    &&& forall|i: int, j: int|
        0 <= i < j < extents.len() ==> !(extents[i] is Min && extents[j] is Min)
    &&& forall|i: int|
        0 <= i < extents.len() ==> ((#[trigger] extents[i]) matches Extent::Min(n) ==> n
            <= i16::MAX)
}

/// Whether a part has at least two cells more than each of its neighbours.
pub open spec fn stands_out(direction: Direction, parts: Seq<Rect>, i: int) -> bool {
    &&& i > 0 ==> parts[i].span(direction) >= parts[i - 1].span(direction) + 2
    &&& i + 1 < parts.len() ==> parts[i].span(direction) >= parts[i + 1].span(direction) + 2
}

/// The cells of some sizes together.
pub open spec fn summed(sizes: Seq<int>) -> int
    decreases sizes.len(),
{
    if sizes.len() == 0 {
        0
    } else {
        summed(sizes.drop_last()) + sizes.last()
    }
}

/// How far neighbours are apart in size, together.
pub open spec fn unevenness(sizes: Seq<int>) -> int
    decreases sizes.len(),
{
    if sizes.len() < 2 {
        0
    } else {
        let last = sizes.last();
        let before = sizes[sizes.len() - 2];
        unevenness(sizes.drop_last()) + if last < before {
            before - last
        } else {
            last - before
        }
    }
}

/// Whether a crowded area can be shared so, in cells of which each is cut into
/// `grain` pieces: no length is exceeded, the minimum comes first, and nothing is
/// left over.
pub open spec fn shareable(extents: Seq<Extent>, size: int, grain: int, sizes: Seq<int>) -> bool {
    &&& sizes.len() == extents.len()
    &&& summed(sizes) == size * grain
    &&& forall|i: int|
        0 <= i < sizes.len() ==> match extents[i] {
            Extent::Length(n) => 0 <= #[trigger] sizes[i] <= n * grain,
            Extent::Min(n) => sizes[i] == least(n as int, size) * grain,
        }
}

/// Whether every other way to share a crowded area, in pieces of any grain, is less
/// even.
pub open spec fn most_even(extents: Seq<Extent>, size: int, grain: int, sizes: Seq<int>) -> bool {
    &&& grain > 0
    &&& shareable(extents, size, grain, sizes)
    &&& forall|finer: int, others: Seq<int>|
        finer > 0 && #[trigger] shareable(extents, size, finer, others) && !(forall|i: int|
            0 <= i < sizes.len() ==> others[i] * grain == sizes[i] * finer) ==> unevenness(others)
            * grain > unevenness(sizes) * finer
}

/// The whole number nearest to a fraction; of two that are as near, the larger.
pub open spec fn nearest(pieces: int, grain: int) -> int {
    (2 * pieces + grain) / (2 * grain)
}

/// How a crowded area is shared. The parts follow one another from its beginning
/// to its end. The part with a minimum has that, or else the whole area. No other
/// has more than it asks for, and none stands out beside one that could have
/// more. Where one way to share the area is the most even, it is the one, and each
/// part begins at the nearest cell.
pub open spec fn shared(
    area: Rect,
    direction: Direction,
    extents: Seq<Extent>,
    parts: Seq<Rect>,
) -> bool {
    &&& parts[0].begin(direction) == area.begin(direction)
    &&& parts.last().begin(direction) + parts.last().span(direction) == area.begin(direction)
        + area.span(direction)
    &&& forall|i: int, j: int|
        0 <= i && j == i + 1 && j < parts.len() ==> (#[trigger] parts[j]).begin(direction) == (
        #[trigger] parts[i]).begin(direction) + parts[i].span(direction)
    &&& forall|i: int|
        0 <= i < parts.len() ==> match extents[i] {
            Extent::Length(n) => (#[trigger] parts[i]).span(direction) <= n,
            Extent::Min(n) => parts[i].span(direction) == least(n as int, area.span(direction)),
        }
    &&& forall|i: int, j: int|
        0 <= i < parts.len() && 0 <= j < parts.len() && (j == i - 1 || j == i + 1)
            && extents[i] is Length && #[trigger] stands_out(direction, parts, i) ==> ((
        #[trigger] extents[j]) matches Extent::Length(n) ==> parts[j].span(direction) == n)
    &&& forall|grain: int, sizes: Seq<int>, i: int|
        #[trigger] most_even(extents, area.span(direction), grain, sizes) && 0 <= i < parts.len()
            ==> (#[trigger] parts[i]).begin(direction) == area.begin(direction) + nearest(
            summed(sizes.take(i)),
            grain,
        )
}

/// What can be said of the parts of an area, whatever they ask for: each part
/// spans the area across and lies within it along the division. Where all fit,
/// the parts follow one another from the beginning, each with what it is given.
/// Where they are crowded, they share the area.
pub open spec fn divided(
    area: Rect,
    direction: Direction,
    extents: Seq<Extent>,
    parts: Seq<Rect>,
) -> bool {
    &&& parts.len() == extents.len()
    &&& forall|i: int|
        0 <= i < parts.len() ==> (#[trigger] parts[i]).within(area) && match direction {
            Direction::Horizontal => parts[i].y == area.y && parts[i].height == area.height,
            Direction::Vertical => parts[i].x == area.x && parts[i].width == area.width,
        }
    &&& direction == Direction::Horizontal && fits(extents, area.width as int) ==> forall|i: int|
        0 <= i < parts.len() ==> (#[trigger] parts[i]).x == area.x + start(
            extents,
            area.width as int,
            i,
        ) && parts[i].width == given(extents, area.width as int, i)
    &&& direction == Direction::Vertical && fits(extents, area.height as int) ==> forall|i: int|
        0 <= i < parts.len() ==> (#[trigger] parts[i]).y == area.y + start(
            extents,
            area.height as int,
            i,
        ) && parts[i].height == given(extents, area.height as int, i)
    &&& crowded(extents, area.span(direction)) ==> shared(area, direction, extents, parts)
}

/// Divide an area: `ratatui::layout::Layout::split`, with the default alignment to
/// the start. The contract claims that there is a part for each extent and that
/// each spans the area across and lies in it. Of extents of which at most one is a
/// minimum it claims more. Where all fit, the parts are laid out one after the
/// other with their lengths, the growing one taking what is left. Where they do
/// not fit, the parts still follow one another and fill the area, the minimum
/// comes before the lengths, no length is exceeded, and neighbours are kept as close
/// in size as that allows: a part is cut before its smaller neighbours are, up to a
/// cell of rounding, and a division that is more even than every other is the one
/// taken, with each part beginning at the nearest cell. That follows from the
/// strengths of the layout's constraints and from how places are rounded. Minimums
/// above 32767 are read as signed numbers, and with hundreds of parts equal places
/// can be rounded apart, so of those, and of several parts that may grow, nothing
/// more is said. Which of equally even divisions is taken is left unsaid too: the
/// constraint solver decides as it walks its hash maps.
#[verifier::external_body]
pub(crate) fn split(area: Rect, direction: Direction, extents: &Vec<Extent>) -> (parts: Vec<Rect>)
    requires
        area.wf(),
    ensures
        divided(area, direction, extents@, parts@),
{
    let direction = match direction {
        Direction::Horizontal => ratatui::layout::Direction::Horizontal,
        Direction::Vertical => ratatui::layout::Direction::Vertical,
    };
    let constraints = extents.iter().map(|extent| match extent {
        Extent::Length(n) => ratatui::layout::Constraint::Length(*n),
        Extent::Min(n) => ratatui::layout::Constraint::Min(*n),
    });
    let Rect { x, y, width, height } = area;
    let area = ratatui::layout::Rect { x, y, width, height };
    let parts = ratatui::layout::Layout::new(direction, constraints).split(area);
    parts.iter().map(|r| Rect { x: r.x, y: r.y, width: r.width, height: r.height }).collect()
}

/// A frame takes one cell on each side.
pub proof fn law_a_frame_takes_one_cell_on_each_side(area: Rect)
    requires
        area.wf(),
        area.width >= 2,
        area.height >= 2,
    ensures
        area.framed().x == area.x + 1,
        area.framed().y == area.y + 1,
        area.framed().x + area.framed().width == area.x + area.width - 1,
        area.framed().y + area.framed().height == area.y + area.height - 1,
{
}

/// Where all parts fit, a length is kept, the parts follow one another without a
/// gap from the beginning of the area, and one that may grow takes what is left.
pub proof fn law_fitting_parts_follow_one_another(
    area: Rect,
    direction: Direction,
    extents: Seq<Extent>,
    parts: Seq<Rect>,
    i: int,
)
    requires
        divided(area, direction, extents, parts),
        fits(extents, area.span(direction)),
        0 <= i < parts.len(),
    ensures
        extents[i] matches Extent::Length(n) ==> parts[i].span(direction) == n,
        extents[i] matches Extent::Min(n) ==> parts[i].span(direction) == n + area.span(direction)
            - total(extents),
        i == 0 ==> parts[i].begin(direction) == area.begin(direction),
        i > 0 ==> parts[i].begin(direction) == parts[i - 1].begin(direction)
            + parts[i - 1].span(direction),
{
    match direction {
        Direction::Horizontal => {
            assert(parts[i].x == area.x + start(extents, area.width as int, i));
            if i > 0 {
                assert(parts[i - 1].x == area.x + start(extents, area.width as int, i - 1));
            }
        },
        Direction::Vertical => {
            assert(parts[i].y == area.y + start(extents, area.height as int, i));
            if i > 0 {
                assert(parts[i - 1].y == area.y + start(extents, area.height as int, i - 1));
            }
        },
    }
}

} // verus!
