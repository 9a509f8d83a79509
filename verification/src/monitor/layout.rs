//! Layout of the terminal monitor: rows of panels, each row with a height constraint,
//! and a manager that switches between layout presets.

use self::Constraint::{Fill, Length, Max, Min, Percentage, Ratio};
use ratatui::layout::Constraint::{
    Fill as TermFill, Length as TermLength, Max as TermMax, Min as TermMin,
    Percentage as TermPercentage, Ratio as TermRatio,
};
use ratatui::layout::Direction as TermDirection;
use ratatui::layout::Layout as TermLayout;
use ratatui::layout::Rect as TermRect;
use vstd::prelude::*;

verus! {

/// How much of the available space a row or a panel takes.
#[derive(Debug, Clone, Copy, PartialEq, Eq, Structural)]
pub enum Constraint {
    /// At least this many cells.
    Min(u16),
    /// At most this many cells.
    Max(u16),
    /// Exactly this many cells.
    Length(u16),
    /// This share of the space, in percent.
    Percentage(u16),
    /// This fraction of the space.
    Ratio(u32, u32),
    /// A share of the space left over, with this weight.
    Fill(u16),
}

/// The direction in which an area is split.
#[derive(Debug, Clone, Copy, PartialEq, Eq, Structural)]
pub enum Direction {
    /// Side by side.
    Horizontal,
    /// One above the other.
    Vertical,
}

/// A rectangular area of the terminal, in cells.
#[derive(Debug, Clone, Copy, PartialEq, Eq, Structural, Default)]
pub struct Rect {
    /// Column of the top left corner.
    pub x: u16,
    /// Row of the top left corner.
    pub y: u16,
    /// Width in cells.
    pub width: u16,
    /// Height in cells.
    pub height: u16,
}

impl Rect {
    /// A rectangle at `(x, y)`, its width and height clamped so that its right and bottom
    /// edges stay within `u16`.
    pub fn new(x: u16, y: u16, width: u16, height: u16) -> (r: Self)
        ensures
            r.x == x,
            r.y == y,
            r.width == (if width > u16::MAX - x { (u16::MAX - x) as u16 } else { width }),
            r.height == (if height > u16::MAX - y { (u16::MAX - y) as u16 } else { height }),
    {
        let max_width = u16::MAX - x;
        let max_height = u16::MAX - y;
        let width = if width > max_width {
            max_width
        } else {
            width
        };
        let height = if height > max_height {
            max_height
        } else {
            height
        };
        Rect { x, y, width, height }
    }
}

/// The column just past the right edge of `r` (at most `u16::MAX`).
pub open spec fn right_edge(r: Rect) -> int {
    if r.x + r.width > u16::MAX {
        u16::MAX as int
    } else {
        r.x + r.width
    }
}

/// The row just past the bottom edge of `r` (at most `u16::MAX`).
pub open spec fn bottom_edge(r: Rect) -> int {
    if r.y + r.height > u16::MAX {
        u16::MAX as int
    } else {
        r.y + r.height
    }
}

/// `p` is one of the areas that splitting `area` along `direction` can give: it spans
/// the whole of `area` across the split and lies within `area` along it.
pub open spec fn split_part(direction: Direction, area: Rect, p: Rect) -> bool {
    match direction {
        Direction::Horizontal => {
            &&& p.y == area.y
            &&& p.height == area.height
            &&& area.x <= p.x
            &&& p.x + p.width <= right_edge(area)
        },
        Direction::Vertical => {
            &&& p.x == area.x
            &&& p.width == area.width
            &&& area.y <= p.y
            &&& p.y + p.height <= bottom_edge(area)
        },
    }
}

/// `p` lies within `area`.
pub open spec fn within(p: Rect, area: Rect) -> bool {
    &&& area.x <= p.x
    &&& p.x + p.width <= right_edge(area)
    &&& area.y <= p.y
    &&& p.y + p.height <= bottom_edge(area)
}

/// The first cell of `p` along `direction`.
pub open spec fn along_start(direction: Direction, p: Rect) -> int {
    match direction {
        Direction::Horizontal => p.x as int,
        Direction::Vertical => p.y as int,
    }
}

/// The cell just past `p` along `direction`.
pub open spec fn along_end(direction: Direction, p: Rect) -> int {
    match direction {
        Direction::Horizontal => p.x + p.width,
        Direction::Vertical => p.y + p.height,
    }
}

/// The extent of `area` along `direction` (its edge kept within `u16`).
pub open spec fn along_len(direction: Direction, area: Rect) -> int {
    match direction {
        Direction::Horizontal => right_edge(area) - area.x,
        Direction::Vertical => bottom_edge(area) - area.y,
    }
}

/// `pos` lies less than one cell from `start + len * num / den`.
pub open spec fn near_fraction(pos: int, start: int, len: int, num: int, den: int) -> bool {
    den * start + len * num - den < den * pos < den * start + len * num + den
}

/// `p` runs, along `direction`, from the fraction `lo / den` of `area` to the fraction
/// `hi / den`, each edge less than one cell from the exact point.
pub open spec fn placed_between(direction: Direction, area: Rect, p: Rect, lo: int, hi: int, den: int) -> bool {
    &&& near_fraction(along_start(direction, p), along_start(direction, area), along_len(direction, area), lo, den)
    &&& near_fraction(along_end(direction, p), along_start(direction, area), along_len(direction, area), hi, den)
}

/// Every constraint is a percentage.
pub open spec fn all_percentages(cs: Seq<Constraint>) -> bool {
    forall|i: int| 0 <= i < cs.len() ==> (#[trigger] cs[i]) is Percentage
}

/// The sum of the percentages among `cs`.
pub open spec fn percent_sum(cs: Seq<Constraint>) -> int
    decreases cs.len(),
{
    if cs.len() == 0 {
        0
    } else {
        percent_sum(cs.drop_last()) + match cs.last() {
            Constraint::Percentage(p) => p as int,
            _ => 0,
        }
    }
}

/// `n` equal shares: `n` copies of `Ratio(1, n)`.
pub open spec fn equal_share_seq(n: nat) -> Seq<Constraint> {
    Seq::new(n, |i: int| Constraint::Ratio(1, n as u32))
}

/// `ratatui::layout::Layout::split` (default layout: no margin, no spacing, start
/// alignment): splits `area` along `direction` under `constraints`.
///
/// Claimed for every list: one area per constraint (the engine makes one segment per
/// constraint); each spans `area` across the split, as the engine builds it, and lies
/// within `area` along it, as the engine requires of every segment boundary.
///
/// Claimed for a list that fills the area exactly (percentages totalling 100, or `n`
/// copies of `Ratio(1, n)`): segment `i` runs from the share of the constraints before it
/// to the share up to and including it, each edge less than one cell from the exact
/// point. The engine's solver finds the placement of least weighted error; here the
/// sizes the constraints ask for, the empty gaps and the empty first gap are all met at
/// once, and every other placement breaks a constraint stronger than the ones that
/// would gain (the trailing gap's and the equal-size ones), so that placement is the
/// only optimum; edges are rounded to whole cells. Where the areas fall for other lists
/// is not stated: it depends on how the solver trades conflicting constraints.
#[verifier::external_body]
fn split_area(direction: Direction, constraints: &Vec<Constraint>, area: Rect) -> (r: Vec<Rect>)
    ensures
        r@.len() == constraints@.len(),
        forall|i: int| 0 <= i < r@.len() ==> split_part(direction, area, #[trigger] r@[i]),
        all_percentages(constraints@) && percent_sum(constraints@) == 100 ==> forall|i: int|
            0 <= i < r@.len() ==> placed_between(
                direction,
                area,
                #[trigger] r@[i],
                percent_sum(constraints@.subrange(0, i)),
                percent_sum(constraints@.subrange(0, i + 1)),
                100,
            ),
        0 < constraints@.len() <= u32::MAX && constraints@ == equal_share_seq(constraints@.len())
            ==> forall|i: int| 0 <= i < r@.len() ==> placed_between(
                direction,
                area,
                #[trigger] r@[i],
                i,
                i + 1,
                constraints@.len() as int,
            ),
{
    let cs = constraints.iter().map(|c| match *c {
        Min(v) => TermMin(v),
        Max(v) => TermMax(v),
        Length(v) => TermLength(v),
        Percentage(v) => TermPercentage(v),
        Ratio(a, b) => TermRatio(a, b),
        Fill(v) => TermFill(v),
    });
    let a = TermRect { x: area.x, y: area.y, width: area.width, height: area.height };
    let d = match direction { Direction::Horizontal => TermDirection::Horizontal, Direction::Vertical => TermDirection::Vertical };
    TermLayout::default().direction(d).constraints(cs).split(a).iter().map(|p| Rect { x: p.x, y: p.y, width: p.width, height: p.height }).collect()
}

/// A row of the layout: its panels, left to right, and its height.
#[derive(Debug, Clone)]
pub struct LayoutRow {
    /// Panel names in this row.
    pub panels: Vec<String>,
    /// Height constraint.
    pub height: Constraint,
}

/// A layout: its rows, top to bottom.
#[derive(Debug, Clone)]
pub struct Preset {
    /// Rows in the layout.
    pub rows: Vec<LayoutRow>,
}

/// The panel names of a row.
pub open spec fn row_names(row: LayoutRow) -> Seq<Seq<char>> {
    row.panels@.map_values(|p: String| p@)
}

/// A layout as panel names and height of each row, top to bottom.
pub open spec fn preset_shape(p: Preset) -> Seq<(Seq<Seq<char>>, Constraint)> {
    p.rows@.map_values(|r: LayoutRow| (row_names(r), r.height))
}

/// The height constraints of `rows`, top to bottom.
pub open spec fn heights_of(rows: Seq<LayoutRow>) -> Seq<Constraint> {
    rows.map_values(|row: LayoutRow| row.height)
}

/// The height constraints of the rows, top to bottom.
pub fn row_heights(rows: &Vec<LayoutRow>) -> (r: Vec<Constraint>)
    ensures
        r@ == heights_of(rows@),
{
    let mut r: Vec<Constraint> = Vec::new();
    let mut i: usize = 0;
    while i < rows.len()
        invariant
            0 <= i <= rows@.len(),
            r@ == heights_of(rows@.subrange(0, i as int)),
        decreases rows@.len() - i,
    {
        r.push(rows[i].height);
        proof {
            assert(heights_of(rows@.subrange(0, i + 1)) =~= heights_of(rows@.subrange(0, i as int)).push(
                rows@[i as int].height,
            ));
        }
        i = i + 1;
    }
    proof {
        assert(rows@.subrange(0, i as int) =~= rows@);
    }
    r
}

/// `n` equal shares: `n` copies of `Ratio(1, n)`.
pub fn equal_shares(n: usize) -> (r: Vec<Constraint>)
    ensures
        r@ == equal_share_seq(n as nat),
{
    let share = Constraint::Ratio(1, n as u32);
    let mut r: Vec<Constraint> = Vec::new();
    let mut j: usize = 0;
    while j < n
        invariant
            0 <= j <= n,
            share == Constraint::Ratio(1, n as u32),
            r@.len() == j,
            forall|k: int| 0 <= k < j ==> #[trigger] r@[k] == share,
        decreases n - j,
    {
        r.push(share);
        j = j + 1;
    }
    proof {
        assert(r@ =~= equal_share_seq(n as nat));
    }
    r
}

/// A row holding the given panels.
pub fn layout_row(panels: &[&str], height: Constraint) -> (r: LayoutRow)
    ensures
        row_names(r) == panels@.map_values(|p: &str| p@),
        r.height == height,
{
    let mut names: Vec<String> = Vec::new();
    let mut i: usize = 0;
    while i < panels.len()
        invariant
            0 <= i <= panels@.len(),
            names@.len() == i,
            forall|j: int| 0 <= j < i ==> #[trigger] names@[j]@ == panels@[j]@,
        decreases panels@.len() - i,
    {
        let name = panels[i].to_string();
        proof {
            assert(name@ == panels@[i as int]@);
        }
        names.push(name);
        i = i + 1;
    }
    let r = LayoutRow { panels: names, height };
    proof {
        assert(row_names(r) =~= panels@.map_values(|p: &str| p@));
    }
    r
}

impl Preset {
    /// The default layout: CPU over memory over processes.
    pub fn default_preset() -> (p: Self)
        ensures
            preset_shape(p) == default_shape(),
    {
        let r0 = layout_row(&["cpu"], Constraint::Percentage(30));
        let r1 = layout_row(&["memory"], Constraint::Percentage(25));
        let r2 = layout_row(&["process"], Constraint::Percentage(45));
        proof {
            assert(row_names(r0) =~= seq!["cpu"@]);
            assert(row_names(r1) =~= seq!["memory"@]);
            assert(row_names(r2) =~= seq!["process"@]);
        }
        let p = Preset { rows: vec![r0, r1, r2] };
        proof {
            assert(preset_shape(p) =~= default_shape());
        }
        p
    }

    /// The panel areas of each row within `area`, top to bottom: the area is split into
    /// rows by their height constraints, and each row into equal shares (`Ratio(1, n)` for
    /// `n` panels), one area per panel, left to right.
    ///
    /// Every area lies within `area`, and the areas of one row share its top and height.
    /// Panel `j` of a row of `n` panels runs across from `j / n` to `(j + 1) / n` of the
    /// width; when the rows' heights are percentages totalling 100 (as in every
    /// predefined layout), row `i` runs down from the percentage of the rows above it to
    /// that of the rows up to and including it. Each edge lies less than one cell from
    /// the exact point.
    pub fn calculate(&self, area: Rect) -> (r: Vec<Vec<Rect>>)
        ensures
            r@.len() == self.rows@.len(),
            forall|i: int| 0 <= i < r@.len() ==> (#[trigger] r@[i])@.len() == self.rows@[i].panels@.len(),
            forall|i: int, j: int|
                0 <= i < r@.len() && 0 <= j < r@[i]@.len() ==> within(#[trigger] r@[i]@[j], area),
            forall|i: int, j: int, k: int|
                0 <= i < r@.len() && 0 <= j < r@[i]@.len() && 0 <= k < r@[i]@.len() ==> (
                #[trigger] r@[i]@[j]).y == (#[trigger] r@[i]@[k]).y && r@[i]@[j].height
                    == r@[i]@[k].height,
            forall|i: int, j: int|
                0 <= i < r@.len() && 0 <= j < r@[i]@.len() && r@[i]@.len() <= u32::MAX
                    ==> placed_between(Direction::Horizontal, area, #[trigger] r@[i]@[j], j, j + 1, r@[i]@.len() as int),
            all_percentages(heights_of(self.rows@)) && percent_sum(heights_of(self.rows@)) == 100
                ==> forall|i: int, j: int|
                0 <= i < r@.len() && 0 <= j < r@[i]@.len() ==> placed_between(
                    Direction::Vertical,
                    area,
                    #[trigger] r@[i]@[j],
                    percent_sum(heights_of(self.rows@).subrange(0, i)),
                    percent_sum(heights_of(self.rows@).subrange(0, i + 1)),
                    100,
                ),
    {
        let heights = row_heights(&self.rows);
        let row_areas = split_area(Direction::Vertical, &heights, area);
        let ghost hs = heights_of(self.rows@);
        let ghost filled = all_percentages(hs) && percent_sum(hs) == 100;
        let mut out: Vec<Vec<Rect>> = Vec::new();
        let mut k: usize = 0;
        while k < self.rows.len()
            invariant
                0 <= k <= self.rows@.len(),
                hs == heights_of(self.rows@),
                filled == (all_percentages(hs) && percent_sum(hs) == 100),
                row_areas@.len() == self.rows@.len(),
                forall|q: int| 0 <= q < row_areas@.len() ==> split_part(Direction::Vertical, area, #[trigger] row_areas@[q]),
                filled ==> forall|q: int| 0 <= q < row_areas@.len() ==> placed_between(
                    Direction::Vertical,
                    area,
                    #[trigger] row_areas@[q],
                    percent_sum(hs.subrange(0, q)),
                    percent_sum(hs.subrange(0, q + 1)),
                    100,
                ),
                out@.len() == k,
                forall|q: int| 0 <= q < k ==> (#[trigger] out@[q])@.len() == self.rows@[q].panels@.len(),
                forall|q: int, j: int|
                    0 <= q < k && 0 <= j < out@[q]@.len() ==> within(#[trigger] out@[q]@[j], area),
                forall|q: int, j: int, m: int|
                    0 <= q < k && 0 <= j < out@[q]@.len() && 0 <= m < out@[q]@.len() ==> (
                    #[trigger] out@[q]@[j]).y == (#[trigger] out@[q]@[m]).y && out@[q]@[j].height
                        == out@[q]@[m].height,
                forall|q: int, j: int|
                    0 <= q < k && 0 <= j < out@[q]@.len() && out@[q]@.len() <= u32::MAX
                        ==> placed_between(Direction::Horizontal, area, #[trigger] out@[q]@[j], j, j + 1, out@[q]@.len() as int),
                filled ==> forall|q: int, j: int|
                    0 <= q < k && 0 <= j < out@[q]@.len() ==> placed_between(
                        Direction::Vertical,
                        area,
                        #[trigger] out@[q]@[j],
                        percent_sum(hs.subrange(0, q)),
                        percent_sum(hs.subrange(0, q + 1)),
                        100,
                    ),
            decreases self.rows@.len() - k,
        {
            let n = self.rows[k].panels.len();
            if n == 0 {
                out.push(Vec::new());
            } else {
                let shares = equal_shares(n);
                let row = row_areas[k];
                let panels = split_area(Direction::Horizontal, &shares, row);
                proof {
                    assert(split_part(Direction::Vertical, area, row));
                    if filled {
                        assert(placed_between(
                            Direction::Vertical,
                            area,
                            row,
                            percent_sum(hs.subrange(0, k as int)),
                            percent_sum(hs.subrange(0, k + 1)),
                            100,
                        ));
                    }
                    assert forall|j: int| 0 <= j < panels@.len() implies {
                        &&& within(#[trigger] panels@[j], area)
                        &&& panels@[j].y == row.y && panels@[j].height == row.height
                        &&& (n <= u32::MAX ==> placed_between(Direction::Horizontal, area, panels@[j], j, j + 1, n as int))
                    } by {
                        assert(split_part(Direction::Horizontal, row, panels@[j]));
                    }
                }
                out.push(panels);
            }
            k = k + 1;
        }
        out
    }
}

impl Default for Preset {
    /// The default layout.
    fn default() -> (p: Self)
        ensures
            preset_shape(p) == default_shape(),
    {
        Preset::default_preset()
    }
}

/// The shape of the default layout.
pub open spec fn default_shape() -> Seq<(Seq<Seq<char>>, Constraint)> {
    seq![
        (seq!["cpu"@], Constraint::Percentage(30)),
        (seq!["memory"@], Constraint::Percentage(25)),
        (seq!["process"@], Constraint::Percentage(45)),
    ]
}

/// Switches between layout presets; the current one is always one of them.
#[derive(Debug)]
pub struct LayoutManager {
    /// Available presets.
    presets: Vec<Preset>,
    /// Current preset index.
    current: usize,
}

impl LayoutManager {
    #[verifier::type_invariant]
    spec fn current_in_range(self) -> bool {
        self.current < self.presets@.len()
    }

    /// The available presets, in the order they were added.
    pub closed spec fn preset_list(self) -> Seq<Preset> {
        self.presets@
    }

    /// The position of the current preset.
    pub closed spec fn position(self) -> nat {
        self.current as nat
    }

    /// A manager holding the default layout, which is current.
    pub fn new() -> (m: Self)
        ensures
            m.preset_list().len() == 1,
            preset_shape(m.preset_list()[0]) == default_shape(),
            m.position() == 0,
    {
        LayoutManager { presets: vec![Preset::default_preset()], current: 0 }
    }

    /// Makes preset `index` current, when there is one; otherwise nothing changes.
    pub fn switch_to(&mut self, index: usize)
        ensures
            final(self).preset_list() == old(self).preset_list(),
            final(self).position() == (if index < old(self).preset_list().len() {
                index as nat
            } else {
                old(self).position()
            }),
    {
        if index < self.presets.len() {
            self.current = index;
        }
    }

    /// The current preset.
    pub fn current(&self) -> (p: &Preset)
        ensures
            *p == self.preset_list()[self.position() as int],
    {
        proof {
            use_type_invariant(self);
        }
        &self.presets[self.current]
    }

    /// The position of the current preset.
    pub fn current_index(&self) -> (i: usize)
        ensures
            i == self.position(),
            i < self.preset_list().len(),
    {
        proof {
            use_type_invariant(self);
        }
        self.current
    }

    /// Adds a preset after the others; the current one stays current.
    pub fn add_preset(&mut self, preset: Preset)
        ensures
            final(self).preset_list() == old(self).preset_list().push(preset),
            final(self).position() == old(self).position(),
    {
        let mut taken = LayoutManager { presets: vec![Preset { rows: Vec::new() }], current: 0 };
        std::mem::swap(self, &mut taken);
        proof {
            use_type_invariant(&taken);
        }
        let LayoutManager { presets, current } = taken;
        let mut presets = presets;
        presets.push(preset);
        *self = LayoutManager { presets, current };
    }
}

impl Clone for LayoutManager {
    /// A manager with copies of the presets and the same current position.
    fn clone(&self) -> (m: Self)
        ensures
            m.preset_list().len() == self.preset_list().len(),
            m.position() == self.position(),
    {
        proof {
            use_type_invariant(self);
        }
        LayoutManager { presets: self.presets.clone(), current: self.current }
    }
}

impl Default for LayoutManager {
    /// A manager holding the default layout.
    fn default() -> (m: Self)
        ensures
            m.preset_list().len() == 1,
            preset_shape(m.preset_list()[0]) == default_shape(),
            m.position() == 0,
    {
        LayoutManager::new()
    }
}

} // verus!
