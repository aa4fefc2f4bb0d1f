//! The row of tabs above the terminal.

use vstd::prelude::*;

use crate::geometry;
use crate::geometry::Rect;
use crate::text;
use crate::ui::plan;
use crate::ui::plan::{bold, ink, ink_on, paper, OpView, Palette, Plan};

verus! {

pub const MIN_TAB_WIDTH: u16 = 8;

pub const NEW_TAB_WIDTH: u16 = 3;

/// The width that a tab asks for: its name with a margin.
pub open spec fn desired_width(name: Seq<char>) -> int {
    let width = (name.len() as u16) + 4;
    if width < MIN_TAB_WIDTH {
        MIN_TAB_WIDTH as int
    } else {
        geometry::least(width, u16::MAX as int)
    }
}

/// The first column that belongs to the button for new tabs.
pub open spec fn tabs_end(area: Rect) -> int {
    geometry::less(area.x + area.width, NEW_TAB_WIDTH as int)
}

/// The width that a tab gets from a column on.
pub open spec fn tab_width(name: Seq<char>, area: Rect, x: int) -> int {
    geometry::least(desired_width(name), tabs_end(area) - x)
}

/// The rectangles of tabs from a column on, one column apart, as far as there is
/// room.
pub open spec fn tabs_from(names: Seq<String>, area: Rect, x: int) -> Seq<Rect>
    decreases names.len(),
{
    if names.len() == 0 || x >= tabs_end(area) {
        Seq::empty()
    } else {
        let width = tab_width(names[0]@, area, x);
        seq![Rect { x: x as u16, y: area.y, width: width as u16, height: 1 }]
            + tabs_from(names.drop_first(), area, x + width + 1)
    }
}

/// The rectangles of the tabs.
pub open spec fn tab_areas(names: Seq<String>, area: Rect) -> Seq<Rect> {
    if area.width == 0 || area.height == 0 {
        Seq::empty()
    } else {
        tabs_from(names, area, area.x as int)
    }
}

/// The rectangles of the tabs of a workspace.
pub fn compute_tab_hit_areas(names: &Vec<String>, area: Rect) -> (rects: Vec<Rect>)
    requires
        area.wf(),
    ensures
        rects@ == tab_areas(names@, area),
{
    let mut rects: Vec<Rect> = Vec::new();
    if area.width == 0 || area.height == 0 {
        assert(rects@ =~= tab_areas(names@, area));
        return rects;
    }
    let end: u16 = (area.x + area.width).saturating_sub(NEW_TAB_WIDTH);
    let mut x: u16 = area.x;
    let mut i: usize = 0;
    let ghost all = tab_areas(names@, area);
    assert(names@.skip(0) =~= names@);
    while i < names.len() && x < end
        invariant
            area.wf(),
            end == tabs_end(area),
            area.height > 0,
            x == area.x || x <= end + 1,
            i <= names@.len(),
            all == rects@ + tabs_from(names@.skip(i as int), area, x as int),
        decreases names@.len() - i,
    {
        assert(names@.skip(i as int)[0] == names@[i as int]);
        assert(names@.skip(i as int).drop_first() =~= names@.skip(i + 1));
        let count: usize = names[i].as_str().unicode_len();
        #[verifier::truncate]
        let count: u16 = count as u16;
        let wide: u16 = count.saturating_add(4);
        let desired: u16 = if wide < MIN_TAB_WIDTH {
            MIN_TAB_WIDTH
        } else {
            wide
        };
        let width: u16 = geometry::smaller(desired, end - x);
        rects.push(Rect::new(x, area.y, width, 1));
        x = x + width + 1;
        i = i + 1;
        assert(all =~= rects@ + tabs_from(names@.skip(i as int), area, x as int));
    }
    assert(all =~= rects@);
    rects
}

/// Tabs stand in the tab bar one after the other, none over another, and leave
/// room for the button for new tabs.
pub proof fn law_tabs_do_not_overlap(names: Seq<String>, area: Rect, i: int, j: int)
    requires
        area.wf(),
        0 <= i < j < tab_areas(names, area).len(),
    ensures
        ({
            let rects = tab_areas(names, area);
            &&& area.x <= rects[i].x
            &&& rects[i].x + rects[i].width < rects[j].x
            &&& rects[j].x + rects[j].width <= area.x + area.width - NEW_TAB_WIDTH
        }),
{
    lemma_tabs(names, area, area.x as int);
}

pub proof fn lemma_tabs(names: Seq<String>, area: Rect, x: int)
    requires
        area.wf(),
        0 <= x,
    ensures
        ({
            let rects = tabs_from(names, area, x);
            &&& forall|i: int|
                0 <= i < rects.len() ==> x <= (#[trigger] rects[i]).x && rects[i].x + rects[i].width
                    <= tabs_end(area)
            &&& forall|i: int, j: int|
                0 <= i < j < rects.len() ==> (#[trigger] rects[i]).x + rects[i].width
                    < (#[trigger] rects[j]).x
        }),
    decreases names.len(),
{
    if names.len() > 0 && x < tabs_end(area) {
        let width = tab_width(names[0]@, area, x);
        lemma_tabs(names.drop_first(), area, x + width + 1);
        let rest = tabs_from(names.drop_first(), area, x + width + 1);
        let rects = tabs_from(names, area, x);
        assert forall|i: int| 0 < i < rects.len() implies #[trigger] rects[i] == rest[i - 1] by {}
    }
}

/// The button for new tabs: behind the last tab, and at the end of the bar at
/// most.
pub open spec fn new_tab_area(tabs: Seq<Rect>, area: Rect) -> Rect {
    if area.width == 0 || area.height == 0 {
        geometry::nowhere()
    } else {
        geometry::rect(
            geometry::least(
                if tabs.len() > 0 {
                    tabs.last().x + tabs.last().width + 1
                } else {
                    area.x as int
                },
                area.x + geometry::less(area.width as int, NEW_TAB_WIDTH as int),
            ),
            area.y as int,
            geometry::least(NEW_TAB_WIDTH as int, area.width as int),
            1,
        )
    }
}

/// The button for new tabs.
pub fn compute_new_tab_hit_area(tab_hit_areas: &Vec<Rect>, area: Rect) -> (button: Rect)
    requires
        area.wf(),
        tab_hit_areas@.len() > 0 && area.width > 0 && area.height > 0 ==> tab_hit_areas@.last().x
            + tab_hit_areas@.last().width < u16::MAX,
    ensures
        button == new_tab_area(tab_hit_areas@, area),
        button.wf(),
{
    if area.width == 0 || area.height == 0 {
        return Rect::nowhere();
    }
    let behind: u16 = if tab_hit_areas.len() > 0 {
        let last = tab_hit_areas[tab_hit_areas.len() - 1];
        last.x + last.width + 1
    } else {
        area.x
    };
    let x: u16 = geometry::smaller(behind, area.x + area.width.saturating_sub(NEW_TAB_WIDTH));
    Rect::new(x, area.y, geometry::smaller(NEW_TAB_WIDTH, area.width), 1)
}

/// What the tab bar shows.
#[derive(Debug)]
pub struct TabBar {
    pub names: Vec<String>,
    pub active_tab: usize,
    pub tab_hit_areas: Vec<Rect>,
    pub new_tab_hit_area: Rect,
    pub palette: Palette,
}

/// Drawing the first tabs.
pub open spec fn tabs_plan(bar: TabBar, n: int) -> Seq<OpView>
    decreases n,
{
    if n <= 0 {
        plan::idle()
    } else {
        let i = n - 1;
        let p = bar.palette;
        let rect = bar.tab_hit_areas@[i];
        tabs_plan(bar, i).push(
            plan::text_at(
                rect,
                " "@ + text::padded(
                    bar.names@[i]@,
                    geometry::less(rect.width as int, 1) as nat,
                ),
                if i == bar.active_tab {
                    bold(ink_on(p.panel_bg, p.accent))
                } else {
                    ink_on(p.overlay1, p.surface0)
                },
            ),
        )
    }
}

/// Drawing the tab bar: its background, the tabs that have room, and the button
/// for new ones.
pub open spec fn tab_bar_plan(bar: TabBar, area: Rect) -> Seq<OpView> {
    if area.width == 0 || area.height == 0 {
        plan::idle()
    } else {
        let p = bar.palette;
        let tabs = plan::idle().push(
            plan::text_at(area, text::repeated(" "@, area.width as nat), paper(p.panel_bg)),
        ) + tabs_plan(
            bar,
            geometry::least(bar.names@.len() as int, bar.tab_hit_areas@.len() as int),
        );
        if bar.new_tab_hit_area.width > 0 {
            tabs.push(plan::text_at(bar.new_tab_hit_area, " + "@, ink(p.overlay1)))
        } else {
            tabs
        }
    }
}

/// Draw the tab bar. Without a workspace there is none.
pub fn render_tab_bar(bar: Option<&TabBar>, area: Rect) -> (drawn: Plan)
    ensures
        drawn@ == match bar {
            Some(bar) => tab_bar_plan(*bar, area),
            None => plan::idle(),
        },
{
    let mut drawn = Plan::new();
    let bar = match bar {
        Some(bar) => bar,
        None => {
            return drawn;
        },
    };
    if area.width == 0 || area.height == 0 {
        return drawn;
    }
    let p = &bar.palette;
    let background = text::repeat(" ", area.width);
    drawn.text(area, background.as_str(), paper(p.panel_bg));
    let ghost start = drawn@;
    let mut i: usize = 0;
    assert(start + tabs_plan(*bar, 0) =~= start);
    while i < bar.names.len() && i < bar.tab_hit_areas.len()
        invariant
            *p == bar.palette,
            i <= bar.names@.len(),
            i <= bar.tab_hit_areas@.len(),
            drawn@ == start + tabs_plan(*bar, i as int),
        decreases bar.names@.len() - i,
    {
        let rect = bar.tab_hit_areas[i];
        let style = if i == bar.active_tab {
            bold(ink_on(p.panel_bg, p.accent))
        } else {
            ink_on(p.overlay1, p.surface0)
        };
        let mut label = " ".to_owned();
        label.append(
            text::pad(bar.names[i].as_str(), rect.width.saturating_sub(1) as usize).as_str(),
        );
        drawn.text(rect, label.as_str(), style);
        i = i + 1;
        assert(drawn@ =~= start + tabs_plan(*bar, i as int));
    }
    if bar.new_tab_hit_area.width > 0 {
        drawn.text(bar.new_tab_hit_area, " + ", ink(p.overlay1));
    }
    drawn
}

/// A tab asks for its name and a margin of four cells, and for eight cells at
/// least. The first tab begins where the bar does, each other one a cell behind
/// the one before it, and each has what it asks for where there is room.
pub proof fn law_tabs_are_as_wide_as_their_names(names: Seq<String>, area: Rect)
    requires
        area.wf(),
        area.height > 0,
        names.len() > 0,
        names[0]@.len() + 4 <= area.width - 3,
        area.width >= 11,
    ensures
        ({
            let wanted = if names[0]@.len() + 4 < 8 {
                8nat
            } else {
                names[0]@.len() + 4
            };
            let first = tab_areas(names, area)[0];
            &&& tab_areas(names, area).len() > 0
            &&& first.x == area.x && first.y == area.y && first.height == 1
            &&& first.width == wanted
        }),
{
}

/// Behind a tab the next one begins a cell further.
pub proof fn law_tabs_stand_a_cell_apart(names: Seq<String>, area: Rect, x: int, i: int)
    requires
        area.wf(),
        0 <= x,
        0 <= i,
        i + 1 < tabs_from(names, area, x).len(),
    ensures
        ({
            let rects = tabs_from(names, area, x);
            &&& rects[0].x == x
            &&& rects[i + 1].x == rects[i].x + rects[i].width + 1
            &&& rects[i].y == area.y && rects[i].height == 1
        }),
    decreases names.len(),
{
    let width = tab_width(names[0]@, area, x);
    let rest = tabs_from(names.drop_first(), area, x + width + 1);
    let rects = tabs_from(names, area, x);
    assert(x + width <= tabs_end(area));
    assert forall|k: int| 0 < k < rects.len() implies #[trigger] rects[k] == rest[k - 1] by {}
    if i > 0 {
        law_tabs_stand_a_cell_apart(names.drop_first(), area, x + width + 1, i - 1);
    } else {
        assert(rest.len() > 0);
        assert(rest[0].x == x + width + 1);
    }
}

/// The button for new tabs stands a cell behind the last tab, or at the
/// beginning of an empty bar, but never beyond the end of the bar.
pub proof fn law_new_tabs_are_opened_behind_the_last(tabs: Seq<Rect>, area: Rect)
    requires
        area.wf(),
        area.width >= 3,
        area.height > 0,
        tabs.len() > 0 ==> tabs.last().x + tabs.last().width + 1 <= area.x + area.width - 3,
    ensures
        ({
            let button = new_tab_area(tabs, area);
            &&& button.width == 3 && button.height == 1 && button.y == area.y
            &&& tabs.len() > 0 ==> button.x == tabs.last().x + tabs.last().width + 1
            &&& tabs.len() == 0 ==> button.x == area.x
            &&& button.x + button.width <= area.x + area.width
        }),
{
}

/// Each tab that has room is drawn in its own place; the active one stands out in
/// bold on the accent colour, and no other does.
pub proof fn law_the_active_tab_stands_out(bar: TabBar, n: int, i: int)
    requires
        0 <= i < n <= bar.tab_hit_areas@.len(),
        n <= bar.names@.len(),
    ensures
        ({
            let op = tabs_plan(bar, n)[i];
            &&& tabs_plan(bar, n).len() == n
            &&& op is Text
            &&& op->Text_rect == bar.tab_hit_areas@[i]
            &&& op->Text_style.bold <==> i == bar.active_tab
            &&& i == bar.active_tab ==> op->Text_style.bg == Some(bar.palette.accent)
                && op->Text_style.fg == Some(bar.palette.panel_bg)
            &&& i != bar.active_tab ==> op->Text_style.bg == Some(bar.palette.surface0)
                && op->Text_style.fg == Some(bar.palette.overlay1)
            &&& op->Text_lines == plan::paragraph_lines(
                " "@ + text::padded(
                    bar.names@[i]@,
                    (if bar.tab_hit_areas@[i].width > 1 {
                        bar.tab_hit_areas@[i].width - 1
                    } else {
                        0
                    }) as nat,
                ),
            )
        }),
    decreases n,
{
    if n > 1 {
        if i < n - 1 {
            law_the_active_tab_stands_out(bar, n - 1, i);
        } else {
            law_the_active_tab_stands_out(bar, n - 1, 0);
        }
    } else {
        assert(tabs_plan(bar, 0) =~= plan::idle());
    }
}

/// The tab bar is drawn as its background, the tabs that have room, and the
/// button for new ones where it has room.
pub proof fn law_the_tab_bar_is_drawn_whole(bar: TabBar, area: Rect)
    requires
        area.width > 0,
        area.height > 0,
        bar.names@.len() == bar.tab_hit_areas@.len(),
    ensures
        ({
            let ops = tab_bar_plan(bar, area);
            let count = bar.names@.len() as int;
            &&& ops[0] is Text && ops[0]->Text_rect == area && ops[0]->Text_style.bg == Some(
                bar.palette.panel_bg,
            )
            &&& forall|i: int|
                0 <= i < count ==> ops[i + 1] == #[trigger] tabs_plan(bar, count)[i]
            &&& bar.new_tab_hit_area.width > 0 ==> ops.len() == count + 2 && ops.last() is Text
                && ops.last()->Text_rect == bar.new_tab_hit_area && ops.last()->Text_lines
                == plan::paragraph_lines(" + "@)
            &&& bar.new_tab_hit_area.width == 0 ==> ops.len() == count + 1
        }),
{
    let count = bar.names@.len() as int;
    if count > 0 {
        law_the_active_tab_stands_out(bar, count, 0);
    } else {
        assert(tabs_plan(bar, 0) =~= plan::idle());
    }
}

} // verus!
