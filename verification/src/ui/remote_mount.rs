//! The dialog that mounts a workspace of another host.

use vstd::prelude::*;

use crate::geometry;
use crate::geometry::{Direction, Extent, Rect};
use crate::ui::onboarding;
use crate::ui::plan;
use crate::ui::plan::{ink, ink_on, Align, Color, Op, OpView, Palette, Plan};
use crate::ui::widgets;

verus! {

pub const REMOTE_MOUNT_POPUP_WIDTH: u16 = 68;

pub const REMOTE_MOUNT_POPUP_HEIGHT: u16 = 11;

/// The number of recent targets that are kept and shown.
pub const REMOTE_MOUNT_RECENTS_MAX_ROWS: usize = 5;

/// The rows of recent targets.
pub open spec fn recents(count: int) -> int {
    geometry::least(count, REMOTE_MOUNT_RECENTS_MAX_ROWS as int)
}

/// The rows of recent targets that the dialog asks for.
pub fn remote_mount_recents_rows(recents_count: usize) -> (rows: usize)
    ensures
        rows == recents(recents_count as int),
{
    if recents_count < REMOTE_MOUNT_RECENTS_MAX_ROWS {
        recents_count
    } else {
        REMOTE_MOUNT_RECENTS_MAX_ROWS
    }
}

/// The rows of recent targets that fit below their heading.
pub open spec fn visible(list: Rect, count: int) -> int {
    geometry::least(geometry::less(list.height as int, 1), recents(count))
}

/// The rows of recent targets that fit below their heading.
pub fn remote_mount_visible_recents_rows(list_rect: Rect, recents_count: usize) -> (rows: usize)
    ensures
        rows == visible(list_rect, recents_count as int),
{
    let room: usize = list_rect.height.saturating_sub(1) as usize;
    let rows: usize = remote_mount_recents_rows(recents_count);
    if room < rows {
        room
    } else {
        rows
    }
}

/// The rows that recent targets add to the dialog: a heading and themselves.
pub open spec fn recents_extra(count: int) -> int {
    if count > 0 {
        1 + recents(count)
    } else {
        0
    }
}

fn extra_rows(recents_count: usize) -> (rows: u16)
    ensures
        rows == recents_extra(recents_count as int),
        rows <= 6,
{
    let recents: usize = remote_mount_recents_rows(recents_count);
    if recents > 0 {
        1 + recents as u16
    } else {
        0
    }
}

/// The height of the dialog: it grows with the recent targets.
pub fn remote_mount_popup_height(recents_count: usize) -> (height: u16)
    ensures
        height == REMOTE_MOUNT_POPUP_HEIGHT + recents_extra(recents_count as int),
{
    REMOTE_MOUNT_POPUP_HEIGHT + extra_rows(recents_count)
}

/// What the rows of the dialog ask for.
pub open spec fn mount_extents(count: int) -> Seq<Extent> {
    seq![
        Extent::Length(1),
        Extent::Length(1),
        Extent::Length(1),
        Extent::Length(1),
        Extent::Length(recents_extra(count) as u16),
        Extent::Length(2),
        Extent::Min(0),
    ]
}

/// Whether the inside of the dialog may be divided into these rows.
pub open spec fn mount_rows(inner: Rect, count: int, rows: Seq<Rect>) -> bool {
    widgets::rows_of(inner, mount_extents(count), rows)
}

/// The rows of the dialog, for drawing and for clicks.
pub fn remote_mount_rows(inner: Rect, recents_count: usize) -> (rows: Vec<Rect>)
    requires
        inner.wf(),
    ensures
        mount_rows(inner, recents_count as int, rows@),
        inner.height >= 8 ==> rows@ == drawn_rows(inner, recents_count as int),
        rows@.len() == 7,
        forall|i: int|
            0 <= i < rows@.len() ==> (#[trigger] rows@[i]).wf() && rows@[i].within(inner),
{
    let mut extents: Vec<Extent> = Vec::new();
    extents.push(Extent::Length(1));
    extents.push(Extent::Length(1));
    extents.push(Extent::Length(1));
    extents.push(Extent::Length(1));
    extents.push(Extent::Length(extra_rows(recents_count)));
    extents.push(Extent::Length(2));
    extents.push(Extent::Min(0));
    assert(extents@ =~= mount_extents(recents_count as int));
    let rows = widgets::divide_rows(inner, &extents);
    proof {
        if inner.height >= 8 {
            law_only_the_recents_are_cut(inner, recents_count as nat, rows@);
        }
    }
    rows
}

/// The rows that the recent targets have in a dialog that is drawn: what the
/// others leave of what they ask for.
pub open spec fn list_rows(inner: Rect, count: int) -> int {
    geometry::least(recents_extra(count), inner.height - 6)
}

/// The heights of the rows of a dialog that is drawn.
pub open spec fn row_heights(inner: Rect, count: int) -> Seq<int> {
    let list = list_rows(inner, count);
    seq![1, 1, 1, 1, list, 2, inner.height - 6 - list]
}

/// The row of a dialog that is drawn at a distance from its top.
pub open spec fn row_at(inner: Rect, top: int, height: int) -> Rect {
    Rect { y: (inner.y + top) as u16, height: height as u16, ..inner }
}

/// The rows of a dialog that is drawn.
pub open spec fn drawn_rows(inner: Rect, count: int) -> Seq<Rect> {
    let list = list_rows(inner, count);
    seq![
        row_at(inner, 0, 1),
        row_at(inner, 1, 1),
        row_at(inner, 2, 1),
        row_at(inner, 3, 1),
        row_at(inner, 4, list),
        row_at(inner, 4 + list, 2),
        row_at(inner, 6 + list, inner.height - 6 - list),
    ]
}

/// In a crowded dialog only the recent targets are cut: every other way to share
/// the rows is less even.
proof fn lemma_recents_are_cut(inner: Rect, count: int)
    requires
        count >= 0,
        8 <= inner.height < 6 + recents_extra(count),
    ensures
        geometry::most_even(
            mount_extents(count),
            inner.height as int,
            1,
            row_heights(inner, count),
        ),
{
    let extents = mount_extents(count);
    let size = inner.height as int;
    let list = size - 6;
    let heights = row_heights(inner, count);
    lemma_seven(heights);
    assert(geometry::shareable(extents, size, 1, heights));
    assert(geometry::unevenness(heights) == 2 * list - 1);
    assert forall|finer: int, others: Seq<int>|
        finer > 0 && #[trigger] geometry::shareable(extents, size, finer, others) && !(forall|i: int|
            0 <= i < heights.len() ==> others[i] * 1 == heights[i]
                * finer) implies geometry::unevenness(others) * 1 > geometry::unevenness(heights)
        * finer by {
        lemma_seven(others);
        assert(others[0] <= finer && others[1] <= finer && others[2] <= finer);
        assert(others[3] <= finer && 0 <= others[5] <= 2 * finer);
        assert(extents[6] == Extent::Min(0));
        assert(others[6] == geometry::least(0, size) * finer);
        assert(others[6] == 0) by (nonlinear_arith)
            requires
                others[6] == 0 * finer,
        ;
        assert(size * finer == list * finer + 6 * finer) by (nonlinear_arith)
            requires
                size == list + 6,
        ;
        assert((2 * list - 1) * finer == 2 * (list * finer) - finer) by (nonlinear_arith);
        if others[4] == list * finer {
            assert forall|i: int| 0 <= i < heights.len() implies others[i] * 1 == heights[i]
                * finer by {}
        }
    }
}

/// Sums over seven rows.
proof fn lemma_seven(sizes: Seq<int>)
    requires
        sizes.len() == 7,
    ensures
        geometry::summed(sizes) == sizes[0] + sizes[1] + sizes[2] + sizes[3] + sizes[4] + sizes[5]
            + sizes[6],
        geometry::unevenness(sizes) == apart(sizes[0], sizes[1]) + apart(sizes[1], sizes[2])
            + apart(sizes[2], sizes[3]) + apart(sizes[3], sizes[4]) + apart(sizes[4], sizes[5])
            + apart(sizes[5], sizes[6]),
{
    let s6 = sizes.drop_last();
    let s5 = s6.drop_last();
    let s4 = s5.drop_last();
    let s3 = s4.drop_last();
    let s2 = s3.drop_last();
    let s1 = s2.drop_last();
    assert(s1.drop_last().len() == 0);
    reveal_with_fuel(geometry::summed, 8);
    reveal_with_fuel(geometry::unevenness, 7);
}

/// How far two sizes are apart.
pub open spec fn apart(a: int, b: int) -> int {
    if a < b {
        b - a
    } else {
        a - b
    }
}

/// The rows of a dialog that is drawn are known: each has what it asks for, but the
/// recent targets have only what the others leave.
pub proof fn law_only_the_recents_are_cut(inner: Rect, count: nat, rows: Seq<Rect>)
    requires
        inner.wf(),
        inner.height >= 8,
        mount_rows(inner, count as int, rows),
    ensures
        rows == drawn_rows(inner, count as int),
{
    let extents = mount_extents(count as int);
    let size = inner.height as int;
    let down = Direction::Vertical;
    let e6 = extents.drop_last();
    let e5 = e6.drop_last();
    let e4 = e5.drop_last();
    let e3 = e4.drop_last();
    let e2 = e3.drop_last();
    let e1 = e2.drop_last();
    assert(e1.drop_last().len() == 0);
    reveal_with_fuel(geometry::total, 9);
    assert(geometry::total(extents) == 6 + recents_extra(count as int));
    if geometry::total(extents) <= size {
        assert(geometry::fits(extents, size));
        reveal_with_fuel(geometry::start, 8);
        assert forall|i: int| 0 <= i < 7 implies #[trigger] rows[i] == drawn_rows(
            inner,
            count as int,
        )[i] by {
            assert(rows[i].y == inner.y + geometry::start(extents, size, i));
            assert(rows[i].height == geometry::given(extents, size, i));
        }
    } else {
        lemma_recents_are_cut(inner, count as int);
        let heights = row_heights(inner, count as int);
        assert(geometry::crowded(extents, size));
        assert(geometry::shared(inner, down, extents, rows));
        let list = list_rows(inner, count as int);
        let tops = seq![0, 1, 2, 3, 4, 4 + list, 6 + list];
        reveal_with_fuel(geometry::summed, 8);
        assert forall|i: int| 0 <= i < 7 implies geometry::summed(#[trigger] heights.take(i))
            == tops[i] by {
            assert(i > 0 ==> heights.take(i).drop_last() =~= heights.take(i - 1));
            assert(i > 1 ==> heights.take(i - 1).drop_last() =~= heights.take(i - 2));
            assert(i > 2 ==> heights.take(i - 2).drop_last() =~= heights.take(i - 3));
            assert(i > 3 ==> heights.take(i - 3).drop_last() =~= heights.take(i - 4));
            assert(i > 4 ==> heights.take(i - 4).drop_last() =~= heights.take(i - 5));
            assert(i > 5 ==> heights.take(i - 5).drop_last() =~= heights.take(i - 6));
            assert(heights.take(0).len() == 0);
        }
        assert forall|i: int| 0 <= i < 7 implies (#[trigger] rows[i]).y == inner.y + tops[i] by {
            assert(rows[i].begin(down) == inner.begin(down) + geometry::nearest(
                geometry::summed(heights.take(i)),
                1,
            ));
        }
        assert(rows[1].begin(down) == rows[0].begin(down) + rows[0].span(down));
        assert(rows[2].begin(down) == rows[1].begin(down) + rows[1].span(down));
        assert(rows[3].begin(down) == rows[2].begin(down) + rows[2].span(down));
        assert(rows[4].begin(down) == rows[3].begin(down) + rows[3].span(down));
        assert(rows[5].begin(down) == rows[4].begin(down) + rows[4].span(down));
        assert(rows[6].begin(down) == rows[5].begin(down) + rows[5].span(down));
    }
    assert(rows =~= drawn_rows(inner, count as int));
}

/// The inside of the dialog in an area.
pub open spec fn mount_inner(area: Rect, count: int) -> Option<Rect> {
    widgets::modal_inner(
        area,
        REMOTE_MOUNT_POPUP_WIDTH as int,
        REMOTE_MOUNT_POPUP_HEIGHT + recents_extra(count),
    )
}

/// The inside of the dialog in an area; too small an area has none.
pub fn remote_mount_inner_rect(area: Rect, recents_count: usize) -> (inner: Option<Rect>)
    requires
        area.wf(),
    ensures
        inner == mount_inner(area, recents_count as int),
        inner matches Some(inner) ==> inner.wf() && inner.within(area),
{
    match widgets::centered_popup_rect(
        area,
        REMOTE_MOUNT_POPUP_WIDTH,
        remote_mount_popup_height(recents_count),
    ) {
        Some(popup) => Some(
            Rect::new(
                popup.x + 1,
                popup.y + 1,
                popup.width.saturating_sub(2),
                popup.height.saturating_sub(2),
            ),
        ),
        None => None,
    }
}

/// The recent target at a cell, among the rows of its list.
pub open spec fn recent_of(list: Rect, count: int, col: int, row: int) -> Option<usize> {
    let idx = row - (list.y + 1);
    if list.x <= col < list.x + list.width && 0 <= idx < visible(list, count) {
        Some(idx as usize)
    } else {
        None
    }
}

/// The recent target at a cell, among the rows of its list. The heading is none.
pub fn recent_in_list(list_rect: Rect, recents_count: usize, col: u16, row: u16) -> (idx: Option<
    usize,
>)
    requires
        list_rect.wf(),
    ensures
        idx == recent_of(list_rect, recents_count as int, col as int, row as int),
{
    let visible_rows: usize = remote_mount_visible_recents_rows(list_rect, recents_count);
    if visible_rows == 0 {
        return None;
    }
    if col < list_rect.x || col >= list_rect.x + list_rect.width {
        return None;
    }
    let first: u16 = list_rect.y + 1;
    if row < first {
        return None;
    }
    let idx: usize = (row - first) as usize;
    if idx < visible_rows {
        Some(idx)
    } else {
        None
    }
}

/// The recent target at a cell of the dialog.
pub fn remote_mount_recent_at(inner: Rect, recents_count: usize, col: u16, row: u16) -> (idx:
    Option<usize>)
    requires
        inner.wf(),
    ensures
        inner.height >= 8 ==> idx == recent_of(
            drawn_rows(inner, recents_count as int)[4],
            recents_count as int,
            col as int,
            row as int,
        ),
        exists|rows: Seq<Rect>| #[trigger]
            mount_rows(inner, recents_count as int, rows) && idx == recent_of(
                rows[4],
                recents_count as int,
                col as int,
                row as int,
            ),
{
    let rows = remote_mount_rows(inner, recents_count);
    recent_in_list(rows[4], recents_count, col, row)
}

/// Every recent target that is drawn can be clicked, and a click never reaches
/// outside the list or onto its heading.
pub proof fn law_recents_are_clicked_where_they_are_drawn(
    list: Rect,
    count: nat,
    idx: int,
    col: int,
    row: int,
)
    requires
        list.wf(),
    ensures
        0 <= idx < visible(list, count as int) && list.x <= col < list.x + list.width ==> recent_of(
            list,
            count as int,
            col,
            list.y + 1 + idx,
        ) == Some(idx as usize),
        recent_of(list, count as int, col, row) is Some ==> list.y < row < list.y + list.height
            && list.x <= col < list.x + list.width,
        recent_of(list, count as int, col, list.y as int) is None,
{
}

/// The widths of the buttons.
pub open spec fn mount_widths() -> Seq<u16> {
    widgets::two_widths("↵"@, "mount"@, "esc"@, "cancel"@)
}

proof fn lemma_mount_widths()
    ensures
        mount_widths() == seq![9u16, 12u16],
        widgets::sum(mount_widths()) == 21,
{
    reveal_strlit(" ");
    reveal_strlit("↵");
    reveal_strlit("mount");
    reveal_strlit("esc");
    reveal_strlit("cancel");
    reveal_with_fuel(widgets::sum, 3);
    let widths = mount_widths();
    assert(widths =~= seq![9u16, 12u16]);
    assert(widths.drop_last().drop_last().len() == 0);
}

/// The buttons in the last row of the dialog.
pub open spec fn mount_buttons(inner: Rect) -> Seq<Rect> {
    widgets::button_row(inner, mount_widths(), 2, geometry::less(inner.height as int, 1))
}

/// The buttons in the last row of the dialog.
pub fn remote_mount_button_rects(inner: Rect) -> (rects: (Rect, Rect))
    requires
        inner.wf(),
    ensures
        rects == (mount_buttons(inner)[0], mount_buttons(inner)[1]),
{
    proof {
        lemma_mount_widths();
    }
    widgets::two_button_rects(
        inner,
        ("↵", "mount"),
        ("esc", "cancel"),
        inner.height.saturating_sub(1),
    )
}

/// The buttons stand within the dialog and do not overlap, where it is wide
/// enough for both.
pub proof fn law_mount_buttons_are_apart(inner: Rect)
    requires
        inner.wf(),
        inner.width >= 23,
        inner.height > 0,
    ensures
        mount_buttons(inner)[0].within(inner),
        mount_buttons(inner)[1].within(inner),
        mount_buttons(inner)[0].x + mount_buttons(inner)[0].width <= mount_buttons(inner)[1].x,
{
    lemma_mount_widths();
    widgets::law_buttons_with_room_do_not_overlap(
        inner,
        mount_widths(),
        2,
        geometry::less(inner.height as int, 1) as nat,
        0,
        1,
    );
}

/// Whenever the dialog is drawn, however low the screen, the recent targets end
/// above the last row, and a click on the row of the buttons is never one on a
/// recent target.
pub proof fn law_recents_leave_the_buttons_alone(
    inner: Rect,
    count: nat,
    rows: Seq<Rect>,
    col: int,
)
    requires
        inner.wf(),
        mount_rows(inner, count as int, rows),
        inner.height >= 8,
    ensures
        rows[4].y + rows[4].height < inner.y + inner.height,
        recent_of(rows[4], count as int, col, mount_buttons(inner)[0].y as int) is None,
        recent_of(rows[4], count as int, col, mount_buttons(inner)[1].y as int) is None,
{
    law_only_the_recents_are_cut(inner, count, rows);
    assert(mount_widths().len() == 2);
}

/// The dialog stays compact without recent targets and grows by a heading and a
/// row for each, up to five.
pub proof fn law_dialog_grows_with_the_recents(count: nat, more: nat)
    requires
        count <= more,
    ensures
        recents_extra(0) == 0,
        recents_extra(count as int) <= recents_extra(more as int) <= 6,
        0 < count < more && count < REMOTE_MOUNT_RECENTS_MAX_ROWS ==> recents_extra(count as int)
            < recents_extra(more as int),
{
}

/// What the dialog shows.
#[derive(Debug)]
pub struct RemoteMount {
    pub input: String,
    pub recent_targets: Vec<String>,
    pub highlighted: Option<usize>,
    pub error: Option<String>,
    pub submitting: bool,
}

/// Drawing the first recent targets.
pub open spec fn recents_plan(
    mount: RemoteMount,
    list: Rect,
    n: int,
    p: Palette,
    contrast: Color,
) -> Seq<OpView>
    decreases n,
{
    if n <= 0 {
        plan::idle()
    } else {
        let i = n - 1;
        recents_plan(mount, list, i, p, contrast).push(
            plan::text_at(
                geometry::rect(list.x as int, list.y + 1 + i, list.width as int, 1),
                " "@ + mount.recent_targets@[i]@,
                if mount.highlighted == Some(i as usize) {
                    ink_on(contrast, p.accent)
                } else {
                    ink(p.subtext0)
                },
            ),
        )
    }
}

/// A wrapped text.
pub open spec fn wrapped_at(rect: Rect, text: Seq<char>, color: Color) -> OpView {
    OpView::Text {
        rect,
        lines: plan::paragraph_lines(text),
        style: ink(color),
        align: Align::Left,
        wrap: true,
        scroll: 0,
    }
}

fn wrapped(drawn: &mut Plan, rect: Rect, text: &str, color: Color)
    ensures
        final(drawn)@ == old(drawn)@.push(wrapped_at(rect, text@, color)),
{
    drawn.push(
        Op::Text {
            rect,
            lines: plan::paragraph(text),
            style: ink(color),
            align: Align::Left,
            wrap: true,
            scroll: 0,
        },
    );
}

/// Drawing the dialog: a title, an input, a hint, the recent targets, what became
/// of the last try, and two buttons. An error stays visible while other targets
/// are still tried.
pub open spec fn mount_plan(
    mount: RemoteMount,
    inner: Rect,
    rows: Seq<Rect>,
    p: Palette,
    contrast: Color,
) -> Seq<OpView> {
    let count = mount.recent_targets@.len() as int;
    let list = rows[4];
    let input = geometry::rect(rows[2].x as int, rows[2].y as int, rows[2].width as int, 1);
    let asked = plan::idle().push(
        widgets::header_at(rows[0], "mount remote workspace"@, p),
    ).push(plan::text_at(rows[1], " target"@, ink(p.overlay0))).push(
        OpView::Clear(input),
    ).push(
        plan::text_at(input, " "@ + mount.input@ + "█"@, ink_on(p.text, p.surface0)),
    ).push(wrapped_at(rows[3], " user@host, space-separated for several"@, p.subtext0));
    let listed = if count > 0 && list.height > 0 {
        asked.push(
            plan::text_at(
                geometry::rect(list.x as int, list.y as int, list.width as int, 1),
                " recent"@,
                ink(p.overlay0),
            ),
        ) + recents_plan(mount, list, visible(list, count), p, contrast)
    } else {
        asked
    };
    let told = match mount.error {
        Some(error) => listed.push(wrapped_at(rows[5], " "@ + error@, p.red)),
        None => if mount.submitting {
            listed.push(plan::text_at(rows[5], " mounting…"@, ink(p.overlay0)))
        } else {
            listed
        },
    };
    told.push(
        widgets::button_at(
            mount_buttons(inner)[0],
            Some("↵"@),
            "mount"@,
            widgets::primary(contrast, p),
        ),
    ).push(
        widgets::button_at(
            mount_buttons(inner)[1],
            Some("esc"@),
            "cancel"@,
            widgets::secondary(p),
        ),
    )
}

/// Draw the dialog in its rows.
pub fn draw_remote_mount(
    mount: &RemoteMount,
    inner: Rect,
    rows: &Vec<Rect>,
    p: &Palette,
    contrast: Color,
) -> (drawn: Plan)
    requires
        inner.wf(),
        rows@.len() == 7,
        rows@[4].wf(),
    ensures
        drawn@ == mount_plan(*mount, inner, rows@, *p, contrast),
{
    let mut drawn = Plan::new();
    let count: usize = mount.recent_targets.len();
    widgets::render_modal_header(&mut drawn, rows[0], "mount remote workspace", p);
    drawn.text(rows[1], " target", ink(p.overlay0));
    let input_rect = Rect::new(rows[2].x, rows[2].y, rows[2].width, 1);
    drawn.push(Op::Clear(input_rect));
    let mut input = " ".to_owned();
    input.append(mount.input.as_str());
    input.append("█");
    drawn.text(input_rect, input.as_str(), ink_on(p.text, p.surface0));
    wrapped(&mut drawn, rows[3], " user@host, space-separated for several", p.subtext0);
    let list = rows[4];
    if remote_mount_recents_rows(count) > 0 && list.height > 0 {
        drawn.text(Rect::new(list.x, list.y, list.width, 1), " recent", ink(p.overlay0));
        let shown: usize = remote_mount_visible_recents_rows(list, count);
        let ghost headed = drawn@;
        let mut i: usize = 0;
        assert(headed + recents_plan(*mount, list, 0, *p, contrast) =~= headed);
        while i < shown
            invariant
                list.wf(),
                shown == visible(list, mount.recent_targets@.len() as int),
                i <= shown,
                drawn@ == headed + recents_plan(*mount, list, i as int, *p, contrast),
            decreases shown - i,
        {
            let highlighted = match mount.highlighted {
                Some(idx) => idx == i,
                None => false,
            };
            let style = if highlighted {
                ink_on(contrast, p.accent)
            } else {
                ink(p.subtext0)
            };
            let mut target = " ".to_owned();
            target.append(mount.recent_targets[i].as_str());
            drawn.text(
                Rect::new(list.x, list.y + 1 + i as u16, list.width, 1),
                target.as_str(),
                style,
            );
            i = i + 1;
            assert(drawn@ =~= headed + recents_plan(*mount, list, i as int, *p, contrast));
        }
    }
    if let Some(error) = &mount.error {
        let mut text = " ".to_owned();
        text.append(error.as_str());
        wrapped(&mut drawn, rows[5], text.as_str(), p.red);
    } else if mount.submitting {
        drawn.text(rows[5], " mounting…", ink(p.overlay0));
    }
    let (mount_rect, cancel_rect) = remote_mount_button_rects(inner);
    widgets::render_action_button(
        &mut drawn,
        mount_rect,
        Some("↵"),
        "mount",
        widgets::primary(contrast, *p),
    );
    widgets::render_action_button(
        &mut drawn,
        cancel_rect,
        Some("esc"),
        "cancel",
        widgets::secondary(*p),
    );
    drawn
}

/// Draw the dialog that mounts a remote workspace, where one is open and has
/// room.
pub fn render_remote_mount_overlay(
    mount: Option<&RemoteMount>,
    area: Rect,
    p: &Palette,
    contrast: Color,
) -> (drawn: Plan)
    requires
        area.wf(),
    ensures
        match mount {
            None => drawn@ == plan::idle(),
            Some(mount) => {
                let count = mount.recent_targets@.len() as int;
                let inner = mount_inner(area, count);
                let shell = plan::idle().push(OpView::Dim(area)) + widgets::modal_plan(
                    area,
                    REMOTE_MOUNT_POPUP_WIDTH as int,
                    REMOTE_MOUNT_POPUP_HEIGHT + recents_extra(count),
                    *p,
                );
                drawn@ == if onboarding::tall(inner, 8) {
                    shell + mount_plan(
                        *mount,
                        inner->0,
                        drawn_rows(inner->0, count),
                        *p,
                        contrast,
                    )
                } else {
                    shell
                }
            },
        },
{
    let mut drawn = Plan::new();
    let mount = match mount {
        Some(mount) => mount,
        None => {
            return drawn;
        },
    };
    let count: usize = mount.recent_targets.len();
    widgets::dim_background(&mut drawn, area);
    let inner = widgets::render_modal_shell(
        &mut drawn,
        area,
        REMOTE_MOUNT_POPUP_WIDTH,
        remote_mount_popup_height(count),
        p,
    );
    match inner {
        Some(inner) => {
            if inner.height < 8 {
                return drawn;
            }
            let rows = remote_mount_rows(inner, count);
            drawn.append(draw_remote_mount(mount, inner, &rows, p, contrast));
            drawn
        },
        None => drawn,
    }
}

/// Each recent target stands on its own row below the heading, in order, and only
/// the highlighted one stands out.
pub proof fn law_recents_stand_in_order(
    mount: RemoteMount,
    list: Rect,
    n: int,
    p: Palette,
    contrast: Color,
)
    requires
        list.wf(),
        0 <= n < list.height || n == 0,
    ensures
        ({
            let ops = recents_plan(mount, list, n, p, contrast);
            &&& ops.len() == n
            &&& forall|i: int|
                0 <= i < n ==> {
                    let op = #[trigger] ops[i];
                    &&& op is Text
                    &&& op->Text_rect.x == list.x
                    &&& op->Text_rect.y == list.y + 1 + i
                    &&& op->Text_rect.width == list.width
                    &&& op->Text_rect.height == 1
                    &&& op->Text_lines == plan::paragraph_lines(
                        " "@ + mount.recent_targets@[i]@,
                    )
                    &&& mount.highlighted == Some(i as usize) ==> op->Text_style.fg == Some(
                        contrast,
                    ) && op->Text_style.bg == Some(p.accent)
                    &&& mount.highlighted != Some(i as usize) ==> op->Text_style.fg == Some(
                        p.subtext0,
                    ) && op->Text_style.bg is None
                }
        }),
    decreases n,
{
    if n > 0 {
        law_recents_stand_in_order(mount, list, n - 1, p, contrast);
    }
}

/// As many recent targets are shown as there are, up to five, and never more than
/// there are rows below the heading.
pub proof fn law_recents_are_shown_up_to_five(list: Rect, count: nat)
    ensures
        count <= 5 && count < list.height ==> visible(list, count as int) == count,
        count >= 5 && list.height > 5 ==> visible(list, count as int) == 5,
        0 < list.height <= 5 && count >= list.height ==> visible(list, count as int) == list.height
            - 1,
        list.height == 0 ==> visible(list, count as int) == 0,
        count == 0 ==> visible(list, count as int) == 0,
        count == 0 ==> recents_extra(count as int) == 0,
        0 < count <= 5 ==> recents_extra(count as int) == count + 1,
        count > 5 ==> recents_extra(count as int) == 6,
{
}

/// The dialog shows what was typed with the cursor behind it, how targets are
/// written, the recent targets where there are any, the error of the last try or
/// else that one is under way, and offers to mount and to cancel.
pub proof fn law_the_mount_dialog_tells_the_try(
    mount: RemoteMount,
    inner: Rect,
    rows: Seq<Rect>,
    p: Palette,
    contrast: Color,
)
    ensures
        ({
            let ops = mount_plan(mount, inner, rows, p, contrast);
            let count = mount.recent_targets@.len() as int;
            let listing = count > 0 && rows[4].height > 0;
            let recent = recents_plan(mount, rows[4], visible(rows[4], count), p, contrast);
            let told = if listing { 6 + recent.len() as int } else { 5 };
            let telling = mount.error is Some || mount.submitting;
            let buttons = if telling { told + 1 } else { told };
            &&& ops.len() == buttons + 2
            &&& ops[0] == widgets::header_at(rows[0], "mount remote workspace"@, p)
            &&& ops[1] is Text && ops[1]->Text_rect == rows[1]
            &&& ops[1]->Text_lines == plan::paragraph_lines(" target"@)
            &&& ops[2] is Clear && ops[3] is Text && ops[3]->Text_rect == ops[2]->Clear_0
            &&& ops[3]->Text_rect.x == rows[2].x && ops[3]->Text_rect.y == rows[2].y
            &&& rows[2].wf() && rows[2].height > 0 ==> ops[3]->Text_rect.width == rows[2].width
                && ops[3]->Text_rect.height == 1
            &&& ops[3]->Text_lines == plan::paragraph_lines(" "@ + mount.input@ + "█"@)
            &&& ops[4] is Text && ops[4]->Text_rect == rows[3] && ops[4]->Text_wrap
            &&& ops[4]->Text_lines == plan::paragraph_lines(
                " user@host, space-separated for several"@,
            )
            &&& listing ==> {
                &&& ops[5] is Text && ops[5]->Text_rect.y == rows[4].y
                &&& ops[5]->Text_lines == plan::paragraph_lines(" recent"@)
                &&& forall|i: int| 0 <= i < recent.len() ==> #[trigger] ops[6 + i] == recent[i]
            }
            &&& mount.error is Some ==> {
                &&& ops[told] is Text && ops[told]->Text_rect == rows[5] && ops[told]->Text_wrap
                &&& ops[told]->Text_lines == plan::paragraph_lines(" "@ + mount.error->0@)
                &&& ops[told]->Text_style.fg == Some(p.red)
            }
            &&& mount.error is None && mount.submitting ==> {
                &&& ops[told] is Text && ops[told]->Text_rect == rows[5]
                &&& ops[told]->Text_lines == plan::paragraph_lines(" mounting…"@)
            }
            &&& ops[buttons] is Text && ops[buttons]->Text_rect == mount_buttons(inner)[0]
            &&& ops[buttons]->Text_lines == plan::paragraph_lines(
                widgets::button_text(Some("↵"@), "mount"@),
            )
            &&& ops[buttons + 1] is Text && ops[buttons + 1]->Text_rect == mount_buttons(inner)[1]
            &&& ops[buttons + 1]->Text_lines == plan::paragraph_lines(
                widgets::button_text(Some("esc"@), "cancel"@),
            )
        }),
{
}

/// The dialog asks for a row more for the heading of the recent targets and one for
/// each that is shown, and has all but its frame inside.
pub proof fn law_the_mount_dialog_asks_for_its_rows(
    area: Rect,
    recents_count: usize,
    rows: usize,
    inner: Option<Rect>,
)
    requires
        area.wf(),
    ensures
        call_ensures(remote_mount_recents_rows, (recents_count,), rows) ==> {
            &&& recents_count <= 5 ==> rows == recents_count
            &&& recents_count > 5 ==> rows == 5
        },
        call_ensures(remote_mount_inner_rect, (area, recents_count), inner) ==> {
            let asked = if recents_count == 0 {
                0int
            } else if recents_count <= 5 {
                recents_count + 1
            } else {
                6int
            };
            &&& inner == widgets::modal_inner(
                area,
                REMOTE_MOUNT_POPUP_WIDTH as int,
                REMOTE_MOUNT_POPUP_HEIGHT + asked,
            )
        },
{
}

} // verus!
