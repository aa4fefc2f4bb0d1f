//! Panels, dialogs and buttons.

use vstd::prelude::*;

use crate::geometry;
use crate::geometry::{Direction, Extent, Rect};
use crate::ui::plan;
use crate::ui::plan::{bold, ink, Align, Color, Line, Op, OpView, Palette, Plan, Style};

verus! {

/// Drawing an empty panel.
pub open spec fn panel_plan(area: Rect, border: Color, background: Color) -> Seq<OpView> {
    plan::idle().push(OpView::Clear(area)).push(
        OpView::Frame { rect: area, ink: border, thick: false, paper: Some(background) },
    )
}

/// What a panel leaves inside its frame; too small an area has no panel.
pub open spec fn panel_inner(area: Rect) -> Option<Rect> {
    if area.width < 2 || area.height < 2 {
        None
    } else {
        Some(area.framed())
    }
}

/// Draw an empty panel, and say what is inside its frame.
pub fn render_panel_shell(drawn: &mut Plan, area: Rect, border: Color, background: Color) -> (inner:
    Option<Rect>)
    ensures
        inner == panel_inner(area),
        inner matches Some(inner) ==> (area.wf() ==> inner.wf() && inner.within(area)),
        final(drawn)@ == if inner is Some {
            old(drawn)@ + panel_plan(area, border, background)
        } else {
            old(drawn)@
        },
{
    if area.width < 2 || area.height < 2 {
        return None;
    }
    let ghost before = drawn@;
    drawn.push(Op::Clear(area));
    drawn.push(Op::Frame { rect: area, ink: border, thick: false, paper: Some(background) });
    assert(drawn@ =~= before + panel_plan(area, border, background));
    Some(area.inner())
}

/// A popup in the middle of an area, with a margin around it; too small an area
/// has none.
pub open spec fn popup_rect(area: Rect, popup_w: int, popup_h: int) -> Option<Rect> {
    let width = geometry::least(popup_w, geometry::less(area.width as int, 4));
    let height = geometry::least(popup_h, geometry::less(area.height as int, 2));
    if width < 4 || height < 4 {
        None
    } else {
        Some(
            Rect {
                x: (area.x + (area.width - width) / 2) as u16,
                y: (area.y + (area.height - height) / 2) as u16,
                width: width as u16,
                height: height as u16,
            },
        )
    }
}

/// A popup in the middle of an area.
pub fn centered_popup_rect(area: Rect, popup_w: u16, popup_h: u16) -> (popup: Option<Rect>)
    requires
        area.wf(),
    ensures
        popup == popup_rect(area, popup_w as int, popup_h as int),
        popup matches Some(popup) ==> popup.wf() && popup.within(area),
{
    let width: u16 = geometry::smaller(popup_w, area.width.saturating_sub(4));
    let height: u16 = geometry::smaller(popup_h, area.height.saturating_sub(2));
    if width < 4 || height < 4 {
        return None;
    }
    let x: u16 = area.x + (area.width - width) / 2;
    let y: u16 = area.y + (area.height - height) / 2;
    Some(Rect::new(x, y, width, height))
}

/// What a dialog leaves inside its frame.
pub open spec fn modal_inner(area: Rect, popup_w: int, popup_h: int) -> Option<Rect> {
    match popup_rect(area, popup_w, popup_h) {
        Some(popup) => panel_inner(popup),
        None => None,
    }
}

/// Drawing an empty dialog.
pub open spec fn modal_plan(area: Rect, popup_w: int, popup_h: int, p: Palette) -> Seq<OpView> {
    match popup_rect(area, popup_w, popup_h) {
        Some(popup) => panel_plan(popup, p.accent, p.panel_bg),
        None => plan::idle(),
    }
}

/// Draw an empty dialog, and say what is inside its frame.
pub fn render_modal_shell(
    drawn: &mut Plan,
    area: Rect,
    popup_w: u16,
    popup_h: u16,
    p: &Palette,
) -> (inner: Option<Rect>)
    requires
        area.wf(),
    ensures
        inner == modal_inner(area, popup_w as int, popup_h as int),
        inner matches Some(inner) ==> inner.wf() && inner.within(area) && inner.width >= 2
            && inner.height >= 2,
        final(drawn)@ == old(drawn)@ + modal_plan(area, popup_w as int, popup_h as int, *p),
{
    let ghost before = drawn@;
    match centered_popup_rect(area, popup_w, popup_h) {
        Some(popup) => render_panel_shell(drawn, popup, p.accent, p.panel_bg),
        None => {
            assert(drawn@ =~= before + plan::idle());
            None
        },
    }
}

/// Drawing the title of a dialog.
pub open spec fn header_at(area: Rect, title: Seq<char>, p: Palette) -> OpView {
    plan::line_at(
        area,
        plan::blank().push(plan::span(" "@ + title + " "@, bold(ink(p.text)))),
    )
}

/// Draw the title of a dialog.
pub fn render_modal_header(drawn: &mut Plan, area: Rect, title: &str, p: &Palette)
    ensures
        final(drawn)@ == old(drawn)@.push(header_at(area, title@, *p)),
{
    let mut text = " ".to_owned();
    text.append(title);
    text.append(" ");
    drawn.line(area, Line::of(text.as_str(), bold(ink(p.text))));
}

/// The parts of a dialog, one below the other.
#[derive(Debug, Clone, Copy, PartialEq, Eq, Structural)]
pub struct ModalStackAreas {
    pub header: Rect,
    pub content: Rect,
    pub footer: Option<Rect>,
    pub actions: Option<Rect>,
}

/// What the parts of a dialog ask for: a header, the content, which takes what is
/// left, and a footer and actions where they have a height; with gaps between.
pub open spec fn stack_extents(header: u16, footer: u16, actions: u16, gap: u16) -> Seq<Extent> {
    let top = Seq::<Extent>::empty().push(Extent::Length(header)).push(
        Extent::Length(gap),
    ).push(Extent::Min(0));
    let middle = if footer > 0 {
        top.push(Extent::Length(gap)).push(Extent::Length(footer))
    } else {
        top
    };
    if actions > 0 {
        middle.push(Extent::Length(gap)).push(Extent::Length(actions))
    } else {
        middle
    }
}

/// The parts of a dialog, among the rows that its area is divided into.
pub open spec fn stack_of(footer: u16, actions: u16, rows: Seq<Rect>) -> ModalStackAreas {
    ModalStackAreas {
        header: rows[0],
        content: rows[2],
        footer: if footer > 0 {
            Some(rows[4])
        } else {
            None
        },
        actions: if actions > 0 {
            Some(
                if footer > 0 {
                    rows[6]
                } else {
                    rows[4]
                },
            )
        } else {
            None
        },
    }
}

/// The parts of a dialog, among the rows that its area is divided into.
pub fn modal_stack_from_rows(footer_height: u16, actions_height: u16, rows: &Vec<Rect>) -> (stack:
    ModalStackAreas)
    requires
        rows@.len() == stack_extents(0, footer_height, actions_height, 0).len(),
    ensures
        stack == stack_of(footer_height, actions_height, rows@),
{
    ModalStackAreas {
        header: rows[0],
        content: rows[2],
        footer: if footer_height > 0 {
            Some(rows[4])
        } else {
            None
        },
        actions: if actions_height > 0 {
            if footer_height > 0 {
                Some(rows[6])
            } else {
                Some(rows[4])
            }
        } else {
            None
        },
    }
}

/// Whether an area may be divided into the parts of a dialog so.
pub open spec fn stacked(
    inner: Rect,
    header: u16,
    footer: u16,
    actions: u16,
    gap: u16,
    rows: Seq<Rect>,
) -> bool {
    geometry::divided(
        inner,
        Direction::Vertical,
        stack_extents(header, footer, actions, gap),
        rows,
    )
}

/// Divide the inside of a dialog into the rows of its parts and their gaps.
pub fn modal_stack_rows(
    inner: Rect,
    header_height: u16,
    footer_height: u16,
    actions_height: u16,
    gap: u16,
) -> (rows: Vec<Rect>)
    requires
        inner.wf(),
    ensures
        stacked(inner, header_height, footer_height, actions_height, gap, rows@),
        rows@.len() == stack_extents(0, footer_height, actions_height, 0).len(),
        forall|i: int|
            0 <= i < rows@.len() ==> (#[trigger] rows@[i]).wf() && rows@[i].within(inner)
                && rows@[i].x == inner.x && rows@[i].width == inner.width,
{
    let mut extents: Vec<Extent> = Vec::new();
    extents.push(Extent::Length(header_height));
    extents.push(Extent::Length(gap));
    extents.push(Extent::Min(0));
    if footer_height > 0 {
        extents.push(Extent::Length(gap));
        extents.push(Extent::Length(footer_height));
    }
    if actions_height > 0 {
        extents.push(Extent::Length(gap));
        extents.push(Extent::Length(actions_height));
    }
    geometry::split(inner, Direction::Vertical, &extents)
}

/// Divide the inside of a dialog into its parts.
pub fn modal_stack_areas(
    inner: Rect,
    header_height: u16,
    footer_height: u16,
    actions_height: u16,
    gap: u16,
) -> (stack: ModalStackAreas)
    requires
        inner.wf(),
    ensures
        exists|rows: Seq<Rect>| #[trigger]
            stacked(inner, header_height, footer_height, actions_height, gap, rows) && stack
                == stack_of(footer_height, actions_height, rows),
        stack.header.wf() && stack.header.within(inner),
        stack.content.wf() && stack.content.within(inner) && stack.content.x == inner.x
            && stack.content.width == inner.width,
        stack.footer is Some <==> footer_height > 0,
        stack.footer matches Some(footer) ==> footer.wf() && footer.within(inner),
        stack.actions is Some <==> actions_height > 0,
        stack.actions matches Some(actions) ==> actions.wf() && actions.within(inner),
{
    let rows = modal_stack_rows(inner, header_height, footer_height, actions_height, gap);
    modal_stack_from_rows(footer_height, actions_height, &rows)
}

/// A dialog that has room for all its parts has its header on top with its full
/// height, then the content, and then the footer and the actions with theirs; the
/// content has all the room that the others and the gaps leave.
pub proof fn law_dialogs_with_room_are_stacked_exactly(
    inner: Rect,
    header: u16,
    footer: u16,
    actions: u16,
    gap: u16,
    rows: Seq<Rect>,
)
    requires
        inner.wf(),
        footer > 0,
        actions > 0,
        header + gap + gap + footer + gap + actions <= inner.height,
        stacked(inner, header, footer, actions, gap, rows),
    ensures
        ({
            let stack = stack_of(footer, actions, rows);
            &&& stack.header == (Rect { height: header, ..inner })
            &&& stack.content.y == inner.y + header + gap
            &&& stack.content.height == inner.height - header - footer - actions - 3 * gap
            &&& stack.footer->0.y == stack.content.y + stack.content.height + gap
            &&& stack.footer->0.height == footer
            &&& stack.actions->0.y == stack.footer->0.y + footer + gap
            &&& stack.actions->0.height == actions
            &&& stack.actions->0.y + actions == inner.y + inner.height
        }),
{
    let extents = stack_extents(header, footer, actions, gap);
    assert(extents.len() == 7);
    let e6 = extents.drop_last();
    let e5 = e6.drop_last();
    let e4 = e5.drop_last();
    let e3 = e4.drop_last();
    let e2 = e3.drop_last();
    let e1 = e2.drop_last();
    assert(e1.drop_last().len() == 0);
    reveal_with_fuel(geometry::total, 9);
    assert(geometry::total(extents) == header + gap + gap + footer + gap + actions);
    let size = inner.height as int;
    assert(geometry::fits(extents, size));
    reveal_with_fuel(geometry::start, 8);
    assert(rows[0].y == inner.y + geometry::start(extents, size, 0));
    assert(rows[2].y == inner.y + geometry::start(extents, size, 2));
    assert(rows[4].y == inner.y + geometry::start(extents, size, 4));
    assert(rows[6].y == inner.y + geometry::start(extents, size, 6));
}

/// The text of a button.
pub open spec fn button_text(hint: Option<Seq<char>>, label: Seq<char>) -> Seq<char> {
    match hint {
        Some(hint) => " "@ + hint + " "@ + label + " "@,
        None => " "@ + label + " "@,
    }
}

/// A shown text, for contracts.
pub open spec fn shown(text: Option<&str>) -> Option<Seq<char>> {
    match text {
        Some(text) => Some(text@),
        None => None,
    }
}

/// The text of a button: the key that presses it, and what it does.
pub fn action_button_text(hint: Option<&str>, label: &str) -> (text: String)
    ensures
        text@ == button_text(shown(hint), label@),
{
    let mut text = " ".to_owned();
    if let Some(hint) = hint {
        text.append(hint);
        text.append(" ");
    }
    text.append(label);
    text.append(" ");
    text
}

/// The width of a button.
pub open spec fn button_width(hint: Option<Seq<char>>, label: Seq<char>) -> u16 {
    button_text(hint, label).len() as u16
}

/// The width of a button, in cells.
pub fn action_button_width(hint: Option<&str>, label: &str) -> (width: u16)
    ensures
        width == button_width(shown(hint), label@),
{
    let text = action_button_text(hint, label);
    let width: usize = text.as_str().unicode_len();
    #[verifier::truncate]
    let width: u16 = width as u16;
    width
}

/// Drawing a button.
pub open spec fn button_at(
    rect: Rect,
    hint: Option<Seq<char>>,
    label: Seq<char>,
    style: Style,
) -> OpView {
    OpView::Text {
        rect,
        lines: plan::paragraph_lines(button_text(hint, label)),
        style,
        align: Align::Center,
        wrap: false,
        scroll: 0,
    }
}

/// Draw a button.
pub fn render_action_button(
    drawn: &mut Plan,
    rect: Rect,
    hint: Option<&str>,
    label: &str,
    style: Style,
)
    ensures
        final(drawn)@ == old(drawn)@.push(button_at(rect, shown(hint), label@, style)),
{
    let text = action_button_text(hint, label);
    drawn.push(
        Op::Text {
            rect,
            lines: plan::paragraph(text.as_str()),
            style,
            align: Align::Center,
            wrap: false,
            scroll: 0,
        },
    );
}

/// The sum of widths.
pub open spec fn sum(widths: Seq<u16>) -> int
    decreases widths.len(),
{
    if widths.len() == 0 {
        0
    } else {
        sum(widths.drop_last()) + widths.last()
    }
}

/// A coordinate, at most the last one.
pub open spec fn sat(n: int) -> int {
    geometry::least(n, u16::MAX as int)
}

/// The width of a row of buttons with its gaps.
pub open spec fn row_width(widths: Seq<u16>, gap: int) -> int {
    sat(sum(widths) + sat(gap * (geometry::less(widths.len() as int, 1) as u16)))
}

/// The column of a button in a row of buttons in the middle of an area.
pub open spec fn button_x(inner: Rect, widths: Seq<u16>, gap: int, i: int) -> int
    decreases i,
{
    if i <= 0 {
        inner.x + geometry::less(inner.width as int, row_width(widths, gap)) / 2
    } else {
        sat(sat(button_x(inner, widths, gap, i - 1) + widths[i - 1]) + gap)
    }
}

/// The rectangles of a row of buttons in the middle of an area.
pub open spec fn button_row(inner: Rect, widths: Seq<u16>, gap: int, row_offset: int) -> Seq<Rect> {
    Seq::new(
        widths.len(),
        |i: int|
            geometry::rect(
                button_x(inner, widths, gap, i),
                inner.y + geometry::least(row_offset, geometry::less(inner.height as int, 1)),
                geometry::least(
                    widths[i] as int,
                    geometry::less(
                        inner.width as int,
                        geometry::less(button_x(inner, widths, gap, i), inner.x as int),
                    ),
                ),
                1,
            ),
    )
}

fn total_width(widths: &Vec<u16>) -> (total: u16)
    requires
        sum(widths@) <= u16::MAX,
    ensures
        total == sum(widths@),
{
    let mut total: u16 = 0;
    let mut i: usize = 0;
    while i < widths.len()
        invariant
            i <= widths.len(),
            total == sum(widths@.take(i as int)),
            sum(widths@) <= u16::MAX,
        decreases widths.len() - i,
    {
        assert(widths@.take(i + 1).drop_last() =~= widths@.take(i as int));
        proof {
            lemma_sum_grows(widths@, i + 1);
        }
        total = total + widths[i];
        i = i + 1;
    }
    assert(widths@.take(i as int) =~= widths@);
    total
}

proof fn lemma_sum_grows(widths: Seq<u16>, n: int)
    requires
        0 <= n <= widths.len(),
    ensures
        0 <= sum(widths.take(n)) <= sum(widths),
    decreases widths.len(),
{
    if n == widths.len() {
        assert(widths.take(n) =~= widths);
        if n > 0 {
            lemma_sum_grows(widths.drop_last(), n - 1);
            assert(widths.drop_last().take(n - 1) =~= widths.drop_last());
        }
    } else {
        lemma_sum_grows(widths.drop_last(), n);
        assert(widths.drop_last().take(n) =~= widths.take(n));
    }
}

/// A product, at most the last coordinate.
fn product(a: u16, b: u16) -> (c: u16)
    ensures
        c == sat(a * b),
{
    assert(0 <= a * b <= 65535 * 65535) by (nonlinear_arith)
        requires
            0 <= a <= 65535,
            0 <= b <= 65535,
    ;
    let product: u32 = a as u32 * b as u32;
    if product < 65535 {
        product as u16
    } else {
        65535
    }
}

/// The rectangles of a row of buttons of given widths in the middle of an area.
pub fn centered_button_row(inner: Rect, widths: &Vec<u16>, gap: u16, row_offset: u16) -> (rects:
    Vec<Rect>)
    requires
        inner.wf(),
        sum(widths@) <= u16::MAX,
    ensures
        rects@ == button_row(inner, widths@, gap as int, row_offset as int),
        forall|i: int| 0 <= i < rects@.len() ==> (#[trigger] rects@[i]).wf(),
{
    let count: usize = widths.len().saturating_sub(1);
    #[verifier::truncate]
    let gaps: u16 = count as u16;
    let total: u16 = total_width(widths).saturating_add(product(gap, gaps));
    let mut x: u16 = inner.x + inner.width.saturating_sub(total) / 2;
    let y: u16 = inner.y + geometry::smaller(row_offset, inner.height.saturating_sub(1));
    let mut rects: Vec<Rect> = Vec::new();
    let mut i: usize = 0;
    while i < widths.len()
        invariant
            inner.wf(),
            i <= widths.len(),
            x == button_x(inner, widths@, gap as int, i as int),
            y == inner.y + geometry::least(
                row_offset as int,
                geometry::less(inner.height as int, 1),
            ),
            rects@ == button_row(inner, widths@, gap as int, row_offset as int).take(i as int),
            forall|k: int| 0 <= k < rects@.len() ==> (#[trigger] rects@[k]).wf(),
        decreases widths.len() - i,
    {
        let room: u16 = inner.width.saturating_sub(x.saturating_sub(inner.x));
        rects.push(Rect::new(x, y, geometry::smaller(widths[i], room), 1));
        assert(rects@ =~= button_row(inner, widths@, gap as int, row_offset as int).take(i + 1));
        x = x.saturating_add(widths[i]).saturating_add(gap);
        i = i + 1;
    }
    assert(rects@ =~= button_row(inner, widths@, gap as int, row_offset as int));
    rects
}

/// Buttons that fit into an area stand in it, in order and with the gap between
/// them; no two overlap.
pub proof fn law_buttons_with_room_do_not_overlap(
    inner: Rect,
    widths: Seq<u16>,
    gap: nat,
    row_offset: nat,
    i: int,
    j: int,
)
    requires
        inner.wf(),
        inner.height > 0,
        widths.len() <= u16::MAX,
        sum(widths) + gap * geometry::less(widths.len() as int, 1) <= inner.width,
        0 <= i < j < widths.len(),
    ensures
        ({
            let rects = button_row(inner, widths, gap as int, row_offset as int);
            &&& rects[i].within(inner)
            &&& rects[j].within(inner)
            &&& rects[i].width == widths[i]
            &&& rects[j].width == widths[j]
            &&& rects[i].x + rects[i].width + gap <= rects[j].x
        }),
{
    let n = widths.len() as int;
    lemma_sum_grows(widths, n);
    lemma_sum_grows(widths, 0);
    assert(gap * (n - 1) >= 0) by (nonlinear_arith)
        requires
            gap >= 0,
            n >= 1,
    ;
    assert(row_width(widths, gap as int) == sum(widths) + gap * (n - 1));
    lemma_button_x(inner, widths, gap as int, i);
    lemma_button_x(inner, widths, gap as int, j);
    lemma_button_ends(widths, gap as int, i);
    lemma_button_ends(widths, gap as int, j);
    lemma_button_gap(widths, gap as int, i, j);
}

proof fn lemma_button_x(inner: Rect, widths: Seq<u16>, gap: int, i: int)
    requires
        inner.wf(),
        gap >= 0,
        0 < widths.len() <= u16::MAX,
        row_width(widths, gap) == sum(widths) + gap * (widths.len() - 1),
        sum(widths) + gap * (widths.len() - 1) <= inner.width,
        0 <= i < widths.len(),
    ensures
        button_x(inner, widths, gap, i) == inner.x + (inner.width - row_width(widths, gap)) / 2
            + sum(widths.take(i)) + gap * i,
    decreases i,
{
    if i == 0 {
        assert(widths.take(0).len() == 0);
        assert(gap * 0 == 0);
    } else {
        lemma_button_x(inner, widths, gap, i - 1);
        assert(widths.take(i).drop_last() =~= widths.take(i - 1));
        assert(widths.take(i).last() == widths[i - 1]);
        assert(gap * (i - 1) + gap == gap * i) by (nonlinear_arith);
        lemma_sum_grows(widths, i);
        assert(gap * i <= gap * (widths.len() - 1)) by (nonlinear_arith)
            requires
                gap >= 0,
                i <= widths.len() - 1,
        ;
    }
}

proof fn lemma_button_ends(widths: Seq<u16>, gap: int, i: int)
    requires
        gap >= 0,
        0 <= i < widths.len(),
    ensures
        sum(widths.take(i)) + gap * i + widths[i] <= sum(widths) + gap * (widths.len() - 1),
        sum(widths.take(i)) + gap * i >= 0,
{
    assert(widths.take(i + 1).drop_last() =~= widths.take(i));
    assert(widths.take(i + 1).last() == widths[i]);
    lemma_sum_grows(widths, i + 1);
    lemma_sum_grows(widths, i);
    assert(0 <= gap * i <= gap * (widths.len() - 1)) by (nonlinear_arith)
        requires
            gap >= 0,
            0 <= i <= widths.len() - 1,
    ;
}

proof fn lemma_button_gap(widths: Seq<u16>, gap: int, i: int, j: int)
    requires
        gap >= 0,
        0 <= i < j < widths.len(),
    ensures
        sum(widths.take(i)) + gap * i + widths[i] + gap <= sum(widths.take(j)) + gap * j,
    decreases j - i,
{
    let before = widths.take(j);
    assert(before.drop_last() =~= widths.take(j - 1));
    assert(before.last() == widths[j - 1]);
    assert(gap * (j - 1) + gap == gap * j) by (nonlinear_arith);
    if i < j - 1 {
        lemma_button_gap(widths, gap, i, j - 1);
    }
}

/// What a button is made of.
#[derive(Debug, Clone, Copy)]
pub struct ActionButtonSpec<'a> {
    pub hint: Option<&'a str>,
    pub label: &'a str,
}

/// The widths of buttons.
pub open spec fn button_widths(buttons: Seq<ActionButtonSpec<'_>>) -> Seq<u16> {
    buttons.map_values(
        |button: ActionButtonSpec<'_>| button_width(shown(button.hint), button.label@),
    )
}

/// The rectangles of a row of buttons in the middle of an area.
pub fn action_button_row_rects(
    area: Rect,
    buttons: &Vec<ActionButtonSpec<'_>>,
    gap: u16,
    row_offset: u16,
) -> (rects: Vec<Rect>)
    requires
        area.wf(),
        sum(button_widths(buttons@)) <= u16::MAX,
    ensures
        rects@ == button_row(area, button_widths(buttons@), gap as int, row_offset as int),
        forall|i: int| 0 <= i < rects@.len() ==> (#[trigger] rects@[i]).wf(),
{
    let mut widths: Vec<u16> = Vec::new();
    let mut i: usize = 0;
    while i < buttons.len()
        invariant
            i <= buttons.len(),
            widths@ == button_widths(buttons@).take(i as int),
        decreases buttons.len() - i,
    {
        widths.push(action_button_width(buttons[i].hint, buttons[i].label));
        i = i + 1;
        assert(widths@ =~= button_widths(buttons@).take(i as int));
    }
    assert(widths@ =~= button_widths(buttons@));
    centered_button_row(area, &widths, gap, row_offset)
}

/// The widths of two buttons with hints.
pub open spec fn two_widths(
    hint: Seq<char>,
    label: Seq<char>,
    other_hint: Seq<char>,
    other_label: Seq<char>,
) -> Seq<u16> {
    seq![button_width(Some(hint), label), button_width(Some(other_hint), other_label)]
}

/// The rectangles of two buttons with hints, in the middle of an area.
pub fn two_button_rects(
    area: Rect,
    first: (&str, &str),
    second: (&str, &str),
    row_offset: u16,
) -> (rects: (Rect, Rect))
    requires
        area.wf(),
        sum(two_widths(first.0@, first.1@, second.0@, second.1@)) <= u16::MAX,
    ensures
        ({
            let row = button_row(
                area,
                two_widths(first.0@, first.1@, second.0@, second.1@),
                2,
                row_offset as int,
            );
            rects == (row[0], row[1])
        }),
        rects.0.wf(),
        rects.1.wf(),
{
    let mut buttons: Vec<ActionButtonSpec<'_>> = Vec::new();
    buttons.push(ActionButtonSpec { hint: Some(first.0), label: first.1 });
    buttons.push(ActionButtonSpec { hint: Some(second.0), label: second.1 });
    assert(button_widths(buttons@) =~= two_widths(first.0@, first.1@, second.0@, second.1@));
    let rects = action_button_row_rects(area, &buttons, 2, row_offset);
    (rects[0], rects[1])
}

/// Whether an area may be divided into rows so.
pub open spec fn rows_of(area: Rect, extents: Seq<Extent>, rows: Seq<Rect>) -> bool {
    geometry::divided(area, Direction::Vertical, extents, rows)
}

/// Divide an area into rows.
pub fn divide_rows(area: Rect, extents: &Vec<Extent>) -> (rows: Vec<Rect>)
    requires
        area.wf(),
    ensures
        rows_of(area, extents@, rows@),
        rows@.len() == extents@.len(),
        forall|i: int|
            0 <= i < rows@.len() ==> (#[trigger] rows@[i]).wf() && rows@[i].within(area)
                && rows@[i].x == area.x && rows@[i].width == area.width,
{
    geometry::split(area, Direction::Vertical, extents)
}

/// Drawing dimmed cells behind a dialog.
pub fn dim_background(drawn: &mut Plan, area: Rect)
    ensures
        final(drawn)@ == old(drawn)@.push(OpView::Dim(area)),
{
    drawn.push(Op::Dim(area));
}

/// The style of the button that is pressed by default.
#[verifier::allow_in_spec]
pub fn primary(contrast: Color, p: Palette) -> Style
    returns
        bold(plan::ink_on(contrast, p.accent)),
{
    bold(plan::ink_on(contrast, p.accent))
}

/// The style of the other buttons.
#[verifier::allow_in_spec]
pub fn secondary(p: Palette) -> Style
    returns
        bold(plan::ink_on(p.text, p.surface0)),
{
    bold(plan::ink_on(p.text, p.surface0))
}

/// The button that closes a dialog, at the right of its title.
pub open spec fn close_button(area: Rect) -> Rect {
    let width = button_width(Some("esc"@), "close"@);
    geometry::rect(
        area.x + geometry::less(area.width as int, width as int),
        area.y as int,
        width as int,
        1,
    )
}

/// The button that closes a dialog, at the right of its title.
pub fn release_notes_close_button_rect(area: Rect) -> (button: Rect)
    requires
        area.wf(),
    ensures
        button == close_button(area),
{
    let width: u16 = action_button_width(Some("esc"), "close");
    Rect::new(area.x + area.width.saturating_sub(width), area.y, width, 1)
}

/// A popup has the size it asks for where the area leaves a margin around it,
/// and stands in its middle, up to half a cell.
pub proof fn law_popups_stand_in_the_middle(area: Rect, popup_w: int, popup_h: int)
    requires
        area.wf(),
        4 <= popup_w <= area.width - 4,
        4 <= popup_h <= area.height - 2,
    ensures
        popup_rect(area, popup_w, popup_h) matches Some(popup) && {
            let left = popup.x - area.x;
            let right = area.x + area.width - popup.x - popup.width;
            let top = popup.y - area.y;
            let below = area.y + area.height - popup.y - popup.height;
            &&& popup.width == popup_w && popup.height == popup_h
            &&& left >= 2 && right >= 2 && top >= 1 && below >= 1
            &&& left == right || left + 1 == right
            &&& top == below || top + 1 == below
        },
{
}

/// A popup that asks for more than there is has what the margins leave; an area
/// that leaves less than four cells either way has none.
pub proof fn law_popups_leave_their_margins(area: Rect, popup_w: int, popup_h: int)
    requires
        area.wf(),
        popup_w >= 4,
        popup_h >= 4,
    ensures
        popup_rect(area, popup_w, popup_h) is Some <==> area.width >= 8 && area.height >= 6,
        popup_rect(area, popup_w, popup_h) matches Some(popup) ==> (popup_w > area.width - 4
            ==> popup.width == area.width - 4) && (popup_h > area.height - 2 ==> popup.height
            == area.height - 2),
{
}

/// A button reads its key and what it does, with blanks around them, and is as
/// wide as that.
pub proof fn law_buttons_read_key_and_action(hint: Seq<char>, label: Seq<char>)
    requires
        hint.len() + label.len() + 3 <= u16::MAX,
    ensures
        button_text(Some(hint), label) == " "@ + hint + " "@ + label + " "@,
        button_text(None, label) == " "@ + label + " "@,
        button_width(Some(hint), label) == hint.len() + label.len() + 3,
        button_width(None, label) == label.len() + 2,
{
    reveal_strlit(" ");
}

/// A panel is cleared and then framed, in its own colours, and leaves what is
/// inside its frame.
pub proof fn law_panels_are_cleared_and_framed(area: Rect, border: Color, background: Color)
    ensures
        ({
            let ops = panel_plan(area, border, background);
            &&& ops.len() == 2
            &&& ops[0] == OpView::Clear(area)
            &&& ops[1] is Frame && ops[1]->Frame_rect == area && ops[1]->Frame_ink == border
            &&& ops[1]->Frame_paper == Some(background) && !ops[1]->Frame_thick
            &&& panel_inner(area) is Some <==> area.width >= 2 && area.height >= 2
        }),
{
}

/// The close button ends where the title does.
pub proof fn law_the_close_button_ends_the_title(area: Rect)
    requires
        area.wf(),
        area.width >= 11,
    ensures
        close_button(area).x + close_button(area).width == area.x + area.width,
        close_button(area).width == 11,
        close_button(area).y == area.y,
        area.y < u16::MAX ==> close_button(area).height == 1,
{
    reveal_strlit(" ");
    reveal_strlit("esc");
    reveal_strlit("close");
}

/// A row of buttons with room stands in the middle of its area, on the row that
/// was asked for, with the gaps between them and the widths they ask for.
pub proof fn law_button_rows_stand_in_the_middle(
    inner: Rect,
    left: u16,
    right: u16,
    gap: u16,
    row_offset: u16,
)
    requires
        inner.wf(),
        left + gap + right <= inner.width,
        row_offset < inner.height,
    ensures
        ({
            let rects = button_row(inner, seq![left, right], gap as int, row_offset as int);
            let before = rects[0].x - inner.x;
            let behind = inner.x + inner.width - rects[1].x - rects[1].width;
            &&& rects.len() == 2
            &&& rects[0].width == left && rects[1].width == right
            &&& rects[1].x == rects[0].x + left + gap
            &&& before == behind || before + 1 == behind
            &&& rects[0].y == inner.y + row_offset && rects[1].y == inner.y + row_offset
        }),
{
    let widths = seq![left, right];
    assert(widths.drop_last() =~= seq![left]);
    assert(seq![left].drop_last() =~= Seq::<u16>::empty());
    reveal_with_fuel(sum, 3);
    reveal_with_fuel(button_x, 3);
    assert(sum(widths) == left + right);
    assert(gap * 1 == gap) by (nonlinear_arith);
}

/// A dialog in an area with room for it stands in the middle, is cleared and framed,
/// and has all but its frame inside; without room there is neither.
pub proof fn law_dialogs_have_an_inside(area: Rect, popup_w: int, popup_h: int, p: Palette)
    requires
        area.wf(),
        4 <= popup_w,
        4 <= popup_h,
    ensures
        ({
            let inner = modal_inner(area, popup_w, popup_h);
            let drawn = modal_plan(area, popup_w, popup_h, p);
            let room = area.width >= 8 && area.height >= 6;
            &&& inner is Some <==> room
            &&& room ==> {
                let dialog = drawn[0]->Clear_0;
                &&& drawn.len() == 2
                &&& drawn[0] is Clear && drawn[1] is Frame && drawn[1]->Frame_rect == dialog
                &&& drawn[1]->Frame_ink == p.accent && drawn[1]->Frame_paper == Some(p.panel_bg)
                &&& inner->0.x == dialog.x + 1 && inner->0.y == dialog.y + 1
                &&& inner->0.width == dialog.width - 2 && inner->0.height == dialog.height - 2
                &&& popup_w <= area.width - 4 ==> dialog.width == popup_w
                &&& popup_w > area.width - 4 ==> dialog.width == area.width - 4
                &&& popup_h <= area.height - 2 ==> dialog.height == popup_h
                &&& popup_h > area.height - 2 ==> dialog.height == area.height - 2
                &&& dialog.x == area.x + (area.width - dialog.width) / 2
                &&& dialog.y == area.y + (area.height - dialog.height) / 2
            }
            &&& !room ==> drawn.len() == 0
        }),
{
}

/// The default button stands out in the accent colour, the others do not, and what
/// lies behind a dialog is dimmed.
pub proof fn law_the_default_button_stands_out(
    contrast: Color,
    p: Palette,
    first: Style,
    other: Style,
    drawn: &mut Plan,
    area: Rect,
)
    ensures
        call_ensures(primary, (contrast, p), first) ==> first.bold && first.fg == Some(contrast)
            && first.bg == Some(p.accent),
        call_ensures(secondary, (p,), other) ==> other.bold && other.fg == Some(p.text) && other.bg
            == Some(p.surface0),
        call_ensures(dim_background, (drawn, area), ()) ==> final(drawn)@.len() == old(drawn)@.len()
            + 1 && final(drawn)@.last() == OpView::Dim(area),
{
}

/// A stack of rows has its header first and its content after a gap; a footer and
/// buttons follow after a gap each, where they have rows.
pub proof fn law_dialogs_are_stacked_in_order(header: u16, footer: u16, actions: u16, gap: u16)
    ensures
        ({
            let rows = stack_extents(header, footer, actions, gap);
            &&& rows[0] == Extent::Length(header)
            &&& rows[1] == Extent::Length(gap)
            &&& rows[2] == Extent::Min(0)
            &&& footer > 0 ==> rows[3] == Extent::Length(gap) && rows[4] == Extent::Length(footer)
            &&& actions > 0 ==> rows.last() == Extent::Length(actions) && rows[rows.len() - 2]
                == Extent::Length(gap)
            &&& rows.len() == 3 + (if footer > 0 { 2int } else { 0int }) + (if actions > 0 {
                2int
            } else {
                0int
            })
        }),
{
}

/// A button shows its key and what it does in the middle of its place, on one line.
pub proof fn law_buttons_are_drawn_in_the_middle(
    rect: Rect,
    hint: Seq<char>,
    label: Seq<char>,
    style: Style,
)
    ensures
        button_at(rect, Some(hint), label, style) == (OpView::Text {
            rect,
            lines: plan::paragraph_lines(" "@ + hint + " "@ + label + " "@),
            style,
            align: Align::Center,
            wrap: false,
            scroll: 0,
        }),
{
}

} // verus!
