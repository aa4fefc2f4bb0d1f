//! Notices over everything else: toasts and configuration warnings.

use vstd::prelude::*;

use crate::geometry;
use crate::geometry::Rect;
use crate::server::notifications::{ToastKind, ToastNotification};
use crate::text;
use crate::ui::plan;
use crate::ui::plan::{bold, ink, ink_on, plain, Color, Line, Op, OpView, Palette, Plan};
use crate::ui::release_notes;
use crate::ui::widgets;

verus! {

/// The colour of a toast's dot.
pub open spec fn dot_color(kind: ToastKind, p: Palette) -> Color {
    match kind {
        ToastKind::NeedsAttention => p.red,
        ToastKind::Finished => p.blue,
        ToastKind::UpdateInstalled => p.accent,
    }
}

/// The bytes of the longer line of a toast.
pub open spec fn toast_bytes(toast: ToastNotification) -> nat {
    geometry::most(text::byte_len(toast.title@), text::byte_len(toast.context@))
}

/// Where a toast stands: in the lower right corner, above a warning.
pub open spec fn toast_area(toast: ToastNotification, area: Rect, above_warning: bool) -> Rect {
    let width = geometry::least(
        widgets::sat((toast_bytes(toast) as u16) + 4 + 2),
        area.width as int,
    );
    let height = geometry::least(4, area.height as int);
    geometry::rect(
        area.x + area.width - width,
        area.y + geometry::less(
            area.height as int,
            height + if above_warning {
                1int
            } else {
                0
            },
        ),
        width,
        height,
    )
}

/// Drawing the frame of a toast.
pub open spec fn toast_frame(rect: Rect, p: Palette) -> Seq<OpView> {
    plan::idle().push(OpView::Clear(rect)).push(
        OpView::Frame { rect, ink: p.overlay0, thick: false, paper: Some(p.panel_bg) },
    )
}

/// Drawing the text of a toast in its rows.
pub open spec fn toast_text(toast: ToastNotification, rows: Seq<Rect>, p: Palette) -> Seq<OpView> {
    plan::idle().push(
        plan::line_at(
            rows[0],
            plan::blank().push(plan::span("●"@, ink(dot_color(toast.kind, p)))).push(
                plan::span(" "@, plain()),
            ).push(plan::span(toast.title@, bold(ink(p.text)))),
        ),
    ).push(
        plan::line_at(
            rows[1],
            plan::blank().push(plan::span("  "@, ink(p.overlay0))).push(
                plan::span(toast.context@, ink(p.overlay0)),
            ),
        ),
    )
}

/// Draw the text of a toast in its rows.
pub fn draw_toast_text(toast: &ToastNotification, rows: &Vec<Rect>, p: &Palette) -> (drawn: Plan)
    requires
        rows@.len() == 2,
    ensures
        drawn@ == toast_text(*toast, rows@, *p),
{
    let color = match toast.kind {
        ToastKind::NeedsAttention => p.red,
        ToastKind::Finished => p.blue,
        ToastKind::UpdateInstalled => p.accent,
    };
    let mut drawn = Plan::new();
    drawn.line(
        rows[0],
        Line::of("●", ink(color)).with(" ", plain()).with(
            toast.title.as_str(),
            bold(ink(p.text)),
        ),
    );
    drawn.line(
        rows[1],
        Line::of("  ", ink(p.overlay0)).with(toast.context.as_str(), ink(p.overlay0)),
    );
    drawn
}

/// Draw a toast. Too small an area shows its frame only.
pub fn render_toast_notification(
    area: Rect,
    toast: &ToastNotification,
    offset_for_warning: bool,
    p: &Palette,
) -> (drawn: Plan)
    requires
        area.wf(),
        (toast_bytes(*toast) as u16) + 4 <= u16::MAX,
    ensures
        ({
            let rect = toast_area(*toast, area, offset_for_warning);
            let inner = rect.framed();
            if inner.height >= 2 {
                exists|rows: Seq<Rect>| #[trigger]
                    widgets::rows_of(inner, release_notes::single_rows(2), rows) && drawn@
                        == toast_frame(rect, *p) + toast_text(*toast, rows, *p)
            } else {
                drawn@ == toast_frame(rect, *p)
            }
        }),
{
    let title: u128 = text::bytes_in(toast.title.as_str());
    let context: u128 = text::bytes_in(toast.context.as_str());
    let bytes: u128 = if title < context {
        context
    } else {
        title
    };
    #[verifier::truncate]
    let content: u16 = bytes as u16;
    let width: u16 = geometry::smaller((content + 4).saturating_add(2), area.width);
    let height: u16 = geometry::smaller(4, area.height);
    let above: u16 = if offset_for_warning {
        1
    } else {
        0
    };
    let x: u16 = area.x + (area.width - width);
    let y: u16 = area.y + area.height.saturating_sub(height + above);
    let rect = Rect::new(x, y, width, height);
    let mut drawn = Plan::new();
    drawn.push(Op::Clear(rect));
    drawn.push(
        Op::Frame { rect, ink: p.overlay0, thick: false, paper: Some(p.panel_bg) },
    );
    let inner = rect.inner();
    if inner.height < 2 {
        return drawn;
    }
    let rows = release_notes::divide_single_rows(inner, 2);
    drawn.append(draw_toast_text(toast, &rows, p));
    drawn
}

/// The text of a warning on the configuration.
pub open spec fn warning_text(message: Seq<char>) -> Seq<char> {
    " config warning: "@ + message + " "@
}

/// Where a warning stands: at the right of the first row.
pub open spec fn warning_area(message: Seq<char>, area: Rect) -> Rect {
    let width = geometry::least(
        (text::byte_len(warning_text(message)) as u16) + 2,
        area.width as int,
    );
    geometry::rect(area.x + area.width - width, area.y as int, width, 1)
}

/// Draw a warning on the configuration.
pub fn render_config_diagnostic(area: Rect, message: &str, p: &Palette) -> (drawn:
    Plan)
    requires
        area.wf(),
        (text::byte_len(warning_text(message@)) as u16) + 2 <= u16::MAX,
    ensures
        drawn@ == plan::idle().push(OpView::Clear(warning_area(message@, area))).push(
            plan::line_at(
                warning_area(message@, area),
                plan::blank().push(
                    plan::span(warning_text(message@), bold(ink_on(p.panel_bg, p.yellow))),
                ),
            ),
        ),
{
    let mut words = " config warning: ".to_owned();
    words.append(message);
    words.append(" ");
    let bytes: u128 = text::bytes_in(words.as_str());
    #[verifier::truncate]
    let wide: u16 = bytes as u16;
    let width: u16 = geometry::smaller(wide + 2, area.width);
    let rect = Rect::new(area.x + (area.width - width), area.y, width, 1);
    let mut drawn = Plan::new();
    drawn.push(Op::Clear(rect));
    drawn.line(rect, Line::of(words.as_str(), bold(ink_on(p.panel_bg, p.yellow))));
    drawn
}

/// A toast stands in the lower right corner, two lines in a frame; above a
/// warning it leaves a row free.
pub proof fn law_toasts_stand_in_the_corner(
    toast: ToastNotification,
    area: Rect,
    above_warning: bool,
)
    requires
        area.wf(),
        area.height >= 5,
        toast_bytes(toast) + 6 <= area.width,
    ensures
        ({
            let rect = toast_area(toast, area, above_warning);
            &&& rect.x + rect.width == area.x + area.width
            &&& rect.width == toast_bytes(toast) + 6
            &&& rect.height == 4
            &&& above_warning ==> rect.y + rect.height + 1 == area.y + area.height
            &&& !above_warning ==> rect.y + rect.height == area.y + area.height
            &&& text::byte_len(toast.title@) <= toast_bytes(toast)
            &&& text::byte_len(toast.context@) <= toast_bytes(toast)
        }),
{
}

/// A toast says its title, behind a dot in the colour of what happened, and its
/// context on the second line.
pub proof fn law_toasts_say_title_and_context(toast: ToastNotification, rows: Seq<Rect>, p: Palette)
    ensures
        ({
            let ops = toast_text(toast, rows, p);
            let color = if toast.kind is NeedsAttention {
                p.red
            } else if toast.kind is Finished {
                p.blue
            } else {
                p.accent
            };
            &&& ops.len() == 2
            &&& ops[0] is Text && ops[0]->Text_rect == rows[0] && ops[0]->Text_lines.len() == 1
            &&& ops[0]->Text_lines[0].len() == 3
            &&& ops[0]->Text_lines[0][0].text == "●"@
            &&& ops[0]->Text_lines[0][0].style.fg == Some(color)
            &&& ops[0]->Text_lines[0][2].text == toast.title@
            &&& ops[1] is Text && ops[1]->Text_rect == rows[1] && ops[1]->Text_lines.len() == 1
            &&& ops[1]->Text_lines[0].len() == 2
            &&& ops[1]->Text_lines[0][1].text == toast.context@
        }),
{
}

/// A warning says what is wrong and stands at the right end of the first row.
pub proof fn law_warnings_stand_at_the_top_right(message: Seq<char>, area: Rect)
    requires
        area.wf(),
        area.height > 0,
        text::byte_len(warning_text(message)) + 2 <= area.width,
    ensures
        ({
            let rect = warning_area(message, area);
            &&& rect.x + rect.width == area.x + area.width
            &&& rect.width == text::byte_len(warning_text(message)) + 2
            &&& rect.y == area.y && rect.height == 1
            &&& warning_text(message) == " config warning: "@ + message + " "@
        }),
{
}

/// A toast is cleared and framed where it stands; a warning about the configuration
/// is cleared and written in bold where it stands.
pub proof fn law_notices_are_cleared_and_drawn(
    rect: Rect,
    area: Rect,
    message: &str,
    p: Palette,
    drawn: Plan,
)
    ensures
        ({
            let frame = toast_frame(rect, p);
            &&& frame.len() == 2
            &&& frame[0] == OpView::Clear(rect)
            &&& frame[1] is Frame && frame[1]->Frame_rect == rect
            &&& frame[1]->Frame_ink == p.overlay0 && frame[1]->Frame_paper == Some(p.panel_bg)
        }),
        call_ensures(render_config_diagnostic, (area, message, &p), drawn) ==> {
            &&& drawn@.len() == 2
            &&& drawn@[0] is Clear && drawn@[1] is Text
            &&& drawn@[1]->Text_rect == drawn@[0]->Clear_0
            &&& drawn@[1]->Text_rect == warning_area(message@, area)
            &&& drawn@[1]->Text_lines[0].len() == 1
            &&& drawn@[1]->Text_lines[0][0].text == warning_text(message@)
            &&& drawn@[1]->Text_lines[0][0].style.bold
            &&& drawn@[1]->Text_lines[0][0].style.bg == Some(p.yellow)
        },
{
}

} // verus!
