//! The dialogs that greet a new user.

use vstd::prelude::*;

use crate::geometry;
use crate::geometry::{Extent, Rect};
use crate::text;
use crate::ui::plan;
use crate::ui::plan::{
    bold, ink, ink_on, plain, Align, Color, Line, Op, OpView, Palette, Plan, SpanView,
};
use crate::ui::release_notes;
use crate::ui::widgets;

verus! {

/// The key that enters navigate mode by default.
pub const ONBOARDING_PREFIX_LABEL: &'static str = "ctrl+b";

/// The rows of a dialog.
#[derive(Debug)]
pub struct DialogLayout {
    /// The parts of the dialog and their gaps.
    pub stack: Vec<Rect>,
    /// The rows of the header.
    pub header: Vec<Rect>,
    /// The rows of the content.
    pub content: Vec<Rect>,
}

/// Whether the inside of a dialog may be divided so: a header of single rows, the
/// content, and actions of one row, with gaps between.
pub open spec fn dialog_rows(
    inner: Rect,
    header: u16,
    content: Seq<Extent>,
    layout: DialogLayout,
) -> bool {
    &&& widgets::stacked(inner, header, 0, 1, 1, layout.stack@)
    &&& widgets::rows_of(
        layout.stack@[0],
        release_notes::single_rows(header as nat),
        layout.header@,
    )
    &&& widgets::rows_of(layout.stack@[2], content, layout.content@)
}

/// Divide the inside of a dialog.
pub fn layout_dialog(inner: Rect, header: u16, content: &Vec<Extent>) -> (layout: DialogLayout)
    requires
        inner.wf(),
    ensures
        dialog_rows(inner, header, content@, layout),
        layout.stack@.len() == 5,
        layout.header@.len() == header,
        layout.content@.len() == content@.len(),
        layout.stack@[4].wf(),
{
    let stack = widgets::modal_stack_rows(inner, header, 0, 1, 1);
    let rows = release_notes::divide_single_rows(stack[0], header);
    let content = widgets::divide_rows(stack[2], content);
    DialogLayout { stack, header: rows, content }
}

/// The button that leaves the greeting.
pub open spec fn continue_rect(area: Rect) -> Rect {
    geometry::rect(
        area.x as int,
        area.y as int,
        widgets::button_width(Some("↵"@), "continue"@) as int,
        1,
    )
}

/// The button that leaves the greeting.
pub fn onboarding_welcome_continue_rect(area: Rect) -> (button: Rect)
    ensures
        button == continue_rect(area),
{
    Rect::new(area.x, area.y, widgets::action_button_width(Some("↵"), "continue"), 1)
}

/// The buttons below the choice of notifications.
pub open spec fn notification_widths() -> Seq<u16> {
    widgets::two_widths("esc"@, "back"@, "↵"@, "start"@)
}

/// The buttons below the choice of notifications.
pub fn onboarding_notification_button_rects(area: Rect) -> (rects: (Rect, Rect))
    requires
        area.wf(),
    ensures
        ({
            let row = widgets::button_row(area, notification_widths(), 2, 0);
            rects == (row[0], row[1])
        }),
{
    proof {
        reveal_strlit(" ");
        reveal_strlit("esc");
        reveal_strlit("back");
        reveal_strlit("↵");
        reveal_strlit("start");
        reveal_with_fuel(widgets::sum, 3);
        let widths = notification_widths();
        assert(widths.drop_last().drop_last().len() == 0);
        assert(widgets::sum(widths) == widths[0] + widths[1]);
    }
    widgets::two_button_rects(area, ("esc", "back"), ("↵", "start"), 0)
}

/// What the greeting says of the mouse.
pub open spec fn mouse_lines() -> Seq<Seq<SpanView>> {
    seq![
        plan::blank().push(plan::span("  this is a mouse-first terminal."@, plain())),
        plan::blank().push(
            plan::span("  click the sidebar to switch workspaces, drag pane"@, plain()),
        ),
        plan::blank().push(
            plan::span("  borders to resize, right-click for context menus."@, plain()),
        ),
    ]
}

/// Drawing the greeting.
pub open spec fn welcome_plan(layout: DialogLayout, p: Palette, contrast: Color) -> Seq<OpView> {
    let key = bold(ink(p.accent));
    plan::idle().push(
        plan::text_at(layout.header@[0], "  herdr"@, bold(ink(p.text))),
    ).push(
        plan::text_at(
            layout.header@[1],
            "  terminal workspace manager for coding agents"@,
            ink(p.overlay0),
        ),
    ).push(
        OpView::Text {
            rect: layout.content@[0],
            lines: mouse_lines(),
            style: ink(p.overlay1),
            align: Align::Left,
            wrap: false,
            scroll: 0,
        },
    ).push(
        plan::line_at(
            layout.content@[2],
            plan::blank().push(plan::span("  "@, plain())).push(
                plan::span(ONBOARDING_PREFIX_LABEL@, key),
            ).push(plan::span(" enters navigate mode · "@, ink(p.overlay1))).push(
                plan::span("?"@, key),
            ).push(plan::span(" shows keybinds and settings"@, ink(p.overlay1))),
        ),
    ).push(
        widgets::button_at(
            continue_rect(layout.stack@[4]),
            Some("↵"@),
            "continue"@,
            widgets::primary(contrast, p),
        ),
    )
}

/// Draw the greeting in the rows of its dialog.
pub fn draw_onboarding_welcome(layout: &DialogLayout, p: &Palette, contrast: Color) -> (drawn: Plan)
    requires
        layout.stack@.len() == 5,
        layout.header@.len() == 2,
        layout.content@.len() == 4,
    ensures
        drawn@ == welcome_plan(*layout, *p, contrast),
{
    let mut drawn = Plan::new();
    drawn.text(layout.header[0], "  herdr", bold(ink(p.text)));
    drawn.text(
        layout.header[1],
        "  terminal workspace manager for coding agents",
        ink(p.overlay0),
    );
    let mut lines: Vec<Line> = Vec::new();
    lines.push(Line::of("  this is a mouse-first terminal.", plain()));
    lines.push(Line::of("  click the sidebar to switch workspaces, drag pane", plain()));
    lines.push(Line::of("  borders to resize, right-click for context menus.", plain()));
    assert(plan::lines_view(lines@) =~= mouse_lines());
    drawn.push(
        Op::Text {
            rect: layout.content[0],
            lines,
            style: ink(p.overlay1),
            align: Align::Left,
            wrap: false,
            scroll: 0,
        },
    );
    let key = bold(ink(p.accent));
    drawn.line(
        layout.content[2],
        Line::of("  ", plain()).with(ONBOARDING_PREFIX_LABEL, key).with(
            " enters navigate mode · ",
            ink(p.overlay1),
        ).with("?", key).with(" shows keybinds and settings", ink(p.overlay1)),
    );
    widgets::render_action_button(
        &mut drawn,
        onboarding_welcome_continue_rect(layout.stack[4]),
        Some("↵"),
        "continue",
        widgets::primary(contrast, *p),
    );
    drawn
}

/// What the content of the greeting asks for.
pub open spec fn welcome_extents() -> Seq<Extent> {
    seq![Extent::Length(3), Extent::Length(1), Extent::Length(1), Extent::Min(0)]
}

/// Whether a dialog has so many rows inside.
pub open spec fn tall(inner: Option<Rect>, rows: int) -> bool {
    inner matches Some(inner) && inner.height >= rows
}

/// Whether this draws the greeting in a dialog, where it has room.
pub open spec fn welcomes(area: Rect, p: Palette, contrast: Color, drawn: Seq<OpView>) -> bool {
    let inner = widgets::modal_inner(area, 64, 16);
    let shell = widgets::modal_plan(area, 64, 16, p);
    if tall(inner, 11) {
        exists|layout: DialogLayout| #[trigger]
            dialog_rows(inner->0, 2, welcome_extents(), layout) && drawn == shell + welcome_plan(
                layout,
                p,
                contrast,
            )
    } else {
        drawn == shell
    }
}

/// Draw the greeting in a dialog, where it has room.
pub fn render_onboarding_welcome(area: Rect, p: &Palette, contrast: Color) -> (drawn: Plan)
    requires
        area.wf(),
    ensures
        welcomes(area, *p, contrast, drawn@),
{
    let mut drawn = Plan::new();
    let inner = widgets::render_modal_shell(&mut drawn, area, 64, 16, p);
    assert(drawn@ =~= widgets::modal_plan(area, 64, 16, *p));
    match inner {
        Some(inner) => {
            if inner.height < 11 {
                return drawn;
            }
            let mut extents: Vec<Extent> = Vec::new();
            extents.push(Extent::Length(3));
            extents.push(Extent::Length(1));
            extents.push(Extent::Length(1));
            extents.push(Extent::Min(0));
            assert(extents@ =~= welcome_extents());
            let layout = layout_dialog(inner, 2, &extents);
            drawn.append(draw_onboarding_welcome(&layout, p, contrast));
            drawn
        },
        None => drawn,
    }
}

/// The ways of being notified.
pub open spec fn option_text(i: int) -> Seq<char> {
    if i == 0 {
        "quiet        no interruptions"@
    } else if i == 1 {
        "visual only  top-right toasts"@
    } else if i == 2 {
        "sound only   sound alerts"@
    } else {
        "both         sound and toasts"@
    }
}

fn option_label(i: usize) -> (label: &'static str)
    ensures
        label@ == option_text(i as int),
{
    if i == 0 {
        "quiet        no interruptions"
    } else if i == 1 {
        "visual only  top-right toasts"
    } else if i == 2 {
        "sound only   sound alerts"
    } else {
        "both         sound and toasts"
    }
}

/// Drawing the first ways of being notified; the selected one is marked.
pub open spec fn options_plan(
    rows: Seq<Rect>,
    selected: int,
    n: int,
    p: Palette,
    contrast: Color,
) -> Seq<OpView>
    decreases n,
{
    if n <= 0 {
        plan::idle()
    } else {
        let i = n - 1;
        let mark = if i == selected {
            "›"@
        } else {
            " "@
        };
        options_plan(rows, selected, i, p, contrast).push(
            plan::text_at(
                rows[i],
                " "@ + mark + " "@ + text::decimal(n as nat) + ". "@ + option_text(i),
                if i == selected {
                    ink_on(contrast, p.accent)
                } else {
                    ink(p.text)
                },
            ),
        )
    }
}

/// Drawing the choice of notifications.
pub open spec fn notifications_plan(
    layout: DialogLayout,
    selected: int,
    p: Palette,
    contrast: Color,
) -> Seq<OpView> {
    let buttons = widgets::button_row(layout.stack@[4], notification_widths(), 2, 0);
    (plan::idle().push(
        widgets::header_at(layout.header@[0], "notification style"@, p),
    ).push(
        plan::text_at(
            layout.header@[1],
            " herdr watches background panes and can alert you"@,
            ink(p.overlay1),
        ),
    ).push(
        plan::text_at(
            layout.header@[2],
            " when agents finish or need attention."@,
            ink(p.overlay1),
        ),
    ) + options_plan(layout.content@, selected, 4, p, contrast)).push(
        widgets::button_at(buttons[0], Some("esc"@), "back"@, widgets::secondary(p)),
    ).push(
        widgets::button_at(buttons[1], Some("↵"@), "start"@, widgets::primary(contrast, p)),
    )
}

/// Draw the choice of notifications in the rows of its dialog.
pub fn draw_onboarding_notifications(
    layout: &DialogLayout,
    selected: usize,
    p: &Palette,
    contrast: Color,
) -> (drawn: Plan)
    requires
        layout.stack@.len() == 5,
        layout.stack@[4].wf(),
        layout.header@.len() == 3,
        layout.content@.len() == 5,
    ensures
        drawn@ == notifications_plan(*layout, selected as int, *p, contrast),
{
    let mut drawn = Plan::new();
    widgets::render_modal_header(&mut drawn, layout.header[0], "notification style", p);
    drawn.text(
        layout.header[1],
        " herdr watches background panes and can alert you",
        ink(p.overlay1),
    );
    drawn.text(layout.header[2], " when agents finish or need attention.", ink(p.overlay1));
    let ghost headed = drawn@;
    let mut i: usize = 0;
    assert(headed + options_plan(layout.content@, selected as int, 0, *p, contrast) =~= headed);
    while i < 4
        invariant
            layout.content@.len() == 5,
            i <= 4,
            drawn@ == headed + options_plan(
                layout.content@,
                selected as int,
                i as int,
                *p,
                contrast,
            ),
        decreases 4 - i,
    {
        let chosen = i == selected;
        let mut label = " ".to_owned();
        label.append(
            if chosen {
                "›"
            } else {
                " "
            },
        );
        label.append(" ");
        label.append(text::decimal_text(i as u64 + 1).as_str());
        label.append(". ");
        label.append(option_label(i));
        let style = if chosen {
            ink_on(contrast, p.accent)
        } else {
            ink(p.text)
        };
        drawn.text(layout.content[i], label.as_str(), style);
        i = i + 1;
        assert(drawn@ =~= headed + options_plan(
            layout.content@,
            selected as int,
            i as int,
            *p,
            contrast,
        ));
    }
    let (back, start) = onboarding_notification_button_rects(layout.stack[4]);
    widgets::render_action_button(
        &mut drawn,
        back,
        Some("esc"),
        "back",
        widgets::secondary(*p),
    );
    widgets::render_action_button(
        &mut drawn,
        start,
        Some("↵"),
        "start",
        widgets::primary(contrast, *p),
    );
    drawn
}

/// What the content of the choice asks for.
pub open spec fn option_extents() -> Seq<Extent> {
    seq![
        Extent::Length(1),
        Extent::Length(1),
        Extent::Length(1),
        Extent::Length(1),
        Extent::Min(0),
    ]
}

/// Four rows, and what is left.
pub fn four_rows_and_rest() -> (extents: Vec<Extent>)
    ensures
        extents@ == option_extents(),
{
    let mut extents: Vec<Extent> = Vec::new();
    extents.push(Extent::Length(1));
    extents.push(Extent::Length(1));
    extents.push(Extent::Length(1));
    extents.push(Extent::Length(1));
    extents.push(Extent::Min(0));
    assert(extents@ =~= option_extents());
    extents
}

/// Whether this draws the choice of notifications in a dialog, where it has room.
pub open spec fn offers_notifications(
    area: Rect,
    selected: int,
    p: Palette,
    contrast: Color,
    drawn: Seq<OpView>,
) -> bool {
    let inner = widgets::modal_inner(area, 56, 14);
    let shell = widgets::modal_plan(area, 56, 14, p);
    if tall(inner, 11) {
        exists|layout: DialogLayout| #[trigger]
            dialog_rows(inner->0, 3, option_extents(), layout) && drawn == shell
                + notifications_plan(layout, selected, p, contrast)
    } else {
        drawn == shell
    }
}

/// Draw the choice of notifications in a dialog, where it has room.
pub fn render_onboarding_notifications(
    area: Rect,
    selected: usize,
    p: &Palette,
    contrast: Color,
) -> (drawn: Plan)
    requires
        area.wf(),
    ensures
        offers_notifications(area, selected as int, *p, contrast, drawn@),
{
    let mut drawn = Plan::new();
    let inner = widgets::render_modal_shell(&mut drawn, area, 56, 14, p);
    assert(drawn@ =~= widgets::modal_plan(area, 56, 14, *p));
    match inner {
        Some(inner) => {
            if inner.height < 11 {
                return drawn;
            }
            let layout = layout_dialog(inner, 3, &four_rows_and_rest());
            drawn.append(draw_onboarding_notifications(&layout, selected, p, contrast));
            drawn
        },
        None => drawn,
    }
}

/// Draw the dialog of a step of the greeting over dimmed cells: the welcome first,
/// and then the choice of notifications.
pub fn render_onboarding_overlay(
    step: usize,
    selected: usize,
    area: Rect,
    p: &Palette,
    contrast: Color,
) -> (drawn: Plan)
    requires
        area.wf(),
    ensures
        drawn@.len() > 0 && drawn@[0] == OpView::Dim(area),
        if step == 0 {
            welcomes(area, *p, contrast, drawn@.drop_first())
        } else {
            offers_notifications(area, selected as int, *p, contrast, drawn@.drop_first())
        },
{
    let mut drawn = Plan::new();
    widgets::dim_background(&mut drawn, area);
    let dialog = if step == 0 {
        render_onboarding_welcome(area, p, contrast)
    } else {
        render_onboarding_notifications(area, selected, p, contrast)
    };
    let ghost inside = dialog@;
    drawn.append(dialog);
    assert(drawn@.drop_first() =~= inside);
    drawn
}

/// Each way of being notified stands on its own row under its number, and only
/// the selected one is marked and stands out.
pub proof fn law_choices_stand_in_order(
    rows: Seq<Rect>,
    selected: int,
    n: int,
    i: int,
    p: Palette,
    contrast: Color,
)
    requires
        0 <= i < n <= 4,
        rows.len() >= n,
    ensures
        ({
            let op = options_plan(rows, selected, n, p, contrast)[i];
            let choice = if i == 0 {
                "quiet        no interruptions"@
            } else if i == 1 {
                "visual only  top-right toasts"@
            } else if i == 2 {
                "sound only   sound alerts"@
            } else {
                "both         sound and toasts"@
            };
            &&& options_plan(rows, selected, n, p, contrast).len() == n
            &&& op is Text && op->Text_rect == rows[i]
            &&& i == selected ==> op->Text_lines == plan::paragraph_lines(
                " "@ + "›"@ + " "@ + text::decimal((i + 1) as nat) + ". "@ + choice,
            ) && op->Text_style.bg == Some(p.accent) && op->Text_style.fg == Some(contrast)
            &&& i != selected ==> op->Text_lines == plan::paragraph_lines(
                " "@ + " "@ + " "@ + text::decimal((i + 1) as nat) + ". "@ + choice,
            ) && op->Text_style.bg is None && op->Text_style.fg == Some(p.text)
        }),
    decreases n,
{
    if n > 1 {
        if i < n - 1 {
            law_choices_stand_in_order(rows, selected, n - 1, i, p, contrast);
        } else {
            law_choices_stand_in_order(rows, selected, n - 1, 0, p, contrast);
        }
    } else {
        assert(options_plan(rows, selected, 0, p, contrast).len() == 0);
    }
}

/// The choice of notifications shows its title, four choices, and the buttons
/// that go back and start.
pub proof fn law_notifications_are_offered(
    layout: DialogLayout,
    selected: int,
    p: Palette,
    contrast: Color,
)
    requires
        layout.content@.len() >= 4,
    ensures
        ({
            let ops = notifications_plan(layout, selected, p, contrast);
            let choices = options_plan(layout.content@, selected, 4, p, contrast);
            let buttons = widgets::button_row(layout.stack@[4], notification_widths(), 2, 0);
            &&& ops.len() == 9
            &&& ops[0] == widgets::header_at(layout.header@[0], "notification style"@, p)
            &&& forall|i: int| 0 <= i < 4 ==> ops[3 + i] == #[trigger] choices[i]
            &&& ops[7] is Text && ops[7]->Text_rect == buttons[0] && ops[7]->Text_lines
                == plan::paragraph_lines(widgets::button_text(Some("esc"@), "back"@))
            &&& ops[8] is Text && ops[8]->Text_rect == buttons[1] && ops[8]->Text_lines
                == plan::paragraph_lines(widgets::button_text(Some("↵"@), "start"@))
        }),
{
    law_choices_stand_in_order(layout.content@, selected, 4, 0, p, contrast);
}

/// The greeting names the product and the key that enters navigate mode, and its
/// button goes on.
pub proof fn law_the_greeting_goes_on(layout: DialogLayout, p: Palette, contrast: Color)
    ensures
        ({
            let ops = welcome_plan(layout, p, contrast);
            &&& ops.len() == 5
            &&& ops[0] is Text && ops[0]->Text_rect == layout.header@[0] && ops[0]->Text_lines
                == plan::paragraph_lines("  herdr"@)
            &&& ops[2] is Text && ops[2]->Text_rect == layout.content@[0] && ops[2]->Text_lines
                == mouse_lines()
            &&& ops[3] is Text && ops[3]->Text_rect == layout.content@[2]
                && ops[3]->Text_lines[0][1].text == ONBOARDING_PREFIX_LABEL@
                && ops[3]->Text_lines[0][3].text == "?"@
            &&& ops[4] is Text && ops[4]->Text_rect.x == layout.stack@[4].x
                && ops[4]->Text_rect.y == layout.stack@[4].y && ops[4]->Text_lines
                == plan::paragraph_lines(widgets::button_text(Some("↵"@), "continue"@))
        }),
{
}

/// The greeting and the choice of notifications are drawn in their dialogs, which
/// stay empty where they have fewer than eleven rows inside.
pub proof fn law_greetings_need_eleven_rows(
    area: Rect,
    selected: usize,
    p: Palette,
    contrast: Color,
    welcome: Plan,
    offer: Plan,
)
    ensures
        call_ensures(render_onboarding_welcome, (area, &p, contrast), welcome) ==> {
            let inner = widgets::modal_inner(area, 64, 16);
            let shell = widgets::modal_plan(area, 64, 16, p);
            let room = inner is Some && inner->0.height >= 11;
            &&& welcome@.take(shell.len() as int) == shell
            &&& room ==> welcome@.len() == shell.len() + 5
            &&& !room ==> welcome@.len() == shell.len()
        },
        call_ensures(render_onboarding_notifications, (area, selected, &p, contrast), offer) ==> {
            let inner = widgets::modal_inner(area, 56, 14);
            let shell = widgets::modal_plan(area, 56, 14, p);
            let room = inner is Some && inner->0.height >= 11;
            &&& offer@.take(shell.len() as int) == shell
            &&& room ==> offer@.len() > shell.len()
            &&& !room ==> offer@.len() == shell.len()
        },
{
    let first = widgets::modal_plan(area, 64, 16, p);
    let second = widgets::modal_plan(area, 56, 14, p);
    if call_ensures(render_onboarding_welcome, (area, &p, contrast), welcome) {
        assert(welcomes(area, p, contrast, welcome@));
        assert(welcome@.take(first.len() as int) =~= first);
    }
    if call_ensures(render_onboarding_notifications, (area, selected, &p, contrast), offer) {
        assert(offers_notifications(area, selected as int, p, contrast, offer@));
        assert(offer@.take(second.len() as int) =~= second);
    }
}

} // verus!
