//! Release notes: a small markup, and the dialog that shows them.

use vstd::prelude::*;

use crate::geometry;
use crate::geometry::{Extent, Rect};
use crate::lines;
use crate::text;
use crate::ui::plan;
use crate::ui::plan::{
    bold, ink, ink_on, plain, Align, Color, Line, Op, OpView, Palette, Plan, SpanView, Style,
};
use crate::ui::scrollbar;
use crate::ui::scrollbar::{ScrollMetrics, ScrollbarThumb};
use crate::ui::widgets;

verus! {

/// A line of the notes and the number of its characters.
#[derive(Debug)]
pub struct NoteLine {
    pub width: usize,
    pub line: Line,
}

/// A line of the notes, for contracts.
pub struct NoteLineView {
    pub width: usize,
    pub spans: Seq<SpanView>,
}

impl NoteLine {
    pub open spec fn view(&self) -> NoteLineView {
        NoteLineView { width: self.width, spans: self.line@ }
    }
}

/// Lines of the notes, for contracts.
pub open spec fn notes_view(notes: Seq<NoteLine>) -> Seq<NoteLineView> {
    notes.map_values(|note: NoteLine| note@)
}

/// A number of characters, as far as it can be counted.
pub open spec fn counted(n: nat) -> usize {
    if n <= usize::MAX {
        n as usize
    } else {
        usize::MAX
    }
}

/// The number of characters of a line.
pub open spec fn characters(spans: Seq<SpanView>) -> nat
    decreases spans.len(),
{
    if spans.len() == 0 {
        0
    } else {
        characters(spans.drop_last()) + spans.last().text.len()
    }
}

proof fn lemma_characters(a: Seq<SpanView>, b: Seq<SpanView>)
    ensures
        characters(a + b) == characters(a) + characters(b),
    decreases b.len(),
{
    if b.len() == 0 {
        assert(a + b =~= a);
    } else {
        lemma_characters(a, b.drop_last());
        assert((a + b).drop_last() =~= a + b.drop_last());
    }
}

/// Text with code between backquotes. A backquote without a second one stands for
/// itself.
pub open spec fn marked_up(text: Seq<char>, base: Style, code: Style) -> Seq<SpanView>
    decreases text.len(),
{
    proof {
        lines::lemma_first_at(text, '`');
    }
    match lines::first_at(text, '`') {
        None => if text.len() > 0 {
            plan::blank().push(plan::span(text, base))
        } else {
            plan::blank()
        },
        Some(i) => {
            let before = if i > 0 {
                plan::blank().push(plan::span(text.take(i), base))
            } else {
                plan::blank()
            };
            let rest = text.skip(i + 1);
            proof {
                lines::lemma_first_at(rest, '`');
            }
            match lines::first_at(rest, '`') {
                None => before.push(plan::span("`"@ + rest, base)),
                Some(j) => {
                    let coded = if j > 0 {
                        before.push(plan::span(rest.take(j), code))
                    } else {
                        before
                    };
                    coded + marked_up(rest.skip(j + 1), base, code)
                },
            }
        },
    }
}

/// Text with code between backquotes, as a line: at least one span.
pub open spec fn inline_spans(text: Seq<char>, base: Style, code: Style) -> Seq<SpanView> {
    let spans = marked_up(text, base, code);
    if spans.len() == 0 {
        plan::blank().push(plan::span(""@, base))
    } else {
        spans
    }
}

fn extended(marked: NoteLine, text: &str, style: Style) -> (more: NoteLine)
    requires
        marked.width == counted(characters(marked.line@)),
    ensures
        more.line@ == marked.line@.push(plan::span(text@, style)),
        more.width == counted(characters(more.line@)),
{
    let width: usize = marked.width.saturating_add(text.unicode_len());
    let ghost before = marked.line@;
    let line = marked.line.with(text, style);
    assert(line@.drop_last() =~= before);
    NoteLine { width, line }
}

/// Mark the code between backquotes in a text, and count the characters shown.
pub fn release_notes_inline_spans(text: &str, base: Style, code: Style) -> (marked: NoteLine)
    ensures
        marked.line@ == inline_spans(text@, base, code),
        marked.width == counted(characters(marked.line@)),
{
    let n: usize = text.unicode_len();
    let mut marked = NoteLine { width: 0, line: Line::new() };
    let mut start: usize = 0;
    let mut done = false;
    assert(text@.skip(0) =~= text@);
    while !done
        invariant
            start <= n,
            n == text@.len(),
            marked_up(text@, base, code) == if done {
                marked.line@
            } else {
                marked.line@ + marked_up(text@.skip(start as int), base, code)
            },
            marked.width == counted(characters(marked.line@)),
        decreases n - start, (if done { 0int } else { 1int }),
    {
        let ghost rest = text@.skip(start as int);
        let ghost all = marked_up(text@, base, code);
        proof {
            lines::lemma_first_at(rest, '`');
        }
        match lines::find_from(text, start, '`') {
            None => {
                if start < n {
                    let tail = lines::between(text, start, n);
                    assert(tail@ =~= rest);
                    marked = extended(marked, tail.as_str(), base);
                }
                assert(all =~= marked.line@);
                done = true;
            },
            Some(open) => {
                let ghost i = open - start;
                if open > start {
                    let before = lines::between(text, start, open);
                    assert(before@ =~= rest.take(i));
                    marked = extended(marked, before.as_str(), base);
                }
                let ghost inside = rest.skip(i + 1);
                assert(inside =~= text@.skip(open + 1));
                proof {
                    lines::lemma_first_at(inside, '`');
                }
                match lines::find_from(text, open + 1, '`') {
                    None => {
                        let mut literal = "`".to_owned();
                        let tail = lines::between(text, open + 1, n);
                        assert(tail@ =~= inside);
                        literal.append(tail.as_str());
                        marked = extended(marked, literal.as_str(), base);
                        assert(all =~= marked.line@);
                        done = true;
                    },
                    Some(close) => {
                        let ghost j = close - (open + 1);
                        if close > open + 1 {
                            let coded = lines::between(text, open + 1, close);
                            assert(coded@ =~= inside.take(j));
                            marked = extended(marked, coded.as_str(), code);
                        }
                        assert(inside.skip(j + 1) =~= text@.skip(close + 1));
                        assert(all =~= marked.line@ + marked_up(
                            text@.skip(close + 1),
                            base,
                            code,
                        ));
                        start = close + 1;
                    },
                }
            },
        }
    }
    if marked.line.spans.len() == 0 {
        assert(marked.line@ =~= plan::blank());
        marked = extended(marked, "", base);
    }
    marked
}

/// Whether a line begins or ends a block of code.
pub open spec fn is_fence(line: Seq<char>) -> bool {
    "```"@.is_prefix_of(lines::start_trimmed(line))
}

/// The style of code in text.
#[verifier::allow_in_spec]
pub fn code_style(p: Palette) -> Style
    returns
        bold(ink_on(p.accent, p.surface0)),
{
    bold(ink_on(p.accent, p.surface0))
}

/// A line of a block of code.
pub open spec fn code_line(line: Seq<char>, p: Palette) -> NoteLineView {
    let gutter = plan::blank().push(plan::span("▏"@, ink_on(p.accent, p.surface1))).push(
        plan::span(" "@, ink_on(p.text, p.surface1)),
    );
    NoteLineView {
        width: counted(2 + line.len()),
        spans: if line.len() > 0 {
            gutter.push(plan::span(line, ink_on(p.text, p.surface1)))
        } else {
            gutter
        },
    }
}

/// An empty line.
pub open spec fn empty_note() -> NoteLineView {
    NoteLineView { width: 0, spans: plan::blank() }
}

/// A line with something before its text.
pub open spec fn led(lead: SpanView, indent: nat, spans: Seq<SpanView>) -> NoteLineView {
    NoteLineView {
        width: counted(indent + characters(spans)),
        spans: plan::blank().push(lead) + spans,
    }
}

/// A line outside blocks of code: a heading, an item or text.
pub open spec fn text_note(line: Seq<char>, p: Palette) -> NoteLineView {
    if line.len() == 0 {
        empty_note()
    } else if "### "@.is_prefix_of(line) {
        let heading = lines::end_trimmed(lines::start_trimmed(line.skip("### "@.len() as int)));
        if heading.len() == 0 {
            empty_note()
        } else {
            NoteLineView {
                width: counted(1 + heading.len()),
                spans: plan::blank().push(plan::span(" "@, plain())).push(
                    plan::span(lines::uppercased(heading), bold(ink(p.accent))),
                ),
            }
        }
    } else if "- "@.is_prefix_of(line) {
        led(
            plan::span(" • "@, ink(p.accent)),
            3,
            inline_spans(line.skip("- "@.len() as int), ink(p.text), code_style(p)),
        )
    } else {
        led(plan::span(" "@, plain()), 1, inline_spans(line, ink(p.text), code_style(p)))
    }
}

/// The lines of the notes, from the lines of their text; tells whether they begin
/// in a block of code.
pub open spec fn notes_from(raw: Seq<Seq<char>>, fenced: bool, p: Palette) -> Seq<NoteLineView>
    decreases raw.len(),
{
    if raw.len() == 0 {
        Seq::empty()
    } else {
        let line = lines::end_trimmed(raw[0]);
        if is_fence(line) {
            notes_from(raw.drop_first(), !fenced, p)
        } else if fenced {
            seq![code_line(line, p)] + notes_from(raw.drop_first(), fenced, p)
        } else {
            seq![text_note(line, p)] + notes_from(raw.drop_first(), fenced, p)
        }
    }
}

/// The lines of release notes: headings in capitals, items, text with code in it,
/// and blocks of code between fences.
pub fn release_notes_lines(body: &str, p: &Palette) -> (notes: Vec<NoteLine>)
    ensures
        notes_view(notes@) == notes_from(lines::lines_of(body@), false, *p),
{
    let raw = lines::split_lines(body);
    let ghost all = lines::texts(raw@);
    let mut notes: Vec<NoteLine> = Vec::new();
    let mut fenced = false;
    let mut i: usize = 0;
    assert(all.skip(0) =~= all);
    assert(notes_view(notes@) =~= Seq::<NoteLineView>::empty());
    assert(notes_view(notes@) + notes_from(all, false, *p) =~= notes_from(all, false, *p));
    while i < raw.len()
        invariant
            all == lines::texts(raw@),
            i <= raw@.len(),
            notes_from(all, false, *p) == notes_view(notes@) + notes_from(
                all.skip(i as int),
                fenced,
                *p,
            ),
        decreases raw@.len() - i,
    {
        let ghost before = notes_view(notes@);
        let ghost rest = all.skip(i as int);
        assert(rest[0] == raw@[i as int]@);
        assert(rest.drop_first() =~= all.skip(i + 1));
        let line = lines::trim_end(raw[i].as_str());
        let lead = lines::trim_start(line.as_str());
        if text::strip_prefix(lead.as_str(), "```").is_some() {
            fenced = !fenced;
        } else {
            let note = if fenced {
                code_note_line(line.as_str(), p)
            } else {
                text_note_line(line.as_str(), p)
            };
            notes.push(note);
            assert(notes_view(notes@) =~= before.push(note@));
            assert(notes_from(all, false, *p) =~= notes_view(notes@) + notes_from(
                all.skip(i + 1),
                fenced,
                *p,
            ));
        }
        i = i + 1;
    }
    assert(all.skip(i as int).len() == 0);
    assert(notes_view(notes@) =~= notes_from(all, false, *p));
    notes
}

fn code_note_line(line: &str, p: &Palette) -> (note: NoteLine)
    ensures
        note@ == code_line(line@, *p),
{
    let style = ink_on(p.text, p.surface1);
    let mut drawn = Line::of("▏", ink_on(p.accent, p.surface1)).with(" ", style);
    let count: usize = line.unicode_len();
    if count > 0 {
        drawn = drawn.with(line, style);
    }
    NoteLine { width: count.saturating_add(2), line: drawn }
}

fn text_note_line(line: &str, p: &Palette) -> (note: NoteLine)
    ensures
        note@ == text_note(line@, *p),
{
    if line.unicode_len() == 0 {
        return NoteLine { width: 0, line: Line::new() };
    }
    if let Some(rest) = text::strip_prefix(line, "### ") {
        let heading = lines::trim_end(lines::trim_start(rest).as_str());
        let count: usize = heading.as_str().unicode_len();
        if count == 0 {
            return NoteLine { width: 0, line: Line::new() };
        }
        let capitals = heading.as_str().to_uppercase();
        return NoteLine {
            width: count.saturating_add(1),
            line: Line::of(" ", plain()).with(capitals.as_str(), bold(ink(p.accent))),
        };
    }
    if let Some(rest) = text::strip_prefix(line, "- ") {
        let marked = release_notes_inline_spans(rest, ink(p.text), code_style(*p));
        return NoteLine {
            width: marked.width.saturating_add(3),
            line: Line::of(" • ", ink(p.accent)).then_line(marked.line),
        };
    }
    let marked = release_notes_inline_spans(line, ink(p.text), code_style(*p));
    NoteLine {
        width: marked.width.saturating_add(1),
        line: Line::of(" ", plain()).then_line(marked.line),
    }
}

/// The width of each line of text counts the characters that it shows.
pub proof fn law_widths_count_what_is_shown(line: Seq<char>, p: Palette)
    requires
        !("### "@.is_prefix_of(line)),
    ensures
        text_note(line, p).width == counted(characters(text_note(line, p).spans)),
        code_line(line, p).width == counted(characters(code_line(line, p).spans)),
{
    reveal_strlit(" ");
    reveal_strlit(" • ");
    reveal_strlit("▏");
    reveal_with_fuel(characters, 4);
    let gutter = plan::blank().push(plan::span("▏"@, ink_on(p.accent, p.surface1))).push(
        plan::span(" "@, ink_on(p.text, p.surface1)),
    );
    assert(gutter.drop_last() =~= plan::blank().push(
        plan::span("▏"@, ink_on(p.accent, p.surface1)),
    ));
    assert(gutter.drop_last().drop_last() =~= plan::blank());
    assert(characters(gutter) == 2);
    if line.len() > 0 {
        let coded = gutter.push(plan::span(line, ink_on(p.text, p.surface1)));
        assert(coded.drop_last() =~= gutter);
        let item = plan::blank().push(plan::span(" • "@, ink(p.accent)));
        let indent = plan::blank().push(plan::span(" "@, plain()));
        assert(item.drop_last() =~= plan::blank());
        assert(indent.drop_last() =~= plan::blank());
        lemma_characters(
            item,
            inline_spans(line.skip("- "@.len() as int), ink(p.text), code_style(p)),
        );
        lemma_characters(indent, inline_spans(line, ink(p.text), code_style(p)));
    }
}

/// A line of plain notes: a heading in small letters, an item or text.
pub open spec fn plain_note(line: Seq<char>, p: Palette) -> NoteLineView {
    if line.len() == 0 {
        empty_note()
    } else if "### "@.is_prefix_of(line) {
        let heading = lines::lowercased(line.skip("### "@.len() as int));
        NoteLineView {
            width: counted(1 + heading.len()),
            spans: plan::blank().push(plan::span(" "@, plain())).push(
                plan::span(heading, bold(ink(p.accent))),
            ),
        }
    } else if "- "@.is_prefix_of(line) {
        let item = line.skip("- "@.len() as int);
        NoteLineView {
            width: counted(3 + item.len()),
            spans: plan::blank().push(plan::span(" • "@, ink(p.accent))).push(
                plan::span(item, ink(p.text)),
            ),
        }
    } else {
        NoteLineView {
            width: counted(1 + line.len()),
            spans: plan::blank().push(plan::span(" "@, plain())).push(
                plan::span(line, ink(p.text)),
            ),
        }
    }
}

/// The lines of plain notes.
pub open spec fn plain_notes(raw: Seq<Seq<char>>, p: Palette) -> Seq<NoteLineView> {
    raw.map_values(|line: Seq<char>| plain_note(lines::end_trimmed(line), p))
}

fn plain_note_line(line: &str, p: &Palette) -> (note: NoteLine)
    ensures
        note@ == plain_note(line@, *p),
{
    let count: usize = line.unicode_len();
    if count == 0 {
        return NoteLine { width: 0, line: Line::new() };
    }
    if let Some(rest) = text::strip_prefix(line, "### ") {
        let heading = rest.to_lowercase();
        let width: usize = heading.as_str().unicode_len();
        return NoteLine {
            width: width.saturating_add(1),
            line: Line::of(" ", plain()).with(heading.as_str(), bold(ink(p.accent))),
        };
    }
    if let Some(rest) = text::strip_prefix(line, "- ") {
        let width: usize = rest.unicode_len();
        return NoteLine {
            width: width.saturating_add(3),
            line: Line::of(" • ", ink(p.accent)).with(rest, ink(p.text)),
        };
    }
    NoteLine {
        width: count.saturating_add(1),
        line: Line::of(" ", plain()).with(line, ink(p.text)),
    }
}

/// The lines of notes without code: headings in small letters, items and text.
pub fn plain_release_notes_lines(body: &str, p: &Palette) -> (notes: Vec<NoteLine>)
    ensures
        notes_view(notes@) == plain_notes(lines::lines_of(body@), *p),
{
    let raw = lines::split_lines(body);
    let ghost all = lines::texts(raw@);
    let mut notes: Vec<NoteLine> = Vec::new();
    let mut i: usize = 0;
    assert(notes_view(notes@) =~= plain_notes(all, *p).take(0));
    while i < raw.len()
        invariant
            all == lines::texts(raw@),
            i <= raw@.len(),
            notes_view(notes@) == plain_notes(all, *p).take(i as int),
        decreases raw@.len() - i,
    {
        let ghost before = notes_view(notes@);
        let line = lines::trim_end(raw[i].as_str());
        let note = plain_note_line(line.as_str(), p);
        notes.push(note);
        assert(notes_view(notes@) =~= before.push(note@));
        i = i + 1;
        assert(notes_view(notes@) =~= plain_notes(all, *p).take(i as int));
    }
    assert(notes_view(notes@) =~= plain_notes(all, *p));
    notes
}

/// The spans of lines of notes.
pub open spec fn spans_of(notes: Seq<NoteLineView>) -> Seq<Seq<SpanView>> {
    notes.map_values(|note: NoteLineView| note.spans)
}

/// The lines of notes without their widths.
pub fn note_lines(notes: Vec<NoteLine>) -> (out: Vec<Line>)
    ensures
        plan::lines_view(out@) == spans_of(notes_view(notes@)),
{
    let ghost all = notes@;
    let mut out: Vec<Line> = Vec::new();
    assert(plan::lines_view(out@) =~= spans_of(notes_view(all)).take(0));
    for note in iter: notes
        invariant
            iter.seq() == all,
            plan::lines_view(out@) == spans_of(notes_view(all)).take(iter.index() as int),
    {
        let ghost before = plan::lines_view(out@);
        let ghost spans = note.line@;
        out.push(note.line);
        assert(plan::lines_view(out@) =~= before.push(spans));
        assert(plan::lines_view(out@) =~= spans_of(notes_view(all)).take(iter.index() + 1));
    }
    assert(plan::lines_view(out@) =~= spans_of(notes_view(all)));
    out
}

/// Release notes that are shown.
#[derive(Debug)]
pub struct ReleaseNotesState {
    pub version: String,
    pub body: String,
    /// Whether the release is not installed yet.
    pub preview: bool,
    pub scroll: u16,
    pub max_scroll: u16,
}

/// How far notes are scrolled.
pub open spec fn notes_metrics(scroll: u16, max_scroll: u16, body: Rect) -> ScrollMetrics {
    ScrollMetrics {
        offset_from_bottom: geometry::less(max_scroll as int, scroll as int) as usize,
        max_offset_from_bottom: max_scroll as usize,
        viewport_rows: if body.height > 1 {
            body.height as usize
        } else {
            1
        },
    }
}

/// How far notes are scrolled.
pub fn scroll_metrics_of(scroll: u16, max_scroll: u16, body: Rect) -> (metrics: ScrollMetrics)
    ensures
        metrics == notes_metrics(scroll, max_scroll, body),
{
    ScrollMetrics {
        offset_from_bottom: max_scroll.saturating_sub(scroll) as usize,
        max_offset_from_bottom: max_scroll as usize,
        viewport_rows: if body.height > 1 {
            body.height as usize
        } else {
            1
        },
    }
}

/// The size of the dialog of the release notes.
pub const RELEASE_NOTES_MODAL_WIDTH: u16 = 80;

pub const RELEASE_NOTES_MODAL_HEIGHT: u16 = 24;

/// The rows of the dialog of the release notes.
#[derive(Debug)]
pub struct NotesLayout {
    /// The parts of the dialog and their gaps.
    pub stack: Vec<Rect>,
    /// The rows of the header.
    pub header: Vec<Rect>,
    /// The instructions and the notes, where there are instructions.
    pub sections: Vec<Rect>,
    /// The rows of the instructions.
    pub panel: Vec<Rect>,
}

/// Rows of one cell.
pub open spec fn single_rows(n: nat) -> Seq<Extent> {
    Seq::new(n, |i: int| Extent::Length(1))
}

/// Whether the notes have room for instructions above them.
pub open spec fn has_instructions(content: Rect, preview: bool) -> bool {
    preview && content.height >= 6
}

/// What the instructions and the notes ask for.
pub open spec fn section_extents() -> Seq<Extent> {
    seq![Extent::Length(5), Extent::Min(0)]
}

/// What the rows of the instructions ask for.
pub open spec fn panel_extents() -> Seq<Extent> {
    seq![Extent::Length(2), Extent::Length(1), Extent::Length(1), Extent::Length(1)]
}

/// Whether the inside of the dialog may be divided so.
pub open spec fn laid_out(inner: Rect, preview: bool, layout: NotesLayout) -> bool {
    &&& widgets::stacked(inner, 2, 1, 0, 1, layout.stack@)
    &&& widgets::rows_of(layout.stack@[0], single_rows(2), layout.header@)
    &&& has_instructions(layout.stack@[2], preview) ==> {
        &&& widgets::rows_of(layout.stack@[2], section_extents(), layout.sections@)
        &&& widgets::rows_of(layout.sections@[0], panel_extents(), layout.panel@)
    }
    &&& !has_instructions(layout.stack@[2], preview) ==> layout.sections@.len() == 0
        && layout.panel@.len() == 0
}

/// The parts of the notes.
#[derive(Debug, Clone, Copy, PartialEq, Eq, Structural)]
pub struct ReleaseNotesSections {
    pub instructions: Option<Rect>,
    pub notes_body: Rect,
}

/// The parts of the notes, from the rows that they are divided into.
pub open spec fn sections_of(content: Rect, sections: Seq<Rect>) -> ReleaseNotesSections {
    if sections.len() == 2 {
        ReleaseNotesSections { instructions: Some(sections[0]), notes_body: sections[1] }
    } else {
        ReleaseNotesSections { instructions: None, notes_body: content }
    }
}

/// Divide the notes into instructions, where the release is a preview and they
/// have room, and the notes themselves.
pub fn release_notes_sections(area: Rect, preview: bool) -> (sections: ReleaseNotesSections)
    requires
        area.wf(),
    ensures
        sections.instructions is Some <==> has_instructions(area, preview),
        has_instructions(area, preview) ==> {
            &&& sections.instructions == Some(Rect { height: 5, ..area })
            &&& sections.notes_body == Rect {
                y: (area.y + 5) as u16,
                height: (area.height - 5) as u16,
                ..area
            }
        },
        !has_instructions(area, preview) ==> sections.notes_body == area,
{
    if preview && area.height >= 6 {
        let rows = section_rows(area);
        proof {
            let extents = section_extents();
            reveal_with_fuel(geometry::total, 3);
            reveal_with_fuel(geometry::start, 3);
            assert(extents.drop_last().drop_last().len() == 0);
            assert(geometry::total(extents) == 5);
            assert(geometry::fits(extents, area.height as int));
            assert(rows@[0].y == area.y + geometry::start(extents, area.height as int, 0));
            assert(rows@[1].y == area.y + geometry::start(extents, area.height as int, 1));
        }
        ReleaseNotesSections { instructions: Some(rows[0]), notes_body: rows[1] }
    } else {
        ReleaseNotesSections { instructions: None, notes_body: area }
    }
}

fn section_rows(area: Rect) -> (rows: Vec<Rect>)
    requires
        area.wf(),
    ensures
        widgets::rows_of(area, section_extents(), rows@),
        rows@.len() == 2,
        forall|i: int|
            0 <= i < rows@.len() ==> (#[trigger] rows@[i]).wf() && rows@[i].within(area)
                && rows@[i].x == area.x && rows@[i].width == area.width,
{
    let mut extents: Vec<Extent> = Vec::new();
    extents.push(Extent::Length(5));
    extents.push(Extent::Min(0));
    assert(extents@ =~= section_extents());
    widgets::divide_rows(area, &extents)
}

/// Divide an area into rows of one cell.
pub fn divide_single_rows(area: Rect, n: u16) -> (rows: Vec<Rect>)
    requires
        area.wf(),
    ensures
        widgets::rows_of(area, single_rows(n as nat), rows@),
        rows@.len() == n,
        forall|i: int|
            0 <= i < rows@.len() ==> (#[trigger] rows@[i]).wf() && rows@[i].within(area)
                && rows@[i].x == area.x && rows@[i].width == area.width,
{
    let mut extents: Vec<Extent> = Vec::new();
    let mut i: u16 = 0;
    while i < n
        invariant
            i <= n,
            extents@ == single_rows(i as nat),
        decreases n - i,
    {
        extents.push(Extent::Length(1));
        i = i + 1;
        assert(extents@ =~= single_rows(i as nat));
    }
    widgets::divide_rows(area, &extents)
}

/// Divide the inside of the dialog.
pub fn release_notes_layout(inner: Rect, preview: bool) -> (layout: NotesLayout)
    requires
        inner.wf(),
        inner.width >= 20,
    ensures
        laid_out(inner, preview, layout),
        usable(layout),
{
    let stack = widgets::modal_stack_rows(inner, 2, 1, 0, 1);
    let header = divide_single_rows(stack[0], 2);
    if preview && stack[2].height >= 6 {
        let sections = section_rows(stack[2]);
        let mut extents: Vec<Extent> = Vec::new();
        extents.push(Extent::Length(2));
        extents.push(Extent::Length(1));
        extents.push(Extent::Length(1));
        extents.push(Extent::Length(1));
        assert(extents@ =~= panel_extents());
        let panel = widgets::divide_rows(sections[0], &extents);
        NotesLayout { stack, header, sections, panel }
    } else {
        NotesLayout { stack, header, sections: Vec::new(), panel: Vec::new() }
    }
}

/// Whether the rows of a dialog can be drawn in.
pub open spec fn usable(layout: NotesLayout) -> bool {
    &&& layout.stack@.len() == 5
    &&& layout.header@.len() == 2
    &&& layout.sections@.len() == 2 && layout.panel@.len() == 4 || layout.sections@.len() == 0
    &&& all_usable(layout.stack@)
    &&& all_usable(layout.header@)
    &&& all_usable(layout.sections@)
    &&& all_usable(layout.panel@)
}

/// Whether rows lie within the coordinates and have columns.
pub open spec fn all_usable(rows: Seq<Rect>) -> bool {
    forall|i: int| 0 <= i < rows.len() ==> (#[trigger] rows[i]).wf() && rows[i].width >= 2
}

/// A row without its first and last cell.
pub open spec fn inset(row: Rect, height: int) -> Rect {
    geometry::rect(row.x + 1, row.y as int, geometry::less(row.width as int, 2), height)
}

fn inset_rect(row: Rect, height: u16) -> (inner: Rect)
    requires
        row.wf(),
        row.width >= 2,
    ensures
        inner == inset(row, height as int),
{
    Rect::new(row.x + 1, row.y, row.width.saturating_sub(2), height)
}

/// The text of the instructions.
pub open spec fn preview_lines(p: Palette) -> Seq<Seq<SpanView>> {
    seq![
        plan::blank().push(plan::span("●"@, bold(ink(p.accent)))).push(
            plan::span(" update ready"@, bold(ink(p.text))),
        ),
        plan::blank().push(
            plan::span("detach from this session, then run "@, ink(p.text)),
        ).push(plan::span("herdr update"@, code_style(p))).push(
            plan::span(" in your shell"@, ink(p.text)),
        ),
    ]
}

/// The text of the instructions: how to install the release.
pub fn release_notes_preview_lines(p: &Palette) -> (out: Vec<Line>)
    ensures
        plan::lines_view(out@) == preview_lines(*p),
{
    let mut out: Vec<Line> = Vec::new();
    out.push(Line::of("●", bold(ink(p.accent))).with(" update ready", bold(ink(p.text))));
    out.push(
        Line::of("detach from this session, then run ", ink(p.text)).with(
            "herdr update",
            code_style(*p),
        ).with(" in your shell", ink(p.text)),
    );
    assert(plan::lines_view(out@) =~= preview_lines(*p));
    out
}

/// Drawing the instructions: their text and a line below.
pub open spec fn preview_panel_plan(panel: Seq<Rect>, p: Palette) -> Seq<OpView> {
    let divider = inset(panel[2], 1);
    plan::idle().push(
        OpView::Text {
            rect: inset(panel[0], panel[0].height as int),
            lines: preview_lines(p),
            style: plain(),
            align: Align::Left,
            wrap: true,
            scroll: 0,
        },
    ).push(
        plan::line_at(
            divider,
            plan::blank().push(
                plan::span(text::repeated("─"@, divider.width as nat), ink(p.surface1)),
            ),
        ),
    )
}

/// Draw the instructions.
pub fn render_release_notes_preview_panel(panel: &Vec<Rect>, p: &Palette) -> (drawn: Plan)
    requires
        panel@.len() == 4,
        all_usable(panel@),
    ensures
        drawn@ == preview_panel_plan(panel@, *p),
{
    let mut drawn = Plan::new();
    drawn.push(
        Op::Text {
            rect: inset_rect(panel[0], panel[0].height),
            lines: release_notes_preview_lines(p),
            style: plain(),
            align: Align::Left,
            wrap: true,
            scroll: 0,
        },
    );
    let divider = inset_rect(panel[2], 1);
    let line = text::repeat("─", divider.width);
    drawn.line(divider, Line::of(line.as_str(), ink(p.surface1)));
    drawn
}

/// Drawing text that scrolls, with its scrollbar.
pub open spec fn scrolling_plan(
    body: Rect,
    metrics: ScrollMetrics,
    lines: Seq<Seq<SpanView>>,
    scroll: u16,
    thumb: Option<ScrollbarThumb>,
    p: Palette,
) -> Seq<OpView> {
    let track = scrollbar::text_track(body, metrics);
    let text = plan::idle().push(
        OpView::Text {
            rect: scrollbar::beside(body, track),
            lines,
            style: plain(),
            align: Align::Left,
            wrap: true,
            scroll,
        },
    );
    match track {
        Some(track) => text + scrollbar::scrollbar_plan(
            metrics,
            track,
            thumb,
            p.overlay0,
            p.overlay1,
            "▐"@,
        ),
        None => text,
    }
}

/// Draw text that scrolls, with its scrollbar.
pub fn render_scrolling_text(
    body: Rect,
    metrics: ScrollMetrics,
    lines: Vec<Line>,
    scroll: u16,
    thumb: Option<ScrollbarThumb>,
    p: &Palette,
) -> (drawn: Plan)
    requires
        body.wf(),
        body.width >= 1,
    ensures
        drawn@ == scrolling_plan(body, metrics, plan::lines_view(lines@), scroll, thumb, *p),
{
    let track = scrollbar::release_notes_scrollbar_rect(body, metrics);
    let mut drawn = Plan::new();
    drawn.push(
        Op::Text {
            rect: scrollbar::text_area_beside(body, track),
            lines,
            style: plain(),
            align: Align::Left,
            wrap: true,
            scroll,
        },
    );
    if let Some(track) = track {
        drawn.append(
            scrollbar::render_scrollbar(metrics, track, thumb, p.overlay0, p.overlay1, "▐"),
        );
    }
    drawn
}

/// The hints below the notes.
pub open spec fn notes_footer(keys: Seq<char>, p: Palette) -> Seq<SpanView> {
    plan::blank().push(plan::span(" scroll "@, ink(p.overlay0))).push(
        plan::span("wheel ↑↓"@, ink(p.text)),
    ).push(plan::span("  ·  "@, ink(p.overlay0))).push(
        plan::span("close"@, ink(p.overlay0)),
    ).push(plan::span(keys, ink(p.text)))
}

fn notes_footer_line(keys: &str, p: &Palette) -> (line: Line)
    ensures
        line@ == notes_footer(keys@, *p),
{
    Line::of(" scroll ", ink(p.overlay0)).with("wheel ↑↓", ink(p.text)).with(
        "  ·  ",
        ink(p.overlay0),
    ).with("close", ink(p.overlay0)).with(keys, ink(p.text))
}

/// Drawing the release notes in their dialog.
pub open spec fn notes_plan(
    notes: ReleaseNotesState,
    layout: NotesLayout,
    thumb: Option<ScrollbarThumb>,
    p: Palette,
    contrast: Color,
) -> Seq<OpView> {
    let title = layout.header@[0];
    let subtitle = layout.header@[1];
    let sections = sections_of(layout.stack@[2], layout.sections@);
    let headed = plan::idle().push(
        widgets::header_at(inset(title, title.height as int), "v"@ + notes.version@, p),
    ).push(
        plan::text_at(
            inset(subtitle, subtitle.height as int),
            if notes.preview {
                "update ready"@
            } else {
                "what's new in this release"@
            },
            ink(p.overlay1),
        ),
    ).push(
        widgets::button_at(
            widgets::close_button(title),
            Some("esc"@),
            "close"@,
            widgets::primary(contrast, p),
        ),
    );
    let instructed = if sections.instructions is Some {
        headed + preview_panel_plan(layout.panel@, p)
    } else {
        headed
    };
    (instructed + scrolling_plan(
        sections.notes_body,
        notes_metrics(notes.scroll, notes.max_scroll, sections.notes_body),
        spans_of(notes_from(lines::lines_of(notes.body@), false, p)),
        notes.scroll,
        thumb,
        p,
    )).push(plan::line_at(layout.stack@[4], notes_footer(" esc / enter "@, p)))
}

/// Whether a dialog has room for text that scrolls.
pub open spec fn roomy(inner: Option<Rect>, rows: int) -> bool {
    inner matches Some(inner) && inner.height >= rows && inner.width >= 20
}

/// Drawing an empty dialog over dimmed cells.
pub open spec fn opened_plan(area: Rect, width: int, height: int, p: Palette) -> Seq<OpView> {
    plan::idle().push(OpView::Dim(area)) + widgets::modal_plan(area, width, height, p)
}

/// Open a dialog with text that scrolls: dim what is behind it, draw its frame,
/// and divide its inside where it has room for so many rows.
pub fn open_scrolling_dialog(
    area: Rect,
    width: u16,
    height: u16,
    rows: u16,
    preview: bool,
    p: &Palette,
) -> (opened: (Plan, Option<NotesLayout>))
    requires
        area.wf(),
    ensures
        ({
            let inner = widgets::modal_inner(area, width as int, height as int);
            &&& opened.0@ == opened_plan(area, width as int, height as int, *p)
            &&& opened.1 is Some <==> roomy(inner, rows as int)
            &&& opened.1 matches Some(layout) ==> laid_out(inner->0, preview, layout) && usable(
                layout,
            )
        }),
{
    let mut drawn = Plan::new();
    widgets::dim_background(&mut drawn, area);
    let inner = widgets::render_modal_shell(&mut drawn, area, width, height, p);
    match inner {
        Some(inner) => {
            if inner.height < rows || inner.width < 20 {
                (drawn, None)
            } else {
                (drawn, Some(release_notes_layout(inner, preview)))
            }
        },
        None => (drawn, None),
    }
}

/// Open the dialog of the release notes.
pub fn open_release_notes(notes: &ReleaseNotesState, area: Rect, p: &Palette) -> (opened: (
    Plan,
    Option<NotesLayout>,
))
    requires
        area.wf(),
    ensures
        ({
            let inner = widgets::modal_inner(area, 80, 24);
            &&& opened.0@ == opened_plan(area, 80, 24, *p)
            &&& opened.1 is Some <==> roomy(inner, 8)
            &&& opened.1 matches Some(layout) ==> laid_out(inner->0, notes.preview, layout)
                && usable(layout)
        }),
{
    open_scrolling_dialog(
        area,
        RELEASE_NOTES_MODAL_WIDTH,
        RELEASE_NOTES_MODAL_HEIGHT,
        8,
        notes.preview,
        p,
    )
}

/// Draw the release notes in their dialog. `thumb` is the thumb of their
/// scrollbar.
pub fn render_release_notes_overlay(
    notes: &ReleaseNotesState,
    layout: &NotesLayout,
    thumb: Option<ScrollbarThumb>,
    p: &Palette,
    contrast: Color,
) -> (drawn: Plan)
    requires
        usable(*layout),
    ensures
        drawn@ == notes_plan(*notes, *layout, thumb, *p, contrast),
{
    let mut drawn = Plan::new();
    let title = layout.header[0];
    let subtitle = layout.header[1];
    let mut version = "v".to_owned();
    version.append(notes.version.as_str());
    widgets::render_modal_header(
        &mut drawn,
        inset_rect(title, title.height),
        version.as_str(),
        p,
    );
    let about = if notes.preview {
        "update ready"
    } else {
        "what's new in this release"
    };
    drawn.text(inset_rect(subtitle, subtitle.height), about, ink(p.overlay1));
    widgets::render_action_button(
        &mut drawn,
        widgets::release_notes_close_button_rect(title),
        Some("esc"),
        "close",
        widgets::primary(contrast, *p),
    );
    let body = if layout.sections.len() == 2 {
        drawn.append(render_release_notes_preview_panel(&layout.panel, p));
        layout.sections[1]
    } else {
        layout.stack[2]
    };
    let metrics = scroll_metrics_of(notes.scroll, notes.max_scroll, body);
    let lines = note_lines(release_notes_lines(notes.body.as_str(), p));
    drawn.append(render_scrolling_text(body, metrics, lines, notes.scroll, thumb, p));
    drawn.line(layout.stack[4], notes_footer_line(" esc / enter ", p));
    drawn
}

/// The size of the dialog of plain release notes.
pub const PLAIN_RELEASE_NOTES_MODAL_WIDTH: u16 = 76;

pub const PLAIN_RELEASE_NOTES_MODAL_HEIGHT: u16 = 20;

/// Open the dialog of plain release notes, which has no instructions.
pub fn open_plain_release_notes(area: Rect, p: &Palette) -> (opened: (Plan, Option<NotesLayout>))
    requires
        area.wf(),
    ensures
        ({
            let inner = widgets::modal_inner(area, 76, 20);
            &&& opened.0@ == opened_plan(area, 76, 20, *p)
            &&& opened.1 is Some <==> roomy(inner, 8)
            &&& opened.1 matches Some(layout) ==> laid_out(inner->0, false, layout) && usable(
                layout,
            )
        }),
{
    open_scrolling_dialog(
        area,
        PLAIN_RELEASE_NOTES_MODAL_WIDTH,
        PLAIN_RELEASE_NOTES_MODAL_HEIGHT,
        8,
        false,
        p,
    )
}

/// Drawing plain release notes in their dialog.
pub open spec fn plain_notes_plan(
    notes: ReleaseNotesState,
    layout: NotesLayout,
    thumb: Option<ScrollbarThumb>,
    p: Palette,
) -> Seq<OpView> {
    let body = layout.stack@[2];
    (plan::idle().push(
        widgets::header_at(layout.header@[0], "v"@ + notes.version@, p),
    ).push(
        plan::text_at(layout.header@[1], " what's new in this release"@, ink(p.overlay1)),
    ).push(
        widgets::button_at(
            widgets::close_button(layout.header@[0]),
            Some("esc"@),
            "close"@,
            widgets::primary(p.panel_bg, p),
        ),
    ) + scrolling_plan(
        body,
        notes_metrics(notes.scroll, notes.max_scroll, body),
        spans_of(plain_notes(lines::lines_of(notes.body@), p)),
        notes.scroll,
        thumb,
        p,
    )).push(plan::line_at(layout.stack@[4], notes_footer(" q / esc / enter "@, p)))
}

/// Draw plain release notes in their dialog, without instructions. `thumb` is the
/// thumb of their scrollbar.
pub fn render_plain_release_notes_overlay(
    notes: &ReleaseNotesState,
    layout: &NotesLayout,
    thumb: Option<ScrollbarThumb>,
    p: &Palette,
) -> (drawn: Plan)
    requires
        usable(*layout),
    ensures
        drawn@ == plain_notes_plan(*notes, *layout, thumb, *p),
{
    let mut drawn = Plan::new();
    let mut version = "v".to_owned();
    version.append(notes.version.as_str());
    widgets::render_modal_header(&mut drawn, layout.header[0], version.as_str(), p);
    drawn.text(layout.header[1], " what's new in this release", ink(p.overlay1));
    widgets::render_action_button(
        &mut drawn,
        widgets::release_notes_close_button_rect(layout.header[0]),
        Some("esc"),
        "close",
        widgets::primary(p.panel_bg, *p),
    );
    let body = layout.stack[2];
    let metrics = scroll_metrics_of(notes.scroll, notes.max_scroll, body);
    let lines = note_lines(plain_release_notes_lines(notes.body.as_str(), p));
    drawn.append(render_scrolling_text(body, metrics, lines, notes.scroll, thumb, p));
    drawn.line(layout.stack[4], notes_footer_line(" q / esc / enter ", p));
    drawn
}

proof fn lemma_absent(text: Seq<char>, c: char)
    requires
        forall|i: int| 0 <= i < text.len() ==> text[i] != c,
    ensures
        lines::first_at(text, c) is None,
    decreases text.len(),
{
    if text.len() > 0 {
        assert(text[0] != c);
        assert forall|i: int| 0 <= i < text.drop_first().len() implies text.drop_first()[i] != c by {
            assert(text.drop_first()[i] == text[i + 1]);
        }
        lemma_absent(text.drop_first(), c);
    }
}

/// Text without backquotes is one span of the plain style.
pub proof fn law_text_without_code_is_plain(text: Seq<char>, base: Style, code: Style)
    requires
        forall|i: int| 0 <= i < text.len() ==> text[i] != '`',
    ensures
        inline_spans(text, base, code) == seq![SpanView { text, style: base }],
{
    lemma_absent(text, '`');
    if text.len() == 0 {
        reveal_strlit("");
        assert(text =~= ""@);
    }
    assert(inline_spans(text, base, code) =~= seq![SpanView { text, style: base }]);
}

/// What stands between two backquotes is shown as code, without the backquotes,
/// between the text before it and what follows.
pub proof fn law_code_stands_between_backquotes(
    before: Seq<char>,
    inside: Seq<char>,
    after: Seq<char>,
    base: Style,
    code: Style,
)
    requires
        before.len() > 0,
        inside.len() > 0,
        forall|i: int| 0 <= i < before.len() ==> before[i] != '`',
        forall|i: int| 0 <= i < inside.len() ==> inside[i] != '`',
    ensures
        marked_up(before + seq!['`'] + inside + seq!['`'] + after, base, code) == seq![
            SpanView { text: before, style: base },
            SpanView { text: inside, style: code },
        ] + marked_up(after, base, code),
{
    let text = before + seq!['`'] + inside + seq!['`'] + after;
    let i = before.len() as int;
    let j = inside.len() as int;
    assert(text[i] == '`');
    assert forall|k: int| 0 <= k < i implies text[k] != '`' by {
        assert(text[k] == before[k]);
    }
    lines::law_the_first_place_is_the_first(text, '`', i);
    assert(text.take(i) =~= before);
    let rest = text.skip(i + 1);
    assert(rest =~= inside + seq!['`'] + after);
    assert(rest[j] == '`');
    assert forall|k: int| 0 <= k < j implies rest[k] != '`' by {
        assert(rest[k] == inside[k]);
    }
    lines::law_the_first_place_is_the_first(rest, '`', j);
    assert(rest.take(j) =~= inside);
    assert(rest.skip(j + 1) =~= after);
    assert(plan::blank().push(plan::span(before, base)).push(plan::span(inside, code)) =~= seq![
        SpanView { text: before, style: base },
        SpanView { text: inside, style: code },
    ]);
}

/// A fence is not shown; the lines up to the next one are shown as they are behind
/// a gutter, and afterwards lines are text again.
pub proof fn law_fences_enclose_code(raw: Seq<Seq<char>>, fenced: bool, p: Palette)
    requires
        raw.len() > 0,
    ensures
        ({
            let line = lines::end_trimmed(raw[0]);
            let notes = notes_from(raw, fenced, p);
            let rest = raw.drop_first();
            &&& "```"@.is_prefix_of(lines::start_trimmed(line)) ==> notes == notes_from(
                rest,
                !fenced,
                p,
            )
            &&& !"```"@.is_prefix_of(lines::start_trimmed(line)) ==> {
                &&& notes.len() == 1 + notes_from(rest, fenced, p).len()
                &&& notes.skip(1) == notes_from(rest, fenced, p)
                &&& fenced ==> notes[0].spans[0].text == "▏"@ && notes[0].spans[1].text == " "@
                &&& fenced && line.len() > 0 ==> notes[0].spans.len() == 3
                    && notes[0].spans[2].text == line
                &&& fenced && line.len() == 0 ==> notes[0].spans.len() == 2
                &&& fenced && line.len() < 0xffff ==> notes[0].width == 2 + line.len()
                &&& !fenced && line.len() == 0 ==> notes[0].spans.len() == 0 && notes[0].width == 0
            }
        }),
{
    let line = lines::end_trimmed(raw[0]);
    let rest = raw.drop_first();
    if !is_fence(line) {
        assert(notes_from(raw, fenced, p).skip(1) =~= notes_from(rest, fenced, p));
    }
}

/// A heading is shown without its marks, in capitals and in bold; an item stands
/// behind a bullet, and other text behind a space.
pub proof fn law_notes_are_marked_by_what_they_are(rest: Seq<char>, line: Seq<char>, p: Palette)
    ensures
        lines::end_trimmed(lines::start_trimmed(rest)).len() > 0 ==> {
            let note = text_note("### "@ + rest, p);
            &&& note.spans.len() == 2
            &&& note.spans[0].text == " "@
            &&& note.spans[1].text == lines::uppercased(
                lines::end_trimmed(lines::start_trimmed(rest)),
            )
            &&& note.spans[1].style.bold && note.spans[1].style.fg == Some(p.accent)
        },
        ({
            let note = text_note("- "@ + rest, p);
            &&& note.spans[0].text == " • "@
            &&& note.spans.skip(1) == inline_spans(
                rest,
                Style { fg: Some(p.text), bg: None, bold: false, dim: false },
                Style { fg: Some(p.accent), bg: Some(p.surface0), bold: true, dim: false },
            )
        }),
        line.len() > 0 && !"### "@.is_prefix_of(line) && !"- "@.is_prefix_of(line) ==> {
            let note = text_note(line, p);
            &&& note.spans[0].text == " "@
            &&& note.spans.skip(1) == inline_spans(
                line,
                Style { fg: Some(p.text), bg: None, bold: false, dim: false },
                Style { fg: Some(p.accent), bg: Some(p.surface0), bold: true, dim: false },
            )
        },
        ({
            let note = plain_note("### "@ + rest, p);
            &&& note.spans.len() == 2
            &&& note.spans[1].text == lines::lowercased(rest)
            &&& note.spans[1].style.bold
        }),
        ({
            let note = plain_note("- "@ + rest, p);
            &&& note.spans.len() == 2
            &&& note.spans[0].text == " • "@ && note.spans[1].text == rest
        }),
        line.len() > 0 && !"### "@.is_prefix_of(line) && !"- "@.is_prefix_of(line) ==> {
            let note = plain_note(line, p);
            &&& note.spans.len() == 2
            &&& note.spans[0].text == " "@ && note.spans[1].text == line
        },
{
    reveal_strlit("### ");
    reveal_strlit("- ");
    let heading = "### "@ + rest;
    let item = "- "@ + rest;
    assert("### "@.is_prefix_of(heading));
    assert(heading.skip(4) =~= rest);
    assert("- "@.is_prefix_of(item));
    assert(item[0] == '-');
    assert(!"### "@.is_prefix_of(item)) by {
        assert("### "@[0] == '#');
        if "### "@.is_prefix_of(item) {
            assert(item.subrange(0, 4)[0] == '#');
        }
    }
    assert(item.skip(2) =~= rest);
    let spans = inline_spans(rest, ink(p.text), code_style(p));
    assert(text_note(item, p).spans.skip(1) =~= spans);
    if line.len() > 0 && !"### "@.is_prefix_of(line) && !"- "@.is_prefix_of(line) {
        assert(text_note(line, p).spans.skip(1) =~= inline_spans(
            line,
            ink(p.text),
            code_style(p),
        ));
    }
}

/// Notes that are scrolled to their end are at the bottom, and each row scrolled
/// is one row nearer to it.
pub proof fn law_scrolling_nears_the_bottom(scroll: u16, max_scroll: u16, body: Rect)
    ensures
        ({
            let metrics = notes_metrics(scroll, max_scroll, body);
            &&& metrics.max_offset_from_bottom == max_scroll
            &&& scroll >= max_scroll ==> metrics.offset_from_bottom == 0
            &&& scroll <= max_scroll ==> metrics.offset_from_bottom + scroll == max_scroll
            &&& body.height >= 1 ==> metrics.viewport_rows == body.height
            &&& body.height == 0 ==> metrics.viewport_rows == 1
        }),
{
}

/// The text that scrolls keeps its lines and how far it is scrolled, and gives its
/// last column up to the scrollbar.
pub proof fn law_scrolled_text_is_drawn_beside_its_scrollbar(
    body: Rect,
    metrics: ScrollMetrics,
    lines: Seq<Seq<SpanView>>,
    scroll: u16,
    thumb: Option<ScrollbarThumb>,
    p: Palette,
)
    requires
        body.wf(),
        body.width >= 1,
    ensures
        ({
            let ops = scrolling_plan(body, metrics, lines, scroll, thumb, p);
            &&& ops.len() >= 1
            &&& ops[0] is Text
            &&& ops[0]->Text_lines == lines
            &&& ops[0]->Text_scroll == scroll
            &&& ops[0]->Text_wrap
            &&& ops[0]->Text_rect.x == body.x && ops[0]->Text_rect.y == body.y
            &&& ops[0]->Text_rect.height == body.height
            &&& scrollbar::text_track(body, metrics) is None ==> ops.len() == 1
                && ops[0]->Text_rect == body
            &&& scrollbar::text_track(body, metrics) is Some ==> ops[0]->Text_rect.width < body.width
                && ops.skip(1) == scrollbar::scrollbar_plan(
                metrics,
                scrollbar::text_track(body, metrics)->0,
                thumb,
                p.overlay0,
                p.overlay1,
                "▐"@,
            )
        }),
{
    let ops = scrolling_plan(body, metrics, lines, scroll, thumb, p);
    if scrollbar::text_track(body, metrics) is Some {
        assert(ops.skip(1) =~= scrollbar::scrollbar_plan(
            metrics,
            scrollbar::text_track(body, metrics)->0,
            thumb,
            p.overlay0,
            p.overlay1,
            "▐"@,
        ));
    }
}

/// The dialog names the version, says whether the release is ready or new, offers
/// to close, tells how to install only a preview that has room for it, and shows
/// the notes as far as they are scrolled, with the hints last.
pub proof fn law_notes_are_drawn_in_order(
    notes: ReleaseNotesState,
    layout: NotesLayout,
    thumb: Option<ScrollbarThumb>,
    p: Palette,
    contrast: Color,
)
    ensures
        ({
            let ops = notes_plan(notes, layout, thumb, p, contrast);
            let instructed = layout.sections@.len() == 2;
            let at = if instructed { 5int } else { 3int };
            &&& ops.len() >= at + 2
            &&& ops[0] is Text && ops[0]->Text_rect.y == layout.header@[0].y
            &&& ops[0]->Text_lines[0][0].text == " "@ + ("v"@ + notes.version@) + " "@
            &&& ops[1] is Text && ops[1]->Text_rect.y == layout.header@[1].y
            &&& notes.preview ==> ops[1]->Text_lines == plan::paragraph_lines("update ready"@)
            &&& !notes.preview ==> ops[1]->Text_lines == plan::paragraph_lines(
                "what's new in this release"@,
            )
            &&& ops[2] is Text && ops[2]->Text_lines == plan::paragraph_lines(
                widgets::button_text(Some("esc"@), "close"@),
            )
            &&& instructed ==> {
                &&& ops[3] is Text && ops[3]->Text_lines.len() == 2
                &&& ops[3]->Text_lines[0][1].text == " update ready"@
                &&& ops[3]->Text_lines[1][0].text == "detach from this session, then run "@
                &&& ops[3]->Text_lines[1][1].text == "herdr update"@
                &&& ops[3]->Text_lines[1][2].text == " in your shell"@
                &&& ops[4] is Text
            }
            &&& ops[at] is Text && ops[at]->Text_scroll == notes.scroll && ops[at]->Text_wrap
            &&& ops[at]->Text_lines.len() == notes_from(
                lines::lines_of(notes.body@),
                false,
                p,
            ).len()
            &&& forall|i: int|
                0 <= i < ops[at]->Text_lines.len() ==> ops[at]->Text_lines[i] == (
                #[trigger] notes_from(lines::lines_of(notes.body@), false, p)[i]).spans
            &&& instructed ==> ops[at]->Text_rect.y == layout.sections@[1].y
            &&& !instructed ==> ops[at]->Text_rect.y == layout.stack@[2].y
            &&& ops.last() is Text && ops.last()->Text_rect == layout.stack@[4]
            &&& ops.last()->Text_lines[0][4].text == " esc / enter "@
        }),
{
    let ops = notes_plan(notes, layout, thumb, p, contrast);
    let instructed = layout.sections@.len() == 2;
    let at = if instructed {
        5int
    } else {
        3int
    };
    let sections = sections_of(layout.stack@[2], layout.sections@);
    let body = scrolling_plan(
        sections.notes_body,
        notes_metrics(notes.scroll, notes.max_scroll, sections.notes_body),
        spans_of(notes_from(lines::lines_of(notes.body@), false, p)),
        notes.scroll,
        thumb,
        p,
    );
    assert(body.len() >= 1);
    assert(preview_panel_plan(layout.panel@, p).len() == 2);
    assert(ops[at] == body[0]);
    if instructed {
        assert(ops[3] == preview_panel_plan(layout.panel@, p)[0]);
        assert(ops[4] == preview_panel_plan(layout.panel@, p)[1]);
    }
}

/// Plain notes name the version, offer to close, and show each line of their text
/// as one line, as far as they are scrolled, with the hints last.
pub proof fn law_plain_notes_are_drawn_in_order(
    notes: ReleaseNotesState,
    layout: NotesLayout,
    thumb: Option<ScrollbarThumb>,
    p: Palette,
)
    ensures
        ({
            let ops = plain_notes_plan(notes, layout, thumb, p);
            let raw = lines::lines_of(notes.body@);
            &&& ops.len() >= 5
            &&& ops[0] == widgets::header_at(layout.header@[0], "v"@ + notes.version@, p)
            &&& ops[1] is Text && ops[1]->Text_rect == layout.header@[1]
            &&& ops[1]->Text_lines == plan::paragraph_lines(" what's new in this release"@)
            &&& ops[2] is Text && ops[2]->Text_lines == plan::paragraph_lines(
                widgets::button_text(Some("esc"@), "close"@),
            )
            &&& ops[3] is Text && ops[3]->Text_scroll == notes.scroll && ops[3]->Text_wrap
            &&& ops[3]->Text_rect.y == layout.stack@[2].y
            &&& ops[3]->Text_lines.len() == raw.len()
            &&& forall|i: int|
                0 <= i < raw.len() ==> #[trigger] ops[3]->Text_lines[i] == plain_note(
                    lines::end_trimmed(raw[i]),
                    p,
                ).spans
            &&& ops.last() is Text && ops.last()->Text_rect == layout.stack@[4]
            &&& ops.last()->Text_lines[0][4].text == " q / esc / enter "@
        }),
{
    let ops = plain_notes_plan(notes, layout, thumb, p);
    let body = scrolling_plan(
        layout.stack@[2],
        notes_metrics(notes.scroll, notes.max_scroll, layout.stack@[2]),
        spans_of(plain_notes(lines::lines_of(notes.body@), p)),
        notes.scroll,
        thumb,
        p,
    );
    assert(body.len() >= 1);
    assert(ops[3] == body[0]);
}

/// Instructions are shown above the notes exactly where the release is a preview
/// and there are six rows or more; otherwise the notes have all the room.
pub proof fn law_previews_with_room_are_explained(inner: Rect, preview: bool, layout: NotesLayout)
    requires
        laid_out(inner, preview, layout),
    ensures
        ({
            let content = layout.stack@[2];
            let sections = sections_of(content, layout.sections@);
            &&& preview && content.height >= 6 ==> sections.instructions == Some(
                layout.sections@[0],
            ) && sections.notes_body == layout.sections@[1]
            &&& !preview || content.height < 6 ==> sections.instructions is None
                && sections.notes_body == content
        }),
{
}

/// A dialog for text that scrolls dims what is behind it and stands in the middle;
/// it is divided where it has room for its rows and twenty columns, and only there.
pub proof fn law_scrolling_dialogs_need_room(
    area: Rect,
    width: u16,
    height: u16,
    rows: u16,
    preview: bool,
    p: Palette,
    opened: (Plan, Option<NotesLayout>),
)
    requires
        area.wf(),
        call_ensures(open_scrolling_dialog, (area, width, height, rows, preview, &p), opened),
    ensures
        opened.0@.len() > 0,
        opened.0@[0] == OpView::Dim(area),
        opened.0@.skip(1) == widgets::modal_plan(area, width as int, height as int, p),
        ({
            let inner = widgets::modal_inner(area, width as int, height as int);
            &&& opened.1 is Some <==> inner is Some && inner->0.height >= rows && inner->0.width
                >= 20
        }),
{
    assert(opened.0@.skip(1) =~= widgets::modal_plan(area, width as int, height as int, p));
}

/// The release notes ask for eighty columns by twenty-four rows, and for eight rows
/// inside.
pub proof fn law_release_notes_ask_for_their_size(
    notes: ReleaseNotesState,
    area: Rect,
    p: Palette,
    opened: (Plan, Option<NotesLayout>),
)
    requires
        area.wf(),
        call_ensures(open_release_notes, (&notes, area, &p), opened),
    ensures
        opened.0@.skip(1) == widgets::modal_plan(area, 80, 24, p),
        ({
            let inner = widgets::modal_inner(area, 80, 24);
            &&& opened.1 is Some <==> inner is Some && inner->0.height >= 8 && inner->0.width >= 20
        }),
{
    assert(opened.0@.skip(1) =~= widgets::modal_plan(area, 80, 24, p));
}

/// Instructions take the five rows on top of a preview that has six rows or more,
/// and the notes have the rest; any other notes have all of the area.
pub proof fn law_instructions_take_five_rows(
    area: Rect,
    preview: bool,
    sections: ReleaseNotesSections,
)
    requires
        area.wf(),
        call_ensures(release_notes_sections, (area, preview), sections),
    ensures
        preview && area.height >= 6 ==> {
            &&& sections.instructions is Some
            &&& sections.instructions->0.y == area.y && sections.instructions->0.height == 5
            &&& sections.notes_body.y == area.y + 5
            &&& sections.notes_body.height + 5 == area.height
            &&& sections.notes_body.width == area.width
        },
        !preview || area.height < 6 ==> sections.instructions is None && sections.notes_body == area,
{
}

} // verus!
