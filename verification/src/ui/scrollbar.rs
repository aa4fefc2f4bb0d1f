//! Scrollbars: whether they show, where the thumb is, and what a click means.
//!
//! The places of the thumb are rounded quotients. Each is computed in two steps:
//! a function gives the quotient, and another takes the rounded number.

use vstd::prelude::*;

use crate::geometry;
use crate::geometry::Rect;
use crate::ui::plan;
use crate::ui::plan::{ink, Color, OpView, Plan};

verus! {

/// How far a view is scrolled, in rows.
#[derive(Debug, Clone, Copy, PartialEq, Eq, Structural)]
pub struct ScrollMetrics {
    pub offset_from_bottom: usize,
    pub max_offset_from_bottom: usize,
    pub viewport_rows: usize,
}

/// Whether there is anything to scroll.
pub open spec fn scrolls(metrics: ScrollMetrics) -> bool {
    metrics.max_offset_from_bottom > 0
}

/// Whether there is anything to scroll.
pub fn should_show_scrollbar(metrics: ScrollMetrics) -> (shows: bool)
    ensures
        shows == scrolls(metrics),
{
    metrics.max_offset_from_bottom > 0
}

/// The rightmost column of a rectangle.
pub open spec fn last_column(body: Rect) -> Rect {
    geometry::rect(
        body.x + geometry::less(body.width as int, 1),
        body.y as int,
        1,
        body.height as int,
    )
}

/// The scrollbar of a text: its rightmost column, where it scrolls and a column
/// for the text stays.
pub open spec fn text_track(body: Rect, metrics: ScrollMetrics) -> Option<Rect> {
    if scrolls(metrics) && body.width > 1 {
        Some(last_column(body))
    } else {
        None
    }
}

/// The scrollbar of a text.
pub fn release_notes_scrollbar_rect(body: Rect, metrics: ScrollMetrics) -> (track: Option<Rect>)
    requires
        body.wf(),
        body.x + body.width >= 1,
    ensures
        track == text_track(body, metrics),
        track matches Some(track) ==> track.wf() && track.within(body),
{
    if should_show_scrollbar(metrics) && body.width > 1 {
        Some(Rect::new(body.x + (body.width - 1), body.y, 1, body.height))
    } else {
        None
    }
}

/// Where a text stands beside its scrollbar.
pub open spec fn beside(body: Rect, track: Option<Rect>) -> Rect {
    match track {
        Some(_) => geometry::rect(
            body.x as int,
            body.y as int,
            geometry::less(body.width as int, 1),
            body.height as int,
        ),
        None => body,
    }
}

/// Where a text stands beside its scrollbar.
pub fn text_area_beside(body: Rect, track: Option<Rect>) -> (area: Rect)
    ensures
        area == beside(body, track),
        body.wf() ==> area.wf() && area.within(body),
{
    match track {
        Some(_) => Rect::new(body.x, body.y, body.width.saturating_sub(1), body.height),
        None => body,
    }
}

/// The part of a scrollbar that stands for what is seen.
#[derive(Debug, Clone, Copy, PartialEq, Eq, Structural)]
pub struct ScrollbarThumb {
    pub top: u16,
    pub len: u16,
}

/// A quotient that is to be rounded to the nearest whole number.
#[derive(Debug, Clone, Copy, PartialEq, Eq, Structural)]
pub struct Quotient {
    pub numerator: usize,
    pub denominator: usize,
}

/// Whether a whole number is nearest to a quotient.
pub open spec fn nearest(quotient: Quotient, rounded: int) -> bool {
    &&& quotient.denominator > 0
    &&& 2 * (rounded * quotient.denominator - quotient.numerator) <= quotient.denominator
    &&& 2 * (quotient.numerator - rounded * quotient.denominator) <= quotient.denominator
}

/// The length of the thumb, before rounding: the share of the rows that is seen,
/// along the track.
pub open spec fn len_quotient(metrics: ScrollMetrics, track: Rect) -> Option<Quotient> {
    if metrics.max_offset_from_bottom == 0 || track.height == 0 {
        None
    } else {
        Some(
            Quotient {
                numerator: (metrics.viewport_rows * track.height) as usize,
                denominator: (metrics.max_offset_from_bottom + metrics.viewport_rows) as usize,
            },
        )
    }
}

/// The numbers of a scrollbar can be computed with.
pub open spec fn computable(metrics: ScrollMetrics, track: Rect) -> bool {
    &&& metrics.viewport_rows * track.height <= usize::MAX
    &&& metrics.max_offset_from_bottom + metrics.viewport_rows <= usize::MAX
    &&& metrics.max_offset_from_bottom * track.height <= usize::MAX
}

/// The length of the thumb, before rounding; none where there is no thumb.
pub fn thumb_len_quotient(metrics: ScrollMetrics, track: Rect) -> (quotient: Option<Quotient>)
    requires
        computable(metrics, track),
    ensures
        quotient == len_quotient(metrics, track),
{
    if metrics.max_offset_from_bottom == 0 || track.height == 0 {
        return None;
    }
    Some(
        Quotient {
            numerator: metrics.viewport_rows * track.height as usize,
            denominator: metrics.max_offset_from_bottom + metrics.viewport_rows,
        },
    )
}

/// The length of the thumb: a row at least, and the track at most.
pub open spec fn bounded_len(track: Rect, rounded: int) -> int {
    if rounded < 1 {
        1
    } else {
        geometry::least(rounded, track.height as int)
    }
}

/// The length of the thumb, from the rounded quotient.
pub fn thumb_len(track: Rect, rounded: usize) -> (len: u16)
    requires
        track.height > 0,
    ensures
        len == bounded_len(track, rounded as int),
        1 <= len <= track.height,
{
    if rounded < 1 {
        1
    } else if rounded < track.height as usize {
        rounded as u16
    } else {
        track.height
    }
}

/// The place of the thumb in the track, before rounding: the share of the way
/// that is scrolled, along the room beside the thumb.
pub open spec fn top_quotient(metrics: ScrollMetrics, track: Rect, len: int) -> Option<Quotient> {
    if metrics.max_offset_from_bottom == 0 || track.height <= len {
        None
    } else {
        Some(
            Quotient {
                numerator: (geometry::less(
                    metrics.max_offset_from_bottom as int,
                    metrics.offset_from_bottom as int,
                ) * (track.height - len)) as usize,
                denominator: metrics.max_offset_from_bottom,
            },
        )
    }
}

proof fn lemma_products(a: int, b: int, c: int, d: int)
    by (nonlinear_arith)
    requires
        0 <= a <= b,
        0 <= c <= d,
    ensures
        0 <= a * c <= b * d,
{
}

/// The place of the thumb in the track, before rounding; none where it has no
/// room to move.
pub fn thumb_top_quotient(metrics: ScrollMetrics, track: Rect, len: u16) -> (quotient: Option<
    Quotient,
>)
    requires
        computable(metrics, track),
    ensures
        quotient == top_quotient(metrics, track, len as int),
{
    if metrics.max_offset_from_bottom == 0 || track.height <= len {
        return None;
    }
    let scrolled: usize = metrics.max_offset_from_bottom.saturating_sub(
        metrics.offset_from_bottom,
    );
    let room: u16 = track.height - len;
    proof {
        lemma_products(
            scrolled as int,
            metrics.max_offset_from_bottom as int,
            room as int,
            track.height as int,
        );
    }
    Some(
        Quotient { numerator: scrolled * room as usize, denominator: metrics.max_offset_from_bottom },
    )
}

/// The thumb, from the two rounded quotients. None where nothing scrolls or there
/// is no track.
pub open spec fn thumb_of(
    metrics: ScrollMetrics,
    track: Rect,
    rounded_len: int,
    rounded_top: int,
) -> Option<ScrollbarThumb> {
    if metrics.max_offset_from_bottom == 0 || track.height == 0 {
        None
    } else {
        let len = bounded_len(track, rounded_len);
        Some(
            ScrollbarThumb {
                top: (track.y + if track.height <= len {
                    0
                } else {
                    geometry::least(rounded_top, track.height - len)
                }) as u16,
                len: len as u16,
            },
        )
    }
}

/// The thumb of a scrollbar, from the two rounded quotients.
pub fn scrollbar_thumb(
    metrics: ScrollMetrics,
    track: Rect,
    rounded_len: usize,
    rounded_top: usize,
) -> (thumb: Option<ScrollbarThumb>)
    requires
        track.wf(),
    ensures
        thumb == thumb_of(metrics, track, rounded_len as int, rounded_top as int),
        thumb matches Some(thumb) ==> track.y <= thumb.top && thumb.top + thumb.len <= track.y
            + track.height,
{
    if metrics.max_offset_from_bottom == 0 || track.height == 0 {
        return None;
    }
    let len: u16 = thumb_len(track, rounded_len);
    let room: u16 = track.height - len;
    let top: u16 = if rounded_top < room as usize {
        rounded_top as u16
    } else {
        room
    };
    Some(ScrollbarThumb { top: track.y + top, len })
}

/// A view that is scrolled to its bottom has the thumb at the bottom of the
/// track, and one that is scrolled to its top at the top, if the quotient is
/// rounded to the nearest number.
pub proof fn law_thumb_reaches_both_ends(
    metrics: ScrollMetrics,
    track: Rect,
    rounded_len: nat,
    rounded_top: nat,
)
    requires
        track.wf(),
        scrolls(metrics),
        track.height > 0,
        computable(metrics, track),
        top_quotient(metrics, track, bounded_len(track, rounded_len as int)) matches Some(quotient)
            ==> nearest(quotient, rounded_top as int),
    ensures
        ({
            let thumb = thumb_of(metrics, track, rounded_len as int, rounded_top as int)->0;
            &&& metrics.offset_from_bottom == 0 ==> thumb.top + thumb.len == track.y + track.height
            &&& metrics.offset_from_bottom >= metrics.max_offset_from_bottom ==> thumb.top
                == track.y
        }),
{
    let len = bounded_len(track, rounded_len as int);
    if track.height > len {
        let max = metrics.max_offset_from_bottom as int;
        let room = track.height - len;
        let scrolled = geometry::less(max, metrics.offset_from_bottom as int);
        lemma_products(scrolled, max, room, track.height as int);
        let r = rounded_top as int;
        if metrics.offset_from_bottom == 0 {
            assert(r == room) by (nonlinear_arith)
                requires
                    max > 0,
                    r >= 0,
                    2 * (r * max - max * room) <= max,
                    2 * (max * room - r * max) <= max,
            ;
        } else if metrics.offset_from_bottom >= metrics.max_offset_from_bottom {
            assert(scrolled * room == 0) by (nonlinear_arith)
                requires
                    scrolled == 0,
            ;
            assert(r == 0) by (nonlinear_arith)
                requires
                    max > 0,
                    r >= 0,
                    2 * (r * max) <= max,
            ;
        }
    }
}

/// The row of the thumb that was grabbed, if one was.
pub fn scrollbar_thumb_grab_offset(thumb: Option<ScrollbarThumb>, row: u16) -> (offset: Option<u16>)
    requires
        thumb matches Some(thumb) ==> thumb.top + thumb.len <= u16::MAX,
    ensures
        offset == match thumb {
            Some(thumb) if thumb.top <= row < thumb.top + thumb.len => Some(
                (row - thumb.top) as u16,
            ),
            _ => None,
        },
{
    match thumb {
        Some(thumb) => {
            if row >= thumb.top && row < thumb.top + thumb.len {
                Some(row - thumb.top)
            } else {
                None
            }
        },
        None => None,
    }
}

/// The room that the thumb has beside it; without a thumb, as if it had a row.
pub open spec fn thumb_room(track: Rect, thumb: Option<ScrollbarThumb>) -> int {
    geometry::less(
        track.height as int,
        match thumb {
            Some(thumb) => thumb.len as int,
            None => 1,
        },
    )
}

/// How far a view is scrolled when the thumb is at a place, before rounding.
pub open spec fn scroll_quotient(
    metrics: ScrollMetrics,
    track: Rect,
    thumb: Option<ScrollbarThumb>,
    thumb_top: int,
) -> Option<Quotient> {
    let room = thumb_room(track, thumb);
    if metrics.max_offset_from_bottom == 0 || room == 0 {
        None
    } else {
        Some(
            Quotient {
                numerator: (geometry::least(thumb_top, room)
                    * metrics.max_offset_from_bottom) as usize,
                denominator: room as usize,
            },
        )
    }
}

/// How far a view is scrolled from its top when the thumb is at a place, before
/// rounding; none where the thumb has no room to move.
pub fn scrolled_quotient(
    metrics: ScrollMetrics,
    track: Rect,
    thumb: Option<ScrollbarThumb>,
    thumb_top: usize,
) -> (quotient: Option<Quotient>)
    requires
        computable(metrics, track),
    ensures
        quotient == scroll_quotient(metrics, track, thumb, thumb_top as int),
{
    let len: u16 = match thumb {
        Some(thumb) => thumb.len,
        None => 1,
    };
    let room: u16 = track.height.saturating_sub(len);
    if metrics.max_offset_from_bottom == 0 || room == 0 {
        return None;
    }
    let desired: usize = if thumb_top < room as usize {
        thumb_top
    } else {
        room as usize
    };
    proof {
        lemma_products(
            desired as int,
            track.height as int,
            metrics.max_offset_from_bottom as int,
            metrics.max_offset_from_bottom as int,
        );
        assert(track.height * metrics.max_offset_from_bottom == metrics.max_offset_from_bottom
            * track.height) by (nonlinear_arith);
    }
    Some(
        Quotient {
            numerator: desired * metrics.max_offset_from_bottom,
            denominator: room as usize,
        },
    )
}

/// How far a view is scrolled from its bottom when the thumb is at a place, from
/// the rounded quotient.
pub open spec fn offset_of(
    metrics: ScrollMetrics,
    track: Rect,
    thumb: Option<ScrollbarThumb>,
    rounded: int,
) -> int {
    if metrics.max_offset_from_bottom == 0 || thumb_room(track, thumb) == 0 {
        0
    } else {
        geometry::less(metrics.max_offset_from_bottom as int, rounded)
    }
}

/// How far a view is scrolled from its bottom when the thumb is at a place, from
/// the rounded quotient.
pub fn scrollbar_offset_from_thumb_top(
    metrics: ScrollMetrics,
    track: Rect,
    thumb: Option<ScrollbarThumb>,
    rounded: usize,
) -> (offset: usize)
    ensures
        offset == offset_of(metrics, track, thumb, rounded as int),
{
    let len: u16 = match thumb {
        Some(thumb) => thumb.len,
        None => 1,
    };
    if metrics.max_offset_from_bottom == 0 || track.height.saturating_sub(len) == 0 {
        return 0;
    }
    metrics.max_offset_from_bottom.saturating_sub(rounded)
}

/// The thumb at the top of the track stands for the top of the view, and the
/// thumb at the bottom for the bottom, if the quotient is rounded to the nearest
/// number.
pub proof fn law_thumb_ends_are_the_ends_of_the_view(
    metrics: ScrollMetrics,
    track: Rect,
    thumb: Option<ScrollbarThumb>,
    thumb_top: nat,
    rounded: nat,
)
    requires
        scrolls(metrics),
        thumb_room(track, thumb) > 0,
        computable(metrics, track),
        nearest(
            scroll_quotient(metrics, track, thumb, thumb_top as int)->0,
            rounded as int,
        ),
    ensures
        thumb_top == 0 ==> offset_of(metrics, track, thumb, rounded as int)
            == metrics.max_offset_from_bottom,
        thumb_top >= thumb_room(track, thumb) ==> offset_of(metrics, track, thumb, rounded as int)
            == 0,
{
    let room = thumb_room(track, thumb);
    let max = metrics.max_offset_from_bottom as int;
    let desired = geometry::least(thumb_top as int, room);
    lemma_products(desired, track.height as int, max, max);
    assert(track.height * max == max * track.height) by (nonlinear_arith);
    let r = rounded as int;
    if thumb_top == 0 {
        assert(desired * max == 0) by (nonlinear_arith)
            requires
                desired == 0,
        ;
        assert(r == 0) by (nonlinear_arith)
            requires
                room > 0,
                r >= 0,
                2 * (r * room) <= room,
        ;
    } else if thumb_top >= room {
        assert(r >= max) by (nonlinear_arith)
            requires
                room > 0,
                2 * (room * max - r * room) <= room,
        ;
    }
}

/// The row of a track that is meant by a row of the screen.
pub open spec fn track_row(track: Rect, row: int) -> int {
    geometry::least(
        geometry::less(row, track.y as int),
        geometry::less(track.height as int, 1),
    )
}

/// The row of a track that is meant by a row of the screen.
pub fn row_in_track(track: Rect, row: u16) -> (offset: u16)
    requires
        track.wf(),
    ensures
        offset == track_row(track, row as int),
{
    geometry::smaller(row.saturating_sub(track.y), track.height.saturating_sub(1))
}

/// The place that a click asks the thumb to take: its middle at the row.
pub fn desired_top_from_row(track: Rect, thumb: ScrollbarThumb, row: u16) -> (top: usize)
    requires
        track.wf(),
    ensures
        top == geometry::less(track_row(track, row as int), thumb.len as int / 2),
{
    row_in_track(track, row).saturating_sub(thumb.len / 2) as usize
}

/// How far a view is scrolled from its bottom after a click on a row of its
/// scrollbar; `rounded` is the rounded quotient of [`scrolled_quotient`] at
/// [`desired_top_from_row`].
pub fn scrollbar_offset_from_row(
    metrics: ScrollMetrics,
    track: Rect,
    thumb: Option<ScrollbarThumb>,
    rounded: usize,
) -> (offset: usize)
    ensures
        offset == match thumb {
            Some(_) => offset_of(metrics, track, thumb, rounded as int),
            None => 0,
        },
{
    match thumb {
        Some(_) => scrollbar_offset_from_thumb_top(metrics, track, thumb, rounded),
        None => 0,
    }
}

/// The place that a drag asks the thumb to take: its grabbed row at the row.
pub fn desired_top_from_drag_row(track: Rect, row: u16, grab_row_offset: u16) -> (top: usize)
    requires
        track.wf(),
    ensures
        top == geometry::less(track_row(track, row as int), grab_row_offset as int),
{
    row_in_track(track, row).saturating_sub(grab_row_offset) as usize
}

/// How far a view is scrolled from its bottom while its thumb is dragged;
/// `rounded` is the rounded quotient of [`scrolled_quotient`] at
/// [`desired_top_from_drag_row`].
pub fn scrollbar_offset_from_drag_row(
    metrics: ScrollMetrics,
    track: Rect,
    thumb: Option<ScrollbarThumb>,
    rounded: usize,
) -> (offset: usize)
    ensures
        offset == offset_of(metrics, track, thumb, rounded as int),
{
    scrollbar_offset_from_thumb_top(metrics, track, thumb, rounded)
}

/// Drawing a scrollbar: the track, and the thumb on it.
pub open spec fn scrollbar_plan(
    metrics: ScrollMetrics,
    track: Rect,
    thumb: Option<ScrollbarThumb>,
    track_color: Color,
    thumb_color: Color,
    thumb_symbol: Seq<char>,
) -> Seq<OpView> {
    match thumb {
        Some(thumb) if scrolls(metrics) => plan::idle().push(
            OpView::Fill {
                rect: Rect { width: 1, ..track },
                symbol: "▕"@,
                style: ink(track_color),
            },
        ).push(
            OpView::Fill {
                rect: Rect { x: track.x, y: thumb.top, width: 1, height: thumb.len },
                symbol: thumb_symbol,
                style: ink(thumb_color),
            },
        ),
        _ => plan::idle(),
    }
}

/// Draw a scrollbar.
pub fn render_scrollbar(
    metrics: ScrollMetrics,
    track: Rect,
    thumb: Option<ScrollbarThumb>,
    track_color: Color,
    thumb_color: Color,
    thumb_symbol: &str,
) -> (drawn: Plan)
    ensures
        drawn@ == scrollbar_plan(
            metrics,
            track,
            thumb,
            track_color,
            thumb_color,
            thumb_symbol@,
        ),
{
    let mut drawn = Plan::new();
    if metrics.max_offset_from_bottom == 0 {
        return drawn;
    }
    if let Some(thumb) = thumb {
        drawn.fill(
            Rect { x: track.x, y: track.y, width: 1, height: track.height },
            "▕",
            ink(track_color),
        );
        drawn.fill(
            Rect { x: track.x, y: thumb.top, width: 1, height: thumb.len },
            thumb_symbol,
            ink(thumb_color),
        );
    }
    drawn
}

/// The thumb is as long as the share of the rows that is seen, and as far down as
/// the share of the way that is scrolled.
pub proof fn law_the_thumb_shows_the_share(metrics: ScrollMetrics, track: Rect, len: u16)
    requires
        computable(metrics, track),
        metrics.max_offset_from_bottom > 0,
        metrics.offset_from_bottom <= metrics.max_offset_from_bottom,
        0 < len < track.height,
    ensures
        len_quotient(metrics, track) matches Some(quotient) && quotient.numerator
            == metrics.viewport_rows * track.height && quotient.denominator
            == metrics.viewport_rows + metrics.max_offset_from_bottom,
        top_quotient(metrics, track, len as int) matches Some(quotient) && quotient.numerator == (
        metrics.max_offset_from_bottom - metrics.offset_from_bottom) * (track.height - len)
            && quotient.denominator == metrics.max_offset_from_bottom,
{
    lemma_products(
        metrics.max_offset_from_bottom - metrics.offset_from_bottom,
        metrics.max_offset_from_bottom as int,
        track.height - len,
        track.height as int,
    );
    assert(metrics.viewport_rows * track.height >= 0) by (nonlinear_arith);
}

/// The thumb is never shorter than a row nor longer than the track, and is
/// otherwise as long as was rounded; it lies in the track.
pub proof fn law_the_thumb_lies_in_the_track(
    metrics: ScrollMetrics,
    track: Rect,
    rounded_len: nat,
    rounded_top: nat,
)
    requires
        track.wf(),
        track.height > 0,
        metrics.max_offset_from_bottom > 0,
    ensures
        thumb_of(metrics, track, rounded_len as int, rounded_top as int) matches Some(thumb) && {
            &&& 1 <= thumb.len <= track.height
            &&& 1 <= rounded_len <= track.height ==> thumb.len == rounded_len
            &&& track.y <= thumb.top && thumb.top + thumb.len <= track.y + track.height
            &&& rounded_top + thumb.len <= track.height ==> thumb.top == track.y + rounded_top
        },
        thumb_of(
            ScrollMetrics { max_offset_from_bottom: 0, ..metrics },
            track,
            rounded_len as int,
            rounded_top as int,
        ) is None,
{
}

/// A text that scrolls gives its last column to the scrollbar and keeps the
/// others; one that does not keeps them all.
pub proof fn law_the_scrollbar_takes_the_last_column(body: Rect, metrics: ScrollMetrics)
    requires
        body.wf(),
        body.width > 1,
    ensures
        metrics.max_offset_from_bottom > 0 ==> text_track(body, metrics) == Some(
            Rect {
                x: (body.x + body.width - 1) as u16,
                y: body.y,
                width: 1,
                height: body.height,
            },
        ),
        metrics.max_offset_from_bottom == 0 ==> text_track(body, metrics) is None,
        metrics.max_offset_from_bottom > 0 ==> beside(body, text_track(body, metrics)) == (Rect {
            width: (body.width - 1) as u16,
            ..body
        }),
        metrics.max_offset_from_bottom == 0 ==> beside(body, text_track(body, metrics)) == body,
{
}

/// Scrolling is told from the bottom: where the thumb stands as far down as can
/// be the view is at its bottom, further up it is further up.
pub proof fn law_lower_thumbs_scroll_less(
    metrics: ScrollMetrics,
    track: Rect,
    thumb: Option<ScrollbarThumb>,
    upper: nat,
    lower: nat,
)
    requires
        metrics.max_offset_from_bottom > 0,
        thumb_room(track, thumb) > 0,
        upper <= lower,
    ensures
        offset_of(metrics, track, thumb, lower as int) <= offset_of(
            metrics,
            track,
            thumb,
            upper as int,
        ),
        upper <= metrics.max_offset_from_bottom ==> offset_of(metrics, track, thumb, upper as int)
            == metrics.max_offset_from_bottom - upper,
        lower >= metrics.max_offset_from_bottom ==> offset_of(metrics, track, thumb, lower as int)
            == 0,
{
}

/// A row of the screen beside the track means that row of it, and one above or
/// below its first or last.
pub proof fn law_rows_mean_the_rows_beside_them(track: Rect, row: int)
    requires
        track.height > 0,
    ensures
        track.y <= row < track.y + track.height ==> track_row(track, row) == row - track.y,
        row < track.y ==> track_row(track, row) == 0,
        row >= track.y + track.height ==> track_row(track, row) == track.height - 1,
{
}

/// A scrollbar is drawn as its track, one column wide, and on it the thumb at its
/// own rows, each in its own colour; without a thumb, or where nothing scrolls,
/// nothing is drawn.
pub proof fn law_the_thumb_is_drawn_on_the_track(
    metrics: ScrollMetrics,
    track: Rect,
    thumb: Option<ScrollbarThumb>,
    track_color: Color,
    thumb_color: Color,
    thumb_symbol: Seq<char>,
)
    ensures
        ({
            let ops = scrollbar_plan(
                metrics,
                track,
                thumb,
                track_color,
                thumb_color,
                thumb_symbol,
            );
            &&& thumb is None || metrics.max_offset_from_bottom == 0 ==> ops.len() == 0
            &&& thumb is Some && metrics.max_offset_from_bottom > 0 ==> {
                &&& ops.len() == 2
                &&& ops[0] is Fill && ops[1] is Fill
                &&& ops[0]->Fill_rect.x == track.x && ops[0]->Fill_rect.y == track.y
                &&& ops[0]->Fill_rect.width == 1 && ops[0]->Fill_rect.height == track.height
                &&& ops[0]->Fill_style.fg == Some(track_color)
                &&& ops[1]->Fill_rect.x == track.x && ops[1]->Fill_rect.y == thumb->0.top
                &&& ops[1]->Fill_rect.width == 1 && ops[1]->Fill_rect.height == thumb->0.len
                &&& ops[1]->Fill_style.fg == Some(thumb_color)
                &&& ops[1]->Fill_symbol == thumb_symbol
            }
        }),
{
}

/// The thumb is grabbed on its own rows alone, and as far below its top as the row
/// is.
pub proof fn law_the_thumb_is_grabbed_on_its_rows(
    thumb: ScrollbarThumb,
    row: u16,
    offset: Option<u16>,
)
    requires
        thumb.top + thumb.len <= u16::MAX,
    ensures
        call_ensures(scrollbar_thumb_grab_offset, (Some(thumb), row), offset) ==> {
            &&& offset is Some <==> thumb.top <= row < thumb.top + thumb.len
            &&& offset is Some ==> thumb.top + offset->0 == row
        },
        call_ensures(scrollbar_thumb_grab_offset, (None::<ScrollbarThumb>, row), offset) ==> offset
            is None,
{
}

} // verus!
