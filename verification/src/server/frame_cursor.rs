//! The cursor of a frame that is sent to clients.

use vstd::prelude::*;

use crate::ui::panes::PaneInfo;

verus! {

/// A cursor on the screen.
#[derive(Debug, Clone, Copy, PartialEq, Eq, Structural)]
pub struct CursorState {
    pub x: u16,
    pub y: u16,
    pub visible: bool,
}

/// The cursor of a pane's program, where it stands on the screen.
#[derive(Debug, Clone, Copy, PartialEq, Eq, Structural)]
pub struct PaneCursor {
    pub pane_id: u64,
    pub cursor: Option<CursorState>,
}

/// The cursor that drawing a frame asks for: the last position that was set since
/// the cursor was last hidden.
#[derive(Debug, Clone, Copy, PartialEq, Eq)]
pub struct RenderedCursor {
    pub position: Option<(u16, u16)>,
}

impl RenderedCursor {
    pub fn new() -> (cursor: RenderedCursor)
        ensures
            cursor.position is None,
    {
        RenderedCursor { position: None }
    }

    pub fn hide_cursor(&mut self)
        ensures
            final(self).position is None,
    {
        self.position = None;
    }

    pub fn set_cursor_position(&mut self, x: u16, y: u16)
        ensures
            final(self).position == Some((x, y)),
    {
        self.position = Some((x, y));
    }

    /// The cursor that the frame shows, if it asks for one.
    pub fn rendered_cursor(&self) -> (cursor: Option<CursorState>)
        ensures
            cursor == match self.position {
                Some((x, y)) => Some(CursorState { x, y, visible: true }),
                None => None,
            },
    {
        match self.position {
            Some((x, y)) => Some(CursorState { x, y, visible: true }),
            None => None,
        }
    }
}

/// The first focused pane.
pub open spec fn focused_pane(infos: Seq<PaneInfo>) -> Option<PaneInfo>
    decreases infos.len(),
{
    if infos.len() == 0 {
        None
    } else if infos[0].is_focused {
        Some(infos[0])
    } else {
        focused_pane(infos.drop_first())
    }
}

/// The cursor of a pane, if it has a running program that shows one.
pub open spec fn cursor_of(cursors: Seq<PaneCursor>, pane_id: u64) -> Option<CursorState>
    decreases cursors.len(),
{
    if cursors.len() == 0 {
        None
    } else if cursors[0].pane_id == pane_id {
        cursors[0].cursor
    } else {
        cursor_of(cursors.drop_first(), pane_id)
    }
}

fn find_focused(infos: &Vec<PaneInfo>) -> (found: Option<PaneInfo>)
    ensures
        found == focused_pane(infos@),
{
    let mut i: usize = 0;
    assert(infos@.skip(0) =~= infos@);
    while i < infos.len()
        invariant
            i <= infos@.len(),
            focused_pane(infos@) == focused_pane(infos@.skip(i as int)),
        decreases infos@.len() - i,
    {
        assert(infos@.skip(i as int)[0] == infos@[i as int]);
        assert(infos@.skip(i as int).drop_first() =~= infos@.skip(i + 1));
        if infos[i].is_focused {
            return Some(infos[i]);
        }
        i = i + 1;
    }
    None
}

fn find_cursor(cursors: &Vec<PaneCursor>, pane_id: u64) -> (cursor: Option<CursorState>)
    ensures
        cursor == cursor_of(cursors@, pane_id),
{
    let mut i: usize = 0;
    assert(cursors@.skip(0) =~= cursors@);
    while i < cursors.len()
        invariant
            i <= cursors@.len(),
            cursor_of(cursors@, pane_id) == cursor_of(cursors@.skip(i as int), pane_id),
        decreases cursors@.len() - i,
    {
        assert(cursors@.skip(i as int)[0] == cursors@[i as int]);
        assert(cursors@.skip(i as int).drop_first() =~= cursors@.skip(i + 1));
        if cursors[i].pane_id == pane_id {
            return cursors[i].cursor;
        }
        i = i + 1;
    }
    None
}

/// The cursor of the focused pane, while keys go to the terminal of a workspace.
pub open spec fn terminal_cursor(
    entered: bool,
    infos: Seq<PaneInfo>,
    cursors: Seq<PaneCursor>,
) -> Option<CursorState> {
    match focused_pane(infos) {
        Some(info) => if entered {
            cursor_of(cursors, info.id)
        } else {
            None
        },
        None => None,
    }
}

/// The cursor of the focused pane, while keys go to the terminal of a workspace.
/// `entered` tells whether they do.
pub fn focused_terminal_cursor(
    entered: bool,
    infos: &Vec<PaneInfo>,
    cursors: &Vec<PaneCursor>,
) -> (cursor: Option<CursorState>)
    ensures
        cursor == terminal_cursor(entered, infos@, cursors@),
{
    if !entered {
        return None;
    }
    match find_focused(infos) {
        Some(info) => find_cursor(cursors, info.id),
        None => None,
    }
}

/// The cursor of a frame: that of the focused pane, or else the one that drawing
/// the frame asked for.
pub fn frame_cursor(
    entered: bool,
    infos: &Vec<PaneInfo>,
    cursors: &Vec<PaneCursor>,
    drawn: Option<CursorState>,
) -> (cursor: Option<CursorState>)
    ensures
        cursor == match terminal_cursor(entered, infos@, cursors@) {
            Some(own) => Some(own),
            None => drawn,
        },
{
    match focused_terminal_cursor(entered, infos, cursors) {
        Some(own) => Some(own),
        None => drawn,
    }
}

/// The cursor of a frame is that of the first focused pane while keys go to a
/// terminal, and then the first record of the pane counts.
pub proof fn law_the_focused_pane_has_the_cursor(
    infos: Seq<PaneInfo>,
    cursors: Seq<PaneCursor>,
    i: int,
    k: int,
)
    requires
        0 <= i < infos.len(),
        infos[i].is_focused,
        forall|j: int| 0 <= j < i ==> !(#[trigger] infos[j]).is_focused,
        0 <= k < cursors.len(),
        cursors[k].pane_id == infos[i].id,
        forall|j: int| 0 <= j < k ==> (#[trigger] cursors[j]).pane_id != infos[i].id,
    ensures
        terminal_cursor(true, infos, cursors) == cursors[k].cursor,
        terminal_cursor(false, infos, cursors) is None,
{
    lemma_focused_pane(infos, i);
    lemma_cursor_of(cursors, infos[i].id, k);
}

proof fn lemma_focused_pane(infos: Seq<PaneInfo>, i: int)
    requires
        0 <= i < infos.len(),
        infos[i].is_focused,
        forall|j: int| 0 <= j < i ==> !(#[trigger] infos[j]).is_focused,
    ensures
        focused_pane(infos) == Some(infos[i]),
    decreases infos.len(),
{
    if i > 0 {
        assert(!infos[0].is_focused);
        let rest = infos.drop_first();
        assert forall|j: int| 0 <= j < i - 1 implies !(#[trigger] rest[j]).is_focused by {
            assert(rest[j] == infos[j + 1]);
        }
        lemma_focused_pane(rest, i - 1);
    }
}

proof fn lemma_cursor_of(cursors: Seq<PaneCursor>, pane_id: u64, k: int)
    requires
        0 <= k < cursors.len(),
        cursors[k].pane_id == pane_id,
        forall|j: int| 0 <= j < k ==> (#[trigger] cursors[j]).pane_id != pane_id,
    ensures
        cursor_of(cursors, pane_id) == cursors[k].cursor,
    decreases cursors.len(),
{
    if k > 0 {
        assert(cursors[0].pane_id != pane_id);
        let rest = cursors.drop_first();
        assert forall|j: int| 0 <= j < k - 1 implies (#[trigger] rest[j]).pane_id != pane_id by {
            assert(rest[j] == cursors[j + 1]);
        }
        lemma_cursor_of(rest, pane_id, k - 1);
    }
}

/// Without a focused pane there is no cursor of a terminal.
pub proof fn law_no_focus_no_terminal_cursor(
    entered: bool,
    infos: Seq<PaneInfo>,
    cursors: Seq<PaneCursor>,
)
    requires
        forall|j: int| 0 <= j < infos.len() ==> !(#[trigger] infos[j]).is_focused,
    ensures
        terminal_cursor(entered, infos, cursors) is None,
    decreases infos.len(),
{
    if infos.len() > 0 {
        assert(!infos[0].is_focused);
        let rest = infos.drop_first();
        assert forall|j: int| 0 <= j < rest.len() implies !(#[trigger] rest[j]).is_focused by {
            assert(rest[j] == infos[j + 1]);
        }
        law_no_focus_no_terminal_cursor(entered, rest, cursors);
    }
}

/// A cursor that was placed is shown where it was placed, and one that was hidden is
/// not shown.
pub proof fn law_placed_cursors_are_shown(
    placed: &mut RenderedCursor,
    hidden: &mut RenderedCursor,
    x: u16,
    y: u16,
    drawn: RenderedCursor,
    cursor: Option<CursorState>,
)
    ensures
        call_ensures(RenderedCursor::set_cursor_position, (placed, x, y), ())
            ==> final(placed).position == Some((x, y)),
        call_ensures(RenderedCursor::hide_cursor, (hidden,), ()) ==> final(hidden).position is None,
        call_ensures(RenderedCursor::rendered_cursor, (&drawn,), cursor) ==> {
            &&& drawn.position is None ==> cursor is None
            &&& drawn.position is Some ==> cursor is Some && cursor->0.x == drawn.position->Some_0.0
                && cursor->0.y == drawn.position->Some_0.1 && cursor->0.visible
        },
{
}

} // verus!
