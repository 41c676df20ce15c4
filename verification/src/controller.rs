//! The switcher controller: the Closed/Open presentation state machine, its
//! cursor navigation with wrap-around, and selection/activation decisions.

use crate::protocol::Direction;
use crate::protocol::Launch;
use crate::registry::GroupModel;
use crate::registry::WindowRegistry;
use crate::registry::groups_nonempty;
use vstd::prelude::*;

verus! {

/// One selectable cell of the presentation surface; it is highlighted
/// exactly while it is selected.
pub struct SelectableFrame {
    selected: bool,
}

impl View for SelectableFrame {
    type V = bool;

    closed spec fn view(&self) -> bool {
        self.selected
    }
}

impl SelectableFrame {
    /// A fresh frame, not selected.
    pub fn new() -> (r: SelectableFrame)
        ensures
            !r@,
    {
        SelectableFrame { selected: false }
    }

    /// Highlights this frame.
    pub fn select(&mut self)
        ensures
            final(self)@,
    {
        self.selected = true;
    }

    /// Removes the highlight from this frame.
    pub fn deselect(&mut self)
        ensures
            !final(self)@,
    {
        self.selected = false;
    }

    /// Whether this frame is highlighted.
    pub fn is_selected(&self) -> (r: bool)
        ensures
            r == self@,
    {
        self.selected
    }
}

/// A command delivered to the controller, from the control socket or from
/// the presentation surface.
#[derive(Clone, Copy, Debug, PartialEq, Eq, Structural)]
pub enum GuiOp {
    Launch(Launch),
    MoveCursor(Direction),
    ShowWindows,
    SelectCurrent,
}

/// The side effect the surrounding loop must perform after a transition.
#[derive(Clone, Copy, Debug, PartialEq, Eq, Structural)]
pub enum SwitcherAction {
    /// No effect.
    DoNothing,
    /// Acquire and show the presentation surface.
    AcquireSurface,
    /// Redraw the highlight after a cursor move.
    UpdateHighlight,
    /// Ask the compositor to focus the window with this handle, release the
    /// presentation surface, and reacquire the keep-alive lease.
    ActivateAndRelease(u64),
}

/// The switcher is either Closed (idle, keep-alive lease held) or Open over
/// a point-in-time snapshot of the registry with a cursor on one group.
pub enum SwitcherState {
    Closed,
    Open { snapshot: Vec<crate::registry::AppGroup>, frames: Vec<SelectableFrame>, cursor: usize },
}

impl SwitcherState {
    /// The groups the open switcher presents; empty while Closed.
    pub open spec fn spec_groups(&self) -> Seq<GroupModel> {
        match self {
            SwitcherState::Closed => Seq::empty(),
            SwitcherState::Open { snapshot, .. } => snapshot.deep_view(),
        }
    }

    /// The cursor position; zero while Closed.
    pub open spec fn spec_cursor(&self) -> int {
        match self {
            SwitcherState::Closed => 0,
            SwitcherState::Open { cursor, .. } => *cursor as int,
        }
    }

    /// Whether the switcher is open.
    pub open spec fn is_open(&self) -> bool {
        self is Open
    }

    /// Well-formedness: an open switcher has one frame per group, every
    /// group non-empty, the cursor in range (or zero over no groups), and
    /// exactly the frame under the cursor highlighted.
    pub open spec fn wf(&self) -> bool {
        match self {
            SwitcherState::Closed => true,
            SwitcherState::Open { snapshot, frames, cursor } => {
                let n = snapshot.deep_view().len();
                &&& frames@.len() == n
                &&& groups_nonempty(snapshot.deep_view())
                &&& (n == 0 ==> *cursor == 0)
                &&& (n > 0 ==> (*cursor as int) < n)
                &&& (forall|k: int|
                    0 <= k < n ==> (#[trigger] frames@[k]@ <==> k == *cursor as int))
            },
        }
    }
}

/// The cursor after one move over `n` groups: one step with wrap-around.
pub open spec fn next_cursor(cursor: int, n: int, dir: Direction) -> int
    recommends
        0 <= cursor < n,
{
    match dir {
        Direction::Next => (cursor + 1) % n,
        Direction::Prev => (cursor - 1 + n) % n,
    }
}

/// Law: `Next` at the last valid index wraps to zero and `Prev` at index
/// zero wraps to the last index; every other move is one plain step.
pub proof fn lemma_cursor_wraps(cursor: int, n: int)
    requires
        n > 0,
        0 <= cursor < n,
    ensures
        cursor == n - 1 ==> next_cursor(cursor, n, Direction::Next) == 0,
        cursor < n - 1 ==> next_cursor(cursor, n, Direction::Next) == cursor + 1,
        cursor == 0 ==> next_cursor(cursor, n, Direction::Prev) == n - 1,
        cursor > 0 ==> next_cursor(cursor, n, Direction::Prev) == cursor - 1,
{
    if cursor == n - 1 {
        assert((cursor + 1) % n == 0) by (nonlinear_arith)
            requires
                n > 0,
                cursor == n - 1,
        ;
    }
    if cursor < n - 1 {
        assert((cursor + 1) % n == cursor + 1) by (nonlinear_arith)
            requires
                n > 0,
                0 <= cursor < n - 1,
        ;
    }
    if cursor == 0 {
        assert((cursor - 1 + n) % n == n - 1) by (nonlinear_arith)
            requires
                n > 0,
                cursor == 0,
        ;
    }
    if cursor > 0 {
        assert((cursor - 1 + n) % n == cursor - 1) by (nonlinear_arith)
            requires
                n > 0,
                0 < cursor < n,
        ;
    }
}

/// One transition of the switcher state machine, per the command table:
/// Launch opens over a fresh registry snapshot (or is ignored when already
/// open); MoveCursor steps the highlight with wrap-around; SelectCurrent
/// activates the front window of the group under the cursor and closes;
/// ShowWindows is a deliberate no-op; cursor and selection commands are
/// no-ops while Closed or over an empty snapshot.
pub fn step(state: SwitcherState, op: GuiOp, registry: &WindowRegistry) -> (r: (
    SwitcherState,
    SwitcherAction,
))
    requires
        state.wf(),
        registry.wf(),
    ensures
        r.0.wf(),
        !state.is_open() && op is Launch ==> {
            &&& r.0.is_open()
            &&& r.0.spec_groups() == registry@
            &&& r.0.spec_cursor() == 0
            &&& r.1 == SwitcherAction::AcquireSurface
        },
        state.is_open() && op is Launch ==> r.0 == state && r.1 == SwitcherAction::DoNothing,
        !state.is_open() && op is MoveCursor ==> r.0 == state && r.1 == SwitcherAction::DoNothing,
        state.is_open() && op is MoveCursor && state.spec_groups().len() == 0 ==> r.0 == state
            && r.1 == SwitcherAction::DoNothing,
        state.is_open() && state.spec_groups().len() > 0 ==> (op matches GuiOp::MoveCursor(d)
            ==> {
            &&& r.0.is_open()
            &&& r.0.spec_groups() == state.spec_groups()
            &&& r.0.spec_cursor() == next_cursor(
                state.spec_cursor(),
                state.spec_groups().len() as int,
                d,
            )
            &&& r.1 == SwitcherAction::UpdateHighlight
        }),
        op is ShowWindows ==> r.0 == state && r.1 == SwitcherAction::DoNothing,
        !state.is_open() && op is SelectCurrent ==> r.0 == state
            && r.1 == SwitcherAction::DoNothing,
        state.is_open() && op is SelectCurrent && state.spec_groups().len() == 0 ==> r.0 == state
            && r.1 == SwitcherAction::DoNothing,
        state.is_open() && op is SelectCurrent && state.spec_groups().len() > 0 ==> {
            &&& r.0 is Closed
            &&& r.1 == SwitcherAction::ActivateAndRelease(
                state.spec_groups()[state.spec_cursor()].windows[0].handle,
            )
        },
{
    match op {
        GuiOp::Launch(_) => {
            match state {
                SwitcherState::Closed => {
                    let snapshot = registry.snapshot();
                    let n = snapshot.len();
                    let mut frames: Vec<SelectableFrame> = Vec::new();
                    let mut i: usize = 0;
                    while i < n
                        invariant
                            i <= n,
                            frames@.len() == i,
                            forall|k: int| 0 <= k < i ==> !(#[trigger] frames@[k]@),
                        decreases n - i,
                    {
                        frames.push(SelectableFrame::new());
                        i += 1;
                    }
                    if n > 0 {
                        frames[0].select();
                    }
                    (
                        SwitcherState::Open { snapshot, frames, cursor: 0 },
                        SwitcherAction::AcquireSurface,
                    )
                },
                SwitcherState::Open { snapshot, frames, cursor } => (
                    SwitcherState::Open { snapshot, frames, cursor },
                    SwitcherAction::DoNothing,
                ),
            }
        },
        GuiOp::MoveCursor(d) => {
            match state {
                SwitcherState::Closed => (SwitcherState::Closed, SwitcherAction::DoNothing),
                SwitcherState::Open { snapshot, mut frames, cursor } => {
                    let n = snapshot.len();
                    if n == 0 {
                        (
                            SwitcherState::Open { snapshot, frames, cursor },
                            SwitcherAction::DoNothing,
                        )
                    } else {
                        frames[cursor].deselect();
                        let moved: usize = match d {
                            Direction::Prev => if cursor == 0 {
                                n - 1
                            } else {
                                cursor - 1
                            },
                            Direction::Next => if cursor == n - 1 {
                                0
                            } else {
                                cursor + 1
                            },
                        };
                        frames[moved].select();
                        proof {
                            lemma_cursor_wraps(cursor as int, n as int);
                        }
                        (
                            SwitcherState::Open { snapshot, frames, cursor: moved },
                            SwitcherAction::UpdateHighlight,
                        )
                    }
                },
            }
        },
        GuiOp::ShowWindows => (state, SwitcherAction::DoNothing),
        GuiOp::SelectCurrent => {
            match state {
                SwitcherState::Closed => (SwitcherState::Closed, SwitcherAction::DoNothing),
                SwitcherState::Open { snapshot, frames, cursor } => {
                    let n = snapshot.len();
                    if n == 0 {
                        (
                            SwitcherState::Open { snapshot, frames, cursor },
                            SwitcherAction::DoNothing,
                        )
                    } else {
                        proof {
                            assert(snapshot.deep_view()[cursor as int] == snapshot@[
                                cursor as int]@);
                            assert(snapshot.deep_view()[cursor as int].windows.len() > 0);
                            assert(snapshot@[cursor as int].windows.deep_view()[0] == snapshot@[
                                cursor as int].windows@[0]@);
                        }
                        let handle = snapshot[cursor].windows[0].handle;
                        (SwitcherState::Closed, SwitcherAction::ActivateAndRelease(handle))
                    }
                },
            }
        },
    }
}

} // verus!
