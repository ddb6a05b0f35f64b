//! The decisions of the input loop: what an input event asks the editor to
//! do, and when a frame is drawn.
//!
//! The loop itself runs outside this library. It hands each event that it
//! receives to [`dispatch`], performs the actions that come back in order,
//! and asks [`LoopState::end_frame`] what to do once the pending events are
//! drained.

use crate::keybinding::{normalize, normalized, KeyBinding, KeyModifiers, KeyTable};
use vstd::prelude::*;

verus! {

/// The key code of the escape key. Key codes are those of SDL.
pub const KEY_ESCAPE: u32 = 27;

/// The key code of the left shift key.
pub const KEY_LEFT_SHIFT: u32 = 0x4000_00e1;

/// The key code of the right shift key.
pub const KEY_RIGHT_SHIFT: u32 = 0x4000_00e5;

/// How long the loop waits before it polls again after a frame without
/// events, in milliseconds.
pub const IDLE_WAIT_MS: u64 = 10;

/// An input event, as plain values.
#[derive(Debug, Clone, PartialEq, Eq)]
pub enum InputEvent {
    /// A key went down. `key` is `None` where the backend knows no key code.
    KeyDown { key: Option<u32>, modifiers: KeyModifiers },
    /// A key went up.
    KeyUp { key: Option<u32> },
    /// Text was typed or composed.
    TextInput { text: String },
    /// The window has a new size, in pixels.
    SizeChanged { width: usize, height: usize },
    /// The window is asked to close.
    Quit,
    /// Any other event.
    Other,
}

/// What the loop is asked to do.
#[derive(Debug, Clone, Copy, PartialEq, Eq, Structural)]
pub enum Action {
    /// Run the command of this index against the active view.
    RunCommand(usize),
    /// Leave the loop.
    Quit,
    /// Give the window this width and height.
    Resize(usize, usize),
    /// Start a selection in the active view.
    StartSelection,
    /// End the selection in the active view.
    EndSelection,
    /// Insert the character into the active view.
    InsertChar(char),
}

/// `key` is one of the two shift keys.
pub open spec fn is_shift(key: u32) -> bool {
    key == KEY_LEFT_SHIFT || key == KEY_RIGHT_SHIFT
}

/// The actions that insert `text`: one per character, in order.
pub open spec fn insertions(text: Seq<char>) -> Seq<Action>
    decreases text.len(),
{
    if text.len() == 0 {
        Seq::empty()
    } else {
        insertions(text.drop_last()).push(Action::InsertChar(text.last()))
    }
}

/// The command that a key press runs: the one that `table` binds to the key
/// and the normalized modifiers, if any.
pub open spec fn command_actions(event: InputEvent, table: Map<KeyBinding, usize>) -> Seq<Action> {
    match event {
        InputEvent::KeyDown { key: Some(k), modifiers } => {
            let kb = KeyBinding { key: k, mods: normalized(modifiers) };
            if table.contains_key(kb) {
                seq![Action::RunCommand(table[kb])]
            } else {
                Seq::empty()
            }
        },
        _ => Seq::empty(),
    }
}

/// What an event asks beside a bound command: escape and a close request
/// quit, a shift key starts a selection when it goes down and ends it when it
/// goes up, a new size resizes, and typed text is inserted character by
/// character in its order.
pub open spec fn window_actions(event: InputEvent) -> Seq<Action> {
    match event {
        InputEvent::KeyDown { key: Some(k), .. } => {
            if k == KEY_ESCAPE {
                seq![Action::Quit]
            } else if is_shift(k) {
                seq![Action::StartSelection]
            } else {
                Seq::empty()
            }
        },
        InputEvent::KeyDown { key: None, .. } => Seq::empty(),
        InputEvent::KeyUp { key: Some(k) } => {
            if is_shift(k) {
                seq![Action::EndSelection]
            } else {
                Seq::empty()
            }
        },
        InputEvent::KeyUp { key: None } => Seq::empty(),
        InputEvent::TextInput { text } => insertions(text@),
        InputEvent::SizeChanged { width, height } => seq![Action::Resize(width, height)],
        InputEvent::Quit => seq![Action::Quit],
        InputEvent::Other => Seq::empty(),
    }
}

/// All actions of an event, in the order in which they are due: the bound
/// command first.
pub open spec fn actions_for(event: InputEvent, table: Map<KeyBinding, usize>) -> Seq<Action> {
    command_actions(event, table) + window_actions(event)
}

/// Appends one `InsertChar` for each character of `text`, in order.
fn push_text(actions: &mut Vec<Action>, text: &str)
    ensures
        final(actions)@ == old(actions)@ + insertions(text@),
{
    let n = text.unicode_len();
    let mut i: usize = 0;
    assert(actions@ =~= old(actions)@ + insertions(text@.take(0)));
    while i < n
        invariant
            n == text@.len(),
            i <= n,
            actions@ == old(actions)@ + insertions(text@.take(i as int)),
        decreases n - i,
    {
        let c = text.get_char(i);
        actions.push(Action::InsertChar(c));
        i = i + 1;
        assert(text@.take(i as int).drop_last() =~= text@.take(i - 1));
        assert(actions@ =~= old(actions)@ + insertions(text@.take(i as int)));
    }
    assert(text@.take(n as int) =~= text@);
}

/// Returns what `event` asks the loop to do, in order.
pub fn dispatch(event: &InputEvent, table: &KeyTable) -> (actions: Vec<Action>)
    ensures
        actions@ == actions_for(*event, table@),
{
    let mut actions: Vec<Action> = Vec::new();
    match event {
        InputEvent::KeyDown { key: Some(k), modifiers } => {
            let kb = KeyBinding::new(*k, normalize(modifiers));
            match table.get(&kb) {
                Some(command) => {
                    actions.push(Action::RunCommand(command));
                },
                None => {},
            }
            assert(actions@ =~= command_actions(*event, table@));
            if *k == KEY_ESCAPE {
                actions.push(Action::Quit);
            } else if *k == KEY_LEFT_SHIFT || *k == KEY_RIGHT_SHIFT {
                actions.push(Action::StartSelection);
            }
            assert(actions@ =~= command_actions(*event, table@) + window_actions(*event));
        },
        InputEvent::KeyDown { key: None, .. } => {},
        InputEvent::KeyUp { key: Some(k) } => {
            if *k == KEY_LEFT_SHIFT || *k == KEY_RIGHT_SHIFT {
                actions.push(Action::EndSelection);
            }
        },
        InputEvent::KeyUp { key: None } => {},
        InputEvent::TextInput { text } => {
            push_text(&mut actions, text.as_str());
        },
        InputEvent::SizeChanged { width, height } => {
            actions.push(Action::Resize(*width, *height));
        },
        InputEvent::Quit => {
            actions.push(Action::Quit);
        },
        InputEvent::Other => {},
    }
    assert(actions@ =~= actions_for(*event, table@));
    actions
}

/// The state of the loop between two frames.
#[derive(Debug, Clone, Copy, PartialEq, Eq, Structural)]
pub enum LoopState {
    /// No event came since the last frame was drawn.
    Idle,
    /// An event came: the next frame is drawn.
    RedrawPending,
}

/// What the loop does once the pending events of a frame are drained.
#[derive(Debug, Clone, Copy, PartialEq, Eq, Structural)]
pub enum FrameStep {
    /// Run the render pipeline once and replay its display list.
    Render,
    /// Draw nothing and wait this many milliseconds.
    Sleep(u64),
}

impl LoopState {
    /// The state in which the loop starts: the first frame is drawn.
    pub fn start() -> (state: Self)
        ensures
            state == LoopState::RedrawPending,
    {
        LoopState::RedrawPending
    }

    /// The state after an event was received, whatever it was.
    pub fn on_event(self) -> (state: Self)
        ensures
            state == LoopState::RedrawPending,
    {
        LoopState::RedrawPending
    }

    /// Ends a frame: a frame with events is rendered, one without waits; the
    /// loop is idle afterwards.
    pub fn end_frame(self) -> (next: (FrameStep, LoopState))
        ensures
            next.1 == LoopState::Idle,
            self == LoopState::RedrawPending ==> next.0 == FrameStep::Render,
            self == LoopState::Idle ==> next.0 == FrameStep::Sleep(IDLE_WAIT_MS),
    {
        match self {
            LoopState::RedrawPending => (FrameStep::Render, LoopState::Idle),
            LoopState::Idle => (FrameStep::Sleep(IDLE_WAIT_MS), LoopState::Idle),
        }
    }
}

} // verus!
