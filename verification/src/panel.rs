//! The queue panel's keystroke handling: a pure state machine from panel
//! state and key to the next state and a requested effect. The terminal
//! plumbing lives outside the library — it draws the state, performs the
//! requested effect, and hands refreshed task lines back through
//! [`PanelState::set_tasks`].

use vstd::prelude::*;
use crate::text::chars_to_string;

verus! {

/// A keystroke the panel reacts to.
#[derive(Debug, Clone, Copy, PartialEq, Eq, Structural)]
pub enum PanelKey {
    Char(char),
    Esc,
    Backspace,
    Up,
    Down,
}

/// What the front end is asked to do after a keystroke.
#[derive(Debug)]
pub enum PanelEffect {
    /// Nothing beyond redrawing.
    Stay,
    /// Reload the task lines from the store.
    Refresh,
    /// Queue the typed command, then reload the task lines.
    SubmitAndRefresh(String),
    /// Cancel the task at this position, then reload the task lines.
    CancelAndRefresh(usize),
}

/// The mathematical image of an effect.
pub ghost enum EffectView {
    Stay,
    Refresh,
    SubmitAndRefresh(Seq<char>),
    CancelAndRefresh(int),
}

impl View for PanelEffect {
    type V = EffectView;

    open spec fn view(&self) -> EffectView {
        match self {
            PanelEffect::Stay => EffectView::Stay,
            PanelEffect::Refresh => EffectView::Refresh,
            PanelEffect::SubmitAndRefresh(s) => EffectView::SubmitAndRefresh(s@),
            PanelEffect::CancelAndRefresh(i) => EffectView::CancelAndRefresh(*i as int),
        }
    }
}

/// The panel's state: the task lines on display, the selection, and the
/// command being typed.
pub struct PanelState {
    /// One display line per task.
    pub tasks: Vec<String>,
    /// Whether keystrokes are collected into a command.
    pub input_mode: bool,
    /// The command typed so far.
    pub current_input: Vec<char>,
    /// Position of the selection in the task list.
    pub selected_index: usize,
}

/// The mathematical image of the panel state.
pub ghost struct PanelView {
    pub tasks: Seq<Seq<char>>,
    pub input_mode: bool,
    pub current_input: Seq<char>,
    pub selected_index: int,
}

impl View for PanelState {
    type V = PanelView;

    open spec fn view(&self) -> PanelView {
        PanelView {
            tasks: self.tasks.deep_view(),
            input_mode: self.input_mode,
            current_input: self.current_input@,
            selected_index: self.selected_index as int,
        }
    }
}

/// The state after one keystroke.
pub open spec fn step_state(v: PanelView, key: PanelKey) -> PanelView {
    if v.input_mode {
        match key {
            PanelKey::Char(c) => {
                if c == '\n' {
                    PanelView { input_mode: false, current_input: Seq::empty(), ..v }
                } else {
                    PanelView { current_input: v.current_input.push(c), ..v }
                }
            },
            PanelKey::Esc => PanelView { input_mode: false, current_input: Seq::empty(), ..v },
            PanelKey::Backspace => PanelView {
                current_input: if v.current_input.len() == 0 {
                    v.current_input
                } else {
                    v.current_input.drop_last()
                },
                ..v
            },
            _ => v,
        }
    } else {
        match key {
            PanelKey::Char(c) => {
                if c == 'i' {
                    PanelView { input_mode: true, ..v }
                } else if c == 'j' {
                    step_down(v)
                } else if c == 'k' {
                    step_up(v)
                } else {
                    v
                }
            },
            PanelKey::Down => step_down(v),
            PanelKey::Up => step_up(v),
            _ => v,
        }
    }
}

/// Selection moved one line down, stopping at the last task.
pub open spec fn step_down(v: PanelView) -> PanelView {
    if v.selected_index + 1 < v.tasks.len() {
        PanelView { selected_index: v.selected_index + 1, ..v }
    } else {
        v
    }
}

/// Selection moved one line up, stopping at the first task.
pub open spec fn step_up(v: PanelView) -> PanelView {
    if v.selected_index > 0 {
        PanelView { selected_index: v.selected_index - 1, ..v }
    } else {
        v
    }
}

/// Whether the keystroke was consumed (and the panel should redraw).
pub open spec fn step_handled(v: PanelView, key: PanelKey) -> bool {
    if v.input_mode {
        match key {
            PanelKey::Char(_) => true,
            PanelKey::Esc => true,
            PanelKey::Backspace => true,
            _ => false,
        }
    } else {
        match key {
            PanelKey::Char(c) => c == 'i' || c == 'r' || c == 'j' || c == 'k' || c == 'd',
            PanelKey::Down => true,
            PanelKey::Up => true,
            _ => false,
        }
    }
}

/// The effect requested by one keystroke: submitting the typed command
/// when one is present, a reload, or a cancellation of the selection.
pub open spec fn step_effect(v: PanelView, key: PanelKey) -> EffectView {
    if v.input_mode {
        match key {
            PanelKey::Char(c) => {
                if c == '\n' && v.current_input.len() > 0 {
                    EffectView::SubmitAndRefresh(v.current_input)
                } else {
                    EffectView::Stay
                }
            },
            _ => EffectView::Stay,
        }
    } else {
        match key {
            PanelKey::Char(c) => {
                if c == 'r' {
                    EffectView::Refresh
                } else if c == 'd' && v.selected_index < v.tasks.len() {
                    EffectView::CancelAndRefresh(v.selected_index)
                } else {
                    EffectView::Stay
                }
            },
            _ => EffectView::Stay,
        }
    }
}

impl PanelState {
    /// A fresh panel: no tasks, no input, selection at the top.
    pub fn new() -> (r: PanelState)
        ensures
            r@.tasks == Seq::<Seq<char>>::empty(),
            !r@.input_mode,
            r@.current_input == Seq::<char>::empty(),
            r@.selected_index == 0,
    {
        let r = PanelState {
            tasks: Vec::new(),
            input_mode: false,
            current_input: Vec::new(),
            selected_index: 0,
        };
        proof {
            assert(r@.tasks =~~= Seq::<Seq<char>>::empty());
        }
        r
    }

    /// Replaces the task lines with freshly loaded ones.
    pub fn set_tasks(&mut self, tasks: Vec<String>)
        ensures
            final(self)@ == (PanelView { tasks: tasks.deep_view(), ..old(self)@ }),
    {
        self.tasks = tasks;
    }

    /// Reacts to one keystroke: updates the state and reports whether the
    /// key was consumed and which effect the front end must perform.
    pub fn handle_key(&mut self, key: PanelKey) -> (r: (bool, PanelEffect))
        ensures
            final(self)@ == step_state(old(self)@, key),
            r.0 == step_handled(old(self)@, key),
            r.1@ == step_effect(old(self)@, key),
    {
        if self.input_mode {
            match key {
                PanelKey::Char(c) => {
                    if c == '\n' {
                        let effect = if self.current_input.len() > 0 {
                            PanelEffect::SubmitAndRefresh(chars_to_string(&self.current_input))
                        } else {
                            PanelEffect::Stay
                        };
                        self.input_mode = false;
                        self.current_input = Vec::new();
                        (true, effect)
                    } else {
                        self.current_input.push(c);
                        (true, PanelEffect::Stay)
                    }
                },
                PanelKey::Esc => {
                    self.input_mode = false;
                    self.current_input = Vec::new();
                    (true, PanelEffect::Stay)
                },
                PanelKey::Backspace => {
                    let _popped = self.current_input.pop();
                    proof {
                        if old(self)@.current_input.len() > 0 {
                            assert(self.current_input@ =~= old(self)@.current_input.drop_last());
                        }
                    }
                    (true, PanelEffect::Stay)
                },
                _ => (false, PanelEffect::Stay),
            }
        } else {
            match key {
                PanelKey::Char(c) => {
                    if c == 'i' {
                        self.input_mode = true;
                        (true, PanelEffect::Stay)
                    } else if c == 'r' {
                        (true, PanelEffect::Refresh)
                    } else if c == 'j' {
                        self.move_down();
                        (true, PanelEffect::Stay)
                    } else if c == 'k' {
                        self.move_up();
                        (true, PanelEffect::Stay)
                    } else if c == 'd' {
                        if self.selected_index < self.tasks.len() {
                            (true, PanelEffect::CancelAndRefresh(self.selected_index))
                        } else {
                            (true, PanelEffect::Stay)
                        }
                    } else {
                        (false, PanelEffect::Stay)
                    }
                },
                PanelKey::Down => {
                    self.move_down();
                    (true, PanelEffect::Stay)
                },
                PanelKey::Up => {
                    self.move_up();
                    (true, PanelEffect::Stay)
                },
                _ => (false, PanelEffect::Stay),
            }
        }
    }

    /// Moves the selection one line down, stopping at the last task.
    fn move_down(&mut self)
        ensures
            final(self)@ == step_down(old(self)@),
    {
        if self.selected_index < self.tasks.len() && self.selected_index + 1 < self.tasks.len() {
            self.selected_index = self.selected_index + 1;
        }
    }

    /// Moves the selection one line up, stopping at the first task.
    fn move_up(&mut self)
        ensures
            final(self)@ == step_up(old(self)@),
    {
        if self.selected_index > 0 {
            self.selected_index = self.selected_index - 1;
        }
    }
}

} // verus!
