//! The daemon's session: whether the window is shown, the state of modal
//! input, and the selected row. Every event of the daemon's loop (the
//! toggle signal, the reload signal, a key press, a rebuilt list) is handed
//! to the session, which moves its state on and says what the caller has to
//! do.

use crate::common::keys::{
    char_of, key_to_char, match_action, resolve, Action, KeyPress, KeybindTable, VimMode,
    KEY_RETURN,
};
use crate::common::vim::{handle_key, transition, ModalState, VimAction};
use vstd::prelude::*;

verus! {

/// How many rows a page motion moves.
pub const PAGE_ROWS: usize = 10;

/// What the caller does for the daemon.
#[derive(Clone, Copy, Debug, PartialEq, Eq, Structural)]
pub enum Effect {
    HideWindow,
    /// Read the configuration anew and hand it to the session with
    /// `configure`.
    ReloadConfig,
    /// Fetch the candidates anew and hand their number to the session with
    /// `set_rows`.
    RefreshCandidates,
    /// Empty the query.
    ClearQuery,
    ShowWindow,
    /// Load the stylesheet anew and apply it.
    ReapplyStyle,
}

/// A motion of the selection.
#[derive(Clone, Copy, Debug, PartialEq, Eq, Structural)]
pub enum Motion {
    Next,
    Prev,
    PageDown,
    PageUp,
    First,
    Last,
}

/// The widget that has the keyboard focus.
#[derive(Clone, Copy, Debug, PartialEq, Eq, Structural)]
pub enum Focus {
    Search,
    List,
}

/// Where the caret of the search field goes when Insert mode is entered.
#[derive(Clone, Copy, Debug, PartialEq, Eq, Structural)]
pub enum Caret {
    Keep,
    Start,
    End,
}

/// What a key press asks the caller to do.
#[derive(Clone, Copy, Debug, PartialEq, Eq, Structural)]
pub enum Request {
    Nothing,
    /// Hide the window.
    Hide,
    /// Act on the candidate at `row` of the filtered list: copy it, or
    /// launch it.
    Activate { row: usize },
    /// Delete the candidate at `row` of the filtered list, then refresh the
    /// list.
    Delete { row: usize },
    /// Empty the query.
    ClearSearch,
    /// Select `row` and scroll to it.
    MoveTo { row: usize },
    /// Give the search field the focus.
    FocusSearch { caret: Caret },
    /// Give the list the focus.
    FocusList,
}

/// The answer to a key press.
#[derive(Clone, Copy, Debug, PartialEq, Eq, Structural)]
pub struct KeyOutcome {
    /// Whether the key press is consumed. One that is not goes on to the
    /// search field.
    pub stop: bool,
    pub request: Request,
}

/// The state of the daemon between events.
#[derive(Clone, Copy, Debug, PartialEq, Eq, Structural)]
pub struct Session {
    /// Whether the window is shown.
    pub visible: bool,
    /// Whether modal input is enabled.
    pub vim_mode: bool,
    /// Whether this tool can delete candidates.
    pub allow_delete: bool,
    pub modal: ModalState,
    /// The number of rows in the list.
    pub rows: usize,
    /// The selected row.
    pub selected: Option<usize>,
}

/// The row that a motion leads to, if it leads anywhere. `Next` and `Prev`
/// move by one row and stop at the ends; the page motions move by ten rows
/// and stop at the ends; `First` and `Last` go to the ends. All but `First`
/// and `Last` need a selected row; those two need a row.
pub open spec fn target(selected: Option<usize>, rows: usize, motion: Motion) -> Option<usize> {
    match motion {
        Motion::Next => match selected {
            Some(r) => if r + 1 < rows {
                Some((r + 1) as usize)
            } else {
                None
            },
            None => None,
        },
        Motion::Prev => match selected {
            Some(r) => if 0 < r <= rows {
                Some((r - 1) as usize)
            } else {
                None
            },
            None => None,
        },
        Motion::PageDown => match selected {
            Some(r) => if rows == 0 {
                None
            } else if r + PAGE_ROWS < rows {
                Some((r + PAGE_ROWS) as usize)
            } else {
                Some((rows - 1) as usize)
            },
            None => None,
        },
        Motion::PageUp => match selected {
            Some(r) => if rows == 0 {
                None
            } else if r >= rows {
                Some((rows - 1) as usize)
            } else if r >= PAGE_ROWS {
                Some((r - PAGE_ROWS) as usize)
            } else {
                Some(0)
            },
            None => None,
        },
        Motion::First => if rows > 0 {
            Some(0)
        } else {
            None
        },
        Motion::Last => if rows > 0 {
            Some((rows - 1) as usize)
        } else {
            None
        },
    }
}

/// What an action asks for, given the selection.
pub open spec fn request_of(s: Session, action: Action) -> Request {
    match action {
        Action::Close => Request::Hide,
        Action::Select => match s.selected {
            Some(row) => Request::Activate { row },
            None => Request::Nothing,
        },
        Action::Delete => match s.selected {
            Some(row) => if s.allow_delete {
                Request::Delete { row }
            } else {
                Request::Nothing
            },
            None => Request::Nothing,
        },
        Action::ClearSearch => Request::ClearSearch,
        Action::Next => move_request(s, Motion::Next),
        Action::Prev => move_request(s, Motion::Prev),
        Action::PageDown => move_request(s, Motion::PageDown),
        Action::PageUp => move_request(s, Motion::PageUp),
        Action::First => move_request(s, Motion::First),
        Action::Last => move_request(s, Motion::Last),
    }
}

/// The request of a motion: to move to its target, if it has one.
pub open spec fn move_request(s: Session, motion: Motion) -> Request {
    match target(s.selected, s.rows, motion) {
        Some(row) => Request::MoveTo { row },
        None => Request::Nothing,
    }
}

/// Where the caret goes for the key that entered Insert mode: to the end
/// for `a` and `A`, to the start for `I`, nowhere for `i` and `/`.
pub open spec fn caret_of(c: Option<char>) -> Caret {
    if c == Some('a') || c == Some('A') {
        Caret::End
    } else if c == Some('I') {
        Caret::Start
    } else {
        Caret::Keep
    }
}

/// What a modal action asks for, given the selection and the key that
/// gave the action.
pub open spec fn request_of_vim(s: Session, action: VimAction, press: KeyPress) -> Request {
    match action {
        VimAction::Close => Request::Hide,
        VimAction::Select => request_of(s, Action::Select),
        VimAction::Delete => request_of(s, Action::Delete),
        VimAction::EnterInsert => Request::FocusSearch { caret: caret_of(char_of(press.unicode)) },
        VimAction::ExitInsert => Request::FocusList,
        VimAction::Down => move_request(s, Motion::Next),
        VimAction::Up => move_request(s, Motion::Prev),
        VimAction::Top => move_request(s, Motion::First),
        VimAction::Bottom => move_request(s, Motion::Last),
        VimAction::HalfPageDown => move_request(s, Motion::PageDown),
        VimAction::HalfPageUp => move_request(s, Motion::PageUp),
    }
}

/// The session after a request: hidden for `Hide`, with the new row
/// selected for `MoveTo`, else as it was.
pub open spec fn after_request(s: Session, request: Request) -> Session {
    match request {
        Request::Hide => Session { visible: false, ..s },
        Request::MoveTo { row } => Session { selected: Some(row), ..s },
        _ => s,
    }
}

/// The session after a key press, and the answer to it.
///
/// With modal input, Normal mode consumes every key and asks for what the
/// state machine's action stands for; Insert mode consumes Escape, which
/// leaves it, and Return, which activates the selected row, and lets every
/// other key go on to the search field. Without modal input the key
/// bindings decide: a bound key is consumed and asks for its action, any
/// other key goes on.
pub open spec fn key_outcome(s: Session, table: KeybindTable, press: KeyPress) -> (
    Session,
    KeyOutcome,
) {
    if s.vim_mode {
        let (modal, action) = transition(s.modal, press, s.allow_delete);
        let t = Session { modal, ..s };
        match action {
            Some(a) => {
                let request = request_of_vim(t, a, press);
                (after_request(t, request), KeyOutcome { stop: true, request })
            },
            None => if s.modal.mode == VimMode::Normal {
                (t, KeyOutcome { stop: true, request: Request::Nothing })
            } else if press.key == KEY_RETURN {
                let request = request_of(t, Action::Select);
                (after_request(t, request), KeyOutcome { stop: true, request })
            } else {
                (t, KeyOutcome { stop: false, request: Request::Nothing })
            },
        }
    } else {
        match resolve(table, press.key, press.mods) {
            Some(a) => {
                let request = request_of(s, a);
                (after_request(s, request), KeyOutcome { stop: true, request })
            },
            None => (s, KeyOutcome { stop: false, request: Request::Nothing }),
        }
    }
}

/// The effects of showing the window, in order.
pub open spec fn show_effects() -> Seq<Effect> {
    seq![
        Effect::ReloadConfig,
        Effect::RefreshCandidates,
        Effect::ClearQuery,
        Effect::ShowWindow,
    ]
}

/// The session after the toggle signal: hidden where it was shown; else
/// shown, in Normal mode with no key pending, and with an empty list until
/// the candidates are refreshed.
pub open spec fn toggled(s: Session) -> Session {
    if s.visible {
        Session { visible: false, ..s }
    } else {
        Session {
            visible: true,
            modal: ModalState { mode: VimMode::Normal, pending: None },
            rows: 0,
            selected: None,
            ..s
        }
    }
}

impl Session {
    /// The selected row is a row of the list, and the modal state is well
    /// formed.
    pub open spec fn wf(self) -> bool {
        &&& self.selected matches Some(r) ==> r < self.rows
        &&& self.modal.wf()
    }

    /// The session of a daemon that has just started: nothing shown yet,
    /// Normal mode, no rows.
    pub fn new(vim_mode: bool, allow_delete: bool) -> (r: Self)
        ensures
            r == (Session {
                visible: false,
                vim_mode,
                allow_delete,
                modal: ModalState { mode: VimMode::Normal, pending: None },
                rows: 0,
                selected: None,
            }),
            r.wf(),
    {
        Session {
            visible: false,
            vim_mode,
            allow_delete,
            modal: ModalState::new(),
            rows: 0,
            selected: None,
        }
    }

    /// Handles the toggle signal, and the first activation. A window that
    /// is shown is hidden. A window that is hidden is shown: the
    /// configuration is loaded anew, the candidates are refreshed, the query
    /// is emptied, modal input goes back to Normal mode.
    pub fn toggle(&mut self) -> (effects: Vec<Effect>)
        ensures
            *final(self) == toggled(*old(self)),
            effects@ == if old(self).visible {
                seq![Effect::HideWindow]
            } else {
                show_effects()
            },
            old(self).wf() ==> final(self).wf(),
    {
        let mut effects: Vec<Effect> = Vec::new();
        if self.visible {
            self.visible = false;
            effects.push(Effect::HideWindow);
        } else {
            self.visible = true;
            self.modal = ModalState::new();
            self.rows = 0;
            self.selected = None;
            effects.push(Effect::ReloadConfig);
            effects.push(Effect::RefreshCandidates);
            effects.push(Effect::ClearQuery);
            effects.push(Effect::ShowWindow);
        }
        effects
    }

    /// Handles the reload signal: the configuration and the stylesheet are
    /// loaded anew. Whether the window is shown, the list and the selection
    /// stay as they are.
    pub fn reload_style(&self) -> (effects: Vec<Effect>)
        ensures
            effects@ == seq![Effect::ReloadConfig, Effect::ReapplyStyle],
    {
        let mut effects: Vec<Effect> = Vec::new();
        effects.push(Effect::ReloadConfig);
        effects.push(Effect::ReapplyStyle);
        effects
    }

    /// Takes note that the window was hidden, as after a candidate was
    /// acted on.
    pub fn conceal(&mut self)
        ensures
            *final(self) == (Session { visible: false, ..*old(self) }),
            old(self).wf() ==> final(self).wf(),
    {
        self.visible = false;
    }

    /// Takes over what a newly loaded configuration says of modal input.
    pub fn configure(&mut self, vim_mode: bool)
        ensures
            *final(self) == (Session { vim_mode, ..*old(self) }),
            old(self).wf() ==> final(self).wf(),
    {
        self.vim_mode = vim_mode;
    }

    /// The widget that is to have the focus: the list in Normal mode of
    /// modal input, the search field otherwise.
    pub fn focus(&self) -> (r: Focus)
        ensures
            r == if self.vim_mode && self.modal.mode == VimMode::Normal {
                Focus::List
            } else {
                Focus::Search
            },
    {
        if self.vim_mode && self.modal.mode == VimMode::Normal {
            Focus::List
        } else {
            Focus::Search
        }
    }

    /// Takes over a rebuilt list of `rows` rows: its first row is selected,
    /// if it has one.
    pub fn set_rows(&mut self, rows: usize)
        ensures
            *final(self) == (Session {
                rows,
                selected: if rows > 0 {
                    Some(0usize)
                } else {
                    None
                },
                ..*old(self)
            }),
            old(self).modal.wf() ==> final(self).wf(),
    {
        self.rows = rows;
        self.selected = if rows > 0 {
            Some(0)
        } else {
            None
        };
    }

    /// The row that `motion` leads to, if it leads anywhere.
    pub fn motion_target(&self, motion: Motion) -> (r: Option<usize>)
        ensures
            r == target(self.selected, self.rows, motion),
            r matches Some(row) ==> row < self.rows,
    {
        let rows = self.rows;
        match motion {
            Motion::Next => match self.selected {
                Some(r) => {
                    if r < rows && r + 1 < rows {
                        Some(r + 1)
                    } else {
                        None
                    }
                },
                None => None,
            },
            Motion::Prev => match self.selected {
                Some(r) => {
                    if 0 < r && r <= rows {
                        Some(r - 1)
                    } else {
                        None
                    }
                },
                None => None,
            },
            Motion::PageDown => match self.selected {
                Some(r) => {
                    if rows == 0 {
                        None
                    } else if r < rows && rows - r > PAGE_ROWS {
                        Some(r + PAGE_ROWS)
                    } else {
                        Some(rows - 1)
                    }
                },
                None => None,
            },
            Motion::PageUp => match self.selected {
                Some(r) => {
                    if rows == 0 {
                        None
                    } else if r >= rows {
                        Some(rows - 1)
                    } else if r >= PAGE_ROWS {
                        Some(r - PAGE_ROWS)
                    } else {
                        Some(0)
                    }
                },
                None => None,
            },
            Motion::First => {
                if rows > 0 {
                    Some(0)
                } else {
                    None
                }
            },
            Motion::Last => {
                if rows > 0 {
                    Some(rows - 1)
                } else {
                    None
                }
            },
        }
    }

    fn ask_move(&self, motion: Motion) -> (r: Request)
        ensures
            r == move_request(*self, motion),
    {
        match self.motion_target(motion) {
            Some(row) => Request::MoveTo { row },
            None => Request::Nothing,
        }
    }

    fn ask(&self, action: Action) -> (r: Request)
        ensures
            r == request_of(*self, action),
    {
        match action {
            Action::Close => Request::Hide,
            Action::Select => match self.selected {
                Some(row) => Request::Activate { row },
                None => Request::Nothing,
            },
            Action::Delete => match self.selected {
                Some(row) => {
                    if self.allow_delete {
                        Request::Delete { row }
                    } else {
                        Request::Nothing
                    }
                },
                None => Request::Nothing,
            },
            Action::ClearSearch => Request::ClearSearch,
            Action::Next => self.ask_move(Motion::Next),
            Action::Prev => self.ask_move(Motion::Prev),
            Action::PageDown => self.ask_move(Motion::PageDown),
            Action::PageUp => self.ask_move(Motion::PageUp),
            Action::First => self.ask_move(Motion::First),
            Action::Last => self.ask_move(Motion::Last),
        }
    }

    fn ask_vim(&self, action: VimAction, press: KeyPress) -> (r: Request)
        ensures
            r == request_of_vim(*self, action, press),
    {
        match action {
            VimAction::Close => Request::Hide,
            VimAction::Select => self.ask(Action::Select),
            VimAction::Delete => self.ask(Action::Delete),
            VimAction::EnterInsert => {
                let c = key_to_char(press.unicode);
                let caret = if c == Some('a') || c == Some('A') {
                    Caret::End
                } else if c == Some('I') {
                    Caret::Start
                } else {
                    Caret::Keep
                };
                Request::FocusSearch { caret }
            },
            VimAction::ExitInsert => Request::FocusList,
            VimAction::Down => self.ask_move(Motion::Next),
            VimAction::Up => self.ask_move(Motion::Prev),
            VimAction::Top => self.ask_move(Motion::First),
            VimAction::Bottom => self.ask_move(Motion::Last),
            VimAction::HalfPageDown => self.ask_move(Motion::PageDown),
            VimAction::HalfPageUp => self.ask_move(Motion::PageUp),
        }
    }

    fn follow(&mut self, request: Request)
        ensures
            *final(self) == after_request(*old(self), request),
    {
        match request {
            Request::Hide => {
                self.visible = false;
            },
            Request::MoveTo { row } => {
                self.selected = Some(row);
            },
            _ => {},
        }
    }

    /// Handles a key press: moves the state on and says what the caller
    /// has to do, and whether the key press is consumed.
    pub fn handle_key(&mut self, keybinds: &KeybindTable, press: KeyPress) -> (r: KeyOutcome)
        ensures
            (*final(self), r) == key_outcome(*old(self), *keybinds, press),
            old(self).wf() ==> final(self).wf(),
    {
        if self.vim_mode {
            let was_normal = self.modal.mode == VimMode::Normal;
            let action = handle_key(&mut self.modal, press, self.allow_delete);
            match action {
                Some(a) => {
                    let request = self.ask_vim(a, press);
                    self.follow(request);
                    KeyOutcome { stop: true, request }
                },
                None => {
                    if was_normal {
                        KeyOutcome { stop: true, request: Request::Nothing }
                    } else if press.key == KEY_RETURN {
                        let request = self.ask(Action::Select);
                        self.follow(request);
                        KeyOutcome { stop: true, request }
                    } else {
                        KeyOutcome { stop: false, request: Request::Nothing }
                    }
                },
            }
        } else {
            match match_action(keybinds, press.key, press.mods) {
                Some(a) => {
                    let request = self.ask(a);
                    self.follow(request);
                    KeyOutcome { stop: true, request }
                },
                None => KeyOutcome { stop: false, request: Request::Nothing },
            }
        }
    }
}

/// The toggle signal flips whether the window is shown, and two of them
/// in a row leave it as it was.
pub proof fn lemma_toggle_flips(s: Session)
    ensures
        toggled(s).visible == !s.visible,
        toggled(toggled(s)).visible == s.visible,
{
}

/// A key press never selects a row that the list does not have, and it
/// changes nothing but the modal state, the selection and whether the
/// window is shown.
pub proof fn lemma_key_keeps_selection_in_range(s: Session, table: KeybindTable, press: KeyPress)
    requires
        s.wf(),
    ensures
        ({
            let (t, outcome) = key_outcome(s, table, press);
            &&& t.wf()
            &&& t.rows == s.rows
            &&& t.vim_mode == s.vim_mode
            &&& t.allow_delete == s.allow_delete
            &&& t.visible ==> s.visible
            &&& outcome.request matches Request::MoveTo { row } ==> row < s.rows && t.selected
                == Some(row)
            &&& outcome.request matches Request::Activate { row } ==> s.selected == Some(row)
            &&& outcome.request matches Request::Delete { row } ==> s.allow_delete && s.selected
                == Some(row)
            &&& !outcome.stop ==> outcome.request == Request::Nothing
        }),
{
}

} // verus!
