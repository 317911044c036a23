//! The keyboard side of the terminal interface as a state machine: a key
//! changes the input line, the menus and the session list, and says what
//! the interface must do (send a command, answer an edit approval, redraw).

use vstd::prelude::*;
use crate::messages::{ApprovalResponse, Command, CommandView, PermissionResponse};
use crate::text::{push_str, replace_all, string_from};
use crate::ui_text::sanitize_chars;

verus! {

/// Entries of the main menu.
pub const MENU_ITEM_COUNT: usize = 6;

/// Entries of the reasoning-level menu: low, medium, high.
pub const REASONING_LEVEL_COUNT: usize = 3;

/// A key as the interface reads it; `Ctrl` is a character typed with the
/// control modifier alone.
#[derive(Debug, Clone, Copy, PartialEq, Eq, Structural)]
pub enum Key {
    Char(char),
    Ctrl(char),
    Enter,
    Left,
    Right,
    Home,
    End,
    Backspace,
    Delete,
    Up,
    Down,
    Esc,
    Other,
}

/// The colour of a notice line.
#[derive(Debug, Clone, Copy, PartialEq, Eq, Structural)]
pub enum Tone {
    Yellow,
    Green,
}

/// What must be drawn after a key.
#[derive(Debug, Clone, Copy, PartialEq, Eq, Structural)]
pub enum Render {
    Nothing,
    Menu,
    ReasoningMenu,
    SessionList,
}

/// What the interface does after a key, in this order: answer the pending
/// edit approval, print the user's message, send the command, clear the
/// screen (and print the header), draw, print the notice.
pub struct KeyOutcome {
    pub reply: Option<ApprovalResponse>,
    pub echo: Option<String>,
    pub command: Option<Command>,
    pub clear_screen: bool,
    pub render: Render,
    pub notice: Option<(String, Tone)>,
}

/// A `KeyOutcome` with its texts as character sequences.
pub struct OutcomeView {
    pub reply: Option<ApprovalResponse>,
    pub echo: Option<Seq<char>>,
    pub command: Option<CommandView>,
    pub clear_screen: bool,
    pub render: Render,
    pub notice: Option<(Seq<char>, Tone)>,
}

/// The answer that a key gives to a permission prompt: `y` allows the
/// call once, `a` allows it and remembers `suggested`, `n` or Esc refuses
/// it; any other key gives none.
pub fn permission_answer(key: Key, suggested: String) -> (r: Option<PermissionResponse>)
    ensures
        match key {
            Key::Char(c) => if c == 'y' || c == 'Y' {
                r matches Some(PermissionResponse::Yes)
            } else if c == 'a' || c == 'A' {
                r matches Some(PermissionResponse::YesAndDontAsk(p)) && p == suggested
            } else if c == 'n' || c == 'N' {
                r matches Some(PermissionResponse::No)
            } else {
                r is None
            },
            Key::Esc => r matches Some(PermissionResponse::No),
            _ => r is None,
        },
{
    match key {
        Key::Char(c) => if c == 'y' || c == 'Y' {
            Some(PermissionResponse::Yes)
        } else if c == 'a' || c == 'A' {
            Some(PermissionResponse::YesAndDontAsk(suggested))
        } else if c == 'n' || c == 'N' {
            Some(PermissionResponse::No)
        } else {
            None
        },
        Key::Esc => Some(PermissionResponse::No),
        _ => None,
    }
}

impl View for KeyOutcome {
    type V = OutcomeView;

    open spec fn view(&self) -> OutcomeView {
        OutcomeView {
            reply: self.reply,
            echo: match self.echo {
                Some(e) => Some(e@),
                None => None,
            },
            command: match self.command {
                Some(c) => Some(c@),
                None => None,
            },
            clear_screen: self.clear_screen,
            render: self.render,
            notice: match self.notice {
                Some((t, tone)) => Some((t@, tone)),
                None => None,
            },
        }
    }
}

/// The state of the keyboard side of the interface.
pub struct InputState {
    /// The line being typed.
    pub input: Vec<char>,
    /// The cursor, as a character index into `input`.
    pub cursor: usize,
    /// An edit waits for the user's approval.
    pub awaiting_approval: bool,
    pub show_menu: bool,
    pub menu_selected: usize,
    pub show_reasoning_menu: bool,
    pub reasoning_selected: usize,
    pub show_session_list: bool,
    /// The identifiers of the listed sessions, in display order.
    pub session_ids: Vec<String>,
    pub session_selected: usize,
    pub should_quit: bool,
    pub input_needs_render: bool,
}

/// An `InputState` as mathematical values.
pub struct InputView {
    pub input: Seq<char>,
    pub cursor: int,
    pub awaiting_approval: bool,
    pub show_menu: bool,
    pub menu_selected: int,
    pub show_reasoning_menu: bool,
    pub reasoning_selected: int,
    pub show_session_list: bool,
    pub session_ids: Seq<Seq<char>>,
    pub session_selected: int,
    pub should_quit: bool,
    pub input_needs_render: bool,
}

impl View for InputState {
    type V = InputView;

    open spec fn view(&self) -> InputView {
        InputView {
            input: self.input@,
            cursor: self.cursor as int,
            awaiting_approval: self.awaiting_approval,
            show_menu: self.show_menu,
            menu_selected: self.menu_selected as int,
            show_reasoning_menu: self.show_reasoning_menu,
            reasoning_selected: self.reasoning_selected as int,
            show_session_list: self.show_session_list,
            session_ids: self.session_ids@.map_values(|s: String| s@),
            session_selected: self.session_selected as int,
            should_quit: self.should_quit,
            input_needs_render: self.input_needs_render,
        }
    }
}

/// The kind of an update that the agent sends to the interface.
#[derive(Debug, Clone, Copy, PartialEq, Eq, Structural)]
pub enum UpdateKind {
    AssistantText,
    AssistantTextDelta,
    AssistantThinking,
    ToolExecutionStarted,
    ToolResult,
    Error,
    Complete,
    SessionSaved,
    SessionLoaded,
    SessionList,
    ConversationCleared,
    EditPreview,
    MenuDisplayRequested,
    SystemMessage,
    TokenStatsUpdate,
    PermissionPrompt,
    InformationalDiff,
}

/// Whether the input line is drawn again after an update of kind `kind`,
/// `was_streaming` telling whether a reply was streaming before it: after
/// a whole reply, a tool's result, an error, a system message, the token
/// counts or an informational diff, and after the end of a streamed reply.
pub open spec fn redraw_after(kind: UpdateKind, was_streaming: bool) -> bool {
    match kind {
        UpdateKind::AssistantText => true,
        UpdateKind::ToolResult => true,
        UpdateKind::Error => true,
        UpdateKind::Complete => was_streaming,
        UpdateKind::SystemMessage => true,
        UpdateKind::TokenStatsUpdate => true,
        UpdateKind::InformationalDiff => true,
        _ => false,
    }
}

/// The cursor stays within the input and every selection within its list.
pub open spec fn input_wf(s: InputView) -> bool {
    &&& 0 <= s.cursor <= s.input.len()
    &&& 0 <= s.menu_selected < MENU_ITEM_COUNT
    &&& 0 <= s.reasoning_selected < REASONING_LEVEL_COUNT
    &&& 0 <= s.session_selected
    &&& (s.session_selected == 0 || s.session_selected < s.session_ids.len())
}

/// Nothing to do.
pub open spec fn quiet() -> OutcomeView {
    OutcomeView {
        reply: None,
        echo: None,
        command: None,
        clear_screen: false,
        render: Render::Nothing,
        notice: None,
    }
}

/// Only a redraw.
pub open spec fn redraw(r: Render) -> OutcomeView {
    OutcomeView { render: r, ..quiet() }
}

/// Only a command, then a cleared screen.
pub open spec fn send_and_clear(c: CommandView) -> OutcomeView {
    OutcomeView { command: Some(c), clear_screen: true, ..quiet() }
}

/// The name of the reasoning level at index `i`.
pub open spec fn level_name(i: int) -> Seq<char> {
    if i == 0 {
        "low"@
    } else if i == 2 {
        "high"@
    } else {
        "medium"@
    }
}

/// A key while an edit waits for approval: `a` approves, `r` rejects (in
/// either case), anything else is ignored.
pub open spec fn approval_step(s: InputView, k: Key) -> (InputView, OutcomeView) {
    let answer = match k {
        Key::Char(c) => c,
        Key::Ctrl(c) => c,
        _ => ' ',
    };
    if answer == 'a' || answer == 'A' {
        (
            InputView { awaiting_approval: false, ..s },
            OutcomeView { reply: Some(ApprovalResponse::Approve), clear_screen: true, ..quiet() },
        )
    } else if answer == 'r' || answer == 'R' {
        (
            InputView { awaiting_approval: false, ..s },
            OutcomeView { reply: Some(ApprovalResponse::Reject), clear_screen: true, ..quiet() },
        )
    } else {
        (s, quiet())
    }
}

/// Choosing the selected entry of the main menu.
pub open spec fn menu_choice(s: InputView) -> (InputView, OutcomeView) {
    let closed = InputView { show_menu: false, ..s };
    if s.menu_selected == 0 {
        (
            InputView { input: seq![], cursor: 0, input_needs_render: true, ..closed },
            OutcomeView {
                clear_screen: true,
                notice: Some(("Enter session name:"@, Tone::Yellow)),
                ..quiet()
            },
        )
    } else if s.menu_selected == 1 {
        (closed, send_and_clear(CommandView::SaveSession))
    } else if s.menu_selected == 2 {
        (closed, send_and_clear(CommandView::NewSession))
    } else if s.menu_selected == 3 {
        (
            InputView { show_reasoning_menu: true, reasoning_selected: 1, ..closed },
            redraw(Render::ReasoningMenu),
        )
    } else if s.menu_selected == 4 || s.menu_selected == 5 {
        (closed, OutcomeView { clear_screen: true, ..quiet() })
    } else {
        (s, quiet())
    }
}

/// A key while the main menu is shown.
pub open spec fn menu_step(s: InputView, k: Key) -> (InputView, OutcomeView) {
    match k {
        Key::Up => if s.menu_selected > 0 {
            (InputView { menu_selected: s.menu_selected - 1, ..s }, redraw(Render::Menu))
        } else {
            (s, quiet())
        },
        Key::Down => if s.menu_selected < MENU_ITEM_COUNT - 1 {
            (InputView { menu_selected: s.menu_selected + 1, ..s }, redraw(Render::Menu))
        } else {
            (s, quiet())
        },
        Key::Enter => menu_choice(s),
        Key::Esc => (
            InputView { show_menu: false, ..s },
            OutcomeView { clear_screen: true, ..quiet() },
        ),
        _ => (s, quiet()),
    }
}

/// A key while the reasoning-level menu is shown.
pub open spec fn reasoning_step(s: InputView, k: Key) -> (InputView, OutcomeView) {
    match k {
        Key::Up => if s.reasoning_selected > 0 {
            (
                InputView { reasoning_selected: s.reasoning_selected - 1, ..s },
                redraw(Render::ReasoningMenu),
            )
        } else {
            (s, quiet())
        },
        Key::Down => if s.reasoning_selected < REASONING_LEVEL_COUNT - 1 {
            (
                InputView { reasoning_selected: s.reasoning_selected + 1, ..s },
                redraw(Render::ReasoningMenu),
            )
        } else {
            (s, quiet())
        },
        Key::Enter => (
            InputView { show_reasoning_menu: false, ..s },
            OutcomeView {
                command: Some(CommandView::SetReasoningLevel(level_name(s.reasoning_selected))),
                clear_screen: true,
                notice: Some(
                    ("Reasoning level set to: "@ + level_name(s.reasoning_selected), Tone::Green),
                ),
                ..quiet()
            },
        ),
        Key::Esc => (
            InputView { show_reasoning_menu: false, show_menu: true, ..s },
            redraw(Render::Menu),
        ),
        _ => (s, quiet()),
    }
}

/// A key while the list of saved sessions is shown.
pub open spec fn session_step(s: InputView, k: Key) -> (InputView, OutcomeView) {
    match k {
        Key::Up => if s.session_selected > 0 {
            (
                InputView { session_selected: s.session_selected - 1, ..s },
                redraw(Render::SessionList),
            )
        } else {
            (s, quiet())
        },
        Key::Down => if s.session_selected + 1 < s.session_ids.len() {
            (
                InputView { session_selected: s.session_selected + 1, ..s },
                redraw(Render::SessionList),
            )
        } else {
            (s, quiet())
        },
        Key::Enter => if s.session_selected < s.session_ids.len() {
            (
                InputView { show_session_list: false, ..s },
                send_and_clear(CommandView::LoadSession(s.session_ids[s.session_selected])),
            )
        } else {
            (s, quiet())
        },
        Key::Esc => (
            InputView { show_session_list: false, ..s },
            OutcomeView { clear_screen: true, ..quiet() },
        ),
        _ => (s, quiet()),
    }
}

/// A key that edits the input line or sends it.
pub open spec fn edit_step(s: InputView, k: Key) -> (InputView, OutcomeView) {
    let moved = |c: int| InputView { cursor: c, input_needs_render: true, ..s };
    match k {
        Key::Ctrl('c') => (s, OutcomeView { command: Some(CommandView::Cancel), ..quiet() }),
        Key::Ctrl('d') => (
            InputView { should_quit: true, ..s },
            OutcomeView { command: Some(CommandView::Shutdown), ..quiet() },
        ),
        Key::Ctrl('s') => (s, OutcomeView { command: Some(CommandView::SaveSession), ..quiet() }),
        Key::Ctrl('n') => (s, OutcomeView { command: Some(CommandView::NewSession), ..quiet() }),
        Key::Ctrl('l') => (s, OutcomeView { command: Some(CommandView::ListSessions), ..quiet() }),
        Key::Ctrl('m') => (InputView { show_menu: true, menu_selected: 0, ..s }, redraw(Render::Menu)),
        Key::Enter => if s.input.len() > 0 {
            (
                InputView { input: seq![], cursor: 0, ..s },
                OutcomeView {
                    echo: Some(replace_all(s.input, seq!['\t'], seq![' ', ' ', ' ', ' '])),
                    command: Some(CommandView::SendMessage(s.input)),
                    ..quiet()
                },
            )
        } else {
            (s, quiet())
        },
        Key::Left => if s.cursor > 0 {
            (moved(s.cursor - 1), quiet())
        } else {
            (s, quiet())
        },
        Key::Right => if s.cursor < s.input.len() {
            (moved(s.cursor + 1), quiet())
        } else {
            (s, quiet())
        },
        Key::Home | Key::Ctrl('a') => (moved(0), quiet()),
        Key::End | Key::Ctrl('e') => (moved(s.input.len() as int), quiet()),
        Key::Char(c) | Key::Ctrl(c) => (
            InputView {
                input: s.input.insert(s.cursor, c),
                cursor: s.cursor + 1,
                input_needs_render: true,
                ..s
            },
            quiet(),
        ),
        Key::Backspace => if s.cursor > 0 {
            (
                InputView {
                    input: s.input.remove(s.cursor - 1),
                    cursor: s.cursor - 1,
                    input_needs_render: true,
                    ..s
                },
                quiet(),
            )
        } else {
            (s, quiet())
        },
        Key::Delete => if s.cursor < s.input.len() {
            (InputView { input: s.input.remove(s.cursor), input_needs_render: true, ..s }, quiet())
        } else {
            (s, quiet())
        },
        _ => (s, quiet()),
    }
}

/// A key, handled by the first of these that is active: a pending edit
/// approval, the main menu, the reasoning-level menu, the session list,
/// the input line.
pub open spec fn key_step(s: InputView, k: Key) -> (InputView, OutcomeView) {
    if s.awaiting_approval {
        approval_step(s, k)
    } else if s.show_menu {
        menu_step(s, k)
    } else if s.show_reasoning_menu {
        reasoning_step(s, k)
    } else if s.show_session_list {
        session_step(s, k)
    } else {
        edit_step(s, k)
    }
}

/// The input line is active: no approval, menu or session list takes the
/// keys.
pub open spec fn editing(s: InputView) -> bool {
    !s.awaiting_approval && !s.show_menu && !s.show_reasoning_menu && !s.show_session_list
}

/// Typing a character and then deleting it with backspace gives back the
/// same input line and cursor.
pub proof fn law_type_then_backspace(s: InputView, c: char)
    requires
        input_wf(s),
        editing(s),
    ensures
        key_step(key_step(s, Key::Char(c)).0, Key::Backspace).0 == (InputView {
            input_needs_render: true,
            ..s
        }),
{
    let t = key_step(s, Key::Char(c)).0;
    assert(t.input == s.input.insert(s.cursor, c));
    assert(t.input.remove(s.cursor) =~= s.input);
}

/// Delete removes the character under the cursor: the characters before
/// the cursor stay, the ones after it move one place left, and the cursor
/// stays; at the end of the line nothing changes.
pub proof fn law_delete_removes_under_cursor(s: InputView)
    requires
        input_wf(s),
        editing(s),
    ensures
        ({
            let t = key_step(s, Key::Delete).0;
            &&& t.cursor == s.cursor
            &&& s.cursor < s.input.len() ==> {
                &&& t.input.len() == s.input.len() - 1
                &&& forall|j: int| 0 <= j < s.cursor ==> #[trigger] t.input[j] == s.input[j]
                &&& forall|j: int| s.cursor <= j < s.input.len() - 1 ==> #[trigger] t.input[j] == s.input[j + 1]
            }
            &&& s.cursor == s.input.len() ==> t.input == s.input
        }),
{
}

/// Backspace removes the character before the cursor, which moves one
/// place left; at the start of the line nothing changes.
pub proof fn law_backspace_removes_before_cursor(s: InputView)
    requires
        input_wf(s),
        editing(s),
    ensures
        ({
            let t = key_step(s, Key::Backspace).0;
            &&& s.cursor > 0 ==> {
                &&& t.cursor == s.cursor - 1
                &&& t.input.len() == s.input.len() - 1
                &&& forall|j: int| 0 <= j < s.cursor - 1 ==> #[trigger] t.input[j] == s.input[j]
                &&& forall|j: int| s.cursor - 1 <= j < s.input.len() - 1 ==> #[trigger] t.input[j] == s.input[j + 1]
            }
            &&& s.cursor == 0 ==> t.input == s.input && t.cursor == 0
        }),
{
}

/// A typed character goes in at the cursor, which moves past it; the
/// characters after the cursor move one place right.
pub proof fn law_typed_char_inserted_at_cursor(s: InputView, c: char)
    requires
        input_wf(s),
        editing(s),
    ensures
        ({
            let t = key_step(s, Key::Char(c)).0;
            &&& t.cursor == s.cursor + 1
            &&& t.input.len() == s.input.len() + 1
            &&& t.input[s.cursor] == c
            &&& forall|j: int| 0 <= j < s.cursor ==> #[trigger] t.input[j] == s.input[j]
            &&& forall|j: int| s.cursor <= j < s.input.len() ==> #[trigger] t.input[j + 1] == s.input[j]
        }),
{
}

/// The arrow, Home and End keys move the cursor by one place, to the
/// start or to the end, without going past either end, and leave the line
/// as it is.
pub proof fn law_cursor_keys_move_only_the_cursor(s: InputView)
    requires
        input_wf(s),
        editing(s),
    ensures
        key_step(s, Key::Left).0.input == s.input,
        key_step(s, Key::Right).0.input == s.input,
        key_step(s, Key::Home).0.input == s.input,
        key_step(s, Key::End).0.input == s.input,
        key_step(s, Key::Left).0.cursor == if s.cursor > 0 { s.cursor - 1 } else { 0 },
        key_step(s, Key::Right).0.cursor == if s.cursor < s.input.len() {
            s.cursor + 1
        } else {
            s.input.len() as int
        },
        key_step(s, Key::Home).0.cursor == 0,
        key_step(s, Key::End).0.cursor == s.input.len(),
{
}

/// Enter sends a line that is not empty, as it was typed, and empties it;
/// an empty line sends nothing.
pub proof fn law_enter_sends_the_line(s: InputView)
    requires
        input_wf(s),
        editing(s),
    ensures
        s.input.len() > 0 ==> key_step(s, Key::Enter).1.command == Some(CommandView::SendMessage(s.input))
            && key_step(s, Key::Enter).0.input.len() == 0 && key_step(s, Key::Enter).0.cursor == 0,
        s.input.len() == 0 ==> key_step(s, Key::Enter).1.command is None,
{
}

/// While an edit waits for approval, `a` or `A` approves it and `r` or `R`
/// rejects it, either answer ending the wait; any other key answers
/// nothing, sends nothing and changes nothing.
pub proof fn law_approval_keys(s: InputView, k: Key)
    requires
        s.awaiting_approval,
    ensures
        ({
            let (t, o) = key_step(s, k);
            &&& (k == Key::Char('a') || k == Key::Char('A')) ==> o.reply == Some(ApprovalResponse::Approve)
                && !t.awaiting_approval
            &&& (k == Key::Char('r') || k == Key::Char('R')) ==> o.reply == Some(ApprovalResponse::Reject)
                && !t.awaiting_approval
            &&& o.command is None
            &&& o.reply is None ==> t == s
        }),
{
}

/// In the session list, Enter loads the selected session and closes the
/// list; the arrows move the selection within the list; Esc closes it
/// without loading anything.
pub proof fn law_session_list_keys(s: InputView, k: Key)
    requires
        input_wf(s),
        !s.awaiting_approval,
        !s.show_menu,
        !s.show_reasoning_menu,
        s.show_session_list,
    ensures
        ({
            let (t, o) = key_step(s, k);
            &&& k == Key::Enter && s.session_selected < s.session_ids.len() ==> o.command == Some(
                CommandView::LoadSession(s.session_ids[s.session_selected]),
            ) && !t.show_session_list
            &&& k == Key::Esc ==> o.command is None && !t.show_session_list
            &&& (k == Key::Up || k == Key::Down) ==> o.command is None && t.session_ids == s.session_ids && (
            t.session_selected == 0 || t.session_selected < t.session_ids.len())
            &&& k == Key::Up && s.session_selected > 0 ==> t.session_selected == s.session_selected - 1
            &&& k == Key::Down && s.session_selected + 1 < s.session_ids.len() ==> t.session_selected
                == s.session_selected + 1
        }),
{
}

/// Enter in the reasoning menu sets the selected level, named low, medium
/// or high from the top.
pub proof fn law_reasoning_levels(s: InputView)
    requires
        input_wf(s),
        !s.awaiting_approval,
        !s.show_menu,
        s.show_reasoning_menu,
    ensures
        ({
            let o = key_step(s, Key::Enter).1;
            &&& s.reasoning_selected == 0 ==> o.command == Some(CommandView::SetReasoningLevel("low"@))
            &&& s.reasoning_selected == 1 ==> o.command == Some(CommandView::SetReasoningLevel("medium"@))
            &&& s.reasoning_selected == 2 ==> o.command == Some(CommandView::SetReasoningLevel("high"@))
            &&& !key_step(s, Key::Enter).0.show_reasoning_menu
        }),
{
}

/// In the main menu, the second entry saves the session and the third
/// starts a new one; Esc closes the menu without a command.
pub proof fn law_menu_entries(s: InputView)
    requires
        input_wf(s),
        !s.awaiting_approval,
        s.show_menu,
    ensures
        s.menu_selected == 1 ==> key_step(s, Key::Enter).1.command == Some(CommandView::SaveSession),
        s.menu_selected == 2 ==> key_step(s, Key::Enter).1.command == Some(CommandView::NewSession),
        key_step(s, Key::Enter).1.command is Some ==> !key_step(s, Key::Enter).0.show_menu,
        key_step(s, Key::Esc).1.command is None && !key_step(s, Key::Esc).0.show_menu,
{
}

/// A key never takes the cursor out of the input line nor a selection out
/// of its list.
pub proof fn law_key_keeps_wf(s: InputView, k: Key)
    requires
        input_wf(s),
    ensures
        input_wf(key_step(s, k).0),
{
}

fn quiet_outcome() -> (r: KeyOutcome)
    ensures
        r@ == quiet(),
{
    KeyOutcome {
        reply: None,
        echo: None,
        command: None,
        clear_screen: false,
        render: Render::Nothing,
        notice: None,
    }
}

fn redraw_outcome(what: Render) -> (r: KeyOutcome)
    ensures
        r@ == redraw(what),
{
    KeyOutcome { render: what, ..quiet_outcome() }
}

fn send_and_clear_outcome(c: Command) -> (r: KeyOutcome)
    ensures
        r@ == send_and_clear(c@),
{
    KeyOutcome { command: Some(c), clear_screen: true, ..quiet_outcome() }
}

fn level_name_str(i: usize) -> (r: &'static str)
    ensures
        r@ == level_name(i as int),
{
    if i == 0 {
        "low"
    } else if i == 2 {
        "high"
    } else {
        "medium"
    }
}

impl InputState {
    /// The state is well formed.
    pub open spec fn wf(&self) -> bool {
        input_wf(self@)
    }

    /// An empty input line with no menu shown; the reasoning menu starts at
    /// "medium".
    pub fn new() -> (r: InputState)
        ensures
            r.wf(),
            r@.input.len() == 0,
            r@.cursor == 0,
            !r@.awaiting_approval,
            !r@.show_menu,
            r@.menu_selected == 0,
            !r@.show_reasoning_menu,
            r@.reasoning_selected == 1,
            !r@.show_session_list,
            r@.session_ids.len() == 0,
            r@.session_selected == 0,
            !r@.should_quit,
            r@.input_needs_render,
    {
        InputState {
            input: Vec::new(),
            cursor: 0,
            awaiting_approval: false,
            show_menu: false,
            menu_selected: 0,
            show_reasoning_menu: false,
            reasoning_selected: 1,
            show_session_list: false,
            session_ids: Vec::new(),
            session_selected: 0,
            should_quit: false,
            input_needs_render: true,
        }
    }

    /// Shows the sessions `ids`, with the first one selected.
    pub fn show_sessions(&mut self, ids: Vec<String>)
        requires
            old(self).wf(),
        ensures
            final(self)@ == (InputView {
                session_ids: ids@.map_values(|s: String| s@),
                show_session_list: true,
                session_selected: 0,
                ..old(self)@
            }),
            final(self).wf(),
    {
        self.session_ids = ids;
        self.show_session_list = true;
        self.session_selected = 0;
    }

    /// A session was loaded: the session list closes.
    pub fn session_loaded(&mut self)
        requires
            old(self).wf(),
        ensures
            final(self)@ == (InputView { show_session_list: false, ..old(self)@ }),
            final(self).wf(),
    {
        self.show_session_list = false;
    }

    /// An update of kind `kind` was shown, a reply streaming before it when
    /// `was_streaming`: the input line is marked to be drawn again when
    /// `redraw_after` says so; nothing else changes.
    pub fn after_update(&mut self, kind: UpdateKind, was_streaming: bool)
        ensures
            final(self)@ == (InputView {
                input_needs_render: redraw_after(kind, was_streaming) || old(self)@.input_needs_render,
                ..old(self)@
            }),
    {
        let redraw = match kind {
            UpdateKind::AssistantText => true,
            UpdateKind::ToolResult => true,
            UpdateKind::Error => true,
            UpdateKind::Complete => was_streaming,
            UpdateKind::SystemMessage => true,
            UpdateKind::TokenStatsUpdate => true,
            UpdateKind::InformationalDiff => true,
            _ => false,
        };
        if redraw {
            self.input_needs_render = true;
        }
    }

    /// An edit now waits for the user's approval.
    pub fn await_approval(&mut self)
        requires
            old(self).wf(),
        ensures
            final(self)@ == (InputView { awaiting_approval: true, ..old(self)@ }),
            final(self).wf(),
    {
        self.awaiting_approval = true;
    }

    fn approval_key(&mut self, key: Key) -> (r: KeyOutcome)
        ensures
            (final(self)@, r@) == approval_step(old(self)@, key),
    {
        let answer = match key {
            Key::Char(c) => c,
            Key::Ctrl(c) => c,
            _ => ' ',
        };
        if answer == 'a' || answer == 'A' {
            self.awaiting_approval = false;
            KeyOutcome {
                reply: Some(ApprovalResponse::Approve),
                clear_screen: true,
                ..quiet_outcome()
            }
        } else if answer == 'r' || answer == 'R' {
            self.awaiting_approval = false;
            KeyOutcome { reply: Some(ApprovalResponse::Reject), clear_screen: true, ..quiet_outcome() }
        } else {
            quiet_outcome()
        }
    }

    fn menu_choice(&mut self) -> (r: KeyOutcome)
        ensures
            (final(self)@, r@) == menu_choice(old(self)@),
    {
        let sel = self.menu_selected;
        if sel == 0 {
            self.show_menu = false;
            self.input = Vec::new();
            self.cursor = 0;
            self.input_needs_render = true;
            let mut prompt: Vec<char> = Vec::new();
            push_str(&mut prompt, "Enter session name:");
            KeyOutcome {
                clear_screen: true,
                notice: Some((string_from(prompt.as_slice()), Tone::Yellow)),
                ..quiet_outcome()
            }
        } else if sel == 1 {
            self.show_menu = false;
            send_and_clear_outcome(Command::SaveSession)
        } else if sel == 2 {
            self.show_menu = false;
            send_and_clear_outcome(Command::NewSession)
        } else if sel == 3 {
            self.show_menu = false;
            self.show_reasoning_menu = true;
            self.reasoning_selected = 1;
            redraw_outcome(Render::ReasoningMenu)
        } else if sel == 4 || sel == 5 {
            self.show_menu = false;
            KeyOutcome { clear_screen: true, ..quiet_outcome() }
        } else {
            quiet_outcome()
        }
    }

    fn menu_key(&mut self, key: Key) -> (r: KeyOutcome)
        ensures
            (final(self)@, r@) == menu_step(old(self)@, key),
    {
        match key {
            Key::Up => {
                if self.menu_selected > 0 {
                    self.menu_selected = self.menu_selected - 1;
                    redraw_outcome(Render::Menu)
                } else {
                    quiet_outcome()
                }
            },
            Key::Down => {
                if self.menu_selected < MENU_ITEM_COUNT - 1 {
                    self.menu_selected = self.menu_selected + 1;
                    redraw_outcome(Render::Menu)
                } else {
                    quiet_outcome()
                }
            },
            Key::Enter => self.menu_choice(),
            Key::Esc => {
                self.show_menu = false;
                KeyOutcome { clear_screen: true, ..quiet_outcome() }
            },
            _ => quiet_outcome(),
        }
    }

    fn reasoning_key(&mut self, key: Key) -> (r: KeyOutcome)
        ensures
            (final(self)@, r@) == reasoning_step(old(self)@, key),
    {
        match key {
            Key::Up => {
                if self.reasoning_selected > 0 {
                    self.reasoning_selected = self.reasoning_selected - 1;
                    redraw_outcome(Render::ReasoningMenu)
                } else {
                    quiet_outcome()
                }
            },
            Key::Down => {
                if self.reasoning_selected < REASONING_LEVEL_COUNT - 1 {
                    self.reasoning_selected = self.reasoning_selected + 1;
                    redraw_outcome(Render::ReasoningMenu)
                } else {
                    quiet_outcome()
                }
            },
            Key::Enter => {
                let level = level_name_str(self.reasoning_selected);
                let mut name: Vec<char> = Vec::new();
                push_str(&mut name, level);
                let mut note: Vec<char> = Vec::new();
                push_str(&mut note, "Reasoning level set to: ");
                push_str(&mut note, level);
                self.show_reasoning_menu = false;
                KeyOutcome {
                    command: Some(Command::SetReasoningLevel(string_from(name.as_slice()))),
                    clear_screen: true,
                    notice: Some((string_from(note.as_slice()), Tone::Green)),
                    ..quiet_outcome()
                }
            },
            Key::Esc => {
                self.show_reasoning_menu = false;
                self.show_menu = true;
                redraw_outcome(Render::Menu)
            },
            _ => quiet_outcome(),
        }
    }

    fn session_key(&mut self, key: Key) -> (r: KeyOutcome)
        ensures
            (final(self)@, r@) == session_step(old(self)@, key),
    {
        match key {
            Key::Up => {
                if self.session_selected > 0 {
                    self.session_selected = self.session_selected - 1;
                    redraw_outcome(Render::SessionList)
                } else {
                    quiet_outcome()
                }
            },
            Key::Down => {
                if self.session_selected < self.session_ids.len()
                    && self.session_selected + 1 < self.session_ids.len() {
                    self.session_selected = self.session_selected + 1;
                    redraw_outcome(Render::SessionList)
                } else {
                    quiet_outcome()
                }
            },
            Key::Enter => {
                if self.session_selected < self.session_ids.len() {
                    let id = self.session_ids[self.session_selected].clone();
                    self.show_session_list = false;
                    send_and_clear_outcome(Command::LoadSession(id))
                } else {
                    quiet_outcome()
                }
            },
            Key::Esc => {
                self.show_session_list = false;
                KeyOutcome { clear_screen: true, ..quiet_outcome() }
            },
            _ => quiet_outcome(),
        }
    }

    fn edit_key(&mut self, key: Key) -> (r: KeyOutcome)
        requires
            old(self).wf(),
        ensures
            (final(self)@, r@) == edit_step(old(self)@, key),
    {
        match key {
            Key::Ctrl('c') => KeyOutcome { command: Some(Command::Cancel), ..quiet_outcome() },
            Key::Ctrl('d') => {
                self.should_quit = true;
                KeyOutcome { command: Some(Command::Shutdown), ..quiet_outcome() }
            },
            Key::Ctrl('s') => KeyOutcome { command: Some(Command::SaveSession), ..quiet_outcome() },
            Key::Ctrl('n') => KeyOutcome { command: Some(Command::NewSession), ..quiet_outcome() },
            Key::Ctrl('l') => KeyOutcome { command: Some(Command::ListSessions), ..quiet_outcome() },
            Key::Ctrl('m') => {
                self.show_menu = true;
                self.menu_selected = 0;
                redraw_outcome(Render::Menu)
            },
            Key::Enter => {
                if self.input.len() > 0 {
                    let echo = sanitize_chars(self.input.as_slice());
                    let msg = string_from(self.input.as_slice());
                    self.input = Vec::new();
                    self.cursor = 0;
                    KeyOutcome {
                        echo: Some(string_from(echo.as_slice())),
                        command: Some(Command::SendMessage(msg)),
                        ..quiet_outcome()
                    }
                } else {
                    quiet_outcome()
                }
            },
            Key::Left => {
                if self.cursor > 0 {
                    self.cursor = self.cursor - 1;
                    self.input_needs_render = true;
                }
                quiet_outcome()
            },
            Key::Right => {
                if self.cursor < self.input.len() {
                    self.cursor = self.cursor + 1;
                    self.input_needs_render = true;
                }
                quiet_outcome()
            },
            Key::Home | Key::Ctrl('a') => {
                self.cursor = 0;
                self.input_needs_render = true;
                quiet_outcome()
            },
            Key::End | Key::Ctrl('e') => {
                self.cursor = self.input.len();
                self.input_needs_render = true;
                quiet_outcome()
            },
            Key::Char(c) | Key::Ctrl(c) => {
                self.input.insert(self.cursor, c);
                let n = self.input.len();
                assert(self.cursor < n);
                self.cursor = self.cursor + 1;
                self.input_needs_render = true;
                quiet_outcome()
            },
            Key::Backspace => {
                if self.cursor > 0 {
                    self.cursor = self.cursor - 1;
                    self.input.remove(self.cursor);
                    self.input_needs_render = true;
                }
                quiet_outcome()
            },
            Key::Delete => {
                if self.cursor < self.input.len() {
                    self.input.remove(self.cursor);
                    self.input_needs_render = true;
                }
                quiet_outcome()
            },
            _ => quiet_outcome(),
        }
    }

    /// Handles one key: see `key_step`. The state stays well formed.
    pub fn handle_key(&mut self, key: Key) -> (r: KeyOutcome)
        requires
            old(self).wf(),
        ensures
            (final(self)@, r@) == key_step(old(self)@, key),
            final(self).wf(),
    {
        if self.awaiting_approval {
            self.approval_key(key)
        } else if self.show_menu {
            self.menu_key(key)
        } else if self.show_reasoning_menu {
            self.reasoning_key(key)
        } else if self.show_session_list {
            self.session_key(key)
        } else {
            self.edit_key(key)
        }
    }
}

} // verus!
