//! The application state and how keys and integrator reports change it.
//!
//! Handling a key may produce a message for the integrator (a submission or
//! an answer); the caller sends it.
use vstd::prelude::*;
use crate::edit::{
    BufferView, TextBuffer, buffer_valid, lemma_edits_keep_valid, max_text_bytes, spec_backspace,
    spec_delete, spec_insert_char, spec_move_end, spec_move_home, spec_move_left,
    spec_move_right,
};
use crate::integrator::IntegratorMessage;
use crate::settings::{DefaultsView, Settings, SettingsDefaults, SettingsView};
use crate::settings_tab::{SettingsTab, SettingsTabView, initial_tab, spec_tab_key, tab_has_room, tab_valid};
use crate::question::{
    Question, QuestionView, copy_question, parse_content, questions_view, scan_questions,
    sort_questions,
};
use crate::text::{
    byte_len, char_byte_len, chars_of, contains_chars, contains_seq, count_lines, decimal,
    decimal_chars, line_count, push_all, string_from_chars, trim, trim_chars,
};

verus! {

// ---------------------------------------------------------------------------
// Keys
// ---------------------------------------------------------------------------

/// No modifier key held.
pub const NO_MODIFIERS: u8 = 0;

/// The Shift modifier bit.
pub const SHIFT: u8 = 1;

/// The Control modifier bit.
pub const CONTROL: u8 = 2;

/// A key.
#[derive(Debug, Clone, Copy, PartialEq, Eq, Structural)]
pub enum KeyCode {
    Char(char),
    Enter,
    Backspace,
    Delete,
    Left,
    Right,
    Up,
    Down,
    Home,
    End,
    Tab,
    /// Shift+Tab, which terminals report as a key of its own.
    BackTab,
    Esc,
    /// Any other key; no handler reacts to it.
    Other,
}

/// A key press: the key and the modifier bits held with it
/// (Shift 1, Control 2, Alt 4, Super 8, Hyper 16, Meta 32).
#[derive(Debug, Clone, Copy, PartialEq, Eq, Structural)]
pub struct KeyEvent {
    pub code: KeyCode,
    pub modifiers: u8,
}

impl KeyEvent {
    pub fn new(code: KeyCode, modifiers: u8) -> (k: Self)
        ensures
            k.code == code,
            k.modifiers == modifiers,
    {
        KeyEvent { code, modifiers }
    }
}

/// Whether the key is Control held with the character `c` (and nothing else).
pub open spec fn is_ctrl(k: KeyEvent, c: char) -> bool {
    k.code == KeyCode::Char(c) && k.modifiers == CONTROL
}

fn key_is_ctrl(k: &KeyEvent, c: char) -> (r: bool)
    ensures
        r == is_ctrl(*k, c),
{
    match k.code {
        KeyCode::Char(x) => x == c && k.modifiers == CONTROL,
        _ => false,
    }
}

// ---------------------------------------------------------------------------
// State
// ---------------------------------------------------------------------------

/// Whether an integration is going on.
#[derive(Debug, Clone, Copy, PartialEq, Eq, Structural)]
pub enum AppState {
    Idle,
    Integrating,
    Error,
}

/// The tab shown.
#[derive(Debug, Clone, Copy, PartialEq, Eq, Structural)]
pub enum ActiveTab {
    TextInput,
    Questions,
    Spec,
    Settings,
}

/// The dialog for answering a question.
#[derive(Debug)]
pub struct AnswerDialog {
    pub question: Question,
    pub input: TextBuffer,
}

/// The mathematical value of an [`AnswerDialog`].
pub struct DialogView {
    pub question: QuestionView,
    pub input: BufferView,
}

/// The application state.
#[derive(Debug)]
pub struct App {
    /// The requirement being written.
    pub input: TextBuffer,
    /// The open questions, in list order.
    pub questions: Vec<Question>,
    pub status: String,
    pub state: AppState,
    /// Animation counter.
    pub tick: u64,
    pub should_quit: bool,
    pub active_tab: ActiveTab,
    /// The index of the focused question.
    pub question_focus: usize,
    pub answer_dialog: Option<AnswerDialog>,
    pub input_scroll: u16,
    pub detail_scroll: u16,
    /// Whether quitting waits for a confirmation.
    pub quit_dialog: bool,
    /// The spec file's text, when there is one.
    pub spec_content: Option<String>,
    pub spec_scroll: u16,
    /// The settings tab.
    pub settings_tab: SettingsTab,
}

/// The mathematical value of an [`App`].
pub struct AppView {
    pub input: BufferView,
    pub questions: Seq<QuestionView>,
    pub status: Seq<char>,
    pub state: AppState,
    pub tick: u64,
    pub should_quit: bool,
    pub active_tab: ActiveTab,
    pub question_focus: int,
    pub answer_dialog: Option<DialogView>,
    pub input_scroll: u16,
    pub detail_scroll: u16,
    pub quit_dialog: bool,
    pub spec_content: Option<Seq<char>>,
    pub spec_scroll: u16,
    pub settings_tab: SettingsTabView,
}

pub open spec fn dialog_view(d: Option<AnswerDialog>) -> Option<DialogView> {
    match d {
        Some(d) => Some(DialogView { question: d.question@, input: d.input@ }),
        None => None,
    }
}

impl View for App {
    type V = AppView;

    open spec fn view(&self) -> AppView {
        AppView {
            input: self.input@,
            questions: questions_view(self.questions@),
            status: self.status@,
            state: self.state,
            tick: self.tick,
            should_quit: self.should_quit,
            active_tab: self.active_tab,
            question_focus: self.question_focus as int,
            answer_dialog: dialog_view(self.answer_dialog),
            input_scroll: self.input_scroll,
            detail_scroll: self.detail_scroll,
            quit_dialog: self.quit_dialog,
            spec_content: opt_string_view(self.spec_content),
            spec_scroll: self.spec_scroll,
            settings_tab: self.settings_tab@,
        }
    }
}

/// Whether the state is consistent: the cursors lie in their texts and the
/// focused question exists whenever there are questions.
pub open spec fn app_valid(v: AppView) -> bool {
    &&& buffer_valid(v.input)
    &&& (v.answer_dialog matches Some(d) ==> buffer_valid(d.input))
    &&& 0 <= v.question_focus
    &&& (v.questions.len() > 0 ==> v.question_focus < v.questions.len())
    &&& tab_valid(v.settings_tab)
}

/// Whether the texts have room for one more character of any width.
pub open spec fn has_room(v: AppView) -> bool {
    &&& byte_len(v.input.text) + 4 <= max_text_bytes()
    &&& (v.answer_dialog matches Some(d) ==> byte_len(d.input.text) + 4 <= max_text_bytes())
    &&& tab_has_room(v.settings_tab)
}

/// The status shown while integrating.
pub open spec fn integrating_status() -> Seq<char> {
    "Integrating"@
}

/// The status shown when idle.
pub open spec fn idle_status() -> Seq<char> {
    "Idle."@
}

/// An empty text.
pub open spec fn empty_buffer() -> BufferView {
    BufferView { text: seq![], cursor: 0 }
}

// ---------------------------------------------------------------------------
// Submitting
// ---------------------------------------------------------------------------

/// Submitting the requirement: a blank one is ignored; otherwise its trimmed
/// text is sent, the input is cleared and the state becomes `Integrating`.
pub open spec fn spec_submit(v: AppView) -> (AppView, Option<Seq<char>>) {
    let t = trim(v.input.text);
    if t.len() == 0 {
        (v, None)
    } else {
        (
            AppView {
                input: empty_buffer(),
                state: AppState::Integrating,
                status: integrating_status(),
                ..v
            },
            Some(t),
        )
    }
}

/// The message that answers `q` with `answer`.
pub open spec fn answer_message(q: QuestionView, answer: Seq<char>) -> Seq<char> {
    "The answer to question Q"@ + decimal(q.id as nat) + " ("@ + q.text + ") is: "@ + answer
}

/// Whether a question has an id other than `id`.
pub open spec fn other_than(id: usize) -> spec_fn(QuestionView) -> bool {
    |q: QuestionView| q.id != id
}

/// The focus after the list shrank to `len` questions: kept, or moved to the last question.
pub open spec fn clamp_focus(focus: int, len: int) -> int {
    if len > 0 && focus >= len {
        len - 1
    } else {
        focus
    }
}

/// Submitting the answer in the answer dialog: a blank answer is ignored;
/// otherwise the answer message is sent, the dialog closes, the answered
/// question leaves the list and the state becomes `Integrating`.
pub open spec fn spec_submit_answer(v: AppView) -> (AppView, Option<Seq<char>>) {
    match v.answer_dialog {
        None => (v, None),
        Some(d) => {
            let t = trim(d.input.text);
            if t.len() == 0 {
                (v, None)
            } else {
                let qs = v.questions.filter(other_than(d.question.id));
                (
                    AppView {
                        answer_dialog: None,
                        questions: qs,
                        question_focus: clamp_focus(v.question_focus, qs.len() as int),
                        state: AppState::Integrating,
                        status: integrating_status(),
                        ..v
                    },
                    Some(answer_message(d.question, t)),
                )
            }
        },
    }
}

// ---------------------------------------------------------------------------
// Integrator reports
// ---------------------------------------------------------------------------

/// The mathematical value of an [`IntegratorMessage`].
pub enum MessageView {
    QuestionsUpdated(Seq<QuestionView>),
    StatusUpdate(Seq<char>),
    IntegrationComplete,
}

pub open spec fn message_view(m: IntegratorMessage) -> MessageView {
    match m {
        IntegratorMessage::QuestionsUpdated(q) => MessageView::QuestionsUpdated(questions_view(q@)),
        IntegratorMessage::StatusUpdate(s) => MessageView::StatusUpdate(s@),
        IntegratorMessage::IntegrationComplete => MessageView::IntegrationComplete,
    }
}

/// The index of the first question with `id`, or the length when there is none.
pub open spec fn index_of_id(qs: Seq<QuestionView>, id: usize) -> int
    decreases qs.len(),
{
    if qs.len() == 0 {
        0
    } else if qs[0].id == id {
        0
    } else {
        1 + index_of_id(qs.drop_first(), id)
    }
}

/// The focus after the list changed from `old` to `new`: the focused
/// question keeps the focus when it is still listed; when it is gone, the
/// focus stays at its index (or the last question); with no questions it is 0.
pub open spec fn refocus(old: Seq<QuestionView>, focus: int, new: Seq<QuestionView>) -> int {
    if 0 <= focus < old.len() {
        let id = old[focus].id;
        let pos = index_of_id(new, id);
        if pos < new.len() {
            pos
        } else if new.len() > 0 {
            if focus < new.len() - 1 {
                focus
            } else {
                new.len() - 1
            }
        } else {
            0
        }
    } else {
        clamp_focus(focus, new.len() as int)
    }
}

/// The word that turns a status into an error.
pub open spec fn error_word() -> Seq<char> {
    "Error"@
}

/// Applying an integrator report. The flag says whether the spec file must be
/// read again (after a completed integration, which also resets the spec scroll).
pub open spec fn spec_update(v: AppView, m: MessageView) -> (AppView, bool) {
    match m {
        MessageView::QuestionsUpdated(q) => (
            AppView { questions: q, question_focus: refocus(v.questions, v.question_focus, q), ..v },
            false,
        ),
        MessageView::IntegrationComplete => (
            AppView {
                state: AppState::Idle,
                status: idle_status(),
                quit_dialog: false,
                spec_scroll: 0,
                ..v
            },
            true,
        ),
        MessageView::StatusUpdate(s) => (
            AppView {
                state: if contains_seq(s, error_word()) {
                    AppState::Error
                } else {
                    v.state
                },
                status: s,
                ..v
            },
            false,
        ),
    }
}

// ---------------------------------------------------------------------------
// Keys
// ---------------------------------------------------------------------------

/// A key in the writer tab.
pub open spec fn spec_text_input_key(v: AppView, k: KeyEvent) -> (AppView, Option<Seq<char>>) {
    if is_ctrl(k, 's') {
        spec_submit(v)
    } else {
        let b = v.input;
        let nb = match k.code {
            KeyCode::Enter => if k.modifiers == NO_MODIFIERS {
                spec_insert_char(b, '\n')
            } else {
                b
            },
            KeyCode::Backspace => spec_backspace(b),
            KeyCode::Delete => spec_delete(b),
            KeyCode::Left => spec_move_left(b),
            KeyCode::Right => spec_move_right(b),
            KeyCode::Home => spec_move_home(b),
            KeyCode::End => spec_move_end(b),
            KeyCode::Char(c) => if k.modifiers == NO_MODIFIERS || k.modifiers == SHIFT {
                spec_insert_char(b, c)
            } else {
                b
            },
            _ => b,
        };
        (AppView { input: nb, ..v }, None)
    }
}

/// A key in the questions tab: Up and Down move the focus, Enter opens the
/// answer dialog for the focused question.
pub open spec fn spec_questions_key(v: AppView, k: KeyEvent) -> AppView {
    match k.code {
        KeyCode::Up => if v.question_focus > 0 {
            AppView { question_focus: v.question_focus - 1, ..v }
        } else {
            v
        },
        KeyCode::Down => if v.questions.len() > 0 && v.question_focus < v.questions.len() - 1 {
            AppView { question_focus: v.question_focus + 1, ..v }
        } else {
            v
        },
        KeyCode::Enter => if v.questions.len() > 0 {
            AppView {
                answer_dialog: Some(
                    DialogView { question: v.questions[v.question_focus], input: empty_buffer() },
                ),
                ..v
            }
        } else {
            v
        },
        _ => v,
    }
}

/// The number of lines the spec viewer scrolls over, as the 16-bit count it keeps.
pub open spec fn spec_total_lines(content: Seq<char>) -> u16 {
    let n = line_count(content);
    (if n == 0 {
        1
    } else {
        n
    }) as u16
}

/// A key in the spec tab: Down and Up scroll, Down no further than the last line.
pub open spec fn spec_spec_key(v: AppView, k: KeyEvent) -> AppView {
    match k.code {
        KeyCode::Down => match v.spec_content {
            Some(c) => {
                let total = spec_total_lines(c);
                let last: int = if total > 0 {
                    total - 1
                } else {
                    0
                };
                if v.spec_scroll < last {
                    AppView { spec_scroll: (v.spec_scroll + 1) as u16, ..v }
                } else {
                    v
                }
            },
            None => v,
        },
        KeyCode::Up => if v.spec_scroll > 0 {
            AppView { spec_scroll: (v.spec_scroll - 1) as u16, ..v }
        } else {
            v
        },
        _ => v,
    }
}

/// A key while the answer dialog is open.
pub open spec fn spec_answer_dialog_key(v: AppView, k: KeyEvent) -> (AppView, Option<Seq<char>>) {
    match v.answer_dialog {
        None => (v, None),
        Some(d) => if k.code == KeyCode::Esc {
            (AppView { answer_dialog: None, ..v }, None)
        } else if is_ctrl(k, 's') {
            spec_submit_answer(v)
        } else {
            let b = d.input;
            let nb = match k.code {
                KeyCode::Enter => if k.modifiers == NO_MODIFIERS {
                    spec_insert_char(b, '\n')
                } else {
                    b
                },
                KeyCode::Backspace => spec_backspace(b),
                KeyCode::Delete => spec_delete(b),
                KeyCode::Left => spec_move_left(b),
                KeyCode::Right => spec_move_right(b),
                KeyCode::Home => spec_move_home(b),
                KeyCode::End => spec_move_end(b),
                KeyCode::Char(c) => if k.modifiers == NO_MODIFIERS || k.modifiers == SHIFT {
                    spec_insert_char(b, c)
                } else {
                    b
                },
                _ => b,
            };
            (AppView { answer_dialog: Some(DialogView { input: nb, ..d }), ..v }, None)
        },
    }
}

/// The tab before `t` (Shift+Tab goes back through settings, spec, questions, writer).
pub open spec fn previous_tab(t: ActiveTab) -> ActiveTab {
    match t {
        ActiveTab::TextInput => ActiveTab::Settings,
        ActiveTab::Questions => ActiveTab::TextInput,
        ActiveTab::Spec => ActiveTab::Questions,
        ActiveTab::Settings => ActiveTab::Spec,
    }
}

/// The tab after `t` (Tab cycles writer, questions, spec, settings).
pub open spec fn next_tab(t: ActiveTab) -> ActiveTab {
    match t {
        ActiveTab::TextInput => ActiveTab::Questions,
        ActiveTab::Questions => ActiveTab::Spec,
        ActiveTab::Spec => ActiveTab::Settings,
        ActiveTab::Settings => ActiveTab::TextInput,
    }
}

/// A key press. The quit confirmation takes every key first (Ctrl+C quits,
/// Esc cancels); Ctrl+C quits, or asks for confirmation while integrating;
/// an open answer dialog takes the key, and so do the settings editor and the
/// save confirmation; Tab and Shift+Tab switch tabs; otherwise the shown tab
/// handles it.
pub open spec fn spec_handle_key(v: AppView, k: KeyEvent) -> (AppView, Option<Seq<char>>) {
    if v.quit_dialog {
        if is_ctrl(k, 'c') {
            (AppView { should_quit: true, ..v }, None)
        } else if k.code == KeyCode::Esc {
            (AppView { quit_dialog: false, ..v }, None)
        } else {
            (v, None)
        }
    } else if is_ctrl(k, 'c') {
        if v.state == AppState::Integrating {
            (AppView { quit_dialog: true, ..v }, None)
        } else {
            (AppView { should_quit: true, ..v }, None)
        }
    } else if v.answer_dialog is Some {
        spec_answer_dialog_key(v, k)
    } else if v.settings_tab.save_dialog || v.settings_tab.editing is Some {
        (AppView { settings_tab: spec_tab_key(v.settings_tab, k), ..v }, None)
    } else if k.code == KeyCode::Tab && k.modifiers == NO_MODIFIERS {
        (AppView { active_tab: next_tab(v.active_tab), ..v }, None)
    } else if k.code == KeyCode::BackTab {
        (AppView { active_tab: previous_tab(v.active_tab), ..v }, None)
    } else {
        match v.active_tab {
            ActiveTab::TextInput => spec_text_input_key(v, k),
            ActiveTab::Questions => (spec_questions_key(v, k), None),
            ActiveTab::Spec => (spec_spec_key(v, k), None),
            ActiveTab::Settings => (
                AppView { settings_tab: spec_tab_key(v.settings_tab, k), ..v },
                None,
            ),
        }
    }
}

/// The characters of an optional string.
pub open spec fn opt_string_view(o: Option<String>) -> Option<Seq<char>> {
    match o {
        Some(s) => Some(s@),
        None => None,
    }
}

/// The state at start-up: writer tab, idle, nothing typed, no questions, no
/// spec; the settings tab shows `s`, with the defaults `d`.
pub open spec fn initial_app(s: SettingsView, d: DefaultsView) -> AppView {
    AppView {
        input: empty_buffer(),
        questions: seq![],
        status: idle_status(),
        state: AppState::Idle,
        tick: 0,
        should_quit: false,
        active_tab: ActiveTab::TextInput,
        question_focus: 0,
        answer_dialog: None,
        input_scroll: 0,
        detail_scroll: 0,
        quit_dialog: false,
        spec_content: None,
        spec_scroll: 0,
        settings_tab: initial_tab(s, d),
    }
}

// ---------------------------------------------------------------------------
// Executable helpers
// ---------------------------------------------------------------------------

/// The message that answers `q` with `answer`.
fn build_answer_message(q: &Question, answer: &Vec<char>) -> (m: String)
    ensures
        m@ == answer_message(q@, answer@),
{
    let mut v = chars_of("The answer to question Q");
    push_all(&mut v, &decimal_chars(q.id as u64));
    push_all(&mut v, &chars_of(" ("));
    push_all(&mut v, &chars_of(q.text.as_str()));
    push_all(&mut v, &chars_of(") is: "));
    push_all(&mut v, answer);
    string_from_chars(&v)
}

/// The questions whose id is not `id`, in order.
fn without_id(v: &Vec<Question>, id: usize) -> (r: Vec<Question>)
    ensures
        questions_view(r@) == questions_view(v@).filter(other_than(id)),
{
    let ghost qv = questions_view(v@);
    let mut r: Vec<Question> = Vec::new();
    let mut i: usize = 0;
    assert(qv.take(0) =~= Seq::<QuestionView>::empty());
    assert(questions_view(r@) =~= Seq::<QuestionView>::empty());
    while i < v.len()
        invariant
            i <= v.len(),
            qv == questions_view(v@),
            questions_view(r@) == qv.take(i as int).filter(other_than(id)),
        decreases v.len() - i,
    {
        let ghost before = r@;
        let ghost t = qv.take(i + 1);
        proof {
            assert(t.drop_last() =~= qv.take(i as int));
            assert(t.last() == v@[i as int]@);
        }
        proof {
            reveal(Seq::filter);
            assert(other_than(id)(t.last()) == (v@[i as int].id != id));
            assert(t.filter(other_than(id)) == if other_than(id)(t.last()) {
                t.drop_last().filter(other_than(id)).push(t.last())
            } else {
                t.drop_last().filter(other_than(id))
            });
        }
        if v[i].id != id {
            r.push(copy_question(&v[i]));
            assert(questions_view(r@) =~= questions_view(before).push(v@[i as int]@));
        }
        i += 1;
    }
    assert(qv.take(v.len() as int) =~= qv);
    r
}

proof fn lemma_index_of_id(qs: Seq<QuestionView>, id: usize, j: int)
    requires
        0 <= j <= qs.len(),
        j < qs.len() ==> qs[j].id == id,
        forall|k: int| 0 <= k < j ==> (#[trigger] qs[k]).id != id,
    ensures
        index_of_id(qs, id) == j,
    decreases j,
{
    if j > 0 {
        let t = qs.drop_first();
        assert forall|k: int| 0 <= k < j - 1 implies (#[trigger] t[k]).id != id by {
            assert(t[k] == qs[k + 1]);
        }
        lemma_index_of_id(t, id, j - 1);
    }
}

/// The index of the first question with `id`, if any.
fn position_of_id(v: &Vec<Question>, id: usize) -> (r: Option<usize>)
    ensures
        match r {
            Some(i) => i == index_of_id(questions_view(v@), id) && i < v.len(),
            None => index_of_id(questions_view(v@), id) == v.len(),
        },
{
    let ghost qv = questions_view(v@);
    let mut i: usize = 0;
    while i < v.len()
        invariant
            i <= v.len(),
            qv == questions_view(v@),
            forall|k: int| 0 <= k < i ==> (#[trigger] qv[k]).id != id,
        decreases v.len() - i,
    {
        if v[i].id == id {
            proof {
                lemma_index_of_id(qv, id, i as int);
            }
            return Some(i);
        }
        i += 1;
    }
    proof {
        lemma_index_of_id(qv, id, i as int);
    }
    None
}

impl App {
    /// Whether the state is consistent, including the byte cursors of the texts.
    pub open spec fn wf(&self) -> bool {
        &&& app_valid(self@)
        &&& self.input.wf()
        &&& (self.answer_dialog matches Some(d) ==> d.input.wf())
        &&& self.settings_tab.wf()
    }

    /// The state at start-up (see [`initial_app`]).
    pub fn new(settings: Settings, defaults: SettingsDefaults) -> (a: Self)
        ensures
            a.wf(),
            a@ == initial_app(settings@, defaults@),
    {
        let a = App {
            input: TextBuffer::new(),
            questions: Vec::new(),
            status: "Idle.".to_string(),
            state: AppState::Idle,
            tick: 0,
            should_quit: false,
            active_tab: ActiveTab::TextInput,
            question_focus: 0,
            answer_dialog: None,
            input_scroll: 0,
            detail_scroll: 0,
            quit_dialog: false,
            spec_content: None,
            spec_scroll: 0,
            settings_tab: SettingsTab::new(settings, defaults),
        };
        assert(a@.input.text =~= Seq::<char>::empty());
        assert(a@.questions =~= Seq::<QuestionView>::empty());
        a
    }

    /// The state at start-up with the spec file's text `content` (`None` when
    /// there is no spec file): its questions listed, its text shown; the
    /// settings tab shows `settings`, with the defaults `defaults`.
    pub fn with_spec(content: Option<String>, settings: Settings, defaults: SettingsDefaults) -> (a: Self)
        ensures
            a.wf(),
            a@ == (AppView {
                questions: match content {
                    Some(c) => sort_questions(parse_content(c@)),
                    None => seq![],
                },
                spec_content: opt_string_view(content),
                ..initial_app(settings@, defaults@)
            }),
    {
        let mut a = App::new(settings, defaults);
        match &content {
            Some(c) => {
                a.questions = scan_questions(c.as_str());
            },
            None => {},
        }
        a.spec_content = content;
        a
    }

    /// Advances the animation counter, wrapping around at its maximum.
    pub fn tick(&mut self)
        ensures
            final(self)@ == (AppView {
                tick: if old(self).tick == u64::MAX {
                    0
                } else {
                    (old(self).tick + 1) as u64
                },
                ..old(self)@
            }),
            final(self).input == old(self).input,
            final(self).answer_dialog == old(self).answer_dialog,
    {
        if self.tick == u64::MAX {
            self.tick = 0;
        } else {
            self.tick = self.tick + 1;
        }
    }

    /// Submits the requirement; gives the message to send, if any (see [`spec_submit`]).
    pub fn submit(&mut self) -> (sent: Option<String>)
        requires
            old(self).wf(),
        ensures
            final(self).wf(),
            (final(self)@, opt_string_view(sent)) == spec_submit(old(self)@),
    {
        let t = trim_chars(&self.input.text);
        if t.len() == 0 {
            return None;
        }
        self.input = TextBuffer::new();
        self.state = AppState::Integrating;
        self.status = "Integrating".to_string();
        assert(self@.input.text =~= Seq::<char>::empty());
        Some(string_from_chars(&t))
    }

    /// Submits the answer in the answer dialog; gives the message to send, if
    /// any (see [`spec_submit_answer`]).
    pub fn submit_answer(&mut self) -> (sent: Option<String>)
        requires
            old(self).wf(),
        ensures
            final(self).wf(),
            (final(self)@, opt_string_view(sent)) == spec_submit_answer(old(self)@),
    {
        let (msg, id) = match &self.answer_dialog {
            None => {
                return None;
            },
            Some(d) => {
                let t = trim_chars(&d.input.text);
                if t.len() == 0 {
                    return None;
                }
                (build_answer_message(&d.question, &t), d.question.id)
            },
        };
        self.answer_dialog = None;
        let qs = without_id(&self.questions, id);
        self.questions = qs;
        if self.questions.len() > 0 && self.question_focus >= self.questions.len() {
            self.question_focus = self.questions.len() - 1;
        }
        self.state = AppState::Integrating;
        self.status = "Integrating".to_string();
        Some(msg)
    }

    /// Applies an integrator report; gives whether the spec file must be read
    /// again (see [`spec_update`]).
    pub fn update_from_integrator(&mut self, msg: IntegratorMessage) -> (reload: bool)
        requires
            old(self).wf(),
        ensures
            final(self).wf(),
            (final(self)@, reload) == spec_update(old(self)@, message_view(msg)),
    {
        match msg {
            IntegratorMessage::QuestionsUpdated(q) => {
                let focused_id = if self.question_focus < self.questions.len() {
                    Some(self.questions[self.question_focus].id)
                } else {
                    None
                };
                let old_focus = self.question_focus;
                self.questions = q;
                match focused_id {
                    Some(id) => match position_of_id(&self.questions, id) {
                        Some(pos) => {
                            self.question_focus = pos;
                        },
                        None => {
                            if self.questions.len() > 0 {
                                if old_focus < self.questions.len() - 1 {
                                    self.question_focus = old_focus;
                                } else {
                                    self.question_focus = self.questions.len() - 1;
                                }
                            } else {
                                self.question_focus = 0;
                            }
                        },
                    },
                    None => {
                        if self.questions.len() > 0 && self.question_focus >= self.questions.len() {
                            self.question_focus = self.questions.len() - 1;
                        }
                    },
                }
                false
            },
            IntegratorMessage::IntegrationComplete => {
                self.state = AppState::Idle;
                self.status = "Idle.".to_string();
                self.quit_dialog = false;
                self.spec_scroll = 0;
                true
            },
            IntegratorMessage::StatusUpdate(s) => {
                if contains_chars(&chars_of(s.as_str()), &chars_of("Error")) {
                    self.state = AppState::Error;
                }
                self.status = s;
                false
            },
        }
    }

    /// Types `c` at the cursor of the writer.
    pub fn insert_char(&mut self, c: char)
        requires
            old(self).wf(),
            byte_len(old(self)@.input.text) + char_byte_len(c) <= max_text_bytes(),
        ensures
            final(self).wf(),
            final(self)@ == (AppView { input: spec_insert_char(old(self)@.input, c), ..old(self)@ }),
    {
        self.input.insert_char(c);
    }

    /// Types a newline at the cursor of the writer.
    pub fn insert_newline(&mut self)
        requires
            old(self).wf(),
            byte_len(old(self)@.input.text) + 1 <= max_text_bytes(),
        ensures
            final(self).wf(),
            final(self)@ == (AppView {
                input: spec_insert_char(old(self)@.input, '\n'),
                ..old(self)@
            }),
    {
        self.input.insert_newline();
    }

    /// Removes the character before the writer's cursor, if any.
    pub fn backspace(&mut self)
        requires
            old(self).wf(),
        ensures
            final(self).wf(),
            final(self)@ == (AppView { input: spec_backspace(old(self)@.input), ..old(self)@ }),
    {
        self.input.backspace();
    }

    /// Removes the character after the writer's cursor, if any.
    pub fn delete(&mut self)
        requires
            old(self).wf(),
        ensures
            final(self).wf(),
            final(self)@ == (AppView { input: spec_delete(old(self)@.input), ..old(self)@ }),
    {
        self.input.delete();
    }

    /// Moves the writer's cursor one character left.
    pub fn move_left(&mut self)
        requires
            old(self).wf(),
        ensures
            final(self).wf(),
            final(self)@ == (AppView { input: spec_move_left(old(self)@.input), ..old(self)@ }),
    {
        self.input.move_left();
    }

    /// Moves the writer's cursor one character right.
    pub fn move_right(&mut self)
        requires
            old(self).wf(),
        ensures
            final(self).wf(),
            final(self)@ == (AppView { input: spec_move_right(old(self)@.input), ..old(self)@ }),
    {
        self.input.move_right();
    }

    /// Moves the writer's cursor to the start of its line.
    pub fn move_home(&mut self)
        requires
            old(self).wf(),
        ensures
            final(self).wf(),
            final(self)@ == (AppView { input: spec_move_home(old(self)@.input), ..old(self)@ }),
    {
        self.input.move_home();
    }

    /// Moves the writer's cursor to the end of its line.
    pub fn move_end(&mut self)
        requires
            old(self).wf(),
        ensures
            final(self).wf(),
            final(self)@ == (AppView { input: spec_move_end(old(self)@.input), ..old(self)@ }),
    {
        self.input.move_end();
    }

    pub fn handle_text_input_key(&mut self, key: KeyEvent) -> (sent: Option<String>)
        requires
            old(self).wf(),
            has_room(old(self)@),
        ensures
            final(self).wf(),
            (final(self)@, opt_string_view(sent)) == spec_text_input_key(old(self)@, key),
    {
        if key_is_ctrl(&key, 's') {
            return self.submit();
        }
        match key.code {
            KeyCode::Enter => {
                if key.modifiers == NO_MODIFIERS {
                    self.insert_newline();
                }
            },
            KeyCode::Backspace => self.backspace(),
            KeyCode::Delete => self.delete(),
            KeyCode::Left => self.move_left(),
            KeyCode::Right => self.move_right(),
            KeyCode::Home => self.move_home(),
            KeyCode::End => self.move_end(),
            KeyCode::Char(c) => {
                if key.modifiers == NO_MODIFIERS || key.modifiers == SHIFT {
                    self.insert_char(c);
                }
            },
            _ => {},
        }
        None
    }

    pub fn handle_questions_key(&mut self, key: KeyEvent)
        requires
            old(self).wf(),
        ensures
            final(self).wf(),
            final(self)@ == spec_questions_key(old(self)@, key),
    {
        match key.code {
            KeyCode::Up => {
                if self.question_focus > 0 {
                    self.question_focus = self.question_focus - 1;
                }
            },
            KeyCode::Down => {
                if self.questions.len() > 0 && self.question_focus < self.questions.len() - 1 {
                    self.question_focus = self.question_focus + 1;
                }
            },
            KeyCode::Enter => {
                if self.questions.len() > 0 {
                    let q = copy_question(&self.questions[self.question_focus]);
                    let input = TextBuffer::new();
                    self.answer_dialog = Some(AnswerDialog { question: q, input });
                    assert(self@.answer_dialog->0.input.text =~= Seq::<char>::empty());
                }
            },
            _ => {},
        }
    }

    pub fn handle_spec_key(&mut self, key: KeyEvent)
        requires
            old(self).wf(),
        ensures
            final(self).wf(),
            final(self)@ == spec_spec_key(old(self)@, key),
    {
        match key.code {
            KeyCode::Down => {
                match &self.spec_content {
                    Some(content) => {
                        let n = count_lines(&chars_of(content.as_str()));
                        let total: u16 = (if n == 0 {
                            1
                        } else {
                            n
                        }) as u16;
                        let last: u16 = if total > 0 {
                            total - 1
                        } else {
                            0
                        };
                        if self.spec_scroll < last {
                            self.spec_scroll = self.spec_scroll + 1;
                        }
                    },
                    None => {},
                }
            },
            KeyCode::Up => {
                if self.spec_scroll > 0 {
                    self.spec_scroll = self.spec_scroll - 1;
                }
            },
            _ => {},
        }
    }

    pub fn handle_answer_dialog_key(&mut self, key: KeyEvent) -> (sent: Option<String>)
        requires
            old(self).wf(),
            has_room(old(self)@),
        ensures
            final(self).wf(),
            (final(self)@, opt_string_view(sent)) == spec_answer_dialog_key(old(self)@, key),
    {
        if self.answer_dialog.is_none() {
            return None;
        }
        if key.code == KeyCode::Esc {
            self.answer_dialog = None;
            return None;
        }
        if key_is_ctrl(&key, 's') {
            return self.submit_answer();
        }
        match self.answer_dialog.take() {
            None => None,
            Some(mut d) => {
                match key.code {
                    KeyCode::Enter => {
                        if key.modifiers == NO_MODIFIERS {
                            d.input.insert_newline();
                        }
                    },
                    KeyCode::Backspace => d.input.backspace(),
                    KeyCode::Delete => d.input.delete(),
                    KeyCode::Left => d.input.move_left(),
                    KeyCode::Right => d.input.move_right(),
                    KeyCode::Home => d.input.move_home(),
                    KeyCode::End => d.input.move_end(),
                    KeyCode::Char(c) => {
                        if key.modifiers == NO_MODIFIERS || key.modifiers == SHIFT {
                            d.input.insert_char(c);
                        }
                    },
                    _ => {},
                }
                self.answer_dialog = Some(d);
                None
            },
        }
    }

    /// Handles a key press; gives the message to send to the integrator, if
    /// any (see [`spec_handle_key`]).
    pub fn handle_key(&mut self, key: KeyEvent) -> (sent: Option<String>)
        requires
            old(self).wf(),
            has_room(old(self)@),
        ensures
            final(self).wf(),
            (final(self)@, opt_string_view(sent)) == spec_handle_key(old(self)@, key),
    {
        if self.quit_dialog {
            if key_is_ctrl(&key, 'c') {
                self.should_quit = true;
            } else if key.code == KeyCode::Esc {
                self.quit_dialog = false;
            }
            return None;
        }
        if key_is_ctrl(&key, 'c') {
            if self.state == AppState::Integrating {
                self.quit_dialog = true;
            } else {
                self.should_quit = true;
            }
            return None;
        }
        if self.answer_dialog.is_some() {
            return self.handle_answer_dialog_key(key);
        }
        if self.settings_tab.save_dialog || self.settings_tab.editing.is_some() {
            self.settings_tab.handle_key(key);
            return None;
        }
        if key.code == KeyCode::Tab && key.modifiers == NO_MODIFIERS {
            self.active_tab = match self.active_tab {
                ActiveTab::TextInput => ActiveTab::Questions,
                ActiveTab::Questions => ActiveTab::Spec,
                ActiveTab::Spec => ActiveTab::Settings,
                ActiveTab::Settings => ActiveTab::TextInput,
            };
            return None;
        }
        if key.code == KeyCode::BackTab {
            self.active_tab = match self.active_tab {
                ActiveTab::TextInput => ActiveTab::Settings,
                ActiveTab::Questions => ActiveTab::TextInput,
                ActiveTab::Spec => ActiveTab::Questions,
                ActiveTab::Settings => ActiveTab::Spec,
            };
            return None;
        }
        match self.active_tab {
            ActiveTab::TextInput => self.handle_text_input_key(key),
            ActiveTab::Questions => {
                self.handle_questions_key(key);
                None
            },
            ActiveTab::Spec => {
                self.handle_spec_key(key);
                None
            },
            ActiveTab::Settings => {
                self.settings_tab.handle_key(key);
                None
            },
        }
    }
}


// ---------------------------------------------------------------------------
// Laws of the application
// ---------------------------------------------------------------------------

/// Whether no dialog is open (nor the settings editor).
pub open spec fn no_dialog(v: AppView) -> bool {
    &&& !v.quit_dialog
    &&& v.answer_dialog is None
    &&& !v.settings_tab.save_dialog
    &&& v.settings_tab.editing is None
}

/// Submitting blank input does nothing: nothing is sent and nothing changes.
pub proof fn lemma_blank_submit_ignored(v: AppView)
    requires
        trim(v.input.text).len() == 0,
    ensures
        spec_submit(v) == (v, None::<Seq<char>>),
{
}

/// Ctrl+S in the writer with blank input does nothing.
pub proof fn lemma_blank_ctrl_s_ignored(v: AppView)
    requires
        no_dialog(v),
        v.active_tab == ActiveTab::TextInput,
        trim(v.input.text).len() == 0,
    ensures
        spec_handle_key(v, KeyEvent { code: KeyCode::Char('s'), modifiers: CONTROL }) == (
            v,
            None::<Seq<char>>,
        ),
{
}

/// Submitting a requirement sends its trimmed text, clears the input at once
/// and shows the integration, also when the last integration had failed.
pub proof fn lemma_submit_sends_and_clears(v: AppView)
    requires
        trim(v.input.text).len() > 0,
    ensures
        spec_submit(v).1 == Some(trim(v.input.text)),
        spec_submit(v).0.input.text.len() == 0,
        spec_submit(v).0.input.cursor == 0,
        spec_submit(v).0.state == AppState::Integrating,
        spec_submit(v).0.status == integrating_status(),
        spec_submit(v).0.questions == v.questions,
{
}

/// Pressing Tab four times shows the same tab again.
pub proof fn lemma_tab_cycles(v: AppView)
    requires
        no_dialog(v),
    ensures
        ({
            let tab = KeyEvent { code: KeyCode::Tab, modifiers: NO_MODIFIERS };
            let v1 = spec_handle_key(v, tab).0;
            let v2 = spec_handle_key(v1, tab).0;
            let v3 = spec_handle_key(v2, tab).0;
            let v4 = spec_handle_key(v3, tab).0;
            v4 == v && v1.active_tab != v.active_tab
        }),
{
}

/// Every key keeps the state consistent: the cursors of the input and of the
/// answer dialog stay inside their texts, and the focus inside the list.
pub proof fn lemma_keys_keep_valid(v: AppView, k: KeyEvent)
    requires
        app_valid(v),
        has_room(v),
    ensures
        app_valid(spec_handle_key(v, k).0),
{
    let c = match k.code {
        KeyCode::Char(x) => x,
        _ => '\n',
    };
    lemma_edits_keep_valid(v.input, c);
    lemma_edits_keep_valid(v.input, '\n');
    if let Some(d) = v.answer_dialog {
        lemma_edits_keep_valid(d.input, c);
        lemma_edits_keep_valid(d.input, '\n');
    }
    if let Some(b) = v.settings_tab.editing {
        lemma_edits_keep_valid(b, c);
    }
}

/// In the writer, the keys that edit or submit do so; every other key (such
/// as Ctrl+A, Alt+x or Shift+Enter) changes nothing and sends nothing.
pub proof fn lemma_text_input_other_keys_ignored(v: AppView, k: KeyEvent)
    requires
        !is_ctrl(k, 's'),
        !(k.code == KeyCode::Enter && k.modifiers == NO_MODIFIERS),
        k.code != KeyCode::Backspace,
        k.code != KeyCode::Delete,
        k.code != KeyCode::Left,
        k.code != KeyCode::Right,
        k.code != KeyCode::Home,
        k.code != KeyCode::End,
        !(k.code is Char && (k.modifiers == NO_MODIFIERS || k.modifiers == SHIFT)),
    ensures
        spec_text_input_key(v, k) == (v, None::<Seq<char>>),
{
}

/// Shift+Tab goes back to the tab that Tab left.
pub proof fn lemma_back_tab_undoes_tab(v: AppView, modifiers: u8)
    requires
        no_dialog(v),
    ensures
        ({
            let tab = KeyEvent { code: KeyCode::Tab, modifiers: NO_MODIFIERS };
            let back = KeyEvent { code: KeyCode::BackTab, modifiers };
            spec_handle_key(spec_handle_key(v, tab).0, back).0 == v
        }),
{
}

/// Ctrl+C quits at once when no integration is going on.
pub proof fn lemma_ctrl_c_quits_when_not_integrating(v: AppView)
    requires
        !v.quit_dialog,
        v.state != AppState::Integrating,
    ensures
        spec_handle_key(v, KeyEvent { code: KeyCode::Char('c'), modifiers: CONTROL }).0.should_quit,
{
}

/// During an integration the first Ctrl+C asks for confirmation and the second quits.
pub proof fn lemma_ctrl_c_twice_quits_while_integrating(v: AppView)
    requires
        !v.quit_dialog,
        !v.should_quit,
        v.state == AppState::Integrating,
    ensures
        ({
            let cc = KeyEvent { code: KeyCode::Char('c'), modifiers: CONTROL };
            let v1 = spec_handle_key(v, cc).0;
            let v2 = spec_handle_key(v1, cc).0;
            &&& v1.quit_dialog && !v1.should_quit
            &&& v2.should_quit
        }),
{
}

/// Esc in the quit confirmation cancels it and changes nothing else.
pub proof fn lemma_esc_cancels_quit(v: AppView, modifiers: u8)
    requires
        v.quit_dialog,
    ensures
        spec_handle_key(v, KeyEvent { code: KeyCode::Esc, modifiers }) == (
            AppView { quit_dialog: false, ..v },
            None::<Seq<char>>,
        ),
{
}

/// Answering a question removes it from the list at once, keeps every other
/// question in order, and sends the answer.
pub proof fn lemma_answer_removes_question(v: AppView)
    requires
        app_valid(v),
        v.answer_dialog is Some,
        trim(v.answer_dialog->0.input.text).len() > 0,
    ensures
        ({
            let d = v.answer_dialog->0;
            let (v2, sent) = spec_submit_answer(v);
            &&& sent == Some(answer_message(d.question, trim(d.input.text)))
            &&& forall|i: int| 0 <= i < v2.questions.len() ==> (#[trigger] v2.questions[i]).id != d.question.id
            &&& v2.questions == v.questions.filter(other_than(d.question.id))
            &&& v2.answer_dialog is None
            &&& app_valid(v2)
        }),
{
    let d = v.answer_dialog->0;
    let qs = v.questions.filter(other_than(d.question.id));
    assert forall|i: int| 0 <= i < qs.len() implies (#[trigger] qs[i]).id != d.question.id by {
        v.questions.lemma_filter_pred(other_than(d.question.id), i);
    }
}

proof fn lemma_filter_keeps_all(s: Seq<QuestionView>, id: usize)
    requires
        forall|k: int| 0 <= k < s.len() ==> (#[trigger] s[k]).id != id,
    ensures
        s.filter(other_than(id)) == s,
    decreases s.len(),
{
    reveal(Seq::filter);
    if s.len() > 0 {
        let t = s.drop_last();
        assert forall|k: int| 0 <= k < t.len() implies (#[trigger] t[k]).id != id by {
            assert(t[k] == s[k]);
        }
        lemma_filter_keeps_all(t, id);
        assert(t.push(s.last()) =~= s);
    }
}

proof fn lemma_filter_removes_one(s: Seq<QuestionView>, f: int, id: usize)
    requires
        0 <= f < s.len(),
        s[f].id == id,
        forall|k: int| 0 <= k < s.len() && k != f ==> (#[trigger] s[k]).id != id,
    ensures
        s.filter(other_than(id)) == s.remove(f),
    decreases s.len(),
{
    reveal(Seq::filter);
    let t = s.drop_last();
    if f == s.len() - 1 {
        assert forall|k: int| 0 <= k < t.len() implies (#[trigger] t[k]).id != id by {
            assert(t[k] == s[k]);
        }
        lemma_filter_keeps_all(t, id);
        assert(s.remove(f) =~= t);
    } else {
        assert forall|k: int| 0 <= k < t.len() && k != f implies (#[trigger] t[k]).id != id by {
            assert(t[k] == s[k]);
        }
        lemma_filter_removes_one(t, f, id);
        assert(s.last().id != id);
        assert(s.remove(f) =~= t.remove(f).push(s.last()));
    }
}

/// Whether no two of the questions share an id.
pub open spec fn ids_unique(qs: Seq<QuestionView>) -> bool {
    forall|i: int, j: int|
        #![trigger qs[i], qs[j]]
        0 <= i < qs.len() && 0 <= j < qs.len() && i != j ==> qs[i].id != qs[j].id
}

/// Answering the focused question, when question ids are unique, removes
/// exactly that question and moves the focus to the question that was below
/// it, or to the one above when it was the last; answering the only question
/// leaves the list empty.
pub proof fn lemma_answer_focus_moves_on(v: AppView)
    requires
        app_valid(v),
        v.answer_dialog is Some,
        trim(v.answer_dialog->0.input.text).len() > 0,
        0 <= v.question_focus < v.questions.len(),
        v.questions[v.question_focus].id == v.answer_dialog->0.question.id,
        ids_unique(v.questions),
    ensures
        ({
            let f = v.question_focus as int;
            let v2 = spec_submit_answer(v).0;
            &&& v2.questions == v.questions.remove(f)
            &&& f + 1 < v.questions.len() ==> v2.questions[v2.question_focus as int]
                == v.questions[f + 1]
            &&& (f + 1 == v.questions.len() && f > 0) ==> v2.questions[v2.question_focus as int]
                == v.questions[f - 1]
            &&& v.questions.len() == 1 ==> v2.questions.len() == 0
        }),
{
    let f = v.question_focus as int;
    let id = v.answer_dialog->0.question.id;
    assert forall|k: int| 0 <= k < v.questions.len() && k != f implies (
    #[trigger] v.questions[k]).id != id by {
        assert(v.questions[k].id != v.questions[f].id);
    }
    lemma_filter_removes_one(v.questions, f, id);
}

/// When a refresh drops the focused question and keeps the others (ids
/// unique), the focus falls back as after answering: to the question that
/// was below it, or to the one above when it was the last, or to 0 when no
/// question is left.
pub proof fn lemma_refresh_focus_falls_back(v: AppView)
    requires
        0 <= v.question_focus < v.questions.len(),
        ids_unique(v.questions),
    ensures
        ({
            let f = v.question_focus as int;
            let v2 = spec_update(v, MessageView::QuestionsUpdated(v.questions.remove(f))).0;
            &&& f + 1 < v.questions.len() ==> v2.questions[v2.question_focus as int]
                == v.questions[f + 1]
            &&& (f + 1 == v.questions.len() && f > 0) ==> v2.questions[v2.question_focus as int]
                == v.questions[f - 1]
            &&& v.questions.len() == 1 ==> v2.question_focus == 0
        }),
{
    let f = v.question_focus as int;
    let q = v.questions.remove(f);
    let id = v.questions[f].id;
    lemma_index_of_id_facts(q, id);
    if index_of_id(q, id) < q.len() {
        let p = index_of_id(q, id);
        if p < f {
            assert(q[p] == v.questions[p]);
        } else {
            assert(q[p] == v.questions[p + 1]);
        }
    }
}

/// While a dialog is open it takes every key: in the quit confirmation only
/// Ctrl+C and Esc do anything; in the answer dialog no key but Ctrl+C leaves
/// it for the tabs: the tab and the main input stay as they are.
pub proof fn lemma_dialogs_capture_keys(v: AppView, k: KeyEvent)
    ensures
        v.quit_dialog && !is_ctrl(k, 'c') && k.code != KeyCode::Esc ==> spec_handle_key(v, k) == (
            v,
            None::<Seq<char>>,
        ),
        !v.quit_dialog && v.answer_dialog is Some && !is_ctrl(k, 'c') ==> {
            &&& spec_handle_key(v, k).0.active_tab == v.active_tab
            &&& spec_handle_key(v, k).0.input == v.input
        },
{
}

/// When the integrator reports new questions, the focused question keeps
/// the focus if it is still listed.
pub proof fn lemma_refocus_keeps_question(v: AppView, q: Seq<QuestionView>)
    requires
        0 <= v.question_focus < v.questions.len(),
        exists|j: int| 0 <= j < q.len() && (#[trigger] q[j]).id == v.questions[v.question_focus].id,
    ensures
        ({
            let v2 = spec_update(v, MessageView::QuestionsUpdated(q)).0;
            &&& 0 <= v2.question_focus < q.len()
            &&& q[v2.question_focus].id == v.questions[v.question_focus].id
        }),
{
    let id = v.questions[v.question_focus].id;
    lemma_index_of_id_facts(q, id);
    let j = choose|j: int| 0 <= j < q.len() && (#[trigger] q[j]).id == id;
    if index_of_id(q, id) >= q.len() {
        assert(q[j].id != id);
    }
}

proof fn lemma_index_of_id_facts(qs: Seq<QuestionView>, id: usize)
    ensures
        0 <= index_of_id(qs, id) <= qs.len(),
        index_of_id(qs, id) < qs.len() ==> qs[index_of_id(qs, id)].id == id,
        forall|k: int| 0 <= k < index_of_id(qs, id) ==> (#[trigger] qs[k]).id != id,
    decreases qs.len(),
{
    if qs.len() > 0 && qs[0].id != id {
        let t = qs.drop_first();
        lemma_index_of_id_facts(t, id);
        assert forall|k: int| 0 <= k < index_of_id(qs, id) implies (#[trigger] qs[k]).id != id by {
            if k > 0 {
                assert(qs[k] == t[k - 1]);
            }
        }
    }
}

/// Every report keeps the state consistent.
pub proof fn lemma_update_keeps_valid(v: AppView, m: MessageView)
    requires
        app_valid(v),
    ensures
        app_valid(spec_update(v, m).0),
{
    if let MessageView::QuestionsUpdated(q) = m {
        if 0 <= v.question_focus < v.questions.len() {
            lemma_index_of_id_facts(q, v.questions[v.question_focus].id);
        }
    }
}

/// A status that mentions an error puts the application in the error state;
/// a completed integration puts it back to idle.
pub proof fn lemma_error_and_completion_states(v: AppView, s: Seq<char>)
    ensures
        contains_seq(s, error_word()) ==> spec_update(v, MessageView::StatusUpdate(s)).0.state
            == AppState::Error,
        spec_update(v, MessageView::StatusUpdate(s)).0.status == s,
        spec_update(v, MessageView::IntegrationComplete).0.state == AppState::Idle,
        spec_update(v, MessageView::IntegrationComplete).0.status == idle_status(),
        !spec_update(v, MessageView::IntegrationComplete).0.quit_dialog,
{
}

/// A status report without the word "Error" keeps the application's state:
/// while integrating, a queue report keeps it integrating.
pub proof fn lemma_status_keeps_state(v: AppView, s: Seq<char>)
    requires
        !contains_seq(s, "Error"@),
    ensures
        spec_update(v, MessageView::StatusUpdate(s)).0.state == v.state,
        spec_update(v, MessageView::StatusUpdate(s)).0.status == s,
        !spec_update(v, MessageView::StatusUpdate(s)).1,
{
}

/// In the writer, Delete removes the character after the cursor (nothing at
/// the end of the text) and leaves the cursor where it is; Backspace removes
/// the character before the cursor (nothing at its start) and moves the
/// cursor back over it. Neither sends anything.
pub proof fn lemma_writer_delete_and_backspace(v: AppView, modifiers: u8)
    requires
        no_dialog(v),
        v.active_tab == ActiveTab::TextInput,
        0 <= v.input.cursor <= v.input.text.len(),
    ensures
        ({
            let t = v.input.text;
            let c = v.input.cursor;
            let (d, sd) = spec_handle_key(v, KeyEvent { code: KeyCode::Delete, modifiers });
            let (b, sb) = spec_handle_key(v, KeyEvent { code: KeyCode::Backspace, modifiers });
            &&& sd is None && sb is None
            &&& d.input.cursor == c
            &&& c < t.len() ==> d.input.text == t.take(c) + t.skip(c + 1)
            &&& c == t.len() ==> d.input.text == t
            &&& c > 0 ==> b.input.cursor == c - 1 && b.input.text == t.take(c - 1) + t.skip(c)
            &&& c == 0 ==> b.input == v.input
            &&& d.questions == v.questions && b.questions == v.questions
        }),
{
    let t = v.input.text;
    let c = v.input.cursor;
    if c < t.len() {
        assert(t.remove(c) =~= t.take(c) + t.skip(c + 1));
    }
    if c > 0 {
        assert(t.remove(c - 1) =~= t.take(c - 1) + t.skip(c));
    }
}

/// Submitting an answer sends "The answer to question Q<id> (<title>) is: "
/// followed by the whole trimmed answer, line breaks included: the message
/// ends with the answer.
pub proof fn lemma_answer_message_carries_whole_answer(v: AppView)
    requires
        v.answer_dialog is Some,
        trim(v.answer_dialog->0.input.text).len() > 0,
    ensures
        ({
            let d = v.answer_dialog->0;
            let a = trim(d.input.text);
            let prefix = "The answer to question Q"@ + decimal(d.question.id as nat) + " ("@
                + d.question.text + ") is: "@;
            let sent = spec_submit_answer(v).1;
            &&& sent == Some(prefix + a)
            &&& sent->0.len() == prefix.len() + a.len()
            &&& sent->0.skip(prefix.len() as int) == a
        }),
{
    let d = v.answer_dialog->0;
    let a = trim(d.input.text);
    let prefix = "The answer to question Q"@ + decimal(d.question.id as nat) + " ("@
        + d.question.text + ") is: "@;
    assert((prefix + a).skip(prefix.len() as int) =~= a);
}

} // verus!
