//! What the screen shows, computed from the application state: scrolling,
//! soft-wrapped cursor placement, the status line, priorities and help hints.
//!
//! Widths are measured, as the terminal rendering measures them, in bytes of
//! the UTF-8 encoding.
use vstd::prelude::*;
use crate::app::{ActiveTab, App, AppState, AppView};
use crate::question::{Question, QuestionView};
use crate::edit::{BufferView, TextBuffer};
use crate::settings::{Settings, SettingsView, field_display, field_label};
use crate::text::{
    byte_len, char_byte_len, chars_of, count_lines, decimal, decimal_chars, lemma_byte_len_push,
    len_utf8, line_count, push_all, string_from_chars, chars_eq,
};

verus! {

// ---------------------------------------------------------------------------
// Scrolling
// ---------------------------------------------------------------------------

/// The first shown row of `total` rows when `visible` fit and `focus` should
/// be near the middle: 0 when everything fits, else half a screen above the
/// focus, but never past the last full screen.
pub open spec fn spec_center_scroll(focus: int, visible: int, total: int) -> int {
    if total <= visible {
        0
    } else {
        let half = visible / 2;
        let max_scroll = total - visible;
        let up = if focus > half {
            focus - half
        } else {
            0
        };
        if up < max_scroll {
            up
        } else {
            max_scroll
        }
    }
}

/// The scroll offset that keeps `focus` near the middle (see [`spec_center_scroll`]).
pub fn center_scroll(focus: usize, visible: usize, total: usize) -> (r: usize)
    ensures
        r == spec_center_scroll(focus as int, visible as int, total as int),
        r <= focus,
        total > visible ==> r + visible <= total,
{
    if total <= visible {
        return 0;
    }
    let half = visible / 2;
    let max_scroll = total - visible;
    let up = if focus > half {
        focus - half
    } else {
        0
    };
    if up < max_scroll {
        up
    } else {
        max_scroll
    }
}

// ---------------------------------------------------------------------------
// Dialogs
// ---------------------------------------------------------------------------

/// Where a dialog of at most `max_w` columns and `max_h` rows goes in the area
/// at (`ax`, `ay`) of `aw` columns and `ah` rows: it keeps 10 columns and 6
/// rows of the area free where it can, and is centred (rounding up and left).
/// The result is (x, y, width, height).
pub open spec fn spec_dialog_area(ax: int, ay: int, aw: int, ah: int, max_w: int, max_h: int) -> (
    int,
    int,
    int,
    int,
) {
    let free_w = if aw > 10 {
        aw - 10
    } else {
        0
    };
    let free_h = if ah > 6 {
        ah - 6
    } else {
        0
    };
    let w = if max_w < free_w {
        max_w
    } else {
        free_w
    };
    let h = if max_h < free_h {
        max_h
    } else {
        free_h
    };
    (ax + (aw - w) / 2, ay + (ah - h) / 2, w, h)
}

/// The place of a centred dialog (see [`spec_dialog_area`]); it lies inside the area.
pub fn dialog_area(ax: u16, ay: u16, aw: u16, ah: u16, max_w: u16, max_h: u16) -> (r: (
    u16,
    u16,
    u16,
    u16,
))
    requires
        ax + aw <= u16::MAX,
        ay + ah <= u16::MAX,
    ensures
        (r.0 as int, r.1 as int, r.2 as int, r.3 as int) == spec_dialog_area(
            ax as int,
            ay as int,
            aw as int,
            ah as int,
            max_w as int,
            max_h as int,
        ),
        ax <= r.0,
        r.0 + r.2 <= ax + aw,
        ay <= r.1,
        r.1 + r.3 <= ay + ah,
        r.2 <= max_w,
        r.3 <= max_h,
{
    let free_w = if aw > 10 {
        aw - 10
    } else {
        0
    };
    let free_h = if ah > 6 {
        ah - 6
    } else {
        0
    };
    let w = if max_w < free_w {
        max_w
    } else {
        free_w
    };
    let h = if max_h < free_h {
        max_h
    } else {
        free_h
    };
    (ax + (aw - w) / 2, ay + (ah - h) / 2, w, h)
}

// ---------------------------------------------------------------------------
// Soft wrapping
// ---------------------------------------------------------------------------

/// The byte lengths of the pieces of `s` between newlines (as `split('\n')`
/// gives them: an empty text is one empty piece, a trailing newline ends with
/// an empty piece).
pub open spec fn segment_bytes(s: Seq<char>) -> Seq<nat>
    decreases s.len(),
{
    if s.len() == 0 {
        seq![0]
    } else {
        let p = segment_bytes(s.drop_last());
        if s.last() == '\n' {
            p.push(0)
        } else {
            p.update(p.len() - 1, p.last() + char_byte_len(s.last()))
        }
    }
}

pub proof fn lemma_segment_bytes_nonempty(s: Seq<char>)
    ensures
        segment_bytes(s).len() >= 1,
    decreases s.len(),
{
    if s.len() > 0 {
        lemma_segment_bytes_nonempty(s.drop_last());
    }
}

/// The number of full rows a piece of `b` bytes fills at width `w`.
pub open spec fn full_rows(b: nat, w: nat) -> nat {
    b / w
}

/// The number of rows a piece of `b` bytes takes at width `w`: at least one.
pub open spec fn rows_taken(b: nat, w: nat) -> nat {
    if b == 0 {
        1
    } else {
        ((b + w - 1) / (w as int)) as nat
    }
}

pub open spec fn sum_rows_taken(bs: Seq<nat>, w: nat) -> nat
    decreases bs.len(),
{
    if bs.len() == 0 {
        0
    } else {
        sum_rows_taken(bs.drop_last(), w) + rows_taken(bs.last(), w)
    }
}

/// The wrapping width: the inner width, at least 1.
pub open spec fn wrap_width(inner_width: u16) -> nat {
    if inner_width == 0 {
        1
    } else {
        inner_width as nat
    }
}

/// The row of the cursor when the text before it is wrapped at width `w`:
/// every finished line before it takes its rows (at least one each), and the
/// cursor's own line adds the rows that its part before the cursor fills.
pub open spec fn cursor_row(before: Seq<char>, w: nat) -> nat {
    let bs = segment_bytes(before);
    sum_rows_taken(bs.drop_last(), w) + full_rows(bs.last(), w)
}

/// The column of the cursor: where the last piece before it ends in its last row.
pub open spec fn cursor_col(before: Seq<char>, w: nat) -> nat {
    segment_bytes(before).last() % w
}

/// The rows a text takes when wrapped at width `w`: each piece at least one.
pub open spec fn wrapped_rows(s: Seq<char>, w: nat) -> nat {
    sum_rows_taken(segment_bytes(s), w)
}

proof fn lemma_rows_bounds(b: nat, w: nat)
    requires
        w >= 1,
    ensures
        full_rows(b, w) <= b,
        rows_taken(b, w) <= b + 1,
        full_rows(b, w) <= rows_taken(b, w),
{
    assert(b / w <= b) by (nonlinear_arith)
        requires
            w >= 1,
    ;
    if b > 0 {
        assert((b + w - 1) / (w as int) <= b) by (nonlinear_arith)
            requires
                w >= 1,
                b >= 1,
        ;
        assert(b / w <= (b + w - 1) / (w as int)) by (nonlinear_arith)
            requires
                w >= 1,
        ;
    }
}

/// Scans `text[..end]` piece by piece: the sums over the finished pieces
/// and the byte length of the last piece.
fn wrap_scan(text: &Vec<char>, end: usize, w: usize) -> (r: (usize, usize))
    requires
        end <= text.len(),
        1 <= w <= u16::MAX,
        byte_len(text@) <= isize::MAX,
    ensures
        ({
            let bs = segment_bytes(text@.take(end as int));
            &&& r.0 == sum_rows_taken(bs.drop_last(), w as nat)
            &&& r.1 == bs.last()
            &&& r.0 + r.1 <= byte_len(text@.take(end as int))
        }),
{
    let mut done_taken: usize = 0;
    let mut seg: usize = 0;
    let mut i: usize = 0;
    proof {
        assert(text@.take(0) =~= Seq::<char>::empty());
        assert(segment_bytes(Seq::<char>::empty()).drop_last() =~= Seq::<nat>::empty());
        assert(byte_len(Seq::<char>::empty()) == 0);
    }
    while i < end
        invariant
            i <= end <= text.len(),
            1 <= w <= u16::MAX,
            byte_len(text@) <= isize::MAX,
            byte_len(text@.take(i as int)) <= byte_len(text@),
            ({
                let bs = segment_bytes(text@.take(i as int));
                &&& done_taken == sum_rows_taken(bs.drop_last(), w as nat)
                &&& seg == bs.last()
                &&& done_taken + seg <= byte_len(text@.take(i as int))
            }),
        decreases end - i,
    {
        let c = text[i];
        let ghost prev = text@.take(i as int);
        let ghost next = text@.take(i + 1);
        proof {
            assert(next.drop_last() =~= prev);
            assert(next.last() == c);
            lemma_byte_len_push(prev, c);
            assert(next =~= prev.push(c));
            crate::text::lemma_byte_len_take(text@, i + 1, text.len() as int);
            assert(text@.take(text.len() as int) =~= text@);
            lemma_segment_bytes_nonempty(prev);
            lemma_rows_bounds(seg as nat, w as nat);
            assert(char_byte_len('\n') == 1);
        }
        if c == '\n' {
            proof {
                let bs = segment_bytes(prev);
                let nb = bs.push(0);
                assert(nb.drop_last() =~= bs);
                assert(bs =~= bs.drop_last().push(bs.last()));
            }
            done_taken = done_taken + if seg == 0 {
                1
            } else {
                (seg + w - 1) / w
            };
            seg = 0;
        } else {
            proof {
                let bs = segment_bytes(prev);
                let nb = bs.update(bs.len() - 1, bs.last() + char_byte_len(c));
                assert(nb.drop_last() =~= bs.drop_last());
            }
            seg = seg + len_utf8(c);
        }
        i += 1;
    }
    (done_taken, seg)
}

/// The row and column of the cursor, at character index `cursor_index`, in
/// `text` wrapped at the inner width (at least 1), as 16-bit screen coordinates.
pub fn wrapped_cursor_pos(text: &Vec<char>, cursor_index: usize, inner_width: u16) -> (r: (u16, u16))
    requires
        cursor_index <= text.len(),
        byte_len(text@) <= isize::MAX,
    ensures
        r.0 == cursor_row(text@.take(cursor_index as int), wrap_width(inner_width)) as u16,
        r.1 == cursor_col(text@.take(cursor_index as int), wrap_width(inner_width)) as u16,
{
    let w: usize = if inner_width == 0 {
        1
    } else {
        inner_width as usize
    };
    let (taken, seg) = wrap_scan(text, cursor_index, w);
    proof {
        let bs = segment_bytes(text@.take(cursor_index as int));
        lemma_segment_bytes_nonempty(text@.take(cursor_index as int));
        crate::text::lemma_byte_len_take(text@, cursor_index as int, text.len() as int);
        assert(text@.take(text.len() as int) =~= text@);
        assert(bs =~= bs.drop_last().push(bs.last()));
        lemma_rows_bounds(seg as nat, w as nat);
    }
    let row: usize = taken + seg / w;
    let col: usize = seg % w;
    (row as u16, col as u16)
}

/// How many rows `text` takes when wrapped at the inner width (at least 1).
pub fn wrapped_line_count(text: &Vec<char>, inner_width: u16) -> (n: usize)
    requires
        byte_len(text@) <= isize::MAX,
    ensures
        n == wrapped_rows(text@, wrap_width(inner_width)),
{
    let w: usize = if inner_width == 0 {
        1
    } else {
        inner_width as usize
    };
    let (taken, seg) = wrap_scan(text, text.len(), w);
    proof {
        assert(text@.take(text.len() as int) =~= text@);
        let bs = segment_bytes(text@);
        lemma_segment_bytes_nonempty(text@);
        assert(bs =~= bs.drop_last().push(bs.last()));
        lemma_rows_bounds(seg as nat, w as nat);
    }
    taken + if seg == 0 {
        1
    } else {
        (seg + w - 1) / w
    }
}

// ---------------------------------------------------------------------------
// Status line
// ---------------------------------------------------------------------------

/// The color of the status line.
#[derive(Debug, Clone, Copy, PartialEq, Eq, Structural)]
pub enum StatusColor {
    /// The terminal's default color (idle).
    Plain,
    /// Integrating.
    Yellow,
    /// The last integration failed.
    Red,
}

/// The number of animation dots after the status while integrating: 1, 2, 3, 1, ...
pub open spec fn dot_count(tick: u64) -> nat {
    ((tick as usize) % 3 + 1) as nat
}

/// `n` dots.
pub open spec fn dots(n: nat) -> Seq<char> {
    Seq::new(n, |i: int| '.')
}

/// The status line: the status itself, with no padding before it; while
/// integrating, animated dots follow and it is yellow; after a failure it is red.
pub open spec fn spec_status_line(v: AppView) -> (Seq<char>, StatusColor) {
    match v.state {
        AppState::Integrating => (v.status + dots(dot_count(v.tick)), StatusColor::Yellow),
        AppState::Idle => (v.status, StatusColor::Plain),
        AppState::Error => (v.status, StatusColor::Red),
    }
}

/// The status line's text and color (see [`spec_status_line`]).
pub fn status_line(app: &App) -> (r: (String, StatusColor))
    ensures
        (r.0@, r.1) == spec_status_line(app@),
{
    let mut v = chars_of(app.status.as_str());
    match app.state {
        AppState::Integrating => {
            let n: usize = (app.tick as usize) % 3 + 1;
            let ghost base = v@;
            let mut k: usize = 0;
            while k < n
                invariant
                    k <= n,
                    v@ == base + dots(k as nat),
                decreases n - k,
            {
                v.push('.');
                k += 1;
                assert(base + dots(k as nat) =~= (base + dots((k - 1) as nat)).push('.'));
            }
            (string_from_chars(&v), StatusColor::Yellow)
        },
        AppState::Idle => (string_from_chars(&v), StatusColor::Plain),
        AppState::Error => (string_from_chars(&v), StatusColor::Red),
    }
}

// ---------------------------------------------------------------------------
// Questions
// ---------------------------------------------------------------------------

/// How a priority is emphasized in the question list.
#[derive(Debug, Clone, Copy, PartialEq, Eq, Structural)]
pub enum PriorityStyle {
    /// Priority 5: red and bold.
    Critical,
    /// Priority 4: yellow.
    Important,
    /// Anything else: no emphasis.
    Plain,
}

/// The priority shown: the question's priority, at most 5.
pub open spec fn shown_priority(p: u8) -> u8 {
    if p < 5 {
        p
    } else {
        5
    }
}

/// The priority shown for a question, at most 5.
pub fn display_priority(p: u8) -> (r: u8)
    ensures
        r == shown_priority(p),
{
    if p < 5 {
        p
    } else {
        5
    }
}

/// The emphasis of a shown priority.
pub fn priority_style_for(p: u8) -> (r: PriorityStyle)
    ensures
        r == (if p == 5 {
            PriorityStyle::Critical
        } else if p == 4 {
            PriorityStyle::Important
        } else {
            PriorityStyle::Plain
        }),
{
    if p == 5 {
        PriorityStyle::Critical
    } else if p == 4 {
        PriorityStyle::Important
    } else {
        PriorityStyle::Plain
    }
}

/// The detail text of a question: `[<priority>] <title>`, then a blank line
/// and the body when there is one.
pub open spec fn spec_question_detail(q: QuestionView) -> Seq<char> {
    let head = seq!['['] + decimal(shown_priority(q.priority) as nat) + seq![']', ' '] + q.text;
    if q.body.len() == 0 {
        head
    } else {
        head + seq!['\n', '\n'] + q.body
    }
}

/// The detail text of a question (see [`spec_question_detail`]).
pub fn question_detail(q: &Question) -> (r: String)
    ensures
        r@ == spec_question_detail(q@),
{
    let mut v: Vec<char> = Vec::new();
    v.push('[');
    push_all(&mut v, &decimal_chars(display_priority(q.priority) as u64));
    v.push(']');
    v.push(' ');
    push_all(&mut v, &chars_of(q.text.as_str()));
    let body = chars_of(q.body.as_str());
    let ghost head = v@;
    assert(head =~= seq!['['] + decimal(shown_priority(q.priority) as nat) + seq![']', ' ']
        + q.text@);
    if body.len() > 0 {
        v.push('\n');
        v.push('\n');
        push_all(&mut v, &body);
        assert(v@ =~= head + seq!['\n', '\n'] + q.body@);
    }
    string_from_chars(&v)
}

// ---------------------------------------------------------------------------
// Tabs and placeholders
// ---------------------------------------------------------------------------

/// The number of lines of the shown spec (0 when there is no spec file).
pub open spec fn spec_line_total(v: AppView) -> nat {
    match v.spec_content {
        Some(c) => line_count(c),
        None => 0,
    }
}

/// The tab titles, in Title Case: the writer; the open questions with their
/// number; the spec file's name with its number of lines; the settings.
pub open spec fn spec_tab_titles(v: AppView, spec_filename: Seq<char>) -> Seq<Seq<char>> {
    seq![
        " Writer "@,
        " Open Questions ("@ + decimal(v.questions.len()) + ") "@,
        seq![' '] + spec_filename + " ("@ + decimal(spec_line_total(v)) + ") "@,
        " Settings "@,
    ]
}

/// The tab titles (see [`spec_tab_titles`]).
pub fn tab_titles(app: &App, spec_filename: &str) -> (r: Vec<String>)
    ensures
        r@.map_values(|t: String| t@) == spec_tab_titles(app@, spec_filename@),
{
    let mut q = chars_of(" Open Questions (");
    push_all(&mut q, &decimal_chars(app.questions.len() as u64));
    push_all(&mut q, &chars_of(") "));
    let lines: usize = match &app.spec_content {
        Some(c) => count_lines(&chars_of(c.as_str())),
        None => 0,
    };
    let mut f: Vec<char> = Vec::new();
    f.push(' ');
    push_all(&mut f, &chars_of(spec_filename));
    push_all(&mut f, &chars_of(" ("));
    push_all(&mut f, &decimal_chars(lines as u64));
    push_all(&mut f, &chars_of(") "));
    let mut r: Vec<String> = Vec::new();
    r.push(" Writer ".to_string());
    r.push(string_from_chars(&q));
    r.push(string_from_chars(&f));
    r.push(" Settings ".to_string());
    assert(r@.map_values(|t: String| t@) =~= spec_tab_titles(app@, spec_filename@));
    r
}

// ---------------------------------------------------------------------------
// The settings list
// ---------------------------------------------------------------------------

/// One row of the settings list.
#[derive(Debug, Clone)]
pub struct SettingsRow {
    /// The field's label, padded to the label column's width.
    pub label: String,
    /// The value shown, or the text being edited.
    pub value: String,
    /// Whether the row has the focus (drawn black on yellow).
    pub focused: bool,
    /// Whether the value is shown dimmed (an unset value on another row).
    pub dimmed: bool,
}

/// The mathematical value of a [`SettingsRow`].
pub struct RowView {
    pub label: Seq<char>,
    pub value: Seq<char>,
    pub focused: bool,
    pub dimmed: bool,
}

impl View for SettingsRow {
    type V = RowView;

    open spec fn view(&self) -> RowView {
        RowView { label: self.label@, value: self.value@, focused: self.focused, dimmed: self.dimmed }
    }
}

/// The width of the label column.
pub open spec fn label_width() -> nat {
    18
}

/// `s` followed by spaces up to `n` characters.
pub open spec fn pad_to(s: Seq<char>, n: nat) -> Seq<char> {
    if s.len() < n {
        s + Seq::new((n - s.len()) as nat, |i: int| ' ')
    } else {
        s
    }
}

/// Row `i` of the settings list: the label padded to the column width; the
/// text being edited (a single space when empty) on the focused row while
/// it is edited, otherwise the shown value; the focused row emphasized; an
/// unset value on another row dimmed.
pub open spec fn spec_settings_row(
    s: SettingsView,
    focus: int,
    editing: Option<BufferView>,
    i: int,
) -> RowView {
    let shown = field_display(s, i as usize);
    RowView {
        label: pad_to(field_label(i as usize), label_width()),
        value: if i == focus && editing is Some {
            if editing->0.text.len() == 0 {
                seq![' ']
            } else {
                editing->0.text
            }
        } else {
            shown
        },
        focused: i == focus,
        dimmed: i != focus && shown == "(not set)"@,
    }
}

pub open spec fn rows_view(rows: Seq<SettingsRow>) -> Seq<RowView> {
    rows.map_values(|r: SettingsRow| r@)
}

/// The rows of the settings list, one per field (see [`spec_settings_row`]).
pub fn settings_rows(settings: &Settings, focus: usize, editing: Option<&TextBuffer>) -> (rows: Vec<
    SettingsRow,
>)
    ensures
        rows@.len() == 5,
        forall|i: int|
            0 <= i < 5 ==> (#[trigger] rows@[i])@ == spec_settings_row(
                settings@,
                focus as int,
                match editing {
                    Some(b) => Some(b@),
                    None => None,
                },
                i,
            ),
{
    let ghost ev = match editing {
        Some(b) => Some(b@),
        None => None::<BufferView>,
    };
    let not_set = chars_of("(not set)");
    let mut rows: Vec<SettingsRow> = Vec::new();
    let mut i: usize = 0;
    while i < 5
        invariant
            i <= 5,
            rows@.len() == i,
            not_set@ == "(not set)"@,
            ev == match editing {
                Some(b) => Some(b@),
                None => None::<BufferView>,
            },
            forall|j: int|
                0 <= j < i ==> (#[trigger] rows@[j])@ == spec_settings_row(
                    settings@,
                    focus as int,
                    ev,
                    j,
                ),
        decreases 5 - i,
    {
        let mut label = chars_of(Settings::label(i));
        let ghost base = label@;
        while label.len() < 18
            invariant
                base.len() <= label.len(),
                label.len() <= 18 || label.len() == base.len(),
                label@ == pad_to(base, label.len() as nat),
            decreases 18 - label.len(),
        {
            let ghost before = label@;
            label.push(' ');
            assert(pad_to(base, label.len() as nat) =~= before.push(' '));
        }
        assert(label@ == pad_to(base, 18));
        let shown = settings.display_value(i);
        let value: String = match editing {
            Some(b) => {
                if i == focus {
                    if b.text.len() == 0 {
                        " ".to_string()
                    } else {
                        string_from_chars(&b.text)
                    }
                } else {
                    shown.clone()
                }
            },
            None => shown.clone(),
        };
        let dimmed = i != focus && chars_eq(&chars_of(shown.as_str()), &not_set);
        proof {
            reveal_strlit(" ");
        }
        let row = SettingsRow { label: string_from_chars(&label), value, focused: i == focus, dimmed };
        proof {
            let want = spec_settings_row(settings@, focus as int, ev, i as int);
            assert(row@.label == want.label);
            assert(row@.value == want.value);
            assert(row@.focused == want.focused);
            assert(row@.dimmed == want.dimmed);
        }
        let ghost before = rows@;
        rows.push(row);
        assert(rows@[i as int] == row);
        assert(forall|j: int| 0 <= j < i ==> rows@[j] == before[j]);
        i += 1;
    }
    rows
}

/// The hint shown in an empty input: while integrating, a submission joins the queue.
pub open spec fn spec_input_placeholder(v: AppView) -> Seq<char> {
    if v.state == AppState::Integrating {
        "Type your requirements here. Ctrl+S to add to queue."@
    } else {
        "Type your requirements here. Ctrl+S to submit."@
    }
}

/// The hint shown in an empty input (see [`spec_input_placeholder`]).
pub fn input_placeholder(app: &App) -> (r: &'static str)
    ensures
        r@ == spec_input_placeholder(app@),
{
    if app.state == AppState::Integrating {
        "Type your requirements here. Ctrl+S to add to queue."
    } else {
        "Type your requirements here. Ctrl+S to submit."
    }
}

// ---------------------------------------------------------------------------
// Help line
// ---------------------------------------------------------------------------

/// The keyboard hints for the current situation.
pub open spec fn spec_help_text(v: AppView) -> Seq<char> {
    if v.quit_dialog {
        " Ctrl+C: confirm quit | Esc: cancel"@
    } else if v.answer_dialog is Some {
        " Ctrl+S: submit | Esc: cancel | Enter: newline"@
    } else {
        match v.active_tab {
            ActiveTab::TextInput => " Ctrl+C: quit | Tab: switch tab | Ctrl+S: submit | Enter: newline"@,
            ActiveTab::Questions => " Ctrl+C: quit | Tab: switch tab | \u{2191}\u{2193}: navigate | Enter: answer"@,
            ActiveTab::Spec => " Ctrl+C: quit | Tab: switch tab | \u{2191}\u{2193}: scroll"@,
            ActiveTab::Settings => if v.settings_tab.save_dialog {
                " Enter: save | Esc: cancel"@
            } else if v.settings_tab.editing is Some {
                " Enter: confirm | Esc: cancel | type to edit"@
            } else {
                " Ctrl+C: quit | Tab: switch tab | \u{2191}\u{2193}: navigate | Enter: edit/toggle | Ctrl+S: save"@
            },
        }
    }
}

/// The keyboard hints for the current situation (see [`spec_help_text`]).
pub fn help_text(app: &App) -> (r: &'static str)
    ensures
        r@ == spec_help_text(app@),
{
    if app.quit_dialog {
        " Ctrl+C: confirm quit | Esc: cancel"
    } else {
        match &app.answer_dialog {
            Some(_) => " Ctrl+S: submit | Esc: cancel | Enter: newline",
            None => match app.active_tab {
                ActiveTab::TextInput => " Ctrl+C: quit | Tab: switch tab | Ctrl+S: submit | Enter: newline",
                ActiveTab::Questions => " Ctrl+C: quit | Tab: switch tab | \u{2191}\u{2193}: navigate | Enter: answer",
                ActiveTab::Spec => " Ctrl+C: quit | Tab: switch tab | \u{2191}\u{2193}: scroll",
                ActiveTab::Settings => if app.settings_tab.save_dialog {
                    " Enter: save | Esc: cancel"
                } else if app.settings_tab.editing.is_some() {
                    " Enter: confirm | Esc: cancel | type to edit"
                } else {
                    " Ctrl+C: quit | Tab: switch tab | \u{2191}\u{2193}: navigate | Enter: edit/toggle | Ctrl+S: save"
                },
            },
        }
    }
}

// ---------------------------------------------------------------------------
// Laws of the layout
// ---------------------------------------------------------------------------

/// The scroll offset never hides the focus above the screen and never scrolls
/// past the last full screen.
pub proof fn lemma_center_scroll_bounds(focus: int, visible: int, total: int)
    requires
        0 <= focus,
        0 <= visible,
        0 <= total,
    ensures
        0 <= spec_center_scroll(focus, visible, total) <= focus,
        total > visible ==> spec_center_scroll(focus, visible, total) + visible <= total,
        total <= visible ==> spec_center_scroll(focus, visible, total) == 0,
{
}

/// The focused row is always on screen: it lies within the `visible` rows
/// that start at the scroll offset.
pub proof fn lemma_focus_stays_visible(focus: int, visible: int, total: int)
    requires
        0 <= focus < total,
        0 < visible,
    ensures
        spec_center_scroll(focus, visible, total) <= focus < spec_center_scroll(focus, visible, total)
            + visible,
{
}

/// Every wrapped text takes at least one row.
pub proof fn lemma_wrapped_rows_positive(s: Seq<char>, w: nat)
    requires
        w >= 1,
    ensures
        wrapped_rows(s, w) >= 1,
{
    lemma_segment_bytes_nonempty(s);
    let bs = segment_bytes(s);
    let b = bs.last();
    if b > 0 {
        assert((b + w - 1) / (w as int) >= 1) by (nonlinear_arith)
            requires
                w >= 1,
                b >= 1,
        ;
    }
    assert(sum_rows_taken(bs, w) >= rows_taken(bs.last(), w));
}

} // verus!
