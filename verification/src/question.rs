//! Clarifying questions embedded in a spec file, and the parser that reads
//! them from the file's `## Questions` section.
//!
//! A question is a `### Q<id> (p<priority>): <title>` heading (the
//! `(p<priority>)` part may be left out, giving priority 5), followed by prose
//! lines (its body) and optionally by `#### <title>` suggested solutions, each
//! followed by its own prose. A question ends at the next `###` heading; a
//! `###` heading that is not a question ends it without starting a new one,
//! and what follows is not read until the next question.
use vstd::prelude::*;
use crate::text::{
    chars_of, find_char, find_index, has_prefix, join_lines, join_with_newlines, lines,
    parse_unsigned, parse_unsigned_chars, split_lines, starts_with, string_from_chars, subrange,
    trim, trim_chars, chars_eq, lines_view, is_white_space, trim_start, trim_end, strip_cr,
    decimal, digits_value, is_digit, digit_char, digit_value,
};

verus! {

/// A suggested answer to a question.
#[derive(Debug, Clone)]
pub struct Solution {
    pub title: String,
    pub body: String,
}

/// The mathematical value of a [`Solution`].
pub struct SolutionView {
    pub title: Seq<char>,
    pub body: Seq<char>,
}

impl View for Solution {
    type V = SolutionView;

    open spec fn view(&self) -> SolutionView {
        SolutionView { title: self.title@, body: self.body@ }
    }
}

/// A clarifying question read from the spec.
#[derive(Debug, Clone)]
pub struct Question {
    pub id: usize,
    pub text: String,
    pub body: String,
    pub priority: u8,
    pub solutions: Vec<Solution>,
}

/// The mathematical value of a [`Question`].
pub struct QuestionView {
    pub id: usize,
    pub text: Seq<char>,
    pub body: Seq<char>,
    pub priority: u8,
    pub solutions: Seq<SolutionView>,
}

pub open spec fn solutions_view(s: Seq<Solution>) -> Seq<SolutionView> {
    s.map_values(|x: Solution| x@)
}

impl View for Question {
    type V = QuestionView;

    open spec fn view(&self) -> QuestionView {
        QuestionView {
            id: self.id,
            text: self.text@,
            body: self.body@,
            priority: self.priority,
            solutions: solutions_view(self.solutions@),
        }
    }
}

/// The values of a sequence of questions.
pub open spec fn questions_view(s: Seq<Question>) -> Seq<QuestionView> {
    s.map_values(|q: Question| q@)
}

/// A copy of a solution.
pub fn copy_solution(s: &Solution) -> (r: Solution)
    ensures
        r@ == s@,
{
    Solution { title: s.title.clone(), body: s.body.clone() }
}

/// A copy of a list of solutions.
pub fn copy_solutions(v: &Vec<Solution>) -> (r: Vec<Solution>)
    ensures
        solutions_view(r@) == solutions_view(v@),
{
    let mut r: Vec<Solution> = Vec::new();
    let mut i: usize = 0;
    while i < v.len()
        invariant
            i <= v.len(),
            r.len() == i,
            forall|k: int| 0 <= k < i ==> (#[trigger] r@[k])@ == v@[k]@,
        decreases v.len() - i,
    {
        r.push(copy_solution(&v[i]));
        i += 1;
    }
    assert(solutions_view(r@) =~= solutions_view(v@));
    r
}

/// A copy of a question.
pub fn copy_question(q: &Question) -> (r: Question)
    ensures
        r@ == q@,
{
    Question {
        id: q.id,
        text: q.text.clone(),
        body: q.body.clone(),
        priority: q.priority,
        solutions: copy_solutions(&q.solutions),
    }
}

// ---------------------------------------------------------------------------
// The heading grammar
// ---------------------------------------------------------------------------

/// `### Q`
pub open spec fn heading_prefix() -> Seq<char> {
    seq!['#', '#', '#', ' ', 'Q']
}

/// `#### `
pub open spec fn solution_prefix() -> Seq<char> {
    seq!['#', '#', '#', '#', ' ']
}

/// `### `: a heading that ends the question before it.
pub open spec fn subsection_prefix() -> Seq<char> {
    seq!['#', '#', '#', ' ']
}

/// `## `
pub open spec fn section_prefix() -> Seq<char> {
    seq!['#', '#', ' ']
}

/// `## Questions`
pub open spec fn questions_heading() -> Seq<char> {
    seq!['#', '#', ' ', 'Q', 'u', 'e', 's', 't', 'i', 'o', 'n', 's']
}

/// The priority a heading without `(p<priority>)` gets.
pub open spec fn default_priority() -> u8 {
    5
}

/// `s` without all of its trailing `c` characters (`str::trim_end_matches`).
pub open spec fn trim_end_char(s: Seq<char>, c: char) -> Seq<char>
    decreases s.len(),
{
    if s.len() > 0 && s.last() == c {
        trim_end_char(s.drop_last(), c)
    } else {
        s
    }
}

/// The `(id, priority)` that the part of a heading before its colon names:
/// `<id>` alone, or `<id> (p<priority>)`, with whitespace around the parts.
pub open spec fn heading_numbers(before: Seq<char>) -> Option<(usize, u8)> {
    let pp = find_index(before, '(');
    if pp < before.len() {
        match parse_unsigned(trim(before.take(pp)), usize::MAX as nat) {
            None => None,
            Some(id) => {
                let inside = trim(trim_end_char(before.skip(pp + 1), ')'));
                if inside.len() > 0 && inside[0] == 'p' {
                    match parse_unsigned(inside.drop_first(), u8::MAX as nat) {
                        None => None,
                        Some(p) => Some((id as usize, p as u8)),
                    }
                } else {
                    None
                }
            },
        }
    } else {
        match parse_unsigned(before, usize::MAX as nat) {
            None => None,
            Some(id) => Some((id as usize, default_priority())),
        }
    }
}

/// The question that a (trimmed) line `### Q<id> (p<priority>): <title>`
/// starts, with an empty body and no solutions; nothing when the line is not
/// such a heading or its title is empty.
pub open spec fn parse_heading(line: Seq<char>) -> Option<QuestionView> {
    if !has_prefix(line, heading_prefix()) {
        None
    } else {
        let rest = line.skip(5);
        let cp = find_index(rest, ':');
        if cp >= rest.len() {
            None
        } else {
            match heading_numbers(trim(rest.take(cp))) {
                None => None,
                Some(n) => {
                    let text = trim(rest.skip(cp + 1));
                    if text.len() == 0 {
                        None
                    } else {
                        Some(
                            QuestionView {
                                id: n.0,
                                text,
                                body: seq![],
                                priority: n.1,
                                solutions: seq![],
                            },
                        )
                    }
                },
            }
        }
    }
}

// ---------------------------------------------------------------------------
// The section grammar, as a fold over the lines of the file
// ---------------------------------------------------------------------------

/// What the parser knows after reading some lines.
pub struct ParseState {
    pub in_section: bool,
    pub done: bool,
    pub questions: Seq<QuestionView>,
    pub current: Option<QuestionView>,
    pub body_lines: Seq<Seq<char>>,
    pub solution: Option<Seq<char>>,
    pub solution_lines: Seq<Seq<char>>,
}

pub open spec fn initial_parse_state() -> ParseState {
    ParseState {
        in_section: false,
        done: false,
        questions: seq![],
        current: None,
        body_lines: seq![],
        solution: None,
        solution_lines: seq![],
    }
}

/// Lines joined with newlines, then trimmed: the body of a question or a solution.
pub open spec fn block_text(ls: Seq<Seq<char>>) -> Seq<char> {
    trim(join_lines(ls))
}

pub open spec fn add_solution(q: QuestionView, s: SolutionView) -> QuestionView {
    QuestionView { solutions: q.solutions.push(s), ..q }
}

pub open spec fn with_body(q: QuestionView, body: Seq<char>) -> QuestionView {
    QuestionView { body, ..q }
}

/// Closes the open solution, if any: its body is its lines, and it joins the current question.
pub open spec fn close_solution(st: ParseState) -> ParseState {
    match st.solution {
        None => st,
        Some(title) => {
            let sol = SolutionView { title, body: block_text(st.solution_lines) };
            ParseState {
                current: match st.current {
                    Some(q) => Some(add_solution(q, sol)),
                    None => None,
                },
                solution: None,
                solution_lines: seq![],
                ..st
            }
        },
    }
}

/// Closes the current question, if any: a question without solutions gets
/// its collected lines as body; it joins the parsed questions.
pub open spec fn close_question(st: ParseState) -> ParseState {
    match st.current {
        None => st,
        Some(q) => {
            let q2 = if q.solutions.len() == 0 {
                with_body(q, block_text(st.body_lines))
            } else {
                q
            };
            ParseState { questions: st.questions.push(q2), current: None, ..st }
        },
    }
}

/// Reads one line.
pub open spec fn parse_step(st: ParseState, line: Seq<char>) -> ParseState {
    let t = trim(line);
    if st.done {
        st
    } else if t == questions_heading() {
        ParseState { in_section: true, ..st }
    } else if st.in_section && has_prefix(t, section_prefix()) {
        ParseState { done: true, ..st }
    } else if !st.in_section {
        st
    } else {
        match parse_heading(t) {
            Some(q) => {
                let s1 = close_question(close_solution(st));
                ParseState { current: Some(q), body_lines: seq![], ..s1 }
            },
            None => {
                if has_prefix(t, solution_prefix()) && st.current is Some {
                    let s1 = match st.solution {
                        Some(_) => close_solution(st),
                        None => ParseState {
                            current: Some(with_body(st.current->0, block_text(st.body_lines))),
                            ..st
                        },
                    };
                    ParseState { solution: Some(trim(t.skip(5))), ..s1 }
                } else if has_prefix(t, subsection_prefix()) {
                    ParseState { body_lines: seq![], ..close_question(close_solution(st)) }
                } else if st.solution is Some {
                    ParseState { solution_lines: st.solution_lines.push(line), ..st }
                } else if st.current is Some {
                    ParseState { body_lines: st.body_lines.push(line), ..st }
                } else {
                    st
                }
            },
        }
    }
}

/// The state after reading all of `ls`.
pub open spec fn parse_run(ls: Seq<Seq<char>>) -> ParseState
    decreases ls.len(),
{
    if ls.len() == 0 {
        initial_parse_state()
    } else {
        parse_step(parse_run(ls.drop_last()), ls.last())
    }
}

/// The questions of a spec file's text, in the order they appear.
pub open spec fn parse_content(content: Seq<char>) -> Seq<QuestionView> {
    close_question(close_solution(parse_run(lines(content)))).questions
}

// ---------------------------------------------------------------------------
// Ordering: priority from high to low, then id from low to high
// ---------------------------------------------------------------------------

/// Whether `a` is listed before `b`: higher priority first, then lower id.
pub open spec fn precedes(a: QuestionView, b: QuestionView) -> bool {
    a.priority > b.priority || (a.priority == b.priority && a.id < b.id)
}

/// Where a stable insertion puts `q` into the ordered `s`: before the first
/// element that `q` precedes.
pub open spec fn insert_pos(s: Seq<QuestionView>, q: QuestionView) -> int
    decreases s.len(),
{
    if s.len() == 0 {
        0
    } else if precedes(q, s[0]) {
        0
    } else {
        1 + insert_pos(s.drop_first(), q)
    }
}

/// The questions in list order: what a stable sort by (priority high to low,
/// id low to high) gives; questions with equal keys keep their order.
pub open spec fn sort_questions(s: Seq<QuestionView>) -> Seq<QuestionView>
    decreases s.len(),
{
    if s.len() == 0 {
        seq![]
    } else {
        let r = sort_questions(s.drop_last());
        r.insert(insert_pos(r, s.last()), s.last())
    }
}

/// Whether no question of `s` precedes an earlier one.
pub open spec fn is_ordered(s: Seq<QuestionView>) -> bool {
    forall|i: int, j: int| 0 <= i < j < s.len() ==> !precedes(#[trigger] s[j], #[trigger] s[i])
}

// ---------------------------------------------------------------------------
// Executable parser
// ---------------------------------------------------------------------------

/// A question being read: its text and body are still characters.
struct QuestionDraft {
    id: usize,
    text: Vec<char>,
    body: Vec<char>,
    priority: u8,
    solutions: Vec<Solution>,
}

impl View for QuestionDraft {
    type V = QuestionView;

    closed spec fn view(&self) -> QuestionView {
        QuestionView {
            id: self.id,
            text: self.text@,
            body: self.body@,
            priority: self.priority,
            solutions: solutions_view(self.solutions@),
        }
    }
}

fn finish_draft(d: QuestionDraft) -> (q: Question)
    ensures
        q@ == d@,
{
    Question {
        id: d.id,
        text: string_from_chars(&d.text),
        body: string_from_chars(&d.body),
        priority: d.priority,
        solutions: d.solutions,
    }
}

/// `s` without all of its trailing `c` characters.
fn trim_end_char_chars(v: &Vec<char>, c: char) -> (r: Vec<char>)
    ensures
        r@ == trim_end_char(v@, c),
{
    let mut end: usize = v.len();
    assert(v@.take(end as int) =~= v@);
    while end > 0 && v[end - 1] == c
        invariant
            end <= v.len(),
            trim_end_char(v@, c) == trim_end_char(v@.take(end as int), c),
        decreases end,
    {
        proof {
            let t = v@.take(end as int);
            assert(t.drop_last() =~= v@.take(end - 1));
        }
        end -= 1;
    }
    proof {
        let t = v@.take(end as int);
        assert(trim_end_char(t, c) == t);
    }
    subrange(v, 0, end)
}

fn heading_numbers_chars(before: &Vec<char>) -> (r: Option<(usize, u8)>)
    ensures
        r == heading_numbers(before@),
{
    match find_char(before, '(') {
        Some(pp) => {
            let id_part = trim_chars(&subrange(before, 0, pp));
            assert(before@.subrange(0, pp as int) =~= before@.take(pp as int));
            match parse_unsigned_chars(&id_part, usize::MAX as u64) {
                None => None,
                Some(id) => {
                    let after = subrange(before, pp + 1, before.len());
                    assert(after@ =~= before@.skip(pp + 1));
                    let inside = trim_chars(&trim_end_char_chars(&after, ')'));
                    if inside.len() > 0 && inside[0] == 'p' {
                        let digits = subrange(&inside, 1, inside.len());
                        assert(digits@ =~= inside@.drop_first());
                        match parse_unsigned_chars(&digits, 255) {
                            None => None,
                            Some(p) => Some((id as usize, p as u8)),
                        }
                    } else {
                        None
                    }
                },
            }
        },
        None => {
            match parse_unsigned_chars(before, usize::MAX as u64) {
                None => None,
                Some(id) => Some((id as usize, 5u8)),
            }
        },
    }
}

fn heading_prefix_chars() -> (r: Vec<char>)
    ensures
        r@ == heading_prefix(),
{
    let r = vec!['#', '#', '#', ' ', 'Q'];
    assert(r@ =~= heading_prefix());
    r
}

fn solution_prefix_chars() -> (r: Vec<char>)
    ensures
        r@ == solution_prefix(),
{
    let r = vec!['#', '#', '#', '#', ' '];
    assert(r@ =~= solution_prefix());
    r
}

fn section_prefix_chars() -> (r: Vec<char>)
    ensures
        r@ == section_prefix(),
{
    let r = vec!['#', '#', ' '];
    assert(r@ =~= section_prefix());
    r
}

fn subsection_prefix_chars() -> (r: Vec<char>)
    ensures
        r@ == subsection_prefix(),
{
    let r = vec!['#', '#', '#', ' '];
    assert(r@ =~= subsection_prefix());
    r
}

fn questions_heading_chars() -> (r: Vec<char>)
    ensures
        r@ == questions_heading(),
{
    let r = vec!['#', '#', ' ', 'Q', 'u', 'e', 's', 't', 'i', 'o', 'n', 's'];
    assert(r@ =~= questions_heading());
    r
}

fn parse_heading_chars(t: &Vec<char>) -> (r: Option<QuestionDraft>)
    ensures
        match r {
            Some(d) => parse_heading(t@) == Some(d@),
            None => parse_heading(t@) is None,
        },
{
    if !starts_with(t, &heading_prefix_chars()) {
        return None;
    }
    let rest = subrange(t, 5, t.len());
    assert(rest@ =~= t@.skip(5));
    let cp = match find_char(&rest, ':') {
        Some(cp) => cp,
        None => {
            return None;
        },
    };
    let before = trim_chars(&subrange(&rest, 0, cp));
    assert(rest@.subrange(0, cp as int) =~= rest@.take(cp as int));
    match heading_numbers_chars(&before) {
        None => None,
        Some(n) => {
            let tail = subrange(&rest, cp + 1, rest.len());
            assert(tail@ =~= rest@.skip(cp + 1));
            let text = trim_chars(&tail);
            if text.len() == 0 {
                None
            } else {
                let d = QuestionDraft {
                    id: n.0,
                    text,
                    body: Vec::new(),
                    priority: n.1,
                    solutions: Vec::new(),
                };
                assert(d@.body =~= Seq::<char>::empty());
                assert(d@.solutions =~= Seq::<SolutionView>::empty());
                Some(d)
            }
        },
    }
}

/// Parses a `### Q<id> (p<priority>): <title>` heading line, which must
/// start with `### Q` itself. Gives a question with an empty body and no solutions.
pub fn parse_question_heading(line: &str) -> (r: Option<Question>)
    ensures
        match r {
            Some(q) => parse_heading(line@) == Some(q@),
            None => parse_heading(line@) is None,
        },
{
    let t = chars_of(line);
    match parse_heading_chars(&t) {
        Some(d) => Some(finish_draft(d)),
        None => None,
    }
}

/// The parser's working state while it reads the file line by line.
struct Parser {
    in_section: bool,
    done: bool,
    questions: Vec<Question>,
    current: Option<QuestionDraft>,
    body_lines: Vec<Vec<char>>,
    solution: Option<Vec<char>>,
    solution_lines: Vec<Vec<char>>,
}

spec fn draft_opt_view(o: Option<QuestionDraft>) -> Option<QuestionView> {
    match o {
        Some(d) => Some(d@),
        None => None,
    }
}

spec fn chars_opt_view(o: Option<Vec<char>>) -> Option<Seq<char>> {
    match o {
        Some(t) => Some(t@),
        None => None,
    }
}

impl View for Parser {
    type V = ParseState;

    closed spec fn view(&self) -> ParseState {
        ParseState {
            in_section: self.in_section,
            done: self.done,
            questions: questions_view(self.questions@),
            current: draft_opt_view(self.current),
            body_lines: lines_view(self.body_lines@),
            solution: chars_opt_view(self.solution),
            solution_lines: lines_view(self.solution_lines@),
        }
    }
}

fn copy_line(line: &Vec<char>) -> (r: Vec<char>)
    ensures
        r@ == line@,
{
    let r = subrange(line, 0, line.len());
    assert(r@ =~= line@);
    r
}

impl Parser {
    fn new() -> (p: Self)
        ensures
            p@ == initial_parse_state(),
    {
        let p = Parser {
            in_section: false,
            done: false,
            questions: Vec::new(),
            current: None,
            body_lines: Vec::new(),
            solution: None,
            solution_lines: Vec::new(),
        };
        assert(p@.questions =~= Seq::<QuestionView>::empty());
        assert(p@.body_lines =~= Seq::<Seq<char>>::empty());
        assert(p@.solution_lines =~= Seq::<Seq<char>>::empty());
        p
    }

    fn close_solution(&mut self)
        ensures
            final(self)@ == close_solution(old(self)@),
    {
        match self.solution.take() {
            None => {},
            Some(title) => {
                let body = trim_chars(&join_with_newlines(&self.solution_lines));
                let sol = Solution { title: string_from_chars(&title), body: string_from_chars(&body) };
                match self.current.take() {
                    Some(mut q) => {
                        let ghost before = q@;
                        q.solutions.push(sol);
                        assert(q@.solutions =~= before.solutions.push(sol@));
                        self.current = Some(q);
                    },
                    None => {},
                }
                self.solution_lines.clear();
                assert(self@.solution_lines =~= Seq::<Seq<char>>::empty());
            },
        }
    }

    fn close_question(&mut self)
        ensures
            final(self)@ == close_question(old(self)@),
    {
        match self.current.take() {
            None => {},
            Some(mut q) => {
                if q.solutions.len() == 0 {
                    q.body = trim_chars(&join_with_newlines(&self.body_lines));
                }
                let ghost qv = q@;
                let ghost before = self.questions@;
                self.questions.push(finish_draft(q));
                assert(questions_view(self.questions@) =~= questions_view(before).push(qv));
            },
        }
    }

    fn step(&mut self, line: &Vec<char>)
        ensures
            final(self)@ == parse_step(old(self)@, line@),
    {
        if self.done {
            return ;
        }
        let t = trim_chars(line);
        if chars_eq(&t, &questions_heading_chars()) {
            self.in_section = true;
            return ;
        }
        if self.in_section && starts_with(&t, &section_prefix_chars()) {
            self.done = true;
            return ;
        }
        if !self.in_section {
            return ;
        }
        match parse_heading_chars(&t) {
            Some(q) => {
                self.close_solution();
                self.close_question();
                self.current = Some(q);
                self.body_lines.clear();
                assert(self@.body_lines =~= Seq::<Seq<char>>::empty());
            },
            None => {
                if starts_with(&t, &solution_prefix_chars()) && self.current.is_some() {
                    if self.solution.is_some() {
                        self.close_solution();
                    } else {
                        let body = trim_chars(&join_with_newlines(&self.body_lines));
                        match self.current.take() {
                            Some(mut q) => {
                                q.body = body;
                                self.current = Some(q);
                            },
                            None => {},
                        }
                    }
                    let tail = subrange(&t, 5, t.len());
                    assert(tail@ =~= t@.skip(5));
                    self.solution = Some(trim_chars(&tail));
                } else if starts_with(&t, &subsection_prefix_chars()) {
                    self.close_solution();
                    self.close_question();
                    self.body_lines.clear();
                    assert(self@.body_lines =~= Seq::<Seq<char>>::empty());
                } else if self.solution.is_some() {
                    let ghost before = self.solution_lines@;
                    self.solution_lines.push(copy_line(line));
                    assert(lines_view(self.solution_lines@) =~= lines_view(before).push(line@));
                } else if self.current.is_some() {
                    let ghost before = self.body_lines@;
                    self.body_lines.push(copy_line(line));
                    assert(lines_view(self.body_lines@) =~= lines_view(before).push(line@));
                }
            },
        }
    }
}

/// The questions of a spec file's text, in the order in which they appear
/// in its `## Questions` section.
pub fn parse_questions_from_content(content: &str) -> (r: Vec<Question>)
    ensures
        questions_view(r@) == parse_content(content@),
{
    let chars = chars_of(content);
    let ls = split_lines(&chars);
    let ghost lv = lines_view(ls@);
    let mut p = Parser::new();
    let mut i: usize = 0;
    assert(lv.take(0) =~= Seq::<Seq<char>>::empty());
    while i < ls.len()
        invariant
            i <= ls.len(),
            lv == lines_view(ls@),
            p@ == parse_run(lv.take(i as int)),
        decreases ls.len() - i,
    {
        p.step(&ls[i]);
        proof {
            let t = lv.take(i + 1);
            assert(t.drop_last() =~= lv.take(i as int));
            assert(t.last() == ls@[i as int]@);
        }
        i += 1;
    }
    assert(lv.take(ls.len() as int) =~= lv);
    p.close_solution();
    p.close_question();
    p.questions
}

// ---------------------------------------------------------------------------
// Executable ordering
// ---------------------------------------------------------------------------

fn precedes_exec(a: &Question, b: &Question) -> (r: bool)
    ensures
        r == precedes(a@, b@),
{
    a.priority > b.priority || (a.priority == b.priority && a.id < b.id)
}

proof fn lemma_insert_pos(s: Seq<QuestionView>, q: QuestionView, j: int)
    requires
        0 <= j <= s.len(),
        j < s.len() ==> precedes(q, s[j]),
        forall|k: int| 0 <= k < j ==> !precedes(q, #[trigger] s[k]),
    ensures
        insert_pos(s, q) == j,
    decreases j,
{
    if j > 0 {
        let t = s.drop_first();
        assert forall|k: int| 0 <= k < j - 1 implies !precedes(q, #[trigger] t[k]) by {
            assert(t[k] == s[k + 1]);
        }
        lemma_insert_pos(t, q, j - 1);
    }
}

proof fn lemma_insert_pos_facts(s: Seq<QuestionView>, q: QuestionView)
    ensures
        0 <= insert_pos(s, q) <= s.len(),
        insert_pos(s, q) < s.len() ==> precedes(q, s[insert_pos(s, q)]),
        forall|k: int| 0 <= k < insert_pos(s, q) ==> !precedes(q, #[trigger] s[k]),
    decreases s.len(),
{
    if s.len() > 0 && !precedes(q, s[0]) {
        let t = s.drop_first();
        lemma_insert_pos_facts(t, q);
        assert forall|k: int| 0 <= k < insert_pos(s, q) implies !precedes(q, #[trigger] s[k]) by {
            if k > 0 {
                assert(s[k] == t[k - 1]);
            }
        }
    }
}

fn insert_position(r: &Vec<Question>, q: &Question) -> (p: usize)
    ensures
        p == insert_pos(questions_view(r@), q@),
{
    let ghost rv = questions_view(r@);
    let mut i: usize = 0;
    while i < r.len()
        invariant
            i <= r.len(),
            rv == questions_view(r@),
            forall|k: int| 0 <= k < i ==> !precedes(q@, #[trigger] rv[k]),
        decreases r.len() - i,
    {
        if precedes_exec(q, &r[i]) {
            proof {
                lemma_insert_pos(rv, q@, i as int);
            }
            return i;
        }
        i += 1;
    }
    proof {
        lemma_insert_pos(rv, q@, i as int);
    }
    i
}

/// The questions in list order: priority from high to low, then id from low
/// to high; questions with equal priority and id keep their order.
pub fn sort_by_priority(v: &Vec<Question>) -> (r: Vec<Question>)
    ensures
        questions_view(r@) == sort_questions(questions_view(v@)),
{
    let ghost vv = questions_view(v@);
    let mut r: Vec<Question> = Vec::new();
    let mut i: usize = 0;
    assert(vv.take(0) =~= Seq::<QuestionView>::empty());
    assert(questions_view(r@) =~= Seq::<QuestionView>::empty());
    while i < v.len()
        invariant
            i <= v.len(),
            vv == questions_view(v@),
            questions_view(r@) == sort_questions(vv.take(i as int)),
        decreases v.len() - i,
    {
        let q = copy_question(&v[i]);
        let pos = insert_position(&r, &q);
        proof {
            lemma_insert_pos_facts(questions_view(r@), q@);
        }
        let ghost before = r@;
        r.insert(pos, q);
        proof {
            let t = vv.take(i + 1);
            assert(t.drop_last() =~= vv.take(i as int));
            assert(t.last() == q@);
            assert(questions_view(r@) =~= questions_view(before).insert(pos as int, q@));
        }
        i += 1;
    }
    assert(vv.take(v.len() as int) =~= vv);
    r
}

/// The questions of a spec file's text, in list order: priority from high to
/// low, then id from low to high.
pub fn scan_questions(content: &str) -> (r: Vec<Question>)
    ensures
        questions_view(r@) == sort_questions(parse_content(content@)),
{
    let parsed = parse_questions_from_content(content);
    sort_by_priority(&parsed)
}

// ---------------------------------------------------------------------------
// The end of the section
// ---------------------------------------------------------------------------

proof fn lemma_find_index_facts(s: Seq<char>, c: char)
    ensures
        0 <= find_index(s, c) <= s.len(),
        find_index(s, c) < s.len() ==> s[find_index(s, c)] == c,
        forall|m: int| 0 <= m < find_index(s, c) ==> s[m] != c,
    decreases s.len(),
{
    if s.len() > 0 && s[0] != c {
        let t = s.drop_first();
        lemma_find_index_facts(t, c);
        assert forall|m: int| 0 <= m < find_index(s, c) implies s[m] != c by {
            if m > 0 {
                assert(s[m] == t[m - 1]);
            }
        }
    }
}

/// The lines of a text that ends with a newline, followed by more text, are
/// its lines followed by those of the rest.
proof fn lemma_lines_append(a: Seq<char>, b: Seq<char>)
    requires
        a.len() > 0,
        a.last() == '\n',
    ensures
        lines(a + b) == lines(a) + lines(b),
    decreases a.len(),
{
    let ab = a + b;
    lemma_find_index_facts(a, '\n');
    let k = find_index(a, '\n');
    if k >= a.len() {
        assert(a[a.len() - 1] == '\n');
        assert(false);
    }
    assert forall|m: int| 0 <= m < k implies ab[m] != '\n' by {
        assert(ab[m] == a[m]);
    }
    crate::text::lemma_find_index(ab, '\n', k);
    assert(ab.take(k) =~= a.take(k));
    assert(ab.skip(k + 1) =~= a.skip(k + 1) + b);
    if k + 1 == a.len() {
        assert(a.skip(k + 1) =~= Seq::<char>::empty());
        assert(a.skip(k + 1) + b =~= b);
        assert(lines(a.skip(k + 1)) =~= Seq::<Seq<char>>::empty());
        assert(lines(a) =~= seq![strip_cr(a.take(k))]);
    } else {
        let r = a.skip(k + 1);
        assert(r.last() == a.last());
        lemma_lines_append(r, b);
    }
    assert(lines(ab) =~= lines(a) + lines(b));
}

/// A line without a newline, then a newline and more text: that line comes first.
proof fn lemma_lines_first(h: Seq<char>, s: Seq<char>)
    requires
        !h.contains('\n'),
    ensures
        lines(h + seq!['\n'] + s) == seq![strip_cr(h)] + lines(s),
{
    let t = h + seq!['\n'] + s;
    assert forall|m: int| 0 <= m < h.len() implies t[m] != '\n' by {
        assert(t[m] == h[m]);
    }
    crate::text::lemma_find_index(t, '\n', h.len() as int);
    assert(t.take(h.len() as int) =~= h);
    assert(t.skip(h.len() as int + 1) =~= s);
}

proof fn lemma_trim_start_push(x: Seq<char>, c: char)
    ensures
        trim_start(x.push(c)) == if trim_start(x).len() > 0 {
            trim_start(x).push(c)
        } else {
            trim_start(seq![c])
        },
    decreases x.len(),
{
    if x.len() == 0 {
        assert(x.push(c) =~= seq![c]);
    } else {
        assert(x.push(c)[0] == x[0]);
        if is_white_space(x[0]) {
            assert(x.push(c).drop_first() =~= x.drop_first().push(c));
            lemma_trim_start_push(x.drop_first(), c);
        }
    }
}

/// Dropping a trailing carriage return does not change the trimmed line.
proof fn lemma_trim_strip_cr(h: Seq<char>)
    ensures
        trim(strip_cr(h)) == trim(h),
{
    if h.len() > 0 && h.last() == '\r' {
        let x = h.drop_last();
        assert(x.push('\r') =~= h);
        lemma_trim_start_push(x, '\r');
        assert(is_white_space('\r'));
        if trim_start(x).len() > 0 {
            assert(trim_start(x).push('\r').drop_last() =~= trim_start(x));
        } else {
            assert(seq!['\r'].drop_first() =~= Seq::<char>::empty());
            assert(trim_start(seq!['\r']) == trim_start(Seq::<char>::empty()));
        }
    }
}

proof fn lemma_done_in_section(ls: Seq<Seq<char>>)
    ensures
        parse_run(ls).done ==> parse_run(ls).in_section,
    decreases ls.len(),
{
    if ls.len() > 0 {
        lemma_done_in_section(ls.drop_last());
    }
}

/// Once the `## Questions` heading has been read, the section has started.
proof fn lemma_in_section(ls: Seq<Seq<char>>, i: int)
    requires
        0 <= i < ls.len(),
        trim(ls[i]) == questions_heading(),
    ensures
        parse_run(ls).in_section,
    decreases ls.len(),
{
    let prev = ls.drop_last();
    lemma_done_in_section(prev);
    if i < ls.len() - 1 {
        assert(prev[i] == ls[i]);
        lemma_in_section(prev, i);
    }
}

/// Nothing is read after the section has ended.
proof fn lemma_done_stays(ls: Seq<Seq<char>>, more: Seq<Seq<char>>)
    requires
        parse_run(ls).done,
    ensures
        parse_run(ls + more) == parse_run(ls),
    decreases more.len(),
{
    if more.len() == 0 {
        assert(ls + more =~= ls);
    } else {
        assert((ls + more).drop_last() =~= ls + more.drop_last());
        lemma_done_stays(ls, more.drop_last());
    }
}

/// The questions section ends at the first other `## ` heading after it:
/// whatever follows that heading adds no question and changes none.
pub proof fn lemma_section_ends_at_next_heading(p: Seq<char>, h: Seq<char>, s: Seq<char>)
    requires
        p.len() > 0,
        p.last() == '\n',
        exists|i: int| 0 <= i < lines(p).len() && trim(#[trigger] lines(p)[i]) == questions_heading(),
        !h.contains('\n'),
        has_prefix(trim(h), section_prefix()),
        trim(h) != questions_heading(),
    ensures
        parse_content(p + h + seq!['\n'] + s) == parse_content(p),
{
    let lp = lines(p);
    let i = choose|i: int| 0 <= i < lp.len() && trim(#[trigger] lp[i]) == questions_heading();
    lemma_in_section(lp, i);
    lemma_lines_append(p, h + seq!['\n'] + s);
    lemma_lines_first(h, s);
    assert(p + h + seq!['\n'] + s =~= p + (h + seq!['\n'] + s));
    lemma_trim_strip_cr(h);
    let head = lp.push(strip_cr(h));
    let all = lines(p + h + seq!['\n'] + s);
    assert(all =~= head + lines(s));
    assert(head.drop_last() =~= lp);
    let st = parse_run(lp);
    assert(parse_run(head) == ParseState { done: true, ..st });
    lemma_done_stays(head, lines(s));
}

// ---------------------------------------------------------------------------
// Laws of the ordering
// ---------------------------------------------------------------------------

/// The listed questions are ordered: no question comes after one that it precedes.
pub proof fn lemma_sort_is_ordered(s: Seq<QuestionView>)
    ensures
        is_ordered(sort_questions(s)),
    decreases s.len(),
{
    if s.len() > 0 {
        let r = sort_questions(s.drop_last());
        lemma_sort_is_ordered(s.drop_last());
        let x = s.last();
        lemma_insert_pos_facts(r, x);
        let p = insert_pos(r, x);
        let out = r.insert(p, x);
        assert forall|i: int, j: int| 0 <= i < j < out.len() implies !precedes(
            #[trigger] out[j],
            #[trigger] out[i],
        ) by {
            if j < p {
                assert(out[i] == r[i] && out[j] == r[j]);
            } else if j == p {
                assert(out[i] == r[i]);
            } else if i == p {
                assert(out[j] == r[j - 1]);
                if j - 1 > p {
                    assert(!precedes(r[j - 1], r[p]));
                }
            } else if i < p {
                assert(out[i] == r[i] && out[j] == r[j - 1]);
            } else {
                assert(out[i] == r[i - 1] && out[j] == r[j - 1]);
            }
        }
    }
}

/// Listing the questions keeps exactly the questions: it is a permutation.
pub proof fn lemma_sort_is_permutation(s: Seq<QuestionView>)
    ensures
        sort_questions(s).to_multiset() == s.to_multiset(),
    decreases s.len(),
{
    broadcast use vstd::seq_lib::to_multiset_insert, vstd::seq_lib::to_multiset_build;

    if s.len() == 0 {
        assert(sort_questions(s) =~= s);
    } else {
        let r = sort_questions(s.drop_last());
        lemma_sort_is_permutation(s.drop_last());
        lemma_insert_pos_facts(r, s.last());
        assert(s.drop_last().push(s.last()) =~= s);
    }
}

/// Whether a line is plain prose inside the questions section: trimmed, it is
/// not the section heading, not a `## ` heading, not a question heading, not
/// a `### ` heading and not a `#### ` solution heading.
pub open spec fn plain_line(l: Seq<char>) -> bool {
    let t = trim(l);
    &&& t != questions_heading()
    &&& !has_prefix(t, seq!['#', '#', ' '])
    &&& !has_prefix(t, seq!['#', '#', '#', ' '])
    &&& !has_prefix(t, seq!['#', '#', '#', '#', ' '])
    &&& parse_heading(t) is None
}

/// Reading plain lines while a solution is open appends them, in file
/// order, to the solution's lines; when the solution is closed its body is
/// those lines joined with newlines and trimmed. Reading plain lines while a
/// question without solutions is open appends them, in order, to its body lines.
pub proof fn lemma_plain_lines_append_in_order(pre: Seq<Seq<char>>, ls: Seq<Seq<char>>)
    requires
        parse_run(pre).in_section,
        !parse_run(pre).done,
        forall|k: int| 0 <= k < ls.len() ==> plain_line(#[trigger] ls[k]),
    ensures
        parse_run(pre).solution is Some ==> {
            &&& parse_run(pre + ls).solution == parse_run(pre).solution
            &&& parse_run(pre + ls).solution_lines == parse_run(pre).solution_lines + ls
            &&& parse_run(pre + ls).current == parse_run(pre).current
            &&& (parse_run(pre).current matches Some(q) ==> close_solution(parse_run(pre + ls)).current
                == Some(QuestionView {
                    solutions: q.solutions.push(SolutionView {
                        title: parse_run(pre).solution->0,
                        body: trim(join_lines(parse_run(pre).solution_lines + ls)),
                    }),
                    ..q
                }))
        },
        (parse_run(pre).solution is None && parse_run(pre).current is Some) ==> {
            &&& parse_run(pre + ls).current == parse_run(pre).current
            &&& parse_run(pre + ls).solution is None
            &&& parse_run(pre + ls).body_lines == parse_run(pre).body_lines + ls
        },
        !parse_run(pre + ls).done,
        parse_run(pre + ls).in_section,
        parse_run(pre + ls).questions == parse_run(pre).questions,
    decreases ls.len(),
{
    if ls.len() == 0 {
        assert(pre + ls =~= pre);
        assert(parse_run(pre).solution_lines + ls =~= parse_run(pre).solution_lines);
        assert(parse_run(pre).body_lines + ls =~= parse_run(pre).body_lines);
    } else {
        let init = ls.drop_last();
        assert forall|k: int| 0 <= k < init.len() implies plain_line(#[trigger] init[k]) by {
            assert(init[k] == ls[k]);
        }
        lemma_plain_lines_append_in_order(pre, init);
        assert((pre + ls).drop_last() =~= pre + init);
        assert((pre + ls).last() == ls.last());
        assert(plain_line(ls[ls.len() - 1]));
        assert(parse_run(pre).solution_lines + init + seq![ls.last()] =~= parse_run(pre).solution_lines
            + ls);
        assert((parse_run(pre).solution_lines + init).push(ls.last()) =~= parse_run(pre).solution_lines
            + ls);
        assert((parse_run(pre).body_lines + init).push(ls.last()) =~= parse_run(pre).body_lines + ls);
    }
}

proof fn lemma_decimal_digits(n: nat)
    ensures
        decimal(n).len() > 0,
        forall|k: int| 0 <= k < decimal(n).len() ==> is_digit(#[trigger] decimal(n)[k]),
        digits_value(decimal(n)) == n,
    decreases n,
{
    if n >= 10 {
        lemma_decimal_digits(n / 10);
        let d = decimal(n);
        assert(d.drop_last() =~= decimal(n / 10));
        assert forall|k: int| 0 <= k < d.len() implies is_digit(#[trigger] d[k]) by {
            if k < d.len() - 1 {
                assert(d[k] == decimal(n / 10)[k]);
            }
        }
        assert(n == (n / 10) * 10 + n % 10) by (nonlinear_arith);
        lemma_digit_round_trip(n % 10);
        assert(d.last() == digit_char(n % 10));
        assert(digits_value(d) == digits_value(d.drop_last()) * 10 + digit_value(d.last()));
    } else {
        let d = decimal(n);
        assert(d.drop_last() =~= Seq::<char>::empty());
        lemma_digit_round_trip(n);
        assert(d.last() == digit_char(n));
        assert(digits_value(d) == digits_value(d.drop_last()) * 10 + digit_value(d.last()));
        assert(digits_value(Seq::<char>::empty()) == 0);
    }
}

proof fn lemma_digit_round_trip(d: nat)
    requires
        d < 10,
    ensures
        digit_value(digit_char(d)) == d,
{
    assert(((48 + d) as char) as u32 == 48 + d);
}

proof fn lemma_parse_decimal(n: nat, max: nat)
    requires
        n <= max,
    ensures
        parse_unsigned(decimal(n), max) == Some(n),
{
    lemma_decimal_digits(n);
    assert(is_digit(decimal(n)[0]));
}

/// The part of a heading before its colon, `<id> (p<priority>)`, names that id and priority.
proof fn lemma_numbers_part(n: usize, p: u8)
    ensures
        ({
            let b = decimal(n as nat) + seq![' ', '(', 'p'] + decimal(p as nat) + seq![')'];
            &&& trim(b) == b
            &&& heading_numbers(b) == Some((n, p))
        }),
{
    let d1 = decimal(n as nat);
    let d2 = decimal(p as nat);
    lemma_decimal_digits(n as nat);
    lemma_decimal_digits(p as nat);
    lemma_parse_decimal(n as nat, usize::MAX as nat);
    lemma_parse_decimal(p as nat, u8::MAX as nat);
    let b = d1 + seq![' ', '(', 'p'] + d2 + seq![')'];
    assert(is_digit(b[0]));
    assert(b[0] == d1[0]);
    assert(trim_start(b) == b);
    assert(trim_end(b) == b);
    // the id and the priority
    let pp: int = (d1.len() + 1) as int;
    assert forall|m: int| 0 <= m < pp implies b[m] != '(' by {
        if m < d1.len() {
            assert(b[m] == d1[m]);
            assert(is_digit(d1[m]));
        }
    }
    crate::text::lemma_find_index(b, '(', pp);
    let idp = b.take(pp);
    assert(idp =~= d1.push(' '));
    assert(d1.push(' ')[0] == d1[0]);
    assert(trim_start(idp) == idp);
    assert(idp.drop_last() =~= d1);
    assert(trim_end(d1) == d1);
    assert(trim_end(idp) == d1);
    let after = b.skip(pp + 1);
    assert(after =~= (seq!['p'] + d2).push(')'));
    assert((seq!['p'] + d2).last() == d2.last());
    assert(is_digit(d2[d2.len() - 1]));
    assert(after.drop_last() =~= seq!['p'] + d2);
    assert(trim_end_char(after, ')') == trim_end_char(seq!['p'] + d2, ')'));
    assert(trim_end_char(seq!['p'] + d2, ')') == seq!['p'] + d2);
    let inside = seq!['p'] + d2;
    assert(trim_start(inside) == inside);
    assert(trim_end(inside) == inside);
    assert(inside.drop_first() =~= d2);
}

/// A question heading `### Q<id> (p<priority>): <title>` with a trimmed,
/// non-empty title gives the question with that id, priority and title, and
/// nothing else: the id and priority end at the first colon, so the title
/// may contain colons of its own.
pub proof fn lemma_heading_parses(n: usize, p: u8, title: Seq<char>)
    requires
        title.len() > 0,
        trim(title) == title,
    ensures
        parse_heading(
            heading_prefix() + decimal(n as nat) + seq![' ', '(', 'p'] + decimal(p as nat) + seq![
                ')',
                ':',
                ' ',
            ] + title,
        ) == Some(
            QuestionView { id: n, text: title, body: seq![], priority: p, solutions: seq![] },
        ),
{
    let d1 = decimal(n as nat);
    let d2 = decimal(p as nat);
    lemma_decimal_digits(n as nat);
    lemma_decimal_digits(p as nat);
    lemma_parse_decimal(n as nat, usize::MAX as nat);
    lemma_parse_decimal(p as nat, u8::MAX as nat);
    let line = heading_prefix() + d1 + seq![' ', '(', 'p'] + d2 + seq![')', ':', ' '] + title;
    assert(line.take(5) =~= heading_prefix());
    let rest = line.skip(5);
    assert(rest =~= d1 + seq![' ', '(', 'p'] + d2 + seq![')', ':', ' '] + title);
    let i0: int = (d1.len() + 3 + d2.len() + 1) as int;
    assert forall|m: int| 0 <= m < i0 implies rest[m] != ':' by {
        if m < d1.len() {
            assert(rest[m] == d1[m]);
            assert(is_digit(d1[m]));
        } else if m < d1.len() + 3 {
        } else if m < d1.len() + 3 + d2.len() {
            assert(rest[m] == d2[m - d1.len() - 3]);
            assert(is_digit(d2[m - d1.len() - 3]));
        }
    }
    assert(rest[i0] == ':');
    crate::text::lemma_find_index(rest, ':', i0);
    let b = rest.take(i0);
    assert(b =~= d1 + seq![' ', '(', 'p'] + d2 + seq![')']);
    lemma_numbers_part(n, p);
    // the title
    let tail = rest.skip(i0 + 1);
    assert(tail =~= seq![' '] + title);
    assert(tail.drop_first() =~= title);
    assert(trim_start(tail) == trim_start(title));
}

} // verus!
