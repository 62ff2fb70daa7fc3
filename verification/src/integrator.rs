//! The integration queue: submissions are queued and handed one at a time to
//! the integrator command, whose session is reused across calls and recovered
//! once when a resumed call fails.
//!
//! The waiting, the command runs and the channel traffic happen outside this
//! module; [`Integrator::step`] takes what happened and says what to do next.
use vstd::prelude::*;
use crate::question::Question;
use crate::text::{
    chars_of, decimal, decimal_chars, is_blank, lines, push_all, signed_decimal,
    signed_decimal_chars, split_lines, string_from_chars, trim, trim_chars,
};

verus! {

// ---------------------------------------------------------------------------
// Configuration
// ---------------------------------------------------------------------------

/// How the integrator command is run.
#[derive(Debug, Clone)]
pub struct IntegratorConfig {
    /// The command to run.
    pub command: String,
    /// Extra arguments, placed after the tool permissions.
    pub args: Vec<String>,
    /// The directory the command runs in, holding the spec file.
    pub working_dir: String,
    /// The spec file's name, relative to `working_dir`.
    pub spec_filename: String,
}

/// The characters of a list of strings.
pub open spec fn strings_view(v: Seq<String>) -> Seq<Seq<char>> {
    v.map_values(|s: String| s@)
}

/// `dir` joined with `name` by a `/` (Unix path joining): an absolute `name`
/// replaces `dir`; otherwise a separator goes between them unless `dir` is
/// empty or already ends with one.
pub open spec fn join_path(dir: Seq<char>, name: Seq<char>) -> Seq<char> {
    if name.len() > 0 && name[0] == '/' {
        name
    } else if dir.len() == 0 || dir.last() == '/' {
        dir + name
    } else {
        dir + seq!['/'] + name
    }
}

/// `dir` joined with `name` (see [`join_path`]).
pub fn join_path_chars(dir: &Vec<char>, name: &Vec<char>) -> (r: Vec<char>)
    ensures
        r@ == join_path(dir@, name@),
{
    let mut r: Vec<char> = Vec::new();
    if name.len() > 0 && name[0] == '/' {
        push_all(&mut r, name);
        assert(r@ =~= name@);
        return r;
    }
    push_all(&mut r, dir);
    if !(r.len() == 0 || r[r.len() - 1] == '/') {
        r.push('/');
    }
    push_all(&mut r, name);
    assert(r@ =~= join_path(dir@, name@));
    r
}

/// The tool permissions argument: reading anywhere, editing and writing only the spec file.
pub open spec fn allowed_tools(sf: Seq<char>) -> Seq<char> {
    "Read,Edit("@ + sf + "),Write("@ + sf + ")"@
}

/// The command-line arguments for the integrator command.
pub open spec fn command_args(c: IntegratorConfig) -> Seq<Seq<char>> {
    seq!["--print"@, "--allowedTools"@, allowed_tools(c.spec_filename@)] + strings_view(c.args@)
}

impl IntegratorConfig {
    /// Runs `command` in `working_dir` on the spec file `spec_filename`, with no extra arguments.
    pub fn new(command: String, working_dir: String, spec_filename: String) -> (c: Self)
        ensures
            c.command@ == command@,
            c.args@.len() == 0,
            c.working_dir@ == working_dir@,
            c.spec_filename@ == spec_filename@,
    {
        IntegratorConfig { command, args: Vec::new(), working_dir, spec_filename }
    }

    /// The path of the spec file: the spec file's name joined to the working directory.
    pub fn spec_path(&self) -> (p: String)
        ensures
            p@ == join_path(self.working_dir@, self.spec_filename@),
    {
        let dir = chars_of(self.working_dir.as_str());
        let name = chars_of(self.spec_filename.as_str());
        string_from_chars(&join_path_chars(&dir, &name))
    }

    /// The command-line arguments: `--print`, `--allowedTools` with reading
    /// allowed and editing and writing allowed only on the spec file, then the
    /// configured extra arguments.
    pub fn build_args(&self) -> (r: Vec<String>)
        ensures
            strings_view(r@) == command_args(*self),
    {
        let sf = chars_of(self.spec_filename.as_str());
        let mut tools = chars_of("Read,Edit(");
        push_all(&mut tools, &sf);
        push_all(&mut tools, &chars_of("),Write("));
        push_all(&mut tools, &sf);
        push_all(&mut tools, &chars_of(")"));
        let mut r: Vec<String> = Vec::new();
        r.push("--print".to_string());
        r.push("--allowedTools".to_string());
        r.push(string_from_chars(&tools));
        let ghost head = r@;
        let mut i: usize = 0;
        while i < self.args.len()
            invariant
                i <= self.args.len(),
                r.len() == 3 + i,
                r@.take(3) == head,
                forall|k: int| 0 <= k < i ==> (#[trigger] r@[3 + k])@ == self.args@[k]@,
            decreases self.args.len() - i,
        {
            r.push(self.args[i].clone());
            i += 1;
            assert(r@.take(3) =~= head);
        }
        proof {
            assert(head[0]@ == "--print"@);
            assert(head[1]@ == "--allowedTools"@);
            let want = command_args(*self);
            assert(head[2]@ == allowed_tools(self.spec_filename@));
            assert(strings_view(r@).len() == want.len());
            assert forall|k: int| 0 <= k < want.len() implies strings_view(r@)[k] == want[k] by {
                if k >= 3 {
                    assert(r@[3 + (k - 3)]@ == self.args@[k - 3]@);
                } else {
                    assert(r@[k] == head[k]);
                }
            }
            assert(strings_view(r@) =~= want);
        }
        r
    }
}

// ---------------------------------------------------------------------------
// Messages to the user interface
// ---------------------------------------------------------------------------

/// What the integrator reports to the user interface.
#[derive(Debug, Clone)]
pub enum IntegratorMessage {
    /// The spec's questions changed.
    QuestionsUpdated(Vec<Question>),
    /// A new status line.
    StatusUpdate(String),
    /// Every queued submission has been integrated.
    IntegrationComplete,
}

/// The status shown while a submission is integrated, with `waiting` more queued.
pub open spec fn queue_status(waiting: nat) -> Seq<char> {
    if waiting > 0 {
        "Integrating ("@ + decimal(waiting) + " in queue)"@
    } else {
        "Integrating"@
    }
}

/// The status shown when integration fails with `error`.
pub open spec fn error_status(error: Seq<char>) -> Seq<char> {
    "Error! "@ + error
}

/// The status line for a submission being integrated with `waiting` more queued.
pub fn queue_status_text(waiting: usize) -> (s: String)
    ensures
        s@ == queue_status(waiting as nat),
{
    if waiting > 0 {
        let mut v = chars_of("Integrating (");
        push_all(&mut v, &decimal_chars(waiting as u64));
        push_all(&mut v, &chars_of(" in queue)"));
        string_from_chars(&v)
    } else {
        "Integrating".to_string()
    }
}

/// The status line for a failed integration.
pub fn error_status_text(error: &String) -> (s: String)
    ensures
        s@ == error_status(error@),
{
    let mut v = chars_of("Error! ");
    push_all(&mut v, &chars_of(error.as_str()));
    string_from_chars(&v)
}

/// Why a run of the command failed, from what it wrote to its error stream
/// and its exit code: the first line of the error output, trimmed, when that
/// is not empty; otherwise the exit code; otherwise an unknown reason.
pub open spec fn failure_description(stderr: Seq<char>, code: Option<i32>) -> Seq<char> {
    let first = if lines(stderr).len() > 0 {
        trim(lines(stderr)[0])
    } else {
        seq![]
    };
    if first.len() > 0 {
        first
    } else {
        match code {
            Some(c) => "Exit code "@ + signed_decimal(c as int) + " with no message"@,
            None => "Unknown reason"@,
        }
    }
}

/// Describes a failed run of the integrator command (see [`failure_description`]).
pub fn describe_failure(stderr: &str, code: Option<i32>) -> (s: String)
    ensures
        s@ == failure_description(stderr@, code),
{
    let ls = split_lines(&chars_of(stderr));
    let first = if ls.len() > 0 {
        trim_chars(&ls[0])
    } else {
        Vec::new()
    };
    if first.len() > 0 {
        string_from_chars(&first)
    } else {
        match code {
            Some(c) => {
                let mut v = chars_of("Exit code ");
                push_all(&mut v, &signed_decimal_chars(c));
                push_all(&mut v, &chars_of(" with no message"));
                string_from_chars(&v)
            },
            None => "Unknown reason".to_string(),
        }
    }
}

/// The description of a command that could not be started at all.
pub open spec fn spawn_failure(command: Seq<char>, error: Seq<char>) -> Seq<char> {
    "Failed to run "@ + command + ": "@ + error
}

/// Describes a command that could not be started (see [`spawn_failure`]).
pub fn describe_spawn_failure(command: &String, error: &String) -> (s: String)
    ensures
        s@ == spawn_failure(command@, error@),
{
    let mut v = chars_of("Failed to run ");
    push_all(&mut v, &chars_of(command.as_str()));
    push_all(&mut v, &chars_of(": "));
    push_all(&mut v, &chars_of(error.as_str()));
    string_from_chars(&v)
}

/// Whether the spec still has to be created: it is missing, unreadable (`None`)
/// or holds only whitespace. A new spec gets the creation prompt, an existing
/// one the integration prompt.
pub fn spec_is_empty(content: &Option<String>) -> (r: bool)
    ensures
        r == match content {
            None => true,
            Some(c) => is_blank(c@),
        },
{
    match content {
        None => true,
        Some(c) => trim_chars(&chars_of(c.as_str())).len() == 0,
    }
}

// ---------------------------------------------------------------------------
// The queue as a state machine
// ---------------------------------------------------------------------------

/// What the integrator is doing.
#[derive(Debug, Clone, Copy, PartialEq, Eq, Structural)]
pub enum Phase {
    /// Nothing queued; waiting for a submission.
    Waiting,
    /// About to integrate the current submission; first collecting the
    /// submissions that have arrived in the meantime.
    Collecting,
    /// Running the command for the current submission, while watching for new ones.
    Running,
    /// Running the command again, in a fresh session, after a resumed call failed.
    Retrying,
}

/// What happened outside.
#[derive(Debug, Clone)]
pub enum IntegratorEvent {
    /// A submission arrived while the channel was being watched.
    Submitted(String),
    /// The submissions that had arrived unnoticed, collected as asked.
    Pending(Vec<String>),
    /// The command run finished successfully.
    CommandSucceeded,
    /// The command run failed with `error`; `fresh_session_id` is a new,
    /// unused session id in case a fresh session is needed.
    CommandFailed { error: String, fresh_session_id: String },
}

/// What to do next.
#[derive(Debug, Clone)]
pub enum IntegratorAction {
    /// Report a status line to the user interface.
    SendStatus(String),
    /// Run the integrator command on `message` with the session arguments,
    /// watching for new submissions meanwhile.
    RunCommand { message: String, session_args: Vec<String> },
    /// Run the integrator command on `message` with the session arguments,
    /// without watching for new submissions.
    RetryCommand { message: String, session_args: Vec<String> },
    /// Wait for the short collection window, then report the submissions
    /// that arrived ([`IntegratorEvent::Pending`]).
    StartWindow,
    /// Report the submissions that have arrived, at once ([`IntegratorEvent::Pending`]).
    TakePending,
    /// Read the spec's questions again and report them to the user interface.
    RefreshQuestions,
    /// Drop every submission that has arrived but has not been reported.
    DiscardPending,
    /// Report that every queued submission has been integrated.
    SendComplete,
}

/// The mathematical value of an [`IntegratorAction`].
pub enum ActionView {
    SendStatus(Seq<char>),
    RunCommand { message: Seq<char>, session_args: Seq<Seq<char>> },
    RetryCommand { message: Seq<char>, session_args: Seq<Seq<char>> },
    StartWindow,
    TakePending,
    RefreshQuestions,
    DiscardPending,
    SendComplete,
}

impl View for IntegratorAction {
    type V = ActionView;

    open spec fn view(&self) -> ActionView {
        match self {
            IntegratorAction::SendStatus(s) => ActionView::SendStatus(s@),
            IntegratorAction::RunCommand { message, session_args } => ActionView::RunCommand {
                message: message@,
                session_args: strings_view(session_args@),
            },
            IntegratorAction::RetryCommand { message, session_args } => ActionView::RetryCommand {
                message: message@,
                session_args: strings_view(session_args@),
            },
            IntegratorAction::StartWindow => ActionView::StartWindow,
            IntegratorAction::TakePending => ActionView::TakePending,
            IntegratorAction::RefreshQuestions => ActionView::RefreshQuestions,
            IntegratorAction::DiscardPending => ActionView::DiscardPending,
            IntegratorAction::SendComplete => ActionView::SendComplete,
        }
    }
}

pub open spec fn actions_view(v: Seq<IntegratorAction>) -> Seq<ActionView> {
    v.map_values(|a: IntegratorAction| a@)
}

/// The mathematical value of an [`IntegratorEvent`].
pub enum EventView {
    Submitted(Seq<char>),
    Pending(Seq<Seq<char>>),
    CommandSucceeded,
    CommandFailed { error: Seq<char>, fresh_session_id: Seq<char> },
}

impl View for IntegratorEvent {
    type V = EventView;

    open spec fn view(&self) -> EventView {
        match self {
            IntegratorEvent::Submitted(s) => EventView::Submitted(s@),
            IntegratorEvent::Pending(v) => EventView::Pending(strings_view(v@)),
            IntegratorEvent::CommandSucceeded => EventView::CommandSucceeded,
            IntegratorEvent::CommandFailed { error, fresh_session_id } => EventView::CommandFailed {
                error: error@,
                fresh_session_id: fresh_session_id@,
            },
        }
    }
}

/// The integrator's state: the submissions of the current batch, the one
/// being integrated, and the command session.
#[derive(Debug)]
pub struct Integrator {
    pub queue: Vec<String>,
    pub current: usize,
    /// Whether the next call starts a new session (rather than resuming one).
    pub first_call: bool,
    pub session_id: String,
    pub phase: Phase,
}

/// The mathematical value of an [`Integrator`].
pub struct IntegratorView {
    pub queue: Seq<Seq<char>>,
    pub current: int,
    pub first_call: bool,
    pub session_id: Seq<char>,
    pub phase: Phase,
}

impl View for Integrator {
    type V = IntegratorView;

    open spec fn view(&self) -> IntegratorView {
        IntegratorView {
            queue: strings_view(self.queue@),
            current: self.current as int,
            first_call: self.first_call,
            session_id: self.session_id@,
            phase: self.phase,
        }
    }
}

/// Whether the state is consistent: a batch is being worked on exactly when
/// the phase is not `Waiting`, and its current submission exists.
pub open spec fn integrator_valid(s: IntegratorView) -> bool {
    match s.phase {
        Phase::Waiting => s.queue.len() == 0 && s.current == 0,
        Phase::Collecting | Phase::Running | Phase::Retrying => 0 <= s.current < s.queue.len(),
    }
}

/// The session arguments: a new session with the id, or resuming the session with the id.
pub open spec fn session_args(first_call: bool, session_id: Seq<char>) -> Seq<Seq<char>> {
    if first_call {
        seq!["--session-id"@, session_id]
    } else {
        seq!["--resume"@, session_id]
    }
}

/// Starts the current submission: report the queue, run the command.
pub open spec fn start_current(s: IntegratorView) -> (IntegratorView, Seq<ActionView>) {
    (
        IntegratorView { phase: Phase::Running, ..s },
        seq![
            ActionView::SendStatus(queue_status((s.queue.len() - s.current - 1) as nat)),
            ActionView::RunCommand {
                message: s.queue[s.current],
                session_args: session_args(s.first_call, s.session_id),
            },
        ],
    )
}

/// The batch is over: back to waiting with an empty queue.
pub open spec fn batch_over(s: IntegratorView) -> IntegratorView {
    IntegratorView { queue: seq![], current: 0, phase: Phase::Waiting, ..s }
}

/// The current submission was integrated: its questions are reread, then the
/// submissions that arrived meanwhile are collected before the next one, or
/// the batch is complete.
pub open spec fn after_success(s: IntegratorView) -> (IntegratorView, Seq<ActionView>) {
    let s1 = IntegratorView { first_call: false, current: s.current + 1, ..s };
    if s1.current < s1.queue.len() {
        (
            IntegratorView { phase: Phase::Collecting, ..s1 },
            seq![ActionView::RefreshQuestions, ActionView::TakePending],
        )
    } else {
        (batch_over(s1), seq![ActionView::RefreshQuestions, ActionView::SendComplete])
    }
}

/// The batch failed with `error`: pending submissions are dropped and the error is reported.
pub open spec fn after_error(s: IntegratorView, error: Seq<char>) -> (
    IntegratorView,
    Seq<ActionView>,
) {
    (batch_over(s), seq![ActionView::DiscardPending, ActionView::SendStatus(error_status(error))])
}

/// One step of the integrator.
pub open spec fn spec_step(s: IntegratorView, e: EventView) -> (IntegratorView, Seq<ActionView>) {
    match e {
        EventView::Submitted(m) => match s.phase {
            Phase::Waiting => (
                IntegratorView { queue: seq![m], current: 0, phase: Phase::Collecting, ..s },
                seq![ActionView::StartWindow],
            ),
            Phase::Collecting | Phase::Retrying => (
                IntegratorView { queue: s.queue.push(m), ..s },
                seq![],
            ),
            Phase::Running => (
                IntegratorView { queue: s.queue.push(m), ..s },
                seq![ActionView::SendStatus(queue_status((s.queue.len() - s.current) as nat))],
            ),
        },
        EventView::Pending(ms) => match s.phase {
            Phase::Collecting => start_current(IntegratorView { queue: s.queue + ms, ..s }),
            Phase::Waiting => (s, seq![]),
            _ => (IntegratorView { queue: s.queue + ms, ..s }, seq![]),
        },
        EventView::CommandSucceeded => match s.phase {
            Phase::Running | Phase::Retrying => after_success(s),
            _ => (s, seq![]),
        },
        EventView::CommandFailed { error, fresh_session_id } => match s.phase {
            Phase::Running => if s.first_call {
                after_error(s, error)
            } else {
                let s1 = IntegratorView {
                    session_id: fresh_session_id,
                    first_call: true,
                    phase: Phase::Retrying,
                    ..s
                };
                (
                    s1,
                    seq![
                        ActionView::RetryCommand {
                            message: s.queue[s.current],
                            session_args: session_args(true, fresh_session_id),
                        },
                    ],
                )
            },
            Phase::Retrying => after_error(s, error),
            _ => (s, seq![]),
        },
    }
}

impl Integrator {
    /// Waiting, with nothing queued, for the first call of a new session `session_id`.
    pub fn new(session_id: String) -> (r: Self)
        ensures
            r@.queue.len() == 0,
            r@.current == 0,
            r@.first_call,
            r@.session_id == session_id@,
            r@.phase == Phase::Waiting,
            integrator_valid(r@),
    {
        let r = Integrator {
            queue: Vec::new(),
            current: 0,
            first_call: true,
            session_id,
            phase: Phase::Waiting,
        };
        assert(r@.queue =~= Seq::<Seq<char>>::empty());
        r
    }

    fn session_args_exec(&self) -> (r: Vec<String>)
        ensures
            strings_view(r@) == session_args(self.first_call, self.session_id@),
    {
        let mut r: Vec<String> = Vec::new();
        if self.first_call {
            r.push("--session-id".to_string());
        } else {
            r.push("--resume".to_string());
        }
        r.push(self.session_id.clone());
        assert(strings_view(r@) =~= session_args(self.first_call, self.session_id@));
        r
    }

    fn start_current_exec(&mut self) -> (acts: Vec<IntegratorAction>)
        requires
            0 <= old(self).current < old(self).queue.len(),
        ensures
            (final(self)@, actions_view(acts@)) == start_current(old(self)@),
    {
        self.phase = Phase::Running;
        let waiting = self.queue.len() - self.current - 1;
        let mut acts: Vec<IntegratorAction> = Vec::new();
        acts.push(IntegratorAction::SendStatus(queue_status_text(waiting)));
        acts.push(
            IntegratorAction::RunCommand {
                message: self.queue[self.current].clone(),
                session_args: self.session_args_exec(),
            },
        );
        assert(actions_view(acts@) =~= start_current(old(self)@).1);
        assert(self@ =~= start_current(old(self)@).0);
        acts
    }

    fn batch_over_exec(&mut self)
        ensures
            final(self)@ == batch_over(old(self)@),
    {
        self.queue = Vec::new();
        self.current = 0;
        self.phase = Phase::Waiting;
        assert(self@.queue =~= Seq::<Seq<char>>::empty());
    }

    fn after_success_exec(&mut self) -> (acts: Vec<IntegratorAction>)
        requires
            0 <= old(self).current < old(self).queue.len(),
        ensures
            (final(self)@, actions_view(acts@)) == after_success(old(self)@),
    {
        self.first_call = false;
        self.current = self.current + 1;
        let mut acts: Vec<IntegratorAction> = Vec::new();
        acts.push(IntegratorAction::RefreshQuestions);
        if self.current < self.queue.len() {
            self.phase = Phase::Collecting;
            acts.push(IntegratorAction::TakePending);
        } else {
            self.batch_over_exec();
            acts.push(IntegratorAction::SendComplete);
        }
        assert(actions_view(acts@) =~= after_success(old(self)@).1);
        acts
    }

    fn after_error_exec(&mut self, error: &String) -> (acts: Vec<IntegratorAction>)
        ensures
            (final(self)@, actions_view(acts@)) == after_error(old(self)@, error@),
    {
        self.batch_over_exec();
        let mut acts: Vec<IntegratorAction> = Vec::new();
        acts.push(IntegratorAction::DiscardPending);
        acts.push(IntegratorAction::SendStatus(error_status_text(error)));
        assert(actions_view(acts@) =~= after_error(old(self)@, error@).1);
        acts
    }

    fn append_all(&mut self, ms: Vec<String>)
        ensures
            final(self)@ == (IntegratorView { queue: old(self)@.queue + strings_view(ms@), ..old(self)@ }),
    {
        let ghost q0 = self@.queue;
        let ghost mv = strings_view(ms@);
        let n = ms.len();
        let mut i: usize = 0;
        assert(q0 + mv.take(0) =~= q0);
        while i < n
            invariant
                i <= n,
                n == ms.len(),
                mv == strings_view(ms@),
                self@.queue == q0 + mv.take(i as int),
                self@.current == old(self)@.current,
                self@.first_call == old(self)@.first_call,
                self@.session_id == old(self)@.session_id,
                self@.phase == old(self)@.phase,
            decreases n - i,
        {
            let ghost before = self@.queue;
            self.queue.push(ms[i].clone());
            proof {
                assert(mv.take(i + 1) =~= mv.take(i as int).push(mv[i as int]));
                assert(self@.queue =~= before.push(mv[i as int]));
            }
            i += 1;
        }
        assert(mv.take(n as int) =~= mv);
    }

    /// Takes what happened and gives what to do next, in order.
    pub fn step(&mut self, event: IntegratorEvent) -> (acts: Vec<IntegratorAction>)
        requires
            integrator_valid(old(self)@),
        ensures
            integrator_valid(final(self)@),
            (final(self)@, actions_view(acts@)) == spec_step(old(self)@, event@),
    {
        match event {
            IntegratorEvent::Submitted(m) => match self.phase {
                Phase::Waiting => {
                    let ghost mv = m@;
                    let mut q: Vec<String> = Vec::new();
                    q.push(m);
                    self.queue = q;
                    self.current = 0;
                    self.phase = Phase::Collecting;
                    assert(self@.queue =~= seq![mv]);
                    let mut acts: Vec<IntegratorAction> = Vec::new();
                    acts.push(IntegratorAction::StartWindow);
                    assert(actions_view(acts@) =~= seq![ActionView::StartWindow]);
                    acts
                },
                Phase::Collecting | Phase::Retrying => {
                    let ghost mv = m@;
                    self.queue.push(m);
                    assert(self@.queue =~= old(self)@.queue.push(mv));
                    let acts: Vec<IntegratorAction> = Vec::new();
                    assert(actions_view(acts@) =~= Seq::<ActionView>::empty());
                    acts
                },
                Phase::Running => {
                    let ghost mv = m@;
                    self.queue.push(m);
                    assert(self@.queue =~= old(self)@.queue.push(mv));
                    let waiting = self.queue.len() - self.current - 1;
                    let mut acts: Vec<IntegratorAction> = Vec::new();
                    acts.push(IntegratorAction::SendStatus(queue_status_text(waiting)));
                    assert(actions_view(acts@) =~= spec_step(old(self)@, event@).1);
                    acts
                },
            },
            IntegratorEvent::Pending(ms) => match self.phase {
                Phase::Waiting => {
                    let acts: Vec<IntegratorAction> = Vec::new();
                    assert(actions_view(acts@) =~= Seq::<ActionView>::empty());
                    acts
                },
                Phase::Collecting => {
                    self.append_all(ms);
                    assert(self@.queue.len() == self.queue@.len());
                    self.start_current_exec()
                },
                _ => {
                    self.append_all(ms);
                    let acts: Vec<IntegratorAction> = Vec::new();
                    assert(actions_view(acts@) =~= Seq::<ActionView>::empty());
                    acts
                },
            },
            IntegratorEvent::CommandSucceeded => match self.phase {
                Phase::Running | Phase::Retrying => self.after_success_exec(),
                _ => {
                    let acts: Vec<IntegratorAction> = Vec::new();
                    assert(actions_view(acts@) =~= Seq::<ActionView>::empty());
                    acts
                },
            },
            IntegratorEvent::CommandFailed { error, fresh_session_id } => match self.phase {
                Phase::Running => {
                    if self.first_call {
                        self.after_error_exec(&error)
                    } else {
                        self.session_id = fresh_session_id;
                        self.first_call = true;
                        self.phase = Phase::Retrying;
                        let mut acts: Vec<IntegratorAction> = Vec::new();
                        acts.push(
                            IntegratorAction::RetryCommand {
                                message: self.queue[self.current].clone(),
                                session_args: self.session_args_exec(),
                            },
                        );
                        assert(actions_view(acts@) =~= spec_step(old(self)@, event@).1);
                        acts
                    }
                },
                Phase::Retrying => self.after_error_exec(&error),
                _ => {
                    let acts: Vec<IntegratorAction> = Vec::new();
                    assert(actions_view(acts@) =~= Seq::<ActionView>::empty());
                    acts
                },
            },
        }
    }
}

// ---------------------------------------------------------------------------
// Laws of the queue
// ---------------------------------------------------------------------------

/// Every step keeps the state consistent.
pub proof fn lemma_step_keeps_valid(s: IntegratorView, e: EventView)
    requires
        integrator_valid(s),
    ensures
        integrator_valid(spec_step(s, e).0),
{
}

/// Submissions join the end of the queue (a new batch when nothing was
/// queued) and the current one stays, so submissions are integrated in the
/// order they arrive.
pub proof fn lemma_submissions_append(s: IntegratorView, m: Seq<char>, ms: Seq<Seq<char>>)
    requires
        integrator_valid(s),
    ensures
        spec_step(s, EventView::Submitted(m)).0.queue == (if s.phase == Phase::Waiting {
            seq![m]
        } else {
            s.queue.push(m)
        }),
        spec_step(s, EventView::Submitted(m)).0.current == s.current,
        s.phase != Phase::Waiting ==> spec_step(s, EventView::Pending(ms)).0.queue == s.queue + ms,
        spec_step(s, EventView::Pending(ms)).0.current == s.current,
{
}

/// While a submission is integrated, a new one is reported at once with the
/// number of submissions waiting behind the current one.
pub proof fn lemma_new_submission_reports_queue(s: IntegratorView, m: Seq<char>)
    requires
        integrator_valid(s),
        s.phase == Phase::Running,
    ensures
        spec_step(s, EventView::Submitted(m)).1 == seq![
            ActionView::SendStatus(queue_status((s.queue.len() - s.current) as nat)),
        ],
        s.queue.len() - s.current >= 1,
{
}

/// Submissions are integrated one after the other: after a success, and
/// after collecting what arrived meanwhile, the command runs on the next
/// queued submission, and the status counts the ones still waiting.
pub proof fn lemma_success_runs_next(s: IntegratorView, ms: Seq<Seq<char>>)
    requires
        integrator_valid(s),
        s.phase == Phase::Running || s.phase == Phase::Retrying,
        s.current + 1 < s.queue.len(),
    ensures
        ({
            let (s1, a1) = spec_step(s, EventView::CommandSucceeded);
            let (s2, a2) = spec_step(s1, EventView::Pending(ms));
            &&& a1 == seq![ActionView::RefreshQuestions, ActionView::TakePending]
            &&& s2.current == s.current + 1
            &&& s2.phase == Phase::Running
            &&& a2 == seq![
                ActionView::SendStatus(queue_status((s.queue.len() + ms.len() - s.current - 2) as nat)),
                ActionView::RunCommand {
                    message: s.queue[s.current + 1],
                    session_args: session_args(false, s.session_id),
                },
            ]
        }),
{
    let s1 = spec_step(s, EventView::CommandSucceeded).0;
    assert((s1.queue + ms)[s.current + 1] == s.queue[s.current + 1]);
}

/// Completion is reported exactly when the last queued submission succeeds.
pub proof fn lemma_complete_when_last_succeeds(s: IntegratorView)
    requires
        integrator_valid(s),
        s.phase == Phase::Running || s.phase == Phase::Retrying,
    ensures
        spec_step(s, EventView::CommandSucceeded).1.contains(ActionView::SendComplete) <==> s.current
            + 1 == s.queue.len(),
        s.current + 1 == s.queue.len() ==> spec_step(s, EventView::CommandSucceeded).0.phase
            == Phase::Waiting,
{
    let acts = spec_step(s, EventView::CommandSucceeded).1;
    if s.current + 1 == s.queue.len() {
        assert(acts[1] == ActionView::SendComplete);
    } else {
        assert forall|i: int| 0 <= i < acts.len() implies acts[i] != ActionView::SendComplete by {
        }
    }
}

/// A failed call that cannot be retried ends the batch: the queue and the
/// pending submissions are dropped, the error is reported, and no completion is.
pub proof fn lemma_error_discards_queue(s: IntegratorView, error: Seq<char>, fresh: Seq<char>)
    requires
        integrator_valid(s),
        (s.phase == Phase::Running && s.first_call) || s.phase == Phase::Retrying,
    ensures
        spec_step(s, EventView::CommandFailed { error, fresh_session_id: fresh }).0.queue.len()
            == 0,
        spec_step(s, EventView::CommandFailed { error, fresh_session_id: fresh }).0.phase
            == Phase::Waiting,
        spec_step(s, EventView::CommandFailed { error, fresh_session_id: fresh }).1 == seq![
            ActionView::DiscardPending,
            ActionView::SendStatus(error_status(error)),
        ],
{
}

/// A failed call that resumed a session is retried once on the same
/// submission in a fresh session.
pub proof fn lemma_resumed_failure_retries_fresh(
    s: IntegratorView,
    error: Seq<char>,
    fresh: Seq<char>,
)
    requires
        integrator_valid(s),
        s.phase == Phase::Running,
        !s.first_call,
    ensures
        ({
            let (s2, acts) = spec_step(s, EventView::CommandFailed { error, fresh_session_id: fresh });
            &&& s2.phase == Phase::Retrying
            &&& s2.queue == s.queue
            &&& s2.current == s.current
            &&& s2.session_id == fresh
            &&& acts == seq![
                ActionView::RetryCommand {
                    message: s.queue[s.current],
                    session_args: seq!["--session-id"@, fresh],
                },
            ]
        }),
{
}

/// After a successful call the session is resumed by the next call.
pub proof fn lemma_success_resumes_session(s: IntegratorView)
    requires
        integrator_valid(s),
        s.phase == Phase::Running || s.phase == Phase::Retrying,
    ensures
        !spec_step(s, EventView::CommandSucceeded).0.first_call,
        spec_step(s, EventView::CommandSucceeded).0.session_id == s.session_id,
{
}

/// The state after the events `es`, taken one step each from `s`.
pub open spec fn run_state(s: IntegratorView, es: Seq<EventView>) -> IntegratorView
    decreases es.len(),
{
    if es.len() == 0 {
        s
    } else {
        spec_step(run_state(s, es.drop_last()), es.last()).0
    }
}

/// Whether a command call has succeeded since the current session id was
/// taken: a success counts; a failed call that resumed the session takes a
/// fresh id, after which nothing has succeeded yet.
pub open spec fn succeeded_in_session(s: IntegratorView, es: Seq<EventView>) -> bool
    decreases es.len(),
{
    if es.len() == 0 {
        !s.first_call
    } else {
        let prev = run_state(s, es.drop_last());
        match es.last() {
            EventView::CommandSucceeded => if prev.phase == Phase::Running || prev.phase
                == Phase::Retrying {
                true
            } else {
                succeeded_in_session(s, es.drop_last())
            },
            EventView::CommandFailed { .. } => if prev.phase == Phase::Running
                && !prev.first_call {
                false
            } else {
                succeeded_in_session(s, es.drop_last())
            },
            _ => succeeded_in_session(s, es.drop_last()),
        }
    }
}

/// Over any run of events, the session is used as follows: a call resumes
/// the session (`--resume`) exactly when a call has succeeded since its id
/// was taken, and otherwise starts it (`--session-id`); every command run
/// names the current session id; and the id changes only when a call that
/// resumed the session fails.
pub proof fn lemma_session_over_runs(s: IntegratorView, es: Seq<EventView>)
    ensures
        run_state(s, es).first_call == !succeeded_in_session(s, es),
        es.len() > 0 ==> {
            let prev = run_state(s, es.drop_last());
            let next = spec_step(prev, es.last()).0;
            let acts = spec_step(prev, es.last()).1;
            &&& next == run_state(s, es)
            &&& next.session_id != prev.session_id ==> (es.last() is CommandFailed && prev.phase
                == Phase::Running && !prev.first_call)
            &&& forall|j: int|
                0 <= j < acts.len() ==> match #[trigger] acts[j] {
                    ActionView::RunCommand { session_args: a, .. } => a == session_args(
                        next.first_call,
                        next.session_id,
                    ),
                    ActionView::RetryCommand { session_args: a, .. } => a == session_args(
                        next.first_call,
                        next.session_id,
                    ),
                    _ => true,
                }
        },
    decreases es.len(),
{
    if es.len() > 0 {
        lemma_session_over_runs(s, es.drop_last());
    }
}

/// Whether event `m` of the run answers a command call with a success.
pub open spec fn success_at(s: IntegratorView, es: Seq<EventView>, m: int) -> bool {
    let prev = run_state(s, es.take(m));
    es[m] is CommandSucceeded && (prev.phase == Phase::Running || prev.phase == Phase::Retrying)
}

/// Whether event `m` of the run is the failure of a call that resumed the
/// session (after which a fresh session id is taken).
pub open spec fn resumed_failure_at(s: IntegratorView, es: Seq<EventView>, m: int) -> bool {
    let prev = run_state(s, es.take(m));
    es[m] is CommandFailed && prev.phase == Phase::Running && !prev.first_call
}

/// Over a run, a call has succeeded in the current session exactly when
/// some event answered a call with a success and no resumed call failed
/// after it (or the run started in a session already used successfully and
/// no resumed call failed since).
pub proof fn lemma_succeeded_in_session_history(s: IntegratorView, es: Seq<EventView>)
    ensures
        succeeded_in_session(s, es) <==> (
            ((!s.first_call) && forall|j: int|
                0 <= j < es.len() ==> !#[trigger] resumed_failure_at(s, es, j))
            || exists|m: int|
                0 <= m < es.len() && #[trigger] success_at(s, es, m) && forall|j: int|
                    m < j < es.len() ==> !#[trigger] resumed_failure_at(s, es, j)),
    decreases es.len(),
{
    if es.len() > 0 {
        let n = es.len() - 1;
        let p = es.drop_last();
        lemma_succeeded_in_session_history(s, p);
        assert(es.take(n) =~= p);
        assert forall|j: int| 0 <= j < n implies (resumed_failure_at(s, es, j)
            == resumed_failure_at(s, p, j) && success_at(s, es, j) == success_at(s, p, j)) by {
            assert(es.take(j) =~= p.take(j));
        }
        if success_at(s, es, n) {
            assert(success_at(s, es, n));
        } else if resumed_failure_at(s, es, n) {
            assert(!succeeded_in_session(s, es));
            assert forall|m: int| 0 <= m < es.len() && #[trigger] success_at(s, es, m) implies !(
            forall|j: int| m < j < es.len() ==> !#[trigger] resumed_failure_at(s, es, j)) by {
                assert(m < n);
                assert(resumed_failure_at(s, es, n));
            }
        } else {
            if succeeded_in_session(s, p) {
                if exists|m: int|
                    0 <= m < p.len() && #[trigger] success_at(s, p, m) && forall|j: int|
                        m < j < p.len() ==> !#[trigger] resumed_failure_at(s, p, j) {
                    let m = choose|m: int|
                        0 <= m < p.len() && #[trigger] success_at(s, p, m) && forall|j: int|
                            m < j < p.len() ==> !#[trigger] resumed_failure_at(s, p, j);
                    assert(success_at(s, es, m));
                    assert forall|j: int| m < j < es.len() implies !#[trigger] resumed_failure_at(
                        s,
                        es,
                        j,
                    ) by {
                        if j < n {
                            assert(!resumed_failure_at(s, p, j));
                        }
                    }
                } else {
                    assert forall|j: int| 0 <= j < es.len() implies !#[trigger] resumed_failure_at(
                        s,
                        es,
                        j,
                    ) by {
                        if j < n {
                            assert(!resumed_failure_at(s, p, j));
                        }
                    }
                }
            } else {
                if exists|m: int|
                    0 <= m < es.len() && #[trigger] success_at(s, es, m) && forall|j: int|
                        m < j < es.len() ==> !#[trigger] resumed_failure_at(s, es, j) {
                    let m = choose|m: int|
                        0 <= m < es.len() && #[trigger] success_at(s, es, m) && forall|j: int|
                            m < j < es.len() ==> !#[trigger] resumed_failure_at(s, es, j);
                    assert(m < n);
                    assert(success_at(s, p, m));
                    assert forall|j: int| m < j < p.len() implies !#[trigger] resumed_failure_at(
                        s,
                        p,
                        j,
                    ) by {
                        assert(!resumed_failure_at(s, es, j));
                    }
                    assert(false);
                }
                if !s.first_call && forall|j: int|
                    0 <= j < es.len() ==> !#[trigger] resumed_failure_at(s, es, j) {
                    assert forall|j: int| 0 <= j < p.len() implies !#[trigger] resumed_failure_at(
                        s,
                        p,
                        j,
                    ) by {
                        assert(!resumed_failure_at(s, es, j));
                    }
                    assert(false);
                }
            }
        }
    }
}

} // verus!
