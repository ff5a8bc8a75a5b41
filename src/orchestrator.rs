//! The turn-by-turn loop, as a state machine.
//!
//! The orchestrator holds the session state and decides; the caller does the
//! outside work. Each call of [`Orchestrator::step`] takes one event (a user
//! request, a model reply, a backend failure, the outcome of a command) and
//! returns the next action (ask the model, run a command, end the turn),
//! together with the violations whose corrections it appended to the history.
use crate::correction::{correction, corrections, violation_views, Violation, ViolationView};
use crate::execution::{feedback_block, push_feedback, CommandResult, CommandResultView};
use crate::history::{appended, appended_all, ConversationHistory};
use crate::message::{message_views, Message, MessageView, Role};
use crate::parser::{parse_chars, parse_reply, views, Directive, DirectiveView};
use crate::safety::{check_chars, is_destructive, Verdict};
use crate::text::{chars_of, drop_ticks, push_text, text_of, texts, trim, trimmed, without_ticks};
use vstd::prelude::*;

verus! {

/// The standing instructions that open every request to the model.
pub const PROTOCOL_PROMPT: &'static str = "You are a terminal assistant that works on the user's local repository by proposing shell commands. Answer in exactly one of two forms.\nTo run commands, reply with one line per command, each of the form `EXECUTE: <command>`, and nothing else. The output of the commands will be sent back to you.\nWhen the request is fulfilled, reply with a single line `FINAL: <message>` that tells the user the outcome.\nNever mix the two forms in one reply. Never propose destructive commands such as a hard reset or a recursive forced delete: they are refused.";

/// The system prompt for a request: the standing instructions, then the
/// environment snapshot of the turn.
pub open spec fn system_prompt(environment: Seq<char>) -> Seq<char> {
    PROTOCOL_PROMPT@ + "\n\nREPOSITORY STATUS:\n"@ + environment
}

/// A model reply as it is stored and read: backticks removed, then trimmed.
pub open spec fn clean_reply(reply: Seq<char>) -> Seq<char> {
    trim(without_ticks(reply))
}

/// Where the orchestrator stands.
#[derive(Clone, Copy, Debug, PartialEq, Eq, Structural)]
pub enum Phase {
    /// No turn has started yet, or the last one failed on the backend.
    Idle,
    /// A request to the model is outstanding.
    AwaitingReply,
    /// Approved commands of the last reply are being run, one at a time.
    Executing,
    /// The last turn ended with a final message.
    Finalized,
    /// The last turn ran out of attempts.
    Aborted,
}

/// What the caller reports to the orchestrator.
#[derive(Debug)]
pub enum Event {
    /// The user asked for `text`; `environment` is the snapshot for this turn.
    UserInput { text: String, environment: String },
    /// The model replied `text`.
    Reply { text: String },
    /// The request to the model failed with `error`.
    BackendFailed { error: String },
    /// The command asked for last has run.
    CommandFinished { result: CommandResult },
}

/// An event with its texts as character sequences.
pub enum EventView {
    UserInput { text: Seq<char>, environment: Seq<char> },
    Reply { text: Seq<char> },
    BackendFailed { error: Seq<char> },
    CommandFinished { result: CommandResultView },
}

impl View for Event {
    type V = EventView;

    open spec fn view(&self) -> EventView {
        match self {
            Event::UserInput { text, environment } => EventView::UserInput {
                text: text@,
                environment: environment@,
            },
            Event::Reply { text } => EventView::Reply { text: text@ },
            Event::BackendFailed { error } => EventView::BackendFailed { error: error@ },
            Event::CommandFinished { result } => EventView::CommandFinished { result: result@ },
        }
    }
}

/// What the orchestrator asks the caller to do next.
#[derive(Debug)]
pub enum Action {
    /// Send `system_prompt` and `history` to the model and report its reply.
    Request { system_prompt: String, history: Vec<Message> },
    /// Run `command` and report its outcome.
    Run { command: String },
    /// The turn is over; show `message` when it is not empty.
    Finish { message: String },
    /// The turn is over: it used up its attempts.
    Abort,
    /// The turn is over: the model could not be reached.
    Fail { error: String },
    /// Nothing to do: the event does not fit the current phase.
    Wait,
}

/// An action with its texts as character sequences.
pub enum ActionView {
    Request { system_prompt: Seq<char>, history: Seq<MessageView> },
    Run { command: Seq<char> },
    Finish { message: Seq<char> },
    Abort,
    Fail { error: Seq<char> },
    Wait,
}

impl View for Action {
    type V = ActionView;

    open spec fn view(&self) -> ActionView {
        match self {
            Action::Request { system_prompt, history } => ActionView::Request {
                system_prompt: system_prompt@,
                history: message_views(history@),
            },
            Action::Run { command } => ActionView::Run { command: command@ },
            Action::Finish { message } => ActionView::Finish { message: message@ },
            Action::Abort => ActionView::Abort,
            Action::Fail { error } => ActionView::Fail { error: error@ },
            Action::Wait => ActionView::Wait,
        }
    }
}

/// The answer to one event: the next action, and the violations whose
/// corrections were appended to the history, in order.
#[derive(Debug)]
pub struct Reaction {
    pub action: Action,
    pub notices: Vec<Violation>,
}

/// The state of a session.
pub struct SessionState {
    pub history: Seq<MessageView>,
    pub limit: nat,
    pub max_attempts: nat,
    pub attempts: nat,
    pub environment: Seq<char>,
    pub phase: Phase,
    /// The approved commands of the last reply.
    pub pending: Seq<Seq<char>>,
    /// How many of them have run.
    pub done: nat,
    /// The feedback gathered from those that have run.
    pub feedback: Seq<char>,
}

/// What holds of every state that a session reaches.
pub open spec fn valid(s: SessionState) -> bool {
    &&& 2 <= s.limit
    &&& s.history.len() <= s.limit
    &&& s.phase != Phase::Aborted ==> s.attempts <= s.max_attempts
    &&& s.phase == Phase::Aborted ==> s.attempts == s.max_attempts + 1
    &&& s.phase == Phase::Executing ==> s.done < s.pending.len()
    &&& forall|i: int| 0 <= i < s.pending.len() ==> !is_destructive(#[trigger] s.pending[i])
}

/// The state of a new session.
pub open spec fn initial(limit: nat, max_attempts: nat) -> SessionState {
    SessionState {
        history: Seq::empty(),
        limit,
        max_attempts,
        attempts: 0,
        environment: Seq::empty(),
        phase: Phase::Idle,
        pending: Seq::empty(),
        done: 0,
        feedback: Seq::empty(),
    }
}

/// The request to the model in state `s`.
pub open spec fn request(s: SessionState) -> ActionView {
    ActionView::Request { system_prompt: system_prompt(s.environment), history: s.history }
}

/// After a round trip (its attempt already counted): abort when the attempts
/// exceed the maximum, else ask the model again.
pub open spec fn next_round(s: SessionState) -> (SessionState, ActionView) {
    if s.attempts > s.max_attempts {
        (SessionState { phase: Phase::Aborted, ..s }, ActionView::Abort)
    } else {
        (SessionState { phase: Phase::AwaitingReply, ..s }, request(s))
    }
}

/// The violation that a directive commits, if any.
pub open spec fn violation_of(d: DirectiveView) -> Seq<ViolationView> {
    match d {
        DirectiveView::Malformed { raw, reason } => seq![ViolationView::Malformed { raw, reason }],
        DirectiveView::Execute { command } => if is_destructive(command) {
            seq![ViolationView::Refused { command }]
        } else {
            Seq::empty()
        },
        DirectiveView::Final { .. } => Seq::empty(),
    }
}

/// The violations that the directives `ds` commit, in order.
pub open spec fn violations_of(ds: Seq<DirectiveView>) -> Seq<ViolationView>
    decreases ds.len(),
{
    if ds.len() == 0 {
        Seq::empty()
    } else {
        violations_of(ds.drop_last()) + violation_of(ds.last())
    }
}

/// The command that a directive asks for and the guard allows, if any.
pub open spec fn approved_of(d: DirectiveView) -> Seq<Seq<char>> {
    match d {
        DirectiveView::Execute { command } => if is_destructive(command) {
            Seq::empty()
        } else {
            seq![command]
        },
        _ => Seq::empty(),
    }
}

/// The commands that the directives `ds` ask for and the guard allows, in order.
pub open spec fn approved(ds: Seq<DirectiveView>) -> Seq<Seq<char>>
    decreases ds.len(),
{
    if ds.len() == 0 {
        Seq::empty()
    } else {
        approved(ds.drop_last()) + approved_of(ds.last())
    }
}

/// The directives end the turn: a final message, or a `FINAL:` with nothing after it.
pub open spec fn ends_turn(ds: Seq<DirectiveView>) -> bool {
    ds.len() == 0 || ds[0] is Final
}

/// The final message among the directives, or nothing.
pub open spec fn final_message(ds: Seq<DirectiveView>) -> Seq<char> {
    if ds.len() > 0 && ds[0] is Final {
        ds[0]->Final_message
    } else {
        Seq::empty()
    }
}

/// Handling the (cleaned) model reply `reply` in state `s`.
pub open spec fn on_reply(s: SessionState, reply: Seq<char>) -> (
    SessionState,
    ActionView,
    Seq<ViolationView>,
) {
    let h = appended(s.history, MessageView { role: Role::Assistant, content: reply }, s.limit);
    let ds = parse_reply(reply);
    if ends_turn(ds) {
        (
            SessionState { history: h, phase: Phase::Finalized, ..s },
            ActionView::Finish { message: final_message(ds) },
            Seq::empty(),
        )
    } else {
        let vs = violations_of(ds);
        let cmds = approved(ds);
        let h2 = appended_all(h, corrections(vs), s.limit);
        if cmds.len() > 0 {
            (
                SessionState {
                    history: h2,
                    phase: Phase::Executing,
                    pending: cmds,
                    done: 0,
                    feedback: Seq::empty(),
                    ..s
                },
                ActionView::Run { command: cmds[0] },
                vs,
            )
        } else {
            let (t, a) = next_round(
                SessionState {
                    history: h2,
                    attempts: s.attempts + 1,
                    pending: Seq::empty(),
                    done: 0,
                    feedback: Seq::empty(),
                    ..s
                },
            );
            (t, a, vs)
        }
    }
}

/// Handling the outcome `r` of the command that ran last, in state `s`.
pub open spec fn on_result(s: SessionState, r: CommandResultView) -> (SessionState, ActionView) {
    let fb = s.feedback + feedback_block(s.pending[s.done as int], r);
    if s.done + 1 < s.pending.len() {
        (
            SessionState { feedback: fb, done: s.done + 1, ..s },
            ActionView::Run { command: s.pending[s.done + 1 as int] },
        )
    } else {
        let h = appended(s.history, MessageView { role: Role::User, content: fb }, s.limit);
        next_round(
            SessionState {
                history: h,
                attempts: s.attempts + 1,
                pending: Seq::empty(),
                done: 0,
                feedback: Seq::empty(),
                ..s
            },
        )
    }
}

/// The phase lies between turns: a new user request may start one.
pub open spec fn between_turns(p: Phase) -> bool {
    p == Phase::Idle || p == Phase::Finalized || p == Phase::Aborted
}

/// One transition: the next state, the action, and the violations corrected.
pub open spec fn next(s: SessionState, e: EventView) -> (
    SessionState,
    ActionView,
    Seq<ViolationView>,
) {
    match e {
        EventView::UserInput { text, environment } => if between_turns(s.phase) {
            let t = SessionState {
                history: appended(
                    s.history,
                    MessageView { role: Role::User, content: text },
                    s.limit,
                ),
                attempts: 0,
                environment,
                phase: Phase::AwaitingReply,
                pending: Seq::empty(),
                done: 0,
                feedback: Seq::empty(),
                ..s
            };
            (t, request(t), Seq::empty())
        } else {
            (s, ActionView::Wait, Seq::empty())
        },
        EventView::Reply { text } => if s.phase == Phase::AwaitingReply {
            on_reply(s, clean_reply(text))
        } else {
            (s, ActionView::Wait, Seq::empty())
        },
        EventView::BackendFailed { error } => if s.phase == Phase::AwaitingReply {
            (SessionState { phase: Phase::Idle, ..s }, ActionView::Fail { error }, Seq::empty())
        } else {
            (s, ActionView::Wait, Seq::empty())
        },
        EventView::CommandFinished { result } => if s.phase == Phase::Executing && s.done
            < s.pending.len() {
            let (t, a) = on_result(s, result);
            (t, a, Seq::empty())
        } else {
            (s, ActionView::Wait, Seq::empty())
        },
    }
}

/// The session: the bounded history, the attempt counter of the current
/// turn, its environment snapshot, and the commands of the reply at hand.
#[derive(Debug)]
pub struct Orchestrator {
    history: ConversationHistory,
    max_attempts: u32,
    attempts: u64,
    environment: String,
    phase: Phase,
    pending: Vec<String>,
    done: usize,
    feedback: String,
}

impl View for Orchestrator {
    type V = SessionState;

    closed spec fn view(&self) -> SessionState {
        SessionState {
            history: self.history@,
            limit: self.history.bound(),
            max_attempts: self.max_attempts as nat,
            attempts: self.attempts as nat,
            environment: self.environment@,
            phase: self.phase,
            pending: texts(self.pending@),
            done: self.done as nat,
            feedback: self.feedback@,
        }
    }
}

/// The system prompt for a request with the environment snapshot `environment`.
pub fn system_prompt_for(environment: &str) -> (r: String)
    ensures
        r@ == system_prompt(environment@),
{
    let mut s = String::new();
    push_text(&mut s, PROTOCOL_PROMPT);
    push_text(&mut s, "\n\nREPOSITORY STATUS:\n");
    push_text(&mut s, environment);
    assert(s@ =~= system_prompt(environment@));
    s
}

/// Screens the directives `ds` in order: each violation gets its correction
/// appended to `history`; each allowed command is collected.
fn screen(ds: &Vec<Directive>, history: &mut ConversationHistory) -> (r: (
    Vec<Violation>,
    Vec<String>,
))
    requires
        old(history).wf(),
    ensures
        final(history).wf(),
        final(history).bound() == old(history).bound(),
        violation_views(r.0@) == violations_of(views(ds@)),
        texts(r.1@) == approved(views(ds@)),
        final(history)@ == appended_all(
            old(history)@,
            corrections(violations_of(views(ds@))),
            old(history).bound(),
        ),
{
    let ghost h0 = history@;
    let ghost dsv = views(ds@);
    let mut notices: Vec<Violation> = Vec::new();
    let mut commands: Vec<String> = Vec::new();
    let mut i: usize = 0;
    assert(dsv.take(0) =~= Seq::<DirectiveView>::empty());
    assert(corrections(Seq::<ViolationView>::empty()) =~= Seq::<MessageView>::empty());
    assert(violation_views(notices@) =~= Seq::<ViolationView>::empty());
    assert(texts(commands@) =~= Seq::<Seq<char>>::empty());
    while i < ds.len()
        invariant
            i <= ds@.len(),
            dsv == views(ds@),
            history.wf(),
            history.bound() == old(history).bound(),
            violation_views(notices@) == violations_of(dsv.take(i as int)),
            texts(commands@) == approved(dsv.take(i as int)),
            history@ == appended_all(h0, corrections(violation_views(notices@)), history.bound()),
        decreases ds@.len() - i,
    {
        proof {
            assert(dsv.take(i + 1).drop_last() =~= dsv.take(i as int));
            assert(dsv.take(i + 1).last() == ds@[i as int]@);
        }
        let ghost vs0 = violation_views(notices@);
        match &ds[i] {
            Directive::Malformed { raw, reason } => {
                let v = Violation::Malformed { raw: raw.clone(), reason: *reason };
                let m = correction(&v);
                history.append(m);
                notices.push(v);
                proof {
                    assert(violation_views(notices@) =~= vs0.push(v@));
                    assert(corrections(vs0.push(v@)).drop_last() =~= corrections(vs0));
                    assert(violation_of(dsv.take(i + 1).last()) =~= seq![v@]);
                    assert(approved_of(dsv.take(i + 1).last()) =~= Seq::<Seq<char>>::empty());
                    assert(approved(dsv.take(i + 1)) =~= approved(dsv.take(i as int)));
                }
            },
            Directive::Execute { command } => {
                let cs = chars_of(command.as_str());
                match check_chars(&cs) {
                    Verdict::Refused => {
                        let v = Violation::Refused { command: command.clone() };
                        let m = correction(&v);
                        history.append(m);
                        notices.push(v);
                        proof {
                            assert(violation_views(notices@) =~= vs0.push(v@));
                            assert(corrections(vs0.push(v@)).drop_last() =~= corrections(vs0));
                            assert(violation_of(dsv.take(i + 1).last()) =~= seq![v@]);
                            assert(approved_of(dsv.take(i + 1).last())
                                =~= Seq::<Seq<char>>::empty());
                            assert(approved(dsv.take(i + 1)) =~= approved(dsv.take(i as int)));
                        }
                    },
                    Verdict::Allowed => {
                        let ghost cs0 = texts(commands@);
                        let c = command.clone();
                        commands.push(c);
                        proof {
                            assert(texts(commands@) =~= cs0.push(c@));
                            assert(violation_of(dsv.take(i + 1).last())
                                =~= Seq::<ViolationView>::empty());
                            assert(violations_of(dsv.take(i + 1)) =~= violations_of(
                                dsv.take(i as int),
                            ));
                        }
                    },
                }
            },
            Directive::Final { .. } => {
                proof {
                    assert(violations_of(dsv.take(i + 1)) =~= violations_of(dsv.take(i as int)));
                    assert(approved(dsv.take(i + 1)) =~= approved(dsv.take(i as int)));
                }
            },
        }
        i = i + 1;
    }
    assert(dsv.take(i as int) =~= dsv);
    (notices, commands)
}

impl Orchestrator {
    /// The session state is coherent.
    pub closed spec fn wf(&self) -> bool {
        self.history.wf() && valid(self@)
    }

    /// A coherent session is in a valid state, so every law about `next`
    /// applies to it.
    pub proof fn lemma_wf_valid(&self)
        requires
            self.wf(),
        ensures
            valid(self@),
    {
    }

    /// A new session: an empty history that holds at most `history_limit`
    /// entries, and at most `max_attempts` round trips past the first in a turn.
    pub fn new(history_limit: usize, max_attempts: u32) -> (o: Orchestrator)
        requires
            2 <= history_limit,
        ensures
            o.wf(),
            o@ == initial(history_limit as nat, max_attempts as nat),
    {
        let o = Orchestrator {
            history: ConversationHistory::new(history_limit),
            max_attempts,
            attempts: 0,
            environment: String::new(),
            phase: Phase::Idle,
            pending: Vec::new(),
            done: 0,
            feedback: String::new(),
        };
        assert(texts(o.pending@) =~= Seq::<Seq<char>>::empty());
        o
    }

    /// Where the session stands.
    pub fn phase(&self) -> (r: Phase)
        ensures
            r == self@.phase,
    {
        self.phase
    }

    /// Round trips counted in the current turn.
    pub fn attempts(&self) -> (r: u64)
        ensures
            r == self@.attempts,
    {
        self.attempts
    }

    /// The most round trips a turn may count before it is aborted.
    pub fn max_attempts(&self) -> (r: u32)
        ensures
            r == self@.max_attempts,
    {
        self.max_attempts
    }

    /// Copies of the history entries, oldest first.
    pub fn history(&self) -> (r: Vec<Message>)
        ensures
            message_views(r@) == self@.history,
    {
        self.history.snapshot()
    }

    /// The request for the model in the current state.
    fn request_action(&self) -> (a: Action)
        ensures
            a@ == request(self@),
    {
        let system_prompt = system_prompt_for(self.environment.as_str());
        let history = self.history.snapshot();
        Action::Request { system_prompt, history }
    }

    /// Ends a round trip whose attempt is already counted.
    fn finish_round(&mut self) -> (a: Action)
        ensures
            (final(self)@, a@) == next_round(old(self)@),
            final(self).history == old(self).history,
    {
        if self.attempts > self.max_attempts as u64 {
            self.phase = Phase::Aborted;
            Action::Abort
        } else {
            self.phase = Phase::AwaitingReply;
            self.request_action()
        }
    }

    /// Handles a model reply.
    fn take_reply(&mut self, text: String) -> (r: Reaction)
        requires
            old(self).wf(),
            old(self)@.phase == Phase::AwaitingReply,
        ensures
            final(self).wf(),
            (final(self)@, r.action@, violation_views(r.notices@)) == on_reply(
                old(self)@,
                clean_reply(text@),
            ),
    {
        assert(forall|i: int|
            0 <= i < old(self)@.pending.len() ==> !is_destructive(#[trigger] old(self)@.pending[i]));
        let chars = chars_of(text.as_str());
        let bare = drop_ticks(&chars);
        let cleaned = trimmed(&bare, false);
        self.history.append(Message::assistant(text_of(&cleaned)));
        let ds = parse_chars(&cleaned);
        let ghost dsv = views(ds@);
        proof {
            self.history.lemma_wf();
            crate::guarantees::lemma_approved_harmless(dsv);
        }
        let ends = if ds.len() == 0 {
            true
        } else {
            match &ds[0] {
                Directive::Final { .. } => true,
                _ => false,
            }
        };
        if ends {
            let message = if ds.len() == 0 {
                String::new()
            } else {
                match &ds[0] {
                    Directive::Final { message } => message.clone(),
                    _ => String::new(),
                }
            };
            self.phase = Phase::Finalized;
            let notices: Vec<Violation> = Vec::new();
            assert(violation_views(notices@) =~= Seq::<ViolationView>::empty());
            return Reaction { action: Action::Finish { message }, notices };
        }
        let (notices, commands) = screen(&ds, &mut self.history);
        proof {
            self.history.lemma_wf();
        }
        if commands.len() > 0 {
            let first = commands[0].clone();
            self.pending = commands;
            self.done = 0;
            self.feedback = String::new();
            self.phase = Phase::Executing;
            Reaction { action: Action::Run { command: first }, notices }
        } else {
            self.attempts = self.attempts + 1;
            self.pending = Vec::new();
            self.done = 0;
            self.feedback = String::new();
            assert(texts(self.pending@) =~= Seq::<Seq<char>>::empty());
            let action = self.finish_round();
            Reaction { action, notices }
        }
    }

    /// Handles the outcome of the command that ran last.
    fn take_result(&mut self, result: CommandResult) -> (a: Action)
        requires
            old(self).wf(),
            old(self)@.phase == Phase::Executing,
        ensures
            final(self).wf(),
            (final(self)@, a@) == on_result(old(self)@, result@),
    {
        let i = self.done;
        let n = self.pending.len();
        push_feedback(&mut self.feedback, self.pending[i].as_str(), &result);
        if i + 1 < n {
            self.done = i + 1;
            Action::Run { command: self.pending[i + 1].clone() }
        } else {
            let fb = self.feedback.clone();
            self.history.append(Message::user(fb));
            proof {
                self.history.lemma_wf();
            }
            self.attempts = self.attempts + 1;
            self.pending = Vec::new();
            self.done = 0;
            self.feedback = String::new();
            assert(texts(self.pending@) =~= Seq::<Seq<char>>::empty());
            self.finish_round()
        }
    }

    /// Takes one event and returns what to do next, with the violations
    /// corrected on the way; the transition is exactly `next`.
    pub fn step(&mut self, e: Event) -> (r: Reaction)
        requires
            old(self).wf(),
        ensures
            final(self).wf(),
            (final(self)@, r.action@, violation_views(r.notices@)) == next(old(self)@, e@),
    {
        let none: Vec<Violation> = Vec::new();
        assert(violation_views(none@) =~= Seq::<ViolationView>::empty());
        match e {
            Event::UserInput { text, environment } => {
                if self.phase == Phase::Idle || self.phase == Phase::Finalized || self.phase
                    == Phase::Aborted {
                    self.history.append(Message::user(text));
                    proof {
                        self.history.lemma_wf();
                    }
                    self.attempts = 0;
                    self.environment = environment;
                    self.phase = Phase::AwaitingReply;
                    self.pending = Vec::new();
                    self.done = 0;
                    self.feedback = String::new();
                    assert(texts(self.pending@) =~= Seq::<Seq<char>>::empty());
                    let action = self.request_action();
                    Reaction { action, notices: none }
                } else {
                    Reaction { action: Action::Wait, notices: none }
                }
            },
            Event::Reply { text } => {
                if self.phase == Phase::AwaitingReply {
                    self.take_reply(text)
                } else {
                    Reaction { action: Action::Wait, notices: none }
                }
            },
            Event::BackendFailed { error } => {
                if self.phase == Phase::AwaitingReply {
                    self.phase = Phase::Idle;
                    Reaction { action: Action::Fail { error }, notices: none }
                } else {
                    Reaction { action: Action::Wait, notices: none }
                }
            },
            Event::CommandFinished { result } => {
                if self.phase == Phase::Executing {
                    let action = self.take_result(result);
                    Reaction { action, notices: none }
                } else {
                    Reaction { action: Action::Wait, notices: none }
                }
            },
        }
    }
}

} // verus!
