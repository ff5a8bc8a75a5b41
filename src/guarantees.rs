//! What every session guarantees, stated over the transition function `next`
//! and proved for all states that a session reaches.
use crate::correction::{correction_message, corrections, ViolationView};
use crate::execution::feedback_block;
use crate::history::{appended, appended_all, lemma_appended_all_bounded, lemma_appended_bounded};
use crate::message::{MessageView, Role};
use crate::orchestrator::{
    approved, approved_of, clean_reply, next, next_round, valid,
    violation_of, violations_of, ActionView, EventView, Phase, SessionState,
};
use crate::parser::{execute_marker, final_marker, parse_reply, DirectiveView, Malformation};
use crate::safety::is_destructive;
use crate::text::{after_first, contains, is_space, trim, lemma_trim_keeps, lemma_without_ticks_keeps, tick_free, without_ticks};
use vstd::prelude::*;

verus! {

/// Every command that a sequence of directives gets approved is harmless.
pub proof fn lemma_approved_harmless(ds: Seq<DirectiveView>)
    ensures
        forall|i: int| 0 <= i < approved(ds).len() ==> !is_destructive(#[trigger] approved(ds)[i]),
    decreases ds.len(),
{
    if ds.len() > 0 {
        lemma_approved_harmless(ds.drop_last());
        let a = approved(ds.drop_last());
        let b = approved_of(ds.last());
        assert forall|i: int| 0 <= i < approved(ds).len() implies !is_destructive(
            #[trigger] approved(ds)[i],
        ) by {
            if i >= a.len() {
                assert(approved(ds)[i] == b[i - a.len()]);
            } else {
                assert(approved(ds)[i] == a[i]);
            }
        }
    }
}

proof fn lemma_next_round_valid(s: SessionState)
    requires
        2 <= s.limit,
        s.history.len() <= s.limit,
        s.attempts <= s.max_attempts + 1,
        s.pending.len() == 0,
    ensures
        valid(next_round(s).0),
{
}

/// Every transition keeps a session state valid: in particular the history
/// never holds more entries than its bound.
pub proof fn lemma_next_valid(s: SessionState, e: EventView)
    requires
        valid(s),
    ensures
        valid(next(s, e).0),
        next(s, e).0.history.len() <= next(s, e).0.limit,
{
    match e {
        EventView::UserInput { text, environment } => {
            lemma_appended_bounded(
                s.history,
                MessageView { role: Role::User, content: text },
                s.limit,
            );
        },
        EventView::Reply { text } => {
            if s.phase == Phase::AwaitingReply {
                let reply = clean_reply(text);
                let m = MessageView { role: Role::Assistant, content: reply };
                lemma_appended_bounded(s.history, m, s.limit);
                let h = appended(s.history, m, s.limit);
                let ds = parse_reply(reply);
                lemma_appended_all_bounded(h, corrections(violations_of(ds)), s.limit);
                lemma_approved_harmless(ds);
                let h2 = appended_all(h, corrections(violations_of(ds)), s.limit);
                lemma_next_round_valid(
                    SessionState {
                        history: h2,
                        attempts: s.attempts + 1,
                        pending: Seq::empty(),
                        done: 0,
                        feedback: Seq::empty(),
                        ..s
                    },
                );
            }
        },
        EventView::BackendFailed { .. } => {},
        EventView::CommandFinished { result } => {
            if s.phase == Phase::Executing && s.done < s.pending.len() {
                let fb = s.feedback + feedback_block(
                    s.pending[s.done as int],
                    result,
                );
                let m = MessageView { role: Role::User, content: fb };
                lemma_appended_bounded(s.history, m, s.limit);
                lemma_next_round_valid(
                    SessionState {
                        history: appended(s.history, m, s.limit),
                        attempts: s.attempts + 1,
                        pending: Seq::empty(),
                        done: 0,
                        feedback: Seq::empty(),
                        ..s
                    },
                );
            }
        },
    }
}

/// A command that holds a destructive pattern is never handed out to run,
/// whatever the state and the event.
pub proof fn lemma_destructive_never_run(s: SessionState, e: EventView)
    requires
        valid(s),
    ensures
        next(s, e).1 is Run ==> !is_destructive(next(s, e).1->Run_command),
{
    match e {
        EventView::Reply { text } => {
            if s.phase == Phase::AwaitingReply {
                lemma_approved_harmless(parse_reply(clean_reply(text)));
            }
        },
        EventView::CommandFinished { result } => {
            if s.phase == Phase::Executing && s.done < s.pending.len() && s.done + 1
                < s.pending.len() {
                assert(!is_destructive(s.pending[s.done + 1 as int]));
            }
        },
        _ => {},
    }
}

/// Cleaning a reply keeps the markers that it holds.
pub proof fn lemma_cleaning_keeps_markers(text: Seq<char>)
    ensures
        contains(text, execute_marker()) ==> contains(clean_reply(text), execute_marker()),
        contains(text, final_marker()) ==> contains(clean_reply(text), final_marker()),
{
    reveal_strlit("EXECUTE:");
    reveal_strlit("FINAL:");
    let e = execute_marker();
    let f = final_marker();
    assert(tick_free(e));
    assert(tick_free(f));
    assert(!is_space(e[0]) && !is_space(e.last()));
    assert(!is_space(f[0]) && !is_space(f.last()));
    if contains(text, e) {
        lemma_without_ticks_keeps(text, e);
        lemma_trim_keeps(without_ticks(text), e);
    }
    if contains(text, f) {
        lemma_without_ticks_keeps(text, f);
        lemma_trim_keeps(without_ticks(text), f);
    }
}

/// A reply that holds both markers never ends the turn: its one correction
/// is appended to the history, right after the reply itself.
pub proof fn lemma_mixed_reply_corrected(s: SessionState, text: Seq<char>)
    requires
        valid(s),
        s.phase == Phase::AwaitingReply,
        contains(text, execute_marker()),
        contains(text, final_marker()),
    ensures
        ({
            let (t, a, vs) = next(s, EventView::Reply { text });
            let reply = clean_reply(text);
            &&& t.phase != Phase::Finalized
            &&& !(a is Finish)
            &&& vs == seq![
                ViolationView::Malformed { raw: reply, reason: Malformation::MixedMarkers },
            ]
            &&& t.history == appended(
                appended(s.history, MessageView { role: Role::Assistant, content: reply }, s.limit),
                correction_message(vs[0]),
                s.limit,
            )
        }),
{
    lemma_cleaning_keeps_markers(text);
    let reply = clean_reply(text);
    let ds = parse_reply(reply);
    let d = DirectiveView::Malformed { raw: reply, reason: Malformation::MixedMarkers };
    assert(ds == seq![d]);
    assert(ds.drop_last() =~= Seq::<DirectiveView>::empty());
    assert(ds.last() == d);
    assert(violations_of(ds.drop_last()) == Seq::<ViolationView>::empty());
    assert(approved(ds.drop_last()) == Seq::<Seq<char>>::empty());
    assert(violations_of(ds) =~= violation_of(d));
    assert(approved(ds) =~= Seq::<Seq<char>>::empty());
    let vs = violations_of(ds);
    let h = appended(s.history, MessageView { role: Role::Assistant, content: reply }, s.limit);
    let cs = corrections(vs);
    assert(cs.drop_last() =~= Seq::<MessageView>::empty());
    assert(cs.last() == correction_message(vs[0]));
    assert(appended_all(h, cs.drop_last(), s.limit) == h);
    assert(appended_all(h, cs, s.limit) == appended(h, correction_message(vs[0]), s.limit));
}

/// A reply with a final message and no command ends the turn with that
/// message: nothing runs and nothing is corrected.
pub proof fn lemma_final_reply_ends_turn(s: SessionState, text: Seq<char>)
    requires
        valid(s),
        s.phase == Phase::AwaitingReply,
        !contains(clean_reply(text), execute_marker()),
        contains(clean_reply(text), final_marker()),
    ensures
        ({
            let (t, a, vs) = next(s, EventView::Reply { text });
            let reply = clean_reply(text);
            &&& t.phase == Phase::Finalized
            &&& a == ActionView::Finish { message: trim(after_first(reply, final_marker())) }
            &&& vs.len() == 0
            &&& t.history == appended(
                s.history,
                MessageView { role: Role::Assistant, content: reply },
                s.limit,
            )
        }),
{
    let reply = clean_reply(text);
    let m = trim(after_first(reply, final_marker()));
    let ds = parse_reply(reply);
    if m.len() == 0 {
        assert(ds.len() == 0);
        assert(m =~= Seq::<char>::empty());
    } else {
        assert(ds == seq![DirectiveView::Final { message: m }]);
    }
}

/// A reply with neither marker is never a silent no-op: it yields one
/// malformation, whose correction is appended right after the reply, and the
/// turn goes on.
pub proof fn lemma_unmarked_reply_corrected(s: SessionState, text: Seq<char>)
    requires
        valid(s),
        s.phase == Phase::AwaitingReply,
        !contains(clean_reply(text), execute_marker()),
        !contains(clean_reply(text), final_marker()),
    ensures
        ({
            let (t, a, vs) = next(s, EventView::Reply { text });
            let reply = clean_reply(text);
            &&& t.phase != Phase::Finalized
            &&& !(a is Finish)
            &&& vs == seq![ViolationView::Malformed { raw: reply, reason: Malformation::NoMarker }]
            &&& t.history == appended(
                appended(s.history, MessageView { role: Role::Assistant, content: reply }, s.limit),
                correction_message(vs[0]),
                s.limit,
            )
        }),
{
    let reply = clean_reply(text);
    let ds = parse_reply(reply);
    let d = DirectiveView::Malformed { raw: reply, reason: Malformation::NoMarker };
    assert(ds == seq![d]);
    assert(ds.drop_last() =~= Seq::<DirectiveView>::empty());
    assert(ds.last() == d);
    assert(violations_of(ds.drop_last()) == Seq::<ViolationView>::empty());
    assert(approved(ds.drop_last()) == Seq::<Seq<char>>::empty());
    assert(violations_of(ds) =~= violation_of(d));
    assert(approved(ds) =~= Seq::<Seq<char>>::empty());
    let vs = violations_of(ds);
    let h = appended(s.history, MessageView { role: Role::Assistant, content: reply }, s.limit);
    let cs = corrections(vs);
    assert(cs.drop_last() =~= Seq::<MessageView>::empty());
    assert(cs.last() == correction_message(vs[0]));
    assert(appended_all(h, cs.drop_last(), s.limit) == h);
    assert(appended_all(h, cs, s.limit) == appended(h, correction_message(vs[0]), s.limit));
}

/// The states and actions that a sequence of events produces from `s`.
pub open spec fn run(s: SessionState, es: Seq<EventView>) -> (SessionState, Seq<ActionView>)
    decreases es.len(),
{
    if es.len() == 0 {
        (s, Seq::empty())
    } else {
        let (t, acts) = run(s, es.drop_last());
        let (u, a, vs) = next(t, es.last());
        (u, acts.push(a))
    }
}

/// The model is asked only while the attempts of the turn are within the
/// maximum, and the abort comes exactly when a round trip takes them past it.
pub proof fn lemma_attempts_bound_requests(s: SessionState, e: EventView)
    requires
        valid(s),
    ensures
        next(s, e).1 is Request ==> next(s, e).0.attempts <= next(s, e).0.max_attempts,
        next(s, e).1 is Abort <==> (s.phase != Phase::Aborted && next(s, e).0.phase
            == Phase::Aborted),
        next(s, e).1 is Abort ==> next(s, e).0.attempts > next(s, e).0.max_attempts,
{
    lemma_next_valid(s, e);
}

/// Once a turn is aborted, no event short of a new user request changes the
/// state or asks for anything: no further request reaches the model, and the
/// abort is not reported again.
pub proof fn lemma_aborted_turn_stays_over(s: SessionState, es: Seq<EventView>)
    requires
        s.phase == Phase::Aborted,
        forall|i: int| 0 <= i < es.len() ==> !(#[trigger] es[i] is UserInput),
    ensures
        run(s, es).0 == s,
        forall|i: int| 0 <= i < es.len() ==> #[trigger] run(s, es).1[i] == ActionView::Wait,
        run(s, es).1.len() == es.len(),
    decreases es.len(),
{
    if es.len() > 0 {
        let init = es.drop_last();
        assert forall|i: int| 0 <= i < init.len() implies !(#[trigger] init[i] is UserInput) by {
            assert(init[i] == es[i]);
        }
        lemma_aborted_turn_stays_over(s, init);
        assert(!(es.last() is UserInput));
        let acts = run(s, init).1;
        assert forall|i: int| 0 <= i < es.len() implies #[trigger] run(s, es).1[i]
            == ActionView::Wait by {
            if i < init.len() {
                assert(run(s, es).1[i] == acts[i]);
            }
        }
    }
}

} // verus!
