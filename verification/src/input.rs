//! Quit-key handling and the control flow of the render/poll session.
//!
//! Each loop iteration polls the terminal for at most the configured
//! interval. The poll's outcome is handed to this module as a plain value:
//! `None` for a timeout, `Some` for a key. Only `q` and Escape end the
//! session; every other outcome leads to a redraw.

use vstd::prelude::*;

verus! {

/// One polled key, already stripped of everything the viewer ignores.
#[derive(Clone, Copy, Debug, PartialEq, Eq, Structural)]
pub enum KeyInput {
    /// A plain character key.
    Char(char),
    /// The Escape key.
    Esc,
    /// Any other key or non-key event.
    Other,
}

/// The terminal-facing actions the session performs, in order.
#[derive(Clone, Copy, Debug, PartialEq, Eq, Structural)]
pub enum Action {
    /// Enter the alternate screen, hide the cursor, enable raw mode.
    Init,
    /// Repaint the whole frame.
    Render,
    /// Leave the alternate screen, show the cursor, disable raw mode.
    Teardown,
}

/// True exactly for the inputs that quit the viewer: `q` or Escape.
pub open spec fn is_exit_input(ev: Option<KeyInput>) -> bool {
    ev == Some(KeyInput::Char('q')) || ev == Some(KeyInput::Esc)
}

/// Decides whether one polled outcome ends the session.
pub fn exit_requested(ev: &Option<KeyInput>) -> (r: bool)
    ensures
        r == is_exit_input(*ev),
{
    match ev {
        Some(KeyInput::Char(c)) => *c == 'q',
        Some(KeyInput::Esc) => true,
        _ => false,
    }
}

/// The actions of the loop itself on a sequence of polled outcomes: a redraw
/// for every ignored outcome, then the teardown at the first quit input.
pub open spec fn loop_actions(events: Seq<Option<KeyInput>>) -> Seq<Action>
    decreases events.len(),
{
    if events.len() == 0 {
        Seq::empty()
    } else if is_exit_input(events[0]) {
        seq![Action::Teardown]
    } else {
        seq![Action::Render] + loop_actions(events.drop_first())
    }
}

/// The whole session's actions: initialization, then the loop.
pub open spec fn session_actions(events: Seq<Option<KeyInput>>) -> Seq<Action> {
    seq![Action::Init] + loop_actions(events)
}

/// True when some polled outcome quits the session.
pub open spec fn session_exits(events: Seq<Option<KeyInput>>) -> bool {
    exists|k: int| 0 <= k < events.len() && is_exit_input(events[k])
}

/// Runs the session's decisions over a finite record of polled outcomes and
/// returns the actions performed, with a flag saying whether the session
/// ended. The application's loop performs each action as it arises; this
/// function is the same control flow on plain values.
pub fn run_session(events: &Vec<Option<KeyInput>>) -> (r: (Vec<Action>, bool))
    ensures
        r.0@ == session_actions(events@),
        r.1 == session_exits(events@),
{
    let mut acts: Vec<Action> = Vec::new();
    acts.push(Action::Init);
    let mut exited: bool = false;
    let mut idx: usize = 0;
    proof {
        assert(events@.skip(0) =~= events@);
        assert(acts@ + loop_actions(events@) =~= session_actions(events@));
    }
    while idx < events.len() && !exited
        invariant
            idx <= events@.len(),
            forall|j: int| 0 <= j < idx ==> !is_exit_input(events@[j]),
            exited ==> idx < events@.len() && is_exit_input(events@[idx as int]) && acts@
                == session_actions(events@),
            !exited ==> acts@ + loop_actions(events@.skip(idx as int)) == session_actions(events@),
        decreases events@.len() - idx, (if exited {
            0int
        } else {
            1int
        }),
    {
        proof {
            assert(events@.skip(idx as int)[0] == events@[idx as int]);
            assert(events@.skip(idx as int).drop_first() =~= events@.skip(idx as int + 1));
        }
        if exit_requested(&events[idx]) {
            acts.push(Action::Teardown);
            exited = true;
            proof {
                assert(acts@ =~= session_actions(events@));
            }
        } else {
            acts.push(Action::Render);
            idx = idx + 1;
            proof {
                assert(acts@ + loop_actions(events@.skip(idx as int)) =~= session_actions(
                    events@,
                ));
            }
        }
    }
    proof {
        if !exited {
            assert(events@.skip(idx as int) =~= Seq::<Option<KeyInput>>::empty());
            assert(acts@ =~= session_actions(events@));
        }
    }
    (acts, exited)
}

/// How many times `a` occurs in `acts`.
pub open spec fn count_action(acts: Seq<Action>, a: Action) -> nat
    decreases acts.len(),
{
    if acts.len() == 0 {
        0
    } else {
        count_action(acts.drop_first(), a) + if acts[0] == a {
            1nat
        } else {
            0nat
        }
    }
}

proof fn lemma_count_action_concat(x: Seq<Action>, y: Seq<Action>, a: Action)
    ensures
        count_action(x + y, a) == count_action(x, a) + count_action(y, a),
    decreases x.len(),
{
    if x.len() == 0 {
        assert(x + y =~= y);
    } else {
        assert((x + y).drop_first() =~= x.drop_first() + y);
        lemma_count_action_concat(x.drop_first(), y, a);
    }
}

/// A timed-out poll never requests exit: the loop goes on and redraws.
pub proof fn lemma_timeout_continues()
    ensures
        !is_exit_input(Option::<KeyInput>::None),
{
}

/// A quit input ends the loop at exactly that poll: when the first `q` or
/// Escape arrives as outcome `k`, the session is the initialization, one
/// redraw per earlier ignored outcome, and the teardown — nothing more.
pub proof fn lemma_exit_stops_loop(events: Seq<Option<KeyInput>>, k: int)
    requires
        0 <= k < events.len(),
        is_exit_input(events[k]),
        forall|j: int| 0 <= j < k ==> !is_exit_input(events[j]),
    ensures
        loop_actions(events) == Seq::new(k as nat, |i: int| Action::Render) + seq![
            Action::Teardown,
        ],
        session_actions(events) == seq![Action::Init] + Seq::new(k as nat, |i: int| Action::Render)
            + seq![Action::Teardown],
    decreases k,
{
    if k == 0 {
        assert(loop_actions(events) =~= Seq::new(0, (|i: int| Action::Render)) + seq![
            Action::Teardown,
        ]);
    } else {
        let rest = events.drop_first();
        assert(is_exit_input(rest[k - 1]));
        assert(forall|j: int| 0 <= j < k - 1 ==> !is_exit_input(#[trigger] rest[j]));
        lemma_exit_stops_loop(rest, k - 1);
        assert(loop_actions(events) == seq![Action::Render] + loop_actions(rest));
        assert(loop_actions(rest) =~= Seq::new((k - 1) as nat, (|i: int| Action::Render)) + seq![
            Action::Teardown,
        ]);
        assert(loop_actions(events) =~= Seq::new(k as nat, (|i: int| Action::Render)) + seq![
            Action::Teardown,
        ]);
    }
    assert(session_actions(events) =~= seq![Action::Init] + Seq::new(
        k as nat,
        (|i: int| Action::Render),
    ) + seq![Action::Teardown]);
}

/// Without a quit input the loop never ends: every poll is followed by a
/// redraw and no teardown is issued.
pub proof fn lemma_no_exit_keeps_looping(events: Seq<Option<KeyInput>>)
    requires
        forall|j: int| 0 <= j < events.len() ==> !is_exit_input(events[j]),
    ensures
        loop_actions(events) == Seq::new(events.len(), |i: int| Action::Render),
    decreases events.len(),
{
    if events.len() == 0 {
        assert(loop_actions(events) =~= Seq::new(0, (|i: int| Action::Render)));
    } else {
        let rest = events.drop_first();
        assert(forall|j: int| 0 <= j < rest.len() ==> !is_exit_input(#[trigger] rest[j]));
        lemma_no_exit_keeps_looping(rest);
        assert(loop_actions(events) =~= Seq::new(events.len(), (|i: int| Action::Render)));
    }
}

proof fn lemma_loop_actions_of_exit(events: Seq<Option<KeyInput>>)
    requires
        session_exits(events),
    ensures
        loop_actions(events).len() >= 1,
        loop_actions(events).last() == Action::Teardown,
        count_action(loop_actions(events), Action::Teardown) == 1,
        count_action(loop_actions(events), Action::Init) == 0,
    decreases events.len(),
{
    reveal_with_fuel(count_action, 3);
    if is_exit_input(events[0]) {
        assert(seq![Action::Teardown].drop_first() =~= Seq::<Action>::empty());
    } else {
        let rest = events.drop_first();
        assert(session_exits(rest)) by {
            let k = choose|k: int| 0 <= k < events.len() && is_exit_input(events[k]);
            assert(is_exit_input(rest[k - 1]));
        }
        lemma_loop_actions_of_exit(rest);
        lemma_count_action_concat(seq![Action::Render], loop_actions(rest), Action::Teardown);
        lemma_count_action_concat(seq![Action::Render], loop_actions(rest), Action::Init);
        assert(seq![Action::Render].drop_first() =~= Seq::<Action>::empty());
        assert((seq![Action::Render] + loop_actions(rest)).last() == loop_actions(rest).last());
    }
}

/// The terminal is put back exactly once on every ending session: once a
/// quit input arrives, the actions begin with the one initialization and end
/// with the one teardown.
pub proof fn lemma_teardown_exactly_once(events: Seq<Option<KeyInput>>)
    requires
        session_exits(events),
    ensures
        session_actions(events).len() >= 2,
        session_actions(events)[0] == Action::Init,
        session_actions(events).last() == Action::Teardown,
        count_action(session_actions(events), Action::Init) == 1,
        count_action(session_actions(events), Action::Teardown) == 1,
{
    reveal_with_fuel(count_action, 3);
    lemma_loop_actions_of_exit(events);
    lemma_count_action_concat(seq![Action::Init], loop_actions(events), Action::Init);
    lemma_count_action_concat(seq![Action::Init], loop_actions(events), Action::Teardown);
    assert(seq![Action::Init].drop_first() =~= Seq::<Action>::empty());
    assert(session_actions(events).last() == loop_actions(events).last());
}

} // verus!
