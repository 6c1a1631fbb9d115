//! The merged sequence of signals, and what the activity counter means.
//!
//! The driver sees the signals of all its triggers as one sequence, without
//! their origin.  Here each signal keeps the index of its trigger, so that
//! the counter can be held against the state of the triggers: as long as
//! every trigger signals each change once, the counter is the number of
//! triggers that are active.

use vstd::prelude::*;
use crate::actions::command::CommandState;
use crate::context::TriggerBehavior;
use crate::driver::{ActivationState, Transition};
use crate::triggers::wifi::{lemma_one_signal_per_change, WifiState};
use crate::triggers::{alternates, Activity};

verus! {

/// A signal with the trigger that emitted it.
pub struct Signal {
    /// The index of the trigger among those of the context.
    pub trigger: nat,
    /// What it signalled.
    pub activity: Activity,
}

/// The signals as the driver sees them.
pub open spec fn activities(signals: Seq<Signal>) -> Seq<Activity> {
    signals.map_values(|signal: Signal| signal.activity)
}

/// The signals of the trigger `trigger` among `signals`, in their order.
pub open spec fn of_trigger(signals: Seq<Signal>, trigger: nat) -> Seq<Activity>
    decreases signals.len(),
{
    if signals.len() == 0 {
        Seq::empty()
    } else if signals.last().trigger == trigger {
        of_trigger(signals.drop_last(), trigger).push(signals.last().activity)
    } else {
        of_trigger(signals.drop_last(), trigger)
    }
}

/// Whether `signals` is a merge of the signals of `total` triggers each of
/// which signals every change once: active and inactive in turn, active
/// first.
pub open spec fn well_behaved(signals: Seq<Signal>, total: nat) -> bool {
    &&& forall|i: int| 0 <= i < signals.len() ==> (#[trigger] signals[i]).trigger < total
    &&& forall|trigger: nat|
        trigger < total ==> alternates(#[trigger] of_trigger(signals, trigger))
}

/// Whether `trigger` is active after `signals`: its last signal was an
/// active one.
pub open spec fn is_active(signals: Seq<Signal>, trigger: nat) -> bool {
    let own = of_trigger(signals, trigger);
    own.len() > 0 && own.last() == Activity::Active
}

/// Whether all of the `total` triggers are active after `signals`.
pub open spec fn all_active(signals: Seq<Signal>, total: nat) -> bool {
    forall|trigger: nat| trigger < total ==> #[trigger] is_active(signals, trigger)
}

/// Whether none of the `total` triggers is active after `signals`.
pub open spec fn none_active(signals: Seq<Signal>, total: nat) -> bool {
    forall|trigger: nat| trigger < total ==> !#[trigger] is_active(signals, trigger)
}

/// The number of triggers below `total` for which `holds` is true.
pub open spec fn count(holds: spec_fn(nat) -> bool, total: nat) -> nat
    decreases total,
{
    if total == 0 {
        0
    } else if holds((total - 1) as nat) {
        count(holds, (total - 1) as nat) + 1
    } else {
        count(holds, (total - 1) as nat)
    }
}

/// The number of triggers, of `total`, that are active after `signals`.
pub open spec fn active_count(signals: Seq<Signal>, total: nat) -> nat {
    count(|trigger: nat| is_active(signals, trigger), total)
}

/// A count is at most the number counted over; it reaches that number
/// exactly when the condition holds throughout, and is zero exactly when it
/// holds nowhere.
pub proof fn lemma_count_bounds(holds: spec_fn(nat) -> bool, total: nat)
    ensures
        count(holds, total) <= total,
        count(holds, total) == total <==> forall|trigger: nat|
            trigger < total ==> #[trigger] holds(trigger),
        count(holds, total) == 0 <==> forall|trigger: nat|
            trigger < total ==> !#[trigger] holds(trigger),
    decreases total,
{
    if total > 0 {
        lemma_count_bounds(holds, (total - 1) as nat);
    }
}

/// Two conditions that agree below `total` count the same.
proof fn lemma_count_same(first: spec_fn(nat) -> bool, second: spec_fn(nat) -> bool, total: nat)
    requires
        forall|trigger: nat| trigger < total ==> #[trigger] first(trigger) == second(trigger),
    ensures
        count(first, total) == count(second, total),
    decreases total,
{
    if total > 0 {
        lemma_count_same(first, second, (total - 1) as nat);
    }
}

/// Where two conditions differ at one place below `total` alone, the one
/// that holds there counts one more.
proof fn lemma_count_flip(
    first: spec_fn(nat) -> bool,
    second: spec_fn(nat) -> bool,
    total: nat,
    flipped: nat,
)
    requires
        flipped < total,
        !first(flipped),
        second(flipped),
        forall|trigger: nat|
            trigger < total && trigger != flipped ==> #[trigger] first(trigger) == second(trigger),
    ensures
        count(second, total) == count(first, total) + 1,
    decreases total,
{
    let below = (total - 1) as nat;
    if flipped == below {
        lemma_count_same(first, second, below);
    } else {
        lemma_count_flip(first, second, below, flipped);
    }
}

/// A merge that is well behaved is so without its last signal.
proof fn lemma_well_behaved_front(signals: Seq<Signal>, total: nat)
    requires
        well_behaved(signals, total),
        signals.len() > 0,
    ensures
        well_behaved(signals.drop_last(), total),
{
    let front = signals.drop_last();
    assert forall|trigger: nat| trigger < total implies alternates(
        #[trigger] of_trigger(front, trigger),
    ) by {
        if signals.last().trigger == trigger {
            assert(of_trigger(signals, trigger).drop_last() == of_trigger(front, trigger));
        }
    }
}

/// A merge that is well behaved is so up to each of its signals.
pub proof fn lemma_well_behaved_prefix(signals: Seq<Signal>, total: nat, len: int)
    requires
        well_behaved(signals, total),
        0 <= len <= signals.len(),
    ensures
        well_behaved(signals.take(len), total),
    decreases signals.len() - len,
{
    if len == signals.len() {
        assert(signals.take(len) == signals);
    } else {
        lemma_well_behaved_prefix(signals, total, len + 1);
        lemma_well_behaved_front(signals.take(len + 1), total);
        assert(signals.take(len + 1).drop_last() == signals.take(len));
    }
}

/// The last signal of a well behaved merge changes the state of its
/// trigger, and of no other.
proof fn lemma_last_signal_flips(signals: Seq<Signal>, total: nat)
    requires
        well_behaved(signals, total),
        signals.len() > 0,
    ensures
        is_active(signals, signals.last().trigger) == (signals.last().activity
            == Activity::Active),
        is_active(signals.drop_last(), signals.last().trigger) == (signals.last().activity
            != Activity::Active),
        forall|trigger: nat|
            trigger != signals.last().trigger ==> is_active(signals, trigger) == is_active(
                signals.drop_last(),
                trigger,
            ),
{
    let front = signals.drop_last();
    let origin = signals.last().trigger;
    let own = of_trigger(signals, origin);
    assert(own.drop_last() == of_trigger(front, origin));
}

/// The events of a merge without its last signal.
proof fn lemma_activities_front(signals: Seq<Signal>)
    requires
        signals.len() > 0,
    ensures
        activities(signals).drop_last() == activities(signals.drop_last()),
        activities(signals).last() == signals.last().activity,
{
}

/// The meaning of the activity counter.
///
/// For every merge of the signals of `total` triggers that each signal
/// every change once, the driver that starts at zero admits each signal in
/// its turn, and its counter after them is the number of triggers that are
/// active; so it lies between zero and `total`.
pub proof fn lemma_counter_counts_active_triggers(
    behavior: TriggerBehavior,
    total: nat,
    signals: Seq<Signal>,
)
    requires
        well_behaved(signals, total),
    ensures
        ActivationState::initial(behavior, total).admits_all(activities(signals)),
        ActivationState::initial(behavior, total).run(activities(signals)).counter
            == active_count(signals, total),
        ActivationState::initial(behavior, total).run(activities(signals)).behavior == behavior,
        ActivationState::initial(behavior, total).run(activities(signals)).total == total,
        active_count(signals, total) <= total,
    decreases signals.len(),
{
    let start = ActivationState::initial(behavior, total);
    let events = activities(signals);
    lemma_count_bounds(|trigger: nat| is_active(signals, trigger), total);
    if signals.len() == 0 {
    } else {
        let front = signals.drop_last();
        let origin = signals.last().trigger;
        lemma_well_behaved_front(signals, total);
        lemma_counter_counts_active_triggers(behavior, total, front);
        lemma_last_signal_flips(signals, total);
        lemma_activities_front(signals);
        let before = |trigger: nat| is_active(front, trigger);
        let after = |trigger: nat| is_active(signals, trigger);
        if signals.last().activity == Activity::Active {
            lemma_count_flip(before, after, total, origin);
        } else {
            lemma_count_flip(after, before, total, origin);
        }
        assert forall|i: int| 0 <= i < events.len() implies start.run(
            #[trigger] events.take(i),
        ).admits(events[i]) by {
            if i < events.len() - 1 {
                assert(events.take(i) == activities(front).take(i));
            }
        }
    }
}

/// An active signal of a well behaved merge finds the counter below the
/// number of triggers: counting it cannot pass that number.
pub proof fn lemma_active_signal_fits(
    behavior: TriggerBehavior,
    total: nat,
    signals: Seq<Signal>,
    at: int,
)
    requires
        well_behaved(signals, total),
        0 <= at < signals.len(),
        signals[at].activity == Activity::Active,
    ensures
        ActivationState::initial(behavior, total).run(activities(signals).take(at)).counter
            < total,
{
    let until = signals.take(at + 1);
    lemma_well_behaved_prefix(signals, total, at + 1);
    lemma_counter_counts_active_triggers(behavior, total, until);
    lemma_well_behaved_prefix(signals, total, at);
    assert(activities(signals).take(at) == activities(signals.take(at)));
    assert(activities(until).drop_last() == activities(signals.take(at)));
}

/// The streams of wifi triggers make a well behaved merge: however the
/// signals of the streams are interleaved, and whatever their probes
/// observe.
pub proof fn lemma_wifi_streams_are_well_behaved(
    signals: Seq<Signal>,
    names: Seq<Seq<char>>,
    probes: Seq<Seq<Option<Seq<char>>>>,
)
    requires
        names.len() == probes.len(),
        forall|i: int| 0 <= i < signals.len() ==> (#[trigger] signals[i]).trigger < names.len(),
        forall|trigger: nat|
            trigger < names.len() ==> #[trigger] of_trigger(signals, trigger) == WifiState::fresh(
                names[trigger as int],
            ).emitted(probes[trigger as int]),
    ensures
        well_behaved(signals, names.len()),
{
    assert forall|trigger: nat| trigger < names.len() implies alternates(
        #[trigger] of_trigger(signals, trigger),
    ) by {
        lemma_one_signal_per_change(names[trigger as int], probes[trigger as int]);
    }
}

/// The judgement under the policy `And`.
///
/// In a well behaved merge of the signals of `total` triggers, the signal
/// at `at` has the actions entered exactly when all the triggers are active
/// once it is applied, whatever was issued before; every other signal has
/// them left.
pub proof fn lemma_and_enters_while_all_active(total: nat, signals: Seq<Signal>, at: int)
    requires
        well_behaved(signals, total),
        0 <= at < signals.len(),
    ensures
        ActivationState::initial(TriggerBehavior::And, total).issued(activities(signals))[at]
            == if all_active(signals.take(at + 1), total) {
            Transition::Enter
        } else {
            Transition::Leave
        },
{
    let events = activities(signals);
    let until = signals.take(at + 1);
    lemma_well_behaved_prefix(signals, total, at + 1);
    lemma_counter_counts_active_triggers(TriggerBehavior::And, total, until);
    lemma_well_behaved_prefix(signals, total, at);
    let holds = |trigger: nat| is_active(until, trigger);
    lemma_count_bounds(holds, total);
    assert(events.take(at) == activities(signals.take(at)));
    assert(activities(until).drop_last() == activities(signals.take(at)));
    if !all_active(until, total) {
        let other = choose|trigger: nat| trigger < total && !is_active(until, trigger);
        assert(!holds(other));
    }
}

/// The judgement under the policy `Or`.
///
/// In a well behaved merge of the signals of `total` triggers, the signal
/// at `at` has the actions entered exactly when no trigger was active
/// before it and it is an active one: the counter goes from zero to above
/// zero.  Every other signal has them left, also one that comes while some
/// trigger is active.
pub proof fn lemma_or_enters_on_first_active(total: nat, signals: Seq<Signal>, at: int)
    requires
        well_behaved(signals, total),
        0 <= at < signals.len(),
    ensures
        ActivationState::initial(TriggerBehavior::Or, total).issued(activities(signals))[at]
            == if none_active(signals.take(at), total) && signals[at].activity
            == Activity::Active {
            Transition::Enter
        } else {
            Transition::Leave
        },
{
    let events = activities(signals);
    let before = signals.take(at);
    lemma_well_behaved_prefix(signals, total, at);
    lemma_counter_counts_active_triggers(TriggerBehavior::Or, total, before);
    let holds = |trigger: nat| is_active(before, trigger);
    lemma_count_bounds(holds, total);
    assert(events.take(at) == activities(before));
    if !none_active(before, total) {
        let other = choose|trigger: nat| trigger < total && is_active(before, trigger);
        assert(holds(other));
    }
}

/// In a well behaved merge the actions are never entered twice in a row:
/// the signal after one that has them entered has them left.  So an action
/// that is entered holds nothing that the entering replaces.
pub proof fn lemma_enter_is_followed_by_leave(
    behavior: TriggerBehavior,
    total: nat,
    signals: Seq<Signal>,
    at: int,
)
    requires
        well_behaved(signals, total),
        0 <= at,
        at + 1 < signals.len(),
        ActivationState::initial(behavior, total).issued(activities(signals))[at]
            == Transition::Enter,
    ensures
        ActivationState::initial(behavior, total).issued(activities(signals))[at + 1]
            == Transition::Leave,
{
    let until = signals.take(at + 1);
    let beyond = signals.take(at + 2);
    lemma_well_behaved_prefix(signals, total, at + 1);
    lemma_well_behaved_prefix(signals, total, at + 2);
    assert(beyond.drop_last() == until);
    lemma_last_signal_flips(beyond, total);
    lemma_last_signal_flips(until, total);
    match behavior {
        TriggerBehavior::And => {
            lemma_and_enters_while_all_active(total, signals, at);
            lemma_and_enters_while_all_active(total, signals, at + 1);
        },
        TriggerBehavior::Or => {
            lemma_or_enters_on_first_active(total, signals, at);
            lemma_or_enters_on_first_active(total, signals, at + 1);
        },
    }
}

/// The record of a command action whose owner carries out `transitions`:
/// on every enter it records the child that it started for that turn, on
/// every leave it takes the child out.
pub open spec fn carried_out<H>(
    state: CommandState<H>,
    transitions: Seq<Transition>,
    children: Seq<H>,
) -> CommandState<H>
    decreases transitions.len(),
{
    if transitions.len() == 0 {
        state
    } else {
        let before = carried_out(state, transitions.drop_last(), children);
        match transitions.last() {
            Transition::Enter => before.entered(children[transitions.len() - 1]),
            Transition::Leave => before.left(),
        }
    }
}

/// No child is lost: in a well behaved merge, an action that starts
/// without a child has none recorded whenever it is entered, so that no
/// entering replaces a child.
pub proof fn lemma_no_child_is_replaced<H>(
    behavior: TriggerBehavior,
    total: nat,
    signals: Seq<Signal>,
    state: CommandState<H>,
    children: Seq<H>,
    at: int,
)
    requires
        well_behaved(signals, total),
        0 <= at < signals.len(),
        state.child is None,
        ActivationState::initial(behavior, total).issued(activities(signals))[at]
            == Transition::Enter,
    ensures
        carried_out(
            state,
            ActivationState::initial(behavior, total).issued(activities(signals)).take(at),
            children,
        ).child is None,
{
    let issued = ActivationState::initial(behavior, total).issued(activities(signals));
    if at > 0 {
        if issued[at - 1] == Transition::Enter {
            lemma_enter_is_followed_by_leave(behavior, total, signals, at - 1);
        }
        assert(issued.take(at).last() == issued[at - 1]);
    }
}

} // verus!
