//! Drives a context: resolves its triggers and actions, and judges every
//! event of the merged trigger sequence.

use vstd::prelude::*;
use crate::actions::command::ACTION_NAME;
use crate::context::{Context, TriggerBehavior};
use crate::error::{outcome, ConfigError, ConfigFault};
use crate::registry::{
    collected, each_action, each_trigger, get_action, get_trigger, lemma_collected,
    lemma_fault_stays, ActionKind, ActionModel, TriggerKind, TriggerModel,
};
use crate::text::trim;
use crate::triggers::wifi::TRIGGER_NAME;
use crate::triggers::Activity;

verus! {

/// What the driver issues to every action of its context after an event.
#[derive(Clone, Copy, Debug, PartialEq, Eq, Structural)]
pub enum Transition {
    /// Every action is entered.
    Enter,
    /// Every action is left.
    Leave,
}

/// The mathematical state of an [`Activation`].
pub struct ActivationState {
    /// The combination policy of the context.
    pub behavior: TriggerBehavior,
    /// The number of triggers of the context.
    pub total: nat,
    /// Active events seen so far, less the inactive ones.
    pub counter: nat,
}

impl ActivationState {
    /// The state before any event.
    pub open spec fn initial(behavior: TriggerBehavior, total: nat) -> Self {
        ActivationState { behavior, total, counter: 0 }
    }

    /// Whether `event` can follow this state: an inactive event needs an
    /// active one before it that it takes back.
    pub open spec fn admits(self, event: Activity) -> bool {
        event == Activity::Inactive ==> self.counter > 0
    }

    /// The counter once `event` is applied.
    pub open spec fn count(self, event: Activity) -> nat {
        match event {
            Activity::Active => self.counter + 1,
            Activity::Inactive => if self.counter > 0 {
                (self.counter - 1) as nat
            } else {
                0
            },
        }
    }

    /// The state that follows `event`.
    pub open spec fn after(self, event: Activity) -> Self {
        ActivationState { counter: self.count(event), ..self }
    }

    /// Whether `event` makes the context one that is to be entered.
    ///
    /// Under `And` the test looks at the level alone, under `Or` at the
    /// edge from no active trigger to some.
    pub open spec fn enters(self, event: Activity) -> bool {
        match self.behavior {
            TriggerBehavior::And => self.count(event) == self.total,
            TriggerBehavior::Or => self.count(event) > 0 && self.counter == 0,
        }
    }

    /// What is issued to the actions when `event` arrives.
    pub open spec fn decide(self, event: Activity) -> Transition {
        if self.enters(event) {
            Transition::Enter
        } else {
            Transition::Leave
        }
    }

    /// The state after all of `events`, in their order.
    pub open spec fn run(self, events: Seq<Activity>) -> Self
        decreases events.len(),
    {
        if events.len() == 0 {
            self
        } else {
            self.run(events.drop_last()).after(events.last())
        }
    }

    /// Whether each of `events` is admitted when its turn comes.
    pub open spec fn admits_all(self, events: Seq<Activity>) -> bool {
        forall|i: int|
            0 <= i < events.len() ==> self.run(#[trigger] events.take(i)).admits(events[i])
    }

    /// What is issued on each of `events`.
    pub open spec fn issued(self, events: Seq<Activity>) -> Seq<Transition> {
        Seq::new(events.len(), |i: int| self.run(events.take(i)).decide(events[i]))
    }
}

/// The policy `And` judges the level: whatever was issued before, an event
/// has the actions entered exactly when the counter, once the event is
/// applied, is the number of triggers; every other event has them left.
pub proof fn lemma_and_judges_the_level(state: ActivationState, event: Activity)
    requires
        state.behavior == TriggerBehavior::And,
    ensures
        state.after(event).counter == state.total ==> state.decide(event) == Transition::Enter,
        state.after(event).counter != state.total ==> state.decide(event) == Transition::Leave,
{
}

/// The policy `Or` judges the edge: an event has the actions entered
/// exactly when it takes the counter from zero to above zero; every other
/// event has them left, also one that finds the counter above zero and
/// leaves it there.
pub proof fn lemma_or_judges_the_edge(state: ActivationState, event: Activity)
    requires
        state.behavior == TriggerBehavior::Or,
    ensures
        state.counter == 0 && state.after(event).counter > 0 ==> state.decide(event)
            == Transition::Enter,
        state.counter > 0 || state.after(event).counter == 0 ==> state.decide(event)
            == Transition::Leave,
{
}

/// The activity counter of one context together with what its policy needs
/// to judge an event.
#[derive(Debug)]
pub struct Activation {
    behavior: TriggerBehavior,
    total: usize,
    counter: usize,
}

impl View for Activation {
    type V = ActivationState;

    closed spec fn view(&self) -> ActivationState {
        ActivationState {
            behavior: self.behavior,
            total: self.total as nat,
            counter: self.counter as nat,
        }
    }
}

impl Activation {
    /// An activation for `total` triggers with no event seen yet.
    pub fn new(behavior: TriggerBehavior, total: usize) -> (activation: Self)
        ensures
            activation@ == ActivationState::initial(behavior, total as nat),
    {
        Activation { behavior, total, counter: 0 }
    }

    /// The combination policy.
    pub fn behavior(&self) -> (behavior: TriggerBehavior)
        ensures
            behavior == self@.behavior,
    {
        self.behavior
    }

    /// The number of triggers.
    pub fn total(&self) -> (total: usize)
        ensures
            total == self@.total,
    {
        self.total
    }

    /// The activity counter.
    pub fn counter(&self) -> (counter: usize)
        ensures
            counter == self@.counter,
    {
        self.counter
    }

    /// Whether `on_event` may be called with `event`.
    pub fn admits(&self, event: Activity) -> (ok: bool)
        ensures
            ok == {
                &&& self@.admits(event)
                &&& event == Activity::Active ==> self@.counter < usize::MAX
            },
    {
        match event {
            Activity::Active => self.counter < usize::MAX,
            Activity::Inactive => self.counter > 0,
        }
    }

    /// Applies one event of the merged trigger sequence: updates the counter
    /// and judges, by the policy, what is issued to the actions.
    pub fn on_event(&mut self, event: Activity) -> (transition: Transition)
        requires
            old(self)@.admits(event),
            event == Activity::Active ==> old(self)@.counter < usize::MAX,
        ensures
            final(self)@ == old(self)@.after(event),
            transition == old(self)@.decide(event),
    {
        let prev: usize = self.counter;
        match event {
            Activity::Active => {
                self.counter = self.counter + 1;
            },
            Activity::Inactive => {
                self.counter = self.counter - 1;
            },
        }
        let is_all_active_and: bool = self.behavior == TriggerBehavior::And
            && self.counter == self.total;
        let is_or_and_has_active: bool = self.behavior == TriggerBehavior::Or
            && self.counter > 0 && prev == 0;
        if is_all_active_and || is_or_and_has_active {
            Transition::Enter
        } else {
            Transition::Leave
        }
    }
}

/// The mathematical state of a [`Driver`].
pub struct DriverModel<H> {
    /// The activity counter and its policy.
    pub activation: ActivationState,
    /// The triggers, in the order of the configuration.
    pub triggers: Seq<TriggerModel>,
    /// The actions, in the order of the configuration.
    pub actions: Seq<ActionModel<H>>,
}

/// What `drive` makes of a context: the actions are resolved first, then the
/// triggers, each list in its order, and the first entry that cannot be
/// resolved gives the error; the activation counts from zero, for as many
/// triggers as the context has.
pub open spec fn driven<H>(ctx: Context) -> Result<DriverModel<H>, ConfigFault> {
    match collected(each_action::<H>(ctx.actions@)) {
        Err(fault) => Err(fault),
        Ok(actions) => match collected(each_trigger(ctx.triggers@)) {
            Err(fault) => Err(fault),
            Ok(triggers) => Ok(
                DriverModel {
                    activation: ActivationState::initial(
                        ctx.trigger_behavior,
                        ctx.triggers@.len(),
                    ),
                    triggers,
                    actions,
                },
            ),
        },
    }
}

/// The parts of a context that is driven: its owner listens on the
/// triggers, hands every signal to the activation and carries out on the
/// actions what the activation issues.
#[derive(Debug)]
pub struct Driver<H> {
    /// The activity counter and its policy.
    pub activation: Activation,
    /// The triggers of the context, in the order of its configuration.
    pub triggers: Vec<TriggerKind>,
    /// The actions of the context, in the order of its configuration.
    pub actions: Vec<ActionKind<H>>,
}

impl<H> View for Driver<H> {
    type V = DriverModel<H>;

    open spec fn view(&self) -> DriverModel<H> {
        DriverModel {
            activation: self.activation@,
            triggers: self.triggers.deep_view(),
            actions: self.actions.deep_view(),
        }
    }
}

/// Prepares the given context for being driven: resolves every action and
/// every trigger by its name.  Nothing is started here, and where one entry
/// cannot be resolved nothing is built.
pub fn drive<H>(ctx: Context) -> (made: Result<Driver<H>, ConfigError>)
    ensures
        outcome(made) == driven::<H>(ctx),
{
    let ghost action_results = each_action::<H>(ctx.actions@);
    let mut actions: Vec<ActionKind<H>> = Vec::new();
    let mut i: usize = 0;
    assert(actions.deep_view() == Seq::<ActionModel<H>>::empty());
    while i < ctx.actions.len()
        invariant
            i <= ctx.actions.len(),
            action_results == each_action::<H>(ctx.actions@),
            collected(action_results.take(i as int)) == Ok::<Seq<ActionModel<H>>, ConfigFault>(
                actions.deep_view(),
            ),
        decreases ctx.actions.len() - i,
    {
        let ghost before = actions.deep_view();
        assert(action_results.take(i + 1).drop_last() == action_results.take(i as int));
        match get_action(ctx.actions[i].0.as_str(), &ctx.actions[i].1) {
            Ok(action) => {
                actions.push(action);
                assert(actions.deep_view() == before.push(action@));
            },
            Err(error) => {
                proof {
                    lemma_fault_stays(action_results, i + 1);
                }
                return Err(error);
            },
        }
        i = i + 1;
    }
    assert(action_results.take(i as int) == action_results);

    let ghost trigger_results = each_trigger(ctx.triggers@);
    let mut triggers: Vec<TriggerKind> = Vec::new();
    let mut k: usize = 0;
    assert(triggers.deep_view() == Seq::<TriggerModel>::empty());
    while k < ctx.triggers.len()
        invariant
            k <= ctx.triggers.len(),
            collected(each_action::<H>(ctx.actions@)) is Ok,
            trigger_results == each_trigger(ctx.triggers@),
            collected(trigger_results.take(k as int)) == Ok::<Seq<TriggerModel>, ConfigFault>(
                triggers.deep_view(),
            ),
        decreases ctx.triggers.len() - k,
    {
        let ghost before = triggers.deep_view();
        assert(trigger_results.take(k + 1).drop_last() == trigger_results.take(k as int));
        match get_trigger(ctx.triggers[k].0.as_str(), &ctx.triggers[k].1) {
            Ok(trigger) => {
                triggers.push(trigger);
                assert(triggers.deep_view() == before.push(trigger@));
            },
            Err(error) => {
                proof {
                    lemma_fault_stays(trigger_results, k + 1);
                }
                return Err(error);
            },
        }
        k = k + 1;
    }
    assert(trigger_results.take(k as int) == trigger_results);

    let activation = Activation::new(ctx.trigger_behavior, ctx.triggers.len());
    Ok(Driver { activation, triggers, actions })
}

/// Whether the first `len` of the actions can be resolved.
pub open spec fn actions_in_order<H>(ctx: Context, len: int) -> bool {
    forall|j: int| 0 <= j < len ==> (#[trigger] each_action::<H>(ctx.actions@)[j]) is Ok
}

/// Whether the first `len` of the triggers can be resolved.
pub open spec fn triggers_in_order(ctx: Context, len: int) -> bool {
    forall|j: int| 0 <= j < len ==> (#[trigger] each_trigger(ctx.triggers@)[j]) is Ok
}

/// A context is not driven if one of its actions is written under a name
/// that no kind of action is registered under: `drive` fails for it.  Where
/// the actions before it are in order, the error is the unknown name, as it
/// was written.
pub proof fn lemma_unknown_action_is_refused<H>(ctx: Context, at: int)
    requires
        0 <= at < ctx.actions@.len(),
        trim(ctx.actions@[at].0@) != ACTION_NAME@,
    ensures
        driven::<H>(ctx) is Err,
        actions_in_order::<H>(ctx, at) ==> driven::<H>(ctx) == Err::<DriverModel<H>, ConfigFault>(
            ConfigFault::UnknownAction(ctx.actions@[at].0@),
        ),
{
    let results = each_action::<H>(ctx.actions@);
    lemma_collected(results);
    assert(results[at] is Err);
}

/// A context is not driven if one of its triggers is written under a name
/// that no kind of trigger is registered under: `drive` fails for it.
/// Where the actions and the triggers before it are in order, the error is
/// the unknown name, as it was written.
pub proof fn lemma_unknown_trigger_is_refused<H>(ctx: Context, at: int)
    requires
        0 <= at < ctx.triggers@.len(),
        trim(ctx.triggers@[at].0@) != TRIGGER_NAME@,
    ensures
        driven::<H>(ctx) is Err,
        actions_in_order::<H>(ctx, ctx.actions@.len() as int) && triggers_in_order(ctx, at)
            ==> driven::<H>(ctx) == Err::<DriverModel<H>, ConfigFault>(
            ConfigFault::UnknownTrigger(ctx.triggers@[at].0@),
        ),
{
    lemma_collected(each_action::<H>(ctx.actions@));
    let results = each_trigger(ctx.triggers@);
    lemma_collected(results);
    assert(results[at] is Err);
}

} // verus!
