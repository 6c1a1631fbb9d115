//! The registered kinds of triggers and actions, and their resolution by
//! name.
//!
//! The registry is closed: `"command"` names the command action, `"wifi"`
//! the wifi trigger, and no other name is known.

use vstd::prelude::*;
use serde_yaml::Value;
use crate::actions::command::{CommandAction, CommandState, ACTION_NAME};
use crate::actions::Action;
use crate::error::{outcome, ConfigError, ConfigFault};
use crate::text::{trim, trimmed_is};
use crate::triggers::wifi::{WifiTrigger, TRIGGER_NAME};

verus! {

/// An action of one of the registered kinds.
#[derive(Debug)]
pub enum ActionKind<H> {
    /// Registered as `command`.
    Command(CommandAction<H>),
}

/// The mathematical state of an [`ActionKind`].
pub enum ActionModel<H> {
    /// A command action.
    Command(CommandState<H>),
}

impl<H> ActionModel<H> {
    /// The state once `started` is recorded.
    pub open spec fn entered(self, started: H) -> Self {
        match self {
            ActionModel::Command(action) => ActionModel::Command(action.entered(started)),
        }
    }

    /// The state once the handle is handed out.
    pub open spec fn left(self) -> Self {
        match self {
            ActionModel::Command(action) => ActionModel::Command(action.left()),
        }
    }
}

impl<H> View for ActionKind<H> {
    type V = ActionModel<H>;

    open spec fn view(&self) -> ActionModel<H> {
        match self {
            ActionKind::Command(action) => ActionModel::Command(action@),
        }
    }
}

impl<H> DeepView for ActionKind<H> {
    type V = ActionModel<H>;

    open spec fn deep_view(&self) -> ActionModel<H> {
        self@
    }
}

impl<H> Action for ActionKind<H> {
    type Handle = H;

    open spec fn held(&self) -> Option<H> {
        match self {
            ActionKind::Command(action) => action.held(),
        }
    }

    fn enter(&mut self, started: H) -> (replaced: Option<H>)
        ensures
            final(self)@ == old(self)@.entered(started),
    {
        match self {
            ActionKind::Command(action) => action.enter(started),
        }
    }

    fn leave(&mut self) -> (released: Option<H>)
        ensures
            final(self)@ == old(self)@.left(),
    {
        match self {
            ActionKind::Command(action) => action.leave(),
        }
    }
}

/// A trigger of one of the registered kinds.
#[derive(Debug)]
pub enum TriggerKind {
    /// Registered as `wifi`.
    Wifi(WifiTrigger),
}

/// The mathematical state of a [`TriggerKind`].
pub enum TriggerModel {
    /// A wifi trigger, with the name of its network.
    Wifi(Seq<char>),
}

impl View for TriggerKind {
    type V = TriggerModel;

    open spec fn view(&self) -> TriggerModel {
        match self {
            TriggerKind::Wifi(trigger) => TriggerModel::Wifi(trigger@),
        }
    }
}

impl DeepView for TriggerKind {
    type V = TriggerModel;

    open spec fn deep_view(&self) -> TriggerModel {
        self@
    }
}

/// The action that the entry `name` of a context stands for: its kind is
/// found by the trimmed name and reads `config`.  An unknown name is
/// reported as it was written.
pub open spec fn resolved_action<H>(name: Seq<char>, config: Value) -> Result<
    ActionModel<H>,
    ConfigFault,
> {
    if trim(name) == ACTION_NAME@ {
        match CommandState::<H>::configured(config) {
            Ok(action) => Ok(ActionModel::Command(action)),
            Err(fault) => Err(fault),
        }
    } else {
        Err(ConfigFault::UnknownAction(name))
    }
}

/// The trigger that the entry `name` of a context stands for: its kind is
/// found by the trimmed name and reads `config`.  An unknown name is
/// reported as it was written.
pub open spec fn resolved_trigger(name: Seq<char>, config: Value) -> Result<
    TriggerModel,
    ConfigFault,
> {
    if trim(name) == TRIGGER_NAME@ {
        match WifiTrigger::configured(config) {
            Ok(ssid) => Ok(TriggerModel::Wifi(ssid)),
            Err(fault) => Err(fault),
        }
    } else {
        Err(ConfigFault::UnknownTrigger(name))
    }
}

/// Resolves one action of a context.
pub fn get_action<H>(name: &str, config: &Value) -> (made: Result<ActionKind<H>, ConfigError>)
    ensures
        outcome(made) == resolved_action::<H>(name@, *config),
{
    if trimmed_is(name, ACTION_NAME) {
        match CommandAction::from_config(config) {
            Ok(action) => Ok(ActionKind::Command(action)),
            Err(error) => Err(error),
        }
    } else {
        Err(ConfigError::UnknownAction(String::from_str(name)))
    }
}

/// Resolves one trigger of a context.
pub fn get_trigger(name: &str, config: &Value) -> (made: Result<TriggerKind, ConfigError>)
    ensures
        outcome(made) == resolved_trigger(name@, *config),
{
    if trimmed_is(name, TRIGGER_NAME) {
        match WifiTrigger::from_config(config) {
            Ok(trigger) => Ok(TriggerKind::Wifi(trigger)),
            Err(error) => Err(error),
        }
    } else {
        Err(ConfigError::UnknownTrigger(String::from_str(name)))
    }
}

/// What each of the entries resolves to as an action.
pub open spec fn each_action<H>(entries: Seq<(String, Value)>) -> Seq<
    Result<ActionModel<H>, ConfigFault>,
> {
    entries.map_values(|entry: (String, Value)| resolved_action::<H>(entry.0@, entry.1))
}

/// What each of the entries resolves to as a trigger.
pub open spec fn each_trigger(entries: Seq<(String, Value)>) -> Seq<
    Result<TriggerModel, ConfigFault>,
> {
    entries.map_values(|entry: (String, Value)| resolved_trigger(entry.0@, entry.1))
}

/// The values of `results` if each of them is one, else the first of their
/// faults.
pub open spec fn collected<T>(results: Seq<Result<T, ConfigFault>>) -> Result<Seq<T>, ConfigFault>
    decreases results.len(),
{
    if results.len() == 0 {
        Ok(Seq::empty())
    } else {
        match collected(results.drop_last()) {
            Err(fault) => Err(fault),
            Ok(front) => match results.last() {
                Err(fault) => Err(fault),
                Ok(value) => Ok(front.push(value)),
            },
        }
    }
}

/// What `collected` gives, result by result: all the values, or the fault
/// before which there are values only.
pub proof fn lemma_collected<T>(results: Seq<Result<T, ConfigFault>>)
    ensures
        match collected(results) {
            Ok(values) => {
                &&& values.len() == results.len()
                &&& forall|i: int|
                    0 <= i < results.len() ==> #[trigger] results[i] == Ok::<T, ConfigFault>(
                        values[i],
                    )
            },
            Err(fault) => exists|i: int|
                {
                    &&& 0 <= i < results.len()
                    &&& #[trigger] results[i] == Err::<T, ConfigFault>(fault)
                    &&& forall|j: int| 0 <= j < i ==> #[trigger] results[j] is Ok
                },
        },
    decreases results.len(),
{
    if results.len() > 0 {
        let front = results.drop_last();
        lemma_collected(front);
        match collected(front) {
            Ok(values) => {
                assert forall|j: int| 0 <= j < front.len() implies #[trigger] results[j] is Ok by {
                    assert(front[j] == results[j]);
                }
                match results.last() {
                    Ok(value) => {
                        assert forall|i: int| 0 <= i < results.len() implies #[trigger] results[i]
                            == Ok::<T, ConfigFault>(values.push(value)[i]) by {
                            if i < front.len() {
                                assert(front[i] == results[i]);
                            }
                        }
                    },
                    Err(fault) => {
                    },
                }
            },
            Err(fault) => {
                let i = choose|i: int|
                    {
                        &&& 0 <= i < front.len()
                        &&& #[trigger] front[i] == Err::<T, ConfigFault>(fault)
                        &&& forall|j: int| 0 <= j < i ==> #[trigger] front[j] is Ok
                    };
                assert forall|j: int| 0 <= j < i implies #[trigger] results[j] is Ok by {
                    assert(front[j] == results[j]);
                }
            },
        }
    }
}

/// A fault among the first `len` results is the fault of them all.
pub proof fn lemma_fault_stays<T>(results: Seq<Result<T, ConfigFault>>, len: int)
    requires
        0 <= len <= results.len(),
        collected(results.take(len)) is Err,
    ensures
        collected(results) == collected(results.take(len)),
    decreases results.len() - len,
{
    if len < results.len() {
        assert(results.take(len + 1).drop_last() == results.take(len));
        lemma_fault_stays(results, len + 1);
    } else {
        assert(results.take(len) == results);
    }
}

} // verus!
