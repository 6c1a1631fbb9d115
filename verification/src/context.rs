//! Static configuration of a context.

use vstd::prelude::*;
use serde_yaml::Value;
use crate::multi::Multi;
use crate::text::same_text;

verus! {

/// Configuration: one context, or a list of them.
pub type Config = Multi<Context>;

/// Context configuration.
///
/// The triggers and the actions are each given by the name under which
/// their kind is registered, with a configuration value that only that kind
/// interprets.
#[derive(Debug, PartialEq, Eq)]
pub struct Context {
    /// The actions to execute when the context is active.
    pub actions: Vec<(String, Value)>,
    /// The name of the context.
    pub name: String,
    /// Evidence sources for activating the context.
    pub triggers: Vec<(String, Value)>,
    /// Context activity behavior.
    pub trigger_behavior: TriggerBehavior,
}

impl Clone for Context {
    /// A context of the same name and behavior, with as many triggers and
    /// actions.
    fn clone(&self) -> (copy: Self)
        ensures
            copy.name == self.name,
            copy.trigger_behavior == self.trigger_behavior,
            copy.triggers@.len() == self.triggers@.len(),
            copy.actions@.len() == self.actions@.len(),
    {
        Context {
            actions: self.actions.clone(),
            name: self.name.clone(),
            triggers: self.triggers.clone(),
            trigger_behavior: self.trigger_behavior,
        }
    }
}

/// Whether the entries are written under names that differ from one
/// another, as the keys of a mapping do.
pub open spec fn distinct_names(entries: Seq<(String, Value)>) -> bool {
    forall|i: int, j: int|
        0 <= i < j < entries.len() ==> (#[trigger] entries[i]).0@ != (#[trigger] entries[j]).0@
}

/// Whether the entries are written under names that differ from one
/// another.
pub fn has_distinct_names(entries: &Vec<(String, Value)>) -> (distinct: bool)
    ensures
        distinct == distinct_names(entries@),
{
    let mut j: usize = 0;
    while j < entries.len()
        invariant
            j <= entries.len(),
            distinct_names(entries@.take(j as int)),
        decreases entries.len() - j,
    {
        let mut i: usize = 0;
        while i < j
            invariant
                i <= j < entries.len(),
                forall|k: int| 0 <= k < i ==> (#[trigger] entries@[k]).0@ != entries@[j as int].0@,
            decreases j - i,
        {
            if same_text(entries[i].0.as_str(), entries[j].0.as_str()) {
                return false;
            }
            i = i + 1;
        }
        j = j + 1;
    }
    assert(entries@.take(j as int) == entries@);
    true
}

/// Whether _all_ evidence sources have to indicate that their context is
/// active, or just one, for the actions to be entered.
#[derive(Clone, Copy, Debug, PartialEq, Eq, Structural)]
pub enum TriggerBehavior {
    /// All evidence sources have to indicate context activity.
    ///
    /// This is the default.
    And,
    /// Only one evidence source has to indicate context activity.
    Or,
}

/// The ways a context configuration can be invalid.
#[derive(Clone, Copy, Debug, PartialEq, Eq, Structural)]
pub enum ValidationError {
    /// The context has no trigger.
    MissingTriggers,
    /// The context has no action.
    MissingActions,
}

impl Config {
    /// Whether every context is valid.
    pub open spec fn valid(&self) -> bool {
        forall|i: int| 0 <= i < self@.len() ==> (#[trigger] self@[i]).validity() is Ok
    }

    /// Validates the contexts in order; the first that is invalid gives the
    /// error.
    pub fn validate(&self) -> (checked: Result<(), ValidationError>)
        ensures
            match checked {
                Ok(_) => self.valid(),
                Err(error) => exists|i: int|
                    {
                        &&& 0 <= i < self@.len()
                        &&& (#[trigger] self@[i]).validity() == Err::<(), ValidationError>(error)
                        &&& forall|j: int| 0 <= j < i ==> (#[trigger] self@[j]).validity() is Ok
                    },
            },
    {
        match self {
            Multi::Single(ctx) => {
                let checked = ctx.validate();
                proof {
                    if checked is Err {
                        assert(self@[0].validity() == checked);
                    }
                }
                checked
            },
            Multi::Multiple(ctxs) => {
                let mut i: usize = 0;
                while i < ctxs.len()
                    invariant
                        i <= ctxs.len(),
                        self@ == ctxs@,
                        forall|j: int| 0 <= j < i ==> (#[trigger] self@[j]).validity() is Ok,
                    decreases ctxs.len() - i,
                {
                    if let Err(error) = ctxs[i].validate() {
                        return Err(error);
                    }
                    i = i + 1;
                }
                Ok(())
            },
        }
    }
}

impl Context {
    /// Whether this is a context as a configuration holds it: its triggers,
    /// and its actions, are the entries of a mapping, so no two of them are
    /// written under one name.
    pub open spec fn well_formed(&self) -> bool {
        distinct_names(self.triggers@) && distinct_names(self.actions@)
    }

    /// Whether no two triggers, and no two actions, are written under one
    /// name.
    pub fn is_well_formed(&self) -> (ok: bool)
        ensures
            ok == self.well_formed(),
    {
        has_distinct_names(&self.triggers) && has_distinct_names(&self.actions)
    }

    /// What `validate` finds: a context needs a trigger, and an action.
    pub open spec fn validity(&self) -> Result<(), ValidationError> {
        if self.triggers@.len() == 0 {
            Err(ValidationError::MissingTriggers)
        } else if self.actions@.len() == 0 {
            Err(ValidationError::MissingActions)
        } else {
            Ok(())
        }
    }

    /// Validates the context: it needs at least one trigger and at least
    /// one action.
    pub fn validate(&self) -> (checked: Result<(), ValidationError>)
        ensures
            checked == self.validity(),
    {
        if self.triggers.len() == 0 {
            return Err(ValidationError::MissingTriggers);
        }
        if self.actions.len() == 0 {
            return Err(ValidationError::MissingActions);
        }
        Ok(())
    }
}

impl Default for TriggerBehavior {
    fn default() -> (behavior: Self)
        ensures
            behavior == TriggerBehavior::And,
    {
        TriggerBehavior::And
    }
}

impl ValidationError {
    /// The text that `description` gives.
    pub open spec fn spec_description(self) -> Seq<char> {
        match self {
            ValidationError::MissingActions => "Missing actions to execute"@,
            ValidationError::MissingTriggers => "Missing action triggers"@,
        }
    }

    /// A short text that says what is missing.
    pub fn description(&self) -> (text: &'static str)
        ensures
            text@ == self.spec_description(),
    {
        match *self {
            ValidationError::MissingActions => "Missing actions to execute",
            ValidationError::MissingTriggers => "Missing action triggers",
        }
    }
}

} // verus!
