//! A wifi evidence source: signals when a named network is joined or left.

use vstd::prelude::*;
use vstd::string::StringExecFns;
use vstd::string::StrSliceExecFns;
use vstd::string::StringSliceAdditionalSpecFns;
use vstd::utf8::{decode_utf8, valid_utf8, encode_utf8_decode_utf8};
use serde_yaml::Value;
use crate::error::{outcome, ConfigError, ConfigFault, ProbeError};
use crate::text::{chars_of, same_text, scan, span, starts_with, text_view, trim, trim_range};
use crate::triggers::{alternates, Activity, Trigger};
use crate::yaml::{as_str, text_of};

verus! {

/// The name under which the wifi trigger is registered.
pub const TRIGGER_NAME: &'static str = "wifi";

/// Milliseconds before the first probe.
pub const FIRST_POLL_DELAY_MS: u64 = 0;

/// Milliseconds from one probe to the next.
pub const POLL_INTERVAL_MS: u64 = 5000;

/// A wifi evidence source that signals when a specific wifi network is
/// joined or left.
#[derive(Debug)]
pub struct WifiTrigger(String);

impl View for WifiTrigger {
    type V = Seq<char>;

    /// The name of the network.
    closed spec fn view(&self) -> Seq<char> {
        self.0@
    }
}

impl WifiTrigger {
    /// A trigger for the network called `wifi_name`.
    pub fn new(wifi_name: &str) -> (trigger: Self)
        ensures
            trigger@ == wifi_name@,
    {
        WifiTrigger(String::from_str(wifi_name))
    }

    /// What a configuration makes that holds the text `text`, or none: a
    /// trigger for the network of that name, where there is a text.
    pub open spec fn named(text: Option<Seq<char>>) -> Result<Seq<char>, ConfigFault> {
        match text {
            Some(ssid) => Ok(ssid),
            None => Err(ConfigFault::UnknownFormat),
        }
    }

    /// What a configuration value makes.
    pub open spec fn configured(cfg: Value) -> Result<Seq<char>, ConfigFault> {
        Self::named(text_of(cfg))
    }

    /// Reads the trigger's configuration: the name of the network, as a
    /// YAML string.
    pub fn from_config(cfg: &Value) -> (made: Result<Self, ConfigError>)
        ensures
            outcome(made) == Self::configured(*cfg),
    {
        Self::from_text(as_str(cfg))
    }

    /// Makes the trigger of a configuration of which the text is known.
    pub fn from_text(text: Option<&str>) -> (made: Result<Self, ConfigError>)
        ensures
            outcome(made) == Self::named(text_view(text)),
    {
        match text {
            Some(ssid) => Ok(Self::new(ssid)),
            None => Err(ConfigError::UnknownFormat),
        }
    }

    /// The name of the network.
    pub fn name(&self) -> (name: &str)
        ensures
            name@ == self@,
    {
        self.0.as_str()
    }
}

impl Trigger for WifiTrigger {
    type Stream = WifiStream;

    open spec fn starts(&self, stream: WifiStream) -> bool {
        stream@ == WifiState::fresh(self@)
    }

    fn listen(&mut self) -> (stream: WifiStream) {
        WifiStream::new(self.0.clone())
    }
}

/// The mathematical state of a [`WifiStream`].
pub struct WifiState {
    /// The name of the network that is watched.
    pub name: Seq<char>,
    /// Whether the last probe found that network joined.
    pub was_same: bool,
}

impl WifiState {
    /// The state before the first probe.
    pub open spec fn fresh(name: Seq<char>) -> Self {
        WifiState { name, was_same: false }
    }

    /// Whether a probe that observed `ssid` found the watched network; no
    /// network at all is no match.
    pub open spec fn matching(self, ssid: Option<Seq<char>>) -> bool {
        ssid == Some(self.name)
    }

    /// The signal that a probe gives which observed `ssid`: one only where
    /// the match differs from that of the probe before.
    pub open spec fn emits(self, ssid: Option<Seq<char>>) -> Option<Activity> {
        if self.matching(ssid) && !self.was_same {
            Some(Activity::Active)
        } else if !self.matching(ssid) && self.was_same {
            Some(Activity::Inactive)
        } else {
            None
        }
    }

    /// The state after a probe that observed `ssid`.
    pub open spec fn after(self, ssid: Option<Seq<char>>) -> Self {
        WifiState { was_same: self.matching(ssid), ..self }
    }

    /// The state after a run of probes.
    pub open spec fn after_all(self, probes: Seq<Option<Seq<char>>>) -> Self
        decreases probes.len(),
    {
        if probes.len() == 0 {
            self
        } else {
            self.after_all(probes.drop_last()).after(probes.last())
        }
    }

    /// The signals that a run of probes gives, in their order.
    pub open spec fn emitted(self, probes: Seq<Option<Seq<char>>>) -> Seq<Activity>
        decreases probes.len(),
    {
        if probes.len() == 0 {
            Seq::empty()
        } else {
            let front = self.emitted(probes.drop_last());
            match self.after_all(probes.drop_last()).emits(probes.last()) {
                Some(signal) => front.push(signal),
                None => front,
            }
        }
    }

    /// The number of probes in a run whose match differs from that of the
    /// probe before.
    pub open spec fn changes(self, probes: Seq<Option<Seq<char>>>) -> nat
        decreases probes.len(),
    {
        if probes.len() == 0 {
            0
        } else {
            let before = self.after_all(probes.drop_last());
            self.changes(probes.drop_last()) + if before.matching(probes.last())
                != before.was_same {
                1nat
            } else {
                0nat
            }
        }
    }
}

/// Edge detection: a stream signals once for each change of the match and
/// not otherwise.
///
/// Over every run of probes, a fresh stream emits as many signals as the
/// match changes, and they come active and inactive in turn, active first:
/// no signal repeats the one before it.
pub proof fn lemma_one_signal_per_change(name: Seq<char>, probes: Seq<Option<Seq<char>>>)
    ensures
        alternates(WifiState::fresh(name).emitted(probes)),
        WifiState::fresh(name).emitted(probes).len() == WifiState::fresh(name).changes(probes),
        WifiState::fresh(name).after_all(probes).name == name,
        WifiState::fresh(name).after_all(probes).was_same == (WifiState::fresh(name).emitted(
            probes,
        ).len() % 2 == 1),
    decreases probes.len(),
{
    if probes.len() > 0 {
        lemma_one_signal_per_change(name, probes.drop_last());
    }
}

/// No evidence is no match: with the radio off a stream does what it does
/// when some other network is observed.
pub proof fn lemma_radio_off_is_no_match(state: WifiState, other: Seq<char>)
    requires
        other != state.name,
    ensures
        state.emits(None) == state.emits(Some(other)),
        state.after(None) == state.after(Some(other)),
{
}

/// The edge detector behind one run of listening: it remembers whether the
/// last probe matched.
#[derive(Debug)]
pub struct WifiStream {
    name: String,
    was_same: bool,
}

impl View for WifiStream {
    type V = WifiState;

    closed spec fn view(&self) -> WifiState {
        WifiState { name: self.name@, was_same: self.was_same }
    }
}

/// The line prefix that names the network.
pub open spec fn ssid_prefix() -> Seq<char> {
    "SSID: "@
}

/// The line prefix that tells the state of the radio.
pub open spec fn airport_prefix() -> Seq<char> {
    "AirPort: "@
}

/// Whether a trimmed line is one that the probe answers with.
pub open spec fn is_answer(line: Seq<char>) -> bool {
    ssid_prefix().is_prefix_of(line) || airport_prefix().is_prefix_of(line)
}

/// The first line of `text` that, trimmed, starts with one of the two
/// prefixes.
pub open spec fn answer_line(text: Seq<char>) -> Option<Seq<char>>
    decreases text.len(),
{
    let n = span(text, '\n');
    let line = trim(text.take(n as int));
    if is_answer(line) {
        Some(line)
    } else if n < text.len() {
        answer_line(text.skip(n as int + 1))
    } else {
        None
    }
}

/// The network that the probe's output names: none where the answer line
/// tells of the radio, else what follows the prefix on the answer line.
pub open spec fn wifi_name(output: Seq<u8>) -> Result<Option<Seq<char>>, ProbeError> {
    if !valid_utf8(output) {
        Err(ProbeError::NotUtf8)
    } else {
        match answer_line(decode_utf8(output)) {
            None => Err(ProbeError::MissingLine),
            Some(line) => if airport_prefix().is_prefix_of(line) {
                Ok(None)
            } else {
                Ok(Some(line.skip(ssid_prefix().len() as int)))
            },
        }
    }
}

/// What the result of a probe stands for: the name as its characters.
pub open spec fn found(name: Result<Option<String>, ProbeError>) -> Result<
    Option<Seq<char>>,
    ProbeError,
> {
    match name {
        Ok(Some(ssid)) => Ok(Some(ssid@)),
        Ok(None) => Ok(None),
        Err(error) => Err(error),
    }
}

/// Calls `core::str::from_utf8`: the bytes are accepted exactly when they
/// are valid UTF-8, and the string slice then holds those bytes.
#[verifier::external_body]
fn from_utf8(bytes: &[u8]) -> (text: Option<&str>)
    ensures
        text is Some <==> valid_utf8(bytes@),
        text matches Some(s) ==> s.spec_bytes() == bytes@,
{
    match core::str::from_utf8(bytes) {
        Ok(s) => Some(s),
        Err(_) => None,
    }
}

impl WifiStream {
    /// A stream for the network called `name`, with nothing observed yet.
    pub fn new(name: String) -> (stream: Self)
        ensures
            stream@ == WifiState::fresh(name@),
    {
        WifiStream { name, was_same: false }
    }

    /// Takes the result of one probe, `new_ssid` being the network observed
    /// (`None` with the radio off), and gives the signal to emit, if the
    /// match changed.
    pub fn poll(&mut self, new_ssid: Option<&str>) -> (signal: Option<Activity>)
        ensures
            signal == old(self)@.emits(text_view(new_ssid)),
            final(self)@ == old(self)@.after(text_view(new_ssid)),
    {
        let is_same: bool = match new_ssid {
            Some(ssid) => same_text(ssid, self.name.as_str()),
            None => false,
        };
        if is_same && !self.was_same {
            self.was_same = true;
            Some(Activity::Active)
        } else if !is_same && self.was_same {
            self.was_same = false;
            Some(Activity::Inactive)
        } else {
            None
        }
    }

    /// Parses the network's name out of the probe's output.
    ///
    /// Gives `None` if wifi is turned off and the name otherwise.
    pub fn get_wifi_name(output: &[u8]) -> (name: Result<Option<String>, ProbeError>)
        ensures
            found(name) == wifi_name(output@),
    {
        let text = match from_utf8(output) {
            Some(text) => text,
            None => {
                return Err(ProbeError::NotUtf8);
            },
        };
        proof {
            encode_utf8_decode_utf8(text@);
        }
        let chars = chars_of(text);
        let ssid = chars_of("SSID: ");
        let airport = chars_of("AirPort: ");
        let mut from: usize = 0;
        assert(chars@.skip(0) == chars@);
        loop
            invariant
                from <= chars.len(),
                chars@ == text@,
                valid_utf8(output@),
                decode_utf8(output@) == chars@,
                ssid@ == ssid_prefix(),
                airport@ == airport_prefix(),
                answer_line(chars@) == answer_line(chars@.skip(from as int)),
            decreases chars.len() - from,
        {
            let end: usize = scan(&chars, from, chars.len(), '\n');
            assert(chars@.skip(from as int).take(end - from) == chars@.subrange(
                from as int,
                end as int,
            ));
            let (a, b): (usize, usize) = trim_range(&chars, from, end);
            if starts_with(&chars, a, b, &airport) {
                return Ok(None);
            }
            if starts_with(&chars, a, b, &ssid) {
                assert(chars@.subrange(a as int, b as int).skip(ssid@.len() as int)
                    == chars@.subrange(a + ssid@.len(), b as int));
                let found = text.substring_char(a + ssid.len(), b);
                return Ok(Some(String::from_str(found)));
            }
            if end == chars.len() {
                return Err(ProbeError::MissingLine);
            }
            assert(chars@.skip(from as int).skip(end - from + 1) == chars@.skip(end + 1));
            from = end + 1;
        }
    }
}

} // verus!
