use runtext::error::{ConfigError, ProbeError};
use runtext::triggers::wifi::{
    WifiStream, WifiTrigger, FIRST_POLL_DELAY_MS, POLL_INTERVAL_MS, TRIGGER_NAME,
};
use runtext::triggers::{Activity, Trigger};
use serde_yaml::{Mapping, Value};

const CONNECTED: &str = "     agrCtlRSSI: -58
     agrExtRSSI: 0
    agrCtlNoise: -91
    agrExtNoise: 0
          state: running
        op mode: station
     lastTxRate: 867
        maxRate: 867
lastAssocStatus: 0
    802.11 auth: open
      link auth: wpa2-psk
          BSSID: 0:11:22:33:44:55
           SSID: HomeNet
            MCS: 9
        channel: 36,80
";

fn emitted(name: &str, probes: &[Option<&str>]) -> Vec<Activity> {
    let mut stream = WifiStream::new(name.to_owned());
    let mut signals = Vec::new();
    for probe in probes {
        if let Some(signal) = stream.poll(*probe) {
            signals.push(signal);
        }
    }
    signals
}

#[test]
fn wifi_name() {
    WifiStream::get_wifi_name(CONNECTED.as_bytes()).unwrap();
}

#[test]
fn name_follows_the_ssid_prefix() {
    assert_eq!(
        WifiStream::get_wifi_name(CONNECTED.as_bytes()),
        Ok(Some("HomeNet".to_owned()))
    );
    assert_eq!(
        WifiStream::get_wifi_name(b"SSID: My Net: 5 GHz"),
        Ok(Some("My Net: 5 GHz".to_owned()))
    );
    assert_eq!(
        WifiStream::get_wifi_name("  SSID: Caf\u{e9} \u{2713}\r\n".as_bytes()),
        Ok(Some("Caf\u{e9} \u{2713}".to_owned()))
    );
}

#[test]
fn name_keeps_what_follows_the_prefix() {
    assert_eq!(
        WifiStream::get_wifi_name(b"SSID:   spaced  \n"),
        Ok(Some("  spaced".to_owned()))
    );
    assert_eq!(WifiStream::get_wifi_name(b"SSID: x"), Ok(Some("x".to_owned())));
}

#[test]
fn radio_off_gives_no_name() {
    assert_eq!(WifiStream::get_wifi_name(b"AirPort: Off\n"), Ok(None));
    assert_eq!(WifiStream::get_wifi_name(b"  AirPort: Off  "), Ok(None));
    assert_eq!(WifiStream::get_wifi_name(b"AirPort: On\nSSID: later\n"), Ok(None));
}

#[test]
fn first_answer_line_counts() {
    assert_eq!(
        WifiStream::get_wifi_name(b"noise\nSSID: first\nSSID: second\nAirPort: Off\n"),
        Ok(Some("first".to_owned()))
    );
    assert_eq!(
        WifiStream::get_wifi_name(b"\n\n BSSID: 0:1\n\tSSID: net"),
        Ok(Some("net".to_owned()))
    );
}

#[test]
fn output_without_answer_line() {
    assert_eq!(WifiStream::get_wifi_name(b""), Err(ProbeError::MissingLine));
    assert_eq!(
        WifiStream::get_wifi_name(b"BSSID: 0:11\nstate: running\n"),
        Err(ProbeError::MissingLine)
    );
    // The prefix needs its space, which trimming takes from a bare line.
    assert_eq!(WifiStream::get_wifi_name(b"SSID: \n"), Err(ProbeError::MissingLine));
    assert_eq!(WifiStream::get_wifi_name(b"SSID:x\nAirPort:Off"), Err(ProbeError::MissingLine));
}

#[test]
fn output_that_is_not_utf8() {
    assert_eq!(WifiStream::get_wifi_name(&[0x53, 0xff, 0x0a]), Err(ProbeError::NotUtf8));
    assert_eq!(
        WifiStream::get_wifi_name(b"SSID: ok\n\xc3"),
        Err(ProbeError::NotUtf8)
    );
}

#[test]
fn probe_error_messages() {
    assert_eq!(ProbeError::NotUtf8.message(), "Got non-UTF-8 output from airport utility");
    assert_eq!(ProbeError::MissingLine.message(), "Missing SSID or AirPort line");
}

#[test]
fn one_signal_for_each_change() {
    assert_eq!(
        emitted("A", &[Some("A"), Some("A"), Some("B"), Some("B"), Some("A")]),
        vec![Activity::Active, Activity::Inactive, Activity::Active]
    );
}

#[test]
fn no_signal_while_nothing_changes() {
    assert_eq!(emitted("A", &[]), vec![]);
    assert_eq!(emitted("A", &[Some("B"), None, Some("C")]), vec![]);
    assert_eq!(emitted("A", &[Some("A"), Some("A"), Some("A")]), vec![Activity::Active]);
}

#[test]
fn radio_off_is_as_another_network() {
    let with_radio_off = emitted("A", &[None, Some("A"), None, None, Some("A"), None]);
    let with_other_net =
        emitted("A", &[Some("B"), Some("A"), Some("B"), Some("B"), Some("A"), Some("B")]);
    assert_eq!(with_radio_off, with_other_net);
    assert_eq!(
        with_radio_off,
        vec![Activity::Active, Activity::Inactive, Activity::Active, Activity::Inactive]
    );
}

#[test]
fn names_are_matched_exactly() {
    assert_eq!(emitted("Home", &[Some("home"), Some("Home "), Some("Hom"), Some("")]), vec![]);
    assert_eq!(emitted("", &[Some("")]), vec![Activity::Active]);
}

#[test]
fn poll_gives_the_signal_of_each_probe() {
    let mut stream = WifiStream::new("net".to_owned());
    assert_eq!(stream.poll(None), None);
    assert_eq!(stream.poll(Some("net")), Some(Activity::Active));
    assert_eq!(stream.poll(Some("net")), None);
    assert_eq!(stream.poll(None), Some(Activity::Inactive));
    assert_eq!(stream.poll(Some("other")), None);
}

#[test]
fn listening_starts_afresh() {
    let mut trigger = WifiTrigger::new("net");
    let mut first = trigger.listen();
    assert_eq!(first.poll(Some("net")), Some(Activity::Active));
    let mut second = trigger.listen();
    assert_eq!(second.poll(Some("net")), Some(Activity::Active));
    assert_eq!(first.poll(Some("net")), None);
    assert_eq!(trigger.name(), "net");
}

#[test]
fn trigger_config_is_the_name_of_the_network() {
    let trigger = WifiTrigger::from_config(&Value::String("HomeNet".to_owned())).unwrap();
    assert_eq!(trigger.name(), "HomeNet");
    let trigger = WifiTrigger::from_config(&Value::String(" ".to_owned())).unwrap();
    assert_eq!(trigger.name(), " ");
}

#[test]
fn trigger_config_of_another_shape_is_refused() {
    for cfg in [
        Value::Null,
        Value::Bool(false),
        Value::Number(1.into()),
        Value::Sequence(vec![]),
        Value::Mapping(Mapping::new()),
    ] {
        assert_eq!(WifiTrigger::from_config(&cfg).unwrap_err(), ConfigError::UnknownFormat);
    }
}

#[test]
fn polling_constants() {
    assert_eq!(TRIGGER_NAME, "wifi");
    assert_eq!(FIRST_POLL_DELAY_MS, 0);
    assert_eq!(POLL_INTERVAL_MS, 5000);
}

/// Every text of up to `len` pieces, each taken from `pieces`.
fn outputs(pieces: &[&str], len: usize) -> Vec<String> {
    let mut all = vec![String::new()];
    let mut last = vec![String::new()];
    for _ in 0..len {
        let mut next = Vec::new();
        for text in &last {
            for piece in pieces {
                next.push(format!("{}{}", text, piece));
            }
        }
        all.extend(next.iter().cloned());
        last = next;
    }
    all
}

/// The name by the line iterator of std: the first trimmed line with one of
/// the prefixes, split once at `": "`.
fn name_by_lines(output: &str) -> Result<Option<String>, ProbeError> {
    let mut line_parts = output
        .lines()
        .map(|l| l.trim())
        .filter(|l| l.starts_with("SSID: ") || l.starts_with("AirPort: "))
        .nth(0)
        .ok_or(ProbeError::MissingLine)?
        .splitn(2, ": ");

    match line_parts.next() {
        Some("AirPort") | None => return Ok(None),
        _ => {}
    }

    Ok(line_parts.next().map(Into::into))
}

#[test]
fn name_is_that_of_splitting_lines() {
    let pieces = ["SSID: ", "AirPort: ", "SSID:", "net", " ", "\n", "\r", "\r\n", ": ", "B"];
    for output in outputs(&pieces, 5) {
        assert_eq!(
            WifiStream::get_wifi_name(output.as_bytes()),
            name_by_lines(&output),
            "{:?}",
            output
        );
    }
}

#[test]
fn trigger_of_a_known_text() {
    assert_eq!(WifiTrigger::from_text(Some("HomeNet")).unwrap().name(), "HomeNet");
    assert_eq!(WifiTrigger::from_text(Some("")).unwrap().name(), "");
    assert_eq!(WifiTrigger::from_text(None).unwrap_err(), ConfigError::UnknownFormat);
}
