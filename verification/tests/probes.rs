use readygate::duration::Duration;
use readygate::lines::LogEvent;
use readygate::probes::{AndRules, After, Http, Https, MatchStep, Matches, ProbeStep, Tcp};

#[test]
fn after_deadline_is_start_plus_duration() {
    let probe = After::new(Duration::from_micros(2_000_000));
    let start = 1_000;
    let deadline = probe.deadline(start);
    assert_eq!(deadline, 2_001_000);
    assert!(deadline >= start + 2_000_000);
}

#[test]
fn tcp_ready_only_on_successful_connect() {
    let probe = Tcp::new(9999);
    assert_eq!(probe.on_dial(500, false), ProbeStep::RetryAt(500 + 1_000_000));
    assert_eq!(probe.on_dial(1_700_000, false), ProbeStep::RetryAt(2_700_000));
    assert_eq!(probe.on_dial(3_000_000, true), ProbeStep::Ready);
}

#[test]
fn http_any_response_is_ready() {
    let probe = Http::new(8080);
    assert_eq!(probe.on_response(0, true), ProbeStep::Ready);
    assert_eq!(probe.on_response(0, false), ProbeStep::RetryAt(1_000_000));
}

#[test]
fn http_url_names_loopback_and_port() {
    assert_eq!(Http::new(8080).url(), b"http://127.0.0.1:8080".to_vec());
    assert_eq!(Http::new(80).url(), b"http://127.0.0.1:80".to_vec());
}

#[test]
fn https_requests_go_over_plain_http() {
    // The https rule differs from http only in its default port; the
    // request target keeps the plain scheme.
    assert_eq!(Https::new(8443).url(), b"http://127.0.0.1:8443".to_vec());
    assert_eq!(Https::new(8443).on_response(0, true), ProbeStep::Ready);
}

#[test]
fn matches_completes_only_on_the_matching_line() {
    let probe = Matches::new(b"(?m)^ready$".to_vec());
    let lines: [&[u8]; 3] = [b"foo\n", b"bar\n", b"ready\n"];
    let steps: Vec<MatchStep> = lines
        .iter()
        .map(|l| probe.on_event(&LogEvent::Line(l.to_vec())))
        .collect();
    assert_eq!(steps[0], MatchStep::Pending);
    assert_eq!(steps[1], MatchStep::Pending);
    assert_eq!(steps[2], MatchStep::Ready);
}

#[test]
fn matches_unanchored_pattern() {
    let probe = Matches::new(b"ready".to_vec());
    assert_eq!(
        probe.on_event(&LogEvent::Line(b"server ready now\n".to_vec())),
        MatchStep::Ready
    );
    assert_eq!(
        probe.on_event(&LogEvent::Line(b"starting\n".to_vec())),
        MatchStep::Pending
    );
}

#[test]
fn matches_suspends_on_closed_stream() {
    let probe = Matches::new(b"ready".to_vec());
    assert_eq!(probe.on_event(&LogEvent::Closed), MatchStep::Suspend);
}

#[test]
fn matches_lag_is_fatal() {
    let probe = Matches::new(b"ready".to_vec());
    assert_eq!(probe.on_event(&LogEvent::Lagged(7)), MatchStep::Fatal(7));
}

#[test]
fn and_group_completes_only_after_every_member() {
    let or = readygate::parser::parse_or_rules(b"after 1s and tcp port 5 ready and http ready")
        .expect("should parse");
    let group: AndRules = or.group(0).build();
    let mut group = group;
    assert!(!group.is_complete());
    group.mark_ready(2);
    assert!(!group.is_complete());
    group.mark_ready(0);
    assert!(!group.is_complete());
    group.mark_ready(0);
    assert!(!group.is_complete());
    group.mark_ready(1);
    assert!(group.is_complete());
}

#[test]
fn or_first_completion_wins_and_losers_change_nothing() {
    let or = readygate::parser::parse_or_rules(b"after 1s or http ready or tcp port 2 ready")
        .expect("should parse");
    let mut race = or.build();
    assert_eq!(race.len(), 3);
    assert!(!race.is_complete());
    assert_eq!(race.winner(), None);
    race.on_group_ready(1);
    assert!(race.is_complete());
    assert_eq!(race.winner(), Some(1));
    // Later completions are not observable: the winner stands.
    race.on_group_ready(0);
    race.on_group_ready(2);
    assert_eq!(race.winner(), Some(1));
}
