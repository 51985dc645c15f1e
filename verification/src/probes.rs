//! Probe and composition state machines.
//!
//! A probe is the single-attempt instantiation of one rule.  Waiting itself —
//! timers, sockets, requests, the log stream — happens outside; these types
//! hold what a probe decides: when a timer probe is due, what a dial or
//! request outcome means, which log line makes a pattern probe ready, and
//! how AND- and OR-groups of probes complete.

use vstd::prelude::*;

use crate::duration::Duration;
use crate::lines::LogEvent;
use crate::pattern::{pattern_matches, regex_match, regex_ok};

verus! {

/// A failed attempt is retried no earlier than this long after the attempt
/// began: at most one attempt per second.
pub const RETRY_INTERVAL_MICROS: u64 = 1_000_000;

/// Each readiness request is given this long before it is abandoned.
pub const REQUEST_TIMEOUT_MICROS: u64 = 60_000_000;

/// What a dialing probe does after one attempt.
#[derive(Debug, Clone, Copy, PartialEq, Eq, Structural)]
pub enum ProbeStep {
    /// The probe has signalled readiness and is consumed.
    Ready,
    /// Try again, no earlier than the carried instant (in microseconds).
    RetryAt(u64),
}

/// What a pattern probe does with one log event.
#[derive(Debug, Clone, Copy, PartialEq, Eq, Structural)]
pub enum MatchStep {
    /// The line matched: the probe signals readiness.
    Ready,
    /// No match yet: wait for the next line.
    Pending,
    /// The stream closed without a match: wait forever, leaving the outcome
    /// to sibling probes, the timeout, or process exit.
    Suspend,
    /// The probe lagged behind the fan-out and skipped this many lines:
    /// fatal to the whole run.
    Fatal(u64),
}

// ---------------------------------------------------------------------------
// Timer probe.

/// The probe of an `after` rule: ready once its duration has elapsed.
#[derive(Debug, Clone, Copy)]
pub struct After {
    duration: Duration,
}

impl After {
    pub closed spec fn spec_duration(&self) -> Duration {
        self.duration
    }

    pub fn new(duration: Duration) -> (r: After)
        ensures
            r.spec_duration() == duration,
    {
        After { duration }
    }

    /// The one instant at which the probe signals readiness: its duration
    /// after the attempt's start, and never earlier.
    pub fn deadline(&self, start: u64) -> (r: u64)
        requires
            start + self.spec_duration().spec_micros() <= u64::MAX,
        ensures
            r == start + self.spec_duration().spec_micros(),
            r >= start,
    {
        start + self.duration.get()
    }
}

// ---------------------------------------------------------------------------
// Decimal rendering, for the request target.

/// The decimal digits of `n`, most significant first.
pub open spec fn dec_rep(n: nat) -> Seq<u8>
    decreases n,
{
    if n < 10 {
        seq![(48 + n) as u8]
    } else {
        dec_rep(n / 10) + seq![(48 + n % 10) as u8]
    }
}

/// Appends the decimal digits of `n`.
fn push_dec(n: u16, out: &mut Vec<u8>)
    ensures
        final(out)@ == old(out)@ + dec_rep(n as nat),
    decreases n,
{
    if n < 10 {
        out.push(48 + n as u8);
        proof {
            assert(final(out)@ =~= old(out)@ + dec_rep(n as nat));
        }
    } else {
        let ghost mid = old(out)@ + dec_rep((n / 10) as nat);
        push_dec(n / 10, out);
        out.push(48 + (n % 10) as u8);
        proof {
            assert(final(out)@ =~= old(out)@ + dec_rep(n as nat));
        }
    }
}

/// The bytes of `http://127.0.0.1:`, the fixed head of every request
/// target.  Readiness requests go to the loopback interface over plain
/// HTTP — for the `https` rule as well, an inherited trait of this design.
pub open spec fn url_prefix() -> Seq<u8> {
    seq![104u8, 116, 116, 112, 58, 47, 47, 49, 50, 55, 46, 48, 46, 48, 46, 49, 58]
}

/// The full request target for a port: `http://127.0.0.1:<port>`.
pub open spec fn spec_http_url(port: u16) -> Seq<u8> {
    url_prefix() + dec_rep(port as nat)
}

fn http_url_for(port: u16) -> (r: Vec<u8>)
    ensures
        r@ == spec_http_url(port),
{
    let mut out: Vec<u8> = vec![
        104u8,
        116,
        116,
        112,
        58,
        47,
        47,
        49,
        50,
        55,
        46,
        48,
        46,
        48,
        46,
        49,
        58,
    ];
    proof {
        assert(out@ =~= url_prefix());
    }
    push_dec(port, &mut out);
    out
}

// ---------------------------------------------------------------------------
// Network probes.

/// The probe of an `http` rule: repeatedly sends a request to the loopback
/// port; any response at all means ready, a transport error means one retry
/// per second.
#[derive(Debug, Clone, Copy)]
pub struct Http {
    port: u16,
}

impl Http {
    pub closed spec fn spec_port(&self) -> u16 {
        self.port
    }

    pub fn new(port: u16) -> (r: Http)
        requires
            port != 0,
        ensures
            r.spec_port() == port,
    {
        Http { port }
    }

    /// The port this probe dials.
    pub fn port(&self) -> (r: u16)
        ensures
            r == self.spec_port(),
    {
        self.port
    }

    /// The request target this probe sends its requests to.
    pub fn url(&self) -> (r: Vec<u8>)
        ensures
            r@ == spec_http_url(self.spec_port()),
    {
        http_url_for(self.port)
    }

    /// One request came back or failed: any response — whatever its status —
    /// is readiness, and a transport error waits out the retry interval,
    /// counted from the attempt's start.
    pub fn on_response(&self, attempt_start: u64, responded: bool) -> (r: ProbeStep)
        requires
            attempt_start + RETRY_INTERVAL_MICROS <= u64::MAX,
        ensures
            r == if responded {
                ProbeStep::Ready
            } else {
                ProbeStep::RetryAt((attempt_start + RETRY_INTERVAL_MICROS) as u64)
            },
    {
        if responded {
            ProbeStep::Ready
        } else {
            ProbeStep::RetryAt(attempt_start + RETRY_INTERVAL_MICROS)
        }
    }
}

/// The probe of an `https` rule.  It behaves exactly as the `http` probe —
/// including the plain-HTTP request target — and differs only in its
/// default port.
#[derive(Debug, Clone, Copy)]
pub struct Https {
    port: u16,
}

impl Https {
    pub closed spec fn spec_port(&self) -> u16 {
        self.port
    }

    pub fn new(port: u16) -> (r: Https)
        requires
            port != 0,
        ensures
            r.spec_port() == port,
    {
        Https { port }
    }

    /// The port this probe dials.
    pub fn port(&self) -> (r: u16)
        ensures
            r == self.spec_port(),
    {
        self.port
    }

    /// The request target; plain HTTP here as well.
    pub fn url(&self) -> (r: Vec<u8>)
        ensures
            r@ == spec_http_url(self.spec_port()),
    {
        http_url_for(self.port)
    }

    /// As `Http::on_response`.
    pub fn on_response(&self, attempt_start: u64, responded: bool) -> (r: ProbeStep)
        requires
            attempt_start + RETRY_INTERVAL_MICROS <= u64::MAX,
        ensures
            r == if responded {
                ProbeStep::Ready
            } else {
                ProbeStep::RetryAt((attempt_start + RETRY_INTERVAL_MICROS) as u64)
            },
    {
        if responded {
            ProbeStep::Ready
        } else {
            ProbeStep::RetryAt(attempt_start + RETRY_INTERVAL_MICROS)
        }
    }
}

/// The probe of a `tcp` rule: repeatedly dials the loopback port; the first
/// successful connect means ready and the connection is discarded.
#[derive(Debug, Clone, Copy)]
pub struct Tcp {
    port: u16,
}

impl Tcp {
    pub closed spec fn spec_port(&self) -> u16 {
        self.port
    }

    pub fn new(port: u16) -> (r: Tcp)
        requires
            port != 0,
        ensures
            r.spec_port() == port,
    {
        Tcp { port }
    }

    /// The port this probe dials.
    pub fn port(&self) -> (r: u16)
        ensures
            r == self.spec_port(),
    {
        self.port
    }

    /// One dial finished.  Ready exactly when the connect succeeded; a
    /// failure waits out the retry interval, counted from the attempt's
    /// start, so that failures come at most once per second.
    pub fn on_dial(&self, attempt_start: u64, connected: bool) -> (r: ProbeStep)
        requires
            attempt_start + RETRY_INTERVAL_MICROS <= u64::MAX,
        ensures
            r == if connected {
                ProbeStep::Ready
            } else {
                ProbeStep::RetryAt((attempt_start + RETRY_INTERVAL_MICROS) as u64)
            },
    {
        if connected {
            ProbeStep::Ready
        } else {
            ProbeStep::RetryAt(attempt_start + RETRY_INTERVAL_MICROS)
        }
    }
}

// ---------------------------------------------------------------------------
// Log-pattern probe.

/// The probe of a `matches` rule: subscribed to the log fan-out, ready on
/// the first line its pattern matches.
#[derive(Debug, Clone)]
pub struct Matches {
    pattern: Vec<u8>,
}

impl Matches {
    pub closed spec fn spec_pattern(&self) -> Seq<u8> {
        self.pattern@
    }

    pub fn new(pattern: Vec<u8>) -> (r: Matches)
        ensures
            r.spec_pattern() == pattern@,
    {
        Matches { pattern }
    }

    /// One event from the log stream.  A line makes the probe ready exactly
    /// when the pattern matches it; a closed stream suspends the probe
    /// forever rather than failing it; lag is fatal to the whole run.
    pub fn on_event(&self, event: &LogEvent) -> (r: MatchStep)
        ensures
            match event {
                LogEvent::Line(l) => r == if regex_ok(self.spec_pattern()) && regex_match(
                    self.spec_pattern(),
                    l@,
                ) {
                    MatchStep::Ready
                } else {
                    MatchStep::Pending
                },
                LogEvent::Closed => r == MatchStep::Suspend,
                LogEvent::Lagged(n) => r == MatchStep::Fatal(*n),
            },
    {
        match event {
            LogEvent::Line(l) => {
                match pattern_matches(self.pattern.as_slice(), l.as_slice()) {
                    Some(true) => MatchStep::Ready,
                    _ => MatchStep::Pending,
                }
            },
            LogEvent::Closed => MatchStep::Suspend,
            LogEvent::Lagged(n) => MatchStep::Fatal(*n),
        }
    }
}

// ---------------------------------------------------------------------------
// One probe of any kind, and the AND/OR composition.

/// The probe built from one rule, by kind.
#[derive(Debug, Clone)]
pub enum Rule {
    After(After),
    Http(Http),
    Https(Https),
    Tcp(Tcp),
    Matches(Matches),
}

/// Some event in the sequence names member `j`.
pub open spec fn covered(events: Seq<int>, j: int) -> bool {
    exists|k: int| 0 <= k < events.len() && events[k] == j
}

/// All flags set: an AND-group is complete only then.
pub open spec fn and_complete(done: Seq<bool>) -> bool {
    forall|i: int| 0 <= i < done.len() ==> done[i]
}

/// The flags of an AND-group of `n` members after a sequence of
/// member-ready events has been applied in order.
pub open spec fn and_done_after(n: nat, events: Seq<int>) -> Seq<bool>
    decreases events.len(),
{
    if events.len() == 0 {
        Seq::new(n, |i: int| false)
    } else {
        let prev = and_done_after(n, events.drop_last());
        let e = events.last();
        if 0 <= e < n {
            prev.update(e, true)
        } else {
            prev
        }
    }
}

proof fn lemma_and_done_len(n: nat, events: Seq<int>)
    ensures
        and_done_after(n, events).len() == n,
    decreases events.len(),
{
    if events.len() > 0 {
        lemma_and_done_len(n, events.drop_last());
    }
}

proof fn lemma_and_done_char(n: nat, events: Seq<int>, j: int)
    requires
        0 <= j < n,
    ensures
        and_done_after(n, events)[j] <==> covered(events, j),
    decreases events.len(),
{
    lemma_and_done_len(n, events);
    if events.len() > 0 {
        lemma_and_done_char(n, events.drop_last(), j);
        lemma_and_done_len(n, events.drop_last());
        if events.last() == j {
            assert(events[events.len() - 1] == j);
            assert(covered(events, j));
        } else {
            if and_done_after(n, events)[j] {
                let k = choose|k: int|
                    0 <= k < events.drop_last().len() && events.drop_last()[k] == j;
                assert(events[k] == j);
                assert(covered(events, j));
            }
            if covered(events, j) {
                let k = choose|k: int| 0 <= k < events.len() && events[k] == j;
                assert(events.drop_last()[k] == j);
                assert(covered(events.drop_last(), j));
            }
        }
    }
}

/// An AND-group completes only after every member's event has occurred at
/// least once, in any interleaving — and as soon as all have.
pub proof fn lemma_and_completes_only_after_all(n: nat, events: Seq<int>)
    ensures
        and_complete(and_done_after(n, events)) <==> (forall|j: int|
            0 <= j < n ==> #[trigger] covered(events, j)),
{
    lemma_and_done_len(n, events);
    if and_complete(and_done_after(n, events)) {
        assert forall|j: int| 0 <= j < n implies #[trigger] covered(events, j) by {
            assert(and_done_after(n, events)[j]);
            lemma_and_done_char(n, events, j);
        }
    }
    if forall|j: int| 0 <= j < n ==> #[trigger] covered(events, j) {
        assert forall|i: int| 0 <= i < and_done_after(n, events).len() implies and_done_after(
            n,
            events,
        )[i] by {
            assert(covered(events, i));
            lemma_and_done_char(n, events, i);
        }
    }
}

/// A live AND-group of probes: every member must signal readiness.
pub struct AndRules {
    rules: Vec<Rule>,
    done: Vec<bool>,
}

impl AndRules {
    pub closed spec fn spec_rules(&self) -> Seq<Rule> {
        self.rules@
    }

    pub closed spec fn spec_done(&self) -> Seq<bool> {
        self.done@
    }

    pub open spec fn wf(&self) -> bool {
        self.spec_done().len() == self.spec_rules().len()
    }

    /// A fresh group: every member probe still pending.
    pub fn new(rules: Vec<Rule>) -> (r: AndRules)
        ensures
            r.spec_rules() == rules@,
            r.spec_done() =~= Seq::new(rules@.len(), |i: int| false),
            r.wf(),
    {
        let n = rules.len();
        let mut done: Vec<bool> = Vec::new();
        let mut i: usize = 0;
        while i < n
            invariant
                i <= n,
                done@ =~= Seq::new(i as nat, |k: int| false),
            decreases n - i,
        {
            done.push(false);
            i = i + 1;
        }
        AndRules { rules, done }
    }

    pub fn len(&self) -> (r: usize)
        ensures
            r == self.spec_rules().len(),
    {
        self.rules.len()
    }

    pub fn rule(&self, i: usize) -> (r: &Rule)
        requires
            i < self.spec_rules().len(),
        ensures
            *r == self.spec_rules()[i as int],
    {
        &self.rules[i]
    }

    /// Member `i` signalled readiness.
    pub fn mark_ready(&mut self, i: usize)
        requires
            i < old(self).spec_done().len(),
        ensures
            final(self).spec_done() == old(self).spec_done().update(i as int, true),
            final(self).spec_rules() == old(self).spec_rules(),
    {
        self.done[i] = true;
    }

    /// Whether every member has signalled readiness: only then is the
    /// group complete.
    pub fn is_complete(&self) -> (r: bool)
        ensures
            r == and_complete(self.spec_done()),
    {
        let n = self.done.len();
        let mut i: usize = 0;
        while i < n
            invariant
                i <= n,
                n == self.spec_done().len(),
                forall|k: int| 0 <= k < i ==> self.spec_done()[k],
            decreases n - i,
        {
            if !self.done[i] {
                return false;
            }
            i = i + 1;
        }
        true
    }
}

/// The winner after a sequence of group-ready events: the first event, and
/// later events change nothing.
pub open spec fn or_winner_after(events: Seq<int>) -> Option<int>
    decreases events.len(),
{
    if events.len() == 0 {
        None
    } else if or_winner_after(events.drop_last()) is Some {
        or_winner_after(events.drop_last())
    } else {
        Some(events.last())
    }
}

/// An OR-group completes with the first group that signals readiness; no
/// later event displaces the winner, and everything the losing groups might
/// still do is discarded with them.
pub proof fn lemma_or_first_event_wins(events: Seq<int>)
    ensures
        or_winner_after(events) == if events.len() == 0 {
            Option::<int>::None
        } else {
            Some(events[0])
        },
    decreases events.len(),
{
    if events.len() > 0 {
        lemma_or_first_event_wins(events.drop_last());
        if events.len() > 1 {
            assert(events.drop_last()[0] == events[0]);
        }
    }
}

/// A live OR-group of AND-groups: the first one to complete wins.
pub struct OrRules {
    groups: Vec<AndRules>,
    winner: Option<usize>,
}

impl OrRules {
    pub closed spec fn spec_groups(&self) -> Seq<AndRules> {
        self.groups@
    }

    pub closed spec fn spec_winner(&self) -> Option<usize> {
        self.winner
    }

    /// A fresh race: no group has completed yet.
    pub fn new(groups: Vec<AndRules>) -> (r: OrRules)
        ensures
            r.spec_groups() == groups@,
            r.spec_winner() is None,
    {
        OrRules { groups, winner: None }
    }

    pub fn len(&self) -> (r: usize)
        ensures
            r == self.spec_groups().len(),
    {
        self.groups.len()
    }

    pub fn group(&self, i: usize) -> (r: &AndRules)
        requires
            i < self.spec_groups().len(),
        ensures
            *r == self.spec_groups()[i as int],
    {
        &self.groups[i]
    }

    /// Group `i` completed.  The first completion is kept as the winner;
    /// once a winner stands, nothing a later group does is observable.
    pub fn on_group_ready(&mut self, i: usize)
        requires
            i < old(self).spec_groups().len(),
        ensures
            final(self).spec_winner() == if old(self).spec_winner() is None {
                Some(i)
            } else {
                old(self).spec_winner()
            },
            final(self).spec_groups() == old(self).spec_groups(),
    {
        if self.winner.is_none() {
            self.winner = Some(i);
        }
    }

    /// Whether some group has completed: the whole OR-group is then ready.
    pub fn is_complete(&self) -> (r: bool)
        ensures
            r == (self.spec_winner() is Some),
    {
        self.winner.is_some()
    }

    /// The group whose completion won the race, if any has.
    pub fn winner(&self) -> (r: Option<usize>)
        ensures
            r == self.spec_winner(),
    {
        self.winner
    }
}

} // verus!
