//! Rule descriptors: the parsed, immutable form of a readiness expression.
//!
//! A `Rule` names one atomic readiness condition; an `AndRules` is a
//! non-empty group that must all become ready; an `OrRules` is a non-empty
//! choice of such groups, any one of which suffices.  Descriptors are cheap
//! to copy and are turned into fresh probes (`build`) for every supervised
//! attempt.

use vstd::prelude::*;

use crate::duration::Duration;
use crate::pattern::{pattern_compiles, regex_ok};
use crate::probes;

verus! {

/// The port used by an `http` rule that names none.
pub const DEFAULT_HTTP_PORT: u16 = 80;

/// The port used by an `https` rule that names none.
pub const DEFAULT_HTTPS_PORT: u16 = 443;

/// The model of one rule, as the contracts speak of it.
pub enum RuleModel {
    After { micros: u64 },
    Tcp { port: u16 },
    Http { port: Option<u16> },
    Https { port: Option<u16> },
    Matches { pattern: Seq<u8> },
}

/// An explicit port, or the scheme's default.
pub open spec fn port_or(port: Option<u16>, dflt: u16) -> u16 {
    match port {
        Some(p) => p,
        None => dflt,
    }
}

/// Wait this long after the attempt starts.
#[derive(Debug, Clone, Copy)]
pub struct After {
    duration: Duration,
}

impl After {
    pub closed spec fn spec_duration(&self) -> Duration {
        self.duration
    }

    pub fn new(duration: Duration) -> (r: After)
        ensures
            r.spec_duration() == duration,
    {
        After { duration }
    }

    /// The configured delay.
    pub fn duration(&self) -> (r: Duration)
        ensures
            r == self.spec_duration(),
    {
        self.duration
    }

    pub fn build(&self) -> (r: probes::After)
        ensures
            r.spec_duration() == self.spec_duration(),
    {
        probes::After::new(self.duration)
    }
}

/// Wait until a plain request to the loopback port draws any response.
#[derive(Debug, Clone, Copy)]
pub struct Http {
    port: Option<u16>,
}

impl Http {
    pub closed spec fn spec_port(&self) -> Option<u16> {
        self.port
    }

    /// A named port is never zero.
    pub open spec fn wf(&self) -> bool {
        self.spec_port() != Some(0u16)
    }

    pub fn new(port: Option<u16>) -> (r: Http)
        requires
            port != Some(0u16),
        ensures
            r.spec_port() == port,
            r.wf(),
    {
        Http { port }
    }

    /// The named port, if any.
    pub fn port(&self) -> (r: Option<u16>)
        ensures
            r == self.spec_port(),
    {
        self.port
    }

    pub fn build(&self) -> (r: probes::Http)
        requires
            self.wf(),
        ensures
            r.spec_port() == port_or(self.spec_port(), DEFAULT_HTTP_PORT),
    {
        match self.port {
            Some(p) => probes::Http::new(p),
            None => probes::Http::new(DEFAULT_HTTP_PORT),
        }
    }
}

/// As `Http`, with the `https` default port; the request itself is plain
/// HTTP here as well.
#[derive(Debug, Clone, Copy)]
pub struct Https {
    port: Option<u16>,
}

impl Https {
    pub closed spec fn spec_port(&self) -> Option<u16> {
        self.port
    }

    /// A named port is never zero.
    pub open spec fn wf(&self) -> bool {
        self.spec_port() != Some(0u16)
    }

    pub fn new(port: Option<u16>) -> (r: Https)
        requires
            port != Some(0u16),
        ensures
            r.spec_port() == port,
            r.wf(),
    {
        Https { port }
    }

    /// The named port, if any.
    pub fn port(&self) -> (r: Option<u16>)
        ensures
            r == self.spec_port(),
    {
        self.port
    }

    pub fn build(&self) -> (r: probes::Https)
        requires
            self.wf(),
        ensures
            r.spec_port() == port_or(self.spec_port(), DEFAULT_HTTPS_PORT),
    {
        match self.port {
            Some(p) => probes::Https::new(p),
            None => probes::Https::new(DEFAULT_HTTPS_PORT),
        }
    }
}

/// Wait until a connect to the loopback port succeeds.
#[derive(Debug, Clone, Copy)]
pub struct Tcp {
    port: u16,
}

impl Tcp {
    pub closed spec fn spec_port(&self) -> u16 {
        self.port
    }

    /// The port is never zero.
    pub open spec fn wf(&self) -> bool {
        self.spec_port() != 0
    }

    pub fn new(port: u16) -> (r: Tcp)
        requires
            port != 0,
        ensures
            r.spec_port() == port,
            r.wf(),
    {
        Tcp { port }
    }

    /// The configured port.
    pub fn port(&self) -> (r: u16)
        ensures
            r == self.spec_port(),
    {
        self.port
    }

    pub fn build(&self) -> (r: probes::Tcp)
        requires
            self.wf(),
        ensures
            r.spec_port() == self.spec_port(),
    {
        probes::Tcp::new(self.port)
    }
}

/// Wait until a log line matches the pattern.
#[derive(Debug, Clone)]
pub struct Matches {
    pattern: Vec<u8>,
}

impl Matches {
    pub closed spec fn spec_pattern(&self) -> Seq<u8> {
        self.pattern@
    }

    /// The pattern compiles as a regular expression.
    pub open spec fn wf(&self) -> bool {
        regex_ok(self.spec_pattern())
    }

    /// Accepts the pattern exactly when it compiles; a rule with a pattern
    /// that does not is never built.
    pub fn new(pattern: Vec<u8>) -> (r: Option<Matches>)
        ensures
            r is Some <==> regex_ok(pattern@),
            r matches Some(m) ==> m.spec_pattern() == pattern@ && m.wf(),
    {
        if pattern_compiles(pattern.as_slice()) {
            Some(Matches { pattern })
        } else {
            None
        }
    }

    /// The pattern's source text.
    pub fn pattern(&self) -> (r: Vec<u8>)
        ensures
            r@ == self.spec_pattern(),
    {
        vstd::slice::slice_to_vec(self.pattern.as_slice())
    }

    pub fn build(&self) -> (r: probes::Matches)
        ensures
            r.spec_pattern() == self.spec_pattern(),
    {
        probes::Matches::new(vstd::slice::slice_to_vec(self.pattern.as_slice()))
    }
}

/// One readiness rule of any kind.
#[derive(Debug, Clone)]
pub enum Rule {
    After(After),
    Tcp(Tcp),
    Http(Http),
    Https(Https),
    Matches(Matches),
}

impl View for Rule {
    type V = RuleModel;

    open spec fn view(&self) -> RuleModel {
        match self {
            Rule::After(a) => RuleModel::After { micros: a.spec_duration().spec_micros() },
            Rule::Tcp(t) => RuleModel::Tcp { port: t.spec_port() },
            Rule::Http(h) => RuleModel::Http { port: h.spec_port() },
            Rule::Https(h) => RuleModel::Https { port: h.spec_port() },
            Rule::Matches(m) => RuleModel::Matches { pattern: m.spec_pattern() },
        }
    }
}

/// The probe `p` is the faithful instantiation of the rule model `d`:
/// same kind, same magnitude, the scheme's default filled in for an
/// unnamed port, and the same pattern bytes.
pub open spec fn built_matches(d: RuleModel, p: probes::Rule) -> bool {
    match d {
        RuleModel::After { micros } => p matches probes::Rule::After(a) && a.spec_duration().spec_micros() == micros,
        RuleModel::Tcp { port } => p matches probes::Rule::Tcp(t) && t.spec_port() == port,
        RuleModel::Http { port } => p matches probes::Rule::Http(h) && h.spec_port() == port_or(
            port,
            DEFAULT_HTTP_PORT,
        ),
        RuleModel::Https { port } => p matches probes::Rule::Https(h) && h.spec_port() == port_or(
            port,
            DEFAULT_HTTPS_PORT,
        ),
        RuleModel::Matches { pattern } => p matches probes::Rule::Matches(m) && m.spec_pattern()
            == pattern,
    }
}

impl Rule {
    /// The rule's ports, where it has any, are never zero, and its pattern,
    /// where it has one, compiles.
    pub open spec fn wf(&self) -> bool {
        match self {
            Rule::After(_) => true,
            Rule::Tcp(t) => t.wf(),
            Rule::Http(h) => h.wf(),
            Rule::Https(h) => h.wf(),
            Rule::Matches(m) => m.wf(),
        }
    }

    /// Instantiates the probe of this rule for one supervised attempt.
    pub fn build(&self) -> (r: probes::Rule)
        requires
            self.wf(),
        ensures
            built_matches(self@, r),
    {
        match self {
            Rule::After(a) => probes::Rule::After(a.build()),
            Rule::Tcp(t) => probes::Rule::Tcp(t.build()),
            Rule::Http(h) => probes::Rule::Http(h.build()),
            Rule::Https(h) => probes::Rule::Https(h.build()),
            Rule::Matches(m) => probes::Rule::Matches(m.build()),
        }
    }
}

/// A non-empty ordered group of rules that must all become ready.
#[derive(Debug, Clone)]
pub struct AndRules {
    rules: Vec<Rule>,
}

impl View for AndRules {
    type V = Seq<RuleModel>;

    open spec fn view(&self) -> Seq<RuleModel> {
        self.spec_rules().map_values(|r: Rule| r@)
    }
}

/// The probe group `p` freshly instantiates the rule models `d`: one probe
/// per rule, in order, with every completion flag still clear.
pub open spec fn built_group_matches(d: Seq<RuleModel>, p: probes::AndRules) -> bool {
    &&& p.wf()
    &&& p.spec_rules().len() == d.len()
    &&& forall|j: int| 0 <= j < d.len() ==> built_matches(d[j], #[trigger] p.spec_rules()[j])
    &&& forall|j: int| 0 <= j < p.spec_done().len() ==> !(#[trigger] p.spec_done()[j])
}

impl AndRules {
    pub closed spec fn spec_rules(&self) -> Seq<Rule> {
        self.rules@
    }

    /// Every member is well formed, and there is at least one.
    pub open spec fn wf(&self) -> bool {
        &&& self.spec_rules().len() >= 1
        &&& forall|i: int| 0 <= i < self.spec_rules().len() ==> (#[trigger] self.spec_rules()[i]).wf()
    }

    pub fn new(rules: Vec<Rule>) -> (r: AndRules)
        requires
            rules@.len() >= 1,
        ensures
            r.spec_rules() == rules@,
    {
        AndRules { rules }
    }

    pub fn len(&self) -> (r: usize)
        ensures
            r == self.spec_rules().len(),
    {
        self.rules.len()
    }

    pub fn rule(&self, i: usize) -> (r: &Rule)
        requires
            i < self.spec_rules().len(),
        ensures
            *r == self.spec_rules()[i as int],
    {
        &self.rules[i]
    }

    /// Instantiates a fresh probe group for one supervised attempt.
    pub fn build(&self) -> (r: probes::AndRules)
        requires
            self.wf(),
        ensures
            built_group_matches(self@, r),
    {
        let n = self.rules.len();
        let mut built: Vec<probes::Rule> = Vec::new();
        let mut i: usize = 0;
        while i < n
            invariant
                i <= n,
                n == self.spec_rules().len(),
                self.wf(),
                built@.len() == i,
                forall|j: int| 0 <= j < i ==> built_matches(
                    self@[j],
                    #[trigger] built@[j],
                ),
            decreases n - i,
        {
            built.push(self.rules[i].build());
            i = i + 1;
        }
        probes::AndRules::new(built)
    }
}

/// A non-empty ordered choice of groups: any one becoming ready suffices.
#[derive(Debug, Clone)]
pub struct OrRules {
    rules: Vec<AndRules>,
}

impl View for OrRules {
    type V = Seq<Seq<RuleModel>>;

    open spec fn view(&self) -> Seq<Seq<RuleModel>> {
        self.spec_groups().map_values(|g: AndRules| g@)
    }
}

impl OrRules {
    pub closed spec fn spec_groups(&self) -> Seq<AndRules> {
        self.rules@
    }

    /// Every group is well formed, and there is at least one.
    pub open spec fn wf(&self) -> bool {
        &&& self.spec_groups().len() >= 1
        &&& forall|i: int|
            0 <= i < self.spec_groups().len() ==> (#[trigger] self.spec_groups()[i]).wf()
    }

    pub fn new(rules: Vec<AndRules>) -> (r: OrRules)
        requires
            rules@.len() >= 1,
        ensures
            r.spec_groups() == rules@,
    {
        OrRules { rules }
    }

    pub fn len(&self) -> (r: usize)
        ensures
            r == self.spec_groups().len(),
    {
        self.rules.len()
    }

    pub fn group(&self, i: usize) -> (r: &AndRules)
        requires
            i < self.spec_groups().len(),
        ensures
            *r == self.spec_groups()[i as int],
    {
        &self.rules[i]
    }

    /// Instantiates a fresh race of probe groups for one supervised
    /// attempt, with no winner yet.
    pub fn build(&self) -> (r: probes::OrRules)
        requires
            self.wf(),
        ensures
            r.spec_winner() is None,
            r.spec_groups().len() == self@.len(),
            forall|i: int| 0 <= i < self@.len() ==> built_group_matches(
                self@[i],
                #[trigger] r.spec_groups()[i],
            ),
    {
        let n = self.rules.len();
        let mut built: Vec<probes::AndRules> = Vec::new();
        let mut i: usize = 0;
        while i < n
            invariant
                i <= n,
                n == self.spec_groups().len(),
                self.wf(),
                built@.len() == i,
                forall|j: int| 0 <= j < i ==> built_group_matches(
                    self@[j],
                    #[trigger] built@[j],
                ),
            decreases n - i,
        {
            built.push(self.rules[i].build());
            i = i + 1;
        }
        probes::OrRules::new(built)
    }
}

} // verus!
