//! Findings: the result of one rule applied to a project, and the report
//! that tallies them.
use vstd::prelude::*;

verus! {

/// How serious a finding is.
#[derive(Clone, Copy, Debug, PartialEq, Eq, Structural)]
pub enum Severity {
    Pass,
    Warning,
    Error,
}

impl Severity {
    /// The label shown in the text report.
    pub fn label(&self) -> (r: &'static str)
        ensures
            r@ == severity_label(*self),
    {
        match self {
            Severity::Pass => "PASS",
            Severity::Warning => "WARN",
            Severity::Error => "FAIL",
        }
    }
}

/// The label that the text report shows for a severity.
pub open spec fn severity_label(s: Severity) -> Seq<char> {
    match s {
        Severity::Pass => "PASS"@,
        Severity::Warning => "WARN"@,
        Severity::Error => "FAIL"@,
    }
}

/// One result of one rule.
#[derive(Debug)]
pub struct Finding {
    pub rule_id: String,
    pub severity: Severity,
    pub message: String,
    pub detail: String,
}

/// The mathematical content of a finding.
pub struct FindingView {
    pub rule_id: Seq<char>,
    pub severity: Severity,
    pub message: Seq<char>,
    pub detail: Seq<char>,
}

impl View for Finding {
    type V = FindingView;

    open spec fn view(&self) -> FindingView {
        FindingView {
            rule_id: self.rule_id@,
            severity: self.severity,
            message: self.message@,
            detail: self.detail@,
        }
    }
}

/// The finding with the given parts.
pub open spec fn fv(
    rule_id: Seq<char>,
    severity: Severity,
    message: Seq<char>,
    detail: Seq<char>,
) -> FindingView {
    FindingView { rule_id, severity, message, detail }
}

/// The views of a sequence of findings.
pub open spec fn views(s: Seq<Finding>) -> Seq<FindingView> {
    s.map_values(|f: Finding| f@)
}

/// Builds a finding from its parts.
pub fn finding(id: &str, sev: Severity, msg: &str, detail: &str) -> (r: Finding)
    ensures
        r@ == fv(id@, sev, msg@, detail@),
{
    Finding { rule_id: id.to_owned(), severity: sev, message: msg.to_owned(), detail: detail.to_owned() }
}

/// Appends `x` to `f`.
pub fn push_finding(f: &mut Vec<Finding>, x: Finding)
    ensures
        views(final(f)@) == views(old(f)@) + seq![x@],
{
    f.push(x);
    assert(views(f@) =~= views(old(f)@) + seq![x@]);
}

/// How many findings of `s` have severity `sev`.
pub open spec fn count_severity(s: Seq<FindingView>, sev: Severity) -> nat
    decreases s.len(),
{
    if s.len() == 0 {
        0
    } else {
        count_severity(s.drop_last(), sev) + (if s.last().severity == sev {
            1nat
        } else {
            0nat
        })
    }
}

/// The tally of a run: the findings in the order the rules produced them,
/// and how many there are of each severity.
pub struct Report {
    pub project: String,
    pub findings: Vec<Finding>,
    pub pass_count: usize,
    pub warn_count: usize,
    pub error_count: usize,
}

/// How many findings of `f` have severity `sev`.
fn tally(f: &Vec<Finding>, sev: Severity) -> (r: usize)
    ensures
        r == count_severity(views(f@), sev),
{
    let mut n: usize = 0;
    let mut i: usize = 0;
    while i < f.len()
        invariant
            i <= f@.len(),
            n == count_severity(views(f@.take(i as int)), sev),
            n <= i,
        decreases f@.len() - i,
    {
        assert(views(f@.take(i + 1)).drop_last() =~= views(f@.take(i as int)));
        if f[i].severity == sev {
            n = n + 1;
        }
        i = i + 1;
    }
    assert(f@.take(f@.len() as int) =~= f@);
    n
}

impl Report {
    /// Tallies `findings` for the project named `project`.
    pub fn new(project: String, findings: Vec<Finding>) -> (r: Report)
        ensures
            r.project@ == project@,
            views(r.findings@) == views(findings@),
            r.pass_count == count_severity(views(findings@), Severity::Pass),
            r.warn_count == count_severity(views(findings@), Severity::Warning),
            r.error_count == count_severity(views(findings@), Severity::Error),
    {
        let pass_count = tally(&findings, Severity::Pass);
        let warn_count = tally(&findings, Severity::Warning);
        let error_count = tally(&findings, Severity::Error);
        Report { project, findings, pass_count, warn_count, error_count }
    }

    /// Whether the run failed: some rule reported an error.
    pub fn has_errors(&self) -> (r: bool)
        ensures
            r == (self.error_count > 0),
    {
        self.error_count > 0
    }
}

/// Whether the text report lists `f`: with `problems_only`, passing
/// findings are hidden.
pub fn is_listed(f: &Finding, problems_only: bool) -> (r: bool)
    ensures
        r == !(problems_only && f.severity == Severity::Pass),
{
    !(problems_only && f.severity == Severity::Pass)
}

/// Whether the text report prints the detail line of `f`: only for a
/// problem with a non-empty detail.
pub fn shows_detail(f: &Finding) -> (r: bool)
    ensures
        r == (f.detail@.len() > 0 && f.severity != Severity::Pass),
{
    !f.detail.as_str().is_empty() && f.severity != Severity::Pass
}

/// Every finding has exactly one severity, so the three counts add up to
/// the number of findings.
pub proof fn lemma_counts_partition(s: Seq<FindingView>)
    ensures
        count_severity(s, Severity::Pass) + count_severity(s, Severity::Warning) + count_severity(
            s,
            Severity::Error,
        ) == s.len(),
    decreases s.len(),
{
    if s.len() > 0 {
        lemma_counts_partition(s.drop_last());
    }
}

/// A severity is counted at least once exactly when some finding has it.
pub proof fn lemma_count_positive(s: Seq<FindingView>, sev: Severity)
    ensures
        count_severity(s, sev) > 0 <==> exists|i: int| 0 <= i < s.len() && s[i].severity == sev,
    decreases s.len(),
{
    if s.len() > 0 {
        lemma_count_positive(s.drop_last(), sev);
        if count_severity(s.drop_last(), sev) > 0 {
            let i = choose|i: int| 0 <= i < s.len() - 1 && s.drop_last()[i].severity == sev;
            assert(s[i].severity == sev);
        }
        assert forall|i: int| 0 <= i < s.len() - 1 && s[i].severity == sev implies count_severity(
            s.drop_last(),
            sev,
        ) > 0 by {
            assert(s.drop_last()[i].severity == sev);
        }
    }
}

} // verus!
