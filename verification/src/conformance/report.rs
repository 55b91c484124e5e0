//! The violation record shared by every suite, and the per-case collector.

use vstd::prelude::*;

use crate::text::{cat3, owned, texts};

verus! {

/// One contract obligation a provider failed. `case` names the suite case
/// (stable, machine-matchable); `detail` explains the observed behavior for a
/// person.
#[derive(Debug, Clone, PartialEq, Eq)]
pub struct Violation {
    /// The suite case this violation was found in.
    pub case: String,
    /// What the provider did instead of honoring the contract.
    pub detail: String,
}

/// What a [`Violation`] says.
pub struct ViolationView {
    pub case: Seq<char>,
    pub detail: Seq<char>,
}

impl View for Violation {
    type V = ViolationView;

    open spec fn view(&self) -> ViolationView {
        ViolationView { case: self.case@, detail: self.detail@ }
    }
}

/// The values of a list of violations.
pub open spec fn violations_view(v: Seq<Violation>) -> Seq<ViolationView> {
    v.map_values(|x: Violation| x@)
}

impl Violation {
    /// Build a violation for `case` with `detail`.
    pub fn new(case: &str, detail: &str) -> (r: Violation)
        ensures
            r@ == (ViolationView { case: case@, detail: detail@ }),
    {
        Violation { case: owned(case), detail: owned(detail) }
    }

    /// The one-line rendering: the case, a colon, the detail.
    pub fn display(&self) -> (r: String)
        ensures
            r@ == self@.case + ": "@ + self@.detail,
    {
        cat3(self.case.as_str(), ": ", self.detail.as_str())
    }
}

/// What one case found: the obligations failed, and the fixtures the provider
/// could not produce. A skip is not a violation.
pub struct Cx {
    pub failures: Vec<String>,
    pub skips: Vec<String>,
}

/// What a [`Cx`] says.
#[verifier::ext_equal]
pub struct CxView {
    pub failures: Seq<Seq<char>>,
    pub skips: Seq<Seq<char>>,
}

impl View for Cx {
    type V = CxView;

    open spec fn view(&self) -> CxView {
        CxView { failures: texts(self.failures@), skips: texts(self.skips@) }
    }
}

/// Nothing found.
pub open spec fn clean() -> CxView {
    CxView { failures: Seq::empty(), skips: Seq::empty() }
}

/// One fixture the provider could not produce, and nothing failed.
pub open spec fn skipped(why: Seq<char>) -> CxView {
    CxView { failures: Seq::empty(), skips: seq![why] }
}

/// Exactly these obligations failed.
pub open spec fn failed(failures: Seq<Seq<char>>) -> CxView {
    CxView { failures, skips: Seq::empty() }
}

/// A list of at most one finding.
pub open spec fn finding(found: bool, detail: Seq<char>) -> Seq<Seq<char>> {
    if found {
        seq![detail]
    } else {
        Seq::empty()
    }
}

impl CxView {
    /// The same outcome with more failures.
    pub open spec fn and_failed(self, more: Seq<Seq<char>>) -> CxView {
        CxView { failures: self.failures + more, skips: self.skips }
    }

    /// The same outcome with one more skip.
    pub open spec fn and_skipped(self, why: Seq<char>) -> CxView {
        CxView { failures: self.failures, skips: self.skips.push(why) }
    }

    /// The violations of the case: every failure, under the case's name.
    pub open spec fn violations(self, case: Seq<char>) -> Seq<ViolationView> {
        self.failures.map_values(|detail: Seq<char>| ViolationView { case, detail })
    }
}

impl Cx {
    /// Nothing found yet.
    pub fn new() -> (r: Cx)
        ensures
            r@ == clean(),
    {
        let r = Cx { failures: Vec::new(), skips: Vec::new() };
        assert(r@ =~= clean());
        r
    }

    /// An obligation failed.
    pub fn fail(&mut self, detail: String)
        ensures
            final(self)@ == old(self)@.and_failed(seq![detail@]),
    {
        self.failures.push(detail);
        assert(self@ =~= old(self)@.and_failed(seq![detail@]));
    }

    /// An obligation failed.
    pub fn fail_str(&mut self, detail: &str)
        ensures
            final(self)@ == old(self)@.and_failed(seq![detail@]),
    {
        self.fail(owned(detail));
    }

    /// The provider cannot produce this fixture; the assertions that depend on
    /// it are owed nothing.
    pub fn skip(&mut self, why: String)
        ensures
            final(self)@ == old(self)@.and_skipped(why@),
    {
        self.skips.push(why);
        assert(self@ =~= old(self)@.and_skipped(why@));
    }

    /// The violations of the case, under the case's name.
    pub fn into_violations(self, case: &str) -> (r: Vec<Violation>)
        ensures
            violations_view(r@) == self@.violations(case@),
    {
        let mut out: Vec<Violation> = Vec::new();
        for i in 0..self.failures.len()
            invariant
                out@.len() == i,
                forall|k: int|
                    0 <= k < i ==> (#[trigger] out@[k])@ == (ViolationView {
                        case: case@,
                        detail: self.failures@[k]@,
                    }),
        {
            out.push(Violation::new(case, self.failures[i].as_str()));
        }
        assert(violations_view(out@) =~= self@.violations(case@));
        out
    }
}

/// Every violation a case reports carries the case's own name, one per failed
/// obligation; a skip is never one.
pub proof fn law_violations_are_attributed(cx: CxView, case: Seq<char>)
    ensures
        cx.violations(case).len() == cx.failures.len(),
        forall|i: int|
            0 <= i < cx.violations(case).len() ==> (#[trigger] cx.violations(case)[i]).case == case,
        cx.failures.len() == 0 ==> cx.violations(case).len() == 0,
{
}

} // verus!
