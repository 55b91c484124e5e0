//! The authorization registry: one attempt per reference at a time.
//!
//! The first caller for a reference runs the flow; callers that come while it
//! runs join it and adopt its outcome. When the flow finishes, fails or is
//! cancelled, the reference frees and a later attempt may run. The registry owns
//! the lifecycle, never the protocol: it does not look at how a secret was
//! obtained.

use vstd::prelude::*;

use crate::assoc::Assoc;
use crate::credentials::record::{kind_spelling, spelling};
use crate::seam::credentials::{CredentialKind, CredentialRef};
use crate::seam::error::{failure, ErrorCode, SeamError, SeamErrorView};
use crate::text::cat;

verus! {

/// Whether a caller ran the flow or joined one that was running.
#[derive(Debug, Clone, Copy, PartialEq, Eq, Structural)]
pub enum AuthorizeState {
    /// This call started and completed the flow; the record is written.
    Authorized,
    /// A flow was already running for this reference; this call awaited it and
    /// adopted its success.
    Joined,
}

/// What a flow came to: the secret, or the failure.
pub type Outcome = Result<Seq<char>, SeamErrorView>;

/// What a flow came to, as a specification sees it.
pub open spec fn seen(r: Result<String, SeamError>) -> Outcome {
    match r {
        Ok(s) => Ok(s@),
        Err(e) => Err(e@),
    }
}

/// What a caller of `authorize` gets.
pub open spec fn adopted(o: Outcome, state: AuthorizeState) -> Result<
    (Seq<char>, AuthorizeState),
    SeamErrorView,
> {
    match o {
        Ok(secret) => Ok((secret, state)),
        Err(e) => Err(e),
    }
}

/// What a caller of `authorize` gets, as a specification sees it.
pub open spec fn granted(r: Result<(String, AuthorizeState), SeamError>) -> Result<
    (Seq<char>, AuthorizeState),
    SeamErrorView,
> {
    match r {
        Ok((secret, state)) => Ok((secret@, state)),
        Err(e) => Err(e@),
    }
}

/// What a caller is to do.
pub enum Claim {
    /// No flow is registered for the kind.
    Refused(SeamError),
    /// Run the flow under this ticket.
    Run(u64),
    /// Await the flow of this ticket.
    Join(u64),
}

/// What a [`Claim`] says.
pub enum ClaimView {
    Refused(SeamErrorView),
    Run(u64),
    Join(u64),
}

impl View for Claim {
    type V = ClaimView;

    open spec fn view(&self) -> ClaimView {
        match self {
            Claim::Refused(e) => ClaimView::Refused(e@),
            Claim::Run(t) => ClaimView::Run(*t),
            Claim::Join(t) => ClaimView::Join(*t),
        }
    }
}

/// One attempt: how many callers await it, and what it came to.
pub struct Attempt {
    waiting: u64,
    outcome: Option<Result<String, SeamError>>,
}

/// What an [`Attempt`] says.
#[verifier::ext_equal]
pub struct AttemptView {
    pub waiting: nat,
    pub outcome: Option<Outcome>,
}

impl View for Attempt {
    type V = AttemptView;

    closed spec fn view(&self) -> AttemptView {
        AttemptView {
            waiting: self.waiting as nat,
            outcome: match self.outcome {
                Some(r) => Some(seen(r)),
                None => None,
            },
        }
    }
}

/// The registry: the kinds with a flow, the running attempts by reference, the
/// attempts by ticket, and the next ticket.
#[verifier::ext_equal]
pub struct RegistryView {
    pub flows: Set<CredentialKind>,
    pub running: Map<Seq<char>, u64>,
    pub attempts: Map<u64, AttemptView>,
    pub next: nat,
}

impl RegistryView {
    /// A running reference has an attempt of its own that has not come to
    /// anything yet; an attempt that has is awaited by someone; tickets are
    /// never reused.
    pub open spec fn valid(self) -> bool {
        &&& forall|k: Seq<char>| #[trigger]
            self.running.contains_key(k) ==> self.attempts.contains_key(self.running[k])
                && self.attempts[self.running[k]].outcome is None
        &&& forall|a: Seq<char>, b: Seq<char>|
            self.running.contains_key(a) && self.running.contains_key(b) && #[trigger] self.running[a]
                == #[trigger] self.running[b] ==> a == b
        &&& forall|t: u64| #[trigger]
            self.attempts.contains_key(t) ==> t < self.next && (self.attempts[t].outcome is Some
                ==> self.attempts[t].waiting > 0)
    }

    /// Whether another attempt and another waiter can be counted.
    pub open spec fn room(self) -> bool {
        &&& self.next < u64::MAX
        &&& forall|t: u64| #[trigger]
            self.attempts.contains_key(t) ==> self.attempts[t].waiting < u64::MAX
    }

    /// What a caller is to do, and the registry once it knows.
    pub open spec fn begun(self, reference: Seq<char>, kind: CredentialKind) -> (
        RegistryView,
        ClaimView,
    ) {
        if !self.flows.contains(kind) {
            (
                self,
                ClaimView::Refused(
                    failure(
                        ErrorCode::ToolDenied,
                        "no authorization flow registered for kind "@ + spelling(kind),
                    ),
                ),
            )
        } else if self.running.contains_key(reference) {
            let t = self.running[reference];
            let attempt = self.attempts[t];
            (
                RegistryView {
                    attempts: self.attempts.insert(
                        t,
                        AttemptView { waiting: attempt.waiting + 1, outcome: attempt.outcome },
                    ),
                    ..self
                },
                ClaimView::Join(t),
            )
        } else {
            let t = self.next as u64;
            (
                RegistryView {
                    running: self.running.insert(reference, t),
                    attempts: self.attempts.insert(
                        t,
                        AttemptView { waiting: 0, outcome: None },
                    ),
                    next: self.next + 1,
                    ..self
                },
                ClaimView::Run(t),
            )
        }
    }

    /// The registry once the attempt of a reference has come to `outcome`: the
    /// reference is free, and the outcome waits for those who joined.
    pub open spec fn finished(self, reference: Seq<char>, ticket: u64, outcome: Outcome) -> RegistryView {
        if self.running.contains_key(reference) && self.running[reference] == ticket {
            let attempt = self.attempts[ticket];
            RegistryView {
                running: self.running.remove(reference),
                attempts: if attempt.waiting == 0 {
                    self.attempts.remove(ticket)
                } else {
                    self.attempts.insert(
                        ticket,
                        AttemptView { waiting: attempt.waiting, outcome: Some(outcome) },
                    )
                },
                ..self
            }
        } else {
            self
        }
    }

    /// The registry once one who awaited an attempt no longer does.
    pub open spec fn left(self, ticket: u64) -> RegistryView {
        if self.attempts.contains_key(ticket) && self.attempts[ticket].waiting > 0 {
            let attempt = self.attempts[ticket];
            RegistryView {
                attempts: if attempt.waiting == 1 && attempt.outcome is Some {
                    self.attempts.remove(ticket)
                } else {
                    self.attempts.insert(
                        ticket,
                        AttemptView {
                            waiting: (attempt.waiting - 1) as nat,
                            outcome: attempt.outcome,
                        },
                    )
                },
                ..self
            }
        } else {
            self
        }
    }

    /// What one who awaits an attempt gets now, if it has come to anything.
    pub open spec fn answer(self, ticket: u64) -> Option<Outcome> {
        if self.attempts.contains_key(ticket) {
            self.attempts[ticket].outcome
        } else {
            None
        }
    }
}

/// The failure joiners adopt when the caller that ran the flow is cancelled.
pub open spec fn cancellation() -> SeamErrorView {
    failure(ErrorCode::IoError, "authorization flow task failed: cancelled"@)
}

/// The authorization registry.
pub struct FlowRegistry {
    bearer: bool,
    oauth2: bool,
    api_key: bool,
    running: Assoc<String, u64>,
    attempts: Assoc<u64, Attempt>,
    next: u64,
}

impl View for FlowRegistry {
    type V = RegistryView;

    closed spec fn view(&self) -> RegistryView {
        RegistryView {
            flows: Set::new(
                |k: CredentialKind|
                    match k {
                        CredentialKind::Bearer => self.bearer,
                        CredentialKind::OAuth2 => self.oauth2,
                        CredentialKind::ApiKey => self.api_key,
                    },
            ),
            running: self.running@,
            attempts: self.attempts@.map_values(|a: Attempt| a@),
            next: self.next as nat,
        }
    }
}

fn copy_outcome(r: &Result<String, SeamError>) -> (c: Result<String, SeamError>)
    ensures
        seen(c) == seen(*r),
{
    match r {
        Ok(s) => Ok(s.clone()),
        Err(e) => Err(SeamError { code: e.code, message: e.message.clone() }),
    }
}

fn adopt(r: Result<String, SeamError>, state: AuthorizeState) -> (c: Result<
    (String, AuthorizeState),
    SeamError,
>)
    ensures
        granted(c) == adopted(seen(r), state),
{
    match r {
        Ok(s) => Ok((s, state)),
        Err(e) => Err(e),
    }
}

/// What a run comes to: the secret, once the flow gave one and it was stored.
pub fn settle(flow: Result<String, SeamError>, stored: Option<Result<(), SeamError>>) -> (r: Result<
    String,
    SeamError,
>)
    ensures
        match (flow, stored) {
            (Err(e), _) => seen(r) == Err::<Seq<char>, SeamErrorView>(e@),
            (Ok(_), Some(Err(e))) => seen(r) == Err::<Seq<char>, SeamErrorView>(e@),
            (Ok(s), _) => seen(r) == Ok::<Seq<char>, SeamErrorView>(s@),
        },
{
    match flow {
        Err(e) => Err(e),
        Ok(secret) => match stored {
            Some(Err(e)) => Err(e),
            _ => Ok(secret),
        },
    }
}

impl FlowRegistry {
    /// A registry with no flows and nothing running.
    pub fn new() -> (r: FlowRegistry)
        ensures
            r@.valid(),
            r@ == (RegistryView {
                flows: Set::empty(),
                running: Map::empty(),
                attempts: Map::empty(),
                next: 0,
            }),
    {
        let r = FlowRegistry {
            bearer: false,
            oauth2: false,
            api_key: false,
            running: Assoc::new(),
            attempts: Assoc::new(),
            next: 0,
        };
        assert(r@.flows =~= Set::empty());
        assert(r@.attempts =~= Map::empty());
        r
    }

    /// Note that a flow is registered for `kind`.
    pub fn register_flow(&mut self, kind: CredentialKind)
        ensures
            final(self)@ == (RegistryView { flows: old(self)@.flows.insert(kind), ..old(self)@ }),
    {
        match kind {
            CredentialKind::Bearer => {
                self.bearer = true;
            },
            CredentialKind::OAuth2 => {
                self.oauth2 = true;
            },
            CredentialKind::ApiKey => {
                self.api_key = true;
            },
        }
        assert(self@.flows =~= old(self)@.flows.insert(kind));
    }

    fn has_flow(&self, kind: CredentialKind) -> (r: bool)
        ensures
            r == self@.flows.contains(kind),
    {
        match kind {
            CredentialKind::Bearer => self.bearer,
            CredentialKind::OAuth2 => self.oauth2,
            CredentialKind::ApiKey => self.api_key,
        }
    }

    /// Run or join the authorization of `reference`. While one is running, a
    /// second call never starts another.
    pub fn begin(&mut self, reference: &CredentialRef, kind: CredentialKind) -> (r: Claim)
        requires
            old(self)@.valid(),
            old(self)@.room(),
        ensures
            final(self)@.valid(),
            (final(self)@, r@) == old(self)@.begun(reference@, kind),
    {
        if !self.has_flow(kind) {
            return Claim::Refused(
                SeamError::with(
                    ErrorCode::ToolDenied,
                    cat("no authorization flow registered for kind ", kind_spelling(kind)),
                ),
            );
        }
        let ghost before = self@;
        let found: Option<u64> = match self.running.get(&reference.0) {
            Some(t) => Some(*t),
            None => None,
        };
        match found {
            Some(t) => {
                assert(before.attempts.contains_key(t));
                let next = match self.attempts.get(&t) {
                    Some(a) => Attempt {
                        waiting: a.waiting + 1,
                        outcome: match &a.outcome {
                            Some(o) => Some(copy_outcome(o)),
                            None => None,
                        },
                    },
                    None => Attempt { waiting: 1, outcome: None },
                };
                self.attempts.insert(t, next);
                proof {
                    let out = before.begun(reference@, kind).0;
                    assert(self@.attempts =~= out.attempts);
                    assert(self@ =~= out);
                }
                Claim::Join(t)
            },
            None => {
                let t: u64 = self.next;
                self.next = t + 1;
                self.running.insert(reference.0.clone(), t);
                self.attempts.insert(t, Attempt { waiting: 0, outcome: None });
                proof {
                    let out = before.begun(reference@, kind).0;
                    assert(self@.attempts =~= out.attempts);
                    assert(self@ =~= out);
                    lemma_begun_valid(before, reference@, kind);
                }
                Claim::Run(t)
            },
        }
    }

    /// The attempt of `ticket` came to `outcome`: free the reference and leave
    /// the outcome to those who joined. What the caller that ran it gets comes
    /// back.
    pub fn finish(
        &mut self,
        reference: &CredentialRef,
        ticket: u64,
        outcome: Result<String, SeamError>,
    ) -> (r: Result<(String, AuthorizeState), SeamError>)
        requires
            old(self)@.valid(),
        ensures
            final(self)@.valid(),
            final(self)@ == old(self)@.finished(reference@, ticket, seen(outcome)),
            granted(r) == adopted(seen(outcome), AuthorizeState::Authorized),
    {
        let ghost before = self@;
        let ghost o = seen(outcome);
        proof {
            lemma_finished_valid(before, reference@, ticket, o);
        }
        let mine = match self.running.get(&reference.0) {
            Some(t) => *t == ticket,
            None => false,
        };
        if mine {
            assert(before.attempts.contains_key(ticket));
            let waiting: u64 = match self.attempts.get(&ticket) {
                Some(a) => a.waiting,
                None => 0,
            };
            let _ = self.running.remove(&reference.0);
            if waiting == 0 {
                let _ = self.attempts.remove(&ticket);
            } else {
                self.attempts.insert(
                    ticket,
                    Attempt { waiting, outcome: Some(copy_outcome(&outcome)) },
                );
            }
            proof {
                let out = before.finished(reference@, ticket, o);
                assert(self@.attempts =~= out.attempts);
                assert(self@ =~= out);
            }
        }
        adopt(outcome, AuthorizeState::Authorized)
    }

    /// The caller that ran the attempt of `ticket` was cancelled: free the
    /// reference and let those who joined fail.
    pub fn cancel(&mut self, reference: &CredentialRef, ticket: u64)
        requires
            old(self)@.valid(),
        ensures
            final(self)@.valid(),
            final(self)@ == old(self)@.finished(reference@, ticket, Err(cancellation())),
    {
        let _ = self.finish(
            reference,
            ticket,
            Err(SeamError::new(ErrorCode::IoError, "authorization flow task failed: cancelled")),
        );
    }

    /// What one who joined the attempt of `ticket` gets, once it has come to
    /// anything; `None` while it runs.
    pub fn collect(&mut self, ticket: u64) -> (r: Option<
        Result<(String, AuthorizeState), SeamError>,
    >)
        requires
            old(self)@.valid(),
        ensures
            final(self)@.valid(),
            match old(self)@.answer(ticket) {
                Some(o) => r matches Some(g) && granted(g) == adopted(o, AuthorizeState::Joined)
                    && final(self)@ == old(self)@.left(ticket),
                None => r is None && final(self)@ == old(self)@,
            },
    {
        let outcome = match self.attempts.get(&ticket) {
            Some(a) => match &a.outcome {
                Some(o) => copy_outcome(o),
                None => {
                    return None;
                },
            },
            None => {
                return None;
            },
        };
        self.abandon(ticket);
        Some(adopt(outcome, AuthorizeState::Joined))
    }

    /// One who joined the attempt of `ticket` no longer awaits it.
    pub fn abandon(&mut self, ticket: u64)
        requires
            old(self)@.valid(),
        ensures
            final(self)@.valid(),
            final(self)@ == old(self)@.left(ticket),
    {
        let ghost before = self@;
        proof {
            lemma_left_valid(before, ticket);
        }
        let next = match self.attempts.get(&ticket) {
            Some(a) => {
                if a.waiting == 0 {
                    return;
                }
                Attempt {
                    waiting: a.waiting - 1,
                    outcome: match &a.outcome {
                        Some(o) => Some(copy_outcome(o)),
                        None => None,
                    },
                }
            },
            None => {
                return;
            },
        };
        if next.waiting == 0 && next.outcome.is_some() {
            let _ = self.attempts.remove(&ticket);
        } else {
            self.attempts.insert(ticket, next);
        }
        proof {
            let out = before.left(ticket);
            assert(self@.attempts =~= out.attempts);
            assert(self@ =~= out);
        }
    }

    /// Whether an authorization of `reference` is running.
    pub fn authorize_in_flight(&self, reference: &CredentialRef) -> (r: bool)
        ensures
            r == self@.running.contains_key(reference@),
    {
        self.running.contains(&reference.0)
    }
}

proof fn lemma_begun_valid(s: RegistryView, reference: Seq<char>, kind: CredentialKind)
    requires
        s.valid(),
        s.room(),
    ensures
        s.begun(reference, kind).0.valid(),
{
    let out = s.begun(reference, kind).0;
    let t = s.next as u64;
    if s.flows.contains(kind) && !s.running.contains_key(reference) {
        assert forall|k: Seq<char>| #[trigger] out.running.contains_key(k) implies out.attempts.contains_key(
            out.running[k],
        ) && out.attempts[out.running[k]].outcome is None by {
            if k != reference {
                assert(s.running.contains_key(k));
                assert(s.attempts.contains_key(s.running[k]));
            }
        }
        assert forall|a: Seq<char>, b: Seq<char>|
            out.running.contains_key(a) && out.running.contains_key(b) && #[trigger] out.running[a]
                == #[trigger] out.running[b] implies a == b by {
            if a != reference && b != reference {
                assert(s.running[a] == s.running[b]);
            } else if a != reference {
                assert(s.running.contains_key(a));
                assert(s.attempts.contains_key(s.running[a]));
            } else if b != reference {
                assert(s.running.contains_key(b));
                assert(s.attempts.contains_key(s.running[b]));
            }
        }
    }
}

proof fn lemma_finished_valid(s: RegistryView, reference: Seq<char>, ticket: u64, o: Outcome)
    requires
        s.valid(),
    ensures
        s.finished(reference, ticket, o).valid(),
{
    let out = s.finished(reference, ticket, o);
    if s.running.contains_key(reference) && s.running[reference] == ticket {
        assert forall|k: Seq<char>| #[trigger] out.running.contains_key(k) implies out.attempts.contains_key(
            out.running[k],
        ) && out.attempts[out.running[k]].outcome is None by {
            assert(s.running.contains_key(k) && k != reference);
            if s.running[k] == ticket {
                assert(s.running[k] == s.running[reference]);
            }
        }
        assert forall|a: Seq<char>, b: Seq<char>|
            out.running.contains_key(a) && out.running.contains_key(b) && #[trigger] out.running[a]
                == #[trigger] out.running[b] implies a == b by {
            assert(s.running[a] == s.running[b]);
        }
    }
}

proof fn lemma_left_valid(s: RegistryView, ticket: u64)
    requires
        s.valid(),
    ensures
        s.left(ticket).valid(),
{
    let out = s.left(ticket);
    assert forall|k: Seq<char>| #[trigger] out.running.contains_key(k) implies out.attempts.contains_key(
        out.running[k],
    ) && out.attempts[out.running[k]].outcome is None by {
        assert(s.running.contains_key(k));
        assert(s.attempts.contains_key(s.running[k]));
    }
}

// ---------------------------------------------------------------------------
// Laws
// ---------------------------------------------------------------------------

/// One attempt per reference: while one is running, a caller joins it and never
/// starts another.
pub proof fn law_one_attempt_per_reference(
    s: RegistryView,
    reference: Seq<char>,
    kind: CredentialKind,
)
    requires
        s.running.contains_key(reference),
    ensures
        match s.begun(reference, kind).1 {
            ClaimView::Run(_) => false,
            ClaimView::Join(t) => t == s.running[reference],
            ClaimView::Refused(e) => e.code == ErrorCode::ToolDenied && !s.flows.contains(kind),
        },
        s.begun(reference, kind).0.running == s.running,
{
}

/// A joiner adopts the outcome of the very attempt it joined: the secret, or the
/// typed failure.
pub proof fn law_a_joiner_adopts_the_outcome(
    s: RegistryView,
    reference: Seq<char>,
    kind: CredentialKind,
    o: Outcome,
)
    requires
        s.valid(),
        s.flows.contains(kind),
        s.running.contains_key(reference),
    ensures
        ({
            let t = s.running[reference];
            let joined = s.begun(reference, kind).0;
            joined.finished(reference, t, o).answer(t) == Some(o)
        }),
{
}

/// Whatever an attempt comes to, a cancellation included, its reference frees
/// and the next caller runs an attempt of its own.
pub proof fn law_a_finished_attempt_frees_its_reference(
    s: RegistryView,
    reference: Seq<char>,
    kind: CredentialKind,
    o: Outcome,
)
    requires
        s.valid(),
        s.room(),
        s.flows.contains(kind),
        s.running.contains_key(reference),
    ensures
        ({
            let t = s.running[reference];
            let done = s.finished(reference, t, o);
            &&& !done.running.contains_key(reference)
            &&& done.begun(reference, kind).1 == ClaimView::Run(s.next as u64)
            &&& s.next as u64 != t
        }),
{
    assert(s.attempts.contains_key(s.running[reference]));
}

/// An attempt for one reference leaves every other reference alone.
pub proof fn law_attempts_do_not_interfere(
    s: RegistryView,
    reference: Seq<char>,
    other: Seq<char>,
    ticket: u64,
    o: Outcome,
)
    requires
        s.valid(),
        other != reference,
        s.running.contains_key(other),
    ensures
        ({
            let done = s.finished(reference, ticket, o);
            done.running.contains_key(other) && done.running[other] == s.running[other]
                && done.attempts.contains_key(s.running[other])
        }),
{
    assert(s.attempts.contains_key(s.running[other]));
}

} // verus!
