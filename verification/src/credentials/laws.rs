//! What holds of credentials: what a store gives back, and who gets the outcome of an
//! authorization.

use vstd::prelude::*;

use crate::credentials::flows::{adopted, AuthorizeState, ClaimView, Outcome, RegistryView};
use crate::credentials::record::{spelled, spelling, CredentialRecord, RecordView};
use crate::credentials::store::{
    kind_of, record_of, records, resolved, table_of, tabled, Table,
};
use crate::json::JsonView;
use crate::seam::credentials::CredentialKind;

verus! {

// ---------------------------------------------------------------------------
// Records
// ---------------------------------------------------------------------------

/// Kinds are spelled apart, and only their own spellings stand for them.
pub proof fn law_kinds_are_spelled_apart(a: CredentialKind, b: CredentialKind, s: Seq<char>)
    ensures
        a != b ==> spelling(a) != spelling(b),
        spelled(s) matches Some(k) ==> spelling(k) == s,
        spelled(s) is Some <==> s == "bearer"@ || s == "oauth2"@ || s == "api-key"@,
{
    reveal_strlit("bearer");
    reveal_strlit("oauth2");
    reveal_strlit("api-key");
    assert("bearer"@[0] == 'b' && "oauth2"@[0] == 'o' && "api-key"@[0] == 'a');
}

/// A reference resolves to exactly the secret of its record, whole, and has the kind
/// its record spells; one without a record, or with a record of no kind, has neither.
pub proof fn law_a_reference_stands_for_its_record(t: Table, reference: Seq<char>)
    ensures
        t.contains_key(reference) && (t[reference].kind == "bearer"@ || t[reference].kind
            == "oauth2"@ || t[reference].kind == "api-key"@) ==> resolved(t, reference) == Some(
            t[reference].value,
        ) && (kind_of(t, reference) matches Some(k) && spelling(k) == t[reference].kind),
        resolved(t, reference) is Some ==> t.contains_key(reference),
        kind_of(t, reference) is Some ==> t.contains_key(reference),
        t.contains_key(reference) && t[reference].kind != "bearer"@ && t[reference].kind
            != "oauth2"@ && t[reference].kind != "api-key"@ ==> resolved(t, reference) is None
            && kind_of(t, reference) is None,
{
    if t.contains_key(reference) {
        law_kinds_are_spelled_apart(
            CredentialKind::Bearer,
            CredentialKind::OAuth2,
            t[reference].kind,
        );
    }
}

/// One reference does not depend on another: what it stands for changes only with its
/// own record.
pub proof fn law_references_do_not_interfere(s: Table, t: Table, reference: Seq<char>)
    requires
        s.contains_key(reference) == t.contains_key(reference),
        s.contains_key(reference) ==> s[reference] == t[reference],
    ensures
        resolved(s, reference) == resolved(t, reference),
        kind_of(s, reference) == kind_of(t, reference),
{
}

/// A table holds every record of the object it is read from, under its own name, and
/// no other; one field that is no record spoils it.
pub proof fn law_a_table_holds_every_record(m: Map<Seq<char>, JsonView>)
    ensures
        table_of(JsonView::Object(m)) matches Some(t) ==> t.dom() == m.dom() && forall|k: Seq<char>|
            #[trigger] m.contains_key(k) ==> record_of(m[k]) == Some(t[k]),
        table_of(JsonView::Object(m)) is Some <==> forall|k: Seq<char>| #[trigger]
            m.contains_key(k) ==> record_of(m[k]) is Some,
{
    if let Some(t) = table_of(JsonView::Object(m)) {
        assert(t.dom() =~= m.dom());
    }
}

/// A record is read from the two texts it holds, whatever else stands beside them, and
/// from nothing else.
pub proof fn law_a_record_is_its_two_texts(m: Map<Seq<char>, JsonView>, v: JsonView)
    ensures
        record_of(JsonView::Object(m)) matches Some(r) ==> m.contains_key("kind"@) && m.contains_key(
            "value"@,
        ) && m["kind"@] == JsonView::Text(r.kind) && m["value"@] == JsonView::Text(r.value),
        m.contains_key("kind"@) && m.contains_key("value"@) && m["kind"@] is Text
            && m["value"@] is Text ==> record_of(JsonView::Object(m)) is Some,
        v matches JsonView::Array(items) ==> (record_of(v) matches Some(r) ==> items.len() == 2
            && items[0] == JsonView::Text(r.kind) && items[1] == JsonView::Text(r.value)),
        v is Null || v is Bool || v is Number || v is Text ==> record_of(v) is None,
{
}

/// Of two records for one reference the later counts; every other stays.
pub proof fn law_the_later_record_counts(
    entries: Seq<(String, CredentialRecord)>,
    reference: String,
    record: CredentialRecord,
    other: Seq<char>,
)
    ensures
        tabled(entries.push((reference, record))).contains_key(reference@),
        tabled(entries.push((reference, record)))[reference@] == record@,
        other != reference@ ==> tabled(entries.push((reference, record))).contains_key(other)
            == tabled(entries).contains_key(other) && (tabled(entries).contains_key(other) ==> tabled(
            entries.push((reference, record)),
        )[other] == tabled(entries)[other]),
        tabled(Seq::empty()).dom().len() == 0,
{
    let all = entries.push((reference, record));
    assert(all.drop_last() =~= entries);
    assert(all.last() == (reference, record));
}

/// A record of a kind and a value spells the kind and keeps the value.
pub proof fn law_a_record_keeps_its_value(kind: CredentialKind, value: Seq<char>)
    ensures
        RecordView::of(kind, value).value == value,
        spelled(RecordView::of(kind, value).kind) == Some(kind),
{
    crate::credentials::record::law_kind_spellings_read_back(kind);
}

// ---------------------------------------------------------------------------
// Authorization
// ---------------------------------------------------------------------------

/// A caller is refused exactly where no flow of the kind is registered, and then
/// nothing changes; a free reference is run, under a ticket of its own.
pub proof fn law_a_free_reference_is_run(
    s: RegistryView,
    reference: Seq<char>,
    kind: CredentialKind,
)
    requires
        s.valid(),
        s.room(),
    ensures
        s.begun(reference, kind).1 is Refused <==> !s.flows.contains(kind),
        !s.flows.contains(kind) ==> s.begun(reference, kind).0 == s,
        s.flows.contains(kind) && !s.running.contains_key(reference) ==> {
            let (next, claim) = s.begun(reference, kind);
            &&& claim matches ClaimView::Run(t) && !s.attempts.contains_key(t) && next.running
                == s.running.insert(reference, t)
            &&& next.flows == s.flows
        },
        s.flows.contains(kind) && s.running.contains_key(reference) ==> s.begun(reference, kind).1
            == ClaimView::Join(s.running[reference]),
{
    if s.flows.contains(kind) && !s.running.contains_key(reference) {
        let t = s.next as u64;
        assert(!s.attempts.contains_key(t));
    }
}

/// Every joiner gets the outcome: as long as one still waits, the outcome is there for
/// it, whoever has taken it before.
pub proof fn law_every_joiner_gets_the_outcome(
    s: RegistryView,
    reference: Seq<char>,
    ticket: u64,
    o: Outcome,
)
    requires
        s.valid(),
        s.running.contains_key(reference),
        s.running[reference] == ticket,
        s.attempts[ticket].waiting > 0,
    ensures
        ({
            let done = s.finished(reference, ticket, o);
            &&& done.answer(ticket) == Some(o)
            &&& s.attempts[ticket].waiting > 1 ==> done.left(ticket).answer(ticket) == Some(o)
                && done.left(ticket).attempts[ticket].waiting == s.attempts[ticket].waiting - 1
            &&& s.attempts[ticket].waiting == 1 ==> !done.left(ticket).attempts.contains_key(ticket)
        }),
{
}

/// While an attempt runs nobody gets an answer, and giving up a wait leaves the attempt
/// running.
pub proof fn law_a_running_attempt_has_no_answer(s: RegistryView, reference: Seq<char>)
    requires
        s.valid(),
        s.running.contains_key(reference),
    ensures
        s.answer(s.running[reference]) is None,
        s.left(s.running[reference]).running == s.running,
        s.left(s.running[reference]).attempts.contains_key(s.running[reference]),
        s.left(s.running[reference]).answer(s.running[reference]) is None,
{
    assert(s.attempts.contains_key(s.running[reference]));
}

/// An outcome counts only for the attempt it came from: a ticket that does not run for
/// the reference changes nothing.
pub proof fn law_a_stranger_finishes_nothing(
    s: RegistryView,
    reference: Seq<char>,
    ticket: u64,
    o: Outcome,
)
    requires
        !s.running.contains_key(reference) || s.running[reference] != ticket,
    ensures
        s.finished(reference, ticket, o) == s,
{
}

/// What a caller gets is the outcome itself, with how it came by it.
pub proof fn law_an_outcome_is_adopted_unchanged(o: Outcome, state: AuthorizeState)
    ensures
        match (o, adopted(o, state)) {
            (Ok(secret), Ok((got, how))) => got == secret && how == state,
            (Err(e), Err(x)) => x == e,
            _ => false,
        },
{
}

/// A joiner counts as one waiter more, and only that.
pub proof fn law_a_joiner_is_counted(s: RegistryView, reference: Seq<char>, kind: CredentialKind)
    requires
        s.valid(),
        s.flows.contains(kind),
        s.running.contains_key(reference),
    ensures
        ({
            let t = s.running[reference];
            let next = s.begun(reference, kind).0;
            &&& next.attempts[t].waiting == s.attempts[t].waiting + 1
            &&& next.attempts[t].outcome == s.attempts[t].outcome
            &&& next.attempts.dom() == s.attempts.dom()
            &&& forall|u: u64| #[trigger]
                s.attempts.contains_key(u) && u != t ==> next.attempts[u] == s.attempts[u]
        }),
{
    let t = s.running[reference];
    assert(s.attempts.contains_key(t));
    let next = s.begun(reference, kind).0;
    assert(next.attempts.dom() =~= s.attempts.dom());
}

/// What a list of records says is what each of its records says, under the same
/// reference.
pub proof fn law_records_keep_their_references(m: Map<Seq<char>, CredentialRecord>, k: Seq<char>)
    ensures
        records(m).contains_key(k) <==> m.contains_key(k),
        m.contains_key(k) ==> records(m)[k] == m[k]@,
{
}

} // verus!
