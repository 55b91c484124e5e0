//! The record store: one JSON object of records, by reference.
//!
//! Nothing is cached. Every operation works on what was read from the file for
//! it, so a secret rotated on disk reaches the very next resolution. A missing
//! or blank file is an empty store; a file that does not read is a failure,
//! never an empty store.

use vstd::prelude::*;

use crate::assoc::{keyed, lemma_listed_value, map_of, unique_keys, Assoc};
use crate::credentials::record::{
    law_kind_spellings_read_back, spelled, CredentialRecord, RecordView,
};
use crate::json::{
    field_map, fields_view, json_document, json_pretty_text, lemma_field_map, lemma_field_map_absent,
    reads_back, tabular, Json, JsonView,
};
use crate::seam::credentials::{CredentialKind, CredentialRef};
use crate::seam::error::{failure, ErrorCode, SeamError, SeamErrorView};
use crate::text::{blank, cat, cat4, is_blank, is_space, owned, same};

verus! {

// ---------------------------------------------------------------------------
// What a store holds
// ---------------------------------------------------------------------------

/// The records of a store, by reference.
pub type Table = Map<Seq<char>, RecordView>;

/// What a list of records says.
pub open spec fn records(m: Map<Seq<char>, CredentialRecord>) -> Table {
    m.map_values(|r: CredentialRecord| r@)
}

/// What reading the store file came to.
pub enum StoreRead {
    /// There is no such file.
    Absent,
    /// The text of the file, and what a reader of records made of it: every record
    /// with its reference, or why the text holds none.
    Text { text: String, parsed: Result<Vec<(String, CredentialRecord)>, String> },
    /// The file could not be read, and why.
    Failed(String),
}

/// What a [`StoreRead`] says.
pub enum ReadView {
    Absent,
    Text { text: Seq<char>, parsed: Result<Table, Seq<char>> },
    Failed(Seq<char>),
}

/// The records of a list, by reference: of two for one reference, the later.
pub open spec fn tabled(entries: Seq<(String, CredentialRecord)>) -> Table
    decreases entries.len(),
{
    if entries.len() == 0 {
        Map::empty()
    } else {
        tabled(entries.drop_last()).insert(entries.last().0@, entries.last().1@)
    }
}

impl View for StoreRead {
    type V = ReadView;

    open spec fn view(&self) -> ReadView {
        match self {
            StoreRead::Absent => ReadView::Absent,
            StoreRead::Text { text, parsed } => ReadView::Text {
                text: text@,
                parsed: match *parsed {
                    Ok(entries) => Ok(tabled(entries@)),
                    Err(e) => Err(e@),
                },
            },
            StoreRead::Failed(e) => ReadView::Failed(e@),
        }
    }
}

/// The record a node stands for: an object with a text `kind` and a text
/// `value`, or the two in a row.
pub open spec fn record_of(v: JsonView) -> Option<RecordView> {
    match v {
        JsonView::Object(f) => match (v.field("kind"@), v.field("value"@)) {
            (Some(JsonView::Text(kind)), Some(JsonView::Text(value))) => Some(
                RecordView { kind, value },
            ),
            _ => None,
        },
        JsonView::Array(items) => if items.len() == 2 && items[0] is Text && items[1] is Text {
            Some(RecordView { kind: items[0]->Text_0, value: items[1]->Text_0 })
        } else {
            None
        },
        _ => None,
    }
}

/// The table a node stands for: an object whose every field is a record.
pub open spec fn table_of(v: JsonView) -> Option<Table> {
    match v {
        JsonView::Object(m) => if forall|k: Seq<char>| #[trigger]
            m.contains_key(k) ==> record_of(m[k]) is Some {
            Some(Map::new(|k: Seq<char>| m.contains_key(k), |k: Seq<char>| record_of(m[k])->Some_0))
        } else {
            None
        },
        _ => None,
    }
}

/// The table a text says by itself, where it is a tree that holds one.
pub open spec fn said(text: Seq<char>) -> Option<Table> {
    match json_document(text) {
        Ok(v) => table_of(v),
        Err(_) => None,
    }
}

/// The node a record is written as.
pub open spec fn record_value(r: RecordView) -> JsonView {
    JsonView::Object(
        Map::empty().insert("kind"@, JsonView::Text(r.kind)).insert(
            "value"@,
            JsonView::Text(r.value),
        ),
    )
}

/// The node a table is written as.
pub open spec fn table_value(t: Table) -> JsonView {
    JsonView::Object(t.map_values(|r: RecordView| record_value(r)))
}

/// The failure of a store that does not read.
pub open spec fn corrupt(path: Seq<char>, why: Seq<char>) -> SeamErrorView {
    failure(ErrorCode::IoError, "credential store "@ + path + " is corrupt: "@ + why)
}

/// The table of a text that is just what the table is published as.
pub open spec fn own(text: Seq<char>) -> Option<Table> {
    match said(text) {
        Some(t) => if json_pretty_text(table_value(t)) == Some(text) {
            Some(t)
        } else {
            None
        },
        None => None,
    }
}

/// The table that was read from the store at `path`. A text that a store published
/// needs no other reader. Any other text that the reader of records refuses is
/// corrupt: only the reader sees that a record names a field twice. Of a text that it
/// takes, the records are those the text says; where no tree can hold the text (a
/// field of no record may be a number out of range), the reader's stand.
pub open spec fn table_read(path: Seq<char>, read: ReadView) -> Result<Table, SeamErrorView> {
    match read {
        ReadView::Absent => Ok(Map::empty()),
        ReadView::Failed(e) => Err(
            failure(ErrorCode::IoError, "reading credential store "@ + path + ": "@ + e),
        ),
        ReadView::Text { text, parsed } => if is_blank(text) {
            Ok(Map::empty())
        } else {
            match (own(text), parsed, said(text)) {
                (Some(t), _, _) => Ok(t),
                (None, Err(why), _) => Err(corrupt(path, why)),
                (None, Ok(_), Some(t)) => Ok(t),
                (None, Ok(t), None) => Ok(t),
            }
        },
    }
}

/// The secret a reference stands for. A record of a corrupt kind stands for
/// none.
pub open spec fn resolved(t: Table, reference: Seq<char>) -> Option<Seq<char>> {
    if t.contains_key(reference) && spelled(t[reference].kind) is Some {
        Some(t[reference].value)
    } else {
        None
    }
}

/// The kind of a reference.
pub open spec fn kind_of(t: Table, reference: Seq<char>) -> Option<CredentialKind> {
    if t.contains_key(reference) {
        spelled(t[reference].kind)
    } else {
        None
    }
}

// ---------------------------------------------------------------------------
// Reading and writing
// ---------------------------------------------------------------------------

fn read_record(v: &Json) -> (r: Option<CredentialRecord>)
    ensures
        match r {
            Some(record) => record_of(v@) == Some(record@),
            None => record_of(v@) is None,
        },
{
    match v {
        Json::Object(_) => {
            let kind = match v.get("kind") {
                Some(Json::Text(s)) => s.clone(),
                _ => {
                    return None;
                },
            };
            let value = match v.get("value") {
                Some(Json::Text(s)) => s.clone(),
                _ => {
                    return None;
                },
            };
            Some(CredentialRecord { kind, value })
        },
        Json::Array(items) => {
            if items.len() != 2 {
                return None;
            }
            assert(v@->Array_0[0] == items@[0]@ && v@->Array_0[1] == items@[1]@);
            match (&items[0], &items[1]) {
                (Json::Text(kind), Json::Text(value)) => Some(
                    CredentialRecord { kind: kind.clone(), value: value.clone() },
                ),
                _ => None,
            }
        },
        _ => None,
    }
}

/// The fields of an object, each name once, the last of a name kept.
fn latest(fields: &Vec<(String, Json)>) -> (r: Assoc<String, Json>)
    ensures
        r.wf(),
        r@.map_values(|j: Json| j@) == field_map(fields_view(fields@)),
{
    let ghost all = fields_view(fields@);
    let mut out: Assoc<String, Json> = Assoc::new();
    assert(all.take(0) =~= Seq::empty());
    assert(out@.map_values(|j: Json| j@) =~= field_map(all.take(0)));
    for i in 0..fields.len()
        invariant
            all == fields_view(fields@),
            out.wf(),
            out@.map_values(|j: Json| j@) == field_map(all.take(i as int)),
    {
        let ghost before = out@;
        let value = fields[i].1.copy();
        out.insert(fields[i].0.clone(), value);
        assert(all.take(i + 1).drop_last() =~= all.take(i as int));
        assert(all.take(i + 1).last() == (fields@[i as int].0@, fields@[i as int].1@));
        assert(out@.map_values(|j: Json| j@) =~= before.map_values(|j: Json| j@).insert(
            fields@[i as int].0@,
            value@,
        ));
    }
    assert(all.take(fields@.len() as int) =~= all);
    out
}

fn read_table(v: &Json) -> (r: Option<Assoc<String, CredentialRecord>>)
    ensures
        match r {
            Some(t) => t.wf() && table_of(v@) == Some(records(t@)),
            None => table_of(v@) is None,
        },
{
    match v {
        Json::Object(fields) => {
            let named = latest(fields);
            let ghost m = field_map(fields_view(fields@));
            let ghost listed = named.listed();
            let mut out: Assoc<String, CredentialRecord> = Assoc::new();
            let mut i: usize = 0;
            proof {
                named.lemma_listed();
                assert(v@ == JsonView::Object(m));
            }
            while i < named.len()
                invariant
                    i <= listed.len(),
                    listed == named.listed(),
                    named.wf(),
                    v@ == JsonView::Object(m),
                    named@ == map_of(listed),
                    unique_keys(listed),
                    named@.map_values(|j: Json| j@) == m,
                    out.wf(),
                    forall|j: int|
                        0 <= j < i ==> out@.contains_key((#[trigger] listed[j]).0@) && record_of(
                            listed[j].1@,
                        ) == Some(out@[listed[j].0@]@),
                    forall|k: Seq<char>| #[trigger]
                        out@.contains_key(k) ==> exists|j: int|
                            0 <= j < i && #[trigger] listed[j].0@ == k,
                decreases listed.len() - i,
            {
                let (key, value) = named.at(i);
                let ghost before = out@;
                proof {
                    lemma_listed_value(listed, i as int);
                    assert(m.contains_key(key@) && m[key@] == value@);
                }
                match read_record(value) {
                    None => {
                        return None;
                    },
                    Some(record) => {
                        out.insert(key.clone(), record);
                        proof {
                            assert forall|j: int| 0 <= j < i + 1 implies out@.contains_key(
                                (#[trigger] listed[j]).0@,
                            ) && record_of(listed[j].1@) == Some(out@[listed[j].0@]@) by {
                                if j < i {
                                    assert(listed[j].0@ != listed[i as int].0@);
                                    assert(before.contains_key(listed[j].0@));
                                }
                            }
                            assert forall|k: Seq<char>| #[trigger]
                                out@.contains_key(k) implies exists|j: int|
                                0 <= j < i + 1 && #[trigger] listed[j].0@ == k by {
                                if k == key@ {
                                    assert(listed[i as int].0@ == k);
                                } else {
                                    assert(before.contains_key(k));
                                }
                            }
                        }
                    },
                }
                i = i + 1;
            }
            proof {
                assert forall|k: Seq<char>| #[trigger] m.contains_key(k) implies out@.contains_key(k)
                    && record_of(m[k]) == Some(out@[k]@) by {
                    assert(named@.contains_key(k));
                    let j = choose|j: int| 0 <= j < listed.len() && #[trigger] listed[j].0@ == k;
                    lemma_listed_value(listed, j);
                }
                assert forall|k: Seq<char>| #[trigger] out@.contains_key(k) implies m.contains_key(
                    k,
                ) by {
                    let j = choose|j: int| 0 <= j < listed.len() && #[trigger] listed[j].0@ == k;
                    lemma_listed_value(listed, j);
                }
                assert(records(out@) =~= table_of(v@)->Some_0);
            }
            Some(out)
        },
        _ => None,
    }
}

/// The records of a list, by reference.
fn tabulate(entries: &Vec<(String, CredentialRecord)>) -> (r: Assoc<String, CredentialRecord>)
    ensures
        r.wf(),
        records(r@) == tabled(entries@),
{
    let mut out: Assoc<String, CredentialRecord> = Assoc::new();
    assert(entries@.take(0) =~= Seq::empty());
    assert(records(out@) =~= tabled(entries@.take(0)));
    for i in 0..entries.len()
        invariant
            out.wf(),
            records(out@) == tabled(entries@.take(i as int)),
    {
        let ghost before = records(out@);
        let record = CredentialRecord {
            kind: entries[i].1.kind.clone(),
            value: entries[i].1.value.clone(),
        };
        out.insert(entries[i].0.clone(), record);
        assert(entries@.take(i + 1).drop_last() =~= entries@.take(i as int));
        assert(records(out@) =~= before.insert(entries@[i as int].0@, record@));
    }
    assert(entries@.take(entries@.len() as int) =~= entries@);
    out
}

fn write_record(r: &CredentialRecord) -> (v: Json)
    ensures
        v@ == record_value(r@),
{
    let mut fields: Vec<(String, Json)> = Vec::new();
    fields.push((owned("kind"), Json::Text(r.kind.clone())));
    fields.push((owned("value"), Json::Text(r.value.clone())));
    proof {
        let all = fields_view(fields@);
        assert(all.drop_last().drop_last() =~= Seq::empty());
        assert(all.drop_last().last() == ("kind"@, JsonView::Text(r.kind@)));
        reveal_with_fuel(field_map, 3);
    }
    Json::Object(fields)
}

fn write_table(t: &Assoc<String, CredentialRecord>) -> (v: Json)
    requires
        t.wf(),
    ensures
        v@ == table_value(records(t@)),
{
    let ghost listed = t.listed();
    let mut fields: Vec<(String, Json)> = Vec::new();
    let mut i: usize = 0;
    while i < t.len()
        invariant
            i <= listed.len(),
            listed == t.listed(),
            fields@.len() == i,
            forall|k: int|
                0 <= k < i ==> (#[trigger] fields@[k]).0@ == listed[k].0@ && fields@[k].1@
                    == record_value(listed[k].1@),
        decreases listed.len() - i,
    {
        let (key, record) = t.at(i);
        fields.push((key.clone(), write_record(record)));
        i = i + 1;
    }
    proof {
        t.lemma_listed();
        let all = fields_view(fields@);
        let m = field_map(all);
        let want = table_value(records(t@))->Object_0;
        assert forall|k: Seq<char>|
            #![trigger m.dom().contains(k)]
            #![trigger want.dom().contains(k)]
            m.dom().contains(k) == want.dom().contains(k) && (m.dom().contains(k) ==> m[k]
                == want[k]) by {
            if exists|j: int| 0 <= j < listed.len() && #[trigger] listed[j].0@ == k {
                let j = choose|j: int| 0 <= j < listed.len() && #[trigger] listed[j].0@ == k;
                lemma_listed_value(listed, j);
                assert(all[j].0 == k);
                assert forall|n: int| j < n < all.len() implies (#[trigger] all[n]).0 != k by {
                    if all[n].0 == k {
                        assert(listed[n].0@ == listed[j].0@);
                    }
                }
                lemma_field_map(all, k, j);
            } else {
                assert forall|n: int| 0 <= n < all.len() implies (#[trigger] all[n]).0 != k by {
                    assert(all[n].0 == listed[n].0@);
                }
                lemma_field_map_absent(all, k);
                assert(!keyed(listed, k));
            }
        }
        assert(m.dom() =~= want.dom());
        assert(m =~= want);
    }
    Json::Object(fields)
}

/// A local credentials provider: the path of its record store.
#[derive(Debug, Clone, PartialEq, Eq)]
pub struct LocalCredentials {
    path: String,
}

/// A step of publishing the store.
#[derive(Debug, Clone, Copy, PartialEq, Eq, Structural)]
pub enum StoreStep {
    /// Opening the lock file beside the store.
    OpenLock,
    /// Taking the lock.
    TakeLock,
    /// Writing the temporary file beside the store.
    WriteTemp,
    /// Renaming the temporary file over the store.
    Publish,
}

/// The failure of a step of publishing the store at `path`.
pub open spec fn step_fault(step: StoreStep, path: Seq<char>, why: Seq<char>) -> SeamErrorView {
    failure(
        ErrorCode::IoError,
        match step {
            StoreStep::OpenLock => "opening credential lock "@ + (path + ".lock"@) + ": "@ + why,
            StoreStep::TakeLock => "locking "@ + (path + ".lock"@) + ": "@ + why,
            StoreStep::WriteTemp => "writing credential temp "@ + (path + ".tmp"@) + ": "@ + why,
            StoreStep::Publish => "publishing credential store "@ + path + ": "@ + why,
        },
    )
}

impl LocalCredentials {
    /// The path of the record store.
    pub closed spec fn at(&self) -> Seq<char> {
        self.path@
    }

    /// A provider over the store at `path`.
    pub fn new(path: String) -> (r: LocalCredentials)
        ensures
            r.at() == path@,
    {
        LocalCredentials { path }
    }

    /// The record-store path.
    pub fn path(&self) -> (r: &str)
        ensures
            r@ == self.at(),
    {
        self.path.as_str()
    }

    /// The path of the lock file.
    pub fn lock_path(&self) -> (r: String)
        ensures
            r@ == self.at() + ".lock"@,
    {
        cat(self.path.as_str(), ".lock")
    }

    /// The path of the temporary file the store is published from.
    pub fn temp_path(&self) -> (r: String)
        ensures
            r@ == self.at() + ".tmp"@,
    {
        cat(self.path.as_str(), ".tmp")
    }

    /// The failure of a step of publishing the store.
    pub fn step_error(&self, step: StoreStep, why: &str) -> (r: SeamError)
        ensures
            r@ == step_fault(step, self.at(), why@),
    {
        let message = match step {
            StoreStep::OpenLock => {
                let p = self.lock_path();
                cat4("opening credential lock ", p.as_str(), ": ", why)
            },
            StoreStep::TakeLock => {
                let p = self.lock_path();
                cat4("locking ", p.as_str(), ": ", why)
            },
            StoreStep::WriteTemp => {
                let p = self.temp_path();
                cat4("writing credential temp ", p.as_str(), ": ", why)
            },
            StoreStep::Publish => cat4(
                "publishing credential store ",
                self.path.as_str(),
                ": ",
                why,
            ),
        };
        SeamError::with(ErrorCode::IoError, message)
    }

    fn corrupt(&self, why: &str) -> (r: SeamError)
        ensures
            r@ == corrupt(self.at(), why@),
    {
        SeamError::with(
            ErrorCode::IoError,
            cat4("credential store ", self.path.as_str(), " is corrupt: ", why),
        )
    }

    /// The records that were read.
    fn read_all(&self, read: &StoreRead) -> (r: Result<Assoc<String, CredentialRecord>, SeamError>)
        ensures
            match r {
                Ok(t) => t.wf() && table_read(self.at(), read@) == Ok::<Table, SeamErrorView>(
                    records(t@),
                ),
                Err(e) => table_read(self.at(), read@) == Err::<Table, SeamErrorView>(e@),
            },
    {
        match read {
            StoreRead::Absent => {
                let t: Assoc<String, CredentialRecord> = Assoc::new();
                assert(records(t@) =~= Map::<Seq<char>, RecordView>::empty());
                Ok(t)
            },
            StoreRead::Failed(e) => Err(
                SeamError::with(
                    ErrorCode::IoError,
                    cat4("reading credential store ", self.path.as_str(), ": ", e.as_str()),
                ),
            ),
            StoreRead::Text { text, parsed } => {
                if blank(text.as_str()) {
                    let t: Assoc<String, CredentialRecord> = Assoc::new();
                    assert(records(t@) =~= Map::<Seq<char>, RecordView>::empty());
                    return Ok(t);
                }
                let told = match Json::parse(text.as_str()) {
                    Ok(v) => read_table(&v),
                    Err(_) => None,
                };
                if let Some(t) = &told {
                    if let Ok(rendered) = self.render(t) {
                        if same(rendered.as_str(), text.as_str()) {
                            return Ok(told.unwrap());
                        }
                    }
                }
                match (parsed, told) {
                    (Err(why), _) => Err(self.corrupt(why.as_str())),
                    (Ok(_), Some(t)) => Ok(t),
                    (Ok(entries), None) => Ok(tabulate(entries)),
                }
            },
        }
    }

    /// The secret a reference stands for, by what was read for this operation.
    pub fn resolve(&self, read: &StoreRead, reference: &CredentialRef) -> (r: Result<
        Option<String>,
        SeamError,
    >)
        ensures
            match (r, table_read(self.at(), read@)) {
                (Ok(Some(secret)), Ok(t)) => resolved(t, reference@) == Some(secret@),
                (Ok(None), Ok(t)) => resolved(t, reference@) is None,
                (Err(e), Err(x)) => e@ == x,
                _ => false,
            },
    {
        match self.read_all(read) {
            Err(e) => Err(e),
            Ok(t) => match t.get(&reference.0) {
                None => Ok(None),
                Some(record) => match record.seam_kind() {
                    Some(_) => Ok(Some(record.value.clone())),
                    None => Ok(None),
                },
            },
        }
    }

    /// The kind of a reference, by what was read for this operation.
    pub fn kind(&self, read: &StoreRead, reference: &CredentialRef) -> (r: Result<
        Option<CredentialKind>,
        SeamError,
    >)
        ensures
            match (r, table_read(self.at(), read@)) {
                (Ok(k), Ok(t)) => k == kind_of(t, reference@),
                (Err(e), Err(x)) => e@ == x,
                _ => false,
            },
    {
        match self.read_all(read) {
            Err(e) => Err(e),
            Ok(t) => match t.get(&reference.0) {
                None => Ok(None),
                Some(record) => Ok(record.seam_kind()),
            },
        }
    }

    fn render(&self, t: &Assoc<String, CredentialRecord>) -> (r: Result<String, SeamError>)
        requires
            t.wf(),
        ensures
            r matches Ok(text) && json_pretty_text(table_value(records(t@))) == Some(text@)
                && reads_back(text@, table_value(records(t@))),
    {
        proof {
            lemma_tabular(records(t@));
        }
        match write_table(t).render_pretty() {
            Ok(text) => Ok(text),
            Err(e) => Err(
                SeamError::with(
                    ErrorCode::IoError,
                    cat("serializing credential store: ", e.as_str()),
                ),
            ),
        }
    }

    /// The text of the store with the record of `reference` written, over what
    /// was read under the lock.
    pub fn store(
        &self,
        read: &StoreRead,
        reference: &CredentialRef,
        kind: CredentialKind,
        value: &str,
    ) -> (r: Result<String, SeamError>)
        ensures
            match table_read(self.at(), read@) {
                Err(e) => r matches Err(x) && x@ == e,
                Ok(t) => r matches Ok(text) && published(
                    text@,
                    t.insert(reference@, RecordView::of(kind, value@)),
                ),
            },
    {
        match self.read_all(read) {
            Err(e) => Err(e),
            Ok(t) => {
                let mut all = t;
                let ghost before = records(all@);
                all.insert(reference.0.clone(), CredentialRecord::new(kind, owned(value)));
                assert(records(all@) =~= before.insert(
                    reference@,
                    RecordView::of(kind, value@),
                ));
                self.render(&all)
            },
        }
    }

    /// The text of the store without the record of `reference`, over what was
    /// read under the lock. An absent record is no failure.
    pub fn forget(&self, read: &StoreRead, reference: &CredentialRef) -> (r: Result<
        String,
        SeamError,
    >)
        ensures
            match table_read(self.at(), read@) {
                Err(e) => r matches Err(x) && x@ == e,
                Ok(t) => r matches Ok(text) && published(text@, t.remove(reference@)),
            },
    {
        match self.read_all(read) {
            Err(e) => Err(e),
            Ok(t) => {
                let mut all = t;
                let ghost before = records(all@);
                let _ = all.remove(&reference.0);
                assert(records(all@) =~= before.remove(reference@));
                self.render(&all)
            },
        }
    }
}

/// Whether a text is what a table is published as: its indented rendering, which
/// reads back as the table.
pub open spec fn published(text: Seq<char>, t: Table) -> bool {
    &&& json_pretty_text(table_value(t)) == Some(text)
    &&& reads_back(text, table_value(t))
}

proof fn lemma_tabular(t: Table)
    ensures
        tabular(table_value(t)),
{
    let v = table_value(t);
    assert forall|k: Seq<char>| #[trigger]
        v->Object_0.contains_key(k) implies v->Object_0[k] is Object && forall|f: Seq<char>|
        v->Object_0[k]->Object_0.contains_key(f) ==> (#[trigger] v->Object_0[k]->Object_0[f]) is Text by {
        assert(v->Object_0[k] == record_value(t[k]));
    }
}

// ---------------------------------------------------------------------------
// Laws
// ---------------------------------------------------------------------------

/// What is published reads back as the table it was made from.
pub proof fn law_a_published_store_reads_back(
    path: Seq<char>,
    text: Seq<char>,
    parsed: Result<Table, Seq<char>>,
    t: Table,
)
    requires
        published(text, t),
    ensures
        table_read(path, ReadView::Text { text, parsed }) == Ok::<Table, SeamErrorView>(t),
{
    assert(!is_space('{'));
    assert(!is_blank(text));
    let v = table_value(t);
    reveal_strlit("kind");
    reveal_strlit("value");
    assert("kind"@.len() == 4 && "value"@.len() == 5);
    assert forall|k: Seq<char>| #[trigger] v->Object_0.contains_key(k) implies record_of(
        v->Object_0[k],
    ) == Some(t[k]) by {
        assert(v->Object_0[k] == record_value(t[k]));
    }
    assert(table_of(v)->Some_0 =~= t);
}

/// A stored secret resolves, under its kind, from the text it was published in,
/// and every other reference stands for what it stood for before.
pub proof fn law_a_stored_secret_resolves(
    path: Seq<char>,
    before: Table,
    text: Seq<char>,
    parsed: Result<Table, Seq<char>>,
    reference: Seq<char>,
    kind: CredentialKind,
    value: Seq<char>,
)
    requires
        published(text, before.insert(reference, RecordView::of(kind, value))),
    ensures
        table_read(path, ReadView::Text { text, parsed }) matches Ok(t) && resolved(t, reference) == Some(
            value,
        ) && kind_of(t, reference) == Some(kind) && forall|other: Seq<char>|
            other != reference ==> #[trigger] resolved(t, other) == resolved(before, other)
                && kind_of(t, other) == kind_of(before, other),
{
    law_a_published_store_reads_back(
        path,
        text,
        parsed,
        before.insert(reference, RecordView::of(kind, value)),
    );
    law_kind_spellings_read_back(kind);
}

/// A forgotten reference resolves to nothing, and every other reference stands
/// for what it stood for before.
pub proof fn law_a_forgotten_secret_is_gone(
    path: Seq<char>,
    before: Table,
    text: Seq<char>,
    parsed: Result<Table, Seq<char>>,
    reference: Seq<char>,
)
    requires
        published(text, before.remove(reference)),
    ensures
        table_read(path, ReadView::Text { text, parsed }) matches Ok(t) && resolved(t, reference) is None
            && kind_of(t, reference) is None && forall|other: Seq<char>|
            other != reference ==> #[trigger] resolved(t, other) == resolved(before, other)
                && kind_of(t, other) == kind_of(before, other),
{
    law_a_published_store_reads_back(path, text, parsed, before.remove(reference));
}

/// `kind` agrees with `resolve`: a reference has a kind where it resolves, and
/// only there.
pub proof fn law_kind_agrees_with_resolve(t: Table, reference: Seq<char>)
    ensures
        kind_of(t, reference) is Some <==> resolved(t, reference) is Some,
{
}

/// An unknown reference resolves to nothing and has no kind.
pub proof fn law_unknown_references_resolve_to_nothing(t: Table, reference: Seq<char>)
    requires
        !t.contains_key(reference),
    ensures
        resolved(t, reference) is None,
        kind_of(t, reference) is None,
{
}

/// What was stored resolves, through any provider on the path and whatever another
/// reader makes of the text, under its kind; no other reference changes. Forgetting it
/// then leaves it without a secret, and every other reference as it was.
pub proof fn law_a_stored_secret_resolves_until_it_is_forgotten(
    path: Seq<char>,
    read: ReadView,
    reference: Seq<char>,
    kind: CredentialKind,
    value: Seq<char>,
    stored: Seq<char>,
    forgotten: Seq<char>,
    first: Result<Table, Seq<char>>,
    second: Result<Table, Seq<char>>,
)
    requires
        table_read(path, read) is Ok,
        published(
            stored,
            table_read(path, read)->Ok_0.insert(reference, RecordView::of(kind, value)),
        ),
        published(
            forgotten,
            table_read(path, ReadView::Text { text: stored, parsed: first })->Ok_0.remove(reference),
        ),
    ensures
        table_read(path, ReadView::Text { text: stored, parsed: first }) matches Ok(t) && {
            &&& resolved(t, reference) == Some(value)
            &&& kind_of(t, reference) == Some(kind)
            &&& forall|other: Seq<char>|
                other != reference ==> #[trigger] resolved(t, other) == resolved(
                    table_read(path, read)->Ok_0,
                    other,
                ) && kind_of(t, other) == kind_of(table_read(path, read)->Ok_0, other)
        },
        table_read(path, ReadView::Text { text: forgotten, parsed: second }) matches Ok(t) && {
            &&& resolved(t, reference) is None
            &&& kind_of(t, reference) is None
            &&& forall|other: Seq<char>|
                other != reference ==> #[trigger] resolved(t, other) == resolved(
                    table_read(path, read)->Ok_0,
                    other,
                ) && kind_of(t, other) == kind_of(table_read(path, read)->Ok_0, other)
        },
{
    let before = table_read(path, read)->Ok_0;
    law_a_stored_secret_resolves(path, before, stored, first, reference, kind, value);
    let with = table_read(path, ReadView::Text { text: stored, parsed: first })->Ok_0;
    law_a_forgotten_secret_is_gone(path, with, forgotten, second, reference);
    let without = table_read(path, ReadView::Text { text: forgotten, parsed: second })->Ok_0;
    assert forall|other: Seq<char>| other != reference implies #[trigger] resolved(without, other)
        == resolved(before, other) && kind_of(without, other) == kind_of(before, other) by {
        assert(resolved(with, other) == resolved(before, other));
    }
}

/// A file that holds anything at all is read or refused: what no reader of records
/// takes, and no store published, never passes for an empty store.
pub proof fn law_a_corrupt_store_is_never_empty(path: Seq<char>, text: Seq<char>, why: Seq<char>)
    requires
        !is_blank(text),
        own(text) is None,
    ensures
        table_read(path, ReadView::Text { text, parsed: Err(why) }) == Err::<Table, SeamErrorView>(
            corrupt(path, why),
        ),
        corrupt(path, why).code == ErrorCode::IoError,
{
}

} // verus!
