//! What holds of reading patch operations, and of the fault that a reader reports.

use vstd::prelude::*;

use crate::config::decode::{
    beside_op, first_fault, first_of, invalid, missing, names_op, op_fault, op_of, op_reason,
    ops_of, ops_reason, row_of, row_reason, set_fault, tag_free, texts_of, texts_reason,
};
use crate::config::doc::{OpView, RowView};
use crate::text::{occurs, occurs_at};
use crate::yaml::{untagged, YamlView};

verus! {

/// What stands beside `op` is every entry with another key, in order.
pub proof fn law_all_but_op_stands_beside_it(
    a: Seq<(YamlView, YamlView)>,
    b: Seq<(YamlView, YamlView)>,
)
    ensures
        beside_op(a + b) == beside_op(a) + beside_op(b),
        (forall|i: int| 0 <= i < a.len() ==> (#[trigger] a[i]).0 != YamlView::Text("op"@))
            <==> beside_op(a) == a,
        (forall|i: int| 0 <= i < a.len() ==> (#[trigger] a[i]).0 == YamlView::Text("op"@))
            <==> beside_op(a).len() == 0,
    decreases a.len() + b.len(),
{
    if b.len() == 0 {
        assert(a + b =~= a);
        assert(beside_op(a) + beside_op(b) =~= beside_op(a));
        if a.len() > 0 {
            let head = a.drop_last();
            law_all_but_op_stands_beside_it(head, b);
            assert(a =~= head.push(a.last()));
            lemma_no_more(head);
            if forall|i: int| 0 <= i < a.len() ==> (#[trigger] a[i]).0 != YamlView::Text("op"@) {
                assert forall|i: int| 0 <= i < head.len() implies (#[trigger] head[i]).0
                    != YamlView::Text("op"@) by {
                    assert(a[i].0 != YamlView::Text("op"@));
                }
                assert(a[a.len() - 1].0 != YamlView::Text("op"@));
            }
            if beside_op(a) == a {
                assert(!names_op(a.last()));
                assert(beside_op(head) =~= head) by {
                    assert(a.drop_last() =~= beside_op(head));
                }
                assert forall|i: int| 0 <= i < a.len() implies (#[trigger] a[i]).0
                    != YamlView::Text("op"@) by {
                    if i < head.len() {
                        assert(head[i].0 != YamlView::Text("op"@));
                    }
                }
            }
            if forall|i: int| 0 <= i < a.len() ==> (#[trigger] a[i]).0 == YamlView::Text("op"@) {
                assert forall|i: int| 0 <= i < head.len() implies (#[trigger] head[i]).0
                    == YamlView::Text("op"@) by {
                    assert(a[i].0 == YamlView::Text("op"@));
                }
                assert(a[a.len() - 1].0 == YamlView::Text("op"@));
            }
            if beside_op(a).len() == 0 {
                assert forall|i: int| 0 <= i < a.len() implies (#[trigger] a[i]).0
                    == YamlView::Text("op"@) by {
                    if i < head.len() {
                        assert(head[i].0 == YamlView::Text("op"@));
                    }
                }
            }
        } else {
            assert(beside_op(a) =~= a);
        }
    } else {
        let all = a + b;
        assert(all.drop_last() =~= a + b.drop_last());
        law_all_but_op_stands_beside_it(a, b.drop_last());
        assert(beside_op(all) =~= beside_op(a) + beside_op(b));
    }
}

/// Nothing is added beside `op`.
proof fn lemma_no_more(a: Seq<(YamlView, YamlView)>)
    ensures
        beside_op(a).len() <= a.len(),
    decreases a.len(),
{
    if a.len() > 0 {
        lemma_no_more(a.drop_last());
    }
}

/// An operation that sets a config is read from its three entries in whatever order
/// they stand, and comes out as it was written.
pub proof fn law_a_set_is_read_in_any_order(
    entries: Seq<(YamlView, YamlView)>,
    i: int,
    j: int,
    k: int,
    id: Seq<char>,
    config: YamlView,
)
    requires
        entries.len() == 3,
        0 <= i < 3,
        0 <= j < 3,
        0 <= k < 3,
        i != j,
        j != k,
        i != k,
        entries[i] == (YamlView::Text("op"@), YamlView::Text("set"@)),
        entries[j] == (YamlView::Text("id"@), YamlView::Text(id)),
        entries[k] == (YamlView::Text("config"@), config),
        tag_free(config),
    ensures
        op_of(YamlView::Mapping(entries)) == Some(OpView::SetConfig { id, config }),
{
    reveal_strlit("op");
    reveal_strlit("id");
    reveal_strlit("config");
    reveal_strlit("set");
    assert("op"@[0] == 'o' && "id"@[0] == 'i');
    assert("op"@.len() == 2 && "id"@.len() == 2 && "config"@.len() == 6);
    reveal_with_fuel(beside_op, 4);
    reveal_with_fuel(crate::config::decode::op_name, 4);
    let rest = beside_op(entries);
    assert(entries.drop_last().last() == entries[1]);
    assert(entries.drop_last().drop_last().last() == entries[0]);
    let want = if j < k {
        seq![entries[j], entries[k]]
    } else {
        seq![entries[k], entries[j]]
    };
    assert(rest =~= want);
    assert(tag_free(rest[0].0) && tag_free(rest[0].1) && tag_free(rest[1].0) && tag_free(rest[1].1));
    assert(tag_free(YamlView::Mapping(rest)));
}

/// An operation that comes out of a mapping says what the mapping says: one entry names
/// the operation, and what stands beside it is the id and the config to set, or the row
/// to insert.
pub proof fn law_an_operation_says_its_entries(entries: Seq<(YamlView, YamlView)>, op: OpView)
    requires
        op_of(YamlView::Mapping(entries)) == Some(op),
    ensures
        beside_op(entries).len() + 1 == entries.len(),
        tag_free(YamlView::Mapping(beside_op(entries))),
        op matches OpView::SetConfig { id, config } ==> beside_op(entries).len() == 2 && (exists|
            i: int,
        |
            0 <= i < 2 && (#[trigger] beside_op(entries)[i]).1 == YamlView::Text(id) && beside_op(
                entries,
            )[1 - i].1 == config) && names(entries, "set"@),
        op matches OpView::Insert { row } ==> row_of(YamlView::Mapping(beside_op(entries))) == Ok::<
            RowView,
            Seq<char>,
        >(row) && names(entries, "insert"@),
{
    lemma_named(entries);
    let rest = beside_op(entries);
    if op is SetConfig {
        if rest[0].1 == YamlView::Text(op->SetConfig_id) && rest[1].1 == op->SetConfig_config {
            assert(rest[0].1 == YamlView::Text(op->SetConfig_id) && rest[1 - 0].1
                == op->SetConfig_config);
        } else {
            assert(rest[1].1 == YamlView::Text(op->SetConfig_id) && rest[1 - 1].1
                == op->SetConfig_config);
        }
    }
}

/// Whether some entry names this operation.
pub open spec fn names(entries: Seq<(YamlView, YamlView)>, op: Seq<char>) -> bool {
    exists|i: int|
        0 <= i < entries.len() && (#[trigger] entries[i]).0 == YamlView::Text("op"@) && untagged(
            entries[i].1,
        ) == YamlView::Text(op)
}

proof fn lemma_named(entries: Seq<(YamlView, YamlView)>)
    ensures
        crate::config::decode::op_name(entries) matches Some(v) ==> exists|i: int|
            0 <= i < entries.len() && (#[trigger] entries[i]).0 == YamlView::Text("op"@)
                && untagged(entries[i].1) == v,
        crate::config::decode::op_name(entries) is None <==> forall|i: int|
            0 <= i < entries.len() ==> (#[trigger] entries[i]).0 != YamlView::Text("op"@),
    decreases entries.len(),
{
    if entries.len() > 0 {
        let head = entries.drop_last();
        lemma_named(head);
        assert(entries[entries.len() - 1] == entries.last());
        if !names_op(entries.last()) {
            if crate::config::decode::op_name(entries) is Some {
                let v = crate::config::decode::op_name(entries)->Some_0;
                let i = choose|i: int|
                    0 <= i < head.len() && (#[trigger] head[i]).0 == YamlView::Text("op"@)
                        && untagged(head[i].1) == v;
                assert(entries[i] == head[i]);
            } else {
                assert forall|i: int| 0 <= i < entries.len() implies (#[trigger] entries[i]).0
                    != YamlView::Text("op"@) by {
                    if i < head.len() {
                        assert(head[i].0 != YamlView::Text("op"@));
                    }
                }
            }
            if forall|i: int| 0 <= i < entries.len() ==> (#[trigger] entries[i]).0 != YamlView::Text(
                "op"@,
            ) {
                assert forall|i: int| 0 <= i < head.len() implies (#[trigger] head[i]).0
                    != YamlView::Text("op"@) by {
                    assert(entries[i].0 != YamlView::Text("op"@));
                }
            }
        }
    }
}

/// A mapping without an `op` entry is no operation.
pub proof fn law_an_operation_names_itself(entries: Seq<(YamlView, YamlView)>)
    requires
        forall|i: int|
            0 <= i < entries.len() ==> (#[trigger] entries[i]).0 != YamlView::Text("op"@),
    ensures
        op_of(YamlView::Mapping(entries)) is None,
{
    lemma_named(entries);
}

/// A tag anywhere beside `op` refuses the operation.
pub proof fn law_operations_hold_no_tags(
    entries: Seq<(YamlView, YamlView)>,
    i: int,
    tag: Seq<char>,
    inner: YamlView,
)
    requires
        0 <= i < beside_op(entries).len(),
        beside_op(entries)[i].1 == YamlView::Tagged(tag, Box::new(inner)),
    ensures
        op_of(YamlView::Mapping(entries)) is None,
{
    let rest = beside_op(entries);
    let v = YamlView::Mapping(rest);
    assert(!tag_free(rest[i].1));
    if tag_free(v) {
        assert(v matches YamlView::Mapping(es) && forall|k: int|
            0 <= k < es.len() ==> tag_free((#[trigger] es[k]).0) && tag_free(es[k].1));
        assert(tag_free(rest[i].1));
    }
    assert(!tag_free(v));
}

// ---------------------------------------------------------------------------
// Which fault is reported
// ---------------------------------------------------------------------------

/// The fault of a list of operations is that of its first bad item.
pub proof fn law_the_first_bad_operation_is_reported(items: Seq<YamlView>, k: int)
    requires
        0 <= k < items.len(),
        ops_of(items.take(k)) is Some,
        op_of(items[k]) is None,
    ensures
        ops_of(items) is None,
        ops_reason(items) == op_reason(items[k]),
    decreases items.len(),
{
    let head = items.drop_last();
    if k == items.len() - 1 {
        assert(items.take(k) =~= head);
    } else {
        assert(head.take(k) =~= items.take(k));
        law_the_first_bad_operation_is_reported(head, k);
    }
}

/// The fault of a list of texts is that of its first item that is none.
pub proof fn law_the_first_item_that_is_no_text_is_reported(items: Seq<YamlView>, k: int)
    requires
        0 <= k < items.len(),
        texts_of(items.take(k)) is Some,
        !(untagged(items[k]) is Text),
    ensures
        texts_of(items) is None,
        texts_reason(items) == invalid(items[k], "a string"@),
    decreases items.len(),
{
    let head = items.drop_last();
    if k == items.len() - 1 {
        assert(items.take(k) =~= head);
    } else {
        assert(head.take(k) =~= items.take(k));
        law_the_first_item_that_is_no_text_is_reported(head, k);
    }
}

/// A fault in front hides every fault behind it: of a mapping of fields, of the entries
/// of an operation, and of what a set operation holds.
pub proof fn law_the_first_faulty_entry_is_reported(
    a: Seq<(YamlView, YamlView)>,
    b: Seq<(YamlView, YamlView)>,
    allowed: Seq<&'static str>,
    fault: spec_fn(Seq<char>, YamlView) -> Option<Seq<char>>,
)
    ensures
        first_fault(a, allowed, fault) is Some ==> first_fault(a + b, allowed, fault)
            == first_fault(a, allowed, fault),
        op_fault(a) is Some ==> op_fault(a + b) == op_fault(a),
        set_fault(a) is Some ==> set_fault(a + b) == set_fault(a),
    decreases b.len(),
{
    if b.len() == 0 {
        assert(a + b =~= a);
    } else {
        assert((a + b).drop_last() =~= a + b.drop_last());
        law_the_first_faulty_entry_is_reported(a, b.drop_last(), allowed, fault);
    }
}

/// The first of its kind is found where there is one, and nothing in front of it is of
/// that kind.
pub proof fn law_the_first_of_a_kind_is_found(
    entries: Seq<(YamlView, YamlView)>,
    what: spec_fn((YamlView, YamlView)) -> bool,
)
    ensures
        first_of(entries, what) is None <==> forall|i: int|
            0 <= i < entries.len() ==> !what(#[trigger] entries[i]),
        first_of(entries, what) matches Some(e) ==> exists|i: int|
            0 <= i < entries.len() && #[trigger] entries[i] == e && what(e) && forall|j: int|
                0 <= j < i ==> !what(#[trigger] entries[j]),
    decreases entries.len(),
{
    if entries.len() > 0 {
        let head = entries.drop_last();
        law_the_first_of_a_kind_is_found(head, what);
        let n = entries.len() - 1;
        assert(entries[n] == entries.last());
        match first_of(head, what) {
            Some(e) => {
                let i = choose|i: int|
                    0 <= i < head.len() && #[trigger] head[i] == e && what(e) && forall|j: int|
                        0 <= j < i ==> !what(#[trigger] head[j]);
                assert(entries[i] == e);
                assert forall|j: int| 0 <= j < i implies !what(#[trigger] entries[j]) by {
                    assert(!what(head[j]));
                }
            },
            None => {
                assert forall|j: int| 0 <= j < n implies !what(#[trigger] entries[j]) by {
                    assert(!what(head[j]));
                }
            },
        }
    }
}

/// Where every field that is there is sound, the fault is the field that is missing.
pub proof fn law_a_missing_field_is_named(name: Seq<char>)
    ensures
        occurs(missing(name), name),
        row_reason(YamlView::Null) == missing("id"@),
        row_reason(YamlView::Mapping(Seq::empty())) == missing("id"@),
{
    reveal_strlit("missing field ");
    reveal_strlit("`");
    let text = missing(name);
    assert(text.subrange(15, 15 + name.len() as int) =~= name);
    assert(occurs_at(text, name, 15));
}

} // verus!
