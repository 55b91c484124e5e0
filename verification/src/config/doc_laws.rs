//! What documents say: every field counts, by its name and wherever it stands, and
//! nothing else is taken.

use vstd::prelude::*;

use crate::config::decode::{
    bundle_of, doc_of, fields, known, layer_of, named, op_of, ops_of, profile_of, row_of, rows_of,
    texts_of, BUNDLE_FIELDS, DOC_FIELDS, LAYER_FIELDS, PROFILE_FIELDS, ROW_FIELDS,
};
use crate::config::dir_store::{below, stem, stems};
use crate::config::doc::{
    bundle_text, doc_text, layer_from, profile_text, BundleView, DocView, LayerView, OpView,
    ProfileView, RowView,
};
use crate::config::error::Stage;
use crate::text::{ends_in, occurs_at};
use crate::yaml::{untagged, YamlView};

verus! {

/// Whether an entry of this name says this.
pub open spec fn says(entries: Seq<(YamlView, YamlView)>, name: Seq<char>, v: YamlView) -> bool {
    exists|i: int|
        0 <= i < entries.len() && untagged((#[trigger] entries[i]).0) == YamlView::Text(name)
            && entries[i].1 == v
}

/// Whether no entry has this name.
pub open spec fn silent(entries: Seq<(YamlView, YamlView)>, name: Seq<char>) -> bool {
    forall|i: int|
        0 <= i < entries.len() ==> untagged((#[trigger] entries[i]).0) != YamlView::Text(name)
}

/// The fields of a mapping are its entries, one for one: every key is one of the
/// names the document has, and no name stands twice.
pub proof fn law_fields_are_known_and_single(
    entries: Seq<(YamlView, YamlView)>,
    allowed: Seq<&'static str>,
)
    ensures
        match fields(entries, allowed) {
            Some(f) => {
                &&& f.len() == entries.len()
                &&& forall|i: int|
                    0 <= i < entries.len() ==> untagged((#[trigger] entries[i]).0)
                        == YamlView::Text(f[i].0) && f[i].1 == entries[i].1 && known(
                        allowed,
                        f[i].0,
                    )
                &&& forall|i: int, j: int|
                    0 <= i < j < f.len() ==> (#[trigger] f[i]).0 != (#[trigger] f[j]).0
            },
            None => {
                ||| exists|i: int|
                    0 <= i < entries.len() && !(untagged((#[trigger] entries[i]).0) is Text)
                ||| exists|i: int|
                    0 <= i < entries.len() && (untagged((#[trigger] entries[i]).0) matches
                        YamlView::Text(name) && !known(allowed, name))
                ||| exists|i: int, j: int|
                    0 <= i < j < entries.len() && untagged((#[trigger] entries[i]).0) == untagged(
                        (#[trigger] entries[j]).0,
                    )
            },
        },
    decreases entries.len(),
{
    if entries.len() > 0 {
        let head = entries.drop_last();
        let n = entries.len() - 1;
        law_fields_are_known_and_single(head, allowed);
        match fields(head, allowed) {
            Some(done) => {
                if let YamlView::Text(name) = untagged(entries.last().0) {
                    lemma_named_at(done, name);
                    if known(allowed, name) && named(done, name) is None {
                        let f = done.push((name, entries.last().1));
                        assert forall|i: int| 0 <= i < entries.len() implies untagged(
                            (#[trigger] entries[i]).0,
                        ) == YamlView::Text(f[i].0) && f[i].1 == entries[i].1 && known(
                            allowed,
                            f[i].0,
                        ) by {
                            if i < n {
                                assert(head[i] == entries[i]);
                            }
                        }
                    } else if known(allowed, name) {
                        let i = choose|i: int| 0 <= i < done.len() && (#[trigger] done[i]).0 == name;
                        assert(head[i] == entries[i]);
                        assert(untagged(entries[i].0) == untagged(entries[n].0));
                    } else {
                        assert(untagged(entries[n].0) == YamlView::Text(name));
                    }
                } else {
                    assert(!(untagged(entries[n].0) is Text));
                }
            },
            None => {
                if exists|i: int|
                    0 <= i < head.len() && !(untagged((#[trigger] head[i]).0) is Text) {
                    let i = choose|i: int|
                        0 <= i < head.len() && !(untagged((#[trigger] head[i]).0) is Text);
                    assert(entries[i] == head[i]);
                } else if exists|i: int|
                    0 <= i < head.len() && (untagged((#[trigger] head[i]).0) matches YamlView::Text(
                        name,
                    ) && !known(allowed, name)) {
                    let i = choose|i: int|
                        0 <= i < head.len() && (untagged((#[trigger] head[i]).0) matches
                            YamlView::Text(name) && !known(allowed, name));
                    assert(entries[i] == head[i]);
                } else {
                    let (i, j) = choose|i: int, j: int|
                        0 <= i < j < head.len() && untagged((#[trigger] head[i]).0) == untagged(
                            (#[trigger] head[j]).0,
                        );
                    assert(entries[i] == head[i] && entries[j] == head[j]);
                }
            },
        }
    }
}

proof fn lemma_named_at(f: Seq<(Seq<char>, YamlView)>, name: Seq<char>)
    ensures
        match named(f, name) {
            Some(v) => exists|i: int|
                0 <= i < f.len() && (#[trigger] f[i]).0 == name && f[i].1 == v,
            None => forall|i: int| 0 <= i < f.len() ==> (#[trigger] f[i]).0 != name,
        },
    decreases f.len(),
{
    if f.len() > 0 {
        let head = f.drop_last();
        lemma_named_at(head, name);
        if let Some(v) = named(head, name) {
            let i = choose|i: int| 0 <= i < head.len() && (#[trigger] head[i]).0 == name && head[i].1 == v;
            assert(f[i] == head[i]);
        } else {
            assert forall|i: int| 0 <= i < f.len() - 1 implies (#[trigger] f[i]).0 != name by {
                assert(head[i] == f[i]);
            }
            if f.last().0 == name {
                assert(f[f.len() - 1].0 == name);
            }
        }
    }
}

/// What a field says is what its entry says, wherever it stands.
proof fn lemma_field(
    entries: Seq<(YamlView, YamlView)>,
    allowed: Seq<&'static str>,
    name: Seq<char>,
)
    requires
        fields(entries, allowed) is Some,
    ensures
        match named(fields(entries, allowed)->Some_0, name) {
            Some(v) => says(entries, name, v) && forall|w: YamlView| #[trigger]
                says(entries, name, w) ==> w == v,
            None => silent(entries, name),
        },
{
    let f = fields(entries, allowed)->Some_0;
    law_fields_are_known_and_single(entries, allowed);
    lemma_named_at(f, name);
    if let Some(v) = named(f, name) {
        let i = choose|i: int| 0 <= i < f.len() && (#[trigger] f[i]).0 == name && f[i].1 == v;
        assert(untagged(entries[i].0) == YamlView::Text(name));
        assert forall|w: YamlView| #[trigger] says(entries, name, w) implies w == v by {
            let j = choose|j: int|
                0 <= j < entries.len() && untagged((#[trigger] entries[j]).0) == YamlView::Text(name)
                    && entries[j].1 == w;
            assert(f[j].0 == name);
            if i < j {
                assert(f[i].0 != f[j].0);
            } else if j < i {
                assert(f[j].0 != f[i].0);
            }
        }
    } else {
        assert forall|i: int| 0 <= i < entries.len() implies untagged((#[trigger] entries[i]).0)
            != YamlView::Text(name) by {
            assert(f[i].0 != name);
        }
    }
}

/// Rows, operations and names are read one for one, in order.
pub proof fn law_lists_are_read_item_by_item(items: Seq<YamlView>)
    ensures
        rows_of(items) matches Ok(rows) ==> rows.len() == items.len() && forall|i: int|
            0 <= i < items.len() ==> row_of(items[i]) == Ok::<RowView, Seq<char>>(
                #[trigger] rows[i],
            ),
        ops_of(items) matches Some(ops) ==> ops.len() == items.len() && forall|i: int|
            0 <= i < items.len() ==> op_of(items[i]) == Some(#[trigger] ops[i]),
        texts_of(items) matches Some(names) ==> names.len() == items.len() && forall|i: int|
            0 <= i < items.len() ==> untagged(items[i]) == YamlView::Text(#[trigger] names[i]),
        rows_of(items) is Ok <==> forall|i: int|
            0 <= i < items.len() ==> row_of(#[trigger] items[i]) is Ok,
        ops_of(items) is Some <==> forall|i: int|
            0 <= i < items.len() ==> op_of(#[trigger] items[i]) is Some,
    decreases items.len(),
{
    if items.len() > 0 {
        let head = items.drop_last();
        let n = items.len() - 1;
        law_lists_are_read_item_by_item(head);
        assert forall|i: int| 0 <= i < n implies #[trigger] items[i] == head[i] by {
        }
        if let Ok(rows) = rows_of(items) {
            assert forall|i: int| 0 <= i < items.len() implies row_of(items[i]) == Ok::<
                RowView,
                Seq<char>,
            >(#[trigger] rows[i]) by {
                if i < n {
                    assert(rows_of(head)->Ok_0[i] == rows[i]);
                }
            }
            assert forall|i: int| 0 <= i < items.len() implies row_of(#[trigger] items[i]) is Ok by {
                assert(row_of(items[i]) == Ok::<RowView, Seq<char>>(rows[i]));
            }
        } else if forall|i: int| 0 <= i < items.len() ==> row_of(#[trigger] items[i]) is Ok {
            assert(row_of(items[n]) is Ok);
            assert forall|i: int| 0 <= i < head.len() implies row_of(#[trigger] head[i]) is Ok by {
                assert(row_of(items[i]) is Ok);
            }
        }
        if let Some(ops) = ops_of(items) {
            assert forall|i: int| 0 <= i < items.len() implies op_of(items[i]) == Some(
                #[trigger] ops[i],
            ) by {
                if i < n {
                    assert(ops_of(head)->Some_0[i] == ops[i]);
                }
            }
            assert forall|i: int| 0 <= i < items.len() implies op_of(#[trigger] items[i]) is Some by {
                assert(op_of(items[i]) == Some(ops[i]));
            }
        } else if forall|i: int| 0 <= i < items.len() ==> op_of(#[trigger] items[i]) is Some {
            assert(op_of(items[n]) is Some);
            assert forall|i: int| 0 <= i < head.len() implies op_of(#[trigger] head[i]) is Some by {
                assert(op_of(items[i]) is Some);
            }
        }
        if let Some(names) = texts_of(items) {
            assert forall|i: int| 0 <= i < items.len() implies untagged(items[i]) == YamlView::Text(
                #[trigger] names[i],
            ) by {
                if i < n {
                    assert(texts_of(head)->Some_0[i] == names[i]);
                }
            }
        }
    }
}

/// A row says its fields: its id and its plugin, whole, and its config as it stands, or
/// none.
pub proof fn law_a_row_says_its_fields(entries: Seq<(YamlView, YamlView)>, row: RowView)
    requires
        row_of(YamlView::Mapping(entries)) == Ok::<RowView, Seq<char>>(row),
    ensures
        exists|v: YamlView| #[trigger]
            says(entries, "id"@, v) && untagged(v) == YamlView::Text(row.id),
        exists|v: YamlView| #[trigger]
            says(entries, "plugin"@, v) && untagged(v) == YamlView::Text(row.plugin),
        says(entries, "config"@, row.config) || silent(entries, "config"@) && row.config is Null,
{
    lemma_field(entries, ROW_FIELDS@, "id"@);
    lemma_field(entries, ROW_FIELDS@, "plugin"@);
    lemma_field(entries, ROW_FIELDS@, "config"@);
}

/// A composed document says its fields.
pub proof fn law_a_document_says_its_fields(entries: Seq<(YamlView, YamlView)>, d: DocView)
    requires
        doc_of(YamlView::Mapping(entries)) == Ok::<DocView, Seq<char>>(d),
    ensures
        exists|v: YamlView| #[trigger]
            says(entries, "name"@, v) && untagged(v) == YamlView::Text(d.name),
        silent(entries, "rows"@) ==> d.rows.len() == 0,
        forall|v: YamlView| #[trigger]
            says(entries, "rows"@, v) ==> (untagged(v) matches YamlView::Sequence(items) && rows_of(
                items,
            ) == Ok::<Seq<RowView>, Seq<char>>(d.rows)) || untagged(v) is Null && d.rows.len() == 0,
        silent(entries, "system_prompt"@) ==> d.system_prompt is None,
        forall|v: YamlView| #[trigger]
            says(entries, "system_prompt"@, v) ==> (untagged(v) matches YamlView::Text(s)
                && d.system_prompt == Some(s)) || v is Null && d.system_prompt is None,
        silent(entries, "model"@) ==> d.model is None,
        forall|v: YamlView| #[trigger]
            says(entries, "model"@, v) ==> d.model == (if v is Null {
                None
            } else {
                Some(v)
            }),
{
    lemma_field(entries, DOC_FIELDS@, "name"@);
    lemma_field(entries, DOC_FIELDS@, "rows"@);
    lemma_field(entries, DOC_FIELDS@, "system_prompt"@);
    lemma_field(entries, DOC_FIELDS@, "model"@);
}

/// A profile says its fields.
pub proof fn law_a_profile_says_its_fields(entries: Seq<(YamlView, YamlView)>, p: ProfileView)
    requires
        profile_of(YamlView::Mapping(entries)) == Ok::<ProfileView, Seq<char>>(p),
    ensures
        exists|v: YamlView| #[trigger]
            says(entries, "name"@, v) && untagged(v) == YamlView::Text(p.name),
        silent(entries, "bundles"@) ==> p.bundles.len() == 0,
        forall|v: YamlView| #[trigger]
            says(entries, "bundles"@, v) ==> (untagged(v) matches YamlView::Sequence(items)
                && texts_of(items) == Some(p.bundles)) || untagged(v) is Null && p.bundles.len()
                == 0,
        silent(entries, "rows"@) ==> p.rows.len() == 0,
        forall|v: YamlView| #[trigger]
            says(entries, "rows"@, v) ==> (untagged(v) matches YamlView::Sequence(items) && rows_of(
                items,
            ) == Ok::<Seq<RowView>, Seq<char>>(p.rows)) || untagged(v) is Null && p.rows.len() == 0,
        silent(entries, "patch"@) ==> p.patch.len() == 0,
        forall|v: YamlView| #[trigger]
            says(entries, "patch"@, v) ==> (untagged(v) matches YamlView::Sequence(items) && ops_of(
                items,
            ) == Some(p.patch)) || untagged(v) is Null && p.patch.len() == 0,
        silent(entries, "system_prompt"@) ==> p.system_prompt is None,
        forall|v: YamlView| #[trigger]
            says(entries, "system_prompt"@, v) ==> (untagged(v) matches YamlView::Text(s)
                && p.system_prompt == Some(s)) || v is Null && p.system_prompt is None,
        silent(entries, "model"@) ==> p.model is None,
        forall|v: YamlView| #[trigger]
            says(entries, "model"@, v) ==> p.model == (if v is Null {
                None
            } else {
                Some(v)
            }),
{
    lemma_field(entries, PROFILE_FIELDS@, "name"@);
    lemma_field(entries, PROFILE_FIELDS@, "bundles"@);
    lemma_field(entries, PROFILE_FIELDS@, "rows"@);
    lemma_field(entries, PROFILE_FIELDS@, "patch"@);
    lemma_field(entries, PROFILE_FIELDS@, "system_prompt"@);
    lemma_field(entries, PROFILE_FIELDS@, "model"@);
}

/// A bundle and a layer say their fields; a layer may go without a name.
pub proof fn law_bundles_and_layers_say_their_fields(
    entries: Seq<(YamlView, YamlView)>,
    b: BundleView,
    l: LayerView,
)
    ensures
        bundle_of(YamlView::Mapping(entries)) == Ok::<BundleView, Seq<char>>(b) ==> {
            &&& exists|v: YamlView| #[trigger]
                says(entries, "name"@, v) && untagged(v) == YamlView::Text(b.name)
            &&& silent(entries, "rows"@) ==> b.rows.len() == 0
            &&& forall|v: YamlView| #[trigger]
                says(entries, "rows"@, v) ==> (untagged(v) matches YamlView::Sequence(items)
                    && rows_of(items) == Ok::<Seq<RowView>, Seq<char>>(b.rows)) || untagged(
                    v,
                ) is Null && b.rows.len() == 0
        },
        layer_of(YamlView::Mapping(entries)) == Ok::<LayerView, Seq<char>>(l) ==> {
            &&& silent(entries, "name"@) ==> l.name.len() == 0
            &&& forall|v: YamlView| #[trigger]
                says(entries, "name"@, v) ==> untagged(v) == YamlView::Text(l.name)
            &&& silent(entries, "rows"@) ==> l.rows.len() == 0
            &&& forall|v: YamlView| #[trigger]
                says(entries, "rows"@, v) ==> (untagged(v) matches YamlView::Sequence(items)
                    && rows_of(items) == Ok::<Seq<RowView>, Seq<char>>(l.rows)) || untagged(
                    v,
                ) is Null && l.rows.len() == 0
            &&& silent(entries, "patch"@) ==> l.patch.len() == 0
            &&& forall|v: YamlView| #[trigger]
                says(entries, "patch"@, v) ==> (untagged(v) matches YamlView::Sequence(items)
                    && ops_of(items) == Some(l.patch)) || untagged(v) is Null && l.patch.len() == 0
        },
{
    if bundle_of(YamlView::Mapping(entries)) is Ok {
        lemma_field(entries, BUNDLE_FIELDS@, "name"@);
        lemma_field(entries, BUNDLE_FIELDS@, "rows"@);
    }
    if layer_of(YamlView::Mapping(entries)) is Ok {
        lemma_field(entries, LAYER_FIELDS@, "name"@);
        lemma_field(entries, LAYER_FIELDS@, "rows"@);
        lemma_field(entries, LAYER_FIELDS@, "patch"@);
    }
}

/// A field that a document does not have is refused, in every document, whatever else
/// it holds; so is a field that stands twice.
pub proof fn law_strange_fields_are_refused(
    entries: Seq<(YamlView, YamlView)>,
    i: int,
    j: int,
    name: Seq<char>,
)
    requires
        0 <= i < entries.len(),
        untagged(entries[i].0) == YamlView::Text(name),
    ensures
        name != "name"@ && name != "rows"@ && name != "system_prompt"@ && name != "model"@
            ==> doc_of(YamlView::Mapping(entries)) is Err,
        name != "name"@ && name != "rows"@ ==> bundle_of(YamlView::Mapping(entries)) is Err,
        name != "name"@ && name != "bundles"@ && name != "rows"@ && name != "patch"@ && name
            != "system_prompt"@ && name != "model"@ ==> profile_of(YamlView::Mapping(entries)) is Err,
        name != "name"@ && name != "rows"@ && name != "patch"@ ==> layer_of(
            YamlView::Mapping(entries),
        ) is Err,
        name != "id"@ && name != "plugin"@ && name != "config"@ ==> row_of(
            YamlView::Mapping(entries),
        ) is Err,
        i < j < entries.len() && untagged(entries[j].0) == YamlView::Text(name) ==> {
            &&& doc_of(YamlView::Mapping(entries)) is Err
            &&& bundle_of(YamlView::Mapping(entries)) is Err
            &&& profile_of(YamlView::Mapping(entries)) is Err
            &&& layer_of(YamlView::Mapping(entries)) is Err
            &&& row_of(YamlView::Mapping(entries)) is Err
        },
{
    law_fields_are_known_and_single(entries, DOC_FIELDS@);
    law_fields_are_known_and_single(entries, BUNDLE_FIELDS@);
    law_fields_are_known_and_single(entries, PROFILE_FIELDS@);
    law_fields_are_known_and_single(entries, LAYER_FIELDS@);
    law_fields_are_known_and_single(entries, ROW_FIELDS@);
    lemma_twice(entries, DOC_FIELDS@, i, j);
    lemma_twice(entries, BUNDLE_FIELDS@, i, j);
    lemma_twice(entries, PROFILE_FIELDS@, i, j);
    lemma_twice(entries, LAYER_FIELDS@, i, j);
    lemma_twice(entries, ROW_FIELDS@, i, j);
}

proof fn lemma_twice(
    entries: Seq<(YamlView, YamlView)>,
    allowed: Seq<&'static str>,
    i: int,
    j: int,
)
    requires
        0 <= i < entries.len(),
    ensures
        i < j < entries.len() && untagged(entries[i].0) is Text && untagged(entries[i].0)
            == untagged(entries[j].0) ==> fields(entries, allowed) is None,
{
    law_fields_are_known_and_single(entries, allowed);
    if fields(entries, allowed) is Some && i < j < entries.len() && untagged(entries[i].0)
        == untagged(entries[j].0) {
        let f = fields(entries, allowed)->Some_0;
        assert(f[i].0 != f[j].0);
        assert(untagged(entries[i].0) == YamlView::Text(f[i].0));
        assert(untagged(entries[j].0) == YamlView::Text(f[j].0));
    }
}

// ---------------------------------------------------------------------------
// Layers
// ---------------------------------------------------------------------------

/// A layer is what its node fits: nothing, rows, operations, or the first of an
/// operation, a layer, a row. Any failure is a bad patch.
pub proof fn law_a_layer_is_what_its_node_fits(v: YamlView)
    ensures
        v is Null ==> (layer_from(v) matches Ok(l) && l.rows.len() == 0 && l.patch.len() == 0),
        layer_from(v) matches Err(e) ==> e.code == "bad-patch"@ && e.stage == Stage::Patch,
        v is Bool || v is Number || v is Text || v is Tagged ==> layer_from(v) is Err,
        v matches YamlView::Sequence(items) ==> {
            &&& layer_from(v) is Ok <==> (rows_of(items) is Ok <==> ops_of(items) is None)
            &&& layer_from(v) matches Ok(l) ==> l.name.len() == 0 && (rows_of(items) == Ok::<
                Seq<RowView>,
                Seq<char>,
            >(l.rows) && l.patch.len() == 0 || ops_of(items) == Some(l.patch) && l.rows.len() == 0)
        },
        v is Mapping ==> {
            &&& op_of(v) matches Some(op) ==> (layer_from(v) matches Ok(l) && l.patch == seq![op]
                && l.rows.len() == 0)
            &&& op_of(v) is None ==> (layer_of(v) matches Ok(layer) ==> layer_from(v)
                == Ok::<LayerView, crate::config::error::ConfigErrorView>(layer))
            &&& op_of(v) is None && layer_of(v) is Err ==> (row_of(v) matches Ok(row) ==> (
            layer_from(v) matches Ok(l) && l.rows == seq![row] && l.patch.len() == 0))
        },
{
}

/// A patch that names the model alone sets the whole config of the model row, whatever
/// it says.
pub proof fn law_a_model_patch_sets_the_model_row(v: YamlView)
    ensures
        layer_from(YamlView::Mapping(seq![(YamlView::Text("model"@), v)])) matches Ok(l) && l.patch
            == seq![OpView::SetConfig { id: "model"@, config: v }] && l.rows.len() == 0,
{
    reveal_strlit("op");
    reveal_strlit("model");
    reveal_strlit("name");
    reveal_strlit("rows");
    reveal_strlit("patch");
    reveal_strlit("id");
    reveal_strlit("plugin");
    reveal_strlit("config");
    assert("op"@.len() == 2 && "model"@.len() == 5);
    let entries = seq![(YamlView::Text("model"@), v)];
    let node = YamlView::Mapping(entries);
    assert(untagged(entries[0].0) == YamlView::Text("model"@));
    law_strange_fields_are_refused(entries, 0, 0, "model"@);
    assert(entries.drop_last() =~= Seq::empty());
    assert(op_of(node) is None) by {
        assert(crate::config::decode::op_name(entries.drop_last()) is None);
        assert(entries.last().0 == YamlView::Text("model"@));
        assert(crate::config::decode::op_name(entries) is None);
    }
    assert("model"@ != "patch"@) by {
        assert("model"@[0] == 'm' && "patch"@[0] == 'p');
    }
    assert("name"@.len() == 4 && "rows"@.len() == 4 && "id"@.len() == 2);
    assert("plugin"@.len() == 6 && "config"@.len() == 6);
    assert(layer_of(node) is Err);
    assert(row_of(node) is Err);
    let ops = crate::config::doc::field_patch_of(entries);
    assert(crate::config::doc::MODEL_ROW_KEY@ == "model"@);
    assert(ops is Some);
    assert(ops->Some_0 =~= seq![OpView::SetConfig { id: "model"@, config: v }]);
}

/// A document that does not decode is refused with the code of its kind, in the compose
/// stage.
pub proof fn law_documents_fail_with_their_own_code(text: Seq<char>)
    ensures
        bundle_text(text) matches Err(e) ==> e.code == "bad-bundle"@ && e.stage == Stage::Compose,
        profile_text(text) matches Err(e) ==> e.code == "bad-profile"@ && e.stage == Stage::Compose,
        doc_text(text) matches Err(e) ==> e.code == "bad-config"@ && e.stage == Stage::Compose,
{
}

// ---------------------------------------------------------------------------
// Stored documents
// ---------------------------------------------------------------------------

/// The file of a document and its name are read from each other; a file of any other
/// kind stands for none.
pub proof fn law_a_file_stands_for_its_name(name: Seq<char>, file: Seq<char>)
    ensures
        name.len() > 0 ==> stem(name + ".yml"@) == Some(name),
        stem(file) matches Some(s) ==> s.len() > 0 && file == s + ".yml"@,
{
    reveal_strlit(".yml");
    let whole = name + ".yml"@;
    assert(whole.subrange(name.len() as int, whole.len() as int) =~= ".yml"@);
    assert(occurs_at(whole, ".yml"@, name.len() as int));
    assert(whole.take(name.len() as int) =~= name);
    if let Some(s) = stem(file) {
        assert(file =~= s + ".yml"@) by {
            assert(ends_in(file, ".yml"@));
            assert(file.subrange(file.len() - 4, file.len() as int) =~= ".yml"@);
            assert(file.skip(file.len() - 4) =~= ".yml"@);
        }
    }
}

/// Every file that stands for a name is listed, and no other.
pub proof fn law_every_stored_document_is_listed(a: Seq<Seq<char>>, b: Seq<Seq<char>>)
    ensures
        stems(a + b) == stems(a) + stems(b),
    decreases b.len(),
{
    if b.len() == 0 {
        assert(a + b =~= a);
        assert(stems(a) + stems(b) =~= stems(a));
    } else {
        law_every_stored_document_is_listed(a, b.drop_last());
        assert((a + b).drop_last() =~= a + b.drop_last());
        assert((a + b).last() == b.last());
        assert(stems(a + b) =~= stems(a) + stems(b));
    }
}

/// A path below a directory starts with the directory and ends in the name, with one
/// slash between them.
pub proof fn law_a_path_below_keeps_both_parts(dir: Seq<char>, name: Seq<char>)
    requires
        dir.len() > 0,
        name.len() > 0,
        name[0] != '/',
    ensures
        below(dir, name).take(dir.len() as int) == dir,
        below(dir, name).skip(below(dir, name).len() - name.len()) == name,
        below(dir, name).len() == dir.len() + name.len() + (if dir.last() == '/' {
            0int
        } else {
            1int
        }),
        below(dir, name)[below(dir, name).len() - name.len() - 1] == '/',
{
    reveal_strlit("/");
    let path = below(dir, name);
    assert(path.take(dir.len() as int) =~= dir);
    assert(path.skip(path.len() - name.len()) =~= name);
}

} // verus!
