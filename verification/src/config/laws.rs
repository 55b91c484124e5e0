//! What is written of a document reads back as that document.

use vstd::prelude::*;

use crate::config::decode::{
    beside_op, bundle_of, doc_of, fields, known, layer_of, named, names_op, op_name, op_of, ops_of,
    profile_of, row_from, row_of, rows_of, tag_free, texts_of, BUNDLE_FIELDS, DOC_FIELDS,
    LAYER_FIELDS, PROFILE_FIELDS, ROW_FIELDS,
};
use crate::config::doc::{
    bundle_text, doc_text, layer_text, profile_text, BundleView, DocView, LayerView, OpView,
    ProfileView, RowView,
};
use crate::config::encode::{
    bundle_value, doc_value, layer_value, op_value, profile_value, row_entries, row_value, text,
};
use crate::config::error::ConfigErrorView;
use crate::yaml::{firm, gives_back, untagged, written, YamlView};

verus! {

/// The field names differ from each other.
pub proof fn lemma_names()
    ensures
        "op"@ != "id"@,
        "op"@ != "plugin"@,
        "op"@ != "config"@,
        "set"@ != "insert"@,
        "id"@ != "plugin"@,
        "id"@ != "config"@,
        "plugin"@ != "config"@,
        "name"@ != "rows"@,
        "name"@ != "patch"@,
        "name"@ != "bundles"@,
        "name"@ != "system_prompt"@,
        "name"@ != "model"@,
        "rows"@ != "patch"@,
        "rows"@ != "bundles"@,
        "rows"@ != "system_prompt"@,
        "rows"@ != "model"@,
        "patch"@ != "bundles"@,
        "patch"@ != "system_prompt"@,
        "patch"@ != "model"@,
        "bundles"@ != "system_prompt"@,
        "bundles"@ != "model"@,
        "system_prompt"@ != "model"@,
{
    reveal_strlit("op");
    reveal_strlit("set");
    reveal_strlit("insert");
    reveal_strlit("id");
    reveal_strlit("plugin");
    reveal_strlit("config");
    reveal_strlit("name");
    reveal_strlit("rows");
    reveal_strlit("patch");
    reveal_strlit("bundles");
    reveal_strlit("system_prompt");
    reveal_strlit("model");
    assert("set"@.len() == 3 && "insert"@.len() == 6);
    assert("bundles"@.len() == 7 && "system_prompt"@.len() == 13);
    assert("op"@[0] == 'o' && "id"@[0] == 'i');
    assert("plugin"@[0] == 'p' && "config"@[0] == 'c');
    assert("name"@[0] == 'n' && "rows"@[0] == 'r');
    assert("patch"@[0] == 'p' && "model"@[0] == 'm');
}

/// The fields of a mapping whose keys are known names, each once.
pub proof fn lemma_fields(
    entries: Seq<(YamlView, YamlView)>,
    names: Seq<Seq<char>>,
    allowed: Seq<&'static str>,
)
    requires
        entries.len() == names.len(),
        forall|i: int| 0 <= i < names.len() ==> (#[trigger] entries[i]).0 == text(names[i]),
        forall|i: int| 0 <= i < names.len() ==> known(allowed, #[trigger] names[i]),
        forall|i: int, j: int| 0 <= i < j < names.len() ==> names[i] != names[j],
    ensures
        fields(entries, allowed) == Some(
            Seq::new(names.len(), |i: int| (names[i], entries[i].1)),
        ),
        forall|i: int|
            0 <= i < names.len() ==> named(
                Seq::new(names.len(), |k: int| (names[k], entries[k].1)),
                #[trigger] names[i],
            ) == Some(entries[i].1),
    decreases entries.len(),
{
    let f = Seq::new(names.len(), |i: int| (names[i], entries[i].1));
    if entries.len() > 0 {
        let short = entries.drop_last();
        let less = names.drop_last();
        assert forall|i: int| 0 <= i < less.len() implies (#[trigger] short[i]).0 == text(
            less[i],
        ) by {
            assert(short[i] == entries[i]);
        }
        lemma_fields(short, less, allowed);
        let g = Seq::new(less.len(), |i: int| (less[i], short[i].1));
        assert(f.drop_last() =~= g);
        let last = names[names.len() - 1];
        assert(entries.last().0 == text(last));
        lemma_absent(g, last);
        assert(g.push((last, entries.last().1)) =~= f);
        assert forall|i: int| 0 <= i < names.len() implies named(f, #[trigger] names[i]) == Some(
            entries[i].1,
        ) by {
            if i < less.len() {
                assert(less[i] == names[i]);
            }
        }
    } else {
        assert(f =~= Seq::empty());
    }
}

/// A name no field has is not found.
proof fn lemma_absent(f: Seq<(Seq<char>, YamlView)>, name: Seq<char>)
    requires
        forall|i: int| 0 <= i < f.len() ==> (#[trigger] f[i]).0 != name,
    ensures
        named(f, name) is None,
    decreases f.len(),
{
    if f.len() > 0 {
        assert(f[f.len() - 1].0 != name);
        lemma_absent(f.drop_last(), name);
    }
}

/// A row reads back from the node it is written as.
pub proof fn law_rows_read_back(r: RowView)
    ensures
        row_of(row_value(r)) == Ok::<RowView, Seq<char>>(r),
{
    lemma_row_fields(r);
}

proof fn lemma_row_fields(r: RowView)
    ensures
        fields(row_entries(r), ROW_FIELDS@) matches Some(f) && row_from(f) == Some(r),
{
    lemma_names();
    let names = seq!["id"@, "plugin"@, "config"@];
    let allowed = ROW_FIELDS@;
    assert(allowed[0]@ == names[0] && allowed[1]@ == names[1] && allowed[2]@ == names[2]);
    let e = row_entries(r);
    lemma_fields(e, names, allowed);
    let f = Seq::new(names.len(), |i: int| (names[i], e[i].1));
    assert(named(f, names[0]) == Some(e[0].1));
    assert(named(f, names[1]) == Some(e[1].1));
    assert(named(f, names[2]) == Some(e[2].1));
}

/// A list of rows reads back from the nodes it is written as.
proof fn lemma_rows(rows: Seq<RowView>)
    ensures
        rows_of(rows.map_values(|r: RowView| row_value(r))) == Ok::<Seq<RowView>, Seq<char>>(rows),
    decreases rows.len(),
{
    let items = rows.map_values(|r: RowView| row_value(r));
    if rows.len() > 0 {
        lemma_rows(rows.drop_last());
        assert(items.drop_last() =~= rows.drop_last().map_values(|r: RowView| row_value(r)));
        law_rows_read_back(rows.last());
        assert(rows.drop_last().push(rows.last()) =~= rows);
    } else {
        assert(rows =~= Seq::empty());
    }
}

/// Whether an operation holds no tag.
pub open spec fn op_tag_free(o: OpView) -> bool {
    match o {
        OpView::SetConfig { config, .. } => tag_free(config),
        OpView::Insert { row } => tag_free(row.config),
    }
}

/// No operation of a patch holds a tag.
pub open spec fn ops_tag_free(ops: Seq<OpView>) -> bool {
    forall|i: int| 0 <= i < ops.len() ==> op_tag_free(#[trigger] ops[i])
}

/// An operation without tags reads back from the node it is written as.
pub proof fn law_operations_read_back(o: OpView)
    requires
        op_tag_free(o),
    ensures
        op_of(op_value(o)) == Some(o),
{
    lemma_names();
    let entries = op_value(o)->Mapping_0;
    let rest = entries.skip(1);
    lemma_beside_op(entries);
    match o {
        OpView::SetConfig { id, config } => {
            assert(rest =~= seq![(text("id"@), text(id)), (text("config"@), config)]);
        },
        OpView::Insert { row } => {
            assert(rest =~= row_entries(row));
            lemma_row_fields(row);
        },
    }
    let whole = YamlView::Mapping(rest);
    assert forall|i: int| 0 <= i < rest.len() implies tag_free(
        (#[trigger] whole->Mapping_0[i]).0,
    ) && tag_free(whole->Mapping_0[i].1) by {
        assert(rest[i].0 is Text);
        assert(rest[i].1 is Text || tag_free(rest[i].1));
    }
    assert(tag_free(whole));
}

/// Behind the entry that names the operation stand the others.
proof fn lemma_beside_op(entries: Seq<(YamlView, YamlView)>)
    requires
        entries.len() > 0,
        entries[0].0 == text("op"@),
        forall|i: int| 1 <= i < entries.len() ==> (#[trigger] entries[i]).0 != text("op"@),
    ensures
        beside_op(entries) == entries.skip(1),
        op_name(entries) == Some(untagged(entries[0].1)),
    decreases entries.len(),
{
    if entries.len() > 1 {
        assert(entries[entries.len() - 1].0 != text("op"@));
        lemma_beside_op(entries.drop_last());
        assert(entries.drop_last().skip(1).push(entries.last()) =~= entries.skip(1));
    } else {
        assert(names_op(entries.last()));
        assert(beside_op(entries.drop_last()) =~= Seq::empty());
        assert(entries.skip(1) =~= Seq::empty());
    }
}

proof fn lemma_ops(ops: Seq<OpView>)
    requires
        forall|i: int| 0 <= i < ops.len() ==> op_tag_free(#[trigger] ops[i]),
    ensures
        ops_of(ops.map_values(|o: OpView| op_value(o))) == Some(ops),
    decreases ops.len(),
{
    let items = ops.map_values(|o: OpView| op_value(o));
    if ops.len() > 0 {
        assert forall|i: int| 0 <= i < ops.len() - 1 implies op_tag_free(
            #[trigger] ops.drop_last()[i],
        ) by {
            assert(ops.drop_last()[i] == ops[i]);
        }
        lemma_ops(ops.drop_last());
        assert(items.drop_last() =~= ops.drop_last().map_values(|o: OpView| op_value(o)));
        law_operations_read_back(ops[ops.len() - 1]);
        assert(ops.drop_last().push(ops.last()) =~= ops);
    } else {
        assert(ops =~= Seq::empty());
    }
}

proof fn lemma_texts(names: Seq<Seq<char>>)
    ensures
        texts_of(names.map_values(|s: Seq<char>| text(s))) == Some(names),
    decreases names.len(),
{
    let items = names.map_values(|s: Seq<char>| text(s));
    if names.len() > 0 {
        lemma_texts(names.drop_last());
        assert(items.drop_last() =~= names.drop_last().map_values(|s: Seq<char>| text(s)));
        assert(names.drop_last().push(names.last()) =~= names);
    } else {
        assert(names =~= Seq::empty());
    }
}

/// A layer whose operations hold no tag reads back from the node it is written
/// as.
pub proof fn law_layers_read_back(l: LayerView)
    requires
        ops_tag_free(l.patch),
    ensures
        layer_of(layer_value(l)) == Ok::<LayerView, Seq<char>>(l),
{
    lemma_names();
    let names = seq!["name"@, "rows"@, "patch"@];
    let allowed = LAYER_FIELDS@;
    assert(allowed[0]@ == names[0] && allowed[1]@ == names[1] && allowed[2]@ == names[2]);
    let e = layer_value(l)->Mapping_0;
    lemma_fields(e, names, allowed);
    let f = Seq::new(names.len(), |i: int| (names[i], e[i].1));
    assert(named(f, names[0]) == Some(e[0].1));
    assert(named(f, names[1]) == Some(e[1].1));
    assert(named(f, names[2]) == Some(e[2].1));
    lemma_rows(l.rows);
    lemma_ops(l.patch);
}

/// A bundle reads back from the node it is written as.
pub proof fn law_bundles_read_back(b: BundleView)
    ensures
        bundle_of(bundle_value(b)) == Ok::<BundleView, Seq<char>>(b),
{
    lemma_names();
    let names = seq!["name"@, "rows"@];
    let allowed = BUNDLE_FIELDS@;
    assert(allowed[0]@ == names[0] && allowed[1]@ == names[1]);
    let e = bundle_value(b)->Mapping_0;
    lemma_fields(e, names, allowed);
    let f = Seq::new(names.len(), |i: int| (names[i], e[i].1));
    assert(named(f, names[0]) == Some(e[0].1));
    assert(named(f, names[1]) == Some(e[1].1));
    lemma_rows(b.rows);
}

/// A profile whose operations hold no tag, and whose model is not a null node,
/// reads back from the node it is written as.
pub proof fn law_profiles_read_back(p: ProfileView)
    requires
        ops_tag_free(p.patch),
        p.model != Some(YamlView::Null),
    ensures
        profile_of(profile_value(p)) == Ok::<ProfileView, Seq<char>>(p),
{
    lemma_names();
    let names = seq!["name"@, "bundles"@, "rows"@, "patch"@, "system_prompt"@, "model"@];
    let allowed = PROFILE_FIELDS@;
    assert(allowed[0]@ == names[0] && allowed[1]@ == names[1] && allowed[2]@ == names[2]);
    assert(allowed[3]@ == names[3] && allowed[4]@ == names[4] && allowed[5]@ == names[5]);
    let e = profile_value(p)->Mapping_0;
    lemma_fields(e, names, allowed);
    let f = Seq::new(names.len(), |i: int| (names[i], e[i].1));
    assert(named(f, names[0]) == Some(e[0].1));
    assert(named(f, names[1]) == Some(e[1].1));
    assert(named(f, names[2]) == Some(e[2].1));
    assert(named(f, names[3]) == Some(e[3].1));
    assert(named(f, names[4]) == Some(e[4].1));
    assert(named(f, names[5]) == Some(e[5].1));
    lemma_texts(p.bundles);
    lemma_rows(p.rows);
    lemma_ops(p.patch);
}

/// A composed document whose model is not a null node reads back from the node
/// it is written as.
pub proof fn law_composed_documents_read_back(d: DocView)
    requires
        d.model != Some(YamlView::Null),
    ensures
        doc_of(doc_value(d)) == Ok::<DocView, Seq<char>>(d),
{
    lemma_names();
    let names = seq!["name"@, "rows"@, "system_prompt"@, "model"@];
    let allowed = DOC_FIELDS@;
    assert(allowed[0]@ == names[0] && allowed[1]@ == names[1] && allowed[2]@ == names[2]);
    assert(allowed[3]@ == names[3]);
    let e = doc_value(d)->Mapping_0;
    lemma_fields(e, names, allowed);
    let f = Seq::new(names.len(), |i: int| (names[i], e[i].1));
    assert(named(f, names[0]) == Some(e[0].1));
    assert(named(f, names[1]) == Some(e[1].1));
    assert(named(f, names[2]) == Some(e[2].1));
    assert(named(f, names[3]) == Some(e[3].1));
    lemma_rows(d.rows);
}

/// A mapping without an `op` field is no operation.
proof fn lemma_no_op(entries: Seq<(YamlView, YamlView)>)
    requires
        forall|i: int| 0 <= i < entries.len() ==> !names_op(#[trigger] entries[i]),
    ensures
        op_name(entries) is None,
    decreases entries.len(),
{
    if entries.len() > 0 {
        assert(!names_op(entries[entries.len() - 1]));
        assert forall|i: int| 0 <= i < entries.len() - 1 implies !names_op(
            #[trigger] entries.drop_last()[i],
        ) by {
            assert(entries.drop_last()[i] == entries[i]);
        }
        lemma_no_op(entries.drop_last());
    }
}

/// What a dump prints reloads as the dumped document. A model that is a null
/// node reloads as no model, and a text at the very end loses the line feed or
/// the soft white space that it ends in, since loading drops the white space
/// around the text.
pub proof fn law_a_dump_reloads(d: DocView, dump: Seq<char>)
    requires
        d.model != Some(YamlView::Null),
        gives_back(dump, doc_value(d)),
        firm(doc_value(d)),
    ensures
        doc_text(dump) == Ok::<DocView, ConfigErrorView>(d),
{
    law_composed_documents_read_back(d);
}

/// A document that was loaded from a dump is dumped as the same text again.
pub proof fn law_a_reload_dumps_the_same(d: DocView, dump: Seq<char>)
    requires
        d.model != Some(YamlView::Null),
        written(doc_value(d)) == Some(dump),
        gives_back(dump, doc_value(d)),
        firm(doc_value(d)),
    ensures
        doc_text(dump) matches Ok(loaded) && written(doc_value(loaded)) == Some(dump),
{
    law_a_dump_reloads(d, dump);
}

/// The text of a bundle loads as that bundle, but for soft white space at its
/// very end.
pub proof fn law_a_written_bundle_loads(b: BundleView, dump: Seq<char>)
    requires
        gives_back(dump, bundle_value(b)),
        firm(bundle_value(b)),
    ensures
        bundle_text(dump) == Ok::<BundleView, ConfigErrorView>(b),
{
    law_bundles_read_back(b);
}

/// The text of a profile loads as that profile, but for soft white space at its
/// very end. A model that is a null node loads as no model, and a patch operation
/// that holds a tag is refused.
pub proof fn law_a_written_profile_loads(p: ProfileView, dump: Seq<char>)
    requires
        p.model != Some(YamlView::Null),
        ops_tag_free(p.patch),
        gives_back(dump, profile_value(p)),
        firm(profile_value(p)),
    ensures
        profile_text(dump) == Ok::<ProfileView, ConfigErrorView>(p),
{
    law_profiles_read_back(p);
}

/// The text of a layer loads as that layer, but for soft white space at its very
/// end. A patch operation that holds a tag is refused.
pub proof fn law_a_written_layer_loads(l: LayerView, dump: Seq<char>)
    requires
        ops_tag_free(l.patch),
        gives_back(dump, layer_value(l)),
        firm(layer_value(l)),
    ensures
        layer_text(dump) == Ok::<LayerView, ConfigErrorView>(l),
{
    lemma_names();
    let entries = layer_value(l)->Mapping_0;
    law_layers_read_back(l);
    reveal_strlit("op");
    reveal_strlit("name");
    reveal_strlit("rows");
    reveal_strlit("patch");
    assert("op"@.len() == 2 && "name"@.len() == 4 && "rows"@.len() == 4 && "patch"@.len() == 5);
    lemma_no_op(entries);
}

} // verus!
