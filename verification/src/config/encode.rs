//! The YAML node each document type is written as.

use vstd::prelude::*;

use crate::config::doc::{
    ops_view, rows_view, BundleDoc, BundleView, ConfigDoc, DocView, Layer, LayerView, OpView,
    PatchOp, ProfileSpec, ProfileView, Row, RowView,
};
use crate::text::{text_opt, texts};
use crate::yaml::{entries_view, items_view, value_opt, Yaml, YamlView};

verus! {

/// A text node.
pub open spec fn text(s: Seq<char>) -> YamlView {
    YamlView::Text(s)
}

/// The entries of a row.
pub open spec fn row_entries(r: RowView) -> Seq<(YamlView, YamlView)> {
    seq![
        (text("id"@), text(r.id)),
        (text("plugin"@), text(r.plugin)),
        (text("config"@), r.config),
    ]
}

/// A row as a node.
pub open spec fn row_value(r: RowView) -> YamlView {
    YamlView::Mapping(row_entries(r))
}

/// A list of rows as a node.
pub open spec fn rows_value(rows: Seq<RowView>) -> YamlView {
    YamlView::Sequence(rows.map_values(|r: RowView| row_value(r)))
}

/// An operation as a node: its name under `op`, and its own fields.
pub open spec fn op_value(o: OpView) -> YamlView {
    match o {
        OpView::SetConfig { id, config } => YamlView::Mapping(
            seq![
                (text("op"@), text("set"@)),
                (text("id"@), text(id)),
                (text("config"@), config),
            ],
        ),
        OpView::Insert { row } => YamlView::Mapping(
            seq![(text("op"@), text("insert"@))] + row_entries(row),
        ),
    }
}

/// A list of operations as a node.
pub open spec fn ops_value(ops: Seq<OpView>) -> YamlView {
    YamlView::Sequence(ops.map_values(|o: OpView| op_value(o)))
}

/// A list of texts as a node.
pub open spec fn texts_value(names: Seq<Seq<char>>) -> YamlView {
    YamlView::Sequence(names.map_values(|s: Seq<char>| text(s)))
}

/// An optional text as a node.
pub open spec fn text_opt_value(s: Option<Seq<char>>) -> YamlView {
    match s {
        Some(t) => text(t),
        None => YamlView::Null,
    }
}

/// An optional node as a node.
pub open spec fn node_opt_value(v: Option<YamlView>) -> YamlView {
    match v {
        Some(n) => n,
        None => YamlView::Null,
    }
}

/// A layer as a node.
pub open spec fn layer_value(l: LayerView) -> YamlView {
    YamlView::Mapping(
        seq![
            (text("name"@), text(l.name)),
            (text("rows"@), rows_value(l.rows)),
            (text("patch"@), ops_value(l.patch)),
        ],
    )
}

/// A bundle as a node.
pub open spec fn bundle_value(b: BundleView) -> YamlView {
    YamlView::Mapping(seq![(text("name"@), text(b.name)), (text("rows"@), rows_value(b.rows))])
}

/// A profile as a node.
pub open spec fn profile_value(p: ProfileView) -> YamlView {
    YamlView::Mapping(
        seq![
            (text("name"@), text(p.name)),
            (text("bundles"@), texts_value(p.bundles)),
            (text("rows"@), rows_value(p.rows)),
            (text("patch"@), ops_value(p.patch)),
            (text("system_prompt"@), text_opt_value(p.system_prompt)),
            (text("model"@), node_opt_value(p.model)),
        ],
    )
}

/// A composed document as a node.
pub open spec fn doc_value(d: DocView) -> YamlView {
    YamlView::Mapping(
        seq![
            (text("name"@), text(d.name)),
            (text("rows"@), rows_value(d.rows)),
            (text("system_prompt"@), text_opt_value(d.system_prompt)),
            (text("model"@), node_opt_value(d.model)),
        ],
    )
}

fn put(entries: &mut Vec<(Yaml, Yaml)>, key: &str, value: Yaml)
    ensures
        entries_view(final(entries)@) == entries_view(old(entries)@).push(
            (YamlView::Text(key@), value@),
        ),
{
    let ghost before = entries_view(entries@);
    entries.push((Yaml::text(key), value));
    assert(entries_view(entries@) =~= before.push((YamlView::Text(key@), value@)));
}

fn put_row(entries: &mut Vec<(Yaml, Yaml)>, row: &Row)
    ensures
        entries_view(final(entries)@) == entries_view(old(entries)@) + row_entries(row@),
{
    let ghost before = entries_view(entries@);
    put(entries, "id", Yaml::Text(row.id.clone()));
    put(entries, "plugin", Yaml::Text(row.plugin.clone()));
    put(entries, "config", row.config.copy());
    assert(entries_view(entries@) =~= before + row_entries(row@));
}

/// A row as a node.
pub fn encode_row(row: &Row) -> (r: Yaml)
    ensures
        r@ == row_value(row@),
{
    let mut entries: Vec<(Yaml, Yaml)> = Vec::new();
    put_row(&mut entries, row);
    assert(entries_view(entries@) =~= row_entries(row@));
    Yaml::Mapping(entries)
}

fn encode_rows(rows: &Vec<Row>) -> (r: Yaml)
    ensures
        r@ == rows_value(rows_view(rows@)),
{
    let mut items: Vec<Yaml> = Vec::new();
    for i in 0..rows.len()
        invariant
            items@.len() == i,
            forall|k: int| 0 <= k < i ==> (#[trigger] items@[k])@ == row_value(rows@[k]@),
    {
        items.push(encode_row(&rows[i]));
    }
    assert(items_view(items@) =~= rows_view(rows@).map_values(|r: RowView| row_value(r)));
    Yaml::Sequence(items)
}

/// An operation as a node.
pub fn encode_op(op: &PatchOp) -> (r: Yaml)
    ensures
        r@ == op_value(op@),
{
    let mut entries: Vec<(Yaml, Yaml)> = Vec::new();
    match op {
        PatchOp::SetConfig { id, config } => {
            put(&mut entries, "op", Yaml::text("set"));
            put(&mut entries, "id", Yaml::Text(id.clone()));
            put(&mut entries, "config", config.copy());
            assert(entries_view(entries@) =~= op_value(op@)->Mapping_0);
        },
        PatchOp::Insert { row } => {
            put(&mut entries, "op", Yaml::text("insert"));
            put_row(&mut entries, row);
            assert(entries_view(entries@) =~= op_value(op@)->Mapping_0);
        },
    }
    Yaml::Mapping(entries)
}

fn encode_ops(ops: &Vec<PatchOp>) -> (r: Yaml)
    ensures
        r@ == ops_value(ops_view(ops@)),
{
    let mut items: Vec<Yaml> = Vec::new();
    for i in 0..ops.len()
        invariant
            items@.len() == i,
            forall|k: int| 0 <= k < i ==> (#[trigger] items@[k])@ == op_value(ops@[k]@),
    {
        items.push(encode_op(&ops[i]));
    }
    assert(items_view(items@) =~= ops_view(ops@).map_values(|o: OpView| op_value(o)));
    Yaml::Sequence(items)
}

fn encode_texts(names: &Vec<String>) -> (r: Yaml)
    ensures
        r@ == texts_value(texts(names@)),
{
    let mut items: Vec<Yaml> = Vec::new();
    for i in 0..names.len()
        invariant
            items@.len() == i,
            forall|k: int| 0 <= k < i ==> (#[trigger] items@[k])@ == text(names@[k]@),
    {
        items.push(Yaml::Text(names[i].clone()));
    }
    assert(items_view(items@) =~= texts(names@).map_values(|s: Seq<char>| text(s)));
    Yaml::Sequence(items)
}

fn encode_text_opt(s: &Option<String>) -> (r: Yaml)
    ensures
        r@ == text_opt_value(text_opt(*s)),
{
    match s {
        Some(t) => Yaml::Text(t.clone()),
        None => Yaml::Null,
    }
}

fn encode_node_opt(v: &Option<Yaml>) -> (r: Yaml)
    ensures
        r@ == node_opt_value(value_opt(*v)),
{
    match v {
        Some(n) => n.copy(),
        None => Yaml::Null,
    }
}

/// A layer as a node.
pub fn encode_layer(layer: &Layer) -> (r: Yaml)
    ensures
        r@ == layer_value(layer@),
{
    let mut entries: Vec<(Yaml, Yaml)> = Vec::new();
    put(&mut entries, "name", Yaml::Text(layer.name.clone()));
    put(&mut entries, "rows", encode_rows(&layer.rows));
    put(&mut entries, "patch", encode_ops(&layer.patch));
    assert(entries_view(entries@) =~= layer_value(layer@)->Mapping_0);
    Yaml::Mapping(entries)
}

/// A bundle as a node.
pub fn encode_bundle(bundle: &BundleDoc) -> (r: Yaml)
    ensures
        r@ == bundle_value(bundle@),
{
    let mut entries: Vec<(Yaml, Yaml)> = Vec::new();
    put(&mut entries, "name", Yaml::Text(bundle.name.clone()));
    put(&mut entries, "rows", encode_rows(&bundle.rows));
    assert(entries_view(entries@) =~= bundle_value(bundle@)->Mapping_0);
    Yaml::Mapping(entries)
}

/// A profile as a node.
pub fn encode_profile(profile: &ProfileSpec) -> (r: Yaml)
    ensures
        r@ == profile_value(profile@),
{
    let mut entries: Vec<(Yaml, Yaml)> = Vec::new();
    put(&mut entries, "name", Yaml::Text(profile.name.clone()));
    put(&mut entries, "bundles", encode_texts(&profile.bundles));
    put(&mut entries, "rows", encode_rows(&profile.rows));
    put(&mut entries, "patch", encode_ops(&profile.patch));
    put(&mut entries, "system_prompt", encode_text_opt(&profile.system_prompt));
    put(&mut entries, "model", encode_node_opt(&profile.model));
    assert(entries_view(entries@) =~= profile_value(profile@)->Mapping_0);
    Yaml::Mapping(entries)
}

/// A composed document as a node.
pub fn encode_doc(doc: &ConfigDoc) -> (r: Yaml)
    ensures
        r@ == doc_value(doc@),
{
    let mut entries: Vec<(Yaml, Yaml)> = Vec::new();
    put(&mut entries, "name", Yaml::Text(doc.name.clone()));
    put(&mut entries, "rows", encode_rows(&doc.rows));
    put(&mut entries, "system_prompt", encode_text_opt(&doc.system_prompt));
    put(&mut entries, "model", encode_node_opt(&doc.model));
    assert(entries_view(entries@) =~= doc_value(doc@)->Mapping_0);
    Yaml::Mapping(entries)
}

} // verus!
