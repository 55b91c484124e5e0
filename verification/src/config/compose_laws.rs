//! What holds of every composition.

use vstd::prelude::*;

use crate::config::bundles::BundleStore;
use crate::config::compose::{
    answered, applied, apply_op, apply_ops, bundle_answer, composed, declare, declare_all, fold,
    fold_over, gathered, label_of, noted, profile_answer, stack, substituted, tally, target_missing, BundleAnswer,
    Composer, CompositionView, Folded,
};
use crate::config::decode::{named, rows_of, DOC_FIELDS, ROW_FIELDS};
use crate::config::doc::{
    lemma_row_at, row_at, BundleDoc, BundleView, DocView, LayerView, OpView, ProfileSpec, ProfileView, RowView,
};
use crate::config::encode::{doc_value, row_entries, row_value, text};
use crate::config::error::{ConfigError, ConfigErrorView};
use crate::config::laws::{law_composed_documents_read_back, lemma_fields, lemma_names};
use crate::config::memory::MemoryStore;
use crate::config::profiles::ProfileStore;
use crate::config::subst::{
    distinct_keys, law_document_failures_are_typed, law_documents_without_expressions_are_untouched,
    law_strings_without_expressions_are_untouched, lemma_entries_kept, literal, typed, SubstView,
};
use crate::text::{debug_text, occurs, occurs_at};
use crate::yaml::YamlView;

verus! {

/// Whether no two rows share an id.
pub open spec fn ids_distinct(rows: Seq<RowView>) -> bool {
    forall|i: int, j: int|
        0 <= i < j < rows.len() ==> (#[trigger] rows[i]).id != (#[trigger] rows[j]).id
}

/// Whether every row of `a` stands in `b` at the same place, by its id.
pub open spec fn places_kept(a: Seq<RowView>, b: Seq<RowView>) -> bool {
    &&& a.len() <= b.len()
    &&& forall|i: int| 0 <= i < a.len() ==> (#[trigger] b[i]).id == a[i].id
}

/// A declared row takes the place of the row with its id, or a new one behind
/// all others. Every other row stays as it is, where it is, and ids stay
/// distinct.
pub proof fn law_a_declared_row_replaces_in_place_or_is_appended(rows: Seq<RowView>, row: RowView)
    ensures
        places_kept(rows, declare(rows, row)),
        ids_distinct(rows) ==> ids_distinct(declare(rows, row)),
        match row_at(rows, row.id) {
            Some(at) => declare(rows, row).len() == rows.len() && declare(rows, row)[at] == row
                && forall|k: int|
                0 <= k < rows.len() && k != at ==> #[trigger] declare(rows, row)[k] == rows[k],
            None => declare(rows, row) == rows.push(row),
        },
        row_at(declare(rows, row), row.id) matches Some(at) && declare(rows, row)[at] == row,
{
    lemma_row_at(rows, row.id);
    let out = declare(rows, row);
    lemma_row_at(out, row.id);
    if let Some(at) = row_at(rows, row.id) {
        let now = row_at(out, row.id)->Some_0;
        assert(out[at].id == row.id);
        if now < at {
            assert(rows[now].id != row.id);
            assert(out[now] == rows[now]);
        }
        assert(now == at);
    } else {
        assert(out[rows.len() as int].id == row.id);
        let now = row_at(out, row.id)->Some_0;
        if now < rows.len() {
            assert(out[now] == rows[now]);
        }
    }
}

/// A patch replaces the whole config of the row it names and nothing else: no
/// field of the old config is kept, and no other row changes.
pub proof fn law_a_patch_replaces_the_whole_config(
    f: Folded,
    id: Seq<char>,
    config: YamlView,
    label: Seq<char>,
)
    requires
        row_at(f.rows, id) is Some,
    ensures
        ({
            let at = row_at(f.rows, id)->Some_0;
            let out = apply_op(f, OpView::SetConfig { id, config }, label);
            &&& out.rows.len() == f.rows.len()
            &&& out.rows[at] == (RowView { id, plugin: f.rows[at].plugin, config })
            &&& forall|k: int|
                0 <= k < f.rows.len() && k != at ==> #[trigger] out.rows[k] == f.rows[k]
            &&& out.warnings == f.warnings
        }),
{
    lemma_row_at(f.rows, id);
}

/// A patch on a row that no lower layer declares changes no row and gives one
/// warning that names the row.
pub proof fn law_a_patch_on_an_absent_row_warns(
    f: Folded,
    id: Seq<char>,
    config: YamlView,
    label: Seq<char>,
)
    requires
        forall|k: int| 0 <= k < f.rows.len() ==> (#[trigger] f.rows[k]).id != id,
    ensures
        apply_op(f, OpView::SetConfig { id, config }, label) == (Folded {
            rows: f.rows,
            warnings: f.warnings.push(target_missing(label, id)),
        }),
{
    lemma_row_at(f.rows, id);
}

/// Ids stay distinct, rows keep their places, and warnings are only added.
spec fn grown(a: Folded, b: Folded) -> bool {
    &&& places_kept(a.rows, b.rows)
    &&& ids_distinct(a.rows) ==> ids_distinct(b.rows)
    &&& a.warnings.len() <= b.warnings.len()
    &&& b.warnings.take(a.warnings.len() as int) == a.warnings
}

proof fn lemma_grown_trans(a: Folded, b: Folded, c: Folded)
    requires
        grown(a, b),
        grown(b, c),
    ensures
        grown(a, c),
{
    assert forall|i: int| 0 <= i < a.rows.len() implies (#[trigger] c.rows[i]).id
        == a.rows[i].id by {
        assert(b.rows[i].id == a.rows[i].id);
    }
    assert(c.warnings.take(a.warnings.len() as int) =~= b.warnings.take(a.warnings.len() as int))
        by {
        assert forall|i: int| 0 <= i < a.warnings.len() implies c.warnings[i] == b.warnings[i] by {
            assert(c.warnings.take(b.warnings.len() as int)[i] == b.warnings[i]);
        }
    }
}

proof fn lemma_declare_all_grown(f: Folded, new: Seq<RowView>)
    ensures
        grown(f, Folded { rows: declare_all(f.rows, new), warnings: f.warnings }),
    decreases new.len(),
{
    let out = Folded { rows: declare_all(f.rows, new), warnings: f.warnings };
    assert(f.warnings.take(f.warnings.len() as int) =~= f.warnings);
    if new.len() > 0 {
        lemma_declare_all_grown(f, new.drop_last());
        let mid = Folded { rows: declare_all(f.rows, new.drop_last()), warnings: f.warnings };
        law_a_declared_row_replaces_in_place_or_is_appended(mid.rows, new.last());
        assert(grown(mid, out));
        lemma_grown_trans(f, mid, out);
    }
}

proof fn lemma_apply_ops_grown(f: Folded, ops: Seq<OpView>, label: Seq<char>)
    ensures
        grown(f, apply_ops(f, ops, label)),
    decreases ops.len(),
{
    assert(f.warnings.take(f.warnings.len() as int) =~= f.warnings);
    if ops.len() > 0 {
        lemma_apply_ops_grown(f, ops.drop_last(), label);
        let mid = apply_ops(f, ops.drop_last(), label);
        let out = apply_ops(f, ops, label);
        assert(mid.warnings.take(mid.warnings.len() as int) =~= mid.warnings);
        match ops.last() {
            OpView::SetConfig { id, config } => {
                lemma_row_at(mid.rows, id);
                if row_at(mid.rows, id) is Some {
                    law_a_patch_replaces_the_whole_config(mid, id, config, label);
                    let at = row_at(mid.rows, id)->Some_0;
                    assert forall|i: int| 0 <= i < mid.rows.len() implies (
                    #[trigger] out.rows[i]).id == mid.rows[i].id by {
                        if i != at {
                            assert(out.rows[i] == mid.rows[i]);
                        }
                    }
                } else {
                    assert(out.warnings.take(mid.warnings.len() as int) =~= mid.warnings);
                }
            },
            OpView::Insert { row } => {
                law_a_declared_row_replaces_in_place_or_is_appended(mid.rows, row);
            },
        }
        assert(grown(mid, out));
        lemma_grown_trans(f, mid, out);
    }
}

/// Applying a layer keeps every row in its place, keeps ids distinct, and keeps
/// every warning.
pub proof fn law_a_layer_keeps_rows_in_place(f: Folded, layer: LayerView, label: Seq<char>)
    ensures
        places_kept(f.rows, applied(f, layer, label).rows),
        ids_distinct(f.rows) ==> ids_distinct(applied(f, layer, label).rows),
        f.warnings.len() <= applied(f, layer, label).warnings.len(),
        applied(f, layer, label).warnings.take(f.warnings.len() as int) == f.warnings,
{
    let mid = Folded { rows: declare_all(f.rows, layer.rows), warnings: f.warnings };
    lemma_declare_all_grown(f, layer.rows);
    lemma_apply_ops_grown(mid, layer.patch, label);
    lemma_grown_trans(f, mid, applied(f, layer, label));
}

/// No composition holds two rows of one id.
pub proof fn law_composed_rows_have_distinct_ids(layers: Seq<LayerView>)
    ensures
        ids_distinct(fold(layers).rows),
    decreases layers.len(),
{
    if layers.len() > 0 {
        law_composed_rows_have_distinct_ids(layers.drop_last());
        law_a_layer_keeps_rows_in_place(
            fold(layers.drop_last()),
            layers.last(),
            label_of(layers.last()),
        );
    }
}

/// Folding is layer by layer: what later layers make of a composition depends on
/// the earlier ones only through what these came to.
pub proof fn law_later_layers_fold_over_earlier_ones(a: Seq<LayerView>, b: Seq<LayerView>)
    ensures
        fold(a + b) == fold_over(fold(a), b),
    decreases b.len(),
{
    if b.len() > 0 {
        law_later_layers_fold_over_earlier_ones(a, b.drop_last());
        assert((a + b).drop_last() =~= a + b.drop_last());
        assert((a + b).last() == b.last());
    } else {
        assert(a + b =~= a);
    }
}

/// A later layer outranks every earlier one: a row it declares last under its id
/// is in the composition as declared, whatever lies below.
pub proof fn law_a_later_layer_outranks_earlier_ones(
    below: Seq<LayerView>,
    name: Seq<char>,
    rows: Seq<RowView>,
    i: int,
)
    requires
        0 <= i < rows.len(),
        forall|k: int| i < k < rows.len() ==> (#[trigger] rows[k]).id != rows[i].id,
    ensures
        ({
            let out = fold(below.push(LayerView { name, rows, patch: Seq::empty() })).rows;
            row_at(out, rows[i].id) matches Some(at) && out[at] == rows[i]
        }),
{
    let layer = LayerView { name, rows, patch: Seq::empty() };
    assert(below.push(layer).drop_last() =~= below);
    lemma_declared_stands(fold(below).rows, rows, i);
}

proof fn lemma_declared_stands(start: Seq<RowView>, rows: Seq<RowView>, i: int)
    requires
        0 <= i < rows.len(),
        forall|k: int| i < k < rows.len() ==> (#[trigger] rows[k]).id != rows[i].id,
    ensures
        row_at(declare_all(start, rows), rows[i].id) matches Some(at) && declare_all(start, rows)[at]
            == rows[i],
    decreases rows.len(),
{
    let mid = declare_all(start, rows.drop_last());
    law_a_declared_row_replaces_in_place_or_is_appended(mid, rows.last());
    if i < rows.len() - 1 {
        assert forall|k: int| i < k < rows.len() - 1 implies (#[trigger] rows.drop_last()[k]).id
            != rows.drop_last()[i].id by {
            assert(rows[k].id != rows[i].id);
        }
        lemma_declared_stands(start, rows.drop_last(), i);
        let out = declare_all(start, rows);
        let at = row_at(mid, rows[i].id)->Some_0;
        lemma_row_at(mid, rows[i].id);
        lemma_row_at(out, rows[i].id);
        lemma_row_at(mid, rows.last().id);
        assert(rows[rows.len() - 1].id != rows[i].id);
        assert(out[at] == mid[at]);
        let now = row_at(out, rows[i].id)->Some_0;
        if now < at {
            assert(mid[now].id != rows[i].id);
            assert(out[now].id == mid[now].id);
        }
        if at < now {
            assert(out[at].id != rows[i].id);
        }
    }
}

/// What a row expands to, field by field.
pub open spec fn row_expands(ctx: SubstView, a: RowView, b: RowView) -> bool {
    &&& ctx.text(a.id) == Ok::<Seq<char>, ConfigErrorView>(b.id)
    &&& ctx.text(a.plugin) == Ok::<Seq<char>, ConfigErrorView>(b.plugin)
    &&& ctx.document(a.config) == Ok::<YamlView, ConfigErrorView>(b.config)
}

/// Substitution never breaks a document. Either every expression in it has a
/// value, and the document that comes out holds the expanded fields of the one
/// that went in; or the failure is a substitution failure.
pub proof fn law_substitution_expands_every_field(ctx: SubstView, d: DocView)
    ensures
        match substituted(ctx, d) {
            Err(e) => typed(e),
            Ok(out) => {
                &&& ctx.text(d.name) == Ok::<Seq<char>, ConfigErrorView>(out.name)
                &&& out.rows.len() == d.rows.len()
                &&& forall|i: int|
                    0 <= i < d.rows.len() ==> row_expands(ctx, d.rows[i], #[trigger] out.rows[i])
                &&& match d.system_prompt {
                    None => out.system_prompt is None,
                    Some(s) => out.system_prompt is Some && ctx.text(s) == Ok::<
                        Seq<char>,
                        ConfigErrorView,
                    >(out.system_prompt->Some_0),
                }
                &&& match d.model {
                    None => out.model is None,
                    Some(YamlView::Null) => out.model is None,
                    Some(m) => out.model is Some && ctx.document(m) == Ok::<
                        YamlView,
                        ConfigErrorView,
                    >(out.model->Some_0),
                }
            },
        },
{
    law_document_failures_are_typed(ctx, doc_value(d));
    if ctx.document(doc_value(d)) is Ok {
        let e = doc_value(d)->Mapping_0;
        let out = ctx.entries(e)->Ok_0;
        lemma_entries_kept(ctx, e);
        lemma_names();
        lemma_literal_names();
        let names = seq!["name"@, "rows"@, "system_prompt"@, "model"@];
        let allowed = DOC_FIELDS@;
        assert(allowed[0]@ == names[0] && allowed[1]@ == names[1] && allowed[2]@ == names[2]);
        assert(allowed[3]@ == names[3]);
        assert forall|i: int| 0 <= i < names.len() implies (#[trigger] out[i]).0 == text(
            names[i],
        ) by {
            assert(e[i].0 == text(names[i]));
            law_strings_without_expressions_are_untouched(ctx, names[i]);
        }
        lemma_fields(out, names, allowed);
        let f = Seq::new(names.len(), |i: int| (names[i], out[i].1));
        assert(named(f, names[0]) == Some(out[0].1));
        assert(named(f, names[1]) == Some(out[1].1));
        assert(named(f, names[2]) == Some(out[2].1));
        assert(named(f, names[3]) == Some(out[3].1));
        assert(ctx.document(e[0].1) == Ok::<YamlView, ConfigErrorView>(out[0].1));
        assert(ctx.document(e[1].1) == Ok::<YamlView, ConfigErrorView>(out[1].1));
        assert(ctx.document(e[2].1) == Ok::<YamlView, ConfigErrorView>(out[2].1));
        assert(ctx.document(e[3].1) == Ok::<YamlView, ConfigErrorView>(out[3].1));
        let items = e[1].1->Sequence_0;
        lemma_rows_expand(ctx, d.rows, items);
    }
}

/// The field names hold no expression.
proof fn lemma_literal_names()
    ensures
        !occurs("name"@, seq!['$', '{']),
        !occurs("rows"@, seq!['$', '{']),
        !occurs("system_prompt"@, seq!['$', '{']),
        !occurs("model"@, seq!['$', '{']),
        !occurs("id"@, seq!['$', '{']),
        !occurs("plugin"@, seq!['$', '{']),
        !occurs("config"@, seq!['$', '{']),
{
    reveal_strlit("name");
    reveal_strlit("rows");
    reveal_strlit("system_prompt");
    reveal_strlit("model");
    reveal_strlit("id");
    reveal_strlit("plugin");
    reveal_strlit("config");
    lemma_no_dollar("name"@);
    lemma_no_dollar("rows"@);
    lemma_no_dollar("system_prompt"@);
    lemma_no_dollar("model"@);
    lemma_no_dollar("id"@);
    lemma_no_dollar("plugin"@);
    lemma_no_dollar("config"@);
}

/// A text without a dollar sign holds no expression.
proof fn lemma_no_dollar(s: Seq<char>)
    requires
        forall|i: int| 0 <= i < s.len() ==> #[trigger] s[i] != '$',
    ensures
        !occurs(s, seq!['$', '{']),
{
    assert forall|at: int| !occurs_at(s, seq!['$', '{'], at) by {
        if occurs_at(s, seq!['$', '{'], at) {
            assert(s.subrange(at, at + 2)[0] == s[at]);
        }
    }
}

/// Rows expand one by one, field by field.
proof fn lemma_rows_expand(ctx: SubstView, rows: Seq<RowView>, items: Seq<YamlView>)
    requires
        items == rows.map_values(|r: RowView| row_value(r)),
        ctx.items(items) is Ok,
    ensures
        rows_of(ctx.items(items)->Ok_0) matches Ok(out) && out.len() == rows.len() && forall|i: int|
            0 <= i < rows.len() ==> row_expands(ctx, rows[i], #[trigger] out[i]),
    decreases rows.len(),
{
    if rows.len() > 0 {
        let short = rows.drop_last();
        assert(items.drop_last() =~= short.map_values(|r: RowView| row_value(r)));
        lemma_rows_expand(ctx, short, items.drop_last());
        let done = ctx.items(items.drop_last())->Ok_0;
        let all = ctx.items(items)->Ok_0;
        assert(all.drop_last() =~= done);
        let row = rows.last();
        assert(items.last() == row_value(row));
        lemma_row_expands(ctx, row);
        let before = rows_of(done)->Ok_0;
        let out = rows_of(all)->Ok_0;
        assert forall|i: int| 0 <= i < rows.len() implies row_expands(
            ctx,
            rows[i],
            #[trigger] out[i],
        ) by {
            if i < before.len() {
                assert(out[i] == before[i]);
                assert(rows[i] == short[i]);
            }
        }
    }
}

proof fn lemma_row_expands(ctx: SubstView, row: RowView)
    requires
        ctx.document(row_value(row)) is Ok,
    ensures
        crate::config::decode::row_of(ctx.document(row_value(row))->Ok_0) matches Ok(out)
            && row_expands(ctx, row, out),
{
    let e = row_entries(row);
    let out = ctx.entries(e)->Ok_0;
    lemma_entries_kept(ctx, e);
    lemma_names();
    lemma_literal_names();
    let names = seq!["id"@, "plugin"@, "config"@];
    let allowed = ROW_FIELDS@;
    assert(allowed[0]@ == names[0] && allowed[1]@ == names[1] && allowed[2]@ == names[2]);
    assert forall|i: int| 0 <= i < names.len() implies (#[trigger] out[i]).0 == text(names[i]) by {
        assert(e[i].0 == text(names[i]));
        law_strings_without_expressions_are_untouched(ctx, names[i]);
    }
    lemma_fields(out, names, allowed);
    let f = Seq::new(names.len(), |i: int| (names[i], out[i].1));
    assert(named(f, names[0]) == Some(out[0].1));
    assert(named(f, names[1]) == Some(out[1].1));
    assert(named(f, names[2]) == Some(out[2].1));
    assert(ctx.document(e[0].1) == Ok::<YamlView, ConfigErrorView>(out[0].1));
    assert(ctx.document(e[1].1) == Ok::<YamlView, ConfigErrorView>(out[1].1));
    assert(ctx.document(e[2].1) == Ok::<YamlView, ConfigErrorView>(out[2].1));
}

/// Layers without expressions compose to exactly what they fold to.
pub proof fn law_layers_without_expressions_compose_to_their_fold(
    name: Seq<char>,
    spec: ProfileView,
    layers: Seq<LayerView>,
    ctx: SubstView,
)
    requires
        ({
            let doc = DocView {
                name,
                rows: fold(layers).rows,
                system_prompt: spec.system_prompt,
                model: spec.model,
            };
            literal(doc_value(doc)) && distinct_keys(doc_value(doc))
        }),
        spec.model != Some(YamlView::Null),
    ensures
        composed(name, spec, layers, ctx) == Ok::<CompositionView, ConfigErrorView>(
            CompositionView {
                doc: DocView {
                    name,
                    rows: fold(layers).rows,
                    system_prompt: spec.system_prompt,
                    model: spec.model,
                },
                warnings: fold(layers).warnings,
                layers: layers.map_values(|l: LayerView| label_of(l)),
            },
        ),
{
    let doc = DocView {
        name,
        rows: fold(layers).rows,
        system_prompt: spec.system_prompt,
        model: spec.model,
    };
    law_documents_without_expressions_are_untouched(ctx, doc_value(doc));
    law_composed_documents_read_back(doc);
}

// ---------------------------------------------------------------------------
// A layer applied twice
// ---------------------------------------------------------------------------

/// What one operation makes of the rows.
spec fn step(rows: Seq<RowView>, op: OpView) -> Seq<RowView> {
    match op {
        OpView::SetConfig { id, config } => match row_at(rows, id) {
            Some(at) => rows.update(at, RowView { config, ..rows[at] }),
            None => rows,
        },
        OpView::Insert { row } => declare(rows, row),
    }
}

/// What operations make of the rows, in order.
spec fn run(rows: Seq<RowView>, ops: Seq<OpView>) -> Seq<RowView>
    decreases ops.len(),
{
    if ops.len() == 0 {
        rows
    } else {
        step(run(rows, ops.drop_last()), ops.last())
    }
}

/// The operations of a layer: its rows are inserted, then its patch applies.
spec fn layer_ops(layer: LayerView) -> Seq<OpView> {
    layer.rows.map_values(|row: RowView| OpView::Insert { row }) + layer.patch
}

/// What one operation makes of one row.
spec fn hit(r: RowView, op: OpView) -> RowView {
    match op {
        OpView::SetConfig { id, config } => if id == r.id {
            RowView { config, ..r }
        } else {
            r
        },
        OpView::Insert { row } => if row.id == r.id {
            row
        } else {
            r
        },
    }
}

/// What operations make of one row.
spec fn track(r: RowView, ops: Seq<OpView>) -> RowView
    decreases ops.len(),
{
    if ops.len() == 0 {
        r
    } else {
        hit(track(r, ops.drop_last()), ops.last())
    }
}

/// Whether an operation gives the whole row with this id.
spec fn gives(op: OpView, id: Seq<char>) -> bool {
    op matches OpView::Insert { row } && row.id == id
}

/// The rows of a layer are what its operations make of the rows.
proof fn lemma_applied_is_run(f: Folded, layer: LayerView, label: Seq<char>)
    ensures
        applied(f, layer, label).rows == run(f.rows, layer_ops(layer)),
{
    let inserts = layer.rows.map_values(|row: RowView| OpView::Insert { row });
    lemma_declared_is_run(f.rows, layer.rows);
    let mid = Folded { rows: declare_all(f.rows, layer.rows), warnings: f.warnings };
    lemma_patched_is_run(mid, layer.patch, label);
    lemma_run_joined(f.rows, inserts, layer.patch);
}

proof fn lemma_declared_is_run(rows: Seq<RowView>, new: Seq<RowView>)
    ensures
        declare_all(rows, new) == run(rows, new.map_values(|row: RowView| OpView::Insert { row })),
    decreases new.len(),
{
    let inserts = new.map_values(|row: RowView| OpView::Insert { row });
    if new.len() > 0 {
        lemma_declared_is_run(rows, new.drop_last());
        assert(inserts.drop_last() =~= new.drop_last().map_values(
            |row: RowView| OpView::Insert { row },
        ));
    }
}

proof fn lemma_patched_is_run(f: Folded, ops: Seq<OpView>, label: Seq<char>)
    ensures
        apply_ops(f, ops, label).rows == run(f.rows, ops),
    decreases ops.len(),
{
    if ops.len() > 0 {
        lemma_patched_is_run(f, ops.drop_last(), label);
    }
}

proof fn lemma_run_joined(rows: Seq<RowView>, a: Seq<OpView>, b: Seq<OpView>)
    ensures
        run(rows, a + b) == run(run(rows, a), b),
    decreases b.len(),
{
    if b.len() > 0 {
        lemma_run_joined(rows, a, b.drop_last());
        assert((a + b).drop_last() =~= a + b.drop_last());
    } else {
        assert(a + b =~= a);
    }
}

/// One operation keeps every row in its place, and changes only the first row
/// with its id.
proof fn lemma_step(rows: Seq<RowView>, op: OpView)
    ensures
        places_kept(rows, step(rows, op)),
        step(rows, op).len() <= rows.len() + 1,
        step(rows, op).len() == rows.len() + 1 ==> (op matches OpView::Insert { row }
            && step(rows, op) == rows.push(row) && row_at(rows, row.id) is None),
        forall|i: int|
            0 <= i < rows.len() ==> #[trigger] step(rows, op)[i] == (if row_at(rows, rows[i].id)
                == Some(i) {
                hit(rows[i], op)
            } else {
                rows[i]
            }),
{
    let id = match op {
        OpView::SetConfig { id, .. } => id,
        OpView::Insert { row } => row.id,
    };
    lemma_row_at(rows, id);
    assert forall|i: int| 0 <= i < rows.len() implies #[trigger] step(rows, op)[i] == (if row_at(
        rows,
        rows[i].id,
    ) == Some(i) {
        hit(rows[i], op)
    } else {
        rows[i]
    }) by {
        lemma_row_at(rows, rows[i].id);
    }
}

/// A row that is the first of its id stays that.
proof fn lemma_first_stays(a: Seq<RowView>, b: Seq<RowView>, i: int)
    requires
        places_kept(a, b),
        0 <= i < a.len(),
    ensures
        row_at(b, b[i].id) == Some(i) <==> row_at(a, a[i].id) == Some(i),
{
    lemma_row_at(a, a[i].id);
    lemma_row_at(b, b[i].id);
    assert(b[i].id == a[i].id);
    if row_at(a, a[i].id) == Some(i) {
        let j = row_at(b, b[i].id)->Some_0;
        if j < i {
            assert(b[j].id == a[j].id);
        }
    }
    if row_at(b, b[i].id) == Some(i) {
        let j = row_at(a, a[i].id)->Some_0;
        if j < i {
            assert(b[j].id == a[j].id);
        }
    }
}

/// The id of a row stays.
proof fn lemma_tracked_id(r: RowView, ops: Seq<OpView>)
    ensures
        track(r, ops).id == r.id,
    decreases ops.len(),
{
    if ops.len() > 0 {
        lemma_tracked_id(r, ops.drop_last());
    }
}

/// What operations make of each row that was there.
proof fn lemma_run(rows: Seq<RowView>, ops: Seq<OpView>)
    ensures
        places_kept(rows, run(rows, ops)),
        forall|i: int|
            0 <= i < rows.len() ==> #[trigger] run(rows, ops)[i] == (if row_at(rows, rows[i].id)
                == Some(i) {
                track(rows[i], ops)
            } else {
                rows[i]
            }),
    decreases ops.len(),
{
    if ops.len() > 0 {
        let mid = run(rows, ops.drop_last());
        let out = run(rows, ops);
        lemma_run(rows, ops.drop_last());
        lemma_step(mid, ops.last());
        assert forall|i: int| 0 <= i < rows.len() implies (#[trigger] out[i]).id
            == rows[i].id by {
            assert(mid[i].id == rows[i].id);
        }
        assert forall|i: int| 0 <= i < rows.len() implies #[trigger] out[i] == (if row_at(
            rows,
            rows[i].id,
        ) == Some(i) {
            track(rows[i], ops)
        } else {
            rows[i]
        }) by {
            lemma_first_stays(rows, mid, i);
            assert(out[i] == step(mid, ops.last())[i]);
        }
    }
}

/// Every row that operations leave, if it is the first of its id, is what they
/// make of some row.
proof fn lemma_run_tracks(rows: Seq<RowView>, ops: Seq<OpView>, i: int) -> (r0: RowView)
    requires
        0 <= i < run(rows, ops).len(),
        row_at(run(rows, ops), run(rows, ops)[i].id) == Some(i),
    ensures
        run(rows, ops)[i] == track(r0, ops),
    decreases ops.len(),
{
    let out = run(rows, ops);
    if ops.len() == 0 {
        out[i]
    } else {
        let mid = run(rows, ops.drop_last());
        lemma_step(mid, ops.last());
        if i < mid.len() {
            lemma_first_stays(mid, out, i);
            let r0 = lemma_run_tracks(rows, ops.drop_last(), i);
            assert(out[i] == step(mid, ops.last())[i]);
            r0
        } else {
            lemma_tracked_id(out[i], ops.drop_last());
            out[i]
        }
    }
}

/// Where an operation gives the whole row, what was there before is forgotten;
/// where none does, a row keeps all but its config.
proof fn lemma_tracked(a: RowView, b: RowView, ops: Seq<OpView>)
    requires
        a.id == b.id,
    ensures
        (exists|k: int| 0 <= k < ops.len() && gives(#[trigger] ops[k], a.id)) ==> track(a, ops)
            == track(b, ops),
        !(exists|k: int| 0 <= k < ops.len() && gives(#[trigger] ops[k], a.id)) ==> track(
            a,
            ops,
        ).plugin == a.plugin && (track(a, ops).config == a.config || track(a, ops).config
            == track(b, ops).config) && (track(a, ops).config == a.config && track(b, ops).config
            == b.config || track(a, ops).config == track(b, ops).config),
    decreases ops.len(),
{
    if ops.len() > 0 {
        let head = ops.drop_last();
        lemma_tracked(a, b, head);
        lemma_tracked_id(a, head);
        lemma_tracked_id(b, head);
        if exists|k: int| 0 <= k < head.len() && gives(#[trigger] head[k], a.id) {
            let k = choose|k: int| 0 <= k < head.len() && gives(#[trigger] head[k], a.id);
            assert(gives(ops[k], a.id));
        } else if gives(ops.last(), a.id) {
            assert(gives(ops[ops.len() - 1], a.id));
        } else if exists|k: int| 0 <= k < ops.len() && gives(#[trigger] ops[k], a.id) {
            let k = choose|k: int| 0 <= k < ops.len() && gives(#[trigger] ops[k], a.id);
            assert(k < head.len());
            assert(gives(head[k], a.id));
        }
    }
}

/// What operations made of a row, they leave as it is.
proof fn lemma_track_twice(r: RowView, ops: Seq<OpView>)
    ensures
        track(track(r, ops), ops) == track(r, ops),
{
    lemma_tracked_id(r, ops);
    lemma_tracked_id(track(r, ops), ops);
    lemma_tracked(track(r, ops), r, ops);
    lemma_tracked(r, track(r, ops), ops);
}

/// Operations that insert only rows whose ids are there add none.
proof fn lemma_run_adds_none(rows: Seq<RowView>, ops: Seq<OpView>)
    requires
        forall|k: int|
            0 <= k < ops.len() ==> (#[trigger] ops[k] matches OpView::Insert { row } ==> row_at(
                rows,
                row.id,
            ) is Some),
    ensures
        run(rows, ops).len() == rows.len(),
    decreases ops.len(),
{
    if ops.len() > 0 {
        let head = ops.drop_last();
        assert forall|k: int| 0 <= k < head.len() implies (
        #[trigger] head[k] matches OpView::Insert { row } ==> row_at(rows, row.id) is Some) by {
            assert(head[k] == ops[k]);
        }
        lemma_run_adds_none(rows, head);
        lemma_run(rows, head);
        let mid = run(rows, head);
        lemma_step(mid, ops.last());
        if let OpView::Insert { row } = ops.last() {
            assert(ops[ops.len() - 1] == ops.last());
            lemma_row_at(rows, row.id);
            lemma_row_at(mid, row.id);
            let at = row_at(rows, row.id)->Some_0;
            assert(mid[at].id == row.id);
        }
    }
}

/// Every row that is inserted is there in the end, by its id.
proof fn lemma_inserted_stays(rows: Seq<RowView>, ops: Seq<OpView>, k: int)
    requires
        0 <= k < ops.len(),
    ensures
        ops[k] matches OpView::Insert { row } ==> row_at(run(rows, ops), row.id) is Some,
    decreases ops.len(),
{
    if let OpView::Insert { row } = ops[k] {
        let head = ops.drop_last();
        let mid = run(rows, head);
        let out = run(rows, ops);
        lemma_step(mid, ops.last());
        lemma_row_at(out, row.id);
        if k < head.len() {
            lemma_inserted_stays(rows, head, k);
            assert(head[k] == ops[k]);
            lemma_row_at(mid, row.id);
            let at = row_at(mid, row.id)->Some_0;
            assert(out[at].id == row.id);
        } else {
            law_a_declared_row_replaces_in_place_or_is_appended(mid, row);
        }
    }
}

/// Applying a layer a second time changes no row.
pub proof fn law_a_layer_applied_twice_is_applied_once(f: Folded, layer: LayerView, label: Seq<char>)
    ensures
        applied(applied(f, layer, label), layer, label).rows == applied(f, layer, label).rows,
{
    let ops = layer_ops(layer);
    let once = applied(f, layer, label);
    let twice = applied(once, layer, label);
    lemma_applied_is_run(f, layer, label);
    lemma_applied_is_run(once, layer, label);
    assert forall|k: int| 0 <= k < ops.len() implies (
    #[trigger] ops[k] matches OpView::Insert { row } ==> row_at(once.rows, row.id) is Some) by {
        lemma_inserted_stays(f.rows, ops, k);
    }
    lemma_run_adds_none(once.rows, ops);
    lemma_run(once.rows, ops);
    assert forall|i: int| 0 <= i < once.rows.len() implies twice.rows[i] == once.rows[i] by {
        assert(twice.rows[i] == run(once.rows, ops)[i]);
        if row_at(once.rows, once.rows[i].id) == Some(i) {
            let r0 = lemma_run_tracks(f.rows, ops, i);
            lemma_track_twice(r0, ops);
        }
    }
    assert(twice.rows =~= once.rows);
}

// ---------------------------------------------------------------------------
// A stored profile and its document
// ---------------------------------------------------------------------------

/// Whether two outcomes agree: equal compositions, or failures that differ in
/// their words at most.
pub open spec fn agree<T>(a: Result<T, ConfigErrorView>, b: Result<T, ConfigErrorView>) -> bool {
    match (a, b) {
        (Ok(x), Ok(y)) => x == y,
        (Err(x), Err(y)) => x.stage == y.stage && x.code == y.code && x.plugin == y.plugin,
        _ => false,
    }
}

/// Whether two answers to a request for a bundle say the same, but for the words of
/// a failure.
pub open spec fn alike(a: BundleAnswer, b: BundleAnswer) -> bool {
    match (a, b) {
        (Ok(Some(x)), Ok(Some(y))) => x@ == y@,
        (Ok(None), Ok(None)) => true,
        (Err(x), Err(y)) => x@.stage == y@.stage && x@.code == y@.code && x@.plugin == y@.plugin,
        _ => false,
    }
}

/// Whether a store of bundles says the same whenever it is asked for the same.
pub open spec fn steady<B: BundleStore>(store: B) -> bool {
    forall|name: Seq<char>, a: BundleAnswer, b: BundleAnswer|
        #[trigger] bundle_answer(store, name, a) && #[trigger] bundle_answer(store, name, b)
            ==> alike(a, b)
}

/// Whether a store of profiles has `spec` under its name, whenever it is asked.
pub open spec fn holds<P: ProfileStore>(store: P, spec: ProfileView) -> bool {
    forall|answer: Result<Option<ProfileSpec>, ConfigError>| #[trigger]
        profile_answer(store, spec.name, answer) ==> (answer matches Ok(Some(p)) && p@ == spec)
}

/// A store in memory says the same whenever it is asked for the same.
pub proof fn law_a_memory_store_is_steady(store: MemoryStore)
    ensures
        steady(store),
{
}

/// A store in memory has each of its profiles under the name it was added with.
pub proof fn law_a_memory_store_holds_its_profiles(store: MemoryStore, spec: ProfileView)
    requires
        store.profiles@.contains_key(spec.name),
        store.profiles@[spec.name]@ == spec,
    ensures
        holds(store, spec),
{
}

/// A borrowed store says what the store says.
pub proof fn law_a_borrowed_store_is_as_good<S: BundleStore + ProfileStore>(
    store: &S,
    spec: ProfileView,
)
    ensures
        steady::<S>(*store) ==> steady::<&S>(store),
        holds::<S>(*store, spec) ==> holds::<&S>(store, spec),
{
    assert forall|name: Seq<char>, a: BundleAnswer| #[trigger]
        bundle_answer::<&S>(store, name, a) implies bundle_answer::<S>(*store, name, a) by {
    }
    assert forall|a: Result<Option<ProfileSpec>, ConfigError>| #[trigger]
        profile_answer::<&S>(store, spec.name, a) implies profile_answer::<S>(
        *store,
        spec.name,
        a,
    ) by {
    }
}

/// The first answers decide.
proof fn lemma_tally_stops(
    profile: Seq<char>,
    wanted: Seq<Seq<char>>,
    answers: Seq<BundleAnswer>,
    known: Option<Seq<Seq<char>>>,
    n: int,
)
    requires
        0 <= n <= answers.len(),
        tally(profile, wanted, answers.take(n), known) is Err,
    ensures
        tally(profile, wanted, answers, known) == tally(profile, wanted, answers.take(n), known),
    decreases answers.len() - n,
{
    if n < answers.len() {
        assert(answers.take(n + 1).drop_last() =~= answers.take(n));
        lemma_tally_stops(profile, wanted, answers, known, n + 1);
    } else {
        assert(answers.take(n) =~= answers);
    }
}

/// Answers that are alike come to the same, whatever is listed.
proof fn lemma_tally_agrees(
    profile: Seq<char>,
    wanted: Seq<Seq<char>>,
    x: Seq<BundleAnswer>,
    y: Seq<BundleAnswer>,
    a: Option<Seq<Seq<char>>>,
    b: Option<Seq<Seq<char>>>,
)
    requires
        x.len() == y.len(),
        forall|i: int| 0 <= i < x.len() ==> alike(#[trigger] x[i], y[i]),
    ensures
        agree(tally(profile, wanted, x, a), tally(profile, wanted, y, b)),
    decreases x.len(),
{
    if x.len() > 0 {
        assert forall|i: int| 0 <= i < x.len() - 1 implies alike(
            #[trigger] x.drop_last()[i],
            y.drop_last()[i],
        ) by {
            assert(alike(x[i], y[i]));
        }
        lemma_tally_agrees(profile, wanted, x.drop_last(), y.drop_last(), a, b);
        assert(alike(x[x.len() - 1], y[x.len() - 1]));
    }
}

/// Two rounds of questions to a steady store come to the same.
proof fn lemma_gathered_agrees<B: BundleStore>(
    store: B,
    profile: Seq<char>,
    wanted: Seq<Seq<char>>,
    lists_a: bool,
    lists_b: bool,
    a: Result<Seq<BundleView>, ConfigErrorView>,
    b: Result<Seq<BundleView>, ConfigErrorView>,
)
    requires
        steady(store),
        gathered(store, profile, wanted, lists_a, a),
        gathered(store, profile, wanted, lists_b, b),
    ensures
        agree(a, b),
{
    let (x, p) = choose|answers: Seq<BundleAnswer>, known: Vec<String>|
        #[trigger] answered(store, wanted, lists_a, answers, known) && a == tally(
            profile,
            wanted,
            answers,
            noted(lists_a, known),
        ) && (a is Ok ==> answers.len() == wanted.len());
    let (y, q) = choose|answers: Seq<BundleAnswer>, known: Vec<String>|
        #[trigger] answered(store, wanted, lists_b, answers, known) && b == tally(
            profile,
            wanted,
            answers,
            noted(lists_b, known),
        ) && (b is Ok ==> answers.len() == wanted.len());
    let n: int = if x.len() <= y.len() {
        x.len() as int
    } else {
        y.len() as int
    };
    assert forall|i: int| 0 <= i < n implies alike(#[trigger] x.take(n)[i], y.take(n)[i]) by {
        assert(bundle_answer(store, wanted[i], x[i]));
        assert(bundle_answer(store, wanted[i], y[i]));
    }
    let (k, l) = (noted(lists_a, p), noted(lists_b, q));
    lemma_tally_agrees(profile, wanted, x.take(n), y.take(n), k, l);
    assert(x.take(x.len() as int) =~= x);
    assert(y.take(y.len() as int) =~= y);
    if tally(profile, wanted, x.take(n), k) is Err {
        lemma_tally_stops(profile, wanted, x, k, n);
        lemma_tally_stops(profile, wanted, y, l, n);
    }
}

/// Composing a profile by its name comes to what composing its document comes to,
/// where what the stores say does not change in between. Only the words of a failure
/// may differ: by name, the known bundles are listed.
pub proof fn law_a_stored_profile_composes_as_its_document<P: ProfileStore, B: BundleStore>(
    composer: Composer<P, B>,
    spec: ProfileView,
    overlays: Seq<LayerView>,
    by_name: Result<CompositionView, ConfigErrorView>,
    by_document: Result<CompositionView, ConfigErrorView>,
)
    requires
        steady(composer.bundle_store()),
        holds(composer.profile_store(), spec),
        composer.composes_stored(spec.name, overlays, by_name),
        composer.composes(spec.name, spec, overlays, false, by_document),
    ensures
        agree(by_name, by_document),
{
    let store = composer.bundle_store();
    assert(composer.composes(spec.name, spec, overlays, true, by_name));
    let a = choose|out: Result<Seq<BundleView>, ConfigErrorView>|
        #[trigger] gathered(store, spec.name, spec.bundles, true, out) && match out {
            Err(e) => by_name == Err::<CompositionView, ConfigErrorView>(e),
            Ok(bundles) => by_name == composed(
                spec.name,
                spec,
                stack(spec.name, spec, bundles, composer.home(), overlays),
                composer.context(),
            ),
        };
    let b = choose|out: Result<Seq<BundleView>, ConfigErrorView>|
        #[trigger] gathered(store, spec.name, spec.bundles, false, out) && match out {
            Err(e) => by_document == Err::<CompositionView, ConfigErrorView>(e),
            Ok(bundles) => by_document == composed(
                spec.name,
                spec,
                stack(spec.name, spec, bundles, composer.home(), overlays),
                composer.context(),
            ),
        };
    lemma_gathered_agrees(store, spec.name, spec.bundles, true, false, a, b);
}

// ---------------------------------------------------------------------------
// Precedence
// ---------------------------------------------------------------------------

/// The row an operation is about.
pub open spec fn op_target(op: OpView) -> Seq<char> {
    match op {
        OpView::SetConfig { id, .. } => id,
        OpView::Insert { row } => row.id,
    }
}

/// Whether a layer says anything of a row: declares it, patches it or inserts it.
pub open spec fn speaks_of(layer: LayerView, id: Seq<char>) -> bool {
    ||| exists|i: int| 0 <= i < layer.rows.len() && (#[trigger] layer.rows[i]).id == id
    ||| exists|i: int| 0 <= i < layer.patch.len() && op_target(#[trigger] layer.patch[i]) == id
}

/// The config of a row, where there is a row with the id.
pub open spec fn config_in(rows: Seq<RowView>, id: Seq<char>, config: YamlView) -> bool {
    exists|i: int|
        0 <= i < rows.len() && (#[trigger] rows[i]).id == id && rows[i].config == config
}

/// Operations that do not name a row leave it.
proof fn lemma_track_silent(r: RowView, ops: Seq<OpView>)
    requires
        forall|k: int| 0 <= k < ops.len() ==> op_target(#[trigger] ops[k]) != r.id,
    ensures
        track(r, ops) == r,
    decreases ops.len(),
{
    if ops.len() > 0 {
        let head = ops.drop_last();
        assert forall|k: int| 0 <= k < head.len() implies op_target(#[trigger] head[k]) != r.id by {
            assert(head[k] == ops[k]);
        }
        lemma_track_silent(r, head);
        assert(op_target(ops[ops.len() - 1]) != r.id);
    }
}

/// The last operation that names a row decides its config.
proof fn lemma_track_last(r: RowView, ops: Seq<OpView>, k: int, config: YamlView)
    requires
        0 <= k < ops.len(),
        ops[k] == (OpView::SetConfig { id: r.id, config }),
        forall|j: int| k < j < ops.len() ==> op_target(#[trigger] ops[j]) != r.id,
    ensures
        track(r, ops).config == config,
    decreases ops.len(),
{
    let head = ops.drop_last();
    lemma_tracked_id(r, head);
    if k < ops.len() - 1 {
        assert(head[k] == ops[k]);
        assert forall|j: int| k < j < head.len() implies op_target(#[trigger] head[j]) != r.id by {
            assert(head[j] == ops[j]);
        }
        lemma_track_last(r, head, k, config);
        assert(op_target(ops[ops.len() - 1]) != r.id);
    }
}

/// A layer that says nothing of a row leaves it as it is, where it is.
pub proof fn law_a_silent_layer_leaves_a_row(
    f: Folded,
    layer: LayerView,
    label: Seq<char>,
    i: int,
)
    requires
        0 <= i < f.rows.len(),
        !speaks_of(layer, f.rows[i].id),
    ensures
        i < applied(f, layer, label).rows.len(),
        applied(f, layer, label).rows[i] == f.rows[i],
{
    let ops = layer_ops(layer);
    lemma_applied_is_run(f, layer, label);
    lemma_run(f.rows, ops);
    assert forall|k: int| 0 <= k < ops.len() implies op_target(#[trigger] ops[k])
        != f.rows[i].id by {
        if k < layer.rows.len() {
            assert(ops[k] == OpView::Insert { row: layer.rows[k] });
        } else {
            assert(ops[k] == layer.patch[k - layer.rows.len()]);
        }
    }
    lemma_track_silent(f.rows[i], ops);
    assert(run(f.rows, ops)[i] == f.rows[i]);
}

/// Layers that say nothing of a row leave it as it is, where it is, whatever else
/// they do and however many they are.
pub proof fn law_silent_layers_leave_a_row(f: Folded, layers: Seq<LayerView>, i: int)
    requires
        0 <= i < f.rows.len(),
        forall|k: int| 0 <= k < layers.len() ==> !speaks_of(#[trigger] layers[k], f.rows[i].id),
    ensures
        i < fold_over(f, layers).rows.len(),
        fold_over(f, layers).rows[i] == f.rows[i],
    decreases layers.len(),
{
    if layers.len() > 0 {
        let head = layers.drop_last();
        assert forall|k: int| 0 <= k < head.len() implies !speaks_of(
            #[trigger] head[k],
            f.rows[i].id,
        ) by {
            assert(head[k] == layers[k]);
        }
        law_silent_layers_leave_a_row(f, head, i);
        assert(!speaks_of(layers[layers.len() - 1], f.rows[i].id));
        law_a_silent_layer_leaves_a_row(
            fold_over(f, head),
            layers.last(),
            label_of(layers.last()),
            i,
        );
    }
}

/// A patch has the last word on a row that it names last: the row has the config it
/// sets once the layer is applied.
pub proof fn law_a_layer_sets_what_it_names_last(
    f: Folded,
    layer: LayerView,
    label: Seq<char>,
    id: Seq<char>,
    config: YamlView,
    k: int,
)
    requires
        0 <= k < layer.patch.len(),
        layer.patch[k] == (OpView::SetConfig { id, config }),
        forall|j: int| k < j < layer.patch.len() ==> op_target(#[trigger] layer.patch[j]) != id,
        exists|i: int| 0 <= i < f.rows.len() && (#[trigger] f.rows[i]).id == id,
    ensures
        config_in(applied(f, layer, label).rows, id, config),
{
    let ops = layer_ops(layer);
    let n = layer.rows.len() as int;
    lemma_applied_is_run(f, layer, label);
    lemma_run(f.rows, ops);
    lemma_row_at(f.rows, id);
    let at = row_at(f.rows, id)->Some_0;
    assert(ops[n + k] == layer.patch[k]);
    assert forall|j: int| n + k < j < ops.len() implies op_target(#[trigger] ops[j]) != id by {
        assert(ops[j] == layer.patch[j - n]);
    }
    lemma_track_last(f.rows[at], ops, n + k, config);
    assert(run(f.rows, ops)[at] == track(f.rows[at], ops));
    lemma_tracked_id(f.rows[at], ops);
    assert(applied(f, layer, label).rows[at].id == id);
}

/// The last layer to name a row decides its config: what layer `n` sets stands in
/// the composition of all layers, where no layer above says anything of the row and
/// one below declares it.
pub proof fn law_the_last_layer_to_name_a_row_decides(
    layers: Seq<LayerView>,
    n: int,
    id: Seq<char>,
    config: YamlView,
    k: int,
)
    requires
        0 <= n < layers.len(),
        0 <= k < layers[n].patch.len(),
        layers[n].patch[k] == (OpView::SetConfig { id, config }),
        forall|j: int|
            k < j < layers[n].patch.len() ==> op_target(#[trigger] layers[n].patch[j]) != id,
        forall|m: int| n < m < layers.len() ==> !speaks_of(#[trigger] layers[m], id),
        exists|m: int, i: int|
            0 <= m < n && 0 <= i < layers[m].rows.len() && (#[trigger] layers[m].rows[i]).id == id,
    ensures
        config_in(fold(layers).rows, id, config),
{
    let below = layers.take(n);
    let above = layers.skip(n + 1);
    let (m, i) = choose|m: int, i: int|
        0 <= m < n && 0 <= i < layers[m].rows.len() && (#[trigger] layers[m].rows[i]).id == id;
    assert(below[m] == layers[m]);
    law_a_declared_row_stays(below, m, i);
    let with = below.push(layers[n]);
    assert(with.drop_last() =~= below);
    law_a_layer_sets_what_it_names_last(
        fold(below),
        layers[n],
        label_of(layers[n]),
        id,
        config,
        k,
    );
    assert(layers =~= with + above);
    law_later_layers_fold_over_earlier_ones(with, above);
    let f = fold(with);
    let at = choose|at: int|
        0 <= at < f.rows.len() && (#[trigger] f.rows[at]).id == id && f.rows[at].config == config;
    assert forall|j: int| 0 <= j < above.len() implies !speaks_of(
        #[trigger] above[j],
        f.rows[at].id,
    ) by {
        assert(above[j] == layers[n + 1 + j]);
    }
    law_silent_layers_leave_a_row(f, above, at);
    assert(fold(layers).rows[at] == f.rows[at]);
}

/// A row that any layer declares is in the composition, whatever the layers above
/// do.
pub proof fn law_a_declared_row_stays(layers: Seq<LayerView>, m: int, i: int)
    requires
        0 <= m < layers.len(),
        0 <= i < layers[m].rows.len(),
    ensures
        exists|at: int|
            0 <= at < fold(layers).rows.len() && (#[trigger] fold(layers).rows[at]).id
                == layers[m].rows[i].id,
    decreases layers.len(),
{
    let id = layers[m].rows[i].id;
    let head = layers.drop_last();
    let last = layers.last();
    let before = fold(head);
    let out = fold(layers);
    if m < layers.len() - 1 {
        assert(head[m] == layers[m]);
        law_a_declared_row_stays(head, m, i);
        let at = choose|at: int| 0 <= at < before.rows.len() && (#[trigger] before.rows[at]).id == id;
        law_a_layer_keeps_rows_in_place(before, last, label_of(last));
        assert(out.rows[at].id == id);
    } else {
        let ops = layer_ops(last);
        lemma_applied_is_run(before, last, label_of(last));
        assert(ops[i] == OpView::Insert { row: last.rows[i] });
        lemma_inserted_stays(before.rows, ops, i);
        lemma_row_at(out.rows, id);
        let at = row_at(out.rows, id)->Some_0;
        assert(out.rows[at].id == id);
    }
}

/// A row of a composition was declared: some layer declares or inserts one with its
/// id.
pub proof fn law_every_row_was_declared(layers: Seq<LayerView>, at: int)
    requires
        0 <= at < fold(layers).rows.len(),
    ensures
        exists|m: int| 0 <= m < layers.len() && #[trigger] brings(layers[m], fold(layers).rows[at]),
    decreases layers.len(),
{
    let head = layers.drop_last();
    let last = layers.last();
    let before = fold(head);
    let out = fold(layers);
    let ops = layer_ops(last);
    lemma_applied_is_run(before, last, label_of(last));
    lemma_brought(before.rows, ops, at);
    if exists|k: int|
        0 <= k < ops.len() && (#[trigger] ops[k] matches OpView::Insert { row } && row.id
            == out.rows[at].id && row.plugin == out.rows[at].plugin) {
        let k = choose|k: int|
            0 <= k < ops.len() && (#[trigger] ops[k] matches OpView::Insert { row } && row.id
                == out.rows[at].id && row.plugin == out.rows[at].plugin);
        if k < last.rows.len() {
            assert(ops[k] == OpView::Insert { row: last.rows[k] });
            assert(brings(last, out.rows[at]));
        } else {
            assert(ops[k] == last.patch[k - last.rows.len()]);
            assert(brings(last, out.rows[at]));
        }
        assert(brings(layers[layers.len() - 1], out.rows[at]));
    } else {
        law_every_row_was_declared(head, at);
        let m = choose|m: int| 0 <= m < head.len() && #[trigger] brings(head[m], before.rows[at]);
        assert(layers[m] == head[m]);
        assert(brings(layers[m], out.rows[at]));
    }
}

/// Whether a layer declares or inserts a row with this id and plugin.
pub open spec fn brings(layer: LayerView, row: RowView) -> bool {
    ||| exists|i: int|
        0 <= i < layer.rows.len() && (#[trigger] layer.rows[i]).id == row.id && layer.rows[i].plugin
            == row.plugin
    ||| exists|i: int|
        0 <= i < layer.patch.len() && (#[trigger] layer.patch[i] matches OpView::Insert { row: r }
            && r.id == row.id && r.plugin == row.plugin)
}

/// A row after operations was there before with its plugin, or one of them gave it.
proof fn lemma_brought(rows: Seq<RowView>, ops: Seq<OpView>, at: int)
    requires
        0 <= at < run(rows, ops).len(),
    ensures
        (at < rows.len() && rows[at].id == run(rows, ops)[at].id && rows[at].plugin == run(
            rows,
            ops,
        )[at].plugin) || exists|k: int|
            0 <= k < ops.len() && (#[trigger] ops[k] matches OpView::Insert { row } && row.id
                == run(rows, ops)[at].id && row.plugin == run(rows, ops)[at].plugin),
    decreases ops.len(),
{
    if ops.len() > 0 {
        let head = ops.drop_last();
        let mid = run(rows, head);
        let out = run(rows, ops);
        lemma_step(mid, ops.last());
        assert(ops[ops.len() - 1] == ops.last());
        if at < mid.len() {
            assert(out[at] == step(mid, ops.last())[at]);
            lemma_brought(rows, head, at);
            if out[at] != mid[at] && (ops.last() is Insert) {
                assert(ops[ops.len() - 1] matches OpView::Insert { row } && row.id == out[at].id
                    && row.plugin == out[at].plugin);
            } else if exists|k: int|
                0 <= k < head.len() && (#[trigger] head[k] matches OpView::Insert { row } && row.id
                    == mid[at].id && row.plugin == mid[at].plugin) {
                let k = choose|k: int|
                    0 <= k < head.len() && (#[trigger] head[k] matches OpView::Insert { row }
                        && row.id == mid[at].id && row.plugin == mid[at].plugin);
                assert(ops[k] == head[k]);
            }
        }
    }
}

// ---------------------------------------------------------------------------
// What is stacked
// ---------------------------------------------------------------------------

/// How many layers a profile has of its own.
pub open spec fn own_layers(spec: ProfileView) -> int {
    (if spec.rows.len() > 0 {
        1int
    } else {
        0int
    }) + (if spec.patch.len() > 0 {
        1int
    } else {
        0int
    })
}

/// Every layer counts, once and in its place: each bundle with all of its rows, the
/// profile's own rows, the profile's own patch, every layer of the home patch, every
/// overlay, and nothing else.
pub proof fn law_every_layer_is_stacked_once(
    name: Seq<char>,
    spec: ProfileView,
    bundles: Seq<BundleView>,
    home: Seq<LayerView>,
    overlays: Seq<LayerView>,
)
    ensures
        ({
            let all = stack(name, spec, bundles, home, overlays);
            let b = bundles.len() as int;
            let own = own_layers(spec);
            &&& all.len() == b + own + home.len() + overlays.len()
            &&& forall|i: int|
                0 <= i < b ==> (#[trigger] all[i]).name == bundles[i].name && all[i].rows
                    == bundles[i].rows && all[i].patch.len() == 0
            &&& spec.rows.len() > 0 ==> all[b].rows == spec.rows && all[b].patch.len() == 0
                && all[b].name == "profile:"@ + name
            &&& spec.patch.len() > 0 ==> all[b + own - 1].patch == spec.patch && all[b + own
                - 1].rows.len() == 0 && all[b + own - 1].name == "profile:"@ + name + ":patch"@
            &&& all.subrange(b + own, b + own + home.len()) == home
            &&& all.skip(b + own + home.len()) == overlays
        }),
{
    let all = stack(name, spec, bundles, home, overlays);
    let b = bundles.len() as int;
    let own = own_layers(spec);
    assert(all.subrange(b + own, b + own + home.len()) =~= home);
    assert(all.skip(b + own + home.len()) =~= overlays);
}

/// The home patch folds over the profile, and the overlays over both: neither
/// replaces the other, whatever they hold.
pub proof fn law_home_folds_over_the_profile_and_overlays_over_home(
    name: Seq<char>,
    spec: ProfileView,
    bundles: Seq<BundleView>,
    home: Seq<LayerView>,
    overlays: Seq<LayerView>,
)
    ensures
        fold(stack(name, spec, bundles, home, overlays)) == fold_over(
            fold_over(fold(stack(name, spec, bundles, Seq::empty(), Seq::empty())), home),
            overlays,
        ),
{
    let base = stack(name, spec, bundles, Seq::empty(), Seq::empty());
    let all = stack(name, spec, bundles, home, overlays);
    assert(all =~= base + home + overlays);
    law_later_layers_fold_over_earlier_ones(base + home, overlays);
    law_later_layers_fold_over_earlier_ones(base, home);
}

/// What the home patch sets stands, in every run whose overlays say nothing of the
/// row: for a row that a bundle declares, the composition has the config of the last
/// home layer that names it.
pub proof fn law_the_home_patch_stands_under_other_overlays(
    name: Seq<char>,
    spec: ProfileView,
    bundles: Seq<BundleView>,
    home: Seq<LayerView>,
    overlays: Seq<LayerView>,
    b: int,
    i: int,
    h: int,
    k: int,
    config: YamlView,
)
    requires
        0 <= b < bundles.len(),
        0 <= i < bundles[b].rows.len(),
        0 <= h < home.len(),
        0 <= k < home[h].patch.len(),
        home[h].patch[k] == (OpView::SetConfig { id: bundles[b].rows[i].id, config }),
        forall|j: int|
            k < j < home[h].patch.len() ==> op_target(#[trigger] home[h].patch[j])
                != bundles[b].rows[i].id,
        forall|m: int|
            h < m < home.len() ==> !speaks_of(#[trigger] home[m], bundles[b].rows[i].id),
        forall|m: int|
            0 <= m < overlays.len() ==> !speaks_of(
                #[trigger] overlays[m],
                bundles[b].rows[i].id,
            ),
    ensures
        config_in(
            fold(stack(name, spec, bundles, home, overlays)).rows,
            bundles[b].rows[i].id,
            config,
        ),
{
    let all = stack(name, spec, bundles, home, overlays);
    let id = bundles[b].rows[i].id;
    law_every_layer_is_stacked_once(name, spec, bundles, home, overlays);
    let start = bundles.len() + own_layers(spec);
    let n = start + h;
    assert(all.subrange(start, start + home.len())[h] == all[n]);
    assert forall|m: int| n < m < all.len() implies !speaks_of(#[trigger] all[m], id) by {
        if m < start + home.len() {
            assert(all.subrange(start, start + home.len())[m - start] == all[m]);
            assert(!speaks_of(home[m - start], id));
        } else {
            assert(all.skip(start + home.len())[m - start - home.len()] == all[m]);
            assert(!speaks_of(overlays[m - start - home.len()], id));
        }
    }
    assert(all[b].rows[i].id == id);
    law_the_last_layer_to_name_a_row_decides(all, n, id, config, k);
}

/// What an overlay sets stands above everything: the last overlay to name a row that
/// a bundle declares decides its config, whatever profile and home say.
pub proof fn law_an_overlay_has_the_last_word(
    name: Seq<char>,
    spec: ProfileView,
    bundles: Seq<BundleView>,
    home: Seq<LayerView>,
    overlays: Seq<LayerView>,
    b: int,
    i: int,
    n: int,
    k: int,
    config: YamlView,
)
    requires
        0 <= b < bundles.len(),
        0 <= i < bundles[b].rows.len(),
        0 <= n < overlays.len(),
        0 <= k < overlays[n].patch.len(),
        overlays[n].patch[k] == (OpView::SetConfig { id: bundles[b].rows[i].id, config }),
        forall|j: int|
            k < j < overlays[n].patch.len() ==> op_target(#[trigger] overlays[n].patch[j])
                != bundles[b].rows[i].id,
        forall|m: int|
            n < m < overlays.len() ==> !speaks_of(#[trigger] overlays[m], bundles[b].rows[i].id),
    ensures
        config_in(
            fold(stack(name, spec, bundles, home, overlays)).rows,
            bundles[b].rows[i].id,
            config,
        ),
{
    let all = stack(name, spec, bundles, home, overlays);
    let id = bundles[b].rows[i].id;
    law_every_layer_is_stacked_once(name, spec, bundles, home, overlays);
    let start = bundles.len() + own_layers(spec) + home.len();
    assert(all.skip(start)[n] == all[start + n]);
    assert forall|m: int| start + n < m < all.len() implies !speaks_of(#[trigger] all[m], id) by {
        assert(all.skip(start)[m - start] == all[m]);
        assert(!speaks_of(overlays[m - start], id));
    }
    assert(all[b].rows[i].id == id);
    law_the_last_layer_to_name_a_row_decides(all, start + n, id, config, k);
}

/// A composition reports what went into it: one name for each layer, in order, the
/// name a layer has or `layer` for one that has none; every warning of the fold; and
/// the profile's own name, prompt and model, with the folded rows, each expanded.
pub proof fn law_a_composition_reports_its_layers(
    name: Seq<char>,
    spec: ProfileView,
    layers: Seq<LayerView>,
    ctx: SubstView,
    c: CompositionView,
)
    requires
        composed(name, spec, layers, ctx) == Ok::<CompositionView, ConfigErrorView>(c),
    ensures
        c.layers.len() == layers.len(),
        forall|i: int|
            0 <= i < layers.len() ==> #[trigger] c.layers[i] == (if layers[i].name.len() > 0 {
                layers[i].name
            } else {
                "layer"@
            }),
        c.warnings == fold(layers).warnings,
        ctx.text(name) == Ok::<Seq<char>, ConfigErrorView>(c.doc.name),
        c.doc.rows.len() == fold(layers).rows.len(),
        forall|i: int|
            0 <= i < c.doc.rows.len() ==> row_expands(
                ctx,
                fold(layers).rows[i],
                #[trigger] c.doc.rows[i],
            ),
        match spec.system_prompt {
            None => c.doc.system_prompt is None,
            Some(s) => c.doc.system_prompt matches Some(t) && ctx.text(s) == Ok::<
                Seq<char>,
                ConfigErrorView,
            >(t),
        },
        match spec.model {
            None => c.doc.model is None,
            Some(YamlView::Null) => c.doc.model is None,
            Some(m) => c.doc.model matches Some(t) && ctx.document(m) == Ok::<
                YamlView,
                ConfigErrorView,
            >(t),
        },
{
    law_substitution_expands_every_field(
        ctx,
        DocView {
            name,
            rows: fold(layers).rows,
            system_prompt: spec.system_prompt,
            model: spec.model,
        },
    );
}

/// A composition succeeds where every text of it expands, and only there; layers
/// never make it fail.
pub proof fn law_only_substitution_fails_a_composition(
    name: Seq<char>,
    spec: ProfileView,
    layers: Seq<LayerView>,
    ctx: SubstView,
)
    ensures
        composed(name, spec, layers, ctx) matches Err(e) ==> typed(e),
        composed(name, spec, layers, ctx) is Ok <==> ctx.document(
            doc_value(
                DocView {
                    name,
                    rows: fold(layers).rows,
                    system_prompt: spec.system_prompt,
                    model: spec.model,
                },
            ),
        ) is Ok,
{
    let doc = DocView {
        name,
        rows: fold(layers).rows,
        system_prompt: spec.system_prompt,
        model: spec.model,
    };
    law_substitution_expands_every_field(ctx, doc);
    law_document_failures_are_typed(ctx, doc_value(doc));
    reveal_strlit("bad-config");
    reveal_strlit("bad-substitution");
    reveal_strlit("missing-env");
    reveal_strlit("missing-home");
    reveal_strlit("unknown-substitution");
    reveal_strlit("substitution-key-collision");
    assert("bad-config"@.len() == 10);
}

/// The rows of a fold do not depend on what layers are called.
pub proof fn law_names_change_no_row(f: Folded, layer: LayerView, label: Seq<char>, other: Seq<char>)
    ensures
        applied(f, layer, label).rows == applied(
            f,
            LayerView { name: other, ..layer },
            other,
        ).rows,
        applied(f, layer, label).warnings.len() == applied(f, layer, other).warnings.len(),
{
    lemma_applied_is_run(f, layer, label);
    lemma_applied_is_run(f, LayerView { name: other, ..layer }, other);
    let mid = Folded { rows: declare_all(f.rows, layer.rows), warnings: f.warnings };
    lemma_labels(mid, mid, layer.patch, label, other);
}

proof fn lemma_labels(a: Folded, b: Folded, ops: Seq<OpView>, x: Seq<char>, y: Seq<char>)
    requires
        a.rows == b.rows,
        a.warnings.len() == b.warnings.len(),
    ensures
        apply_ops(a, ops, x).rows == apply_ops(b, ops, y).rows,
        apply_ops(a, ops, x).warnings.len() == apply_ops(b, ops, y).warnings.len(),
    decreases ops.len(),
{
    if ops.len() > 0 {
        lemma_labels(a, b, ops.drop_last(), x, y);
    }
}

/// A warning says which layer and which row it is about.
pub proof fn law_a_warning_names_its_layer_and_row(label: Seq<char>, id: Seq<char>)
    ensures
        target_missing(label, id).code == "patch-target-missing"@,
        occurs(target_missing(label, id).message, debug_text(label)),
        occurs(target_missing(label, id).message, debug_text(id)),
{
    let m = target_missing(label, id).message;
    let a = "patch in layer "@;
    let b = a + debug_text(label) + " targets row "@;
    assert(m.subrange(a.len() as int, (a.len() + debug_text(label).len()) as int) =~= debug_text(label));
    assert(occurs_at(m, debug_text(label), a.len() as int));
    assert(m.subrange(b.len() as int, (b.len() + debug_text(id).len()) as int) =~= debug_text(id));
    assert(occurs_at(m, debug_text(id), b.len() as int));
}

/// The bundles of a profile are those the store answered, one for each name the
/// profile lists and in its order; a name without a bundle fails the composition and
/// is named.
pub proof fn law_bundles_are_gathered_in_order<B: BundleStore>(
    store: B,
    profile: Seq<char>,
    wanted: Seq<Seq<char>>,
    lists: bool,
    out: Result<Seq<BundleView>, ConfigErrorView>,
)
    requires
        gathered(store, profile, wanted, lists, out),
    ensures
        match out {
            Ok(bundles) => bundles.len() == wanted.len() && forall|i: int|
                0 <= i < wanted.len() ==> bundle_found(store, wanted[i], #[trigger] bundles[i]),
            Err(e) => exists|i: int|
                0 <= i < wanted.len() && #[trigger] bundle_failed(store, wanted[i], e),
        },
{
    let (answers, known) = choose|answers: Seq<BundleAnswer>, known: Vec<String>|
        #[trigger] answered(store, wanted, lists, answers, known) && out == tally(
            profile,
            wanted,
            answers,
            noted(lists, known),
        ) && (out is Ok ==> answers.len() == wanted.len());
    lemma_tallied(store, profile, wanted, answers, noted(lists, known));
}

/// Whether a store answered a name with a bundle that says this.
pub open spec fn bundle_found<B: BundleStore>(store: B, name: Seq<char>, bundle: BundleView) -> bool {
    exists|doc: BundleDoc|
        doc@ == bundle && #[trigger] bundle_answer(
            store,
            name,
            Ok::<Option<BundleDoc>, ConfigError>(Some(doc)),
        )
}

/// Whether a store failed on a name with this failure, or had no bundle of the name,
/// which the failure names.
pub open spec fn bundle_failed<B: BundleStore>(
    store: B,
    name: Seq<char>,
    e: ConfigErrorView,
) -> bool {
    ||| exists|x: ConfigError|
        x@ == e && #[trigger] bundle_answer(store, name, Err::<Option<BundleDoc>, ConfigError>(x))
    ||| bundle_answer(store, name, Ok::<Option<BundleDoc>, ConfigError>(None)) && e.code
        == "unknown-bundle"@ && e.plugin == name
}

proof fn lemma_tallied<B: BundleStore>(
    store: B,
    profile: Seq<char>,
    wanted: Seq<Seq<char>>,
    answers: Seq<BundleAnswer>,
    known: Option<Seq<Seq<char>>>,
)
    requires
        answers.len() <= wanted.len(),
        forall|i: int|
            0 <= i < answers.len() ==> bundle_answer(store, wanted[i], #[trigger] answers[i]),
    ensures
        match tally(profile, wanted, answers, known) {
            Ok(bundles) => bundles.len() == answers.len() && forall|i: int|
                0 <= i < bundles.len() ==> bundle_found(store, wanted[i], #[trigger] bundles[i]),
            Err(e) => exists|i: int|
                0 <= i < wanted.len() && #[trigger] bundle_failed(store, wanted[i], e),
        },
    decreases answers.len(),
{
    if answers.len() > 0 {
        let head = answers.drop_last();
        let n = answers.len() - 1;
        assert forall|i: int| 0 <= i < head.len() implies bundle_answer(
            store,
            wanted[i],
            #[trigger] head[i],
        ) by {
            assert(head[i] == answers[i]);
        }
        lemma_tallied(store, profile, wanted, head, known);
        assert(bundle_answer(store, wanted[n], answers[n]));
        match tally(profile, wanted, head, known) {
            Err(_) => {},
            Ok(done) => match answers[n] {
                Err(x) => {
                    assert(bundle_failed(store, wanted[n], x@));
                },
                Ok(Some(doc)) => {
                    let out = done.push(doc@);
                    assert forall|i: int| 0 <= i < out.len() implies bundle_found(
                        store,
                        wanted[i],
                        #[trigger] out[i],
                    ) by {
                        if i < done.len() {
                            assert(out[i] == done[i]);
                        }
                    }
                },
                Ok(None) => {
                    assert(bundle_failed(
                        store,
                        wanted[n],
                        tally(profile, wanted, answers, known)->Err_0,
                    ));
                },
            },
        }
    }
}

/// Composing a profile comes to the composition of its bundles, its own layers, the
/// composer's home patch and the overlays of this run: whatever the overlays are, the
/// home patch is among the layers, and below them.
pub proof fn law_composing_uses_every_source<P: ProfileStore, B: BundleStore>(
    composer: Composer<P, B>,
    name: Seq<char>,
    spec: ProfileView,
    overlays: Seq<LayerView>,
    lists: bool,
    c: CompositionView,
)
    requires
        composer.composes(name, spec, overlays, lists, Ok(c)),
    ensures
        c.layers.len() == spec.bundles.len() + own_layers(spec) + composer.home().len()
            + overlays.len(),
        forall|i: int|
            0 <= i < composer.home().len() && composer.home()[i].name.len() > 0
                ==> #[trigger] c.layers[spec.bundles.len() + own_layers(spec) + i]
                == composer.home()[i].name,
        forall|i: int|
            0 <= i < overlays.len() && overlays[i].name.len() > 0
                ==> #[trigger] c.layers[spec.bundles.len() + own_layers(spec)
                + composer.home().len() + i] == overlays[i].name,
        exists|bundles: Seq<BundleView>|
            {
                &&& bundles.len() == spec.bundles.len()
                &&& forall|i: int|
                    0 <= i < bundles.len() ==> bundle_found(
                        composer.bundle_store(),
                        spec.bundles[i],
                        #[trigger] bundles[i],
                    )
                &&& composed(
                    name,
                    spec,
                    #[trigger] stack(name, spec, bundles, composer.home(), overlays),
                    composer.context(),
                ) == Ok::<CompositionView, ConfigErrorView>(c)
            },
{
    let store = composer.bundle_store();
    let home = composer.home();
    let out = choose|out: Result<Seq<BundleView>, ConfigErrorView>|
        #[trigger] gathered(store, name, spec.bundles, lists, out) && match out {
            Err(e) => Ok::<CompositionView, ConfigErrorView>(c) == Err::<
                CompositionView,
                ConfigErrorView,
            >(e),
            Ok(bundles) => Ok::<CompositionView, ConfigErrorView>(c) == composed(
                name,
                spec,
                stack(name, spec, bundles, home, overlays),
                composer.context(),
            ),
        };
    law_bundles_are_gathered_in_order(store, name, spec.bundles, lists, out);
    let bundles = out->Ok_0;
    let all = stack(name, spec, bundles, home, overlays);
    law_every_layer_is_stacked_once(name, spec, bundles, home, overlays);
    law_a_composition_reports_its_layers(name, spec, all, composer.context(), c);
    let start = bundles.len() + own_layers(spec);
    assert forall|i: int| 0 <= i < home.len() && home[i].name.len() > 0 implies #[trigger] c.layers[
    spec.bundles.len() + own_layers(spec) + i] == home[i].name by {
        assert(all.subrange(start, start + home.len())[i] == all[start + i]);
    }
    assert forall|i: int|
        0 <= i < overlays.len() && overlays[i].name.len() > 0 implies #[trigger] c.layers[
    spec.bundles.len() + own_layers(spec) + home.len() + i] == overlays[i].name by {
        assert(all.skip(start + home.len())[i] == all[start + home.len() + i]);
    }
}

} // verus!
