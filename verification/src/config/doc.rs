//! The config document: plugin rows, bundles, profiles and patches.
//!
//! One composed configuration is a [`ConfigDoc`]: a name and an ordered list of
//! plugin [`Row`]s. Everything fed into composition is a [`Layer`], which holds
//! whole rows, patch operations, or both. Rows are keyed by `id`, never by
//! position.

use vstd::prelude::*;

use crate::config::decode::{
    bundle_of, decode_bundle, decode_doc, decode_layer, decode_op, decode_ops, decode_profile,
    decode_row, decode_rows, doc_of, layer_of, op_of, op_reason, ops_of, profile_of, row_of,
    rows_of, why_no_op,
};
use crate::config::encode::{
    bundle_value, doc_value, encode_bundle, encode_doc, encode_layer, encode_profile, layer_value,
    profile_value,
};
use crate::config::error::{fault, settled, ConfigError, ConfigErrorView, Stage};
use crate::config::laws::{
    law_a_dump_reloads, law_a_written_bundle_loads, law_a_written_layer_loads,
    law_a_written_profile_loads, ops_tag_free,
};
use crate::text::{cat, owned, same, text_opt, texts, trim, trimmed};
use crate::yaml::{
    durable, entries_view, read, tags_named, untagged, value_opt, written, Yaml, YamlView,
};

verus! {

/// The row id a field-wise profile patch targets for its `model` field.
pub const MODEL_ROW_KEY: &'static str = "model";

/// One plugin row: an id, the plugin implementation to instantiate, and the
/// opaque config handed to it.
#[derive(Debug, PartialEq)]
pub struct Row {
    /// The row identity: what patches target and what mount reports.
    pub id: String,
    /// The plugin implementation to instantiate for this row.
    pub plugin: String,
    /// The opaque config handed to the plugin.
    pub config: Yaml,
}

/// What a [`Row`] says.
#[verifier::ext_equal]
pub struct RowView {
    pub id: Seq<char>,
    pub plugin: Seq<char>,
    pub config: YamlView,
}

impl View for Row {
    type V = RowView;

    open spec fn view(&self) -> RowView {
        RowView { id: self.id@, plugin: self.plugin@, config: self.config@ }
    }
}

/// What a list of rows says.
pub open spec fn rows_view(rows: Seq<Row>) -> Seq<RowView> {
    rows.map_values(|r: Row| r@)
}

impl Row {
    /// A row with no config payload.
    pub fn new(id: &str, plugin: &str) -> (r: Row)
        ensures
            r@ == (RowView { id: id@, plugin: plugin@, config: YamlView::Null }),
    {
        Row { id: owned(id), plugin: owned(plugin), config: Yaml::Null }
    }

    /// A copy of this row.
    pub fn copy(&self) -> (r: Row)
        ensures
            r@ == self@,
    {
        Row { id: self.id.clone(), plugin: self.plugin.clone(), config: self.config.copy() }
    }
}

/// A copy of a list of rows.
pub fn copy_rows(rows: &Vec<Row>) -> (r: Vec<Row>)
    ensures
        rows_view(r@) == rows_view(rows@),
{
    let mut out: Vec<Row> = Vec::new();
    for i in 0..rows.len()
        invariant
            out@.len() == i,
            forall|k: int| 0 <= k < i ==> (#[trigger] out@[k])@ == rows@[k]@,
    {
        out.push(rows[i].copy());
    }
    assert(rows_view(out@) =~= rows_view(rows@));
    out
}

/// One patch operation over the row set.
#[derive(Debug, PartialEq)]
pub enum PatchOp {
    /// Replace the whole `config` of the row with this id. The patch restates
    /// every field it wants kept: this is no deep merge.
    SetConfig {
        /// The target row id.
        id: String,
        /// The row's new, complete config.
        config: Yaml,
    },
    /// Append a new row.
    Insert {
        /// The row to append.
        row: Row,
    },
}

/// What a [`PatchOp`] says.
pub enum OpView {
    SetConfig { id: Seq<char>, config: YamlView },
    Insert { row: RowView },
}

impl View for PatchOp {
    type V = OpView;

    open spec fn view(&self) -> OpView {
        match self {
            PatchOp::SetConfig { id, config } => OpView::SetConfig { id: id@, config: config@ },
            PatchOp::Insert { row } => OpView::Insert { row: row@ },
        }
    }
}

/// What a list of operations says.
pub open spec fn ops_view(ops: Seq<PatchOp>) -> Seq<OpView> {
    ops.map_values(|o: PatchOp| o@)
}

impl PatchOp {
    /// A copy of this operation.
    pub fn copy(&self) -> (r: PatchOp)
        ensures
            r@ == self@,
    {
        match self {
            PatchOp::SetConfig { id, config } => PatchOp::SetConfig { id: id.clone(), config: config.copy() },
            PatchOp::Insert { row } => PatchOp::Insert { row: row.copy() },
        }
    }
}

/// A copy of a list of operations.
pub fn copy_ops(ops: &Vec<PatchOp>) -> (r: Vec<PatchOp>)
    ensures
        ops_view(r@) == ops_view(ops@),
{
    let mut out: Vec<PatchOp> = Vec::new();
    for i in 0..ops.len()
        invariant
            out@.len() == i,
            forall|k: int| 0 <= k < i ==> (#[trigger] out@[k])@ == ops@[k]@,
    {
        out.push(ops[i].copy());
    }
    assert(ops_view(out@) =~= ops_view(ops@));
    out
}

/// One layer of a composition: whole rows, patch operations, or both.
#[derive(Debug, PartialEq)]
pub struct Layer {
    /// The layer name, for warnings and the layer trace.
    pub name: String,
    /// The rows this layer declares.
    pub rows: Vec<Row>,
    /// The operations this layer applies over the accumulated row set.
    pub patch: Vec<PatchOp>,
}

/// What a [`Layer`] says.
#[verifier::ext_equal]
pub struct LayerView {
    pub name: Seq<char>,
    pub rows: Seq<RowView>,
    pub patch: Seq<OpView>,
}

impl View for Layer {
    type V = LayerView;

    open spec fn view(&self) -> LayerView {
        LayerView {
            name: self.name@,
            rows: rows_view(self.rows@),
            patch: ops_view(self.patch@),
        }
    }
}

/// What a list of layers says.
pub open spec fn layers_view(layers: Seq<Layer>) -> Seq<LayerView> {
    layers.map_values(|l: Layer| l@)
}

/// A layer of whole rows.
pub open spec fn rows_layer(name: Seq<char>, rows: Seq<RowView>) -> LayerView {
    LayerView { name, rows, patch: Seq::empty() }
}

/// A layer of patch operations.
pub open spec fn patch_layer(name: Seq<char>, patch: Seq<OpView>) -> LayerView {
    LayerView { name, rows: Seq::empty(), patch }
}

/// The `bad-patch` failure with its message.
pub open spec fn bad_patch(message: Seq<char>) -> ConfigErrorView {
    fault(Stage::Patch, "bad-patch"@, message)
}

/// The row operations a field-wise profile patch stands for: a whole-config
/// `set` on the model row for every `model` entry. A mapping with any other key,
/// or with none, is no such patch.
pub open spec fn field_patch_of(entries: Seq<(YamlView, YamlView)>) -> Option<Seq<OpView>> {
    if entries.len() > 0 && forall|i: int|
        0 <= i < entries.len() ==> untagged((#[trigger] entries[i]).0) == YamlView::Text(
            MODEL_ROW_KEY@,
        ) {
        Some(
            entries.map_values(
                |e: (YamlView, YamlView)| OpView::SetConfig { id: MODEL_ROW_KEY@, config: e.1 },
            ),
        )
    } else {
        None
    }
}

/// The layer a YAML node stands for: nothing at all; a sequence of rows or of
/// operations; or a mapping that is one operation, a whole layer, one row or a
/// field-wise profile patch, whichever fits first.
pub open spec fn layer_from(v: YamlView) -> Result<LayerView, ConfigErrorView> {
    match v {
        YamlView::Null => Ok(rows_layer(Seq::empty(), Seq::empty())),
        YamlView::Sequence(items) => match (rows_of(items), ops_of(items)) {
            (Ok(rows), None) => Ok(rows_layer(Seq::empty(), rows)),
            (Err(_), Some(patch)) => Ok(patch_layer(Seq::empty(), patch)),
            (Ok(_), Some(_)) => Err(
                bad_patch("sequence layer is ambiguous between rows and patch ops"@),
            ),
            (Err(_), None) => Err(bad_patch("sequence layer is neither rows nor patch ops"@)),
        },
        YamlView::Mapping(entries) => {
            if let Some(op) = op_of(v) {
                Ok(patch_layer(Seq::empty(), seq![op]))
            } else if let Ok(layer) = layer_of(v) {
                Ok(layer)
            } else if let Ok(row) = row_of(v) {
                Ok(rows_layer(Seq::empty(), seq![row]))
            } else if let Some(patch) = field_patch_of(entries) {
                Ok(patch_layer(Seq::empty(), patch))
            } else {
                Err(
                    bad_patch(
                        "layer mapping is not a layer, row, patch op, or profile patch: "@
                            + op_reason(v),
                    ),
                )
            }
        },
        _ => Err(bad_patch("layer must be a mapping or sequence, got "@ + v.kind())),
    }
}

/// The layer a text stands for.
pub open spec fn layer_text(text: Seq<char>) -> Result<LayerView, ConfigErrorView> {
    match read(text) {
        Err(e) => Err(bad_patch("layer is not valid YAML: "@ + e)),
        Ok(v) => layer_from(v),
    }
}

fn field_patch(entries: &Vec<(Yaml, Yaml)>) -> (r: Option<Vec<PatchOp>>)
    ensures
        match r {
            Some(ops) => field_patch_of(entries_view(entries@)) == Some(ops_view(ops@)),
            None => field_patch_of(entries_view(entries@)) is None,
        },
{
    let ghost all = entries_view(entries@);
    let mut ops: Vec<PatchOp> = Vec::new();
    for i in 0..entries.len()
        invariant
            all == entries_view(entries@),
            ops@.len() == i,
            forall|k: int|
                0 <= k < i ==> untagged((#[trigger] all[k]).0) == YamlView::Text(MODEL_ROW_KEY@)
                    && ops@[k]@ == (OpView::SetConfig { id: MODEL_ROW_KEY@, config: all[k].1 }),
    {
        assert(all[i as int] == (entries@[i as int].0@, entries@[i as int].1@));
        match entries[i].0.untag().as_str() {
            Some(name) => {
                if !same(name, MODEL_ROW_KEY) {
                    return None;
                }
            },
            None => {
                return None;
            },
        }
        ops.push(PatchOp::SetConfig { id: owned(MODEL_ROW_KEY), config: entries[i].1.copy() });
    }
    if ops.len() == 0 {
        return None;
    }
    assert(ops_view(ops@) =~= field_patch_of(all)->Some_0);
    Some(ops)
}

impl Layer {
    /// A layer of whole rows.
    pub fn rows(name: String, rows: Vec<Row>) -> (r: Layer)
        ensures
            r@ == rows_layer(name@, rows_view(rows@)),
    {
        let r = Layer { name, rows, patch: Vec::new() };
        assert(r@ =~= rows_layer(name@, rows_view(rows@)));
        r
    }

    /// A layer of patch operations.
    pub fn patch(name: String, patch: Vec<PatchOp>) -> (r: Layer)
        ensures
            r@ == patch_layer(name@, ops_view(patch@)),
    {
        let r = Layer { name, rows: Vec::new(), patch };
        assert(r@ =~= patch_layer(name@, ops_view(patch@)));
        r
    }

    /// Parse a layer from YAML.
    ///
    /// A layer is a full mapping, a bare sequence of rows or of operations, or a
    /// bare single row or operation, so that a patch file can be as small as one
    /// document.
    pub fn load(yaml: &str) -> (r: Result<Layer, ConfigError>)
        ensures
            settled(r) == layer_text(yaml@),
    {
        match Yaml::parse(yaml) {
            Err(e) => Err(
                ConfigError::new(
                    Stage::Patch,
                    "bad-patch",
                    cat("layer is not valid YAML: ", e.as_str()),
                ),
            ),
            Ok(v) => Layer::from_value(v),
        }
    }

    /// Build a layer from a YAML node.
    pub fn from_value(value: Yaml) -> (r: Result<Layer, ConfigError>)
        ensures
            settled(r) == layer_from(value@),
    {
        match &value {
            Yaml::Null => {
                let r = Layer::rows(String::new(), Vec::new());
                assert(r@ =~= rows_layer(Seq::empty(), Seq::empty()));
                Ok(r)
            },
            Yaml::Sequence(items) => {
                let rows = decode_rows(items);
                let patch = decode_ops(items);
                match (rows, patch) {
                    (Ok(rows), None) => Ok(Layer::rows(String::new(), rows)),
                    (Err(_), Some(patch)) => Ok(Layer::patch(String::new(), patch)),
                    (Ok(_), Some(_)) => Err(
                        ConfigError::new(
                            Stage::Patch,
                            "bad-patch",
                            owned("sequence layer is ambiguous between rows and patch ops"),
                        ),
                    ),
                    (Err(_), None) => Err(
                        ConfigError::new(
                            Stage::Patch,
                            "bad-patch",
                            owned("sequence layer is neither rows nor patch ops"),
                        ),
                    ),
                }
            },
            Yaml::Mapping(entries) => {
                if let Some(op) = decode_op(&value) {
                    let mut ops: Vec<PatchOp> = Vec::new();
                    ops.push(op);
                    assert(ops_view(ops@) =~= seq![op@]);
                    return Ok(Layer::patch(String::new(), ops));
                }
                if let Ok(layer) = decode_layer(&value) {
                    return Ok(layer);
                }
                if let Ok(row) = decode_row(&value) {
                    let mut rows: Vec<Row> = Vec::new();
                    rows.push(row);
                    assert(rows_view(rows@) =~= seq![row@]);
                    return Ok(Layer::rows(String::new(), rows));
                }
                if let Some(patch) = field_patch(entries) {
                    return Ok(Layer::patch(String::new(), patch));
                }
                let reason = why_no_op(&value);
                Err(
                    ConfigError::new(
                        Stage::Patch,
                        "bad-patch",
                        cat(
                            "layer mapping is not a layer, row, patch op, or profile patch: ",
                            reason.as_str(),
                        ),
                    ),
                )
            },
            _ => {
                let kind = value.kind();
                Err(
                    ConfigError::new(
                        Stage::Patch,
                        "bad-patch",
                        cat("layer must be a mapping or sequence, got ", kind),
                    ),
                )
            },
        }
    }

    /// Write this layer as YAML, where the writer takes it.
    pub fn try_dump(&self) -> (r: Option<String>)
        requires
            tags_named(layer_value(self@)),
        ensures
            match r {
                Some(s) => written(layer_value(self@)) == Some(s@),
                None => written(layer_value(self@)) is None,
            },
            durable(layer_value(self@)) && ops_tag_free(self@.patch) ==> (r is Some
                && layer_text(r->Some_0@) == Ok::<LayerView, ConfigErrorView>(self@)),
    {
        let r = encode_layer(self).emit();
        proof {
            if durable(layer_value(self@)) && ops_tag_free(self@.patch) {
                law_a_written_layer_loads(self@, r->Some_0@);
            }
        }
        r
    }

    /// Write this layer as YAML.
    pub fn dump(&self) -> (r: String)
        requires
            tags_named(layer_value(self@)),
            written(layer_value(self@)) is Some,
        ensures
            written(layer_value(self@)) == Some(r@),
            durable(layer_value(self@)) && ops_tag_free(self@.patch) ==> layer_text(r@)
                == Ok::<LayerView, ConfigErrorView>(self@),
    {
        match self.try_dump() {
            Some(s) => s,
            None => String::new(),
        }
    }

    /// A copy of this layer.
    pub fn copy(&self) -> (r: Layer)
        ensures
            r@ == self@,
    {
        Layer {
            name: self.name.clone(),
            rows: copy_rows(&self.rows),
            patch: copy_ops(&self.patch),
        }
    }
}

/// A plain document as a node: an empty text, or one that does not read, is a
/// null node.
pub open spec fn parsed(text: Seq<char>) -> YamlView {
    if trimmed(text).len() == 0 {
        YamlView::Null
    } else {
        match read(trimmed(text)) {
            Ok(v) => v,
            Err(_) => YamlView::Null,
        }
    }
}

/// Parse a plain document. A text that does not read is left to the decoding of
/// a null node to report.
fn parse(yaml: &str) -> (r: Yaml)
    ensures
        r@ == parsed(yaml@),
{
    let text = trim(yaml);
    if same(text.as_str(), "") {
        proof {
            reveal_strlit("");
        }
        return Yaml::Null;
    }
    proof {
        reveal_strlit("");
        if text@.len() == 0 {
            assert(text@ =~= ""@);
        }
    }
    match Yaml::parse(text.as_str()) {
        Ok(v) => v,
        Err(_) => Yaml::Null,
    }
}

/// The outcome of decoding a stored document, with the failure its code and
/// lead say.
pub open spec fn decoded<T>(r: Result<T, Seq<char>>, code: Seq<char>, lead: Seq<char>) -> Result<
    T,
    ConfigErrorView,
> {
    match r {
        Ok(v) => Ok(v),
        Err(e) => Err(fault(Stage::Compose, code, lead + e)),
    }
}

/// The bundle a text stands for.
pub open spec fn bundle_text(text: Seq<char>) -> Result<BundleView, ConfigErrorView> {
    decoded(bundle_of(parsed(text)), "bad-bundle"@, "invalid bundle document: "@)
}

/// The profile a text stands for.
pub open spec fn profile_text(text: Seq<char>) -> Result<ProfileView, ConfigErrorView> {
    decoded(profile_of(parsed(text)), "bad-profile"@, "invalid profile document: "@)
}

/// The composed document a text stands for.
pub open spec fn doc_text(text: Seq<char>) -> Result<DocView, ConfigErrorView> {
    decoded(doc_of(parsed(text)), "bad-config"@, "invalid config document: "@)
}

/// A bundle: a named layer of rows that profiles refer to.
#[derive(Debug, PartialEq)]
pub struct BundleDoc {
    /// The bundle's name.
    pub name: String,
    /// The rows this bundle inserts.
    pub rows: Vec<Row>,
}

/// What a [`BundleDoc`] says.
#[verifier::ext_equal]
pub struct BundleView {
    pub name: Seq<char>,
    pub rows: Seq<RowView>,
}

impl View for BundleDoc {
    type V = BundleView;

    open spec fn view(&self) -> BundleView {
        BundleView { name: self.name@, rows: rows_view(self.rows@) }
    }
}

impl BundleDoc {
    /// Parse a bundle from YAML.
    pub fn load(yaml: &str) -> (r: Result<BundleDoc, ConfigError>)
        ensures
            settled(r) == bundle_text(yaml@),
    {
        match decode_bundle(&parse(yaml)) {
            Ok(doc) => Ok(doc),
            Err(e) => Err(
                ConfigError::new(
                    Stage::Compose,
                    "bad-bundle",
                    cat("invalid bundle document: ", e.as_str()),
                ),
            ),
        }
    }

    /// The same content as a composition layer, named by this bundle.
    pub fn as_layer(&self) -> (r: Layer)
        ensures
            r@ == rows_layer(self@.name, self@.rows),
    {
        Layer::rows(self.name.clone(), copy_rows(&self.rows))
    }

    /// Write this bundle as YAML, where the writer takes it.
    pub fn try_dump(&self) -> (r: Option<String>)
        requires
            tags_named(bundle_value(self@)),
        ensures
            match r {
                Some(s) => written(bundle_value(self@)) == Some(s@),
                None => written(bundle_value(self@)) is None,
            },
            durable(bundle_value(self@)) ==> (r is Some
                && bundle_text(r->Some_0@) == Ok::<BundleView, ConfigErrorView>(self@)),
    {
        let r = encode_bundle(self).emit();
        proof {
            if durable(bundle_value(self@)) {
                law_a_written_bundle_loads(self@, r->Some_0@);
            }
        }
        r
    }

    /// Write this bundle as YAML.
    pub fn dump(&self) -> (r: String)
        requires
            tags_named(bundle_value(self@)),
            written(bundle_value(self@)) is Some,
        ensures
            written(bundle_value(self@)) == Some(r@),
            durable(bundle_value(self@)) ==> bundle_text(r@)
                == Ok::<BundleView, ConfigErrorView>(self@),
    {
        match self.try_dump() {
            Some(s) => s,
            None => String::new(),
        }
    }

    /// A copy of this bundle.
    pub fn copy(&self) -> (r: BundleDoc)
        ensures
            r@ == self@,
    {
        BundleDoc { name: self.name.clone(), rows: copy_rows(&self.rows) }
    }
}

/// A stored profile: an ordered bundle list and its own rows and patches.
#[derive(Debug, PartialEq)]
pub struct ProfileSpec {
    /// The profile name.
    pub name: String,
    /// Bundles to compose, lowest precedence first.
    pub bundles: Vec<String>,
    /// Rows the profile itself declares, applied above all bundles.
    pub rows: Vec<Row>,
    /// The profile-level patch.
    pub patch: Vec<PatchOp>,
    /// The base system-prompt directive, where the profile carries one.
    pub system_prompt: Option<String>,
    /// The model the profile names, where it names one.
    pub model: Option<Yaml>,
}

/// What a [`ProfileSpec`] says.
#[verifier::ext_equal]
pub struct ProfileView {
    pub name: Seq<char>,
    pub bundles: Seq<Seq<char>>,
    pub rows: Seq<RowView>,
    pub patch: Seq<OpView>,
    pub system_prompt: Option<Seq<char>>,
    pub model: Option<YamlView>,
}

impl View for ProfileSpec {
    type V = ProfileView;

    open spec fn view(&self) -> ProfileView {
        ProfileView {
            name: self.name@,
            bundles: texts(self.bundles@),
            rows: rows_view(self.rows@),
            patch: ops_view(self.patch@),
            system_prompt: text_opt(self.system_prompt),
            model: value_opt(self.model),
        }
    }
}

/// A copy of an optional text.
pub fn copy_text(s: &Option<String>) -> (r: Option<String>)
    ensures
        text_opt(r) == text_opt(*s),
{
    match s {
        Some(t) => Some(t.clone()),
        None => None,
    }
}

/// A copy of an optional node.
pub fn copy_value(v: &Option<Yaml>) -> (r: Option<Yaml>)
    ensures
        value_opt(r) == value_opt(*v),
{
    match v {
        Some(value) => Some(value.copy()),
        None => None,
    }
}

/// A copy of a list of texts.
pub fn copy_names(names: &Vec<String>) -> (r: Vec<String>)
    ensures
        texts(r@) == texts(names@),
{
    let mut out: Vec<String> = Vec::new();
    for i in 0..names.len()
        invariant
            out@.len() == i,
            forall|k: int| 0 <= k < i ==> (#[trigger] out@[k])@ == names@[k]@,
    {
        out.push(names[i].clone());
    }
    assert(texts(out@) =~= texts(names@));
    out
}

impl ProfileSpec {
    /// Parse a profile from YAML.
    pub fn load(yaml: &str) -> (r: Result<ProfileSpec, ConfigError>)
        ensures
            settled(r) == profile_text(yaml@),
    {
        match decode_profile(&parse(yaml)) {
            Ok(doc) => Ok(doc),
            Err(e) => Err(
                ConfigError::new(
                    Stage::Compose,
                    "bad-profile",
                    cat("invalid profile document: ", e.as_str()),
                ),
            ),
        }
    }

    /// Write this profile as YAML, where the writer takes it.
    pub fn try_dump(&self) -> (r: Option<String>)
        requires
            tags_named(profile_value(self@)),
        ensures
            match r {
                Some(s) => written(profile_value(self@)) == Some(s@),
                None => written(profile_value(self@)) is None,
            },
            durable(profile_value(self@)) && ops_tag_free(self@.patch) && self@.model != Some(
                YamlView::Null,
            ) ==> (r is Some
                && profile_text(r->Some_0@) == Ok::<ProfileView, ConfigErrorView>(self@)),
    {
        let r = encode_profile(self).emit();
        proof {
            if durable(profile_value(self@)) && ops_tag_free(self@.patch) && self@.model != Some(
                YamlView::Null,
            ) {
                law_a_written_profile_loads(self@, r->Some_0@);
            }
        }
        r
    }

    /// Write this profile as YAML.
    pub fn dump(&self) -> (r: String)
        requires
            tags_named(profile_value(self@)),
            written(profile_value(self@)) is Some,
        ensures
            written(profile_value(self@)) == Some(r@),
            durable(profile_value(self@)) && ops_tag_free(self@.patch) && self@.model != Some(
                YamlView::Null,
            ) ==> profile_text(r@)
                == Ok::<ProfileView, ConfigErrorView>(self@),
    {
        match self.try_dump() {
            Some(s) => s,
            None => String::new(),
        }
    }

    /// A copy of this profile.
    pub fn copy(&self) -> (r: ProfileSpec)
        ensures
            r@ == self@,
    {
        ProfileSpec {
            name: self.name.clone(),
            bundles: copy_names(&self.bundles),
            rows: copy_rows(&self.rows),
            patch: copy_ops(&self.patch),
            system_prompt: copy_text(&self.system_prompt),
            model: copy_value(&self.model),
        }
    }
}

/// The composed configuration document: what boot mounts and what a dump
/// prints.
#[derive(Debug, PartialEq)]
pub struct ConfigDoc {
    /// The composed profile's name.
    pub name: String,
    /// The composed plugin rows, in mount order.
    pub rows: Vec<Row>,
    /// The base system-prompt directive, if any.
    pub system_prompt: Option<String>,
    /// The model selection carried by the profile, if any.
    pub model: Option<Yaml>,
}

/// What a [`ConfigDoc`] says.
#[verifier::ext_equal]
pub struct DocView {
    pub name: Seq<char>,
    pub rows: Seq<RowView>,
    pub system_prompt: Option<Seq<char>>,
    pub model: Option<YamlView>,
}

impl View for ConfigDoc {
    type V = DocView;

    open spec fn view(&self) -> DocView {
        DocView {
            name: self.name@,
            rows: rows_view(self.rows@),
            system_prompt: text_opt(self.system_prompt),
            model: value_opt(self.model),
        }
    }
}

/// The position of the first row with this id.
pub open spec fn row_at(rows: Seq<RowView>, id: Seq<char>) -> Option<int>
    decreases rows.len(),
{
    if rows.len() == 0 {
        None
    } else {
        match row_at(rows.drop_last(), id) {
            Some(i) => Some(i),
            None => if rows.last().id == id {
                Some(rows.len() - 1)
            } else {
                None
            },
        }
    }
}

/// The first row with an id is one, and no row before it is.
pub proof fn lemma_row_at(rows: Seq<RowView>, id: Seq<char>)
    ensures
        match row_at(rows, id) {
            Some(i) => 0 <= i < rows.len() && rows[i].id == id && forall|k: int|
                0 <= k < i ==> (#[trigger] rows[k]).id != id,
            None => forall|k: int| 0 <= k < rows.len() ==> (#[trigger] rows[k]).id != id,
        },
    decreases rows.len(),
{
    if rows.len() > 0 {
        lemma_row_at(rows.drop_last(), id);
        assert forall|k: int| 0 <= k < rows.len() - 1 implies #[trigger] rows[k] == rows.drop_last()[k] by {
        }
    }
}

/// The position of the first row with this id.
pub fn position(rows: &Vec<Row>, id: &str) -> (r: Option<usize>)
    ensures
        match r {
            Some(i) => i < rows.len() && row_at(rows_view(rows@), id@) == Some(i as int),
            None => row_at(rows_view(rows@), id@) is None,
        },
{
    let ghost all = rows_view(rows@);
    for i in 0..rows.len()
        invariant
            all == rows_view(rows@),
            forall|k: int| 0 <= k < i ==> (#[trigger] all[k]).id != id@,
    {
        assert(all[i as int].id == rows@[i as int].id@);
        if same(rows[i].id.as_str(), id) {
            proof {
                lemma_row_at(all, id@);
            }
            return Some(i);
        }
    }
    proof {
        lemma_row_at(all, id@);
    }
    None
}

impl ConfigDoc {
    /// The row with this id, if present.
    pub fn row(&self, id: &str) -> (r: Option<&Row>)
        ensures
            match (r, row_at(self@.rows, id@)) {
                (Some(row), Some(i)) => row@ == self@.rows[i],
                (None, None) => true,
                _ => false,
            },
    {
        match position(&self.rows, id) {
            Some(i) => Some(&self.rows[i]),
            None => None,
        }
    }

    /// Write this document as YAML, where the writer takes it: what a dump
    /// prints.
    pub fn try_dump(&self) -> (r: Option<String>)
        requires
            tags_named(doc_value(self@)),
        ensures
            match r {
                Some(s) => written(doc_value(self@)) == Some(s@),
                None => written(doc_value(self@)) is None,
            },
            durable(doc_value(self@)) && self@.model != Some(YamlView::Null) ==> (r is Some
                && doc_text(r->Some_0@) == Ok::<DocView, ConfigErrorView>(self@)),
    {
        let r = encode_doc(self).emit();
        proof {
            if durable(doc_value(self@)) && self@.model != Some(YamlView::Null) {
                law_a_dump_reloads(self@, r->Some_0@);
            }
        }
        r
    }

    /// Write this document as YAML: what a dump prints.
    pub fn dump(&self) -> (r: String)
        requires
            tags_named(doc_value(self@)),
            written(doc_value(self@)) is Some,
        ensures
            written(doc_value(self@)) == Some(r@),
            durable(doc_value(self@)) && self@.model != Some(YamlView::Null) ==> doc_text(r@)
                == Ok::<DocView, ConfigErrorView>(self@),
    {
        match self.try_dump() {
            Some(s) => s,
            None => String::new(),
        }
    }

    /// Parse a composed document from YAML, refusing unknown fields.
    pub fn load(yaml: &str) -> (r: Result<ConfigDoc, ConfigError>)
        ensures
            settled(r) == doc_text(yaml@),
    {
        match decode_doc(&parse(yaml)) {
            Ok(doc) => Ok(doc),
            Err(e) => Err(
                ConfigError::new(
                    Stage::Compose,
                    "bad-config",
                    cat("invalid config document: ", e.as_str()),
                ),
            ),
        }
    }

    /// A copy of this document.
    pub fn copy(&self) -> (r: ConfigDoc)
        ensures
            r@ == self@,
    {
        ConfigDoc {
            name: self.name.clone(),
            rows: copy_rows(&self.rows),
            system_prompt: copy_text(&self.system_prompt),
            model: copy_value(&self.model),
        }
    }
}

} // verus!
