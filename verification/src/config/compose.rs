//! Layered composition: bundles, profile patch, home patch, overlays.
//!
//! [`Composer`] turns a profile into a [`ConfigDoc`] by folding layers in
//! precedence order, lowest first, and then expanding substitutions. A layer
//! that declares an existing id replaces that row in place, one that declares a
//! new id appends it; a patch that sets the config of an absent row is a
//! [`Warning`], not an error.

use vstd::prelude::*;

use crate::config::bundles::BundleStore;
use crate::config::decode::{decode_doc, doc_of};
use crate::config::doc::{
    copy_ops, copy_rows, copy_text, copy_value, doc_text, layer_text, layers_view, patch_layer,
    position, row_at, rows_layer, rows_view, BundleDoc, BundleView, ConfigDoc, DocView, Layer, LayerView,
    OpView, PatchOp, ProfileSpec, ProfileView, Row, RowView,
};
use crate::config::encode::{doc_value, encode_doc};
use crate::config::error::{fault, settled, ConfigError, ConfigErrorView, Stage};
use crate::config::profiles::ProfileStore;
use crate::config::subst::{Subst, SubstView};
use crate::text::{cat, cat3, cat4, cat5, debug_text, join, joined, owned, quoted, same, texts};
use crate::yaml::{durable, tags_named, written, YamlView};

verus! {

// ---------------------------------------------------------------------------
// Folding layers
// ---------------------------------------------------------------------------

/// A non-fatal composition observation.
#[derive(Debug, Clone, PartialEq, Eq)]
pub struct Warning {
    /// The stable machine-readable code.
    pub code: &'static str,
    /// The human-readable message.
    pub message: String,
}

/// What a [`Warning`] says.
#[verifier::ext_equal]
pub struct WarningView {
    pub code: Seq<char>,
    pub message: Seq<char>,
}

impl View for Warning {
    type V = WarningView;

    open spec fn view(&self) -> WarningView {
        WarningView { code: self.code@, message: self.message@ }
    }
}

impl Warning {
    /// The one-line rendering: code and message.
    pub fn display(&self) -> (r: String)
        ensures
            r@ == self@.code + ": "@ + self@.message,
    {
        cat3(self.code, ": ", self.message.as_str())
    }
}

/// What a list of warnings says.
pub open spec fn warnings_view(v: Seq<Warning>) -> Seq<WarningView> {
    v.map_values(|w: Warning| w@)
}

/// The warning for a patch that no row takes.
pub open spec fn target_missing(label: Seq<char>, id: Seq<char>) -> WarningView {
    WarningView {
        code: "patch-target-missing"@,
        message: "patch in layer "@ + debug_text(label) + " targets row "@ + debug_text(id)
            + ", which no lower layer declares; the patch was skipped"@,
    }
}

/// What folding has come to: the rows, and the warnings so far.
#[verifier::ext_equal]
pub struct Folded {
    pub rows: Seq<RowView>,
    pub warnings: Seq<WarningView>,
}

/// Declare a row: in place of the row with its id, or behind all others.
pub open spec fn declare(rows: Seq<RowView>, row: RowView) -> Seq<RowView> {
    match row_at(rows, row.id) {
        Some(at) => rows.update(at, row),
        None => rows.push(row),
    }
}

/// Declare rows in order.
pub open spec fn declare_all(rows: Seq<RowView>, new: Seq<RowView>) -> Seq<RowView>
    decreases new.len(),
{
    if new.len() == 0 {
        rows
    } else {
        declare(declare_all(rows, new.drop_last()), new.last())
    }
}

/// Apply one operation: give a row its new, complete config, or declare a row.
pub open spec fn apply_op(f: Folded, op: OpView, label: Seq<char>) -> Folded {
    match op {
        OpView::SetConfig { id, config } => match row_at(f.rows, id) {
            Some(at) => Folded {
                rows: f.rows.update(at, RowView { config, ..f.rows[at] }),
                warnings: f.warnings,
            },
            None => Folded {
                rows: f.rows,
                warnings: f.warnings.push(target_missing(label, id)),
            },
        },
        OpView::Insert { row } => Folded { rows: declare(f.rows, row), warnings: f.warnings },
    }
}

/// Apply operations in order.
pub open spec fn apply_ops(f: Folded, ops: Seq<OpView>, label: Seq<char>) -> Folded
    decreases ops.len(),
{
    if ops.len() == 0 {
        f
    } else {
        apply_op(apply_ops(f, ops.drop_last(), label), ops.last(), label)
    }
}

/// Apply one layer: its rows, then its operations.
pub open spec fn applied(f: Folded, layer: LayerView, label: Seq<char>) -> Folded {
    apply_ops(
        Folded { rows: declare_all(f.rows, layer.rows), warnings: f.warnings },
        layer.patch,
        label,
    )
}

/// The name a layer goes by in warnings and in the trace.
pub open spec fn label_of(layer: LayerView) -> Seq<char> {
    if layer.name.len() == 0 {
        "layer"@
    } else {
        layer.name
    }
}

/// Fold layers, lowest precedence first, over what is there.
pub open spec fn fold_over(f: Folded, layers: Seq<LayerView>) -> Folded
    decreases layers.len(),
{
    if layers.len() == 0 {
        f
    } else {
        applied(fold_over(f, layers.drop_last()), layers.last(), label_of(layers.last()))
    }
}

/// Fold layers, lowest precedence first.
pub open spec fn fold(layers: Seq<LayerView>) -> Folded {
    fold_over(Folded { rows: Seq::empty(), warnings: Seq::empty() }, layers)
}

/// The result of composing a profile: the document, and what to report.
#[derive(Debug)]
pub struct Composition {
    /// The composed document.
    pub doc: ConfigDoc,
    /// Non-fatal observations, in the order the layers produced them.
    pub warnings: Vec<Warning>,
    /// The layer names that contributed, lowest precedence first.
    pub layers: Vec<String>,
}

/// What a [`Composition`] says.
#[verifier::ext_equal]
pub struct CompositionView {
    pub doc: DocView,
    pub warnings: Seq<WarningView>,
    pub layers: Seq<Seq<char>>,
}

impl View for Composition {
    type V = CompositionView;

    open spec fn view(&self) -> CompositionView {
        CompositionView {
            doc: self.doc@,
            warnings: warnings_view(self.warnings@),
            layers: texts(self.layers@),
        }
    }
}

impl Composition {
    /// The composed document.
    pub fn into_doc(self) -> (r: ConfigDoc)
        ensures
            r == self.doc,
    {
        self.doc
    }
}

/// The document substitution makes of a document: the node it is written as,
/// expanded, and read again.
pub open spec fn substituted(ctx: SubstView, doc: DocView) -> Result<DocView, ConfigErrorView> {
    match ctx.document(doc_value(doc)) {
        Err(e) => Err(e),
        Ok(v) => match doc_of(v) {
            Ok(d) => Ok(d),
            Err(e) => Err(
                fault(
                    Stage::Substitute,
                    "bad-config"@,
                    "substituted config does not compose: "@ + e,
                ),
            ),
        },
    }
}

/// The composition of layers under a profile's own fields.
pub open spec fn composed(
    name: Seq<char>,
    spec: ProfileView,
    layers: Seq<LayerView>,
    ctx: SubstView,
) -> Result<CompositionView, ConfigErrorView> {
    let folded = fold(layers);
    match substituted(
        ctx,
        DocView {
            name,
            rows: folded.rows,
            system_prompt: spec.system_prompt,
            model: spec.model,
        },
    ) {
        Err(e) => Err(e),
        Ok(doc) => Ok(
            CompositionView {
                doc,
                warnings: folded.warnings,
                layers: layers.map_values(|l: LayerView| label_of(l)),
            },
        ),
    }
}

fn declare_row(rows: &mut Vec<Row>, row: &Row)
    ensures
        rows_view(final(rows)@) == declare(rows_view(old(rows)@), row@),
{
    let ghost before = rows_view(rows@);
    match position(rows, row.id.as_str()) {
        Some(at) => {
            rows.set(at, row.copy());
            assert(rows_view(rows@) =~= before.update(at as int, row@));
        },
        None => {
            rows.push(row.copy());
            assert(rows_view(rows@) =~= before.push(row@));
        },
    }
}

/// Apply one layer to an accumulated row set, in place.
pub fn apply_layer(
    rows: &mut Vec<Row>,
    layer: &Layer,
    label: &str,
    warnings: &mut Vec<Warning>,
) -> (r: Result<(), ConfigError>)
    ensures
        r is Ok,
        (Folded {
            rows: rows_view(final(rows)@),
            warnings: warnings_view(final(warnings)@),
        }) == applied(
            Folded { rows: rows_view(old(rows)@), warnings: warnings_view(old(warnings)@) },
            layer@,
            label@,
        ),
{
    let ghost start = Folded { rows: rows_view(rows@), warnings: warnings_view(warnings@) };
    let ghost new = layer@.rows;
    assert(new.take(0) =~= Seq::empty());
    for i in 0..layer.rows.len()
        invariant
            new == layer@.rows,
            rows_view(rows@) == declare_all(start.rows, new.take(i as int)),
            warnings_view(warnings@) == start.warnings,
    {
        declare_row(rows, &layer.rows[i]);
        assert(new.take(i + 1).drop_last() =~= new.take(i as int));
        assert(new.take(i + 1).last() == layer.rows@[i as int]@);
    }
    assert(new.take(layer.rows@.len() as int) =~= new);
    let ghost mid = Folded { rows: declare_all(start.rows, new), warnings: start.warnings };
    let ghost ops = layer@.patch;
    assert(ops.take(0) =~= Seq::empty());
    for i in 0..layer.patch.len()
        invariant
            ops == layer@.patch,
            (Folded { rows: rows_view(rows@), warnings: warnings_view(warnings@) }) == apply_ops(
                mid,
                ops.take(i as int),
                label@,
            ),
    {
        assert(ops.take(i + 1).drop_last() =~= ops.take(i as int));
        assert(ops.take(i + 1).last() == layer.patch@[i as int]@);
        let ghost before = rows_view(rows@);
        let ghost noted = warnings_view(warnings@);
        match &layer.patch[i] {
            PatchOp::SetConfig { id, config } => match position(rows, id.as_str()) {
                Some(at) => {
                    let row = Row {
                        id: rows[at].id.clone(),
                        plugin: rows[at].plugin.clone(),
                        config: config.copy(),
                    };
                    rows.set(at, row);
                    assert(rows_view(rows@) =~= before.update(
                        at as int,
                        RowView { config: config@, ..before[at as int] },
                    ));
                },
                None => {
                    let l = quoted(label);
                    let t = quoted(id.as_str());
                    let warning = Warning {
                        code: "patch-target-missing",
                        message: cat5(
                            "patch in layer ",
                            l.as_str(),
                            " targets row ",
                            t.as_str(),
                            ", which no lower layer declares; the patch was skipped",
                        ),
                    };
                    warnings.push(warning);
                    assert(warnings_view(warnings@) =~= noted.push(target_missing(label@, id@)));
                },
            },
            PatchOp::Insert { row } => declare_row(rows, row),
        }
    }
    assert(ops.take(layer.patch@.len() as int) =~= ops);
    Ok(())
}

/// Expand the substitutions of a document.
fn substitute(doc: &ConfigDoc, subst: &Subst) -> (r: Result<ConfigDoc, ConfigError>)
    ensures
        settled(r) == substituted(subst@, doc@),
{
    let value = encode_doc(doc);
    match subst.expand_value(&value) {
        Err(e) => Err(e),
        Ok(v) => match decode_doc(&v) {
            Ok(d) => Ok(d),
            Err(e) => Err(
                ConfigError::new(
                    Stage::Substitute,
                    "bad-config",
                    cat("substituted config does not compose: ", e.as_str()),
                ),
            ),
        },
    }
}

/// Fold `layers`, lowest precedence first, into a row set and expand
/// substitutions once, over the composed document.
pub fn compose_layers(name: &str, spec: &ProfileSpec, layers: &Vec<Layer>, subst: &Subst) -> (r:
    Result<Composition, ConfigError>)
    ensures
        settled(r) == composed(name@, spec@, layers_view(layers@), subst@),
{
    let ghost all = layers_view(layers@);
    let mut rows: Vec<Row> = Vec::new();
    let mut warnings: Vec<Warning> = Vec::new();
    let mut trace: Vec<String> = Vec::new();
    assert(all.take(0) =~= Seq::empty());
    assert(rows_view(rows@) =~= Seq::empty());
    assert(warnings_view(warnings@) =~= Seq::empty());
    for i in 0..layers.len()
        invariant
            all == layers_view(layers@),
            (Folded { rows: rows_view(rows@), warnings: warnings_view(warnings@) }) == fold(
                all.take(i as int),
            ),
            trace@.len() == i,
            forall|k: int| 0 <= k < i ==> (#[trigger] trace@[k])@ == label_of(all[k]),
    {
        assert(all.take(i + 1).drop_last() =~= all.take(i as int));
        assert(all.take(i + 1).last() == layers@[i as int]@);
        let label = layer_label(&layers[i]);
        trace.push(label.clone());
        let _ = apply_layer(&mut rows, &layers[i], label.as_str(), &mut warnings);
    }
    assert(all.take(layers@.len() as int) =~= all);
    let doc = ConfigDoc {
        name: owned(name),
        rows,
        system_prompt: copy_text(&spec.system_prompt),
        model: copy_value(&spec.model),
    };
    match substitute(&doc, subst) {
        Err(e) => Err(e),
        Ok(doc) => {
            assert(texts(trace@) =~= all.map_values(|l: LayerView| label_of(l)));
            Ok(Composition { doc, warnings, layers: trace })
        },
    }
}

fn layer_label(layer: &Layer) -> (r: String)
    ensures
        r@ == label_of(layer@),
{
    proof {
        reveal_strlit("");
    }
    if same(layer.name.as_str(), "") {
        owned("layer")
    } else {
        proof {
            if layer.name@.len() == 0 {
                assert(layer.name@ =~= ""@);
            }
        }
        layer.name.clone()
    }
}

// ---------------------------------------------------------------------------
// The composer
// ---------------------------------------------------------------------------

/// The names of a store, as a message lists them.
pub open spec fn listing(names: Seq<Seq<char>>) -> Seq<char> {
    if names.len() == 0 {
        "(none)"@
    } else {
        joined(names, ", "@)
    }
}

pub fn list(names: &Vec<String>) -> (r: String)
    ensures
        r@ == listing(texts(names@)),
{
    if names.len() == 0 {
        owned("(none)")
    } else {
        join(names, ", ")
    }
}

/// The failure for a profile no store has.
pub open spec fn unknown_profile(name: Seq<char>, known: Seq<Seq<char>>) -> ConfigErrorView {
    ConfigErrorView {
        stage: Stage::Compose,
        code: "unknown-profile"@,
        plugin: name,
        message: "no profile named "@ + debug_text(name) + "; available: "@ + listing(known),
    }
}

/// The failure for a bundle a profile requires and no store has, with the names
/// the store does have where they are listed.
pub open spec fn unknown_bundle(
    profile: Seq<char>,
    bundle: Seq<char>,
    known: Option<Seq<Seq<char>>>,
) -> ConfigErrorView {
    let head = "profile "@ + debug_text(profile) + " requires bundle "@ + debug_text(bundle);
    ConfigErrorView {
        stage: Stage::Compose,
        code: "unknown-bundle"@,
        plugin: bundle,
        message: match known {
            Some(names) => head + ", which is not installed (known: "@ + listing(names) + ")"@,
            None => head,
        },
    }
}

/// The layers of a profile, lowest precedence first: its bundles in order, its
/// own rows, its own patch, the home patch and the overlays.
pub open spec fn stack(
    name: Seq<char>,
    spec: ProfileView,
    bundles: Seq<BundleView>,
    home: Seq<LayerView>,
    overlays: Seq<LayerView>,
) -> Seq<LayerView> {
    bundles.map_values(|b: BundleView| rows_layer(b.name, b.rows)) + (if spec.rows.len() > 0 {
        seq![rows_layer("profile:"@ + name, spec.rows)]
    } else {
        Seq::empty()
    }) + (if spec.patch.len() > 0 {
        seq![patch_layer("profile:"@ + name + ":patch"@, spec.patch)]
    } else {
        Seq::empty()
    }) + home + overlays
}

/// What a list of bundles says.
pub open spec fn bundles_view(bundles: Seq<BundleDoc>) -> Seq<BundleView> {
    bundles.map_values(|b: BundleDoc| b@)
}

/// Whether the store answered `name` with `r`.
pub open spec fn bundle_answer<B: BundleStore>(
    store: B,
    name: Seq<char>,
    r: Result<Option<BundleDoc>, ConfigError>,
) -> bool {
    exists|s: &str| s@ == name && #[trigger] call_ensures(B::load, (&store, s), r)
}

/// Whether the store listed its names as `r`.
pub open spec fn bundle_listing<B: BundleStore>(store: B, r: Vec<String>) -> bool {
    call_ensures(B::names, (&store,), r)
}

/// Whether the store answered `name` with `r`.
pub open spec fn profile_answer<P: ProfileStore>(
    store: P,
    name: Seq<char>,
    r: Result<Option<ProfileSpec>, ConfigError>,
) -> bool {
    exists|s: &str| s@ == name && #[trigger] call_ensures(P::load, (&store, s), r)
}

/// Whether the store listed its names as `r`.
pub open spec fn profile_listing<P: ProfileStore>(store: P, r: Vec<String>) -> bool {
    call_ensures(P::names, (&store,), r)
}

/// What a store answered to a request for a bundle.
pub type BundleAnswer = Result<Option<BundleDoc>, ConfigError>;

/// What answers come to: the bundles, or the first failure. `known` is what the
/// store listed where it had no bundle of a name and was asked to list.
pub open spec fn tally(
    profile: Seq<char>,
    wanted: Seq<Seq<char>>,
    answers: Seq<BundleAnswer>,
    known: Option<Seq<Seq<char>>>,
) -> Result<Seq<BundleView>, ConfigErrorView>
    decreases answers.len(),
{
    if answers.len() == 0 {
        Ok(Seq::empty())
    } else {
        match tally(profile, wanted, answers.drop_last(), known) {
            Err(e) => Err(e),
            Ok(done) => match answers.last() {
                Err(e) => Err(e@),
                Ok(Some(doc)) => Ok(done.push(doc@)),
                Ok(None) => Err(unknown_bundle(profile, wanted[answers.len() - 1], known)),
            },
        }
    }
}

/// Whether a store gave these answers to requests for the first of the bundles
/// in `wanted`, and listed `known` where it had none of a name and `lists` holds.
pub open spec fn answered<B: BundleStore>(
    store: B,
    wanted: Seq<Seq<char>>,
    lists: bool,
    answers: Seq<BundleAnswer>,
    known: Vec<String>,
) -> bool {
    &&& answers.len() <= wanted.len()
    &&& forall|i: int|
        0 <= i < answers.len() ==> bundle_answer(store, wanted[i], #[trigger] answers[i])
    &&& (lists && answers.len() > 0 && answers.last() == Ok::<Option<BundleDoc>, ConfigError>(None))
        ==> bundle_listing(store, known)
}

/// Whether asking a store for bundles, in order and up to the first failure,
/// came to `out`. Where `lists` holds, a missing bundle is reported with the
/// names the store does have.
pub open spec fn gathered<B: BundleStore>(
    store: B,
    profile: Seq<char>,
    wanted: Seq<Seq<char>>,
    lists: bool,
    out: Result<Seq<BundleView>, ConfigErrorView>,
) -> bool {
    exists|answers: Seq<BundleAnswer>, known: Vec<String>|
        #[trigger] answered(store, wanted, lists, answers, known) && out == tally(
            profile,
            wanted,
            answers,
            noted(lists, known),
        ) && (out is Ok ==> answers.len() == wanted.len())
}

/// The names to report.
pub open spec fn noted(lists: bool, known: Vec<String>) -> Option<Seq<Seq<char>>> {
    if lists {
        Some(texts(known@))
    } else {
        None
    }
}

/// The layered composer: a profile store, a bundle store, the home patch and the
/// substitution context.
pub struct Composer<P, B> {
    profiles: P,
    bundles: B,
    home_patch: Vec<Layer>,
    subst: Subst,
}

impl<P: ProfileStore, B: BundleStore> Composer<P, B> {
    /// The profile store.
    pub closed spec fn profile_store(&self) -> P {
        self.profiles
    }

    /// The bundle store.
    pub closed spec fn bundle_store(&self) -> B {
        self.bundles
    }

    /// The home patch.
    pub closed spec fn home(&self) -> Seq<LayerView> {
        layers_view(self.home_patch@)
    }

    /// The substitution context.
    pub closed spec fn context(&self) -> SubstView {
        self.subst@
    }

    /// A composer with no home patch.
    pub fn new(profiles: P, bundles: B, subst: Subst) -> (r: Composer<P, B>)
        ensures
            r.profile_store() == profiles,
            r.bundle_store() == bundles,
            r.home() == Seq::<LayerView>::empty(),
            r.context() == subst@,
    {
        let r = Composer { profiles, bundles, home_patch: Vec::new(), subst };
        assert(r.home() =~= Seq::<LayerView>::empty());
        r
    }

    /// Set the home-level patch layers, above the profile patch and below the
    /// overlays.
    pub fn with_home_patch(self, layers: Vec<Layer>) -> (r: Composer<P, B>)
        ensures
            r.profile_store() == self.profile_store(),
            r.bundle_store() == self.bundle_store(),
            r.home() == layers_view(layers@),
            r.context() == self.context(),
    {
        let mut next = self;
        next.home_patch = layers;
        next
    }

    /// Parse a home-level patch from YAML text. A malformed one is reported here
    /// rather than by every later composition.
    pub fn with_home_patch_text(self, name: String, yaml: &str) -> (r: Result<
        Composer<P, B>,
        ConfigError,
    >)
        ensures
            match (layer_text(yaml@), r) {
                (Ok(layer), Ok(c)) => {
                    &&& c.profile_store() == self.profile_store()
                    &&& c.bundle_store() == self.bundle_store()
                    &&& c.home() == seq![LayerView { name: name@, ..layer }]
                    &&& c.context() == self.context()
                },
                (Err(e), Err(x)) => x@ == e,
                _ => false,
            },
    {
        match Layer::load(yaml) {
            Err(e) => Err(e),
            Ok(layer) => {
                let mut layer = layer;
                layer.name = name;
                let mut layers: Vec<Layer> = Vec::new();
                layers.push(layer);
                assert(layers_view(layers@) =~= seq![layer@]);
                Ok(self.with_home_patch(layers))
            },
        }
    }

    /// Profile names this composer knows.
    pub fn profiles(&self) -> (r: Vec<String>)
        ensures
            profile_listing(self.profile_store(), r),
    {
        self.profiles.names()
    }

    /// Ask the bundle store for bundles, in order.
    fn gather(&self, profile: &str, wanted: &Vec<String>, lists: bool) -> (r: Result<
        Vec<BundleDoc>,
        ConfigError,
    >)
        ensures
            gathered(
                self.bundle_store(),
                profile@,
                texts(wanted@),
                lists,
                match r {
                    Ok(docs) => Ok(bundles_view(docs@)),
                    Err(e) => Err(e@),
                },
            ),
    {
        let ghost all = texts(wanted@);
        let ghost store = self.bundles;
        let ghost mut answers: Seq<BundleAnswer> = Seq::empty();
        let none: Vec<String> = Vec::new();
        let mut docs: Vec<BundleDoc> = Vec::new();
        assert(bundles_view(docs@) =~= Seq::empty());
        for i in 0..wanted.len()
            invariant
                all == texts(wanted@),
                store == self.bundles,
                answers.len() == i,
                forall|k: int|
                    0 <= k < i ==> bundle_answer(store, all[k], #[trigger] answers[k]) && !(
                    answers[k] matches Ok(None)),
                forall|known: Option<Seq<Seq<char>>>| #[trigger]
                    tally(profile@, all, answers, known) == Ok::<
                        Seq<BundleView>,
                        ConfigErrorView,
                    >(bundles_view(docs@)),
        {
            let ghost done = bundles_view(docs@);
            let ghost before = answers;
            let name = wanted[i].as_str();
            let answer = self.bundles.load(name);
            assert(call_ensures(B::load, (&store, name), answer));
            assert(bundle_answer(store, all[i as int], answer));
            proof {
                answers = answers.push(answer);
                assert(answers.drop_last() =~= before);
            }
            match answer {
                Ok(Some(doc)) => {
                    docs.push(doc);
                    assert(bundles_view(docs@) =~= done.push(doc@));
                    assert forall|known: Option<Seq<Seq<char>>>| #[trigger]
                        tally(profile@, all, answers, known) == Ok::<
                            Seq<BundleView>,
                            ConfigErrorView,
                        >(bundles_view(docs@)) by {
                        assert(tally(profile@, all, before, known) is Ok);
                    }
                },
                Ok(None) => {
                    let known = if lists {
                        self.bundles.names()
                    } else {
                        Vec::new()
                    };
                    assert(lists ==> bundle_listing(store, known));
                    let p = quoted(profile);
                    let b = quoted(name);
                    let head = cat4("profile ", p.as_str(), " requires bundle ", b.as_str());
                    let message = if lists {
                        let l = list(&known);
                        cat4(
                            head.as_str(),
                            ", which is not installed (known: ",
                            l.as_str(),
                            ")",
                        )
                    } else {
                        head
                    };
                    let e = ConfigError::for_plugin(
                        Stage::Compose,
                        "unknown-bundle",
                        wanted[i].clone(),
                        message,
                    );
                    assert(tally(profile@, all, before, noted(lists, known)) is Ok);
                    assert(answered(store, all, lists, answers, known));
                    return Err(e);
                },
                Err(e) => {
                    assert(tally(profile@, all, before, noted(lists, none)) is Ok);
                    assert(answered(store, all, lists, answers, none));
                    return Err(e);
                },
            }
        }
        assert(tally(profile@, all, answers, noted(lists, none)) is Ok);
        assert(answered(store, all, lists, answers, none));
        Ok(docs)
    }

    /// Compose a profile whose bundles are at hand.
    pub fn assemble(
        &self,
        name: &str,
        spec: &ProfileSpec,
        bundles: &Vec<BundleDoc>,
        overlays: &Vec<Layer>,
    ) -> (r: Result<Composition, ConfigError>)
        ensures
            settled(r) == composed(
                name@,
                spec@,
                stack(name@, spec@, bundles_view(bundles@), self.home(), layers_view(overlays@)),
                self.context(),
            ),
    {
        let mut layers: Vec<Layer> = Vec::new();
        let ghost docs = bundles_view(bundles@);
        let ghost first = docs.map_values(|b: BundleView| rows_layer(b.name, b.rows));
        for i in 0..bundles.len()
            invariant
                docs == bundles_view(bundles@),
                first == docs.map_values(|b: BundleView| rows_layer(b.name, b.rows)),
                layers@.len() == i,
                forall|k: int| 0 <= k < i ==> (#[trigger] layers@[k])@ == first[k],
        {
            layers.push(bundles[i].as_layer());
        }
        assert(layers_view(layers@) =~= first);
        let ghost second = if spec@.rows.len() > 0 {
            seq![rows_layer("profile:"@ + name@, spec@.rows)]
        } else {
            Seq::empty()
        };
        if spec.rows.len() > 0 {
            layers.push(Layer::rows(cat("profile:", name), copy_rows(&spec.rows)));
        }
        assert(layers_view(layers@) =~= first + second);
        let ghost third = if spec@.patch.len() > 0 {
            seq![patch_layer("profile:"@ + name@ + ":patch"@, spec@.patch)]
        } else {
            Seq::empty()
        };
        if spec.patch.len() > 0 {
            layers.push(Layer::patch(cat3("profile:", name, ":patch"), copy_ops(&spec.patch)));
        }
        assert(layers_view(layers@) =~= first + second + third);
        extend(&mut layers, &self.home_patch);
        extend(&mut layers, overlays);
        compose_layers(name, spec, &layers, &self.subst)
    }

    /// Compose the profile named `name`, with per-run `overlays` on top.
    ///
    /// Composition never writes to a store: an overlay is a fold input.
    pub fn compose(&self, name: &str, overlays: &Vec<Layer>) -> (r: Result<
        Composition,
        ConfigError,
    >)
        ensures
            self.composes_stored(name@, layers_view(overlays@), settled(r)),
    {
        let answer = self.profiles.load(name);
        assert(call_ensures(P::load, (&self.profiles, name), answer));
        assert(profile_answer(self.profile_store(), name@, answer));
        match answer {
            Err(e) => Err(e),
            Ok(None) => {
                let known = self.profiles();
                let n = quoted(name);
                let l = list(&known);
                Err(
                    ConfigError::for_plugin(
                        Stage::Compose,
                        "unknown-profile",
                        owned(name),
                        cat4("no profile named ", n.as_str(), "; available: ", l.as_str()),
                    ),
                )
            },
            Ok(Some(spec)) => self.compose_named(name, &spec, overlays, true),
        }
    }

    /// Whether composing the stored profile `name` came to `r`: the store is asked
    /// for it, and what it answers is composed.
    pub open spec fn composes_stored(
        &self,
        name: Seq<char>,
        overlays: Seq<LayerView>,
        r: Result<CompositionView, ConfigErrorView>,
    ) -> bool {
        exists|answer: Result<Option<ProfileSpec>, ConfigError>|
            #[trigger] profile_answer(self.profile_store(), name, answer) && match answer {
                Err(e) => r == Err::<CompositionView, ConfigErrorView>(e@),
                Ok(None) => exists|known: Vec<String>|
                    #[trigger] profile_listing(self.profile_store(), known) && r == Err::<
                        CompositionView,
                        ConfigErrorView,
                    >(unknown_profile(name, texts(known@))),
                Ok(Some(spec)) => self.composes(name, spec@, overlays, true, r),
            }
    }

    /// Whether composing `spec` as `name` came to `r`: the bundles it requires
    /// are gathered, and the layers of all of it folded.
    pub open spec fn composes(
        &self,
        name: Seq<char>,
        spec: ProfileView,
        overlays: Seq<LayerView>,
        lists: bool,
        r: Result<CompositionView, ConfigErrorView>,
    ) -> bool {
        exists|out: Result<Seq<BundleView>, ConfigErrorView>|
            #[trigger] gathered(self.bundle_store(), name, spec.bundles, lists, out) && match out {
                Err(e) => r == Err::<CompositionView, ConfigErrorView>(e),
                Ok(bundles) => r == composed(
                    name,
                    spec,
                    stack(name, spec, bundles, self.home(), overlays),
                    self.context(),
                ),
            }
    }

    fn compose_named(
        &self,
        name: &str,
        spec: &ProfileSpec,
        overlays: &Vec<Layer>,
        lists: bool,
    ) -> (r: Result<Composition, ConfigError>)
        ensures
            self.composes(name@, spec@, layers_view(overlays@), lists, settled(r)),
    {
        let got = self.gather(name, &spec.bundles, lists);
        let ghost out = match &got {
            Ok(docs) => Ok::<Seq<BundleView>, ConfigErrorView>(bundles_view(docs@)),
            Err(e) => Err(e@),
        };
        assert(gathered(self.bundle_store(), name@, spec@.bundles, lists, out));
        match got {
            Err(e) => Err(e),
            Ok(bundles) => self.assemble(name, spec, &bundles, overlays),
        }
    }

    /// Compose from an explicit profile, without asking the profile store.
    pub fn compose_spec(&self, spec: &ProfileSpec, overlays: &Vec<Layer>) -> (r: Result<
        Composition,
        ConfigError,
    >)
        ensures
            self.composes(spec@.name, spec@, layers_view(overlays@), false, settled(r)),
    {
        self.compose_named(spec.name.as_str(), spec, overlays, false)
    }

    /// Write a composed document: what a dump prints.
    pub fn dump(&self, doc: &ConfigDoc) -> (r: String)
        requires
            tags_named(doc_value(doc@)),
            written(doc_value(doc@)) is Some,
        ensures
            written(doc_value(doc@)) == Some(r@),
            durable(doc_value(doc@)) && doc@.model != Some(YamlView::Null) ==> doc_text(r@)
                == Ok::<DocView, ConfigErrorView>(doc@),
    {
        doc.dump()
    }

    /// Write a composed document, where the writer takes it.
    pub fn try_dump(&self, doc: &ConfigDoc) -> (r: Option<String>)
        requires
            tags_named(doc_value(doc@)),
        ensures
            match r {
                Some(s) => written(doc_value(doc@)) == Some(s@),
                None => written(doc_value(doc@)) is None,
            },
            durable(doc_value(doc@)) && doc@.model != Some(YamlView::Null) ==> (r is Some
                && doc_text(r->Some_0@) == Ok::<DocView, ConfigErrorView>(doc@)),
    {
        match doc.try_dump() {
            Some(_) => Some(self.dump(doc)),
            None => None,
        }
    }

    /// The substitution context this composer expands with.
    pub fn subst(&self) -> (r: &Subst)
        ensures
            r@ == self.context(),
    {
        &self.subst
    }
}

fn extend(layers: &mut Vec<Layer>, more: &Vec<Layer>)
    ensures
        layers_view(final(layers)@) == layers_view(old(layers)@) + layers_view(more@),
{
    let ghost before = layers_view(layers@);
    let ghost extra = layers_view(more@);
    assert(before + extra.take(0) =~= before);
    for i in 0..more.len()
        invariant
            extra == layers_view(more@),
            layers_view(layers@) == before + extra.take(i as int),
    {
        let ghost now = layers_view(layers@);
        let layer = more[i].copy();
        layers.push(layer);
        assert(layers_view(layers@) =~= now.push(layer@));
        assert(before + extra.take(i + 1) =~= (before + extra.take(i as int)).push(layer@));
    }
    assert(extra.take(more@.len() as int) =~= extra);
}

} // verus!
