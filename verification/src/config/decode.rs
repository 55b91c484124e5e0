//! The document each YAML node stands for, or why it stands for none.
//!
//! A document is a mapping, under any tags, whose keys are field names; a null
//! node is a mapping without entries. Every field occurs once at most, and a
//! field that the document does not have is refused.

use vstd::prelude::*;

use crate::config::doc::{
    ops_view, rows_view, BundleDoc, BundleView, ConfigDoc, DocView, Layer, LayerView, OpView,
    PatchOp, ProfileSpec, ProfileView, Row, RowView,
};
use crate::text::{
    cat, cat3, cat4, debug_text, decimal, decimal_text, join, joined, owned, quoted, same, text_opt,
    texts,
};
use crate::yaml::{
    entries_view, fraction, fraction_text, items_view, untagged, value_opt, yaml_signed, yaml_unsigned, Yaml, YamlView,
};

verus! {

pub const ROW_FIELDS: [&'static str; 3] = ["id", "plugin", "config"];

pub const LAYER_FIELDS: [&'static str; 3] = ["name", "rows", "patch"];

pub const BUNDLE_FIELDS: [&'static str; 2] = ["name", "rows"];

pub const PROFILE_FIELDS: [&'static str; 6] = [
    "name",
    "bundles",
    "rows",
    "patch",
    "system_prompt",
    "model",
];

pub const DOC_FIELDS: [&'static str; 4] = ["name", "rows", "system_prompt", "model"];

pub const SET_FIELDS: [&'static str; 2] = ["id", "config"];

pub const OPERATIONS: [&'static str; 2] = ["set", "insert"];

// ---------------------------------------------------------------------------
// Fields
// ---------------------------------------------------------------------------

/// Whether `name` is one of the fields.
pub open spec fn known(allowed: Seq<&'static str>, name: Seq<char>) -> bool {
    exists|i: int| 0 <= i < allowed.len() && (#[trigger] allowed[i])@ == name
}

/// The value of the field `name`: of the first of that name.
pub open spec fn named(fields: Seq<(Seq<char>, YamlView)>, name: Seq<char>) -> Option<YamlView>
    decreases fields.len(),
{
    if fields.len() == 0 {
        None
    } else {
        match named(fields.drop_last(), name) {
            Some(v) => Some(v),
            None => if fields.last().0 == name {
                Some(fields.last().1)
            } else {
                None
            },
        }
    }
}

/// A name between backticks.
pub open spec fn ticked(name: Seq<char>) -> Seq<char> {
    "`"@ + name + "`"@
}

/// The names that were expected.
pub open spec fn one_of(names: Seq<&'static str>) -> Seq<char> {
    let shown = names.map_values(|name: &'static str| ticked(name@));
    if names.len() == 2 {
        shown[0] + " or "@ + shown[1]
    } else {
        "one of "@ + joined(shown, ", "@)
    }
}

/// The decimal numeral of an integer.
pub open spec fn integer_text(k: int) -> Seq<char> {
    if k < 0 {
        "-"@ + decimal_text((-k) as nat)
    } else {
        decimal_text(k as nat)
    }
}

/// What a node is that was not expected.
pub open spec fn unexpected(v: YamlView) -> Seq<char> {
    match v {
        YamlView::Null => "unit value"@,
        YamlView::Bool(true) => "boolean `true`"@,
        YamlView::Bool(false) => "boolean `false`"@,
        YamlView::Number(n) => match yaml_unsigned(n) {
            Some(k) => "integer "@ + ticked(integer_text(k as int)),
            None => match yaml_signed(n) {
                Some(k) => "integer "@ + ticked(integer_text(k as int)),
                None => fraction_text(n),
            },
        },
        YamlView::Text(s) => "string "@ + debug_text(s),
        YamlView::Sequence(_) => "sequence"@,
        YamlView::Mapping(_) => "map"@,
        YamlView::Tagged(..) => "enum"@,
    }
}

/// Why a node of the wrong kind is refused.
pub open spec fn invalid(v: YamlView, expected: Seq<char>) -> Seq<char> {
    "invalid type: "@ + unexpected(untagged(v)) + ", expected "@ + expected
}

/// Why a field that is not one of a document's is refused.
pub open spec fn unknown(name: Seq<char>, allowed: Seq<&'static str>) -> Seq<char> {
    "unknown field "@ + ticked(name) + ", expected "@ + one_of(allowed)
}

/// Why a field that occurs twice is refused.
pub open spec fn duplicate(name: Seq<char>) -> Seq<char> {
    "duplicate field "@ + ticked(name)
}

/// The fields a mapping holds: each is known, and occurs once.
pub open spec fn fields(
    entries: Seq<(YamlView, YamlView)>,
    allowed: Seq<&'static str>,
) -> Option<Seq<(Seq<char>, YamlView)>>
    decreases entries.len(),
{
    if entries.len() == 0 {
        Some(Seq::empty())
    } else {
        match fields(entries.drop_last(), allowed) {
            None => None,
            Some(done) => match untagged(entries.last().0) {
                YamlView::Text(name) => if known(allowed, name) && named(done, name) is None {
                    Some(done.push((name, entries.last().1)))
                } else {
                    None
                },
                _ => None,
            },
        }
    }
}

/// The fields a node holds.
pub open spec fn fields_of(v: YamlView, allowed: Seq<&'static str>) -> Option<
    Seq<(Seq<char>, YamlView)>,
> {
    match untagged(v) {
        YamlView::Mapping(entries) => fields(entries, allowed),
        YamlView::Null => Some(Seq::empty()),
        _ => None,
    }
}

/// Why a required field that is not there is missed.
pub open spec fn missing(name: Seq<char>) -> Seq<char> {
    "missing field "@ + ticked(name)
}

/// A required text field.
pub open spec fn text_field(fields: Seq<(Seq<char>, YamlView)>, name: Seq<char>) -> Option<
    Seq<char>,
> {
    match named(fields, name) {
        None => None,
        Some(v) => match untagged(v) {
            YamlView::Text(s) => Some(s),
            _ => None,
        },
    }
}

/// An optional text field: null is none.
pub open spec fn text_opt_field(fields: Seq<(Seq<char>, YamlView)>, name: Seq<char>) -> Option<
    Option<Seq<char>>,
> {
    match named(fields, name) {
        None => Some(None),
        Some(YamlView::Null) => Some(None),
        Some(v) => match untagged(v) {
            YamlView::Text(s) => Some(Some(s)),
            _ => None,
        },
    }
}

/// An optional field of any kind: null is none.
pub open spec fn node_opt_field(
    fields: Seq<(Seq<char>, YamlView)>,
    name: Seq<char>,
) -> Option<YamlView> {
    match named(fields, name) {
        None => None,
        Some(YamlView::Null) => None,
        Some(v) => Some(v),
    }
}

/// The items of a node that is to be a sequence: null has none.
pub open spec fn items_of(v: YamlView) -> Option<Seq<YamlView>> {
    match untagged(v) {
        YamlView::Null => Some(Seq::empty()),
        YamlView::Sequence(items) => Some(items),
        _ => None,
    }
}

/// The items of a sequence field: a field that is not there has none.
pub open spec fn items_field(fields: Seq<(Seq<char>, YamlView)>, name: Seq<char>) -> Option<
    Seq<YamlView>,
> {
    match named(fields, name) {
        None => Some(Seq::empty()),
        Some(v) => items_of(v),
    }
}

// ---------------------------------------------------------------------------
// The first fault
// ---------------------------------------------------------------------------

/// Whether an entry has a name.
pub open spec fn has_entry(entries: Seq<(YamlView, YamlView)>, name: Seq<char>) -> bool {
    exists|i: int| 0 <= i < entries.len() && untagged((#[trigger] entries[i]).0) == YamlView::Text(
        name,
    )
}

/// What is wrong with the last entry, where those before it are in order: it has no
/// name, or one that is not known or not new, or its value does not fit.
pub open spec fn last_fault(
    entries: Seq<(YamlView, YamlView)>,
    allowed: Seq<&'static str>,
    fault: spec_fn(Seq<char>, YamlView) -> Option<Seq<char>>,
) -> Option<Seq<char>> {
    match untagged(entries.last().0) {
        YamlView::Text(name) => if !known(allowed, name) {
            Some(unknown(name, allowed))
        } else if has_entry(entries.drop_last(), name) {
            Some(duplicate(name))
        } else {
            fault(name, entries.last().1)
        },
        _ => Some(invalid(entries.last().0, "field identifier"@)),
    }
}

/// What is wrong with the first entry that is not in order.
pub open spec fn first_fault(
    entries: Seq<(YamlView, YamlView)>,
    allowed: Seq<&'static str>,
    fault: spec_fn(Seq<char>, YamlView) -> Option<Seq<char>>,
) -> Option<Seq<char>>
    decreases entries.len(),
{
    if entries.len() == 0 {
        None
    } else {
        match first_fault(entries.drop_last(), allowed, fault) {
            Some(e) => Some(e),
            None => last_fault(entries, allowed, fault),
        }
    }
}

/// What is wrong with a value that is to be a text.
pub open spec fn text_fault(v: YamlView) -> Option<Seq<char>> {
    if untagged(v) is Text {
        None
    } else {
        Some(invalid(v, "a string"@))
    }
}

/// What is wrong with the value of a row's field: all but the config are texts.
pub open spec fn row_fault(name: Seq<char>, v: YamlView) -> Option<Seq<char>> {
    if name == "config"@ {
        None
    } else {
        text_fault(v)
    }
}

/// What is wrong with the value of a row's field, by its name.
pub open spec fn row_faults() -> spec_fn(Seq<char>, YamlView) -> Option<Seq<char>> {
    |name: Seq<char>, v: YamlView| row_fault(name, v)
}

/// Why the entries of a row stand for none: the first that is not in order, else
/// the first that is missing.
pub open spec fn row_reason_of(entries: Seq<(YamlView, YamlView)>) -> Seq<char> {
    match first_fault(entries, ROW_FIELDS@, row_faults()) {
        Some(e) => e,
        None => if has_entry(entries, "id"@) {
            missing("plugin"@)
        } else {
            missing("id"@)
        },
    }
}

/// Why a node stands for no row.
pub open spec fn row_reason(v: YamlView) -> Seq<char> {
    match untagged(v) {
        YamlView::Mapping(entries) => row_reason_of(entries),
        YamlView::Null => missing("id"@),
        _ => invalid(v, "struct Row"@),
    }
}

// ---------------------------------------------------------------------------
// Documents
// ---------------------------------------------------------------------------

/// The row a list of fields stands for.
pub open spec fn row_from(f: Seq<(Seq<char>, YamlView)>) -> Option<RowView> {
    match (text_field(f, "id"@), text_field(f, "plugin"@)) {
        (Some(id), Some(plugin)) => Some(
            RowView {
                id,
                plugin,
                config: match named(f, "config"@) {
                    Some(v) => v,
                    None => YamlView::Null,
                },
            },
        ),
        _ => None,
    }
}

/// The row a node stands for.
pub open spec fn row_of(v: YamlView) -> Result<RowView, Seq<char>> {
    match fields_of(v, ROW_FIELDS@) {
        None => Err(row_reason(v)),
        Some(f) => match row_from(f) {
            None => Err(row_reason(v)),
            Some(row) => Ok(row),
        },
    }
}

/// The rows a sequence stands for.
pub open spec fn rows_of(items: Seq<YamlView>) -> Result<Seq<RowView>, Seq<char>>
    decreases items.len(),
{
    if items.len() == 0 {
        Ok(Seq::empty())
    } else {
        match rows_of(items.drop_last()) {
            Err(e) => Err(e),
            Ok(done) => match row_of(items.last()) {
                Err(e) => Err(e),
                Ok(row) => Ok(done.push(row)),
            },
        }
    }
}

/// Whether a node holds no tag.
pub open spec fn tag_free(v: YamlView) -> bool
    decreases v,
{
    match v {
        YamlView::Sequence(items) => forall|i: int|
            0 <= i < items.len() ==> tag_free(#[trigger] items[i]),
        YamlView::Mapping(entries) => forall|i: int|
            0 <= i < entries.len() ==> tag_free((#[trigger] entries[i]).0) && tag_free(
                entries[i].1,
            ),
        YamlView::Tagged(..) => false,
        _ => true,
    }
}

/// Whether an entry names the operation.
pub open spec fn names_op(e: (YamlView, YamlView)) -> bool {
    e.0 == YamlView::Text("op"@)
}

/// The entries that do not name the operation.
pub open spec fn beside_op(entries: Seq<(YamlView, YamlView)>) -> Seq<(YamlView, YamlView)>
    decreases entries.len(),
{
    if entries.len() == 0 {
        Seq::empty()
    } else if names_op(entries.last()) {
        beside_op(entries.drop_last())
    } else {
        beside_op(entries.drop_last()).push(entries.last())
    }
}

/// The operation a mapping names: the last, where it names any.
pub open spec fn op_name(entries: Seq<(YamlView, YamlView)>) -> Option<YamlView>
    decreases entries.len(),
{
    if entries.len() == 0 {
        None
    } else if names_op(entries.last()) {
        Some(untagged(entries.last().1))
    } else {
        op_name(entries.drop_last())
    }
}

/// Whether a key means the field `name`, by name or by its position `at`.
pub open spec fn means(key: YamlView, name: Seq<char>, at: u64) -> bool {
    match key {
        YamlView::Text(s) => s == name,
        YamlView::Number(n) => yaml_unsigned(n) == Some(at),
        _ => false,
    }
}

/// The `set` its entries stand for: the id and the config, each once.
pub open spec fn set_from(rest: Seq<(YamlView, YamlView)>) -> Option<OpView> {
    if rest.len() != 2 {
        None
    } else {
        let (id, config) = if means(rest[0].0, "id"@, 0) {
            (rest[0], rest[1])
        } else {
            (rest[1], rest[0])
        };
        if means(id.0, "id"@, 0) && means(config.0, "config"@, 1) && id.1 is Text {
            Some(OpView::SetConfig { id: id.1->Text_0, config: config.1 })
        } else {
            None
        }
    }
}

/// The `insert` its entries stand for: the fields of a row.
pub open spec fn insert_from(rest: Seq<(YamlView, YamlView)>) -> Option<OpView> {
    match fields(rest, ROW_FIELDS@) {
        None => None,
        Some(f) => match row_from(f) {
            None => None,
            Some(row) => Some(OpView::Insert { row }),
        },
    }
}

/// The operation a mapping stands for: it names one operation, once, and none
/// of its other entries holds a tag.
pub open spec fn op_from(entries: Seq<(YamlView, YamlView)>) -> Option<OpView> {
    let rest = beside_op(entries);
    if rest.len() + 1 != entries.len() || !tag_free(YamlView::Mapping(rest)) {
        None
    } else if op_name(entries) == Some(YamlView::Text("set"@)) {
        set_from(rest)
    } else if op_name(entries) == Some(YamlView::Text("insert"@)) {
        insert_from(rest)
    } else {
        None
    }
}

/// The operation a node stands for: a mapping, or the sequence of `set`, the id
/// and the config.
pub open spec fn op_of(v: YamlView) -> Option<OpView> {
    match v {
        YamlView::Mapping(entries) => op_from(entries),
        YamlView::Sequence(items) => if items.len() == 3 && untagged(items[0]) == YamlView::Text(
            "set"@,
        ) && items[1] is Text && tag_free(items[2]) {
            Some(OpView::SetConfig { id: items[1]->Text_0, config: items[2] })
        } else {
            None
        },
        _ => None,
    }
}

/// The field of a `set` that a key means, by name or by position; else why it means
/// none.
pub open spec fn set_key(key: YamlView) -> Result<Seq<char>, Seq<char>> {
    match key {
        YamlView::Text(s) => if known(SET_FIELDS@, s) {
            Ok(s)
        } else {
            Err(unknown(s, SET_FIELDS@))
        },
        YamlView::Number(n) => match yaml_unsigned(n) {
            Some(k) => if k == 0 {
                Ok("id"@)
            } else if k == 1 {
                Ok("config"@)
            } else {
                Err(
                    "invalid value: integer "@ + ticked(integer_text(k as int))
                        + ", expected field index 0 <= i < 2"@,
                )
            },
            None => Err(invalid(key, "field identifier"@)),
        },
        _ => Err(invalid(key, "field identifier"@)),
    }
}

/// Whether an entry means a field of a `set`.
pub open spec fn set_has(rest: Seq<(YamlView, YamlView)>, name: Seq<char>) -> bool {
    exists|i: int|
        0 <= i < rest.len() && set_key((#[trigger] rest[i]).0) == Ok::<Seq<char>, Seq<char>>(name)
}

/// What is wrong with the first entry of a `set` that is not in order.
pub open spec fn set_fault(rest: Seq<(YamlView, YamlView)>) -> Option<Seq<char>>
    decreases rest.len(),
{
    if rest.len() == 0 {
        None
    } else {
        match set_fault(rest.drop_last()) {
            Some(e) => Some(e),
            None => match set_key(rest.last().0) {
                Err(e) => Some(e),
                Ok(name) => if set_has(rest.drop_last(), name) {
                    Some(duplicate(name))
                } else {
                    row_fault(name, rest.last().1)
                },
            },
        }
    }
}

/// Why the entries beside the name of a `set` stand for none.
pub open spec fn set_reason(rest: Seq<(YamlView, YamlView)>) -> Seq<char> {
    match set_fault(rest) {
        Some(e) => e,
        None => if set_has(rest, "id"@) {
            missing("config"@)
        } else {
            missing("id"@)
        },
    }
}

/// Whether a key can be kept until the fields of a row are taken out: a text or a
/// position.
pub open spec fn kept_key(key: YamlView) -> bool {
    match key {
        YamlView::Text(_) => true,
        YamlView::Number(n) => yaml_unsigned(n) is Some,
        _ => false,
    }
}

/// Whether an entry is a field of a row.
pub open spec fn row_entry(e: (YamlView, YamlView)) -> bool {
    e.0 matches YamlView::Text(s) && known(ROW_FIELDS@, s)
}

/// The entries that are fields of a row.
pub open spec fn row_part(rest: Seq<(YamlView, YamlView)>) -> Seq<(YamlView, YamlView)>
    decreases rest.len(),
{
    if rest.len() == 0 {
        Seq::empty()
    } else if row_entry(rest.last()) {
        row_part(rest.drop_last()).push(rest.last())
    } else {
        row_part(rest.drop_last())
    }
}

/// Why the entries beside the name of an `insert` stand for none: a key that cannot
/// be kept; else a row that its fields do not make; else the first entry that is no
/// field of a row.
pub open spec fn insert_reason(rest: Seq<(YamlView, YamlView)>) -> Seq<char> {
    match first_of(rest, |e: (YamlView, YamlView)| !kept_key(e.0)) {
        Some(e) => invalid(e.0, "field identifier"@),
        None => match fields(row_part(rest), ROW_FIELDS@) {
            None => row_reason_of(row_part(rest)),
            Some(f) => if row_from(f) is None {
                row_reason_of(row_part(rest))
            } else {
                match first_of(rest, |e: (YamlView, YamlView)| !row_entry(e)) {
                    Some((YamlView::Text(name), _)) => "unknown field "@ + ticked(name),
                    _ => "unexpected map key"@,
                }
            },
        },
    }
}

/// The first entry of which something holds.
pub open spec fn first_of(
    entries: Seq<(YamlView, YamlView)>,
    what: spec_fn((YamlView, YamlView)) -> bool,
) -> Option<(YamlView, YamlView)>
    decreases entries.len(),
{
    if entries.len() == 0 {
        None
    } else {
        match first_of(entries.drop_last(), what) {
            Some(e) => Some(e),
            None => if what(entries.last()) {
                Some(entries.last())
            } else {
                None
            },
        }
    }
}

/// Why a node names no operation.
pub open spec fn variant_fault(v: YamlView) -> Option<Seq<char>> {
    match untagged(v) {
        YamlView::Text(name) => if known(OPERATIONS@, name) {
            None
        } else {
            Some("unknown variant "@ + ticked(name) + ", expected "@ + one_of(OPERATIONS@))
        },
        _ => Some(invalid(v, "variant identifier"@)),
    }
}

/// Why a tag within an operation is refused.
pub open spec fn tag_refusal() -> Seq<char> {
    "untagged and internally tagged enums do not support enum input"@
}

/// What is wrong with the first entry of an operation that is not in order: it names
/// the operation again or names none, or it holds a tag.
pub open spec fn op_fault(entries: Seq<(YamlView, YamlView)>) -> Option<Seq<char>>
    decreases entries.len(),
{
    if entries.len() == 0 {
        None
    } else {
        match op_fault(entries.drop_last()) {
            Some(e) => Some(e),
            None => if names_op(entries.last()) {
                if op_name(entries.drop_last()) is Some {
                    Some(duplicate("op"@))
                } else {
                    variant_fault(entries.last().1)
                }
            } else if tag_free(entries.last().0) && tag_free(entries.last().1) {
                None
            } else {
                Some(tag_refusal())
            },
        }
    }
}

/// Why a mapping stands for no operation.
pub open spec fn entries_reason(entries: Seq<(YamlView, YamlView)>) -> Seq<char> {
    match op_fault(entries) {
        Some(e) => e,
        None => match op_name(entries) {
            None => missing("op"@),
            Some(op) => if op == YamlView::Text("set"@) {
                set_reason(beside_op(entries))
            } else {
                insert_reason(beside_op(entries))
            },
        },
    }
}

/// Why the items of a sequence stand for no operation: the first names it, and only
/// a `set` can be spelled by two more, its id and its config.
pub open spec fn items_reason(items: Seq<YamlView>) -> Seq<char> {
    if items.len() == 0 {
        missing("op"@)
    } else {
        match variant_fault(items[0]) {
            Some(e) => e,
            None => if !tag_free(YamlView::Sequence(items.skip(1))) {
                tag_refusal()
            } else if untagged(items[0]) != YamlView::Text("set"@) {
                "invalid type: sequence, expected struct variant PatchOp::Insert"@
            } else if items.len() == 1 {
                "invalid length 0, expected struct variant PatchOp::Set with 2 elements"@
            } else if !(items[1] is Text) {
                invalid(items[1], "a string"@)
            } else if items.len() == 2 {
                "invalid length 1, expected struct variant PatchOp::Set with 2 elements"@
            } else {
                "invalid length "@ + decimal_text((items.len() - 1) as nat)
                    + ", expected 2 elements in sequence"@
            },
        }
    }
}

/// Why a node stands for no operation.
pub open spec fn op_reason(v: YamlView) -> Seq<char> {
    match v {
        YamlView::Mapping(entries) => entries_reason(entries),
        YamlView::Sequence(items) => items_reason(items),
        _ => "invalid type: "@ + unexpected(v)
            + ", expected internally tagged enum PatchOp"@,
    }
}

/// Why the first node that stands for no operation does not.
pub open spec fn ops_reason(items: Seq<YamlView>) -> Seq<char>
    decreases items.len(),
{
    if items.len() == 0 {
        Seq::empty()
    } else if ops_of(items.drop_last()) is None {
        ops_reason(items.drop_last())
    } else {
        op_reason(items.last())
    }
}

/// Why the first node that is no text is not.
pub open spec fn texts_reason(items: Seq<YamlView>) -> Seq<char>
    decreases items.len(),
{
    if items.len() == 0 {
        Seq::empty()
    } else if texts_of(items.drop_last()) is None {
        texts_reason(items.drop_last())
    } else {
        invalid(items.last(), "a string"@)
    }
}

/// The operations a sequence stands for.
pub open spec fn ops_of(items: Seq<YamlView>) -> Option<Seq<OpView>>
    decreases items.len(),
{
    if items.len() == 0 {
        Some(Seq::empty())
    } else {
        match ops_of(items.drop_last()) {
            None => None,
            Some(done) => match op_of(items.last()) {
                None => None,
                Some(op) => Some(done.push(op)),
            },
        }
    }
}

/// A field holding rows.
pub open spec fn rows_field(f: Seq<(Seq<char>, YamlView)>, name: Seq<char>) -> Option<
    Seq<RowView>,
> {
    match items_field(f, name) {
        None => None,
        Some(items) => match rows_of(items) {
            Ok(rows) => Some(rows),
            Err(_) => None,
        },
    }
}

/// A field holding operations.
pub open spec fn ops_field(f: Seq<(Seq<char>, YamlView)>, name: Seq<char>) -> Option<
    Seq<OpView>,
> {
    match items_field(f, name) {
        None => None,
        Some(items) => ops_of(items),
    }
}

/// The texts a sequence stands for.
pub open spec fn texts_of(items: Seq<YamlView>) -> Option<Seq<Seq<char>>>
    decreases items.len(),
{
    if items.len() == 0 {
        Some(Seq::empty())
    } else {
        match texts_of(items.drop_last()) {
            None => None,
            Some(done) => match untagged(items.last()) {
                YamlView::Text(s) => Some(done.push(s)),
                _ => None,
            },
        }
    }
}

/// A field holding texts.
pub open spec fn texts_field(f: Seq<(Seq<char>, YamlView)>, name: Seq<char>) -> Option<
    Seq<Seq<char>>,
> {
    match items_field(f, name) {
        None => None,
        Some(items) => texts_of(items),
    }
}

/// What is wrong with the value of a document's field.
pub open spec fn field_fault(name: Seq<char>, v: YamlView) -> Option<Seq<char>> {
    if name == "name"@ {
        text_fault(v)
    } else if name == "system_prompt"@ {
        if v is Null {
            None
        } else {
            text_fault(v)
        }
    } else if name == "model"@ {
        None
    } else {
        match items_of(v) {
            None => Some(invalid(v, "a sequence"@)),
            Some(items) => if name == "rows"@ {
                match rows_of(items) {
                    Ok(_) => None,
                    Err(e) => Some(e),
                }
            } else if name == "patch"@ {
                if ops_of(items) is Some {
                    None
                } else {
                    Some(ops_reason(items))
                }
            } else if texts_of(items) is Some {
                None
            } else {
                Some(texts_reason(items))
            },
        }
    }
}

/// What is wrong with the value of a document's field, by its name.
pub open spec fn field_faults() -> spec_fn(Seq<char>, YamlView) -> Option<Seq<char>> {
    |name: Seq<char>, v: YamlView| field_fault(name, v)
}

/// Why a node stands for no document with these fields: the first entry that is not
/// in order, else the name that is missing.
pub open spec fn document_reason(
    v: YamlView,
    allowed: Seq<&'static str>,
    what: Seq<char>,
) -> Seq<char> {
    match untagged(v) {
        YamlView::Mapping(entries) => match first_fault(entries, allowed, field_faults()) {
            Some(e) => e,
            None => missing("name"@),
        },
        YamlView::Null => missing("name"@),
        _ => invalid(v, what),
    }
}

/// The layer a list of fields stands for.
pub open spec fn layer_from(f: Seq<(Seq<char>, YamlView)>) -> Option<LayerView> {
    let name = if named(f, "name"@) is None {
        Some(Seq::empty())
    } else {
        text_field(f, "name"@)
    };
    match (name, rows_field(f, "rows"@), ops_field(f, "patch"@)) {
        (Some(name), Some(rows), Some(patch)) => Some(LayerView { name, rows, patch }),
        _ => None,
    }
}

/// The layer a node stands for.
pub open spec fn layer_of(v: YamlView) -> Result<LayerView, Seq<char>> {
    match fields_of(v, LAYER_FIELDS@) {
        None => Err(document_reason(v, LAYER_FIELDS@, "struct Layer"@)),
        Some(f) => match layer_from(f) {
            None => Err(document_reason(v, LAYER_FIELDS@, "struct Layer"@)),
            Some(layer) => Ok(layer),
        },
    }
}

/// The bundle a list of fields stands for.
pub open spec fn bundle_from(f: Seq<(Seq<char>, YamlView)>) -> Option<BundleView> {
    match (text_field(f, "name"@), rows_field(f, "rows"@)) {
        (Some(name), Some(rows)) => Some(BundleView { name, rows }),
        _ => None,
    }
}

/// The bundle a node stands for.
pub open spec fn bundle_of(v: YamlView) -> Result<BundleView, Seq<char>> {
    match fields_of(v, BUNDLE_FIELDS@) {
        None => Err(document_reason(v, BUNDLE_FIELDS@, "struct BundleDoc"@)),
        Some(f) => match bundle_from(f) {
            None => Err(document_reason(v, BUNDLE_FIELDS@, "struct BundleDoc"@)),
            Some(bundle) => Ok(bundle),
        },
    }
}

/// The profile a list of fields stands for.
pub open spec fn profile_from(f: Seq<(Seq<char>, YamlView)>) -> Option<ProfileView> {
    match (
        text_field(f, "name"@),
        texts_field(f, "bundles"@),
        rows_field(f, "rows"@),
        ops_field(f, "patch"@),
        text_opt_field(f, "system_prompt"@),
    ) {
        (Some(name), Some(bundles), Some(rows), Some(patch), Some(system_prompt)) => Some(
            ProfileView {
                name,
                bundles,
                rows,
                patch,
                system_prompt,
                model: node_opt_field(f, "model"@),
            },
        ),
        _ => None,
    }
}

/// The profile a node stands for.
pub open spec fn profile_of(v: YamlView) -> Result<ProfileView, Seq<char>> {
    match fields_of(v, PROFILE_FIELDS@) {
        None => Err(document_reason(v, PROFILE_FIELDS@, "struct ProfileSpec"@)),
        Some(f) => match profile_from(f) {
            None => Err(document_reason(v, PROFILE_FIELDS@, "struct ProfileSpec"@)),
            Some(profile) => Ok(profile),
        },
    }
}

/// The composed document a list of fields stands for.
pub open spec fn doc_from(f: Seq<(Seq<char>, YamlView)>) -> Option<DocView> {
    match (
        text_field(f, "name"@),
        rows_field(f, "rows"@),
        text_opt_field(f, "system_prompt"@),
    ) {
        (Some(name), Some(rows), Some(system_prompt)) => Some(
            DocView { name, rows, system_prompt, model: node_opt_field(f, "model"@) },
        ),
        _ => None,
    }
}

/// The composed document a node stands for.
pub open spec fn doc_of(v: YamlView) -> Result<DocView, Seq<char>> {
    match fields_of(v, DOC_FIELDS@) {
        None => Err(document_reason(v, DOC_FIELDS@, "struct ConfigDoc"@)),
        Some(f) => match doc_from(f) {
            None => Err(document_reason(v, DOC_FIELDS@, "struct ConfigDoc"@)),
            Some(doc) => Ok(doc),
        },
    }
}

// ---------------------------------------------------------------------------
// Reading fields
// ---------------------------------------------------------------------------

/// What an outcome with a reason says.
pub open spec fn outcome<T: View>(r: Result<T, String>) -> Result<T::V, Seq<char>> {
    match r {
        Ok(v) => Ok(v@),
        Err(e) => Err(e@),
    }
}

/// What a list of fields says.
pub open spec fn fields_view(f: Seq<(String, Yaml)>) -> Seq<(Seq<char>, YamlView)> {
    f.map_values(|e: (String, Yaml)| (e.0@, e.1@))
}

/// What is read of fields, as a specification sees it.
pub open spec fn fields_opt(r: Option<Vec<(String, Yaml)>>) -> Option<Seq<(Seq<char>, YamlView)>> {
    match r {
        Some(f) => Some(fields_view(f@)),
        None => None,
    }
}

fn is_known(allowed: &[&'static str], name: &str) -> (r: bool)
    ensures
        r == known(allowed@, name@),
{
    for i in 0..allowed.len()
        invariant
            forall|k: int| 0 <= k < i ==> (#[trigger] allowed@[k])@ != name@,
    {
        if same(allowed[i], name) {
            return true;
        }
    }
    false
}

/// The field of a name is the first, and none before it has the name.
proof fn lemma_named(f: Seq<(Seq<char>, YamlView)>, name: Seq<char>, at: int)
    requires
        0 <= at <= f.len(),
        forall|k: int| 0 <= k < at ==> (#[trigger] f[k]).0 != name,
    ensures
        at == f.len() ==> named(f, name) is None,
        at < f.len() && f[at].0 == name ==> named(f, name) == Some(f[at].1),
    decreases f.len(),
{
    if f.len() > 0 {
        if at < f.len() {
            if at < f.len() - 1 {
                assert(f.drop_last()[at] == f[at]);
            }
            lemma_named(f.drop_last(), name, at);
        } else {
            assert(f[at - 1].0 != name);
            lemma_named(f.drop_last(), name, at - 1);
        }
    }
}

fn find<'a>(f: &'a Vec<(String, Yaml)>, name: &str) -> (r: Option<&'a Yaml>)
    ensures
        match r {
            Some(v) => named(fields_view(f@), name@) == Some(v@),
            None => named(fields_view(f@), name@) is None,
        },
{
    let ghost all = fields_view(f@);
    for i in 0..f.len()
        invariant
            all == fields_view(f@),
            forall|k: int| 0 <= k < i ==> (#[trigger] all[k]).0 != name@,
    {
        assert(all[i as int] == (f@[i as int].0@, f@[i as int].1@));
        if same(f[i].0.as_str(), name) {
            proof {
                lemma_named(all, name@, i as int);
            }
            return Some(&f[i].1);
        }
    }
    proof {
        lemma_named(all, name@, all.len() as int);
    }
    None
}

/// A failure among the first entries is the failure of the whole.
proof fn lemma_fields_stop(
    entries: Seq<(YamlView, YamlView)>,
    allowed: Seq<&'static str>,
    n: int,
)
    requires
        0 <= n <= entries.len(),
        fields(entries.take(n), allowed) is None,
    ensures
        fields(entries, allowed) is None,
    decreases entries.len() - n,
{
    if n < entries.len() {
        assert(entries.take(n + 1).drop_last() =~= entries.take(n));
        lemma_fields_stop(entries, allowed, n + 1);
    } else {
        assert(entries.take(n) =~= entries);
    }
}

fn ticks(name: &str) -> (r: String)
    ensures
        r@ == ticked(name@),
{
    cat3("`", name, "`")
}

fn list_names(names: &[&'static str]) -> (r: String)
    ensures
        r@ == one_of(names@),
{
    let mut shown: Vec<String> = Vec::new();
    for i in 0..names.len()
        invariant
            shown@.len() == i,
            forall|k: int| 0 <= k < i ==> (#[trigger] shown@[k])@ == ticked(names@[k]@),
    {
        shown.push(ticks(names[i]));
    }
    assert(texts(shown@) =~= names@.map_values(|name: &'static str| ticked(name@)));
    if shown.len() == 2 {
        return cat3(shown[0].as_str(), " or ", shown[1].as_str());
    }
    let listed = join(&shown, ", ");
    cat("one of ", listed.as_str())
}

fn why_missing(name: &str) -> (r: String)
    ensures
        r@ == missing(name@),
{
    let q = ticks(name);
    cat("missing field ", q.as_str())
}

fn why_duplicate(name: &str) -> (r: String)
    ensures
        r@ == duplicate(name@),
{
    let q = ticks(name);
    cat("duplicate field ", q.as_str())
}

fn why_unknown(name: &str, allowed: &[&'static str]) -> (r: String)
    ensures
        r@ == unknown(name@, allowed@),
{
    let q = ticks(name);
    let names = list_names(allowed);
    cat4("unknown field ", q.as_str(), ", expected ", names.as_str())
}

fn integer(k: i64) -> (r: String)
    ensures
        r@ == integer_text(k as int),
{
    if k >= 0 {
        return decimal(k as u64);
    }
    let size: u64 = (-(k + 1)) as u64 + 1;
    cat("-", decimal(size).as_str())
}

fn name_unexpected(v: &Yaml) -> (r: String)
    ensures
        r@ == unexpected(v@),
{
    match v {
        Yaml::Null => owned("unit value"),
        Yaml::Bool(b) => {
            if *b {
                owned("boolean `true`")
            } else {
                owned("boolean `false`")
            }
        },
        Yaml::Number(n) => match n.as_u64() {
            Some(k) => {
                let q = ticks(decimal(k).as_str());
                cat("integer ", q.as_str())
            },
            None => match n.as_i64() {
                Some(k) => {
                    let q = ticks(integer(k).as_str());
                    cat("integer ", q.as_str())
                },
                None => fraction(n),
            },
        },
        Yaml::Text(s) => {
            let q = quoted(s.as_str());
            cat("string ", q.as_str())
        },
        Yaml::Sequence(_) => owned("sequence"),
        Yaml::Mapping(_) => owned("map"),
        Yaml::Tagged(..) => owned("enum"),
    }
}

fn why_invalid(v: &Yaml, expected: &str) -> (r: String)
    ensures
        r@ == invalid(v@, expected@),
{
    let got = name_unexpected(v.untag());
    cat4("invalid type: ", got.as_str(), ", expected ", expected)
}

fn read_entries(entries: &Vec<(Yaml, Yaml)>, allowed: &[&'static str]) -> (r: Option<
    Vec<(String, Yaml)>,
>)
    ensures
        fields_opt(r) == fields(entries_view(entries@), allowed@),
{
    let ghost all = entries_view(entries@);
    let mut out: Vec<(String, Yaml)> = Vec::new();
    assert(all.take(0) =~= Seq::empty());
    assert(fields_view(out@) =~= Seq::empty());
    for i in 0..entries.len()
        invariant
            all == entries_view(entries@),
            fields(all.take(i as int), allowed@) == Some(fields_view(out@)),
    {
        assert(all.take(i + 1).drop_last() =~= all.take(i as int));
        assert(all.take(i + 1).last() == (entries@[i as int].0@, entries@[i as int].1@));
        let name = match entries[i].0.untag().as_str() {
            Some(s) => s,
            None => {
                proof {
                    lemma_fields_stop(all, allowed@, i + 1);
                }
                return None;
            },
        };
        if !is_known(allowed, name) || find(&out, name).is_some() {
            proof {
                lemma_fields_stop(all, allowed@, i + 1);
            }
            return None;
        }
        let ghost before = fields_view(out@);
        let value = entries[i].1.copy();
        out.push((owned(name), value));
        assert(fields_view(out@) =~= before.push((name@, value@)));
    }
    assert(all.take(entries@.len() as int) =~= all);
    Some(out)
}

fn read_fields(v: &Yaml, allowed: &[&'static str]) -> (r: Option<Vec<(String, Yaml)>>)
    ensures
        fields_opt(r) == fields_of(v@, allowed@),
{
    match v.untag() {
        Yaml::Mapping(entries) => read_entries(entries, allowed),
        Yaml::Null => {
            let out: Vec<(String, Yaml)> = Vec::new();
            assert(fields_view(out@) =~= Seq::empty());
            Some(out)
        },
        _ => None,
    }
}

fn read_text(f: &Vec<(String, Yaml)>, name: &str) -> (r: Option<String>)
    ensures
        text_opt(r) == text_field(fields_view(f@), name@),
{
    match find(f, name) {
        None => None,
        Some(v) => match v.untag().as_str() {
            Some(s) => Some(owned(s)),
            None => None,
        },
    }
}

fn read_text_opt(f: &Vec<(String, Yaml)>, name: &str) -> (r: Option<Option<String>>)
    ensures
        match r {
            Some(s) => text_opt_field(fields_view(f@), name@) == Some(text_opt(s)),
            None => text_opt_field(fields_view(f@), name@) is None,
        },
{
    match find(f, name) {
        None => Some(None),
        Some(Yaml::Null) => Some(None),
        Some(v) => match v.untag().as_str() {
            Some(s) => Some(Some(owned(s))),
            None => None,
        },
    }
}

fn read_node_opt(f: &Vec<(String, Yaml)>, name: &str) -> (r: Option<Yaml>)
    ensures
        value_opt(r) == node_opt_field(fields_view(f@), name@),
{
    match find(f, name) {
        None => None,
        Some(Yaml::Null) => None,
        Some(v) => Some(v.copy()),
    }
}

/// The items of a node that is to be a sequence.
fn read_items(v: &Yaml) -> (r: Option<Vec<Yaml>>)
    ensures
        match r {
            Some(items) => items_of(v@) == Some(items_view(items@)),
            None => items_of(v@) is None,
        },
{
    match v.untag() {
        Yaml::Null => {
            let out: Vec<Yaml> = Vec::new();
            assert(items_view(out@) =~= Seq::empty());
            Some(out)
        },
        Yaml::Sequence(items) => {
            let mut out: Vec<Yaml> = Vec::new();
            for i in 0..items.len()
                invariant
                    out@.len() == i,
                    forall|k: int| 0 <= k < i ==> (#[trigger] out@[k])@ == items@[k]@,
            {
                out.push(items[i].copy());
            }
            assert(items_view(out@) =~= items_view(items@));
            Some(out)
        },
        _ => None,
    }
}

/// The items of a sequence field.
fn read_items_field(f: &Vec<(String, Yaml)>, name: &str) -> (r: Option<Vec<Yaml>>)
    ensures
        match r {
            Some(items) => items_field(fields_view(f@), name@) == Some(items_view(items@)),
            None => items_field(fields_view(f@), name@) is None,
        },
{
    match find(f, name) {
        None => {
            let out: Vec<Yaml> = Vec::new();
            assert(items_view(out@) =~= Seq::empty());
            Some(out)
        },
        Some(v) => read_items(v),
    }
}

// ---------------------------------------------------------------------------
// Finding the first fault
// ---------------------------------------------------------------------------

fn has_before(entries: &Vec<(Yaml, Yaml)>, n: usize, name: &str) -> (r: bool)
    requires
        n <= entries@.len(),
    ensures
        r == has_entry(entries_view(entries@).take(n as int), name@),
{
    let ghost all = entries_view(entries@);
    let ghost some = all.take(n as int);
    for i in 0..n
        invariant
            n <= entries@.len(),
            all == entries_view(entries@),
            some == all.take(n as int),
            forall|k: int|
                0 <= k < i ==> untagged((#[trigger] some[k]).0) != YamlView::Text(name@),
    {
        assert(some[i as int] == (entries@[i as int].0@, entries@[i as int].1@));
        if let Some(s) = entries[i].0.untag().as_str() {
            if same(s, name) {
                return true;
            }
        }
    }
    false
}

/// The name of an entry that is new and known, or why it has none.
fn key_name<'a>(entries: &'a Vec<(Yaml, Yaml)>, i: usize, allowed: &[&'static str]) -> (r: Result<
    &'a str,
    String,
>)
    requires
        i < entries@.len(),
    ensures
        match (untagged(entries_view(entries@)[i as int].0), r) {
            (YamlView::Text(name), Ok(s)) => s@ == name && known(allowed@, name) && !has_entry(
                entries_view(entries@).take(i as int),
                name,
            ),
            (YamlView::Text(name), Err(e)) => if !known(allowed@, name) {
                e@ == unknown(name, allowed@)
            } else {
                has_entry(entries_view(entries@).take(i as int), name) && e@ == duplicate(name)
            },
            (_, Ok(_)) => false,
            (_, Err(e)) => e@ == invalid(
                entries_view(entries@)[i as int].0,
                "field identifier"@,
            ),
        },
{
    match entries[i].0.untag().as_str() {
        None => Err(why_invalid(&entries[i].0, "field identifier")),
        Some(name) => {
            if !is_known(allowed, name) {
                Err(why_unknown(name, allowed))
            } else if has_before(entries, i, name) {
                Err(why_duplicate(name))
            } else {
                Ok(name)
            }
        },
    }
}

/// A fault among the first entries is the fault of the whole.
proof fn lemma_fault_stops(
    entries: Seq<(YamlView, YamlView)>,
    allowed: Seq<&'static str>,
    fault: spec_fn(Seq<char>, YamlView) -> Option<Seq<char>>,
    n: int,
)
    requires
        0 <= n <= entries.len(),
        first_fault(entries.take(n), allowed, fault) is Some,
    ensures
        first_fault(entries, allowed, fault) == first_fault(entries.take(n), allowed, fault),
    decreases entries.len() - n,
{
    if n < entries.len() {
        assert(entries.take(n + 1).drop_last() =~= entries.take(n));
        lemma_fault_stops(entries, allowed, fault, n + 1);
    } else {
        assert(entries.take(n) =~= entries);
    }
}

fn why_no_text(v: &Yaml) -> (r: Option<String>)
    ensures
        text_opt(r) == text_fault(v@),
{
    match v.untag().as_str() {
        Some(_) => None,
        None => Some(why_invalid(v, "a string")),
    }
}

fn find_row_fault(name: &str, v: &Yaml) -> (r: Option<String>)
    ensures
        text_opt(r) == row_fault(name@, v@),
{
    if same(name, "config") {
        None
    } else {
        why_no_text(v)
    }
}

fn why_no_row_of(entries: &Vec<(Yaml, Yaml)>) -> (r: String)
    ensures
        r@ == row_reason_of(entries_view(entries@)),
{
    let ghost all = entries_view(entries@);
    let ghost fault = row_faults();
    assert(all.take(0) =~= Seq::empty());
    for i in 0..entries.len()
        invariant
            all == entries_view(entries@),
            fault == row_faults(),
            first_fault(all.take(i as int), ROW_FIELDS@, fault) is None,
    {
        let ghost upto = all.take(i + 1);
        assert(upto.drop_last() =~= all.take(i as int));
        assert(upto.last() == (entries@[i as int].0@, entries@[i as int].1@));
        let found = match key_name(entries, i, &ROW_FIELDS) {
            Err(e) => Some(e),
            Ok(name) => find_row_fault(name, &entries[i].1),
        };
        assert(text_opt(found) == last_fault(upto, ROW_FIELDS@, fault));
        if let Some(e) = found {
            proof {
                lemma_fault_stops(all, ROW_FIELDS@, fault, i + 1);
            }
            return e;
        }
    }
    assert(all.take(entries@.len() as int) =~= all);
    if has_before(entries, entries.len(), "id") {
        why_missing("plugin")
    } else {
        why_missing("id")
    }
}

fn why_no_row(v: &Yaml) -> (r: String)
    ensures
        r@ == row_reason(v@),
{
    match v.untag() {
        Yaml::Mapping(entries) => why_no_row_of(entries),
        Yaml::Null => why_missing("id"),
        _ => why_invalid(v, "struct Row"),
    }
}

// ---------------------------------------------------------------------------
// Reading documents
// ---------------------------------------------------------------------------

/// What is read of a row, as a specification sees it.
pub open spec fn row_opt(r: Option<Row>) -> Option<RowView> {
    match r {
        Some(row) => Some(row@),
        None => None,
    }
}

fn row_from_fields(f: &Vec<(String, Yaml)>) -> (r: Option<Row>)
    ensures
        row_opt(r) == row_from(fields_view(f@)),
{
    match (read_text(f, "id"), read_text(f, "plugin")) {
        (Some(id), Some(plugin)) => {
            let config = match find(f, "config") {
                Some(v) => v.copy(),
                None => Yaml::Null,
            };
            Some(Row { id, plugin, config })
        },
        _ => None,
    }
}

/// Read a row.
pub fn decode_row(v: &Yaml) -> (r: Result<Row, String>)
    ensures
        outcome(r) == row_of(v@),
{
    if let Some(f) = read_fields(v, &ROW_FIELDS) {
        if let Some(row) = row_from_fields(&f) {
            return Ok(row);
        }
    }
    Err(why_no_row(v))
}

/// What is read of rows, as a specification sees it.
pub open spec fn rows_outcome(r: Result<Vec<Row>, String>) -> Result<Seq<RowView>, Seq<char>> {
    match r {
        Ok(rows) => Ok(rows_view(rows@)),
        Err(e) => Err(e@),
    }
}

proof fn lemma_rows_stop(items: Seq<YamlView>, n: int)
    requires
        0 <= n <= items.len(),
        rows_of(items.take(n)) is Err,
    ensures
        rows_of(items) == rows_of(items.take(n)),
    decreases items.len() - n,
{
    if n < items.len() {
        assert(items.take(n + 1).drop_last() =~= items.take(n));
        lemma_rows_stop(items, n + 1);
    } else {
        assert(items.take(n) =~= items);
    }
}

/// Read a sequence of rows.
pub fn decode_rows(items: &Vec<Yaml>) -> (r: Result<Vec<Row>, String>)
    ensures
        rows_outcome(r) == rows_of(items_view(items@)),
{
    let ghost all = items_view(items@);
    let mut out: Vec<Row> = Vec::new();
    assert(all.take(0) =~= Seq::empty());
    assert(rows_view(out@) =~= Seq::empty());
    for i in 0..items.len()
        invariant
            all == items_view(items@),
            rows_of(all.take(i as int)) == Ok::<Seq<RowView>, Seq<char>>(rows_view(out@)),
    {
        assert(all.take(i + 1).drop_last() =~= all.take(i as int));
        assert(all.take(i + 1).last() == items@[i as int]@);
        match decode_row(&items[i]) {
            Err(e) => {
                proof {
                    lemma_rows_stop(all, i + 1);
                }
                return Err(e);
            },
            Ok(row) => {
                let ghost before = rows_view(out@);
                out.push(row);
                assert(rows_view(out@) =~= before.push(row@));
            },
        }
    }
    assert(all.take(items@.len() as int) =~= all);
    Ok(out)
}

fn holds_no_tag(v: &Yaml) -> (r: bool)
    ensures
        r == tag_free(v@),
    decreases v,
{
    match v {
        Yaml::Sequence(items) => {
            let ghost all = items_view(items@);
            for i in 0..items.len()
                invariant
                    all == items_view(items@),
                    v@ == YamlView::Sequence(all),
                    decreases_to!(v => items),
                    forall|k: int| 0 <= k < i ==> tag_free(#[trigger] all[k]),
            {
                assert(all[i as int] == items@[i as int]@);
                if !holds_no_tag(&items[i]) {
                    proof {
                        let whole = YamlView::Sequence(all);
                        assert(!tag_free(whole->Sequence_0[i as int]));
                        assert(!tag_free(whole));
                    }
                    return false;
                }
            }
            true
        },
        Yaml::Mapping(entries) => {
            let ghost all = entries_view(entries@);
            for i in 0..entries.len()
                invariant
                    all == entries_view(entries@),
                    v@ == YamlView::Mapping(all),
                    decreases_to!(v => entries),
                    forall|k: int|
                        0 <= k < i ==> tag_free((#[trigger] all[k]).0) && tag_free(all[k].1),
            {
                assert(decreases_to!(v => entries@[i as int]));
                assert(all[i as int] == (entries@[i as int].0@, entries@[i as int].1@));
                if !holds_no_tag(&entries[i].0) || !holds_no_tag(&entries[i].1) {
                    proof {
                        let whole = YamlView::Mapping(all);
                        let e = whole->Mapping_0[i as int];
                        assert(!tag_free(e.0) || !tag_free(e.1));
                        assert(!tag_free(whole));
                    }
                    return false;
                }
            }
            true
        },
        Yaml::Tagged(..) => false,
        _ => true,
    }
}

fn is_op_entry(e: &(Yaml, Yaml)) -> (r: bool)
    ensures
        r == names_op((e.0@, e.1@)),
{
    match e.0.as_str() {
        Some(s) => same(s, "op"),
        None => false,
    }
}

fn key_means(key: &Yaml, name: &str, at: u64) -> (r: bool)
    ensures
        r == means(key@, name@, at),
{
    match key {
        Yaml::Text(s) => same(s.as_str(), name),
        Yaml::Number(n) => match n.as_u64() {
            Some(k) => k == at,
            None => false,
        },
        _ => false,
    }
}

/// What is read of an operation, as a specification sees it.
pub open spec fn op_opt(r: Option<PatchOp>) -> Option<OpView> {
    match r {
        Some(op) => Some(op@),
        None => None,
    }
}

fn set_from_entries(rest: &Vec<(Yaml, Yaml)>) -> (r: Option<PatchOp>)
    ensures
        op_opt(r) == set_from(entries_view(rest@)),
{
    if rest.len() != 2 {
        return None;
    }
    let ghost all = entries_view(rest@);
    assert(all[0] == (rest@[0].0@, rest@[0].1@));
    assert(all[1] == (rest@[1].0@, rest@[1].1@));
    let (a, b): (usize, usize) = if key_means(&rest[0].0, "id", 0) {
        (0, 1)
    } else {
        (1, 0)
    };
    if !key_means(&rest[a].0, "id", 0) || !key_means(&rest[b].0, "config", 1) {
        return None;
    }
    match rest[a].1.as_str() {
        Some(id) => Some(PatchOp::SetConfig { id: owned(id), config: rest[b].1.copy() }),
        None => None,
    }
}

fn insert_from_entries(rest: &Vec<(Yaml, Yaml)>) -> (r: Option<PatchOp>)
    ensures
        op_opt(r) == insert_from(entries_view(rest@)),
{
    match read_entries(rest, &ROW_FIELDS) {
        None => None,
        Some(f) => match row_from_fields(&f) {
            None => None,
            Some(row) => Some(PatchOp::Insert { row }),
        },
    }
}

fn op_from_entries(entries: &Vec<(Yaml, Yaml)>) -> (r: Option<PatchOp>)
    ensures
        op_opt(r) == op_from(entries_view(entries@)),
{
    let (rest, op) = part_op(entries);
    if rest.len() == entries.len() || rest.len() != entries.len() - 1 {
        return None;
    }
    let rest = Yaml::Mapping(rest);
    if !holds_no_tag(&rest) {
        return None;
    }
    let name = match op {
        Some(v) => match v.as_str() {
            Some(s) => s,
            None => {
                return None;
            },
        },
        None => {
            return None;
        },
    };
    match &rest {
        Yaml::Mapping(rest) => {
            if same(name, "set") {
                set_from_entries(rest)
            } else if same(name, "insert") {
                insert_from_entries(rest)
            } else {
                None
            }
        },
        _ => None,
    }
}

/// Read an operation.
pub fn decode_op(v: &Yaml) -> (r: Option<PatchOp>)
    ensures
        op_opt(r) == op_of(v@),
{
    match v {
        Yaml::Mapping(entries) => op_from_entries(entries),
        Yaml::Sequence(items) => {
            let ghost all = items_view(items@);
            assert(v@ == YamlView::Sequence(all));
            if items.len() != 3 {
                return None;
            }
            assert(all[0] == items@[0]@ && all[1] == items@[1]@ && all[2] == items@[2]@);
            match items[0].untag().as_str() {
                Some(name) => {
                    if !same(name, "set") || !holds_no_tag(&items[2]) {
                        return None;
                    }
                },
                None => {
                    return None;
                },
            }
            match items[1].as_str() {
                Some(id) => Some(PatchOp::SetConfig { id: owned(id), config: items[2].copy() }),
                None => None,
            }
        },
        _ => None,
    }
}

fn name_set_key(key: &Yaml) -> (r: Result<&'static str, String>)
    ensures
        match r {
            Ok(name) => set_key(key@) == Ok::<Seq<char>, Seq<char>>(name@),
            Err(e) => set_key(key@) == Err::<Seq<char>, Seq<char>>(e@),
        },
{
    match key {
        Yaml::Text(s) => {
            if is_known(&SET_FIELDS, s.as_str()) {
                if same(s.as_str(), "id") {
                    Ok("id")
                } else {
                    assert(SET_FIELDS@[0]@ == "id"@ && SET_FIELDS@[1]@ == "config"@);
                    Ok("config")
                }
            } else {
                Err(why_unknown(s.as_str(), &SET_FIELDS))
            }
        },
        Yaml::Number(n) => match n.as_u64() {
            Some(k) => {
                if k == 0 {
                    Ok("id")
                } else if k == 1 {
                    Ok("config")
                } else {
                    let q = ticks(decimal(k).as_str());
                    Err(
                        cat3(
                            "invalid value: integer ",
                            q.as_str(),
                            ", expected field index 0 <= i < 2",
                        ),
                    )
                }
            },
            None => Err(why_invalid(key, "field identifier")),
        },
        _ => {
            Err(why_invalid(key, "field identifier"))
        },
    }
}

fn set_has_before(rest: &Vec<(Yaml, Yaml)>, n: usize, name: &str) -> (r: bool)
    requires
        n <= rest@.len(),
    ensures
        r == set_has(entries_view(rest@).take(n as int), name@),
{
    let ghost all = entries_view(rest@);
    let ghost some = all.take(n as int);
    for i in 0..n
        invariant
            n <= rest@.len(),
            all == entries_view(rest@),
            some == all.take(n as int),
            forall|k: int|
                0 <= k < i ==> set_key((#[trigger] some[k]).0) != Ok::<Seq<char>, Seq<char>>(name@),
    {
        assert(some[i as int] == (rest@[i as int].0@, rest@[i as int].1@));
        if let Ok(s) = name_set_key(&rest[i].0) {
            if same(s, name) {
                return true;
            }
        }
    }
    false
}

proof fn lemma_set_fault_stops(rest: Seq<(YamlView, YamlView)>, n: int)
    requires
        0 <= n <= rest.len(),
        set_fault(rest.take(n)) is Some,
    ensures
        set_fault(rest) == set_fault(rest.take(n)),
    decreases rest.len() - n,
{
    if n < rest.len() {
        assert(rest.take(n + 1).drop_last() =~= rest.take(n));
        lemma_set_fault_stops(rest, n + 1);
    } else {
        assert(rest.take(n) =~= rest);
    }
}

fn why_no_set(rest: &Vec<(Yaml, Yaml)>) -> (r: String)
    ensures
        r@ == set_reason(entries_view(rest@)),
{
    let ghost all = entries_view(rest@);
    assert(all.take(0) =~= Seq::empty());
    for i in 0..rest.len()
        invariant
            all == entries_view(rest@),
            set_fault(all.take(i as int)) is None,
    {
        let ghost upto = all.take(i + 1);
        assert(upto.drop_last() =~= all.take(i as int));
        assert(upto.last() == (rest@[i as int].0@, rest@[i as int].1@));
        let found = match name_set_key(&rest[i].0) {
            Err(e) => Some(e),
            Ok(name) => {
                if set_has_before(rest, i, name) {
                    Some(why_duplicate(name))
                } else {
                    find_row_fault(name, &rest[i].1)
                }
            },
        };
        assert(text_opt(found) == set_fault(upto));
        if let Some(e) = found {
            proof {
                lemma_set_fault_stops(all, i + 1);
            }
            return e;
        }
    }
    assert(all.take(rest@.len() as int) =~= all);
    if set_has_before(rest, rest.len(), "id") {
        why_missing("config")
    } else {
        why_missing("id")
    }
}

fn keeps_key(key: &Yaml) -> (r: bool)
    ensures
        r == kept_key(key@),
{
    match key {
        Yaml::Text(_) => true,
        Yaml::Number(n) => n.as_u64().is_some(),
        _ => false,
    }
}

fn is_row_entry(e: &(Yaml, Yaml)) -> (r: bool)
    ensures
        r == row_entry((e.0@, e.1@)),
{
    match e.0.as_str() {
        Some(s) => is_known(&ROW_FIELDS, s),
        None => false,
    }
}

proof fn lemma_first_of_stops(
    entries: Seq<(YamlView, YamlView)>,
    what: spec_fn((YamlView, YamlView)) -> bool,
    n: int,
)
    requires
        0 <= n <= entries.len(),
        first_of(entries.take(n), what) is Some,
    ensures
        first_of(entries, what) == first_of(entries.take(n), what),
    decreases entries.len() - n,
{
    if n < entries.len() {
        assert(entries.take(n + 1).drop_last() =~= entries.take(n));
        lemma_first_of_stops(entries, what, n + 1);
    } else {
        assert(entries.take(n) =~= entries);
    }
}

fn row_entries_of(rest: &Vec<(Yaml, Yaml)>) -> (r: Vec<(Yaml, Yaml)>)
    ensures
        entries_view(r@) == row_part(entries_view(rest@)),
{
    let ghost all = entries_view(rest@);
    let mut out: Vec<(Yaml, Yaml)> = Vec::new();
    assert(all.take(0) =~= Seq::empty());
    assert(entries_view(out@) =~= Seq::empty());
    for i in 0..rest.len()
        invariant
            all == entries_view(rest@),
            entries_view(out@) == row_part(all.take(i as int)),
    {
        assert(all.take(i + 1).drop_last() =~= all.take(i as int));
        assert(all.take(i + 1).last() == (rest@[i as int].0@, rest@[i as int].1@));
        if is_row_entry(&rest[i]) {
            let ghost before = entries_view(out@);
            let key = rest[i].0.copy();
            let value = rest[i].1.copy();
            out.push((key, value));
            assert(entries_view(out@) =~= before.push((key@, value@)));
        }
    }
    assert(all.take(rest@.len() as int) =~= all);
    out
}

/// Why an entry is not one that an `insert` can hold.
fn why_not_inserted(rest: &Vec<(Yaml, Yaml)>) -> (r: String)
    ensures
        r@ == (match first_of(entries_view(rest@), |e: (YamlView, YamlView)| !row_entry(e)) {
            Some((YamlView::Text(name), _)) => "unknown field "@ + ticked(name),
            _ => "unexpected map key"@,
        }),
{
    let ghost all = entries_view(rest@);
    let ghost what = |e: (YamlView, YamlView)| !row_entry(e);
    assert(all.take(0) =~= Seq::empty());
    for i in 0..rest.len()
        invariant
            all == entries_view(rest@),
            what == (|e: (YamlView, YamlView)| !row_entry(e)),
            first_of(all.take(i as int), what) is None,
    {
        assert(all.take(i + 1).drop_last() =~= all.take(i as int));
        assert(all.take(i + 1).last() == (rest@[i as int].0@, rest@[i as int].1@));
        if !is_row_entry(&rest[i]) {
            proof {
                lemma_first_of_stops(all, what, i + 1);
            }
            return match rest[i].0.as_str() {
                Some(s) => {
                    let q = ticks(s);
                    cat("unknown field ", q.as_str())
                },
                None => owned("unexpected map key"),
            };
        }
    }
    assert(all.take(rest@.len() as int) =~= all);
    owned("unexpected map key")
}

fn why_no_insert(rest: &Vec<(Yaml, Yaml)>) -> (r: String)
    ensures
        r@ == insert_reason(entries_view(rest@)),
{
    let ghost all = entries_view(rest@);
    let ghost what = |e: (YamlView, YamlView)| !kept_key(e.0);
    assert(all.take(0) =~= Seq::empty());
    for i in 0..rest.len()
        invariant
            all == entries_view(rest@),
            what == (|e: (YamlView, YamlView)| !kept_key(e.0)),
            first_of(all.take(i as int), what) is None,
    {
        assert(all.take(i + 1).drop_last() =~= all.take(i as int));
        assert(all.take(i + 1).last() == (rest@[i as int].0@, rest@[i as int].1@));
        if !keeps_key(&rest[i].0) {
            proof {
                lemma_first_of_stops(all, what, i + 1);
            }
            return why_invalid(&rest[i].0, "field identifier");
        }
    }
    assert(all.take(rest@.len() as int) =~= all);
    let part = row_entries_of(rest);
    match read_entries(&part, &ROW_FIELDS) {
        None => why_no_row_of(&part),
        Some(f) => match row_from_fields(&f) {
            None => why_no_row_of(&part),
            Some(_) => why_not_inserted(rest),
        },
    }
}

/// The entries beside the operation's name, and that name.
fn part_op<'a>(entries: &'a Vec<(Yaml, Yaml)>) -> (r: (Vec<(Yaml, Yaml)>, Option<&'a Yaml>))
    ensures
        entries_view(r.0@) == beside_op(entries_view(entries@)),
        r.0@.len() <= entries@.len(),
        match r.1 {
            Some(v) => op_name(entries_view(entries@)) == Some(v@),
            None => op_name(entries_view(entries@)) is None,
        },
{
    let ghost all = entries_view(entries@);
    let mut rest: Vec<(Yaml, Yaml)> = Vec::new();
    let mut op: Option<&Yaml> = None;
    assert(all.take(0) =~= Seq::empty());
    assert(entries_view(rest@) =~= Seq::empty());
    for i in 0..entries.len()
        invariant
            all == entries_view(entries@),
            entries_view(rest@) == beside_op(all.take(i as int)),
            rest@.len() <= i,
            match op {
                Some(v) => op_name(all.take(i as int)) == Some(v@),
                None => op_name(all.take(i as int)) is None,
            },
    {
        assert(all.take(i + 1).drop_last() =~= all.take(i as int));
        assert(all.take(i + 1).last() == (entries@[i as int].0@, entries@[i as int].1@));
        if is_op_entry(&entries[i]) {
            op = Some(entries[i].1.untag());
        } else {
            let ghost before = entries_view(rest@);
            let key = entries[i].0.copy();
            let value = entries[i].1.copy();
            rest.push((key, value));
            assert(entries_view(rest@) =~= before.push((key@, value@)));
        }
    }
    assert(all.take(entries@.len() as int) =~= all);
    (rest, op)
}

fn why_no_variant(v: &Yaml) -> (r: Option<String>)
    ensures
        text_opt(r) == variant_fault(v@),
{
    match v.untag().as_str() {
        Some(name) => {
            if is_known(&OPERATIONS, name) {
                None
            } else {
                let q = ticks(name);
                let names = list_names(&OPERATIONS);
                Some(cat4("unknown variant ", q.as_str(), ", expected ", names.as_str()))
            }
        },
        None => Some(why_invalid(v, "variant identifier")),
    }
}

proof fn lemma_op_fault_stops(entries: Seq<(YamlView, YamlView)>, n: int)
    requires
        0 <= n <= entries.len(),
        op_fault(entries.take(n)) is Some,
    ensures
        op_fault(entries) == op_fault(entries.take(n)),
    decreases entries.len() - n,
{
    if n < entries.len() {
        assert(entries.take(n + 1).drop_last() =~= entries.take(n));
        lemma_op_fault_stops(entries, n + 1);
    } else {
        assert(entries.take(n) =~= entries);
    }
}

fn find_op_fault(entries: &Vec<(Yaml, Yaml)>) -> (r: Option<String>)
    ensures
        text_opt(r) == op_fault(entries_view(entries@)),
{
    let ghost all = entries_view(entries@);
    let mut seen = false;
    assert(all.take(0) =~= Seq::empty());
    for i in 0..entries.len()
        invariant
            all == entries_view(entries@),
            op_fault(all.take(i as int)) is None,
            seen == (op_name(all.take(i as int)) is Some),
    {
        let ghost upto = all.take(i + 1);
        assert(upto.drop_last() =~= all.take(i as int));
        assert(upto.last() == (entries@[i as int].0@, entries@[i as int].1@));
        let found = if is_op_entry(&entries[i]) {
            let again = seen;
            seen = true;
            if again {
                Some(why_duplicate("op"))
            } else {
                why_no_variant(&entries[i].1)
            }
        } else if holds_no_tag(&entries[i].0) && holds_no_tag(&entries[i].1) {
            None
        } else {
            Some(owned("untagged and internally tagged enums do not support enum input"))
        };
        assert(text_opt(found) == op_fault(upto));
        if found.is_some() {
            proof {
                lemma_op_fault_stops(all, i + 1);
            }
            return found;
        }
    }
    assert(all.take(entries@.len() as int) =~= all);
    None
}

fn why_no_entries(entries: &Vec<(Yaml, Yaml)>) -> (r: String)
    ensures
        r@ == entries_reason(entries_view(entries@)),
{
    if let Some(e) = find_op_fault(entries) {
        return e;
    }
    let (rest, op) = part_op(entries);
    match op {
        None => why_missing("op"),
        Some(v) => {
            let set = match v.as_str() {
                Some(s) => same(s, "set"),
                None => false,
            };
            if set {
                why_no_set(&rest)
            } else {
                why_no_insert(&rest)
            }
        },
    }
}

fn why_no_items(items: &Vec<Yaml>) -> (r: String)
    ensures
        r@ == items_reason(items_view(items@)),
{
    let ghost all = items_view(items@);
    assert(all.len() == items@.len());
    if items.len() == 0 {
        return why_missing("op");
    }
    assert(all[0] == items@[0]@);
    if let Some(e) = why_no_variant(&items[0]) {
        return e;
    }
    let ghost rest = all.skip(1);
    let ghost node = YamlView::Sequence(rest);
    for i in 1..items.len()
        invariant
            all == items_view(items@),
            rest == all.skip(1),
            node == YamlView::Sequence(rest),
            all.len() == items@.len(),
            variant_fault(all[0]) is None,
            1 <= i <= items@.len(),
            forall|k: int| 0 <= k < i - 1 ==> tag_free(#[trigger] rest[k]),
    {
        assert(rest[i - 1] == items@[i as int]@);
        if !holds_no_tag(&items[i]) {
            assert(!tag_free(node->Sequence_0[i - 1]));
            assert(!tag_free(node));
            return owned("untagged and internally tagged enums do not support enum input");
        }
    }
    assert(tag_free(node));
    let set = match items[0].untag().as_str() {
        Some(s) => same(s, "set"),
        None => false,
    };
    if !set {
        return owned("invalid type: sequence, expected struct variant PatchOp::Insert");
    }
    if items.len() == 1 {
        return owned("invalid length 0, expected struct variant PatchOp::Set with 2 elements");
    }
    assert(all[1] == items@[1]@);
    if items[1].as_str().is_none() {
        assert(untagged(all[1]) == all[1]) by {
            assert(tag_free(rest[0]));
        }
        return why_invalid(&items[1], "a string");
    }
    if items.len() == 2 {
        return owned("invalid length 1, expected struct variant PatchOp::Set with 2 elements");
    }
    let n: u64 = (items.len() - 1) as u64;
    cat3("invalid length ", decimal(n).as_str(), ", expected 2 elements in sequence")
}

/// Why a node stands for no operation.
pub fn why_no_op(v: &Yaml) -> (r: String)
    ensures
        r@ == op_reason(v@),
{
    match v {
        Yaml::Mapping(entries) => why_no_entries(entries),
        Yaml::Sequence(items) => why_no_items(items),
        _ => {
            let got = name_unexpected(v);
            cat3("invalid type: ", got.as_str(), ", expected internally tagged enum PatchOp")
        },
    }
}

/// Why the first node that stands for no operation does not.
fn why_no_ops(items: &Vec<Yaml>) -> (r: String)
    requires
        ops_of(items_view(items@)) is None,
    ensures
        r@ == ops_reason(items_view(items@)),
{
    let ghost all = items_view(items@);
    assert(all.take(0) =~= Seq::empty());
    for i in 0..items.len()
        invariant
            all == items_view(items@),
            ops_of(all.take(i as int)) is Some,
    {
        assert(all.take(i + 1).drop_last() =~= all.take(i as int));
        assert(all.take(i + 1).last() == items@[i as int]@);
        if decode_op(&items[i]).is_none() {
            proof {
                lemma_ops_reason(all, i + 1);
            }
            return why_no_op(&items[i]);
        }
    }
    assert(all.take(items@.len() as int) =~= all);
    String::new()
}

/// Why the first node that is no text is not.
fn why_no_texts(items: &Vec<Yaml>) -> (r: String)
    requires
        texts_of(items_view(items@)) is None,
    ensures
        r@ == texts_reason(items_view(items@)),
{
    let ghost all = items_view(items@);
    assert(all.take(0) =~= Seq::empty());
    for i in 0..items.len()
        invariant
            all == items_view(items@),
            texts_of(all.take(i as int)) is Some,
    {
        assert(all.take(i + 1).drop_last() =~= all.take(i as int));
        assert(all.take(i + 1).last() == items@[i as int]@);
        if items[i].untag().as_str().is_none() {
            proof {
                lemma_texts_reason(all, i + 1);
            }
            return why_invalid(&items[i], "a string");
        }
    }
    assert(all.take(items@.len() as int) =~= all);
    String::new()
}

/// The reason of the first items is the reason of the whole.
proof fn lemma_ops_reason(items: Seq<YamlView>, n: int)
    requires
        0 <= n <= items.len(),
        ops_of(items.take(n)) is None,
    ensures
        ops_of(items) is None,
        ops_reason(items) == ops_reason(items.take(n)),
    decreases items.len() - n,
{
    if n < items.len() {
        assert(items.take(n + 1).drop_last() =~= items.take(n));
        lemma_ops_reason(items, n + 1);
    } else {
        assert(items.take(n) =~= items);
    }
}

/// The reason of the first items is the reason of the whole.
proof fn lemma_texts_reason(items: Seq<YamlView>, n: int)
    requires
        0 <= n <= items.len(),
        texts_of(items.take(n)) is None,
    ensures
        texts_of(items) is None,
        texts_reason(items) == texts_reason(items.take(n)),
    decreases items.len() - n,
{
    if n < items.len() {
        assert(items.take(n + 1).drop_last() =~= items.take(n));
        lemma_texts_reason(items, n + 1);
    } else {
        assert(items.take(n) =~= items);
    }
}

/// Read a sequence of operations.
pub fn decode_ops(items: &Vec<Yaml>) -> (r: Option<Vec<PatchOp>>)
    ensures
        match r {
            Some(ops) => ops_of(items_view(items@)) == Some(ops_view(ops@)),
            None => ops_of(items_view(items@)) is None,
        },
{
    let ghost all = items_view(items@);
    let mut out: Vec<PatchOp> = Vec::new();
    assert(all.take(0) =~= Seq::empty());
    assert(ops_view(out@) =~= Seq::empty());
    for i in 0..items.len()
        invariant
            all == items_view(items@),
            ops_of(all.take(i as int)) == Some(ops_view(out@)),
    {
        assert(all.take(i + 1).drop_last() =~= all.take(i as int));
        assert(all.take(i + 1).last() == items@[i as int]@);
        match decode_op(&items[i]) {
            None => {
                proof {
                    lemma_ops_reason(all, i + 1);
                }
                return None;
            },
            Some(op) => {
                let ghost before = ops_view(out@);
                out.push(op);
                assert(ops_view(out@) =~= before.push(op@));
            },
        }
    }
    assert(all.take(items@.len() as int) =~= all);
    Some(out)
}

fn decode_texts(items: &Vec<Yaml>) -> (r: Option<Vec<String>>)
    ensures
        match r {
            Some(names) => texts_of(items_view(items@)) == Some(texts(names@)),
            None => texts_of(items_view(items@)) is None,
        },
{
    let ghost all = items_view(items@);
    let mut out: Vec<String> = Vec::new();
    assert(all.take(0) =~= Seq::empty());
    assert(texts(out@) =~= Seq::empty());
    for i in 0..items.len()
        invariant
            all == items_view(items@),
            texts_of(all.take(i as int)) == Some(texts(out@)),
    {
        assert(all.take(i + 1).drop_last() =~= all.take(i as int));
        assert(all.take(i + 1).last() == items@[i as int]@);
        match items[i].untag().as_str() {
            None => {
                proof {
                    lemma_texts_reason(all, i + 1);
                }
                return None;
            },
            Some(s) => {
                let ghost before = texts(out@);
                out.push(owned(s));
                assert(texts(out@) =~= before.push(s@));
            },
        }
    }
    assert(all.take(items@.len() as int) =~= all);
    Some(out)
}

fn read_rows(f: &Vec<(String, Yaml)>, name: &str) -> (r: Option<Vec<Row>>)
    ensures
        match r {
            Some(rows) => rows_field(fields_view(f@), name@) == Some(rows_view(rows@)),
            None => rows_field(fields_view(f@), name@) is None,
        },
{
    match read_items_field(f, name) {
        None => None,
        Some(items) => match decode_rows(&items) {
            Ok(rows) => Some(rows),
            Err(_) => None,
        },
    }
}

fn read_ops(f: &Vec<(String, Yaml)>, name: &str) -> (r: Option<Vec<PatchOp>>)
    ensures
        match r {
            Some(ops) => ops_field(fields_view(f@), name@) == Some(ops_view(ops@)),
            None => ops_field(fields_view(f@), name@) is None,
        },
{
    match read_items_field(f, name) {
        None => None,
        Some(items) => decode_ops(&items),
    }
}

fn read_texts(f: &Vec<(String, Yaml)>, name: &str) -> (r: Option<Vec<String>>)
    ensures
        match r {
            Some(names) => texts_field(fields_view(f@), name@) == Some(texts(names@)),
            None => texts_field(fields_view(f@), name@) is None,
        },
{
    match read_items_field(f, name) {
        None => None,
        Some(items) => decode_texts(&items),
    }
}

fn find_field_fault(name: &str, v: &Yaml) -> (r: Option<String>)
    ensures
        text_opt(r) == field_fault(name@, v@),
{
    if same(name, "name") {
        return why_no_text(v);
    }
    if same(name, "system_prompt") {
        return match v {
            Yaml::Null => None,
            _ => why_no_text(v),
        };
    }
    if same(name, "model") {
        return None;
    }
    let items = match read_items(v) {
        None => {
            return Some(why_invalid(v, "a sequence"));
        },
        Some(items) => items,
    };
    if same(name, "rows") {
        match decode_rows(&items) {
            Ok(_) => None,
            Err(e) => Some(e),
        }
    } else if same(name, "patch") {
        match decode_ops(&items) {
            Some(_) => None,
            None => Some(why_no_ops(&items)),
        }
    } else {
        match decode_texts(&items) {
            Some(_) => None,
            None => Some(why_no_texts(&items)),
        }
    }
}

fn why_no_document(v: &Yaml, allowed: &[&'static str], what: &str) -> (r: String)
    ensures
        r@ == document_reason(v@, allowed@, what@),
{
    let entries = match v.untag() {
        Yaml::Mapping(entries) => entries,
        Yaml::Null => {
            return why_missing("name");
        },
        _ => {
            return why_invalid(v, what);
        },
    };
    let ghost all = entries_view(entries@);
    let ghost fault = field_faults();
    assert(untagged(v@) == YamlView::Mapping(all));
    assert(all.take(0) =~= Seq::empty());
    for i in 0..entries.len()
        invariant
            all == entries_view(entries@),
            fault == field_faults(),
            untagged(v@) == YamlView::Mapping(all),
            first_fault(all.take(i as int), allowed@, fault) is None,
    {
        let ghost upto = all.take(i + 1);
        assert(upto.drop_last() =~= all.take(i as int));
        assert(upto.last() == (entries@[i as int].0@, entries@[i as int].1@));
        let found = match key_name(entries, i, allowed) {
            Err(e) => Some(e),
            Ok(name) => find_field_fault(name, &entries[i].1),
        };
        assert(text_opt(found) == last_fault(upto, allowed@, fault));
        if let Some(e) = found {
            proof {
                lemma_fault_stops(all, allowed@, fault, i + 1);
            }
            return e;
        }
    }
    assert(all.take(entries@.len() as int) =~= all);
    why_missing("name")
}

fn layer_from_fields(f: &Vec<(String, Yaml)>) -> (r: Option<Layer>)
    ensures
        match r {
            Some(layer) => layer_from(fields_view(f@)) == Some(layer@),
            None => layer_from(fields_view(f@)) is None,
        },
{
    let name = match find(f, "name") {
        None => Some(String::new()),
        Some(_) => read_text(f, "name"),
    };
    match (name, read_rows(f, "rows"), read_ops(f, "patch")) {
        (Some(name), Some(rows), Some(patch)) => Some(Layer { name, rows, patch }),
        _ => None,
    }
}

/// Read a layer.
pub fn decode_layer(v: &Yaml) -> (r: Result<Layer, String>)
    ensures
        outcome(r) == layer_of(v@),
{
    if let Some(f) = read_fields(v, &LAYER_FIELDS) {
        if let Some(layer) = layer_from_fields(&f) {
            return Ok(layer);
        }
    }
    Err(why_no_document(v, &LAYER_FIELDS, "struct Layer"))
}

fn bundle_from_fields(f: &Vec<(String, Yaml)>) -> (r: Option<BundleDoc>)
    ensures
        match r {
            Some(bundle) => bundle_from(fields_view(f@)) == Some(bundle@),
            None => bundle_from(fields_view(f@)) is None,
        },
{
    match (read_text(f, "name"), read_rows(f, "rows")) {
        (Some(name), Some(rows)) => Some(BundleDoc { name, rows }),
        _ => None,
    }
}

/// Read a bundle.
pub fn decode_bundle(v: &Yaml) -> (r: Result<BundleDoc, String>)
    ensures
        outcome(r) == bundle_of(v@),
{
    if let Some(f) = read_fields(v, &BUNDLE_FIELDS) {
        if let Some(bundle) = bundle_from_fields(&f) {
            return Ok(bundle);
        }
    }
    Err(why_no_document(v, &BUNDLE_FIELDS, "struct BundleDoc"))
}

fn profile_from_fields(f: &Vec<(String, Yaml)>) -> (r: Option<ProfileSpec>)
    ensures
        match r {
            Some(profile) => profile_from(fields_view(f@)) == Some(profile@),
            None => profile_from(fields_view(f@)) is None,
        },
{
    let model = read_node_opt(f, "model");
    match (
        read_text(f, "name"),
        read_texts(f, "bundles"),
        read_rows(f, "rows"),
        read_ops(f, "patch"),
        read_text_opt(f, "system_prompt"),
    ) {
        (Some(name), Some(bundles), Some(rows), Some(patch), Some(system_prompt)) => Some(
            ProfileSpec { name, bundles, rows, patch, system_prompt, model },
        ),
        _ => None,
    }
}

/// Read a profile.
pub fn decode_profile(v: &Yaml) -> (r: Result<ProfileSpec, String>)
    ensures
        outcome(r) == profile_of(v@),
{
    if let Some(f) = read_fields(v, &PROFILE_FIELDS) {
        if let Some(profile) = profile_from_fields(&f) {
            return Ok(profile);
        }
    }
    Err(why_no_document(v, &PROFILE_FIELDS, "struct ProfileSpec"))
}

fn doc_from_fields(f: &Vec<(String, Yaml)>) -> (r: Option<ConfigDoc>)
    ensures
        match r {
            Some(doc) => doc_from(fields_view(f@)) == Some(doc@),
            None => doc_from(fields_view(f@)) is None,
        },
{
    let model = read_node_opt(f, "model");
    match (read_text(f, "name"), read_rows(f, "rows"), read_text_opt(f, "system_prompt")) {
        (Some(name), Some(rows), Some(system_prompt)) => Some(
            ConfigDoc { name, rows, system_prompt, model },
        ),
        _ => None,
    }
}

/// Read a composed document.
pub fn decode_doc(v: &Yaml) -> (r: Result<ConfigDoc, String>)
    ensures
        outcome(r) == doc_of(v@),
{
    if let Some(f) = read_fields(v, &DOC_FIELDS) {
        if let Some(doc) = doc_from_fields(&f) {
            return Ok(doc);
        }
    }
    Err(why_no_document(v, &DOC_FIELDS, "struct ConfigDoc"))
}

} // verus!
