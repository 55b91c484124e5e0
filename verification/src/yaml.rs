//! YAML documents as plain values, and the outside reader and writer.

use vstd::prelude::*;

use crate::text::{
    cat3, chars_of, debug_text, is_space, owned, quoted, same, text_of, trimmed,
};

verus! {

/// `serde_yaml::Number`, carried through unread.
#[verifier::external_type_specification]
#[verifier::external_body]
pub struct ExYamlNumber(serde_yaml::Number);

/// `serde_yaml::Value`, the outside document tree.
#[verifier::external_type_specification]
#[verifier::external_body]
pub struct ExYamlValue(serde_yaml::Value);

/// `serde_yaml::Error`, what a failed read or write reports.
#[verifier::external_type_specification]
#[verifier::external_body]
pub struct ExYamlError(serde_yaml::Error);

/// What an outside number is as an unsigned integer.
pub uninterp spec fn yaml_unsigned(n: serde_yaml::Number) -> Option<u64>;

/// What an outside number is as a signed integer.
pub uninterp spec fn yaml_signed(n: serde_yaml::Number) -> Option<i64>;

/// How a number with a fraction is called, with its digits.
pub uninterp spec fn fraction_text(n: serde_yaml::Number) -> Seq<char>;

/// Whether two numbers with a fraction are equal.
pub uninterp spec fn same_fraction(m: serde_yaml::Number, n: serde_yaml::Number) -> bool;

/// `serde_yaml::Number::clone`: the clone is the same number.
pub assume_specification[ <serde_yaml::Number as Clone>::clone ](
    n: &serde_yaml::Number,
) -> (r: serde_yaml::Number)
    ensures
        r == *n,
;

/// `serde_yaml::Number::as_u64`: the number as an unsigned integer, where it is
/// one. Which numbers are is left to the outside crate.
pub assume_specification[ serde_yaml::Number::as_u64 ](n: &serde_yaml::Number) -> (r: Option<u64>)
    ensures
        r == yaml_unsigned(*n),
;

/// `serde_yaml::Number::as_i64`: the number as a signed integer, where it is one
/// that fits. Which numbers are is left to the outside crate.
pub assume_specification[ serde_yaml::Number::as_i64 ](n: &serde_yaml::Number) -> (r: Option<i64>)
    ensures
        r == yaml_signed(*n),
;

/// A YAML node. The entries of a mapping keep their order; a tag is written
/// with its leading `!`.
#[derive(Debug, PartialEq)]
pub enum Yaml {
    Null,
    Bool(bool),
    Number(serde_yaml::Number),
    Text(String),
    Sequence(Vec<Yaml>),
    Mapping(Vec<(Yaml, Yaml)>),
    Tagged(String, Box<Yaml>),
}

/// What a [`Yaml`] says.
pub enum YamlView {
    Null,
    Bool(bool),
    Number(serde_yaml::Number),
    Text(Seq<char>),
    Sequence(Seq<YamlView>),
    Mapping(Seq<(YamlView, YamlView)>),
    Tagged(Seq<char>, Box<YamlView>),
}

/// What a node says.
pub open spec fn value_view(v: Yaml) -> YamlView
    decreases v,
{
    match v {
        Yaml::Null => YamlView::Null,
        Yaml::Bool(b) => YamlView::Bool(b),
        Yaml::Number(n) => YamlView::Number(n),
        Yaml::Text(s) => YamlView::Text(s@),
        Yaml::Sequence(items) => YamlView::Sequence(items_view(items@)),
        Yaml::Mapping(entries) => YamlView::Mapping(entries_view(entries@)),
        Yaml::Tagged(tag, inner) => YamlView::Tagged(tag@, Box::new(value_view(*inner))),
    }
}

/// What a list of nodes says.
pub open spec fn items_view(items: Seq<Yaml>) -> Seq<YamlView>
    decreases items,
{
    Seq::new(
        items.len(),
        |i: int|
            if 0 <= i < items.len() {
                value_view(items[i])
            } else {
                YamlView::Null
            },
    )
}

/// What a list of entries says.
pub open spec fn entries_view(entries: Seq<(Yaml, Yaml)>) -> Seq<(YamlView, YamlView)>
    decreases entries,
{
    Seq::new(
        entries.len(),
        |i: int|
            if 0 <= i < entries.len() {
                (value_view(entries[i].0), value_view(entries[i].1))
            } else {
                (YamlView::Null, YamlView::Null)
            },
    )
}

impl View for Yaml {
    type V = YamlView;

    open spec fn view(&self) -> YamlView {
        value_view(*self)
    }
}

/// The value of an optional node.
pub open spec fn value_opt(v: Option<Yaml>) -> Option<YamlView> {
    match v {
        Some(value) => Some(value@),
        None => None,
    }
}

/// The node under any tags.
pub open spec fn untagged(v: YamlView) -> YamlView
    decreases v,
{
    match v {
        YamlView::Tagged(_, inner) => untagged(*inner),
        _ => v,
    }
}

/// Every tag of a node holds more than nothing.
pub open spec fn tags_named(v: YamlView) -> bool
    decreases v,
{
    match v {
        YamlView::Sequence(items) => forall|i: int|
            0 <= i < items.len() ==> tags_named(#[trigger] items[i]),
        YamlView::Mapping(entries) => forall|i: int|
            0 <= i < entries.len() ==> tags_named((#[trigger] entries[i]).0) && tags_named(
                entries[i].1,
            ),
        YamlView::Tagged(tag, inner) => tag.len() > 0 && tags_named(*inner),
        _ => true,
    }
}

/// A tag without the `!` in front of its name.
pub open spec fn bare(tag: Seq<char>) -> Seq<char> {
    if tag.len() > 1 && tag[0] == '!' {
        tag.skip(1)
    } else {
        tag
    }
}

/// Whether two numbers are one: integers by what they are worth; fractions as
/// [`same_fraction`] has it.
pub open spec fn same_number(m: serde_yaml::Number, n: serde_yaml::Number) -> bool {
    if yaml_unsigned(m) is Some || yaml_unsigned(n) is Some {
        yaml_unsigned(m) == yaml_unsigned(n)
    } else if yaml_signed(m) is Some || yaml_signed(n) is Some {
        yaml_signed(m) == yaml_signed(n)
    } else {
        m == n || same_fraction(m, n)
    }
}

/// Whether two nodes are one key of a mapping. The order of a mapping's entries does
/// not count.
pub open spec fn same_key(a: YamlView, b: YamlView) -> bool
    decreases a,
{
    match (a, b) {
        (YamlView::Null, YamlView::Null) => true,
        (YamlView::Bool(x), YamlView::Bool(y)) => x == y,
        (YamlView::Number(m), YamlView::Number(n)) => same_number(m, n),
        (YamlView::Text(s), YamlView::Text(t)) => s == t,
        (YamlView::Sequence(x), YamlView::Sequence(y)) => {
            &&& x.len() == y.len()
            &&& forall|i: int| 0 <= i < x.len() ==> same_key(#[trigger] x[i], y[i])
        },
        (YamlView::Mapping(x), YamlView::Mapping(y)) => {
            &&& x.len() == y.len()
            &&& forall|i: int| 0 <= i < x.len() ==> held_in(#[trigger] x[i], y)
        },
        (YamlView::Tagged(s, x), YamlView::Tagged(t, y)) => bare(s) == bare(t) && same_key(*x, *y),
        _ => false,
    }
}

/// Whether an entry is one of a mapping's.
pub open spec fn held_in(e: (YamlView, YamlView), entries: Seq<(YamlView, YamlView)>) -> bool
    decreases e,
{
    exists|j: int|
        0 <= j < entries.len() && same_key(e.0, (#[trigger] entries[j]).0) && same_key(
            e.1,
            entries[j].1,
        )
}

/// Whether no two keys of a mapping are one.
pub open spec fn told_apart(entries: Seq<(YamlView, YamlView)>) -> bool {
    forall|i: int, j: int|
        0 <= i < j < entries.len() ==> !same_key((#[trigger] entries[i]).0, (#[trigger] entries[j]).0)
}

/// Every mapping of a node has keys that are told apart, and every tag is a name
/// behind one `!`.
pub open spec fn plain(v: YamlView) -> bool
    decreases v,
{
    match v {
        YamlView::Sequence(items) => forall|i: int|
            0 <= i < items.len() ==> plain(#[trigger] items[i]),
        YamlView::Mapping(entries) => {
            &&& forall|i: int|
                0 <= i < entries.len() ==> plain((#[trigger] entries[i]).0) && plain(entries[i].1)
            &&& told_apart(entries)
        },
        YamlView::Tagged(tag, inner) => tag.len() > 1 && tag[0] == '!' && plain(*inner),
        _ => true,
    }
}

/// How many characters one text or one tag may have for [`gives_back`] to be known
/// of it. The writer counts columns in 31 bits; a character is escaped in ten columns
/// at most, or twelve in a tag, and a line holds one of each at most.
pub open spec fn known_length() -> nat {
    0x0400_0000
}

/// How deep a node may be for the reader to read it.
pub open spec fn known_depth() -> nat {
    128
}

/// A name behind one `!`, without the characters that the reader does not take
/// back in a tag: the writer leaves commas and brackets as they are, and ends a
/// tag at a NUL.
pub open spec fn tag_name(tag: Seq<char>) -> bool {
    &&& 1 < tag.len() <= known_length()
    &&& tag[0] == '!'
    &&& tag[1] != '!'
    &&& forall|i: int|
        1 <= i < tag.len() ==> #[trigger] tag[i] != '\0' && tag[i] != ',' && tag[i] != '['
            && tag[i] != ']'
}

/// Whether the writer keeps the start of a mapping that has no tag. It decides on
/// a mapping of one entry when it sees the key, and by then forgets it for a key
/// that is itself tagged or a mapping of one entry.
pub open spec fn started(entries: Seq<(YamlView, YamlView)>) -> bool {
    entries.len() == 1 ==> match entries[0].0 {
        YamlView::Mapping(inner) => inner.len() != 1,
        YamlView::Tagged(..) => false,
        _ => true,
    }
}

/// A node of nulls, booleans, numbers, texts, and sequences and mappings of these
/// under keys that are told apart, at most `levels` deep. Each may have one tag.
pub open spec fn tame(v: YamlView, levels: nat) -> bool {
    tame_under(v, levels, false)
}

/// Whether a node is tame, itself `tagged` or not.
pub open spec fn tame_under(v: YamlView, levels: nat, tagged: bool) -> bool
    decreases v,
{
    match v {
        YamlView::Text(s) => s.len() <= known_length(),
        YamlView::Sequence(items) => levels > 0 && forall|i: int|
            0 <= i < items.len() ==> tame_under(#[trigger] items[i], (levels - 1) as nat, false),
        YamlView::Mapping(entries) => {
            &&& levels > 0
            &&& forall|i: int|
                0 <= i < entries.len() ==> tame_under(
                    (#[trigger] entries[i]).0,
                    (levels - 1) as nat,
                    false,
                ) && tame_under(entries[i].1, (levels - 1) as nat, false)
            &&& told_apart(entries)
            &&& tagged || started(entries)
        },
        YamlView::Tagged(tag, inner) => !tagged && tag_name(tag) && tame_under(
            *inner,
            levels,
            true,
        ),
        _ => true,
    }
}

/// White space that the writer does not quote at the end of a text: a line feed,
/// and the spaces and separators beyond Latin-1's controls.
pub open spec fn soft(c: char) -> bool {
    is_space(c) && c != ' ' && c != '\t' && c != '\u{b}' && c != '\u{c}' && c != '\r' && c
        != '\u{85}'
}

/// Whether the text a node is written as does not end inside a text that ends in
/// soft white space.
pub open spec fn firm_end(v: YamlView) -> bool
    decreases v,
{
    match v {
        YamlView::Text(s) => s.len() == 0 || !soft(s.last()),
        YamlView::Sequence(items) => items.len() == 0 || firm_end(items[items.len() - 1]),
        YamlView::Mapping(entries) => entries.len() == 0 || firm_end(entries[entries.len() - 1].1),
        YamlView::Tagged(_, inner) => firm_end(*inner),
        _ => true,
    }
}

/// Whether the text a node is written as does not start with a text that starts
/// with soft white space.
pub open spec fn firm_start(v: YamlView) -> bool
    decreases v,
{
    match v {
        YamlView::Text(s) => s.len() == 0 || !soft(s[0]),
        YamlView::Mapping(entries) => entries.len() == 0 || (entries[0].0 matches YamlView::Text(
            s,
        ) ==> s.len() == 0 || !soft(s[0])),
        _ => true,
    }
}

/// Whether the text a node is written as loses nothing with the white space
/// around it.
pub open spec fn firm(v: YamlView) -> bool {
    firm_start(v) && firm_end(v)
}

/// Whether a node reads back from the text it is written as, stripped of the
/// white space around it.
pub open spec fn durable(v: YamlView) -> bool {
    tame(v, known_depth()) && firm(v)
}

/// A tame node has keys that are told apart, and named tags.
pub proof fn lemma_tame_is_plain(v: YamlView, levels: nat, tagged: bool)
    requires
        tame_under(v, levels, tagged),
    ensures
        plain(v),
        tags_named(v),
    decreases v,
{
    match v {
        YamlView::Sequence(items) => {
            assert forall|i: int| 0 <= i < items.len() implies plain(#[trigger] items[i])
                && tags_named(items[i]) by {
                lemma_tame_is_plain(items[i], (levels - 1) as nat, false);
            }
        },
        YamlView::Mapping(entries) => {
            assert forall|i: int| 0 <= i < entries.len() implies plain(
                (#[trigger] entries[i]).0,
            ) && plain(entries[i].1) && tags_named(entries[i].0) && tags_named(entries[i].1) by {
                assert(decreases_to!(v => entries[i]));
                lemma_tame_is_plain(entries[i].0, (levels - 1) as nat, false);
                lemma_tame_is_plain(entries[i].1, (levels - 1) as nat, false);
            }
        },
        YamlView::Tagged(_, inner) => {
            lemma_tame_is_plain(*inner, levels, true);
        },
        _ => {},
    }
}

/// The value under the text key `key`, where there is one: the first.
pub open spec fn entry(entries: Seq<(YamlView, YamlView)>, key: Seq<char>) -> Option<YamlView>
    decreases entries.len(),
{
    if entries.len() == 0 {
        None
    } else if entries[0].0 == YamlView::Text(key) {
        Some(entries[0].1)
    } else {
        entry(entries.skip(1), key)
    }
}

impl YamlView {
    /// The value a mapping holds under the text key `key`.
    pub open spec fn field(self, key: Seq<char>) -> Option<YamlView> {
        match self {
            YamlView::Mapping(entries) => entry(entries, key),
            _ => None,
        }
    }

    /// The kind of a node, as messages name it.
    pub open spec fn kind(self) -> Seq<char> {
        match self {
            YamlView::Null => "null"@,
            YamlView::Bool(_) => "bool"@,
            YamlView::Number(_) => "number"@,
            YamlView::Text(_) => "string"@,
            YamlView::Sequence(_) => "sequence"@,
            YamlView::Mapping(_) => "mapping"@,
            YamlView::Tagged(..) => "tagged"@,
        }
    }
}

impl Yaml {
    /// A text node.
    pub fn text(s: &str) -> (r: Yaml)
        ensures
            r@ == YamlView::Text(s@),
    {
        Yaml::Text(owned(s))
    }

    /// The node as text.
    pub fn as_str(&self) -> (r: Option<&str>)
        ensures
            match r {
                Some(s) => self@ == YamlView::Text(s@),
                None => !(self@ is Text),
            },
    {
        match self {
            Yaml::Text(s) => Some(s.as_str()),
            _ => None,
        }
    }

    /// The value a mapping holds under the text key `key`.
    pub fn get(&self, key: &str) -> (r: Option<&Yaml>)
        ensures
            match r {
                Some(v) => self@.field(key@) == Some(v@),
                None => self@.field(key@) is None,
            },
    {
        match self {
            Yaml::Mapping(entries) => {
                let ghost all = entries_view(entries@);
                assert(all.skip(0) =~= all);
                let mut i: usize = 0;
                while i < entries.len()
                    invariant
                        i <= entries@.len(),
                        all == entries_view(entries@),
                        self@ == YamlView::Mapping(all),
                        entry(all, key@) == entry(all.skip(i as int), key@),
                    decreases entries@.len() - i,
                {
                    assert(all.skip(i as int)[0] == all[i as int]);
                    assert(all.skip(i as int).skip(1) =~= all.skip(i + 1));
                    if let Some(name) = entries[i].0.as_str() {
                        if same(name, key) {
                            return Some(&entries[i].1);
                        }
                    }
                    i = i + 1;
                }
                None
            },
            _ => None,
        }
    }

    /// The node under any tags.
    pub fn untag(&self) -> (r: &Yaml)
        ensures
            r@ == untagged(self@),
        decreases self,
    {
        match self {
            Yaml::Tagged(_, inner) => inner.untag(),
            _ => self,
        }
    }

    /// The kind of a node, as messages name it.
    pub fn kind(&self) -> (r: &'static str)
        ensures
            r@ == self@.kind(),
    {
        match self {
            Yaml::Null => "null",
            Yaml::Bool(_) => "bool",
            Yaml::Number(_) => "number",
            Yaml::Text(_) => "string",
            Yaml::Sequence(_) => "sequence",
            Yaml::Mapping(_) => "mapping",
            Yaml::Tagged(..) => "tagged",
        }
    }

    /// Whether this node and another are one key of a mapping.
    pub fn same_key(&self, other: &Yaml) -> (r: bool)
        ensures
            r == same_key(self@, other@),
        decreases self,
    {
        match (self, other) {
            (Yaml::Null, Yaml::Null) => true,
            (Yaml::Bool(x), Yaml::Bool(y)) => *x == *y,
            (Yaml::Number(m), Yaml::Number(n)) => equal_numbers(m, n),
            (Yaml::Text(s), Yaml::Text(t)) => same(s.as_str(), t.as_str()),
            (Yaml::Sequence(x), Yaml::Sequence(y)) => {
                let ghost a = items_view(x@);
                let ghost b = items_view(y@);
                assert(self@ == YamlView::Sequence(a) && other@ == YamlView::Sequence(b));
                if x.len() != y.len() {
                    return false;
                }
                for i in 0..x.len()
                    invariant
                        x@.len() == y@.len(),
                        a == items_view(x@),
                        b == items_view(y@),
                        self@ == YamlView::Sequence(a),
                        other@ == YamlView::Sequence(b),
                        decreases_to!(self => x),
                        forall|k: int| 0 <= k < i ==> same_key(#[trigger] a[k], b[k]),
                {
                    assert(a[i as int] == x@[i as int]@ && b[i as int] == y@[i as int]@);
                    if !x[i].same_key(&y[i]) {
                        assert(!same_key(self@->Sequence_0[i as int], other@->Sequence_0[i as int]));
                        return false;
                    }
                }
                true
            },
            (Yaml::Mapping(x), Yaml::Mapping(y)) => {
                let ghost a = entries_view(x@);
                let ghost b = entries_view(y@);
                assert(self@ == YamlView::Mapping(a) && other@ == YamlView::Mapping(b));
                if x.len() != y.len() {
                    return false;
                }
                for i in 0..x.len()
                    invariant
                        x@.len() == y@.len(),
                        a == entries_view(x@),
                        b == entries_view(y@),
                        self@ == YamlView::Mapping(a),
                        other@ == YamlView::Mapping(b),
                        decreases_to!(self => x),
                        forall|k: int| 0 <= k < i ==> held_in(#[trigger] a[k], b),
                {
                    assert(decreases_to!(self => x@[i as int]));
                    assert(a[i as int] == (x@[i as int].0@, x@[i as int].1@));
                    let mut held = false;
                    for j in 0..y.len()
                        invariant
                            i < x@.len(),
                            b == entries_view(y@),
                            a[i as int] == (x@[i as int].0@, x@[i as int].1@),
                            decreases_to!(self => x@[i as int]),
                            held == exists|k: int|
                                0 <= k < j && same_key(a[i as int].0, (#[trigger] b[k]).0)
                                    && same_key(a[i as int].1, b[k].1),
                    {
                        assert(b[j as int] == (y@[j as int].0@, y@[j as int].1@));
                        if x[i].0.same_key(&y[j].0) && x[i].1.same_key(&y[j].1) {
                            held = true;
                        }
                    }
                    if !held {
                        assert(!held_in(self@->Mapping_0[i as int], b));
                        return false;
                    }
                }
                true
            },
            (Yaml::Tagged(s, x), Yaml::Tagged(t, y)) => {
                let a = bare_tag(s.as_str());
                let b = bare_tag(t.as_str());
                same(a.as_str(), b.as_str()) && x.same_key(y)
            },
            _ => false,
        }
    }

    /// Every tag of this node holds more than nothing.
    fn has_named_tags(&self) -> (r: bool)
        ensures
            r == tags_named(self@),
        decreases self,
    {
        match self {
            Yaml::Sequence(items) => {
                let ghost all = items_view(items@);
                for i in 0..items.len()
                    invariant
                        all == items_view(items@),
                        self@ == YamlView::Sequence(all),
                        decreases_to!(self => items),
                        forall|k: int| 0 <= k < i ==> tags_named(#[trigger] all[k]),
                {
                    assert(all[i as int] == items@[i as int]@);
                    if !items[i].has_named_tags() {
                        assert(!tags_named(self@->Sequence_0[i as int]));
                        return false;
                    }
                }
                true
            },
            Yaml::Mapping(entries) => {
                let ghost all = entries_view(entries@);
                for i in 0..entries.len()
                    invariant
                        all == entries_view(entries@),
                        self@ == YamlView::Mapping(all),
                        decreases_to!(self => entries),
                        forall|k: int|
                            0 <= k < i ==> tags_named((#[trigger] all[k]).0) && tags_named(
                                all[k].1,
                            ),
                {
                    assert(decreases_to!(self => entries@[i as int]));
                    assert(all[i as int] == (entries@[i as int].0@, entries@[i as int].1@));
                    if !entries[i].0.has_named_tags() || !entries[i].1.has_named_tags() {
                        let ghost e = self@->Mapping_0[i as int];
                        assert(!tags_named(e.0) || !tags_named(e.1));
                        return false;
                    }
                }
                true
            },
            Yaml::Tagged(tag, inner) => {
                chars_of(tag.as_str()).len() > 0 && inner.has_named_tags()
            },
            _ => true,
        }
    }

    /// A node, as messages show it.
    pub fn show(&self) -> (r: String)
        ensures
            r@ == shown(self@),
    {
        match self {
            Yaml::Text(s) => {
                let q = quoted(s.as_str());
                cat3("String(", q.as_str(), ")")
            },
            _ => {
                if self.has_named_tags() {
                    yaml_debug(&yaml_out(self))
                } else {
                    owned(self.kind())
                }
            },
        }
    }

    /// A copy of this node.
    pub fn copy(&self) -> (r: Yaml)
        ensures
            r@ == self@,
        decreases self,
    {
        match self {
            Yaml::Null => Yaml::Null,
            Yaml::Bool(b) => Yaml::Bool(*b),
            Yaml::Number(n) => Yaml::Number(n.clone()),
            Yaml::Text(s) => Yaml::Text(s.clone()),
            Yaml::Sequence(items) => {
                let mut out: Vec<Yaml> = Vec::new();
                for i in 0..items.len()
                    invariant
                        out@.len() == i,
                        decreases_to!(self => items),
                        forall|k: int| 0 <= k < i ==> (#[trigger] out@[k])@ == items@[k]@,
                {
                    out.push(items[i].copy());
                }
                assert(items_view(out@) =~= items_view(items@));
                Yaml::Sequence(out)
            },
            Yaml::Mapping(entries) => {
                let mut out: Vec<(Yaml, Yaml)> = Vec::new();
                for i in 0..entries.len()
                    invariant
                        out@.len() == i,
                        decreases_to!(self => entries),
                        forall|k: int|
                            0 <= k < i ==> (#[trigger] out@[k]).0@ == entries@[k].0@ && out@[k].1@
                                == entries@[k].1@,
                {
                    assert(decreases_to!(self => entries@[i as int]));
                    out.push((entries[i].0.copy(), entries[i].1.copy()));
                }
                assert(entries_view(out@) =~= entries_view(entries@));
                Yaml::Mapping(out)
            },
            Yaml::Tagged(tag, inner) => Yaml::Tagged(tag.clone(), Box::new(inner.copy())),
        }
    }
}

// ---------------------------------------------------------------------------
// The outside reader and writer
// ---------------------------------------------------------------------------

/// What an outside document holds.
pub uninterp spec fn yaml_contents(v: serde_yaml::Value) -> YamlView;

/// What a text reads as, or why it does not read.
pub uninterp spec fn yaml_document(text: Seq<char>) -> Result<YamlView, Seq<char>>;

/// What a node becomes once the outside crate has built its mappings, which
/// hold equal keys once.
pub uninterp spec fn yaml_settled(v: YamlView) -> YamlView;

/// The text a node is written as, or `None` where the writer refuses it.
pub uninterp spec fn yaml_text(v: YamlView) -> Option<Seq<char>>;

/// The message of a failed read.
pub uninterp spec fn yaml_error_text(e: serde_yaml::Error) -> Seq<char>;

/// What a document is shown as.
pub uninterp spec fn yaml_debug_text(v: YamlView) -> Seq<char>;

/// `serde_yaml::from_str` into `serde_yaml::Value`: what a text reads as, or
/// the error, is a function of the text. Which texts read, and as what, is left
/// to the outside crate.
#[verifier::external_body]
fn yaml_parse(text: &str) -> (r: Result<serde_yaml::Value, serde_yaml::Error>)
    ensures
        match r {
            Ok(v) => yaml_document(text@) == Ok::<YamlView, Seq<char>>(yaml_contents(v)),
            Err(e) => yaml_document(text@) == Err::<YamlView, Seq<char>>(yaml_error_text(e)),
        },
{
    serde_yaml::from_str(text)
}

/// The `Display` impl of `serde_yaml::Error`.
#[verifier::external_body]
fn yaml_error(e: serde_yaml::Error) -> (r: String)
    ensures
        r@ == yaml_error_text(e),
{
    e.to_string()
}

/// The `Display` impl of `serde::de::Unexpected`, on the float that
/// `serde_yaml::Number::as_f64` gives of every number: a function of the number. Its
/// digits are left unsaid.
#[verifier::external_body]
pub(crate) fn fraction(n: &serde_yaml::Number) -> (r: String)
    ensures
        r@ == fraction_text(*n),
{
    serde::de::Unexpected::Float(n.as_f64().unwrap_or_default()).to_string()
}

/// The `PartialEq` impl of `serde_yaml::Number`, on fractions: a number equals itself;
/// which others it equals (two zeros are one) is left to the outside crate.
#[verifier::external_body]
fn equal_fractions(m: &serde_yaml::Number, n: &serde_yaml::Number) -> (r: bool)
    ensures
        r == (*m == *n || same_fraction(*m, *n)),
{
    m == n
}

fn equal_numbers(m: &serde_yaml::Number, n: &serde_yaml::Number) -> (r: bool)
    ensures
        r == same_number(*m, *n),
{
    match (m.as_u64(), n.as_u64()) {
        (Some(x), Some(y)) => x == y,
        (None, None) => match (m.as_i64(), n.as_i64()) {
            (Some(x), Some(y)) => x == y,
            (None, None) => equal_fractions(m, n),
            _ => false,
        },
        _ => false,
    }
}

/// The `Debug` impl of `serde_yaml::Value` (through `format!`): a function of what the
/// value holds.
#[verifier::external_body]
fn yaml_debug(v: &serde_yaml::Value) -> (r: String)
    ensures
        r@ == yaml_debug_text(yaml_contents(*v)),
{
    format!("{v:?}")
}

/// Moves a `serde_yaml::Value` into a [`Yaml`], variant by variant. Its tags
/// are as `serde_yaml::value::Tag` displays them, behind a `!`, and its mappings
/// hold no key twice already.
#[verifier::external_body]
fn yaml_in(v: serde_yaml::Value) -> (r: Yaml)
    ensures
        r@ == yaml_contents(v),
        tags_named(r@),
        yaml_settled(r@) == r@,
{
    match v {
        serde_yaml::Value::Null => Yaml::Null,
        serde_yaml::Value::Bool(b) => Yaml::Bool(b),
        serde_yaml::Value::Number(n) => Yaml::Number(n),
        serde_yaml::Value::String(s) => Yaml::Text(s),
        serde_yaml::Value::Sequence(a) => Yaml::Sequence(a.into_iter().map(yaml_in).collect()),
        serde_yaml::Value::Mapping(m) => {
            Yaml::Mapping(m.into_iter().map(|(k, v)| (yaml_in(k), yaml_in(v))).collect())
        }
        serde_yaml::Value::Tagged(t) => Yaml::Tagged(t.tag.to_string(), Box::new(yaml_in(t.value))),
    }
}

/// Moves a [`Yaml`] into a `serde_yaml::Value`, variant by variant. Where the keys of
/// every mapping are told apart, nothing is lost: a `serde_yaml::Mapping` takes keys
/// for one where they are equal, as [`same_key`] has it.
/// `serde_yaml::value::Tag::new` panics on an empty tag.
#[verifier::external_body]
fn yaml_out(v: &Yaml) -> (r: serde_yaml::Value)
    requires
        tags_named(v@),
    ensures
        yaml_contents(r) == yaml_settled(v@),
        plain(v@) ==> yaml_contents(r) == v@,
{
    match v {
        Yaml::Null => serde_yaml::Value::Null,
        Yaml::Bool(b) => (*b).into(),
        Yaml::Number(n) => serde_yaml::Value::Number(n.clone()),
        Yaml::Text(s) => s.as_str().into(),
        Yaml::Sequence(a) => a.iter().map(yaml_out).collect(),
        Yaml::Mapping(m) => serde_yaml::Value::Mapping(
            m.iter().map(|(k, v)| (yaml_out(k), yaml_out(v))).collect()),
        Yaml::Tagged(t, v) => {
            let tag = serde_yaml::value::Tag::new(t.as_str());
            let tagged = serde_yaml::value::TaggedValue { tag, value: yaml_out(v) };
            serde_yaml::Value::Tagged(Box::new(tagged))
        }
    }
}

/// Whether a text reads as `v`: with the white space around it and, where `v` is
/// firm, without.
pub open spec fn gives_back(text: Seq<char>, v: YamlView) -> bool {
    &&& yaml_document(text) == Ok::<YamlView, Seq<char>>(v)
    &&& firm(v) ==> trimmed(text).len() > 0 && yaml_document(trimmed(text)) == Ok::<
        YamlView,
        Seq<char>,
    >(v)
}

/// `serde_yaml::to_string`: the text, or the refusal, is a function of what the
/// document holds. A tame node is always written, and reads back as it was: the
/// writer quotes every one-line text that the reader would take for something
/// else, escapes what is not printable in double quotes, and writes a text of
/// several lines as a literal block, or in double quotes where a line ends in a
/// blank or holds a control character; a key that is long, of several lines or a
/// collection stands behind a `?`; a number is written with as many digits as it
/// takes to tell it from every other; a tag is written with what a URI does not
/// hold escaped. Of other nodes (tags of tags, tags with characters that the reader
/// does not take, keys that are one, a mapping of one entry
/// without a tag whose key is tagged or a mapping of one entry, nodes deeper than the reader goes)
/// nothing is claimed.
#[verifier::external_body]
fn yaml_emit(v: &serde_yaml::Value) -> (r: Result<String, serde_yaml::Error>)
    ensures
        match r {
            Ok(s) => yaml_text(yaml_contents(*v)) == Some(s@),
            Err(_) => yaml_text(yaml_contents(*v)) is None,
        },
        tame(yaml_contents(*v), known_depth()) ==> r is Ok && gives_back(
            r->Ok_0@,
            yaml_contents(*v),
        ),
{
    serde_yaml::to_string(v)
}

/// A node, as messages show it. A tag without a name is in no document; a node that
/// holds one is shown by its kind.
pub open spec fn shown(v: YamlView) -> Seq<char> {
    match v {
        YamlView::Text(s) => "String("@ + debug_text(s) + ")"@,
        _ => if tags_named(v) {
            yaml_debug_text(yaml_settled(v))
        } else {
            v.kind()
        },
    }
}

fn bare_tag(tag: &str) -> (r: String)
    ensures
        r@ == bare(tag@),
{
    let cs = chars_of(tag);
    if cs.len() > 1 && cs[0] == '!' {
        let r = text_of(&cs, 1, cs.len());
        assert(r@ =~= tag@.skip(1));
        r
    } else {
        owned(tag)
    }
}

/// What `text` reads as; every node that was read can be written again as it
/// stands.
pub open spec fn read(text: Seq<char>) -> Result<YamlView, Seq<char>> {
    yaml_document(text)
}

/// What `v` is written as.
pub open spec fn written(v: YamlView) -> Option<Seq<char>> {
    yaml_text(yaml_settled(v))
}

impl Yaml {
    /// Read a document.
    pub fn parse(text: &str) -> (r: Result<Yaml, String>)
        ensures
            match r {
                Ok(v) => read(text@) == Ok::<YamlView, Seq<char>>(v@) && tags_named(v@)
                    && written(v@) == yaml_text(v@),
                Err(e) => read(text@) == Err::<YamlView, Seq<char>>(e@),
            },
    {
        match yaml_parse(text) {
            Ok(v) => Ok(yaml_in(v)),
            Err(e) => Err(yaml_error(e)),
        }
    }

    /// Write a document, where the writer takes it.
    pub fn emit(&self) -> (r: Option<String>)
        requires
            tags_named(self@),
        ensures
            match r {
                Some(s) => written(self@) == Some(s@),
                None => written(self@) is None,
            },
            plain(self@) ==> written(self@) == yaml_text(self@),
            tame(self@, known_depth()) ==> r is Some && gives_back(r->Some_0@, self@),
    {
        let v = yaml_out(self);
        proof {
            if tame(self@, known_depth()) {
                lemma_tame_is_plain(self@, known_depth(), false);
            }
        }
        match yaml_emit(&v) {
            Ok(s) => Some(s),
            Err(_) => None,
        }
    }
}

} // verus!
