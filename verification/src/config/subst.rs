//! Substitution: `${env:NAME}` and `${home}/path`, and nothing else.
//!
//! There is no arithmetic, no condition, no call and no way to compute one
//! value from another, so expansion is a pure function of the document, the
//! environment and the home directory, and every failure is a typed error that
//! names the offending expression.

use vstd::prelude::*;

use crate::assoc::Assoc;
use crate::config::error::{fault, settled, ConfigError, ConfigErrorView, Stage};
use crate::text::{
    cat, cat3, cat4, cat5, chars_at, chars_of, debug_text, occurs, occurs_at, owned, quoted, same,
    text_of, text_opt,
};
use crate::yaml::{
    entries_view, items_view, plain, same_key, shown, tags_named, told_apart, Yaml, YamlView,
};

verus! {

// ---------------------------------------------------------------------------
// What an expression means
// ---------------------------------------------------------------------------

/// The environment and home a document expands against.
pub struct SubstView {
    pub env: Map<Seq<char>, Seq<char>>,
    pub home: Option<Seq<char>>,
}

/// The first place at or after `from` where `needle` stands in `hay`.
pub open spec fn first_at(hay: Seq<char>, needle: Seq<char>, from: int) -> Option<int>
    decreases hay.len() - from,
{
    if from < 0 || from + needle.len() > hay.len() {
        None
    } else if occurs_at(hay, needle, from) {
        Some(from)
    } else if from >= hay.len() {
        None
    } else {
        first_at(hay, needle, from + 1)
    }
}

/// What `first_at` finds is there, and nothing stands before it.
pub proof fn lemma_first_at(hay: Seq<char>, needle: Seq<char>, from: int)
    requires
        0 <= from,
    ensures
        match first_at(hay, needle, from) {
            Some(at) => from <= at && occurs_at(hay, needle, at) && forall|k: int|
                from <= k < at ==> !#[trigger] occurs_at(hay, needle, k),
            None => forall|k: int| from <= k ==> !#[trigger] occurs_at(hay, needle, k),
        },
    decreases hay.len() - from,
{
    if from + needle.len() > hay.len() {
    } else if occurs_at(hay, needle, from) {
    } else if from >= hay.len() {
    } else {
        lemma_first_at(hay, needle, from + 1);
    }
}

/// An `unknown-substitution` failure naming the expression and the reason.
pub open spec fn unknown_fault(whole: Seq<char>, reason: Seq<char>) -> ConfigErrorView {
    fault(
        Stage::Substitute,
        "unknown-substitution"@,
        "unsupported expression "@ + debug_text(whole) + ": "@ + reason,
    )
}

/// A key as it was written: a text as it stands, any other node as it is shown.
pub open spec fn written_key(key: YamlView) -> Seq<char> {
    match key {
        YamlView::Text(s) => s,
        _ => shown(key),
    }
}

/// A `substitution-key-collision` failure: two keys expand to one.
pub open spec fn collision_fault(original: YamlView, expanded: YamlView) -> ConfigErrorView {
    fault(
        Stage::Substitute,
        "substitution-key-collision"@,
        "expanding key "@ + debug_text(written_key(original)) + " yields "@ + debug_text(
            shown(expanded),
        )
            + ", which the mapping already carries; a substituted key must not overwrite another entry"@,
    )
}

/// The failure of an expression that is never closed.
pub open spec fn unterminated_fault(whole: Seq<char>) -> ConfigErrorView {
    fault(
        Stage::Substitute,
        "bad-substitution"@,
        "unterminated substitution expression "@ + debug_text(whole),
    )
}

impl SubstView {
    /// The value of a variable.
    pub open spec fn variable(self, name: Seq<char>, whole: Seq<char>) -> Result<
        Seq<char>,
        ConfigErrorView,
    > {
        if name.len() == 0 {
            Err(unknown_fault(whole, "env requires a variable name"@))
        } else if self.env.contains_key(name) {
            Ok(self.env[name])
        } else {
            Err(
                fault(
                    Stage::Substitute,
                    "missing-env"@,
                    "environment variable "@ + debug_text(name) + " is not set (in expression "@
                        + debug_text(whole) + ")"@,
                ),
            )
        }
    }

    /// The home directory with a path behind it.
    pub open spec fn home_path(self, suffix: Seq<char>, whole: Seq<char>) -> Result<
        Seq<char>,
        ConfigErrorView,
    > {
        if suffix.len() > 0 && suffix[0] != '/' {
            Err(unknown_fault(whole, "${home} takes no argument; use ${home}/path"@))
        } else {
            match self.home {
                Some(home) => Ok(home + suffix),
                None => Err(
                    fault(
                        Stage::Substitute,
                        "missing-home"@,
                        "home directory is unknown (in expression "@ + debug_text(whole) + ")"@,
                    ),
                ),
            }
        }
    }

    /// What the body of one expression stands for: `env:NAME`, or `home` alone
    /// or with a path behind a colon.
    pub open spec fn expression(self, expr: Seq<char>, whole: Seq<char>) -> Result<
        Seq<char>,
        ConfigErrorView,
    > {
        let colon = first_at(expr, seq![':'], 0);
        let func = match colon {
            Some(at) => expr.take(at),
            None => expr,
        };
        if func == "env"@ && colon is Some {
            self.variable(expr.skip(colon->Some_0 + 1), whole)
        } else if func == "home"@ {
            match colon {
                Some(at) => self.home_path(expr.skip(at + 1), whole),
                None => self.home_path(Seq::empty(), whole),
            }
        } else {
            Err(unknown_fault(whole, "unknown substitution function "@ + debug_text(func)))
        }
    }

    /// What `rest`, a tail of `whole`, expands to: the text up to the first
    /// `${`, the value of the expression up to the next `}`, and what is left,
    /// expanded in turn.
    pub open spec fn expanded(self, rest: Seq<char>, whole: Seq<char>) -> Result<
        Seq<char>,
        ConfigErrorView,
    >
        decreases rest.len(),
    {
        match first_at(rest, seq!['$', '{'], 0) {
            None => Ok(rest),
            Some(open) => match first_at(rest, seq!['}'], open) {
                None => Err(unterminated_fault(whole)),
                Some(close) => match self.expression(rest.subrange(open + 2, close), whole) {
                    Err(e) => Err(e),
                    Ok(value) => {
                        proof {
                            lemma_first_at(rest, seq!['$', '{'], 0);
                            lemma_first_at(rest, seq!['}'], open);
                        }
                        match self.expanded(rest.skip(close + 1), whole) {
                            Err(e) => Err(e),
                            Ok(tail) => Ok(rest.take(open) + value + tail),
                        }
                    },
                },
            },
        }
    }

    /// What a string expands to.
    pub open spec fn text(self, s: Seq<char>) -> Result<Seq<char>, ConfigErrorView> {
        self.expanded(s, s)
    }

    /// What a document expands to: every string scalar in it is expanded, in values,
    /// items and keys, and nothing else changes.
    pub open spec fn document(self, v: YamlView) -> Result<YamlView, ConfigErrorView>
        decreases v,
    {
        match v {
            YamlView::Text(s) => match self.text(s) {
                Ok(t) => Ok(YamlView::Text(t)),
                Err(e) => Err(e),
            },
            YamlView::Sequence(items) => match self.items(items) {
                Ok(r) => Ok(YamlView::Sequence(r)),
                Err(e) => Err(e),
            },
            YamlView::Mapping(entries) => match self.entries(entries) {
                Ok(r) => Ok(YamlView::Mapping(r)),
                Err(e) => Err(e),
            },
            YamlView::Tagged(tag, inner) => match self.document(*inner) {
                Ok(r) => Ok(YamlView::Tagged(tag, Box::new(r))),
                Err(e) => Err(e),
            },
            _ => Ok(v),
        }
    }

    /// What the items of a sequence expand to, in order.
    pub open spec fn items(self, items: Seq<YamlView>) -> Result<Seq<YamlView>, ConfigErrorView>
        decreases items,
    {
        if items.len() == 0 {
            Ok(Seq::empty())
        } else {
            match self.items(items.drop_last()) {
                Err(e) => Err(e),
                Ok(done) => match self.document(items.last()) {
                    Err(e) => Err(e),
                    Ok(item) => Ok(done.push(item)),
                },
            }
        }
    }

    /// What the entries of a mapping expand to, in order: the key, the value,
    /// and a failure where an earlier entry already has the key.
    pub open spec fn entries(self, entries: Seq<(YamlView, YamlView)>) -> Result<
        Seq<(YamlView, YamlView)>,
        ConfigErrorView,
    >
        decreases entries,
    {
        if entries.len() == 0 {
            Ok(Seq::empty())
        } else {
            match self.entries(entries.drop_last()) {
                Err(e) => Err(e),
                Ok(done) => match self.document(entries.last().0) {
                    Err(e) => Err(e),
                    Ok(key) => match self.document(entries.last().1) {
                        Err(e) => Err(e),
                        Ok(value) => if carries(done, key) {
                            Err(collision_fault(entries.last().0, key))
                        } else {
                            Ok(done.push((key, value)))
                        },
                    },
                },
            }
        }
    }
}

/// Whether some entry has the key `key`.
pub open spec fn carries(entries: Seq<(YamlView, YamlView)>, key: YamlView) -> bool {
    exists|i: int| 0 <= i < entries.len() && same_key((#[trigger] entries[i]).0, key)
}

// ---------------------------------------------------------------------------
// Expanding
// ---------------------------------------------------------------------------

/// The environment and home a document expands against.
pub struct Subst {
    /// Environment variables, keyed by name.
    pub env: Assoc<String, String>,
    /// The directory `${home}` expands to.
    pub home: Option<String>,
}

impl View for Subst {
    type V = SubstView;

    open spec fn view(&self) -> SubstView {
        SubstView {
            env: self.env@.map_values(|v: String| v@),
            home: text_opt(self.home),
        }
    }
}

fn unknown(whole: &str, reason: &str) -> (r: ConfigError)
    ensures
        r@ == unknown_fault(whole@, reason@),
{
    let q = quoted(whole);
    ConfigError::new(
        Stage::Substitute,
        "unknown-substitution",
        cat4("unsupported expression ", q.as_str(), ": ", reason),
    )
}

fn collision(original: &Yaml, expanded: &Yaml) -> (r: ConfigError)
    ensures
        r@ == collision_fault(original@, expanded@),
{
    let from = match original {
        Yaml::Text(s) => quoted(s.as_str()),
        _ => quoted(original.show().as_str()),
    };
    let to = quoted(expanded.show().as_str());
    ConfigError::new(
        Stage::Substitute,
        "substitution-key-collision",
        cat5(
            "expanding key ",
            from.as_str(),
            " yields ",
            to.as_str(),
            ", which the mapping already carries; a substituted key must not overwrite another entry",
        ),
    )
}

/// The first place at or after `from` where `needle` stands in `hay`.
fn find_from(hay: &Vec<char>, needle: &Vec<char>, from: usize) -> (r: Option<usize>)
    requires
        needle@.len() > 0,
        from <= hay@.len(),
    ensures
        match r {
            Some(at) => at < hay.len() && first_at(hay@, needle@, from as int) == Some(at as int),
            None => first_at(hay@, needle@, from as int) is None,
        },
{
    let mut at: usize = from;
    while at < hay.len()
        invariant
            needle@.len() > 0,
            from <= at <= hay@.len(),
            first_at(hay@, needle@, from as int) == first_at(hay@, needle@, at as int),
        decreases hay@.len() - at,
    {
        if chars_at(hay, needle, at) {
            return Some(at);
        }
        at = at + 1;
    }
    None
}

/// `out` in front of an expansion.
spec fn behind(out: Seq<char>, r: Result<Seq<char>, ConfigErrorView>) -> Result<
    Seq<char>,
    ConfigErrorView,
> {
    match r {
        Ok(s) => Ok(out + s),
        Err(e) => Err(e),
    }
}

impl Subst {
    /// An empty substitution context: no variables, no home.
    pub fn new() -> (r: Subst)
        ensures
            r@.env == Map::<Seq<char>, Seq<char>>::empty(),
            r@.home is None,
    {
        let r = Subst { env: Assoc::new(), home: None };
        assert(r@.env =~= Map::<Seq<char>, Seq<char>>::empty());
        r
    }

    /// Add one variable.
    pub fn with_env(self, name: String, value: String) -> (r: Subst)
        ensures
            r@.env == self@.env.insert(name@, value@),
            r@.home == self@.home,
    {
        let mut next = self;
        next.env.insert(name, value);
        assert(next@.env =~= self@.env.insert(name@, value@));
        next
    }

    /// Set the home directory.
    pub fn with_home(self, home: String) -> (r: Subst)
        ensures
            r@.env == self@.env,
            r@.home == Some(home@),
    {
        let mut next = self;
        next.home = Some(home);
        next
    }

    /// Expand one string.
    pub fn expand_str(&self, input: &str) -> (r: Result<String, ConfigError>)
        ensures
            settled(r) == self@.text(input@),
    {
        let cs = chars_of(input);
        let mut dollar: Vec<char> = Vec::new();
        dollar.push('$');
        dollar.push('{');
        let mut brace: Vec<char> = Vec::new();
        brace.push('}');
        assert(dollar@ =~= seq!['$', '{']);
        assert(brace@ =~= seq!['}']);
        let mut out = String::new();
        let mut cursor: usize = 0;
        assert(cs@.skip(0) =~= cs@);
        proof {
            let all = self@.text(input@);
            if let Ok(s) = all {
                assert(Seq::<char>::empty() + s =~= s);
            }
        }
        loop
            invariant
                cs@ == input@,
                dollar@ == seq!['$', '{'],
                brace@ == seq!['}'],
                cursor <= cs@.len(),
                self@.text(input@) == behind(out@, self@.expanded(cs@.skip(cursor as int), input@)),
            decreases cs@.len() - cursor,
        {
            let ghost rest = cs@.skip(cursor as int);
            let found = find_from(&cs, &dollar, cursor);
            proof {
                lemma_shift(cs@, seq!['$', '{'], cursor as int, 0);
                lemma_first_at(rest, seq!['$', '{'], 0);
            }
            let open: usize = match found {
                Some(at) => at,
                None => {
                    let tail = text_of(&cs, cursor, cs.len());
                    assert(tail@ =~= rest);
                    out.append(tail.as_str());
                    return Ok(out);
                },
            };
            let ghost o: int = open - cursor;
            assert(occurs_at(rest, seq!['$', '{'], o));
            assert(rest.subrange(o, o + 2) =~= seq!['$', '{']);
            assert(rest[o] == rest.subrange(o, o + 2)[0]);
            assert(rest[o + 1] == rest.subrange(o, o + 2)[1]);
            let closing = find_from(&cs, &brace, open);
            proof {
                lemma_shift(cs@, seq!['}'], cursor as int, o);
                lemma_first_at(rest, seq!['}'], o);
            }
            let close: usize = match closing {
                Some(at) => at,
                None => {
                    let q = quoted(input);
                    return Err(
                        ConfigError::new(
                            Stage::Substitute,
                            "bad-substitution",
                            cat("unterminated substitution expression ", q.as_str()),
                        ),
                    );
                },
            };
            let ghost c: int = close - cursor;
            assert(occurs_at(rest, seq!['}'], c));
            assert(rest.subrange(c, c + 1) =~= seq!['}']);
            assert(rest[c] == rest.subrange(c, c + 1)[0]);
            assert(o + 2 <= c);
            let lead = text_of(&cs, cursor, open);
            assert(lead@ =~= rest.take(o));
            let expr = text_of(&cs, open + 2, close);
            assert(expr@ =~= rest.subrange(o + 2, c));
            let value = match self.expand_expr(expr.as_str(), input) {
                Ok(v) => v,
                Err(e) => {
                    return Err(e);
                },
            };
            let ghost before = out@;
            out.append(lead.as_str());
            out.append(value.as_str());
            cursor = close + 1;
            assert(rest.skip(c + 1) =~= cs@.skip(cursor as int));
            proof {
                if let Ok(tail) = self@.expanded(cs@.skip(cursor as int), input@) {
                    assert(before + (rest.take(o) + value@ + tail) =~= out@ + tail);
                }
            }
        }
    }

    /// Expand the body of one expression.
    fn expand_expr(&self, expr: &str, whole: &str) -> (r: Result<String, ConfigError>)
        ensures
            settled(r) == self@.expression(expr@, whole@),
    {
        let cs = chars_of(expr);
        let mut colon: Vec<char> = Vec::new();
        colon.push(':');
        assert(colon@ =~= seq![':']);
        let found = find_from(&cs, &colon, 0);
        proof {
            lemma_first_at(expr@, seq![':'], 0);
        }
        let func = match found {
            Some(at) => text_of(&cs, 0, at),
            None => owned(expr),
        };
        assert(match found {
            Some(at) => func@ =~= expr@.take(at as int),
            None => func@ == expr@,
        });
        if same(func.as_str(), "env") {
            if let Some(at) = found {
                let name = text_of(&cs, at + 1, cs.len());
                assert(name@ =~= expr@.skip(at + 1));
                return self.variable(name, whole);
            }
        }
        if same(func.as_str(), "home") {
            let suffix = match found {
                Some(at) => text_of(&cs, at + 1, cs.len()),
                None => String::new(),
            };
            assert(match found {
                Some(at) => suffix@ =~= expr@.skip(at + 1),
                None => suffix@ =~= Seq::empty(),
            });
            return self.home_path(suffix, whole);
        }
        let q = quoted(func.as_str());
        let reason = cat("unknown substitution function ", q.as_str());
        Err(unknown(whole, reason.as_str()))
    }

    /// The value of a variable.
    fn variable(&self, name: String, whole: &str) -> (r: Result<String, ConfigError>)
        ensures
            settled(r) == self@.variable(name@, whole@),
    {
        if same(name.as_str(), "") {
            proof {
                reveal_strlit("");
            }
            return Err(unknown(whole, "env requires a variable name"));
        }
        proof {
            reveal_strlit("");
            if name@.len() == 0 {
                assert(name@ =~= ""@);
            }
        }
        match self.env.get(&name) {
            Some(value) => Ok(value.clone()),
            None => {
                let n = quoted(name.as_str());
                let w = quoted(whole);
                Err(
                    ConfigError::new(
                        Stage::Substitute,
                        "missing-env",
                        cat5(
                            "environment variable ",
                            n.as_str(),
                            " is not set (in expression ",
                            w.as_str(),
                            ")",
                        ),
                    ),
                )
            },
        }
    }

    /// The home directory with a path behind it.
    fn home_path(&self, suffix: String, whole: &str) -> (r: Result<String, ConfigError>)
        ensures
            settled(r) == self@.home_path(suffix@, whole@),
    {
        let cs = chars_of(suffix.as_str());
        if cs.len() > 0 && cs[0] != '/' {
            return Err(unknown(whole, "${home} takes no argument; use ${home}/path"));
        }
        match &self.home {
            Some(home) => Ok(cat(home.as_str(), suffix.as_str())),
            None => {
                let w = quoted(whole);
                Err(
                    ConfigError::new(
                        Stage::Substitute,
                        "missing-home",
                        cat3("home directory is unknown (in expression ", w.as_str(), ")"),
                    ),
                )
            },
        }
    }

    /// Expand every string scalar in `value`.
    pub fn expand_value(&self, value: &Yaml) -> (r: Result<Yaml, ConfigError>)
        ensures
            settled(r) == self@.document(value@),
        decreases value,
    {
        match value {
            Yaml::Text(s) => match self.expand_str(s.as_str()) {
                Ok(t) => Ok(Yaml::Text(t)),
                Err(e) => Err(e),
            },
            Yaml::Sequence(items) => {
                let ghost all = items_view(items@);
                let mut out: Vec<Yaml> = Vec::new();
                assert(all.take(0) =~= Seq::empty());
                assert(items_view(out@) =~= Seq::empty());
                for i in 0..items.len()
                    invariant
                                all == items_view(items@),
                        decreases_to!(value => items),
                        value@ == YamlView::Sequence(all),
                        self@.items(all.take(i as int)) == Ok::<Seq<YamlView>, ConfigErrorView>(
                            items_view(out@),
                        ),
                {
                    assert(all.take(i + 1).drop_last() =~= all.take(i as int));
                    assert(all.take(i + 1).last() == items@[i as int]@);
                    match self.expand_value(&items[i]) {
                        Ok(item) => {
                            let ghost before = items_view(out@);
                            out.push(item);
                            assert(items_view(out@) =~= before.push(item@));
                        },
                        Err(e) => {
                            proof {
                                self.lemma_items_stop(all, i + 1);
                            }
                            return Err(e);
                        },
                    }
                }
                assert(all.take(items@.len() as int) =~= all);
                Ok(Yaml::Sequence(out))
            },
            Yaml::Mapping(entries) => {
                let ghost all = entries_view(entries@);
                let mut out: Vec<(Yaml, Yaml)> = Vec::new();
                assert(all.take(0) =~= Seq::empty());
                assert(entries_view(out@) =~= Seq::empty());
                for i in 0..entries.len()
                    invariant
                                all == entries_view(entries@),
                        decreases_to!(value => entries),
                        value@ == YamlView::Mapping(all),
                        self@.entries(all.take(i as int)) == Ok::<
                            Seq<(YamlView, YamlView)>,
                            ConfigErrorView,
                        >(entries_view(out@)),
                {
                    assert(all.take(i + 1).drop_last() =~= all.take(i as int));
                    assert(all.take(i + 1).last() == (entries@[i as int].0@, entries@[i as int].1@));
                    assert(decreases_to!(value => entries@[i as int]));
                    let key = match self.expand_value(&entries[i].0) {
                        Ok(k) => k,
                        Err(e) => {
                            proof {
                                self.lemma_entries_stop(all, i + 1);
                            }
                            return Err(e);
                        },
                    };
                    let item = match self.expand_value(&entries[i].1) {
                        Ok(v) => v,
                        Err(e) => {
                            proof {
                                self.lemma_entries_stop(all, i + 1);
                            }
                            return Err(e);
                        },
                    };
                    if has_key(&out, &key) {
                        proof {
                            self.lemma_entries_stop(all, i + 1);
                        }
                        return Err(collision(&entries[i].0, &key));
                    }
                    let ghost before = entries_view(out@);
                    out.push((key, item));
                    assert(entries_view(out@) =~= before.push((key@, item@)));
                }
                assert(all.take(entries@.len() as int) =~= all);
                Ok(Yaml::Mapping(out))
            },
            Yaml::Tagged(tag, inner) => match self.expand_value(inner) {
                Ok(r) => Ok(Yaml::Tagged(tag.clone(), Box::new(r))),
                Err(e) => Err(e),
            },
            Yaml::Null => Ok(Yaml::Null),
            Yaml::Bool(b) => Ok(Yaml::Bool(*b)),
            Yaml::Number(n) => Ok(Yaml::Number(n.clone())),
        }
    }

    /// A failure among the first items is the failure of the whole.
    proof fn lemma_items_stop(&self, all: Seq<YamlView>, n: int)
        requires
            0 <= n <= all.len(),
            self@.items(all.take(n)) is Err,
        ensures
            self@.items(all) == self@.items(all.take(n)),
        decreases all.len() - n,
    {
        if n < all.len() {
            assert(all.take(n + 1).drop_last() =~= all.take(n));
            self.lemma_items_stop(all, n + 1);
        } else {
            assert(all.take(n) =~= all);
        }
    }

    /// A failure among the first entries is the failure of the whole.
    proof fn lemma_entries_stop(&self, all: Seq<(YamlView, YamlView)>, n: int)
        requires
            0 <= n <= all.len(),
            self@.entries(all.take(n)) is Err,
        ensures
            self@.entries(all) == self@.entries(all.take(n)),
        decreases all.len() - n,
    {
        if n < all.len() {
            assert(all.take(n + 1).drop_last() =~= all.take(n));
            self.lemma_entries_stop(all, n + 1);
        } else {
            assert(all.take(n) =~= all);
        }
    }
}

/// Whether some entry has the key `key`.
fn has_key(entries: &Vec<(Yaml, Yaml)>, key: &Yaml) -> (r: bool)
    ensures
        r == carries(entries_view(entries@), key@),
{
    let ghost all = entries_view(entries@);
    for i in 0..entries.len()
        invariant
            all == entries_view(entries@),
            forall|k: int| 0 <= k < i ==> !same_key((#[trigger] all[k]).0, key@),
    {
        assert(all[i as int].0 == entries@[i as int].0@);
        if entries[i].0.same_key(key) {
            return true;
        }
    }
    false
}

/// Searching a tail is searching the whole from there.
proof fn lemma_shift(hay: Seq<char>, needle: Seq<char>, cut: int, from: int)
    requires
        0 <= cut <= hay.len(),
        0 <= from,
    ensures
        match first_at(hay.skip(cut), needle, from) {
            Some(at) => first_at(hay, needle, cut + from) == Some(cut + at),
            None => first_at(hay, needle, cut + from) is None,
        },
    decreases hay.len() - cut - from,
{
    let tail = hay.skip(cut);
    if from + needle.len() <= tail.len() {
        assert(tail.subrange(from, from + needle.len()) =~= hay.subrange(
            cut + from,
            cut + from + needle.len(),
        ));
        if !occurs_at(tail, needle, from) && from < tail.len() {
            lemma_shift(hay, needle, cut, from + 1);
        }
    }
}

/// Expand every string in `value`.
pub fn expand(value: &Yaml, subst: &Subst) -> (r: Result<Yaml, ConfigError>)
    ensures
        settled(r) == subst@.document(value@),
{
    subst.expand_value(value)
}

// ---------------------------------------------------------------------------
// Laws
// ---------------------------------------------------------------------------

/// A string without `${` is untouched.
pub proof fn law_strings_without_expressions_are_untouched(ctx: SubstView, s: Seq<char>)
    requires
        !occurs(s, seq!['$', '{']),
    ensures
        ctx.text(s) == Ok::<Seq<char>, ConfigErrorView>(s),
{
    lemma_first_at(s, seq!['$', '{'], 0);
}

/// What an expression stands for does not depend on the string it stands in.
proof fn lemma_expression_anywhere(ctx: SubstView, expr: Seq<char>, a: Seq<char>, b: Seq<char>)
    requires
        ctx.expression(expr, a) is Ok,
    ensures
        ctx.expression(expr, b) == ctx.expression(expr, a),
{
}

/// What a tail expands to does not depend on the string it is a tail of.
proof fn lemma_expanded_anywhere(ctx: SubstView, rest: Seq<char>, a: Seq<char>, b: Seq<char>)
    requires
        ctx.expanded(rest, a) is Ok,
    ensures
        ctx.expanded(rest, b) == ctx.expanded(rest, a),
    decreases rest.len(),
{
    if let Some(open) = first_at(rest, seq!['$', '{'], 0) {
        if let Some(close) = first_at(rest, seq!['}'], open) {
            lemma_first_at(rest, seq!['$', '{'], 0);
            lemma_first_at(rest, seq!['}'], open);
            lemma_expression_anywhere(ctx, rest.subrange(open + 2, close), a, b);
            lemma_expanded_anywhere(ctx, rest.skip(close + 1), a, b);
        }
    }
}

/// What stands somewhere, and nowhere before, is what `first_at` finds.
proof fn lemma_first_is(hay: Seq<char>, needle: Seq<char>, from: int, at: int)
    requires
        0 <= from <= at,
        occurs_at(hay, needle, at),
        forall|k: int| from <= k < at ==> !#[trigger] occurs_at(hay, needle, k),
    ensures
        first_at(hay, needle, from) == Some(at),
{
    lemma_first_at(hay, needle, from);
    if let Some(found) = first_at(hay, needle, from) {
        assert(occurs_at(hay, needle, found));
    }
}

/// Where a needle stands in the first of two texts, it stands in both together.
proof fn lemma_in_front(a: Seq<char>, b: Seq<char>, needle: Seq<char>, at: int)
    requires
        at + needle.len() <= a.len(),
    ensures
        occurs_at(a + b, needle, at) == occurs_at(a, needle, at),
{
    if 0 <= at {
        assert((a + b).subrange(at, at + needle.len()) =~= a.subrange(at, at + needle.len()));
    }
}

/// Where a needle stands in the second of two texts, it stands in both together.
proof fn lemma_behind(a: Seq<char>, b: Seq<char>, needle: Seq<char>, at: int)
    requires
        0 <= at,
    ensures
        occurs_at(a + b, needle, a.len() + at) == occurs_at(b, needle, at),
{
    if at + needle.len() <= b.len() {
        assert((a + b).subrange(a.len() + at, a.len() + at + needle.len()) =~= b.subrange(
            at,
            at + needle.len(),
        ));
    }
}

/// An opening in both together stands in one of them, where none is split.
proof fn lemma_no_opening_across(a: Seq<char>, b: Seq<char>, at: int)
    requires
        !(a.len() > 0 && b.len() > 0 && a.last() == '$' && b[0] == '{'),
        at == a.len() - 1,
    ensures
        !occurs_at(a + b, seq!['$', '{'], at),
{
    let all = a + b;
    if 0 <= at && at + 2 <= all.len() {
        let piece = all.subrange(at, at + 2);
        assert(piece[0] == a.last() && piece[1] == b[0]);
        let opening = seq!['$', '{'];
        assert(opening[0] == '$' && opening[1] == '{');
    }
}

/// Expanding two strings and putting them together is expanding the two together,
/// where an opening is not split between them.
pub proof fn law_expansion_distributes_over_joining(
    ctx: SubstView,
    a: Seq<char>,
    b: Seq<char>,
)
    requires
        ctx.text(a) is Ok,
        ctx.text(b) is Ok,
        !(a.len() > 0 && b.len() > 0 && a.last() == '$' && b[0] == '{'),
    ensures
        ctx.text(a + b) == Ok::<Seq<char>, ConfigErrorView>(
            ctx.text(a)->Ok_0 + ctx.text(b)->Ok_0,
        ),
{
    lemma_expanded_anywhere(ctx, a, a, a + b);
    lemma_expanded_anywhere(ctx, b, b, a + b);
    lemma_joined(ctx, a, b, a + b);
}

/// A text without an opening stays in front of what follows it.
proof fn lemma_literal_front(ctx: SubstView, a: Seq<char>, b: Seq<char>, whole: Seq<char>)
    requires
        first_at(a, seq!['$', '{'], 0) is None,
        !(a.len() > 0 && b.len() > 0 && a.last() == '$' && b[0] == '{'),
    ensures
        ctx.expanded(a + b, whole) == behind(a, ctx.expanded(b, whole)),
{
    let opening = seq!['$', '{'];
    let closing = seq!['}'];
    let all = a + b;
    lemma_first_at(a, opening, 0);
    lemma_first_at(b, opening, 0);
    assert forall|k: int| 0 <= k < a.len() implies !#[trigger] occurs_at(
        all,
        opening,
        k,
    ) by {
        if k + 2 <= a.len() {
            lemma_in_front(a, b, opening, k);
        } else {
            lemma_no_opening_across(a, b, k);
        }
    }
    match first_at(b, opening, 0) {
        None => {
            lemma_first_at(all, opening, 0);
            if let Some(at) = first_at(all, opening, 0) {
                assert(at >= a.len());
                lemma_behind(a, b, opening, at - a.len());
            }
        },
        Some(open) => {
            assert forall|k: int| 0 <= k < a.len() + open implies !#[trigger] occurs_at(
                all,
                opening,
                k,
            ) by {
                if k >= a.len() {
                    lemma_behind(a, b, opening, k - a.len());
                }
            }
            lemma_behind(a, b, opening, open);
            lemma_first_is(all, opening, 0, a.len() + open);
            lemma_first_at(b, closing, open);
            lemma_first_at(all, closing, a.len() + open);
            match first_at(b, closing, open) {
                None => {
                    if let Some(at) = first_at(all, closing, a.len() + open) {
                        lemma_behind(a, b, closing, at - a.len());
                    }
                },
                Some(close) => {
                    assert(b.subrange(open, open + 2)[0] == '$' && b.subrange(open, open + 2)[1]
                        == '{');
                    assert(b.subrange(close, close + 1)[0] == '}');
                    assert(open + 2 <= close);
                    assert forall|k: int|
                        a.len() + open <= k < a.len() + close implies !#[trigger] occurs_at(
                        all,
                        closing,
                        k,
                    ) by {
                        lemma_behind(a, b, closing, k - a.len());
                    }
                    lemma_behind(a, b, closing, close);
                    lemma_first_is(all, closing, a.len() + open, a.len() + close);
                    assert(all.subrange(a.len() + open + 2, a.len() + close) =~= b.subrange(
                        open + 2,
                        close,
                    ));
                    assert(all.skip(a.len() + close + 1) =~= b.skip(close + 1));
                    assert(all.take(a.len() + open) =~= a + b.take(open));
                    if ctx.expanded(b, whole) is Ok {
                        let value = ctx.expression(b.subrange(open + 2, close), whole)->Ok_0;
                        let tail = ctx.expanded(b.skip(close + 1), whole)->Ok_0;
                        assert(a + b.take(open) + value + tail =~= a + (b.take(open) + value
                            + tail));
                    }
                },
            }
        },
    }
}

proof fn lemma_joined(ctx: SubstView, a: Seq<char>, b: Seq<char>, whole: Seq<char>)
    requires
        ctx.expanded(a, whole) is Ok,
        !(a.len() > 0 && b.len() > 0 && a.last() == '$' && b[0] == '{'),
    ensures
        ctx.expanded(a + b, whole) == behind(
            ctx.expanded(a, whole)->Ok_0,
            ctx.expanded(b, whole),
        ),
    decreases a.len(),
{
    let opening = seq!['$', '{'];
    let closing = seq!['}'];
    let all = a + b;
    lemma_first_at(a, opening, 0);
    match first_at(a, opening, 0) {
        Some(open) => {
            lemma_first_at(a, closing, open);
            let close = first_at(a, closing, open)->Some_0;
            assert(a.subrange(open, open + 2)[0] == '$' && a.subrange(open, open + 2)[1] == '{');
            assert(a.subrange(close, close + 1)[0] == '}');
            assert(open + 2 <= close);
            assert forall|k: int| 0 <= k < open implies !#[trigger] occurs_at(all, opening, k) by {
                lemma_in_front(a, b, opening, k);
            }
            lemma_in_front(a, b, opening, open);
            lemma_first_is(all, opening, 0, open);
            assert forall|k: int| open <= k < close implies !#[trigger] occurs_at(
                all,
                closing,
                k,
            ) by {
                lemma_in_front(a, b, closing, k);
            }
            lemma_in_front(a, b, closing, close);
            lemma_first_is(all, closing, open, close);
            assert(all.subrange(open + 2, close) =~= a.subrange(open + 2, close));
            let rest = a.skip(close + 1);
            assert(all.skip(close + 1) =~= rest + b);
            if rest.len() > 0 {
                assert(rest.last() == a.last());
            }
            lemma_joined(ctx, rest, b, whole);
            let value = ctx.expression(a.subrange(open + 2, close), whole)->Ok_0;
            let tail = ctx.expanded(rest, whole)->Ok_0;
            assert(all.take(open) =~= a.take(open));
            if let Ok(more) = ctx.expanded(b, whole) {
                assert(a.take(open) + value + (tail + more) =~= a.take(open) + value + tail + more);
            }
        },
        None => {
            lemma_literal_front(ctx, a, b, whole);
        },
    }
}

/// What kind of failure a tail gives does not depend on the string it is a tail of.
proof fn lemma_failure_anywhere(ctx: SubstView, rest: Seq<char>, a: Seq<char>, b: Seq<char>)
    ensures
        ctx.expanded(rest, a) is Ok <==> ctx.expanded(rest, b) is Ok,
        ctx.expanded(rest, a) matches Err(e) ==> (ctx.expanded(rest, b) matches Err(x) && x.code
            == e.code),
    decreases rest.len(),
{
    if let Some(open) = first_at(rest, seq!['$', '{'], 0) {
        if let Some(close) = first_at(rest, seq!['}'], open) {
            lemma_first_at(rest, seq!['$', '{'], 0);
            lemma_first_at(rest, seq!['}'], open);
            lemma_failure_anywhere(ctx, rest.skip(close + 1), a, b);
        }
    }
}

/// A failure is never hidden by what stands in front of it: two strings together
/// expand exactly where the second does, if the first does and an opening is not split
/// between them; and they fail as the second fails.
pub proof fn law_a_later_failure_is_not_hidden(ctx: SubstView, a: Seq<char>, b: Seq<char>)
    requires
        ctx.text(a) is Ok,
        !(a.len() > 0 && b.len() > 0 && a.last() == '$' && b[0] == '{'),
    ensures
        ctx.text(a + b) is Ok <==> ctx.text(b) is Ok,
        ctx.text(b) matches Err(e) ==> (ctx.text(a + b) matches Err(x) && x.code == e.code),
{
    lemma_expanded_anywhere(ctx, a, a, a + b);
    lemma_joined(ctx, a, b, a + b);
    lemma_failure_anywhere(ctx, b, b, a + b);
}

/// A failure is never hidden by what stands behind it: what fails, but for want of a
/// closing brace, fails the same whatever follows.
pub proof fn law_an_earlier_failure_is_not_hidden(ctx: SubstView, a: Seq<char>, b: Seq<char>)
    requires
        ctx.text(a) matches Err(e) && e.code != "bad-substitution"@,
    ensures
        ctx.text(a + b) matches Err(x) && x.code == ctx.text(a)->Err_0.code,
{
    lemma_failure_anywhere(ctx, a, a, a + b);
    lemma_failed_front(ctx, a, b, a + b);
}

proof fn lemma_failed_front(ctx: SubstView, a: Seq<char>, b: Seq<char>, whole: Seq<char>)
    requires
        ctx.expanded(a, whole) matches Err(e) && e.code != "bad-substitution"@,
    ensures
        ctx.expanded(a + b, whole) == ctx.expanded(a, whole),
    decreases a.len(),
{
    let opening = seq!['$', '{'];
    let closing = seq!['}'];
    let all = a + b;
    lemma_first_at(a, opening, 0);
    if let Some(open) = first_at(a, opening, 0) {
        lemma_first_at(a, closing, open);
        let close = first_at(a, closing, open)->Some_0;
        assert(a.subrange(open, open + 2)[0] == '$' && a.subrange(open, open + 2)[1] == '{');
        assert(a.subrange(close, close + 1)[0] == '}');
        assert(open + 2 <= close);
        assert forall|k: int| 0 <= k < open implies !#[trigger] occurs_at(all, opening, k) by {
            lemma_in_front(a, b, opening, k);
        }
        lemma_in_front(a, b, opening, open);
        lemma_first_is(all, opening, 0, open);
        assert forall|k: int| open <= k < close implies !#[trigger] occurs_at(all, closing, k) by {
            lemma_in_front(a, b, closing, k);
        }
        lemma_in_front(a, b, closing, close);
        lemma_first_is(all, closing, open, close);
        assert(all.subrange(open + 2, close) =~= a.subrange(open + 2, close));
        let rest = a.skip(close + 1);
        assert(all.skip(close + 1) =~= rest + b);
        if ctx.expression(a.subrange(open + 2, close), whole) is Ok {
            lemma_failed_front(ctx, rest, b, whole);
        }
    }
}

// ---------------------------------------------------------------------------
// What single expressions stand for
// ---------------------------------------------------------------------------

/// The expression with this body.
pub open spec fn expression_text(body: Seq<char>) -> Seq<char> {
    "${"@ + body + "}"@
}

/// One expression alone expands to what its body stands for.
proof fn lemma_one_expression(ctx: SubstView, body: Seq<char>)
    requires
        forall|i: int| 0 <= i < body.len() ==> #[trigger] body[i] != '}',
    ensures
        ctx.text(expression_text(body)) == ctx.expression(body, expression_text(body)),
{
    reveal_strlit("${");
    reveal_strlit("}");
    let s = expression_text(body);
    let opening = seq!['$', '{'];
    let closing = seq!['}'];
    let close = (body.len() + 2) as int;
    assert(s.subrange(0, 2) =~= opening);
    assert(occurs_at(s, opening, 0));
    lemma_first_is(s, opening, 0, 0);
    assert(s.subrange(close, close + 1) =~= closing);
    assert(occurs_at(s, closing, close));
    assert forall|k: int| 0 <= k < close implies !#[trigger] occurs_at(s, closing, k) by {
        let piece = s.subrange(k, k + 1);
        assert(piece[0] == s[k]);
        if k >= 2 {
            assert(s[k] == body[k - 2]);
        }
    }
    lemma_first_is(s, closing, 0, close);
    assert(s.subrange(2, close) =~= body);
    let rest = s.skip(close + 1);
    assert(rest =~= Seq::empty());
    lemma_first_at(rest, opening, 0);
    assert(first_at(rest, opening, 0) is None);
    assert(ctx.expanded(rest, s) == Ok::<Seq<char>, ConfigErrorView>(rest));
    assert(s.skip(close + 1) == rest);
    match ctx.expression(body, s) {
        Ok(value) => {
            assert(s.take(0) + value + rest =~= value);
            assert(ctx.expanded(s, s) == Ok::<Seq<char>, ConfigErrorView>(value));
        },
        Err(e) => {
            assert(ctx.expanded(s, s) == Err::<Seq<char>, ConfigErrorView>(e));
        },
    }
}

/// The first colon of a body with a function in front.
proof fn lemma_colon(func: Seq<char>, arg: Seq<char>)
    requires
        forall|i: int| 0 <= i < func.len() ==> #[trigger] func[i] != ':',
    ensures
        first_at(func + ":"@ + arg, seq![':'], 0) == Some(func.len() as int),
        (func + ":"@ + arg).take(func.len() as int) == func,
        (func + ":"@ + arg).skip(func.len() as int + 1) == arg,
        first_at(func, seq![':'], 0) is None,
{
    reveal_strlit(":");
    let body = func + ":"@ + arg;
    let n = func.len() as int;
    assert(body.subrange(n, n + 1) =~= seq![':']);
    assert forall|k: int| 0 <= k < n implies !#[trigger] occurs_at(body, seq![':'], k) by {
        assert(body.subrange(k, k + 1)[0] == func[k]);
    }
    lemma_first_is(body, seq![':'], 0, n);
    assert(body.take(n) =~= func);
    assert(body.skip(n + 1) =~= arg);
    lemma_first_at(func, seq![':'], 0);
    if let Some(k) = first_at(func, seq![':'], 0) {
        assert(func.subrange(k, k + 1)[0] == func[k]);
    }
}

/// A variable stands for its whole value: `${env:NAME}` expands to exactly what the
/// environment holds for the name; where it holds nothing the failure says so and
/// names the variable.
pub proof fn law_a_variable_stands_for_its_value(ctx: SubstView, name: Seq<char>)
    requires
        name.len() > 0,
        forall|i: int| 0 <= i < name.len() ==> #[trigger] name[i] != '}',
    ensures
        ctx.env.contains_key(name) ==> ctx.text(expression_text("env"@ + ":"@ + name)) == Ok::<
            Seq<char>,
            ConfigErrorView,
        >(ctx.env[name]),
        !ctx.env.contains_key(name) ==> (ctx.text(expression_text("env"@ + ":"@ + name)) matches Err(
            e,
        ) && e.code == "missing-env"@ && occurs(e.message, debug_text(name))),
{
    reveal_strlit("env");
    reveal_strlit(":");
    let body = "env"@ + ":"@ + name;
    lemma_one_expression(ctx, body);
    lemma_colon("env"@, name);
    if !ctx.env.contains_key(name) {
        let e = ctx.text(expression_text(body))->Err_0;
        let head = "environment variable "@;
        let shown = debug_text(name);
        assert(e.message.subrange(head.len() as int, (head.len() + shown.len()) as int) =~= shown);
        assert(occurs_at(e.message, shown, head.len() as int));
    }
}

/// `${home}` stands for exactly the home directory, `${home:PATH}` for the home
/// directory with the path behind it; without a known home directory the failure says
/// so.
pub proof fn law_home_stands_for_the_home_directory(ctx: SubstView, path: Seq<char>)
    requires
        path.len() > 0,
        path[0] == '/',
        forall|i: int| 0 <= i < path.len() ==> #[trigger] path[i] != '}',
    ensures
        match ctx.home {
            Some(home) => {
                &&& ctx.text(expression_text("home"@)) == Ok::<Seq<char>, ConfigErrorView>(home)
                &&& ctx.text(expression_text("home"@ + ":"@ + path)) == Ok::<
                    Seq<char>,
                    ConfigErrorView,
                >(home + path)
            },
            None => {
                &&& ctx.text(expression_text("home"@)) matches Err(e) && e.code == "missing-home"@
                &&& ctx.text(expression_text("home"@ + ":"@ + path)) matches Err(e) && e.code
                    == "missing-home"@
            },
        },
{
    reveal_strlit("home");
    reveal_strlit("env");
    reveal_strlit(":");
    lemma_one_expression(ctx, "home"@);
    lemma_one_expression(ctx, "home"@ + ":"@ + path);
    lemma_colon("home"@, path);
    assert("home"@.len() == 4 && "env"@.len() == 3);
    if let Some(home) = ctx.home {
        assert(home + Seq::<char>::empty() =~= home);
    }
}

/// There are no other functions: an expression of any other name fails, and the
/// failure shows the expression; so does a variable without a name, and a home
/// directory with an argument that is no path.
pub proof fn law_there_are_no_other_expressions(ctx: SubstView, func: Seq<char>, arg: Seq<char>)
    requires
        forall|i: int| 0 <= i < func.len() ==> #[trigger] func[i] != ':' && func[i] != '}',
        forall|i: int| 0 <= i < arg.len() ==> #[trigger] arg[i] != '}',
        func != "env"@ || arg.len() == 0,
        func != "home"@ || (arg.len() > 0 && arg[0] != '/'),
    ensures
        ({
            let s = expression_text(func + ":"@ + arg);
            ctx.text(s) matches Err(e) && e.code == "unknown-substitution"@ && occurs(
                e.message,
                debug_text(s),
            )
        }),
        func != "home"@ ==> (ctx.text(expression_text(func)) matches Err(e) && e.code
            == "unknown-substitution"@),
{
    reveal_strlit("home");
    reveal_strlit("env");
    reveal_strlit(":");
    assert("home"@.len() == 4 && "env"@.len() == 3);
    let body = func + ":"@ + arg;
    assert forall|i: int| 0 <= i < body.len() implies #[trigger] body[i] != '}' by {
        if i < func.len() {
            assert(body[i] == func[i]);
        } else if i > func.len() {
            assert(body[i] == arg[i - func.len() - 1]);
        }
    }
    lemma_one_expression(ctx, body);
    lemma_one_expression(ctx, func);
    lemma_colon(func, arg);
    let s = expression_text(body);
    let e = ctx.text(s)->Err_0;
    let head = "unsupported expression "@;
    let shown = debug_text(s);
    assert(e.message.subrange(head.len() as int, (head.len() + shown.len()) as int) =~= shown);
    assert(occurs_at(e.message, shown, head.len() as int));
}

/// An opening that is never closed fails, whatever stands in front of it that does
/// expand.
pub proof fn law_an_open_expression_fails(ctx: SubstView, rest: Seq<char>)
    requires
        forall|i: int| 0 <= i < rest.len() ==> #[trigger] rest[i] != '}',
    ensures
        ctx.text("${"@ + rest) matches Err(e) && e.code == "bad-substitution"@,
{
    reveal_strlit("${");
    let s = "${"@ + rest;
    assert(s.subrange(0, 2) =~= seq!['$', '{']);
    assert(occurs_at(s, seq!['$', '{'], 0));
    lemma_first_is(s, seq!['$', '{'], 0, 0);
    lemma_first_at(s, seq!['}'], 0);
    if let Some(at) = first_at(s, seq!['}'], 0) {
        assert(s.subrange(at, at + 1)[0] == s[at]);
        if at >= 2 {
            assert(s[at] == rest[at - 2]);
        }
    }
}

// ---------------------------------------------------------------------------
// Documents
// ---------------------------------------------------------------------------

/// A document expands part by part: a text as a string, a sequence item by item, a
/// mapping entry by entry with its keys, what a tag stands on under the same tag;
/// nothing else changes.
pub proof fn law_a_document_expands_part_by_part(ctx: SubstView, v: YamlView)
    requires
        ctx.document(v) is Ok,
    ensures
        match (v, ctx.document(v)->Ok_0) {
            (YamlView::Text(s), YamlView::Text(t)) => ctx.text(s) == Ok::<
                Seq<char>,
                ConfigErrorView,
            >(t),
            (YamlView::Sequence(items), YamlView::Sequence(out)) => items.len() == out.len()
                && forall|i: int|
                0 <= i < items.len() ==> ctx.document(items[i]) == Ok::<
                    YamlView,
                    ConfigErrorView,
                >(#[trigger] out[i]),
            (YamlView::Mapping(entries), YamlView::Mapping(out)) => entries.len() == out.len()
                && forall|i: int|
                0 <= i < entries.len() ==> ctx.document(entries[i].0) == Ok::<
                    YamlView,
                    ConfigErrorView,
                >((#[trigger] out[i]).0) && ctx.document(entries[i].1) == Ok::<
                    YamlView,
                    ConfigErrorView,
                >(out[i].1),
            (YamlView::Tagged(tag, inner), YamlView::Tagged(same, out)) => tag == same
                && ctx.document(*inner) == Ok::<YamlView, ConfigErrorView>(*out),
            (YamlView::Null, out) => out is Null,
            (YamlView::Bool(b), out) => out == YamlView::Bool(b),
            (YamlView::Number(n), out) => out == YamlView::Number(n),
            _ => false,
        },
{
    match v {
        YamlView::Sequence(items) => {
            lemma_items_kept(ctx, items);
        },
        YamlView::Mapping(entries) => {
            lemma_entries_kept(ctx, entries);
            let out = ctx.entries(entries)->Ok_0;
            assert forall|i: int| 0 <= i < entries.len() implies ctx.document(entries[i].0) == Ok::<
                YamlView,
                ConfigErrorView,
            >((#[trigger] out[i]).0) && ctx.document(entries[i].1) == Ok::<
                YamlView,
                ConfigErrorView,
            >(out[i].1) by {
                assert(entry_kept(ctx, entries[i], out[i]));
            }
        },
        _ => {},
    }
}

/// A document fails only for a reason: a text of it fails, or two keys of one mapping
/// expand to one.
pub proof fn law_a_document_fails_only_where_a_part_does(ctx: SubstView, v: YamlView)
    ensures
        match v {
            YamlView::Text(s) => ctx.document(v) is Ok <==> ctx.text(s) is Ok,
            YamlView::Sequence(items) => ctx.document(v) is Ok <==> forall|i: int|
                0 <= i < items.len() ==> ctx.document(#[trigger] items[i]) is Ok,
            YamlView::Mapping(entries) => ctx.document(v) is Ok <==> {
                &&& forall|i: int|
                    0 <= i < entries.len() ==> ctx.document((#[trigger] entries[i]).0) is Ok
                        && ctx.document(entries[i].1) is Ok
                &&& forall|i: int, j: int|
                    0 <= i < j < entries.len() ==> !same_key(
                        ctx.document((#[trigger] entries[i]).0)->Ok_0,
                        ctx.document((#[trigger] entries[j]).0)->Ok_0,
                    )
            },
            YamlView::Tagged(_, inner) => ctx.document(v) is Ok <==> ctx.document(*inner) is Ok,
            _ => ctx.document(v) is Ok,
        },
{
    match v {
        YamlView::Sequence(items) => {
            lemma_items_succeed(ctx, items);
        },
        YamlView::Mapping(entries) => {
            lemma_entries_succeed(ctx, entries);
        },
        _ => {},
    }
}

proof fn lemma_items_succeed(ctx: SubstView, items: Seq<YamlView>)
    ensures
        ctx.items(items) is Ok <==> forall|i: int|
            0 <= i < items.len() ==> ctx.document(#[trigger] items[i]) is Ok,
    decreases items.len(),
{
    if items.len() > 0 {
        let head = items.drop_last();
        lemma_items_succeed(ctx, head);
        if ctx.items(items) is Ok {
            assert forall|i: int| 0 <= i < items.len() implies ctx.document(
                #[trigger] items[i],
            ) is Ok by {
                if i < head.len() {
                    assert(ctx.document(head[i]) is Ok);
                }
            }
        }
        if forall|i: int| 0 <= i < items.len() ==> ctx.document(#[trigger] items[i]) is Ok {
            assert forall|i: int| 0 <= i < head.len() implies ctx.document(
                #[trigger] head[i],
            ) is Ok by {
                assert(ctx.document(items[i]) is Ok);
            }
            assert(ctx.document(items[items.len() - 1]) is Ok);
        }
    }
}

/// Whether entries expand, each by itself and told apart.
spec fn entries_expand(ctx: SubstView, entries: Seq<(YamlView, YamlView)>) -> bool {
    &&& forall|i: int|
        0 <= i < entries.len() ==> ctx.document((#[trigger] entries[i]).0) is Ok && ctx.document(
            entries[i].1,
        ) is Ok
    &&& forall|i: int, j: int|
        0 <= i < j < entries.len() ==> !same_key(
            ctx.document((#[trigger] entries[i]).0)->Ok_0,
            ctx.document((#[trigger] entries[j]).0)->Ok_0,
        )
}

proof fn lemma_entries_succeed(ctx: SubstView, entries: Seq<(YamlView, YamlView)>)
    ensures
        ctx.entries(entries) is Ok <==> entries_expand(ctx, entries),
    decreases entries.len(),
{
    if entries.len() > 0 {
        let head = entries.drop_last();
        let n = entries.len() - 1;
        lemma_entries_succeed(ctx, head);
        if ctx.entries(entries) is Ok {
            lemma_entries_kept(ctx, entries);
            let out = ctx.entries(entries)->Ok_0;
            assert forall|i: int| 0 <= i < entries.len() implies ctx.document(
                (#[trigger] entries[i]).0,
            ) is Ok && ctx.document(entries[i].1) is Ok by {
                assert(entry_kept(ctx, entries[i], out[i]));
            }
            assert forall|i: int, j: int| 0 <= i < j < entries.len() implies !same_key(
                ctx.document((#[trigger] entries[i]).0)->Ok_0,
                ctx.document((#[trigger] entries[j]).0)->Ok_0,
            ) by {
                assert(entry_kept(ctx, entries[i], out[i]));
                assert(entry_kept(ctx, entries[j], out[j]));
                assert(!same_key(out[i].0, out[j].0));
            }
        }
        if entries_expand(ctx, entries) {
            assert forall|i: int| 0 <= i < head.len() implies ctx.document(
                (#[trigger] head[i]).0,
            ) is Ok && ctx.document(head[i].1) is Ok by {
                assert(head[i] == entries[i]);
            }
            assert forall|i: int, j: int| 0 <= i < j < head.len() implies !same_key(
                ctx.document((#[trigger] head[i]).0)->Ok_0,
                ctx.document((#[trigger] head[j]).0)->Ok_0,
            ) by {
                assert(head[i] == entries[i] && head[j] == entries[j]);
            }
            assert(entries_expand(ctx, head));
            let done = ctx.entries(head)->Ok_0;
            lemma_entries_kept(ctx, head);
            assert(ctx.document(entries[n].0) is Ok && ctx.document(entries[n].1) is Ok);
            let key = ctx.document(entries[n].0)->Ok_0;
            if carries(done, key) {
                let i = choose|i: int| 0 <= i < done.len() && same_key((#[trigger] done[i]).0, key);
                assert(entry_kept(ctx, head[i], done[i]));
                assert(head[i] == entries[i]);
                assert(!same_key(
                    ctx.document(entries[i].0)->Ok_0,
                    ctx.document(entries[n].0)->Ok_0,
                ));
            }
        }
    }
}

/// Whether no string of a document holds `${`.
pub open spec fn literal(v: YamlView) -> bool
    decreases v,
{
    match v {
        YamlView::Text(s) => !occurs(s, seq!['$', '{']),
        YamlView::Sequence(items) => forall|i: int|
            0 <= i < items.len() ==> literal(#[trigger] items[i]),
        YamlView::Mapping(entries) => forall|i: int|
            0 <= i < entries.len() ==> literal((#[trigger] entries[i]).0) && literal(
                entries[i].1,
            ),
        YamlView::Tagged(_, inner) => literal(*inner),
        _ => true,
    }
}

/// Whether no mapping of a document holds one key twice.
pub open spec fn distinct_keys(v: YamlView) -> bool
    decreases v,
{
    match v {
        YamlView::Sequence(items) => forall|i: int|
            0 <= i < items.len() ==> distinct_keys(#[trigger] items[i]),
        YamlView::Mapping(entries) => {
            &&& forall|i: int|
                0 <= i < entries.len() ==> distinct_keys((#[trigger] entries[i]).0)
                    && distinct_keys(entries[i].1)
            &&& told_apart(entries)
        },
        YamlView::Tagged(_, inner) => distinct_keys(*inner),
        _ => true,
    }
}

/// A document without expressions, whose mappings hold each key once, is untouched.
pub proof fn law_documents_without_expressions_are_untouched(ctx: SubstView, v: YamlView)
    requires
        literal(v),
        distinct_keys(v),
    ensures
        ctx.document(v) == Ok::<YamlView, ConfigErrorView>(v),
    decreases v,
{
    match v {
        YamlView::Text(s) => {
            law_strings_without_expressions_are_untouched(ctx, s);
        },
        YamlView::Sequence(items) => {
            lemma_literal_items(ctx, items, items.len() as int);
            assert(items.take(items.len() as int) =~= items);
        },
        YamlView::Mapping(entries) => {
            lemma_literal_entries(ctx, entries, entries.len() as int);
            assert(entries.take(entries.len() as int) =~= entries);
        },
        YamlView::Tagged(_, inner) => {
            law_documents_without_expressions_are_untouched(ctx, *inner);
        },
        _ => {},
    }
}

proof fn lemma_literal_items(ctx: SubstView, items: Seq<YamlView>, n: int)
    requires
        0 <= n <= items.len(),
        forall|i: int|
            0 <= i < items.len() ==> literal(#[trigger] items[i]) && distinct_keys(items[i]),
    ensures
        ctx.items(items.take(n)) == Ok::<Seq<YamlView>, ConfigErrorView>(items.take(n)),
    decreases items, n,
{
    if n > 0 {
        lemma_literal_items(ctx, items, n - 1);
        assert(items.take(n).drop_last() =~= items.take(n - 1));
        assert(items.take(n).last() == items[n - 1]);
        assert(decreases_to!(items => items[n - 1]));
        law_documents_without_expressions_are_untouched(ctx, items[n - 1]);
        assert(items.take(n - 1).push(items[n - 1]) =~= items.take(n));
    } else {
        assert(items.take(0) =~= Seq::empty());
    }
}

proof fn lemma_literal_entries(ctx: SubstView, entries: Seq<(YamlView, YamlView)>, n: int)
    requires
        0 <= n <= entries.len(),
        forall|i: int|
            0 <= i < entries.len() ==> literal((#[trigger] entries[i]).0) && literal(entries[i].1)
                && distinct_keys(entries[i].0) && distinct_keys(entries[i].1),
        told_apart(entries),
    ensures
        ctx.entries(entries.take(n)) == Ok::<Seq<(YamlView, YamlView)>, ConfigErrorView>(
            entries.take(n),
        ),
    decreases entries, n,
{
    if n > 0 {
        lemma_literal_entries(ctx, entries, n - 1);
        assert(entries.take(n).drop_last() =~= entries.take(n - 1));
        let last = entries[n - 1];
        assert(entries.take(n).last() == last);
        assert(decreases_to!(entries => entries[n - 1]));
        law_documents_without_expressions_are_untouched(ctx, last.0);
        law_documents_without_expressions_are_untouched(ctx, last.1);
        if carries(entries.take(n - 1), last.0) {
            let i = choose|i: int|
                0 <= i < n - 1 && same_key((#[trigger] entries.take(n - 1)[i]).0, last.0);
            assert(same_key(entries[i].0, entries[n - 1].0));
        }
        assert(entries.take(n - 1).push(last) =~= entries.take(n));
    } else {
        assert(entries.take(0) =~= Seq::empty());
    }
}

/// Expansion loses nothing: what comes out has the shape of what went in, every
/// mapping keeps every one of its entries, and no two of them share a key.
pub proof fn law_expansion_loses_no_entry(ctx: SubstView, v: YamlView)
    requires
        ctx.document(v) is Ok,
    ensures
        distinct_keys(ctx.document(v)->Ok_0),
        same_shape(v, ctx.document(v)->Ok_0),
    decreases v,
{
    match v {
        YamlView::Sequence(items) => {
            lemma_items_kept(ctx, items);
        },
        YamlView::Mapping(entries) => {
            lemma_entries_kept(ctx, entries);
        },
        YamlView::Tagged(_, inner) => {
            law_expansion_loses_no_entry(ctx, *inner);
        },
        _ => {},
    }
}

/// Whether two documents differ in nothing but their strings.
pub open spec fn same_shape(a: YamlView, b: YamlView) -> bool
    decreases a,
{
    match (a, b) {
        (YamlView::Text(_), YamlView::Text(_)) => true,
        (YamlView::Sequence(x), YamlView::Sequence(y)) => {
            &&& x.len() == y.len()
            &&& forall|i: int| 0 <= i < x.len() ==> same_shape(#[trigger] x[i], y[i])
        },
        (YamlView::Mapping(x), YamlView::Mapping(y)) => {
            &&& x.len() == y.len()
            &&& forall|i: int|
                0 <= i < x.len() ==> same_shape((#[trigger] x[i]).0, y[i].0) && same_shape(
                    x[i].1,
                    y[i].1,
                )
        },
        (YamlView::Tagged(s, x), YamlView::Tagged(t, y)) => s == t && same_shape(*x, *y),
        _ => a == b,
    }
}

/// Each item that comes out is what the item at its place expands to.
pub proof fn lemma_items_kept(ctx: SubstView, items: Seq<YamlView>)
    requires
        ctx.items(items) is Ok,
    ensures
        ctx.items(items)->Ok_0.len() == items.len(),
        forall|i: int|
            0 <= i < items.len() ==> distinct_keys(#[trigger] ctx.items(items)->Ok_0[i])
                && same_shape(items[i], ctx.items(items)->Ok_0[i]) && ctx.document(items[i]) == Ok::<
                YamlView,
                ConfigErrorView,
            >(ctx.items(items)->Ok_0[i]),
    decreases items,
{
    if items.len() > 0 {
        lemma_items_kept(ctx, items.drop_last());
        assert(decreases_to!(items => items[items.len() - 1]));
        law_expansion_loses_no_entry(ctx, items[items.len() - 1]);
        let done = ctx.items(items.drop_last())->Ok_0;
        let out = ctx.items(items)->Ok_0;
        assert forall|i: int| 0 <= i < items.len() implies distinct_keys(#[trigger] out[i])
            && same_shape(items[i], out[i]) && ctx.document(items[i]) == Ok::<
            YamlView,
            ConfigErrorView,
        >(out[i]) by {
            if i < done.len() {
                assert(out[i] == done[i]);
                assert(items[i] == items.drop_last()[i]);
            }
        }
    }
}

/// Each entry that comes out is what the entry at its place expands to.
pub proof fn lemma_entries_kept(ctx: SubstView, entries: Seq<(YamlView, YamlView)>)
    requires
        ctx.entries(entries) is Ok,
    ensures
        ({
            let out = ctx.entries(entries)->Ok_0;
            &&& out.len() == entries.len()
            &&& told_apart(out)
            &&& forall|i: int|
                0 <= i < entries.len() ==> entry_kept(ctx, entries[i], #[trigger] out[i])
        }),
    decreases entries,
{
    if entries.len() > 0 {
        lemma_entries_kept(ctx, entries.drop_last());
        assert(decreases_to!(entries => entries[entries.len() - 1]));
        law_expansion_loses_no_entry(ctx, entries[entries.len() - 1].0);
        law_expansion_loses_no_entry(ctx, entries[entries.len() - 1].1);
        let done = ctx.entries(entries.drop_last())->Ok_0;
        let out = ctx.entries(entries)->Ok_0;
        assert forall|i: int| 0 <= i < entries.len() implies entry_kept(
            ctx,
            entries[i],
            #[trigger] out[i],
        ) by {
            if i < done.len() {
                assert(entry_kept(ctx, entries.drop_last()[i], done[i]));
                assert(out[i] == done[i]);
                assert(entries[i] == entries.drop_last()[i]);
            }
        }
        assert forall|i: int, j: int| 0 <= i < j < out.len() implies !same_key(
            (#[trigger] out[i]).0,
            (#[trigger] out[j]).0,
        ) by {
            assert(out[i] == done[i]);
            if j < done.len() {
                assert(out[j] == done[j]);
            }
        }
    }
}

/// Whether an entry is what another expands to, with its keys told apart throughout.
pub open spec fn entry_kept(
    ctx: SubstView,
    e: (YamlView, YamlView),
    out: (YamlView, YamlView),
) -> bool {
    &&& distinct_keys(out.0) && distinct_keys(out.1)
    &&& same_shape(e.0, out.0) && same_shape(e.1, out.1)
    &&& ctx.document(e.0) == Ok::<YamlView, ConfigErrorView>(out.0)
    &&& ctx.document(e.1) == Ok::<YamlView, ConfigErrorView>(out.1)
}

/// What expansion makes of a document that can be written can be written: no tag
/// loses its name, and keys that are told apart stay so.
pub proof fn law_expansion_keeps_documents_writable(a: YamlView, b: YamlView)
    requires
        same_shape(a, b),
    ensures
        tags_named(a) ==> tags_named(b),
        plain(a) && distinct_keys(b) ==> plain(b),
    decreases a,
{
    match (a, b) {
        (YamlView::Sequence(x), YamlView::Sequence(y)) => {
            assert forall|i: int| 0 <= i < y.len() implies (tags_named(a) ==> tags_named(
                #[trigger] y[i],
            )) && (plain(a) && distinct_keys(b) ==> plain(y[i])) by {
                assert(same_shape(x[i], y[i]));
                law_expansion_keeps_documents_writable(x[i], y[i]);
            }
        },
        (YamlView::Mapping(x), YamlView::Mapping(y)) => {
            assert forall|i: int| 0 <= i < y.len() implies (tags_named(a) ==> tags_named(
                (#[trigger] y[i]).0,
            ) && tags_named(y[i].1)) && (plain(a) && distinct_keys(b) ==> plain(y[i].0)
                && plain(y[i].1)) by {
                let e = x[i];
                assert(same_shape(e.0, y[i].0));
                assert(decreases_to!(a => x[i]));
                law_expansion_keeps_documents_writable(x[i].0, y[i].0);
                law_expansion_keeps_documents_writable(x[i].1, y[i].1);
            }
        },
        (YamlView::Tagged(_, x), YamlView::Tagged(_, y)) => {
            law_expansion_keeps_documents_writable(*x, *y);
        },
        _ => {},
    }
}

/// Every failure happens in the substitute stage, names no row, and carries one
/// of the five codes.
pub open spec fn typed(e: ConfigErrorView) -> bool {
    &&& e.stage == Stage::Substitute
    &&& e.plugin.len() == 0
    &&& {
        ||| e.code == "bad-substitution"@
        ||| e.code == "missing-env"@
        ||| e.code == "missing-home"@
        ||| e.code == "unknown-substitution"@
        ||| e.code == "substitution-key-collision"@
    }
}

/// A string that does not expand fails with a typed error.
pub proof fn law_string_failures_are_typed(ctx: SubstView, rest: Seq<char>, whole: Seq<char>)
    ensures
        ctx.expanded(rest, whole) matches Err(e) ==> typed(e),
    decreases rest.len(),
{
    if let Some(open) = first_at(rest, seq!['$', '{'], 0) {
        lemma_first_at(rest, seq!['$', '{'], 0);
        lemma_first_at(rest, seq!['}'], open);
        if let Some(close) = first_at(rest, seq!['}'], open) {
            law_string_failures_are_typed(ctx, rest.skip(close + 1), whole);
        }
    }
}

/// A document that does not expand fails with a typed error.
pub proof fn law_document_failures_are_typed(ctx: SubstView, v: YamlView)
    ensures
        ctx.document(v) matches Err(e) ==> typed(e),
    decreases v,
{
    match v {
        YamlView::Text(s) => {
            law_string_failures_are_typed(ctx, s, s);
        },
        YamlView::Sequence(items) => {
            lemma_items_typed(ctx, items);
        },
        YamlView::Mapping(entries) => {
            lemma_entries_typed(ctx, entries);
        },
        YamlView::Tagged(_, inner) => {
            law_document_failures_are_typed(ctx, *inner);
        },
        _ => {},
    }
}

proof fn lemma_items_typed(ctx: SubstView, items: Seq<YamlView>)
    ensures
        ctx.items(items) matches Err(e) ==> typed(e),
    decreases items,
{
    if items.len() > 0 {
        lemma_items_typed(ctx, items.drop_last());
        assert(decreases_to!(items => items[items.len() - 1]));
        law_document_failures_are_typed(ctx, items[items.len() - 1]);
    }
}

proof fn lemma_entries_typed(ctx: SubstView, entries: Seq<(YamlView, YamlView)>)
    ensures
        ctx.entries(entries) matches Err(e) ==> typed(e),
    decreases entries,
{
    if entries.len() > 0 {
        lemma_entries_typed(ctx, entries.drop_last());
        let last = entries[entries.len() - 1];
        assert(decreases_to!(entries => entries[entries.len() - 1]));
        law_document_failures_are_typed(ctx, last.0);
        law_document_failures_are_typed(ctx, last.1);
    }
}

} // verus!
