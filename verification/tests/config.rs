//! Documents, substitution, composition and mount.

use std::cell::RefCell;
use std::rc::Rc;

use harnless::config::boot::{mount, Downcast, MountGuard, MountedResource, PluginFactory, PluginRegistry};
use harnless::config::bundles::BundleStore;
use harnless::config::compose::{apply_layer, compose_layers, list, Composer};
use harnless::config::dir_store::{DirStore, Fetched};
use harnless::config::doc::{BundleDoc, ConfigDoc, Layer, PatchOp, ProfileSpec, Row};
use harnless::config::error::{ConfigError, Stage};
use harnless::config::memory::MemoryStore;
use harnless::config::profiles::ProfileStore;
use harnless::config::subst::{expand, Subst};
use harnless::yaml::Yaml;

fn subst() -> Subst {
    Subst::new().with_env("HARNESS_KEY".to_string(), "sk-1".to_string()).with_home("/home/u".to_string())
}

fn yaml(text: &str) -> Yaml {
    Yaml::parse(text).unwrap()
}

fn row(id: &str, plugin: &str, config: Yaml) -> Row {
    Row { id: id.to_string(), plugin: plugin.to_string(), config }
}

fn cfg(pairs: &[(&str, &str)]) -> Yaml {
    Yaml::Mapping(pairs.iter().map(|(k, v)| (Yaml::text(k), Yaml::text(v))).collect())
}

fn bundle(name: &str, rows: Vec<Row>) -> BundleDoc {
    BundleDoc { name: name.to_string(), rows }
}

fn spec(name: &str, bundles: &[&str]) -> ProfileSpec {
    ProfileSpec {
        name: name.to_string(),
        bundles: bundles.iter().map(|b| b.to_string()).collect(),
        rows: Vec::new(),
        patch: Vec::new(),
        system_prompt: None,
        model: None,
    }
}

fn field<'a>(value: &'a Yaml, key: &str) -> &'a str {
    value.get(key).unwrap().as_str().unwrap()
}

// ---------------------------------------------------------------------------
// Substitution
// ---------------------------------------------------------------------------

#[test]
fn env_and_home_expand_inside_plugin_config() {
    let value = yaml(
        "plugin: llm-openai\nconfig:\n  api_key: ${env:HARNESS_KEY}\n  cache: ${home}/.cache\n",
    );
    let out = expand(&value, &subst()).unwrap();
    let config = out.get("config").unwrap();
    assert_eq!(config.get("api_key").unwrap().as_str(), Some("sk-1"));
    assert_eq!(config.get("cache").unwrap().as_str(), Some("/home/u/.cache"));
}

#[test]
fn interpolation_within_a_string_works() {
    assert_eq!(subst().expand_str("${env:HARNESS_KEY}@${home}").unwrap(), "sk-1@/home/u");
}

#[test]
fn strings_without_expressions_are_untouched() {
    assert_eq!(subst().expand_str("plain $not ${x").is_err(), true);
    assert_eq!(subst().expand_str("plain").unwrap(), "plain");
}

#[test]
fn unknown_function_is_a_typed_error_naming_the_expression() {
    let err = subst().expand_str("${eval:1+1}").unwrap_err();
    assert_eq!(err.code, "unknown-substitution");
    assert_eq!(err.stage, Stage::Substitute);
    assert!(err.message.contains("${eval:1+1}"), "{}", err.message);
}

#[test]
fn unset_env_var_is_a_typed_error() {
    let err = subst().expand_str("${env:NOPE}").unwrap_err();
    assert_eq!(err.code, "missing-env");
    assert!(err.message.contains("NOPE"));
}

#[test]
fn unterminated_expression_is_a_typed_error() {
    let err = subst().expand_str("${env:A").unwrap_err();
    assert_eq!(err.code, "bad-substitution");
}

#[test]
fn expansion_is_deterministic_so_dumps_stay_stable() {
    let value = yaml("a: ${env:HARNESS_KEY}\nb: ${home}/x\n");
    let once = expand(&value, &subst()).unwrap();
    let twice = expand(&value, &subst()).unwrap();
    assert_eq!(once, twice);
}

#[test]
fn a_colliding_substituted_key_is_a_typed_error() {
    let s = Subst::new().with_env("A".to_string(), "fixed".to_string());
    let value = yaml("${env:A}: one\nfixed: two\n");
    let err = expand(&value, &s).unwrap_err();
    assert_eq!(err.code, "substitution-key-collision");
    assert_eq!(err.stage, Stage::Substitute);
}

#[test]
fn home_without_a_home_is_missing() {
    let err = Subst::new().expand_str("${home}").unwrap_err();
    assert_eq!(err.code, "missing-home");
    assert_eq!(err.stage, Stage::Substitute);
}

#[test]
fn the_home_suffix_is_appended() {
    assert_eq!(subst().expand_str("a ${home:/x} b").unwrap(), "a /home/u/x b");
}

#[test]
fn an_empty_variable_name_is_a_bad_expression() {
    assert!(subst().expand_str("${env:}").is_err());
}

#[test]
fn expansion_reaches_sequences_and_tagged_values() {
    let value = Yaml::Tagged(
        "!t".to_string(),
        Box::new(Yaml::Sequence(vec![Yaml::text("${home}"), Yaml::Bool(true), Yaml::Null])),
    );
    let out = expand(&value, &subst()).unwrap();
    assert_eq!(
        out,
        Yaml::Tagged(
            "!t".to_string(),
            Box::new(Yaml::Sequence(vec![Yaml::text("/home/u"), Yaml::Bool(true), Yaml::Null])),
        )
    );
}

#[test]
fn expansion_keeps_every_entry() {
    let value = yaml("x: 1\n${env:HARNESS_KEY}: ${home}\nz: [a]\n");
    let out = expand(&value, &subst()).unwrap();
    match (&value, &out) {
        (Yaml::Mapping(before), Yaml::Mapping(after)) => assert_eq!(before.len(), after.len()),
        _ => panic!("not mappings"),
    }
    assert_eq!(out.get("sk-1").unwrap().as_str(), Some("/home/u"));
}

// ---------------------------------------------------------------------------
// Documents
// ---------------------------------------------------------------------------

#[test]
fn config_doc_round_trips() {
    let doc = ConfigDoc {
        name: "default".to_string(),
        rows: vec![
            Row {
                id: "model".to_string(),
                plugin: "llm-replay".to_string(),
                config: yaml("provider: openai"),
            },
            Row::new("spine", "spine"),
        ],
        system_prompt: Some("be terse".to_string()),
        model: None,
    };
    let text = doc.dump();
    assert_eq!(ConfigDoc::load(&text).expect("reloads"), doc);
    assert_eq!(ConfigDoc::load(&text).unwrap().dump(), text);
}

#[test]
fn unknown_fields_are_rejected() {
    let text = "name: x\nrows: []\nbogus: 1\n";
    assert!(ConfigDoc::load(text).is_err());
}

#[test]
fn a_patch_file_is_a_single_set_op() {
    let layer = Layer::load("op: set\nid: model\nconfig:\n  kind: none\n").unwrap();
    assert_eq!(layer.patch.len(), 1);
    assert!(layer.rows.is_empty());
    assert_eq!(
        layer.patch[0],
        PatchOp::SetConfig { id: "model".to_string(), config: yaml("kind: none") }
    );
}

#[test]
fn a_patch_file_is_a_single_insert_row() {
    let layer = Layer::load("id: extra\nplugin: bash\n").unwrap();
    assert_eq!(layer.rows.len(), 1);
    assert_eq!(layer.rows[0].id, "extra");
}

#[test]
fn a_patch_file_is_a_sequence_of_ops() {
    let layer =
        Layer::load("- op: insert\n  id: a\n  plugin: bash\n- op: set\n  id: b\n  config: 1\n").unwrap();
    assert_eq!(layer.patch.len(), 2);
    assert!(layer.rows.is_empty());
}

#[test]
fn a_malformed_patch_is_a_typed_error() {
    let err = Layer::load("[1, 2, this is not a row").unwrap_err();
    assert_eq!(err.code, "bad-patch");
    assert_eq!(err.stage, Stage::Patch);
}

#[test]
fn a_dump_writes_every_field() {
    let doc = ConfigDoc {
        name: "d".to_string(),
        rows: vec![Row::new("a", "p")],
        system_prompt: None,
        model: None,
    };
    assert_eq!(
        doc.dump(),
        "name: d\nrows:\n- id: a\n  plugin: p\n  config: null\nsystem_prompt: null\nmodel: null\n"
    );
}

#[test]
fn profiles_and_bundles_round_trip() {
    let profile = ProfileSpec {
        rows: vec![row("r", "p", cfg(&[("k", "v")]))],
        patch: vec![
            PatchOp::SetConfig { id: "r".to_string(), config: Yaml::Bool(true) },
            PatchOp::Insert { row: Row::new("s", "q") },
        ],
        system_prompt: Some("hi".to_string()),
        model: Some(yaml("provider: x")),
        ..spec("p", &["a", "b"])
    };
    assert_eq!(ProfileSpec::load(&profile.dump()).unwrap(), profile);
    let b = bundle("b", vec![row("r", "p", yaml("[1, -2, 2.5, null]"))]);
    assert_eq!(BundleDoc::load(&b.dump()).unwrap(), b);
    let layer = Layer { name: "l".to_string(), rows: b.copy().rows, patch: profile.copy().patch };
    assert_eq!(Layer::load(&layer.dump()).unwrap(), layer);
    assert_eq!(b.as_layer(), Layer::rows("b".to_string(), b.copy().rows));
}

#[test]
fn every_line_of_text_survives_a_dump() {
    let awkward = [
        "", " ", "~", "null", "Null", "true", "no", "yes", "on", "0", "007", "0x1F", "0o17", "1_000",
        "1e3", "-1", "+1", ".5", ".inf", "-.inf", ".nan", "---", "...", "--- a", "- a", "? a", ": a",
        "a: b", "a:", ":", "-", "?", "#", "a #b", "a#b", "[a]", "{a}", "a, b", "&a", "*a", "!a", "!!str a",
        "|", ">", "'", "\"", "a'b", "'a'", "%a", "@a", "`a", "<<", "=", " lead", "trail ", "a  b", "\\n",
        "2001-12-14", "12:30:45", "key", "${env:X}", "0b11", "1.5", "+.inf", "0.", "a\\", "]", "}", ",",
    ];
    for s in awkward {
        let doc = ConfigDoc {
            name: s.to_string(),
            rows: vec![row(s, s, Yaml::Sequence(vec![Yaml::text(s), cfg(&[(s, s), ("other", s)])]))],
            system_prompt: Some(s.to_string()),
            model: Some(Yaml::text(s)),
        };
        assert_eq!(ConfigDoc::load(&doc.dump()).unwrap(), doc, "{s:?} did not survive");
        let layer = Layer::rows(s.to_string(), vec![row(s, s, Yaml::text(s))]);
        assert_eq!(Layer::load(&layer.dump()).unwrap(), layer, "{s:?} did not survive");
    }
    for first in ' '..='~' {
        for second in ' '..='~' {
            let s: String = [first, second].iter().collect();
            let v = cfg(&[(&s, &s)]);
            assert_eq!(Yaml::parse(&v.emit().unwrap()).unwrap(), v, "{s:?} did not survive");
        }
    }
}

#[test]
fn deep_and_long_nodes_survive_a_dump() {
    let mut v = Yaml::Sequence(vec![Yaml::Number(7.into()), Yaml::Bool(false), Yaml::Mapping(vec![])]);
    for i in 0..62 {
        v = if i % 2 == 0 {
            Yaml::Mapping(vec![(Yaml::text(&"k: ".repeat(42)), v), (Yaml::text("z"), Yaml::Null)])
        } else {
            Yaml::Sequence(vec![v, Yaml::text(&"w ".repeat(512)), Yaml::Sequence(vec![])])
        };
    }
    let text = v.emit().unwrap();
    assert_eq!(Yaml::parse(&text).unwrap(), v);
    assert_eq!(Yaml::parse(text.trim()).unwrap(), v);
}

/// A text in each kind of place: on its own, in rows of rows, under keys of keys,
/// last and not last.
fn places(s: &str) -> Vec<Yaml> {
    let t = || Yaml::text(s);
    let under = |v: Yaml| Yaml::Mapping(vec![(Yaml::text("k"), v)]);
    let at = |v: Yaml| Yaml::Mapping(vec![(t(), v)]);
    let tag = |v: Yaml| Yaml::Tagged("!tag-1".to_string(), Box::new(v));
    vec![
        t(),
        Yaml::Sequence(vec![t(), t()]),
        under(t()),
        Yaml::Mapping(vec![(Yaml::text("k"), t()), (Yaml::text("l"), t()), (Yaml::text("m"), Yaml::Null)]),
        under(Yaml::Sequence(vec![t(), under(t()), Yaml::Sequence(vec![t(), t()])])),
        Yaml::Sequence(vec![Yaml::Sequence(vec![under(t()), t()]), under(under(t())), Yaml::Bool(true)]),
        at(t()),
        under(Yaml::Mapping(vec![
            (t(), Yaml::Sequence(vec![t(), at(Yaml::Null)])),
            (Yaml::text("another key"), at(Yaml::Sequence(vec![]))),
            (Yaml::Null, at(at(t()))),
            (Yaml::Bool(false), Yaml::Mapping(vec![])),
            (Yaml::Number((-7).into()), Yaml::Sequence(vec![])),
            (Yaml::Number(7.into()), t()),
        ])),
        Yaml::Sequence(vec![at(Yaml::Sequence(vec![at(t())])), at(Yaml::Null)]),
        tag(t()),
        under(tag(t())),
        at(tag(at(tag(t())))),
        Yaml::Sequence(vec![tag(t()), tag(Yaml::Sequence(vec![tag(t()), t()])), tag(at(t())), tag(Yaml::Null)]),
        tag(at(tag(Yaml::Sequence(vec![tag(t()), at(tag(Yaml::Mapping(vec![])))])))),
    ]
}

/// Whether `c` is white space that stands unquoted at the end of a text.
fn soft(c: char) -> bool {
    c.is_whitespace() && !" \t\u{b}\u{c}\r\u{85}".contains(c)
}

/// Whether `v` neither starts nor ends in soft white space.
fn firm(v: &Yaml) -> bool {
    fn end(v: &Yaml) -> bool {
        match v {
            Yaml::Text(s) => !s.ends_with(soft),
            Yaml::Sequence(a) => a.last().map_or(true, end),
            Yaml::Mapping(m) => m.last().map_or(true, |(_, v)| end(v)),
            Yaml::Tagged(_, v) => end(v),
            _ => true,
        }
    }
    let start = match v {
        Yaml::Text(s) => !s.starts_with(soft),
        Yaml::Mapping(m) => !matches!(m.first(), Some((Yaml::Text(s), _)) if s.starts_with(soft)),
        _ => true,
    };
    start && end(v)
}

fn survives(s: &str) {
    for v in places(s) {
        survives_as(&v);
    }
}

fn survives_as(v: &Yaml) {
    let text = v.emit().unwrap();
    assert_eq!(&Yaml::parse(&text).unwrap(), v, "{v:?} did not survive as {text:?}");
    if firm(v) {
        assert_eq!(&Yaml::parse(text.trim()).unwrap(), v, "{v:?} did not survive as {text:?}");
    }
}

#[test]
fn texts_of_several_lines_survive_a_dump() {
    let alphabet = ['a', ' ', '\n', '-', ':', '#', '\'', '"', '|'];
    let mut words = vec![String::new()];
    let mut longer = words.clone();
    for _ in 0..4 {
        longer = longer
            .iter()
            .flat_map(|w| alphabet.iter().map(move |c| format!("{w}{c}")))
            .collect();
        words.extend(longer.iter().cloned());
    }
    for word in words {
        survives(&word);
    }
    let controls = [
        'a', ' ', '\n', '\t', '\r', '\u{7}', '\u{b}', '\u{85}', '\u{a0}', '\u{2003}', '\u{2028}',
        '\u{2029}', '\u{3000}', '\u{feff}',
    ];
    for first in controls {
        for second in controls {
            for third in controls {
                survives(&[first, second, third].iter().collect::<String>());
            }
        }
    }
    for s in [
        "You are a helpful agent.\n\n- be brief\n  - be kind\n",
        "---\nname: x\n---\n",
        "...\n",
        "\n\n  indented\n\nless\n\n\n",
        "key: |\n  nested\n",
        "%YAML 1.2\n# no comment\n",
        "caf\u{e9} \u{4e2d}\u{6587}\n\u{1f600} end",
    ] {
        survives(s);
    }
}

#[test]
fn every_character_survives_a_dump() {
    for code in 0..=0x10ffffu32 {
        let Some(c) = char::from_u32(code) else { continue };
        // Every code of the basic plane, and a sample of the others.
        if code >= 0x10000 && code % 97 != 0 {
            continue;
        }
        let bare = c.to_string();
        survives_as(&Yaml::Sequence(vec![Yaml::text(&bare)]));
        survives_as(&Yaml::Sequence(vec![Yaml::text(&format!("{c}.")), Yaml::text(&format!("a{c}\n{c} b"))]));
        survives_as(&Yaml::Mapping(vec![(Yaml::text(&bare), Yaml::text(&format!("b{c}")))]));
    }
}

#[test]
fn every_character_of_a_tag_survives_a_dump() {
    let inner = || [Yaml::Null, Yaml::text(""), Yaml::text("7"), Yaml::Number(7.into()), Yaml::Sequence(vec![])];
    for code in 1..=0x10ffffu32 {
        let Some(c) = char::from_u32(code) else { continue };
        // Every code of the basic plane, and a sample of the others.
        if ",[]".contains(c) || code >= 0x10000 && code % 97 != 0 {
            continue;
        }
        let first = if c == '!' { "!x".to_string() } else { format!("!{c}") };
        for name in [first, format!("!a{c}b{c}")] {
            let tagged = |v: Yaml| Yaml::Tagged(name.clone(), Box::new(v));
            survives_as(&Yaml::Mapping(vec![(Yaml::text("k"), tagged(Yaml::text("v")))]));
            if code < 0x180 {
                for v in inner() {
                    survives_as(&tagged(v.copy()));
                    survives_as(&Yaml::Mapping(vec![(Yaml::text("k"), Yaml::Sequence(vec![tagged(v)]))]));
                }
            }
        }
    }
    survives_as(&Yaml::Tagged(format!("!{}", "t".repeat(3000)), Box::new(Yaml::text("x"))));
    survives_as(&Yaml::Tagged(format!("!{}", "\u{4e2d}".repeat(3000)), Box::new(Yaml::text("x"))));
}

#[test]
fn a_tag_that_the_reader_does_not_take_is_lost() {
    for name in ["!a,b", "!a[b", "!!x"] {
        let v = Yaml::Tagged(name.to_string(), Box::new(Yaml::text("x")));
        assert_ne!(Yaml::parse(&v.emit().unwrap()), Ok(v));
    }
}

#[test]
fn keys_of_any_length_survive_a_dump() {
    for n in [127, 128, 129, 300, 1023, 1024, 1025, 5000] {
        for unit in ["k", "\u{1}", "\u{e9}", "k\n", ": ", "\u{2028}", "\u{feff}"] {
            survives(&unit.repeat(n / unit.chars().count()));
        }
    }
}

/// Nodes drawn from a fixed stream: texts, numbers, collections, and any of them as
/// keys, under one tag at most.
struct Stream(u64);

impl Stream {
    fn pick(&mut self, n: usize) -> usize {
        self.0 = self.0.wrapping_mul(6364136223846793005).wrapping_add(1442695040888963407);
        (self.0 >> 33) as usize % n
    }

    fn text(&mut self) -> Yaml {
        let texts = [
            "", "a", "b", " ", "x y", "- a", "? a", ": a", "a: b", "#", "'", "\"", "|", "null", "7", "~",
            "two\nlines", "ends\n", "\n", " lead\nin", "a \nb", "\ta", "k\u{2028}l", "\u{85}", "{", "[a]", "!t",
            "long long long long long long long long long long long long long long long long long long long long long long long long long long long long",
        ];
        Yaml::text(texts[self.pick(texts.len())])
    }

    fn node(&mut self, depth: usize) -> Yaml {
        match self.pick(if depth == 0 { 5 } else { 11 }) {
            0 => Yaml::Null,
            1 => Yaml::Bool(self.pick(2) == 0),
            2 => Yaml::Number((self.pick(9) as i64 - 4).into()),
            3 => Yaml::Number((self.pick(9) as f64 / 2.0).into()),
            4 | 5 => self.text(),
            6 | 7 => {
                let n = self.pick(4);
                Yaml::Sequence((0..n).map(|_| self.node(depth - 1)).collect())
            }
            8 | 9 => {
                let n = self.pick(4);
                Yaml::Mapping((0..n).map(|_| (self.node(depth - 1), self.node(depth - 1))).collect())
            }
            _ => match self.node(depth) {
                Yaml::Tagged(tag, v) => Yaml::Tagged(tag, v),
                v => Yaml::Tagged("!t".to_string(), Box::new(v)),
            },
        }
    }
}

/// Whether the keys of every mapping are told apart, and the writer keeps its start.
fn kept(v: &Yaml, tagged: bool) -> bool {
    match v {
        Yaml::Sequence(a) => a.iter().all(|v| kept(v, false)),
        Yaml::Mapping(m) => {
            let apart = (0..m.len())
                .all(|j| (0..j).all(|i| !m[i].0.same_key(&m[j].0)));
            let started = tagged
                || m.len() != 1
                || match &m[0].0 {
                    Yaml::Mapping(inner) => inner.len() != 1,
                    Yaml::Tagged(..) => false,
                    _ => true,
                };
            apart && started && m.iter().all(|(k, v)| kept(k, false) && kept(v, false))
        }
        Yaml::Tagged(_, v) => kept(v, true),
        _ => true,
    }
}

#[test]
fn keys_of_any_kind_survive_a_dump() {
    let mut stream = Stream(7);
    let mut collections = 0;
    for _ in 0..40_000 {
        let v = stream.node(4);
        if kept(&v, false) {
            if let Yaml::Mapping(m) = &v {
                collections += m.iter().filter(|(k, _)| matches!(k, Yaml::Sequence(_) | Yaml::Mapping(_))).count();
            }
            survives_as(&v);
        }
    }
    assert!(collections > 500);
    for code in (0..0x3000u32).chain([0xfeff, 0xfffd, 0x1f600]) {
        let Some(c) = char::from_u32(code) else { continue };
        let word = || Yaml::text(&format!("a{c}\n{c} b"));
        let key = Yaml::Sequence(vec![Yaml::text(&c.to_string()), word()]);
        survives_as(&Yaml::Mapping(vec![(key.copy(), word()), (Yaml::Mapping(vec![(word(), key)]), Yaml::Null)]));
    }
    let fractions = [0.0, 0.5, -1.5e300, f64::INFINITY, f64::NAN];
    survives_as(&Yaml::Mapping(fractions.iter().map(|f| (Yaml::Number((*f).into()), Yaml::text("x"))).collect()));
    let pair = |n: u64| Yaml::Mapping(vec![(Yaml::text("a"), Yaml::Number(n.into())), (Yaml::text("b"), Yaml::Null)]);
    survives_as(&Yaml::Mapping(vec![(pair(1), Yaml::Null), (pair(2), Yaml::Null), (pair(3), pair(1))]));
}

#[test]
fn keys_are_one_where_a_mapping_takes_them_for_one() {
    let number = |f: f64| Yaml::Number(f.into());
    let one = || Yaml::Number(1.into());
    let tag = |name: &str| Yaml::Tagged(name.to_string(), Box::new(Yaml::Null));
    let pairs = |m: &[(&str, u64)]| {
        Yaml::Mapping(m.iter().map(|(k, v)| (Yaml::text(k), Yaml::Number((*v).into()))).collect())
    };
    for (a, b, same) in [
        (number(0.0), number(-0.0), true),
        (number(f64::NAN), number(f64::NAN), true),
        (number(0.5), number(1.5), false),
        (one(), number(1.0), false),
        (one(), one(), true),
        (Yaml::Number((-1).into()), one(), false),
        (Yaml::text("1"), one(), false),
        (Yaml::Null, Yaml::Null, true),
        (Yaml::Bool(true), Yaml::Bool(false), false),
        (tag("!a"), tag("a"), true),
        (tag("!a"), tag("!b"), false),
        (pairs(&[("a", 1), ("b", 2)]), pairs(&[("b", 2), ("a", 1)]), true),
        (pairs(&[("a", 1), ("b", 2)]), pairs(&[("a", 2), ("b", 1)]), false),
        (pairs(&[("a", 1)]), pairs(&[]), false),
        (Yaml::Sequence(vec![one()]), Yaml::Sequence(vec![one(), one()]), false),
        (Yaml::Sequence(vec![number(0.0)]), Yaml::Sequence(vec![number(-0.0)]), true),
    ] {
        assert_eq!(a.same_key(&b), same, "{a:?} {b:?}");
        assert_eq!(b.same_key(&a), same, "{b:?} {a:?}");
    }
    let mut stream = Stream(11);
    let outside = |v: &Yaml| serde_yaml::from_str::<serde_yaml::Value>(&v.emit().unwrap()).unwrap();
    let nodes: Vec<Yaml> = (0..400).map(|_| stream.node(2)).filter(|v| kept(v, false)).collect();
    for a in &nodes {
        for b in &nodes {
            assert_eq!(a.same_key(b), outside(a) == outside(b), "{a:?} {b:?}");
        }
    }
}

#[test]
fn texts_inside_keys_are_expanded() {
    let subst = Subst::new().with_env("A".to_string(), "x".to_string()).with_env("B".to_string(), "x".to_string());
    let list = |s: &str| Yaml::Sequence(vec![Yaml::text(s)]);
    let tag = |s: &str| Yaml::Tagged("!t".to_string(), Box::new(Yaml::text(s)));
    let doc = |a: &str, b: &str, v: &str| {
        Yaml::Mapping(vec![(list(a), Yaml::text(v)), (tag(b), Yaml::Null), (Yaml::Null, Yaml::Null)])
    };
    assert_eq!(expand(&doc("${env:A}", "${env:B}!", "${env:A}"), &subst).unwrap(), doc("x", "x!", "x"));
    let two = Yaml::Mapping(vec![(list("${env:A}"), Yaml::Null), (list("${env:B}"), Yaml::Null)]);
    let err = expand(&two, &subst).unwrap_err();
    assert_eq!(err.code, "substitution-key-collision");
    assert_eq!(
        err.message,
        "expanding key \"Sequence [String(\\\"${env:B}\\\")]\" yields \"Sequence [String(\\\"x\\\")]\", which the mapping already carries; a substituted key must not overwrite another entry"
    );
    let inner = Yaml::Mapping(vec![(tag("${env:GONE}"), Yaml::Null), (Yaml::Null, Yaml::Null)]);
    assert_eq!(expand(&inner, &subst).unwrap_err().code, "missing-env");
}

#[test]
fn plain_text_is_shown_between_quotes() {
    for c in (' '..='~').filter(|c| !"\"'\\".contains(*c)) {
        assert_eq!(Yaml::text(&format!("a{c}")).show(), format!("String(\"a{c}\")"));
    }
    assert_eq!(Yaml::text("a\n\"").show(), "String(\"a\\n\\\"\")");
    assert_eq!(yaml("[1, {a: true}, !t x, 1.5]").show(), format!("{:?}", serde_yaml::from_str::<serde_yaml::Value>("[1, {a: true}, !t x, 1.5]").unwrap()));
    assert_eq!(Yaml::Tagged(String::new(), Box::new(Yaml::Null)).show(), "tagged");
}

#[test]
fn keys_survive_a_dump_as_deep_as_the_reader_goes() {
    let wraps: [&dyn Fn(Yaml) -> Yaml; 3] = [
        &|v| Yaml::Mapping(vec![(Yaml::Sequence(vec![v]), Yaml::Null)]),
        &|v| Yaml::Mapping(vec![(Yaml::Mapping(vec![(v, Yaml::Null), (Yaml::Null, Yaml::Null)]), Yaml::Null)]),
        &|v| Yaml::Sequence(vec![Yaml::Mapping(vec![(Yaml::Bool(true), Yaml::Null), (v, Yaml::text("x"))])]),
    ];
    for wrap in wraps {
        let mut v = Yaml::text("leaf\nof lines");
        for _ in 0..64 {
            v = wrap(v);
        }
        survives_as(&v);
    }
}

#[test]
fn a_key_of_one_entry_loses_the_start_of_its_mapping() {
    let one = |k: Yaml| Yaml::Mapping(vec![(k, Yaml::text("v"))]);
    survives_as(&Yaml::Tagged("!t".to_string(), Box::new(one(one(Yaml::text("k"))))));
    let lost = one(one(Yaml::text("k")));
    assert!(lost.emit().map_or(true, |text| Yaml::parse(&text) != Ok(lost)));
}

#[test]
fn a_node_survives_a_dump_as_deep_as_the_reader_goes() {
    let deep = |n: usize, wrap: &dyn Fn(Yaml) -> Yaml| {
        let mut v = Yaml::text("leaf\nof lines");
        for _ in 0..n {
            v = wrap(v);
        }
        v
    };
    let wraps: [&dyn Fn(Yaml) -> Yaml; 4] = [
        &|v| Yaml::Sequence(vec![v]),
        &|v| Yaml::Mapping(vec![(Yaml::text("k"), v)]),
        &|v| Yaml::Mapping(vec![(Yaml::text("k\nl"), v)]),
        &|v| Yaml::Tagged("!t".to_string(), Box::new(Yaml::Sequence(vec![v]))),
    ];
    for wrap in wraps {
        survives_as(&deep(127, wrap));
        survives_as(&deep(128, wrap));
        assert!(Yaml::parse(&deep(129, wrap).emit().unwrap()).is_err());
    }
}

#[test]
fn a_tag_of_a_tag_is_not_written() {
    let tag = |v: Yaml| Yaml::Tagged("!t".to_string(), Box::new(v));
    assert_eq!(tag(tag(Yaml::Null)).emit(), None);
}

#[test]
fn every_number_survives_a_dump() {
    let mut numbers: Vec<Yaml> = Vec::new();
    for n in [0, 1, 7, 10, 63, 1 << 40, i64::MAX as u64, u64::MAX] {
        numbers.push(Yaml::Number(n.into()));
    }
    for n in [-1, -8, -(1 << 40), i64::MIN + 1, i64::MIN] {
        numbers.push(Yaml::Number(n.into()));
    }
    let mut bits: u64 = 1;
    for _ in 0..20_000 {
        bits = bits.wrapping_mul(6364136223846793005).wrapping_add(1442695040888963407);
        numbers.push(Yaml::Number(f64::from_bits(bits).into()));
    }
    for f in [0.0, -0.0, 1.0, 0.7, 1e15, 1e16, 1e17, 1e-7, f64::MAX, f64::MIN_POSITIVE, 5e-324] {
        numbers.push(Yaml::Number(f.into()));
        numbers.push(Yaml::Number((-f).into()));
    }
    for f in [f64::INFINITY, f64::NEG_INFINITY, f64::NAN] {
        numbers.push(Yaml::Number(f.into()));
    }
    for v in numbers {
        let text = v.emit().unwrap();
        let back = Yaml::parse(&text).unwrap();
        assert_eq!(back, v, "{text:?}");
        assert_eq!(back.emit().unwrap(), text);
        assert_eq!(Yaml::parse(text.trim()).unwrap(), v, "{text:?}");
        let held = Yaml::Sequence(vec![v.copy(), Yaml::Mapping(vec![(Yaml::text("k"), v)])]);
        assert_eq!(Yaml::parse(&held.emit().unwrap()).unwrap(), held);
    }
}

#[test]
fn a_long_prompt_survives_a_dump() {
    survives(&"word ".repeat(40_000));
    survives(&"x".repeat(200_000));
    survives(&"a line of a prompt: with # marks\n".repeat(6_000));
    let doc = ConfigDoc {
        name: "d".to_string(),
        rows: vec![row("r", "p", Yaml::text("one\ntwo\n"))],
        system_prompt: Some("You are an agent.\n\nBe brief.\n".to_string()),
        model: Some(Yaml::text("m")),
    };
    assert_eq!(ConfigDoc::load(&doc.dump()).unwrap(), doc);
}

#[test]
fn a_line_feed_at_the_very_end_is_lost_on_loading() {
    let doc = ConfigDoc {
        name: "d".to_string(),
        rows: vec![],
        system_prompt: None,
        model: Some(Yaml::text("m\n")),
    };
    assert_eq!(ConfigDoc::load(&doc.dump()).unwrap().model, Some(Yaml::text("m")));
}

#[test]
fn a_document_with_odd_keys_and_tags_reloads_and_dumps_the_same() {
    let config = Yaml::Mapping(vec![
        (Yaml::text("caf\u{e9} \u{4e2d}"), Yaml::Tagged("!secret".to_string(), Box::new(Yaml::text("env")))),
        (Yaml::text(&"long ".repeat(40)), Yaml::text("no\u{a0}break")),
        (Yaml::Number(8080.into()), Yaml::Bool(true)),
    ]);
    let doc = ConfigDoc {
        name: "d".to_string(),
        rows: vec![row("r", "p", config)],
        system_prompt: Some("a\u{2028}b\u{3000}".to_string()),
        model: Some(Yaml::text("m")),
    };
    let text = doc.dump();
    let loaded = ConfigDoc::load(&text).unwrap();
    assert_eq!(loaded, doc);
    assert_eq!(loaded.dump(), text);
}

#[test]
fn a_null_model_reloads_as_none() {
    let doc = ConfigDoc {
        name: "d".to_string(),
        rows: vec![],
        system_prompt: None,
        model: Some(Yaml::Null),
    };
    assert_eq!(ConfigDoc::load(&doc.dump()).unwrap().model, None);
}

#[test]
fn a_document_that_is_no_document_is_a_typed_error() {
    assert_eq!(ProfileSpec::load("- 1\n").unwrap_err().stage, Stage::Compose);
    assert_eq!(BundleDoc::load("name: [").unwrap_err().stage, Stage::Compose);
    assert_eq!(ConfigDoc::load("7").unwrap_err().code, "bad-config");
}

#[test]
fn an_operation_may_be_named_or_not() {
    let layer = Layer::from_value(yaml("- id: a\n  plugin: p\n- id: b\n  plugin: q\n")).unwrap();
    assert_eq!(layer.rows.len() + layer.patch.len(), 2);
    let err = Layer::from_value(yaml("just a string")).unwrap_err();
    assert_eq!(err.code, "bad-patch");
    assert!(err.message.contains("string"), "{}", err.message);
}

#[test]
fn nested_tags_have_no_dump() {
    let inner = Yaml::Tagged("!b".to_string(), Box::new(Yaml::Null));
    let nested = Yaml::Tagged("!a".to_string(), Box::new(inner));
    let doc = ConfigDoc {
        name: "d".to_string(),
        rows: vec![row("a", "p", nested)],
        system_prompt: None,
        model: None,
    };
    assert!(doc.try_dump().is_none());
    assert!(Yaml::Bool(true).emit().unwrap().contains("true"));
}

#[test]
fn a_config_error_displays_its_parts() {
    let e = ConfigError::for_plugin(Stage::Mount, "unknown-plugin", "row".to_string(), "why".to_string());
    assert!(e.names_plugin("row"));
    assert!(!e.names_plugin("other"));
    assert_eq!(e.display(), "mount: why (plugin row)");
    let e = ConfigError::new(Stage::Patch, "bad-patch", "m".to_string());
    assert!(!e.names_plugin("m"));
    assert_eq!(e.display(), "patch: m");
    assert_eq!((Stage::Compose.as_str(), Stage::Substitute.as_str()), ("compose", "substitute"));
}

// ---------------------------------------------------------------------------
// Composition
// ---------------------------------------------------------------------------

#[test]
fn later_bundle_layers_outrank_earlier_ones() {
    let store = MemoryStore::new()
        .with_bundle(bundle("base", vec![row("model", "replay", cfg(&[("provider", "openai")]))]))
        .with_bundle(bundle("openai", vec![row("model", "openai", cfg(&[("provider", "openai")]))]))
        .with_profile(spec("default", &["base", "openai"]));
    let composer = Composer::new(&store, &store, Subst::new());
    let doc = composer.compose("default", &vec![]).unwrap().doc;
    assert_eq!(doc.row("model").unwrap().plugin, "openai");
    assert_eq!(doc.rows.len(), 1);
}

#[test]
fn precedence_is_bundles_then_profile_patch_then_home_then_overlay() {
    let store = MemoryStore::new()
        .with_bundle(bundle("b", vec![row("model", "from-bundle", Yaml::Null)]))
        .with_profile(ProfileSpec {
            name: "default".to_string(),
            bundles: vec!["b".to_string()],
            patch: vec![PatchOp::SetConfig {
                id: "model".to_string(),
                config: cfg(&[("v", "profile-patch")]),
            }],
            ..spec("default", &["b"])
        });
    let composer = match Composer::new(&store, &store, Subst::new())
        .with_home_patch_text("home".to_string(), "op: set\nid: model\nconfig:\n  v: home-patch\n")
    {
        Ok(c) => c,
        Err(e) => panic!("{}", e.display()),
    };
    let doc = composer.compose("default", &vec![]).unwrap().doc;
    assert_eq!(field(&doc.row("model").unwrap().config, "v"), "home-patch");
    let overlay = Layer::load("op: set\nid: model\nconfig:\n  v: overlay\n").unwrap();
    let doc = composer.compose("default", &vec![overlay]).unwrap().doc;
    assert_eq!(field(&doc.row("model").unwrap().config, "v"), "overlay");
}

#[test]
fn a_patch_set_replaces_the_whole_config_not_a_deep_merge() {
    let store = MemoryStore::new()
        .with_bundle(bundle("b", vec![row("model", "openai", cfg(&[("a", "1"), ("b", "2")]))]))
        .with_profile(spec("default", &["b"]));
    let composer = Composer::new(&store, &store, Subst::new());
    let overlay = Layer::load("op: set\nid: model\nconfig:\n  b: 9\n").unwrap();
    let doc = composer.compose("default", &vec![overlay]).unwrap().doc;
    let config = &doc.row("model").unwrap().config;
    assert_eq!(config.get("b"), Some(&Yaml::Number(9.into())));
    assert!(config.get("a").is_none(), "deep merge would have kept it: {config:?}");
}

#[test]
fn a_patch_on_an_absent_id_warns_and_still_composes() {
    let store = MemoryStore::new()
        .with_bundle(bundle("b", vec![row("model", "openai", Yaml::Null)]))
        .with_profile(spec("default", &["b"]));
    let composer = Composer::new(&store, &store, Subst::new());
    let overlay = Layer::load("op: set\nid: ghost\nconfig:\n  a: 1\n").unwrap();
    let out = composer.compose("default", &vec![overlay]).unwrap();
    assert_eq!(out.warnings.len(), 1);
    assert_eq!(out.warnings[0].code, "patch-target-missing");
    assert!(out.warnings[0].message.contains("ghost"));
    assert!(out.warnings[0].display().contains("patch-target-missing"));
    assert_eq!(out.doc.rows.len(), 1);
}

#[test]
fn an_overlay_swaps_one_row_without_touching_the_profile() {
    let store = MemoryStore::new()
        .with_bundle(bundle("b", vec![row("model", "openai", Yaml::Null)]))
        .with_profile(spec("default", &["b"]));
    let composer = Composer::new(&store, &store, Subst::new());
    let overlay = Layer::load("op: set\nid: model\nconfig:\n  script: /tmp/x.json\n").unwrap();
    let doc = composer.compose("default", &vec![overlay]).unwrap().doc;
    assert_eq!(field(&doc.row("model").unwrap().config, "script"), "/tmp/x.json");
    let stored = ProfileStore::load(&store, "default").unwrap().unwrap();
    assert!(stored.patch.is_empty());
}

#[test]
fn a_malformed_overlay_is_reported_and_the_last_good_document_stands() {
    let store = MemoryStore::new()
        .with_bundle(bundle("b", vec![row("model", "openai", Yaml::Null)]))
        .with_profile(spec("default", &["b"]));
    let composer = Composer::new(&store, &store, Subst::new());
    let good = composer.compose("default", &vec![]).unwrap().doc;
    let broken = Layer::load("op: set\nid: model\nthis is not: valid yaml: [");
    assert!(broken.is_err());
    assert_eq!(composer.compose("default", &vec![]).unwrap().doc, good);
}

#[test]
fn unknown_profile_and_unknown_bundle_are_named_errors() {
    let store = MemoryStore::new();
    let composer = Composer::new(&store, &store, Subst::new());
    let err = composer.compose("nope", &vec![]).unwrap_err();
    assert_eq!(err.code, "unknown-profile");
    assert_eq!(err.stage, Stage::Compose);
    assert!(err.names_plugin("nope"));

    let store = MemoryStore::new().with_profile(spec("default", &["gone"]));
    let composer = Composer::new(&store, &store, Subst::new());
    let err = composer.compose("default", &vec![]).unwrap_err();
    assert_eq!(err.code, "unknown-bundle");
    assert!(err.names_plugin("gone"));
}

#[test]
fn substitution_runs_over_the_composed_document() {
    let store = MemoryStore::new()
        .with_bundle(bundle(
            "b",
            vec![row("store", "storage-jsonl", cfg(&[("dir", "${home}/state")]))],
        ))
        .with_profile(spec("default", &["b"]));
    let subst = Subst::new().with_home("/home/u".to_string());
    let composer = Composer::new(&store, &store, subst);
    let doc = composer.compose("default", &vec![]).unwrap().doc;
    assert_eq!(field(&doc.row("store").unwrap().config, "dir"), "/home/u/state");
}

#[test]
fn a_bad_expression_fails_in_the_substitute_stage() {
    let store = MemoryStore::new()
        .with_bundle(bundle("b", vec![row("store", "x", cfg(&[("dir", "${eval:1}")]))]))
        .with_profile(spec("default", &["b"]));
    let composer = Composer::new(&store, &store, Subst::new());
    let err = composer.compose("default", &vec![]).unwrap_err();
    assert_eq!(err.stage, Stage::Substitute);
    assert_eq!(err.code, "unknown-substitution");
}

#[test]
fn the_layer_trace_names_every_contributing_layer() {
    let store = MemoryStore::new()
        .with_bundle(bundle("a", vec![]))
        .with_bundle(bundle("b", vec![]))
        .with_profile(spec("default", &["a", "b"]));
    let composer = Composer::new(&store, &store, Subst::new());
    let out = composer.compose("default", &vec![]).unwrap();
    assert_eq!(out.layers, vec!["a", "b"]);
}

#[test]
fn a_new_row_is_appended_and_a_known_one_replaced_in_place() {
    let layers = vec![
        Layer::rows("one".to_string(), vec![Row::new("a", "1"), Row::new("b", "1")]),
        Layer::rows("two".to_string(), vec![Row::new("c", "2"), Row::new("a", "2")]),
    ];
    let out = compose_layers("p", &spec("p", &[]), &layers, &Subst::new()).unwrap();
    let seen: Vec<(String, String)> =
        out.doc.rows.iter().map(|r| (r.id.clone(), r.plugin.clone())).collect();
    let want = [("a", "2"), ("b", "1"), ("c", "2")];
    assert_eq!(seen, want.map(|(a, b)| (a.to_string(), b.to_string())).to_vec());
}

#[test]
fn composing_splits_over_the_layers() {
    let first = Layer::rows("one".to_string(), vec![Row::new("a", "1")]);
    let second = Layer::patch(
        "two".to_string(),
        vec![
            PatchOp::SetConfig { id: "a".to_string(), config: Yaml::Bool(true) },
            PatchOp::SetConfig { id: "nobody".to_string(), config: Yaml::Null },
            PatchOp::Insert { row: Row::new("b", "2") },
        ],
    );
    let mut rows = Vec::new();
    let mut warnings = Vec::new();
    apply_layer(&mut rows, &first, "one", &mut warnings);
    apply_layer(&mut rows, &second, "two", &mut warnings);
    let whole = compose_layers("p", &spec("p", &[]), &vec![first, second], &Subst::new()).unwrap();
    assert_eq!(rows, whole.doc.rows);
    assert_eq!(warnings, whole.warnings);
    assert_eq!(rows.len(), 2);
    assert_eq!(rows[0].config, Yaml::Bool(true));
    assert_eq!(warnings.len(), 1);
}

#[test]
fn a_dump_of_the_composition_reloads() {
    let store = MemoryStore::new()
        .with_bundle(bundle("b", vec![row("m", "p", cfg(&[("k", "v")]))]))
        .with_profile(spec("default", &["b"]));
    let composer = Composer::new(&store, &store, Subst::new());
    let doc = composer.compose("default", &vec![]).unwrap().into_doc();
    let text = composer.dump(&doc);
    assert_eq!(ConfigDoc::load(&text).unwrap(), doc);
    assert_eq!(composer.profiles(), vec!["default"]);
    assert_eq!(BundleStore::names(&store), vec!["b"]);
    assert_eq!(composer.subst().expand_str("x").unwrap(), "x");
}

#[test]
fn a_spec_composes_without_being_stored() {
    let store = MemoryStore::new().with_bundle(bundle("b", vec![row("m", "p", Yaml::Null)]));
    let composer = Composer::new(&store, &store, Subst::new())
        .with_home_patch(vec![Layer::rows("home".to_string(), vec![Row::new("h", "q")])]);
    let out = composer.compose_spec(&spec("ad-hoc", &["b"]), &vec![]).unwrap();
    assert_eq!(out.layers, vec!["b", "home"]);
    assert_eq!(out.doc.rows.len(), 2);
    assert_eq!(out.doc.name, "ad-hoc");
    assert_eq!(composer.try_dump(&out.doc), Some(composer.dump(&out.doc)));
}

#[test]
fn an_empty_list_reads_none() {
    assert_eq!(list(&vec![]), "(none)");
    assert_eq!(list(&vec!["a".to_string(), "b".to_string()]), "a, b");
}

// ---------------------------------------------------------------------------
// Directory stores
// ---------------------------------------------------------------------------

#[test]
fn a_directory_store_reads_what_was_fetched() {
    let store = DirStore::new("/cfg".to_string());
    assert_eq!(store.profiles_dir(), "/cfg/profiles");
    assert_eq!(store.bundles_dir(), "/cfg/bundles");
    assert!(store.profile_file("x").starts_with("/cfg/profiles/x."));
    assert!(store.bundle_file("x").starts_with("/cfg/bundles/x."));
    assert!(store.profile("x", Fetched::Absent).unwrap().is_none());
    let good = store.profile("x", Fetched::Text("name: x\n".to_string())).unwrap().unwrap();
    assert_eq!(good, spec("x", &[]));
    assert!(store.profile("x", Fetched::Text("[".to_string())).is_err());
    assert!(store.profile("x", Fetched::Failed("disk".to_string())).unwrap_err().message.contains("disk"));
    let good = store.bundle("b", Fetched::Text("name: b\nrows: []\n".to_string())).unwrap().unwrap();
    assert_eq!(good, bundle("b", vec![]));
    assert!(store.bundle("b", Fetched::Absent).unwrap().is_none());
    assert!(store.bundle("b", Fetched::Failed("disk".to_string())).is_err());
}

#[test]
fn only_documents_are_listed_in_order() {
    let files: Vec<String> =
        ["b.yml", "notes.txt", ".yml", "a.yml"].iter().map(|s| s.to_string()).collect();
    assert_eq!(DirStore::document_names(&files), vec!["a", "b"]);
}

// ---------------------------------------------------------------------------
// Mount
// ---------------------------------------------------------------------------

#[derive(Clone)]
struct Log(Rc<RefCell<Vec<String>>>);

impl Log {
    fn fresh() -> Log {
        Log(Rc::new(RefCell::new(Vec::new())))
    }

    fn push(&self, entry: &str) {
        self.0.borrow_mut().push(entry.to_string());
    }

    fn events(&self) -> Vec<String> {
        self.0.borrow().clone()
    }
}

struct Probe {
    id: String,
    log: Log,
}

impl MountedResource for Probe {
    fn id(&self) -> &str {
        &self.id
    }

    fn dispose(&mut self) {
        self.log.push(&format!("dispose:{}", self.id));
    }
}

impl Downcast<Log> for Probe {
    fn downcast(&self) -> Option<&Log> {
        if self.id == "b" {
            Some(&self.log)
        } else {
            None
        }
    }
}

struct ProbeFactory {
    plugin: String,
    log: Log,
    fail: Option<String>,
}

impl PluginFactory<Probe> for ProbeFactory {
    fn plugin(&self) -> &str {
        &self.plugin
    }

    fn build(&self, id: &str, _config: &Yaml) -> Result<Probe, String> {
        if Some(id.to_string()) == self.fail {
            return Err("configured to fail".to_string());
        }
        Ok(Probe { id: id.to_string(), log: self.log.clone() })
    }
}

fn probe_registry(plugin: &str, log: Log, fail: Option<&str>) -> PluginRegistry<ProbeFactory> {
    let mut registry = PluginRegistry::new();
    registry.register(ProbeFactory { plugin: plugin.to_string(), log, fail: fail.map(|s| s.to_string()) });
    registry
}

fn doc(rows: Vec<&str>) -> ConfigDoc {
    ConfigDoc {
        name: "t".to_string(),
        rows: rows.iter().map(|id| Row::new(id, "probe")).collect(),
        system_prompt: None,
        model: None,
    }
}

fn release(resources: Vec<Probe>) {
    for mut r in resources {
        r.dispose();
    }
}

#[test]
fn a_midway_mount_failure_disposes_earlier_resources_in_reverse() {
    let log = Log::fresh();
    let registry = probe_registry("probe", log.clone(), Some("second"));
    let failure = match mount(&doc(vec!["first", "second", "third"]), &registry) {
        Ok(_) => panic!("mounted"),
        Err(f) => f,
    };
    let err = failure.error;
    assert_eq!(err.stage, Stage::Mount);
    assert_eq!(err.code, "plugin-build-failed");
    assert!(err.names_plugin("second"), "must name the failing row");
    release(failure.teardown);
    assert_eq!(
        log.events(),
        vec!["dispose:first"],
        "earlier resources disposed, later ones never built"
    );
}

#[test]
fn an_unregistered_plugin_names_the_row_and_plugin() {
    let log = Log::fresh();
    let registry = probe_registry("other", log, None);
    let err = match mount(&doc(vec!["first"]), &registry) {
        Ok(_) => panic!("mounted"),
        Err(f) => f.error,
    };
    assert_eq!(err.stage, Stage::Mount);
    assert_eq!(err.code, "unknown-plugin");
    assert!(err.names_plugin("first"));
    assert!(err.message.contains("probe"), "{}", err.message);
    assert_eq!(
        err.message,
        "row \"first\" names plugin \"probe\", which is not registered (known: other)"
    );
}

#[test]
fn a_successful_mount_disposes_everything_on_drop() {
    let log = Log::fresh();
    let registry = probe_registry("probe", log.clone(), None);
    let mut guard = match mount(&doc(vec!["a", "b"]), &registry) {
        Ok(g) => g,
        Err(_) => panic!("refused"),
    };
    assert_eq!(guard.ids(), vec!["a", "b"]);
    release(guard.dispose());
    assert_eq!(log.events(), vec!["dispose:b", "dispose:a"]);
}

#[test]
fn dispose_is_idempotent() {
    let log = Log::fresh();
    let registry = probe_registry("probe", log.clone(), None);
    let mut guard = match mount(&doc(vec!["a"]), &registry) {
        Ok(g) => g,
        Err(_) => panic!("refused"),
    };
    release(guard.dispose());
    release(guard.dispose());
    assert_eq!(log.events(), vec!["dispose:a"]);
}

#[test]
fn a_guard_finds_by_type_and_absorbs_another() {
    let log = Log::fresh();
    let probe = |id: &str| Probe { id: id.to_string(), log: log.clone() };
    let mut one: MountGuard<Probe> = MountGuard::new();
    assert!(one.is_empty());
    one.push(probe("a"));
    assert!(one.find::<Log>().is_none());
    let mut two: MountGuard<Probe> = MountGuard::new();
    two.push(probe("b"));
    one.absorb(&mut two);
    assert_eq!((one.len(), two.len()), (2, 0));
    assert!(one.find::<Log>().is_some());
    assert_eq!(one.ids(), vec!["a", "b"]);
}

#[test]
fn what_a_disposed_guard_takes_in_is_disposed_once() {
    let log = Log::fresh();
    let probe = |id: &str| Probe { id: id.to_string(), log: log.clone() };
    let mut a: MountGuard<Probe> = MountGuard::new();
    a.push(probe("early"));
    release(a.dispose());
    let mut b: MountGuard<Probe> = MountGuard::new();
    b.push(probe("r"));
    a.absorb(&mut b);
    a.push(probe("s"));
    release(b.dispose());
    release(a.dispose());
    release(a.dispose());
    assert_eq!(log.events(), vec!["dispose:early", "dispose:s", "dispose:r"]);
}

#[test]
fn a_registry_keeps_the_latest_factory_of_a_name() {
    let log = Log::fresh();
    let mut registry = probe_registry("probe", log.clone(), Some("x"));
    registry.register(ProbeFactory { plugin: "probe".to_string(), log: log.clone(), fail: None });
    registry.register(ProbeFactory { plugin: "alpha".to_string(), log, fail: None });
    assert_eq!(registry.names(), vec!["alpha", "probe"]);
    assert!(registry.get("probe").unwrap().fail.is_none());
    assert!(registry.get("nobody").is_none());
}

// ---------------------------------------------------------------------------
// What holds of every composition
// ---------------------------------------------------------------------------

#[test]
fn expansion_distributes_over_joining() {
    let parts = ["", "plain ", "${home}/x", "a$", "{b}", "}", "${env:HARNESS_KEY}", "$", "$$"];
    for a in parts {
        for b in parts {
            if a.ends_with('$') && b.starts_with('{') {
                continue;
            }
            let joined = format!("{a}{b}");
            let each = subst().expand_str(a).unwrap() + &subst().expand_str(b).unwrap();
            assert_eq!(subst().expand_str(&joined).unwrap(), each, "{joined:?}");
        }
    }
    // A split opening is one expression together, and two literals apart.
    assert_eq!(subst().expand_str("$").unwrap() + &subst().expand_str("{home}").unwrap(), "${home}");
    assert_eq!(subst().expand_str("${home}").unwrap(), "/home/u");
}

#[test]
fn a_layer_applied_twice_is_applied_once() {
    let layer = Layer {
        name: "l".to_string(),
        rows: vec![row("a", "p", cfg(&[("x", "1")])), row("b", "p", Yaml::Null)],
        patch: vec![
            PatchOp::SetConfig { id: "late".to_string(), config: Yaml::text("lost") },
            PatchOp::Insert { row: row("late", "q", Yaml::text("kept")) },
            PatchOp::SetConfig { id: "b".to_string(), config: Yaml::text("set") },
            PatchOp::SetConfig { id: "below".to_string(), config: Yaml::Bool(true) },
            PatchOp::SetConfig { id: "absent".to_string(), config: Yaml::Null },
        ],
    };
    let mut rows = vec![row("below", "p", Yaml::Null), row("a", "old", Yaml::Null)];
    let mut warnings = Vec::new();
    apply_layer(&mut rows, &layer, "l", &mut warnings);
    let once: Vec<Row> = rows.iter().map(|r| row(&r.id, &r.plugin, r.config.copy())).collect();
    assert_eq!(once.iter().map(|r| r.id.as_str()).collect::<Vec<_>>(), vec!["below", "a", "b", "late"]);
    assert_eq!(once[3], row("late", "q", Yaml::text("kept")));
    assert_eq!(warnings.len(), 2);
    apply_layer(&mut rows, &layer, "l", &mut warnings);
    assert_eq!(rows, once);
}

#[test]
fn a_stored_profile_composes_as_its_document() {
    let mut good = spec("good", &["b"]);
    good.system_prompt = Some("hi ${home}".to_string());
    let bad = spec("bad", &["b", "nowhere"]);
    let store = MemoryStore::new()
        .with_bundle(bundle("b", vec![row("r", "p", cfg(&[("k", "v")]))]))
        .with_profile(good.copy())
        .with_profile(bad.copy());
    let composer = Composer::new(&store, &store, subst());
    let by_name = composer.compose("good", &vec![]).unwrap();
    let by_document = composer.compose_spec(&good, &vec![]).unwrap();
    assert_eq!(by_name.doc, by_document.doc);
    assert_eq!(by_name.doc.system_prompt.as_deref(), Some("hi /home/u"));
    assert_eq!(by_name.warnings.len(), by_document.warnings.len());
    let (e, f) = match (composer.compose("bad", &vec![]), composer.compose_spec(&bad, &vec![])) {
        (Err(e), Err(f)) => (e, f),
        _ => panic!("a missing bundle composed"),
    };
    assert_eq!((e.stage, &e.code, &e.plugin), (f.stage, &f.code, &f.plugin));
    assert_eq!(e.plugin, "nowhere");
}

#[test]
fn a_refused_document_says_what_is_wrong_with_it() {
    let why = |text: &str| ConfigDoc::load(text).unwrap_err().message;
    assert_eq!(why("rows: []"), "invalid config document: missing field `name`");
    assert_eq!(
        why("name: d\nrow: []"),
        "invalid config document: unknown field `row`, expected one of `name`, `rows`, `system_prompt`, `model`"
    );
    assert_eq!(why("name: 7"), "invalid config document: invalid type: integer `7`, expected a string");
    assert_eq!(why("name: d\nrows: true"), "invalid config document: invalid type: boolean `true`, expected a sequence");
    assert_eq!(why("name: d\nrows: [x]"), "invalid config document: invalid type: string \"x\", expected struct Row");
    assert_eq!(why("name: d\nrows: [{id: a}]"), "invalid config document: missing field `plugin`");
    assert_eq!(why("[1]"), "invalid config document: invalid type: sequence, expected struct ConfigDoc");
    assert_eq!(why("name: -7"), "invalid config document: invalid type: integer `-7`, expected a string");
    assert_eq!(why("1: x"), "invalid config document: invalid type: integer `1`, expected field identifier");
    assert_eq!(
        BundleDoc::load("name: b\npatch: []").unwrap_err().message,
        "invalid bundle document: unknown field `patch`, expected `name` or `rows`"
    );
    let profile = |text: &str| ProfileSpec::load(text).unwrap_err().message;
    assert_eq!(
        profile("name: p\npatch: [{op: drop, id: a}]"),
        "invalid profile document: unknown variant `drop`, expected `set` or `insert`"
    );
    assert_eq!(profile("name: p\npatch: [{op: set, id: a}]"), "invalid profile document: missing field `config`");
    assert_eq!(profile("name: p\npatch: [{op: insert, id: a}]"), "invalid profile document: missing field `plugin`");
    assert_eq!(profile("name: p\npatch: [{id: a}]"), "invalid profile document: missing field `op`");
    assert_eq!(profile("name: p\nbundles: [[]]"), "invalid profile document: invalid type: sequence, expected a string");
    for (patch, reason) in [
        ("[]", "missing field `op`"),
        ("[7]", "invalid type: integer `7`, expected variant identifier"),
        ("[drop, a]", "unknown variant `drop`, expected `set` or `insert`"),
        ("[set]", "invalid length 0, expected struct variant PatchOp::Set with 2 elements"),
        ("[set, a]", "invalid length 1, expected struct variant PatchOp::Set with 2 elements"),
        ("[set, 1.5, b]", "invalid type: floating point `1.5`, expected a string"),
        ("[set, a, b, c]", "invalid length 3, expected 2 elements in sequence"),
        ("[set, a, !t b]", "untagged and internally tagged enums do not support enum input"),
        ("[insert, a, b]", "invalid type: sequence, expected struct variant PatchOp::Insert"),
        ("{op: set, id: 1, conf: 2}", "invalid type: integer `1`, expected a string"),
        ("{op: set, conf: 2, id: 1}", "unknown field `conf`, expected `id` or `config`"),
        ("{op: set, 0: a, id: b}", "duplicate field `id`"),
        ("{op: set, 2: a}", "invalid value: integer `2`, expected field index 0 <= i < 2"),
        ("{op: set, -1: a}", "invalid type: integer `-1`, expected field identifier"),
        ("{op: insert, x: 1, id: a}", "missing field `plugin`"),
        ("{op: insert, x: 1, id: a, plugin: b}", "unknown field `x`"),
        ("{op: insert, 1: 1, id: a, plugin: b}", "unexpected map key"),
        ("{op: insert, true: 1, id: 2}", "invalid type: boolean `true`, expected field identifier"),
        ("{id: !t a, op: drop}", "untagged and internally tagged enums do not support enum input"),
        ("{op: drop, id: !t a}", "unknown variant `drop`, expected `set` or `insert`"),
        ("!t {op: set}", "invalid type: enum, expected internally tagged enum PatchOp"),
        ("1e20", "invalid type: floating point `100000000000000000000.0`, expected internally tagged enum PatchOp"),
    ] {
        assert_eq!(profile(&format!("name: p\npatch: [{patch}]")), format!("invalid profile document: {reason}"));
    }
    assert_eq!(profile("rows: 1\nname: 2"), "invalid profile document: invalid type: integer `1`, expected a sequence");
    assert_eq!(profile("name: 2\nrows: 1"), "invalid profile document: invalid type: integer `2`, expected a string");
    assert_eq!(profile("rows: 1\nbogus: 1"), "invalid profile document: invalid type: integer `1`, expected a sequence");
    assert_eq!(
        profile("rows: [{plugin: 0.5, id: 1}]"),
        "invalid profile document: invalid type: floating point `0.5`, expected a string"
    );
    assert_eq!(
        profile("name: p\npatch: [{op: set, id: a, config: !t x}]"),
        "invalid profile document: untagged and internally tagged enums do not support enum input"
    );
}
