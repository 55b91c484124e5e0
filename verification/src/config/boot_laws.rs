//! What holds of mounting and releasing.

use vstd::prelude::*;

use crate::config::boot::{
    build_failed, built, built_all, reversed, unknown_plugin, PluginFactory, PluginRegistry,
};
use crate::config::compose::listing;
use crate::config::doc::RowView;
use crate::config::error::Stage;
use crate::text::{debug_text, occurs, occurs_at};
use crate::yaml::Yaml;

verus! {

/// Resources are released last first: what was mounted last comes first, what was
/// mounted before it follows in the same manner, and nothing is left out.
pub proof fn law_what_was_mounted_last_is_released_first<R>(live: Seq<R>, last: R)
    ensures
        reversed(live.push(last)) == seq![last] + reversed(live),
        reversed(live).len() == live.len(),
        reversed(Seq::<R>::empty()) == Seq::<R>::empty(),
{
    assert(reversed(live.push(last)) =~= seq![last] + reversed(live));
    assert(reversed(Seq::<R>::empty()) =~= Seq::<R>::empty());
}

/// A mount of two parts is released part by part, the second first.
pub proof fn law_later_mounts_are_released_before_earlier_ones<R>(first: Seq<R>, second: Seq<R>)
    ensures
        reversed(first + second) == reversed(second) + reversed(first),
        reversed(reversed(first)) == first,
{
    assert(reversed(first + second) =~= reversed(second) + reversed(first));
    assert(reversed(reversed(first)) =~= first);
}

/// A row is built by the factory that its plugin names, from the row's own id and
/// configuration; a row whose plugin is not registered is built by none.
pub proof fn law_a_row_is_built_by_its_plugin<R, F: PluginFactory<R>>(
    registry: PluginRegistry<F>,
    row: RowView,
    id: &str,
    config: Yaml,
    r: Result<R, String>,
)
    requires
        id@ == row.id,
        config@ == row.config,
    ensures
        registry.factories().contains_key(row.plugin) && call_ensures(
            F::build,
            (&registry.factories()[row.plugin], id, &config),
            r,
        ) ==> built(registry, row, r),
        !registry.factories().contains_key(row.plugin) ==> !built(registry, row, r),
        built(registry, row, r) ==> exists|i: &str, c: Yaml|
            i@ == row.id && c@ == row.config && #[trigger] call_ensures(
                F::build,
                (&registry.factories()[row.plugin], i, &c),
                r,
            ),
{
}

/// Every resource stands for the row in its place.
pub proof fn law_each_resource_stands_for_its_row<R, F: PluginFactory<R>>(
    registry: PluginRegistry<F>,
    rows: Seq<RowView>,
    resources: Seq<R>,
    next: R,
)
    ensures
        built_all(registry, rows, Seq::<R>::empty()),
        resources.len() < rows.len() ==> (built_all(registry, rows, resources.push(next)) <==> (
        built_all(registry, rows, resources) && built(
            registry,
            rows[resources.len() as int],
            Ok::<R, String>(next),
        ))),
        resources.len() >= rows.len() ==> !built_all(registry, rows, resources.push(next)),
{
    let more = resources.push(next);
    if resources.len() < rows.len() {
        if built_all(registry, rows, more) {
            assert(built(registry, rows[resources.len() as int], Ok(more[resources.len() as int])));
            assert forall|i: int| 0 <= i < resources.len() implies built(
                registry,
                rows[i],
                Ok(#[trigger] resources[i]),
            ) by {
                assert(built(registry, rows[i], Ok(more[i])));
            }
        }
    }
}

proof fn lemma_inside(a: Seq<char>, s: Seq<char>, b: Seq<char>, whole: Seq<char>)
    requires
        whole == a + s + b,
    ensures
        occurs(whole, s),
{
    assert(whole.subrange(a.len() as int, (a.len() + s.len()) as int) =~= s);
    assert(occurs_at(whole, s, a.len() as int));
}

/// A failed mount names its row, and says which plugin failed it and why: that it is not
/// among the registered ones, or what it answered.
pub proof fn law_a_failed_mount_names_its_row(row: RowView, known: Seq<Seq<char>>, why: Seq<char>)
    ensures
        ({
            let e = unknown_plugin(row, known);
            &&& e.stage == Stage::Mount
            &&& e.code == "unknown-plugin"@
            &&& e.plugin == row.id
            &&& occurs(e.message, debug_text(row.id))
            &&& occurs(e.message, debug_text(row.plugin))
            &&& occurs(e.message, listing(known))
        }),
        ({
            let e = build_failed(row, why);
            &&& e.stage == Stage::Mount
            &&& e.code == "plugin-build-failed"@
            &&& e.plugin == row.id
            &&& occurs(e.message, debug_text(row.id))
            &&& occurs(e.message, debug_text(row.plugin))
            &&& occurs(e.message, why)
        }),
{
    let e = unknown_plugin(row, known).message;
    let id = debug_text(row.id);
    let plugin = debug_text(row.plugin);
    let rest = ", which is not registered (known: "@ + listing(known) + ")"@;
    assert(e =~= "row "@ + id + (" names plugin "@ + plugin + rest));
    lemma_inside("row "@, id, " names plugin "@ + plugin + rest, e);
    assert(e =~= ("row "@ + id + " names plugin "@) + plugin + rest);
    lemma_inside("row "@ + id + " names plugin "@, plugin, rest, e);
    let front = "row "@ + id + " names plugin "@ + plugin + ", which is not registered (known: "@;
    assert(e =~= front + listing(known) + ")"@);
    lemma_inside(front, listing(known), ")"@, e);
    let b = build_failed(row, why).message;
    let tail = " failed to mount row "@ + id + ": "@ + why;
    assert(b =~= "plugin "@ + plugin + tail);
    lemma_inside("plugin "@, plugin, tail, b);
    let head = "plugin "@ + plugin + " failed to mount row "@;
    assert(b =~= head + id + (": "@ + why));
    lemma_inside(head, id, ": "@ + why, b);
    assert(b =~= (head + id + ": "@) + why + Seq::<char>::empty());
    lemma_inside(head + id + ": "@, why, Seq::empty(), b);
}

} // verus!
