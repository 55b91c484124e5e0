//! The boot half: mount a composed document, or say which plugin row failed.
//!
//! Rows mount in order. When a row fails, the resources of the rows before it
//! come back to be released in reverse order, so a failed boot leaves nothing
//! live; and the failure names the row.

use vstd::prelude::*;

use crate::assoc::Assoc;
use crate::config::compose::{list, listing};
use crate::config::doc::{ConfigDoc, Row, RowView};
use crate::config::error::{ConfigError, ConfigErrorView, Stage};
use crate::config::memory::{keys, sorted_keys};
use crate::text::{cat, cat5, cat7, debug_text, in_order, owned, quoted, texts};
use crate::yaml::Yaml;

verus! {

/// One mounted row's live resource.
pub trait MountedResource: Sized {
    /// The row id this resource was mounted for.
    fn id(&self) -> (r: &str);

    /// Release this resource. A resource may already have been released by its
    /// own owner, so releasing it again does nothing.
    fn dispose(&mut self);
}

/// A resource that may be, or hold, a `T`.
pub trait Downcast<T> {
    /// The `T`, where there is one.
    fn downcast(&self) -> (r: Option<&T>);
}

/// What builds the resource of a row.
pub trait PluginFactory<R> {
    /// The plugin name this factory is registered under.
    fn plugin(&self) -> (r: &str);

    /// Build the resource of row `id`. The config arrives untouched; an error is
    /// how a plugin refuses it.
    fn build(&self, id: &str, config: &Yaml) -> (r: Result<R, String>);
}

// ---------------------------------------------------------------------------
// The registry
// ---------------------------------------------------------------------------

/// The plugin registry: name to factory.
pub struct PluginRegistry<F> {
    factories: Assoc<String, F>,
}

impl<F> PluginRegistry<F> {
    /// The factories, by plugin name.
    pub closed spec fn factories(&self) -> Map<Seq<char>, F> {
        self.factories@
    }

    /// The registered names, in the order they were first registered.
    pub closed spec fn registered(&self) -> Seq<Seq<char>> {
        keys(self.factories.listed())
    }

    /// An empty registry.
    pub fn new() -> (r: PluginRegistry<F>)
        ensures
            r.factories() == Map::<Seq<char>, F>::empty(),
            r.registered() == Seq::<Seq<char>>::empty(),
    {
        let r = PluginRegistry { factories: Assoc::new() };
        assert(r.registered() =~= Seq::<Seq<char>>::empty());
        r
    }

    /// Register `factory` under its own plugin name, replacing any earlier
    /// registration.
    pub fn register<R>(&mut self, factory: F) where F: PluginFactory<R>
        ensures
            exists|name: &str| #[trigger]
                call_ensures(F::plugin, (&factory,), name) && final(self).factories() == old(
                    self).factories().insert(name@, factory) && final(self).registered() == (if old(
                    self).factories().contains_key(name@) {
                    old(self).registered()
                } else {
                    old(self).registered().push(name@)
                }),
    {
        let name = factory.plugin();
        assert(call_ensures(F::plugin, (&factory,), name));
        let key = owned(name);
        let ghost before = self.registered();
        let ghost known = self.factories().contains_key(name@);
        self.factories.insert(key, factory);
        assert(self.registered() =~= if known {
            before
        } else {
            before.push(name@)
        });
    }

    /// The factory registered under `plugin`, if any.
    pub fn get(&self, plugin: &str) -> (r: Option<&F>)
        ensures
            match r {
                Some(f) => self.factories().contains_key(plugin@) && *f
                    == self.factories()[plugin@],
                None => !self.factories().contains_key(plugin@),
            },
    {
        self.factories.get(&owned(plugin))
    }

    /// Registered plugin names, in order.
    pub fn names(&self) -> (r: Vec<String>)
        ensures
            texts(r@) == in_order(self.registered()),
    {
        sorted_keys(&self.factories)
    }
}

// ---------------------------------------------------------------------------
// The guard
// ---------------------------------------------------------------------------

/// The resources a mount handed back, in mount order.
pub struct MountGuard<R> {
    resources: Vec<R>,
}

/// A sequence from its end to its start.
pub open spec fn reversed<R>(s: Seq<R>) -> Seq<R> {
    Seq::new(s.len(), |i: int| s[s.len() - 1 - i])
}

impl<R> MountGuard<R> {
    /// The live resources, in mount order.
    pub closed spec fn live(&self) -> Seq<R> {
        self.resources@
    }

    /// An empty guard.
    pub fn new() -> (r: MountGuard<R>)
        ensures
            r.live() == Seq::<R>::empty(),
    {
        MountGuard { resources: Vec::new() }
    }

    /// Take ownership of a mounted resource.
    pub fn push(&mut self, resource: R)
        ensures
            final(self).live() == old(self).live().push(resource),
    {
        self.resources.push(resource);
    }

    /// Take ownership of every resource another guard holds, behind those here.
    /// The other guard is left empty.
    pub fn absorb(&mut self, other: &mut MountGuard<R>)
        ensures
            final(self).live() == old(self).live() + old(other).live(),
            final(other).live() == Seq::<R>::empty(),
    {
        let mut taken: Vec<R> = Vec::new();
        std::mem::swap(&mut taken, &mut other.resources);
        self.resources.append(&mut taken);
    }

    /// The number of live resources.
    pub fn len(&self) -> (r: usize)
        ensures
            r == self.live().len(),
    {
        self.resources.len()
    }

    /// Whether nothing is mounted.
    pub fn is_empty(&self) -> (r: bool)
        ensures
            r == (self.live().len() == 0),
    {
        self.resources.len() == 0
    }

    /// The first resource that is a `T`, if any.
    pub fn find<T>(&self) -> (r: Option<&T>) where R: Downcast<T>
        ensures
            match r {
                Some(t) => exists|i: int|
                    0 <= i < self.live().len() && #[trigger] call_ensures(
                        R::downcast,
                        (&self.live()[i],),
                        Some(t),
                    ) && none_held::<R, T>(self.live(), i),
                None => none_held::<R, T>(self.live(), self.live().len() as int),
            },
    {
        for i in 0..self.resources.len()
            invariant
                none_held::<R, T>(self.live(), i as int),
        {
            let held = self.resources[i].downcast();
            assert(call_ensures(R::downcast, (&self.live()[i as int],), held));
            if let Some(t) = held {
                return Some(t);
            }
        }
        None
    }

    /// Dispose the guard: hand back every live resource in reverse mount order,
    /// the order to release them in, and keep none. So each resource is handed
    /// back once, whatever was disposed before it came in, and a second call
    /// hands back nothing.
    pub fn dispose(&mut self) -> (r: Vec<R>)
        ensures
            r@ == reversed(old(self).live()),
            final(self).live() == Seq::<R>::empty(),
    {
        let mut out: Vec<R> = Vec::new();
        let ghost all = self.resources@;
        while self.resources.len() > 0
            invariant
                self.resources@.len() + out@.len() == all.len(),
                self.resources@ == all.take(self.resources@.len() as int),
                forall|k: int| 0 <= k < out@.len() ==> #[trigger] out@[k] == all[all.len() - 1 - k],
            decreases self.resources@.len(),
        {
            let ghost before = self.resources@;
            match self.resources.pop() {
                Some(resource) => {
                    assert(resource == before[before.len() - 1]);
                    out.push(resource);
                    assert(self.resources@ =~= all.take(self.resources@.len() as int));
                },
                None => {},
            }
        }
        assert(out@ =~= reversed(all));
        out
    }
}

/// Whether each of the first `n` resources answered that it holds no `T`.
pub open spec fn none_held<R: Downcast<T>, T>(live: Seq<R>, n: int) -> bool {
    forall|i: int| 0 <= i < n ==> #[trigger] call_ensures(R::downcast, (&live[i],), None)
}

/// Whether a resource answered its id as `id`.
pub open spec fn names_itself<R: MountedResource>(resource: R, id: Seq<char>) -> bool {
    exists|s: &str| s@ == id && #[trigger] call_ensures(R::id, (&resource,), s)
}

impl<R: MountedResource> MountGuard<R> {
    /// The mounted row ids, in mount order.
    pub fn ids(&self) -> (r: Vec<String>)
        ensures
            r@.len() == self.live().len(),
            forall|i: int| 0 <= i < r@.len() ==> names_itself(self.live()[i], (#[trigger] r@[i])@),
    {
        let mut out: Vec<String> = Vec::new();
        for i in 0..self.resources.len()
            invariant
                out@.len() == i,
                forall|k: int| 0 <= k < i ==> names_itself(self.live()[k], (#[trigger] out@[k])@),
        {
            let id = self.resources[i].id();
            assert(call_ensures(R::id, (&self.live()[i as int],), id));
            out.push(owned(id));
        }
        out
    }
}

// ---------------------------------------------------------------------------
// Mounting
// ---------------------------------------------------------------------------

/// The failure for a row whose plugin is not registered.
pub open spec fn unknown_plugin(row: RowView, known: Seq<Seq<char>>) -> ConfigErrorView {
    ConfigErrorView {
        stage: Stage::Mount,
        code: "unknown-plugin"@,
        plugin: row.id,
        message: "row "@ + debug_text(row.id) + " names plugin "@ + debug_text(row.plugin)
            + ", which is not registered (known: "@ + listing(known) + ")"@,
    }
}

/// The failure for a row whose plugin refused it.
pub open spec fn build_failed(row: RowView, why: Seq<char>) -> ConfigErrorView {
    ConfigErrorView {
        stage: Stage::Mount,
        code: "plugin-build-failed"@,
        plugin: row.id,
        message: "plugin "@ + debug_text(row.plugin) + " failed to mount row "@ + debug_text(row.id)
            + ": "@ + why,
    }
}

/// Whether the factory registered for a row answered `r` when asked to build it.
pub open spec fn built<R, F: PluginFactory<R>>(
    registry: PluginRegistry<F>,
    row: RowView,
    r: Result<R, String>,
) -> bool {
    &&& registry.factories().contains_key(row.plugin)
    &&& exists|id: &str, config: Yaml|
        id@ == row.id && config@ == row.config && #[trigger] call_ensures(
            F::build,
            (&registry.factories()[row.plugin], id, &config),
            r,
        )
}

/// Whether the first `n` rows of a document were built, in order, into
/// `resources`.
pub open spec fn built_all<R, F: PluginFactory<R>>(
    registry: PluginRegistry<F>,
    rows: Seq<RowView>,
    resources: Seq<R>,
) -> bool {
    &&& resources.len() <= rows.len()
    &&& forall|i: int|
        0 <= i < resources.len() ==> built(registry, rows[i], Ok(#[trigger] resources[i]))
}

/// A mount that failed: why, and what to release, in order.
pub struct MountFailure<R> {
    /// The failure.
    pub error: ConfigError,
    /// The resources that had been built, last first.
    pub teardown: Vec<R>,
}

/// Mount every row of `doc` through `registry`.
///
/// On success every row has its resource, in row order. On failure the error
/// names the row that broke, and what was built for the rows before it comes
/// back to be released, last first.
pub fn mount<R, F: PluginFactory<R>>(doc: &ConfigDoc, registry: &PluginRegistry<F>) -> (r: Result<
    MountGuard<R>,
    MountFailure<R>,
>)
    ensures
        match r {
            Ok(guard) => guard.live().len() == doc@.rows.len() && built_all(
                *registry,
                doc@.rows,
                guard.live(),
            ),
            Err(failure) => {
                let done = reversed(failure.teardown@);
                &&& done.len() < doc@.rows.len()
                &&& built_all(*registry, doc@.rows, done)
                &&& {
                    let row = doc@.rows[done.len() as int];
                    if !registry.factories().contains_key(row.plugin) {
                        failure.error@ == unknown_plugin(row, in_order(registry.registered()))
                    } else {
                        exists|why: String| #[trigger]
                            built(*registry, row, Err::<R, String>(why)) && failure.error@
                                == build_failed(row, why@)
                    }
                }
            },
        },
{
    let ghost rows = doc@.rows;
    let mut guard: MountGuard<R> = MountGuard::new();
    for i in 0..doc.rows.len()
        invariant
            rows == doc@.rows,
            guard.live().len() == i,
            built_all(*registry, rows, guard.live()),
    {
        let row = &doc.rows[i];
        assert(rows[i as int] == row@);
        let ghost before = guard.live();
        match registry.get(row.plugin.as_str()) {
            None => {
                let error = unknown_plugin_error(row, registry);
                let teardown = guard.dispose();
                assert(reversed(teardown@) =~= before);
                return Err(MountFailure { error, teardown });
            },
            Some(factory) => {
                let id = row.id.as_str();
                let answer = factory.build(id, &row.config);
                proof {
                    let config = row.config;
                    assert(call_ensures(
                        F::build,
                        (&registry.factories()[row@.plugin], id, &config),
                        answer,
                    ));
                    assert(built(*registry, row@, answer));
                }
                match answer {
                    Ok(resource) => {
                        guard.push(resource);
                        assert forall|k: int| 0 <= k < guard.live().len() implies built(
                            *registry,
                            rows[k],
                            Ok(#[trigger] guard.live()[k]),
                        ) by {
                            if k < before.len() {
                                assert(guard.live()[k] == before[k]);
                            }
                        }
                    },
                    Err(why) => {
                        let error = build_failed_error(row, why.as_str());
                        let teardown = guard.dispose();
                        assert(reversed(teardown@) =~= before);
                        return Err(MountFailure { error, teardown });
                    },
                }
            },
        }
    }
    Ok(guard)
}

fn unknown_plugin_error<F>(row: &Row, registry: &PluginRegistry<F>) -> (r: ConfigError)
    ensures
        r@ == unknown_plugin(row@, in_order(registry.registered())),
{
    let id = quoted(row.id.as_str());
    let plugin = quoted(row.plugin.as_str());
    let known = list(&registry.names());
    ConfigError::for_plugin(
        Stage::Mount,
        "unknown-plugin",
        row.id.clone(),
        cat7(
            "row ",
            id.as_str(),
            " names plugin ",
            plugin.as_str(),
            ", which is not registered (known: ",
            known.as_str(),
            ")",
        ),
    )
}

fn build_failed_error(row: &Row, why: &str) -> (r: ConfigError)
    ensures
        r@ == build_failed(row@, why@),
{
    let id = quoted(row.id.as_str());
    let plugin = quoted(row.plugin.as_str());
    let head = cat5("plugin ", plugin.as_str(), " failed to mount row ", id.as_str(), ": ");
    ConfigError::for_plugin(
        Stage::Mount,
        "plugin-build-failed",
        row.id.clone(),
        cat(head.as_str(), why),
    )
}

} // verus!
