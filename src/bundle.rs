//! The whole pipeline: unpacking, merging by id and deduplication of the load plan.

use crate::aggregate::{aggregated, declaration_registered, packages_registered};
use crate::content::{EagerPlugin, LazyGroup, LazyPlugin};
use crate::expand::{decl_views, expand, Declaration};
use crate::id_table::{make_id_map, table_map, IdTable};
use crate::load_config::{dedup_load_config, empty_plan, is_unique_plan};
use crate::merge::{is_conflict, merge_fails, merge_vector, merged_all, ConflictError};
use crate::payload::{lemma_opt_views, opt_view, opt_views, package_of, Payload, VimOptPlugin, VimStartPlugin};
use crate::unpack::{eager_all, lazy_declarations, payload_registered, start_package, unpack, unpacked_split, views, Specs};
use vstd::prelude::*;

verus! {

/// Why a document could not be bundled.
#[derive(Debug)]
pub enum BundleError {
    /// A package reference that the identity table does not hold.
    UnregisteredPackage,
    /// Two different non-default definitions of one eager plugin.
    EagerConflict(ConflictError<EagerPlugin>),
    /// Two different non-default definitions of one lazy plugin.
    LazyConflict(ConflictError<LazyPlugin>),
    /// Two different non-default definitions of one group.
    GroupConflict(ConflictError<LazyGroup>),
}

/// Merges the components of `specs` by id, and deduplicates every list of its load plan.
pub fn bundle_specs(specs: Specs) -> (r: Result<Specs, BundleError>)
    requires
        specs.load_option.wf(),
    ensures
        r is Ok <==> !merge_fails(specs.eager_plugins@) && !merge_fails(specs.lazy_plugins@)
            && !merge_fails(specs.lazy_groups@),
        r matches Ok(b) ==> {
            &&& b.id_map@ == specs.id_map@
            &&& merged_all(specs.eager_plugins@, b.eager_plugins@)
            &&& merged_all(specs.lazy_plugins@, b.lazy_plugins@)
            &&& merged_all(specs.lazy_groups@, b.lazy_groups@)
            &&& b.load_option.wf()
            &&& is_unique_plan(b.load_option@, specs.load_option@)
            &&& b.after_option == specs.after_option
        },
        r matches Err(e) ==> !(e is UnregisteredPackage),
        r matches Err(BundleError::EagerConflict(e)) ==> merge_fails(specs.eager_plugins@)
            && is_conflict(e),
        r matches Err(BundleError::LazyConflict(e)) ==> merge_fails(specs.lazy_plugins@)
            && is_conflict(e),
        r matches Err(BundleError::GroupConflict(e)) ==> merge_fails(specs.lazy_groups@)
            && is_conflict(e),
{
    let Specs { id_map, eager_plugins, lazy_plugins, lazy_groups, load_option, after_option } =
        specs;
    let eager_plugins = match merge_vector(eager_plugins) {
        Ok(v) => v,
        Err(e) => {
            return Err(BundleError::EagerConflict(e));
        },
    };
    let lazy_plugins = match merge_vector(lazy_plugins) {
        Ok(v) => v,
        Err(e) => {
            return Err(BundleError::LazyConflict(e));
        },
    };
    let lazy_groups = match merge_vector(lazy_groups) {
        Ok(v) => v,
        Err(e) => {
            return Err(BundleError::GroupConflict(e));
        },
    };
    let load_option = dedup_load_config(&load_option);
    Ok(Specs { id_map, eager_plugins, lazy_plugins, lazy_groups, load_option, after_option })
}

/// Whether the package reference of each plugin of `v` is registered.
fn packages_check(v: &Vec<VimOptPlugin>, table: &IdTable) -> (r: bool)
    ensures
        r == packages_registered(opt_views(v@), table@),
{
    proof {
        lemma_opt_views(v@);
    }
    let mut i: usize = 0;
    while i < v.len()
        invariant
            i <= v@.len(),
            opt_views(v@).len() == v@.len(),
            forall|k: int| 0 <= k < v@.len() ==> #[trigger] opt_views(v@)[k] == opt_view(v@[k]),
            forall|k: int|
                0 <= k < i ==> table@.contains_key(package_of(#[trigger] opt_views(v@)[k])@),
        decreases v.len() - i,
    {
        assert(opt_views(v@)[i as int] == v@[i as int]@);
        if !table.contains(v[i].package()) {
            return false;
        }
        i += 1;
    }
    true
}

/// Whether every package reference that aggregating or unpacking `d` resolves is registered.
fn declaration_check(d: &Declaration, table: &IdTable) -> (r: bool)
    ensures
        r == declaration_registered(d@, table@),
{
    match d {
        Declaration::Plugin(p) => {
            if !table.contains(p.package()) {
                return false;
            }
            match p {
                VimOptPlugin::SimplePackage(_) => true,
                VimOptPlugin::ConfiguredPackage(c) => packages_check(&c.depend_plugins, table),
            }
        },
        Declaration::Group(g) => packages_check(&g.plugins, table) && packages_check(
            &g.depend_plugins,
            table,
        ),
    }
}

fn start_package_ref(p: &VimStartPlugin) -> (r: &String)
    ensures
        r@ == start_package(*p)@,
{
    match p {
        VimStartPlugin::SimplePackage(pkg) => pkg,
        VimStartPlugin::ConfiguredPackage(c) => &c.plugin,
    }
}

/// Whether every package reference of the document is in its identity table.
pub fn is_registered(payload: &Payload) -> (r: bool)
    ensures
        r == payload_registered(*payload),
{
    let table = make_id_map(&payload.meta);
    let mut i: usize = 0;
    while i < payload.config.eager_plugins.len()
        invariant
            table@ == table_map(payload.meta.id_map@),
            i <= payload.config.eager_plugins@.len(),
            forall|j: int|
                0 <= j < i ==> table@.contains_key(
                    start_package(#[trigger] payload.config.eager_plugins@[j])@,
                ),
        decreases payload.config.eager_plugins.len() - i,
    {
        if !table.contains(start_package_ref(&payload.config.eager_plugins[i])) {
            return false;
        }
        i += 1;
    }
    let mut decls = expand(&payload.config.lazy_plugins);
    let mut groups = expand(&payload.config.lazy_groups);
    let ghost a = decls@;
    let ghost b = groups@;
    decls.append(&mut groups);
    let ghost ds = lazy_declarations(payload.config);
    assert(decl_views(decls@) =~= decl_views(a) + decl_views(b));
    let mut k: usize = 0;
    while k < decls.len()
        invariant
            table@ == table_map(payload.meta.id_map@),
            ds == decl_views(decls@),
            ds == lazy_declarations(payload.config),
            forall|j: int|
                0 <= j < payload.config.eager_plugins@.len() ==> table@.contains_key(
                    start_package(#[trigger] payload.config.eager_plugins@[j])@,
                ),
            k <= decls@.len(),
            forall|j: int| 0 <= j < k ==> declaration_registered(#[trigger] ds[j], table@),
        decreases decls.len() - k,
    {
        assert(ds[k as int] == decls@[k as int]@);
        if !declaration_check(&decls[k], &table) {
            assert(!declaration_registered(ds[k as int], table@));
            return false;
        }
        k += 1;
    }
    true
}

/// Whether `b` bundles the document `p`: its components merge by id the unpacked components
/// of `p`, and its load plan is the deduplicated aggregation of the expanded declarations.
pub open spec fn bundled(p: Payload, b: Specs) -> bool {
    let t = table_map(p.meta.id_map@);
    let ds = lazy_declarations(p.config);
    &&& b.id_map@ == t
    &&& b.after_option.ftplugin@ == p.config.after.ftplugin@
    &&& b.load_option.wf()
    &&& is_unique_plan(b.load_option@, aggregated(empty_plan(), ds, t))
    &&& exists|e: Seq<EagerPlugin>, l: Seq<LazyPlugin>, g: Seq<LazyGroup>|
        {
            &&& eager_all(p.config.eager_plugins@, t, views(e))
            &&& unpacked_split(ds, t, views(l), views(g))
            &&& merged_all(e, b.eager_plugins@)
            &&& merged_all(l, b.lazy_plugins@)
            &&& merged_all(g, b.lazy_groups@)
        }
}

/// Bundles the document: unpacks it, merges its components by id and deduplicates its load
/// plan. Fails on a package reference outside the identity table, and on conflicting
/// definitions of one id.
pub fn bundle(payload: &Payload) -> (r: Result<Specs, BundleError>)
    ensures
        r matches Err(BundleError::UnregisteredPackage) <==> !payload_registered(*payload),
        r matches Ok(b) ==> bundled(*payload, b),
        r matches Err(BundleError::EagerConflict(c)) ==> is_conflict(c) && exists|e: Seq<EagerPlugin>|
            eager_all(payload.config.eager_plugins@, table_map(payload.meta.id_map@), views(e))
                && merge_fails(e),
        r matches Err(BundleError::LazyConflict(c)) ==> is_conflict(c) && exists|l: Seq<LazyPlugin>, g: Seq<LazyGroup>|
            unpacked_split(
                lazy_declarations(payload.config),
                table_map(payload.meta.id_map@),
                views(l),
                views(g),
            ) && merge_fails(l),
        r matches Err(BundleError::GroupConflict(c)) ==> is_conflict(c) && exists|l: Seq<LazyPlugin>, g: Seq<LazyGroup>|
            unpacked_split(
                lazy_declarations(payload.config),
                table_map(payload.meta.id_map@),
                views(l),
                views(g),
            ) && merge_fails(g),
{
    if !is_registered(payload) {
        return Err(BundleError::UnregisteredPackage);
    }
    let specs = unpack(payload);
    let ghost raw = specs;
    let r = bundle_specs(specs);
    proof {
        let t = table_map(payload.meta.id_map@);
        let ds = lazy_declarations(payload.config);
        assert(eager_all(payload.config.eager_plugins@, t, views(raw.eager_plugins@)));
        assert(unpacked_split(ds, t, views(raw.lazy_plugins@), views(raw.lazy_groups@)));
        if r is Ok {
            let b = r->Ok_0;
            assert(eager_all(payload.config.eager_plugins@, table_map(payload.meta.id_map@), views(raw.eager_plugins@))
                && unpacked_split(lazy_declarations(payload.config), table_map(payload.meta.id_map@), views(raw.lazy_plugins@), views(raw.lazy_groups@))
                && merged_all(raw.eager_plugins@, b.eager_plugins@)
                && merged_all(raw.lazy_plugins@, b.lazy_plugins@)
                && merged_all(raw.lazy_groups@, b.lazy_groups@));
        }
    }
    r
}

/// The id and startup block of each component whose startup block is not empty: the eager
/// plugins, then the lazy plugins, then the groups, each in order.
pub open spec fn startup_configs_of(specs: Specs) -> Seq<(Seq<char>, Seq<char>)> {
    nonempty_configs(views(specs.eager_plugins@).map_values(|p: crate::content::EagerPluginView| (p.plugin_id, p.startup_config)))
        + nonempty_configs(views(specs.lazy_plugins@).map_values(|p: crate::content::LazyPluginView| (p.plugin_id, p.startup_config)))
        + nonempty_configs(views(specs.lazy_groups@).map_values(|g: crate::content::LazyGroupView| (g.group_id, g.startup_config)))
}

/// The pairs (id, code) of `s` whose code is not empty, in order.
pub open spec fn nonempty_configs(s: Seq<(Seq<char>, Seq<char>)>) -> Seq<(Seq<char>, Seq<char>)>
    decreases s.len(),
{
    if s.len() == 0 {
        Seq::empty()
    } else {
        let rest = nonempty_configs(s.drop_last());
        if s.last().1.len() > 0 {
            rest.push(s.last())
        } else {
            rest
        }
    }
}

/// The characters of each pair of strings.
pub open spec fn pair_views(v: Seq<(String, String)>) -> Seq<(Seq<char>, Seq<char>)> {
    v.map_values(|p: (String, String)| (p.0@, p.1@))
}

fn push_if_configured(out: &mut Vec<(String, String)>, id: &String, code: &String)
    ensures
        pair_views(final(out)@) == if code@.len() > 0 {
            pair_views(old(out)@).push((id@, code@))
        } else {
            pair_views(old(out)@)
        },
{
    if !code.as_str().is_empty() {
        out.push((id.clone(), code.clone()));
        assert(pair_views(out@) =~= pair_views(old(out)@).push((id@, code@)));
    }
}

/// The id and startup block of each component whose startup block is not empty: see
/// `startup_configs_of`.
pub fn startup_configs(specs: &Specs) -> (r: Vec<(String, String)>)
    ensures
        pair_views(r@) == startup_configs_of(*specs),
{
    let mut out: Vec<(String, String)> = Vec::new();
    let ghost es = views(specs.eager_plugins@).map_values(|p: crate::content::EagerPluginView| (p.plugin_id, p.startup_config));
    let ghost ls = views(specs.lazy_plugins@).map_values(|p: crate::content::LazyPluginView| (p.plugin_id, p.startup_config));
    let ghost gs = views(specs.lazy_groups@).map_values(|g: crate::content::LazyGroupView| (g.group_id, g.startup_config));
    let mut i: usize = 0;
    assert(es.subrange(0, 0) =~= Seq::<(Seq<char>, Seq<char>)>::empty());
    assert(pair_views(out@) =~= Seq::<(Seq<char>, Seq<char>)>::empty());
    while i < specs.eager_plugins.len()
        invariant
            i <= specs.eager_plugins@.len(),
            es.len() == specs.eager_plugins@.len(),
            forall|k: int| 0 <= k < es.len() ==> #[trigger] es[k] == (specs.eager_plugins@[k].plugin_id@, specs.eager_plugins@[k].startup_config@),
            pair_views(out@) == nonempty_configs(es.subrange(0, i as int)),
        decreases specs.eager_plugins.len() - i,
    {
        let p = &specs.eager_plugins[i];
        push_if_configured(&mut out, &p.plugin_id, &p.startup_config);
        assert(es.subrange(0, i + 1).drop_last() =~= es.subrange(0, i as int));
        i += 1;
    }
    assert(es.subrange(0, es.len() as int) =~= es);
    let ghost after_e = pair_views(out@);
    let mut i: usize = 0;
    assert(ls.subrange(0, 0) =~= Seq::<(Seq<char>, Seq<char>)>::empty());
    assert(after_e + nonempty_configs(ls.subrange(0, 0)) =~= after_e);
    while i < specs.lazy_plugins.len()
        invariant
            i <= specs.lazy_plugins@.len(),
            ls.len() == specs.lazy_plugins@.len(),
            forall|k: int| 0 <= k < ls.len() ==> #[trigger] ls[k] == (specs.lazy_plugins@[k].plugin_id@, specs.lazy_plugins@[k].startup_config@),
            pair_views(out@) == after_e + nonempty_configs(ls.subrange(0, i as int)),
        decreases specs.lazy_plugins.len() - i,
    {
        let p = &specs.lazy_plugins[i];
        push_if_configured(&mut out, &p.plugin_id, &p.startup_config);
        assert(ls.subrange(0, i + 1).drop_last() =~= ls.subrange(0, i as int));
        assert(pair_views(out@) =~= after_e + nonempty_configs(ls.subrange(0, i + 1)));
        i += 1;
    }
    assert(ls.subrange(0, ls.len() as int) =~= ls);
    let ghost after_l = pair_views(out@);
    let mut i: usize = 0;
    assert(gs.subrange(0, 0) =~= Seq::<(Seq<char>, Seq<char>)>::empty());
    assert(after_l + nonempty_configs(gs.subrange(0, 0)) =~= after_l);
    while i < specs.lazy_groups.len()
        invariant
            i <= specs.lazy_groups@.len(),
            gs.len() == specs.lazy_groups@.len(),
            forall|k: int| 0 <= k < gs.len() ==> #[trigger] gs[k] == (specs.lazy_groups@[k].group_id@, specs.lazy_groups@[k].startup_config@),
            pair_views(out@) == after_l + nonempty_configs(gs.subrange(0, i as int)),
        decreases specs.lazy_groups.len() - i,
    {
        let g = &specs.lazy_groups[i];
        push_if_configured(&mut out, &g.group_id, &g.startup_config);
        assert(gs.subrange(0, i + 1).drop_last() =~= gs.subrange(0, i as int));
        assert(pair_views(out@) =~= after_l + nonempty_configs(gs.subrange(0, i + 1)));
        i += 1;
    }
    assert(gs.subrange(0, gs.len() as int) =~= gs);
    out
}

} // verus!
