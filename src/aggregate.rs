//! Aggregation of the expanded declarations into a load plan.

use crate::content::strs;
use crate::expand::{decl_views, expand, expansion, Declaration, DeclarationView};
use crate::id_table::IdTable;
use crate::load_config::{ensured, pushed, Index, LoadConfig, LoadConfigView};
use crate::payload::{lemma_opt_views, opt_view, opt_views, package_of, LazyGroup, OptPluginView, VimOptPlugin};
use vstd::prelude::*;
use vstd::string::*;

verus! {

/// The index after appending each of `vs`, in order, to the ids of `k`.
pub open spec fn appended(m: Map<Seq<char>, Seq<Seq<char>>>, k: Seq<char>, vs: Seq<Seq<char>>) -> Map<
    Seq<char>,
    Seq<Seq<char>>,
>
    decreases vs.len(),
{
    if vs.len() == 0 {
        m
    } else {
        pushed(appended(m, k, vs.drop_last()), k, vs.last())
    }
}

/// The index after appending `v` to the ids of each of the keys `ks`, in order.
pub open spec fn indexed(m: Map<Seq<char>, Seq<Seq<char>>>, ks: Seq<Seq<char>>, v: Seq<char>) -> Map<
    Seq<char>,
    Seq<Seq<char>>,
>
    decreases ks.len(),
{
    if ks.len() == 0 {
        m
    } else {
        pushed(indexed(m, ks.drop_last(), v), ks.last(), v)
    }
}

/// The plugin ids of a list of plugin declarations.
pub open spec fn dep_ids(deps: Seq<OptPluginView>, t: Map<Seq<char>, Seq<char>>) -> Seq<Seq<char>> {
    deps.map_values(|q: OptPluginView| t[package_of(q)@])
}

/// The id of a declaration: the resolved id of a plugin, the name of a group.
pub open spec fn decl_id(d: DeclarationView, t: Map<Seq<char>, Seq<char>>) -> Seq<char> {
    match d {
        DeclarationView::Plugin(p) => t[package_of(p)@],
        DeclarationView::Group(g) => g.name@,
    }
}

/// Whether each plugin of `s` has a registered package reference.
pub open spec fn packages_registered(s: Seq<OptPluginView>, t: Map<Seq<char>, Seq<char>>) -> bool {
    forall|i: int| 0 <= i < s.len() ==> t.contains_key(package_of(#[trigger] s[i])@)
}

/// Whether every package reference that aggregating or unpacking `d` resolves is registered.
pub open spec fn declaration_registered(d: DeclarationView, t: Map<Seq<char>, Seq<char>>) -> bool {
    match d {
        DeclarationView::Plugin(p) => t.contains_key(package_of(p)@) && match p {
            OptPluginView::SimplePackage(_) => true,
            OptPluginView::ConfiguredPackage(c) => packages_registered(c.depend_plugins, t),
        },
        DeclarationView::Group(g) => packages_registered(g.plugins, t) && packages_registered(
            g.depend_plugins,
            t,
        ),
    }
}

/// Whether every declaration of `ds` is registered in `t`.
pub open spec fn all_registered(ds: Seq<DeclarationView>, t: Map<Seq<char>, Seq<char>>) -> bool {
    forall|i: int| 0 <= i < ds.len() ==> declaration_registered(#[trigger] ds[i], t)
}

/// The plan after visiting one declaration: its id gets an entry in both dependency indexes;
/// a configured plugin or a group appends its dependencies there, its id to the bucket of each
/// of its triggers, and its id to the flag lists it asks for.
pub open spec fn step(plan: LoadConfigView, d: DeclarationView, t: Map<Seq<char>, Seq<char>>) -> LoadConfigView {
    let id = decl_id(d, t);
    let dp = ensured(plan.depend_plugins, id);
    let dg = ensured(plan.depend_groups, id);
    match d {
        DeclarationView::Plugin(OptPluginView::ConfiguredPackage(c)) => LoadConfigView {
            depend_plugins: appended(dp, id, dep_ids(c.depend_plugins, t)),
            depend_groups: appended(dg, id, strs(c.depend_groups)),
            on_modules: indexed(plan.on_modules, strs(c.on_modules), id),
            on_events: indexed(plan.on_events, strs(c.on_events), id),
            on_filetypes: indexed(plan.on_filetypes, strs(c.on_filetypes), id),
            on_commands: indexed(plan.on_commands, strs(c.on_commands), id),
            timer_clients: if c.use_timer {
                plan.timer_clients.push(id)
            } else {
                plan.timer_clients
            },
            denops_clients: if c.use_denops {
                plan.denops_clients.push(id)
            } else {
                plan.denops_clients
            },
        },
        DeclarationView::Group(g) => LoadConfigView {
            depend_plugins: appended(dp, id, dep_ids(g.depend_plugins, t)),
            depend_groups: appended(dg, id, strs(g.depend_groups)),
            on_modules: indexed(plan.on_modules, strs(g.on_modules), id),
            on_events: indexed(plan.on_events, strs(g.on_events), id),
            on_filetypes: indexed(plan.on_filetypes, strs(g.on_filetypes), id),
            on_commands: indexed(plan.on_commands, strs(g.on_commands), id),
            timer_clients: if g.use_timer {
                plan.timer_clients.push(id)
            } else {
                plan.timer_clients
            },
            denops_clients: plan.denops_clients,
        },
        _ => LoadConfigView {
            depend_plugins: dp,
            depend_groups: dg,
            on_modules: plan.on_modules,
            on_events: plan.on_events,
            on_filetypes: plan.on_filetypes,
            on_commands: plan.on_commands,
            timer_clients: plan.timer_clients,
            denops_clients: plan.denops_clients,
        },
    }
}

/// The plan after visiting the declarations `ds` left to right.
pub open spec fn aggregated(plan: LoadConfigView, ds: Seq<DeclarationView>, t: Map<Seq<char>, Seq<char>>) -> LoadConfigView
    decreases ds.len(),
{
    if ds.len() == 0 {
        plan
    } else {
        step(aggregated(plan, ds.drop_last(), t), ds.last(), t)
    }
}

fn push_all(idx: &mut Index, key: &String, ids: &Vec<String>)
    requires
        old(idx).wf(),
    ensures
        final(idx).wf(),
        final(idx)@ == appended(old(idx)@, key@, strs(ids@)),
{
    let ghost start = idx@;
    let mut i: usize = 0;
    assert(strs(ids@).subrange(0, 0) =~= Seq::<Seq<char>>::empty());
    while i < ids.len()
        invariant
            idx.wf(),
            i <= ids@.len(),
            idx@ == appended(start, key@, strs(ids@).subrange(0, i as int)),
        decreases ids.len() - i,
    {
        idx.push(key, &ids[i]);
        proof {
            let next = strs(ids@).subrange(0, i + 1);
            assert(next.drop_last() =~= strs(ids@).subrange(0, i as int));
            assert(next.last() == ids@[i as int]@);
        }
        i += 1;
    }
    assert(strs(ids@).subrange(0, ids@.len() as int) =~= strs(ids@));
}

fn index_all(idx: &mut Index, keys: &Vec<String>, id: &String)
    requires
        old(idx).wf(),
    ensures
        final(idx).wf(),
        final(idx)@ == indexed(old(idx)@, strs(keys@), id@),
{
    let ghost start = idx@;
    let mut i: usize = 0;
    assert(strs(keys@).subrange(0, 0) =~= Seq::<Seq<char>>::empty());
    while i < keys.len()
        invariant
            idx.wf(),
            i <= keys@.len(),
            idx@ == indexed(start, strs(keys@).subrange(0, i as int), id@),
        decreases keys.len() - i,
    {
        idx.push(&keys[i], id);
        proof {
            let next = strs(keys@).subrange(0, i + 1);
            assert(next.drop_last() =~= strs(keys@).subrange(0, i as int));
            assert(next.last() == keys@[i as int]@);
        }
        i += 1;
    }
    assert(strs(keys@).subrange(0, keys@.len() as int) =~= strs(keys@));
}

/// The plugin ids of the declarations `deps`.
pub fn dependency_ids(deps: &Vec<VimOptPlugin>, table: &IdTable) -> (r: Vec<String>)
    requires
        packages_registered(opt_views(deps@), table@),
    ensures
        strs(r@) == dep_ids(opt_views(deps@), table@),
{
    proof {
        lemma_opt_views(deps@);
    }
    let mut r: Vec<String> = Vec::new();
    let mut i: usize = 0;
    while i < deps.len()
        invariant
            i <= deps@.len(),
            opt_views(deps@).len() == deps@.len(),
            forall|k: int| 0 <= k < deps@.len() ==> #[trigger] opt_views(deps@)[k] == opt_view(deps@[k]),
            packages_registered(opt_views(deps@), table@),
            r@.len() == i,
            strs(r@) == dep_ids(opt_views(deps@).subrange(0, i as int), table@),
        decreases deps.len() - i,
    {
        let pkg = deps[i].package();
        assert(table@.contains_key(package_of(opt_views(deps@)[i as int])@));
        let got = table.get(pkg);
        assert(got@ == table@[pkg@]);
        let id = String::from_str(got);
        assert(id@ == table@[package_of(opt_view(deps@[i as int]))@]);
        let ghost before = r@;
        r.push(id);
        proof {
            let next = opt_views(deps@).subrange(0, i + 1);
            assert(before.len() == i);
            assert(r@[i as int]@ == id@);
            assert(strs(r@)[i as int] == r@[i as int]@);
            assert(next[i as int] == opt_view(deps@[i as int]));
            assert(strs(r@)[i as int] == table@[package_of(next[i as int])@]);
            assert forall|k: int| 0 <= k < i implies strs(r@)[k] == dep_ids(next, table@)[k] by {
                assert(strs(before)[k] == dep_ids(opt_views(deps@).subrange(0, i as int), table@)[k]);
            }
            assert(strs(r@) =~= dep_ids(next, table@));
        }
        i += 1;
    }
    assert(opt_views(deps@).subrange(0, deps@.len() as int) =~= opt_views(deps@));
    r
}

/// Visits one declaration: see `step`.
pub fn aggregate_step(plan: &mut LoadConfig, d: &Declaration, table: &IdTable)
    requires
        old(plan).wf(),
        declaration_registered(d@, table@),
    ensures
        final(plan).wf(),
        final(plan)@ == step(old(plan)@, d@, table@),
{
    match d {
        Declaration::Plugin(p) => {
            let id = String::from_str(table.get(p.package()));
            plan.depend_plugins.ensure_key(&id);
            plan.depend_groups.ensure_key(&id);
            match p {
                VimOptPlugin::SimplePackage(_) => {},
                VimOptPlugin::ConfiguredPackage(c) => {
                    let deps = dependency_ids(&c.depend_plugins, table);
                    push_all(&mut plan.depend_plugins, &id, &deps);
                    push_all(&mut plan.depend_groups, &id, &c.depend_groups);
                    index_all(&mut plan.on_modules, &c.on_modules, &id);
                    index_all(&mut plan.on_events, &c.on_events, &id);
                    index_all(&mut plan.on_filetypes, &c.on_filetypes, &id);
                    index_all(&mut plan.on_commands, &c.on_commands, &id);
                    if c.use_timer {
                        plan.timer_clients.push(id.clone());
                    }
                    if c.use_denops {
                        plan.denops_clients.push(id.clone());
                    }
                },
            }
        },
        Declaration::Group(g) => {
            let id = g.name.clone();
            plan.depend_plugins.ensure_key(&id);
            plan.depend_groups.ensure_key(&id);
            let deps = dependency_ids(&g.depend_plugins, table);
            push_all(&mut plan.depend_plugins, &id, &deps);
            push_all(&mut plan.depend_groups, &id, &g.depend_groups);
            index_all(&mut plan.on_modules, &g.on_modules, &id);
            index_all(&mut plan.on_events, &g.on_events, &id);
            index_all(&mut plan.on_filetypes, &g.on_filetypes, &id);
            index_all(&mut plan.on_commands, &g.on_commands, &id);
            if g.use_timer {
                plan.timer_clients.push(id.clone());
            }
        },
    }
    assert(final(plan)@.timer_clients =~= step(old(plan)@, d@, table@).timer_clients);
    assert(final(plan)@.denops_clients =~= step(old(plan)@, d@, table@).denops_clients);
}

/// Visits the declarations `decls` left to right, starting from `plan`.
pub fn aggregate(plan: LoadConfig, table: &IdTable, decls: &Vec<Declaration>) -> (r: LoadConfig)
    requires
        plan.wf(),
        all_registered(decl_views(decls@), table@),
    ensures
        r.wf(),
        r@ == aggregated(plan@, decl_views(decls@), table@),
{
    let ghost start = plan@;
    let mut plan = plan;
    let mut i: usize = 0;
    assert(decl_views(decls@).subrange(0, 0) =~= Seq::<DeclarationView>::empty());
    while i < decls.len()
        invariant
            plan.wf(),
            i <= decls@.len(),
            all_registered(decl_views(decls@), table@),
            plan@ == aggregated(start, decl_views(decls@).subrange(0, i as int), table@),
        decreases decls.len() - i,
    {
        assert(decl_views(decls@)[i as int] == decls@[i as int]@);
        aggregate_step(&mut plan, &decls[i], table);
        proof {
            let next = decl_views(decls@).subrange(0, i + 1);
            assert(next.drop_last() =~= decl_views(decls@).subrange(0, i as int));
            assert(next.last() == decls@[i as int]@);
        }
        i += 1;
    }
    assert(decl_views(decls@).subrange(0, decls@.len() as int) =~= decl_views(decls@));
    plan
}

/// Adds to `load_opt` what the plugins `opt_plugins` and everything they depend on declare.
pub fn unpack_opt_plugin_load_options(
    load_opt: LoadConfig,
    id_map: &IdTable,
    opt_plugins: &Vec<VimOptPlugin>,
) -> (r: LoadConfig)
    requires
        load_opt.wf(),
        all_registered(expansion(opt_plugins@), id_map@),
    ensures
        r.wf(),
        r@ == aggregated(load_opt@, expansion(opt_plugins@), id_map@),
{
    let decls = expand(opt_plugins);
    aggregate(load_opt, id_map, &decls)
}

/// Adds to `load_opt` what the groups `bundles`, their members and everything these depend on
/// declare.
pub fn unpack_bundle_load_options(
    load_opt: LoadConfig,
    id_map: &IdTable,
    bundles: &Vec<LazyGroup>,
) -> (r: LoadConfig)
    requires
        load_opt.wf(),
        all_registered(expansion(bundles@), id_map@),
    ensures
        r.wf(),
        r@ == aggregated(load_opt@, expansion(bundles@), id_map@),
{
    let decls = expand(bundles);
    aggregate(load_opt, id_map, &decls)
}

proof fn lemma_appended_keeps(m: Map<Seq<char>, Seq<Seq<char>>>, k: Seq<char>, vs: Seq<Seq<char>>, x: Seq<char>)
    requires
        m.contains_key(x),
    ensures
        appended(m, k, vs).contains_key(x),
    decreases vs.len(),
{
    if vs.len() > 0 {
        lemma_appended_keeps(m, k, vs.drop_last(), x);
    }
}

proof fn lemma_step_keeps(plan: LoadConfigView, d: DeclarationView, t: Map<Seq<char>, Seq<char>>, x: Seq<char>)
    ensures
        (plan.depend_plugins.contains_key(x) || x == decl_id(d, t)) ==> step(plan, d, t).depend_plugins.contains_key(x),
        (plan.depend_groups.contains_key(x) || x == decl_id(d, t)) ==> step(plan, d, t).depend_groups.contains_key(x),
{
    let id = decl_id(d, t);
    let dp = ensured(plan.depend_plugins, id);
    let dg = ensured(plan.depend_groups, id);
    if plan.depend_plugins.contains_key(x) || x == id {
        assert(dp.contains_key(x));
        match d {
            DeclarationView::Plugin(OptPluginView::ConfiguredPackage(c)) => {
                lemma_appended_keeps(dp, id, dep_ids(c.depend_plugins, t), x);
            },
            DeclarationView::Group(g) => {
                lemma_appended_keeps(dp, id, dep_ids(g.depend_plugins, t), x);
            },
            _ => {},
        }
    }
    if plan.depend_groups.contains_key(x) || x == id {
        assert(dg.contains_key(x));
        match d {
            DeclarationView::Plugin(OptPluginView::ConfiguredPackage(c)) => {
                lemma_appended_keeps(dg, id, strs(c.depend_groups), x);
            },
            DeclarationView::Group(g) => {
                lemma_appended_keeps(dg, id, strs(g.depend_groups), x);
            },
            _ => {},
        }
    }
}

/// Aggregation is total: after visiting the declarations `ds`, the id of each of them has an
/// entry, possibly empty, in both dependency indexes.
pub proof fn lemma_aggregation_total(plan: LoadConfigView, ds: Seq<DeclarationView>, t: Map<Seq<char>, Seq<char>>, i: int)
    requires
        0 <= i < ds.len(),
    ensures
        aggregated(plan, ds, t).depend_plugins.contains_key(decl_id(ds[i], t)),
        aggregated(plan, ds, t).depend_groups.contains_key(decl_id(ds[i], t)),
    decreases ds.len(),
{
    let x = decl_id(ds[i], t);
    let init = ds.drop_last();
    if i == ds.len() - 1 {
        lemma_step_keeps(aggregated(plan, init, t), ds.last(), t, x);
    } else {
        assert(init[i] == ds[i]);
        lemma_aggregation_total(plan, init, t, i);
        lemma_step_keeps(aggregated(plan, init, t), ds.last(), t, x);
    }
}

/// The plugin ids that a declaration lists as its dependencies.
pub open spec fn decl_dep_plugins(d: DeclarationView, t: Map<Seq<char>, Seq<char>>) -> Seq<Seq<char>> {
    match d {
        DeclarationView::Plugin(OptPluginView::ConfiguredPackage(c)) => dep_ids(c.depend_plugins, t),
        DeclarationView::Group(g) => dep_ids(g.depend_plugins, t),
        _ => Seq::empty(),
    }
}

/// The group names that a declaration lists as its dependencies.
pub open spec fn decl_dep_groups(d: DeclarationView) -> Seq<Seq<char>> {
    match d {
        DeclarationView::Plugin(OptPluginView::ConfiguredPackage(c)) => strs(c.depend_groups),
        DeclarationView::Group(g) => strs(g.depend_groups),
        _ => Seq::empty(),
    }
}

/// Whether the ids of `key` in `m` hold `x`.
pub open spec fn lists(m: Map<Seq<char>, Seq<Seq<char>>>, key: Seq<char>, x: Seq<char>) -> bool {
    m.contains_key(key) && m[key].contains(x)
}

proof fn lemma_pushed_keeps(m: Map<Seq<char>, Seq<Seq<char>>>, k: Seq<char>, v: Seq<char>, key: Seq<char>, x: Seq<char>)
    requires
        lists(m, key, x),
    ensures
        lists(pushed(m, k, v), key, x),
{
    let i = choose|i: int| 0 <= i < m[key].len() && m[key][i] == x;
    if key == k {
        assert(pushed(m, k, v)[key][i] == x);
    }
}

proof fn lemma_appended_keeps_list(m: Map<Seq<char>, Seq<Seq<char>>>, k: Seq<char>, vs: Seq<Seq<char>>, key: Seq<char>, x: Seq<char>)
    requires
        lists(m, key, x),
    ensures
        lists(appended(m, k, vs), key, x),
    decreases vs.len(),
{
    if vs.len() > 0 {
        lemma_appended_keeps_list(m, k, vs.drop_last(), key, x);
        lemma_pushed_keeps(appended(m, k, vs.drop_last()), k, vs.last(), key, x);
    }
}

proof fn lemma_appended_adds(m: Map<Seq<char>, Seq<Seq<char>>>, k: Seq<char>, vs: Seq<Seq<char>>, j: int)
    requires
        0 <= j < vs.len(),
    ensures
        lists(appended(m, k, vs), k, vs[j]),
    decreases vs.len(),
{
    let init = vs.drop_last();
    let before = appended(m, k, init);
    if j == vs.len() - 1 {
        let s = ensured(before, k)[k].push(vs.last());
        assert(s[s.len() - 1] == vs[j]);
    } else {
        assert(init[j] == vs[j]);
        lemma_appended_adds(m, k, init, j);
        lemma_pushed_keeps(before, k, vs.last(), k, vs[j]);
    }
}

proof fn lemma_ensured_keeps(m: Map<Seq<char>, Seq<Seq<char>>>, k: Seq<char>, key: Seq<char>, x: Seq<char>)
    requires
        lists(m, key, x),
    ensures
        lists(ensured(m, k), key, x),
{
}

proof fn lemma_step_keeps_lists(plan: LoadConfigView, d: DeclarationView, t: Map<Seq<char>, Seq<char>>, key: Seq<char>, x: Seq<char>)
    ensures
        lists(plan.depend_plugins, key, x) ==> lists(step(plan, d, t).depend_plugins, key, x),
        lists(plan.depend_groups, key, x) ==> lists(step(plan, d, t).depend_groups, key, x),
{
    let id = decl_id(d, t);
    if lists(plan.depend_plugins, key, x) {
        lemma_ensured_keeps(plan.depend_plugins, id, key, x);
        lemma_appended_keeps_list(ensured(plan.depend_plugins, id), id, decl_dep_plugins(d, t), key, x);
    }
    if lists(plan.depend_groups, key, x) {
        lemma_ensured_keeps(plan.depend_groups, id, key, x);
        lemma_appended_keeps_list(ensured(plan.depend_groups, id), id, decl_dep_groups(d), key, x);
    }
}

proof fn lemma_step_records(plan: LoadConfigView, d: DeclarationView, t: Map<Seq<char>, Seq<char>>)
    ensures
        forall|j: int| 0 <= j < decl_dep_plugins(d, t).len() ==> lists(step(plan, d, t).depend_plugins, decl_id(d, t), #[trigger] decl_dep_plugins(d, t)[j]),
        forall|j: int| 0 <= j < decl_dep_groups(d).len() ==> lists(step(plan, d, t).depend_groups, decl_id(d, t), #[trigger] decl_dep_groups(d)[j]),
{
    let id = decl_id(d, t);
    assert forall|j: int| 0 <= j < decl_dep_plugins(d, t).len() implies lists(step(plan, d, t).depend_plugins, id, #[trigger] decl_dep_plugins(d, t)[j]) by {
        lemma_appended_adds(ensured(plan.depend_plugins, id), id, decl_dep_plugins(d, t), j);
    }
    assert forall|j: int| 0 <= j < decl_dep_groups(d).len() implies lists(step(plan, d, t).depend_groups, id, #[trigger] decl_dep_groups(d)[j]) by {
        lemma_appended_adds(ensured(plan.depend_groups, id), id, decl_dep_groups(d), j);
    }
}

proof fn lemma_aggregated_keeps_lists(plan: LoadConfigView, ds: Seq<DeclarationView>, t: Map<Seq<char>, Seq<char>>, key: Seq<char>, x: Seq<char>)
    ensures
        lists(plan.depend_plugins, key, x) ==> lists(aggregated(plan, ds, t).depend_plugins, key, x),
        lists(plan.depend_groups, key, x) ==> lists(aggregated(plan, ds, t).depend_groups, key, x),
    decreases ds.len(),
{
    if ds.len() > 0 {
        lemma_aggregated_keeps_lists(plan, ds.drop_last(), t, key, x);
        lemma_step_keeps_lists(aggregated(plan, ds.drop_last(), t), ds.last(), t, key, x);
    }
}

/// Aggregation records dependencies: after visiting the declarations `ds`, the entry of each
/// of them in the plugin dependency index lists every plugin it depends on, and its entry in
/// the group dependency index lists every group it depends on.
pub proof fn lemma_aggregation_records_dependencies(plan: LoadConfigView, ds: Seq<DeclarationView>, t: Map<Seq<char>, Seq<char>>, i: int)
    requires
        0 <= i < ds.len(),
    ensures
        forall|j: int| 0 <= j < decl_dep_plugins(ds[i], t).len() ==> lists(aggregated(plan, ds, t).depend_plugins, decl_id(ds[i], t), #[trigger] decl_dep_plugins(ds[i], t)[j]),
        forall|j: int| 0 <= j < decl_dep_groups(ds[i]).len() ==> lists(aggregated(plan, ds, t).depend_groups, decl_id(ds[i], t), #[trigger] decl_dep_groups(ds[i])[j]),
    decreases ds.len(),
{
    let init = ds.drop_last();
    let d = ds[i];
    let id = decl_id(d, t);
    if i == ds.len() - 1 {
        lemma_step_records(aggregated(plan, init, t), d, t);
    } else {
        assert(init[i] == ds[i]);
        lemma_aggregation_records_dependencies(plan, init, t, i);
        assert forall|j: int| 0 <= j < decl_dep_plugins(d, t).len() implies lists(aggregated(plan, ds, t).depend_plugins, id, #[trigger] decl_dep_plugins(d, t)[j]) by {
            lemma_step_keeps_lists(aggregated(plan, init, t), ds.last(), t, id, decl_dep_plugins(d, t)[j]);
        }
        assert forall|j: int| 0 <= j < decl_dep_groups(d).len() implies lists(aggregated(plan, ds, t).depend_groups, id, #[trigger] decl_dep_groups(d)[j]) by {
            lemma_step_keeps_lists(aggregated(plan, init, t), ds.last(), t, id, decl_dep_groups(d)[j]);
        }
    }
}

} // verus!
