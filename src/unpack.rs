//! Unpacking of declarations into component records, and of a whole input document into its
//! components and its load plan.

use crate::aggregate::{aggregate, aggregated, all_registered, declaration_registered, dep_ids, dependency_ids};
use crate::content::{eager_baseline, lazy_baseline, strs, EagerPlugin, EagerPluginView, LazyGroup, LazyGroupView, LazyPlugin, LazyPluginView};
use crate::expand::{decl_views, declaration_reaches, expand, expansion, holds_plugin, lemma_expansion_complete, reaches, Declaration, DeclarationView, Expandable};
use crate::id_table::{make_id_map, table_map, IdTable};
use crate::load_config::{empty_plan, LoadConfig};
use crate::payload::{self, duplicate_strings, BundlerConfig, AfterOption, GroupView, OptPluginView, Payload, VimOptPlugin, VimStartPlugin};
use crate::synth::{synthesize, synthesizes_to};
use vstd::prelude::*;
use vstd::string::*;

verus! {

/// The package reference of a plugin that is active from the start.
pub open spec fn start_package(p: VimStartPlugin) -> String {
    match p {
        VimStartPlugin::SimplePackage(pkg) => pkg,
        VimStartPlugin::ConfiguredPackage(c) => c.plugin,
    }
}

/// Whether `r` is the unpacking of the eager plugin `p`: its resolved id, and its synthesized
/// startup block; all default for a bare reference.
pub open spec fn eager_unpacked(p: VimStartPlugin, t: Map<Seq<char>, Seq<char>>, r: EagerPluginView) -> bool {
    match p {
        VimStartPlugin::SimplePackage(pkg) => r == eager_baseline(t[pkg@]),
        VimStartPlugin::ConfiguredPackage(c) => r.plugin_id == t[c.plugin@] && synthesizes_to(
            c.startup_config,
            r.startup_config,
        ),
    }
}

/// Whether `r` is the unpacking of the lazy plugin `p`: its resolved id, its synthesized
/// blocks, the resolved ids of its dependencies, and its lists and flags as declared; all
/// default for a bare reference.
pub open spec fn lazy_unpacked(p: OptPluginView, t: Map<Seq<char>, Seq<char>>, r: LazyPluginView) -> bool {
    match p {
        OptPluginView::SimplePackage(pkg) => r == lazy_baseline(t[pkg@]),
        OptPluginView::ConfiguredPackage(c) => {
            &&& r.plugin_id == t[c.plugin@]
            &&& synthesizes_to(c.startup_config, r.startup_config)
            &&& synthesizes_to(c.pre_config, r.pre_config)
            &&& synthesizes_to(c.post_config, r.post_config)
            &&& r.depend_plugins == dep_ids(c.depend_plugins, t)
            &&& r.depend_groups == strs(c.depend_groups)
            &&& r.on_modules == strs(c.on_modules)
            &&& r.on_events == strs(c.on_events)
            &&& r.on_filetypes == strs(c.on_filetypes)
            &&& r.on_commands == strs(c.on_commands)
            &&& r.is_timer_client == c.use_timer
            &&& r.is_denops_client == c.use_denops
        },
    }
}

/// Whether `r` is the unpacking of the group `g`: its name as id, the resolved ids of its
/// members and dependencies, its synthesized blocks, and its lists and flag as declared.
pub open spec fn group_unpacked(g: GroupView, t: Map<Seq<char>, Seq<char>>, r: LazyGroupView) -> bool {
    &&& r.group_id == g.name@
    &&& r.plugin_ids == dep_ids(g.plugins, t)
    &&& synthesizes_to(g.startup_config, r.startup_config)
    &&& synthesizes_to(g.pre_config, r.pre_config)
    &&& synthesizes_to(g.post_config, r.post_config)
    &&& r.depend_plugins == dep_ids(g.depend_plugins, t)
    &&& r.depend_groups == strs(g.depend_groups)
    &&& r.on_modules == strs(g.on_modules)
    &&& r.on_events == strs(g.on_events)
    &&& r.on_filetypes == strs(g.on_filetypes)
    &&& r.on_commands == strs(g.on_commands)
    &&& r.is_timer_client == g.use_timer
}

/// Unpacks a plugin that is active from the start.
pub fn unpack_eager(p: &VimStartPlugin, table: &IdTable) -> (r: EagerPlugin)
    requires
        table@.contains_key(start_package(*p)@),
    ensures
        eager_unpacked(*p, table@, r@),
{
    match p {
        VimStartPlugin::SimplePackage(pkg) => {
            let r = EagerPlugin { plugin_id: String::from_str(table.get(pkg)), startup_config: String::new() };
            assert(r@.startup_config =~= Seq::<char>::empty());
            r
        },
        VimStartPlugin::ConfiguredPackage(c) => EagerPlugin {
            plugin_id: String::from_str(table.get(&c.plugin)),
            startup_config: synthesize(&c.startup_config),
        },
    }
}

/// Unpacks one lazy plugin declaration; its dependencies are unpacked on their own.
pub fn unpack_lazy(p: &VimOptPlugin, table: &IdTable) -> (r: LazyPlugin)
    requires
        declaration_registered(DeclarationView::Plugin(p@), table@),
    ensures
        lazy_unpacked(p@, table@, r@),
{
    match p {
        VimOptPlugin::SimplePackage(pkg) => {
            let r = LazyPlugin {
                plugin_id: String::from_str(table.get(pkg)),
                startup_config: String::new(),
                pre_config: String::new(),
                post_config: String::new(),
                depend_plugins: Vec::new(),
                depend_groups: Vec::new(),
                on_modules: Vec::new(),
                on_events: Vec::new(),
                on_filetypes: Vec::new(),
                on_commands: Vec::new(),
                is_timer_client: false,
                is_denops_client: false,
            };
            assert(strs(r.depend_plugins@) =~= Seq::<Seq<char>>::empty());
            assert(strs(r.depend_groups@) =~= Seq::<Seq<char>>::empty());
            assert(strs(r.on_modules@) =~= Seq::<Seq<char>>::empty());
            assert(strs(r.on_events@) =~= Seq::<Seq<char>>::empty());
            assert(strs(r.on_filetypes@) =~= Seq::<Seq<char>>::empty());
            assert(strs(r.on_commands@) =~= Seq::<Seq<char>>::empty());
            assert(r.startup_config@ =~= Seq::<char>::empty());
            assert(r.pre_config@ =~= Seq::<char>::empty());
            assert(r.post_config@ =~= Seq::<char>::empty());
            r
        },
        VimOptPlugin::ConfiguredPackage(c) => LazyPlugin {
            plugin_id: String::from_str(table.get(&c.plugin)),
            startup_config: synthesize(&c.startup_config),
            pre_config: synthesize(&c.pre_config),
            post_config: synthesize(&c.post_config),
            depend_plugins: dependency_ids(&c.depend_plugins, table),
            depend_groups: duplicate_strings(&c.depend_groups),
            on_modules: duplicate_strings(&c.on_modules),
            on_events: duplicate_strings(&c.on_events),
            on_filetypes: duplicate_strings(&c.on_filetypes),
            on_commands: duplicate_strings(&c.on_commands),
            is_timer_client: c.use_timer,
            is_denops_client: c.use_denops,
        },
    }
}

/// Unpacks one group declaration; its members and dependencies are unpacked on their own.
pub fn unpack_group(g: &payload::LazyGroup, table: &IdTable) -> (r: LazyGroup)
    requires
        declaration_registered(DeclarationView::Group(g@), table@),
    ensures
        group_unpacked(g@, table@, r@),
{
    LazyGroup {
        group_id: g.name.clone(),
        plugin_ids: dependency_ids(&g.plugins, table),
        startup_config: synthesize(&g.startup_config),
        pre_config: synthesize(&g.pre_config),
        post_config: synthesize(&g.post_config),
        depend_plugins: dependency_ids(&g.depend_plugins, table),
        depend_groups: duplicate_strings(&g.depend_groups),
        on_modules: duplicate_strings(&g.on_modules),
        on_events: duplicate_strings(&g.on_events),
        on_filetypes: duplicate_strings(&g.on_filetypes),
        on_commands: duplicate_strings(&g.on_commands),
        is_timer_client: g.use_timer,
    }
}

/// The lazy declarations of a document, expanded: its lazy plugins, then its groups.
pub open spec fn lazy_declarations(c: BundlerConfig) -> Seq<DeclarationView> {
    expansion(c.lazy_plugins@) + expansion(c.lazy_groups@)
}

/// Whether every package reference of the document is in its identity table.
pub open spec fn payload_registered(p: Payload) -> bool {
    let t = table_map(p.meta.id_map@);
    &&& forall|i: int|
        0 <= i < p.config.eager_plugins@.len() ==> t.contains_key(
            start_package(#[trigger] p.config.eager_plugins@[i])@,
        )
    &&& all_registered(lazy_declarations(p.config), t)
}

/// The views of a sequence.
pub open spec fn views<T: View>(s: Seq<T>) -> Seq<T::V> {
    s.map_values(|x: T| x@)
}

/// Whether `lz` and `gs` are the unpackings of the plugins and of the groups of `ds`, in order.
pub open spec fn unpacked_split(
    ds: Seq<DeclarationView>,
    t: Map<Seq<char>, Seq<char>>,
    lz: Seq<LazyPluginView>,
    gs: Seq<LazyGroupView>,
) -> bool
    decreases ds.len(),
{
    if ds.len() == 0 {
        lz.len() == 0 && gs.len() == 0
    } else {
        match ds.last() {
            DeclarationView::Plugin(p) => lz.len() > 0 && lazy_unpacked(p, t, lz.last())
                && unpacked_split(ds.drop_last(), t, lz.drop_last(), gs),
            DeclarationView::Group(g) => gs.len() > 0 && group_unpacked(g, t, gs.last())
                && unpacked_split(ds.drop_last(), t, lz, gs.drop_last()),
        }
    }
}

/// Whether `es` are the unpackings of the eager plugins `ps`, in order.
pub open spec fn eager_all(ps: Seq<VimStartPlugin>, t: Map<Seq<char>, Seq<char>>, es: Seq<EagerPluginView>) -> bool {
    &&& es.len() == ps.len()
    &&& forall|i: int| 0 <= i < ps.len() ==> eager_unpacked(#[trigger] ps[i], t, es[i])
}

/// The unpacked document: its identity table, its components and its load plan.
pub struct Specs {
    pub id_map: IdTable,
    pub eager_plugins: Vec<EagerPlugin>,
    pub lazy_plugins: Vec<LazyPlugin>,
    pub lazy_groups: Vec<LazyGroup>,
    pub load_option: LoadConfig,
    pub after_option: AfterOption,
}

/// Unpacks the document: the eager plugins one by one; the lazy plugins and groups expanded,
/// then one component per declaration; and the load plan aggregated over the same declarations.
pub fn unpack(payload: &Payload) -> (r: Specs)
    requires
        payload_registered(*payload),
    ensures
        r.id_map@ == table_map(payload.meta.id_map@),
        eager_all(payload.config.eager_plugins@, r.id_map@, views(r.eager_plugins@)),
        unpacked_split(
            lazy_declarations(payload.config),
            r.id_map@,
            views(r.lazy_plugins@),
            views(r.lazy_groups@),
        ),
        r.load_option.wf(),
        r.load_option@ == aggregated(empty_plan(), lazy_declarations(payload.config), r.id_map@),
        r.after_option.ftplugin@ == payload.config.after.ftplugin@,
{
    let table = make_id_map(&payload.meta);
    let ghost t = table@;
    let mut eager: Vec<EagerPlugin> = Vec::new();
    let mut i: usize = 0;
    while i < payload.config.eager_plugins.len()
        invariant
            t == table@,
            payload_registered(*payload),
            t == table_map(payload.meta.id_map@),
            i <= payload.config.eager_plugins@.len(),
            eager@.len() == i,
            forall|j: int| 0 <= j < i ==> eager_unpacked(#[trigger] payload.config.eager_plugins@[j], t, eager@[j]@),
        decreases payload.config.eager_plugins.len() - i,
    {
        let e = unpack_eager(&payload.config.eager_plugins[i], &table);
        eager.push(e);
        i += 1;
    }
    let mut decls = expand(&payload.config.lazy_plugins);
    let mut groups = expand(&payload.config.lazy_groups);
    let ghost a = decls@;
    let ghost b = groups@;
    decls.append(&mut groups);
    let ghost ds = lazy_declarations(payload.config);
    assert(decl_views(decls@) =~= decl_views(a) + decl_views(b));
    assert(decl_views(decls@) == ds);
    let mut lazies: Vec<LazyPlugin> = Vec::new();
    let mut group_components: Vec<LazyGroup> = Vec::new();
    let mut k: usize = 0;
    assert(ds.subrange(0, 0) =~= Seq::<DeclarationView>::empty());
    assert(views(lazies@) =~= Seq::<LazyPluginView>::empty());
    assert(views(group_components@) =~= Seq::<LazyGroupView>::empty());
    while k < decls.len()
        invariant
            t == table@,
            ds == decl_views(decls@),
            all_registered(ds, t),
            k <= decls@.len(),
            unpacked_split(ds.subrange(0, k as int), t, views(lazies@), views(group_components@)),
        decreases decls.len() - k,
    {
        let ghost before_l = lazies@;
        let ghost before_g = group_components@;
        assert(ds[k as int] == decls@[k as int]@);
        assert(declaration_registered(ds[k as int], t));
        match &decls[k] {
            Declaration::Plugin(p) => {
                let c = unpack_lazy(p, &table);
                lazies.push(c);
                assert(views(lazies@).drop_last() =~= views(before_l));
            },
            Declaration::Group(g) => {
                let c = unpack_group(g, &table);
                group_components.push(c);
                assert(views(group_components@).drop_last() =~= views(before_g));
            },
        }
        proof {
            let next = ds.subrange(0, k + 1);
            assert(next.drop_last() =~= ds.subrange(0, k as int));
            assert(next.last() == ds[k as int]);
        }
        k += 1;
    }
    assert(ds.subrange(0, decls@.len() as int) =~= ds);
    let load_option = aggregate(LoadConfig::default(), &table, &decls);
    proof {
        assert forall|j: int| 0 <= j < eager@.len() implies eager_unpacked(
            #[trigger] payload.config.eager_plugins@[j],
            t,
            views(eager@)[j],
        ) by {}
    }
    Specs {
        id_map: table,
        eager_plugins: eager,
        lazy_plugins: lazies,
        lazy_groups: group_components,
        load_option,
        after_option: payload.config.after.duplicate(),
    }
}

/// Expansion of a document is complete: every plugin reachable from one of its lazy plugins or
/// groups, through members and dependencies at any depth, is among its expanded declarations.
pub proof fn lemma_document_expansion_complete(c: BundlerConfig, pkg: String)
    requires
        (exists|i: int| 0 <= i < c.lazy_plugins@.len() && reaches(#[trigger] c.lazy_plugins@[i]@, pkg))
            || (exists|i: int|
            0 <= i < c.lazy_groups@.len() && declaration_reaches(
                DeclarationView::Group(#[trigger] c.lazy_groups@[i]@),
                pkg,
            )),
    ensures
        holds_plugin(lazy_declarations(c), pkg),
{
    let a = expansion(c.lazy_plugins@);
    let b = expansion(c.lazy_groups@);
    if exists|i: int| 0 <= i < c.lazy_plugins@.len() && reaches(#[trigger] c.lazy_plugins@[i]@, pkg) {
        let i = choose|i: int| 0 <= i < c.lazy_plugins@.len() && reaches(#[trigger] c.lazy_plugins@[i]@, pkg);
        let ds = seq![Declaration::Plugin(c.lazy_plugins@[i])];
        lemma_expansion_complete(ds, 0, pkg);
        lemma_expansion_single(ds);
        crate::expand::lemma_expansion_holds(c.lazy_plugins@, i, pkg);
    } else {
        let i = choose|i: int|
            0 <= i < c.lazy_groups@.len() && declaration_reaches(
                DeclarationView::Group(#[trigger] c.lazy_groups@[i]@),
                pkg,
            );
        let ds = seq![Declaration::Group(c.lazy_groups@[i])];
        lemma_expansion_complete(ds, 0, pkg);
        lemma_expansion_single(ds);
        crate::expand::lemma_expansion_holds(c.lazy_groups@, i, pkg);
    }
    crate::expand::lemma_holds_plugin_append(a, b, pkg);
}

proof fn lemma_expansion_single(ds: Seq<Declaration>)
    requires
        ds.len() == 1,
    ensures
        expansion(ds) == ds[0].expansion_of(),
{
    assert(ds.drop_last() =~= Seq::<Declaration>::empty());
    assert(expansion(ds.drop_last()) == Seq::<DeclarationView>::empty());
    assert(expansion(ds) =~= ds[0].expansion_of());
}

} // verus!
