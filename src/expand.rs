//! Expansion of nested declarations into a flat, duplicate-preserving sequence.

use crate::payload::{
    duplicate_plugins, lemma_opt_views, opt_view, opt_views, package_of, GroupView, LazyGroup,
    OptPluginView, VimOptPlugin,
};
use vstd::prelude::*;

verus! {

/// One declaration of the flat sequence: a plugin loaded on demand, or a group.
#[derive(Debug, PartialEq, Eq)]
pub enum Declaration {
    Plugin(VimOptPlugin),
    Group(LazyGroup),
}

/// The view of a declaration.
pub enum DeclarationView {
    Plugin(OptPluginView),
    Group(GroupView),
}

impl View for Declaration {
    type V = DeclarationView;

    open spec fn view(&self) -> DeclarationView {
        match self {
            Declaration::Plugin(p) => DeclarationView::Plugin(p@),
            Declaration::Group(g) => DeclarationView::Group(g@),
        }
    }
}

impl Clone for Declaration {
    fn clone(&self) -> (r: Self)
        ensures
            r@ == self@,
    {
        match self {
            Declaration::Plugin(p) => Declaration::Plugin(p.duplicate()),
            Declaration::Group(g) => Declaration::Group(g.duplicate()),
        }
    }
}

/// The views of a sequence of declarations.
pub open spec fn decl_views(s: Seq<Declaration>) -> Seq<DeclarationView> {
    s.map_values(|d: Declaration| d@)
}

/// A plugin followed, for the configured form, by the expansion of its dependencies in order.
pub open spec fn plugin_expansion(p: OptPluginView) -> Seq<DeclarationView>
    decreases p,
{
    match p {
        OptPluginView::SimplePackage(_) => seq![DeclarationView::Plugin(p)],
        OptPluginView::ConfiguredPackage(c) => seq![DeclarationView::Plugin(p)]
            + plugins_expansion(c.depend_plugins),
    }
}

/// The expansions of a sequence of plugins, one after the other.
pub open spec fn plugins_expansion(s: Seq<OptPluginView>) -> Seq<DeclarationView>
    decreases s,
{
    if s.len() == 0 {
        Seq::empty()
    } else {
        plugins_expansion(s.subrange(0, s.len() - 1)) + plugin_expansion(s[s.len() - 1])
    }
}

/// A group, then the expansion of its members, then that of its dependencies.
pub open spec fn group_expansion(g: GroupView) -> Seq<DeclarationView> {
    seq![DeclarationView::Group(g)] + plugins_expansion(g.plugins) + plugins_expansion(
        g.depend_plugins,
    )
}

/// The expansion of one declaration.
pub open spec fn declaration_expansion(d: DeclarationView) -> Seq<DeclarationView> {
    match d {
        DeclarationView::Plugin(p) => plugin_expansion(p),
        DeclarationView::Group(g) => group_expansion(g),
    }
}

/// What can be expanded into declarations.
pub trait Expandable: Sized {
    spec fn expansion_of(&self) -> Seq<DeclarationView>;

    /// Appends the expansion of this item to `out`.
    fn expand_item(&self, out: &mut Vec<Declaration>)
        ensures
            decl_views(final(out)@) == decl_views(old(out)@) + self.expansion_of(),
    ;
}

impl Expandable for VimOptPlugin {
    open spec fn expansion_of(&self) -> Seq<DeclarationView> {
        plugin_expansion(self@)
    }

    fn expand_item(&self, out: &mut Vec<Declaration>) {
        expand_plugin_into(self, out);
    }
}

impl Expandable for LazyGroup {
    open spec fn expansion_of(&self) -> Seq<DeclarationView> {
        group_expansion(self@)
    }

    fn expand_item(&self, out: &mut Vec<Declaration>) {
        let ghost start = decl_views(out@);
        out.push(Declaration::Group(self.duplicate()));
        assert(decl_views(out@) =~= start + seq![DeclarationView::Group(self@)]);
        expand_plugins_into(&self.plugins, out);
        expand_plugins_into(&self.depend_plugins, out);
        assert(decl_views(out@) =~= start + group_expansion(self@));
    }
}

impl Expandable for Declaration {
    open spec fn expansion_of(&self) -> Seq<DeclarationView> {
        declaration_expansion(self@)
    }

    fn expand_item(&self, out: &mut Vec<Declaration>) {
        match self {
            Declaration::Plugin(p) => p.expand_item(out),
            Declaration::Group(g) => g.expand_item(out),
        }
    }
}

fn expand_plugin_into(p: &VimOptPlugin, out: &mut Vec<Declaration>)
    ensures
        decl_views(final(out)@) == decl_views(old(out)@) + plugin_expansion(p@),
    decreases p,
{
    let ghost start = decl_views(out@);
    out.push(Declaration::Plugin(p.duplicate()));
    assert(decl_views(out@) =~= start + seq![DeclarationView::Plugin(p@)]);
    match p {
        VimOptPlugin::SimplePackage(_) => {},
        VimOptPlugin::ConfiguredPackage(c) => {
            expand_plugins_into(&c.depend_plugins, out);
            assert(decl_views(out@) =~= start + plugin_expansion(p@));
        },
    }
}

fn expand_plugins_into(v: &Vec<VimOptPlugin>, out: &mut Vec<Declaration>)
    ensures
        decl_views(final(out)@) == decl_views(old(out)@) + plugins_expansion(opt_views(v@)),
    decreases v,
{
    let ghost start = decl_views(out@);
    let ghost views = opt_views(v@);
    proof {
        lemma_opt_views(v@);
        assert(views.subrange(0, 0) =~= Seq::<OptPluginView>::empty());
        assert(decl_views(out@) =~= start + plugins_expansion(views.subrange(0, 0)));
    }
    let mut i: usize = 0;
    while i < v.len()
        invariant
            i <= v.len(),
            views == opt_views(v@),
            views.len() == v@.len(),
            forall|k: int| 0 <= k < v@.len() ==> #[trigger] views[k] == opt_view(v@[k]),
            decl_views(out@) == start + plugins_expansion(views.subrange(0, i as int)),
        decreases v.len() - i,
    {
        expand_plugin_into(&v[i], out);
        proof {
            let next = views.subrange(0, i + 1);
            assert(next.subrange(0, i as int) =~= views.subrange(0, i as int));
            assert(next[i as int] == opt_view(v@[i as int]));
            assert(plugins_expansion(next) == plugins_expansion(views.subrange(0, i as int))
                + plugin_expansion(opt_view(v@[i as int])));
            assert(decl_views(out@) =~= start + plugins_expansion(next));
        }
        i += 1;
    }
    assert(views.subrange(0, v@.len() as int) =~= views);
}

/// The expansions of a sequence of items, one after the other.
pub open spec fn expansion<T: Expandable>(s: Seq<T>) -> Seq<DeclarationView>
    decreases s.len(),
{
    if s.len() == 0 {
        Seq::empty()
    } else {
        expansion(s.drop_last()) + s.last().expansion_of()
    }
}

/// Flattens the declarations `xs` depth-first: each plugin before its dependencies, each group
/// before its members and its dependencies, in listed order; duplicates are kept.
pub fn expand<T: Expandable>(xs: &Vec<T>) -> (r: Vec<Declaration>)
    ensures
        decl_views(r@) == expansion(xs@),
{
    let mut r: Vec<Declaration> = Vec::new();
    let mut i: usize = 0;
    assert(decl_views(r@) =~= expansion(xs@.subrange(0, 0)));
    while i < xs.len()
        invariant
            i <= xs.len(),
            decl_views(r@) == expansion(xs@.subrange(0, i as int)),
        decreases xs.len() - i,
    {
        xs[i].expand_item(&mut r);
        assert(xs@.subrange(0, i + 1).drop_last() =~= xs@.subrange(0, i as int));
        i += 1;
    }
    assert(xs@.subrange(0, xs@.len() as int) =~= xs@);
    r
}

/// Whether the plugin `p`, or a plugin it depends on directly or transitively, has the package
/// reference `pkg`.
pub open spec fn reaches(p: OptPluginView, pkg: String) -> bool
    decreases p,
{
    package_of(p) == pkg || match p {
        OptPluginView::SimplePackage(_) => false,
        OptPluginView::ConfiguredPackage(c) => any_reaches(c.depend_plugins, pkg),
    }
}

/// Whether some plugin of `s` reaches the package reference `pkg`.
pub open spec fn any_reaches(s: Seq<OptPluginView>, pkg: String) -> bool
    decreases s,
{
    s.len() > 0 && (any_reaches(s.subrange(0, s.len() - 1), pkg) || reaches(s[s.len() - 1], pkg))
}

/// Whether a plugin with package reference `pkg` is reachable from the declaration `d`: from a
/// plugin as above, from a group through its members or its dependencies.
pub open spec fn declaration_reaches(d: DeclarationView, pkg: String) -> bool {
    match d {
        DeclarationView::Plugin(p) => reaches(p, pkg),
        DeclarationView::Group(g) => any_reaches(g.plugins, pkg) || any_reaches(
            g.depend_plugins,
            pkg,
        ),
    }
}

/// Whether the sequence holds a plugin declaration with package reference `pkg`.
pub open spec fn holds_plugin(s: Seq<DeclarationView>, pkg: String) -> bool {
    exists|k: int|
        0 <= k < s.len() && is_plugin_with(#[trigger] s[k], pkg)
}

/// Whether `d` is a plugin declaration with package reference `pkg`.
pub open spec fn is_plugin_with(d: DeclarationView, pkg: String) -> bool {
    match d {
        DeclarationView::Plugin(p) => package_of(p) == pkg,
        DeclarationView::Group(_) => false,
    }
}

pub(crate) proof fn lemma_holds_plugin_append(a: Seq<DeclarationView>, b: Seq<DeclarationView>, pkg: String)
    requires
        holds_plugin(a, pkg) || holds_plugin(b, pkg),
    ensures
        holds_plugin(a + b, pkg),
{
    if holds_plugin(a, pkg) {
        let k = choose|k: int|
            0 <= k < a.len() && is_plugin_with(#[trigger] a[k], pkg);
        assert((a + b)[k] == a[k]);
    } else {
        let k = choose|k: int|
            0 <= k < b.len() && is_plugin_with(#[trigger] b[k], pkg);
        assert((a + b)[a.len() + k] == b[k]);
    }
}

proof fn lemma_plugins_expansion_holds(s: Seq<OptPluginView>, pkg: String)
    requires
        any_reaches(s, pkg),
    ensures
        holds_plugin(plugins_expansion(s), pkg),
    decreases s, 1int,
{
    let init = s.subrange(0, s.len() - 1);
    if any_reaches(init, pkg) {
        lemma_plugins_expansion_holds(init, pkg);
    } else {
        lemma_plugin_expansion_holds(s[s.len() - 1], pkg);
    }
    lemma_holds_plugin_append(plugins_expansion(init), plugin_expansion(s[s.len() - 1]), pkg);
}

proof fn lemma_plugin_expansion_holds(p: OptPluginView, pkg: String)
    requires
        reaches(p, pkg),
    ensures
        holds_plugin(plugin_expansion(p), pkg),
    decreases p, 0int,
{
    let head = seq![DeclarationView::Plugin(p)];
    assert(head[0] == DeclarationView::Plugin(p));
    match p {
        OptPluginView::SimplePackage(_) => {},
        OptPluginView::ConfiguredPackage(c) => {
            if package_of(p) != pkg {
                lemma_plugins_expansion_holds(c.depend_plugins, pkg);
            }
            lemma_holds_plugin_append(head, plugins_expansion(c.depend_plugins), pkg);
        },
    }
}

pub(crate) proof fn lemma_expansion_holds<T: Expandable>(xs: Seq<T>, i: int, pkg: String)
    requires
        0 <= i < xs.len(),
        holds_plugin(xs[i].expansion_of(), pkg),
    ensures
        holds_plugin(expansion(xs), pkg),
    decreases xs.len(),
{
    if i < xs.len() - 1 {
        assert(xs.drop_last()[i] == xs[i]);
        lemma_expansion_holds(xs.drop_last(), i, pkg);
    }
    lemma_holds_plugin_append(expansion(xs.drop_last()), xs.last().expansion_of(), pkg);
}

/// Expansion is complete: every plugin that is reachable from a top-level declaration, through
/// group members and dependencies at any depth, appears in the expanded sequence.
pub proof fn lemma_expansion_complete(xs: Seq<Declaration>, i: int, pkg: String)
    requires
        0 <= i < xs.len(),
        declaration_reaches(xs[i]@, pkg),
    ensures
        holds_plugin(expansion(xs), pkg),
{
    match xs[i]@ {
        DeclarationView::Plugin(p) => {
            lemma_plugin_expansion_holds(p, pkg);
        },
        DeclarationView::Group(g) => {
            let head = seq![DeclarationView::Group(g)];
            if any_reaches(g.plugins, pkg) {
                lemma_plugins_expansion_holds(g.plugins, pkg);
                lemma_holds_plugin_append(head, plugins_expansion(g.plugins), pkg);
            } else {
                lemma_plugins_expansion_holds(g.depend_plugins, pkg);
            }
            lemma_holds_plugin_append(
                head + plugins_expansion(g.plugins),
                plugins_expansion(g.depend_plugins),
                pkg,
            );
        },
    }
    lemma_expansion_holds(xs, i, pkg);
}

} // verus!
