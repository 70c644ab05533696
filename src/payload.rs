//! The declarations of the input document, before any resolution.

use crate::synth::Language;
use vstd::prelude::*;

verus! {

/// A configuration block with an explicit language and structured arguments.
#[derive(Clone, Debug, PartialEq, Eq)]
pub struct DetailConfig {
    pub language: Language,
    pub code: String,
    pub args: serde_json::Value,
}

/// A configuration block: a bare source string, or the detailed form.
#[derive(Clone, Debug, PartialEq, Eq)]
pub enum Config {
    Simple(String),
    Detail(DetailConfig),
}

impl Default for Config {
    fn default() -> (r: Config)
        ensures
            r matches Config::Simple(code) && code@.len() == 0,
    {
        Config::Simple(String::new())
    }
}

impl Config {
    /// An exact copy of the block.
    pub fn duplicate(&self) -> (r: Config)
        ensures
            r == *self,
    {
        match self {
            Config::Simple(code) => Config::Simple(code.clone()),
            Config::Detail(d) => Config::Detail(
                DetailConfig { language: d.language, code: d.code.clone(), args: d.args.clone() },
            ),
        }
    }
}

/// A plugin that is active from the start.
#[derive(Clone, Debug, PartialEq, Eq)]
pub enum VimStartPlugin {
    SimplePackage(String),
    ConfiguredPackage(PluginStartConfig),
}

/// The configured form of a plugin that is active from the start.
#[derive(Clone, Debug, PartialEq, Eq)]
pub struct PluginStartConfig {
    pub plugin: String,
    pub startup_config: Config,
    pub extra_packages: Vec<String>,
}

/// A plugin that is loaded on demand: a bare package reference, or the configured form.
#[derive(Debug, PartialEq, Eq)]
pub enum VimOptPlugin {
    SimplePackage(String),
    ConfiguredPackage(PluginOptConfig),
}

/// The configured form of a plugin that is loaded on demand.
#[derive(Debug, Default, PartialEq, Eq)]
pub struct PluginOptConfig {
    pub plugin: String,
    pub startup_config: Config,
    pub pre_config: Config,
    pub post_config: Config,
    pub depend_plugins: Vec<VimOptPlugin>,
    pub depend_groups: Vec<String>,
    pub on_modules: Vec<String>,
    pub on_events: Vec<String>,
    pub on_filetypes: Vec<String>,
    pub on_commands: Vec<String>,
    pub use_timer: bool,
    pub use_denops: bool,
}

/// A named group of plugins that share their activation triggers.
#[derive(Debug, Default, PartialEq, Eq)]
pub struct LazyGroup {
    pub name: String,
    pub plugins: Vec<VimOptPlugin>,
    pub startup_config: Config,
    pub extra_packages: Vec<String>,
    pub pre_config: Config,
    pub post_config: Config,
    pub depend_plugins: Vec<VimOptPlugin>,
    pub depend_groups: Vec<String>,
    pub on_modules: Vec<String>,
    pub on_events: Vec<String>,
    pub on_filetypes: Vec<String>,
    pub on_commands: Vec<String>,
    pub use_timer: bool,
}

/// One pair of the identity table: a package reference and the plugin id it stands for.
#[derive(Clone, Debug, Default, PartialEq, Eq)]
pub struct IdMapElement {
    pub plugin_id: String,
    pub package: String,
}

/// What the input document says besides the declarations.
#[derive(Clone, Debug, Default, PartialEq, Eq)]
pub struct Meta {
    pub extra_packages: Vec<String>,
    pub id_map: Vec<IdMapElement>,
}

/// Hook code that runs after loading, by category and key: for the `ftplugin` category, pairs
/// of file type and code.
#[derive(Clone, Debug, Default, PartialEq, Eq)]
pub struct AfterOption {
    pub ftplugin: Vec<(String, String)>,
}

impl AfterOption {
    /// An exact copy of the hooks.
    pub fn duplicate(&self) -> (r: AfterOption)
        ensures
            r.ftplugin@ == self.ftplugin@,
    {
        let mut ftplugin: Vec<(String, String)> = Vec::new();
        let mut i: usize = 0;
        while i < self.ftplugin.len()
            invariant
                i <= self.ftplugin@.len(),
                ftplugin@ == self.ftplugin@.subrange(0, i as int),
            decreases self.ftplugin.len() - i,
        {
            let (key, code) = &self.ftplugin[i];
            ftplugin.push((key.clone(), code.clone()));
            assert(ftplugin@ =~= self.ftplugin@.subrange(0, i + 1));
            i += 1;
        }
        assert(ftplugin@ =~= self.ftplugin@);
        AfterOption { ftplugin }
    }
}

/// The declarations of the input document.
#[derive(Clone, Debug, Default, PartialEq, Eq)]
pub struct BundlerConfig {
    pub eager_plugins: Vec<VimStartPlugin>,
    pub lazy_plugins: Vec<VimOptPlugin>,
    pub lazy_groups: Vec<LazyGroup>,
    pub package: String,
    pub with_node_js: bool,
    pub with_python3: bool,
    pub with_ruby: bool,
    pub after: AfterOption,
}

/// The whole input document.
#[derive(Clone, Debug, Default, PartialEq, Eq)]
pub struct Payload {
    pub config: BundlerConfig,
    pub meta: Meta,
}

// ---------------------------------------------------------------------------------------------
// Views: the same declarations, with each nested list as a sequence.

/// The view of a plugin loaded on demand.
pub enum OptPluginView {
    SimplePackage(String),
    ConfiguredPackage(OptConfigView),
}

/// The view of the configured form of a plugin loaded on demand.
pub struct OptConfigView {
    pub plugin: String,
    pub startup_config: Config,
    pub pre_config: Config,
    pub post_config: Config,
    pub depend_plugins: Seq<OptPluginView>,
    pub depend_groups: Seq<String>,
    pub on_modules: Seq<String>,
    pub on_events: Seq<String>,
    pub on_filetypes: Seq<String>,
    pub on_commands: Seq<String>,
    pub use_timer: bool,
    pub use_denops: bool,
}

/// The view of a group.
pub struct GroupView {
    pub name: String,
    pub plugins: Seq<OptPluginView>,
    pub startup_config: Config,
    pub extra_packages: Seq<String>,
    pub pre_config: Config,
    pub post_config: Config,
    pub depend_plugins: Seq<OptPluginView>,
    pub depend_groups: Seq<String>,
    pub on_modules: Seq<String>,
    pub on_events: Seq<String>,
    pub on_filetypes: Seq<String>,
    pub on_commands: Seq<String>,
    pub use_timer: bool,
}

/// The view of a plugin loaded on demand, nested dependencies included.
pub open spec fn opt_view(p: VimOptPlugin) -> OptPluginView
    decreases p,
{
    match p {
        VimOptPlugin::SimplePackage(pkg) => OptPluginView::SimplePackage(pkg),
        VimOptPlugin::ConfiguredPackage(c) => OptPluginView::ConfiguredPackage(
            OptConfigView {
                plugin: c.plugin,
                startup_config: c.startup_config,
                pre_config: c.pre_config,
                post_config: c.post_config,
                depend_plugins: opt_views(c.depend_plugins@),
                depend_groups: c.depend_groups@,
                on_modules: c.on_modules@,
                on_events: c.on_events@,
                on_filetypes: c.on_filetypes@,
                on_commands: c.on_commands@,
                use_timer: c.use_timer,
                use_denops: c.use_denops,
            },
        ),
    }
}

/// The views of a sequence of plugins, one by one.
pub open spec fn opt_views(s: Seq<VimOptPlugin>) -> Seq<OptPluginView>
    decreases s,
{
    if s.len() == 0 {
        Seq::empty()
    } else {
        opt_views(s.subrange(0, s.len() - 1)).push(opt_view(s[s.len() - 1]))
    }
}

impl View for VimOptPlugin {
    type V = OptPluginView;

    open spec fn view(&self) -> OptPluginView {
        opt_view(*self)
    }
}

impl View for LazyGroup {
    type V = GroupView;

    open spec fn view(&self) -> GroupView {
        GroupView {
            name: self.name,
            plugins: opt_views(self.plugins@),
            startup_config: self.startup_config,
            extra_packages: self.extra_packages@,
            pre_config: self.pre_config,
            post_config: self.post_config,
            depend_plugins: opt_views(self.depend_plugins@),
            depend_groups: self.depend_groups@,
            on_modules: self.on_modules@,
            on_events: self.on_events@,
            on_filetypes: self.on_filetypes@,
            on_commands: self.on_commands@,
            use_timer: self.use_timer,
        }
    }
}

/// The views of a sequence of plugins are taken one by one.
pub proof fn lemma_opt_views(s: Seq<VimOptPlugin>)
    ensures
        opt_views(s).len() == s.len(),
        forall|i: int| 0 <= i < s.len() ==> #[trigger] opt_views(s)[i] == opt_view(s[i]),
    decreases s.len(),
{
    if s.len() > 0 {
        lemma_opt_views(s.subrange(0, s.len() - 1));
    }
}

/// An exact copy of a list of strings.
pub fn duplicate_strings(v: &Vec<String>) -> (r: Vec<String>)
    ensures
        r@ == v@,
{
    let r = v.clone();
    assert(r@ =~= v@);
    r
}

/// An exact copy of a list of plugins.
pub fn duplicate_plugins(v: &Vec<VimOptPlugin>) -> (r: Vec<VimOptPlugin>)
    ensures
        opt_views(r@) == opt_views(v@),
    decreases v,
{
    let mut r: Vec<VimOptPlugin> = Vec::new();
    let mut i: usize = 0;
    while i < v.len()
        invariant
            i <= v.len(),
            r@.len() == i,
            forall|k: int| 0 <= k < i ==> #[trigger] opt_view(r@[k]) == opt_view(v@[k]),
        decreases v.len() - i,
    {
        r.push(v[i].duplicate());
        i += 1;
    }
    proof {
        lemma_opt_views(r@);
        lemma_opt_views(v@);
        assert(opt_views(r@) =~= opt_views(v@));
    }
    r
}

impl VimOptPlugin {
    /// An exact copy of the declaration, nested dependencies included.
    pub fn duplicate(&self) -> (r: VimOptPlugin)
        ensures
            r@ == self@,
        decreases self,
    {
        match self {
            VimOptPlugin::SimplePackage(pkg) => VimOptPlugin::SimplePackage(pkg.clone()),
            VimOptPlugin::ConfiguredPackage(c) => VimOptPlugin::ConfiguredPackage(
                c.duplicate(),
            ),
        }
    }

    /// The package reference of the declaration.
    pub fn package(&self) -> (r: &String)
        ensures
            r@ == package_of(self@)@,
    {
        match self {
            VimOptPlugin::SimplePackage(pkg) => pkg,
            VimOptPlugin::ConfiguredPackage(c) => &c.plugin,
        }
    }
}

/// The package reference of a declaration.
pub open spec fn package_of(p: OptPluginView) -> String {
    match p {
        OptPluginView::SimplePackage(pkg) => pkg,
        OptPluginView::ConfiguredPackage(c) => c.plugin,
    }
}

impl PluginOptConfig {
    /// An exact copy of the configured form, nested dependencies included.
    pub fn duplicate(&self) -> (r: PluginOptConfig)
        ensures
            opt_view(VimOptPlugin::ConfiguredPackage(r)) == opt_view(
                VimOptPlugin::ConfiguredPackage(*self),
            ),
        decreases self,
    {
        PluginOptConfig {
            plugin: self.plugin.clone(),
            startup_config: self.startup_config.duplicate(),
            pre_config: self.pre_config.duplicate(),
            post_config: self.post_config.duplicate(),
            depend_plugins: duplicate_plugins(&self.depend_plugins),
            depend_groups: duplicate_strings(&self.depend_groups),
            on_modules: duplicate_strings(&self.on_modules),
            on_events: duplicate_strings(&self.on_events),
            on_filetypes: duplicate_strings(&self.on_filetypes),
            on_commands: duplicate_strings(&self.on_commands),
            use_timer: self.use_timer,
            use_denops: self.use_denops,
        }
    }
}

impl LazyGroup {
    /// An exact copy of the group, nested declarations included.
    pub fn duplicate(&self) -> (r: LazyGroup)
        ensures
            r@ == self@,
    {
        LazyGroup {
            name: self.name.clone(),
            plugins: duplicate_plugins(&self.plugins),
            startup_config: self.startup_config.duplicate(),
            extra_packages: duplicate_strings(&self.extra_packages),
            pre_config: self.pre_config.duplicate(),
            post_config: self.post_config.duplicate(),
            depend_plugins: duplicate_plugins(&self.depend_plugins),
            depend_groups: duplicate_strings(&self.depend_groups),
            on_modules: duplicate_strings(&self.on_modules),
            on_events: duplicate_strings(&self.on_events),
            on_filetypes: duplicate_strings(&self.on_filetypes),
            on_commands: duplicate_strings(&self.on_commands),
            use_timer: self.use_timer,
        }
    }
}

impl Clone for VimOptPlugin {
    fn clone(&self) -> Self {
        self.duplicate()
    }
}

impl Clone for PluginOptConfig {
    fn clone(&self) -> Self {
        self.duplicate()
    }
}

impl Clone for LazyGroup {
    fn clone(&self) -> Self {
        self.duplicate()
    }
}

} // verus!
