//! The resolved component records, one per declaration, keyed by id.

use crate::merge::Mergeable;
use vstd::prelude::*;

verus! {

/// The characters of each string of a list.
pub open spec fn strs(v: Seq<String>) -> Seq<Seq<char>> {
    v.map_values(|s: String| s@)
}

/// Whether two lists of strings hold the same characters, string by string.
pub fn strings_eq(a: &Vec<String>, b: &Vec<String>) -> (r: bool)
    ensures
        r == (strs(a@) == strs(b@)),
{
    if a.len() != b.len() {
        proof {
            assert(strs(a@).len() != strs(b@).len());
        }
        return false;
    }
    let mut i: usize = 0;
    while i < a.len()
        invariant
            i <= a@.len(),
            a@.len() == b@.len(),
            forall|j: int| 0 <= j < i ==> (#[trigger] a@[j])@ == b@[j]@,
        decreases a.len() - i,
    {
        if a[i] != b[i] {
            proof {
                assert(strs(a@)[i as int] != strs(b@)[i as int]);
            }
            return false;
        }
        i += 1;
    }
    assert(strs(a@) =~= strs(b@));
    true
}

/// A plugin that is active from the start.
#[derive(Clone, Debug, Default)]
pub struct EagerPlugin {
    pub plugin_id: String,
    pub startup_config: String,
}

/// A plugin that is loaded on demand.
#[derive(Clone, Debug, Default)]
pub struct LazyPlugin {
    pub plugin_id: String,
    pub startup_config: String,
    pub pre_config: String,
    pub post_config: String,
    pub depend_plugins: Vec<String>,
    pub depend_groups: Vec<String>,
    pub on_modules: Vec<String>,
    pub on_events: Vec<String>,
    pub on_filetypes: Vec<String>,
    pub on_commands: Vec<String>,
    pub is_timer_client: bool,
    pub is_denops_client: bool,
}

/// A named group of plugins loaded on demand, which share their activation triggers.
#[derive(Clone, Debug, Default)]
pub struct LazyGroup {
    pub group_id: String,
    pub plugin_ids: Vec<String>,
    pub startup_config: String,
    pub pre_config: String,
    pub post_config: String,
    pub depend_plugins: Vec<String>,
    pub depend_groups: Vec<String>,
    pub on_modules: Vec<String>,
    pub on_events: Vec<String>,
    pub on_filetypes: Vec<String>,
    pub on_commands: Vec<String>,
    pub is_timer_client: bool,
}

/// The view of an eager component, with each string as its characters.
pub struct EagerPluginView {
    pub plugin_id: Seq<char>,
    pub startup_config: Seq<char>,
}

/// The view of a lazy component, with each string as its characters.
pub struct LazyPluginView {
    pub plugin_id: Seq<char>,
    pub startup_config: Seq<char>,
    pub pre_config: Seq<char>,
    pub post_config: Seq<char>,
    pub depend_plugins: Seq<Seq<char>>,
    pub depend_groups: Seq<Seq<char>>,
    pub on_modules: Seq<Seq<char>>,
    pub on_events: Seq<Seq<char>>,
    pub on_filetypes: Seq<Seq<char>>,
    pub on_commands: Seq<Seq<char>>,
    pub is_timer_client: bool,
    pub is_denops_client: bool,
}

/// The view of a group component, with each string as its characters.
pub struct LazyGroupView {
    pub group_id: Seq<char>,
    pub plugin_ids: Seq<Seq<char>>,
    pub startup_config: Seq<char>,
    pub pre_config: Seq<char>,
    pub post_config: Seq<char>,
    pub depend_plugins: Seq<Seq<char>>,
    pub depend_groups: Seq<Seq<char>>,
    pub on_modules: Seq<Seq<char>>,
    pub on_events: Seq<Seq<char>>,
    pub on_filetypes: Seq<Seq<char>>,
    pub on_commands: Seq<Seq<char>>,
    pub is_timer_client: bool,
}

impl View for EagerPlugin {
    type V = EagerPluginView;

    open spec fn view(&self) -> EagerPluginView {
        EagerPluginView { plugin_id: self.plugin_id@, startup_config: self.startup_config@ }
    }
}

impl View for LazyPlugin {
    type V = LazyPluginView;

    open spec fn view(&self) -> LazyPluginView {
        LazyPluginView {
            plugin_id: self.plugin_id@,
            startup_config: self.startup_config@,
            pre_config: self.pre_config@,
            post_config: self.post_config@,
            depend_plugins: strs(self.depend_plugins@),
            depend_groups: strs(self.depend_groups@),
            on_modules: strs(self.on_modules@),
            on_events: strs(self.on_events@),
            on_filetypes: strs(self.on_filetypes@),
            on_commands: strs(self.on_commands@),
            is_timer_client: self.is_timer_client,
            is_denops_client: self.is_denops_client,
        }
    }
}

impl View for LazyGroup {
    type V = LazyGroupView;

    open spec fn view(&self) -> LazyGroupView {
        LazyGroupView {
            group_id: self.group_id@,
            plugin_ids: strs(self.plugin_ids@),
            startup_config: self.startup_config@,
            pre_config: self.pre_config@,
            post_config: self.post_config@,
            depend_plugins: strs(self.depend_plugins@),
            depend_groups: strs(self.depend_groups@),
            on_modules: strs(self.on_modules@),
            on_events: strs(self.on_events@),
            on_filetypes: strs(self.on_filetypes@),
            on_commands: strs(self.on_commands@),
            is_timer_client: self.is_timer_client,
        }
    }
}

/// The all-default eager component of id `id`.
pub open spec fn eager_baseline(id: Seq<char>) -> EagerPluginView {
    EagerPluginView { plugin_id: id, startup_config: Seq::empty() }
}

/// The all-default lazy component of id `id`.
pub open spec fn lazy_baseline(id: Seq<char>) -> LazyPluginView {
    LazyPluginView {
        plugin_id: id,
        startup_config: Seq::empty(),
        pre_config: Seq::empty(),
        post_config: Seq::empty(),
        depend_plugins: Seq::empty(),
        depend_groups: Seq::empty(),
        on_modules: Seq::empty(),
        on_events: Seq::empty(),
        on_filetypes: Seq::empty(),
        on_commands: Seq::empty(),
        is_timer_client: false,
        is_denops_client: false,
    }
}

/// The all-default group component of id `id`.
pub open spec fn group_baseline(id: Seq<char>) -> LazyGroupView {
    LazyGroupView {
        group_id: id,
        plugin_ids: Seq::empty(),
        startup_config: Seq::empty(),
        pre_config: Seq::empty(),
        post_config: Seq::empty(),
        depend_plugins: Seq::empty(),
        depend_groups: Seq::empty(),
        on_modules: Seq::empty(),
        on_events: Seq::empty(),
        on_filetypes: Seq::empty(),
        on_commands: Seq::empty(),
        is_timer_client: false,
    }
}

proof fn lemma_strs_empty(v: Seq<String>)
    ensures
        (strs(v) == Seq::<Seq<char>>::empty()) == (v.len() == 0),
{
    if v.len() == 0 {
        assert(strs(v) =~= Seq::<Seq<char>>::empty());
    } else {
        assert(strs(v).len() != 0);
    }
}

proof fn lemma_chars_empty(s: Seq<char>)
    ensures
        (s == Seq::<char>::empty()) == (s.len() == 0),
{
    if s.len() == 0 {
        assert(s =~= Seq::<char>::empty());
    }
}

impl Mergeable for EagerPlugin {
    open spec fn key(&self) -> Seq<char> {
        self.plugin_id@
    }

    open spec fn is_modified(&self) -> bool {
        self@ != eager_baseline(self.plugin_id@)
    }

    fn id(&self) -> (r: &String) {
        &self.plugin_id
    }

    fn modified(&self) -> (r: bool) {
        proof {
            lemma_chars_empty(self.startup_config@);
        }
        !self.startup_config.as_str().is_empty()
    }

    fn same(&self, other: &Self) -> (r: bool) {
        self.plugin_id == other.plugin_id && self.startup_config == other.startup_config
    }
}

impl Mergeable for LazyPlugin {
    open spec fn key(&self) -> Seq<char> {
        self.plugin_id@
    }

    open spec fn is_modified(&self) -> bool {
        self@ != lazy_baseline(self.plugin_id@)
    }

    fn id(&self) -> (r: &String) {
        &self.plugin_id
    }

    fn modified(&self) -> (r: bool) {
        proof {
            lemma_chars_empty(self.startup_config@);
            lemma_chars_empty(self.pre_config@);
            lemma_chars_empty(self.post_config@);
            lemma_strs_empty(self.depend_plugins@);
            lemma_strs_empty(self.depend_groups@);
            lemma_strs_empty(self.on_modules@);
            lemma_strs_empty(self.on_events@);
            lemma_strs_empty(self.on_filetypes@);
            lemma_strs_empty(self.on_commands@);
        }
        !(self.startup_config.as_str().is_empty() && self.pre_config.as_str().is_empty()
            && self.post_config.as_str().is_empty() && self.depend_plugins.len() == 0
            && self.depend_groups.len() == 0 && self.on_modules.len() == 0 && self.on_events.len()
            == 0 && self.on_filetypes.len() == 0 && self.on_commands.len() == 0
            && !self.is_timer_client && !self.is_denops_client)
    }

    fn same(&self, other: &Self) -> (r: bool) {
        self.plugin_id == other.plugin_id && self.startup_config == other.startup_config
            && self.pre_config == other.pre_config && self.post_config == other.post_config
            && strings_eq(&self.depend_plugins, &other.depend_plugins) && strings_eq(
            &self.depend_groups,
            &other.depend_groups,
        ) && strings_eq(&self.on_modules, &other.on_modules) && strings_eq(
            &self.on_events,
            &other.on_events,
        ) && strings_eq(&self.on_filetypes, &other.on_filetypes) && strings_eq(
            &self.on_commands,
            &other.on_commands,
        ) && self.is_timer_client == other.is_timer_client && self.is_denops_client
            == other.is_denops_client
    }
}

impl Mergeable for LazyGroup {
    open spec fn key(&self) -> Seq<char> {
        self.group_id@
    }

    open spec fn is_modified(&self) -> bool {
        self@ != group_baseline(self.group_id@)
    }

    fn id(&self) -> (r: &String) {
        &self.group_id
    }

    fn modified(&self) -> (r: bool) {
        proof {
            lemma_chars_empty(self.startup_config@);
            lemma_chars_empty(self.pre_config@);
            lemma_chars_empty(self.post_config@);
            lemma_strs_empty(self.plugin_ids@);
            lemma_strs_empty(self.depend_plugins@);
            lemma_strs_empty(self.depend_groups@);
            lemma_strs_empty(self.on_modules@);
            lemma_strs_empty(self.on_events@);
            lemma_strs_empty(self.on_filetypes@);
            lemma_strs_empty(self.on_commands@);
        }
        !(self.startup_config.as_str().is_empty() && self.pre_config.as_str().is_empty()
            && self.post_config.as_str().is_empty() && self.plugin_ids.len() == 0
            && self.depend_plugins.len() == 0 && self.depend_groups.len() == 0
            && self.on_modules.len() == 0 && self.on_events.len() == 0 && self.on_filetypes.len()
            == 0 && self.on_commands.len() == 0 && !self.is_timer_client)
    }

    fn same(&self, other: &Self) -> (r: bool) {
        self.group_id == other.group_id && strings_eq(&self.plugin_ids, &other.plugin_ids)
            && self.startup_config == other.startup_config && self.pre_config
            == other.pre_config && self.post_config == other.post_config && strings_eq(
            &self.depend_plugins,
            &other.depend_plugins,
        ) && strings_eq(&self.depend_groups, &other.depend_groups) && strings_eq(
            &self.on_modules,
            &other.on_modules,
        ) && strings_eq(&self.on_events, &other.on_events) && strings_eq(
            &self.on_filetypes,
            &other.on_filetypes,
        ) && strings_eq(&self.on_commands, &other.on_commands) && self.is_timer_client
            == other.is_timer_client
    }
}

impl PartialEq for EagerPlugin {
    fn eq(&self, other: &Self) -> (r: bool) {
        self.same(other)
    }
}

impl vstd::std_specs::cmp::PartialEqSpecImpl for EagerPlugin {
    open spec fn obeys_eq_spec() -> bool {
        true
    }

    open spec fn eq_spec(&self, other: &Self) -> bool {
        self@ == other@
    }
}

impl PartialEq for LazyPlugin {
    fn eq(&self, other: &Self) -> (r: bool) {
        self.same(other)
    }
}

impl vstd::std_specs::cmp::PartialEqSpecImpl for LazyPlugin {
    open spec fn obeys_eq_spec() -> bool {
        true
    }

    open spec fn eq_spec(&self, other: &Self) -> bool {
        self@ == other@
    }
}

impl PartialEq for LazyGroup {
    fn eq(&self, other: &Self) -> (r: bool) {
        self.same(other)
    }
}

impl vstd::std_specs::cmp::PartialEqSpecImpl for LazyGroup {
    open spec fn obeys_eq_spec() -> bool {
        true
    }

    open spec fn eq_spec(&self, other: &Self) -> bool {
        self@ == other@
    }
}

} // verus!
