//! The load plan: trigger and dependency indexes, and the lists of flagged clients.

use crate::collection::{is_unique_of, to_unique_vector};
use crate::content::strs;
use crate::payload::duplicate_strings;
use vstd::prelude::*;

verus! {

/// One key of an index and the ids listed under it.
pub struct IndexEntry {
    pub key: String,
    pub ids: Vec<String>,
}

/// A multimap from key to ids that keeps its keys in insertion order, and tells a key listed
/// with no ids from a key that is absent.
pub struct Index {
    entries: Vec<IndexEntry>,
    model: Ghost<Map<Seq<char>, Seq<Seq<char>>>>,
}

/// The map after making sure that `k` has an entry.
pub open spec fn ensured(m: Map<Seq<char>, Seq<Seq<char>>>, k: Seq<char>) -> Map<
    Seq<char>,
    Seq<Seq<char>>,
> {
    if m.contains_key(k) {
        m
    } else {
        m.insert(k, Seq::empty())
    }
}

/// The map after appending `v` to the ids of `k`.
pub open spec fn pushed(m: Map<Seq<char>, Seq<Seq<char>>>, k: Seq<char>, v: Seq<char>) -> Map<
    Seq<char>,
    Seq<Seq<char>>,
> {
    m.insert(k, ensured(m, k)[k].push(v))
}

impl View for Index {
    type V = Map<Seq<char>, Seq<Seq<char>>>;

    closed spec fn view(&self) -> Map<Seq<char>, Seq<Seq<char>>> {
        self.model@
    }
}

impl Index {
    /// The entries are well formed: keys appear once, and the model maps each to its ids.
    pub closed spec fn wf(&self) -> bool {
        &&& forall|i: int, j: int|
            0 <= i < j < self.entries@.len() ==> (#[trigger] self.entries@[i]).key@ != (
            #[trigger] self.entries@[j]).key@
        &&& forall|i: int|
            0 <= i < self.entries@.len() ==> self.model@.contains_key(
                (#[trigger] self.entries@[i]).key@,
            ) && self.model@[self.entries@[i].key@] == strs(self.entries@[i].ids@)
        &&& forall|k: Seq<char>|
            #[trigger] self.model@.contains_key(k) ==> exists|i: int|
                0 <= i < self.entries@.len() && (#[trigger] self.entries@[i]).key@ == k
    }

    /// The number of keys.
    pub closed spec fn size(&self) -> nat {
        self.entries@.len()
    }

    pub fn new() -> (r: Index)
        ensures
            r.wf(),
            r@ == Map::<Seq<char>, Seq<Seq<char>>>::empty(),
    {
        Index { entries: Vec::new(), model: Ghost(Map::empty()) }
    }

    fn find(&self, key: &String) -> (r: Option<usize>)
        requires
            self.wf(),
        ensures
            r matches Some(i) ==> i < self.entries@.len() && self.entries@[i as int].key@ == key@,
            r is None ==> !self@.contains_key(key@),
    {
        let mut i: usize = 0;
        while i < self.entries.len()
            invariant
                i <= self.entries@.len(),
                forall|j: int| 0 <= j < i ==> (#[trigger] self.entries@[j]).key@ != key@,
            decreases self.entries.len() - i,
        {
            if self.entries[i].key == *key {
                return Some(i);
            }
            i += 1;
        }
        None
    }

    /// Makes sure that `key` has an entry, empty if it had none.
    pub fn ensure_key(&mut self, key: &String)
        requires
            old(self).wf(),
        ensures
            final(self).wf(),
            final(self)@ == ensured(old(self)@, key@),
    {
        if self.find(key).is_none() {
            self.entries.push(IndexEntry { key: key.clone(), ids: Vec::new() });
            self.model = Ghost(self.model@.insert(key@, Seq::empty()));
            proof {
                let n = self.entries@.len() - 1;
                assert(strs(self.entries@[n].ids@) =~= Seq::<Seq<char>>::empty());
                assert forall|k: Seq<char>| #[trigger] self.model@.contains_key(k) implies exists|
                    i: int,
                | 0 <= i < self.entries@.len() && (#[trigger] self.entries@[i]).key@ == k by {
                    if k != key@ {
                        let i = choose|i: int|
                            0 <= i < old(self).entries@.len() && (#[trigger] old(
                                self,
                            ).entries@[i]).key@ == k;
                        assert(self.entries@[i] == old(self).entries@[i]);
                    } else {
                        assert(self.entries@[n].key@ == k);
                    }
                }
            }
        }
    }

    /// Appends `id` to the ids of `key`, giving `key` an entry if it had none.
    pub fn push(&mut self, key: &String, id: &String)
        requires
            old(self).wf(),
        ensures
            final(self).wf(),
            final(self)@ == pushed(old(self)@, key@, id@),
    {
        self.ensure_key(key);
        let ghost mid = self@;
        let i = self.find(key).unwrap();
        let ghost before = self.entries@;
        let mut entry = self.entries.remove(i);
        entry.ids.push(id.clone());
        self.entries.insert(i, entry);
        self.model = Ghost(self.model@.insert(key@, self.model@[key@].push(id@)));
        proof {
            assert(strs(self.entries@[i as int].ids@) =~= strs(before[i as int].ids@).push(id@));
            assert forall|j: int| 0 <= j < self.entries@.len() && j != i implies #[trigger] self.entries@[j]
                == before[j] by {}
            assert forall|k: Seq<char>| #[trigger] self.model@.contains_key(k) implies exists|
                j: int,
            | 0 <= j < self.entries@.len() && (#[trigger] self.entries@[j]).key@ == k by {
                let j = choose|j: int|
                    0 <= j < before.len() && (#[trigger] before[j]).key@ == k;
                if j == i {
                    assert(self.entries@[i as int].key@ == k);
                } else {
                    assert(self.entries@[j] == before[j]);
                }
            }
        }
    }

    /// The ids of `key`, if it has an entry.
    pub fn get(&self, key: &String) -> (r: Option<&Vec<String>>)
        requires
            self.wf(),
        ensures
            r is None <==> !self@.contains_key(key@),
            r matches Some(v) ==> strs(v@) == self@[key@],
    {
        match self.find(key) {
            Some(i) => Some(&self.entries[i].ids),
            None => None,
        }
    }

    /// The number of keys.
    pub fn len(&self) -> (r: usize)
        ensures
            r == self.size(),
    {
        self.entries.len()
    }

    /// The key at position `i` in insertion order, and its ids.
    pub fn entry_at(&self, i: usize) -> (r: (&String, &Vec<String>))
        requires
            self.wf(),
            i < self.size(),
        ensures
            self@.contains_key(r.0@),
            self@[r.0@] == strs(r.1@),
    {
        (&self.entries[i].key, &self.entries[i].ids)
    }
}

/// Replaces the ids of every key by their distinct values, once each, in ascending order.
pub fn to_unique_map(m: &Index) -> (r: Index)
    requires
        m.wf(),
    ensures
        r.wf(),
        r@.dom() == m@.dom(),
        forall|k: Seq<char>| #[trigger] r@.contains_key(k) ==> is_unique_of(r@[k], m@[k]),
{
    let mut entries: Vec<IndexEntry> = Vec::new();
    let ghost mut model = Map::<Seq<char>, Seq<Seq<char>>>::empty();
    let mut i: usize = 0;
    while i < m.entries.len()
        invariant
            m.wf(),
            i <= m.entries@.len(),
            entries@.len() == i,
            forall|j: int| 0 <= j < i ==> (#[trigger] entries@[j]).key@ == m.entries@[j].key@,
            forall|j: int|
                0 <= j < i ==> model.contains_key((#[trigger] entries@[j]).key@) && model[entries@[j].key@]
                    == strs(entries@[j].ids@),
            forall|k: Seq<char>|
                #[trigger] model.contains_key(k) ==> exists|j: int|
                    0 <= j < i && (#[trigger] entries@[j]).key@ == k,
            forall|k: Seq<char>|
                #[trigger] model.contains_key(k) ==> m@.contains_key(k) && is_unique_of(
                    model[k],
                    m@[k],
                ),
        decreases m.entries.len() - i,
    {
        let e = &m.entries[i];
        let ids = to_unique_vector(duplicate_strings(&e.ids));
        let ghost old_model = model;
        let ghost old_entries = entries@;
        proof {
            model = model.insert(e.key@, strs(ids@));
        }
        entries.push(IndexEntry { key: e.key.clone(), ids });
        proof {
            assert forall|j: int| 0 <= j < i implies (#[trigger] entries@[j]).key@ != e.key@ by {
                assert(m.entries@[j].key@ != m.entries@[i as int].key@);
            }
            assert forall|k: Seq<char>| #[trigger] model.contains_key(k) implies exists|j: int|
                0 <= j < i + 1 && (#[trigger] entries@[j]).key@ == k by {
                if k == e.key@ {
                    assert(entries@[i as int].key@ == k);
                } else {
                    assert(old_model.contains_key(k));
                    let j = choose|j: int| 0 <= j < i && (#[trigger] old_entries[j]).key@ == k;
                    assert(entries@[j] == old_entries[j]);
                }
            }
        }
        i += 1;
    }
    proof {
        assert forall|k: Seq<char>| #[trigger] m@.contains_key(k) implies model.contains_key(k) by {
            let j = choose|j: int|
                0 <= j < m.entries@.len() && (#[trigger] m.entries@[j]).key@ == k;
            assert(entries@[j].key@ == k);
        }
        assert(model.dom() =~= m@.dom());
        assert forall|a: int, b: int| 0 <= a < b < entries@.len() implies (
        #[trigger] entries@[a]).key@ != (#[trigger] entries@[b]).key@ by {
            assert(m.entries@[a].key@ != m.entries@[b].key@);
        }
    }
    let r = Index { entries, model: Ghost(model) };
    assert(forall|j: int|
        0 <= j < r.entries@.len() ==> r.model@.contains_key((#[trigger] r.entries@[j]).key@)
            && r.model@[r.entries@[j].key@] == strs(r.entries@[j].ids@));
    assert forall|k: Seq<char>| #[trigger] r.model@.contains_key(k) implies exists|j: int|
        0 <= j < r.entries@.len() && (#[trigger] r.entries@[j]).key@ == k by {
        assert(model.contains_key(k));
        let j = choose|j: int| 0 <= j < i && (#[trigger] entries@[j]).key@ == k;
        assert(r.entries@[j].key@ == k);
    }
    r
}

/// The load plan: for each trigger kind, the ids that each key activates; for each id, the
/// plugins and groups it depends on; and the timer and denops clients.
pub struct LoadConfig {
    pub depend_plugins: Index,
    pub depend_groups: Index,
    pub on_modules: Index,
    pub on_events: Index,
    pub on_filetypes: Index,
    pub on_commands: Index,
    pub timer_clients: Vec<String>,
    pub denops_clients: Vec<String>,
}

/// The view of a load plan: each index as a map, each list as a sequence.
pub struct LoadConfigView {
    pub depend_plugins: Map<Seq<char>, Seq<Seq<char>>>,
    pub depend_groups: Map<Seq<char>, Seq<Seq<char>>>,
    pub on_modules: Map<Seq<char>, Seq<Seq<char>>>,
    pub on_events: Map<Seq<char>, Seq<Seq<char>>>,
    pub on_filetypes: Map<Seq<char>, Seq<Seq<char>>>,
    pub on_commands: Map<Seq<char>, Seq<Seq<char>>>,
    pub timer_clients: Seq<Seq<char>>,
    pub denops_clients: Seq<Seq<char>>,
}

impl View for LoadConfig {
    type V = LoadConfigView;

    open spec fn view(&self) -> LoadConfigView {
        LoadConfigView {
            depend_plugins: self.depend_plugins@,
            depend_groups: self.depend_groups@,
            on_modules: self.on_modules@,
            on_events: self.on_events@,
            on_filetypes: self.on_filetypes@,
            on_commands: self.on_commands@,
            timer_clients: strs(self.timer_clients@),
            denops_clients: strs(self.denops_clients@),
        }
    }
}

/// The plan with no entry at all.
pub open spec fn empty_plan() -> LoadConfigView {
    LoadConfigView {
        depend_plugins: Map::empty(),
        depend_groups: Map::empty(),
        on_modules: Map::empty(),
        on_events: Map::empty(),
        on_filetypes: Map::empty(),
        on_commands: Map::empty(),
        timer_clients: Seq::empty(),
        denops_clients: Seq::empty(),
    }
}

/// Whether the plan `r` is `m` with every list replaced by its distinct values in ascending
/// order.
pub open spec fn is_unique_plan(r: LoadConfigView, m: LoadConfigView) -> bool {
    &&& is_unique_index(r.depend_plugins, m.depend_plugins)
    &&& is_unique_index(r.depend_groups, m.depend_groups)
    &&& is_unique_index(r.on_modules, m.on_modules)
    &&& is_unique_index(r.on_events, m.on_events)
    &&& is_unique_index(r.on_filetypes, m.on_filetypes)
    &&& is_unique_index(r.on_commands, m.on_commands)
    &&& is_unique_of(r.timer_clients, m.timer_clients)
    &&& is_unique_of(r.denops_clients, m.denops_clients)
}

/// Whether the index `r` has the keys of `m`, each with its ids deduplicated and sorted.
pub open spec fn is_unique_index(
    r: Map<Seq<char>, Seq<Seq<char>>>,
    m: Map<Seq<char>, Seq<Seq<char>>>,
) -> bool {
    &&& r.dom() == m.dom()
    &&& forall|k: Seq<char>| #[trigger] r.contains_key(k) ==> is_unique_of(r[k], m[k])
}

impl LoadConfig {
    pub open spec fn wf(&self) -> bool {
        &&& self.depend_plugins.wf()
        &&& self.depend_groups.wf()
        &&& self.on_modules.wf()
        &&& self.on_events.wf()
        &&& self.on_filetypes.wf()
        &&& self.on_commands.wf()
    }
}

impl Default for LoadConfig {
    fn default() -> (r: LoadConfig)
        ensures
            r.wf(),
            r@ == empty_plan(),
    {
        let r = LoadConfig {
            depend_plugins: Index::new(),
            depend_groups: Index::new(),
            on_modules: Index::new(),
            on_events: Index::new(),
            on_filetypes: Index::new(),
            on_commands: Index::new(),
            timer_clients: Vec::new(),
            denops_clients: Vec::new(),
        };
        assert(strs(r.timer_clients@) =~= Seq::<Seq<char>>::empty());
        assert(strs(r.denops_clients@) =~= Seq::<Seq<char>>::empty());
        r
    }
}

/// The plan with every list replaced by its distinct values, once each, in ascending order.
pub fn dedup_load_config(plan: &LoadConfig) -> (r: LoadConfig)
    requires
        plan.wf(),
    ensures
        r.wf(),
        is_unique_plan(r@, plan@),
{
    LoadConfig {
        depend_plugins: to_unique_map(&plan.depend_plugins),
        depend_groups: to_unique_map(&plan.depend_groups),
        on_modules: to_unique_map(&plan.on_modules),
        on_events: to_unique_map(&plan.on_events),
        on_filetypes: to_unique_map(&plan.on_filetypes),
        on_commands: to_unique_map(&plan.on_commands),
        timer_clients: to_unique_vector(duplicate_strings(&plan.timer_clients)),
        denops_clients: to_unique_vector(duplicate_strings(&plan.denops_clients)),
    }
}

} // verus!
