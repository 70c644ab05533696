//! The identity table: from package reference to plugin id.

use crate::payload::{IdMapElement, Meta};
use vstd::prelude::*;

verus! {

/// The lookup from package reference to plugin id, built once from the input table.
pub struct IdTable {
    entries: Vec<IdMapElement>,
}

/// The mapping that a list of pairs describes; a later pair for the same reference wins.
pub open spec fn table_map(s: Seq<IdMapElement>) -> Map<Seq<char>, Seq<char>>
    decreases s.len(),
{
    if s.len() == 0 {
        Map::empty()
    } else {
        table_map(s.drop_last()).insert(s.last().package@, s.last().plugin_id@)
    }
}

proof fn lemma_table_prefix(s: Seq<IdMapElement>, n: int, key: Seq<char>)
    requires
        0 <= n <= s.len(),
        forall|j: int| n <= j < s.len() ==> #[trigger] s[j].package@ != key,
    ensures
        table_map(s).contains_key(key) == table_map(s.subrange(0, n)).contains_key(key),
        table_map(s)[key] == table_map(s.subrange(0, n))[key],
    decreases s.len(),
{
    if s.len() > n {
        lemma_table_prefix(s.drop_last(), n, key);
        assert(s.drop_last().subrange(0, n) =~= s.subrange(0, n));
    } else {
        assert(s.subrange(0, n) =~= s);
    }
}

impl View for IdTable {
    type V = Map<Seq<char>, Seq<char>>;

    closed spec fn view(&self) -> Map<Seq<char>, Seq<char>> {
        table_map(self.entries@)
    }
}

impl IdTable {
    /// The plugin id of the package reference `key`, which must be registered.
    pub fn get(&self, key: &String) -> (r: &str)
        requires
            self@.contains_key(key@),
        ensures
            r@ == self@[key@],
    {
        let mut i: usize = self.entries.len();
        while i > 0
            invariant
                i <= self.entries@.len(),
                forall|j: int| i <= j < self.entries@.len() ==> #[trigger] self.entries@[j].package@
                    != key@,
            decreases i,
        {
            let e = &self.entries[i - 1];
            if e.package == *key {
                proof {
                    let s = self.entries@;
                    lemma_table_prefix(s, i as int, key@);
                    let pre = s.subrange(0, i as int);
                    assert(pre.drop_last() =~= s.subrange(0, i - 1));
                    assert(pre.last() == s[i - 1]);
                }
                return e.plugin_id.as_str();
            }
            i -= 1;
        }
        proof {
            lemma_table_prefix(self.entries@, 0, key@);
            assert(self.entries@.subrange(0, 0) =~= Seq::<IdMapElement>::empty());
        }
        ""
    }

    /// Whether the package reference `key` is registered.
    pub fn contains(&self, key: &String) -> (r: bool)
        ensures
            r == self@.contains_key(key@),
    {
        let mut i: usize = self.entries.len();
        while i > 0
            invariant
                i <= self.entries@.len(),
                forall|j: int| i <= j < self.entries@.len() ==> #[trigger] self.entries@[j].package@
                    != key@,
            decreases i,
        {
            if self.entries[i - 1].package == *key {
                proof {
                    let s = self.entries@;
                    lemma_table_prefix(s, i as int, key@);
                    assert(s.subrange(0, i as int).drop_last() =~= s.subrange(0, i - 1));
                }
                return true;
            }
            i -= 1;
        }
        proof {
            lemma_table_prefix(self.entries@, 0, key@);
            assert(self.entries@.subrange(0, 0) =~= Seq::<IdMapElement>::empty());
        }
        false
    }
}

/// Builds the identity table from the pairs of `meta`.
pub fn make_id_map(meta: &Meta) -> (r: IdTable)
    ensures
        r@ == table_map(meta.id_map@),
{
    let mut entries: Vec<IdMapElement> = Vec::new();
    let mut i: usize = 0;
    while i < meta.id_map.len()
        invariant
            i <= meta.id_map@.len(),
            entries@.len() == i,
            forall|j: int|
                0 <= j < i ==> (#[trigger] entries@[j]).package@ == meta.id_map@[j].package@
                    && entries@[j].plugin_id@ == meta.id_map@[j].plugin_id@,
        decreases meta.id_map.len() - i,
    {
        let e = &meta.id_map[i];
        entries.push(IdMapElement { plugin_id: e.plugin_id.clone(), package: e.package.clone() });
        i += 1;
    }
    proof {
        lemma_same_table(entries@, meta.id_map@);
    }
    IdTable { entries }
}

proof fn lemma_same_table(a: Seq<IdMapElement>, b: Seq<IdMapElement>)
    requires
        a.len() == b.len(),
        forall|j: int|
            0 <= j < a.len() ==> #[trigger] a[j].package@ == b[j].package@ && a[j].plugin_id@
                == b[j].plugin_id@,
    ensures
        table_map(a) == table_map(b),
    decreases a.len(),
{
    if a.len() > 0 {
        lemma_same_table(a.drop_last(), b.drop_last());
    }
}

} // verus!
