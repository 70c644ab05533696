//! Merging of the components that share an id into one, with conflict detection.

use itertools::Itertools;
use vstd::prelude::*;

verus! {

/// A component record that can be merged with another of the same id.
pub trait Mergeable: Sized + View {
    /// The id of the component.
    spec fn key(&self) -> Seq<char>;

    /// Whether the component differs from the all-default component of its id.
    spec fn is_modified(&self) -> bool;

    fn id(&self) -> (r: &String)
        ensures
            r@ == self.key(),
    ;

    fn modified(&self) -> (r: bool)
        ensures
            r == self.is_modified(),
    ;

    /// Whether the two components agree field by field.
    fn same(&self, other: &Self) -> (r: bool)
        ensures
            r == (self@ == other@),
    ;
}

/// Two different non-default components of the same id.
#[derive(Debug)]
pub struct ConflictError<T> {
    pub id: String,
    pub first: T,
    pub second: T,
}

/// The merge of two components of one id: nothing when both are modified and disagree, else
/// the modified one, else the second.
pub open spec fn combined<T: Mergeable>(a: T, b: T) -> Option<T> {
    if a.is_modified() && b.is_modified() && a@ != b@ {
        None
    } else if a.is_modified() {
        Some(a)
    } else {
        Some(b)
    }
}

/// The left-to-right merge of the components of one id.
pub open spec fn merged<T: Mergeable>(s: Seq<T>) -> Option<T>
    decreases s.len(),
{
    if s.len() == 0 {
        None
    } else if s.len() == 1 {
        Some(s[0])
    } else {
        match merged(s.drop_last()) {
            Some(a) => combined(a, s.last()),
            None => None,
        }
    }
}

/// The test that a component has the id `k`.
pub open spec fn has_key<T: Mergeable>(k: Seq<char>) -> spec_fn(T) -> bool {
    |x: T| x.key() == k
}

/// The components of `s` with id `k`, in order.
pub open spec fn with_key<T: Mergeable>(s: Seq<T>, k: Seq<char>) -> Seq<T> {
    s.filter(has_key(k))
}

/// The ids of the components of `s`.
pub open spec fn keys<T: Mergeable>(s: Seq<T>) -> Set<Seq<char>> {
    Set::new(|k: Seq<char>| exists|i: int| 0 <= i < s.len() && #[trigger] s[i].key() == k)
}

/// Whether merging `s` fails: some id has components that conflict.
pub open spec fn merge_fails<T: Mergeable>(s: Seq<T>) -> bool {
    exists|k: Seq<char>| keys(s).contains(k) && #[trigger] merged(with_key(s, k)) is None
}

/// Why two components could not be merged.
#[derive(Debug)]
pub enum MergeError<T> {
    /// The two components have different non-empty ids.
    IllegalMerge(T, T),
    /// The two components have one id and conflict.
    Conflict(ConflictError<T>),
}

/// Whether `a` and `b` have ids that are both non-empty and differ.
pub open spec fn illegal_pair<T: Mergeable>(a: T, b: T) -> bool {
    a.key().len() > 0 && b.key().len() > 0 && a.key() != b.key()
}

/// Whether `e` reports a conflict on its id: two modified components of that id that disagree.
pub open spec fn is_conflict<T: Mergeable>(e: ConflictError<T>) -> bool {
    &&& e.first.key() == e.id@
    &&& e.second.key() == e.id@
    &&& e.first.is_modified()
    &&& e.second.is_modified()
    &&& e.first@ != e.second@
}

/// Merges two components of one id. Fails when their ids are both non-empty and differ, and
/// when both are modified and disagree.
pub fn combine<T: Mergeable>(a: T, b: T) -> (r: Result<T, MergeError<T>>)
    ensures
        illegal_pair(a, b) ==> (r matches Err(MergeError::IllegalMerge(x, y)) && x == a && y
            == b),
        !illegal_pair(a, b) ==> (combined(a, b) matches Some(m) ==> r == Ok::<T, MergeError<T>>(
            m,
        )),
        !illegal_pair(a, b) && combined(a, b) is None ==> (r matches Err(MergeError::Conflict(e))
            && e.id@ == a.key() && e.first == a && e.second == b),
{
    if !a.id().as_str().is_empty() && !b.id().as_str().is_empty() && *a.id() != *b.id() {
        return Err(MergeError::IllegalMerge(a, b));
    }
    let a_modified = a.modified();
    let b_modified = b.modified();
    if a_modified && b_modified && !a.same(&b) {
        let id = a.id().clone();
        Err(MergeError::Conflict(ConflictError { id, first: a, second: b }))
    } else if a_modified {
        Ok(a)
    } else {
        Ok(b)
    }
}

proof fn lemma_merged_key<T: Mergeable>(s: Seq<T>)
    requires
        s.len() > 0,
        forall|i: int| 0 <= i < s.len() ==> #[trigger] s[i].key() == s[0].key(),
    ensures
        merged(s) matches Some(m) ==> m.key() == s[0].key(),
    decreases s.len(),
{
    if s.len() > 1 {
        let init = s.drop_last();
        assert(init[0] == s[0]);
        assert forall|i: int| 0 <= i < init.len() implies #[trigger] init[i].key() == init[0].key() by {
            assert(init[i] == s[i]);
        }
        lemma_merged_key(init);
        assert(s.last().key() == s[0].key());
    }
}

/// Merges a non-empty list of components that share one id.
fn merge_group<T: Mergeable>(g: Vec<T>) -> (r: Result<T, ConflictError<T>>)
    requires
        g@.len() > 0,
        forall|i: int| 0 <= i < g@.len() ==> #[trigger] g@[i].key() == g@[0].key(),
    ensures
        merged(g@) matches Some(m) ==> r == Ok::<T, ConflictError<T>>(m),
        merged(g@) is None ==> (r matches Err(e) && e.id@ == g@[0].key() && is_conflict(e)),
{
    let ghost s = g@;
    let ghost n = s.len();
    let mut rest = g;
    let mut acc = rest.remove(0);
    proof {
        assert(s.subrange(0, 1).len() == 1);
        assert(s.subrange(0, 1)[0] == s[0]);
        assert(rest@ =~= s.subrange(1, n as int));
    }
    while rest.len() > 0
        invariant
            s == g@,
            s.len() == n,
            n > 0,
            forall|i: int| 0 <= i < n ==> #[trigger] s[i].key() == s[0].key(),
            1 <= n - rest@.len() <= n,
            rest@ == s.subrange(n - rest@.len(), n as int),
            merged(s.subrange(0, n - rest@.len())) == Some(acc),
            acc.key() == s[0].key(),
        decreases rest@.len(),
    {
        let ghost k = n - rest@.len();
        let ghost prev = acc;
        let x = rest.remove(0);
        proof {
            let next = s.subrange(0, k + 1);
            assert(next.drop_last() =~= s.subrange(0, k));
            assert(next.last() == s[k]);
            assert(x == s[k]);
            assert(rest@ =~= s.subrange(k + 1, n as int));
        }
        match combine(acc, x) {
            Ok(m) => {
                acc = m;
            },
            Err(MergeError::IllegalMerge(a, b)) => {
                proof {
                    assert(!illegal_pair(prev, x));
                }
                return Err(ConflictError { id: a.id().clone(), first: a, second: b });
            },
            Err(MergeError::Conflict(e)) => {
                proof {
                    let next = s.subrange(0, k + 1);
                    assert(next.drop_last() =~= s.subrange(0, k));
                    assert(combined(prev, x) is None);
                    assert(merged(next) is None);
                    lemma_merged_none_extends(s, k + 1);
                    assert(s.subrange(0, n as int) =~= s);
                    assert(merged(s) is None);
                    assert(e.id@ == s[0].key());
                }
                return Err(e);
            },
        }
    }
    proof {
        assert(s.subrange(0, n as int) =~= s);
    }
    Ok(acc)
}

proof fn lemma_merged_none_extends<T: Mergeable>(s: Seq<T>, k: int)
    requires
        0 < k <= s.len(),
        merged(s.subrange(0, k)) is None,
    ensures
        merged(s.subrange(0, s.len() as int)) is None,
    decreases s.len() - k,
{
    if k < s.len() {
        let next = s.subrange(0, k + 1);
        assert(next.drop_last() =~= s.subrange(0, k));
        lemma_merged_none_extends(s, k + 1);
    }
}

/// Whether `v` is the merge of `xs`: one component per id of `xs`, each the merge of the
/// components of `xs` with that id.
pub open spec fn merged_all<T: Mergeable>(xs: Seq<T>, v: Seq<T>) -> bool {
    &&& keys(v) == keys(xs)
    &&& forall|i: int, j: int| 0 <= i < j < v.len() ==> (#[trigger] v[i]).key() != (#[trigger] v[j]).key()
    &&& forall|i: int| 0 <= i < v.len() ==> merged(with_key(xs, (#[trigger] v[i]).key())) == Some(v[i])
}

proof fn lemma_group_in_keys<T: Mergeable>(xs: Seq<T>, k: Seq<char>)
    requires
        with_key(xs, k).len() > 0,
    ensures
        keys(xs).contains(k),
        forall|i: int| 0 <= i < with_key(xs, k).len() ==> (#[trigger] with_key(xs, k)[i]).key() == k,
{
    assert forall|i: int| 0 <= i < with_key(xs, k).len() implies (#[trigger] with_key(
        xs,
        k,
    )[i]).key() == k by {
        xs.lemma_filter_pred(has_key(k), i);
    }
    let x = with_key(xs, k)[0];
    assert(with_key(xs, k).contains(x));
    xs.lemma_filter_contains_rev(has_key(k), x);
    let idx = choose|idx: int| 0 <= idx < xs.len() && xs[idx] == x;
    assert(xs[idx].key() == k);
}

/// Merges the components of `xs` by id: for each id, the components with that id are folded
/// left to right with `combine`. Fails when the components of some id conflict.
#[verifier::loop_isolation(false)]
pub fn merge_vector<T: Mergeable>(xs: Vec<T>) -> (r: Result<Vec<T>, ConflictError<T>>)
    ensures
        r is Ok <==> !merge_fails(xs@),
        r matches Ok(v) ==> merged_all(xs@, v@),
        r matches Err(e) ==> keys(xs@).contains(e.id@) && merged(with_key(xs@, e.id@)) is None
            && is_conflict(e),
{
    let ghost orig = xs@;
    let mut groups = group_by_id(xs);
    let ghost gs = groups@;
    let ghost n = gs.len();
    let mut out: Vec<T> = Vec::new();
    assert forall|k: int| #![trigger orig[k]] 0 <= k < orig.len() implies exists|i: int|
        #![trigger gs[i]] 0 <= i < n && gs[i]@[0].key() == orig[k].key() by {
        assert(orig[k] == xs@[k]);
        let i = choose|i: int| 0 <= i < groups@.len() && groups@[i]@[0].key() == xs@[k].key();
        assert(gs[i]@[0].key() == orig[k].key());
    }
    while groups.len() > 0
        invariant
            orig == xs@,
            n == gs.len(),
            groups@.len() <= n,
            groups@ == gs.subrange(0, groups@.len() as int),
            out@.len() == n - groups@.len(),
            forall|i: int|
                0 <= i < n ==> (#[trigger] gs[i])@.len() > 0 && gs[i]@ == with_key(
                    orig,
                    gs[i]@[0].key(),
                ),
            forall|i: int, j: int|
                0 <= i < j < n ==> (#[trigger] gs[i])@[0].key() != (#[trigger] gs[j])@[0].key(),
            forall|j: int|
                0 <= j < out@.len() ==> Some((#[trigger] out@[j])) == merged(gs[n - 1 - j]@)
                    && out@[j].key() == gs[n - 1 - j]@[0].key(),
        decreases groups@.len(),
    {
        let ghost i = groups@.len() - 1;
        let g = groups.pop().unwrap();
        assert(g == gs[i]);
        let ghost gv = g@;
        proof {
            lemma_group_in_keys(orig, g@[0].key());
        }
        match merge_group(g) {
            Ok(m) => {
                proof {
                    lemma_merged_key(gv);
                }
                out.push(m);
                proof {
                    assert(out@[out@.len() - 1] == m);
                }
            },
            Err(e) => {
                proof {
                    lemma_group_in_keys(orig, e.id@);
                    assert(merged(with_key(orig, e.id@)) is None);
                }
                return Err(e);
            },
        }
    }
    proof {
        assert forall|i: int, j: int| 0 <= i < j < out@.len() implies (#[trigger] out@[i]).key()
            != (#[trigger] out@[j]).key() by {
            assert(gs[n - 1 - j]@[0].key() != gs[n - 1 - i]@[0].key());
        }
        assert forall|k: Seq<char>| #[trigger] keys(orig).contains(k) implies keys(out@).contains(k)
            && merged(with_key(orig, k)) is Some by {
            let idx = choose|idx: int| 0 <= idx < orig.len() && #[trigger] orig[idx].key() == k;
            let i = choose|i: int| #![trigger gs[i]] 0 <= i < gs.len() && gs[i]@[0].key() == orig[idx].key();
            assert(out@[n - 1 - i].key() == k);
        }
        assert forall|k: Seq<char>| #[trigger] keys(out@).contains(k) implies keys(orig).contains(k) by {
            let j = choose|j: int| 0 <= j < out@.len() && #[trigger] out@[j].key() == k;
            lemma_group_in_keys(orig, gs[n - 1 - j]@[0].key());
        }
        assert(keys(out@) =~= keys(orig));
    }
    Ok(out)
}

proof fn lemma_with_key_all<T: Mergeable>(xs: Seq<T>, k: Seq<char>)
    requires
        forall|i: int| 0 <= i < xs.len() ==> (#[trigger] xs[i]).key() == k,
    ensures
        with_key(xs, k) == xs,
    decreases xs.len(),
{
    reveal(Seq::filter);
    if xs.len() > 0 {
        let init = xs.drop_last();
        assert forall|i: int| 0 <= i < init.len() implies (#[trigger] init[i]).key() == k by {
            assert(init[i] == xs[i]);
        }
        lemma_with_key_all(init, k);
        assert(init.push(xs.last()) =~= xs);
    } else {
        assert(xs.filter(has_key(k)) =~= xs);
    }
}

proof fn lemma_merged_settles<T: Mergeable>(c: T, xs: Seq<T>)
    requires
        xs.len() > 0,
        forall|i: int| 0 <= i < xs.len() ==> (#[trigger] xs[i]).is_modified() ==> xs[i]@ == c@,
    ensures
        merged(xs) matches Some(m) && (m.is_modified() ==> m@ == c@) && ((exists|i: int|
            0 <= i < xs.len() && (#[trigger] xs[i]).is_modified()) ==> m.is_modified()),
    decreases xs.len(),
{
    if xs.len() > 1 {
        let init = xs.drop_last();
        assert forall|i: int| 0 <= i < init.len() && (#[trigger] init[i]).is_modified()
            implies init[i]@ == c@ by {
            assert(init[i] == xs[i]);
        }
        lemma_merged_settles(c, init);
        if exists|i: int| 0 <= i < xs.len() && (#[trigger] xs[i]).is_modified() {
            let i = choose|i: int| 0 <= i < xs.len() && (#[trigger] xs[i]).is_modified();
            if i < xs.len() - 1 {
                assert(init[i] == xs[i]);
            }
        }
    }
}

/// Merging is idempotent: a list that holds a non-default component `c` one or more times,
/// together with any number of default components of the same id, merges to `c` alone.
pub proof fn lemma_merge_idempotent<T: Mergeable>(c: T, xs: Seq<T>)
    requires
        c.is_modified(),
        exists|i: int| 0 <= i < xs.len() && (#[trigger] xs[i]).is_modified(),
        forall|i: int|
            0 <= i < xs.len() ==> (#[trigger] xs[i]).key() == c.key() && (xs[i].is_modified()
                ==> xs[i]@ == c@),
    ensures
        !merge_fails(xs),
        keys(xs) == set![c.key()],
        merged(with_key(xs, c.key())) matches Some(m) && m@ == c@,
{
    lemma_with_key_all(xs, c.key());
    lemma_merged_settles(c, xs);
    let i = choose|i: int| 0 <= i < xs.len() && (#[trigger] xs[i]).is_modified();
    assert(keys(xs).contains(c.key())) by {
        assert(xs[i].key() == c.key());
    }
    assert(keys(xs) =~= set![c.key()]);
}

/// Conflicts do not depend on order: for two non-default components of one id that disagree,
/// merging `[a, b]` fails exactly when merging `[b, a]` fails, and both do.
pub proof fn lemma_merge_conflict_symmetric<T: Mergeable>(a: T, b: T)
    requires
        a.key() == b.key(),
        a.is_modified(),
        b.is_modified(),
        a@ != b@,
    ensures
        merge_fails(seq![a, b]) == merge_fails(seq![b, a]),
        merge_fails(seq![a, b]),
{
    let ab = seq![a, b];
    let ba = seq![b, a];
    assert(ab[0] == a && ab[1] == b && ba[0] == b && ba[1] == a);
    lemma_with_key_all(ab, a.key());
    lemma_with_key_all(ba, a.key());
    assert(ab.drop_last() =~= seq![a]);
    assert(ba.drop_last() =~= seq![b]);
    assert(seq![a][0] == a && seq![b][0] == b);
    assert(merged(seq![a]) == Some(a));
    assert(merged(seq![b]) == Some(b));
    assert(merged(ab) is None);
    assert(merged(ba) is None);
    assert(merged(with_key(ab, a.key())) is None);
    assert(merged(with_key(ba, a.key())) is None);
    assert(keys(ab).contains(a.key())) by {
        assert(ab[0].key() == a.key());
    }
    assert(keys(ba).contains(a.key())) by {
        assert(ba[1].key() == a.key());
    }
}

/// Relies on itertools' `Itertools::into_group_map_by`: it puts each item under its key, in
/// the order the items come, one group per distinct key.
#[verifier::external_body]
fn group_by_id<T: Mergeable>(xs: Vec<T>) -> (r: Vec<Vec<T>>)
    ensures
        forall|i: int|
            0 <= i < r@.len() ==> (#[trigger] r@[i])@.len() > 0 && r@[i]@ == with_key(
                xs@,
                r@[i]@[0].key(),
            ),
        forall|i: int, j: int|
            0 <= i < j < r@.len() ==> (#[trigger] r@[i])@[0].key() != (#[trigger] r@[j])@[0].key(),
        forall|k: int|
            #![trigger xs@[k]]
            0 <= k < xs@.len() ==> exists|i: int|
                #![trigger r@[i]]
                0 <= i < r@.len() && r@[i]@[0].key() == xs@[k].key(),
{
    xs.into_iter().into_group_map_by(|x| x.id().clone()).into_values().collect()
}

} // verus!
