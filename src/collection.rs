//! Normalization of multi-valued lists into sorted lists without repeats.

use crate::content::strs;
use vstd::prelude::*;

verus! {

/// The order of `String`: characters compared one by one by code point, a prefix first.
pub open spec fn chars_le(a: Seq<char>, b: Seq<char>) -> bool
    decreases a.len(),
{
    if a.len() == 0 {
        true
    } else if b.len() == 0 {
        false
    } else if a[0] != b[0] {
        (a[0] as u32) < (b[0] as u32)
    } else {
        chars_le(a.drop_first(), b.drop_first())
    }
}

proof fn lemma_chars_le_antisymmetric(a: Seq<char>, b: Seq<char>)
    requires
        chars_le(a, b),
        chars_le(b, a),
    ensures
        a == b,
    decreases a.len(),
{
    if a.len() > 0 && b.len() > 0 {
        lemma_chars_le_antisymmetric(a.drop_first(), b.drop_first());
        assert(a =~= seq![a[0]] + a.drop_first());
        assert(b =~= seq![b[0]] + b.drop_first());
    } else {
        assert(a =~= b);
    }
}

/// Whether `r` lists the distinct elements of `s` once each, in ascending order.
pub open spec fn is_unique_of(r: Seq<Seq<char>>, s: Seq<Seq<char>>) -> bool {
    &&& r.no_duplicates()
    &&& r.to_set() == s.to_set()
    &&& forall|i: int, j: int| 0 <= i < j < r.len() ==> chars_le(#[trigger] r[i], #[trigger] r[j])
}

/// Relies on `slice::sort`, which sorts in place in the ascending order of `String`: the
/// characters compared one by one by code point.
#[verifier::external_body]
fn sort_strings(v: &mut Vec<String>)
    ensures
        final(v)@.to_multiset() == old(v)@.to_multiset(),
        forall|i: int, j: int|
            0 <= i < j < final(v)@.len() ==> chars_le(
                (#[trigger] final(v)@[i])@,
                (#[trigger] final(v)@[j])@,
            ),
{
    v.sort();
}

/// The distinct strings of `v`, once each, in ascending order.
pub fn to_unique_vector(v: Vec<String>) -> (r: Vec<String>)
    ensures
        is_unique_of(strs(r@), strs(v@)),
{
    let ghost orig = v@;
    let mut s = v;
    sort_strings(&mut s);
    let ghost sorted = s@;
    let n: usize = s.len();
    let mut out: Vec<String> = Vec::new();
    let mut i: usize = 0;
    while i < n
        invariant
            n == s@.len(),
            sorted == s@,
            i <= n,
            forall|a: int, b: int|
                0 <= a < b < n ==> chars_le((#[trigger] s@[a])@, (#[trigger] s@[b])@),
            strs(out@).no_duplicates(),
            forall|a: int, b: int|
                0 <= a < b < out@.len() ==> chars_le(
                    (#[trigger] out@[a])@,
                    (#[trigger] out@[b])@,
                ),
            forall|a: int, j: int|
                0 <= a < out@.len() && i <= j < n ==> chars_le(
                    (#[trigger] out@[a])@,
                    (#[trigger] s@[j])@,
                ),
            i > 0 ==> out@.len() > 0 && out@[out@.len() - 1]@ == s@[i - 1]@,
            i == 0 ==> out@.len() == 0,
            strs(out@).to_set() == strs(s@.subrange(0, i as int)).to_set(),
        decreases n - i,
    {
        let ghost before = out@;
        let fresh = out.len() == 0 || out[out.len() - 1] != s[i];
        if fresh {
            out.push(s[i].clone());
            proof {
                assert forall|a: int, b: int|
                    0 <= a < b < strs(out@).len() implies strs(out@)[a] != strs(out@)[b] by {
                    if b == out@.len() - 1 && strs(out@)[a] == strs(out@)[b] {
                        let last = before.len() - 1;
                        assert(chars_le(before[a]@, s@[i as int]@));
                        if a < last {
                            assert(chars_le(before[a]@, before[last]@));
                            assert(chars_le(s@[i - 1]@, s@[i as int]@));
                            lemma_chars_le_antisymmetric(before[a]@, before[last]@);
                            assert(strs(before)[a] == strs(before)[last]);
                        }
                    } else if b < out@.len() - 1 {
                        assert(strs(before)[a] != strs(before)[b]);
                    }
                }
            }
        }
        proof {
            let pre = s@.subrange(0, i as int);
            let next = s@.subrange(0, i + 1);
            assert(strs(next) =~= strs(pre).push(s@[i as int]@));
            assert(strs(out@) =~= if fresh {
                strs(before).push(s@[i as int]@)
            } else {
                strs(before)
            });
            assert forall|x: Seq<char>| strs(out@).to_set().contains(x) == strs(next).to_set().contains(x) by {
                if x == s@[i as int]@ {
                    assert(strs(next)[i as int] == x);
                    if !fresh {
                        assert(strs(before)[before.len() - 1] == x);
                    } else {
                        assert(strs(out@)[out@.len() - 1] == x);
                    }
                } else {
                    if strs(next).contains(x) {
                        let k = choose|k: int| 0 <= k < strs(next).len() && strs(next)[k] == x;
                        assert(strs(pre)[k] == x);
                        assert(strs(pre).to_set().contains(x));
                        assert(strs(before).to_set().contains(x));
                        let k2 = choose|k2: int| 0 <= k2 < strs(before).len() && strs(before)[k2] == x;
                        assert(strs(out@)[k2] == x);
                    }
                    if strs(out@).contains(x) {
                        let k = choose|k: int| 0 <= k < strs(out@).len() && strs(out@)[k] == x;
                        assert(strs(before)[k] == x);
                        assert(strs(before).to_set().contains(x));
                        assert(strs(pre).to_set().contains(x));
                        let k2 = choose|k2: int| 0 <= k2 < strs(pre).len() && strs(pre)[k2] == x;
                        assert(strs(next)[k2] == x);
                    }
                }
            }
            assert(strs(out@).to_set() =~= strs(next).to_set());
        }
        i += 1;
    }
    proof {
        assert(s@.subrange(0, n as int) =~= s@);
        assert forall|x: Seq<char>| strs(s@).to_set().contains(x) == strs(orig).to_set().contains(x) by {
            if strs(s@).contains(x) {
                let k = choose|k: int| 0 <= k < strs(s@).len() && strs(s@)[k] == x;
                vstd::seq_lib::to_multiset_contains(s@, s@[k]);
                vstd::seq_lib::to_multiset_contains(orig, s@[k]);
                let k2 = choose|k2: int| 0 <= k2 < orig.len() && orig[k2] == s@[k];
                assert(strs(orig)[k2] == x);
            }
            if strs(orig).contains(x) {
                let k = choose|k: int| 0 <= k < strs(orig).len() && strs(orig)[k] == x;
                vstd::seq_lib::to_multiset_contains(s@, orig[k]);
                vstd::seq_lib::to_multiset_contains(orig, orig[k]);
                let k2 = choose|k2: int| 0 <= k2 < s@.len() && s@[k2] == orig[k];
                assert(strs(s@)[k2] == x);
            }
        }
        assert(strs(s@).to_set() =~= strs(orig).to_set());
    }
    out
}

proof fn lemma_unique_lists_equal(a: Seq<Seq<char>>, b: Seq<Seq<char>>)
    requires
        is_unique_of(a, b),
        is_unique_of(b, b),
    ensures
        a == b,
    decreases a.len(),
{
    if a.len() == 0 {
        if b.len() > 0 {
            assert(b.to_set().contains(b[0]));
        }
        assert(a =~= b);
    } else {
        assert(a.to_set().contains(a[0]));
        assert(b.to_set().contains(a[0]));
        let m = choose|m: int| 0 <= m < b.len() && b[m] == a[0];
        assert(b.to_set().contains(b[0]));
        assert(a.to_set().contains(b[0]));
        let k = choose|k: int| 0 <= k < a.len() && a[k] == b[0];
        if k > 0 {
            assert(chars_le(a[0], a[k]));
            if m > 0 {
                assert(chars_le(b[0], b[m]));
            }
            lemma_chars_le_antisymmetric(a[0], a[k]);
        }
        assert(a[0] == b[0]);
        let a1 = a.drop_first();
        let b1 = b.drop_first();
        assert forall|x: Seq<char>| a1.to_set().contains(x) == b1.to_set().contains(x) by {
            if a1.contains(x) {
                let i = choose|i: int| 0 <= i < a1.len() && a1[i] == x;
                assert(a[i + 1] == x);
                assert(x != a[0]);
                assert(a.to_set().contains(x));
                let j = choose|j: int| 0 <= j < b.len() && b[j] == x;
                assert(j != 0);
                assert(b1[j - 1] == x);
            }
            if b1.contains(x) {
                let i = choose|i: int| 0 <= i < b1.len() && b1[i] == x;
                assert(b[i + 1] == x);
                assert(x != b[0]);
                assert(b.to_set().contains(x));
                let j = choose|j: int| 0 <= j < a.len() && a[j] == x;
                assert(j != 0);
                assert(a1[j - 1] == x);
            }
        }
        assert(a1.to_set() =~= b1.to_set());
        assert forall|i: int, j: int| 0 <= i < j < a1.len() implies chars_le(
            #[trigger] a1[i],
            #[trigger] a1[j],
        ) by {
            assert(chars_le(a[i + 1], a[j + 1]));
        }
        assert forall|i: int, j: int| 0 <= i < j < b1.len() implies chars_le(
            #[trigger] b1[i],
            #[trigger] b1[j],
        ) by {
            assert(chars_le(b[i + 1], b[j + 1]));
        }
        lemma_unique_lists_equal(a1, b1);
        assert(a =~= seq![a[0]] + a1);
        assert(b =~= seq![b[0]] + b1);
    }
}

/// Deduplication is idempotent: deduplicating an already deduplicated list gives it back.
pub proof fn lemma_dedup_idempotent(s: Seq<Seq<char>>, once: Seq<Seq<char>>, twice: Seq<Seq<char>>)
    requires
        is_unique_of(once, s),
        is_unique_of(twice, once),
    ensures
        twice == once,
{
    assert(is_unique_of(once, once));
    lemma_unique_lists_equal(twice, once);
}

} // verus!
