//! Numbering of keys in order of first appearance.

use vstd::prelude::*;
use vstd::string::*;

verus! {

/// Gives each distinct key a number, 1 for the first key seen, 2 for the next new one, and so
/// on; a key seen again gets its number back.
pub struct IncrementalIdGenerator {
    keys: Vec<String>,
}

impl View for IncrementalIdGenerator {
    type V = Seq<Seq<char>>;

    /// The keys seen so far, in order of first appearance.
    closed spec fn view(&self) -> Seq<Seq<char>> {
        self.keys@.map_values(|k: String| k@)
    }
}

impl IncrementalIdGenerator {
    pub fn new() -> (r: IncrementalIdGenerator)
        ensures
            r@ == Seq::<Seq<char>>::empty(),
    {
        let r = IncrementalIdGenerator { keys: Vec::new() };
        assert(r@ =~= Seq::<Seq<char>>::empty());
        r
    }

    /// The number of `key`: its position among the keys seen so far, counted from 1, after
    /// adding it at the end if it is new.
    pub fn get_id(&mut self, key: &str) -> (r: i32)
        requires
            old(self)@.len() < i32::MAX,
        ensures
            final(self)@ == if old(self)@.contains(key@) {
                old(self)@
            } else {
                old(self)@.push(key@)
            },
            1 <= r <= final(self)@.len(),
            final(self)@[r - 1] == key@,
            forall|j: int| 0 <= j < r - 1 ==> final(self)@[j] != key@,
    {
        let k = String::from_str(key);
        let mut i: usize = 0;
        while i < self.keys.len()
            invariant
                i <= self.keys@.len(),
                self.keys@.len() < i32::MAX,
                k@ == key@,
                forall|j: int| 0 <= j < i ==> (#[trigger] self.keys@[j])@ != key@,
            decreases self.keys.len() - i,
        {
            if self.keys[i] == k {
                assert(self@[i as int] == key@);
                assert(self@.contains(key@));
                return (i + 1) as i32;
            }
            i += 1;
        }
        proof {
            assert forall|j: int| 0 <= j < self@.len() implies self@[j] != key@ by {
                assert(self.keys@[j]@ != key@);
            }
        }
        let ghost before = self@;
        self.keys.push(k);
        assert(self@ =~= before.push(key@));
        self.keys.len() as i32
    }
}

} // verus!
