//! A verified set of strings, viewed as a `Set<Seq<char>>`.

use vstd::prelude::*;

verus! {

/// Finite set of strings with membership stated over character sequences.
pub struct StrSet {
    items: Vec<String>,
}

/// Members contributed by the first `k` entries of `items`.
pub open spec fn set_of_prefix(items: Seq<String>, k: int) -> Set<Seq<char>> {
    Set::new(|x: Seq<char>| exists|i: int| 0 <= i < k && items[i]@ == x)
}

impl View for StrSet {
    type V = Set<Seq<char>>;

    closed spec fn view(&self) -> Set<Seq<char>> {
        set_of_prefix(self.items@, self.items@.len() as int)
    }
}

impl StrSet {
    /// The empty set.
    pub fn new() -> (r: Self)
        ensures
            r@ == Set::<Seq<char>>::empty(),
    {
        let r = StrSet { items: Vec::new() };
        proof {
            assert(r@ =~= Set::<Seq<char>>::empty());
        }
        r
    }

    /// Membership test.
    pub fn contains(&self, x: &str) -> (r: bool)
        ensures
            r == self@.contains(x@),
    {
        let n = self.items.len();
        let mut i: usize = 0;
        while i < n
            invariant
                n == self.items@.len(),
                0 <= i <= n,
                forall|j: int| 0 <= j < i ==> self.items@[j]@ != x@,
            decreases n - i,
        {
            if crate::text::str_eq(self.items[i].as_str(), x) {
                assert(self@.contains(x@));
                return true;
            }
            i = i + 1;
        }
        assert(!self@.contains(x@));
        false
    }

    /// Idempotent insertion.
    pub fn insert(&mut self, x: String)
        ensures
            final(self)@ == old(self)@.insert(x@),
    {
        if self.contains(x.as_str()) {
            proof {
                assert(old(self)@ =~= old(self)@.insert(x@));
            }
        } else {
            let ghost old_items = self.items@;
            self.items.push(x);
            proof {
                assert(self.items@ == old_items.push(x));
                assert forall|y: Seq<char>| self@.contains(y) implies old(self)@.insert(
                    x@,
                ).contains(y) by {
                    let i = choose|i: int|
                        0 <= i < self.items@.len() && self.items@[i]@ == y;
                    if i < old_items.len() {
                        assert(old_items[i]@ == y);
                    } else {
                        assert(y == x@);
                    }
                }
                assert forall|y: Seq<char>| old(self)@.insert(x@).contains(y) implies self@.contains(
                    y,
                ) by {
                    if y == x@ {
                        assert(self.items@[old_items.len() as int]@ == y);
                    } else {
                        let i = choose|i: int| 0 <= i < old_items.len() && old_items[i]@ == y;
                        assert(self.items@[i]@ == y);
                    }
                }
                assert(self@ =~= old(self)@.insert(x@));
            }
        }
    }

    /// Inserts every member of `other`.
    pub fn add_all(&mut self, other: &StrSet)
        ensures
            final(self)@ == old(self)@ + other@,
    {
        let n = other.items.len();
        let mut k: usize = 0;
        proof {
            assert(self@ =~= old(self)@ + set_of_prefix(other.items@, 0));
        }
        while k < n
            invariant
                n == other.items@.len(),
                0 <= k <= n,
                self@ == old(self)@ + set_of_prefix(other.items@, k as int),
            decreases n - k,
        {
            let ghost pre = self@;
            self.insert(other.items[k].clone());
            proof {
                assert forall|y: Seq<char>|
                    pre.insert(other.items@[k as int]@).contains(y) implies (old(self)@
                    + set_of_prefix(other.items@, k + 1)).contains(y) by {
                    if y == other.items@[k as int]@ {
                        assert(set_of_prefix(other.items@, k + 1).contains(y));
                    }
                }
                assert forall|y: Seq<char>|
                    (old(self)@ + set_of_prefix(other.items@, k + 1)).contains(y) implies pre.insert(
                    other.items@[k as int]@,
                ).contains(y) by {
                    if set_of_prefix(other.items@, k + 1).contains(y) {
                        let i = choose|i: int| 0 <= i < k + 1 && other.items@[i]@ == y;
                        if i < k {
                            assert(set_of_prefix(other.items@, k as int).contains(y));
                        }
                    }
                }
                assert(self@ =~= old(self)@ + set_of_prefix(other.items@, k + 1));
            }
            k = k + 1;
        }
        proof {
            assert forall|y: Seq<char>| other@.contains(y) implies set_of_prefix(
                other.items@,
                n as int,
            ).contains(y) by {}
            assert(self@ =~= old(self)@ + other@);
        }
    }

    /// An equal, independently owned copy.
    pub fn duplicate(&self) -> (r: Self)
        ensures
            r@ == self@,
    {
        let mut r = StrSet::new();
        r.add_all(self);
        proof {
            assert(r@ =~= self@);
        }
        r
    }
}

} // verus!
