//! A verified trigger-to-reply table, viewed as a `Map<Seq<char>, Seq<char>>`.

use vstd::prelude::*;

verus! {

struct CmdEntry {
    trigger: String,
    reply: String,
}

/// Insert-or-overwrite mapping from trigger strings to reply strings.
pub struct CmdMap {
    entries: Vec<CmdEntry>,
}

/// Reply of the first entry whose trigger is `k`, if any.
spec fn lookup(entries: Seq<CmdEntry>, k: Seq<char>) -> Option<Seq<char>>
    decreases entries.len(),
{
    if entries.len() == 0 {
        None
    } else if entries[0].trigger@ == k {
        Some(entries[0].reply@)
    } else {
        lookup(entries.subrange(1, entries.len() as int), k)
    }
}

impl View for CmdMap {
    type V = Map<Seq<char>, Seq<char>>;

    closed spec fn view(&self) -> Map<Seq<char>, Seq<char>> {
        Map::new(
            |k: Seq<char>| lookup(self.entries@, k) is Some,
            |k: Seq<char>| lookup(self.entries@, k).unwrap(),
        )
    }
}

/// Skipping entries whose trigger differs from `k` leaves the lookup unchanged.
proof fn lemma_lookup_skip(entries: Seq<CmdEntry>, k: Seq<char>, i: int)
    requires
        0 <= i <= entries.len(),
        forall|j: int| 0 <= j < i ==> entries[j].trigger@ != k,
    ensures
        lookup(entries, k) == lookup(entries.subrange(i, entries.len() as int), k),
    decreases i,
{
    if i > 0 {
        let tail = entries.subrange(1, entries.len() as int);
        assert forall|j: int| 0 <= j < i - 1 implies tail[j].trigger@ != k by {
            assert(entries[j + 1].trigger@ != k);
        }
        lemma_lookup_skip(tail, k, i - 1);
        assert(tail.subrange(i - 1, tail.len() as int) =~= entries.subrange(
            i,
            entries.len() as int,
        ));
    } else {
        assert(entries.subrange(0, entries.len() as int) =~= entries);
    }
}

/// Overwriting the reply of the first entry for a trigger updates that key
/// alone.
proof fn lemma_lookup_update(entries: Seq<CmdEntry>, m: int, e2: CmdEntry, k2: Seq<char>)
    requires
        0 <= m < entries.len(),
        entries[m].trigger@ == e2.trigger@,
        forall|j: int| 0 <= j < m ==> entries[j].trigger@ != e2.trigger@,
    ensures
        lookup(entries.update(m, e2), k2) == (if k2 == e2.trigger@ {
            Some(e2.reply@)
        } else {
            lookup(entries, k2)
        }),
    decreases m,
{
    let upd = entries.update(m, e2);
    if m == 0 {
        if k2 != e2.trigger@ {
            assert(upd.subrange(1, upd.len() as int) =~= entries.subrange(
                1,
                entries.len() as int,
            ));
        }
    } else {
        assert(upd[0] == entries[0]);
        if entries[0].trigger@ != k2 {
            let tail = entries.subrange(1, entries.len() as int);
            assert(upd.subrange(1, upd.len() as int) =~= tail.update(m - 1, e2));
            assert forall|j: int| 0 <= j < m - 1 implies tail[j].trigger@ != e2.trigger@ by {
                assert(entries[j + 1].trigger@ != e2.trigger@);
            }
            lemma_lookup_update(tail, m - 1, e2, k2);
        }
    }
}

/// Appending an entry defines its trigger only where it was undefined.
proof fn lemma_lookup_push(entries: Seq<CmdEntry>, e: CmdEntry, k2: Seq<char>)
    ensures
        lookup(entries.push(e), k2) == (if lookup(entries, k2) is Some {
            lookup(entries, k2)
        } else if k2 == e.trigger@ {
            Some(e.reply@)
        } else {
            None
        }),
    decreases entries.len(),
{
    let p = entries.push(e);
    assert(p.len() == entries.len() + 1);
    if entries.len() == 0 {
        assert(p[0] == e);
        if e.trigger@ != k2 {
            assert(p.subrange(1, p.len() as int) =~= Seq::<CmdEntry>::empty());
            assert(lookup(Seq::<CmdEntry>::empty(), k2) is None);
            assert(lookup(p, k2) is None);
        } else {
            assert(lookup(p, k2) == Some(e.reply@));
        }
        assert(lookup(entries, k2) is None);
    } else {
        assert(p[0] == entries[0]);
        if entries[0].trigger@ == k2 {
            assert(lookup(p, k2) == Some(entries[0].reply@));
            assert(lookup(entries, k2) == Some(entries[0].reply@));
        } else {
            let tail = entries.subrange(1, entries.len() as int);
            assert(p.subrange(1, p.len() as int) =~= tail.push(e));
            lemma_lookup_push(tail, e, k2);
            assert(lookup(p, k2) == lookup(tail.push(e), k2));
            assert(lookup(entries, k2) == lookup(tail, k2));
        }
    }
}

/// Entries equal view-by-view give equal lookups.
proof fn lemma_lookup_congruence(a: Seq<CmdEntry>, b: Seq<CmdEntry>, k: Seq<char>)
    requires
        a.len() == b.len(),
        forall|i: int|
            0 <= i < a.len() ==> a[i].trigger@ == b[i].trigger@ && a[i].reply@ == b[i].reply@,
    ensures
        lookup(a, k) == lookup(b, k),
    decreases a.len(),
{
    if a.len() > 0 {
        let ta = a.subrange(1, a.len() as int);
        let tb = b.subrange(1, b.len() as int);
        assert forall|i: int|
            0 <= i < ta.len() implies ta[i].trigger@ == tb[i].trigger@ && ta[i].reply@
            == tb[i].reply@ by {
            assert(a[i + 1].trigger@ == b[i + 1].trigger@);
            assert(a[i + 1].reply@ == b[i + 1].reply@);
        }
        lemma_lookup_congruence(ta, tb, k);
    }
}

impl CmdMap {
    /// The empty mapping.
    pub fn new() -> (r: Self)
        ensures
            r@ == Map::<Seq<char>, Seq<char>>::empty(),
    {
        let r = CmdMap { entries: Vec::new() };
        proof {
            assert(r@ =~= Map::<Seq<char>, Seq<char>>::empty());
        }
        r
    }

    /// Looks a trigger up.
    pub fn get(&self, k: &str) -> (r: Option<String>)
        ensures
            match r {
                Some(v) => self@.contains_key(k@) && self@[k@] == v@,
                None => !self@.contains_key(k@),
            },
    {
        let n = self.entries.len();
        let mut i: usize = 0;
        while i < n
            invariant
                n == self.entries@.len(),
                0 <= i <= n,
                forall|j: int| 0 <= j < i ==> self.entries@[j].trigger@ != k@,
            decreases n - i,
        {
            if crate::text::str_eq(self.entries[i].trigger.as_str(), k) {
                proof {
                    lemma_lookup_skip(self.entries@, k@, i as int);
                    assert(self.entries@.subrange(i as int, n as int)[0] == self.entries@[
                        i as int]);
                }
                return Some(self.entries[i].reply.clone());
            }
            i = i + 1;
        }
        proof {
            lemma_lookup_skip(self.entries@, k@, n as int);
        }
        None
    }

    /// Defines or overwrites the reply for a trigger.
    pub fn set(&mut self, k: String, v: String)
        ensures
            final(self)@ == old(self)@.insert(k@, v@),
    {
        let n = self.entries.len();
        let mut i: usize = 0;
        while i < n
            invariant
                n == self.entries@.len(),
                0 <= i <= n,
                self == old(self),
                forall|j: int| 0 <= j < i ==> self.entries@[j].trigger@ != k@,
            decreases n - i,
        {
            if crate::text::str_eq(self.entries[i].trigger.as_str(), k.as_str()) {
                let e2 = CmdEntry { trigger: k, reply: v };
                let ghost ge2 = e2;
                self.entries[i] = e2;
                proof {
                    assert(self.entries@ == old(self).entries@.update(i as int, ge2));
                    assert forall|k2: Seq<char>| #![auto]
                        lookup(self.entries@, k2) == (if k2 == ge2.trigger@ {
                            Some(ge2.reply@)
                        } else {
                            lookup(old(self).entries@, k2)
                        }) by {
                        lemma_lookup_update(old(self).entries@, i as int, ge2, k2);
                    }
                    assert(self@ =~= old(self)@.insert(ge2.trigger@, ge2.reply@));
                }
                return ;
            }
            i = i + 1;
        }
        let e = CmdEntry { trigger: k, reply: v };
        let ghost ge = e;
        proof {
            lemma_lookup_skip(self.entries@, ge.trigger@, n as int);
        }
        self.entries.push(e);
        proof {
            assert forall|k2: Seq<char>| #![auto]
                lookup(self.entries@, k2) == (if lookup(old(self).entries@, k2) is Some {
                    lookup(old(self).entries@, k2)
                } else if k2 == ge.trigger@ {
                    Some(ge.reply@)
                } else {
                    None
                }) by {
                lemma_lookup_push(old(self).entries@, ge, k2);
            }
            assert(self@ =~= old(self)@.insert(ge.trigger@, ge.reply@));
        }
    }

    /// An equal, independently owned copy.
    pub fn duplicate(&self) -> (r: Self)
        ensures
            r@ == self@,
    {
        let n = self.entries.len();
        let mut out: Vec<CmdEntry> = Vec::new();
        let mut i: usize = 0;
        while i < n
            invariant
                n == self.entries@.len(),
                0 <= i <= n,
                out@.len() == i,
                forall|j: int|
                    0 <= j < i ==> out@[j].trigger@ == self.entries@[j].trigger@ && out@[j].reply@
                        == self.entries@[j].reply@,
            decreases n - i,
        {
            out.push(
                CmdEntry {
                    trigger: self.entries[i].trigger.clone(),
                    reply: self.entries[i].reply.clone(),
                },
            );
            i = i + 1;
        }
        let r = CmdMap { entries: out };
        proof {
            assert forall|k2: Seq<char>| #![auto]
                lookup(r.entries@, k2) == lookup(self.entries@, k2) by {
                lemma_lookup_congruence(r.entries@, self.entries@, k2);
            }
            assert(r@ =~= self@);
        }
        r
    }
}

} // verus!
