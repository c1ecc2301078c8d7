//! The per-address claimable balance ledger.
//!
//! A small association list from principal to amount, abstracted as a
//! `Map<Address, i128>`; an address that was never credited holds 0.

use vstd::prelude::*;

use crate::types::Address;

verus! {

broadcast use vstd::set::group_set_axioms, vstd::map::group_map_axioms;

/// The first value stored under key `a`, scanning from the front.
pub open spec fn seq_lookup(s: Seq<(Address, i128)>, a: Address) -> i128
    decreases s.len(),
{
    if s.len() == 0 {
        0
    } else if s[0].0 == a {
        s[0].1
    } else {
        seq_lookup(s.drop_first(), a)
    }
}

/// Some entry of `s` has key `a`.
pub open spec fn seq_has_key(s: Seq<(Address, i128)>, a: Address) -> bool
    decreases s.len(),
{
    if s.len() == 0 {
        false
    } else if s[0].0 == a {
        true
    } else {
        seq_has_key(s.drop_first(), a)
    }
}

/// The balance of `a` in map `m`: its entry, or 0 when absent.
pub open spec fn bal(m: Map<Address, i128>, a: Address) -> i128 {
    if m.dom().contains(a) {
        m[a]
    } else {
        0
    }
}

/// Claimable balances per principal.
pub struct Balances {
    pub entries: Vec<(Address, i128)>,
}

impl View for Balances {
    type V = Map<Address, i128>;

    open spec fn view(&self) -> Map<Address, i128> {
        Map::new(
            |a: Address| seq_has_key(self.entries@, a),
            |a: Address| seq_lookup(self.entries@, a),
        )
    }
}

/// If the first entry with key `a` stands at index `i`, the lookup finds it.
proof fn lemma_lookup_first(s: Seq<(Address, i128)>, a: Address, i: int)
    requires
        0 <= i < s.len(),
        s[i].0 == a,
        forall|j: int| 0 <= j < i ==> s[j].0 != a,
    ensures
        seq_has_key(s, a),
        seq_lookup(s, a) == s[i].1,
    decreases i,
{
    if i == 0 {
    } else {
        lemma_lookup_first(s.drop_first(), a, i - 1);
    }
}

/// If no entry has key `a`, the lookup yields the default 0.
proof fn lemma_lookup_absent(s: Seq<(Address, i128)>, a: Address)
    requires
        forall|j: int| 0 <= j < s.len() ==> s[j].0 != a,
    ensures
        !seq_has_key(s, a),
        seq_lookup(s, a) == 0,
    decreases s.len(),
{
    if s.len() > 0 {
        lemma_lookup_absent(s.drop_first(), a);
    }
}

/// Overwriting the value at index `i` leaves every other key's lookup as it
/// was.
proof fn lemma_update_same_key(s: Seq<(Address, i128)>, i: int, v: i128, x: Address)
    requires
        0 <= i < s.len(),
        x != s[i].0,
    ensures
        seq_has_key(s.update(i, (s[i].0, v)), x) == seq_has_key(s, x),
        seq_lookup(s.update(i, (s[i].0, v)), x) == seq_lookup(s, x),
    decreases i,
{
    let t = s.update(i, (s[i].0, v));
    if i == 0 {
        assert(t.drop_first() =~= s.drop_first());
    } else {
        assert(t.drop_first() =~= s.drop_first().update(i - 1, (s[i].0, v)));
        lemma_update_same_key(s.drop_first(), i - 1, v, x);
    }
}

/// Appending an entry leaves every other key's lookup as it was, and serves
/// lookups of the appended key when that key was absent.
proof fn lemma_push(s: Seq<(Address, i128)>, a: Address, v: i128, x: Address)
    ensures
        x != a ==> seq_has_key(s.push((a, v)), x) == seq_has_key(s, x),
        x != a ==> seq_lookup(s.push((a, v)), x) == seq_lookup(s, x),
        seq_has_key(s.push((a, v)), a),
        !seq_has_key(s, a) ==> seq_lookup(s.push((a, v)), a) == v,
    decreases s.len(),
{
    let t = s.push((a, v));
    if s.len() == 0 {
        assert(t[0] == (a, v));
        assert(t[0].0 == a);
        assert(seq_has_key(t, a));
        let t1 = t.drop_first();
        assert(t1.len() == 0);
        assert(!seq_has_key(t1, x));
        assert(seq_lookup(t1, x) == 0);
        assert(seq_lookup(t, a) == v);
        if x != a {
            assert(seq_has_key(t, x) == seq_has_key(t1, x));
            assert(seq_lookup(t, x) == seq_lookup(t1, x));
        }
    } else {
        assert(t[0] == s[0]);
        let st = s.drop_first();
        let tt = t.drop_first();
        assert(tt =~= st.push((a, v)));
        lemma_push(st, a, v, x);
        lemma_push(st, a, v, a);
        if s[0].0 == a {
            assert(seq_has_key(t, a));
            assert(seq_has_key(s, a));
        } else {
            assert(seq_has_key(t, a) == seq_has_key(tt, a));
            assert(seq_has_key(tt, a));
            if !seq_has_key(s, a) {
                assert(!seq_has_key(st, a));
                assert(seq_lookup(t, a) == seq_lookup(tt, a));
                assert(seq_lookup(tt, a) == v);
            }
        }
        if x != a {
            if s[0].0 == x {
                assert(seq_has_key(t, x));
                assert(seq_has_key(s, x));
                assert(seq_lookup(t, x) == t[0].1);
                assert(seq_lookup(s, x) == s[0].1);
            } else {
                assert(seq_has_key(t, x) == seq_has_key(tt, x));
                assert(seq_has_key(s, x) == seq_has_key(st, x));
                assert(seq_lookup(t, x) == seq_lookup(tt, x));
                assert(seq_lookup(s, x) == seq_lookup(st, x));
            }
        }
    }
}

impl Balances {
    /// A fresh, empty ledger.
    pub fn new() -> (r: Balances)
        ensures
            r@ == Map::<Address, i128>::empty(),
            r.entries@.len() == 0,
    {
        let r = Balances { entries: Vec::new() };
        proof {
            assert(r@ =~= Map::<Address, i128>::empty());
        }
        r
    }

    /// The balance of `a`: its recorded amount, or 0 when none is recorded.
    pub fn get(&self, a: Address) -> (r: i128)
        ensures
            r == bal(self@, a),
    {
        let n = self.entries.len();
        let mut i: usize = 0;
        while i < n
            invariant
                n == self.entries@.len(),
                i <= n,
                forall|j: int| 0 <= j < i ==> self.entries@[j].0 != a,
            decreases n - i,
        {
            let (key, value) = self.entries[i];
            if key == a {
                proof {
                    lemma_lookup_first(self.entries@, a, i as int);
                }
                return value;
            }
            i += 1;
        }
        proof {
            lemma_lookup_absent(self.entries@, a);
        }
        0
    }

    /// Records `v` as the balance of `a`.
    pub fn set(&mut self, a: Address, v: i128)
        ensures
            final(self)@ == old(self)@.insert(a, v),
    {
        let n = self.entries.len();
        let mut i: usize = 0;
        while i < n
            invariant
                *self == *old(self),
                n == self.entries@.len(),
                i <= n,
                forall|j: int| 0 <= j < i ==> self.entries@[j].0 != a,
            decreases n - i,
        {
            let (key, _value) = self.entries[i];
            if key == a {
                let ghost s = self.entries@;
                self.entries.set(i, (a, v));
                proof {
                    let t = self.entries@;
                    assert(t =~= s.update(i as int, (s[i as int].0, v)));
                    lemma_lookup_first(t, a, i as int);
                    let m1 = self@;
                    let mi = old(self)@.insert(a, v);
                    assert forall|x: Address| m1.dom().contains(x) == mi.dom().contains(x) by {
                        if x != a {
                            lemma_update_same_key(s, i as int, v, x);
                        }
                    }
                    assert forall|x: Address| m1.dom().contains(x) implies m1[x] == mi[x] by {
                        if x != a {
                            lemma_update_same_key(s, i as int, v, x);
                        }
                    }
                    assert(m1 =~= mi);
                }
                return ;
            }
            i += 1;
        }
        let ghost s = self.entries@;
        self.entries.push((a, v));
        proof {
            lemma_lookup_absent(s, a);
            let t = self.entries@;
            assert(t == s.push((a, v)));
            let m1 = self@;
            let mi = old(self)@.insert(a, v);
            assert forall|x: Address| m1.dom().contains(x) == mi.dom().contains(x) by {
                lemma_push(s, a, v, x);
            }
            assert forall|x: Address| m1.dom().contains(x) implies m1[x] == mi[x] by {
                lemma_push(s, a, v, x);
            }
            assert(m1 =~= mi);
        }
    }

    /// An independent copy with the same contents.
    pub fn duplicate(&self) -> (r: Balances)
        ensures
            r@ == self@,
            r.entries@ == self.entries@,
    {
        let n = self.entries.len();
        let mut v: Vec<(Address, i128)> = Vec::new();
        let mut i: usize = 0;
        while i < n
            invariant
                n == self.entries@.len(),
                i <= n,
                v@ == self.entries@.take(i as int),
            decreases n - i,
        {
            v.push(self.entries[i]);
            proof {
                assert(v@ =~= self.entries@.take(i + 1));
            }
            i += 1;
        }
        proof {
            assert(v@ =~= self.entries@);
        }
        let r = Balances { entries: v };
        proof {
            assert(r@ =~= self@);
        }
        r
    }
}

} // verus!
