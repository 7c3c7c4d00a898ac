//! A header multimap: ordered (name, value) pairs, where inserting
//! replaces every pair of the same name and appending keeps them all.

use vstd::prelude::*;

use crate::strutil::str_eq;

verus! {

/// The view of a list of (name, value) string pairs.
pub open spec fn hdr_view(v: Seq<(String, String)>) -> Seq<(Seq<char>, Seq<char>)> {
    v.map_values(|p: (String, String)| (p.0@, p.1@))
}

/// The pairs of `h` whose name is not `key`.
pub open spec fn hdr_without(h: Seq<(Seq<char>, Seq<char>)>, key: Seq<char>) -> Seq<
    (Seq<char>, Seq<char>),
> {
    h.filter(|p: (Seq<char>, Seq<char>)| p.0 != key)
}

/// What inserting does: every pair of the same name goes, the new pair
/// comes last.
pub open spec fn hdr_insert(
    h: Seq<(Seq<char>, Seq<char>)>,
    key: Seq<char>,
    value: Seq<char>,
) -> Seq<(Seq<char>, Seq<char>)> {
    hdr_without(h, key).push((key, value))
}

/// The first value recorded under `key`, if any.
pub open spec fn hdr_lookup(h: Seq<(Seq<char>, Seq<char>)>, key: Seq<char>) -> Option<Seq<char>>
    decreases h.len(),
{
    if h.len() == 0 {
        None
    } else if h[0].0 == key {
        Some(h[0].1)
    } else {
        hdr_lookup(h.drop_first(), key)
    }
}

proof fn lemma_lookup_push_fresh(s: Seq<(Seq<char>, Seq<char>)>, k: Seq<char>, v: Seq<char>)
    requires
        forall|i: int| 0 <= i < s.len() ==> (#[trigger] s[i]).0 != k,
    ensures
        hdr_lookup(s.push((k, v)), k) == Some(v),
    decreases s.len(),
{
    if s.len() == 0 {
        assert(s.push((k, v))[0] == (k, v));
    } else {
        assert(s.push((k, v))[0] == s[0]);
        assert(s.push((k, v)).drop_first() =~= s.drop_first().push((k, v)));
        lemma_lookup_push_fresh(s.drop_first(), k, v);
    }
}

/// The pair an insert writes is what a lookup of its name then finds.
pub proof fn lemma_lookup_insert_same(h: Seq<(Seq<char>, Seq<char>)>, k: Seq<char>, v: Seq<char>)
    ensures
        hdr_lookup(hdr_insert(h, k, v), k) == Some(v),
{
    broadcast use vstd::seq_lib::group_filter_ensures;

    assert forall|i: int| 0 <= i < hdr_without(h, k).len() implies (#[trigger] hdr_without(h, k)[i]).0
        != k by {}
    lemma_lookup_push_fresh(hdr_without(h, k), k, v);
}

/// Inserting one name leaves the lookup of any other name as it was.
pub proof fn lemma_lookup_insert_other(
    h: Seq<(Seq<char>, Seq<char>)>,
    k: Seq<char>,
    v: Seq<char>,
    k2: Seq<char>,
)
    requires
        k2 != k,
    ensures
        hdr_lookup(hdr_insert(h, k, v), k2) == hdr_lookup(h, k2),
    decreases h.len(),
{
    broadcast use vstd::seq_lib::group_filter_ensures;

    reveal_with_fuel(Seq::filter, 2);
    if h.len() == 0 {
        assert(hdr_without(h, k) =~= Seq::<(Seq<char>, Seq<char>)>::empty());
        assert(hdr_insert(h, k, v) =~= seq![(k, v)]);
        assert(seq![(k, v)].drop_first() =~= Seq::<(Seq<char>, Seq<char>)>::empty());
    } else {
        let h0 = h[0];
        let rest = h.drop_first();
        assert(h =~= seq![h0] + rest);
        assert(hdr_without(seq![h0] + rest, k) == hdr_without(seq![h0], k) + hdr_without(
            rest,
            k,
        ));
        assert(seq![h0].drop_last() =~= Seq::<(Seq<char>, Seq<char>)>::empty());
        assert(hdr_without(seq![h0], k) =~= if h0.0 != k {
            seq![h0]
        } else {
            Seq::<(Seq<char>, Seq<char>)>::empty()
        });
        lemma_lookup_insert_other(rest, k, v, k2);
        if h0.0 == k {
            assert(hdr_insert(h, k, v) =~= hdr_insert(rest, k, v));
        } else {
            assert(hdr_insert(h, k, v) =~= seq![h0] + hdr_insert(rest, k, v));
            assert((seq![h0] + hdr_insert(rest, k, v))[0] == h0);
            assert((seq![h0] + hdr_insert(rest, k, v)).drop_first() =~= hdr_insert(rest, k, v));
        }
    }
}

/// An ordered multimap of header names to values.
pub struct Headers {
    pub entries: Vec<(String, String)>,
}

impl View for Headers {
    type V = Seq<(Seq<char>, Seq<char>)>;

    open spec fn view(&self) -> Seq<(Seq<char>, Seq<char>)> {
        hdr_view(self.entries@)
    }
}

impl Headers {
    /// No headers.
    pub fn new() -> (r: Headers)
        ensures
            r@ =~= Seq::<(Seq<char>, Seq<char>)>::empty(),
    {
        Headers { entries: Vec::new() }
    }

    /// One header.
    pub fn with_one(key: &str, value: String) -> (r: Headers)
        ensures
            r@ =~= seq![(key@, value@)],
    {
        let mut h = Headers::new();
        h.append(key, value);
        h
    }

    /// Sets `key` to `value`, dropping every existing pair of that name;
    /// the new pair stands last.
    #[verifier::loop_isolation(false)]
    pub fn insert(&mut self, key: &str, value: String)
        ensures
            final (self)@ == hdr_insert(old(self)@, key@, value@),
    {
        let n = self.entries.len();
        let mut kept: Vec<(String, String)> = Vec::new();
        let mut i: usize = 0;
        proof {
            reveal(Seq::filter);
            assert(hdr_view(self.entries@).take(0) =~= Seq::<(Seq<char>, Seq<char>)>::empty());
            assert(hdr_view(kept@) =~= hdr_without(hdr_view(self.entries@).take(0), key@));
        }
        while i < n
            invariant
                i <= n,
                n == self.entries@.len(),
                self == old(self),
                hdr_view(kept@) =~= hdr_without(hdr_view(self.entries@).take(i as int), key@),
            decreases n - i,
        {
            let ghost pre = hdr_view(self.entries@).take(i as int);
            let ghost cur = (self.entries@[i as int].0@, self.entries@[i as int].1@);
            proof {
                reveal(Seq::filter);
                assert(hdr_view(self.entries@).take(i + 1) =~= pre.push(cur));
                assert(pre.push(cur).drop_last() =~= pre);
                assert(hdr_without(pre.push(cur), key@) == if cur.0 != key@ {
                    hdr_without(pre, key@).push(cur)
                } else {
                    hdr_without(pre, key@)
                });
            }
            if !str_eq(self.entries[i].0.as_str(), key) {
                let pair = (self.entries[i].0.clone(), self.entries[i].1.clone());
                kept.push(pair);
                proof {
                    assert(hdr_view(kept@) =~= hdr_view(kept@.drop_last()).push(cur));
                }
            }
            i = i + 1;
        }
        proof {
            assert(hdr_view(self.entries@).take(n as int) =~= hdr_view(self.entries@));
        }
        kept.push((key.to_owned(), value));
        proof {
            assert(hdr_view(kept@) =~= hdr_view(kept@.drop_last()).push((key@, value@)));
        }
        self.entries = kept;
    }

    /// Adds the pair at the end, keeping every existing pair.
    pub fn append(&mut self, key: &str, value: String)
        ensures
            final (self)@ == old(self)@.push((key@, value@)),
    {
        self.entries.push((key.to_owned(), value));
        proof {
            assert(hdr_view(self.entries@) =~= hdr_view(self.entries@.drop_last()).push(
                (key@, value@),
            ));
        }
    }

    /// The first value recorded under `key`.
    #[verifier::loop_isolation(false)]
    pub fn get(&self, key: &str) -> (r: Option<String>)
        ensures
            match r {
                Some(v) => hdr_lookup(self@, key@) == Some(v@),
                None => hdr_lookup(self@, key@) is None,
            },
    {
        let n = self.entries.len();
        let mut i: usize = 0;
        proof {
            assert(self@.skip(0) =~= self@);
        }
        while i < n
            invariant
                i <= n,
                n == self.entries@.len(),
                hdr_lookup(self@, key@) == hdr_lookup(self@.skip(i as int), key@),
            decreases n - i,
        {
            proof {
                assert(self@.skip(i as int)[0] == self@[i as int]);
                assert(self@.skip(i as int).drop_first() =~= self@.skip(i + 1));
            }
            if str_eq(self.entries[i].0.as_str(), key) {
                return Some(self.entries[i].1.clone());
            }
            i = i + 1;
        }
        proof {
            assert(self@.skip(n as int).len() == 0);
        }
        None
    }

    /// Whether some pair is recorded under `key`.
    pub fn contains_key(&self, key: &str) -> (r: bool)
        ensures
            r == (hdr_lookup(self@, key@) is Some),
    {
        match self.get(key) {
            Some(_) => true,
            None => false,
        }
    }
}

} // verus!
