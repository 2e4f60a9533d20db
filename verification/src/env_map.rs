//! The per-request CGI environment: a string-keyed map with unique keys,
//! kept as an association list so the spawn site can walk it directly.

use vstd::prelude::*;
use vstd::map::*;

verus! {

/// The map denoted by an association list, later entries overriding earlier.
pub open spec fn spec_assoc_map(s: Seq<(Seq<char>, Seq<char>)>) -> Map<Seq<char>, Seq<char>>
    decreases s.len(),
{
    if s.len() == 0 {
        Map::empty()
    } else {
        spec_assoc_map(s.drop_last()).insert(s.last().0, s.last().1)
    }
}

/// The views of a list of string pairs.
pub open spec fn spec_pair_views(s: Seq<(String, String)>) -> Seq<(Seq<char>, Seq<char>)> {
    s.map_values(|p: (String, String)| (p.0@, p.1@))
}

/// No two entries share a key.
pub open spec fn spec_keys_unique(s: Seq<(String, String)>) -> bool {
    forall|i: int, j: int| 0 <= i < j < s.len() ==> s[i].0@ != s[j].0@
}

/// The environment handed to the child process.
pub struct EnvMap {
    pairs: Vec<(String, String)>,
}

impl View for EnvMap {
    type V = Map<Seq<char>, Seq<char>>;

    closed spec fn view(&self) -> Map<Seq<char>, Seq<char>> {
        spec_assoc_map(spec_pair_views(self.pairs@))
    }
}

proof fn lemma_assoc_map_key(s: Seq<(Seq<char>, Seq<char>)>, k: Seq<char>)
    ensures
        spec_assoc_map(s).contains_key(k) <==> exists|i: int|
            0 <= i < s.len() && (#[trigger] s[i]).0 == k,
    decreases s.len(),
{
    if s.len() > 0 {
        lemma_assoc_map_key(s.drop_last(), k);
        if spec_assoc_map(s).contains_key(k) {
            if s.last().0 == k {
                assert(s[s.len() - 1].0 == k);
            } else {
                let i = choose|i: int| 0 <= i < s.len() - 1 && (#[trigger] s.drop_last()[i]).0 == k;
                assert(s[i].0 == k);
            }
        }
        if exists|i: int| 0 <= i < s.len() && (#[trigger] s[i]).0 == k {
            let i = choose|i: int| 0 <= i < s.len() && (#[trigger] s[i]).0 == k;
            if i < s.len() - 1 {
                assert(s.drop_last()[i].0 == k);
            }
        }
    }
}

/// Inserting for two distinct keys commutes.
proof fn lemma_insert_commutes(
    m: Map<Seq<char>, Seq<char>>,
    k1: Seq<char>,
    v1: Seq<char>,
    k2: Seq<char>,
    v2: Seq<char>,
)
    requires
        k1 != k2,
    ensures
        m.insert(k1, v1).insert(k2, v2) == m.insert(k2, v2).insert(k1, v1),
{
    assert_maps_equal!(m.insert(k1, v1).insert(k2, v2), m.insert(k2, v2).insert(k1, v1));
}

proof fn lemma_assoc_map_update(s: Seq<(String, String)>, i: int, k: String, v: String)
    requires
        0 <= i < s.len(),
        s[i].0@ == k@,
        spec_keys_unique(s),
    ensures
        spec_assoc_map(spec_pair_views(s.update(i, (k, v)))) == spec_assoc_map(
            spec_pair_views(s),
        ).insert(k@, v@),
    decreases s.len(),
{
    let su = s.update(i, (k, v));
    if i == s.len() - 1 {
        assert(spec_pair_views(su).drop_last() =~= spec_pair_views(s).drop_last());
        assert(spec_pair_views(su).last() == (k@, v@));
    } else {
        assert(spec_keys_unique(s.drop_last())) by {
            assert(forall|a: int, b: int|
                0 <= a < b < s.len() - 1 ==> (#[trigger] s.drop_last()[a]) == s[a]
                    && (#[trigger] s.drop_last()[b]) == s[b]);
        }
        assert(s.drop_last()[i] == s[i]);
        lemma_assoc_map_update(s.drop_last(), i, k, v);
        assert(su.drop_last() =~= s.drop_last().update(i, (k, v)));
        assert(spec_pair_views(su).drop_last() =~= spec_pair_views(s.drop_last().update(i, (k, v))));
        assert(spec_pair_views(s).drop_last() =~= spec_pair_views(s.drop_last()));
        assert(spec_pair_views(su).last() == (s.last().0@, s.last().1@));
        assert(s.last().0@ != k@);
        lemma_insert_commutes(
            spec_assoc_map(spec_pair_views(s.drop_last())),
            k@,
            v@,
            s.last().0@,
            s.last().1@,
        );
    }
}

impl EnvMap {
    /// Whether the entry list holds each key at most once.
    pub closed spec fn wf(&self) -> bool {
        spec_keys_unique(self.pairs@)
    }

    /// An empty environment.
    pub fn new() -> (r: EnvMap)
        ensures
            r@ == Map::<Seq<char>, Seq<char>>::empty(),
            r.wf(),
    {
        EnvMap { pairs: Vec::new() }
    }

    /// Writes `k = v`, replacing any earlier value of `k`.
    #[verifier::loop_isolation(false)]
    pub fn insert(&mut self, k: String, v: String)
        requires
            old(self).wf(),
        ensures
            final(self).wf(),
            final(self)@ == old(self)@.insert(k@, v@),
    {
        let n = self.pairs.len();
        let mut i: usize = 0;
        while i < n
            invariant
                n == self.pairs@.len(),
                0 <= i <= n,
                self == old(self),
                forall|j: int| 0 <= j < i ==> (#[trigger] self.pairs@[j]).0@ != k@,
            decreases n - i,
        {
            if self.pairs[i].0 == k {
                let ghost sold = self.pairs@;
                self.pairs[i] = (k, v);
                proof {
                    assert(self.pairs@ =~= sold.update(i as int, self.pairs@[i as int]));
                    lemma_assoc_map_update(sold, i as int, self.pairs@[i as int].0, self.pairs@[i as int].1);
                    assert(spec_keys_unique(self.pairs@));
                }
                return ;
            }
            i += 1;
        }
        let ghost sold = self.pairs@;
        self.pairs.push((k, v));
        proof {
            assert(spec_pair_views(self.pairs@).drop_last() =~= spec_pair_views(sold));
            assert(spec_pair_views(self.pairs@).last() == (k@, v@));
            assert forall|a: int, b: int| 0 <= a < b < self.pairs@.len() implies (
            self.pairs@[a]).0@ != (self.pairs@[b]).0@ by {
                if b == self.pairs@.len() - 1 {
                    assert(self.pairs@[a] == sold[a]);
                }
            }
        }
    }

    /// Looks a key up, as the map view says.
    #[verifier::loop_isolation(false)]
    pub fn get(&self, k: &String) -> (r: Option<&String>)
        requires
            self.wf(),
        ensures
            match r {
                Some(v) => self@.contains_key(k@) && self@[k@] == v@,
                None => !self@.contains_key(k@),
            },
    {
        let n = self.pairs.len();
        let mut i: usize = 0;
        while i < n
            invariant
                n == self.pairs@.len(),
                0 <= i <= n,
                self.wf(),
                forall|j: int| 0 <= j < i ==> (#[trigger] self.pairs@[j]).0@ != k@,
            decreases n - i,
        {
            if self.pairs[i].0.eq(k) {
                proof {
                    lemma_assoc_value(self.pairs@, i as int);
                }
                return Some(&self.pairs[i].1);
            }
            i += 1;
        }
        proof {
            lemma_assoc_map_key(spec_pair_views(self.pairs@), k@);
        }
        None
    }

    /// Plays an ordered list of writes into a fresh environment.
    #[verifier::loop_isolation(false)]
    pub fn from_writes(w: &Vec<(String, String)>) -> (r: EnvMap)
        ensures
            r.wf(),
            r@ == spec_assoc_map(spec_pair_views(w@)),
    {
        let mut r = EnvMap::new();
        let n = w.len();
        let mut i: usize = 0;
        while i < n
            invariant
                0 <= i <= n,
                n == w@.len(),
                r.wf(),
                r@ == spec_assoc_map(spec_pair_views(w@.take(i as int))),
            decreases n - i,
        {
            let k = w[i].0.clone();
            let v = w[i].1.clone();
            r.insert(k, v);
            proof {
                assert(spec_pair_views(w@.take(i + 1)).drop_last() =~= spec_pair_views(
                    w@.take(i as int),
                ));
                assert(spec_pair_views(w@.take(i + 1)).last() == (w@[i as int].0@, w@[i as int].1@));
            }
            i += 1;
        }
        proof {
            assert(w@.take(n as int) =~= w@);
        }
        r
    }

    /// The entry list itself, for the site that spawns the child.
    pub fn entries(&self) -> (r: &Vec<(String, String)>)
        ensures
            self@ == spec_assoc_map(spec_pair_views(r@)),
            self.wf() ==> spec_keys_unique(r@),
    {
        &self.pairs
    }

    /// How many keys are set.
    pub fn len(&self) -> (n: usize)
        ensures
            n == self.pairs_len(),
    {
        self.pairs.len()
    }

    /// The number of entries in the list form.
    pub closed spec fn pairs_len(&self) -> nat {
        self.pairs@.len()
    }
}

/// Later write stages override earlier ones: a key written in the later
/// block keeps the later block's value, and a key only the earlier block
/// wrote keeps the earlier one's.
pub proof fn lemma_later_writes_override(
    w1: Seq<(Seq<char>, Seq<char>)>,
    w2: Seq<(Seq<char>, Seq<char>)>,
    k: Seq<char>,
)
    ensures
        spec_assoc_map(w1 + w2).contains_key(k) <==> (spec_assoc_map(w1).contains_key(k)
            || spec_assoc_map(w2).contains_key(k)),
        spec_assoc_map(w2).contains_key(k) ==> spec_assoc_map(w1 + w2)[k] == spec_assoc_map(w2)[k],
        !spec_assoc_map(w2).contains_key(k) && spec_assoc_map(w1).contains_key(k)
            ==> spec_assoc_map(w1 + w2)[k] == spec_assoc_map(w1)[k],
    decreases w2.len(),
{
    if w2.len() == 0 {
        assert(w1 + w2 =~= w1);
    } else {
        lemma_later_writes_override(w1, w2.drop_last(), k);
        assert((w1 + w2).drop_last() =~= w1 + w2.drop_last());
        assert((w1 + w2).last() == w2.last());
    }
}

/// In a unique-keyed list, the map's value at entry `i`'s key is entry `i`'s value.
proof fn lemma_assoc_value(s: Seq<(String, String)>, i: int)
    requires
        0 <= i < s.len(),
        spec_keys_unique(s),
    ensures
        spec_assoc_map(spec_pair_views(s)).contains_key(s[i].0@),
        spec_assoc_map(spec_pair_views(s))[s[i].0@] == s[i].1@,
    decreases s.len(),
{
    if i == s.len() - 1 {
        assert(spec_pair_views(s).last() == (s[i].0@, s[i].1@));
    } else {
        lemma_assoc_value(s.drop_last(), i);
        assert(s.drop_last()[i] == s[i]);
        assert(spec_pair_views(s.drop_last()) =~= spec_pair_views(s).drop_last());
        assert(s.last().0@ != s[i].0@);
    }
}

} // verus!
