use vstd::prelude::*;

verus! {

/// The map that a list of pairs stands for: a later pair replaces an earlier
/// one with the same key.
pub open spec fn pairs_map(pairs: Seq<(Seq<char>, Seq<char>)>) -> Map<Seq<char>, Seq<char>>
    decreases pairs.len(),
{
    if pairs.len() == 0 {
        Map::empty()
    } else {
        pairs_map(pairs.drop_last()).insert(pairs.last().0, pairs.last().1)
    }
}

/// A key that no pair holds is not in the map.
pub proof fn lemma_pairs_map_absent(pairs: Seq<(Seq<char>, Seq<char>)>, key: Seq<char>)
    requires
        forall|j: int| 0 <= j < pairs.len() ==> pairs[j].0 != key,
    ensures
        !pairs_map(pairs).contains_key(key),
    decreases pairs.len(),
{
    if pairs.len() > 0 {
        lemma_pairs_map_absent(pairs.drop_last(), key);
    }
}

/// The last pair that holds a key gives its value.
pub proof fn lemma_pairs_map_last(pairs: Seq<(Seq<char>, Seq<char>)>, key: Seq<char>, i: int)
    requires
        0 <= i < pairs.len(),
        pairs[i].0 == key,
        forall|j: int| i < j < pairs.len() ==> pairs[j].0 != key,
    ensures
        pairs_map(pairs).contains_key(key),
        pairs_map(pairs)[key] == pairs[i].1,
    decreases pairs.len(),
{
    if i < pairs.len() - 1 {
        lemma_pairs_map_last(pairs.drop_last(), key, i);
    }
}

/// The map of two lists, one after the other, is the map of the first with
/// the map of the second laid over it.
pub proof fn lemma_pairs_map_concat(
    a: Seq<(Seq<char>, Seq<char>)>,
    b: Seq<(Seq<char>, Seq<char>)>,
)
    ensures
        pairs_map(a + b) == pairs_map(a).union_prefer_right(pairs_map(b)),
    decreases b.len(),
{
    if b.len() == 0 {
        assert(a + b =~= a);
        assert(pairs_map(a).union_prefer_right(pairs_map(b)) =~= pairs_map(a));
    } else {
        assert((a + b).drop_last() =~= a + b.drop_last());
        lemma_pairs_map_concat(a, b.drop_last());
        assert(pairs_map(a + b) =~= pairs_map(a).union_prefer_right(pairs_map(b)));
    }
}

/// A map from strings to strings.
pub struct StrMap {
    entries: Vec<(String, String)>,
}

impl View for StrMap {
    type V = Map<Seq<char>, Seq<char>>;

    closed spec fn view(&self) -> Map<Seq<char>, Seq<char>> {
        pairs_map(self.pairs())
    }
}

impl StrMap {
    /// The pairs that were inserted, in their order.
    pub closed spec fn pairs(&self) -> Seq<(Seq<char>, Seq<char>)> {
        Seq::new(self.entries@.len(), |i: int| (self.entries@[i].0@, self.entries@[i].1@))
    }

    /// An empty map.
    pub fn new() -> (m: StrMap)
        ensures
            m@ == Map::<Seq<char>, Seq<char>>::empty(),
            m.pairs().len() == 0,
    {
        let m = StrMap { entries: Vec::new() };
        assert(m.pairs() =~= Seq::empty());
        m
    }

    /// Sets the value of `key` to `value`.
    pub fn insert(&mut self, key: String, value: String)
        ensures
            final(self)@ == old(self)@.insert(key@, value@),
            final(self).pairs() == old(self).pairs().push((key@, value@)),
    {
        let ghost k = key@;
        let ghost v = value@;
        self.entries.push((key, value));
        assert(self.pairs() =~= old(self).pairs().push((k, v)));
        assert(self.pairs().drop_last() =~= old(self).pairs());
    }

    /// The value of `key`, if it has one.
    pub fn get(&self, key: &str) -> (r: Option<&String>)
        ensures
            match r {
                Some(v) => self@.contains_key(key@) && v@ == self@[key@],
                None => !self@.contains_key(key@),
            },
    {
        let k = key.to_owned();
        let mut i = self.entries.len();
        while i > 0
            invariant
                i <= self.entries@.len(),
                k@ == key@,
                forall|j: int| i <= j < self.entries@.len() ==> self.pairs()[j].0 != key@,
            decreases i,
        {
            i -= 1;
            if self.entries[i].0 == k {
                proof {
                    lemma_pairs_map_last(self.pairs(), key@, i as int);
                }
                return Some(&self.entries[i].1);
            }
        }
        proof {
            lemma_pairs_map_absent(self.pairs(), key@);
        }
        None
    }

    /// Whether the map has no key.
    pub fn is_empty(&self) -> (r: bool)
        ensures
            r == (self@ == Map::<Seq<char>, Seq<char>>::empty()),
            r == (self.pairs().len() == 0),
    {
        proof {
            if self.entries@.len() > 0 {
                assert(self@.contains_key(self.pairs().last().0));
            }
        }
        self.entries.len() == 0
    }

    /// Lays the values of `other` over those of the map.
    pub fn extend(&mut self, other: &StrMap)
        ensures
            final(self)@ == old(self)@.union_prefer_right(other@),
            final(self).pairs() == old(self).pairs() + other.pairs(),
    {
        let mut i: usize = 0;
        while i < other.entries.len()
            invariant
                i <= other.entries@.len(),
                self.pairs() =~= old(self).pairs() + other.pairs().subrange(0, i as int),
            decreases other.entries@.len() - i,
        {
            let ghost before = self.pairs();
            let key = other.entries[i].0.clone();
            let value = other.entries[i].1.clone();
            self.insert(key, value);
            assert(other.pairs().subrange(0, i + 1) =~= other.pairs().subrange(0, i as int).push(
                other.pairs()[i as int],
            ));
            i += 1;
        }
        proof {
            assert(other.pairs().subrange(0, i as int) =~= other.pairs());
            lemma_pairs_map_concat(old(self).pairs(), other.pairs());
        }
    }
}

} // verus!
