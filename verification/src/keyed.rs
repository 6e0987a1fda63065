//! A small map keyed by text, in which a later entry replaces an earlier one
//! under the same key.

use vstd::prelude::*;

verus! {

/// What a list of pairs maps each key to: the value of the last pair that
/// holds the key.
pub open spec fn pairs_map<V: View>(pairs: Seq<(String, V)>) -> Map<Seq<char>, V::V>
    decreases pairs.len(),
{
    if pairs.len() == 0 {
        Map::empty()
    } else {
        pairs_map(pairs.drop_last()).insert(pairs.last().0@, pairs.last().1@)
    }
}

/// A map from texts to values.
pub struct TextMap<V> {
    pairs: Vec<(String, V)>,
}

impl<V: View> View for TextMap<V> {
    type V = Map<Seq<char>, V::V>;

    closed spec fn view(&self) -> Map<Seq<char>, V::V> {
        pairs_map(self.pairs@)
    }
}

impl<V: View> TextMap<V> {
    /// The empty map.
    pub fn new() -> (made: Self)
        ensures
            made@ == Map::<Seq<char>, V::V>::empty(),
    {
        TextMap { pairs: Vec::new() }
    }

    /// Binds `key` to `value`; an earlier binding of `key` is replaced.
    pub fn insert(&mut self, key: String, value: V)
        ensures
            final(self)@ == old(self)@.insert(key@, value@),
    {
        let ghost before = self.pairs@;
        self.pairs.push((key, value));
        assert(self.pairs@.drop_last() =~= before);
    }

    /// The value bound to `key`, if there is one.
    pub fn get(&self, key: &String) -> (found: Option<&V>)
        ensures
            found is Some <==> self@.contains_key(key@),
            found matches Some(v) ==> v@ == self@[key@],
    {
        let mut i: usize = self.pairs.len();
        assert(self.pairs@.take(i as int) =~= self.pairs@);
        while i > 0
            invariant
                0 <= i <= self.pairs.len(),
                self@.contains_key(key@) <==> pairs_map(self.pairs@.take(i as int)).contains_key(
                    key@,
                ),
                self@.contains_key(key@) ==> self@[key@] == pairs_map(
                    self.pairs@.take(i as int),
                )[key@],
            decreases i,
        {
            let ghost prefix = self.pairs@.take(i as int);
            assert(prefix.drop_last() =~= self.pairs@.take(i - 1));
            assert(prefix.last() == self.pairs@[i - 1]);
            i -= 1;
            if self.pairs[i].0 == *key {
                return Some(&self.pairs[i].1);
            }
        }
        assert(self.pairs@.take(0) =~= Seq::<(String, V)>::empty());
        None
    }
}

} // verus!
