//! Keyed lists, and trees of them that are read and written along a path of keys.
use vstd::prelude::*;

verus! {

/// The position of the first entry of `s` whose key is `key`, or the length of `s` where no entry
/// has that key.
pub open spec fn position<T>(s: Seq<(Seq<char>, T)>, key: Seq<char>) -> int
    decreases s.len(),
{
    if s.len() == 0 || s[0].0 == key {
        0
    } else {
        1 + position(s.drop_first(), key)
    }
}

/// Whether some entry of `s` has the key `key`.
pub open spec fn has_key<T>(s: Seq<(Seq<char>, T)>, key: Seq<char>) -> bool {
    position(s, key) < s.len()
}

/// Whether no two entries have the same key.
pub open spec fn distinct<T>(s: Seq<(Seq<char>, T)>) -> bool {
    forall|i: int, j: int| 0 <= i < j < s.len() ==> (#[trigger] s[i]).0 != (#[trigger] s[j]).0
}

/// What [`position`] says of the entries.
pub proof fn lemma_position<T>(s: Seq<(Seq<char>, T)>, key: Seq<char>)
    ensures
        0 <= position(s, key) <= s.len(),
        forall|i: int| 0 <= i < position(s, key) ==> (#[trigger] s[i]).0 != key,
        position(s, key) < s.len() ==> s[position(s, key)].0 == key,
    decreases s.len(),
{
    if s.len() != 0 && s[0].0 != key {
        let t = s.drop_first();
        lemma_position(t, key);
        assert forall|i: int| 0 <= i < position(s, key) implies (#[trigger] s[i]).0 != key by {
            if i > 0 {
                assert(t[i - 1] == s[i]);
            }
        }
    }
}

/// The position is the one index that [`lemma_position`] describes.
pub proof fn lemma_position_is<T>(s: Seq<(Seq<char>, T)>, key: Seq<char>, p: int)
    requires
        0 <= p <= s.len(),
        forall|i: int| 0 <= i < p ==> (#[trigger] s[i]).0 != key,
        p < s.len() ==> s[p].0 == key,
    ensures
        position(s, key) == p,
{
    lemma_position(s, key);
    let q = position(s, key);
    if q < p {
        assert(s[q].0 != key);
    } else if p < q {
        assert(s[p].0 != key);
    }
}

} // verus!
