use crate::address::Address;
use crate::record::{absent_record, PlayerInfo, PlayerView};
use vstd::prelude::*;

verus! {

/// First-match lookup in a sequence of keyed records: the model of the
/// backing table, which answers every key with a stored record or, failing
/// that, with the absent default.
pub open spec fn lookup(s: Seq<(Address, PlayerInfo)>, a: Address) -> PlayerView
    decreases s.len(),
{
    if s.len() == 0 {
        absent_record()
    } else if s[0].0 == a {
        s[0].1@
    } else {
        lookup(s.skip(1), a)
    }
}

/// A key that occurs nowhere in the sequence looks up to the absent record.
pub proof fn lemma_lookup_absent(s: Seq<(Address, PlayerInfo)>, a: Address)
    requires
        forall|j: int| 0 <= j < s.len() ==> (#[trigger] s[j]).0 != a,
    ensures
        lookup(s, a) == absent_record(),
    decreases s.len(),
{
    if s.len() != 0 {
        assert forall|j: int| 0 <= j < s.skip(1).len() implies (#[trigger] s.skip(1)[j]).0 != a by {
            assert(s.skip(1)[j] == s[j + 1]);
        }
        lemma_lookup_absent(s.skip(1), a);
    }
}

/// A key whose first occurrence is at `i` looks up to the record stored there.
pub proof fn lemma_lookup_found(s: Seq<(Address, PlayerInfo)>, a: Address, i: int)
    requires
        0 <= i < s.len(),
        s[i].0 == a,
        forall|j: int| 0 <= j < i ==> (#[trigger] s[j]).0 != a,
    ensures
        lookup(s, a) == s[i].1@,
    decreases i,
{
    if i > 0 {
        assert(s[0].0 != a);
        assert(s.skip(1)[i - 1] == s[i]);
        assert forall|j: int| 0 <= j < i - 1 implies (#[trigger] s.skip(1)[j]).0 != a by {
            assert(s.skip(1)[j] == s[j + 1]);
        }
        lemma_lookup_found(s.skip(1), a, i - 1);
    }
}

/// Overwriting the first occurrence of a key changes that key's lookup to the
/// new record and no other key's lookup.
pub proof fn lemma_lookup_update(
    s: Seq<(Address, PlayerInfo)>,
    a: Address,
    i: int,
    r: PlayerInfo,
    b: Address,
)
    requires
        0 <= i < s.len(),
        s[i].0 == a,
        forall|j: int| 0 <= j < i ==> (#[trigger] s[j]).0 != a,
    ensures
        lookup(s.update(i, (a, r)), b) == if b == a {
            r@
        } else {
            lookup(s, b)
        },
    decreases s.len(),
{
    let t = s.update(i, (a, r));
    if i == 0 {
        if b != a {
            assert(t.skip(1) =~= s.skip(1));
        }
    } else {
        assert(t[0] == s[0]);
        if s[0].0 != b {
            assert(t.skip(1) =~= s.skip(1).update(i - 1, (a, r)));
            assert(s.skip(1)[i - 1] == s[i]);
            assert forall|j: int| 0 <= j < i - 1 implies (#[trigger] s.skip(1)[j]).0 != a by {
                assert(s.skip(1)[j] == s[j + 1]);
            }
            lemma_lookup_update(s.skip(1), a, i - 1, r, b);
        }
    }
}

/// Appending a record under a key that occurs nowhere in the sequence gives
/// that key the new record and leaves every other key's lookup as it was.
pub proof fn lemma_lookup_push(
    s: Seq<(Address, PlayerInfo)>,
    a: Address,
    r: PlayerInfo,
    b: Address,
)
    requires
        forall|j: int| 0 <= j < s.len() ==> (#[trigger] s[j]).0 != a,
    ensures
        lookup(s.push((a, r)), b) == if b == a {
            r@
        } else {
            lookup(s, b)
        },
    decreases s.len(),
{
    let t = s.push((a, r));
    if s.len() == 0 {
        assert(t[0] == (a, r));
        if b != a {
            reveal_with_fuel(lookup, 2);
            assert(t.skip(1).len() == 0);
        }
    } else {
        assert(t[0] == s[0]);
        assert(s[0].0 != a);
        if s[0].0 != b {
            assert(t.skip(1) =~= s.skip(1).push((a, r)));
            assert forall|j: int| 0 <= j < s.skip(1).len() implies (#[trigger] s.skip(1)[j]).0
                != a by {
                assert(s.skip(1)[j] == s[j + 1]);
            }
            lemma_lookup_push(s.skip(1), a, r, b);
        }
    }
}

} // verus!
