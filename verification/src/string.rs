//! Interned strings.

use vstd::prelude::*;
use vstd::string::*;

use crate::text::same_bytes;

verus! {

/// The place of the first string that holds the given bytes, counting from `from`;
/// the number of strings where there is none.
pub open spec fn find(strings: Seq<Seq<u8>>, bytes: Seq<u8>, from: int) -> int
    decreases strings.len() - from,
{
    if from >= strings.len() || strings[from] == bytes {
        from
    } else {
        find(strings, bytes, from + 1)
    }
}

/// No two places hold the same string.
pub open spec fn distinct(strings: Seq<Seq<u8>>) -> bool {
    forall|i: int, j: int|
        0 <= i < j < strings.len() ==> #[trigger] strings[i] != #[trigger] strings[j]
}

/// The place that the bytes have once they are interned.
pub open spec fn interned_at(strings: Seq<Seq<u8>>, bytes: Seq<u8>) -> int {
    find(strings, bytes, 0)
}

/// The strings once the bytes are interned.
pub open spec fn interned(strings: Seq<Seq<u8>>, bytes: Seq<u8>) -> Seq<Seq<u8>> {
    if strings.contains(bytes) {
        strings
    } else {
        strings.push(bytes)
    }
}

/// A set of byte strings, each of which has a place.
pub struct InternedStringSet {
    strings: Vec<Vec<u8>>,
}

impl View for InternedStringSet {
    type V = Seq<Seq<u8>>;

    closed spec fn view(&self) -> Seq<Seq<u8>> {
        self.strings@.map_values(|s: Vec<u8>| s@)
    }
}

proof fn find_bounds(strings: Seq<Seq<u8>>, bytes: Seq<u8>, from: int)
    requires
        0 <= from <= strings.len(),
    ensures
        from <= find(strings, bytes, from) <= strings.len(),
        find(strings, bytes, from) < strings.len() ==> strings[find(strings, bytes, from)] == bytes,
        forall|j: int| from <= j < find(strings, bytes, from) ==> strings[j] != bytes,
    decreases strings.len() - from,
{
    if from < strings.len() && strings[from] != bytes {
        find_bounds(strings, bytes, from + 1);
    }
}

/// What interning keeps and gives: the strings stay distinct, those that were
/// there keep their places, and the bytes have theirs.
pub proof fn interning(strings: Seq<Seq<u8>>, bytes: Seq<u8>)
    requires
        distinct(strings),
    ensures
        distinct(interned(strings, bytes)),
        strings.is_prefix_of(interned(strings, bytes)),
        0 <= interned_at(strings, bytes) < interned(strings, bytes).len(),
        interned(strings, bytes)[interned_at(strings, bytes)] == bytes,
        strings.contains(bytes) <==> interned_at(strings, bytes) < strings.len(),
        interned(strings, bytes).contains(bytes),
{
    find_bounds(strings, bytes, 0);
    let k = find(strings, bytes, 0);
    let after = interned(strings, bytes);
    if strings.contains(bytes) {
        let j = choose|j: int| 0 <= j < strings.len() && strings[j] == bytes;
        assert(k <= j);
    } else {
        if k < strings.len() {
            assert(strings.contains(strings[k]));
        }
        assert forall|i: int, j: int| 0 <= i < j < after.len() implies #[trigger] after[i]
            != #[trigger] after[j] by {
            if j == strings.len() {
                assert(strings.contains(strings[i]));
            }
        }
    }
    assert(after[k] == bytes);
}

/// Two byte strings get the same place exactly when they are equal.
pub proof fn same_place_same_bytes(strings: Seq<Seq<u8>>, a: Seq<u8>, b: Seq<u8>)
    requires
        distinct(strings),
    ensures
        interned_at(strings, a) == interned_at(interned(strings, a), b) <==> a == b,
{
    interning(strings, a);
    interning(interned(strings, a), b);
    let after = interned(strings, a);
    let p = interned_at(strings, a);
    let q = interned_at(after, b);
    assert(after.contains(a));
    if a == b {
        assert(after[q] == after[p]);
    }
}

impl InternedStringSet {
    /// A set with no strings.
    pub fn new() -> (r: InternedStringSet)
        ensures
            r@ == Seq::<Seq<u8>>::empty(),
    {
        let r: InternedStringSet = InternedStringSet { strings: Vec::new() };
        assert(r@ =~= Seq::<Seq<u8>>::empty());
        r
    }

    /// No set holds strings beyond the size of the address space.
    pub proof fn len_in_range(&self)
        ensures
            self@.len() <= usize::MAX,
    {
        assert(self.strings.len() <= usize::MAX);
    }

    /// The number of strings.
    pub fn len(&self) -> (r: usize)
        ensures
            r == self@.len(),
    {
        self.strings.len()
    }

    /// The string at a place.
    pub fn get(&self, place: usize) -> (r: &[u8])
        requires
            place < self@.len(),
        ensures
            r@ == self@[place as int],
    {
        self.strings[place].as_slice()
    }

    /// The place of the bytes, which are added where they are not there yet.
    pub fn intern(&mut self, bytes: &[u8]) -> (r: usize)
        requires
            distinct(old(self)@),
        ensures
            r == interned_at(old(self)@, bytes@),
            final(self)@ == interned(old(self)@, bytes@),
            distinct(final(self)@),
    {
        proof {
            interning(self@, bytes@);
        }
        let n: usize = self.strings.len();
        let mut i: usize = 0;
        while i < n
            invariant
                n == self.strings@.len(),
                i <= n,
                self@ == old(self)@,
                distinct(old(self)@),
                find(self@, bytes@, 0) == find(self@, bytes@, i as int),
            decreases n - i,
        {
            assert(self.strings@[i as int]@ == self@[i as int]);
            if same_bytes(self.strings[i].as_slice(), bytes) {
                proof {
                    interning(self@, bytes@);
                }
                return i;
            }
            i = i + 1;
        }
        let mut copy: Vec<u8> = Vec::new();
        let m: usize = bytes.len();
        let mut k: usize = 0;
        while k < m
            invariant
                m == bytes@.len(),
                k <= m,
                copy@ == bytes@.subrange(0, k as int),
            decreases m - k,
        {
            copy.push(bytes[k]);
            assert(copy@ =~= bytes@.subrange(0, k + 1));
            k = k + 1;
        }
        assert(copy@ =~= bytes@);
        proof {
            interning(self@, bytes@);
        }
        self.strings.push(copy);
        assert(self@ =~= old(self)@.push(bytes@));
        n
    }

    /// Whether the string at a place holds the given text.
    pub fn is_text(&self, place: usize, text: &str) -> (r: bool)
        requires
            place < self@.len(),
        ensures
            r == (self@[place as int] == text.spec_bytes()),
    {
        same_bytes(self.get(place), text.as_bytes())
    }
}

} // verus!
