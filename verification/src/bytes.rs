//! Byte strings, and how many of them differ.

use vstd::prelude::*;

verus! {

/// The byte strings of some vectors.
pub open spec fn byte_strings(vectors: Seq<Vec<u8>>) -> Seq<Seq<u8>> {
    vectors.map_values(|v: Vec<u8>| v@)
}

/// How many different byte strings there are among some.
pub open spec fn unique_count(strings: Seq<Seq<u8>>) -> nat {
    strings.to_set().len()
}

/// Whether two byte strings are the same.
pub fn same_bytes(a: &[u8], b: &[u8]) -> (same: bool)
    ensures
        same == (a@ == b@),
{
    if a.len() != b.len() {
        return false;
    }
    let mut i: usize = 0;
    while i < a.len()
        invariant
            i <= a.len(),
            a.len() == b.len(),
            forall|j: int| 0 <= j < i ==> a@[j] == b@[j],
        decreases a.len() - i,
    {
        if a[i] != b[i] {
            return false;
        }
        i = i + 1;
    }
    assert(a@ =~= b@);
    true
}

/// Whether a byte string is among the first `end` of some.
fn is_among_first(bytes: &[u8], vectors: &Vec<Vec<u8>>, end: usize) -> (found: bool)
    requires
        end <= vectors@.len(),
    ensures
        found == byte_strings(vectors@).take(end as int).contains(bytes@),
{
    let ghost strings = byte_strings(vectors@).take(end as int);
    let mut i: usize = 0;
    while i < end
        invariant
            i <= end <= vectors@.len(),
            strings == byte_strings(vectors@).take(end as int),
            forall|j: int| 0 <= j < i ==> strings[j] != bytes@,
        decreases end - i,
    {
        assert(strings[i as int] == vectors@[i as int]@);
        if same_bytes(vectors[i].as_slice(), bytes) {
            return true;
        }
        i = i + 1;
    }
    false
}

/// How many different byte strings there are among some.
pub fn count_unique(vectors: &Vec<Vec<u8>>) -> (count: usize)
    ensures
        count == unique_count(byte_strings(vectors@)),
{
    let ghost strings = byte_strings(vectors@);
    let mut count: usize = 0;
    let mut i: usize = 0;
    assert(strings.take(0).to_set() =~= Set::empty());
    while i < vectors.len()
        invariant
            count <= i <= vectors.len(),
            strings == byte_strings(vectors@),
            count == strings.take(i as int).to_set().len(),
        decreases vectors.len() - i,
    {
        let seen = is_among_first(vectors[i].as_slice(), vectors, i);
        proof {
            let before = strings.take(i as int);
            let next = strings[i as int];
            assert(next == vectors@[i as int]@);
            assert(strings.take(i + 1) =~= before.push(next));
            before.lemma_push_to_set_commute(next);
            vstd::seq_lib::seq_to_set_is_finite(before);
            if seen {
                assert(before.to_set().insert(next) =~= before.to_set());
            }
        }
        if !seen {
            count = count + 1;
        }
        i = i + 1;
    }
    assert(strings.take(i as int) =~= strings);
    count
}

/// Nothing holds no byte string, and one byte string more counts exactly if it was not there yet.
pub proof fn only_new_byte_strings_count(strings: Seq<Seq<u8>>, next: Seq<u8>)
    ensures
        unique_count(Seq::empty()) == 0,
        unique_count(strings.push(next)) == unique_count(strings) + if strings.contains(next) {
            0int
        } else {
            1int
        },
{
    assert(Seq::<Seq<u8>>::empty().to_set() =~= Set::empty());
    strings.lemma_push_to_set_commute(next);
    vstd::seq_lib::seq_to_set_is_finite(strings);
    if strings.contains(next) {
        assert(strings.to_set().insert(next) =~= strings.to_set());
    }
}

/// Byte strings that all differ are each counted, and none is counted that is not there.
pub proof fn different_byte_strings_all_count(strings: Seq<Seq<u8>>)
    ensures
        unique_count(strings) <= strings.len(),
        strings.no_duplicates() ==> unique_count(strings) == strings.len(),
    decreases strings.len(),
{
    if strings.len() == 0 {
        assert(strings =~= Seq::empty());
        only_new_byte_strings_count(strings, Seq::empty());
    } else {
        let rest = strings.drop_last();
        different_byte_strings_all_count(rest);
        only_new_byte_strings_count(rest, strings.last());
        assert(rest.push(strings.last()) =~= strings);
        if strings.no_duplicates() && rest.contains(strings.last()) {
            let i = choose|i: int| 0 <= i < rest.len() && rest[i] == strings.last();
            assert(strings[i] == strings[strings.len() - 1]);
        }
    }
}

/// Of two lists of which the second has one byte string more, as many are counted in the second if
/// that byte string is in the first, and one more if it is not.
pub proof fn counting_goes_by_what_is_new(
    vectors: &Vec<Vec<u8>>,
    more: &Vec<Vec<u8>>,
    count: usize,
    more_count: usize,
)
    requires
        call_ensures(count_unique, (vectors,), count),
        call_ensures(count_unique, (more,), more_count),
        more@.len() == vectors@.len() + 1,
        forall|i: int| 0 <= i < vectors@.len() ==> (#[trigger] more@[i])@ == vectors@[i]@,
    ensures
        vectors@.len() == 0 ==> count == 0,
        more_count == count + if exists|i: int|
            0 <= i < vectors@.len() && (#[trigger] vectors@[i])@ == more@.last()@ {
            0int
        } else {
            1int
        },
{
    let strings = byte_strings(vectors@);
    let next = more@.last()@;
    assert forall|i: int| 0 <= i < strings.len() implies byte_strings(more@)[i] == strings[i] by {
        assert(more@[i]@ == vectors@[i]@);
    }
    assert(byte_strings(more@) =~= strings.push(next));
    only_new_byte_strings_count(strings, next);
    if vectors@.len() == 0 {
        assert(strings =~= Seq::empty());
    }
    if exists|i: int| 0 <= i < vectors@.len() && (#[trigger] vectors@[i])@ == next {
        let i = choose|i: int| 0 <= i < vectors@.len() && (#[trigger] vectors@[i])@ == next;
        assert(strings[i] == next);
    }
    if strings.contains(next) {
        let i = choose|i: int| 0 <= i < strings.len() && strings[i] == next;
        assert(vectors@[i]@ == next);
    }
}

/// Byte strings are the same exactly if they have the same length and the same byte at each place.
pub proof fn same_bytes_are_so_at_each_place(a: &[u8], b: &[u8], same: bool)
    requires
        call_ensures(same_bytes, (a, b), same),
    ensures
        same <==> a@.len() == b@.len() && forall|i: int|
            0 <= i < a@.len() ==> #[trigger] a@[i] == b@[i],
{
    if a@.len() == b@.len() && forall|i: int| 0 <= i < a@.len() ==> #[trigger] a@[i] == b@[i] {
        assert(a@ =~= b@);
    }
}

} // verus!
