use vstd::prelude::*;
use crate::hash::bytes_equal;

verus! {

broadcast use vstd::seq_lib::group_seq_properties;

/// The byte sequences that a list of byte vectors holds.
pub open spec fn views(s: Seq<Vec<u8>>) -> Seq<Seq<u8>> {
    s.map_values(|x: Vec<u8>| x@)
}

/// The predicate "differs from `k`".
pub open spec fn differs(k: Seq<u8>) -> spec_fn(Seq<u8>) -> bool {
    |x: Seq<u8>| x != k
}

/// `s` with `k` added at the end unless it is there already.
pub open spec fn with_key(s: Seq<Seq<u8>>, k: Seq<u8>) -> Seq<Seq<u8>> {
    if s.contains(k) {
        s
    } else {
        s.push(k)
    }
}

pub proof fn lemma_with_key_no_duplicates(s: Seq<Seq<u8>>, k: Seq<u8>)
    requires
        s.no_duplicates(),
    ensures
        with_key(s, k).no_duplicates(),
        with_key(s, k).contains(k),
        forall|x: Seq<u8>| #[trigger] with_key(s, k).contains(x) <==> s.contains(x) || x == k,
{
    if !s.contains(k) {
        assert(s.push(k)[s.len() as int] == k);
        assert forall|x: Seq<u8>| #[trigger] s.push(k).contains(x) <==> s.contains(x) || x == k by {
            if s.push(k).contains(x) {
                let i = choose|i: int| 0 <= i < s.len() + 1 && s.push(k)[i] == x;
                if i < s.len() {
                    assert(s[i] == x);
                }
            }
            if s.contains(x) {
                let i = choose|i: int| 0 <= i < s.len() && s[i] == x;
                assert(s.push(k)[i] == x);
            }
        }
    }
}

/// Whether `v` holds `k`.
pub fn contains_bytes(v: &Vec<Vec<u8>>, k: &Vec<u8>) -> (r: bool)
    ensures
        r == views(v@).contains(k@),
{
    let mut i: usize = 0;
    while i < v.len()
        invariant
            0 <= i <= v@.len(),
            forall|j: int| 0 <= j < i ==> v@[j]@ != k@,
        decreases v@.len() - i,
    {
        if bytes_equal(&v[i], k) {
            assert(views(v@)[i as int] == k@);
            return true;
        }
        i = i + 1;
    }
    false
}

/// A copy of `v` without `k`.
pub fn without_bytes(v: &Vec<Vec<u8>>, k: &Vec<u8>) -> (r: Vec<Vec<u8>>)
    ensures
        views(r@) == views(v@).filter(differs(k@)),
{
    let mut out: Vec<Vec<u8>> = Vec::new();
    let mut i: usize = 0;
    while i < v.len()
        invariant
            0 <= i <= v@.len(),
            views(out@) == views(v@).take(i as int).filter(differs(k@)),
        decreases v@.len() - i,
    {
        let ghost before = out@;
        proof {
            assert(views(v@).take(i + 1) =~= views(v@).take(i as int).push(v@[i as int]@));
            views(v@).take(i as int).lemma_filter_push(v@[i as int]@, differs(k@));
        }
        if !bytes_equal(&v[i], k) {
            out.push(v[i].clone());
            assert(views(out@) =~= views(before).push(v@[i as int]@));
        }
        i = i + 1;
    }
    assert(views(v@).take(v@.len() as int) =~= views(v@));
    out
}

/// Adds `k` to `v` unless it is there already.
pub fn insert_bytes(v: &mut Vec<Vec<u8>>, k: &Vec<u8>)
    ensures
        views(final(v)@) == with_key(views(old(v)@), k@),
        views(old(v)@).no_duplicates() ==> views(final(v)@).no_duplicates(),
{
    proof {
        if views(v@).no_duplicates() {
            lemma_with_key_no_duplicates(views(v@), k@);
        }
    }
    if !contains_bytes(v, k) {
        let ghost before = v@;
        v.push(k.clone());
        assert(views(v@) =~= views(before).push(k@));
    }
}

} // verus!
