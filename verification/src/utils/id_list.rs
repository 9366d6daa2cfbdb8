//! Lists of ids kept in order.
use vstd::prelude::*;

verus! {

/// Holds of every id but `id`.
pub open spec fn other_than(id: u128) -> spec_fn(u128) -> bool {
    |x: u128| x != id
}

/// A copy of a list of ids.
pub fn copy_ids(v: &Vec<u128>) -> (r: Vec<u128>)
    ensures
        r@ == v@,
{
    let mut r: Vec<u128> = Vec::new();
    let mut i: usize = 0;
    while i < v.len()
        invariant
            i <= v@.len(),
            r@ == v@.take(i as int),
        decreases v@.len() - i,
    {
        r.push(v[i]);
        assert(r@ =~= v@.take(i + 1));
        i = i + 1;
    }
    assert(r@ =~= v@);
    r
}

/// Whether `id` is in the list.
pub fn contains_id(v: &Vec<u128>, id: u128) -> (r: bool)
    ensures
        r == v@.contains(id),
{
    let mut i: usize = 0;
    while i < v.len()
        invariant
            i <= v@.len(),
            forall|j: int| 0 <= j < i ==> v@[j] != id,
        decreases v@.len() - i,
    {
        if v[i] == id {
            assert(v@[i as int] == id);
            return true;
        }
        i = i + 1;
    }
    false
}

/// The list without any occurrence of `id`, the others in the same order.
pub fn without_id(v: &Vec<u128>, id: u128) -> (r: Vec<u128>)
    ensures
        r@ == v@.filter(other_than(id)),
{
    let mut r: Vec<u128> = Vec::new();
    let mut i: usize = 0;
    assert(v@.take(0).filter(other_than(id)) =~= Seq::<u128>::empty()) by {
        reveal(Seq::filter);
    }
    while i < v.len()
        invariant
            i <= v@.len(),
            r@ == v@.take(i as int).filter(other_than(id)),
        decreases v@.len() - i,
    {
        let x = v[i];
        proof {
            assert(v@.take(i + 1) =~= v@.take(i as int).push(x));
            v@.take(i as int).lemma_filter_push(x, other_than(id));
        }
        if x != id {
            r.push(x);
        }
        i = i + 1;
    }
    assert(v@.take(v@.len() as int) =~= v@);
    r
}

/// Dropping `id` from a list keeps exactly the other ids, and adds no
/// duplicate.
pub proof fn lemma_without_id(s: Seq<u128>, id: u128)
    ensures
        forall|x: u128| #[trigger] s.filter(other_than(id)).contains(x) <==> (s.contains(x) && x != id),
        s.no_duplicates() ==> s.filter(other_than(id)).no_duplicates(),
    decreases s.len(),
{
    if s.len() == 0 {
        reveal(Seq::filter);
        assert(s.filter(other_than(id)) =~= s);
    } else {
        let t = s.drop_last();
        let last = s.last();
        lemma_without_id(t, id);
        assert(s =~= t.push(last));
        t.lemma_filter_push(last, other_than(id));
        let ft = t.filter(other_than(id));
        assert forall|x: u128| #[trigger] s.filter(other_than(id)).contains(x) <==> (s.contains(x) && x
            != id) by {
            if s.contains(x) && x != id {
                let i = choose|i: int| 0 <= i < s.len() && s[i] == x;
                if i < s.len() - 1 {
                    assert(t[i] == x);
                    assert(t.contains(x));
                } else {
                    assert(s.filter(other_than(id)) == ft.push(last));
                    assert(ft.push(last)[ft.len() as int] == x);
                }
            }
            if s.filter(other_than(id)).contains(x) {
                let i = choose|i: int|
                    0 <= i < s.filter(other_than(id)).len() && s.filter(other_than(id))[i] == x;
                if last != id && i == ft.len() {
                    assert(s[s.len() - 1] == x);
                } else {
                    assert(ft[i] == x);
                    assert(ft.contains(x));
                    let j = choose|j: int| 0 <= j < t.len() && t[j] == x;
                    assert(s[j] == x);
                }
            }
        }
        if s.no_duplicates() {
            assert(t.no_duplicates()) by {
                assert forall|i: int, j: int| 0 <= i < t.len() && 0 <= j < t.len() && i != j implies t[i]
                    != t[j] by {
                    assert(s[i] == t[i] && s[j] == t[j]);
                }
            }
            if last != id {
                assert(!ft.contains(last)) by {
                    if ft.contains(last) {
                        let j = choose|j: int| 0 <= j < t.len() && t[j] == last;
                        assert(s[j] == last && s[s.len() - 1] == last);
                    }
                }
                let fs = ft.push(last);
                assert forall|i: int, j: int| 0 <= i < fs.len() && 0 <= j < fs.len() && i != j implies fs[i]
                    != fs[j] by {
                    if i == ft.len() {
                        assert(ft[j] == fs[j]);
                        assert(ft.contains(fs[j]));
                    } else if j == ft.len() {
                        assert(ft[i] == fs[i]);
                        assert(ft.contains(fs[i]));
                    }
                }
            }
        }
    }
}

} // verus!
