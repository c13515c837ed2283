use vstd::prelude::*;
use crate::codec::starts_with;

verus! {

// ---------------------------------------------------------------------------
// Completion engine: filter the dictionary by a literal, case-sensitive
// prefix, keep dictionary order, and cap the result at 100 entries.
// ---------------------------------------------------------------------------

/// One completion candidate; label and insertion text are the same
/// dictionary word, untransformed.
pub struct CompletionItem {
    pub label: Vec<u8>,
    pub insert_text: Vec<u8>,
}

/// The dictionary entries that begin with `p`, in dictionary order.
pub open spec fn matches_of(dict: Seq<Seq<u8>>, p: Seq<u8>) -> Seq<Seq<u8>>
    decreases dict.len(),
{
    if dict.len() == 0 {
        Seq::empty()
    } else {
        let rest = matches_of(dict.drop_last(), p);
        if starts_with(dict.last(), p) {
            rest.push(dict.last())
        } else {
            rest
        }
    }
}

/// The hard cap on a completion response.
pub open spec fn cap100(s: Seq<Seq<u8>>) -> Seq<Seq<u8>> {
    if s.len() <= 100 {
        s
    } else {
        s.take(100)
    }
}

/// The words a completion request returns: the prefix matches, in dictionary
/// order, truncated to the first 100.
pub open spec fn complete_spec(dict: Seq<Seq<u8>>, p: Seq<u8>) -> Seq<Seq<u8>> {
    cap100(matches_of(dict, p))
}

/// Do the bytes of `w` begin with the bytes of `p`?
pub fn starts_with_bytes(w: &Vec<u8>, p: &Vec<u8>) -> (r: bool)
    ensures
        r == starts_with(w@, p@),
{
    let n = p.len();
    if w.len() < n {
        return false;
    }
    let mut i: usize = 0;
    while i < n
        invariant
            i <= n == p@.len(),
            n <= w@.len(),
            forall|j: int| 0 <= j < i ==> w@[j] == p@[j],
        decreases n - i,
    {
        if w[i] != p[i] {
            proof {
                assert(!starts_with(w@, p@)) by {
                    if starts_with(w@, p@) {
                        assert(w@.subrange(0, p@.len() as int)[i as int] == p@[i as int]);
                    }
                }
            }
            return false;
        }
        i += 1;
    }
    proof {
        assert(w@.subrange(0, p@.len() as int) =~= p@);
    }
    true
}

/// Pure query: the completion items for `prefix` over `dict`. Both label and
/// insertion text of each item are the matching word itself.
pub fn complete(dict: &Vec<Vec<u8>>, prefix: &Vec<u8>) -> (r: Vec<CompletionItem>)
    ensures
        r@.len() == complete_spec(dict.deep_view(), prefix@).len(),
        forall|j: int| 0 <= j < r@.len() ==> #[trigger] r@[j].label@ == complete_spec(
            dict.deep_view(),
            prefix@,
        )[j] && r@[j].insert_text@ == complete_spec(dict.deep_view(), prefix@)[j],
{
    let ghost dv = dict.deep_view();
    let ghost p = prefix@;
    let mut r: Vec<CompletionItem> = Vec::new();
    let mut i: usize = 0;
    let n = dict.len();
    proof {
        assert(dv.take(0) =~= Seq::<Seq<u8>>::empty());
    }
    while i < n
        invariant
            i <= n == dv.len(),
            dv == dict.deep_view(),
            p == prefix@,
            r@.len() == cap100(matches_of(dv.take(i as int), p)).len(),
            r@.len() <= 100,
            forall|j: int| 0 <= j < r@.len() ==> #[trigger] r@[j].label@ == matches_of(
                dv.take(i as int),
                p,
            )[j] && r@[j].insert_text@ == matches_of(dv.take(i as int), p)[j],
        decreases n - i,
    {
        let ghost m = matches_of(dv.take(i as int), p);
        proof {
            assert(dv.take(i + 1).drop_last() =~= dv.take(i as int));
            assert(dv.take(i + 1).last() == dv[i as int]);
            assert(dv[i as int] == dict@[i as int].deep_view());
            assert(dict@[i as int].deep_view() =~= dict@[i as int]@);
        }
        let w = &dict[i];
        let ghost r0 = r@;
        if starts_with_bytes(w, prefix) {
            if r.len() < 100 {
                let label = crate::codec::copy_range(w, 0, w.len());
                let insert_text = crate::codec::copy_range(w, 0, w.len());
                proof {
                    assert(label@ =~= dv[i as int]);
                    assert(insert_text@ =~= dv[i as int]);
                }
                r.push(CompletionItem { label, insert_text });
            }
            proof {
                let m1 = matches_of(dv.take(i + 1), p);
                assert(m1 == m.push(dv[i as int]));
                assert forall|j: int| 0 <= j < r@.len() implies #[trigger] r@[j].label@ == m1[j]
                    && r@[j].insert_text@ == m1[j] by {
                    if j < r0.len() {
                        assert(r@[j] == r0[j]);
                        assert(m1[j] == m[j]);
                    } else {
                        assert(r@[j] == r@.last());
                        assert(m1[j] == dv[i as int]);
                    }
                }
            }
        } else {
            proof {
                let m1 = matches_of(dv.take(i + 1), p);
                assert(m1 == m);
                assert forall|j: int| 0 <= j < r@.len() implies #[trigger] r@[j].label@ == m1[j]
                    && r@[j].insert_text@ == m1[j] by {
                    assert(r@[j].label@ == m[j]);
                    assert(r@[j].insert_text@ == m[j]);
                }
            }
        }
        i += 1;
    }
    proof {
        assert(dv.take(n as int) =~= dv);
    }
    r
}

} // verus!
