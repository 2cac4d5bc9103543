//! The order of texts, and sorted lists without repetition.

use crate::text::{chars_of, code_of, str_eq, texts};
use vstd::prelude::*;

verus! {

/// `a` comes before `b` in the order of texts: at the first difference the
/// smaller character decides, and a proper prefix comes first.
pub open spec fn before(a: Seq<char>, b: Seq<char>) -> bool
    decreases a.len(),
{
    if b.len() == 0 {
        false
    } else if a.len() == 0 {
        true
    } else if a[0] == b[0] {
        before(a.skip(1), b.skip(1))
    } else {
        (a[0] as int) < (b[0] as int)
    }
}

/// Whether the text `a` comes before the text `b`.
pub fn is_before(a: &str, b: &str) -> (r: bool)
    ensures
        r == before(a@, b@),
{
    let left: Vec<char> = chars_of(a);
    let right: Vec<char> = chars_of(b);
    let mut i: usize = 0;
    assert(left@.skip(0) =~= left@);
    assert(right@.skip(0) =~= right@);
    while i < left.len() && i < right.len()
        invariant
            i <= left@.len(),
            i <= right@.len(),
            left@ == a@,
            right@ == b@,
            before(left@.skip(i as int), right@.skip(i as int)) == before(a@, b@),
        decreases left@.len() - i,
    {
        if left[i] != right[i] {
            return code_of(left[i]) < code_of(right[i]);
        }
        assert(left@.skip(i as int).skip(1) =~= left@.skip(i + 1));
        assert(right@.skip(i as int).skip(1) =~= right@.skip(i + 1));
        i += 1;
    }
    i < right.len()
}

/// No text comes before itself.
pub proof fn before_irreflexive(a: Seq<char>)
    ensures
        !before(a, a),
    decreases a.len(),
{
    if a.len() > 0 {
        before_irreflexive(a.skip(1));
    }
}

/// The order of texts is transitive.
pub proof fn before_transitive(a: Seq<char>, b: Seq<char>, c: Seq<char>)
    requires
        before(a, b),
        before(b, c),
    ensures
        before(a, c),
    decreases a.len(),
{
    if a.len() > 0 && a[0] == b[0] && b[0] == c[0] {
        before_transitive(a.skip(1), b.skip(1), c.skip(1));
    }
}

/// Of two different texts one comes before the other.
pub proof fn before_total(a: Seq<char>, b: Seq<char>)
    ensures
        a == b || before(a, b) || before(b, a),
    decreases a.len(),
{
    if a.len() == 0 && b.len() == 0 {
        assert(a =~= b);
    } else if a.len() > 0 && b.len() > 0 && a[0] == b[0] {
        before_total(a.skip(1), b.skip(1));
        if a.skip(1) == b.skip(1) {
            assert(a =~= seq![a[0]] + a.skip(1));
            assert(b =~= seq![b[0]] + b.skip(1));
        }
    }
}

/// The list rises strictly.
pub open spec fn rising(list: Seq<Seq<char>>) -> bool {
    forall|i: int, j: int| 0 <= i < j < list.len() ==> before(#[trigger] list[i], #[trigger] list[j])
}

/// The rising list `list` with `x` put at its place, unless it is there already.
pub open spec fn with_inserted(list: Seq<Seq<char>>, x: Seq<char>) -> Seq<Seq<char>>
    decreases list.len(),
{
    if list.len() == 0 {
        seq![x]
    } else if list[0] == x {
        list
    } else if before(x, list[0]) {
        seq![x] + list
    } else {
        seq![list[0]] + with_inserted(list.skip(1), x)
    }
}

/// The distinct texts of `list` in rising order.
pub open spec fn sorted_distinct(list: Seq<Seq<char>>) -> Seq<Seq<char>>
    decreases list.len(),
{
    if list.len() == 0 {
        Seq::empty()
    } else {
        with_inserted(sorted_distinct(list.drop_last()), list.last())
    }
}

/// Skipping entries that come before `x` does not change where it goes.
proof fn lemma_insert_at(list: Seq<Seq<char>>, x: Seq<char>, k: int)
    requires
        0 <= k <= list.len(),
        forall|j: int| 0 <= j < k ==> list[j] != x && !before(x, #[trigger] list[j]),
    ensures
        with_inserted(list, x) == list.take(k) + with_inserted(list.skip(k), x),
    decreases k,
{
    if k == 0 {
        assert(list.skip(0) =~= list);
        assert(with_inserted(list, x) =~= list.take(0) + with_inserted(list.skip(0), x));
    } else {
        let rest = list.skip(1);
        assert forall|j: int| 0 <= j < k - 1 implies rest[j] != x && !before(
            x,
            #[trigger] rest[j],
        ) by {
            assert(rest[j] == list[j + 1]);
        }
        lemma_insert_at(rest, x, k - 1);
        assert(list[0] != x && !before(x, list[0]));
        assert(rest.skip(k - 1) =~= list.skip(k));
        assert(with_inserted(list, x) =~= list.take(k) + with_inserted(list.skip(k), x)) by {
            assert(list.take(k) =~= seq![list[0]] + rest.take(k - 1));
        }
    }
}

/// Puts `x` at its place in a rising list, unless it is there already.
pub fn insert_sorted(list: &mut Vec<String>, x: String)
    ensures
        texts(final(list)@) == with_inserted(texts(old(list)@), x@),
{
    let ghost all = texts(list@);
    let mut k: usize = 0;
    while k < list.len()
        invariant
            k <= list@.len(),
            all == texts(list@),
            list@ == old(list)@,
            forall|j: int| 0 <= j < k ==> all[j] != x@ && !before(x@, #[trigger] all[j]),
        decreases list@.len() - k,
    {
        if str_eq(list[k].as_str(), x.as_str()) {
            proof {
                lemma_insert_at(all, x@, k as int);
                assert(all.skip(k as int)[0] == x@);
                assert(all.take(k as int) + all.skip(k as int) =~= all);
            }
            return;
        }
        if is_before(x.as_str(), list[k].as_str()) {
            proof {
                lemma_insert_at(all, x@, k as int);
                assert(all.skip(k as int)[0] == list@[k as int]@);
                assert(all.take(k as int) + (seq![x@] + all.skip(k as int)) =~= all.insert(
                    k as int,
                    x@,
                ));
            }
            list.insert(k, x);
            assert(texts(list@) =~= all.insert(k as int, x@));
            return;
        }
        k += 1;
    }
    proof {
        lemma_insert_at(all, x@, k as int);
        assert(all.take(k as int) + seq![x@] =~= all.push(x@));
    }
    list.push(x);
    assert(texts(list@) =~= all.push(x@));
}

/// The distinct strings of `list` in rising order.
pub fn sort_distinct(list: &Vec<String>) -> (r: Vec<String>)
    ensures
        texts(r@) == sorted_distinct(texts(list@)),
{
    let mut out: Vec<String> = Vec::new();
    let ghost all = texts(list@);
    let mut i: usize = 0;
    assert(texts(out@) =~= sorted_distinct(all.take(0)));
    while i < list.len()
        invariant
            i <= list@.len(),
            all == texts(list@),
            texts(out@) == sorted_distinct(all.take(i as int)),
        decreases list@.len() - i,
    {
        assert(all.take(i + 1).drop_last() =~= all.take(i as int));
        assert(all.take(i + 1).last() == list@[i as int]@);
        insert_sorted(&mut out, list[i].clone());
        i += 1;
    }
    assert(all.take(list@.len() as int) =~= all);
    out
}

/// Inserting keeps the list rising, and adds `x` and nothing else.
proof fn lemma_insert_rising(list: Seq<Seq<char>>, x: Seq<char>)
    requires
        rising(list),
    ensures
        rising(with_inserted(list, x)),
        forall|y: Seq<char>| #[trigger]
            with_inserted(list, x).contains(y) <==> y == x || list.contains(y),
    decreases list.len(),
{
    let out = with_inserted(list, x);
    if list.len() == 0 {
        assert(out =~= seq![x]);
        assert(out[0] == x);
    } else if list[0] == x {
        assert(list.contains(x));
    } else if before(x, list[0]) {
        assert forall|i: int, j: int| 0 <= i < j < out.len() implies before(
            #[trigger] out[i],
            #[trigger] out[j],
        ) by {
            if i == 0 {
                assert(out[j] == list[j - 1]);
                if j > 1 {
                    before_transitive(x, list[0], list[j - 1]);
                }
            } else {
                assert(out[i] == list[i - 1] && out[j] == list[j - 1]);
            }
        }
        assert forall|y: Seq<char>| #[trigger] out.contains(y) <==> y == x || list.contains(y) by {
            if list.contains(y) {
                let k: int = list.index_of(y);
                assert(out[k + 1] == y);
            }
            assert(out[0] == x);
            if out.contains(y) && y != x {
                let k: int = out.index_of(y);
                assert(list[k - 1] == y);
            }
        }
    } else {
        let rest = list.skip(1);
        assert forall|i: int, j: int| 0 <= i < j < rest.len() implies before(
            #[trigger] rest[i],
            #[trigger] rest[j],
        ) by {
            assert(rest[i] == list[i + 1] && rest[j] == list[j + 1]);
        }
        lemma_insert_rising(rest, x);
        before_total(x, list[0]);
        let tail = with_inserted(rest, x);
        assert forall|y: Seq<char>| tail.contains(y) implies before(list[0], y) by {
            if y != x {
                assert(rest.contains(y));
                let k: int = rest.index_of(y);
                assert(list[k + 1] == y);
            }
        }
        assert forall|i: int, j: int| 0 <= i < j < out.len() implies before(
            #[trigger] out[i],
            #[trigger] out[j],
        ) by {
            assert(out[j] == tail[j - 1]);
            if i == 0 {
                assert(tail.contains(tail[j - 1]));
            } else {
                assert(out[i] == tail[i - 1]);
            }
        }
        assert forall|y: Seq<char>| #[trigger] out.contains(y) <==> y == x || list.contains(y) by {
            if out.contains(y) {
                let k: int = out.index_of(y);
                if k > 0 {
                    assert(tail[k - 1] == y);
                    assert(tail.contains(y));
                    if y != x {
                        let m: int = rest.index_of(y);
                        assert(list[m + 1] == y);
                    }
                } else {
                    assert(list[0] == y);
                }
            }
            if y == x || list.contains(y) {
                if list.contains(y) {
                    let k: int = list.index_of(y);
                    if k == 0 {
                        assert(out[0] == y);
                    } else {
                        assert(rest[k - 1] == y);
                        assert(rest.contains(y));
                    }
                }
                if tail.contains(y) {
                    let k: int = tail.index_of(y);
                    assert(out[k + 1] == y);
                }
            }
        }
    }
}

/// `sorted_distinct` rises strictly and holds exactly the texts of its argument.
pub proof fn sorted_distinct_is_sorted_set(list: Seq<Seq<char>>)
    ensures
        rising(sorted_distinct(list)),
        forall|y: Seq<char>| #[trigger] sorted_distinct(list).contains(y) <==> list.contains(y),
    decreases list.len(),
{
    if list.len() > 0 {
        sorted_distinct_is_sorted_set(list.drop_last());
        lemma_insert_rising(sorted_distinct(list.drop_last()), list.last());
        assert forall|y: Seq<char>| #[trigger] sorted_distinct(list).contains(y) <==> list.contains(
            y,
        ) by {
            if list.contains(y) {
                let k: int = list.index_of(y);
                if k < list.len() - 1 {
                    assert(list.drop_last()[k] == y);
                }
            }
            if list.drop_last().contains(y) {
                let k: int = list.drop_last().index_of(y);
                assert(list[k] == y);
            }
            assert(list[list.len() - 1] == list.last());
        }
    }
}

} // verus!
