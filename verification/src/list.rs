//! Lists of texts: first occurrences, and lines that are gathered one by one.

use crate::text::{str_eq, texts};
use vstd::prelude::*;

verus! {

/// The texts of a list without those that occurred before.
pub open spec fn distinct(list: Seq<Seq<char>>) -> Seq<Seq<char>>
    decreases list.len(),
{
    if list.len() == 0 {
        Seq::empty()
    } else {
        with_new(distinct(list.drop_last()), list.last())
    }
}

/// The list with `x` at its end, unless it holds `x` already.
pub open spec fn with_new(list: Seq<Seq<char>>, x: Seq<char>) -> Seq<Seq<char>> {
    if list.contains(x) {
        list
    } else {
        list.push(x)
    }
}

/// Whether a list holds a text.
pub fn holds(list: &Vec<String>, x: &str) -> (r: bool)
    ensures
        r == texts(list@).contains(x@),
{
    let mut i: usize = 0;
    while i < list.len()
        invariant
            i <= list@.len(),
            forall|k: int| 0 <= k < i ==> #[trigger] texts(list@)[k] != x@,
        decreases list@.len() - i,
    {
        assert(texts(list@)[i as int] == list@[i as int]@);
        if str_eq(list[i].as_str(), x) {
            return true;
        }
        i = i + 1;
    }
    assert forall|k: int| 0 <= k < texts(list@).len() implies texts(list@)[k] != x@ by {}
    false
}

/// Appends a text to a list that does not hold it yet; tells whether it was new.
pub fn push_new(list: &mut Vec<String>, x: &str) -> (r: bool)
    ensures
        texts(final(list)@) == with_new(texts(old(list)@), x@),
        r == !texts(old(list)@).contains(x@),
{
    if holds(list, x) {
        false
    } else {
        list.push(x.to_string());
        assert(texts(list@) =~= texts(old(list)@).push(x@));
        true
    }
}

/// Appends a text to a list.
pub fn push_text(list: &mut Vec<String>, x: String)
    ensures
        texts(final(list)@) == texts(old(list)@).push(x@),
{
    list.push(x);
    assert(texts(list@) =~= texts(old(list)@).push(x@));
}

/// Appends the texts of another list.
pub fn push_texts(list: &mut Vec<String>, more: Vec<String>)
    ensures
        texts(final(list)@) == texts(old(list)@) + texts(more@),
{
    let mut rest: Vec<String> = more;
    list.append(&mut rest);
    assert(texts(list@) =~= texts(old(list)@) + texts(more@));
}

/// The distinct texts of a list are those of the list, each once.
pub proof fn distinct_is_a_set(list: Seq<Seq<char>>)
    ensures
        distinct(list).no_duplicates(),
        forall|x: Seq<char>| #[trigger] distinct(list).contains(x) <==> list.contains(x),
    decreases list.len(),
{
    if list.len() > 0 {
        let head = list.drop_last();
        let x = list.last();
        distinct_is_a_set(head);
        let before = distinct(head);
        assert(list =~= head.push(x));
        assert forall|y: Seq<char>| #[trigger] distinct(list).contains(y) <==> list.contains(y) by {
            if list.contains(y) {
                let k = choose|k: int| 0 <= k < list.len() && list[k] == y;
                if k < head.len() {
                    assert(head[k] == y);
                    assert(head.contains(y));
                    assert(before.contains(y));
                    let j = choose|j: int| 0 <= j < before.len() && before[j] == y;
                    assert(distinct(list)[j] == y);
                } else if before.contains(x) {
                    assert(distinct(list) == before);
                } else {
                    assert(distinct(list)[before.len() as int] == x);
                }
            }
            if distinct(list).contains(y) {
                let j = choose|j: int| 0 <= j < distinct(list).len() && distinct(list)[j] == y;
                if j < before.len() {
                    assert(before[j] == y);
                    assert(before.contains(y));
                    let k = choose|k: int| 0 <= k < head.len() && head[k] == y;
                    assert(list[k] == y);
                } else {
                    assert(list[list.len() - 1] == y);
                }
            }
        }
    }
}

/// The distinct texts of a list have no repetition to leave out.
pub proof fn distinct_is_idempotent(list: Seq<Seq<char>>)
    ensures
        distinct(distinct(list)) == distinct(list),
{
    distinct_is_a_set(list);
    lemma_distinct_of_set(distinct(list));
}

proof fn lemma_distinct_of_set(list: Seq<Seq<char>>)
    requires
        list.no_duplicates(),
    ensures
        distinct(list) == list,
    decreases list.len(),
{
    if list.len() > 0 {
        let head = list.drop_last();
        assert(head.no_duplicates());
        lemma_distinct_of_set(head);
        if head.contains(list.last()) {
            let k = choose|k: int| 0 <= k < head.len() && head[k] == list.last();
            assert(list[k] == list[list.len() - 1]);
        }
        assert(head.push(list.last()) =~= list);
    } else {
        assert(distinct(list) =~= list);
    }
}

} // verus!
