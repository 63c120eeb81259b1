//! Byte strings: comparison and lookup in lists of them.

use vstd::prelude::*;

verus! {

/// The byte strings that a list holds, each by its view.
pub open spec fn views(items: Seq<Vec<u8>>) -> Seq<Seq<u8>> {
    Seq::new(items.len(), |i: int| items[i]@)
}

/// Whether no byte string occurs twice in the list.
pub open spec fn distinct(items: Seq<Seq<u8>>) -> bool {
    forall|i: int, j: int| 0 <= i < j < items.len() ==> items[i] != items[j]
}

/// Whether two byte strings hold the same bytes.
pub fn bytes_eq(a: &Vec<u8>, b: &Vec<u8>) -> (same: bool)
    ensures
        same == (a@ == b@),
{
    if a.len() != b.len() {
        return false;
    }
    let mut i: usize = 0;
    while i < a.len()
        invariant
            a.len() == b.len(),
            i <= a.len(),
            forall|k: int| 0 <= k < i ==> a@[k] == b@[k],
        decreases a.len() - i,
    {
        if a[i] != b[i] {
            return false;
        }
        i += 1;
    }
    assert(a@ =~= b@);
    true
}

/// A copy of a byte string.
pub fn copy_bytes(a: &Vec<u8>) -> (copy: Vec<u8>)
    ensures
        copy@ == a@,
{
    let mut out: Vec<u8> = Vec::new();
    let mut i: usize = 0;
    while i < a.len()
        invariant
            i <= a.len(),
            out@ == a@.take(i as int),
        decreases a.len() - i,
    {
        out.push(a[i]);
        assert(a@.take(i + 1) =~= a@.take(i as int).push(a@[i as int]));
        i += 1;
    }
    assert(a@.take(a.len() as int) =~= a@);
    out
}

/// Appends `tail` to `out`.
pub fn append(out: &mut Vec<u8>, tail: &Vec<u8>)
    ensures
        final(out)@ == old(out)@ + tail@,
{
    let mut i: usize = 0;
    while i < tail.len()
        invariant
            i <= tail.len(),
            out@ == old(out)@ + tail@.take(i as int),
        decreases tail.len() - i,
    {
        out.push(tail[i]);
        assert(tail@.take(i + 1) =~= tail@.take(i as int).push(tail@[i as int]));
        i += 1;
    }
    assert(tail@.take(tail.len() as int) =~= tail@);
}

/// The first position at which `x` stands in `items`, if it stands there.
pub fn position(items: &Vec<Vec<u8>>, x: &Vec<u8>) -> (at: Option<usize>)
    ensures
        match at {
            Some(i) => i < items.len() && items@[i as int]@ == x@ && forall|k: int|
                0 <= k < i ==> items@[k]@ != x@,
            None => !views(items@).contains(x@),
        },
{
    let mut i: usize = 0;
    while i < items.len()
        invariant
            i <= items.len(),
            forall|k: int| 0 <= k < i ==> items@[k]@ != x@,
        decreases items.len() - i,
    {
        if bytes_eq(&items[i], x) {
            return Some(i);
        }
        i += 1;
    }
    assert(!views(items@).contains(x@)) by {
        if views(items@).contains(x@) {
            let k = choose|k: int| 0 <= k < views(items@).len() && views(items@)[k] == x@;
            assert(items@[k]@ == x@);
        }
    }
    None
}

/// Whether `x` stands in `items`.
pub fn holds(items: &Vec<Vec<u8>>, x: &Vec<u8>) -> (found: bool)
    ensures
        found == views(items@).contains(x@),
{
    match position(items, x) {
        Some(i) => {
            assert(views(items@)[i as int] == x@);
            true
        },
        None => false,
    }
}

/// The test that a byte string is another one than `x`.
pub open spec fn other_than(x: Seq<u8>) -> spec_fn(Seq<u8>) -> bool {
    |p: Seq<u8>| p != x
}

/// What `views` gives of a list with one more item.
pub proof fn lemma_views_push(items: Seq<Vec<u8>>, item: Vec<u8>)
    ensures
        views(items.push(item)) == views(items).push(item@),
{
    assert(views(items.push(item)) =~= views(items).push(item@));
}

/// A copy of a list of byte strings.
pub fn copy_list(items: &Vec<Vec<u8>>) -> (copy: Vec<Vec<u8>>)
    ensures
        views(copy@) == views(items@),
{
    let mut out: Vec<Vec<u8>> = Vec::new();
    let mut i: usize = 0;
    while i < items.len()
        invariant
            i <= items.len(),
            views(out@) == views(items@).take(i as int),
        decreases items.len() - i,
    {
        let ghost prev = out@;
        let item = copy_bytes(&items[i]);
        out.push(item);
        proof {
            lemma_views_push(prev, item);
            assert(views(items@).take(i + 1) =~= views(items@).take(i as int).push(items@[i as int]@));
        }
        i += 1;
    }
    assert(views(items@).take(items.len() as int) =~= views(items@));
    out
}

/// The members of a list that are another byte string than `x`, in the
/// list's order.
pub fn others(items: &Vec<Vec<u8>>, x: &Vec<u8>) -> (rest: Vec<Vec<u8>>)
    ensures
        views(rest@) == views(items@).filter(other_than(x@)),
{
    let ghost all = views(items@);
    let ghost pred = other_than(x@);
    let mut out: Vec<Vec<u8>> = Vec::new();
    assert(views(out@) =~= all.take(0).filter(pred)) by {
        reveal(Seq::filter);
    }
    let mut i: usize = 0;
    while i < items.len()
        invariant
            i <= items.len(),
            all == views(items@),
            pred == other_than(x@),
            views(out@) == all.take(i as int).filter(pred),
        decreases items.len() - i,
    {
        proof {
            reveal(Seq::filter);
            assert(all.take(i + 1).drop_last() =~= all.take(i as int));
            assert(all.take(i + 1).last() == items@[i as int]@);
        }
        if !bytes_eq(&items[i], x) {
            let ghost prev = out@;
            let item = copy_bytes(&items[i]);
            out.push(item);
            proof {
                lemma_views_push(prev, item);
            }
        }
        i += 1;
    }
    assert(all.take(items.len() as int) =~= all);
    out
}

/// Filtering a list that names nothing twice gives a list that names
/// nothing twice.
pub proof fn lemma_filter_distinct(items: Seq<Seq<u8>>, pred: spec_fn(Seq<u8>) -> bool)
    requires
        items.no_duplicates(),
    ensures
        items.filter(pred).no_duplicates(),
    decreases items.len(),
{
    reveal(Seq::filter);
    if items.len() > 0 {
        let front = items.drop_last();
        let last = items.last();
        lemma_filter_distinct(front, pred);
        if pred(last) {
            if front.filter(pred).contains(last) {
                front.lemma_filter_contains_rev(pred, last);
                let k = choose|k: int| 0 <= k < front.len() && front[k] == last;
                assert(items[k] == items[items.len() - 1]);
            }
            let kept = front.filter(pred);
            assert forall|i: int, j: int|
                0 <= i < kept.push(last).len() && 0 <= j < kept.push(last).len() && i
                    != j implies kept.push(last)[i] != kept.push(last)[j] by {
                if i < kept.len() && j < kept.len() {
                } else if i < kept.len() {
                    assert(kept.contains(kept[i]));
                } else if j < kept.len() {
                    assert(kept.contains(kept[j]));
                }
            }
        }
    }
}

/// What a list without `x` holds: the list's members other than `x`, each
/// once where the list names each once.
pub proof fn lemma_others(items: Seq<Seq<u8>>, x: Seq<u8>)
    ensures
        forall|p: Seq<u8>| #[trigger]
            items.filter(other_than(x)).contains(p) <==> items.contains(p) && p != x,
        items.no_duplicates() ==> items.filter(other_than(x)).no_duplicates(),
{
    let pred = other_than(x);
    let rest = items.filter(pred);
    assert forall|p: Seq<u8>| #[trigger] rest.contains(p) <==> items.contains(p) && p != x by {
        if rest.contains(p) {
            items.lemma_filter_contains_rev(pred, p);
            let k = choose|k: int| 0 <= k < rest.len() && rest[k] == p;
            items.lemma_filter_pred(pred, k);
        }
        if items.contains(p) && p != x {
            let k = choose|k: int| 0 <= k < items.len() && items[k] == p;
            items.lemma_filter_contains(pred, k);
        }
    }
    if items.no_duplicates() {
        lemma_filter_distinct(items, pred);
    }
}

} // verus!
