use vstd::prelude::*;

use crate::model::{Check, CheckList, Item};

verus! {

/// The check belongs to the check list `id`.
pub open spec fn on_list(id: Seq<char>) -> spec_fn(Check) -> bool {
    |c: Check| c.check_list_id@ == id
}

/// The check marks the item `id`.
pub open spec fn of_item(id: Seq<char>) -> spec_fn(Check) -> bool {
    |c: Check| c.item_id@ == id
}

/// The checks of `checks` that belong to the check list `id`, in order.
pub open spec fn checks_of_list(checks: Seq<Check>, id: Seq<char>) -> Seq<Check> {
    checks.filter(on_list(id))
}

/// The checks of `checks` that mark the item `id`, in order.
pub open spec fn checks_of_item(checks: Seq<Check>, id: Seq<char>) -> Seq<Check> {
    checks.filter(of_item(id))
}

/// Some item of `items` has the identifier `id`.
pub open spec fn has_item(items: Seq<Item>, id: Seq<char>) -> bool {
    exists|j: int| 0 <= j < items.len() && #[trigger] items[j].id@ == id
}

/// Some check list of `lists` has the identifier `id`.
pub open spec fn has_list(lists: Seq<CheckList>, id: Seq<char>) -> bool {
    exists|j: int| 0 <= j < lists.len() && #[trigger] lists[j].id@ == id
}

/// The first item of `items` with the identifier `id`.
pub open spec fn item_for(items: Seq<Item>, id: Seq<char>) -> Item {
    items.filter(|i: Item| i.id@ == id)[0]
}

/// The first check list of `lists` with the identifier `id`.
pub open spec fn list_for(lists: Seq<CheckList>, id: Seq<char>) -> CheckList {
    lists.filter(|l: CheckList| l.id@ == id)[0]
}

proof fn lemma_filter_none<A>(s: Seq<A>, pred: spec_fn(A) -> bool)
    requires
        forall|j: int| 0 <= j < s.len() ==> !pred(#[trigger] s[j]),
    ensures
        s.filter(pred).len() == 0,
    decreases s.len(),
{
    reveal(Seq::filter);
    if s.len() > 0 {
        lemma_filter_none(s.drop_last(), pred);
    }
}

/// The first element kept by a filter is the first element that passes it.
proof fn lemma_filter_first<A>(s: Seq<A>, pred: spec_fn(A) -> bool, i: int)
    requires
        0 <= i < s.len(),
        pred(s[i]),
        forall|j: int| 0 <= j < i ==> !pred(#[trigger] s[j]),
    ensures
        s.filter(pred).len() > 0,
        s.filter(pred)[0] == s[i],
{
    let a = s.subrange(0, i);
    let b = s.subrange(i, s.len() as int);
    assert(s =~= a + b);
    Seq::filter_distributes_over_add(a, b, pred);
    lemma_filter_none(a, pred);
    lemma_filter_starts(b, pred);
    assert((a + b).filter(pred) =~= a.filter(pred) + b.filter(pred));
}

proof fn lemma_filter_starts<A>(b: Seq<A>, pred: spec_fn(A) -> bool)
    requires
        b.len() > 0,
        pred(b[0]),
    ensures
        b.filter(pred).len() > 0,
        b.filter(pred)[0] == b[0],
{
    let head = b.subrange(0, 1);
    let tail = b.subrange(1, b.len() as int);
    assert(b =~= head + tail);
    Seq::filter_distributes_over_add(head, tail, pred);
    reveal(Seq::filter);
    assert(head.drop_last() =~= Seq::<A>::empty());
    assert(head.filter(pred) =~= seq![b[0]]);
}

fn find_item(items: &Vec<Item>, id: &String) -> (r: Item)
    requires
        has_item(items@, id@),
    ensures
        r == item_for(items@, id@),
{
    let mut k: usize = 0;
    while k < items.len()
        invariant
            0 <= k <= items@.len(),
            has_item(items@, id@),
            forall|j: int| 0 <= j < k ==> items@[j].id@ != id@,
        decreases items.len() - k,
    {
        if items[k].id == *id {
            proof {
                let pred = |i: Item| i.id@ == id@;
                assert forall|j: int| 0 <= j < k implies !pred(#[trigger] items@[j]) by {}
                lemma_filter_first(items@, pred, k as int);
            }
            return items[k].clone();
        }
        k = k + 1;
    }
    proof {
        let j = choose|j: int| 0 <= j < items@.len() && #[trigger] items@[j].id@ == id@;
        assert(items@[j].id@ != id@);
    }
    items[0].clone()
}

fn find_list(lists: &Vec<CheckList>, id: &String) -> (r: CheckList)
    requires
        has_list(lists@, id@),
    ensures
        r == list_for(lists@, id@),
{
    let mut k: usize = 0;
    while k < lists.len()
        invariant
            0 <= k <= lists@.len(),
            has_list(lists@, id@),
            forall|j: int| 0 <= j < k ==> lists@[j].id@ != id@,
        decreases lists.len() - k,
    {
        if lists[k].id == *id {
            proof {
                let pred = |l: CheckList| l.id@ == id@;
                assert forall|j: int| 0 <= j < k implies !pred(#[trigger] lists@[j]) by {}
                lemma_filter_first(lists@, pred, k as int);
            }
            return lists[k].clone();
        }
        k = k + 1;
    }
    proof {
        let j = choose|j: int| 0 <= j < lists@.len() && #[trigger] lists@[j].id@ == id@;
        assert(lists@[j].id@ != id@);
    }
    lists[0].clone()
}

/// The checks on the check list `check_list_id`, in order.
pub fn filter_by_check_list_id(checks: &Vec<Check>, check_list_id: &String) -> (r: Vec<Check>)
    ensures
        r@ == checks_of_list(checks@, check_list_id@),
{
    let mut out: Vec<Check> = Vec::new();
    let mut i: usize = 0;
    while i < checks.len()
        invariant
            0 <= i <= checks@.len(),
            out@ == checks_of_list(checks@.subrange(0, i as int), check_list_id@),
        decreases checks.len() - i,
    {
        proof {
            reveal(Seq::filter);
            assert(checks@.subrange(0, i + 1).drop_last() =~= checks@.subrange(0, i as int));
        }
        if checks[i].check_list_id == *check_list_id {
            out.push(checks[i].clone());
        }
        i = i + 1;
    }
    assert(checks@.subrange(0, checks@.len() as int) =~= checks@);
    out
}

/// The checks that mark the item `item_id`, in order.
pub fn filter_by_item_id(checks: &Vec<Check>, item_id: &String) -> (r: Vec<Check>)
    ensures
        r@ == checks_of_item(checks@, item_id@),
{
    let mut out: Vec<Check> = Vec::new();
    let mut i: usize = 0;
    while i < checks.len()
        invariant
            0 <= i <= checks@.len(),
            out@ == checks_of_item(checks@.subrange(0, i as int), item_id@),
        decreases checks.len() - i,
    {
        proof {
            reveal(Seq::filter);
            assert(checks@.subrange(0, i + 1).drop_last() =~= checks@.subrange(0, i as int));
        }
        if checks[i].item_id == *item_id {
            out.push(checks[i].clone());
        }
        i = i + 1;
    }
    assert(checks@.subrange(0, checks@.len() as int) =~= checks@);
    out
}

/// The items checked on the check list `check_list_id`, one per check, in
/// the order of the checks. Every such check must name a known item.
pub fn checked_items(check_list_id: &String, checks: &Vec<Check>, items: &Vec<Item>) -> (r: Vec<
    Item,
>)
    requires
        forall|k: int|
            0 <= k < checks@.len() && #[trigger] checks@[k].check_list_id@ == check_list_id@
                ==> has_item(items@, checks@[k].item_id@),
    ensures
        r@ == checks_of_list(checks@, check_list_id@).map_values(
            |c: Check| item_for(items@, c.item_id@),
        ),
{
    let selected = filter_by_check_list_id(checks, check_list_id);
    let mut out: Vec<Item> = Vec::new();
    let mut i: usize = 0;
    while i < selected.len()
        invariant
            0 <= i <= selected@.len(),
            selected@ == checks_of_list(checks@, check_list_id@),
            forall|k: int|
                0 <= k < checks@.len() && #[trigger] checks@[k].check_list_id@ == check_list_id@
                    ==> has_item(items@, checks@[k].item_id@),
            out@ == selected@.subrange(0, i as int).map_values(
                |c: Check| item_for(items@, c.item_id@),
            ),
        decreases selected.len() - i,
    {
        proof {
            let pred = on_list(check_list_id@);
            checks@.lemma_filter_pred(pred, i as int);
            assert(selected@.contains(selected@[i as int]));
            checks@.lemma_filter_contains_rev(pred, selected@[i as int]);
            let j = choose|j: int| 0 <= j < checks@.len() && checks@[j] == selected@[i as int];
            assert(checks@[j].check_list_id@ == check_list_id@);
        }
        let item = find_item(items, &selected[i].item_id);
        out.push(item);
        proof {
            assert(out@ =~= selected@.subrange(0, i + 1).map_values(
                |c: Check| item_for(items@, c.item_id@),
            ));
        }
        i = i + 1;
    }
    assert(selected@.subrange(0, selected@.len() as int) =~= selected@);
    out
}

/// The check lists on which the item `item_id` is checked, one per check, in
/// the order of the checks. Every such check must name a known check list.
pub fn checked_check_lists(item_id: &String, checks: &Vec<Check>, lists: &Vec<CheckList>) -> (r:
    Vec<CheckList>)
    requires
        forall|k: int|
            0 <= k < checks@.len() && #[trigger] checks@[k].item_id@ == item_id@ ==> has_list(
                lists@,
                checks@[k].check_list_id@,
            ),
    ensures
        r@ == checks_of_item(checks@, item_id@).map_values(
            |c: Check| list_for(lists@, c.check_list_id@),
        ),
{
    let selected = filter_by_item_id(checks, item_id);
    let mut out: Vec<CheckList> = Vec::new();
    let mut i: usize = 0;
    while i < selected.len()
        invariant
            0 <= i <= selected@.len(),
            selected@ == checks_of_item(checks@, item_id@),
            forall|k: int|
                0 <= k < checks@.len() && #[trigger] checks@[k].item_id@ == item_id@ ==> has_list(
                    lists@,
                    checks@[k].check_list_id@,
                ),
            out@ == selected@.subrange(0, i as int).map_values(
                |c: Check| list_for(lists@, c.check_list_id@),
            ),
        decreases selected.len() - i,
    {
        proof {
            let pred = of_item(item_id@);
            checks@.lemma_filter_pred(pred, i as int);
            assert(selected@.contains(selected@[i as int]));
            checks@.lemma_filter_contains_rev(pred, selected@[i as int]);
            let j = choose|j: int| 0 <= j < checks@.len() && checks@[j] == selected@[i as int];
            assert(checks@[j].item_id@ == item_id@);
        }
        let list = find_list(lists, &selected[i].check_list_id);
        out.push(list);
        proof {
            assert(out@ =~= selected@.subrange(0, i + 1).map_values(
                |c: Check| list_for(lists@, c.check_list_id@),
            ));
        }
        i = i + 1;
    }
    assert(selected@.subrange(0, selected@.len() as int) =~= selected@);
    out
}

} // verus!
