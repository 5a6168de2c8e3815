use vstd::prelude::*;

use crate::model::{Check, CheckList, Item};
use crate::relations::{checks_of_item, checks_of_list, filter_by_check_list_id, filter_by_item_id};

verus! {

/// A store that keeps its records in memory.
#[derive(Debug)]
pub struct InMemoryStore {
    check_lists: Vec<CheckList>,
    checks: Vec<Check>,
    items: Vec<Item>,
}

fn clone_all<T: Clone>(v: &Vec<T>) -> (r: Vec<T>)
    ensures
        r.len() == v.len(),
        forall|i: int| 0 <= i < v.len() ==> cloned::<T>(v[i], r[i]),
{
    v.clone()
}

impl InMemoryStore {
    pub closed spec fn spec_check_lists(&self) -> Seq<CheckList> {
        self.check_lists@
    }

    pub closed spec fn spec_checks(&self) -> Seq<Check> {
        self.checks@
    }

    pub closed spec fn spec_items(&self) -> Seq<Item> {
        self.items@
    }

    pub fn new(check_lists: Vec<CheckList>, checks: Vec<Check>, items: Vec<Item>) -> (r: Self)
        ensures
            r.spec_check_lists() == check_lists@,
            r.spec_checks() == checks@,
            r.spec_items() == items@,
    {
        InMemoryStore { check_lists, checks, items }
    }

    pub fn find_all_check_lists(&self) -> (r: Vec<CheckList>)
        ensures
            r@ == self.spec_check_lists(),
    {
        let r = clone_all(&self.check_lists);
        assert(r@ =~= self.check_lists@);
        r
    }

    pub fn find_all_checks(&self) -> (r: Vec<Check>)
        ensures
            r@ == self.spec_checks(),
    {
        let r = clone_all(&self.checks);
        assert(r@ =~= self.checks@);
        r
    }

    pub fn find_all_items(&self) -> (r: Vec<Item>)
        ensures
            r@ == self.spec_items(),
    {
        let r = clone_all(&self.items);
        assert(r@ =~= self.items@);
        r
    }

    /// The checks on the check list `check_list_id`, in stored order.
    pub fn find_checks_by_check_list_id(&self, check_list_id: String) -> (r: Vec<Check>)
        ensures
            r@ == checks_of_list(self.spec_checks(), check_list_id@),
    {
        filter_by_check_list_id(&self.checks, &check_list_id)
    }

    /// The checks that mark the item `item_id`, in stored order.
    pub fn find_checks_by_item_id(&self, item_id: String) -> (r: Vec<Check>)
        ensures
            r@ == checks_of_item(self.spec_checks(), item_id@),
    {
        filter_by_item_id(&self.checks, &item_id)
    }

    /// Two check lists, two items, and one check of each item on its list.
    pub fn example() -> (r: Self)
        ensures
            r.spec_check_lists().map_values(|c: CheckList| (c.id@, c.date@)) == seq![
                ("1"@, "2020-01-02"@),
                ("2"@, "2020-01-03"@),
            ],
            r.spec_checks().map_values(|c: Check| (c.check_list_id@, c.item_id@)) == seq![
                ("1"@, "1"@),
                ("2"@, "2"@),
            ],
            r.spec_items().map_values(|i: Item| (i.id@, i.name@)) == seq![
                ("1"@, "item1"@),
                ("2"@, "item2"@),
            ],
    {
        let r = InMemoryStore {
            check_lists: vec![
                CheckList { id: "1".to_owned(), date: "2020-01-02".to_owned() },
                CheckList { id: "2".to_owned(), date: "2020-01-03".to_owned() },
            ],
            checks: vec![
                Check { check_list_id: "1".to_owned(), item_id: "1".to_owned() },
                Check { check_list_id: "2".to_owned(), item_id: "2".to_owned() },
            ],
            items: vec![
                Item { id: "1".to_owned(), name: "item1".to_owned() },
                Item { id: "2".to_owned(), name: "item2".to_owned() },
            ],
        };
        assert(r.check_lists@.map_values(|c: CheckList| (c.id@, c.date@)) =~= seq![
            ("1"@, "2020-01-02"@),
            ("2"@, "2020-01-03"@),
        ]);
        assert(r.checks@.map_values(|c: Check| (c.check_list_id@, c.item_id@)) =~= seq![
            ("1"@, "1"@),
            ("2"@, "2"@),
        ]);
        assert(r.items@.map_values(|i: Item| (i.id@, i.name@)) =~= seq![
            ("1"@, "item1"@),
            ("2"@, "item2"@),
        ]);
        r
    }
}

} // verus!
