use vstd::prelude::*;

verus! {

/// A record that an item was checked on a check list.
#[derive(Debug, PartialEq, Eq)]
pub struct Check {
    pub check_list_id: String,
    pub item_id: String,
}

/// A dated check list.
#[derive(Debug, PartialEq, Eq)]
pub struct CheckList {
    pub id: String,
    pub date: String,
}

/// An item that can be checked.
#[derive(Debug, PartialEq, Eq)]
pub struct Item {
    pub id: String,
    pub name: String,
}

impl Clone for Check {
    fn clone(&self) -> (r: Self)
        ensures
            r == *self,
    {
        Check { check_list_id: self.check_list_id.clone(), item_id: self.item_id.clone() }
    }
}

impl Clone for CheckList {
    fn clone(&self) -> (r: Self)
        ensures
            r == *self,
    {
        CheckList { id: self.id.clone(), date: self.date.clone() }
    }
}

impl Clone for Item {
    fn clone(&self) -> (r: Self)
        ensures
            r == *self,
    {
        Item { id: self.id.clone(), name: self.name.clone() }
    }
}

} // verus!
