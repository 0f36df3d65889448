use vstd::prelude::*;

pub mod coles;
pub mod woolies;

verus! {

/// A grocery retailer with its own catalogue.
#[derive(Clone, Copy, Debug, PartialEq, Eq, Hash, Structural)]
pub enum Store {
    Coles,
    Woolies,
}

impl Store {
    /// The number that stands for the store inside a product key.
    pub open spec fn index(self) -> int {
        match self {
            Store::Coles => 0,
            Store::Woolies => 1,
        }
    }

    /// The lower-case name used in file names and in the canonical output.
    pub open spec fn spec_name(self) -> Seq<char> {
        match self {
            Store::Coles => "coles"@,
            Store::Woolies => "woolies"@,
        }
    }

    pub fn name(&self) -> (r: &'static str)
        ensures
            r@ == self.spec_name(),
    {
        match self {
            Store::Coles => "coles",
            Store::Woolies => "woolies",
        }
    }

    /// Every store, in the order in which a run visits them.
    pub fn all() -> (r: Vec<Store>)
        ensures
            r@ == seq![Store::Coles, Store::Woolies],
    {
        let mut stores: Vec<Store> = Vec::new();
        stores.push(Store::Coles);
        stores.push(Store::Woolies);
        assert(stores@ =~= seq![Store::Coles, Store::Woolies]);
        stores
    }

    /// Whether a run restricted to `filter` covers this store.
    pub open spec fn spec_selected(self, filter: Option<Store>) -> bool {
        match filter {
            Some(only) => only == self,
            None => true,
        }
    }

    pub fn selected(&self, filter: Option<Store>) -> (r: bool)
        ensures
            r == self.spec_selected(filter),
    {
        match filter {
            Some(only) => only == *self,
            None => true,
        }
    }
}

} // verus!
