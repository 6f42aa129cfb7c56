//! The objects of the GraphQL schema.
use vstd::prelude::*;
use vstd::string::StringExecFns;

verus! {

/// A text item with suggestions.
#[derive(Debug)]
pub struct Item {
    pub id: String,
    pub text: String,
    pub suggestions: Vec<String>,
}

/// The root of the queries.
pub struct QueryRoot;

impl QueryRoot {
    /// The item of the given identifier. There is one sample item, and it
    /// is returned for every identifier.
    pub fn item(&self, id: String) -> (item: Item)
        ensures
            item.id@ == "324"@,
            item.text@ == "gurble"@,
            item.suggestions@.len() == 2,
            item.suggestions@[0]@ == "garble"@,
            item.suggestions@[1]@ == "groble"@,
    {
        let mut suggestions: Vec<String> = Vec::new();
        suggestions.push(String::from_str("garble"));
        suggestions.push(String::from_str("groble"));
        Item { id: String::from_str("324"), text: String::from_str("gurble"), suggestions }
    }
}

} // verus!
