use vstd::prelude::*;

verus! {

/// The classification labels of an item: a flat list, or lists grouped
/// under category names.
#[derive(Debug, Clone)]
pub enum Tags {
    All(Vec<String>),
    Categorized(Vec<(String, Vec<String>)>),
}

/// One remote resource of the catalog.
#[derive(Debug, Clone)]
pub struct Item {
    pub id: u64,
    /// Where the full resource lives; an item without one cannot be fetched.
    pub resource_url: Option<String>,
    pub tags: Tags,
}

} // verus!
