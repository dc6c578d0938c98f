use vstd::prelude::*;

verus! {

/// A CNA article as its feed describes it, with the paragraphs of its page when they were
/// fetched.
pub struct CNAModel {
    pub title: String,
    pub description: String,
    pub content: Option<Vec<String>>,
    pub link: String,
    pub pub_date: String,
    pub categories: Vec<String>,
}

} // verus!
