use vstd::prelude::*;

verus! {

/// A research paper's metadata.
pub struct PapersModel {
    pub title: String,
    pub summary: String,
    /// The names of the authors, in order.
    pub authors: Vec<String>,
    pub pub_date: String,
    pub link: String,
}

/// The plain contents of a [`PapersModel`].
pub struct PapersModelView {
    pub title: Seq<char>,
    pub summary: Seq<char>,
    pub authors: Seq<Seq<char>>,
    pub pub_date: Seq<char>,
    pub link: Seq<char>,
}

impl View for PapersModel {
    type V = PapersModelView;

    open spec fn view(&self) -> PapersModelView {
        PapersModelView {
            title: self.title@,
            summary: self.summary@,
            authors: self.authors.deep_view(),
            pub_date: self.pub_date@,
            link: self.link@,
        }
    }
}

} // verus!
