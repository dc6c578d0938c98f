use vstd::prelude::*;

use crate::services::cna::NewsCategoryCNA;
use crate::tui::tabs::news::NewsSourceEnum;

verus! {

/// Whether the category is CNA's latest news.
pub fn is_latest(news_category_kind: NewsSourceEnum) -> (r: bool)
    ensures
        r == (news_category_kind.source_index() == 0 && news_category_kind.category_index() == 0),
{
    matches!(news_category_kind, NewsSourceEnum::CNA(NewsCategoryCNA::Latest(_)))
}

} // verus!
