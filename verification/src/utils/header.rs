use vstd::prelude::*;

verus! {

/// The browser identity sent to the news sites that refuse unknown clients.
pub const USER_AGENT_VALUE: &'static str = "Mozilla/5.0 (X11; Linux x86_64) AppleWebKit/537.36 Chrome/120.0 Safari/537.36";

/// The media types asked of the news sites: RSS first, then XML, then anything.
pub const ACCEPT_VALUE: &'static str = "application/rss+xml, application/xml;q=0.9, */*;q=0.8";

} // verus!
