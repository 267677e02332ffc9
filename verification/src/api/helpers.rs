//! Helpers of the listing commands.
use vstd::prelude::*;
use crate::config::source::SourceConfig;
use crate::text::{replace_all, str_replace, concat, to_decimal, dec_of};

verus! {

/// The URL of a listing page: the main URL for page 1, else the page
/// template with `{page}` replaced by the page number, both after the base URL.
pub open spec fn page_url(config: SourceConfig, page: u32) -> Result<Seq<char>, Seq<char>> {
    if page == 1 {
        match config.urls.main {
            Some(m) => Ok(config.base_url@ + m@),
            None => Err("No main URL in config"@),
        }
    } else {
        match config.urls.page {
            Some(t) => Ok(config.base_url@ + replace_all(t@, "{page}"@, dec_of(page as nat))),
            None => Err("No page URL template in config"@),
        }
    }
}

/// The URL of a listing page.
pub fn build_url(config: &SourceConfig, page: u32) -> (r: Result<String, String>)
    ensures
        match r {
            Ok(u) => page_url(*config, page) == Ok::<Seq<char>, Seq<char>>(u@),
            Err(e) => page_url(*config, page) == Err::<Seq<char>, Seq<char>>(e@),
        },
{
    if page == 1 {
        match &config.urls.main {
            Some(m) => Ok(concat(config.base_url.as_str(), m.as_str())),
            None => Err(String::from_str("No main URL in config")),
        }
    } else {
        match &config.urls.page {
            Some(t) => {
                let n = to_decimal(page as u128);
                let filled = str_replace(t.as_str(), "{page}", n.as_str());
                Ok(concat(config.base_url.as_str(), filled.as_str()))
            },
            None => Err(String::from_str("No page URL template in config")),
        }
    }
}

} // verus!
