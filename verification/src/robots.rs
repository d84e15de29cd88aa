//! The robots file.

use crate::config::SsgConfig;
use crate::text::{append_str, chars_of, string_of};
use vstd::prelude::*;

verus! {

/// The robots file of a site at `site_url`: everything may be crawled, and
/// the sitemap is announced.
pub open spec fn robots_txt(site_url: Seq<char>) -> Seq<char> {
    "User-agent: *\nAllow: /\n\nSitemap: "@ + site_url + "/sitemap.xml\n"@
}

pub struct RobotsGenerator {}

impl RobotsGenerator {
    /// The text of the robots file.
    pub fn generate(config: &SsgConfig) -> (r: String)
        ensures
            r@ == robots_txt(config.site.url@),
    {
        let mut out = chars_of("User-agent: *\nAllow: /\n\nSitemap: ");
        append_str(&mut out, config.site.url.as_str());
        append_str(&mut out, "/sitemap.xml\n");
        string_of(&out)
    }
}

} // verus!
