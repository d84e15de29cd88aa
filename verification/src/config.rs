//! The site's configuration and its defaults.

use crate::text::owned;
use vstd::prelude::*;

verus! {

/// The assets of one package: names with their paths.
#[derive(Debug)]
pub struct AssetPackage {
    pub name: String,
    pub assets: Vec<(String, String)>,
}

/// The assets of the site, by package.
#[derive(Debug)]
pub struct AssetsConfig {
    pub packages: Vec<AssetPackage>,
}

/// What the configuration says of the site.
#[derive(Debug)]
pub struct SiteConfig {
    pub title: String,
    pub url: String,
    pub author: String,
    pub description: String,
    /// The CDN that serves image variants, if any.
    pub cdn_url: Option<String>,
    /// The address of the backend services, if any.
    pub api_url: Option<String>,
    pub google_analytics_id: Option<String>,
}

/// Whether a search index is generated.
#[derive(Debug)]
pub struct SearchConfig {
    pub enabled: bool,
}

/// What the configuration says of the build.
#[derive(Debug)]
pub struct BuildConfig {
    pub content_dir: String,
    pub output_dir: String,
    pub posts_per_page: usize,
    /// The largest number of page links that a pagination shows.
    pub pagination_window: usize,
    /// The number of posts on the homepage; `posts_per_page` where `None`.
    pub homepage_posts_limit: Option<usize>,
    /// Whether file names are percent-encoded.
    pub encode_filenames: bool,
    pub search: SearchConfig,
    /// Whether partial HTML files are generated.
    pub generate_partials: bool,
    pub partial_dir: String,
}

/// The whole configuration.
#[derive(Debug)]
pub struct SsgConfig {
    pub site: SiteConfig,
    pub build: BuildConfig,
    pub assets: AssetsConfig,
}

/// The configuration as templates see it.
#[derive(Debug)]
pub struct TemplateConfig<'a> {
    pub site_title: &'a str,
    pub site_url: &'a str,
    pub author: &'a str,
    pub description: &'a str,
    pub assets: &'a AssetsConfig,
    pub api_url: Option<&'a str>,
    pub google_analytics_id: Option<&'a str>,
}

/// Whether the search index is generated unless the configuration says otherwise.
pub fn default_search_enabled() -> (r: bool)
    ensures
        r,
{
    true
}

/// The site's title unless the configuration gives one.
pub fn default_site_title() -> (r: String)
    ensures
        r@ == "marshallku blog"@,
{
    owned("marshallku blog")
}

/// The site's address unless the configuration gives one.
pub fn default_site_url() -> (r: String)
    ensures
        r@ == "https://marshallku.com"@,
{
    owned("https://marshallku.com")
}

/// The site's author unless the configuration gives one.
pub fn default_author() -> (r: String)
    ensures
        r@ == "Marshall K"@,
{
    owned("Marshall K")
}

/// The site's description unless the configuration gives one.
pub fn default_description() -> (r: String)
    ensures
        r@ == "marshallku blog"@,
{
    owned("marshallku blog")
}

/// The directory of the posts unless the configuration gives one.
pub fn default_content_dir() -> (r: String)
    ensures
        r@ == "content/posts"@,
{
    owned("content/posts")
}

/// The output directory unless the configuration gives one.
pub fn default_output_dir() -> (r: String)
    ensures
        r@ == "dist"@,
{
    owned("dist")
}

/// The number of posts on a page unless the configuration gives one.
pub fn default_posts_per_page() -> (r: usize)
    ensures
        r == 10,
{
    10
}

/// The number of page links unless the configuration gives one.
pub fn default_pagination_window() -> (r: usize)
    ensures
        r == 5,
{
    5
}

/// The directory of partial files unless the configuration gives one.
pub fn default_partial_dir() -> (r: String)
    ensures
        r@ == "html"@,
{
    owned("html")
}

impl Default for AssetsConfig {
    fn default() -> (r: Self)
        ensures
            r.packages@.len() == 0,
    {
        AssetsConfig { packages: Vec::new() }
    }
}

impl Default for SearchConfig {
    fn default() -> (r: Self)
        ensures
            r.enabled,
    {
        SearchConfig { enabled: default_search_enabled() }
    }
}

impl Default for SiteConfig {
    fn default() -> (r: Self)
        ensures
            r.title@ == "marshallku blog"@,
            r.url@ == "https://marshallku.com"@,
            r.author@ == "Marshall K"@,
            r.description@ == "marshallku blog"@,
            r.cdn_url is None,
            r.api_url is None,
            r.google_analytics_id is None,
    {
        SiteConfig {
            title: default_site_title(),
            url: default_site_url(),
            author: default_author(),
            description: default_description(),
            cdn_url: None,
            api_url: None,
            google_analytics_id: None,
        }
    }
}

impl Default for BuildConfig {
    fn default() -> (r: Self)
        ensures
            r.content_dir@ == "content/posts"@,
            r.output_dir@ == "dist"@,
            r.posts_per_page == 10,
            r.pagination_window == 5,
            r.homepage_posts_limit is None,
            !r.encode_filenames,
            r.search.enabled,
            !r.generate_partials,
            r.partial_dir@ == "html"@,
    {
        BuildConfig {
            content_dir: default_content_dir(),
            output_dir: default_output_dir(),
            posts_per_page: default_posts_per_page(),
            pagination_window: default_pagination_window(),
            homepage_posts_limit: None,
            encode_filenames: false,
            search: SearchConfig { enabled: default_search_enabled() },
            generate_partials: false,
            partial_dir: default_partial_dir(),
        }
    }
}

impl Default for SsgConfig {
    fn default() -> (r: Self)
        ensures
            r.site.title@ == "marshallku blog"@,
            r.site.url@ == "https://marshallku.com"@,
            r.site.cdn_url is None,
            r.build.posts_per_page == 10,
            r.build.pagination_window == 5,
            r.build.content_dir@ == "content/posts"@,
            r.build.output_dir@ == "dist"@,
            r.assets.packages@.len() == 0,
    {
        SsgConfig {
            site: SiteConfig::default(),
            build: BuildConfig::default(),
            assets: AssetsConfig::default(),
        }
    }
}

impl SsgConfig {
    /// The configuration as templates see it.
    pub fn to_template_config(&self) -> (r: TemplateConfig<'_>)
        ensures
            r.site_title@ == self.site.title@,
            r.site_url@ == self.site.url@,
            r.author@ == self.site.author@,
            r.description@ == self.site.description@,
            r.assets == &self.assets,
            match r.api_url {
                Some(u) => self.site.api_url is Some && u@ == self.site.api_url->0@,
                None => self.site.api_url is None,
            },
            match r.google_analytics_id {
                Some(u) => self.site.google_analytics_id is Some && u@
                    == self.site.google_analytics_id->0@,
                None => self.site.google_analytics_id is None,
            },
    {
        TemplateConfig {
            site_title: self.site.title.as_str(),
            site_url: self.site.url.as_str(),
            author: self.site.author.as_str(),
            description: self.site.description.as_str(),
            assets: &self.assets,
            api_url: match &self.site.api_url {
                Some(u) => Some(u.as_str()),
                None => None,
            },
            google_analytics_id: match &self.site.google_analytics_id {
                Some(u) => Some(u.as_str()),
                None => None,
            },
        }
    }

    /// The number of posts that the homepage shows.
    pub fn homepage_limit(&self) -> (r: usize)
        ensures
            r == match self.build.homepage_posts_limit {
                Some(n) => n,
                None => self.build.posts_per_page,
            },
    {
        match self.build.homepage_posts_limit {
            Some(n) => n,
            None => self.build.posts_per_page,
        }
    }
}

} // verus!
