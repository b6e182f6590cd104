//! The URLs the WordPress probes request, each built from the site's
//! normalized base URL.

use vstd::prelude::*;

use crate::text::{chars_of, decimal, decimal_chars, push_all, push_str, string_of};

verus! {

fn joined(base: &str, tail: &str) -> (r: String)
    ensures
        r@ == base@ + tail@,
{
    let mut v = chars_of(base);
    push_str(&mut v, tail);
    string_of(v.as_slice())
}

fn slug_url(base: &str, dir: &str, slug: &str, file: &str) -> (r: String)
    ensures
        r@ == base@ + dir@ + slug@ + file@,
{
    let mut v = chars_of(base);
    push_str(&mut v, dir);
    push_str(&mut v, slug);
    push_str(&mut v, file);
    string_of(v.as_slice())
}

/// The REST API root: `{base}/wp-json/`.
pub fn wp_json_url(base: &str) -> (r: String)
    ensures
        r@ == base@ + "/wp-json/"@,
{
    joined(base, "/wp-json/")
}

/// The readme page of a WordPress install: `{base}/readme.html`.
pub fn readme_html_url(base: &str) -> (r: String)
    ensures
        r@ == base@ + "/readme.html"@,
{
    joined(base, "/readme.html")
}

/// A plugin's readme: `{base}/wp-content/plugins/{slug}/readme.txt`.
pub fn plugin_readme_url(base: &str, slug: &str) -> (r: String)
    ensures
        r@ == base@ + "/wp-content/plugins/"@ + slug@ + "/readme.txt"@,
{
    slug_url(base, "/wp-content/plugins/", slug, "/readme.txt")
}

/// A plugin's directory: `{base}/wp-content/plugins/{slug}/`.
pub fn plugin_dir_url(base: &str, slug: &str) -> (r: String)
    ensures
        r@ == base@ + "/wp-content/plugins/"@ + slug@ + "/"@,
{
    slug_url(base, "/wp-content/plugins/", slug, "/")
}

/// A theme's stylesheet: `{base}/wp-content/themes/{slug}/style.css`.
pub fn theme_style_url(base: &str, slug: &str) -> (r: String)
    ensures
        r@ == base@ + "/wp-content/themes/"@ + slug@ + "/style.css"@,
{
    slug_url(base, "/wp-content/themes/", slug, "/style.css")
}

/// The author archive of author `id`: `{base}/?author={id}`.
pub fn author_url(base: &str, id: u64) -> (r: String)
    ensures
        r@ == base@ + "/?author="@ + decimal(id as nat),
{
    let mut v = chars_of(base);
    push_str(&mut v, "/?author=");
    let d = decimal_chars(id);
    push_all(&mut v, d.as_slice());
    string_of(v.as_slice())
}

/// The users listing of the REST API (up to 100): `{base}/wp-json/wp/v2/users?per_page=100`.
pub fn rest_users_url(base: &str) -> (r: String)
    ensures
        r@ == base@ + "/wp-json/wp/v2/users?per_page=100"@,
{
    joined(base, "/wp-json/wp/v2/users?per_page=100")
}

/// The five latest posts of the REST API: `{base}/wp-json/wp/v2/posts?per_page=5`.
pub fn rest_posts_url(base: &str) -> (r: String)
    ensures
        r@ == base@ + "/wp-json/wp/v2/posts?per_page=5"@,
{
    joined(base, "/wp-json/wp/v2/posts?per_page=5")
}

} // verus!
