//! Where the pages of the site live: their addresses, the files they are
//! cached in, and the form that asks for a page of comments.
use std::collections::HashMap;
use vstd::prelude::*;
use crate::text::{decimal, extend_chars, format_i32, str_chars, string_from_chars};

verus! {

/// The site the pages come from.
pub const TARGET_SITE: &'static str = "https://www.old-games.ru/";

/// Pages kept by name.
pub struct CacheStruct {
    pub list: HashMap<String, String>,
}

/// `a`, the decimal text of `n`, then `b`.
pub open spec fn around(a: Seq<char>, n: i32, b: Seq<char>) -> Seq<char> {
    a + decimal(n as int) + b
}

fn around_exec(a: &str, n: i32, b: &str) -> (r: String)
    ensures
        r@ == around(a@, n, b@),
{
    let v = str_chars(a);
    around_chars(v, n, b)
}

fn around_chars(a: Vec<char>, n: i32, b: &str) -> (r: String)
    ensures
        r@ == around(a@, n, b@),
{
    let mut v = a;
    let d = format_i32(n);
    extend_chars(&mut v, &d);
    let tail = str_chars(b);
    extend_chars(&mut v, &tail);
    string_from_chars(&v)
}

/// The address of `path` on the site.
fn on_site(path: &str) -> (r: Vec<char>)
    ensures
        r@ == TARGET_SITE@ + path@,
{
    let mut v = str_chars(TARGET_SITE);
    let p = str_chars(path);
    extend_chars(&mut v, &p);
    v
}

impl CacheStruct {
    /// The cache file of catalogue page `id`.
    pub open spec fn page_path_spec(id: i32) -> Seq<char> {
        around("data/pages_html/"@, id, ".html.cached"@)
    }

    /// The address of catalogue page `id`.
    pub open spec fn page_url_spec(id: i32) -> Seq<char> {
        around(TARGET_SITE@ + "catalog/?page="@, id, ""@)
    }

    /// The cache file of comment page `id` of game `game_id`.
    pub open spec fn comments_path_spec(game_id: i32, id: i32) -> Seq<char> {
        around("data/pages_html/"@, game_id, "/comments/"@) + around(""@, id, ".html.cached"@)
    }

    /// The cache file of the description page of game `id`.
    pub open spec fn game_desc_path_spec(id: i32) -> Seq<char> {
        around("data/pages_html/"@, id, "/desc.html.cached"@)
    }

    /// The address of the description page of game `id`.
    pub open spec fn game_desc_url_spec(id: i32) -> Seq<char> {
        around(TARGET_SITE@ + "game/"@, id, ".html"@)
    }

    /// The cache file of the screenshots page of game `id`.
    pub open spec fn screenshots_path_spec(id: i32) -> Seq<char> {
        around("data/pages_html/"@, id, "/screenshots.html.cached"@)
    }

    /// The address of the screenshots page of game `id`.
    pub open spec fn screenshots_url_spec(id: i32) -> Seq<char> {
        around(TARGET_SITE@ + "game/screenshots/"@, id, ".html"@)
    }

    /// The cache file of catalogue page `id`:
    /// `data/pages_html/<id>.html.cached`.
    pub fn page_path(id: i32) -> (r: String)
        ensures
            r@ == Self::page_path_spec(id),
    {
        around_exec("data/pages_html/", id, ".html.cached")
    }

    /// The address of catalogue page `id`: `<site>catalog/?page=<id>`.
    pub fn page_url(id: i32) -> (r: String)
        ensures
            r@ == Self::page_url_spec(id),
    {
        around_chars(on_site("catalog/?page="), id, "")
    }

    /// The cache file of comment page `id` of game `game_id`:
    /// `data/pages_html/<game_id>/comments/<id>.html.cached`.
    pub fn comments_path(game_id: i32, id: i32) -> (r: String)
        ensures
            r@ == Self::comments_path_spec(game_id, id),
    {
        let a = around_exec("data/pages_html/", game_id, "/comments/");
        let b = around_exec("", id, ".html.cached");
        let mut v = str_chars(a.as_str());
        let w = str_chars(b.as_str());
        extend_chars(&mut v, &w);
        string_from_chars(&v)
    }

    /// The address comment pages are asked from: `<site>game/game_comments.php`.
    pub fn comments_url() -> (r: String)
        ensures
            r@ == TARGET_SITE@ + "game/game_comments.php"@,
    {
        let v = on_site("game/game_comments.php");
        string_from_chars(&v)
    }

    /// The form fields that ask for comment page `id` of game `game_id` in
    /// thread `thread_id`: `gameid`, `gamethreadid` and `page`.
    pub fn comments_form(game_id: i32, id: i32, thread_id: &str) -> (r: Vec<(String, String)>)
        ensures
            r@.len() == 3,
            r@[0].0@ == "gameid"@ && r@[0].1@ == decimal(game_id as int),
            r@[1].0@ == "gamethreadid"@ && r@[1].1@ == thread_id@,
            r@[2].0@ == "page"@ && r@[2].1@ == decimal(id as int),
    {
        let mut r: Vec<(String, String)> = Vec::new();
        let k0 = string_from_chars(&str_chars("gameid"));
        let v0 = string_from_chars(&format_i32(game_id));
        r.push((k0, v0));
        let k1 = string_from_chars(&str_chars("gamethreadid"));
        let v1 = string_from_chars(&str_chars(thread_id));
        r.push((k1, v1));
        let k2 = string_from_chars(&str_chars("page"));
        let v2 = string_from_chars(&format_i32(id));
        r.push((k2, v2));
        r
    }

    /// The cache file of the description page of game `id`:
    /// `data/pages_html/<id>/desc.html.cached`.
    pub fn game_desc_path(id: i32) -> (r: String)
        ensures
            r@ == Self::game_desc_path_spec(id),
    {
        around_exec("data/pages_html/", id, "/desc.html.cached")
    }

    /// The address of the description page of game `id`: `<site>game/<id>.html`.
    pub fn game_desc_url(id: i32) -> (r: String)
        ensures
            r@ == Self::game_desc_url_spec(id),
    {
        around_chars(on_site("game/"), id, ".html")
    }

    /// The cache file of the screenshots page of game `id`:
    /// `data/pages_html/<id>/screenshots.html.cached`.
    pub fn screenshots_path(id: i32) -> (r: String)
        ensures
            r@ == Self::screenshots_path_spec(id),
    {
        around_exec("data/pages_html/", id, "/screenshots.html.cached")
    }

    /// The address of the screenshots page of game `id`:
    /// `<site>game/screenshots/<id>.html`.
    pub fn screenshots_url(id: i32) -> (r: String)
        ensures
            r@ == Self::screenshots_url_spec(id),
    {
        around_chars(on_site("game/screenshots/"), id, ".html")
    }
}

} // verus!
