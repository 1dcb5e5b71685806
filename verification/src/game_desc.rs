//! The details of one game, read from its screenshots page and its
//! description page (and the further pages of its comments).
#![allow(non_snake_case)]

use vstd::prelude::*;
use crate::collect::{
    collect_flat, collect_opt, lemma_collect_each, lemma_collect_flat_joined, lemma_collect_kept, lemma_collect_fail, lemma_collect_step, lemma_flat_fail,
    lemma_flat_step, lemma_map_append, lemma_map_push, lemma_take_all,
};
use crate::comments::{comments_spec, comments_view, page_comments, thread_id_spec, thread_id_inner};
use crate::dom::{
    desc, elem_attr, elem_class, name, p_desc, p_elem_attr, p_elem_class, Document, Pred,
};
use crate::games_index::{game_id_of_chars, game_id_spec};
use crate::markup::{markup, node_html_inner, node_html_spec, trim_html_spec};
use crate::model::{
    opt_view, GameInfo, GameInfoFull, GameInfoFullV, GameInfoV, GroupV, GroupValueV, ModV,
    RecommendedV, ScreenshotV, TGameComment, TGameGroup, TGameGroupValue, TGameMod,
    TGameRecomended, TScreenshot,
};
use crate::pattern::{capture_i32, capture_text, first_captures, group_i32, group_text, regex_first_captures};
use crate::float_text::{float_text, is_float_text};
use crate::text::{
    contains_chars, contains_seq, parse_i32, parse_i32_spec, str_chars,
    string_from_chars, trim, trim_chars,
};

verus! {

/// Pattern of the users' rating; group 1 is the average, group 2 the number
/// of votes.
pub const USERS_STARS_PATTERN: &'static str = "Оценка пользователей - ([\\d\\.]+) из 10. Всего голосов: (\\d+)";

/// Pattern of the comments pager; group 2 is the number of comment pages.
pub const COMMENT_PAGES_PATTERN: &'static str = "Стр\\. (\\d+)/(\\d+)";

/// Marks the cover address that is kept.
pub const NOCOVER_MARK: &'static str = "nocover-rus.gif";

/// Label of the recommended games row.
pub const RECOMMENDED_LABEL: &'static str = "Рекомендуемые";

/// Label of the modifications row.
pub const MODS_LABEL: &'static str = "Модификации";

/// `div.main-content`.
pub open spec fn main_content() -> Pred {
    p_elem_class("div", "main-content")
}

fn main_content_exec() -> (p: Pred)
    ensures
        p == main_content(),
{
    elem_class("div", "main-content")
}

// ----- screenshots -----

/// The screenshot items: `div.main-content div#game_screens div#screensarea
/// ul.gamescreens li.game_screen`.
pub open spec fn screens_pred() -> Pred {
    p_desc(
        main_content(),
        p_desc(
            p_elem_attr("div", "id", "game_screens"),
            p_desc(
                p_elem_attr("div", "id", "screensarea"),
                p_desc(p_elem_class("ul", "gamescreens"), p_elem_class("li", "game_screen")),
            ),
        ),
    )
}

/// The picture links of a screenshot item: `div div.screen_img_container a`.
pub open spec fn shot_link_pred() -> Pred {
    p_desc(Pred::Name("div"), p_desc(p_elem_class("div", "screen_img_container"), Pred::Name("a")))
}

/// What a screenshot item gives: items without a picture link are skipped;
/// the others give the `src` of the first picture and the `href` of the last
/// link, or fail when either is missing.
pub open spec fn screenshot_item(doc: &Document, li: usize) -> Option<Option<ScreenshotV>> {
    let shots = doc.find(Some(li), shot_link_pred());
    if shots.len() == 0 {
        Some(None)
    } else {
        let thumb = doc.first_attr(Some(li), Pred::Name("img"), "src"@);
        let url = doc.attr_of(shots.last() as int, "href"@);
        if thumb is None || url is None {
            None
        } else {
            Some(Some(ScreenshotV { thumb_url: thumb.unwrap(), url: url.unwrap() }))
        }
    }
}

/// The screenshots of a screenshots page, in order.
pub open spec fn screenshots_spec(doc: &Document) -> Option<Seq<ScreenshotV>> {
    collect_opt(doc.find(None, screens_pred()), |li: usize| screenshot_item(doc, li))
}

/// A screenshot item with a picture link.
pub open spec fn has_shot(doc: &Document, li: usize) -> bool {
    doc.find(Some(li), shot_link_pred()).len() > 0
}

/// A screenshots page read in full gives one screenshot per item that has a
/// picture link, in order: its thumbnail is the `src` of the item's first
/// picture, and its address the `href` of the item's last picture link.
pub proof fn lemma_screenshot_per_item(doc: &Document)
    ensures
        screenshots_spec(doc) matches Some(ss) ==> {
            let items = doc.find(None, screens_pred()).filter(|li: usize| has_shot(doc, li));
            &&& ss.len() == items.len()
            &&& forall|k: int|
                0 <= k < ss.len() ==> {
                    &&& doc.first_attr(Some(#[trigger] items[k]), Pred::Name("img"), "src"@) == Some(ss[k].thumb_url)
                    &&& doc.attr_of(doc.find(Some(items[k]), shot_link_pred()).last() as int, "href"@) == Some(
                        ss[k].url,
                    )
                }
        },
{
    if let Some(ss) = screenshots_spec(doc) {
        let all = doc.find(None, screens_pred());
        let f = |li: usize| screenshot_item(doc, li);
        let keep = |li: usize| has_shot(doc, li);
        assert forall|i: int| 0 <= i < all.len() implies ((#[trigger] f(all[i]) matches Some(None)) <==> !keep(all[i])) by {}
        lemma_collect_kept(all, f, keep);
        let items = all.filter(keep);
        assert forall|k: int| 0 <= k < ss.len() implies {
            &&& doc.first_attr(Some(#[trigger] items[k]), Pred::Name("img"), "src"@) == Some(ss[k].thumb_url)
            &&& doc.attr_of(doc.find(Some(items[k]), shot_link_pred()).last() as int, "href"@) == Some(ss[k].url)
        } by {
            assert(f(items[k]) == Some(Some(ss[k])));
        }
    }
}

fn screenshot_item_exec(doc: &Document, li: usize) -> (r: Option<Option<TScreenshot>>)
    ensures
        match r {
            None => screenshot_item(doc, li) is None,
            Some(None) => screenshot_item(doc, li) == Some(None::<ScreenshotV>),
            Some(Some(s)) => screenshot_item(doc, li) == Some(Some(s@)),
        },
{
    let p = desc(name("div"), desc(elem_class("div", "screen_img_container"), name("a")));
    let shots = doc.find_exec(Some(li), &p);
    proof {
        doc.lemma_find_in_range(Some(li), shot_link_pred(), Document::scope_start(Some(li)));
    }
    if shots.len() == 0 {
        return Some(None);
    }
    let img = name("img");
    let thumb = doc.first_attr_exec(Some(li), &img, "src");
    let url = doc.attr_copy(shots[shots.len() - 1], "href");
    match (thumb, url) {
        (Some(t), Some(u)) => Some(
            Some(TScreenshot { ThumbUrl: string_from_chars(&t), Url: string_from_chars(&u) }),
        ),
        _ => None,
    }
}

/// The screenshots listed on a screenshots page, in order: for every item
/// with a picture link, the thumbnail (`src` of its first picture) and the
/// full picture (`href` of its last link). `None` when an item lacks one.
pub fn parse_screenshots(doc: &Document) -> (r: Option<Vec<TScreenshot>>)
    ensures
        match r {
            Some(v) => screenshots_spec(doc) == Some(v@.map_values(|s: TScreenshot| s@)),
            None => screenshots_spec(doc) is None,
        },
{
    let p = desc(
        main_content_exec(),
        desc(
            elem_attr("div", "id", "game_screens"),
            desc(
                elem_attr("div", "id", "screensarea"),
                desc(elem_class("ul", "gamescreens"), elem_class("li", "game_screen")),
            ),
        ),
    );
    let items = doc.find_exec(None, &p);
    let ghost f = |li: usize| screenshot_item(doc, li);
    let mut res: Vec<TScreenshot> = Vec::new();
    let mut k: usize = 0;
    while k < items.len()
        invariant
            0 <= k <= items@.len(),
            items@ == doc.find(None, screens_pred()),
            f == (|li: usize| screenshot_item(doc, li)),
            collect_opt(items@.take(k as int), f) == Some(res@.map_values(|s: TScreenshot| s@)),
        decreases items@.len() - k,
    {
        proof {
            lemma_collect_step(items@, k as int, f);
        }
        match screenshot_item_exec(doc, items[k]) {
            None => {
                proof {
                    lemma_collect_fail(items@, k + 1, f);
                }
                return None;
            },
            Some(None) => {},
            Some(Some(s)) => {
                proof {
                    lemma_map_push(res@, s, |x: TScreenshot| x@);
                }
                res.push(s);
            },
        }
        k = k + 1;
    }
    proof {
        lemma_take_all(items@);
    }
    Some(res)
}

// ----- description page: text, alternative name, cover, users' rating -----

/// The review text: `div.main-content div#reviewtext`.
pub open spec fn review_pred() -> Pred {
    p_desc(main_content(), p_elem_attr("div", "id", "reviewtext"))
}

/// The description: the normalised markup of the review text.
pub open spec fn desc_text_spec(doc: &Document) -> Option<Seq<char>> {
    match doc.find_first(None, review_pred()) {
        Some(n) => node_html_spec(doc, n as int),
        None => None,
    }
}

/// The alternative names: `div.main-content span.game_alt_names`.
pub open spec fn alt_pred() -> Pred {
    p_desc(main_content(), p_elem_class("span", "game_alt_names"))
}

/// The cover picture: `div.main-content table.gameinfo td.game-cover
/// div.game_info_cover img`.
pub open spec fn cover_pred() -> Pred {
    p_desc(
        p_desc(
            p_desc(p_desc(main_content(), p_elem_class("table", "gameinfo")), p_elem_class("td", "game-cover")),
            p_elem_class("div", "game_info_cover"),
        ),
        Pred::Name("img"),
    )
}

/// The cover address kept for a game: the `src` of the cover picture when
/// it contains `nocover-rus.gif`, no address otherwise; `None` when the
/// page has no cover picture or it has no `src`.
pub open spec fn cover_spec(doc: &Document) -> Option<Option<Seq<char>>> {
    match doc.first_attr(None, cover_pred(), "src"@) {
        None => None,
        Some(c) => Some(
            if contains_seq(c, NOCOVER_MARK@) {
                Some(c)
            } else {
                None
            },
        ),
    }
}

/// The users' rating picture: `div.main-content table.gameinfo
/// span[itemprop=aggregateRating] img`.
pub open spec fn rating_pred() -> Pred {
    p_desc(
        p_desc(
            p_desc(main_content(), p_elem_class("table", "gameinfo")),
            p_elem_attr("span", "itemprop", "aggregateRating"),
        ),
        Pred::Name("img"),
    )
}

/// The users' average (as text) and number of votes in the title of the
/// users' rating picture; the average must be a number `f32` reads.
pub open spec fn users_stars_spec(value: Seq<char>) -> Option<(Seq<char>, i32)> {
    let caps = regex_first_captures(USERS_STARS_PATTERN@, value);
    match (group_text(caps, 1), group_i32(caps, 2)) {
        (Some(avg), Some(votes)) => if float_text(avg) {
            Some((avg, votes))
        } else {
            None
        },
        _ => None,
    }
}

/// The users' average (as text) and number of votes in the title of the
/// users' rating picture (see `users_stars_spec`).
pub fn users_stars(value: &str) -> (r: Option<(String, i32)>)
    ensures
        match r {
            Some((a, n)) => users_stars_spec(value@) == Some((a@, n)),
            None => users_stars_spec(value@) is None,
        },
{
    let caps = first_captures(USERS_STARS_PATTERN, value);
    let votes = capture_i32(&caps, 2);
    match (capture_text(&caps, 1), votes) {
        (Some(avg), Some(n)) => if is_float_text(avg) {
            Some((string_from_chars(avg), n))
        } else {
            None
        },
        _ => None,
    }
}

/// Stores the users' average and number of votes read from the title of
/// the users' rating picture in `info` (see `users_stars_spec`); the title
/// must hold them.
pub fn parse_game_users_stars(value: &str, info: &mut GameInfoFull)
    requires
        users_stars_spec(value@) is Some,
    ensures
        final(info)@ == (GameInfoFullV {
            users_stars: users_stars_spec(value@).unwrap().0,
            users_stars_sum: users_stars_spec(value@).unwrap().1,
            ..old(info)@
        }),
{
    match users_stars(value) {
        Some((avg, n)) => {
            info.UsersStars = avg;
            info.UsersStarsSum = n;
        },
        None => unreached(),
    }
}

/// Stores the users' average and number of votes read from the title of
/// the users' rating picture in `info`; returns `false` and leaves `info`
/// unchanged when the title does not hold them.
pub fn try_parse_game_users_stars(value: &str, info: &mut GameInfoFull) -> (r: bool)
    ensures
        r == (users_stars_spec(value@) is Some),
        r ==> final(info)@ == (GameInfoFullV {
            users_stars: users_stars_spec(value@).unwrap().0,
            users_stars_sum: users_stars_spec(value@).unwrap().1,
            ..old(info)@
        }),
        !r ==> final(info)@ == old(info)@,
{
    if users_stars(value).is_some() {
        parse_game_users_stars(value, info);
        true
    } else {
        false
    }
}


// ----- game groups -----

/// The groups list: `div.main-content div#game_review div#reviewarea
/// ul.game-groups`.
pub open spec fn groups_pred() -> Pred {
    p_desc(
        p_desc(p_desc(main_content(), p_elem_attr("div", "id", "game_review")), p_elem_attr("div", "id", "reviewarea")),
        p_elem_class("ul", "game-groups"),
    )
}

/// What a link of a group gives: its `href`, its trimmed `title` and its
/// trimmed text; it fails when an attribute is missing.
pub open spec fn group_value_item(doc: &Document, a: usize) -> Option<Option<GroupValueV>> {
    match (doc.attr_of(a as int, "href"@), doc.attr_of(a as int, "title"@)) {
        (Some(h), Some(t)) => Some(
            Some(GroupValueV { href: h, title: trim(t), value: trim(doc.text(a as int)) }),
        ),
        _ => None,
    }
}

/// What a group item gives: the text of its first child as the name and its
/// links as values; it fails when it has no child or a link is malformed.
pub open spec fn group_item(doc: &Document, li: usize) -> Option<Option<GroupV>> {
    let kids = doc.children(li as int);
    if kids.len() == 0 {
        None
    } else {
        match collect_opt(doc.find(Some(li), Pred::Name("a")), |a: usize| group_value_item(doc, a)) {
            None => None,
            Some(vals) => Some(Some(GroupV { name: doc.text(kids[0] as int), values: vals })),
        }
    }
}

/// The game groups of a description page: none without a groups list,
/// otherwise one per list item, in order.
pub open spec fn groups_spec(doc: &Document) -> Option<Seq<GroupV>> {
    match doc.find_first(None, groups_pred()) {
        None => Some(Seq::empty()),
        Some(ul) => collect_opt(doc.find(Some(ul), Pred::Name("li")), |li: usize| group_item(doc, li)),
    }
}

/// The link `a` gives the group value `v`: its `href`, its trimmed `title`
/// (whatever the link's text) and its trimmed text.
pub open spec fn link_gives_value(doc: &Document, a: usize, v: GroupValueV) -> bool {
    &&& doc.attr_of(a as int, "href"@) == Some(v.href)
    &&& match doc.attr_of(a as int, "title"@) {
        Some(t) => v.title == trim(t),
        None => false,
    }
    &&& v.value == trim(doc.text(a as int))
}

/// A group read from a list item has the text of the item's first child as
/// its name and one value per link of the item, in order, each given by its
/// link (`link_gives_value`).
pub proof fn lemma_group_values_from_links(doc: &Document, li: usize)
    ensures
        group_item(doc, li) matches Some(Some(g)) ==> {
            let links = doc.find(Some(li), Pred::Name("a"));
            &&& g.name == doc.text(doc.children(li as int)[0] as int)
            &&& g.values.len() == links.len()
            &&& forall|k: int| 0 <= k < links.len() ==> link_gives_value(doc, #[trigger] links[k], g.values[k])
        },
{
    if let Some(Some(g)) = group_item(doc, li) {
        let links = doc.find(Some(li), Pred::Name("a"));
        let f = |a: usize| group_value_item(doc, a);
        assert forall|i: int| 0 <= i < links.len() implies !(#[trigger] f(links[i]) matches Some(None)) by {}
        lemma_collect_each(links, f);
        assert forall|k: int| 0 <= k < links.len() implies link_gives_value(doc, #[trigger] links[k], g.values[k]) by {
            assert(f(links[k]) == Some(Some(g.values[k])));
        }
    }
}

/// A description page read in full gives, when it has a groups list
/// (`groups_pred`), one group per `li` of the list, in order, with the
/// values of that item's links (`lemma_group_values_from_links`); without a
/// list, no group.
pub proof fn lemma_groups_per_item(doc: &Document)
    ensures
        groups_spec(doc) matches Some(gs) ==> match doc.find_first(None, groups_pred()) {
            None => gs.len() == 0,
            Some(ul) => {
                let items = doc.find(Some(ul), Pred::Name("li"));
                &&& gs.len() == items.len()
                &&& forall|k: int| 0 <= k < gs.len() ==> group_item(doc, #[trigger] items[k]) == Some(Some(gs[k]))
            },
        },
{
    if let Some(gs) = groups_spec(doc) {
        if let Some(ul) = doc.find_first(None, groups_pred()) {
            let items = doc.find(Some(ul), Pred::Name("li"));
            let f = |li: usize| group_item(doc, li);
            assert forall|i: int| 0 <= i < items.len() implies !(#[trigger] f(items[i]) matches Some(None)) by {}
            lemma_collect_each(items, f);
            assert forall|k: int| 0 <= k < gs.len() implies group_item(doc, #[trigger] items[k]) == Some(Some(gs[k])) by {
                assert(f(items[k]) == Some(Some(gs[k])));
            }
        }
    }
}

fn group_value_exec(doc: &Document, a: usize) -> (r: Option<TGameGroupValue>)
    requires
        a < doc.nodes@.len(),
    ensures
        match r {
            None => group_value_item(doc, a) is None,
            Some(v) => group_value_item(doc, a) == Some(Some(v@)),
        },
{
    let href = doc.attr_copy(a, "href");
    let title = doc.attr_copy(a, "title");
    match (href, title) {
        (Some(h), Some(t)) => {
            let tt = trim_chars(&t);
            let text = doc.text_exec(a);
            let tv = trim_chars(&text);
            Some(
                TGameGroupValue {
                    Href: string_from_chars(&h),
                    Title: string_from_chars(&tt),
                    Value: string_from_chars(&tv),
                },
            )
        },
        _ => None,
    }
}

fn group_item_exec(doc: &Document, li: usize) -> (r: Option<TGameGroup>)
    requires
        li < doc.nodes@.len(),
    ensures
        match r {
            None => group_item(doc, li) is None,
            Some(g) => group_item(doc, li) == Some(Some(g@)),
        },
{
    let kids = doc.children_exec(li);
    proof {
        doc.lemma_children_in_range(li as int, li + 1);
    }
    if kids.len() == 0 {
        return None;
    }
    let gname = doc.text_exec(kids[0]);
    let ap = name("a");
    let links = doc.find_exec(Some(li), &ap);
    proof {
        doc.lemma_find_in_range(Some(li), Pred::Name("a"), Document::scope_start(Some(li)));
    }
    let ghost f = |a: usize| group_value_item(doc, a);
    let mut vals: Vec<TGameGroupValue> = Vec::new();
    let mut k: usize = 0;
    while k < links.len()
        invariant
            0 <= k <= links@.len(),
            links@ == doc.find(Some(li), Pred::Name("a")),
            forall|m: int| 0 <= m < links@.len() ==> links@[m] < doc.nodes@.len(),
            f == (|a: usize| group_value_item(doc, a)),
            collect_opt(links@.take(k as int), f) == Some(
                vals@.map_values(|v: TGameGroupValue| v@),
            ),
        decreases links@.len() - k,
    {
        proof {
            lemma_collect_step(links@, k as int, f);
        }
        match group_value_exec(doc, links[k]) {
            None => {
                proof {
                    lemma_collect_fail(links@, k + 1, f);
                }
                return None;
            },
            Some(v) => {
                proof {
                    lemma_map_push(vals@, v, |x: TGameGroupValue| x@);
                }
                vals.push(v);
            },
        }
        k = k + 1;
    }
    proof {
        lemma_take_all(links@);
    }
    Some(TGameGroup { Name: string_from_chars(&gname), Values: vals })
}

/// The game groups of a description page (see `groups_spec`).
pub fn parse_game_groups(doc: &Document) -> (r: Option<Vec<TGameGroup>>)
    ensures
        match r {
            Some(v) => groups_spec(doc) == Some(v@.map_values(|g: TGameGroup| g@)),
            None => groups_spec(doc) is None,
        },
{
    let gp = desc(
        desc(desc(main_content_exec(), elem_attr("div", "id", "game_review")), elem_attr("div", "id", "reviewarea")),
        elem_class("ul", "game-groups"),
    );
    let mut res: Vec<TGameGroup> = Vec::new();
    let ul = match doc.find_first_exec(None, &gp) {
        None => {
            assert(res@.map_values(|g: TGameGroup| g@) =~= Seq::<GroupV>::empty());
            return Some(res);
        },
        Some(u) => u,
    };
    let lp = name("li");
    let items = doc.find_exec(Some(ul), &lp);
    proof {
        doc.lemma_find_in_range(Some(ul), Pred::Name("li"), Document::scope_start(Some(ul)));
    }
    let ghost f = |li: usize| group_item(doc, li);
    let mut k: usize = 0;
    while k < items.len()
        invariant
            0 <= k <= items@.len(),
            items@ == doc.find(Some(ul), Pred::Name("li")),
            doc.find_first(None, groups_pred()) == Some(ul),
            forall|m: int| 0 <= m < items@.len() ==> items@[m] < doc.nodes@.len(),
            f == (|li: usize| group_item(doc, li)),
            collect_opt(items@.take(k as int), f) == Some(res@.map_values(|g: TGameGroup| g@)),
        decreases items@.len() - k,
    {
        proof {
            lemma_collect_step(items@, k as int, f);
        }
        match group_item_exec(doc, items[k]) {
            None => {
                proof {
                    lemma_collect_fail(items@, k + 1, f);
                }
                return None;
            },
            Some(g) => {
                proof {
                    lemma_map_push(res@, g, |x: TGameGroup| x@);
                }
                res.push(g);
            },
        }
        k = k + 1;
    }
    proof {
        lemma_take_all(items@);
    }
    Some(res)
}

// ----- bookmarks -----

/// The bookmark counters: `div.bookmark-icon-block ul.bookmark-icon-list li`.
pub open spec fn bookmarks_pred() -> Pred {
    p_desc(
        p_desc(p_elem_class("div", "bookmark-icon-block"), p_elem_class("ul", "bookmark-icon-list")),
        Pred::Name("li"),
    )
}

/// The number in the `div.bookmark-icon-count` of a counter.
pub open spec fn bookmark_count(doc: &Document, li: usize) -> Option<i32> {
    match doc.first_text(Some(li), p_elem_class("div", "bookmark-icon-count")) {
        Some(t) => parse_i32_spec(t),
        None => None,
    }
}

/// The first three counters: favourites, completed, bookmarks.
pub open spec fn bookmarks_spec(doc: &Document) -> Option<(i32, i32, i32)> {
    let nodes = doc.find(None, bookmarks_pred());
    if nodes.len() < 3 {
        None
    } else {
        match (bookmark_count(doc, nodes[0]), bookmark_count(doc, nodes[1]), bookmark_count(doc, nodes[2])) {
            (Some(a), Some(b), Some(c)) => Some((a, b, c)),
            _ => None,
        }
    }
}

fn bookmark_count_exec(doc: &Document, li: usize) -> (r: Option<i32>)
    ensures
        r == bookmark_count(doc, li),
{
    let p = elem_class("div", "bookmark-icon-count");
    match doc.first_text_exec(Some(li), &p) {
        Some(t) => parse_i32(&t),
        None => None,
    }
}

/// The favourites, completed and bookmarks counters of a description page.
pub fn parse_bookmarks(doc: &Document) -> (r: Option<(i32, i32, i32)>)
    ensures
        r == bookmarks_spec(doc),
{
    let p = desc(desc(elem_class("div", "bookmark-icon-block"), elem_class("ul", "bookmark-icon-list")), name("li"));
    let nodes = doc.find_exec(None, &p);
    if nodes.len() < 3 {
        return None;
    }
    match (bookmark_count_exec(doc, nodes[0]), bookmark_count_exec(doc, nodes[1]), bookmark_count_exec(doc, nodes[2])) {
        (Some(a), Some(b), Some(c)) => Some((a, b, c)),
        _ => None,
    }
}

// ----- recommended games and modifications -----

/// The rows of the content table: `div.main-content table.game_content_table tr`.
pub open spec fn content_rows_pred() -> Pred {
    p_desc(p_desc(main_content(), p_elem_class("table", "game_content_table")), Pred::Name("tr"))
}

/// The label of a content row: `td div.game_description_col_text`.
pub open spec fn row_label_pred() -> Pred {
    p_desc(Pred::Name("td"), p_elem_class("div", "game_description_col_text"))
}

/// The links of a content row: `td div.middlesmall a.game_recommended`.
pub open spec fn row_links_pred() -> Pred {
    p_desc(p_desc(Pred::Name("td"), p_elem_class("div", "middlesmall")), p_elem_class("a", "game_recommended"))
}

/// The kind of a content row: 1 for recommended games, 2 for modifications,
/// 0 for any other row.
pub open spec fn row_kind(doc: &Document, tr: usize) -> int {
    match doc.first_text(Some(tr), row_label_pred()) {
        Some(t) => if contains_seq(t, RECOMMENDED_LABEL@) {
            1
        } else if contains_seq(t, MODS_LABEL@) {
            2
        } else {
            0
        },
        None => 0,
    }
}

/// A recommended game: the id in the link's `href` and the link's text.
pub open spec fn rec_item(doc: &Document, a: usize) -> Option<Option<RecommendedV>> {
    match doc.attr_of(a as int, "href"@) {
        Some(h) => match game_id_spec(h) {
            Some(id) => Some(Some(RecommendedV { name: doc.text(a as int), id })),
            None => None,
        },
        None => None,
    }
}

/// A modification: the link's `href` and text.
pub open spec fn mod_item(doc: &Document, a: usize) -> Option<Option<ModV>> {
    match doc.attr_of(a as int, "href"@) {
        Some(h) => Some(Some(ModV { name: doc.text(a as int), href: h })),
        None => None,
    }
}

/// The recommended games of a content row.
pub open spec fn rec_row(doc: &Document, tr: usize) -> Option<Seq<RecommendedV>> {
    if row_kind(doc, tr) == 1 {
        collect_opt(doc.find(Some(tr), row_links_pred()), |a: usize| rec_item(doc, a))
    } else {
        Some(Seq::empty())
    }
}

/// The modifications of a content row.
pub open spec fn mod_row(doc: &Document, tr: usize) -> Option<Seq<ModV>> {
    if row_kind(doc, tr) == 2 {
        collect_opt(doc.find(Some(tr), row_links_pred()), |a: usize| mod_item(doc, a))
    } else {
        Some(Seq::empty())
    }
}

/// The recommended games of a description page, in order.
pub open spec fn recommended_spec(doc: &Document) -> Option<Seq<RecommendedV>> {
    collect_flat(doc.find(None, content_rows_pred()), |tr: usize| rec_row(doc, tr))
}

/// The modifications of a description page, in order.
pub open spec fn mods_spec(doc: &Document) -> Option<Seq<ModV>> {
    collect_flat(doc.find(None, content_rows_pred()), |tr: usize| mod_row(doc, tr))
}

fn row_kind_exec(doc: &Document, tr: usize) -> (r: u8)
    ensures
        r as int == row_kind(doc, tr),
{
    let p = desc(name("td"), elem_class("div", "game_description_col_text"));
    match doc.first_text_exec(Some(tr), &p) {
        Some(t) => {
            let rl = str_chars(RECOMMENDED_LABEL);
            let ml = str_chars(MODS_LABEL);
            if contains_chars(&t, &rl) {
                1
            } else if contains_chars(&t, &ml) {
                2
            } else {
                0
            }
        },
        None => 0,
    }
}

/// The label of the content row `tr` contains `label`.
pub open spec fn row_labelled(doc: &Document, tr: usize, label: Seq<char>) -> bool {
    match doc.first_text(Some(tr), row_label_pred()) {
        Some(t) => contains_seq(t, label),
        None => false,
    }
}

/// The links of the content row `tr`: `td div.middlesmall a.game_recommended`.
pub open spec fn row_links(doc: &Document, tr: usize) -> Seq<usize> {
    doc.find(Some(tr), row_links_pred())
}

/// The link `a` gives the recommended game `r`: the id in its `href` and its
/// text.
pub open spec fn link_gives_rec(doc: &Document, a: usize, r: RecommendedV) -> bool {
    &&& match doc.attr_of(a as int, "href"@) {
        Some(h) => game_id_spec(h) == Some(r.id),
        None => false,
    }
    &&& r.name == doc.text(a as int)
}

/// The link `a` gives the modification `m`: its `href` and its text.
pub open spec fn link_gives_mod(doc: &Document, a: usize, m: ModV) -> bool {
    doc.attr_of(a as int, "href"@) == Some(m.href) && m.name == doc.text(a as int)
}

/// A row labelled with the recommended games gives one recommended game per
/// link, in order, each given by its link; a row labelled otherwise gives
/// none.
pub proof fn lemma_rec_row_links(doc: &Document, tr: usize)
    ensures
        !row_labelled(doc, tr, RECOMMENDED_LABEL@) ==> rec_row(doc, tr) == Some(Seq::<RecommendedV>::empty()),
        row_labelled(doc, tr, RECOMMENDED_LABEL@) && rec_row(doc, tr) is Some ==> {
            let items = rec_row(doc, tr).unwrap();
            &&& items.len() == row_links(doc, tr).len()
            &&& forall|k: int|
                0 <= k < items.len() ==> link_gives_rec(doc, #[trigger] row_links(doc, tr)[k], items[k])
        },
{
    if row_labelled(doc, tr, RECOMMENDED_LABEL@) && rec_row(doc, tr) is Some {
        let links = row_links(doc, tr);
        let f = |a: usize| rec_item(doc, a);
        assert forall|i: int| 0 <= i < links.len() implies !(#[trigger] f(links[i]) matches Some(None)) by {}
        lemma_collect_each(links, f);
        let items = rec_row(doc, tr).unwrap();
        assert forall|k: int| 0 <= k < items.len() implies link_gives_rec(doc, #[trigger] links[k], items[k]) by {
            assert(f(links[k]) == Some(Some(items[k])));
        }
    }
}

/// A row labelled with the modifications (and not with the recommended
/// games) gives one modification per link, in order, each given by its
/// link; a row not so labelled gives none.
pub proof fn lemma_mod_row_links(doc: &Document, tr: usize)
    ensures
        !(row_labelled(doc, tr, MODS_LABEL@) && !row_labelled(doc, tr, RECOMMENDED_LABEL@)) ==> mod_row(doc, tr)
            == Some(Seq::<ModV>::empty()),
        row_labelled(doc, tr, MODS_LABEL@) && !row_labelled(doc, tr, RECOMMENDED_LABEL@) && mod_row(doc, tr) is Some ==> {
            let items = mod_row(doc, tr).unwrap();
            &&& items.len() == row_links(doc, tr).len()
            &&& forall|k: int|
                0 <= k < items.len() ==> link_gives_mod(doc, #[trigger] row_links(doc, tr)[k], items[k])
        },
{
    if row_labelled(doc, tr, MODS_LABEL@) && !row_labelled(doc, tr, RECOMMENDED_LABEL@) && mod_row(doc, tr) is Some {
        let links = row_links(doc, tr);
        let f = |a: usize| mod_item(doc, a);
        assert forall|i: int| 0 <= i < links.len() implies !(#[trigger] f(links[i]) matches Some(None)) by {}
        lemma_collect_each(links, f);
        let items = mod_row(doc, tr).unwrap();
        assert forall|k: int| 0 <= k < items.len() implies link_gives_mod(doc, #[trigger] links[k], items[k]) by {
            assert(f(links[k]) == Some(Some(items[k])));
        }
    }
}

/// The recommended games of a description page read in full are those of
/// each content row (`lemma_rec_row_links`), rows in table order, joined.
pub proof fn lemma_recommended_rows(doc: &Document)
    ensures
        recommended_spec(doc) is Some ==> {
            let rows = doc.find(None, content_rows_pred());
            &&& forall|i: int| 0 <= i < rows.len() ==> #[trigger] rec_row(doc, rows[i]) is Some
            &&& recommended_spec(doc).unwrap() == rows.map_values(|tr: usize| rec_row(doc, tr).unwrap()).flatten()
        },
{
    if recommended_spec(doc) is Some {
        let rows = doc.find(None, content_rows_pred());
        let f = |tr: usize| rec_row(doc, tr);
        lemma_collect_flat_joined(rows, f);
        assert(rows.map_values(|x: usize| f(x).unwrap()) =~= rows.map_values(|tr: usize| rec_row(doc, tr).unwrap()));
        assert forall|i: int| 0 <= i < rows.len() implies #[trigger] rec_row(doc, rows[i]) is Some by {
            assert(f(rows[i]) is Some);
        }
    }
}

/// The modifications of a description page read in full are those of each
/// content row (`lemma_mod_row_links`), rows in table order, joined.
pub proof fn lemma_mods_rows(doc: &Document)
    ensures
        mods_spec(doc) is Some ==> {
            let rows = doc.find(None, content_rows_pred());
            &&& forall|i: int| 0 <= i < rows.len() ==> #[trigger] mod_row(doc, rows[i]) is Some
            &&& mods_spec(doc).unwrap() == rows.map_values(|tr: usize| mod_row(doc, tr).unwrap()).flatten()
        },
{
    if mods_spec(doc) is Some {
        let rows = doc.find(None, content_rows_pred());
        let f = |tr: usize| mod_row(doc, tr);
        lemma_collect_flat_joined(rows, f);
        assert(rows.map_values(|x: usize| f(x).unwrap()) =~= rows.map_values(|tr: usize| mod_row(doc, tr).unwrap()));
        assert forall|i: int| 0 <= i < rows.len() implies #[trigger] mod_row(doc, rows[i]) is Some by {
            assert(f(rows[i]) is Some);
        }
    }
}

fn rec_row_exec(doc: &Document, tr: usize) -> (r: Option<Vec<TGameRecomended>>)
    requires
        row_kind(doc, tr) == 1,
    ensures
        match r {
            Some(v) => rec_row(doc, tr) == Some(v@.map_values(|x: TGameRecomended| x@)),
            None => rec_row(doc, tr) is None,
        },
{
    let p = desc(desc(name("td"), elem_class("div", "middlesmall")), elem_class("a", "game_recommended"));
    let links = doc.find_exec(Some(tr), &p);
    proof {
        doc.lemma_find_in_range(Some(tr), row_links_pred(), Document::scope_start(Some(tr)));
    }
    let ghost f = |a: usize| rec_item(doc, a);
    let mut res: Vec<TGameRecomended> = Vec::new();
    let mut k: usize = 0;
    while k < links.len()
        invariant
            0 <= k <= links@.len(),
            links@ == doc.find(Some(tr), row_links_pred()),
            forall|m: int| 0 <= m < links@.len() ==> links@[m] < doc.nodes@.len(),
            f == (|a: usize| rec_item(doc, a)),
            row_kind(doc, tr) == 1,
            collect_opt(links@.take(k as int), f) == Some(
                res@.map_values(|x: TGameRecomended| x@),
            ),
        decreases links@.len() - k,
    {
        proof {
            lemma_collect_step(links@, k as int, f);
        }
        let a = links[k];
        let item = match doc.attr_copy(a, "href") {
            Some(h) => match game_id_of_chars(&h) {
                Some(id) => {
                    let t = doc.text_exec(a);
                    Some(TGameRecomended { Name: string_from_chars(&t), Id: id })
                },
                None => None,
            },
            None => None,
        };
        match item {
            None => {
                proof {
                    lemma_collect_fail(links@, k + 1, f);
                }
                return None;
            },
            Some(x) => {
                proof {
                    lemma_map_push(res@, x, |y: TGameRecomended| y@);
                }
                res.push(x);
            },
        }
        k = k + 1;
    }
    proof {
        lemma_take_all(links@);
    }
    Some(res)
}

fn mod_row_exec(doc: &Document, tr: usize) -> (r: Option<Vec<TGameMod>>)
    requires
        row_kind(doc, tr) == 2,
    ensures
        match r {
            Some(v) => mod_row(doc, tr) == Some(v@.map_values(|x: TGameMod| x@)),
            None => mod_row(doc, tr) is None,
        },
{
    let p = desc(desc(name("td"), elem_class("div", "middlesmall")), elem_class("a", "game_recommended"));
    let links = doc.find_exec(Some(tr), &p);
    proof {
        doc.lemma_find_in_range(Some(tr), row_links_pred(), Document::scope_start(Some(tr)));
    }
    let ghost f = |a: usize| mod_item(doc, a);
    let mut res: Vec<TGameMod> = Vec::new();
    let mut k: usize = 0;
    while k < links.len()
        invariant
            0 <= k <= links@.len(),
            links@ == doc.find(Some(tr), row_links_pred()),
            forall|m: int| 0 <= m < links@.len() ==> links@[m] < doc.nodes@.len(),
            f == (|a: usize| mod_item(doc, a)),
            row_kind(doc, tr) == 2,
            collect_opt(links@.take(k as int), f) == Some(res@.map_values(|x: TGameMod| x@)),
        decreases links@.len() - k,
    {
        proof {
            lemma_collect_step(links@, k as int, f);
        }
        let a = links[k];
        let item = match doc.attr_copy(a, "href") {
            Some(h) => {
                let t = doc.text_exec(a);
                Some(TGameMod { Name: string_from_chars(&t), Href: string_from_chars(&h) })
            },
            None => None,
        };
        match item {
            None => {
                proof {
                    lemma_collect_fail(links@, k + 1, f);
                }
                return None;
            },
            Some(x) => {
                proof {
                    lemma_map_push(res@, x, |y: TGameMod| y@);
                }
                res.push(x);
            },
        }
        k = k + 1;
    }
    proof {
        lemma_take_all(links@);
    }
    Some(res)
}

/// The recommended games and the modifications of a description page.
pub fn parse_recommended_and_mods(doc: &Document) -> (r: Option<(Vec<TGameRecomended>, Vec<TGameMod>)>)
    ensures
        match r {
            Some((rec, mods)) => recommended_spec(doc) == Some(
                rec@.map_values(|x: TGameRecomended| x@),
            ) && mods_spec(doc) == Some(mods@.map_values(|x: TGameMod| x@)),
            None => recommended_spec(doc) is None || mods_spec(doc) is None,
        },
{
    let p = desc(desc(main_content_exec(), elem_class("table", "game_content_table")), name("tr"));
    let rows = doc.find_exec(None, &p);
    let ghost fr = |tr: usize| rec_row(doc, tr);
    let ghost fm = |tr: usize| mod_row(doc, tr);
    let mut rec: Vec<TGameRecomended> = Vec::new();
    let mut mods: Vec<TGameMod> = Vec::new();
    let mut k: usize = 0;
    while k < rows.len()
        invariant
            0 <= k <= rows@.len(),
            rows@ == doc.find(None, content_rows_pred()),
            fr == (|tr: usize| rec_row(doc, tr)),
            fm == (|tr: usize| mod_row(doc, tr)),
            collect_flat(rows@.take(k as int), fr) == Some(rec@.map_values(|x: TGameRecomended| x@)),
            collect_flat(rows@.take(k as int), fm) == Some(mods@.map_values(|x: TGameMod| x@)),
        decreases rows@.len() - k,
    {
        proof {
            lemma_flat_step(rows@, k as int, fr);
            lemma_flat_step(rows@, k as int, fm);
        }
        let tr = rows[k];
        let kind = row_kind_exec(doc, tr);
        if kind == 1 {
            match rec_row_exec(doc, tr) {
                None => {
                    proof {
                        lemma_flat_fail(rows@, k + 1, fr);
                    }
                    return None;
                },
                Some(mut items) => {
                    let ghost a = rec@;
                    let ghost b = items@;
                    rec.append(&mut items);
                    proof {
                        lemma_map_append(a, b, |x: TGameRecomended| x@);
                        assert(mod_row(doc, tr) == Some(Seq::<ModV>::empty()));
                        assert(mods@.map_values(|x: TGameMod| x@) + Seq::<ModV>::empty() =~= mods@.map_values(|x: TGameMod| x@));
                    }
                },
            }
        } else if kind == 2 {
            match mod_row_exec(doc, tr) {
                None => {
                    proof {
                        lemma_flat_fail(rows@, k + 1, fm);
                    }
                    return None;
                },
                Some(mut items) => {
                    let ghost a = mods@;
                    let ghost b = items@;
                    mods.append(&mut items);
                    proof {
                        lemma_map_append(a, b, |x: TGameMod| x@);
                        assert(rec_row(doc, tr) == Some(Seq::<RecommendedV>::empty()));
                        assert(rec@.map_values(|x: TGameRecomended| x@) + Seq::<RecommendedV>::empty() =~= rec@.map_values(|x: TGameRecomended| x@));
                    }
                },
            }
        } else {
            proof {
                assert(rec@.map_values(|x: TGameRecomended| x@) + Seq::<RecommendedV>::empty() =~= rec@.map_values(|x: TGameRecomended| x@));
                assert(mods@.map_values(|x: TGameMod| x@) + Seq::<ModV>::empty() =~= mods@.map_values(|x: TGameMod| x@));
            }
        }
        k = k + 1;
    }
    proof {
        lemma_take_all(rows@);
    }
    Some((rec, mods))
}


// ----- comments -----

/// The comments pager: `div.main-content div#comments div.game_comments_pager`.
pub open spec fn comments_pager_pred() -> Pred {
    p_desc(p_desc(main_content(), p_elem_attr("div", "id", "comments")), p_elem_class("div", "game_comments_pager"))
}

/// The comments table: `div.main-content div#comments table.game_comments_table`.
pub open spec fn comments_table_pred() -> Pred {
    p_desc(p_desc(main_content(), p_elem_attr("div", "id", "comments")), p_elem_class("table", "game_comments_table"))
}

/// The number of comment pages: `Some(None)` without a pager, otherwise the
/// second number of "Стр. N/M" in the pager's first `span`; `None` when
/// the pager does not show it.
pub open spec fn comment_pages_spec(doc: &Document) -> Option<Option<i32>> {
    match doc.find_first(None, comments_pager_pred()) {
        None => Some(None),
        Some(pg) => match doc.first_text(Some(pg), Pred::Name("span")) {
            Some(t) => match group_i32(regex_first_captures(COMMENT_PAGES_PATTERN@, t), 2) {
                Some(n) => Some(Some(n)),
                None => None,
            },
            None => None,
        },
    }
}

/// Which further comment pages a description page asks for: `Some(None)`
/// when its comments fit on it, `Some(Some((m, thread)))` when pages 2 to
/// `m` of thread `thread` are to be loaded; `None` when the pager or the
/// thread id is malformed.
pub open spec fn comment_plan_spec(doc: &Document) -> Option<Option<(i32, Seq<char>)>> {
    match comment_pages_spec(doc) {
        None => None,
        Some(None) => Some(None),
        Some(Some(n)) => match thread_id_spec(doc) {
            Some(t) => Some(Some((n, t))),
            None => None,
        },
    }
}

fn comment_pages_exec(doc: &Document) -> (r: Option<Option<i32>>)
    ensures
        r == comment_pages_spec(doc),
{
    let pp = desc(desc(main_content_exec(), elem_attr("div", "id", "comments")), elem_class("div", "game_comments_pager"));
    match doc.find_first_exec(None, &pp) {
        None => Some(None),
        Some(pg) => {
            let sp = name("span");
            match doc.first_text_exec(Some(pg), &sp) {
                Some(t) => {
                    let s = string_from_chars(&t);
                    let caps = first_captures(COMMENT_PAGES_PATTERN, s.as_str());
                    match capture_i32(&caps, 2) {
                        Some(n) => Some(Some(n)),
                        None => None,
                    }
                },
                None => None,
            }
        },
    }
}

/// Which further comment pages a description page asks for (see
/// `comment_plan_spec`).
pub fn comment_pages_plan(doc: &Document) -> (r: Option<Option<(i32, String)>>)
    ensures
        match r {
            None => comment_plan_spec(doc) is None,
            Some(None) => comment_plan_spec(doc) == Some(None::<(i32, Seq<char>)>),
            Some(Some((n, t))) => comment_plan_spec(doc) == Some(Some((n, t@))),
        },
{
    match comment_pages_exec(doc) {
        None => None,
        Some(None) => Some(None),
        Some(Some(n)) => match thread_id_inner(doc) {
            Some(t) => Some(Some((n, t))),
            None => None,
        },
    }
}

/// The comments of further comment pages, in page order.
pub open spec fn extra_comments_spec(pages: Seq<Document>) -> Option<Seq<crate::model::CommentV>>
    decreases pages.len(),
{
    if pages.len() == 0 {
        Some(Seq::empty())
    } else {
        match (extra_comments_spec(pages.drop_last()), comments_spec(&pages.last())) {
            (Some(a), Some(b)) => Some(a + b),
            _ => None,
        }
    }
}

/// How many further comment pages (pages 2 to `n`) a pager showing `n`
/// pages asks for.
pub open spec fn further_pages(n: i32) -> int {
    if n >= 2 { n - 1 } else { 0 }
}

/// The comments of a game and its comment thread id: with a pager, the
/// comments of the description page followed by those of the further pages
/// and the thread id, where `extra` must hold exactly the further pages the
/// pager asks for; without a pager, the comments of the description page
/// when it has a comments table, none otherwise.
pub open spec fn comments_part_spec(doc: &Document, extra: Seq<Document>) -> Option<
    (Seq<crate::model::CommentV>, Option<Seq<char>>),
> {
    match comment_pages_spec(doc) {
        None => None,
        Some(Some(n)) => if extra.len() != further_pages(n) {
            None
        } else {
            match (comments_spec(doc), thread_id_spec(doc), extra_comments_spec(extra)) {
                (Some(c), Some(t), Some(e)) => Some((c + e, Some(t))),
                _ => None,
            }
        },
        Some(None) => match doc.find_first(None, comments_table_pred()) {
            Some(_) => match comments_spec(doc) {
                Some(c) => Some((c, None)),
                None => None,
            },
            None => Some((Seq::empty(), None)),
        },
    }
}

/// The comments of one further page are that page's comments.
pub proof fn lemma_extra_comments_single(p: Document)
    ensures
        extra_comments_spec(seq![p]) == comments_spec(&p),
{
    assert(seq![p].drop_last() =~= Seq::<Document>::empty());
    assert(seq![p].last() == p);
    assert(extra_comments_spec(Seq::<Document>::empty()) == Some(Seq::<crate::model::CommentV>::empty()));
    if let Some(b) = comments_spec(&p) {
        assert(Seq::<crate::model::CommentV>::empty() + b =~= b);
    }
}

/// The comments of two runs of further pages, one after the other, are the
/// comments of the first run followed by those of the second; reading fails
/// when it fails for either run.
pub proof fn lemma_extra_comments_concat(a: Seq<Document>, b: Seq<Document>)
    ensures
        extra_comments_spec(a + b) == match (extra_comments_spec(a), extra_comments_spec(b)) {
            (Some(x), Some(y)) => Some(x + y),
            _ => None::<Seq<crate::model::CommentV>>,
        },
    decreases b.len(),
{
    if b.len() == 0 {
        assert(a + b =~= a);
    } else {
        lemma_extra_comments_concat(a, b.drop_last());
        assert((a + b).drop_last() =~= a + b.drop_last());
        assert((a + b).last() == b.last());
        match (extra_comments_spec(a), extra_comments_spec(b.drop_last()), comments_spec(&b.last())) {
            (Some(x), Some(y), Some(z)) => {
                assert(x + y + z =~= x + (y + z));
            },
            _ => {},
        }
    }
}

/// With a pager showing `n` pages, the further comment pages are pages 2 to
/// `n`: exactly `n - 1` of them (none when `n < 2`) are taken, any other
/// number is refused; with that many, the comments are those of the
/// description page followed by those of the further pages, in order, and
/// the thread id is the page's.
pub proof fn lemma_comments_with_pager(doc: &Document, extra: Seq<Document>)
    ensures
        comment_pages_spec(doc) matches Some(Some(n)) ==> {
            let wanted: int = if n >= 1 { n - 1 } else { 0 };
            &&& (extra.len() != wanted ==> comments_part_spec(doc, extra) is None)
            &&& (extra.len() == wanted && comments_spec(doc) is Some && thread_id_spec(doc) is Some
                && extra_comments_spec(extra) is Some ==> comments_part_spec(doc, extra) == Some(
                (comments_spec(doc).unwrap() + extra_comments_spec(extra).unwrap(), thread_id_spec(doc)),
            ))
        },
{
}

/// The details of a game whose description page has a pager showing `n`
/// pages were read from exactly `n - 1` further pages (none when `n < 2`);
/// their comments are those of the description page followed by those of
/// the further pages, and their thread id is the page's.
pub proof fn lemma_details_comments(info: GameInfoV, screens: &Document, doc: &Document, extra: Seq<Document>)
    ensures
        game_desc_spec(info, screens, doc, extra) is Some ==> match comment_pages_spec(doc) {
            Some(Some(n)) => {
                &&& extra.len() == (if n >= 1 { n - 1 } else { 0 })
                &&& game_desc_spec(info, screens, doc, extra).unwrap().comments == comments_spec(doc).unwrap()
                    + extra_comments_spec(extra).unwrap()
                &&& game_desc_spec(info, screens, doc, extra).unwrap().comments_thread_id == thread_id_spec(doc)
            },
            _ => true,
        },
{
}

fn extra_comments_exec(pages: &Vec<Document>) -> (r: Option<Vec<TGameComment>>)
    ensures
        match r {
            Some(v) => extra_comments_spec(pages@) == Some(comments_view(v@)),
            None => extra_comments_spec(pages@) is None,
        },
{
    let mut res: Vec<TGameComment> = Vec::new();
    let mut i: usize = 0;
    assert(pages@.take(0) =~= Seq::<Document>::empty());
    assert(comments_view(res@) =~= Seq::<crate::model::CommentV>::empty());
    while i < pages.len()
        invariant
            0 <= i <= pages@.len(),
            extra_comments_spec(pages@.take(i as int)) == Some(comments_view(res@)),
        decreases pages@.len() - i,
    {
        assert(pages@.take(i + 1).drop_last() =~= pages@.take(i as int));
        assert(pages@.take(i + 1).last() == pages@[i as int]);
        match page_comments(&pages[i]) {
            None => {
                proof {
                    lemma_extra_fail(pages@, i + 1);
                }
                return None;
            },
            Some(mut v) => {
                let ghost a = res@;
                let ghost b = v@;
                res.append(&mut v);
                proof {
                    lemma_map_append(a, b, |x: TGameComment| x@);
                }
            },
        }
        i = i + 1;
    }
    proof {
        lemma_take_all(pages@);
    }
    Some(res)
}

proof fn lemma_extra_fail(pages: Seq<Document>, m: int)
    requires
        0 <= m <= pages.len(),
        extra_comments_spec(pages.take(m)) is None,
    ensures
        extra_comments_spec(pages) is None,
    decreases pages.len() - m,
{
    if m == pages.len() {
        assert(pages.take(m) =~= pages);
    } else {
        assert(pages.take(m + 1).drop_last() =~= pages.take(m));
        lemma_extra_fail(pages, m + 1);
    }
}

fn comments_part_exec(doc: &Document, extra: &Vec<Document>) -> (r: Option<(Vec<TGameComment>, Option<String>)>)
    ensures
        match r {
            Some((c, t)) => comments_part_spec(doc, extra@) == Some((comments_view(c@), opt_view(t))),
            None => comments_part_spec(doc, extra@) is None,
        },
{
    match comment_pages_exec(doc) {
        None => None,
        Some(Some(n)) => {
            let wanted: usize = if n >= 2 { (n - 1) as usize } else { 0 };
            if extra.len() != wanted {
                return None;
            }
            let c = page_comments(doc);
            let t = thread_id_inner(doc);
            let e = extra_comments_exec(extra);
            match (c, t, e) {
                (Some(mut c), Some(t), Some(mut e)) => {
                    let ghost a = c@;
                    let ghost b = e@;
                    c.append(&mut e);
                    proof {
                        lemma_map_append(a, b, |x: TGameComment| x@);
                    }
                    Some((c, Some(t)))
                },
                _ => None,
            }
        },
        Some(None) => {
            let tp = desc(desc(main_content_exec(), elem_attr("div", "id", "comments")), elem_class("table", "game_comments_table"));
            match doc.find_first_exec(None, &tp) {
                Some(_) => match page_comments(doc) {
                    Some(c) => Some((c, None)),
                    None => None,
                },
                None => {
                    let c: Vec<TGameComment> = Vec::new();
                    assert(comments_view(c@) =~= Seq::<crate::model::CommentV>::empty());
                    Some((c, None))
                },
            }
        },
    }
}

// ----- the whole description -----

/// The details of a game: its catalogue entry completed with its
/// screenshots (from the screenshots page), description, alternative name,
/// cover, users' rating, game groups, bookmark counters, recommended games,
/// modifications and comments (from the description page and the further
/// comment pages `extra`). `None` when any part the page must have is
/// missing or malformed.
pub open spec fn game_desc_spec(info: GameInfoV, screens: &Document, doc: &Document, extra: Seq<Document>) -> Option<GameInfoFullV> {
    let shots = screenshots_spec(screens);
    let text = desc_text_spec(doc);
    let cover = cover_spec(doc);
    let us = match doc.first_attr(None, rating_pred(), "title"@) {
        Some(t) => users_stars_spec(t),
        None => None,
    };
    let groups = groups_spec(doc);
    let bm = bookmarks_spec(doc);
    let rec = recommended_spec(doc);
    let mods = mods_spec(doc);
    let cm = comments_part_spec(doc, extra);
    if shots is None || text is None || cover is None || us is None || groups is None || bm is None
        || rec is None || mods is None || cm is None {
        None
    } else {
        Some(
            GameInfoFullV {
                id: info.id,
                name: info.name,
                alt_name: doc.first_text(None, alt_pred()),
                cover_image_url: cover.unwrap(),
                genre: info.genre,
                year: info.year,
                platform: info.platform,
                publisher: info.publisher,
                stars: info.stars,
                desc: text.unwrap(),
                users_stars: us.unwrap().0,
                users_stars_sum: us.unwrap().1,
                favorites: bm.unwrap().0,
                completed: bm.unwrap().1,
                bookmarks: bm.unwrap().2,
                recomended: rec.unwrap(),
                mods: mods.unwrap(),
                game_groups: groups.unwrap(),
                comments: cm.unwrap().0,
                comments_thread_id: cm.unwrap().1,
                screenshots: shots.unwrap(),
            },
        )
    }
}

/// The details of a game keep its catalogue entry: the id, name, genre,
/// year, platform, publisher and editor's rating are the entry's.
pub proof fn lemma_details_keep_entry(info: GameInfoV, screens: &Document, doc: &Document, extra: Seq<Document>)
    ensures
        game_desc_spec(info, screens, doc, extra) matches Some(g) ==> {
            &&& g.id == info.id
            &&& g.name == info.name
            &&& g.genre == info.genre
            &&& g.year == info.year
            &&& g.platform == info.platform
            &&& g.publisher == info.publisher
            &&& g.stars == info.stars
        },
{
}

/// The details of a game read from its description page: the description is
/// the normalised markup of the review text; the alternative name is the
/// text of the alternative-names span, when there is one; the cover address
/// is the cover picture's `src` when it contains the placeholder mark, none
/// otherwise; the users' average and votes are read from the rating
/// picture's title; the favourites, completed and bookmarks counters are the
/// numbers in the first three bookmark items, in that order.
pub proof fn lemma_details_from_description(info: GameInfoV, screens: &Document, doc: &Document, extra: Seq<Document>)
    ensures
        game_desc_spec(info, screens, doc, extra) matches Some(g) ==> {
            &&& match doc.find_first(None, review_pred()) {
                Some(rv) => trim_html_spec(markup(doc, rv as int, false)) == Some(g.desc),
                None => false,
            }
            &&& g.alt_name == doc.first_text(None, alt_pred())
            &&& match doc.first_attr(None, cover_pred(), "src"@) {
                Some(src) => g.cover_image_url == (if contains_seq(src, NOCOVER_MARK@) {
                    Some(src)
                } else {
                    None
                }),
                None => false,
            }
            &&& match doc.first_attr(None, rating_pred(), "title"@) {
                Some(t) => users_stars_spec(t) == Some((g.users_stars, g.users_stars_sum)),
                None => false,
            }
            &&& {
                let marks = doc.find(None, bookmarks_pred());
                &&& marks.len() >= 3
                &&& bookmark_count(doc, marks[0]) == Some(g.favorites)
                &&& bookmark_count(doc, marks[1]) == Some(g.completed)
                &&& bookmark_count(doc, marks[2]) == Some(g.bookmarks)
            }
        },
{
}

fn string_opt(o: Option<Vec<char>>) -> (r: Option<String>)
    ensures
        opt_view(r) == match o {
            Some(v) => Some(v@),
            None => None::<Seq<char>>,
        },
{
    match o {
        Some(v) => Some(string_from_chars(&v)),
        None => None,
    }
}

fn game_desc_inner(info: &GameInfo, screens: &Document, doc: &Document, comment_pages: &Vec<Document>) -> (r: Option<GameInfoFull>)
    ensures
        match r {
            Some(g) => game_desc_spec(info@, screens, doc, comment_pages@) == Some(g@),
            None => game_desc_spec(info@, screens, doc, comment_pages@) is None,
        },
{
    let shots = match parse_screenshots(screens) {
        Some(s) => s,
        None => {
            return None;
        },
    };
    let rp = desc(main_content_exec(), elem_attr("div", "id", "reviewtext"));
    let text = match doc.find_first_exec(None, &rp) {
        Some(n) => match node_html_inner(doc, n) {
            Some(t) => t,
            None => {
                return None;
            },
        },
        None => {
            return None;
        },
    };
    let ap = desc(main_content_exec(), elem_class("span", "game_alt_names"));
    let alt = string_opt(doc.first_text_exec(None, &ap));
    let cp = desc(
        desc(desc(desc(main_content_exec(), elem_class("table", "gameinfo")), elem_class("td", "game-cover")), elem_class("div", "game_info_cover")),
        name("img"),
    );
    let cover = match doc.first_attr_exec(None, &cp, "src") {
        Some(c) => {
            let mark = str_chars(NOCOVER_MARK);
            if contains_chars(&c, &mark) {
                Some(string_from_chars(&c))
            } else {
                None
            }
        },
        None => {
            return None;
        },
    };
    let sp = desc(
        desc(desc(main_content_exec(), elem_class("table", "gameinfo")), elem_attr("span", "itemprop", "aggregateRating")),
        name("img"),
    );
    let (avg, votes) = match doc.first_attr_exec(None, &sp, "title") {
        Some(t) => {
            let s = string_from_chars(&t);
            match users_stars(s.as_str()) {
                Some(x) => x,
                None => {
                    return None;
                },
            }
        },
        None => {
            return None;
        },
    };
    let groups = match parse_game_groups(doc) {
        Some(g) => g,
        None => {
            return None;
        },
    };
    let (fav, done, marks) = match parse_bookmarks(doc) {
        Some(b) => b,
        None => {
            return None;
        },
    };
    let (rec, mods) = match parse_recommended_and_mods(doc) {
        Some(x) => x,
        None => {
            return None;
        },
    };
    let (comments, thread) = match comments_part_exec(doc, comment_pages) {
        Some(x) => x,
        None => {
            return None;
        },
    };
    Some(
        GameInfoFull {
            Id: info.Id,
            Name: info.Name.clone(),
            AltName: alt,
            CoverImageUrl: cover,
            Genre: info.Genre.clone(),
            Year: info.Year.clone(),
            Platform: info.Platform.clone(),
            Publisher: info.Publisher.clone(),
            Stars: info.Stars,
            Desc: text,
            UsersStars: avg,
            UsersStarsSum: votes,
            Favorites: fav,
            Completed: done,
            Bookmarks: marks,
            Recomended: rec,
            Mods: mods,
            GameGroups: groups,
            Comments: comments,
            CommentsThreadId: thread,
            Screenshots: shots,
        },
    )
}


/// The details of a game (see `game_desc_spec`): `info` completed from its
/// screenshots page `screens`, its description page `doc` and the further
/// comment pages `comment_pages` (pages 2 to `n` when the pager shows `n`
/// pages, as `comment_pages_plan` asks; any other number of pages is refused).
/// The pages must hold every part the details need.
pub fn get_game_desc(info: &GameInfo, screens: &Document, doc: &Document, comment_pages: &Vec<Document>) -> (r: GameInfoFull)
    requires
        game_desc_spec(info@, screens, doc, comment_pages@) is Some,
    ensures
        game_desc_spec(info@, screens, doc, comment_pages@) == Some(r@),
{
    match game_desc_inner(info, screens, doc, comment_pages) {
        Some(g) => g,
        None => unreached(),
    }
}

/// The details of a game (see `get_game_desc`); `None` when a part the pages
/// must have is missing or malformed.
pub fn try_get_game_desc(info: &GameInfo, screens: &Document, doc: &Document, comment_pages: &Vec<Document>) -> (r: Option<GameInfoFull>)
    ensures
        match r {
            Some(g) => game_desc_spec(info@, screens, doc, comment_pages@) == Some(g@),
            None => game_desc_spec(info@, screens, doc, comment_pages@) is None,
        },
{
    match game_desc_inner(info, screens, doc, comment_pages) {
        Some(_) => Some(get_game_desc(info, screens, doc, comment_pages)),
        None => None,
    }
}

/// The pages of one game: its screenshots page, its description page and
/// its further comment pages.
pub struct GamePages {
    pub screenshots: Document,
    pub desc: Document,
    pub comments: Vec<Document>,
}

fn enrich_inner(info: &Vec<GameInfo>, pages: &Vec<GamePages>) -> (r: Option<Vec<GameInfoFull>>)
    requires
        info@.len() == pages@.len(),
    ensures
        match r {
            Some(v) => {
                &&& v@.len() == info@.len()
                &&& forall|i: int|
                    0 <= i < info@.len() ==> game_desc_spec(
                        info@[i]@,
                        &pages@[i].screenshots,
                        &pages@[i].desc,
                        pages@[i].comments@,
                    ) == Some(#[trigger] v@[i]@)
                &&& forall|i: int| 0 <= i < info@.len() ==> (#[trigger] v@[i]).Id == info@[i].Id
            },
            None => exists|i: int|
                0 <= i < info@.len() && (#[trigger] game_desc_spec(
                    info@[i]@,
                    &pages@[i].screenshots,
                    &pages@[i].desc,
                    pages@[i].comments@,
                )) is None,
        },
{
    let mut result: Vec<GameInfoFull> = Vec::new();
    let mut i: usize = 0;
    while i < info.len()
        invariant
            0 <= i <= info@.len(),
            info@.len() == pages@.len(),
            result@.len() == i,
            forall|k: int|
                0 <= k < i ==> game_desc_spec(
                    info@[k]@,
                    &pages@[k].screenshots,
                    &pages@[k].desc,
                    pages@[k].comments@,
                ) == Some(#[trigger] result@[k]@),
        decreases info@.len() - i,
    {
        let p = &pages[i];
        match game_desc_inner(&info[i], &p.screenshots, &p.desc, &p.comments) {
            Some(g) => {
                result.push(g);
            },
            None => {
                return None;
            },
        }
        i = i + 1;
    }
    assert forall|k: int| 0 <= k < info@.len() implies (#[trigger] result@[k]).Id == info@[k].Id by {
        lemma_details_keep_entry(info@[k]@, &pages@[k].screenshots, &pages@[k].desc, pages@[k].comments@);
        assert(game_desc_spec(info@[k]@, &pages@[k].screenshots, &pages@[k].desc, pages@[k].comments@) == Some(result@[k]@));
    }
    Some(result)
}

/// The pages of every game of the list hold its details.
pub open spec fn all_details_read(info: Seq<GameInfo>, pages: Seq<GamePages>) -> bool {
    forall|i: int|
        0 <= i < info.len() ==> (#[trigger] game_desc_spec(
            info[i]@,
            &pages[i].screenshots,
            &pages[i].desc,
            pages[i].comments@,
        )) is Some
}

/// The details of every game of a list, in order, from each game's pages
/// (`pages[i]` are the pages of `info[i]`; see `get_game_desc`); every
/// game's pages must hold its details.
pub fn enrich_games_list(info: &Vec<GameInfo>, pages: &Vec<GamePages>) -> (r: Vec<GameInfoFull>)
    requires
        info@.len() == pages@.len(),
        all_details_read(info@, pages@),
    ensures
        r@.len() == info@.len(),
        forall|i: int|
            0 <= i < info@.len() ==> game_desc_spec(
                info@[i]@,
                &pages@[i].screenshots,
                &pages@[i].desc,
                pages@[i].comments@,
            ) == Some(#[trigger] r@[i]@),
        forall|i: int| 0 <= i < info@.len() ==> (#[trigger] r@[i]).Id == info@[i].Id,
{
    match enrich_inner(info, pages) {
        Some(v) => v,
        None => unreached(),
    }
}

/// The details of every game of a list (see `enrich_games_list`); `None`
/// when the details of some game cannot be read.
pub fn try_enrich_games_list(info: &Vec<GameInfo>, pages: &Vec<GamePages>) -> (r: Option<Vec<GameInfoFull>>)
    requires
        info@.len() == pages@.len(),
    ensures
        r is Some <==> all_details_read(info@, pages@),
        match r {
            Some(v) => {
                &&& v@.len() == info@.len()
                &&& forall|i: int|
                    0 <= i < info@.len() ==> game_desc_spec(
                        info@[i]@,
                        &pages@[i].screenshots,
                        &pages@[i].desc,
                        pages@[i].comments@,
                    ) == Some(#[trigger] v@[i]@)
                &&& forall|i: int| 0 <= i < info@.len() ==> (#[trigger] v@[i]).Id == info@[i].Id
            },
            None => true,
        },
{
    match enrich_inner(info, pages) {
        Some(v) => {
            assert forall|i: int| 0 <= i < info@.len() implies (#[trigger] game_desc_spec(
                info@[i]@,
                &pages@[i].screenshots,
                &pages@[i].desc,
                pages@[i].comments@,
            )) is Some by {
                assert(game_desc_spec(info@[i]@, &pages@[i].screenshots, &pages@[i].desc, pages@[i].comments@) == Some(v@[i]@));
            }
            Some(enrich_games_list(info, pages))
        },
        None => None,
    }
}

} // verus!
