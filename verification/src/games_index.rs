//! The catalogue: reading the games table of a catalogue page, the number
//! of catalogue pages, game ids in links, and assembling the whole catalogue
//! sorted by id without duplicates.
use vstd::prelude::*;
use crate::collect::{collect_opt, lemma_collect_fail, lemma_collect_kept, lemma_collect_member, lemma_collect_step, lemma_map_push, lemma_take_all};
use crate::dom::{and, class, desc, name, Document, Pred};
use crate::model::{games_view, GameInfo, GameInfoV};
use crate::pattern::{capture_i32, first_captures, group_i32, regex_first_captures};
use crate::text::{chars_eq, parse_i32, parse_i32_spec, str_chars, string_from_chars};

verus! {

/// Pattern of a game page link; group 1 is the game id.
pub const GAME_ID_PATTERN: &'static str = "/game/(\\d+)\\.html";

/// Pattern of the editor's rating; group 1 is the rating.
pub const REVIEW_STARS_PATTERN: &'static str = "Оценка рецензента - (\\d+) из 10";

/// The text shown where there is no rating.
pub const NO_RATING: &'static str = "Оценка отсутствует";

/// The game id in a link to a game page.
pub open spec fn game_id_spec(url: Seq<char>) -> Option<i32> {
    group_i32(regex_first_captures(GAME_ID_PATTERN@, url), 1)
}

fn game_id_inner(url: &str) -> (r: Option<i32>)
    ensures
        r == game_id_spec(url@),
{
    let caps = first_captures(GAME_ID_PATTERN, url);
    capture_i32(&caps, 1)
}

/// The game id in a link to a game page: the number in its first
/// `/game/<digits>.html`. The link must hold such a number within `i32`.
pub fn get_game_id_from_url(url: &str) -> (r: i32)
    requires
        game_id_spec(url@) is Some,
    ensures
        r == game_id_spec(url@).unwrap(),
{
    match game_id_inner(url) {
        Some(id) => id,
        None => unreached(),
    }
}

/// The game id in a link to a game page (see `get_game_id_from_url`);
/// `None` where the link holds no such number or it does not fit in an `i32`.
pub fn try_get_game_id_from_url(url: &str) -> (r: Option<i32>)
    ensures
        r == game_id_spec(url@),
{
    match game_id_inner(url) {
        Some(_) => Some(get_game_id_from_url(url)),
        None => None,
    }
}

/// `get_game_id_from_url` on a character vector.
pub fn game_id_of_chars(url: &Vec<char>) -> (r: Option<i32>)
    ensures
        r == game_id_spec(url@),
{
    let s = string_from_chars(url);
    game_id_inner(s.as_str())
}

/// The editor's rating given by the title of the rating picture: -1 for
/// "no rating", otherwise the number in "... - N из 10".
pub open spec fn review_stars_spec(title: Seq<char>) -> Option<i32> {
    if title == NO_RATING@ {
        Some(-1i32)
    } else {
        group_i32(regex_first_captures(REVIEW_STARS_PATTERN@, title), 1)
    }
}

/// The editor's rating given by the title of the rating picture.
pub fn review_stars(title: &Vec<char>) -> (r: Option<i32>)
    ensures
        r == review_stars_spec(title@),
{
    let none = str_chars(NO_RATING);
    if chars_eq(title, &none) {
        Some(-1)
    } else {
        let s = string_from_chars(title);
        let caps = first_captures(REVIEW_STARS_PATTERN, s.as_str());
        capture_i32(&caps, 1)
    }
}

/// The rows of the games table: `div.main-content table tr`.
pub open spec fn rows_pred() -> Pred {
    Pred::Descendant(
        Box::new(
            Pred::Descendant(
                Box::new(Pred::And(Box::new(Pred::Name("div")), Box::new(Pred::Class("main-content")))),
                Box::new(Pred::Name("table")),
            ),
        ),
        Box::new(Pred::Name("tr")),
    )
}

fn rows_pred_exec() -> (p: Pred)
    ensures
        p == rows_pred(),
{
    desc(desc(and(name("div"), class("main-content")), name("table")), name("tr"))
}

/// The elements named `td` among the nodes `s`, in order.
pub open spec fn cells_of(doc: &Document, s: Seq<usize>) -> Seq<usize>
    decreases s.len(),
{
    if s.len() == 0 {
        Seq::empty()
    } else if doc.elem_name(s.last() as int) == Some("td"@) {
        cells_of(doc, s.drop_last()).push(s.last())
    } else {
        cells_of(doc, s.drop_last())
    }
}

/// The `td` children of a table row.
pub open spec fn row_cells(doc: &Document, tr: usize) -> Seq<usize> {
    cells_of(doc, doc.children(tr as int))
}

/// The text of the first link in a cell.
pub open spec fn cell_link_text(doc: &Document, cell: usize) -> Option<Seq<char>> {
    doc.first_text(Some(cell), Pred::Name("a"))
}

/// What a table row gives: rows with fewer than six cells are skipped; a
/// row with six or more gives a game, or fails when a link, picture,
/// attribute, id or rating it needs is missing or malformed.
pub open spec fn row_game(doc: &Document, tr: usize) -> Option<Option<GameInfoV>> {
    let cells = row_cells(doc, tr);
    if cells.len() < 6 {
        Some(None)
    } else {
        let title = doc.find_first(Some(cells[0]), Pred::Name("a"));
        let stars = doc.first_attr(Some(cells[5]), Pred::Name("img"), "title"@);
        match title {
            None => None,
            Some(t) => {
                let nm = doc.attr_of(t as int, "title"@);
                let href = doc.attr_of(t as int, "href"@);
                let genre = cell_link_text(doc, cells[1]);
                let year = cell_link_text(doc, cells[2]);
                let platform = cell_link_text(doc, cells[3]);
                let publisher = cell_link_text(doc, cells[4]);
                if nm is None || href is None || genre is None || year is None || platform is None
                    || publisher is None || stars is None {
                    None
                } else {
                    let id = game_id_spec(href.unwrap());
                    let st = review_stars_spec(stars.unwrap());
                    if id is None || st is None {
                        None
                    } else {
                        Some(
                            Some(
                                GameInfoV {
                                    id: id.unwrap(),
                                    name: nm.unwrap(),
                                    genre: genre.unwrap(),
                                    year: year.unwrap(),
                                    platform: platform.unwrap(),
                                    publisher: publisher.unwrap(),
                                    stars: st.unwrap(),
                                },
                            ),
                        )
                    }
                }
            },
        }
    }
}

/// The games of a catalogue page, in table order; `None` when some row
/// with six or more cells is malformed.
pub open spec fn parse_page_spec(doc: &Document) -> Option<Seq<GameInfoV>> {
    collect_opt(doc.find(None, rows_pred()), |tr: usize| row_game(doc, tr))
}

/// The table row `tr` shows the game `g`: among the row's `td` children
/// (six or more), the first link of the first cell carries `g`'s name as its
/// `title`, whatever the link's text, and a link to `g`'s page as its
/// `href`; the first links of cells 2 to 5 read `g`'s genre, year, platform
/// and publisher; the `title` of the first picture of cell 6 is "no rating"
/// with `g.stars == -1`, or another title whose first rating capture is
/// `g.stars`.
pub open spec fn row_shows(doc: &Document, tr: usize, g: GameInfoV) -> bool {
    let cells = row_cells(doc, tr);
    &&& cells.len() >= 6
    &&& match doc.find_first(Some(cells[0]), Pred::Name("a")) {
        Some(t) => doc.attr_of(t as int, "title"@) == Some(g.name) && match doc.attr_of(
            t as int,
            "href"@,
        ) {
            Some(h) => game_id_spec(h) == Some(g.id),
            None => false,
        },
        None => false,
    }
    &&& doc.first_text(Some(cells[1]), Pred::Name("a")) == Some(g.genre)
    &&& doc.first_text(Some(cells[2]), Pred::Name("a")) == Some(g.year)
    &&& doc.first_text(Some(cells[3]), Pred::Name("a")) == Some(g.platform)
    &&& doc.first_text(Some(cells[4]), Pred::Name("a")) == Some(g.publisher)
    &&& match doc.first_attr(Some(cells[5]), Pred::Name("img"), "title"@) {
        Some(st) => if st == NO_RATING@ {
            g.stars == -1
        } else {
            group_i32(regex_first_captures(REVIEW_STARS_PATTERN@, st), 1) == Some(g.stars)
        },
        None => false,
    }
}

/// A game read from a table row is the game the row shows (`row_shows`):
/// in particular its name is the `title` of the first cell's first link.
pub proof fn lemma_row_game_shows(doc: &Document, tr: usize)
    ensures
        row_game(doc, tr) matches Some(Some(g)) ==> row_shows(doc, tr, g),
{
}

/// Every game of a catalogue page is the game some row of its games table
/// (`div.main-content table tr`) shows.
pub proof fn lemma_page_games_shown(doc: &Document)
    ensures
        parse_page_spec(doc) matches Some(gs) ==> forall|k: int|
            #![trigger gs[k]]
            0 <= k < gs.len() ==> exists|j: int|
                0 <= j < doc.find(None, rows_pred()).len() && row_shows(
                    doc,
                    #[trigger] doc.find(None, rows_pred())[j],
                    gs[k],
                ),
{
    let rows = doc.find(None, rows_pred());
    let f = |tr: usize| row_game(doc, tr);
    if let Some(gs) = parse_page_spec(doc) {
        lemma_collect_member(rows, f);
        assert forall|k: int| #![trigger gs[k]] 0 <= k < gs.len() implies exists|j: int|
            0 <= j < rows.len() && row_shows(doc, #[trigger] rows[j], gs[k]) by {
            let j = choose|i: int| 0 <= i < rows.len() && #[trigger] f(rows[i]) == Some(Some(gs[k]));
            lemma_row_game_shows(doc, rows[j]);
        }
    }
}

/// A row of the games table that lists a game: it has six or more `td`
/// cells.
pub open spec fn lists_game(doc: &Document, tr: usize) -> bool {
    row_cells(doc, tr).len() >= 6
}

/// A catalogue page read in full gives one game per row of its games table
/// that has six or more cells, in table order: game `k` is the game the
/// `k`-th such row shows (`row_shows`).
pub proof fn lemma_page_game_per_row(doc: &Document)
    ensures
        parse_page_spec(doc) matches Some(gs) ==> {
            let listed = doc.find(None, rows_pred()).filter(|tr: usize| lists_game(doc, tr));
            &&& gs.len() == listed.len()
            &&& forall|k: int| 0 <= k < gs.len() ==> row_shows(doc, #[trigger] listed[k], gs[k])
        },
{
    if let Some(gs) = parse_page_spec(doc) {
        let rows = doc.find(None, rows_pred());
        let f = |tr: usize| row_game(doc, tr);
        let keep = |tr: usize| lists_game(doc, tr);
        assert forall|i: int| 0 <= i < rows.len() implies ((#[trigger] f(rows[i]) matches Some(None)) <==> !keep(rows[i])) by {}
        lemma_collect_kept(rows, f, keep);
        let listed = rows.filter(keep);
        assert forall|k: int| 0 <= k < gs.len() implies row_shows(doc, #[trigger] listed[k], gs[k]) by {
            assert(f(listed[k]) == Some(Some(gs[k])));
            lemma_row_game_shows(doc, listed[k]);
        }
    }
}

fn row_cells_exec(doc: &Document, tr: usize) -> (r: Vec<usize>)
    requires
        tr < doc.nodes@.len(),
    ensures
        r@ == row_cells(doc, tr),
        forall|k: int| 0 <= k < r@.len() ==> r@[k] < doc.nodes@.len(),
{
    let kids = doc.children_exec(tr);
    proof {
        doc.lemma_children_in_range(tr as int, tr + 1);
    }
    let td = str_chars("td");
    let mut r: Vec<usize> = Vec::new();
    let mut k: usize = 0;
    while k < kids.len()
        invariant
            0 <= k <= kids@.len(),
            kids@ == doc.children(tr as int),
            forall|m: int| 0 <= m < kids@.len() ==> kids@[m] < doc.nodes@.len(),
            td@ == "td"@,
            r@ == cells_of(doc, kids@.take(k as int)),
            forall|m: int| 0 <= m < r@.len() ==> r@[m] < doc.nodes@.len(),
        decreases kids@.len() - k,
    {
        let j = kids[k];
        assert(kids@.take(k + 1).drop_last() =~= kids@.take(k as int));
        let is_td = match doc.name_of(j) {
            Some(n) => chars_eq(n, &td),
            None => false,
        };
        if is_td {
            r.push(j);
        }
        k = k + 1;
    }
    proof {
        lemma_take_all(kids@);
    }
    r
}

fn cell_link_text_exec(doc: &Document, cell: usize) -> (r: Option<Vec<char>>)
    ensures
        match r {
            Some(v) => cell_link_text(doc, cell) == Some(v@),
            None => cell_link_text(doc, cell) is None,
        },
{
    let a = name("a");
    doc.first_text_exec(Some(cell), &a)
}

/// A `String` holding the characters of `o`, when there is one.
fn string_of(o: &Option<Vec<char>>) -> (r: String)
    requires
        o is Some,
    ensures
        r@ == o.unwrap()@,
{
    match o {
        Some(v) => string_from_chars(v),
        None => String::new(),
    }
}

/// What one table row gives (see `row_game`).
pub fn parse_row(doc: &Document, tr: usize) -> (r: Option<Option<GameInfo>>)
    requires
        tr < doc.nodes@.len(),
    ensures
        match r {
            None => row_game(doc, tr) is None,
            Some(None) => row_game(doc, tr) == Some(None::<GameInfoV>),
            Some(Some(g)) => row_game(doc, tr) == Some(Some(g@)),
        },
{
    let cells = row_cells_exec(doc, tr);
    if cells.len() < 6 {
        return Some(None);
    }
    let a = name("a");
    let img = name("img");
    let title = doc.find_first_exec(Some(cells[0]), &a);
    let stars = doc.first_attr_exec(Some(cells[5]), &img, "title");
    let t = match title {
        None => {
            return None;
        },
        Some(t) => t,
    };
    let nm = doc.attr_copy(t, "title");
    let href = doc.attr_copy(t, "href");
    let genre = cell_link_text_exec(doc, cells[1]);
    let year = cell_link_text_exec(doc, cells[2]);
    let platform = cell_link_text_exec(doc, cells[3]);
    let publisher = cell_link_text_exec(doc, cells[4]);
    if nm.is_none() || href.is_none() || genre.is_none() || year.is_none() || platform.is_none()
        || publisher.is_none() || stars.is_none() {
        return None;
    }
    let id = match &href {
        Some(h) => game_id_of_chars(h),
        None => None,
    };
    let st = match &stars {
        Some(s) => review_stars(s),
        None => None,
    };
    match (id, st) {
        (Some(id), Some(st)) => {
            let g = GameInfo {
                Id: id,
                Name: string_of(&nm),
                Genre: string_of(&genre),
                Year: string_of(&year),
                Platform: string_of(&platform),
                Publisher: string_of(&publisher),
                Stars: st,
            };
            Some(Some(g))
        },
        _ => None,
    }
}

/// The games listed in the table of a catalogue page, in table order: for
/// every `div.main-content table tr` row with at least six `td` cells, the
/// name (`title` of the first link of cell 1), the id (from that link's
/// `href`), genre, year, platform and publisher (text of the first link of
/// cells 2 to 5) and the rating (from the `title` of the first picture of
/// cell 6). `None` where such a row lacks any of these.
fn parse_page_inner(doc: &Document) -> (r: Option<Vec<GameInfo>>)
    ensures
        match r {
            Some(v) => parse_page_spec(doc) == Some(games_view(v@)),
            None => parse_page_spec(doc) is None,
        },
{
    let p = rows_pred_exec();
    let rows = doc.find_exec(None, &p);
    proof {
        doc.lemma_find_in_range(None, rows_pred(), 0);
    }
    let ghost f = |tr: usize| row_game(doc, tr);
    let mut res: Vec<GameInfo> = Vec::new();
    let mut k: usize = 0;
    while k < rows.len()
        invariant
            0 <= k <= rows@.len(),
            rows@ == doc.find(None, rows_pred()),
            forall|m: int| 0 <= m < rows@.len() ==> rows@[m] < doc.nodes@.len(),
            f == (|tr: usize| row_game(doc, tr)),
            collect_opt(rows@.take(k as int), f) == Some(games_view(res@)),
        decreases rows@.len() - k,
    {
        proof {
            lemma_collect_step(rows@, k as int, f);
        }
        match parse_row(doc, rows[k]) {
            None => {
                proof {
                    lemma_collect_fail(rows@, k + 1, f);
                }
                return None;
            },
            Some(None) => {},
            Some(Some(g)) => {
                proof {
                    lemma_map_push(res@, g, |x: GameInfo| x@);
                }
                res.push(g);
            },
        }
        k = k + 1;
    }
    proof {
        lemma_take_all(rows@);
    }
    Some(res)
}

/// The games listed in the table of a catalogue page, in table order (see
/// `parse_page_spec`): for every `div.main-content table tr` row with at
/// least six `td` cells, the name (`title` of the first link of cell 1), the
/// id (from that link's `href`), genre, year, platform and publisher (text
/// of the first link of cells 2 to 5) and the rating (from the `title` of
/// the first picture of cell 6). Every such row must have all of these.
pub fn parse_page(doc: &Document) -> (r: Vec<GameInfo>)
    requires
        parse_page_spec(doc) is Some,
    ensures
        games_view(r@) == parse_page_spec(doc).unwrap(),
{
    match parse_page_inner(doc) {
        Some(v) => v,
        None => unreached(),
    }
}

/// The games of a catalogue page (see `parse_page`); `None` where a row with
/// six or more cells lacks something it needs.
pub fn try_parse_page(doc: &Document) -> (r: Option<Vec<GameInfo>>)
    ensures
        match r {
            Some(v) => parse_page_spec(doc) == Some(games_view(v@)),
            None => parse_page_spec(doc) is None,
        },
{
    match parse_page_inner(doc) {
        Some(_) => Some(parse_page(doc)),
        None => None,
    }
}

/// The pager lists: `ul.pager`.
pub open spec fn pager_pred() -> Pred {
    Pred::And(Box::new(Pred::Name("ul")), Box::new(Pred::Class("pager")))
}

/// The number of catalogue pages: the number in the last item of the last
/// `ul.pager` list, or, when that item is not a number (a "next" link), in
/// the item before it.
pub open spec fn max_pages_spec(doc: &Document) -> Option<i32> {
    match doc.find_last(None, pager_pred()) {
        None => None,
        Some(ul) => {
            let kids = doc.children(ul as int);
            if kids.len() == 0 {
                None
            } else {
                let page = kids.last();
                match parse_i32_spec(doc.text(page as int)) {
                    Some(n) => Some(n),
                    None => match doc.prev_from(page as int, page as int) {
                        Some(pv) => parse_i32_spec(doc.text(pv as int)),
                        None => None,
                    },
                }
            }
        },
    }
}

fn max_pages_inner(doc: &Document) -> (r: Option<i32>)
    ensures
        r == max_pages_spec(doc),
{
    let p = and(name("ul"), class("pager"));
    let ul = match doc.find_last_exec(None, &p) {
        Some(u) => u,
        None => {
            return None;
        },
    };
    let kids = doc.children_exec(ul);
    proof {
        doc.lemma_children_in_range(ul as int, ul + 1);
    }
    if kids.len() == 0 {
        return None;
    }
    let page = kids[kids.len() - 1];
    let t = doc.text_exec(page);
    match parse_i32(&t) {
        Some(n) => Some(n),
        None => match doc.prev_exec(page) {
            Some(pv) => {
                let t2 = doc.text_exec(pv);
                parse_i32(&t2)
            },
            None => None,
        },
    }
}


/// The number of catalogue pages shown by the pager of a catalogue page
/// (see `max_pages_spec`); the page must show it.
pub fn find_max_pages(doc: &Document) -> (r: i32)
    requires
        max_pages_spec(doc) is Some,
    ensures
        r == max_pages_spec(doc).unwrap(),
{
    match max_pages_inner(doc) {
        Some(n) => n,
        None => unreached(),
    }
}

/// The number of catalogue pages shown by the pager of a catalogue page;
/// `None` when there is no pager or neither its last item nor the one
/// before holds a number.
pub fn try_find_max_pages(doc: &Document) -> (r: Option<i32>)
    ensures
        r == max_pages_spec(doc),
{
    match max_pages_inner(doc) {
        Some(_) => Some(find_max_pages(doc)),
        None => None,
    }
}

/// Why the catalogue could not be assembled.
#[derive(Debug, PartialEq, Eq)]
pub enum CatalogError {
    /// The catalogue page at this position (counting from 0) is malformed.
    MalformedPage(usize),
    /// The pages list no game at all.
    Empty,
    /// Two entries have this id.
    DuplicateId(i32),
}

/// The games of all pages, in page order, or the position of the first
/// malformed page.
pub open spec fn pages_games(pages: Seq<Document>) -> Result<Seq<GameInfoV>, usize>
    decreases pages.len(),
{
    if pages.len() == 0 {
        Ok(Seq::empty())
    } else {
        match pages_games(pages.drop_last()) {
            Err(k) => Err(k),
            Ok(acc) => match parse_page_spec(&pages.last()) {
                None => Err((pages.len() - 1) as usize),
                Some(g) => Ok(acc + g),
            },
        }
    }
}

/// Ids strictly increase along `s`.
pub open spec fn ids_increasing(s: Seq<GameInfoV>) -> bool {
    forall|i: int, j: int| 0 <= i < j < s.len() ==> s[i].id < s[j].id
}

/// Ids do not decrease along `s`.
pub open spec fn ids_sorted(s: Seq<GameInfoV>) -> bool {
    forall|i: int, j: int| 0 <= i <= j < s.len() ==> s[i].id <= s[j].id
}

/// Two different entries of `s` have the id `id`.
pub open spec fn has_dup_id(s: Seq<GameInfoV>, id: i32) -> bool {
    exists|i: int, j: int| 0 <= i < j < s.len() && s[i].id == id && s[j].id == id
}

/// No two entries of `s` share an id.
pub open spec fn ids_distinct(s: Seq<GameInfoV>) -> bool {
    forall|i: int, j: int| 0 <= i < j < s.len() ==> s[i].id != s[j].id
}

/// Two neighbouring entries of `s` have the id `id`.
pub open spec fn adjacent_dup(s: Seq<GameInfoV>, id: i32) -> bool {
    exists|k: int| 0 <= k && k + 1 < s.len() && #[trigger] s[k].id == id && s[k + 1].id == id
}

/// The first pair of neighbours sharing an id `id` is at position `k`.
pub open spec fn first_adjacent_dup(s: Seq<GameInfoV>, k: int, id: i32) -> bool {
    &&& 0 <= k && k + 1 < s.len()
    &&& s[k].id == id && s[k + 1].id == id
    &&& forall|m: int| 0 <= m < k ==> #[trigger] s[m].id != s[m + 1].id
}

/// Some first pair of neighbours shares `id`.
pub open spec fn first_dup_is(s: Seq<GameInfoV>, id: i32) -> bool {
    exists|k: int| #[trigger] first_adjacent_dup(s, k, id)
}

/// Looks for consecutive equal ids: `Empty` for an empty list,
/// `DuplicateId(id)` for the first pair of neighbours that share `id`.
#[verifier::spinoff_prover]
fn find_duplicate(array: &Vec<GameInfo>) -> (r: Result<(), CatalogError>)
    ensures
        array@.len() == 0 ==> r matches Err(CatalogError::Empty),
        array@.len() > 0 ==> (r is Ok <==> forall|id: i32| !adjacent_dup(games_view(array@), id)),
        r matches Err(CatalogError::DuplicateId(id)) ==> first_dup_is(games_view(array@), id),
        !(r matches Err(CatalogError::MalformedPage(_))),
        r matches Err(CatalogError::Empty) ==> array@.len() == 0,
{
    if array.len() == 0 {
        return Err(CatalogError::Empty);
    }
    let ghost gv = games_view(array@);
    let mut last_val = array[0].Id;
    let mut i: usize = 1;
    while i < array.len()
        invariant
            1 <= i <= array@.len(),
            gv == games_view(array@),
            last_val == gv[i - 1].id,
            forall|k: int| 0 <= k && k + 1 < i ==> #[trigger] gv[k].id != gv[k + 1].id,
        decreases array@.len() - i,
    {
        if last_val == array[i].Id {
            assert(gv[i - 1].id == last_val && gv[i as int].id == last_val);
            assert(adjacent_dup(gv, last_val));
            assert(first_adjacent_dup(gv, i - 1, last_val));
            assert(first_dup_is(gv, last_val));
            return Err(CatalogError::DuplicateId(last_val));
        }
        last_val = array[i].Id;
        i = i + 1;
    }
    assert forall|id: i32| !adjacent_dup(gv, id) by {
        if adjacent_dup(gv, id) {
            let k = choose|k: int| 0 <= k && k + 1 < gv.len() && #[trigger] gv[k].id == id && gv[k + 1].id == id;
            assert(gv[k].id != gv[k + 1].id);
        }
    }
    Ok(())
}

/// Checks a list for consecutive equal ids (on a list sorted by id: for a
/// repeated id). The list must be non-empty and free of them.
pub fn check_duplicates(array: &Vec<GameInfo>)
    requires
        array@.len() >= 1,
        forall|id: i32| !adjacent_dup(games_view(array@), id),
{
    match find_duplicate(array) {
        Ok(()) => {},
        Err(_) => unreached(),
    }
}

/// A list sorted by id with equal multisets of entries: sorting `v` by id.
pub fn sort_by_id(v: Vec<GameInfo>) -> (r: Vec<GameInfo>)
    ensures
        games_view(r@).to_multiset() == games_view(v@).to_multiset(),
        ids_sorted(games_view(r@)),
{
    broadcast use vstd::seq_lib::group_to_multiset_ensures;

    let ghost all = games_view(v@).to_multiset();
    let mut src = v;
    let mut r: Vec<GameInfo> = Vec::new();
    assert(games_view(r@) =~= Seq::<GameInfoV>::empty());
    while src.len() > 0
        invariant
            games_view(r@).to_multiset().add(games_view(src@).to_multiset()) == all,
            ids_sorted(games_view(r@)),
        decreases src@.len(),
    {
        let ghost src0 = src@;
        let x = src.pop().unwrap();
        proof {
            assert(src0 =~= src@.push(x));
            lemma_map_push(src@, x, |g: GameInfo| g@);
        }
        let mut k: usize = 0;
        while k < r.len() && r[k].Id <= x.Id
            invariant
                0 <= k <= r@.len(),
                forall|m: int| 0 <= m < k ==> r@[m].Id <= x.Id,
            decreases r@.len() - k,
        {
            k = k + 1;
        }
        let ghost r0 = games_view(r@);
        let ghost xv = x@;
        r.insert(k, x);
        proof {
            assert(games_view(r@) =~= r0.insert(k as int, xv));
            assert(ids_sorted(games_view(r@))) by {
                let s = games_view(r@);
                assert forall|i: int, j: int| 0 <= i <= j < s.len() implies s[i].id <= s[j].id by {
                    if j < k {
                        assert(s[i] == r0[i] && s[j] == r0[j]);
                    } else if j == k {
                        if i < k {
                            assert(s[i] == r0[i]);
                        }
                    } else if i == k {
                        assert(s[j] == r0[j - 1]);
                        if k < r0.len() {
                            assert(r0[k as int].id > xv.id);
                        }
                    } else if i < k {
                        assert(s[i] == r0[i] && s[j] == r0[j - 1]);
                    } else {
                        assert(s[i] == r0[i - 1] && s[j] == r0[j - 1]);
                    }
                }
            }
            vstd::seq_lib::to_multiset_insert(r0, k as int, xv);
            vstd::seq_lib::to_multiset_build(games_view(src@), xv);
            assert(games_view(r@).to_multiset() == r0.to_multiset().insert(xv));
            assert(games_view(src@).push(xv).to_multiset() == games_view(src@).to_multiset().insert(
                xv,
            ));
            assert(games_view(src0).to_multiset() == games_view(src@).to_multiset().insert(xv));
            assert(games_view(r@).to_multiset().add(games_view(src@).to_multiset()) =~= all);
        }
    }
    proof {
        assert(games_view(src@) =~= Seq::<GameInfoV>::empty());
        assert(games_view(r@).to_multiset() =~= all);
    }
    r
}


proof fn lemma_two_positions_count<A>(s: Seq<A>, i: int, j: int)
    requires
        0 <= i < j < s.len(),
        s[i] == s[j],
    ensures
        s.to_multiset().count(s[i]) >= 2,
{
    broadcast use vstd::multiset::group_multiset_axioms;
    broadcast use vstd::seq_lib::group_to_multiset_ensures;

    let t = s.remove(j);
    assert(t[i] == s[i]);
    assert(t.contains(s[i]));
    assert(t.to_multiset().count(s[i]) > 0);
}

proof fn lemma_count_two_positions<A>(s: Seq<A>, x: A)
    requires
        s.to_multiset().count(x) >= 2,
    ensures
        exists|i: int, j: int| 0 <= i < j < s.len() && s[i] == x && s[j] == x,
{
    broadcast use vstd::multiset::group_multiset_axioms;
    broadcast use vstd::seq_lib::group_to_multiset_ensures;

    assert(s.contains(x));
    let i = choose|i: int| 0 <= i < s.len() && s[i] == x;
    let t = s.remove(i);
    assert(t.to_multiset().count(x) > 0);
    assert(t.contains(x));
    let j0 = choose|j: int| 0 <= j < t.len() && t[j] == x;
    if j0 < i {
        assert(s[j0] == x);
    } else {
        assert(s[j0 + 1] == x);
    }
}

/// Entries that share an id in one list share it in every list with the
/// same entries.
pub proof fn lemma_dup_transfer(s1: Seq<GameInfoV>, s2: Seq<GameInfoV>, id: i32)
    requires
        s1.to_multiset() == s2.to_multiset(),
        has_dup_id(s1, id),
    ensures
        has_dup_id(s2, id),
{
    broadcast use vstd::multiset::group_multiset_axioms;
    broadcast use vstd::seq_lib::group_to_multiset_ensures;

    let (i, j) = choose|i: int, j: int| 0 <= i < j < s1.len() && s1[i].id == id && s1[j].id == id;
    let x = s1[i];
    let y = s1[j];
    if x == y {
        lemma_two_positions_count(s1, i, j);
        lemma_count_two_positions(s2, x);
    } else {
        assert(s1.contains(x) && s1.contains(y));
        assert(s1.to_multiset().count(x) > 0 && s1.to_multiset().count(y) > 0);
        assert(s2.to_multiset().count(x) > 0 && s2.to_multiset().count(y) > 0);
        assert(s2.contains(x) && s2.contains(y));
        let a = choose|a: int| 0 <= a < s2.len() && s2[a] == x;
        let b = choose|b: int| 0 <= b < s2.len() && s2[b] == y;
        if a < b {
            assert(s2[a].id == id && s2[b].id == id);
        } else {
            assert(s2[b].id == id && s2[a].id == id);
        }
    }
}

/// In a list sorted by id, no equal neighbours means strictly increasing ids.
proof fn lemma_sorted_no_adjacent_increasing(s: Seq<GameInfoV>)
    requires
        ids_sorted(s),
        forall|id: i32| !adjacent_dup(s, id),
    ensures
        ids_increasing(s),
{
    assert forall|i: int, j: int| 0 <= i < j < s.len() implies s[i].id < s[j].id by {
        assert(s[i].id <= s[i + 1].id);
        if s[i].id == s[i + 1].id {
            assert(adjacent_dup(s, s[i].id));
        }
        assert(s[i + 1].id <= s[j].id);
    }
}

proof fn lemma_pages_fail(pages: Seq<Document>, m: int, k: usize)
    requires
        0 <= m <= pages.len(),
        pages_games(pages.take(m)) == Err::<Seq<GameInfoV>, usize>(k),
    ensures
        pages_games(pages) == Err::<Seq<GameInfoV>, usize>(k),
    decreases pages.len() - m,
{
    if m == pages.len() {
        assert(pages.take(m) =~= pages);
    } else {
        assert(pages.take(m + 1).drop_last() =~= pages.take(m));
        lemma_pages_fail(pages, m + 1, k);
    }
}

/// The catalogue can be assembled from these pages: every page reads, they
/// list at least one game, and no two entries share an id.
pub open spec fn catalog_ok(pages: Seq<Document>) -> bool {
    pages_games(pages) matches Ok(all) && all.len() > 0 && ids_distinct(all)
}

fn catalog_inner(pages: &Vec<Document>) -> (r: Result<Vec<GameInfo>, CatalogError>)
    ensures
        match pages_games(pages@) {
            Err(k) => r matches Err(CatalogError::MalformedPage(k2)) && k2 == k,
            Ok(all) => if all.len() == 0 {
                r matches Err(CatalogError::Empty)
            } else {
                &&& (r is Ok <==> ids_distinct(all))
                &&& (r matches Ok(v) ==> {
                    &&& ids_increasing(games_view(v@))
                    &&& games_view(v@).to_multiset() == all.to_multiset()
                })
                &&& (r matches Err(e) ==> e matches CatalogError::DuplicateId(id) && has_dup_id(
                    all,
                    id,
                ))
            },
        },
{
    let mut result: Vec<GameInfo> = Vec::new();
    let mut i: usize = 0;
    assert(pages@.take(0) =~= Seq::<Document>::empty());
    assert(games_view(result@) =~= Seq::<GameInfoV>::empty());
    while i < pages.len()
        invariant
            0 <= i <= pages@.len(),
            pages_games(pages@.take(i as int)) == Ok::<Seq<GameInfoV>, usize>(games_view(result@)),
        decreases pages@.len() - i,
    {
        assert(pages@.take(i + 1).drop_last() =~= pages@.take(i as int));
        assert(pages@.take(i + 1).last() == pages@[i as int]);
        match parse_page_inner(&pages[i]) {
            None => {
                proof {
                    lemma_pages_fail(pages@, i + 1, i);
                }
                return Err(CatalogError::MalformedPage(i));
            },
            Some(mut games) => {
                let ghost before = games_view(result@);
                let ghost got = games_view(games@);
                result.append(&mut games);
                assert(games_view(result@) =~= before + got);
            },
        }
        i = i + 1;
    }
    proof {
        lemma_take_all(pages@);
    }
    let ghost all = games_view(result@);
    if result.len() == 0 {
        return Err(CatalogError::Empty);
    }
    let sorted = sort_by_id(result);
    let ghost sv = games_view(sorted@);
    match find_duplicate(&sorted) {
        Ok(()) => {
            proof {
                lemma_sorted_no_adjacent_increasing(sv);
                if !ids_distinct(all) {
                    let (a, b) = choose|a: int, b: int| 0 <= a < b < all.len() && all[a].id == all[b].id;
                    assert(has_dup_id(all, all[a].id));
                    lemma_dup_transfer(all, sv, all[a].id);
                    let (c, d) = choose|c: int, d: int| 0 <= c < d < sv.len() && sv[c].id == all[a].id && sv[d].id == all[a].id;
                    assert(sv[c].id < sv[d].id);
                }
            }
            Ok(sorted)
        },
        Err(e) => {
            proof {
                broadcast use vstd::seq_lib::group_to_multiset_ensures;

                assert(sv.to_multiset().len() == all.to_multiset().len());
                assert(sv.len() > 0);
                if let CatalogError::DuplicateId(id) = e {
                    assert(first_dup_is(sv, id));
                    let k0 = choose|k: int| first_adjacent_dup(sv, k, id);
                    assert(sv[k0].id == id && sv[k0 + 1].id == id);
                    let k = choose|k: int| 0 <= k && k + 1 < sv.len() && #[trigger] sv[k].id == id && sv[k + 1].id == id;
                    assert(has_dup_id(sv, id));
                    lemma_dup_transfer(sv, all, id);
                    let (c, d) = choose|c: int, d: int| 0 <= c < d < all.len() && all[c].id == id && all[d].id == id;
                    assert(!ids_distinct(all));
                }
            }
            Err(e)
        },
    }
}


/// The whole catalogue from its pages: the games of all pages, sorted by
/// strictly increasing id, with the same entries as the pages list. The
/// pages must all read, list some game, and share no id between entries.
pub fn parse_games_catalog(pages: &Vec<Document>) -> (r: Vec<GameInfo>)
    requires
        catalog_ok(pages@),
    ensures
        pages_games(pages@) matches Ok(all) && ids_increasing(games_view(r@))
            && games_view(r@).to_multiset() == all.to_multiset(),
{
    match catalog_inner(pages) {
        Ok(v) => v,
        Err(_) => unreached(),
    }
}

/// The whole catalogue from its pages (see `parse_games_catalog`), or why it
/// cannot be assembled: `MalformedPage(k)` when page `k` is malformed (the
/// first such page), `Empty` when the pages list no game, `DuplicateId(id)`
/// when two entries share `id`.
pub fn try_parse_games_catalog(pages: &Vec<Document>) -> (r: Result<Vec<GameInfo>, CatalogError>)
    ensures
        r is Ok <==> catalog_ok(pages@),
        match pages_games(pages@) {
            Err(k) => r matches Err(CatalogError::MalformedPage(k2)) && k2 == k,
            Ok(all) => if all.len() == 0 {
                r matches Err(CatalogError::Empty)
            } else {
                &&& (r matches Ok(v) ==> {
                    &&& ids_increasing(games_view(v@))
                    &&& games_view(v@).to_multiset() == all.to_multiset()
                })
                &&& (r matches Err(e) ==> e matches CatalogError::DuplicateId(id) && has_dup_id(
                    all,
                    id,
                ))
            },
        },
{
    match catalog_inner(pages) {
        Ok(_) => Ok(parse_games_catalog(pages)),
        Err(e) => Err(e),
    }
}

/// On a list sorted by id, finding no equal neighbours is finding no
/// repeated id: what `check_duplicates` reports of the sorted catalogue.
pub proof fn lemma_sorted_check_is_distinct(s: Seq<GameInfoV>)
    requires
        ids_sorted(s),
    ensures
        (forall|id: i32| !adjacent_dup(s, id)) <==> ids_distinct(s),
{
    if forall|id: i32| !adjacent_dup(s, id) {
        lemma_sorted_no_adjacent_increasing(s);
    }
    if ids_distinct(s) {
        assert forall|id: i32| !adjacent_dup(s, id) by {
            if adjacent_dup(s, id) {
                let k = choose|k: int| 0 <= k && k + 1 < s.len() && #[trigger] s[k].id == id && s[k + 1].id == id;
                assert(s[k].id != s[k + 1].id);
            }
        }
    }
}

} // verus!
