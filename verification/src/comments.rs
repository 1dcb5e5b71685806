//! User comments of a game page: author, date, rating and text, the users'
//! ratings, and the id of the comment thread.
use vstd::prelude::*;
use chrono::TimeZone;
use crate::collect::{collect_opt, lemma_collect_kept, lemma_collect_fail, lemma_collect_step, lemma_map_append, lemma_map_push, lemma_take_all};
use crate::dom::{and, attr, class, desc, name, Document, Pred};
use crate::games_index::NO_RATING;
use crate::markup::{markup, node_html_inner, node_html_spec, trim_html_spec};
use crate::model::{CommentV, TGameComment};
use crate::pattern::{capture_i32, capture_text, first_captures, group_i32, group_text, regex_first_captures};
use crate::text::{chars_eq, str_chars, string_from_chars, trim, trim_chars};

verus! {

/// Pattern of a user's rating of a game; group 1 is the rating.
pub const COMMENT_STARS_PATTERN: &'static str = "Оценка пользователя - (\\d+) из 10";

/// Pattern of the comment thread id in the page script; group 1 is the id.
pub const THREAD_ID_PATTERN: &'static str = "\"gamethreadid\":\\s*\"(\\d+)\"";

/// Format of a comment date.
pub const COMMENT_DATE_FORMAT: &'static str = "%d.%m.%Y %H:%M";

/// The instant, in seconds since 1970-01-01 00:00 UTC, that `chrono` reads
/// from `text` with the strftime-style `format`, taking the time as UTC;
/// `None` when `text` does not fit `format`.
pub uninterp spec fn utc_datetime_from_str(text: Seq<char>, format: Seq<char>) -> Option<i64>;

/// Trusted: `chrono::Utc.datetime_from_str(text, format)`, as seconds since
/// the epoch. The contract only names the result (`utc_datetime_from_str`).
#[verifier::external_body]
#[allow(deprecated)]
pub(crate) fn parse_utc_timestamp(text: &str, format: &str) -> (r: Option<i64>)
    ensures
        r == utc_datetime_from_str(text@, format@),
{
    chrono::Utc.datetime_from_str(text, format).ok().map(|d| d.timestamp())
}

/// A user's rating given by the title of the rating picture: -1 for
/// "no rating", otherwise the number in "... - N из 10".
pub open spec fn comment_stars_spec(value: Seq<char>) -> Option<i32> {
    if value == NO_RATING@ {
        Some(-1i32)
    } else {
        group_i32(regex_first_captures(COMMENT_STARS_PATTERN@, value), 1)
    }
}

fn comment_stars_inner(value: &str) -> (r: Option<i32>)
    ensures
        r == comment_stars_spec(value@),
{
    let v = str_chars(value);
    let none = str_chars(NO_RATING);
    if chars_eq(&v, &none) {
        Some(-1i32)
    } else {
        let caps = first_captures(COMMENT_STARS_PATTERN, value);
        capture_i32(&caps, 1)
    }
}

/// A user's rating given by the title of the rating picture (see
/// `comment_stars_spec`); the title must hold a rating.
pub fn parse_comment_user_stars(value: &str) -> (r: i32)
    requires
        comment_stars_spec(value@) is Some,
    ensures
        r == comment_stars_spec(value@).unwrap(),
{
    match comment_stars_inner(value) {
        Some(n) => n,
        None => unreached(),
    }
}

/// A user's rating given by the title of the rating picture (see
/// `comment_stars_spec`); `None` where the title holds no rating.
pub fn try_parse_comment_user_stars(value: &str) -> (r: Option<i32>)
    ensures
        r == comment_stars_spec(value@),
{
    match comment_stars_inner(value) {
        Some(_) => Some(parse_comment_user_stars(value)),
        None => None,
    }
}

/// The rows of the comment tables:
/// `div.game_comments_container table.game_comments_table tr`.
pub open spec fn comment_rows_pred() -> Pred {
    Pred::Descendant(
        Box::new(
            Pred::And(Box::new(Pred::Name("div")), Box::new(Pred::Class("game_comments_container"))),
        ),
        Box::new(
            Pred::Descendant(
                Box::new(
                    Pred::And(Box::new(Pred::Name("table")), Box::new(Pred::Class("game_comments_table"))),
                ),
                Box::new(Pred::Name("tr")),
            ),
        ),
    )
}

/// `div.middlesmall`.
pub open spec fn middlesmall() -> Pred {
    Pred::And(Box::new(Pred::Name("div")), Box::new(Pred::Class("middlesmall")))
}

/// The cell that marks a comment row: `td.game_comments_row`.
pub open spec fn comment_cell_pred() -> Pred {
    Pred::And(Box::new(Pred::Name("td")), Box::new(Pred::Class("game_comments_row")))
}

/// The author link: `div.middlesmall b a`.
pub open spec fn user_link_pred() -> Pred {
    Pred::Descendant(
        Box::new(Pred::Descendant(Box::new(middlesmall()), Box::new(Pred::Name("b")))),
        Box::new(Pred::Name("a")),
    )
}

/// The author name without a link: `div.middlesmall b`.
pub open spec fn user_bold_pred() -> Pred {
    Pred::Descendant(Box::new(middlesmall()), Box::new(Pred::Name("b")))
}

/// The comment body: `td.game_comments_text div.middlesmall`.
pub open spec fn comment_text_pred() -> Pred {
    Pred::Descendant(
        Box::new(Pred::And(Box::new(Pred::Name("td")), Box::new(Pred::Class("game_comments_text")))),
        Box::new(middlesmall()),
    )
}

/// The comment date: `div.middlesmall.red`.
pub open spec fn comment_date_pred() -> Pred {
    Pred::And(Box::new(middlesmall()), Box::new(Pred::Class("red")))
}

/// The author (link and name) of the comment in cell `cell`.
pub open spec fn comment_user(doc: &Document, cell: usize) -> Option<(Option<Seq<char>>, Seq<char>)> {
    match doc.find_first(Some(cell), user_link_pred()) {
        Some(a) => match doc.attr_of(a as int, "href"@) {
            Some(h) => Some((Some(h), doc.text(a as int))),
            None => None,
        },
        None => match doc.first_text(Some(cell), user_bold_pred()) {
            Some(t) => Some((None, t)),
            None => None,
        },
    }
}

/// What a comment table row gives: rows without a `td.game_comments_row`
/// cell are skipped; the others give a comment, or fail when its author,
/// body, date or rating is missing or malformed.
pub open spec fn comment_item(doc: &Document, n: usize) -> Option<Option<CommentV>> {
    match doc.find_first(Some(n), comment_cell_pred()) {
        None => Some(None),
        Some(cell) => {
            let user = comment_user(doc, cell);
            let body = match doc.find_first(Some(n), comment_text_pred()) {
                Some(b) => node_html_spec(doc, b as int),
                None => None,
            };
            let date = match doc.first_text(Some(n), comment_date_pred()) {
                Some(t) => utc_datetime_from_str(trim(t), COMMENT_DATE_FORMAT@),
                None => None,
            };
            let stars = match doc.first_attr(Some(n), Pred::Name("img"), "title"@) {
                Some(t) => comment_stars_spec(t),
                None => None,
            };
            if user is None || body is None || date is None || stars is None {
                None
            } else {
                Some(
                    Some(
                        CommentV {
                            user_ref: user.unwrap().0,
                            user_name: user.unwrap().1,
                            date: date.unwrap(),
                            stars: stars.unwrap(),
                            comment: body.unwrap(),
                        },
                    ),
                )
            }
        },
    }
}

/// The comments on a page, in order; `None` when one is malformed.
pub open spec fn comments_spec(doc: &Document) -> Option<Seq<CommentV>> {
    collect_opt(doc.find(None, comment_rows_pred()), |n: usize| comment_item(doc, n))
}

/// The comment table row `n` shows the comment `c`: the row has a
/// `td.game_comments_row` cell; the author is the cell's user link (its
/// `href` and text) or, without a link, the text of its bold name; the body
/// is the normalised markup of the row's comment text; the date is read from
/// the trimmed text of the row's date with the comment date format; the
/// rating is -1 for a "no rating" picture title, otherwise the first rating
/// capture of that title.
pub open spec fn row_shows_comment(doc: &Document, n: usize, c: CommentV) -> bool {
    &&& match doc.find_first(Some(n), comment_cell_pred()) {
        Some(cell) => match doc.find_first(Some(cell), user_link_pred()) {
            Some(a) => doc.attr_of(a as int, "href"@) matches Some(h) && c.user_ref == Some(h) && c.user_name
                == doc.text(a as int),
            None => c.user_ref is None && doc.first_text(Some(cell), user_bold_pred()) == Some(c.user_name),
        },
        None => false,
    }
    &&& match doc.find_first(Some(n), comment_text_pred()) {
        Some(b) => trim_html_spec(markup(doc, b as int, false)) == Some(c.comment),
        None => false,
    }
    &&& match doc.first_text(Some(n), comment_date_pred()) {
        Some(t) => utc_datetime_from_str(trim(t), COMMENT_DATE_FORMAT@) == Some(c.date),
        None => false,
    }
    &&& match doc.first_attr(Some(n), Pred::Name("img"), "title"@) {
        Some(st) => if st == NO_RATING@ {
            c.stars == -1
        } else {
            group_i32(regex_first_captures(COMMENT_STARS_PATTERN@, st), 1) == Some(c.stars)
        },
        None => false,
    }
}

/// A comment table row holding a comment: it has a `td.game_comments_row`
/// cell.
pub open spec fn holds_comment(doc: &Document, n: usize) -> bool {
    doc.find_first(Some(n), comment_cell_pred()) is Some
}

/// A page read in full gives one comment per comment table row that holds
/// one, in document order: comment `k` is what the `k`-th such row shows
/// (`row_shows_comment`).
pub proof fn lemma_comment_per_row(doc: &Document)
    ensures
        comments_spec(doc) matches Some(cs) ==> {
            let rows = doc.find(None, comment_rows_pred()).filter(|n: usize| holds_comment(doc, n));
            &&& cs.len() == rows.len()
            &&& forall|k: int| 0 <= k < cs.len() ==> row_shows_comment(doc, #[trigger] rows[k], cs[k])
        },
{
    if let Some(cs) = comments_spec(doc) {
        let all = doc.find(None, comment_rows_pred());
        let f = |n: usize| comment_item(doc, n);
        let keep = |n: usize| holds_comment(doc, n);
        assert forall|i: int| 0 <= i < all.len() implies ((#[trigger] f(all[i]) matches Some(None)) <==> !keep(all[i])) by {}
        lemma_collect_kept(all, f, keep);
        let rows = all.filter(keep);
        assert forall|k: int| 0 <= k < cs.len() implies row_shows_comment(doc, #[trigger] rows[k], cs[k]) by {
            assert(f(rows[k]) == Some(Some(cs[k])));
        }
    }
}

/// The views of a list of comments.
pub open spec fn comments_view(s: Seq<TGameComment>) -> Seq<CommentV> {
    s.map_values(|c: TGameComment| c@)
}

fn middlesmall_exec() -> (p: Pred)
    ensures
        p == middlesmall(),
{
    and(name("div"), class("middlesmall"))
}

fn comment_user_exec(doc: &Document, cell: usize) -> (r: Option<(Option<String>, String)>)
    requires
        cell < doc.nodes@.len(),
    ensures
        match r {
            Some((rf, nm)) => comment_user(doc, cell) matches Some((rf2, nm2)) && nm2 == nm@ && match rf {
                Some(x) => rf2 == Some(x@),
                None => rf2 is None,
            },
            None => comment_user(doc, cell) is None,
        },
{
    let link = desc(desc(middlesmall_exec(), name("b")), name("a"));
    match doc.find_first_exec(Some(cell), &link) {
        Some(a) => match doc.attr_copy(a, "href") {
            Some(h) => {
                let t = doc.text_exec(a);
                Some((Some(string_from_chars(&h)), string_from_chars(&t)))
            },
            None => None,
        },
        None => {
            let bold = desc(middlesmall_exec(), name("b"));
            match doc.first_text_exec(Some(cell), &bold) {
                Some(t) => Some((None, string_from_chars(&t))),
                None => None,
            }
        },
    }
}

/// What one comment table row gives (see `comment_item`).
pub fn parse_comment_row(doc: &Document, n: usize) -> (r: Option<Option<TGameComment>>)
    requires
        n < doc.nodes@.len(),
    ensures
        match r {
            None => comment_item(doc, n) is None,
            Some(None) => comment_item(doc, n) == Some(None::<CommentV>),
            Some(Some(c)) => comment_item(doc, n) == Some(Some(c@)),
        },
{
    let cell_p = and(name("td"), class("game_comments_row"));
    let cell = match doc.find_first_exec(Some(n), &cell_p) {
        None => {
            return Some(None);
        },
        Some(c) => c,
    };
    let user = comment_user_exec(doc, cell);
    let text_p = desc(and(name("td"), class("game_comments_text")), middlesmall_exec());
    let body = match doc.find_first_exec(Some(n), &text_p) {
        Some(b) => node_html_inner(doc, b),
        None => None,
    };
    let date_p = and(middlesmall_exec(), class("red"));
    let date = match doc.first_text_exec(Some(n), &date_p) {
        Some(t) => {
            let tt = trim_chars(&t);
            let s = string_from_chars(&tt);
            parse_utc_timestamp(s.as_str(), COMMENT_DATE_FORMAT)
        },
        None => None,
    };
    let img = name("img");
    let stars = match doc.first_attr_exec(Some(n), &img, "title") {
        Some(t) => {
            let s = string_from_chars(&t);
            comment_stars_inner(s.as_str())
        },
        None => None,
    };
    match (user, body, date, stars) {
        (Some((user_ref, user_name)), Some(body), Some(date), Some(stars)) => Some(
            Some(
                TGameComment {
                    UserRef: user_ref,
                    UserName: user_name,
                    Date: date,
                    Stars: stars,
                    Comment: body,
                },
            ),
        ),
        _ => None,
    }
}

/// The comments of a page, in order (see `comment_item`); `None` when one
/// is malformed.
pub fn page_comments(doc: &Document) -> (r: Option<Vec<TGameComment>>)
    ensures
        match r {
            Some(v) => comments_spec(doc) == Some(comments_view(v@)),
            None => comments_spec(doc) is None,
        },
{
    let p = desc(
        and(name("div"), class("game_comments_container")),
        desc(and(name("table"), class("game_comments_table")), name("tr")),
    );
    let rows = doc.find_exec(None, &p);
    proof {
        doc.lemma_find_in_range(None, comment_rows_pred(), 0);
    }
    let ghost f = |n: usize| comment_item(doc, n);
    let mut res: Vec<TGameComment> = Vec::new();
    let mut k: usize = 0;
    while k < rows.len()
        invariant
            0 <= k <= rows@.len(),
            rows@ == doc.find(None, comment_rows_pred()),
            forall|m: int| 0 <= m < rows@.len() ==> rows@[m] < doc.nodes@.len(),
            f == (|n: usize| comment_item(doc, n)),
            collect_opt(rows@.take(k as int), f) == Some(comments_view(res@)),
        decreases rows@.len() - k,
    {
        proof {
            lemma_collect_step(rows@, k as int, f);
        }
        match parse_comment_row(doc, rows[k]) {
            None => {
                proof {
                    lemma_collect_fail(rows@, k + 1, f);
                }
                return None;
            },
            Some(None) => {},
            Some(Some(c)) => {
                proof {
                    lemma_map_push(res@, c, |x: TGameComment| x@);
                }
                res.push(c);
            },
        }
        k = k + 1;
    }
    proof {
        lemma_take_all(rows@);
    }
    Some(res)
}

/// Appends the comments of a page to `comments`, in order (see
/// `comments_spec`); every comment of the page must be well formed.
pub fn parse_comments(doc: &Document, comments: &mut Vec<TGameComment>)
    requires
        comments_spec(doc) is Some,
    ensures
        comments_view(final(comments)@) == comments_view(old(comments)@) + comments_spec(doc).unwrap(),
{
    match page_comments(doc) {
        Some(mut v) => {
            let ghost a = old(comments)@;
            let ghost b = v@;
            comments.append(&mut v);
            proof {
                lemma_map_append(a, b, |x: TGameComment| x@);
            }
        },
        None => unreached(),
    }
}

/// Appends the comments of a page to `comments`, in order; returns `false`
/// and leaves `comments` unchanged when a comment is malformed.
pub fn try_parse_comments(doc: &Document, comments: &mut Vec<TGameComment>) -> (r: bool)
    ensures
        r == (comments_spec(doc) is Some),
        r ==> comments_view(final(comments)@) == comments_view(old(comments)@) + comments_spec(
            doc,
        ).unwrap(),
        !r ==> final(comments)@ == old(comments)@,
{
    if page_comments(doc).is_some() {
        parse_comments(doc, comments);
        true
    } else {
        false
    }
}

/// The comment thread id on a game page: the digits after `"gamethreadid":`
/// in the first `div.main-content script[type=text/javascript]`.
pub open spec fn thread_id_spec(doc: &Document) -> Option<Seq<char>> {
    match doc.first_text(
        None,
        Pred::Descendant(
            Box::new(Pred::And(Box::new(Pred::Name("div")), Box::new(Pred::Class("main-content")))),
            Box::new(Pred::And(Box::new(Pred::Name("script")), Box::new(Pred::Attr("type", "text/javascript")))),
        ),
    ) {
        Some(t) => group_text(regex_first_captures(THREAD_ID_PATTERN@, t), 1),
        None => None,
    }
}

pub(crate) fn thread_id_inner(doc: &Document) -> (r: Option<String>)
    ensures
        match r {
            Some(s) => thread_id_spec(doc) == Some(s@),
            None => thread_id_spec(doc) is None,
        },
{
    let p = desc(and(name("div"), class("main-content")), and(name("script"), attr("type", "text/javascript")));
    match doc.first_text_exec(None, &p) {
        Some(t) => {
            let s = string_from_chars(&t);
            let caps = first_captures(THREAD_ID_PATTERN, s.as_str());
            match capture_text(&caps, 1) {
                Some(id) => Some(string_from_chars(id)),
                None => None,
            }
        },
        None => None,
    }
}

/// The comment thread id on a game page (see `thread_id_spec`); the first
/// `div.main-content script[type=text/javascript]` must hold it.
pub fn find_thread_id(doc: &Document) -> (r: String)
    requires
        thread_id_spec(doc) is Some,
    ensures
        r@ == thread_id_spec(doc).unwrap(),
{
    match thread_id_inner(doc) {
        Some(t) => t,
        None => unreached(),
    }
}

/// The comment thread id on a game page (see `thread_id_spec`); `None` when
/// there is no such script or it holds no thread id.
pub fn try_find_thread_id(doc: &Document) -> (r: Option<String>)
    ensures
        match r {
            Some(s) => thread_id_spec(doc) == Some(s@),
            None => thread_id_spec(doc) is None,
        },
{
    match thread_id_inner(doc) {
        Some(_) => Some(find_thread_id(doc)),
        None => None,
    }
}

} // verus!
