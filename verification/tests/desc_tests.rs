use oldgames_parser::comments::{
    find_thread_id, page_comments, parse_comment_user_stars, parse_comments, try_find_thread_id,
    try_parse_comment_user_stars, try_parse_comments,
};
use oldgames_parser::dom::{desc, elem_attr, name, Document};
use oldgames_parser::game_desc::{
    comment_pages_plan, enrich_games_list, get_game_desc, parse_bookmarks, parse_game_groups,
    parse_game_users_stars, parse_recommended_and_mods, parse_screenshots, try_enrich_games_list,
    try_get_game_desc, try_parse_game_users_stars, users_stars, GamePages,
};
use oldgames_parser::markup::{convert_tags, trim_html, trim_node_html, try_trim_html, try_trim_node_html};
use oldgames_parser::model::{GameInfo, GameInfoFull};

const SCREENS: &str = "<html><body><div class=\"main-content\"><div id=\"game_screens\"><div id=\"screensarea\"><ul class=\"gamescreens\">\
<li class=\"game_screen\"><div><div class=\"screen_img_container\"><a href=\"/shots/1.png\"><img src=\"/thumbs/1.png\"></a></div></div></li>\
<li class=\"game_screen\"><div>no picture</div></li>\
<li class=\"game_screen\"><div><div class=\"screen_img_container\"><a href=\"/shots/2a.png\"><img src=\"/thumbs/2.png\"></a><a href=\"/shots/2b.png\">x</a></div></div></li>\
</ul></div></div></div></body></html>";

fn comment_row(user: &str, date: &str, stars: &str, text: &str) -> String {
    format!(
        "<tr><td class=\"game_comments_row\"><div class=\"middlesmall\"><b><a href=\"/user/{user}\">{user}</a></b></div><div class=\"middlesmall red\">{date}</div><img title=\"{stars}\"></td><td class=\"game_comments_text\"><div class=\"middlesmall\">{text}</div></td></tr>"
    )
}

fn comments_block(rows: &str) -> String {
    format!("<div class=\"game_comments_container\"><table class=\"game_comments_table\">{rows}</table></div>")
}

fn desc_page(cover: &str, comments: &str) -> String {
    format!(
        "<html><body><div class=\"main-content\">\
<span class=\"game_alt_names\">Doom 1</span>\
<table class=\"gameinfo\"><tr><td class=\"game-cover\"><div class=\"game_info_cover\"><img src=\"{cover}\"></div></td>\
<td><span itemprop=\"aggregateRating\"><img title=\"Оценка пользователей - 8.3 из 10. Всего голосов: 15\"></span></td></tr></table>\
<div id=\"game_review\"><div id=\"reviewarea\"><div id=\"reviewtext\">  Great   game.<br>\n<b>Must</b>\tplay.  </div>\
<ul class=\"game-groups\"><li><span>Жанр:</span> <a href=\"/genre/1\" title=\" Action \">  Action </a></li><li><span>Тема:</span></li></ul></div></div>\
<table class=\"game_content_table\"><tr><td><div class=\"game_description_col_text\">Рекомендуемые игры</div></td><td><div class=\"middlesmall\"><a class=\"game_recommended\" href=\"/game/5.html\">Heretic</a></div></td></tr>\
<tr><td><div class=\"game_description_col_text\">Модификации</div></td><td><div class=\"middlesmall\"><a class=\"game_recommended\" href=\"/mods/9\">Doom Mod</a></div></td></tr></table>\
<div id=\"comments\">{comments}</div>\
</div>\
<div class=\"bookmark-icon-block\"><ul class=\"bookmark-icon-list\"><li><div class=\"bookmark-icon-count\">10</div></li><li><div class=\"bookmark-icon-count\">20</div></li><li><div class=\"bookmark-icon-count\">30</div></li></ul></div>\
</body></html>"
    )
}

fn info() -> GameInfo {
    GameInfo {
        Id: 20,
        Name: "Doom".to_string(),
        Genre: "Action".to_string(),
        Year: "1993".to_string(),
        Platform: "DOS".to_string(),
        Publisher: "id Software".to_string(),
        Stars: 9,
    }
}

#[test]
fn screenshots_of_items_with_pictures() {
    let doc = Document::from_html(SCREENS);
    let shots = parse_screenshots(&doc).expect("screenshots");
    assert_eq!(shots.len(), 2);
    assert_eq!(shots[0].ThumbUrl, "/thumbs/1.png");
    assert_eq!(shots[0].Url, "/shots/1.png");
    assert_eq!(shots[1].ThumbUrl, "/thumbs/2.png");
    assert_eq!(shots[1].Url, "/shots/2b.png");
}

#[test]
fn whitespace_normalisation() {
    assert_eq!(trim_html("  a    b\n\tc  "), "a bc");
    assert_eq!(trim_html(""), "");
    assert_eq!(try_trim_html(" x\r\ny "), Some("xy".to_string()));
}

#[test]
fn normalised_text_has_no_outer_whitespace() {
    for s in ["  a  ", "\n\t b \u{a0}", "   ", "x"] {
        let t = trim_html(s);
        assert_eq!(t.trim(), t);
    }
}

#[test]
fn bracket_markup() {
    let doc = Document::from_html("<html><body><div id=\"x\">Hello <b>world</b><br>!<!-- note --></div></body></html>");
    let p = elem_attr("div", "id", "x");
    let n = doc.find_first_exec(None, &p).unwrap();
    let plain: String = convert_tags(&doc, n, false).into_iter().collect();
    assert_eq!(plain, "Hello [b]world[/b][br]!");
    let tagged: String = convert_tags(&doc, n, true).into_iter().collect();
    assert_eq!(tagged, "[div]Hello [b]world[/b][br]![/div]");
    assert_eq!(trim_node_html(&doc, n), "Hello [b]world[/b][br]!");
    assert_eq!(try_trim_node_html(&doc, n), Some("Hello [b]world[/b][br]!".to_string()));
}

#[test]
fn user_rating_titles() {
    assert_eq!(parse_comment_user_stars("Оценка отсутствует"), -1);
    assert_eq!(parse_comment_user_stars("Оценка пользователя - 7 из 10"), 7);
    assert_eq!(try_parse_comment_user_stars("Оценка пользователя - 3 из 10"), Some(3));
    assert_eq!(try_parse_comment_user_stars("???"), None);
    assert_eq!(try_parse_comment_user_stars("Оценка рецензента - 7 из 10"), None);
}

#[test]
fn users_average_rating() {
    let (avg, votes) = users_stars("Оценка пользователей - 8.3 из 10. Всего голосов: 15").unwrap();
    assert_eq!(avg, "8.3");
    assert_eq!(votes, 15);
    assert!(users_stars("нет оценки").is_none());
    assert!(users_stars("Оценка пользователей - 7.5.1 из 10. Всего голосов: 3").is_none());
    assert_eq!(users_stars("Оценка пользователей - 7. из 10. Всего голосов: 3").map(|x| x.1), Some(3));
}

#[test]
fn comment_dates() {
    let rows = comment_row("a", "01.02.2010 10:20", "Оценка отсутствует", "x")
        + &comment_row("b", "31.12.2015 23:59", "Оценка отсутствует", "y");
    let doc = Document::from_html(&comments_block(&rows));
    let out = page_comments(&doc).expect("comments");
    assert_eq!(out.len(), 2);
    assert_eq!(out[0].Date, 1265019600);
    assert_eq!(out[1].Date, 1451606340);
    let bad = Document::from_html(&comments_block(&comment_row("c", "yesterday", "Оценка отсутствует", "z")));
    assert!(page_comments(&bad).is_none());
}

#[test]
fn comments_of_a_page() {
    let rows = comment_row("vasya", " 01.02.2010 10:20 ", "Оценка пользователя - 7 из 10", "Nice!")
        + "<tr><td>spacer</td></tr>"
        + &comment_row("petya", "31.12.2015 23:59", "Оценка отсутствует", "  So   so ");
    let doc = Document::from_html(&desc_page("/c.jpg", &comments_block(&rows)));
    let mut out = Vec::new();
    parse_comments(&doc, &mut out);
    assert_eq!(out.len(), 2);
    assert_eq!(out[0].UserRef, Some("/user/vasya".to_string()));
    assert_eq!(out[0].UserName, "vasya");
    assert_eq!(out[0].Date, 1265019600);
    assert_eq!(out[0].Stars, 7);
    assert_eq!(out[0].Comment, "Nice!");
    assert_eq!(out[1].UserName, "petya");
    assert_eq!(out[1].Stars, -1);
    assert_eq!(out[1].Comment, "So so");
}

#[test]
fn comment_without_user_link() {
    let row = "<tr><td class=\"game_comments_row\"><div class=\"middlesmall\"><b>Гость</b></div><div class=\"middlesmall red\">01.02.2010 10:20</div><img title=\"Оценка отсутствует\"></td><td class=\"game_comments_text\"><div class=\"middlesmall\">Hi</div></td></tr>";
    let doc = Document::from_html(&desc_page("/c.jpg", &comments_block(row)));
    let mut out = Vec::new();
    assert!(try_parse_comments(&doc, &mut out));
    assert_eq!(out[0].UserRef, None);
    assert_eq!(out[0].UserName, "Гость");
}

#[test]
fn malformed_comment_leaves_list_unchanged() {
    let rows = comment_row("vasya", "not a date", "Оценка отсутствует", "x");
    let doc = Document::from_html(&desc_page("/c.jpg", &comments_block(&rows)));
    let mut out = Vec::new();
    assert!(!try_parse_comments(&doc, &mut out));
    assert!(out.is_empty());
}

#[test]
fn groups_bookmarks_recommendations() {
    let doc = Document::from_html(&desc_page("/c.jpg", ""));
    let groups = parse_game_groups(&doc).unwrap();
    assert_eq!(groups.len(), 2);
    assert_eq!(groups[0].Name, "Жанр:");
    assert_eq!(groups[0].Values.len(), 1);
    assert_eq!(groups[0].Values[0].Href, "/genre/1");
    assert_eq!(groups[0].Values[0].Title, "Action");
    assert_eq!(groups[0].Values[0].Value, "Action");
    assert_eq!(groups[1].Name, "Тема:");
    assert!(groups[1].Values.is_empty());
    assert_eq!(parse_bookmarks(&doc), Some((10, 20, 30)));
    let (rec, mods) = parse_recommended_and_mods(&doc).unwrap();
    assert_eq!(rec.len(), 1);
    assert_eq!(rec[0].Id, 5);
    assert_eq!(rec[0].Name, "Heretic");
    assert_eq!(mods.len(), 1);
    assert_eq!(mods[0].Href, "/mods/9");
    assert_eq!(mods[0].Name, "Doom Mod");
}

#[test]
fn too_few_bookmark_counters() {
    let doc = Document::from_html("<div class=\"bookmark-icon-block\"><ul class=\"bookmark-icon-list\"><li><div class=\"bookmark-icon-count\">1</div></li></ul></div>");
    assert_eq!(parse_bookmarks(&doc), None);
}

#[test]
fn thread_id_and_comment_plan() {
    let extra = "<div class=\"game_comments_pager\"><span>Стр. 1/3</span></div><script type=\"text/javascript\">var c = {\"gamethreadid\": \"777\"};</script>";
    let page = desc_page("/c.jpg", extra);
    let doc = Document::from_html(&page);
    assert_eq!(find_thread_id(&doc), "777");
    assert_eq!(try_find_thread_id(&doc), Some("777".to_string()));
    assert_eq!(try_find_thread_id(&Document::from_html(&desc_page("/c.jpg", ""))), None);
    assert_eq!(comment_pages_plan(&doc), Some(Some((3, "777".to_string()))));
    let plain = Document::from_html(&desc_page("/c.jpg", ""));
    assert_eq!(comment_pages_plan(&plain), Some(None));
}

#[test]
fn full_description() {
    let rows = comment_row("vasya", "01.02.2010 10:20", "Оценка пользователя - 7 из 10", "Nice!");
    let doc = Document::from_html(&desc_page("/img/nocover-rus.gif", &comments_block(&rows)));
    let screens = Document::from_html(SCREENS);
    let full: GameInfoFull = get_game_desc(&info(), &screens, &doc, &vec![]);
    assert_eq!(full.Id, 20);
    assert_eq!(full.Name, "Doom");
    assert_eq!(full.Stars, 9);
    assert_eq!(full.AltName, Some("Doom 1".to_string()));
    assert_eq!(full.CoverImageUrl, Some("/img/nocover-rus.gif".to_string()));
    assert_eq!(full.Desc, "Great game.[br][b]Must[/b]play.");
    assert_eq!(full.UsersStars, "8.3");
    assert_eq!(full.UsersStarsSum, 15);
    assert_eq!((full.Favorites, full.Completed, full.Bookmarks), (10, 20, 30));
    assert_eq!(full.Recomended.len(), 1);
    assert_eq!(full.Mods.len(), 1);
    assert_eq!(full.GameGroups.len(), 2);
    assert_eq!(full.Comments.len(), 1);
    assert_eq!(full.CommentsThreadId, None);
    assert_eq!(full.Screenshots.len(), 2);
}

#[test]
fn cover_kept_only_for_placeholder() {
    let doc = Document::from_html(&desc_page("/covers/doom.jpg", ""));
    let screens = Document::from_html(SCREENS);
    let full = get_game_desc(&info(), &screens, &doc, &vec![]);
    assert_eq!(full.CoverImageUrl, None);
    assert!(full.Comments.is_empty());
}

#[test]
fn users_rating_stored_in_record() {
    let doc = Document::from_html(&desc_page("/c.jpg", ""));
    let screens = Document::from_html(SCREENS);
    let mut full = get_game_desc(&info(), &screens, &doc, &vec![]);
    parse_game_users_stars("Оценка пользователей - 6.5 из 10. Всего голосов: 2", &mut full);
    assert_eq!(full.UsersStars, "6.5");
    assert_eq!(full.UsersStarsSum, 2);
    assert!(!try_parse_game_users_stars("bad", &mut full));
    assert!(!try_parse_game_users_stars("Оценка пользователей - 7.5.1 из 10. Всего голосов: 2", &mut full));
    assert_eq!(full.UsersStars, "6.5");
    assert!(try_parse_game_users_stars("Оценка пользователей - 9 из 10. Всего голосов: 4", &mut full));
    assert_eq!(full.UsersStars, "9");
    assert_eq!(full.UsersStarsSum, 4);
    parse_game_users_stars("Оценка пользователей - 6.5 из 10. Всего голосов: 2", &mut full);
    assert_eq!(full.UsersStars, "6.5");
}

#[test]
fn paged_comments_are_concatenated() {
    let pager = "<div class=\"game_comments_pager\"><span>Стр. 1/3</span></div><script type=\"text/javascript\">var c = {\"gamethreadid\": \"777\"};</script>";
    let first = comments_block(&comment_row("a", "01.02.2010 10:20", "Оценка отсутствует", "one"));
    let doc = Document::from_html(&desc_page("/c.jpg", &(pager.to_string() + &first)));
    let p2 = Document::from_html(&comments_block(&comment_row("b", "01.02.2010 10:20", "Оценка отсутствует", "two")));
    let p3 = Document::from_html(&comments_block(&comment_row("c", "01.02.2010 10:20", "Оценка отсутствует", "three")));
    let screens = Document::from_html(SCREENS);
    let full = get_game_desc(&info(), &screens, &doc, &vec![p2, p3]);
    let texts: Vec<&str> = full.Comments.iter().map(|c| c.Comment.as_str()).collect();
    assert_eq!(texts, vec!["one", "two", "three"]);
    assert_eq!(full.CommentsThreadId, Some("777".to_string()));
}

#[test]
fn missing_review_fails() {
    let doc = Document::from_html("<html><body><div class=\"main-content\"></div></body></html>");
    let screens = Document::from_html(SCREENS);
    assert!(try_get_game_desc(&info(), &screens, &doc, &vec![]).is_none());
}

#[test]
fn enrich_list() {
    let pages = GamePages {
        screenshots: Document::from_html(SCREENS),
        desc: Document::from_html(&desc_page("/c.jpg", "")),
        comments: vec![],
    };
    let pages = vec![pages];
    let list = enrich_games_list(&vec![info()], &pages);
    assert_eq!(try_enrich_games_list(&vec![info()], &pages).map(|l| l.len()), Some(1));
    assert_eq!(list.len(), 1);
    assert_eq!(list[0].Name, "Doom");
    let _ = desc(name("div"), name("a"));
}

#[test]
fn wrong_number_of_comment_pages_is_refused() {
    let pager = "<div class=\"game_comments_pager\"><span>Стр. 1/3</span></div><script type=\"text/javascript\">var c = {\"gamethreadid\": \"777\"};</script>";
    let first = comments_block(&comment_row("a", "01.02.2010 10:20", "Оценка отсутствует", "one"));
    let doc = Document::from_html(&desc_page("/c.jpg", &(pager.to_string() + &first)));
    let p2 = Document::from_html(&comments_block(&comment_row("b", "01.02.2010 10:20", "Оценка отсутствует", "two")));
    let screens = Document::from_html(SCREENS);
    assert!(try_get_game_desc(&info(), &screens, &doc, &vec![p2]).is_none());
    let single = "<div class=\"game_comments_pager\"><span>Стр. 1/1</span></div><script type=\"text/javascript\">var c = {\"gamethreadid\": \"5\"};</script>";
    let doc1 = Document::from_html(&desc_page("/c.jpg", &(single.to_string() + &first)));
    let full = try_get_game_desc(&info(), &screens, &doc1, &vec![]).unwrap();
    assert_eq!(full.Comments.len(), 1);
    assert_eq!(full.CommentsThreadId, Some("5".to_string()));
}
