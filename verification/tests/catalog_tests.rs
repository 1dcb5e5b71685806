use oldgames_parser::dom::Document;
use oldgames_parser::games_index::{
    check_duplicates, find_max_pages, get_game_id_from_url, parse_games_catalog, parse_page,
    review_stars, try_find_max_pages, try_get_game_id_from_url, try_parse_games_catalog,
    try_parse_page, CatalogError,
};
use oldgames_parser::model::GameInfo;

fn row(id: i32, name: &str, stars: &str) -> String {
    format!(
        "<tr><td><a href=\"/game/{id}.html\" title=\"{name}\">{name}</a></td><td><a>Action</a></td><td><a>1993</a></td><td><a>DOS</a></td><td><a>id Software</a></td><td><img title=\"{stars}\"></td></tr>"
    )
}

fn page(rows: &[String], pager: &str) -> String {
    format!(
        "<html><body><div class=\"main-content\"><table><tr><th>Name</th><th>Genre</th></tr>{}</table>{}</div></body></html>",
        rows.concat(),
        pager
    )
}

fn game(id: i32) -> GameInfo {
    GameInfo {
        Id: id,
        Name: String::new(),
        Genre: String::new(),
        Year: String::new(),
        Platform: String::new(),
        Publisher: String::new(),
        Stars: 0,
    }
}

#[test]
fn game_id_from_link() {
    assert_eq!(get_game_id_from_url("/game/123.html"), 123);
    assert_eq!(get_game_id_from_url("https://www.old-games.ru/game/42.html"), 42);
    assert_eq!(try_get_game_id_from_url("/game/7.html"), Some(7));
    assert_eq!(try_get_game_id_from_url("/game/abc.html"), None);
    assert_eq!(try_get_game_id_from_url("/game/99999999999.html"), None);
    assert_eq!(try_get_game_id_from_url("https://www.old-games.ru/game/screenshots/12.html"), None);
}

#[test]
fn review_rating_from_title() {
    let c = |s: &str| s.chars().collect::<Vec<char>>();
    assert_eq!(review_stars(&c("Оценка отсутствует")), Some(-1));
    assert_eq!(review_stars(&c("Оценка рецензента - 8 из 10")), Some(8));
    assert_eq!(review_stars(&c("Оценка рецензента - 10 из 10")), Some(10));
    assert_eq!(review_stars(&c("нет")), None);
}

#[test]
fn page_rows_become_games() {
    let html = page(
        &[row(20, "Doom", "Оценка рецензента - 9 из 10"), row(7, "Dune II", "Оценка отсутствует")],
        "",
    );
    let doc = Document::from_html(&html);
    let games = parse_page(&doc);
    assert_eq!(try_parse_page(&doc).map(|g| g.len()), Some(2));
    assert_eq!(games.len(), 2);
    assert_eq!(games[0].Id, 20);
    assert_eq!(games[0].Name, "Doom");
    assert_eq!(games[0].Genre, "Action");
    assert_eq!(games[0].Year, "1993");
    assert_eq!(games[0].Platform, "DOS");
    assert_eq!(games[0].Publisher, "id Software");
    assert_eq!(games[0].Stars, 9);
    assert_eq!(games[1].Id, 7);
    assert_eq!(games[1].Name, "Dune II");
    assert_eq!(games[1].Stars, -1);
}

#[test]
fn page_without_table_has_no_games() {
    let doc = Document::from_html("<html><body><p>nothing</p></body></html>");
    assert_eq!(parse_page(&doc).len(), 0);
}

#[test]
fn malformed_row_fails_the_page() {
    let bad = "<tr><td><a href=\"/game/1.html\" title=\"X\">X</a></td><td><a>A</a></td><td><a>B</a></td><td><a>C</a></td><td><a>D</a></td><td>no picture</td></tr>".to_string();
    let doc = Document::from_html(&page(&[bad], ""));
    assert!(try_parse_page(&doc).is_none());
}

#[test]
fn pager_count_skips_next_link() {
    let pager = "<ul class=\"pager\"><li>1</li><li>2</li><li>57</li><li><a>»</a></li></ul>";
    let doc = Document::from_html(&page(&[], pager));
    assert_eq!(find_max_pages(&doc), 57);
}

#[test]
fn pager_count_last_item() {
    let pager = "<ul class=\"pager\"><li>1</li><li>12</li></ul>";
    let doc = Document::from_html(&page(&[], pager));
    assert_eq!(find_max_pages(&doc), 12);
    assert_eq!(try_find_max_pages(&doc), Some(12));
}

#[test]
fn pager_missing() {
    let doc = Document::from_html(&page(&[], ""));
    assert_eq!(try_find_max_pages(&doc), None);
}

#[test]
fn duplicates_check() {
    check_duplicates(&vec![game(1), game(2), game(3)]);
    check_duplicates(&vec![game(5)]);
    check_duplicates(&vec![game(3), game(1), game(3)]);
}

#[test]
fn catalog_is_sorted_by_id() {
    let p1 = Document::from_html(&page(
        &[row(20, "Doom", "Оценка рецензента - 9 из 10"), row(7, "Dune II", "Оценка отсутствует")],
        "",
    ));
    let p2 = Document::from_html(&page(&[row(3, "Tetris", "Оценка рецензента - 7 из 10")], ""));
    let pages = vec![p1, p2];
    let cat = parse_games_catalog(&pages);
    assert_eq!(try_parse_games_catalog(&pages).map(|c| c.len()), Ok(3));
    let ids: Vec<i32> = cat.iter().map(|g| g.Id).collect();
    assert_eq!(ids, vec![3, 7, 20]);
    assert_eq!(cat[0].Name, "Tetris");
    assert_eq!(cat[2].Name, "Doom");
}

#[test]
fn catalog_duplicate_across_pages() {
    let p1 = Document::from_html(&page(&[row(7, "A", "Оценка отсутствует")], ""));
    let p2 = Document::from_html(&page(&[row(3, "B", "Оценка отсутствует"), row(7, "C", "Оценка отсутствует")], ""));
    assert_eq!(
        try_parse_games_catalog(&vec![p1, p2]).err(),
        Some(CatalogError::DuplicateId(7))
    );
}

#[test]
fn catalog_malformed_page() {
    let p1 = Document::from_html(&page(&[row(7, "A", "Оценка отсутствует")], ""));
    let p2 = Document::from_html(&page(&[row(3, "B", "без оценки")], ""));
    assert_eq!(
        try_parse_games_catalog(&vec![p1, p2]).err(),
        Some(CatalogError::MalformedPage(1))
    );
}

#[test]
fn catalog_empty() {
    let p1 = Document::from_html(&page(&[], ""));
    assert_eq!(try_parse_games_catalog(&vec![p1]).err(), Some(CatalogError::Empty));
    assert_eq!(try_parse_games_catalog(&vec![]).err(), Some(CatalogError::Empty));
}
