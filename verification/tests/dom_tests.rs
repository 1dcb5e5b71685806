use oldgames_parser::cache::CacheStruct;
use oldgames_parser::dom::{and, class, desc, name, attr, Document};

#[test]
fn search_in_document_order() {
    let doc = Document::from_html("<html><body><div class=\"a b\"><p>1</p><div><p>2</p></div></div><p>3</p></body></html>");
    let p = name("p");
    let all = doc.find_exec(None, &p);
    assert_eq!(all.len(), 3);
    assert!(all.windows(2).all(|w| w[0] < w[1]));
    let texts: Vec<String> = all.iter().map(|&i| doc.text_exec(i).into_iter().collect()).collect();
    assert_eq!(texts, vec!["1", "2", "3"]);
    let in_div = desc(and(name("div"), class("b")), name("p"));
    assert_eq!(doc.find_exec(None, &in_div).len(), 2);
    let div = doc.find_first_exec(None, &and(name("div"), class("a"))).unwrap();
    assert_eq!(doc.find_exec(Some(div), &name("p")).len(), 2);
    assert_eq!(doc.find_exec(None, &class("c")).len(), 0);
    assert_eq!(doc.find_exec(None, &class("")).len(), 0);
    let t: String = doc.text_exec(div).into_iter().collect();
    assert_eq!(t, "12");
}

#[test]
fn attributes_and_children() {
    let doc = Document::from_html("<ul id=\"l\"><li>a</li><li>b</li><li>c</li></ul>");
    let ul = doc.find_first_exec(None, &attr("id", "l")).unwrap();
    let kids = doc.children_exec(ul);
    assert_eq!(kids.len(), 3);
    assert_eq!(doc.prev_exec(kids[2]), Some(kids[1]));
    assert_eq!(doc.prev_exec(kids[0]), None);
    assert!(doc.is_ancestor_exec(ul, kids[1]));
    assert!(!doc.is_ancestor_exec(kids[0], kids[1]));
    let id: Vec<char> = doc.attr_copy(ul, "id").unwrap();
    assert_eq!(id.into_iter().collect::<String>(), "l");
    assert!(doc.attr_copy(ul, "class").is_none());
}

#[test]
fn cache_paths() {
    assert_eq!(CacheStruct::page_path(3), "data/pages_html/3.html.cached");
    assert_eq!(CacheStruct::page_url(3), "https://www.old-games.ru/catalog/?page=3");
    assert_eq!(CacheStruct::comments_path(20, 2), "data/pages_html/20/comments/2.html.cached");
    assert_eq!(CacheStruct::comments_url(), "https://www.old-games.ru/game/game_comments.php");
    assert_eq!(CacheStruct::game_desc_path(20), "data/pages_html/20/desc.html.cached");
    assert_eq!(CacheStruct::game_desc_url(20), "https://www.old-games.ru/game/20.html");
    assert_eq!(CacheStruct::screenshots_path(20), "data/pages_html/20/screenshots.html.cached");
    assert_eq!(CacheStruct::screenshots_url(20), "https://www.old-games.ru/game/screenshots/20.html");
    let form = CacheStruct::comments_form(20, 2, "777");
    assert_eq!(form, vec![
        ("gameid".to_string(), "20".to_string()),
        ("gamethreadid".to_string(), "777".to_string()),
        ("page".to_string(), "2".to_string()),
    ]);
}

#[test]
fn documents_from_bytes() {
    let p = name("p");
    let doc = Document::from_utf8("<p>Привет</p>".as_bytes()).expect("valid UTF-8");
    let n = doc.find_first_exec(None, &p).unwrap();
    assert_eq!(doc.text_exec(n).into_iter().collect::<String>(), "Привет");
    assert!(Document::from_utf8(&[b'<', b'p', b'>', 0xff, 0xfe]).is_none());
    let mut bytes = b"<p>".to_vec();
    bytes.extend_from_slice(&[0xcf, 0xf0, 0xe8, 0xe2, 0xe5, 0xf2]);
    bytes.extend_from_slice(b"</p>");
    let doc = Document::try_from_windows_1251(&bytes).expect("fits");
    let n = doc.find_first_exec(None, &p).unwrap();
    assert_eq!(doc.text_exec(n).into_iter().collect::<String>(), "Привет");
    let doc = Document::from_windows_1251(&bytes);
    assert_eq!(doc.find_exec(None, &p).len(), 1);
}
