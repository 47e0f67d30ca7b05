use axum::http::{HeaderMap, HeaderValue};
use pixhub::catalog::{scan_file, MediaKind};
use pixhub::files::{FileRow, Statement};
use pixhub::like::escape_search_term;
use pixhub::pixiv;
use pixhub::rate::RateLimiter;
use pixhub::reply::ReplyBody;
use pixhub::request::InfoQuery;
use rusqlite::{params_from_iter, Connection};
use serde_json::Value;

fn database(kind: MediaKind, files: &[(&str, &str)]) -> Connection {
    let conn = Connection::open_in_memory().unwrap();
    conn.execute_batch(
        "CREATE TABLE files (id INTEGER PRIMARY KEY, type TEXT, dir TEXT, filename TEXT,
         authorName TEXT, authorId TEXT, title TEXT, UNIQUE(type, dir, filename));",
    )
    .unwrap();
    for (dir, filename) in files {
        let statement = Statement::insert_file(&scan_file(kind, dir, filename).unwrap());
        conn.execute(statement.sql, params_from_iter(statement.params.iter())).unwrap();
    }
    conn
}

fn column(conn: &Connection, statement: &Statement, name: &str) -> Vec<String> {
    let mut prepared = conn.prepare(statement.sql).unwrap();
    let rows = prepared
        .query_map(params_from_iter(statement.params.iter()), |row| row.get::<_, String>(name))
        .unwrap();
    rows.map(|r| r.unwrap()).collect()
}

fn found(term: &str, name: &str) -> bool {
    let conn = database(MediaKind::Pixiv, &[("1", name)]);
    !column(&conn, &Statement::search_pixiv(term), "filename").is_empty()
}

#[test]
fn terms_are_escaped() {
    assert_eq!(escape_search_term("cat_12"), "cat\\_12");
    assert_eq!(escape_search_term("100%\\"), "100\\%\\\\");
    assert_eq!(escape_search_term("夜"), "夜");
    assert_eq!(escape_search_term(""), "");
}

#[test]
fn a_picture_is_found_by_its_own_name() {
    let conn = database(MediaKind::Pixiv, &[("1", "cat_12_p0.jpg")]);
    let mut limiter = RateLimiter::new(10, 1);
    let query = InfoQuery { list: Some("cat_12_p0.jpg".to_string()) };
    let statement = pixiv::info_begin(&mut limiter, &query, 0).unwrap();
    let dir = column(&conn, &statement, "dir").pop();
    let filename = column(&conn, &statement, "filename").pop();
    let mut row = FileRow::of_dir(dir);
    row.filename = filename;
    let work = pixiv::info_found("cat_12_p0.jpg", Ok(Some(row))).unwrap();
    let pages = column(&conn, &work.pages_statement(), "filename");
    let headers: HeaderMap<HeaderValue> = HeaderMap::new();
    let reply = pixiv::info_reply(&work, Ok(pages), &headers, &None).unwrap();
    assert_eq!(reply.status, 200);
    let body: Value = match &reply.body {
        ReplyBody::Text(text) => serde_json::from_str(text).unwrap(),
        ReplyBody::Bytes(_) => panic!("bytes"),
    };
    assert_eq!(body["data"]["illustId"], "12");
    assert_eq!(body["data"]["title"], "cat");
    assert_eq!(body["data"]["pageCount"], 1);
    assert_eq!(body["data"]["fileInfo"]["dir"], "1");
    assert_eq!(body["data"]["fileInfo"]["filename"], "cat_12_p0.jpg");
}

#[test]
fn names_are_found_by_what_they_contain() {
    assert!(found("cat_12", "my cat_12_p0.jpg"));
    assert!(found("CAT_12_P0.JPG", "cat_12_p0.jpg"));
    assert!(found("50%", "50%off_1.jpg"));
    assert!(found("a\\b", "a\\b_1.jpg"));
    assert!(found("夜", "夜空_1.jpg"));
    assert!(found("", "x_1.jpg"));
    assert!(!found("cat_12", "catx12_p0.jpg"));
    assert!(!found("c%t", "cat_1.jpg"));
    assert!(!found("É", "é_1.jpg"));
    assert!(!found("cat_12_p0.jpgx", "cat_12_p0.jpg"));
}

#[test]
fn a_picture_is_among_its_pages() {
    let names = ["100%_a\\b_7_p1.jpg", "100%_a\\b_7_p0.jpg", "other_7.jpg"];
    let files: Vec<(&str, &str)> = names.iter().map(|n| ("3", *n)).collect();
    let conn = database(MediaKind::Pixiv, &files);
    let mut row = FileRow::of_dir(Some("3".to_string()));
    row.filename = Some(names[0].to_string());
    let work = pixiv::work_of(row).unwrap();
    let mut pages = column(&conn, &work.pages_statement(), "filename");
    pages.sort();
    assert_eq!(pages, vec![names[1], names[0]]);
}

#[test]
fn authors_are_found_by_what_they_contain() {
    let conn = database(MediaKind::Plus, &[("3", "ann_700_t.mp4"), ("3", "bob_5_u.mp4")]);
    let titles = |term: &str| column(&conn, &Statement::search_plus(term), "title");
    assert_eq!(titles("AN"), vec!["t"]);
    assert_eq!(titles("00"), vec!["t"]);
    assert_eq!(titles("5"), vec!["u"]);
    assert!(titles("eve").is_empty());
}
