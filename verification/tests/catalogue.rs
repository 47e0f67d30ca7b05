use pixhub::catalog::{
    needs_scan, parts_below, scan_dir, scan_file, text_of_name, Change, FileWatcher, MediaKind,
    SECOND_NANOS,
};
use pixhub::files::{FileRow, Statement};

fn parts(names: &[&str]) -> Vec<String> {
    names.iter().map(|s| s.to_string()).collect()
}

fn values(statement: &Statement) -> Vec<Option<&str>> {
    statement.params.iter().map(|p| p.as_deref()).collect()
}

#[test]
fn pictures_and_videos_are_told_by_their_names() {
    for name in ["a.jpg", "a.JPEG", "a.Png", "a.gif", "a.webp", ".jpg"] {
        assert!(MediaKind::Pixiv.accepts(name), "{}", name);
        assert!(!MediaKind::Plus.accepts(name), "{}", name);
    }
    assert!(MediaKind::Plus.accepts("a.MP4"));
    assert!(MediaKind::Plus.accepts_small("a.mp4"));
    assert!(!MediaKind::Plus.accepts_small("a.MP4"));
    assert!(!MediaKind::Pixiv.accepts("a.mp4"));
    assert!(!MediaKind::Pixiv.accepts("a.bmp"));
    assert!(!MediaKind::Pixiv.accepts("jpg"));
    assert_eq!(MediaKind::Pixiv.name(), "pixiv");
    assert_eq!(MediaKind::Plus.name(), "plus");
}

#[test]
fn scanned_files_have_rows() {
    let row = scan_file(MediaKind::Plus, "12", "ann_7_a_b.mp4").unwrap();
    assert_eq!(row.id, None);
    assert_eq!(row.kind.as_deref(), Some("plus"));
    assert_eq!(row.dir.as_deref(), Some("12"));
    assert_eq!(row.filename.as_deref(), Some("ann_7_a_b.mp4"));
    assert_eq!(row.authorName.as_deref(), Some("ann"));
    assert_eq!(row.authorId.as_deref(), Some("7"));
    assert_eq!(row.title.as_deref(), Some("a_b"));
    let row = scan_file(MediaKind::Plus, "12", "x.mp4").unwrap();
    assert_eq!(row.authorName, None);
    let row = scan_file(MediaKind::Pixiv, "3", "a_b_c.jpg").unwrap();
    assert_eq!(row.kind.as_deref(), Some("pixiv"));
    assert_eq!(row.authorName, None);
    assert_eq!(row.title, None);
    assert!(scan_file(MediaKind::Pixiv, "x3", "a.jpg").is_none());
    assert!(scan_file(MediaKind::Pixiv, "3", "a.txt").is_none());
}

#[test]
fn directories_are_scanned_in_order() {
    let names = parts(&["b_1.png", "note.txt", "a_2.JPG"]);
    let rows = scan_dir(MediaKind::Pixiv, "8", &names);
    let found: Vec<&str> = rows.iter().map(|r| r.filename.as_deref().unwrap()).collect();
    assert_eq!(found, vec!["b_1.png", "a_2.JPG"]);
    assert!(rows.iter().all(|r| r.dir.as_deref() == Some("8")));
    assert!(scan_dir(MediaKind::Pixiv, "eight", &names).is_empty());
    assert!(scan_dir(MediaKind::Plus, "8", &names).is_empty());
}

#[test]
fn an_empty_catalogue_is_scanned() {
    assert!(needs_scan(0));
    assert!(!needs_scan(1));
}

fn watcher(kind: MediaKind) -> FileWatcher {
    FileWatcher::new(kind, b"/r".to_vec())
}

#[test]
fn changes_of_files_are_followed() {
    let mut w = watcher(MediaKind::Pixiv);
    let file = w.follow(Change::Create, &b"/r/3/a.jpg".to_vec(), 5).unwrap();
    assert_eq!(file.dir, "3");
    assert_eq!(file.filename, "a.jpg");
    assert_eq!(file.path_below("/r"), "/r/3/a.jpg");
    assert!(w.follow(Change::Modify, &b"/r/3/b.jpg".to_vec(), 6).is_some());
    let deep = w.follow(Change::Modify, &b"/r/3/c.jpg/d".to_vec(), 6).unwrap();
    assert_eq!(deep.filename, "c.jpg");
}

#[test]
fn other_changes_are_not_followed() {
    let mut w = watcher(MediaKind::Pixiv);
    assert!(w.follow(Change::Other, &b"/r/3/a.jpg".to_vec(), 5).is_none());
    for path in ["/r/a.jpg", "/r", "/r/x/a.jpg", "/r/3/a.mp4", "/q/3/a.jpg", "r/3/a.jpg", ""] {
        assert!(w.follow(Change::Create, &path.as_bytes().to_vec(), 5).is_none(), "{}", path);
    }
    assert!(w.follow(Change::Create, &b"/r/3/a.jpg".to_vec(), 5).is_some());
}

#[test]
fn quick_changes_wait_a_second() {
    let mut w = watcher(MediaKind::Plus);
    let path = b"/r/3/a.mp4".to_vec();
    assert!(w.follow(Change::Create, &path, 10).is_some());
    assert!(w.follow(Change::Modify, &path, 9 + SECOND_NANOS).is_none());
    assert!(w.follow(Change::Modify, &path, 10 + SECOND_NANOS).is_some());
    assert!(w.follow(Change::Modify, &path, 11 + SECOND_NANOS).is_none());
    assert!(w.follow(Change::Modify, &b"/r/4/a.mp4".to_vec(), 12).is_some());
}

#[test]
fn paths_of_the_same_parts_are_the_same() {
    for other in ["r/1/a.jpg", "r//1/a.jpg", "r/./1/a.jpg", "r/1/a.jpg/"] {
        let mut w = FileWatcher::new(MediaKind::Pixiv, b"r".to_vec());
        assert!(w.follow(Change::Create, &b"r/1/a.jpg".to_vec(), 5).is_some());
        let path = other.as_bytes().to_vec();
        assert!(w.follow(Change::Modify, &path, 6).is_none(), "{}", other);
        assert!(w.follow(Change::Modify, &path, 5 + SECOND_NANOS).is_some());
    }
    for other in ["r/2/a.jpg", "r/1/b.jpg", "r/1/a.jpg/a.jpg"] {
        let mut w = FileWatcher::new(MediaKind::Pixiv, b"r/".to_vec());
        assert!(w.follow(Change::Create, &b"r/1/a.jpg".to_vec(), 5).is_some());
        let path = other.as_bytes().to_vec();
        assert!(w.follow(Change::Modify, &path, 6).is_some(), "{}", other);
    }
}

#[test]
fn names_below_a_directory_are_cut_as_the_system_does() {
    for (path, root) in [
        ("/r/3/a.jpg", "/r"),
        ("/r//3/./a.jpg/", "/r/"),
        ("/r", "/r"),
        ("/rx/3", "/r"),
        ("r/3", "/r"),
        ("/r/../3", "/r"),
        ("./r/3", "r"),
        ("./r/3", "./r"),
        ("/a/b", ""),
        ("./a", ""),
        ("", ""),
        ("名/夜.jpg", "名"),
    ] {
        let expected = std::path::Path::new(path).strip_prefix(root).ok().map(|below| {
            below
                .components()
                .map(|c| c.as_os_str().as_encoded_bytes().to_vec())
                .collect::<Vec<Vec<u8>>>()
        });
        let names = parts_below(&path.as_bytes().to_vec(), &root.as_bytes().to_vec());
        assert_eq!(names, expected, "{} below {}", path, root);
    }
}

#[test]
fn names_that_are_no_text_are_empty() {
    assert_eq!(text_of_name("夜.jpg".as_bytes().to_vec()), "夜.jpg");
    assert_eq!(text_of_name(vec![0x61, 0xff]), "");
    let mut w = watcher(MediaKind::Pixiv);
    let mut path = b"/r/".to_vec();
    path.push(0xff);
    path.extend(b"/a.jpg");
    let file = w.follow(Change::Create, &path, 5).unwrap();
    assert_eq!(file.dir, "");
    assert_eq!(file.filename, "a.jpg");
    assert_eq!(
        parts_below(&path, &b"/r".to_vec()),
        Some(vec![vec![0xff], b"a.jpg".to_vec()])
    );
}

#[test]
fn the_catalogue_follows_the_disk() {
    let mut w = watcher(MediaKind::Plus);
    let file = w.follow(Change::Create, &b"/r/3/ann_7_t.mp4".to_vec(), 0).unwrap();
    let there = file.settle(true);
    assert_eq!(
        there.sql,
        "INSERT OR IGNORE INTO files (type, dir, filename, authorName, authorId, title) VALUES (?1, ?2, ?3, ?4, ?5, ?6)"
    );
    assert_eq!(
        values(&there),
        vec![Some("plus"), Some("3"), Some("ann_7_t.mp4"), Some("ann"), Some("7"), Some("t")]
    );
    let scanned = Statement::insert_file(&scan_file(MediaKind::Plus, "3", "ann_7_t.mp4").unwrap());
    assert_eq!(scanned.sql, there.sql);
    assert_eq!(scanned.params, there.params);
    let gone = file.settle(false);
    assert_eq!(gone.sql, "DELETE FROM files WHERE type=? AND dir=? AND filename=?");
    assert_eq!(values(&gone), vec![Some("plus"), Some("3"), Some("ann_7_t.mp4")]);
}

#[test]
fn statements_hold_their_values() {
    assert_eq!(Statement::count_files().sql, "SELECT COUNT(*) as c FROM files");
    assert_eq!(
        Statement::get_random_pixiv().sql,
        "SELECT * FROM files WHERE type='pixiv' ORDER BY RANDOM() LIMIT 1"
    );
    assert_eq!(
        Statement::get_random_plus().sql,
        "SELECT * FROM files WHERE type='plus' ORDER BY RANDOM() LIMIT 1"
    );
    let s = Statement::find_file("plus", "a.mp4");
    assert_eq!(s.sql, "SELECT dir FROM files WHERE type=? AND filename=?");
    assert_eq!(values(&s), vec![Some("plus"), Some("a.mp4")]);
    let s = Statement::search_pixiv("夜");
    assert_eq!(
        s.sql,
        "SELECT * FROM files WHERE type='pixiv' AND filename LIKE ? ESCAPE '\\' LIMIT 1"
    );
    assert_eq!(values(&s), vec![Some("%夜%")]);
    let s = Statement::search_pixiv("cat_12_p0.jpg");
    assert_eq!(values(&s), vec![Some("%cat\\_12\\_p0.jpg%")]);
    let s = Statement::get_pixiv_pages("3", "a_1");
    assert_eq!(
        s.sql,
        "SELECT filename FROM files WHERE type='pixiv' AND dir=? AND filename LIKE ?"
    );
    assert_eq!(values(&s), vec![Some("3"), Some("a_1%")]);
    let s = Statement::search_plus("ann");
    assert_eq!(
        s.sql,
        "SELECT * FROM files WHERE type='plus' AND (authorName LIKE ? OR authorId LIKE ?)"
    );
    assert_eq!(values(&s), vec![Some("%ann%"), Some("%ann%")]);
    assert_eq!(
        Statement::get_all_authors().sql,
        "SELECT DISTINCT authorName, authorId FROM files WHERE type='plus'"
    );
    let s = Statement::insert_file(&FileRow::of_author(Some("ann".to_string()), None));
    assert_eq!(values(&s), vec![None, None, None, Some("ann"), None, None]);
}

#[test]
fn rows_are_written_in_json() {
    let mut row = FileRow::of_author(Some("ann".to_string()), None);
    row.id = Some(-3);
    row.kind = Some("plus".to_string());
    let json = row.to_json();
    assert_eq!(json["id"], -3);
    assert_eq!(json["type"], "plus");
    assert_eq!(json["authorName"], "ann");
    assert!(json["authorId"].is_null());
    assert!(json["dir"].is_null());
    assert!(json["filename"].is_null());
    assert!(json["title"].is_null());
    assert_eq!(json.as_object().unwrap().len(), 7);
}
