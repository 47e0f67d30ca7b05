use pixhub::filename::{parse_pixiv_filename, parse_plus_filename};
use pixhub::files::{order_pages, page_of};
use pixhub::path::{extension, file_name, file_stem, is_under, join, tidy_path};

fn pixiv(name: &str) -> Option<(String, String, Option<String>)> {
    parse_pixiv_filename(name).map(|p| (p.base, p.pid, p.page))
}

fn three(base: &str, pid: &str, page: Option<&str>) -> Option<(String, String, Option<String>)> {
    Some((base.to_string(), pid.to_string(), page.map(|p| p.to_string())))
}

#[test]
fn names_of_pictures_tell_title_id_and_page() {
    assert_eq!(pixiv("夜空_12345_p0.jpg"), three("夜空", "12345", Some("0")));
    assert_eq!(pixiv("a_b_77.png"), three("a_b", "77", None));
    assert_eq!(pixiv("_9.png"), three("", "9", None));
    assert_eq!(pixiv("a_px_12.jpg"), three("a_px", "12", None));
    assert_eq!(pixiv("a_1_p2_p3.jpg"), None);
    assert_eq!(pixiv("dir/a_5_p12.webp"), three("a", "5", Some("12")));
}

#[test]
fn other_names_tell_no_picture() {
    assert_eq!(pixiv("abc_p5.jpg"), None);
    assert_eq!(pixiv("a_b_p5.jpg"), None);
    assert_eq!(pixiv("12.jpg"), None);
    assert_eq!(pixiv("a_12x.jpg"), None);
    assert_eq!(pixiv(""), None);
    assert_eq!(pixiv(".."), None);
}

#[test]
fn names_of_videos_tell_author_id_and_title() {
    assert_eq!(
        parse_plus_filename("ann_7_a_long_title.mp4"),
        Some(("ann".to_string(), "7".to_string(), "a_long_title".to_string()))
    );
    assert_eq!(
        parse_plus_filename("__.mp4"),
        Some((String::new(), String::new(), String::new()))
    );
    assert_eq!(parse_plus_filename("ann_7.mp4"), None);
    assert_eq!(parse_plus_filename(""), None);
}

#[test]
fn pages_are_told_by_names() {
    assert_eq!(page_of("a_1_p12.jpg"), 12);
    assert_eq!(page_of("a_1_p-3.jpg"), -3);
    assert_eq!(page_of("a_1.jpg"), 0);
    assert_eq!(page_of("a_pic_1_p4.jpg"), 0);
    assert_eq!(page_of("a_1_p3_p9.jpg"), 3);
    assert_eq!(page_of("a_1_p99999999999.jpg"), 0);
}

#[test]
fn pages_are_ordered_by_number_and_keep_their_order() {
    let files: Vec<String> = ["x_1_p10.jpg", "x_1_p2.jpg", "x_1.png", "x_1_p0.jpg", "x_1_p2.png"]
        .iter()
        .map(|s| s.to_string())
        .collect();
    assert_eq!(
        order_pages(&files),
        vec!["x_1.png", "x_1_p0.jpg", "x_1_p2.jpg", "x_1_p2.png", "x_1_p10.jpg"]
    );
    assert_eq!(order_pages(&Vec::new()), Vec::<String>::new());
}

#[test]
fn paths_are_joined_as_the_system_does() {
    for (base, part) in [
        ("./resources", "pixiv"),
        ("/a/", "b"),
        ("", "b"),
        ("a", ""),
        ("a", "/etc"),
        ("a/", ""),
        ("/", "x/y"),
    ] {
        let expected = std::path::Path::new(base).join(part);
        assert_eq!(join(base, part), expected.to_str().unwrap());
    }
}

#[test]
fn what_lies_below_a_path_is_told_as_the_system_does() {
    for (path, base) in [
        ("./resources/pixiv/1/a.jpg", "./resources"),
        ("resources/pixiv", "./resources"),
        ("/srv/media/x", "/srv/media/"),
        ("/srv/mediax", "/srv/media"),
        ("/srv//media/./x", "/srv/media"),
        ("a/../b", "a"),
        ("a/../b", "b"),
        ("/etc/passwd", "./resources"),
        ("", ""),
        ("x", ""),
        (".", ""),
        ("./x", "."),
        ("x/.", "x"),
    ] {
        let expected = std::path::Path::new(path).strip_prefix(base).is_ok();
        assert_eq!(is_under(path, base), expected, "{} under {}", path, base);
    }
}

#[test]
fn parts_of_names_are_told_as_the_system_does() {
    for path in [
        "a.jpg", "a.tar.gz", ".hidden", ".hidden.png", "a", "a.", "..", ".", "", "/", "x/y.z/", "x/.",
        "x/..", "名.JPG", "x//y.b", "...", "..a",
    ] {
        let p = std::path::Path::new(path);
        assert_eq!(file_name(path), p.file_name().map(|s| s.to_str().unwrap().to_string()), "name of {}", path);
        assert_eq!(file_stem(path), p.file_stem().map(|s| s.to_str().unwrap().to_string()), "stem of {}", path);
        assert_eq!(extension(path), p.extension().map(|s| s.to_str().unwrap().to_string()), "extension of {}", path);
    }
}

#[test]
fn joined_names_stay_below() {
    let path = join(&join(&join("/srv/media", "pixiv"), "12"), "a.jpg");
    assert_eq!(path, "/srv/media/pixiv/12/a.jpg");
    assert!(is_under(&path, "/srv/media/pixiv/12"));
    assert!(is_under(&path, "/srv/media"));
    assert!(!is_under(&join("/srv/media", "/etc"), "/srv/media"));
}

#[test]
fn paths_are_written_by_their_parts() {
    assert_eq!(tidy_path("/a//b/./c/"), "/a/b/c/");
    assert_eq!(tidy_path("./a/.."), "./a/../");
    assert_eq!(tidy_path(""), "");
    assert_eq!(tidy_path("/"), "/");
}
