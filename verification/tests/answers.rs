use axum::http::{HeaderMap, HeaderValue};
use pixhub::answers::endpoint_not_found;
use pixhub::catalog::MediaKind;
use pixhub::config::Config;
use pixhub::error::AppError;
use pixhub::files::{DbFailure, FileRow};
use pixhub::media::{
    file_by_name, file_from_session, plan_video, request_file, serve_image_file,
    serve_image_with_cookie, serve_video_file, try_plan_video, verify_resource_exists,
    verify_resource_place, FileRequest, LocatedFile,
};
use pixhub::range::RangePlan;
use pixhub::rate::RateLimiter;
use pixhub::reply::{json_text_reply, Reply, ReplyBody};
use pixhub::request::InfoQuery;
use pixhub::sessions::SessionStore;
use pixhub::{pixiv, plus};
use serde_json::Value;

fn headers(pairs: &[(&'static str, &'static str)]) -> HeaderMap<HeaderValue> {
    let mut map = HeaderMap::new();
    for (name, value) in pairs {
        map.append(*name, HeaderValue::from_static(value));
    }
    map
}

fn config() -> Config {
    Config {
        host: "h".to_string(),
        port: 1,
        resources: "/srv/media".to_string(),
        storage_name: None,
        allow_empty_referer: false,
        allowed_referers: vec!["https://ok".to_string()],
        cors_origin: String::new(),
        rate_limit_window_secs: 1,
        rate_limit_max: 1,
        log_level: "info".to_string(),
    }
}

fn ok() -> HeaderMap<HeaderValue> {
    headers(&[("referer", "https://ok/page"), ("host", "x")])
}

fn row(dir: &str, filename: &str) -> FileRow {
    let mut row = FileRow::of_dir(Some(dir.to_string()));
    row.filename = Some(filename.to_string());
    row
}

fn json(reply: &Reply) -> Value {
    assert_eq!(reply.headers.len(), 1);
    assert_eq!(reply.headers[0].0, "Content-Type");
    assert_eq!(reply.headers[0].1, "application/json; charset=utf-8");
    match &reply.body {
        ReplyBody::Text(text) => serde_json::from_str(text).unwrap(),
        ReplyBody::Bytes(_) => panic!("bytes"),
    }
}

fn bytes(reply: &Reply) -> &[u8] {
    match &reply.body {
        ReplyBody::Text(_) => panic!("text"),
        ReplyBody::Bytes(bytes) => bytes,
    }
}

fn header<'a>(reply: &'a Reply, name: &str) -> Option<&'a str> {
    reply.headers.iter().find(|h| h.0 == name).map(|h| h.1.as_str())
}

fn refused<T>(r: Result<T, AppError>, status: u16, code: &str, message: &str) -> AppError {
    match r {
        Ok(_) => panic!("not refused"),
        Err(e) => {
            assert_eq!(e.status_code, status);
            assert_eq!(e.error_code, code);
            assert_eq!(e.message, message);
            e
        }
    }
}

// ===================== Errors =====================
#[test]
fn errors_are_answered_in_json() {
    let mut e = AppError::new(404, "GONE", "不在");
    e.storage_name = Some("east".to_string());
    let reply = e.reply_at("2024/01/02 03:04:05");
    assert_eq!(reply.status, 404);
    match &reply.body {
        ReplyBody::Text(text) => assert_eq!(
            text,
            "{\n  \"code\": \"GONE\",\n  \"details\": {},\n  \"error\": true,\n  \"message\": \"不在\",\n  \"storage\": \"east\",\n  \"timestamp\": \"2024/01/02 03:04:05\"\n}"
        ),
        ReplyBody::Bytes(_) => panic!("bytes"),
    }
}

#[test]
fn a_text_of_json_is_sent_as_it_is() {
    for (text, sent) in [(Some("{ }".to_string()), "{ }"), (None, "")] {
        let reply = json_text_reply(201, text);
        assert_eq!(reply.status, 201);
        assert_eq!(header(&reply, "Content-Type"), Some("application/json; charset=utf-8"));
        assert!(matches!(&reply.body, ReplyBody::Text(t) if t == sent));
    }
}

#[test]
fn errors_say_the_local_time() {
    let reply = AppError::with_details(400, "A", "b", Value::from("c")).into_response();
    assert_eq!(reply.status, 400);
    let body = json(&reply);
    assert_eq!(body["error"], true);
    assert_eq!(body["code"], "A");
    assert_eq!(body["message"], "b");
    assert_eq!(body["details"], "c");
    assert!(body.get("storage").is_none());
    let time = body["timestamp"].as_str().unwrap();
    assert_eq!(time.len(), 19);
    let shape: String = time.chars().map(|c| if c.is_ascii_digit() { '0' } else { c }).collect();
    assert_eq!(shape, "0000/00/00 00:00:00");
}

#[test]
fn unknown_pages_are_answered() {
    let e = refused::<()>(Err(endpoint_not_found()), 404, "ENDPOINT_NOT_FOUND", "接口不存在");
    assert_eq!(e.details, Value::Object(serde_json::Map::new()));
}

// ===================== Pictures =====================
#[test]
fn any_picture_is_told_with_its_pages() {
    let mut limiter = RateLimiter::new(10, 1);
    let statement = pixiv::random_begin(&mut limiter, 0).unwrap();
    assert_eq!(statement.sql, "SELECT * FROM files WHERE type='pixiv' ORDER BY RANDOM() LIMIT 1");
    assert!(statement.params.is_empty());
    let work = pixiv::random_found(Ok(Some(row("7", "夜 空_12_p1.jpg")))).unwrap();
    let pages = work.pages_statement();
    assert_eq!(pages.params, vec![Some("7".to_string()), Some("夜 空_12%".to_string())]);
    let mut sessions = SessionStore::new(0);
    let found = vec!["夜 空_12_p1.jpg".to_string(), "夜 空_12_p0.jpg".to_string()];
    let (id, reply) = pixiv::random_reply(
        &work,
        Ok(found),
        &ok(),
        None,
        &mut sessions,
        1,
        &Some("east".to_string()),
    )
    .unwrap();
    assert_eq!(reply.status, 200);
    let body = json(&reply);
    assert_eq!(body["error"], false);
    assert_eq!(body["message"], "success");
    assert_eq!(body["storage"], "east");
    assert_eq!(body["sessionId"], id.as_str());
    assert_eq!(body["data"]["illustId"], "12");
    assert_eq!(body["data"]["title"], "夜 空");
    assert_eq!(body["data"]["pageCount"], 2);
    assert_eq!(
        body["data"]["urls"][0],
        "http://x/pixiv/artworks/file/%E5%A4%9C%20%E7%A9%BA_12_p0.jpg"
    );
    assert_eq!(
        body["data"]["urls"][1],
        "http://x/pixiv/artworks/file/%E5%A4%9C%20%E7%A9%BA_12_p1.jpg"
    );
    assert_eq!(body["data"]["fileInfo"]["dir"], "7");
    assert_eq!(body["data"]["fileInfo"]["filename"], "夜 空_12_p1.jpg");
    let request =
        file_from_session(MediaKind::Pixiv, &ok(), Some(&id), &config(), &mut sessions, 2).unwrap();
    assert_eq!(request.filename, "夜 空_12_p1.jpg");
}

#[test]
fn any_picture_may_be_refused() {
    let mut limiter = RateLimiter::new(10, 0);
    refused(
        pixiv::random_begin(&mut limiter, 0),
        429,
        "RATE_LIMIT_EXCEEDED",
        "请求过于频繁，请稍后再试",
    );
    refused(pixiv::random_found(Err(DbFailure)), 500, "DB_ERROR", "数据库查询失败");
    refused(pixiv::random_found(Ok(None)), 404, "NO_PIXIV_FILES", "没有找到任何pixiv图片");
    let e = refused(
        pixiv::random_found(Ok(Some(row("7", "plain.jpg")))),
        400,
        "FILENAME_PARSE_ERROR",
        "文件名解析失败",
    );
    assert_eq!(e.details["filename"], "plain.jpg");
    assert_eq!(e.details["expectedFormat"], "base_pid[_p页码]");
    let e = refused(
        pixiv::random_found(Ok(Some(FileRow::of_dir(None)))),
        400,
        "FILENAME_PARSE_ERROR",
        "文件名解析失败",
    );
    assert!(e.details["filename"].is_null());
    let work = pixiv::random_found(Ok(Some(row("7", "a_1.jpg")))).unwrap();
    let mut sessions = SessionStore::new(0);
    let none = None;
    refused(
        pixiv::random_reply(&work, Err(DbFailure), &ok(), None, &mut sessions, 1, &none),
        500,
        "DB_ERROR",
        "数据库查询失败",
    );
}

#[test]
fn pictures_are_searched_by_name() {
    let mut limiter = RateLimiter::new(10, 3);
    let query = InfoQuery { list: Some("a_%b".to_string()) };
    let statement = pixiv::info_begin(&mut limiter, &query, 0).unwrap();
    assert_eq!(
        statement.sql,
        "SELECT * FROM files WHERE type='pixiv' AND filename LIKE ? ESCAPE '\\' LIMIT 1"
    );
    assert_eq!(statement.params, vec![Some("%a\\_\\%b%".to_string())]);
    let e = refused(
        pixiv::info_begin(&mut limiter, &InfoQuery { list: None }, 0),
        400,
        "MISSING_PARAMETER",
        "缺少必要参数",
    );
    assert_eq!(e.details["parameter"], "list");
    assert_eq!(e.details["description"], "需要提供文件名关键字");
    let e = refused(
        pixiv::info_found("a_%b", Ok(None)),
        404,
        "FILE_NOT_FOUND",
        "未找到匹配的图片",
    );
    assert_eq!(e.details["query"], "a_%b");
    refused(pixiv::info_found("a", Err(DbFailure)), 500, "DB_ERROR", "数据库查询失败");
    let work = pixiv::info_found("a", Ok(Some(row("7", "ab_9.png")))).unwrap();
    let e = refused(
        pixiv::info_reply(&work, Ok(Vec::new()), &ok(), &None),
        404,
        "PAGES_NOT_FOUND",
        "未找到相关页面",
    );
    assert_eq!(e.details["illustId"], "9");
    refused(
        pixiv::info_reply(&work, Err(DbFailure), &ok(), &None),
        500,
        "DB_ERROR",
        "数据库查询失败",
    );
    let reply =
        pixiv::info_reply(&work, Ok(vec!["ab_9.png".to_string()]), &ok(), &None).unwrap();
    let body = json(&reply);
    assert_eq!(body["data"]["pageCount"], 1);
    assert_eq!(body["data"]["urls"][0], "http://x/pixiv/artworks/file/ab_9.png");
    assert!(body.get("storage").is_none());
    assert!(body.get("sessionId").is_none());
}

#[test]
fn any_picture_is_shown() {
    let mut limiter = RateLimiter::new(10, 1);
    let mut sessions = SessionStore::new(0);
    let c = config();
    refused(
        pixiv::view_begin(&headers(&[]), None, &c, &mut limiter, &mut sessions, 0),
        403,
        "REFERER_FORBIDDEN",
        "访问被拒绝，请检查referer设置",
    );
    let (id, _) = pixiv::view_begin(&ok(), None, &c, &mut limiter, &mut sessions, 0).unwrap();
    refused(
        pixiv::view_begin(&ok(), None, &c, &mut limiter, &mut sessions, 1),
        429,
        "RATE_LIMIT_EXCEEDED",
        "请求过于频繁，请稍后再试",
    );
    refused(
        pixiv::view_found(&id, Err(DbFailure), &c, &mut sessions),
        500,
        "DB_ERROR",
        "数据库查询失败",
    );
    let file =
        pixiv::view_found(&id, Ok(Some(row("7", "夜_1.PNG"))), &c, &mut sessions).unwrap();
    assert_eq!(file.path, "/srv/media/pixiv/7/夜_1.PNG");
    assert_eq!(file.ext, ".png");
    let reply = serve_image_with_cookie(&file, &id, Some(vec![1, 2])).unwrap();
    assert_eq!(reply.status, 200);
    assert_eq!(bytes(&reply), &[1, 2]);
    assert_eq!(reply.headers.len(), 4);
    assert_eq!(header(&reply, "Content-Type"), Some("image/png"));
    assert_eq!(header(&reply, "Cache-Control"), Some("public, max-age=86400"));
    assert_eq!(
        header(&reply, "Content-Disposition"),
        Some("inline; filename=\"%E5%A4%9C_1.PNG\"")
    );
    let cookie = format!("sessionId={}; Max-Age=3600; HttpOnly; SameSite=Strict; Path=/", id);
    assert_eq!(header(&reply, "Set-Cookie"), Some(cookie.as_str()));
    let again =
        file_from_session(MediaKind::Pixiv, &ok(), Some(&id), &c, &mut sessions, 2).unwrap();
    assert_eq!(again.filename, "夜_1.PNG");
    refused(
        pixiv::view_found(&id, Ok(None), &c, &mut sessions),
        404,
        "NO_PIXIV_FILES",
        "没有找到任何pixiv图片",
    );
    refused(
        file_from_session(MediaKind::Pixiv, &ok(), Some(&id), &c, &mut sessions, 3),
        400,
        "MISSING_FILENAME",
        "缺少文件名参数，且会话中没有缓存文件",
    );
}

#[test]
fn pictures_outside_the_resources_are_not_shown() {
    let mut limiter = RateLimiter::new(10, 1);
    let mut sessions = SessionStore::new(0);
    let c = config();
    let (id, _) = pixiv::view_begin(&ok(), None, &c, &mut limiter, &mut sessions, 0).unwrap();
    let e = refused(
        pixiv::view_found(&id, Ok(Some(row("/elsewhere", "a.jpg"))), &c, &mut sessions),
        403,
        "PATH_TRAVERSAL",
        "路径访问被拒绝",
    );
    assert_eq!(e.details["requestedPath"], "/elsewhere/a.jpg");
    assert!(verify_resource_place("/srv/media/x", "/srv/media").is_ok());
    assert!(verify_resource_place("/srv/mediax", "/srv/media").is_err());
    assert!(verify_resource_exists(true).is_ok());
    refused(verify_resource_exists(false), 404, "RESOURCE_NOT_FOUND", "请求的资源不存在");
}

#[test]
fn a_picture_without_a_name_is_unknown() {
    let mut limiter = RateLimiter::new(10, 1);
    let mut sessions = SessionStore::new(0);
    let c = config();
    let (id, _) = pixiv::view_begin(&ok(), None, &c, &mut limiter, &mut sessions, 0).unwrap();
    let file =
        pixiv::view_found(&id, Ok(Some(FileRow::of_dir(None))), &c, &mut sessions).unwrap();
    assert_eq!(file.path, "/srv/media/pixiv/");
    assert_eq!(file.filename, "unknown");
    assert_eq!(file.ext, "");
    refused(
        file_from_session(MediaKind::Pixiv, &ok(), Some(&id), &c, &mut sessions, 3),
        400,
        "MISSING_FILENAME",
        "缺少文件名参数",
    );
}

// ===================== Files =====================
#[test]
fn files_are_asked_for_by_name() {
    let c = config();
    let request = file_by_name(MediaKind::Pixiv, "a%20b.jpg", &ok(), &c).unwrap();
    assert_eq!(request.filename, "a b.jpg");
    assert_eq!(
        request.statement().params,
        vec![Some("pixiv".to_string()), Some("a b.jpg".to_string())]
    );
    let request = file_by_name(MediaKind::Plus, "夜 空.mp4", &ok(), &c).unwrap();
    assert_eq!(request.filename, "夜 空.mp4");
    let request = file_by_name(MediaKind::Plus, "100%.mp4", &ok(), &c).unwrap();
    assert_eq!(request.filename, "100%.mp4");
    refused(
        file_by_name(MediaKind::Plus, "a.mp4", &headers(&[]), &c),
        403,
        "REFERER_FORBIDDEN",
        "访问被拒绝，请检查referer设置",
    );
}

#[test]
fn names_that_lead_out_are_refused() {
    refused(request_file(MediaKind::Pixiv, ""), 400, "MISSING_FILENAME", "缺少文件名参数");
    for name in ["..", "a..b", "/a", "a/b", "a\\b"] {
        refused(
            request_file(MediaKind::Pixiv, name),
            400,
            "INVALID_FILENAME",
            "文件名包含非法字符",
        );
    }
    refused(request_file(MediaKind::Pixiv, "%ff"), 400, "INVALID_FILENAME", "文件名解码失败");
    assert_eq!(request_file(MediaKind::Pixiv, "a.b.c").unwrap().filename, "a.b.c");
}

#[test]
fn found_files_are_located() {
    let c = config();
    let request = FileRequest { kind: MediaKind::Plus, filename: "a.MP4".to_string() };
    refused(request.found(Err(DbFailure), &c), 500, "DB_ERROR", "数据库查询失败");
    let e = refused(request.found(Ok(None), &c), 404, "FILE_NOT_IN_DB", "文件不在数据库中");
    assert_eq!(e.details["filename"], "a.MP4");
    let file = request.found(Ok(Some(FileRow::of_dir(Some("5".to_string())))), &c).unwrap();
    assert_eq!(file.path, "/srv/media/plus/5/a.MP4");
    assert_eq!(file.filename, "a.MP4");
    assert_eq!(file.ext, ".mp4");
    let absolute = FileRequest { kind: MediaKind::Plus, filename: "/etc/x".to_string() };
    refused(
        absolute.found(Ok(Some(FileRow::of_dir(Some("5".to_string())))), &c),
        403,
        "PATH_TRAVERSAL",
        "路径访问被拒绝",
    );
}

fn located(name: &str) -> LocatedFile {
    let request = FileRequest { kind: MediaKind::Plus, filename: name.to_string() };
    request.found(Ok(Some(FileRow::of_dir(None))), &config()).unwrap()
}

#[test]
fn pictures_are_served() {
    let reply = serve_image_file(&located("a.webp"), Some(vec![9])).unwrap();
    assert_eq!(reply.status, 200);
    assert_eq!(reply.headers.len(), 3);
    assert_eq!(header(&reply, "Content-Type"), Some("image/webp"));
    assert_eq!(bytes(&reply), &[9]);
    refused(
        serve_image_file(&located("a.webp"), None),
        404,
        "RESOURCE_NOT_FOUND",
        "请求的资源不存在",
    );
    refused(
        serve_image_with_cookie(&located("a.webp"), "s", None),
        404,
        "RESOURCE_NOT_FOUND",
        "请求的资源不存在",
    );
}

#[test]
fn videos_are_served_whole() {
    let plan = plan_video(&headers(&[]), Some(3)).unwrap();
    assert!(matches!(plan, RangePlan::Whole));
    let reply = serve_video_file(&located("a b.mp4"), plan, 3, Some(vec![1, 2, 3])).unwrap();
    assert_eq!(reply.status, 200);
    assert_eq!(reply.headers.len(), 5);
    assert_eq!(header(&reply, "Accept-Ranges"), Some("bytes"));
    assert_eq!(header(&reply, "Content-Type"), Some("video/mp4"));
    assert_eq!(header(&reply, "Cache-Control"), Some("public, max-age=86400"));
    assert_eq!(header(&reply, "Content-Disposition"), Some("inline; filename=\"a%20b.mp4\""));
    assert_eq!(header(&reply, "Content-Length"), Some("3"));
    assert_eq!(bytes(&reply), &[1, 2, 3]);
    refused(
        serve_video_file(&located("a.mp4"), plan, 3, None),
        404,
        "RESOURCE_NOT_FOUND",
        "请求的资源不存在",
    );
}

#[test]
fn videos_are_served_in_parts() {
    let plan = plan_video(&headers(&[("range", "bytes=1-9")]), Some(4)).unwrap();
    let reply = serve_video_file(&located("a.mp4"), plan, 4, Some(vec![1, 2, 3, 4])).unwrap();
    assert_eq!(reply.status, 206);
    assert_eq!(reply.headers.len(), 6);
    assert_eq!(header(&reply, "Content-Range"), Some("bytes 1-9/4"));
    assert_eq!(header(&reply, "Content-Length"), Some("3"));
    assert_eq!(bytes(&reply), &[2, 3, 4]);
}

#[test]
fn parts_of_videos_may_be_refused() {
    let e = refused(
        plan_video(&headers(&[("range", "bytes=4-")]), Some(4)),
        416,
        "RANGE_NOT_SATISFIABLE",
        "请求的Range不可满足",
    );
    assert_eq!(e.details["range"], "bytes=4-");
    assert_eq!(e.details["fileSize"], 4);
    let inverted = headers(&[("range", "bytes=3-2")]);
    assert!(try_plan_video(&inverted, Some(4)).is_none());
    assert!(try_plan_video(&inverted, None).unwrap().is_err());
    assert!(matches!(try_plan_video(&inverted, Some(2)), Some(Err(_))));
    assert!(matches!(
        try_plan_video(&headers(&[]), Some(4)),
        Some(Ok(RangePlan::Whole))
    ));
    refused(plan_video(&headers(&[]), None), 404, "RESOURCE_NOT_FOUND", "请求的资源不存在");
}

// ===================== Videos =====================
#[test]
fn any_video_is_told() {
    let mut limiter = RateLimiter::new(10, 1);
    let statement = plus::random_begin(&mut limiter, 0).unwrap();
    assert_eq!(statement.sql, "SELECT * FROM files WHERE type='plus' ORDER BY RANDOM() LIMIT 1");
    refused(
        plus::random_begin(&mut limiter, 1),
        429,
        "RATE_LIMIT_EXCEEDED",
        "请求过于频繁，请稍后再试",
    );
    refused(plus::random_found(Err(DbFailure)), 500, "DB_ERROR", "数据库查询失败");
    refused(plus::random_found(Ok(None)), 404, "NO_PLUS_FILES", "没有找到任何视频文件");
    let mut video = row("5", "ann_7_t t.mp4");
    video.authorName = Some("ann".to_string());
    video.authorId = Some("7".to_string());
    let video = plus::random_found(Ok(Some(video))).unwrap();
    let mut sessions = SessionStore::new(0);
    let (id, reply) = plus::random_reply(&video, &ok(), None, &mut sessions, 1, &None);
    let body = json(&reply);
    assert_eq!(body["sessionId"], id.as_str());
    assert_eq!(body["data"]["authorName"], "ann");
    assert_eq!(body["data"]["authorId"], "7");
    assert!(body["data"]["title"].is_null());
    assert_eq!(body["data"]["urls"][0], "http://x/plus/artworks/file/ann_7_t%20t.mp4");
    assert_eq!(body["data"]["urls"].as_array().unwrap().len(), 1);
    assert_eq!(body["data"]["fileInfo"]["dir"], "5");
    refused(
        file_from_session(MediaKind::Plus, &ok(), Some(&id), &config(), &mut sessions, 2),
        400,
        "MISSING_FILENAME",
        "缺少文件名参数，且会话中没有缓存文件",
    );
    refused(
        file_from_session(MediaKind::Plus, &headers(&[]), Some(&id), &config(), &mut sessions, 2),
        403,
        "REFERER_FORBIDDEN",
        "访问被拒绝，请检查referer设置",
    );
}

#[test]
fn authors_and_videos_are_searched() {
    let mut limiter = RateLimiter::new(10, 3);
    let all = InfoQuery { list: Some("all".to_string()) };
    assert!(matches!(
        plus::info_begin(&mut limiter, &all, 0),
        Ok(plus::InfoQuestion::Authors(_))
    ));
    match plus::info_begin(&mut limiter, &InfoQuery { list: Some("a_n".to_string()) }, 0) {
        Ok(plus::InfoQuestion::Videos(s)) => {
            assert_eq!(s.params, vec![Some("%an%".to_string()), Some("%an%".to_string())])
        }
        _ => panic!("no search"),
    }
    let e = refused(
        plus::info_begin(&mut limiter, &InfoQuery { list: None }, 0),
        400,
        "MISSING_PARAMETER",
        "缺少必要参数",
    );
    assert_eq!(e.details["description"], "需要提供作者名或作者ID，或使用'all'获取所有作者");
    refused(
        plus::info_begin(&mut limiter, &all, 0),
        429,
        "RATE_LIMIT_EXCEEDED",
        "请求过于频繁，请稍后再试",
    );
}

#[test]
fn authors_are_listed() {
    refused(plus::authors_reply(Err(DbFailure), &None), 500, "DB_ERROR", "数据库查询失败");
    refused(
        plus::authors_reply(Ok(Vec::new()), &None),
        404,
        "NO_AUTHORS_FOUND",
        "没有找到任何作者",
    );
    let rows = vec![
        FileRow::of_author(Some("ann".to_string()), Some("7".to_string())),
        FileRow::of_author(None, None),
    ];
    let body = json(&plus::authors_reply(Ok(rows), &Some("east".to_string())).unwrap());
    assert_eq!(body["storage"], "east");
    assert_eq!(body["data"]["count"], 2);
    assert_eq!(body["data"]["authors"][0]["authorName"], "ann");
    assert_eq!(body["data"]["authors"][0]["authorId"], "7");
    assert!(body["data"]["authors"][1]["authorName"].is_null());
    assert!(body["data"]["authors"][0]["filename"].is_null());
}

#[test]
fn videos_are_listed() {
    refused(
        plus::videos_reply("a", Err(DbFailure), &ok(), &None),
        500,
        "DB_ERROR",
        "数据库查询失败",
    );
    let e = refused(
        plus::videos_reply("a", Ok(Vec::new()), &ok(), &None),
        404,
        "AUTHOR_NOT_FOUND",
        "未找到匹配的作者",
    );
    assert_eq!(e.details["query"], "a");
    let rows = vec![row("1", "x.mp4"), FileRow::of_dir(None)];
    let body = json(&plus::videos_reply("a", Ok(rows), &ok(), &None).unwrap());
    assert_eq!(body["data"]["count"], 2);
    assert_eq!(body["data"]["files"][0]["urls"][0], "http://x/plus/artworks/file/x.mp4");
    assert_eq!(body["data"]["files"][1]["urls"][0], "http://x/plus/artworks/file/");
    assert_eq!(body["data"]["files"][0]["fileInfo"]["dir"], "1");
}

#[test]
fn any_video_is_shown_at_its_link() {
    let c = config();
    assert!(plus::view_begin(&ok(), &c).is_ok());
    refused(
        plus::view_begin(&headers(&[]), &c),
        403,
        "REFERER_FORBIDDEN",
        "访问被拒绝，请检查referer设置",
    );
    assert_eq!(
        plus::view_target(Ok(Some(row("1", "é.mp4"))), &ok()).unwrap(),
        "http://x/plus/artworks/file/%C3%A9.mp4"
    );
    refused(plus::view_target(Ok(None), &ok()), 404, "NO_PLUS_FILES", "没有找到任何视频文件");
    refused(plus::view_target(Err(DbFailure), &ok()), 500, "DB_ERROR", "数据库查询失败");
}

#[test]
fn links_lead_back_to_their_files() {
    for name in ["夜 空_1_p0.jpg", "a+b&c=d~.mp4", "50%off.mp4"] {
        let link = plus::view_target(Ok(Some(row("1", name))), &ok()).unwrap();
        let end = link.rsplit('/').next().unwrap();
        let taken_out = request_file(MediaKind::Plus, end).unwrap().filename;
        assert_eq!(taken_out, name);
        assert_eq!(request_file(MediaKind::Plus, &taken_out).unwrap().filename, name);
    }
}
