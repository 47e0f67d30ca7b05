//! The answers about videos, cut into steps as those about pictures are.
use axum::http::{HeaderMap, HeaderValue};
use serde_json::Value;
use vstd::prelude::*;

use crate::answers::{db_error, is_db_error, is_referer_error, json_query, missing_details};
use crate::answers::{missing_list, no_details, query_details};
use crate::catalog::{is_row_of, law_scanned_video_columns, MediaKind};
use crate::config::Config;
use crate::error::AppError;
use crate::files::{containing_pattern, json_opt, opt_json, param_views, DbFailure, FileRow};
use crate::files::{is_about, lemma_questions_name_their_kind, Statement};
use crate::headers::opt_str;
use crate::json::{json_array, json_content, json_contents, json_object, json_set, json_text};
use crate::json::{json_unsigned, JsonView};
use crate::like::{contains_term, law_plain_finds_term, like};
use crate::links::{file_info, file_link, json_file_info, law_link_holds_name, link_file};
use crate::percent::{link_text, text_of_link};
use crate::pixiv::lemma_answer_keys;
use crate::rate::{is_refusal, RateLimiter};
use crate::reply::{api_response, json_response, law_success_is_marked, marked_success, Reply};
use crate::request::{get_host, json_texts, request_allowed, request_origin, request_session};
use crate::request::{law_sanitized_is_plain, sanitize_search_term, sanitized, text_array, validate_referer, InfoQuery};
use crate::sessions::{is_random_uuid, Session, SessionStore};
use crate::text::{opt_text, same_text, string_or, text_or, texts};

verus! {

/// The answer where there are no videos.
pub open spec fn is_no_video(e: AppError) -> bool {
    e.says(404, "NO_PLUS_FILES"@, "没有找到任何视频文件"@, no_details())
}

/// The link to the video of a row.
pub open spec fn video_link(row: FileRow, origin: Seq<char>) -> Seq<char> {
    file_link(origin, "/plus/artworks/file/"@, text_or(row.filename, ""@))
}

/// What is said of a video: its author, its title, a link to it, and where it is.
pub open spec fn plus_data(row: FileRow, origin: Seq<char>) -> JsonView {
    JsonView::Object(
        Map::empty().insert("authorName"@, opt_json(row.authorName)).insert(
            "authorId"@,
            opt_json(row.authorId),
        ).insert("title"@, opt_json(row.title)).insert(
            "urls"@,
            text_array(seq![video_link(row, origin)]),
        ).insert("fileInfo"@, file_info(row)),
    )
}

/// The link to the video of a row.
fn link_video(row: &FileRow, origin: &str) -> (r: String)
    ensures
        r@ == video_link(*row, origin@),
{
    let name: String = string_or(&row.filename, "");
    link_file(origin, "/plus/artworks/file/", name.as_str())
}

/// What is said of a video.
fn json_video(row: &FileRow, origin: &str) -> (r: Value)
    ensures
        json_content(r) == plus_data(*row, origin@),
{
    let mut links: Vec<String> = Vec::new();
    links.push(link_video(row, origin));
    assert(texts(links@) =~= seq![video_link(*row, origin@)]);
    let mut data: Value = json_object();
    json_set(&mut data, "authorName", json_opt(&row.authorName));
    json_set(&mut data, "authorId", json_opt(&row.authorId));
    json_set(&mut data, "title", json_opt(&row.title));
    json_set(&mut data, "urls", json_texts(&links));
    json_set(&mut data, "fileInfo", json_file_info(row));
    data
}

// ===================== Any video =====================
/// The limiter becomes `after` by a request for any video at `now`, and `r` is its question,
/// where it is admitted.
pub open spec fn begins_random(
    before: RateLimiter,
    after: RateLimiter,
    now: u128,
    r: Result<Statement, AppError>,
) -> bool {
    &&& before.becomes(after, "plus_random"@, now)
    &&& if before.admits_at("plus_random"@, now) {
        r matches Ok(s) && s.says(
            "SELECT * FROM files WHERE type='plus' ORDER BY RANDOM() LIMIT 1"@,
            seq![],
        )
    } else {
        r matches Err(e) && is_refusal(e)
    }
}

/// The question of a request for any video, where it is admitted.
pub fn random_begin(limiter: &mut RateLimiter, now: u128) -> (r: Result<Statement, AppError>)
    requires
        old(limiter).wf(),
    ensures
        begins_random(*old(limiter), *final(limiter), now, r),
{
    match limiter.check("plus_random", now) {
        Ok(()) => Ok(Statement::get_random_plus()),
        Err(e) => Err(e),
    }
}

/// `r` is the video that was found, where one was.
pub open spec fn finds_random(
    row: Result<Option<FileRow>, DbFailure>,
    r: Result<FileRow, AppError>,
) -> bool {
    match row {
        Err(_) => r matches Err(e) && is_db_error(e),
        Ok(None) => r matches Err(e) && is_no_video(e),
        Ok(Some(f)) => r == Ok::<FileRow, AppError>(f),
    }
}

/// The video that was found, where one was.
pub fn random_found(row: Result<Option<FileRow>, DbFailure>) -> (r: Result<FileRow, AppError>)
    ensures
        finds_random(row, r),
{
    match row {
        Err(_) => Err(db_error()),
        Ok(None) => Err(AppError::new(404, "NO_PLUS_FILES", "没有找到任何视频文件")),
        Ok(Some(f)) => Ok(f),
    }
}

/// The store becomes `after` by a request for any video at `now`, and `r` is the id of the
/// session and the reply.
pub open spec fn replies_random(
    row: FileRow,
    headers: HeaderMap<HeaderValue>,
    query: Option<Seq<char>>,
    before: SessionStore,
    after: SessionStore,
    now: u128,
    storage_name: Option<String>,
    r: (String, Reply),
) -> bool {
    &&& before.opens(request_session(headers, query), now, r.0@)
    &&& before.becomes(
        after,
        now,
        r.0@,
        (Session {
            plus: None,
            ..before.opened(request_session(headers, query), now)
        }),
    )
    &&& r.1.is_json(
        200,
        JsonView::Object(
            marked_success(
                Map::empty().insert("data"@, plus_data(row, request_origin(headers))).insert(
                    "sessionId"@,
                    JsonView::Text(r.0@),
                ),
                storage_name,
            ),
        ),
    )
}

/// The reply about any video, and the id of the session, which now remembers no video.
/// `query` is the `sessionId` of the request's query.
pub fn random_reply(
    row: &FileRow,
    headers: &HeaderMap<HeaderValue>,
    query: Option<&str>,
    sessions: &mut SessionStore,
    now: u128,
    storage_name: &Option<String>,
) -> (r: (String, Reply))
    requires
        old(sessions).wf(),
    ensures
        replies_random(
            *row,
            *headers,
            opt_str(query),
            *old(sessions),
            *final(sessions),
            now,
            *storage_name,
            r,
        ),
{
    let origin: String = get_host(headers);
    let (id, session) = sessions.get_for_request(headers, query, now);
    session.plus = None;
    let mut body: Value = json_object();
    json_set(&mut body, "data", json_video(row, origin.as_str()));
    json_set(&mut body, "sessionId", json_text(id.as_str()));
    let reply: Reply = json_response(body, storage_name);
    (id, reply)
}

// ===================== Authors and their videos =====================
/// What a request for authors or videos asks of the database.
#[derive(Clone, Debug)]
pub enum InfoQuestion {
    /// All authors.
    Authors(Statement),
    /// The videos of the authors that the term finds.
    Videos(Statement),
}

/// The limiter becomes `after` by a request for authors or videos at `now`, and `r` is its
/// question, where it is admitted.
pub open spec fn begins_info(
    before: RateLimiter,
    after: RateLimiter,
    query: InfoQuery,
    now: u128,
    r: Result<InfoQuestion, AppError>,
) -> bool {
    &&& before.becomes(after, "plus_info"@, now)
    &&& if !before.admits_at("plus_info"@, now) {
        r matches Err(e) && is_refusal(e)
    } else {
        match query.list {
            None => r matches Err(e) && e.says(
                400,
                "MISSING_PARAMETER"@,
                "缺少必要参数"@,
                missing_details("需要提供作者名或作者ID，或使用'all'获取所有作者"@),
            ),
            Some(list) => if list@ == "all"@ {
                r matches Ok(InfoQuestion::Authors(s)) && s.says(
                    "SELECT DISTINCT authorName, authorId FROM files WHERE type='plus'"@,
                    seq![],
                )
            } else {
                r matches Ok(InfoQuestion::Videos(s)) && s.says(
                    "SELECT * FROM files WHERE type='plus' AND (authorName LIKE ? OR authorId LIKE ?)"@,
                    seq![
                        Some(containing_pattern(sanitized(list@))),
                        Some(containing_pattern(sanitized(list@))),
                    ],
                )
            },
        }
    }
}

/// The question of a request for authors or videos, where it is admitted.
pub fn info_begin(limiter: &mut RateLimiter, query: &InfoQuery, now: u128) -> (r: Result<
    InfoQuestion,
    AppError,
>)
    requires
        old(limiter).wf(),
    ensures
        begins_info(*old(limiter), *final(limiter), *query, now, r),
{
    match limiter.check("plus_info", now) {
        Ok(()) => {},
        Err(e) => {
            return Err(e);
        },
    }
    match &query.list {
        None => Err(missing_list("需要提供作者名或作者ID，或使用'all'获取所有作者")),
        Some(list) => {
            if same_text(list.as_str(), "all") {
                return Ok(InfoQuestion::Authors(Statement::get_all_authors()));
            }
            let term: String = sanitize_search_term(list.as_str());
            Ok(InfoQuestion::Videos(Statement::search_plus(term.as_str())))
        },
    }
}

/// The rows in JSON.
pub open spec fn row_array(rows: Seq<FileRow>) -> JsonView {
    JsonView::Array(rows.map_values(|row: FileRow| row.json_view()))
}

/// The rows in JSON.
fn json_rows(rows: &Vec<FileRow>) -> (r: Value)
    ensures
        json_content(r) == row_array(rows@),
{
    let mut values: Vec<Value> = Vec::new();
    let ghost all = rows@.map_values(|row: FileRow| row.json_view());
    let mut i: usize = 0;
    while i < rows.len()
        invariant
            i <= rows@.len(),
            all == rows@.map_values(|row: FileRow| row.json_view()),
            json_contents(values@) =~= all.take(i as int),
        decreases rows@.len() - i,
    {
        let ghost before = values@;
        values.push(rows[i].to_json());
        assert(json_contents(values@) =~= json_contents(before).push(all[i as int]));
        i = i + 1;
    }
    assert(json_contents(values@) =~= all);
    json_array(values)
}

/// What is said of all authors.
pub open spec fn authors_data(rows: Seq<FileRow>) -> JsonView {
    JsonView::Object(
        Map::empty().insert("authors"@, row_array(rows)).insert(
            "count"@,
            JsonView::Number(rows.len() as int),
        ),
    )
}

/// `r` is the reply about all authors.
pub open spec fn replies_authors(
    rows: Result<Vec<FileRow>, DbFailure>,
    storage_name: Option<String>,
    r: Result<Reply, AppError>,
) -> bool {
    match rows {
        Err(_) => r matches Err(e) && is_db_error(e),
        Ok(found) => if found@.len() == 0 {
            r matches Err(e) && e.says(
                404,
                "NO_AUTHORS_FOUND"@,
                "没有找到任何作者"@,
                no_details(),
            )
        } else {
            r matches Ok(reply) && reply.is_json(
                200,
                JsonView::Object(
                    marked_success(
                        Map::empty().insert("data"@, authors_data(found@)),
                        storage_name,
                    ),
                ),
            )
        },
    }
}

/// The reply about all authors.
pub fn authors_reply(rows: Result<Vec<FileRow>, DbFailure>, storage_name: &Option<String>) -> (r:
    Result<Reply, AppError>)
    ensures
        replies_authors(rows, *storage_name, r),
{
    match rows {
        Err(_) => Err(db_error()),
        Ok(found) => {
            if found.len() == 0 {
                return Err(AppError::new(404, "NO_AUTHORS_FOUND", "没有找到任何作者"));
            }
            let mut data: Value = json_object();
            json_set(&mut data, "authors", json_rows(&found));
            json_set(&mut data, "count", json_unsigned(found.len() as u64));
            Ok(api_response(data, storage_name))
        },
    }
}

/// The videos in JSON.
pub open spec fn video_array(rows: Seq<FileRow>, origin: Seq<char>) -> JsonView {
    JsonView::Array(rows.map_values(|row: FileRow| plus_data(row, origin)))
}

/// The videos in JSON.
fn json_videos(rows: &Vec<FileRow>, origin: &str) -> (r: Value)
    ensures
        json_content(r) == video_array(rows@, origin@),
{
    let mut values: Vec<Value> = Vec::new();
    let ghost all = rows@.map_values(|row: FileRow| plus_data(row, origin@));
    let mut i: usize = 0;
    while i < rows.len()
        invariant
            i <= rows@.len(),
            all == rows@.map_values(|row: FileRow| plus_data(row, origin@)),
            json_contents(values@) =~= all.take(i as int),
        decreases rows@.len() - i,
    {
        let ghost before = values@;
        values.push(json_video(&rows[i], origin));
        assert(json_contents(values@) =~= json_contents(before).push(all[i as int]));
        i = i + 1;
    }
    assert(json_contents(values@) =~= all);
    json_array(values)
}

/// What is said of the videos that a term finds.
pub open spec fn videos_data(rows: Seq<FileRow>, origin: Seq<char>) -> JsonView {
    JsonView::Object(
        Map::empty().insert("count"@, JsonView::Number(rows.len() as int)).insert(
            "files"@,
            video_array(rows, origin),
        ),
    )
}

/// `r` is the reply about the videos that the term found.
pub open spec fn replies_videos(
    list: Seq<char>,
    rows: Result<Vec<FileRow>, DbFailure>,
    headers: HeaderMap<HeaderValue>,
    storage_name: Option<String>,
    r: Result<Reply, AppError>,
) -> bool {
    match rows {
        Err(_) => r matches Err(e) && is_db_error(e),
        Ok(found) => if found@.len() == 0 {
            r matches Err(e) && e.says(
                404,
                "AUTHOR_NOT_FOUND"@,
                "未找到匹配的作者"@,
                query_details(list),
            )
        } else {
            r matches Ok(reply) && reply.is_json(
                200,
                JsonView::Object(
                    marked_success(
                        Map::empty().insert(
                            "data"@,
                            videos_data(found@, request_origin(headers)),
                        ),
                        storage_name,
                    ),
                ),
            )
        },
    }
}

/// The reply about the videos that the term found.
pub fn videos_reply(
    list: &str,
    rows: Result<Vec<FileRow>, DbFailure>,
    headers: &HeaderMap<HeaderValue>,
    storage_name: &Option<String>,
) -> (r: Result<Reply, AppError>)
    ensures
        replies_videos(list@, rows, *headers, *storage_name, r),
{
    match rows {
        Err(_) => Err(db_error()),
        Ok(found) => {
            if found.len() == 0 {
                return Err(
                    AppError::with_details(
                        404,
                        "AUTHOR_NOT_FOUND",
                        "未找到匹配的作者",
                        json_query(list),
                    ),
                );
            }
            let origin: String = get_host(headers);
            let mut data: Value = json_object();
            json_set(&mut data, "count", json_unsigned(found.len() as u64));
            json_set(&mut data, "files", json_videos(&found, origin.as_str()));
            Ok(api_response(data, storage_name))
        },
    }
}

// ===================== A video itself =====================
/// `r` is the question of a request to see any video, where the page that it comes from may
/// ask.
pub open spec fn begins_view(
    headers: HeaderMap<HeaderValue>,
    config: Config,
    r: Result<Statement, AppError>,
) -> bool {
    if request_allowed(headers, config) {
        r matches Ok(s) && s.says(
            "SELECT * FROM files WHERE type='plus' ORDER BY RANDOM() LIMIT 1"@,
            seq![],
        )
    } else {
        r matches Err(e) && is_referer_error(e, headers, config)
    }
}

/// The question of a request to see any video, where the page that it comes from may
/// ask.
pub fn view_begin(headers: &HeaderMap<HeaderValue>, config: &Config) -> (r: Result<
    Statement,
    AppError,
>)
    ensures
        begins_view(*headers, *config, r),
{
    match validate_referer(headers, config) {
        Ok(()) => Ok(Statement::get_random_plus()),
        Err(e) => Err(e),
    }
}

/// `r` is where a request to see any video is sent.
pub open spec fn targets_view(
    row: Result<Option<FileRow>, DbFailure>,
    headers: HeaderMap<HeaderValue>,
    r: Result<String, AppError>,
) -> bool {
    match row {
        Err(_) => r matches Err(e) && is_db_error(e),
        Ok(None) => r matches Err(e) && is_no_video(e),
        Ok(Some(f)) => r matches Ok(link) && link@ == video_link(f, request_origin(headers)),
    }
}

/// Where a request to see any video is sent: the link to the video that was found.
pub fn view_target(
    row: Result<Option<FileRow>, DbFailure>,
    headers: &HeaderMap<HeaderValue>,
) -> (r: Result<String, AppError>)
    ensures
        targets_view(row, *headers, r),
{
    match random_found(row) {
        Ok(f) => {
            let origin: String = get_host(headers);
            Ok(link_video(&f, origin.as_str()))
        },
        Err(e) => Err(e),
    }
}

// ===================== Laws =====================
/// No session remembers a video.
pub open spec fn no_video_remembered(sessions: Map<Seq<char>, Session>) -> bool {
    forall|id: Seq<char>| #[trigger] sessions.contains_key(id) ==> sessions[id].plus is None
}

/// Where no session remembers a video, neither does the one that a request gets, and
/// none does after a request that puts no video into its session.
pub proof fn law_no_video_remembered(
    before: SessionStore,
    after: SessionStore,
    wanted: Option<Seq<char>>,
    now: u128,
    id: Seq<char>,
    session: Session,
)
    requires
        no_video_remembered(before.sessions()),
        before.becomes(after, now, id, session),
        session.plus == before.opened(wanted, now).plus || session.plus is None,
    ensures
        before.opened(wanted, now).plus is None,
        no_video_remembered(after.sessions()),
{
    if before.knows(wanted, now) {
        assert(before.sessions().contains_key(wanted->0));
    }
    assert forall|other: Seq<char>| #[trigger] after.sessions().contains_key(other) implies
        after.sessions()[other].plus is None by {
        if other != id {
            assert(before.sessions().contains_key(other));
        }
    }
}

/// The search for videos finds exactly the authors whose name or id contains the
/// sanitized term, but for the case of letters of ASCII.
pub proof fn law_author_is_found(list: Seq<char>, author: Seq<char>)
    ensures
        like(containing_pattern(sanitized(list)), author, None) <==> contains_term(
            author,
            sanitized(list),
        ),
{
    law_sanitized_is_plain(list);
    law_plain_finds_term(sanitized(list), author);
}

/// What is said of a video holds the columns of its row under their names, one link that
/// holds the name of the file, and where it is.
pub proof fn law_video_is_told(row: FileRow, origin: Seq<char>)
    ensures
        plus_data(row, origin) matches JsonView::Object(data) && {
            &&& data.contains_pair("authorName"@, opt_json(row.authorName))
            &&& data.contains_pair("authorId"@, opt_json(row.authorId))
            &&& data.contains_pair("title"@, opt_json(row.title))
            &&& data.contains_pair("fileInfo"@, file_info(row))
            &&& forall|key: Seq<char>| #[trigger]
                data.contains_key(key) ==> key == "authorName"@ || key == "authorId"@ || key
                    == "title"@ || key == "fileInfo"@ || key == "urls"@
            &&& data.contains_key("urls"@)
            &&& data["urls"@] matches JsonView::Array(urls) && {
                &&& urls.len() == 1
                &&& urls[0] == JsonView::Text(video_link(row, origin))
            }
        },
{
    reveal_strlit("authorName");
    reveal_strlit("authorId");
    reveal_strlit("title");
    reveal_strlit("urls");
    reveal_strlit("fileInfo");
    assert("authorName"@.len() == 10 && "authorId"@.len() == 8 && "title"@.len() == 5);
    assert("urls"@.len() == 4 && "fileInfo"@.len() == 8);
    assert("authorId"@[0] == 'a' && "fileInfo"@[0] == 'f');
}

/// The link to a video holds the name of its file.
pub proof fn law_video_link_holds_name(row: FileRow, filename: String, origin: Seq<char>)
    requires
        row.filename == Some(filename),
    ensures
        exists|t: Seq<char>|
            video_link(row, origin) == origin + "/plus/artworks/file/"@ + t
                && #[trigger] text_of_link(t) == Some(filename@) && !t.contains('/'),
{
    law_link_holds_name(origin, "/plus/artworks/file/"@, filename@);
}

/// Of a video that was scanned as `author_id_title.mp4` just this author, id and title are
/// said.
pub proof fn law_scanned_video_is_told(
    row: FileRow,
    dir: Seq<char>,
    author: Seq<char>,
    id: Seq<char>,
    title: Seq<char>,
    ext: Seq<char>,
    origin: Seq<char>,
)
    requires
        !author.contains('_') && !id.contains('_'),
        !author.contains('/') && !id.contains('/') && !title.contains('/'),
        ext.len() > 0 && !ext.contains('/') && !ext.contains('.'),
        is_row_of(
            row,
            MediaKind::Plus,
            dir,
            author + seq!['_'] + id + seq!['_'] + title + seq!['.'] + ext,
        ),
    ensures
        plus_data(row, origin) matches JsonView::Object(data) && {
            &&& data.contains_pair("authorName"@, JsonView::Text(author))
            &&& data.contains_pair("authorId"@, JsonView::Text(id))
            &&& data.contains_pair("title"@, JsonView::Text(title))
        },
{
    law_scanned_video_columns(row, dir, author, id, title, ext);
    law_video_is_told(row, origin);
}

/// The reply about any video says success, tells the video, and names the session; the
/// storage where it has a name.
pub proof fn law_random_video_is_told(
    row: FileRow,
    headers: HeaderMap<HeaderValue>,
    query: Option<Seq<char>>,
    before: SessionStore,
    after: SessionStore,
    now: u128,
    storage_name: Option<String>,
    r: (String, Reply),
    other: Seq<char>,
)
    requires
        replies_random(row, headers, query, before, after, now, storage_name, r),
    ensures
        exists|body: Map<Seq<char>, JsonView>|
            {
                &&& #[trigger] r.1.is_json(200, JsonView::Object(body))
                &&& body.contains_pair("error"@, JsonView::Bool(false))
                &&& body.contains_pair("sessionId"@, JsonView::Text(r.0@))
                &&& body.contains_pair("message"@, JsonView::Text("success"@))
                &&& forall|key: Seq<char>| #[trigger]
                    body.contains_key(key) ==> key == "error"@ || key == "message"@ || key
                        == "data"@ || key == "sessionId"@ || key == "storage"@
                        && storage_name is Some
                &&& body.contains_pair("data"@, plus_data(row, request_origin(headers)))
                &&& storage_name matches Some(s) ==> body.contains_pair(
                    "storage"@,
                    JsonView::Text(s@),
                )
            },
        after.sessions().contains_key(r.0@),
        after.sessions()[r.0@].plus is None,
        after.sessions()[r.0@].last_accessed == now,
        before.becomes(after, now, r.0@, after.sessions()[r.0@]),
        !before.knows(request_session(headers, query), now) ==> is_random_uuid(r.0@)
            && after.sessions()[r.0@].pixiv is None,
        request_session(headers, query) matches Some(w) ==> before.left_at(now).contains_key(w)
            ==> r.0@ == w && after.sessions()[w].pixiv == before.sessions()[w].pixiv,
        other != r.0@ && after.sessions().contains_key(other) ==> before.sessions().contains_key(
            other,
        ) && after.sessions()[other] == before.sessions()[other],
{
    let data = plus_data(row, request_origin(headers));
    let plain = Map::empty().insert("data"@, data).insert("sessionId"@, JsonView::Text(r.0@));
    lemma_answer_keys();
    law_success_is_marked(plain, storage_name, "data"@);
    law_success_is_marked(plain, storage_name, "sessionId"@);
    assert(r.1.is_json(200, JsonView::Object(marked_success(plain, storage_name))));
}

/// Requests for any video, and for authors or videos, are limited each under a key of its
/// own; `all` asks for all authors, and any other term for the videos of those that contain
/// what is left of it without wildcards.
pub proof fn law_video_requests_are_limited(
    before: RateLimiter,
    after: RateLimiter,
    query: InfoQuery,
    now: u128,
    random: Result<Statement, AppError>,
    info: Result<InfoQuestion, AppError>,
)
    ensures
        begins_random(before, after, now, random) ==> {
            &&& before.becomes(after, "plus_random"@, now)
            &&& random is Ok <==> before.admits_at("plus_random"@, now)
            &&& random matches Err(e) ==> e.status_code == 429
            &&& forall|key: Seq<char>|
                key != "plus_random"@ ==> #[trigger] after.times(key) == before.times(key)
        },
        begins_info(before, after, query, now, info) ==> {
            &&& before.becomes(after, "plus_info"@, now)
            &&& info is Ok <==> before.admits_at("plus_info"@, now) && query.list is Some
            &&& info matches Err(e) ==> e.status_code == (if before.admits_at("plus_info"@, now) {
                400u16
            } else {
                429u16
            })
            &&& info matches Ok(q) ==> (q is Authors <==> query.list->0@ == "all"@)
            &&& forall|key: Seq<char>|
                key != "plus_info"@ ==> #[trigger] after.times(key) == before.times(key)
        },
{
}

/// The question for videos finds an author exactly where the name or the id contains what is
/// left of the term without wildcards.
pub proof fn law_info_asks_for_author(
    before: RateLimiter,
    after: RateLimiter,
    list: String,
    now: u128,
    r: Result<InfoQuestion, AppError>,
    author: Seq<char>,
)
    requires
        begins_info(before, after, (InfoQuery { list: Some(list) }), now, r),
        before.admits_at("plus_info"@, now),
        list@ != "all"@,
    ensures
        r matches Ok(InfoQuestion::Videos(s)) && {
            &&& s.params@.len() == 2
            &&& s.params@[0] matches Some(p)
            &&& s.params@[1] matches Some(q)
            &&& q@ == p@
            &&& like(p@, author, None) <==> contains_term(author, sanitized(list@))
        },
{
    let s = (r->Ok_0)->Videos_0;
    law_author_is_found(list@, author);
    assert(param_views(s.params@).len() == s.params@.len());
    assert(param_views(s.params@)[0] == opt_text(s.params@[0]));
    assert(param_views(s.params@)[1] == opt_text(s.params@[1]));
}

/// The reply about all authors says how many there are, and tells each row in order; where
/// there are none it is refused.
pub proof fn law_authors_are_told(
    rows: Vec<FileRow>,
    storage_name: Option<String>,
    r: Result<Reply, AppError>,
    i: int,
)
    requires
        replies_authors(Ok(rows), storage_name, r),
    ensures
        rows@.len() == 0 ==> (r matches Err(e) && e.status_code == 404),
        rows@.len() > 0 ==> (r matches Ok(reply) && exists|body: Map<Seq<char>, JsonView>|
            {
                &&& #[trigger] reply.is_json(200, JsonView::Object(body))
                &&& body.contains_pair("error"@, JsonView::Bool(false))
                &&& body.contains_pair("message"@, JsonView::Text("success"@))
                &&& storage_name matches Some(s) ==> body.contains_pair(
                    "storage"@,
                    JsonView::Text(s@),
                )
                &&& forall|key: Seq<char>| #[trigger]
                    body.contains_key(key) ==> key == "error"@ || key == "message"@ || key
                        == "data"@ || key == "storage"@ && storage_name is Some
                &&& body.contains_key("data"@)
                &&& body["data"@] matches JsonView::Object(data) && {
                    &&& data.contains_pair("count"@, JsonView::Number(rows@.len() as int))
                    &&& forall|key: Seq<char>| #[trigger]
                        data.contains_key(key) ==> key == "count"@ || key == "authors"@
                    &&& data.contains_key("authors"@)
                    &&& data["authors"@] matches JsonView::Array(told) && {
                        &&& told.len() == rows@.len()
                        &&& 0 <= i < rows@.len() ==> told[i] == rows@[i].json_view()
                    }
                }
            }),
{
    if rows@.len() > 0 {
        reveal_strlit("count");
        reveal_strlit("authors");
        assert("count"@.len() == 5 && "authors"@.len() == 7);
        let plain = Map::empty().insert("data"@, authors_data(rows@));
        lemma_answer_keys();
        law_success_is_marked(plain, storage_name, "data"@);
        assert((r->Ok_0).is_json(200, JsonView::Object(marked_success(plain, storage_name))));
    }
}

/// The reply about the videos that a term found says how many there are, and tells each in
/// order; where there are none it is refused.
pub proof fn law_videos_are_told(
    list: Seq<char>,
    rows: Vec<FileRow>,
    headers: HeaderMap<HeaderValue>,
    storage_name: Option<String>,
    r: Result<Reply, AppError>,
    i: int,
)
    requires
        replies_videos(list, Ok(rows), headers, storage_name, r),
    ensures
        rows@.len() == 0 ==> (r matches Err(e) && e.status_code == 404),
        rows@.len() > 0 ==> (r matches Ok(reply) && exists|body: Map<Seq<char>, JsonView>|
            {
                &&& #[trigger] reply.is_json(200, JsonView::Object(body))
                &&& body.contains_pair("error"@, JsonView::Bool(false))
                &&& body.contains_pair("message"@, JsonView::Text("success"@))
                &&& storage_name matches Some(s) ==> body.contains_pair(
                    "storage"@,
                    JsonView::Text(s@),
                )
                &&& forall|key: Seq<char>| #[trigger]
                    body.contains_key(key) ==> key == "error"@ || key == "message"@ || key
                        == "data"@ || key == "storage"@ && storage_name is Some
                &&& body.contains_key("data"@)
                &&& body["data"@] matches JsonView::Object(data) && {
                    &&& data.contains_pair("count"@, JsonView::Number(rows@.len() as int))
                    &&& forall|key: Seq<char>| #[trigger]
                        data.contains_key(key) ==> key == "count"@ || key == "files"@
                    &&& data.contains_key("files"@)
                    &&& data["files"@] matches JsonView::Array(told) && {
                        &&& told.len() == rows@.len()
                        &&& 0 <= i < rows@.len() ==> told[i] == plus_data(
                            rows@[i],
                            request_origin(headers),
                        )
                    }
                }
            }),
{
    if rows@.len() > 0 {
        reveal_strlit("count");
        reveal_strlit("files");
        assert("count"@.len() == 5 && "files"@.len() == 5);
        assert("count"@[0] == 'c' && "files"@[0] == 'f');
        let plain = Map::empty().insert("data"@, videos_data(rows@, request_origin(headers)));
        lemma_answer_keys();
        law_success_is_marked(plain, storage_name, "data"@);
        assert((r->Ok_0).is_json(200, JsonView::Object(marked_success(plain, storage_name))));
    }
}

/// A request to see any video is sent to the link that holds the name of the file that was
/// found; one from a page that may not ask is refused.
pub proof fn law_view_is_sent_to_video(
    row: FileRow,
    filename: String,
    headers: HeaderMap<HeaderValue>,
    config: Config,
    begun: Result<Statement, AppError>,
    target: Result<String, AppError>,
)
    requires
        row.filename == Some(filename),
        begins_view(headers, config, begun),
        targets_view(Ok(Some(row)), headers, target),
    ensures
        begun is Ok <==> request_allowed(headers, config),
        begun matches Err(e) ==> e.status_code == 403,
        target matches Ok(link) && exists|t: Seq<char>|
            link@ == request_origin(headers) + "/plus/artworks/file/"@ + t
                && #[trigger] text_of_link(t) == Some(filename@) && !t.contains('/'),
{
    law_video_link_holds_name(row, filename, request_origin(headers));
}

/// A video that was found is the one that is told. Where the database cannot answer, or holds
/// no video, a request is refused.
pub proof fn law_video_is_found_or_refused(
    row: FileRow,
    failure: DbFailure,
    list: Seq<char>,
    headers: HeaderMap<HeaderValue>,
    storage_name: Option<String>,
    random: Result<FileRow, AppError>,
    told: Result<Reply, AppError>,
    target: Result<String, AppError>,
)
    ensures
        finds_random(Ok(Some(row)), random) ==> random == Ok::<FileRow, AppError>(row),
        finds_random(Ok(None), random) ==> (random matches Err(e) && e.status_code == 404),
        finds_random(Err(failure), random) ==> (random matches Err(e) && e.status_code == 500),
        replies_authors(Err(failure), storage_name, told) ==> (told matches Err(e) && e.status_code
            == 500),
        replies_videos(list, Err(failure), headers, storage_name, told) ==> (told matches Err(e)
            && e.status_code == 500),
        targets_view(Ok(None), headers, target) ==> (target matches Err(e) && e.status_code == 404),
        targets_view(Err(failure), headers, target) ==> (target matches Err(e) && e.status_code
            == 500),
{
}

/// A video without a name has a link to no file.
pub proof fn law_video_without_name(row: FileRow, origin: Seq<char>)
    requires
        row.filename is None,
    ensures
        video_link(row, origin) == origin + "/plus/artworks/file/"@,
{
    reveal_strlit("");
    let none = Seq::<char>::empty();
    assert(""@ =~= none);
    assert(link_text(none) =~= none);
    assert(origin + "/plus/artworks/file/"@ + none =~= origin + "/plus/artworks/file/"@);
}

/// Everything that is asked about videos is asked about videos only, and to see any video is to
/// ask for any.
pub proof fn law_video_questions(
    limiters: (RateLimiter, RateLimiter),
    headers: HeaderMap<HeaderValue>,
    config: Config,
    info: InfoQuery,
    now: u128,
    random: Result<Statement, AppError>,
    named: Result<InfoQuestion, AppError>,
    seen: Result<Statement, AppError>,
)
    ensures
        begins_random(limiters.0, limiters.1, now, random) ==> (random matches Ok(s) ==> is_about(
            s.sql@,
            "plus"@,
        ) && param_views(s.params@).len() == 0),
        begins_view(headers, config, seen) ==> (seen matches Ok(s) ==> is_about(s.sql@, "plus"@)
            && param_views(s.params@).len() == 0),
        begins_random(limiters.0, limiters.1, now, random) && begins_view(headers, config, seen)
            && random is Ok && seen is Ok ==> (random->Ok_0).sql@ == (seen->Ok_0).sql@,
        begins_info(limiters.0, limiters.1, info, now, named) ==> match named {
            Ok(InfoQuestion::Authors(s)) => is_about(s.sql@, "plus"@) && param_views(s.params@).len() == 0,
            Ok(InfoQuestion::Videos(s)) => is_about(s.sql@, "plus"@),
            Err(e) => true,
        },
{
    lemma_questions_name_their_kind();
}

} // verus!
