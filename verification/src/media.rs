//! Serving the files themselves.
use axum::http::{HeaderMap, HeaderValue};
use serde_json::Value;
use vstd::prelude::*;
use vstd::utf8::{encode_utf8, encode_utf8_decode_utf8, encode_utf8_valid_utf8};
use vstd::utf8::is_ascii_chars;

use crate::answers::{is_missing_name, is_not_found, is_referer_error, no_details, not_found};
use crate::answers::{db_error, is_db_error};
use crate::catalog::{place_below, MediaKind};
use crate::config::Config;
use crate::error::AppError;
use crate::files::{law_statement_says, row_has, DbFailure, FileRow, Statement};
use crate::headers::{header_text, lemma_header_names, opt_str, text_header};
use crate::json::{json_object, json_set, json_text, json_unsigned, JsonView};
use crate::path::{extension, extension_of, is_absolute, is_under, join, joined};
use crate::path::{law_join_adds_name, law_join_stays_under, law_name_is_one_part};
use crate::path::{law_join_adds_parts, law_stem_and_extension, law_under_under, path_parts};
use crate::path::{path_under, plain_name, PartView};
use crate::percent::{decode, encode, hex_value, law_link_is_plain, law_link_round_trip, link_text};
use crate::percent::{percent_decoded, text_of_link};
use crate::range::{cut_part, is_inverted, label_part, part_label, plan_range, planned, range_inverted};
use crate::range::{law_inverted_range_is_told, law_range_is_read, RangePlan};
use crate::reply::{header_views, Reply, ReplyBody};
use crate::request::{content_type, content_type_for_ext, request_allowed};
use crate::request::{law_pair_is_one_piece, law_request_with_cookie, law_uuid_is_cookie_id};
use crate::request::{request_session, seq_or, validate_referer};
use crate::sessions::{is_history, is_random_uuid, last_use, law_used_session_remembers};
use crate::sessions::{law_used_session_stays, remembered_row, Session};
use crate::sessions::{SessionStore, StoreCall, HOUR_NANOS};
use crate::text::{chars_of, decimal_text, find_char, find_pair, lemma_index_from};
use crate::text::{lemma_pair_from, lower_text, lowered, number_text, opt_text, string_or};
use crate::text::{law_decimal_round_trip, unsigned_number};
use crate::text::{all_digits, ascii_small_text, is_digit, law_split_around, split_on, text_or};

verus! {

// ===================== Places =====================
/// The directory of the files of the kind.
pub open spec fn kind_root(config: Config, kind: MediaKind) -> Seq<char> {
    match kind {
        MediaKind::Pixiv => joined(config.resources@, "pixiv"@),
        MediaKind::Plus => joined(config.resources@, "plus"@),
    }
}

/// Where a file of the kind is.
pub open spec fn media_path(
    config: Config,
    kind: MediaKind,
    dir: Seq<char>,
    name: Seq<char>,
) -> Seq<char> {
    joined(joined(kind_root(config, kind), dir), name)
}

/// An extension with a dot before it; nothing where there is none.
pub open spec fn dotted(ext: Option<Seq<char>>) -> Seq<char> {
    match ext {
        Some(e) => seq!['.'] + e,
        None => seq![],
    }
}

/// The extension of a name in small letters, with its dot; nothing where there is none.
pub open spec fn dotted_extension(name: Seq<char>) -> Seq<char> {
    match extension_of(name) {
        Some(ext) => dotted(Some(lowered(ext))),
        None => dotted(None),
    }
}

/// An extension with a dot before it.
pub fn put_dot(ext: &Option<String>) -> (r: String)
    ensures
        r@ == dotted(opt_text(*ext)),
{
    let mut out: String = String::new();
    match ext {
        Some(e) => {
            out.push('.');
            out.append(e.as_str());
        },
        None => {},
    }
    assert(out@ =~= dotted(opt_text(*ext)));
    out
}

/// The extension of a name in small letters, with its dot.
pub fn dot_extension(name: &str) -> (r: String)
    ensures
        r@ == dotted_extension(name@),
{
    let lower: Option<String> = match extension(name) {
        Some(ext) => Some(lower_text(ext.as_str())),
        None => None,
    };
    put_dot(&lower)
}

/// A file to serve: where it is, under which name, and the extension of its name.
#[derive(Clone, Debug)]
pub struct LocatedFile {
    pub kind: MediaKind,
    pub path: String,
    pub filename: String,
    pub ext: String,
}

/// Where a file of the kind is.
pub fn place_file(config: &Config, kind: MediaKind, dir: &str, name: &str) -> (r: String)
    ensures
        r@ == media_path(*config, kind, dir@, name@),
{
    let root: String = match kind {
        MediaKind::Pixiv => config.pixiv_root(),
        MediaKind::Plus => config.plus_root(),
    };
    let below: String = join(root.as_str(), dir);
    join(below.as_str(), name)
}

/// What is said of a path that is not below the resources.
pub open spec fn path_details(path: Seq<char>) -> JsonView {
    JsonView::Object(Map::empty().insert("requestedPath"@, JsonView::Text(path)))
}

/// The answer where a path is not below the resources.
pub open spec fn is_path_error(e: AppError, path: Seq<char>) -> bool {
    e.says(403, "PATH_TRAVERSAL"@, "路径访问被拒绝"@, path_details(path))
}

/// Refuses a path that is not below the resources.
pub fn verify_resource_place(file_path: &str, res_root: &str) -> (r: Result<(), AppError>)
    ensures
        r is Ok <==> path_under(file_path@, res_root@),
        r matches Err(e) ==> is_path_error(e, file_path@),
{
    if is_under(file_path, res_root) {
        return Ok(());
    }
    let mut details: Value = json_object();
    json_set(&mut details, "requestedPath", json_text(file_path));
    Err(AppError::with_details(403, "PATH_TRAVERSAL", "路径访问被拒绝", details))
}

/// Refuses a file that is not there.
pub fn verify_resource_exists(exists: bool) -> (r: Result<(), AppError>)
    ensures
        r is Ok <==> exists,
        r matches Err(e) ==> is_not_found(e),
{
    if exists {
        Ok(())
    } else {
        Err(not_found())
    }
}

/// The answer for the file at `path` that is served under `name`: the file where the
/// path is below the resources, else a refusal.
pub open spec fn is_located(
    r: Result<LocatedFile, AppError>,
    config: Config,
    kind: MediaKind,
    path: Seq<char>,
    name: Seq<char>,
) -> bool {
    if path_under(path, config.resources@) {
        r matches Ok(f) && f.kind == kind && f.path@ == path && f.filename@ == name && f.ext@
            == dotted_extension(name)
    } else {
        r matches Err(e) && is_path_error(e, path)
    }
}

/// The file at `path` that is served under `name`, where the path is below the
/// resources.
pub fn locate(config: &Config, kind: MediaKind, path: String, name: String) -> (r: Result<
    LocatedFile,
    AppError,
>)
    ensures
        is_located(r, *config, kind, path@, name@),
{
    match verify_resource_place(path.as_str(), config.resources.as_str()) {
        Ok(()) => {
            let ext: String = dot_extension(name.as_str());
            Ok(LocatedFile { kind, path, filename: name, ext })
        },
        Err(e) => Err(e),
    }
}

// ===================== Asking for a file =====================
/// A file that a request asks for by its name.
#[derive(Clone, Debug)]
pub struct FileRequest {
    pub kind: MediaKind,
    pub filename: String,
}

/// Two dots stand one after the other in the name.
pub open spec fn has_two_dots(name: Seq<char>) -> bool {
    exists|i: int| 0 <= i && i + 1 < name.len() && #[trigger] name[i] == '.' && name[i + 1] == '.'
}

/// The name leads out of its directory: it has two dots one after the other, or a slash
/// or a backslash.
pub open spec fn leads_out(name: Seq<char>) -> bool {
    has_two_dots(name) || name.contains('/') || name.contains('\\')
}

/// The answer to a request for the file of this name: an error where the name is empty,
/// leads out of its directory, or cannot be decoded; else the file of the decoded name.
pub open spec fn is_file_request(
    r: Result<FileRequest, AppError>,
    kind: MediaKind,
    filename: Seq<char>,
) -> bool {
    if filename.len() == 0 {
        r matches Err(e) && is_missing_name(e)
    } else if leads_out(filename) {
        r matches Err(e) && e.says(
            400,
            "INVALID_FILENAME"@,
            "文件名包含非法字符"@,
            no_details(),
        )
    } else {
        match text_of_link(filename) {
            Some(decoded) => r matches Ok(f) && f.kind == kind && f.filename@ == decoded,
            None => r matches Err(e) && e.says(
                400,
                "INVALID_FILENAME"@,
                "文件名解码失败"@,
                no_details(),
            ),
        }
    }
}

/// Tells whether the name leads out of its directory.
pub fn is_leading_out(name: &str) -> (r: bool)
    ensures
        r == leads_out(name@),
{
    let x: Vec<char> = chars_of(name);
    let n: usize = x.len();
    let dots: usize = find_pair(&x, '.', '.', 0);
    let slash: usize = find_char(&x, '/', 0);
    let back: usize = find_char(&x, '\\', 0);
    proof {
        lemma_pair_from(x@, '.', '.', 0);
        lemma_index_from(x@, '/', 0);
        lemma_index_from(x@, '\\', 0);
        if slash < n {
            assert(x@.contains(x@[slash as int]));
        }
        if back < n {
            assert(x@.contains(x@[back as int]));
        }
    }
    dots < n || slash < n || back < n
}

/// The file that a request asks for by its name.
pub fn request_file(kind: MediaKind, filename: &str) -> (r: Result<FileRequest, AppError>)
    ensures
        is_file_request(r, kind, filename@),
{
    if filename.is_empty() {
        return Err(AppError::new(400, "MISSING_FILENAME", "缺少文件名参数"));
    }
    if is_leading_out(filename) {
        return Err(AppError::new(400, "INVALID_FILENAME", "文件名包含非法字符"));
    }
    match decode(filename) {
        Some(decoded) => Ok(FileRequest { kind, filename: decoded }),
        None => Err(AppError::new(400, "INVALID_FILENAME", "文件名解码失败")),
    }
}

/// `r` is the file that a request asks for in its path, where the page that it comes from may
/// ask.
pub open spec fn asks_by_name(
    kind: MediaKind,
    filename: Seq<char>,
    headers: HeaderMap<HeaderValue>,
    config: Config,
    r: Result<FileRequest, AppError>,
) -> bool {
    if request_allowed(headers, config) {
        is_file_request(r, kind, filename)
    } else {
        r matches Err(e) && is_referer_error(e, headers, config)
    }
}

/// The file that a request asks for in its path, where the page that it comes from may
/// ask.
pub fn file_by_name(
    kind: MediaKind,
    filename: &str,
    headers: &HeaderMap<HeaderValue>,
    config: &Config,
) -> (r: Result<FileRequest, AppError>)
    ensures
        asks_by_name(kind, filename@, *headers, *config, r),
{
    match validate_referer(headers, config) {
        Ok(()) => request_file(kind, filename),
        Err(e) => Err(e),
    }
}

/// The answer to a request for the file that a session remembers.
pub open spec fn is_session_request(
    r: Result<FileRequest, AppError>,
    session: Session,
    kind: MediaKind,
) -> bool {
    match remembered_row(session, kind) {
        None => r matches Err(e) && e.says(
            400,
            "MISSING_FILENAME"@,
            "缺少文件名参数，且会话中没有缓存文件"@,
            no_details(),
        ),
        Some(row) => match row.filename {
            None => r matches Err(e) && is_missing_name(e),
            Some(name) => is_file_request(r, kind, name@),
        },
    }
}

/// The file that a session remembers.
fn request_remembered(kind: MediaKind, session: &Session) -> (r: Result<FileRequest, AppError>)
    ensures
        is_session_request(r, *session, kind),
{
    let row: &Option<FileRow> = match kind {
        MediaKind::Pixiv => &session.pixiv,
        MediaKind::Plus => &session.plus,
    };
    match row {
        None => Err(
            AppError::new(400, "MISSING_FILENAME", "缺少文件名参数，且会话中没有缓存文件"),
        ),
        Some(row) => match &row.filename {
            None => Err(AppError::new(400, "MISSING_FILENAME", "缺少文件名参数")),
            Some(name) => request_file(kind, name.as_str()),
        },
    }
}

/// The store becomes `after` by a request without a name at `now`, and `r` is the file that
/// its session remembers.
pub open spec fn asks_from_session(
    kind: MediaKind,
    headers: HeaderMap<HeaderValue>,
    query: Option<Seq<char>>,
    config: Config,
    before: SessionStore,
    after: SessionStore,
    now: u128,
    r: Result<FileRequest, AppError>,
) -> bool {
    if request_allowed(headers, config) {
        let wanted = request_session(headers, query);
        let session = before.opened(wanted, now);
        &&& is_session_request(r, session, kind)
        &&& exists|id: Seq<char>| #[trigger]
            before.opens(wanted, now, id) && before.becomes(
                after,
                now,
                id,
                session,
            )
    } else {
        &&& r matches Err(e) && is_referer_error(e, headers, config)
        &&& after == before
    }
}

/// The file that the session of a request remembers, where the page that it comes from
/// may ask. `query` is the `sessionId` of its query.
pub fn file_from_session(
    kind: MediaKind,
    headers: &HeaderMap<HeaderValue>,
    query: Option<&str>,
    config: &Config,
    sessions: &mut SessionStore,
    now: u128,
) -> (r: Result<FileRequest, AppError>)
    requires
        old(sessions).wf(),
    ensures
        asks_from_session(
            kind,
            *headers,
            opt_str(query),
            *config,
            *old(sessions),
            *final(sessions),
            now,
            r,
        ),
{
    match validate_referer(headers, config) {
        Ok(()) => {},
        Err(e) => {
            return Err(e);
        },
    }
    let (id, session) = sessions.get_for_request(headers, query, now);
    assert(old(sessions).opens(request_session(*headers, opt_str(query)), now, id@));
    request_remembered(kind, session)
}

impl FileRequest {
    /// The question is the one for the directory of the file.
    pub open spec fn is_asked_by(
        self,
        r: Statement,
    ) -> bool {
        r.says(
            "SELECT dir FROM files WHERE type=? AND filename=?"@,
            seq![Some(self.kind.label()), Some(self.filename@)],
        )
    }

    /// The question for the directory of the file.
    pub fn statement(&self) -> (r: Statement)
        ensures
            self.is_asked_by(r),
    {
        Statement::find_file(self.kind.name(), self.filename.as_str())
    }

    /// What is said of a file that is not in the catalogue.
    pub open spec fn unknown_details(self) -> JsonView {
        JsonView::Object(Map::empty().insert("filename"@, JsonView::Text(self.filename@)))
    }

    /// `r` is the file of the row that was found, where one was.
    pub open spec fn finds_file(
        self,
        row: Result<Option<FileRow>, DbFailure>,
        config: Config,
        r: Result<LocatedFile, AppError>,
    ) -> bool {
        match row {
            Err(_) => r matches Err(e) && is_db_error(e),
            Ok(None) => r matches Err(e) && e.says(
                404,
                "FILE_NOT_IN_DB"@,
                "文件不在数据库中"@,
                self.unknown_details(),
            ),
            Ok(Some(f)) => is_located(
                r,
                config,
                self.kind,
                media_path(config, self.kind, text_or(f.dir, ""@), self.filename@),
                self.filename@,
            ),
        }
    }

    /// The file of the row that was found, where one was.
    pub fn found(&self, row: Result<Option<FileRow>, DbFailure>, config: &Config) -> (r: Result<
        LocatedFile,
        AppError,
    >)
        ensures
            self.finds_file(row, *config, r),
    {
        match row {
            Err(_) => Err(db_error()),
            Ok(None) => {
                let mut details: Value = json_object();
                json_set(&mut details, "filename", json_text(self.filename.as_str()));
                Err(
                    AppError::with_details(
                        404,
                        "FILE_NOT_IN_DB",
                        "文件不在数据库中",
                        details,
                    ),
                )
            },
            Ok(Some(f)) => {
                let dir: String = string_or(&f.dir, "");
                let path: String = place_file(
                    config,
                    self.kind,
                    dir.as_str(),
                    self.filename.as_str(),
                );
                locate(config, self.kind, path, self.filename.clone())
            },
        }
    }
}

// ===================== Pictures =====================
/// How a browser is to take a file: in place, under its name.
pub open spec fn disposition(name: Seq<char>) -> Seq<char> {
    "inline; filename=\""@ + link_text(name) + "\""@
}

/// How a browser is to take a file.
fn say_disposition(name: &str) -> (r: String)
    ensures
        r@ == disposition(name@),
{
    let encoded: String = encode(name);
    "inline; filename=\"".to_owned().concat(encoded.as_str()).concat("\"")
}

/// The headers of a picture.
pub open spec fn image_headers(file: LocatedFile) -> Seq<(Seq<char>, Seq<char>)> {
    seq![
        ("Content-Type"@, content_type(file.ext@)),
        ("Cache-Control"@, "public, max-age=86400"@),
        ("Content-Disposition"@, disposition(file.filename@)),
    ]
}

/// The cookie that keeps a session for an hour.
pub open spec fn session_cookie(id: Seq<char>) -> Seq<char> {
    "sessionId="@ + id + "; Max-Age=3600; HttpOnly; SameSite=Strict; Path=/"@
}

/// The headers of a picture.
fn say_image_headers(file: &LocatedFile) -> (r: Vec<(&'static str, String)>)
    ensures
        header_views(r@) == image_headers(*file),
{
    let mut headers: Vec<(&'static str, String)> = Vec::new();
    headers.push(("Content-Type", content_type_for_ext(file.ext.as_str()).to_owned()));
    headers.push(("Cache-Control", "public, max-age=86400".to_owned()));
    headers.push(("Content-Disposition", say_disposition(file.filename.as_str())));
    assert(header_views(headers@) =~= image_headers(*file));
    headers
}

/// `r` is the picture, where it could be read.
pub open spec fn serves_image(
    file: LocatedFile,
    data: Option<Vec<u8>>,
    r: Result<Reply, AppError>,
) -> bool {
    match data {
        Some(bytes) => r matches Ok(reply) && reply.is_bytes(200, image_headers(file), bytes@),
        None => r matches Err(e) && is_not_found(e),
    }
}

/// The picture; `data` is what was read of it, where it could be read.
pub fn serve_image_file(file: &LocatedFile, data: Option<Vec<u8>>) -> (r: Result<Reply, AppError>)
    ensures
        serves_image(*file, data, r),
{
    match data {
        Some(bytes) => {
            let headers: Vec<(&'static str, String)> = say_image_headers(file);
            Ok(Reply { status: 200, headers, body: ReplyBody::Bytes(bytes) })
        },
        None => Err(not_found()),
    }
}

/// `r` is the picture, where it could be read, with the cookie of the session.
pub open spec fn serves_image_with_cookie(
    file: LocatedFile,
    id: Seq<char>,
    data: Option<Vec<u8>>,
    r: Result<Reply, AppError>,
) -> bool {
    match data {
        Some(bytes) => r matches Ok(reply) && reply.is_bytes(
            200,
            image_headers(file).push(("Set-Cookie"@, session_cookie(id))),
            bytes@,
        ),
        None => r matches Err(e) && is_not_found(e),
    }
}

/// The picture, with the cookie of the session.
pub fn serve_image_with_cookie(file: &LocatedFile, id: &str, data: Option<Vec<u8>>) -> (r: Result<
    Reply,
    AppError,
>)
    ensures
        serves_image_with_cookie(*file, id@, data, r),
{
    match data {
        Some(bytes) => {
            let mut headers: Vec<(&'static str, String)> = say_image_headers(file);
            let ghost before = header_views(headers@);
            let cookie: String = "sessionId=".to_owned().concat(id).concat(
                "; Max-Age=3600; HttpOnly; SameSite=Strict; Path=/",
            );
            headers.push(("Set-Cookie", cookie));
            assert(header_views(headers@) =~= before.push(
                ("Set-Cookie"@, session_cookie(id@)),
            ));
            Ok(Reply { status: 200, headers, body: ReplyBody::Bytes(bytes) })
        },
        None => Err(not_found()),
    }
}

// ===================== Videos =====================
/// What is said of a range that cannot be had.
pub open spec fn range_details(range: Seq<char>, size: u64) -> JsonView {
    JsonView::Object(
        Map::empty().insert("range"@, JsonView::Text(range)).insert(
            "fileSize"@,
            JsonView::Number(size as int),
        ),
    )
}

/// The range of bytes that a request names.
pub open spec fn request_range(headers: HeaderMap<HeaderValue>) -> Option<Seq<char>> {
    header_text(headers, "range"@)
}

/// The range of bytes that a request names.
pub fn get_range<'a>(headers: &'a HeaderMap<HeaderValue>) -> (r: Option<&'a str>)
    ensures
        opt_str(r) == request_range(*headers),
{
    proof {
        lemma_header_names();
    }
    text_header(headers, "range")
}

/// The answer to which bytes of a video a request gets.
pub open spec fn is_video_plan(
    r: Result<RangePlan, AppError>,
    range: Option<Seq<char>>,
    size: Option<u64>,
) -> bool {
    match size {
        None => r matches Err(e) && is_not_found(e),
        Some(n) => match planned(range, n) {
            RangePlan::Unsatisfiable => r matches Err(e) && e.says(
                416,
                "RANGE_NOT_SATISFIABLE"@,
                "请求的Range不可满足"@,
                range_details(seq_or(range, ""@), n),
            ),
            plan => r == Ok::<RangePlan, AppError>(plan),
        },
    }
}

/// Which bytes of a video a request gets; `size` is its size, where it could be told.
pub fn plan_video(headers: &HeaderMap<HeaderValue>, size: Option<u64>) -> (r: Result<
    RangePlan,
    AppError,
>)
    requires
        size matches Some(n) ==> !range_inverted(request_range(*headers), n),
    ensures
        is_video_plan(r, request_range(*headers), size),
{
    let n: u64 = match size {
        Some(n) => n,
        None => {
            return Err(not_found());
        },
    };
    let range: Option<&str> = get_range(headers);
    match plan_range(range, n) {
        RangePlan::Unsatisfiable => {
            let text: &str = match range {
                Some(t) => t,
                None => "",
            };
            let mut details: Value = json_object();
            json_set(&mut details, "range", json_text(text));
            json_set(&mut details, "fileSize", json_unsigned(n));
            Err(
                AppError::with_details(
                    416,
                    "RANGE_NOT_SATISFIABLE",
                    "请求的Range不可满足",
                    details,
                ),
            )
        },
        plan => Ok(plan),
    }
}

/// The answer to which bytes of a video a request gets; `None` where it names an end before
/// the start.
pub open spec fn tries_video_plan(
    r: Option<Result<RangePlan, AppError>>,
    range: Option<Seq<char>>,
    size: Option<u64>,
) -> bool {
    &&& r is None <==> (size matches Some(n) && range_inverted(range, n))
    &&& r matches Some(p) ==> is_video_plan(p, range, size)
}

/// Which bytes of a video a request gets; `None` where it names an end before the start.
pub fn try_plan_video(headers: &HeaderMap<HeaderValue>, size: Option<u64>) -> (r: Option<
    Result<RangePlan, AppError>,
>)
    ensures
        tries_video_plan(r, request_range(*headers), size),
{
    match size {
        Some(n) => {
            if is_inverted(get_range(headers), n) {
                return None;
            }
        },
        None => {},
    }
    Some(plan_video(headers, size))
}

/// The headers that every video has.
pub open spec fn video_headers(file: LocatedFile) -> Seq<(Seq<char>, Seq<char>)> {
    seq![
        ("Accept-Ranges"@, "bytes"@),
        ("Content-Type"@, "video/mp4"@),
        ("Cache-Control"@, "public, max-age=86400"@),
        ("Content-Disposition"@, disposition(file.filename@)),
    ]
}

/// The headers that every video has.
fn say_video_headers(file: &LocatedFile) -> (r: Vec<(&'static str, String)>)
    ensures
        header_views(r@) == video_headers(*file),
{
    let mut headers: Vec<(&'static str, String)> = Vec::new();
    headers.push(("Accept-Ranges", "bytes".to_owned()));
    headers.push(("Content-Type", "video/mp4".to_owned()));
    headers.push(("Cache-Control", "public, max-age=86400".to_owned()));
    headers.push(("Content-Disposition", say_disposition(file.filename.as_str())));
    assert(header_views(headers@) =~= video_headers(*file));
    headers
}

/// What was read holds the bytes that are planned.
pub open spec fn holds_plan(plan: RangePlan, data: Option<Vec<u8>>) -> bool {
    match plan {
        RangePlan::Whole => true,
        RangePlan::Unsatisfiable => false,
        RangePlan::Part { start, end, last } => start <= last && (data matches Some(bytes) ==> last
            < bytes@.len()),
    }
}

/// The reply is the video, or the planned part of it.
pub open spec fn is_video_reply(
    reply: Reply,
    file: LocatedFile,
    plan: RangePlan,
    size: u64,
    bytes: Seq<u8>,
) -> bool {
    match plan {
        RangePlan::Part { start, end, last } => reply.is_bytes(
            206,
            video_headers(file).push(("Content-Range"@, part_label(start, end, size))).push(
                ("Content-Length"@, decimal_text((last - start + 1) as nat)),
            ),
            bytes.subrange(start as int, last + 1),
        ),
        _ => reply.is_bytes(
            200,
            video_headers(file).push(("Content-Length"@, decimal_text(size as nat))),
            bytes,
        ),
    }
}

/// `r` is the video, or the planned part of it, where it could be read.
pub open spec fn serves_video(
    file: LocatedFile,
    plan: RangePlan,
    size: u64,
    data: Option<Vec<u8>>,
    r: Result<Reply, AppError>,
) -> bool {
    match data {
        Some(bytes) => r matches Ok(reply) && is_video_reply(reply, file, plan, size, bytes@),
        None => r matches Err(e) && is_not_found(e),
    }
}

/// The video, or the planned part of it; `data` is what was read of it, where it could
/// be read.
pub fn serve_video_file(
    file: &LocatedFile,
    plan: RangePlan,
    size: u64,
    data: Option<Vec<u8>>,
) -> (r: Result<Reply, AppError>)
    requires
        holds_plan(plan, data),
    ensures
        serves_video(*file, plan, size, data, r),
{
    let bytes: Vec<u8> = match data {
        Some(b) => b,
        None => {
            return Err(not_found());
        },
    };
    let mut headers: Vec<(&'static str, String)> = say_video_headers(file);
    let ghost before = header_views(headers@);
    match plan {
        RangePlan::Part { start, end, last } => {
            let n: usize = bytes.len();
            assert(last < n);
            headers.push(("Content-Range", label_part(start, end, size)));
            headers.push(("Content-Length", number_text(last - start + 1)));
            assert(header_views(headers@) =~= before.push(
                ("Content-Range"@, part_label(start, end, size)),
            ).push(("Content-Length"@, decimal_text((last - start + 1) as nat))));
            let chunk: Vec<u8> = cut_part(&bytes, start, last);
            Ok(Reply { status: 206, headers, body: ReplyBody::Bytes(chunk) })
        },
        _ => {
            headers.push(("Content-Length", number_text(size)));
            assert(header_views(headers@) =~= before.push(
                ("Content-Length"@, decimal_text(size as nat)),
            ));
            Ok(Reply { status: 200, headers, body: ReplyBody::Bytes(bytes) })
        },
    }
}

// ===================== Laws =====================
/// The path of a file whose directory and name are no absolute paths lies below the
/// resources.
pub proof fn law_media_path_stays(config: Config, kind: MediaKind, dir: Seq<char>, name: Seq<char>)
    requires
        !is_absolute(dir),
        !is_absolute(name),
    ensures
        path_under(media_path(config, kind, dir, name), config.resources@),
{
    let root = kind_root(config, kind);
    reveal_strlit("pixiv");
    reveal_strlit("plus");
    match kind {
        MediaKind::Pixiv => law_join_stays_under(config.resources@, "pixiv"@),
        MediaKind::Plus => law_join_stays_under(config.resources@, "plus"@),
    }
    law_join_stays_under(root, dir);
    law_join_stays_under(joined(root, dir), name);
    law_under_under(joined(root, dir), root, config.resources@);
    law_under_under(media_path(config, kind, dir, name), joined(root, dir), config.resources@);
}

/// The name holds a percent sign with two hexadecimal digits behind it.
pub open spec fn has_escape(name: Seq<char>) -> bool {
    exists|i: int|
        0 <= i && i + 2 < encode_utf8(name).len() && #[trigger] is_escape(encode_utf8(name), i)
}

/// A percent sign with two hexadecimal digits behind it stands in the bytes at `i`.
pub open spec fn is_escape(bytes: Seq<u8>, i: int) -> bool {
    bytes[i] == '%' as u8 && hex_value(bytes[i + 1]) is Some && hex_value(bytes[i + 2]) is Some
}

/// Bytes without escapes decode to themselves.
proof fn lemma_nothing_escaped(bytes: Seq<u8>)
    requires
        forall|i: int| 0 <= i && i + 2 < bytes.len() ==> !#[trigger] is_escape(bytes, i),
    ensures
        percent_decoded(bytes) == bytes,
    decreases bytes.len(),
{
    if bytes.len() > 0 {
        let rest = bytes.subrange(1, bytes.len() as int);
        assert forall|i: int| 0 <= i && i + 2 < rest.len() implies !#[trigger] is_escape(
            rest,
            i,
        ) by {
            assert(!is_escape(bytes, i + 1));
        }
        lemma_nothing_escaped(rest);
        if bytes.len() >= 3 {
            assert(!is_escape(bytes, 0));
        }
        assert(seq![bytes[0]] + rest =~= bytes);
    } else {
        assert(percent_decoded(bytes) =~= bytes);
    }
}

/// A request for a name that holds no escape is one for the file of just this name.
pub proof fn law_plain_name_is_asked(
    r: Result<FileRequest, AppError>,
    kind: MediaKind,
    name: Seq<char>,
)
    requires
        is_file_request(r, kind, name),
        name.len() > 0,
        !leads_out(name),
        !has_escape(name),
    ensures
        r matches Ok(f) && f.kind == kind && f.filename@ == name,
{
    let bytes = encode_utf8(name);
    assert forall|i: int| 0 <= i && i + 2 < bytes.len() implies !#[trigger] is_escape(bytes, i) by {}
    lemma_nothing_escaped(bytes);
    encode_utf8_valid_utf8(name);
    encode_utf8_decode_utf8(name);
}

/// The link to a file leads back to it: the name in the link, taken out of it, is asked
/// for as the name of the file. Names that are empty, lead out of their directory or
/// hold an escape are not served.
pub proof fn law_link_leads_to_file(
    r: Result<FileRequest, AppError>,
    kind: MediaKind,
    name: Seq<char>,
)
    requires
        is_file_request(r, kind, text_of_link(link_text(name))->0),
        name.len() > 0,
        !leads_out(name),
        !has_escape(name),
    ensures
        text_of_link(link_text(name)) is Some,
        r matches Ok(f) && f.kind == kind && f.filename@ == name,
{
    law_link_round_trip(name);
    law_plain_name_is_asked(r, kind, name);
}

/// A request for a name as it stands in a link is one for the file of that name.
pub proof fn law_name_in_link_is_asked(
    r: Result<FileRequest, AppError>,
    kind: MediaKind,
    name: Seq<char>,
)
    requires
        is_file_request(r, kind, link_text(name)),
        name.len() > 0,
        !leads_out(link_text(name)),
    ensures
        r matches Ok(f) && f.kind == kind && f.filename@ == name,
{
    law_link_round_trip(name);
    if link_text(name).len() == 0 {
        let none = Seq::<char>::empty();
        law_link_round_trip(none);
        assert(link_text(none) =~= link_text(name));
    }
}

/// A request without a name, less than an hour after the last use of its session, is one
/// for the file of the picture that the session was shown, whatever calls came between that
/// put no other picture into it.
pub proof fn law_shown_picture_is_asked(
    stores: Seq<SessionStore>,
    calls: Seq<StoreCall>,
    id: Seq<char>,
    now: u128,
    r: Result<FileRequest, AppError>,
)
    requires
        is_history(stores, calls),
        stores[0].sessions().contains_key(id),
        stores[0].sessions()[id].pixiv matches Some(row) && row.filename is Some,
        forall|k: int|
            0 <= k < calls.len() ==> (#[trigger] calls[k]).keeps(stores[k], id, MediaKind::Pixiv)
                && calls[k].is_until(now),
        now - last_use(calls, id, stores[0].sessions()[id].last_accessed) < HOUR_NANOS,
        is_session_request(r, stores.last().opened(Some(id), now), MediaKind::Pixiv),
    ensures
        is_file_request(
            r,
            MediaKind::Pixiv,
            stores[0].sessions()[id].pixiv->0.filename->0@,
        ),
{
    law_used_session_remembers(stores, calls, id, MediaKind::Pixiv, now);
}

/// The reply with a part of a video says how many bytes it holds.
pub proof fn law_part_length(
    reply: Reply,
    file: LocatedFile,
    plan: RangePlan,
    size: u64,
    bytes: Seq<u8>,
)
    requires
        is_video_reply(reply, file, plan, size, bytes),
        plan is Part,
        plan->start <= plan->last < bytes.len(),
    ensures
        reply.body matches ReplyBody::Bytes(b) && header_views(reply.headers@).last() == (
            "Content-Length"@,
            decimal_text(b@.len()),
        ),
{
}

/// Byte `k` of a video is byte `k - start` of the reply with the part that holds it, and the
/// reply holds no other bytes.
pub proof fn law_part_holds_bytes(
    reply: Reply,
    file: LocatedFile,
    plan: RangePlan,
    size: u64,
    bytes: Seq<u8>,
    k: int,
)
    requires
        is_video_reply(reply, file, plan, size, bytes),
        plan is Part,
        plan->start <= k <= plan->last < bytes.len(),
    ensures
        reply.status == 206,
        reply.body matches ReplyBody::Bytes(b) && {
            &&& b@.len() == plan->last - plan->start + 1
            &&& b@[k - plan->start] == bytes[k]
        },
{
}

/// The parts of a video one after the other, put together, are the video from the first byte
/// of the first to the last byte of the second.
pub proof fn law_parts_make_video(
    replies: (Reply, Reply),
    file: LocatedFile,
    plans: (RangePlan, RangePlan),
    size: u64,
    bytes: Seq<u8>,
)
    requires
        is_video_reply(replies.0, file, plans.0, size, bytes),
        is_video_reply(replies.1, file, plans.1, size, bytes),
        plans.0 is Part && plans.1 is Part,
        plans.0->start <= plans.0->last,
        plans.1->start == plans.0->last + 1,
        plans.1->start <= plans.1->last < bytes.len(),
    ensures
        replies.0.body matches ReplyBody::Bytes(a) && replies.1.body matches ReplyBody::Bytes(b)
            && a@ + b@ == bytes.subrange(plans.0->start as int, plans.1->last + 1),
{
    let a = bytes.subrange(plans.0->start as int, plans.0->last + 1);
    let b = bytes.subrange(plans.1->start as int, plans.1->last + 1);
    assert(a + b =~= bytes.subrange(plans.0->start as int, plans.1->last + 1));
}

/// A video that is served whole is all of its bytes.
pub proof fn law_whole_video(
    reply: Reply,
    file: LocatedFile,
    size: u64,
    bytes: Seq<u8>,
)
    requires
        is_video_reply(reply, file, RangePlan::Whole, size, bytes),
    ensures
        reply.status == 200,
        reply.body matches ReplyBody::Bytes(b) && b@ == bytes,
        header_views(reply.headers@).contains(("Content-Length"@, decimal_text(size as nat))),
{
    let h = header_views(reply.headers@);
    assert(h[h.len() - 1] == ("Content-Length"@, decimal_text(size as nat)));
}

/// The path of a file: below the resources the directory of the kind, then the whole
/// directory of the file, then its name.
pub proof fn law_media_path_parts(config: Config, kind: MediaKind, dir: Seq<char>, name: Seq<char>)
    requires
        plain_name(dir),
        plain_name(name),
    ensures
        path_parts(media_path(config, kind, dir, name)) == path_parts(config.resources@) + seq![
            PartView::Normal(
                match kind {
                    MediaKind::Pixiv => "pixiv"@,
                    MediaKind::Plus => "plus"@,
                },
            ),
            PartView::Normal(dir),
            PartView::Normal(name),
        ],
{
    reveal_strlit("pixiv");
    reveal_strlit("plus");
    let label = match kind {
        MediaKind::Pixiv => "pixiv"@,
        MediaKind::Plus => "plus"@,
    };
    assert(plain_name(label)) by {
        assert("pixiv"@.len() == 5 && "plus"@.len() == 4);
        assert forall|k: int| 0 <= k < label.len() implies label[k] != '/' by {}
    }
    let root = kind_root(config, kind);
    law_join_adds_name(config.resources@, label);
    law_join_adds_name(root, dir);
    law_join_adds_name(joined(root, dir), name);
    assert(path_parts(media_path(config, kind, dir, name)) =~= path_parts(config.resources@)
        + seq![PartView::Normal(label), PartView::Normal(dir), PartView::Normal(name)]);
}

/// A directory of digits is the name of a directory.
pub proof fn law_number_is_plain_name(dir: Seq<char>)
    requires
        dir.len() > 0,
        all_digits(dir),
    ensures
        plain_name(dir),
{
    assert(is_digit(dir[0]));
    if dir.contains('/') {
        let k = choose|k: int| 0 <= k < dir.len() && dir[k] == '/';
        assert(is_digit(dir[k]));
    }
    if dir == seq!['.'] || dir == seq!['.', '.'] {
        assert(dir[0] == '.');
    }
}

/// Files of different kinds, directories or names are at different places.
pub proof fn law_media_paths_differ(
    config: Config,
    kinds: (MediaKind, MediaKind),
    dirs: (Seq<char>, Seq<char>),
    names: (Seq<char>, Seq<char>),
)
    requires
        plain_name(dirs.0) && plain_name(dirs.1),
        plain_name(names.0) && plain_name(names.1),
        kinds.0 != kinds.1 || dirs.0 != dirs.1 || names.0 != names.1,
    ensures
        media_path(config, kinds.0, dirs.0, names.0) != media_path(
            config,
            kinds.1,
            dirs.1,
            names.1,
        ),
{
    law_media_path_parts(config, kinds.0, dirs.0, names.0);
    law_media_path_parts(config, kinds.1, dirs.1, names.1);
    reveal_strlit("pixiv");
    reveal_strlit("plus");
    assert("pixiv"@.len() == 5 && "plus"@.len() == 4);
    let n = path_parts(config.resources@).len() as int;
    let a = path_parts(media_path(config, kinds.0, dirs.0, names.0));
    let b = path_parts(media_path(config, kinds.1, dirs.1, names.1));
    if a == b {
        assert(a[n] == b[n] && a[n + 1] == b[n + 1] && a[n + 2] == b[n + 2]);
    }
}

/// The place that is served is the one that the watcher looks at for the same directory and
/// name.
pub proof fn law_served_is_watched(
    config: Config,
    kind: MediaKind,
    dir: Seq<char>,
    name: Seq<char>,
)
    requires
        plain_name(dir),
        plain_name(name),
    ensures
        media_path(config, kind, dir, name) == place_below(kind_root(config, kind), dir, name),
        path_parts(place_below(kind_root(config, kind), dir, name)) == path_parts(
            kind_root(config, kind),
        ) + seq![PartView::Normal(dir), PartView::Normal(name)],
{
    let root = kind_root(config, kind);
    law_join_adds_name(root, dir);
    law_join_adds_name(joined(root, dir), name);
    assert(path_parts(place_below(root, dir, name)) =~= path_parts(root) + seq![
        PartView::Normal(dir),
        PartView::Normal(name),
    ]);
}

/// The cookie that is set with a picture begins with the pair that names the session, and a
/// request that sends this pair back names it.
pub proof fn law_set_cookie_leads_back(
    file: LocatedFile,
    id: Seq<char>,
    data: Vec<u8>,
    r: Result<Reply, AppError>,
    headers: HeaderMap<HeaderValue>,
)
    requires
        is_random_uuid(id),
        serves_image_with_cookie(file, id, Some(data), r),
        header_text(headers, "x-session-id"@) is None,
        header_text(headers, "cookie"@) == Some(split_on(session_cookie(id), ';')[0]),
    ensures
        r matches Ok(reply) && header_views(reply.headers@).contains(
            ("Set-Cookie"@, session_cookie(id)),
        ),
        request_session(headers, None) == Some(id),
{
    reveal_strlit("; Max-Age=3600; HttpOnly; SameSite=Strict; Path=/");
    let tail = "; Max-Age=3600; HttpOnly; SameSite=Strict; Path=/"@;
    let pair = "sessionId="@ + id;
    assert(tail =~= seq![';'] + tail.skip(1));
    assert(session_cookie(id) =~= pair + seq![';'] + tail.skip(1));
    law_uuid_is_cookie_id(id);
    law_pair_is_one_piece(id);
    law_split_around(pair, tail.skip(1), ';');
    law_request_with_cookie(headers, id, seq![]);
    let reply = r->Ok_0;
    let h = header_views(reply.headers@);
    assert(h[h.len() - 1] == ("Set-Cookie"@, session_cookie(id)));
}

/// What is said to a browser of how to take a file holds its name, as links hold it, in
/// quotes.
pub proof fn law_disposition_holds_name(name: Seq<char>)
    ensures
        exists|t: Seq<char>|
            disposition(name) == "inline; filename=\""@ + t + "\""@ && #[trigger] text_of_link(t)
                == Some(name) && !t.contains('"'),
{
    let t = link_text(name);
    law_link_round_trip(name);
    if t.contains('"') {
        let k = choose|k: int| 0 <= k < t.len() && t[k] == '"';
        law_link_is_plain(name, k);
    }
    assert(text_of_link(t) == Some(name));
}

/// The type of a picture is told by the extension of its name, in any case of its letters.
pub proof fn law_picture_type(
    r: Result<LocatedFile, AppError>,
    config: Config,
    kind: MediaKind,
    path: Seq<char>,
    stem: Seq<char>,
    ext: Seq<char>,
)
    requires
        is_located(r, config, kind, path, stem + seq!['.'] + ext),
        path_under(path, config.resources@),
        stem.len() > 0 && !stem.contains('/'),
        ext.len() > 0 && !ext.contains('/') && !ext.contains('.'),
        is_ascii_chars(ext),
    ensures
        r matches Ok(file) && {
            let small = ascii_small_text(ext);
            let told = image_headers(file)[0];
            &&& told.0 == "Content-Type"@
            &&& small == "png"@ ==> told.1 == "image/png"@
            &&& small == "gif"@ ==> told.1 == "image/gif"@
            &&& small == "webp"@ ==> told.1 == "image/webp"@
            &&& small == "jpg"@ || small == "jpeg"@ ==> told.1 == "image/jpeg"@
            &&& small != "png"@ && small != "gif"@ && small != "webp"@ ==> told.1 == "image/jpeg"@
        },
{
    law_stem_and_extension(stem, ext);
    reveal_strlit("png");
    reveal_strlit("gif");
    reveal_strlit("webp");
    reveal_strlit("jpg");
    reveal_strlit("jpeg");
    reveal_strlit(".png");
    reveal_strlit(".gif");
    reveal_strlit(".webp");
    reveal_strlit(".jpg");
    reveal_strlit(".jpeg");
    let small = ascii_small_text(ext);
    let dotted_ext = seq!['.'] + small;
    assert(".png"@ =~= seq!['.'] + "png"@);
    assert(".gif"@ =~= seq!['.'] + "gif"@);
    assert(".webp"@ =~= seq!['.'] + "webp"@);
    assert(".jpg"@ =~= seq!['.'] + "jpg"@);
    assert(".jpeg"@ =~= seq!['.'] + "jpeg"@);
    assert(dotted_ext.skip(1) =~= small);
    assert(".png"@.skip(1) =~= "png"@);
    assert(".gif"@.skip(1) =~= "gif"@);
    assert(".webp"@.skip(1) =~= "webp"@);
    assert(".jpg"@.skip(1) =~= "jpg"@);
    assert(".jpeg"@.skip(1) =~= "jpeg"@);
    assert(".png"@[1] == 'p' && ".gif"@[1] == 'g' && ".webp"@[1] == 'w' && ".jpg"@[1] == 'j'
        && ".jpeg"@[1] == 'j');
}

/// A picture that could be read is served as it was read, with all headers that its name
/// asks for; one that could not is answered with 404.
pub proof fn law_picture_is_served(
    file: LocatedFile,
    data: Option<Vec<u8>>,
    r: Result<Reply, AppError>,
)
    requires
        serves_image(file, data, r),
    ensures
        data matches Some(bytes) ==> r matches Ok(reply) && {
            &&& reply.status == 200
            &&& reply.body matches ReplyBody::Bytes(b) && b@ == bytes@
            &&& header_views(reply.headers@) == image_headers(file)
            &&& header_views(reply.headers@).len() == 3
            &&& header_views(reply.headers@)[1] == ("Cache-Control"@, "public, max-age=86400"@)
            &&& header_views(reply.headers@)[2].0 == "Content-Disposition"@
            &&& header_views(reply.headers@)[2].1 == disposition(file.filename@)
        },
        data is None ==> (r matches Err(e) && e.status_code == 404),
{
}

/// A name leads out of its directory where two dots, a slash or a backslash stand in it, and
/// only there.
pub proof fn law_what_leads_out(name: Seq<char>, a: Seq<char>, b: Seq<char>)
    ensures
        leads_out(a + seq!['.', '.'] + b),
        leads_out(a + seq!['/'] + b),
        leads_out(a + seq!['\\'] + b),
        leads_out(name) ==> exists|x: Seq<char>, y: Seq<char>|
            {
                ||| name == x + seq!['.', '.'] + y
                ||| name == x + seq!['/'] + y
                ||| name == #[trigger] (x + seq!['\\'] + y)
            },
{
    let n = a.len() as int;
    assert((a + seq!['.', '.'] + b)[n] == '.' && (a + seq!['.', '.'] + b)[n + 1] == '.');
    assert((a + seq!['/'] + b)[n] == '/');
    assert((a + seq!['\\'] + b)[n] == '\\');
    if leads_out(name) {
        let k = if has_two_dots(name) {
            choose|i: int|
                0 <= i && i + 1 < name.len() && #[trigger] name[i] == '.' && name[i + 1] == '.'
        } else if name.contains('/') {
            choose|i: int| 0 <= i < name.len() && name[i] == '/'
        } else {
            choose|i: int| 0 <= i < name.len() && name[i] == '\\'
        };
        let x = name.take(k);
        let y = if has_two_dots(name) {
            name.skip(k + 2)
        } else {
            name.skip(k + 1)
        };
        if has_two_dots(name) {
            assert(name =~= x + seq!['.', '.'] + y);
        } else if name.contains('/') {
            assert(name =~= x + seq!['/'] + y);
        } else {
            assert(name =~= x + seq!['\\'] + y);
        }
        assert((x + seq!['\\'] + y).len() >= 0);
    }
}

/// A name that is empty, leads out of its directory or is no text is refused, and any other
/// is not.
pub proof fn law_bad_name_is_refused(
    r: Result<FileRequest, AppError>,
    kind: MediaKind,
    name: Seq<char>,
)
    requires
        is_file_request(r, kind, name),
    ensures
        r is Err <==> name.len() == 0 || leads_out(name) || text_of_link(name) is None,
        r matches Err(e) ==> e.status_code == 400,
        r matches Err(e) ==> e.error_code@ == (if name.len() == 0 {
            "MISSING_FILENAME"@
        } else {
            "INVALID_FILENAME"@
        }),
{
}

/// A file of the catalogue that is asked for by its name is read from the directory that the
/// catalogue holds for it, and served under its name.
pub proof fn law_file_by_name_is_read(
    config: Config,
    kind: MediaKind,
    headers: HeaderMap<HeaderValue>,
    name: Seq<char>,
    dir: String,
    row: FileRow,
    asked: Result<FileRequest, AppError>,
    found: Result<LocatedFile, AppError>,
)
    requires
        request_allowed(headers, config),
        asks_by_name(kind, name, headers, config, asked),
        asked matches Ok(f) ==> f.finds_file(Ok(Some(row)), config, found),
        row.dir == Some(dir),
        dir@.len() > 0 && all_digits(dir@),
        plain_name(name),
        !leads_out(name),
        !has_escape(name),
    ensures
        asked is Ok,
        found matches Ok(file) && {
            &&& file.kind == kind
            &&& file.filename@ == name
            &&& path_parts(file.path@) == path_parts(config.resources@) + seq![
                PartView::Normal(
                    match kind {
                        MediaKind::Pixiv => "pixiv"@,
                        MediaKind::Plus => "plus"@,
                    },
                ),
                PartView::Normal(dir@),
                PartView::Normal(name),
            ]
        },
{
    law_plain_name_is_asked(asked, kind, name);
    law_number_is_plain_name(dir@);
    law_name_is_one_part(dir@);
    law_name_is_one_part(name);
    law_media_path_stays(config, kind, dir@, name);
    law_media_path_parts(config, kind, dir@, name);
}

/// A request from a page that may not ask gets no file, and changes no session.
pub proof fn law_page_may_not_ask(
    config: Config,
    kind: MediaKind,
    headers: HeaderMap<HeaderValue>,
    name: Seq<char>,
    query: Option<Seq<char>>,
    before: SessionStore,
    after: SessionStore,
    now: u128,
    by_name: Result<FileRequest, AppError>,
    from_session: Result<FileRequest, AppError>,
)
    requires
        !request_allowed(headers, config),
        asks_by_name(kind, name, headers, config, by_name),
        asks_from_session(kind, headers, query, config, before, after, now, from_session),
    ensures
        by_name matches Err(e) && e.status_code == 403,
        from_session matches Err(e) && e.status_code == 403,
        after == before,
{
}

/// A request without a name that wants a session with a picture asks for the file of that
/// picture, and the session is used at that time.
pub proof fn law_session_file_is_asked(
    config: Config,
    headers: HeaderMap<HeaderValue>,
    query: Option<Seq<char>>,
    before: SessionStore,
    after: SessionStore,
    now: u128,
    id: Seq<char>,
    r: Result<FileRequest, AppError>,
)
    requires
        request_allowed(headers, config),
        asks_from_session(MediaKind::Pixiv, headers, query, config, before, after, now, r),
        request_session(headers, query) == Some(id),
        before.sessions().contains_key(id),
        now - before.sessions()[id].last_accessed < 3_600_000_000_000,
    ensures
        before.sessions()[id].pixiv matches Some(row) ==> row.filename matches Some(name)
            ==> is_file_request(r, MediaKind::Pixiv, name@),
        before.sessions()[id].pixiv is None ==> (r matches Err(e) && e.status_code == 400),
        after.sessions().contains_key(id),
        after.sessions()[id].last_accessed == now,
        after.sessions()[id].pixiv == before.sessions()[id].pixiv,
        after.sessions()[id].plus == before.sessions()[id].plus,
{
    law_used_session_stays(before.sessions(), before.last_cleanup(), now, id);
}

/// The reply with a part of a video says which part it is, of how many bytes.
pub proof fn law_part_is_labelled(
    reply: Reply,
    file: LocatedFile,
    plan: RangePlan,
    size: u64,
    bytes: Seq<u8>,
)
    requires
        is_video_reply(reply, file, plan, size, bytes),
        plan is Part,
    ensures
        header_views(reply.headers@).contains(
            (
                "Content-Range"@,
                "bytes "@ + decimal_text(plan->start as nat) + "-"@ + decimal_text(
                    plan->end as nat,
                ) + "/"@ + decimal_text(size as nat),
            ),
        ),
        header_views(reply.headers@).contains(("Accept-Ranges"@, "bytes"@)),
        header_views(reply.headers@).contains(("Content-Type"@, "video/mp4"@)),
        header_views(reply.headers@).contains(
            ("Content-Disposition"@, disposition(file.filename@)),
        ),
{
    let h = header_views(reply.headers@);
    assert(h[4].0 == "Content-Range"@);
    assert(h[0] == ("Accept-Ranges"@, "bytes"@));
    assert(h[1] == ("Content-Type"@, "video/mp4"@));
    assert(h[3] == ("Content-Disposition"@, disposition(file.filename@)));
    assert(h.contains(h[4]));
}

/// A request for the bytes from `a` to `b` of a video that was read gets just these bytes.
pub proof fn law_range_request_gets_bytes(
    headers: HeaderMap<HeaderValue>,
    file: LocatedFile,
    a: u64,
    b: u64,
    size: u64,
    data: Vec<u8>,
    plan: Result<RangePlan, AppError>,
    r: Result<Reply, AppError>,
    k: int,
)
    requires
        a <= b < size,
        data@.len() == size,
        header_text(headers, "range"@) == Some(
            "bytes="@ + (decimal_text(a as nat) + seq!['-'] + decimal_text(b as nat)),
        ),
        is_video_plan(plan, request_range(headers), Some(size)),
        plan matches Ok(p) ==> serves_video(file, p, size, Some(data), r),
        a <= k <= b,
    ensures
        plan is Ok,
        r matches Ok(reply) && {
            &&& reply.status == 206
            &&& reply.body matches ReplyBody::Bytes(part) && {
                &&& part@.len() == b - a + 1
                &&& part@[k - a] == data@[k]
            }
        },
{
    law_range_is_read(a, b, size);
    law_part_holds_bytes(r->Ok_0, file, plan->Ok_0, size, data@, k);
}

/// What is said of a path, a range or a name that cannot be had is that path, that range with
/// the size of the file, or that name.
pub proof fn law_refusals_are_told(
    path: Seq<char>,
    range: Seq<char>,
    size: u64,
    request: FileRequest,
)
    ensures
        path_details(path) matches JsonView::Object(o) && o.contains_pair(
            "requestedPath"@,
            JsonView::Text(path),
        ),
        range_details(range, size) matches JsonView::Object(o) && {
            &&& o.contains_pair("range"@, JsonView::Text(range))
            &&& o.contains_pair("fileSize"@, JsonView::Number(size as int))
        },
        request.unknown_details() matches JsonView::Object(o) && o.contains_pair(
            "filename"@,
            JsonView::Text(request.filename@),
        ),
{
    reveal_strlit("range");
    reveal_strlit("fileSize");
    assert("range"@.len() == 5 && "fileSize"@.len() == 8);
}

/// A video that is not there, or a range behind its end, is refused with what is wrong.
pub proof fn law_bad_range_is_refused(
    plan: Result<RangePlan, AppError>,
    a: u64,
    b: u64,
    size: u64,
)
    requires
        size <= a <= b,
        is_video_plan(
            plan,
            Some("bytes="@ + (decimal_text(a as nat) + seq!['-'] + decimal_text(b as nat))),
            Some(size),
        ),
    ensures
        plan matches Err(e) && e.status_code == 416,
{
    law_range_is_read(a, b, size);
}

/// A file that is not in the catalogue, or a catalogue that cannot answer, gives no file.
pub proof fn law_unknown_file_is_refused(
    request: FileRequest,
    config: Config,
    unknown: Result<LocatedFile, AppError>,
    failed: Result<LocatedFile, AppError>,
    failure: DbFailure,
)
    requires
        request.finds_file(Ok(None), config, unknown),
        request.finds_file(Err(failure), config, failed),
    ensures
        unknown matches Err(e) && e.status_code == 404,
        failed matches Err(e) && e.status_code == 500,
{
}

/// A file whose path does not lie below the resources is refused.
pub proof fn law_file_elsewhere_is_refused(
    r: Result<LocatedFile, AppError>,
    config: Config,
    kind: MediaKind,
    path: Seq<char>,
    name: Seq<char>,
)
    requires
        is_located(r, config, kind, path, name),
    ensures
        r is Ok <==> path_parts(config.resources@).is_prefix_of(path_parts(path)),
        r matches Ok(file) ==> file.path@ == path && file.filename@ == name && file.kind == kind,
        r matches Err(e) ==> e.status_code == 403,
{
}

/// The question for a file finds just the rows of its kind and its name.
pub proof fn law_question_finds_file(request: FileRequest, question: Statement, row: FileRow)
    requires
        request.is_asked_by(question),
    ensures
        question.params@.len() == 2,
        row_has(row, question.params@[0], None, question.params@[1]) <==> {
            &&& row.kind matches Some(k) && k@ == (match request.kind {
                MediaKind::Pixiv => "pixiv"@,
                MediaKind::Plus => "plus"@,
            })
            &&& row.filename matches Some(f) && f@ == request.filename@
        },
{
    let params = seq![Some(request.kind.label()), Some(request.filename@)];
    let sql = "SELECT dir FROM files WHERE type=? AND filename=?"@;
    law_statement_says(question, sql, params, 0);
    law_statement_says(question, sql, params, 1);
}

/// There is a plan for a video unless the request names an end before the start: where the
/// size cannot be told the video is not there, and where no bytes are named it is sent whole.
pub proof fn law_plan_is_tried(
    r: Option<Result<RangePlan, AppError>>,
    named: Option<(u64, u64)>,
    size: Option<u64>,
)
    requires
        tries_video_plan(
            r,
            match named {
                Some((a, b)) => Some(
                    "bytes="@ + (decimal_text(a as nat) + seq!['-'] + decimal_text(b as nat)),
                ),
                None => None,
            },
            size,
        ),
    ensures
        r is None <==> (named matches Some((a, b)) && (size matches Some(n) && b < a < n)),
        size is None ==> (r matches Some(Err(e)) && e.status_code == 404),
        named is None && size is Some ==> (r matches Some(Ok(plan)) && plan is Whole),
        named matches Some((a, b)) ==> size matches Some(n) ==> {
            &&& a >= n ==> (r matches Some(Err(e)) && e.status_code == 416)
            &&& a < n && a <= b ==> (r matches Some(Ok(RangePlan::Part { start, end, last }))
                && start == a && end == b)
        },
{
    if let Some((a, b)) = named {
        if let Some(n) = size {
            law_inverted_range_is_told(a, b, n);
            if a <= b {
                law_range_is_read(a, b, n);
            }
        }
    }
}

/// The path of a file goes through the resources, the kind, its directory and its name,
/// whatever parts the directory has; an absolute directory takes the place of the first two.
pub proof fn law_media_path_goes_through(
    config: Config,
    kind: MediaKind,
    dir: Seq<char>,
    name: Seq<char>,
)
    requires
        split_on(dir, '/')[0] != seq!['.'],
        plain_name(name),
    ensures
        !is_absolute(dir) ==> path_parts(media_path(config, kind, dir, name)) == path_parts(
            config.resources@,
        ).push(
            PartView::Normal(
                match kind {
                    MediaKind::Pixiv => "pixiv"@,
                    MediaKind::Plus => "plus"@,
                },
            ),
        ) + path_parts(dir).push(PartView::Normal(name)),
        is_absolute(dir) ==> path_parts(media_path(config, kind, dir, name)) == path_parts(
            dir,
        ).push(PartView::Normal(name)),
{
    let root = kind_root(config, kind);
    let label = match kind {
        MediaKind::Pixiv => "pixiv"@,
        MediaKind::Plus => "plus"@,
    };
    reveal_strlit("pixiv");
    reveal_strlit("plus");
    assert(plain_name(label)) by {
        assert("pixiv"@.len() == 5 && "plus"@.len() == 4);
        assert forall|k: int| 0 <= k < label.len() implies label[k] != '/' by {}
    }
    law_join_adds_name(config.resources@, label);
    law_join_adds_parts(root, dir);
    law_join_adds_name(joined(root, dir), name);
    let a = path_parts(config.resources@).push(PartView::Normal(label));
    assert((a + path_parts(dir)).push(PartView::Normal(name)) =~= a + path_parts(dir).push(
        PartView::Normal(name),
    ));
}

/// The file of a row is the one where the catalogue has it, whatever its directory; it is
/// refused where that does not lie below the resources.
pub proof fn law_found_file_is_that_of_row(
    request: FileRequest,
    row: FileRow,
    dir: Seq<char>,
    config: Config,
    r: Result<LocatedFile, AppError>,
)
    requires
        request.finds_file(Ok(Some(row)), config, r),
        row.dir matches Some(d) ==> d@ == dir,
        row.dir is None ==> dir.len() == 0,
    ensures
        ({
            let path = media_path(config, request.kind, dir, request.filename@);
            &&& r is Ok <==> path_under(path, config.resources@)
            &&& r matches Ok(file) ==> {
                &&& file.path@ == path
                &&& file.kind == request.kind
                &&& file.filename@ == request.filename@
            }
            &&& r matches Err(e) ==> e.status_code == 403
        }),
{
    reveal_strlit("");
    assert(""@ =~= Seq::<char>::empty());
    assert(dir =~= text_or(row.dir, ""@));
}

/// A request without a name is one for the file that its session remembers of the kind, and
/// refused where it remembers none or one without a name. A session that is not there is made,
/// and remembers nothing.
pub proof fn law_request_without_name(
    kind: MediaKind,
    headers: HeaderMap<HeaderValue>,
    query: Option<Seq<char>>,
    config: Config,
    before: SessionStore,
    after: SessionStore,
    now: u128,
    r: Result<FileRequest, AppError>,
)
    requires
        request_allowed(headers, config),
        asks_from_session(kind, headers, query, config, before, after, now, r),
    ensures
        ({
            let wanted = request_session(headers, query);
            let row = match kind {
                MediaKind::Pixiv => before.sessions()[wanted->0].pixiv,
                MediaKind::Plus => before.sessions()[wanted->0].plus,
            };
            &&& before.knows(wanted, now) && row is None ==> (r matches Err(e) && e.status_code
                == 400)
            &&& before.knows(wanted, now) && row is Some ==> match (row->0).filename {
                Some(name) => is_file_request(r, kind, name@),
                None => r matches Err(e) && e.status_code == 400,
            }
            &&& !before.knows(wanted, now) ==> (r matches Err(e) && e.status_code == 400)
            &&& exists|id: Seq<char>|
                {
                    &&& #[trigger] after.sessions().contains_key(id)
                    &&& before.becomes(after, now, id, after.sessions()[id])
                    &&& after.sessions()[id].last_accessed == now
                    &&& before.knows(wanted, now) ==> wanted == Some(id)
                        && after.sessions()[id].pixiv == before.sessions()[id].pixiv
                        && after.sessions()[id].plus == before.sessions()[id].plus
                    &&& !before.knows(wanted, now) ==> is_random_uuid(id)
                        && after.sessions()[id].pixiv is None && after.sessions()[id].plus is None
                }
        }),
{
    let wanted = request_session(headers, query);
    let session = before.opened(wanted, now);
    let id = choose|id: Seq<char>| #[trigger]
        before.opens(wanted, now, id) && before.becomes(after, now, id, session);
    assert(after.sessions().contains_key(id));
    assert(after.sessions()[id] == session);
}

/// A picture with the cookie of a session is the picture as it is without, and one header
/// more behind the others: the cookie.
pub proof fn law_cookie_is_added(
    file: LocatedFile,
    id: Seq<char>,
    data: Option<Vec<u8>>,
    plain: Result<Reply, AppError>,
    with: Result<Reply, AppError>,
)
    requires
        serves_image(file, data, plain),
        serves_image_with_cookie(file, id, data, with),
    ensures
        plain is Ok <==> with is Ok,
        data is None ==> (with matches Err(e) && e.status_code == 404),
        plain matches Ok(a) ==> with matches Ok(b) ==> {
            &&& a.status == b.status
            &&& a.body matches ReplyBody::Bytes(x) && b.body matches ReplyBody::Bytes(y) && x@ == y@
            &&& header_views(b.headers@).drop_last() == header_views(a.headers@)
            &&& header_views(b.headers@).last().0 == "Set-Cookie"@
            &&& ("sessionId="@ + id + ";"@).is_prefix_of(header_views(b.headers@).last().1)
        },
{
    if let (Ok(a), Ok(b)) = (plain, with) {
        let cookie = session_cookie(id);
        let rest = "; Max-Age=3600; HttpOnly; SameSite=Strict; Path=/"@;
        reveal_strlit("; Max-Age=3600; HttpOnly; SameSite=Strict; Path=/");
        reveal_strlit(";");
        let front = "sessionId="@ + id + ";"@;
        assert(rest[0] == ';' && ";"@[0] == ';' && ";"@.len() == 1);
        assert(front =~= cookie.subrange(0, front.len() as int));
        assert(header_views(b.headers@).drop_last() =~= header_views(a.headers@));
    }
}

/// A video that cannot be read is not there. One that can has the same headers before the
/// length whether it is sent whole or in part, but for the label of the part.
pub proof fn law_video_headers(
    file: LocatedFile,
    plan: RangePlan,
    size: u64,
    data: Option<Vec<u8>>,
    r: Result<Reply, AppError>,
)
    requires
        serves_video(file, plan, size, data, r),
    ensures
        data is None <==> r is Err,
        r matches Err(e) ==> e.status_code == 404,
        r matches Ok(reply) ==> {
            let told = header_views(reply.headers@);
            &&& told.len() == (if plan is Part {
                6int
            } else {
                5
            })
            &&& told[0] == ("Accept-Ranges"@, "bytes"@)
            &&& told[1] == ("Content-Type"@, "video/mp4"@)
            &&& told[2] == ("Cache-Control"@, "public, max-age=86400"@)
            &&& told[2] == image_headers(file)[1]
            &&& told[3] == ("Content-Disposition"@, disposition(file.filename@))
            &&& plan is Part ==> told[4].0 == "Content-Range"@
            &&& told.last().0 == "Content-Length"@
            &&& !(plan is Part) ==> unsigned_number(told.last().1, u64::MAX as nat) == Some(
                size as nat,
            )
        },
{
    law_decimal_round_trip(size as nat, u64::MAX as nat);
}

} // verus!
