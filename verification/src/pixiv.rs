//! The answers about pictures. Each handler is cut at its questions to the database and
//! at its reads of files: every step takes what came back and says what is next.
use axum::http::{HeaderMap, HeaderValue};
use serde_json::Value;
use vstd::prelude::*;

use crate::answers::{db_error, is_db_error, is_referer_error, json_query, missing_details};
use crate::answers::{missing_list, no_details, query_details};
use crate::catalog::MediaKind;
use crate::config::Config;
use crate::error::AppError;
use crate::filename::{law_pixiv_name_made, law_pixiv_name_told, parse_pixiv_filename};
use crate::filename::{pixiv_file_name, pixiv_name, pixiv_name_ok, pixiv_stem, ParsedPixiv};
use crate::filename::PixivName;
use crate::files::{beginning_pattern, containing_pattern, json_opt};
use crate::files::{law_page_order_keeps_number, opt_json, order_pages, page_order, DbFailure};
use crate::files::{is_about, lemma_questions_name_their_kind};
use crate::files::{law_statement_says, param_views, FileRow, Statement};
use crate::headers::opt_str;
use crate::json::{json_content, json_object, json_set, json_text, json_unsigned, JsonView};
use crate::like::{contains_term, escaped, law_beginning_is_found, law_escaped_finds_term};
use crate::like::{lemma_beginning_by_characters, like, same_letter, stands_at};
use crate::links::{file_info, file_links, json_file_info, law_links_in_order, link_files};
use crate::media::{is_located, law_media_path_parts, law_media_path_stays};
use crate::media::{law_number_is_plain_name, locate, media_path, place_file, LocatedFile};
use crate::path::{file_stem_of, law_name_is_one_part, law_stem_and_extension, lemma_name_alone};
use crate::path::{path_parts, path_under, plain_name, PartView};
use crate::percent::text_of_link;
use crate::rate::{is_refusal, RateLimiter};
use crate::reply::{api_response, json_response, law_success_is_marked, marked_success, Reply};
use crate::request::{get_host, json_texts, request_allowed, request_origin, request_session};
use crate::request::{text_array, validate_referer, InfoQuery};
use crate::sessions::{is_random_uuid, Session, SessionStore};
use crate::text::{all_digits, ascii_small_text, is_digit, opt_text, string_or, text_or, texts};

verus! {

/// A picture of the catalogue, and what its name tells.
#[derive(Clone, Debug)]
pub struct PixivWork {
    pub row: FileRow,
    pub parsed: ParsedPixiv,
}

/// The answer where there are no pictures.
pub open spec fn is_no_picture(e: AppError) -> bool {
    e.says(404, "NO_PIXIV_FILES"@, "没有找到任何pixiv图片"@, no_details())
}

/// What is said of a name that does not tell a picture.
pub open spec fn parse_details(row: FileRow) -> JsonView {
    JsonView::Object(
        Map::empty().insert("filename"@, opt_json(row.filename)).insert(
            "expectedFormat"@,
            JsonView::Text("base_pid[_p页码]"@),
        ),
    )
}

/// The answer for a row: the picture that its name tells, else an error.
pub open spec fn is_work_of(r: Result<PixivWork, AppError>, row: FileRow) -> bool {
    match pixiv_file_name(text_or(row.filename, ""@)) {
        Some(name) => r matches Ok(w) && w.row == row && w.parsed@ == name,
        None => r matches Err(e) && e.says(
            400,
            "FILENAME_PARSE_ERROR"@,
            "文件名解析失败"@,
            parse_details(row),
        ),
    }
}

/// The picture that the name of a row tells.
pub fn work_of(row: FileRow) -> (r: Result<PixivWork, AppError>)
    ensures
        is_work_of(r, row),
{
    let filename: String = string_or(&row.filename, "");
    match parse_pixiv_filename(filename.as_str()) {
        Some(parsed) => Ok(PixivWork { row, parsed }),
        None => {
            let mut details: Value = json_object();
            json_set(&mut details, "filename", json_opt(&row.filename));
            json_set(&mut details, "expectedFormat", json_text("base_pid[_p页码]"));
            Err(AppError::with_details(400, "FILENAME_PARSE_ERROR", "文件名解析失败", details))
        },
    }
}

/// What the names of all pages of a picture begin with.
pub open spec fn page_prefix(name: PixivName) -> Seq<char> {
    name.base + "_"@ + name.pid
}

/// What is said of a picture: its number, its title, links to its pages, and where it
/// is.
pub open spec fn pixiv_data(
    row: FileRow,
    name: PixivName,
    pages: Seq<Seq<char>>,
    origin: Seq<char>,
) -> JsonView {
    JsonView::Object(
        Map::empty().insert("illustId"@, JsonView::Text(name.pid)).insert(
            "title"@,
            JsonView::Text(name.base),
        ).insert("pageCount"@, JsonView::Number(pages.len() as int)).insert(
            "urls"@,
            text_array(file_links(origin, "/pixiv/artworks/file/"@, pages)),
        ).insert("fileInfo"@, file_info(row)),
    )
}

impl PixivWork {
    /// The question is the one for the names of the pages.
    pub open spec fn has_pages_by(
        self,
        r: Statement,
    ) -> bool {
        r.says(
            "SELECT filename FROM files WHERE type='pixiv' AND dir=? AND filename LIKE ?"@,
            seq![
                Some(text_or(self.row.dir, ""@)),
                Some(beginning_pattern(page_prefix(self.parsed@))),
            ],
        )
    }

    /// The question for the names of the pages.
    pub fn pages_statement(&self) -> (r: Statement)
        ensures
            self.has_pages_by(r),
    {
        let dir: String = string_or(&self.row.dir, "");
        let prefix: String = self.parsed.base.clone().concat("_").concat(self.parsed.pid.as_str());
        Statement::get_pixiv_pages(dir.as_str(), prefix.as_str())
    }

    /// What is said of the picture with these pages.
    fn data(&self, pages: &Vec<String>, headers: &HeaderMap<HeaderValue>) -> (r: Value)
        ensures
            json_content(r) == pixiv_data(
                self.row,
                self.parsed@,
                texts(pages@),
                request_origin(*headers),
            ),
    {
        let origin: String = get_host(headers);
        let links: Vec<String> = link_files(origin.as_str(), "/pixiv/artworks/file/", pages);
        let mut data: Value = json_object();
        json_set(&mut data, "illustId", json_text(self.parsed.pid.as_str()));
        json_set(&mut data, "title", json_text(self.parsed.base.as_str()));
        json_set(&mut data, "pageCount", json_unsigned(pages.len() as u64));
        json_set(&mut data, "urls", json_texts(&links));
        json_set(&mut data, "fileInfo", json_file_info(&self.row));
        data
    }
}

// ===================== Any picture =====================
/// The limiter becomes `after` by a request for any picture at `now`, and `r` is its
/// question, where it is admitted.
pub open spec fn begins_random(
    before: RateLimiter,
    after: RateLimiter,
    now: u128,
    r: Result<Statement, AppError>,
) -> bool {
    &&& before.becomes(after, "pixiv_random"@, now)
    &&& if before.admits_at("pixiv_random"@, now) {
        r matches Ok(s) && s.says(
            "SELECT * FROM files WHERE type='pixiv' ORDER BY RANDOM() LIMIT 1"@,
            seq![],
        )
    } else {
        r matches Err(e) && is_refusal(e)
    }
}

/// The question of a request for any picture, where it is admitted.
pub fn random_begin(limiter: &mut RateLimiter, now: u128) -> (r: Result<Statement, AppError>)
    requires
        old(limiter).wf(),
    ensures
        begins_random(*old(limiter), *final(limiter), now, r),
{
    match limiter.check("pixiv_random", now) {
        Ok(()) => Ok(Statement::get_random_pixiv()),
        Err(e) => Err(e),
    }
}

/// `r` is the picture that was found, where one was.
pub open spec fn finds_random(
    row: Result<Option<FileRow>, DbFailure>,
    r: Result<PixivWork, AppError>,
) -> bool {
    match row {
        Err(_) => r matches Err(e) && is_db_error(e),
        Ok(None) => r matches Err(e) && is_no_picture(e),
        Ok(Some(f)) => is_work_of(r, f),
    }
}

/// The picture that was found, where one was.
pub fn random_found(row: Result<Option<FileRow>, DbFailure>) -> (r: Result<PixivWork, AppError>)
    ensures
        finds_random(row, r),
{
    match row {
        Err(_) => Err(db_error()),
        Ok(None) => Err(AppError::new(404, "NO_PIXIV_FILES", "没有找到任何pixiv图片")),
        Ok(Some(f)) => work_of(f),
    }
}

/// The reply about any picture: what is said of it, and the session.
pub open spec fn is_random_reply(
    reply: Reply,
    work: PixivWork,
    pages: Seq<Seq<char>>,
    origin: Seq<char>,
    id: Seq<char>,
    storage_name: Option<String>,
) -> bool {
    reply.is_json(
        200,
        JsonView::Object(
            marked_success(
                Map::empty().insert(
                    "data"@,
                    pixiv_data(work.row, work.parsed@, pages, origin),
                ).insert("sessionId"@, JsonView::Text(id)),
                storage_name,
            ),
        ),
    )
}

/// The store becomes `after` by a request for any picture at `now`, and `r` is the id of the
/// session and the reply.
pub open spec fn replies_random(
    work: PixivWork,
    pages: Result<Vec<String>, DbFailure>,
    headers: HeaderMap<HeaderValue>,
    query: Option<Seq<char>>,
    before: SessionStore,
    after: SessionStore,
    now: u128,
    storage_name: Option<String>,
    r: Result<(String, Reply), AppError>,
) -> bool {
    match pages {
        Err(_) => {
            &&& r matches Err(e) && is_db_error(e)
            &&& after == before
        },
        Ok(files) => {
            let wanted = request_session(headers, query);
            &&& r matches Ok((id, reply))
            &&& before.opens(wanted, now, id@)
            &&& before.becomes(
                after,
                now,
                id@,
                Session { pixiv: Some(work.row), ..before.opened(wanted, now) },
            )
            &&& is_random_reply(
                reply,
                work,
                page_order(texts(files@)),
                request_origin(headers),
                id@,
                storage_name,
            )
        },
    }
}

/// The reply about any picture, and the id of the session, which now remembers it.
/// `query` is the `sessionId` of the request's query.
pub fn random_reply(
    work: &PixivWork,
    pages: Result<Vec<String>, DbFailure>,
    headers: &HeaderMap<HeaderValue>,
    query: Option<&str>,
    sessions: &mut SessionStore,
    now: u128,
    storage_name: &Option<String>,
) -> (r: Result<(String, Reply), AppError>)
    requires
        old(sessions).wf(),
    ensures
        replies_random(
            *work,
            pages,
            *headers,
            opt_str(query),
            *old(sessions),
            *final(sessions),
            now,
            *storage_name,
            r,
        ),
{
    let files: Vec<String> = match pages {
        Ok(files) => files,
        Err(_) => {
            return Err(db_error());
        },
    };
    let ordered: Vec<String> = order_pages(&files);
    let (id, session) = sessions.get_for_request(headers, query, now);
    session.pixiv = Some(work.row.copy());
    let mut body: Value = json_object();
    json_set(&mut body, "data", work.data(&ordered, headers));
    json_set(&mut body, "sessionId", json_text(id.as_str()));
    let reply: Reply = json_response(body, storage_name);
    Ok((id, reply))
}

// ===================== A picture by its name =====================
/// The limiter becomes `after` by a request for a picture by its name at `now`, and `r` is its
/// question, where it is admitted.
pub open spec fn begins_info(
    before: RateLimiter,
    after: RateLimiter,
    query: InfoQuery,
    now: u128,
    r: Result<Statement, AppError>,
) -> bool {
    &&& before.becomes(after, "pixiv_info"@, now)
    &&& if !before.admits_at("pixiv_info"@, now) {
        r matches Err(e) && is_refusal(e)
    } else {
        match query.list {
            None => r matches Err(e) && e.says(
                400,
                "MISSING_PARAMETER"@,
                "缺少必要参数"@,
                missing_details("需要提供文件名关键字"@),
            ),
            Some(list) => r matches Ok(s) && s.says(
                "SELECT * FROM files WHERE type='pixiv' AND filename LIKE ? ESCAPE '\\' LIMIT 1"@,
                seq![Some(containing_pattern(escaped(list@)))],
            ),
        }
    }
}

/// The question of a request for a picture by its name, where it is admitted.
pub fn info_begin(limiter: &mut RateLimiter, query: &InfoQuery, now: u128) -> (r: Result<
    Statement,
    AppError,
>)
    requires
        old(limiter).wf(),
    ensures
        begins_info(*old(limiter), *final(limiter), *query, now, r),
{
    match limiter.check("pixiv_info", now) {
        Ok(()) => {},
        Err(e) => {
            return Err(e);
        },
    }
    match &query.list {
        None => Err(missing_list("需要提供文件名关键字")),
        Some(list) => Ok(Statement::search_pixiv(list.as_str())),
    }
}

/// `r` is the picture that was found for the term, where one was.
pub open spec fn finds_info(
    list: Seq<char>,
    row: Result<Option<FileRow>, DbFailure>,
    r: Result<PixivWork, AppError>,
) -> bool {
    match row {
        Err(_) => r matches Err(e) && is_db_error(e),
        Ok(None) => r matches Err(e) && e.says(
            404,
            "FILE_NOT_FOUND"@,
            "未找到匹配的图片"@,
            query_details(list),
        ),
        Ok(Some(f)) => is_work_of(r, f),
    }
}

/// The picture that was found for the term, where one was.
pub fn info_found(list: &str, row: Result<Option<FileRow>, DbFailure>) -> (r: Result<
    PixivWork,
    AppError,
>)
    ensures
        finds_info(list@, row, r),
{
    match row {
        Err(_) => Err(db_error()),
        Ok(None) => Err(
            AppError::with_details(404, "FILE_NOT_FOUND", "未找到匹配的图片", json_query(list)),
        ),
        Ok(Some(f)) => work_of(f),
    }
}

/// What is said of a picture without pages.
pub open spec fn no_pages_details(name: PixivName) -> JsonView {
    JsonView::Object(Map::empty().insert("illustId"@, JsonView::Text(name.pid)))
}

/// `r` is the reply about a picture.
pub open spec fn replies_info(
    work: PixivWork,
    pages: Result<Vec<String>, DbFailure>,
    headers: HeaderMap<HeaderValue>,
    storage_name: Option<String>,
    r: Result<Reply, AppError>,
) -> bool {
    match pages {
        Err(_) => r matches Err(e) && is_db_error(e),
        Ok(files) => if files@.len() == 0 {
            r matches Err(e) && e.says(
                404,
                "PAGES_NOT_FOUND"@,
                "未找到相关页面"@,
                no_pages_details(work.parsed@),
            )
        } else {
            r matches Ok(reply) && reply.is_json(
                200,
                JsonView::Object(
                    marked_success(
                        Map::empty().insert(
                            "data"@,
                            pixiv_data(
                                work.row,
                                work.parsed@,
                                page_order(texts(files@)),
                                request_origin(headers),
                            ),
                        ),
                        storage_name,
                    ),
                ),
            )
        },
    }
}

/// The reply about a picture.
pub fn info_reply(
    work: &PixivWork,
    pages: Result<Vec<String>, DbFailure>,
    headers: &HeaderMap<HeaderValue>,
    storage_name: &Option<String>,
) -> (r: Result<Reply, AppError>)
    ensures
        replies_info(*work, pages, *headers, *storage_name, r),
{
    let files: Vec<String> = match pages {
        Ok(files) => files,
        Err(_) => {
            return Err(db_error());
        },
    };
    if files.len() == 0 {
        let mut details: Value = json_object();
        json_set(&mut details, "illustId", json_text(work.parsed.pid.as_str()));
        return Err(AppError::with_details(404, "PAGES_NOT_FOUND", "未找到相关页面", details));
    }
    let ordered: Vec<String> = order_pages(&files);
    Ok(api_response(work.data(&ordered, headers), storage_name))
}

// ===================== A picture itself =====================
/// By a request to see any picture at `now` the limiter and the store become the second of
/// each pair, and `r` is the id of the session and the question.
pub open spec fn begins_view(
    headers: HeaderMap<HeaderValue>,
    query: Option<Seq<char>>,
    config: Config,
    limiters: (RateLimiter, RateLimiter),
    stores: (SessionStore, SessionStore),
    now: u128,
    r: Result<(String, Statement), AppError>,
) -> bool {
    if !request_allowed(headers, config) {
        &&& r matches Err(e) && is_referer_error(e, headers, config)
        &&& limiters.1 == limiters.0
        &&& stores.1 == stores.0
    } else {
        &&& limiters.0.becomes(limiters.1, "pixiv_view"@, now)
        &&& if !limiters.0.admits_at("pixiv_view"@, now) {
            &&& r matches Err(e) && is_refusal(e)
            &&& stores.1 == stores.0
        } else {
            let wanted = request_session(headers, query);
            &&& r matches Ok((id, s))
            &&& s.says(
                "SELECT * FROM files WHERE type='pixiv' ORDER BY RANDOM() LIMIT 1"@,
                seq![],
            )
            &&& stores.0.opens(wanted, now, id@)
            &&& stores.0.becomes(
                stores.1,
                now,
                id@,
                stores.0.opened(wanted, now),
            )
        }
    }
}

/// The id of the session and the question of a request to see any picture, where the
/// page that it comes from may ask and it is admitted. `query` is the `sessionId` of the
/// request's query.
pub fn view_begin(
    headers: &HeaderMap<HeaderValue>,
    query: Option<&str>,
    config: &Config,
    limiter: &mut RateLimiter,
    sessions: &mut SessionStore,
    now: u128,
) -> (r: Result<(String, Statement), AppError>)
    requires
        old(limiter).wf(),
        old(sessions).wf(),
    ensures
        begins_view(
            *headers,
            opt_str(query),
            *config,
            (*old(limiter), *final(limiter)),
            (*old(sessions), *final(sessions)),
            now,
            r,
        ),
{
    match validate_referer(headers, config) {
        Ok(()) => {},
        Err(e) => {
            return Err(e);
        },
    }
    match limiter.check("pixiv_view", now) {
        Ok(()) => {},
        Err(e) => {
            return Err(e);
        },
    }
    let (id, _session) = sessions.get_for_request(headers, query, now);
    Ok((id, Statement::get_random_pixiv()))
}

/// The store becomes `after` by what was found for a request to see any picture, and `r` is
/// the file of it.
pub open spec fn finds_view(
    id: Seq<char>,
    row: Result<Option<FileRow>, DbFailure>,
    config: Config,
    before: SessionStore,
    after: SessionStore,
    r: Result<LocatedFile, AppError>,
) -> bool {
    match row {
        Err(_) => {
            &&& r matches Err(e) && is_db_error(e)
            &&& after == before
        },
        Ok(found) => {
            &&& after.wf()
            &&& after.last_cleanup() == before.last_cleanup()
            &&& after.sessions() == before.sessions().insert(
                id,
                Session { pixiv: found, ..before.sessions()[id] },
            )
            &&& match found {
                None => r matches Err(e) && is_no_picture(e),
                Some(f) => is_located(
                    r,
                    config,
                    MediaKind::Pixiv,
                    media_path(
                        config,
                        MediaKind::Pixiv,
                        text_or(f.dir, ""@),
                        text_or(f.filename, ""@),
                    ),
                    text_or(f.filename, "unknown"@),
                ),
            }
        },
    }
}

/// The file of the picture that was found, where one was; the session under `id`
/// remembers what was found.
pub fn view_found(
    id: &str,
    row: Result<Option<FileRow>, DbFailure>,
    config: &Config,
    sessions: &mut SessionStore,
) -> (r: Result<LocatedFile, AppError>)
    requires
        old(sessions).wf(),
        old(sessions).sessions().contains_key(id@),
    ensures
        finds_view(id@, row, *config, *old(sessions), *final(sessions), r),
{
    let found: Option<FileRow> = match row {
        Ok(found) => found,
        Err(_) => {
            return Err(db_error());
        },
    };
    match found {
        None => {
            sessions.set_pixiv(id, None);
            Err(AppError::new(404, "NO_PIXIV_FILES", "没有找到任何pixiv图片"))
        },
        Some(f) => {
            let dir: String = string_or(&f.dir, "");
            let name: String = string_or(&f.filename, "");
            let shown: String = string_or(&f.filename, "unknown");
            sessions.set_pixiv(id, Some(f));
            let path: String = place_file(
                config,
                MediaKind::Pixiv,
                dir.as_str(),
                name.as_str(),
            );
            locate(config, MediaKind::Pixiv, path, shown)
        },
    }
}

// ===================== Laws =====================
/// What is said of a picture has one link for each page that was found, and says how
/// many there are.
pub proof fn law_one_link_for_each_page(
    row: FileRow,
    name: PixivName,
    files: Seq<Seq<char>>,
    origin: Seq<char>,
)
    ensures
        pixiv_data(row, name, page_order(files), origin) matches JsonView::Object(data) && {
            &&& data.contains_pair("pageCount"@, JsonView::Number(files.len() as int))
            &&& data.contains_key("urls"@)
            &&& data["urls"@] matches JsonView::Array(urls) && urls.len() == files.len()
        },
{
    law_page_order_keeps_number(files);
    reveal_strlit("pageCount");
    reveal_strlit("urls");
    reveal_strlit("fileInfo");
    assert("pageCount"@.len() == 9 && "urls"@.len() == 4 && "fileInfo"@.len() == 8);
}

/// The name of a picture matches the pattern by which the pages of the picture are
/// found: a picture is among its own pages.
pub proof fn law_picture_is_among_its_pages(filename: Seq<char>)
    requires
        !filename.contains('/'),
        pixiv_file_name(filename) is Some,
    ensures
        like(beginning_pattern(page_prefix(pixiv_file_name(filename)->0)), filename, None),
{
    let name = pixiv_file_name(filename)->0;
    let prefix = page_prefix(name);
    lemma_name_alone(filename);
    let stem = file_stem_of(filename)->0;
    law_pixiv_name_made(stem);
    reveal_strlit("_");
    assert("_"@ =~= seq!['_']);
    assert(prefix.is_prefix_of(filename)) by {
        assert(pixiv_stem(name) == stem);
        assert(stem.subrange(0, prefix.len() as int) =~= prefix);
        assert forall|k: int| 0 <= k < prefix.len() implies filename[k] == prefix[k] by {
            assert(stem[k] == filename[k]);
            assert(stem.subrange(0, prefix.len() as int)[k] == prefix[k]);
        }
        assert(filename.subrange(0, prefix.len() as int) =~= prefix);
    }
    law_beginning_is_found(prefix, filename);
}

/// What is said of a picture: its id and its title, as many pages as there are, a link to
/// each in their order, and where it is.
pub proof fn law_picture_is_told(
    row: FileRow,
    name: PixivName,
    pages: Seq<Seq<char>>,
    origin: Seq<char>,
    i: int,
)
    ensures
        pixiv_data(row, name, pages, origin) matches JsonView::Object(data) && {
            &&& data.contains_pair("illustId"@, JsonView::Text(name.pid))
            &&& data.contains_pair("title"@, JsonView::Text(name.base))
            &&& data.contains_pair("pageCount"@, JsonView::Number(pages.len() as int))
            &&& data.contains_pair("fileInfo"@, file_info(row))
            &&& forall|key: Seq<char>| #[trigger]
                data.contains_key(key) ==> key == "illustId"@ || key == "title"@ || key
                    == "pageCount"@ || key == "fileInfo"@ || key == "urls"@
            &&& data.contains_key("urls"@)
            &&& data["urls"@] matches JsonView::Array(urls) && {
                &&& urls.len() == pages.len()
                &&& 0 <= i < pages.len() ==> (urls[i] matches JsonView::Text(url) && exists|
                    t: Seq<char>,
                |
                    url == origin + "/pixiv/artworks/file/"@ + t && #[trigger] text_of_link(t)
                        == Some(pages[i]) && !t.contains('/'))
            }
        },
{
    reveal_strlit("illustId");
    reveal_strlit("title");
    reveal_strlit("pageCount");
    reveal_strlit("urls");
    reveal_strlit("fileInfo");
    assert("illustId"@.len() == 8 && "title"@.len() == 5 && "pageCount"@.len() == 9);
    assert("urls"@.len() == 4 && "fileInfo"@.len() == 8);
    assert("illustId"@[0] == 'i' && "fileInfo"@[0] == 'f');
    if 0 <= i < pages.len() {
        law_links_in_order(origin, "/pixiv/artworks/file/"@, pages, i);
    }
}

/// The name of a picture, made of a title, an id, perhaps a page, and an extension, tells
/// just these, and the work is that of its row.
pub proof fn law_work_is_told(
    r: Result<PixivWork, AppError>,
    row: FileRow,
    filename: String,
    name: PixivName,
    ext: Seq<char>,
)
    requires
        is_work_of(r, row),
        row.filename == Some(filename),
        pixiv_name_ok(name),
        !name.base.contains('/'),
        ext.len() > 0 && !ext.contains('/') && !ext.contains('.'),
        filename@ == (match name.page {
            Some(page) => name.base + seq!['_'] + name.pid + seq!['_', 'p'] + page,
            None => name.base + seq!['_'] + name.pid,
        }) + seq!['.'] + ext,
    ensures
        r matches Ok(work) && {
            &&& work.row == row
            &&& work.parsed.base@ == name.base
            &&& work.parsed.pid@ == name.pid
            &&& work.parsed@.page == name.page
        },
{
    let stem = match name.page {
        Some(page) => name.base + seq!['_'] + name.pid + seq!['_', 'p'] + page,
        None => name.base + seq!['_'] + name.pid,
    };
    assert(pixiv_stem(name) =~= stem);
    if stem.contains('/') {
        let k = choose|k: int| 0 <= k < stem.len() && stem[k] == '/';
        let b = name.base.len() as int;
        if k < b {
            assert(name.base[k] == '/');
            assert(name.base.contains('/'));
        } else if b < k < b + 1 + name.pid.len() {
            assert(is_digit(name.pid[k - b - 1]));
        } else if let Some(page) = name.page {
            if k >= b + 3 + name.pid.len() {
                assert(is_digit(page[k - b - 3 - name.pid.len()]));
            }
        }
    }
    law_stem_and_extension(stem, ext);
    law_pixiv_name_told(name);
}

/// A name that tells no picture is refused.
pub proof fn law_untold_work_is_refused(r: Result<PixivWork, AppError>, row: FileRow)
    requires
        is_work_of(r, row),
        row.filename is None || !(exists|name: PixivName|
            file_stem_of(row.filename->0@) == Some(#[trigger] pixiv_stem(name)) && pixiv_name_ok(
                name,
            )),
    ensures
        r matches Err(e) && e.status_code == 400,
{
    reveal_strlit("");
    let f = text_or(row.filename, ""@);
    if let Some(stem) = file_stem_of(f) {
        if pixiv_name(stem) is Some {
            law_pixiv_name_made(stem);
            let name = pixiv_name(stem)->0;
            if row.filename is Some {
                assert(stem == pixiv_stem(name));
            } else {
                lemma_name_alone(f);
                assert(stem.len() == 0);
            }
        }
    }
}

/// The reply about any picture says success, tells the picture with its pages in order, and
/// names the session; the storage where it has a name.
pub proof fn law_random_picture_is_told(
    work: PixivWork,
    files: Vec<String>,
    headers: HeaderMap<HeaderValue>,
    query: Option<Seq<char>>,
    before: SessionStore,
    after: SessionStore,
    now: u128,
    storage_name: Option<String>,
    r: Result<(String, Reply), AppError>,
)
    requires
        replies_random(work, Ok(files), headers, query, before, after, now, storage_name, r),
    ensures
        r matches Ok((id, reply)) && exists|body: Map<Seq<char>, JsonView>|
            {
                &&& #[trigger] reply.is_json(200, JsonView::Object(body))
                &&& body.contains_pair("error"@, JsonView::Bool(false))
                &&& body.contains_pair("sessionId"@, JsonView::Text(id@))
                &&& body.contains_pair("message"@, JsonView::Text("success"@))
                &&& forall|key: Seq<char>| #[trigger]
                    body.contains_key(key) ==> key == "error"@ || key == "message"@ || key
                        == "data"@ || key == "sessionId"@ || key == "storage"@
                        && storage_name is Some
                &&& body.contains_pair(
                    "data"@,
                    pixiv_data(
                        work.row,
                        work.parsed@,
                        page_order(texts(files@)),
                        request_origin(headers),
                    ),
                )
                &&& storage_name matches Some(s) ==> body.contains_pair(
                    "storage"@,
                    JsonView::Text(s@),
                )
            },
{
    let id = (r->Ok_0).0;
    let reply = (r->Ok_0).1;
    let data = pixiv_data(
        work.row,
        work.parsed@,
        page_order(texts(files@)),
        request_origin(headers),
    );
    let plain = Map::empty().insert("data"@, data).insert("sessionId"@, JsonView::Text(id@));
    let body = marked_success(plain, storage_name);
    lemma_answer_keys();
    law_success_is_marked(plain, storage_name, "data"@);
    law_success_is_marked(plain, storage_name, "sessionId"@);
    assert(reply.is_json(200, JsonView::Object(body)));
}

/// The members of an answer have different names.
pub proof fn lemma_answer_keys()
    ensures
        "data"@ != "error"@ && "data"@ != "message"@ && "data"@ != "storage"@,
        "sessionId"@ != "error"@ && "sessionId"@ != "message"@ && "sessionId"@ != "storage"@,
        "data"@ != "sessionId"@,
{
    reveal_strlit("data");
    reveal_strlit("error");
    reveal_strlit("message");
    reveal_strlit("storage");
    reveal_strlit("sessionId");
    assert("data"@.len() == 4 && "error"@.len() == 5 && "message"@.len() == 7);
    assert("storage"@.len() == 7 && "sessionId"@.len() == 9);
}

/// After the reply about any picture its session remembers just that picture; it keeps its
/// video, and no other session is changed.
pub proof fn law_random_picture_is_remembered(
    work: PixivWork,
    files: Vec<String>,
    headers: HeaderMap<HeaderValue>,
    query: Option<Seq<char>>,
    before: SessionStore,
    after: SessionStore,
    now: u128,
    storage_name: Option<String>,
    r: Result<(String, Reply), AppError>,
    other: Seq<char>,
)
    requires
        replies_random(work, Ok(files), headers, query, before, after, now, storage_name, r),
    ensures
        r matches Ok((id, reply)) && {
            &&& after.sessions().contains_key(id@)
            &&& after.sessions()[id@].pixiv == Some(work.row)
            &&& after.sessions()[id@].last_accessed == now
            &&& before.becomes(after, now, id@, after.sessions()[id@])
            &&& !before.knows(request_session(headers, query), now) ==> {
                &&& is_random_uuid(id@)
                &&& after.sessions()[id@].plus is None
            }
            &&& request_session(headers, query) matches Some(w) ==> before.left_at(
                now,
            ).contains_key(w) ==> id@ == w && after.sessions()[id@].plus == before.sessions()[w].plus
            &&& other != id@ && after.sessions().contains_key(other) ==> {
                &&& before.sessions().contains_key(other)
                &&& after.sessions()[other] == before.sessions()[other]
            }
        },
{
}

/// The reply about a picture that was searched says success and tells the picture with its
/// pages in order; without pages it is refused.
pub proof fn law_searched_picture_is_told(
    work: PixivWork,
    files: Vec<String>,
    headers: HeaderMap<HeaderValue>,
    storage_name: Option<String>,
    r: Result<Reply, AppError>,
)
    requires
        replies_info(work, Ok(files), headers, storage_name, r),
    ensures
        files@.len() == 0 ==> (r matches Err(e) && e.status_code == 404),
        files@.len() > 0 ==> (r matches Ok(reply) && exists|body: Map<Seq<char>, JsonView>|
            {
                &&& #[trigger] reply.is_json(200, JsonView::Object(body))
                &&& body.contains_pair("error"@, JsonView::Bool(false))
                &&& body.contains_pair("message"@, JsonView::Text("success"@))
                &&& forall|key: Seq<char>| #[trigger]
                    body.contains_key(key) ==> key == "error"@ || key == "message"@ || key
                        == "data"@ || key == "storage"@ && storage_name is Some
                &&& body.contains_pair(
                    "data"@,
                    pixiv_data(
                        work.row,
                        work.parsed@,
                        page_order(texts(files@)),
                        request_origin(headers),
                    ),
                )
                &&& storage_name matches Some(s) ==> body.contains_pair(
                    "storage"@,
                    JsonView::Text(s@),
                )
            }),
{
    if files@.len() > 0 {
        let data = pixiv_data(
            work.row,
            work.parsed@,
            page_order(texts(files@)),
            request_origin(headers),
        );
        let plain = Map::empty().insert("data"@, data);
        lemma_answer_keys();
        law_success_is_marked(plain, storage_name, "data"@);
        assert((r->Ok_0).is_json(200, JsonView::Object(marked_success(plain, storage_name))));
    }
}

/// A picture that is seen is remembered by its session, is read from the directory that the
/// catalogue holds for it, and is served under its name; no other session is changed.
pub proof fn law_seen_picture_is_remembered(
    id: Seq<char>,
    row: FileRow,
    dir: String,
    filename: String,
    config: Config,
    before: SessionStore,
    after: SessionStore,
    r: Result<LocatedFile, AppError>,
    other: Seq<char>,
)
    requires
        finds_view(id, Ok(Some(row)), config, before, after, r),
        row.dir == Some(dir),
        row.filename == Some(filename),
        dir@.len() > 0 && all_digits(dir@),
        plain_name(filename@),
    ensures
        after.sessions().contains_key(id),
        after.sessions()[id].pixiv == Some(row),
        other != id ==> after.sessions().contains_key(other) == before.sessions().contains_key(
            other,
        ),
        other != id && before.sessions().contains_key(other) ==> after.sessions()[other]
            == before.sessions()[other],
        r matches Ok(file) && {
            &&& file.filename@ == filename@
            &&& path_parts(file.path@) == path_parts(config.resources@) + seq![
                PartView::Normal("pixiv"@),
                PartView::Normal(dir@),
                PartView::Normal(filename@),
            ]
        },
{
    law_number_is_plain_name(dir@);
    law_name_is_one_part(dir@);
    law_name_is_one_part(filename@);
    law_media_path_stays(config, MediaKind::Pixiv, dir@, filename@);
    law_media_path_parts(config, MediaKind::Pixiv, dir@, filename@);
}

/// A request to see any picture from a page that may not ask, or one too many, is refused and
/// opens no session; any other opens one.
pub proof fn law_view_is_opened(
    headers: HeaderMap<HeaderValue>,
    query: Option<Seq<char>>,
    config: Config,
    limiters: (RateLimiter, RateLimiter),
    stores: (SessionStore, SessionStore),
    now: u128,
    r: Result<(String, Statement), AppError>,
)
    requires
        begins_view(headers, query, config, limiters, stores, now, r),
    ensures
        !request_allowed(headers, config) ==> (r matches Err(e) && e.status_code == 403)
            && stores.1 == stores.0 && limiters.1 == limiters.0,
        request_allowed(headers, config) && !limiters.0.admits_at("pixiv_view"@, now) ==> (
        r matches Err(e) && e.status_code == 429) && stores.1 == stores.0,
        request_allowed(headers, config) && limiters.0.admits_at("pixiv_view"@, now) ==> (
        r matches Ok((id, question)) && {
            let wanted = request_session(headers, query);
            &&& stores.0.becomes(stores.1, now, id@, stores.1.sessions()[id@])
            &&& stores.1.sessions()[id@].last_accessed == now
            &&& stores.0.knows(wanted, now) ==> {
                &&& wanted == Some(id@)
                &&& stores.1.sessions()[id@].pixiv == stores.0.sessions()[id@].pixiv
                &&& stores.1.sessions()[id@].plus == stores.0.sessions()[id@].plus
            }
            &&& !stores.0.knows(wanted, now) ==> {
                &&& is_random_uuid(id@)
                &&& stores.1.sessions()[id@].pixiv is None
                &&& stores.1.sessions()[id@].plus is None
            }
        }),
        request_allowed(headers, config) ==> limiters.0.becomes(limiters.1, "pixiv_view"@, now),
        forall|key: Seq<char>|
            key != "pixiv_view"@ ==> #[trigger] limiters.1.times(key) == limiters.0.times(key),
{
}

/// Requests for any picture, and for a picture by its name, are limited each under a key of
/// its own.
pub proof fn law_picture_requests_are_limited(
    before: RateLimiter,
    after: RateLimiter,
    query: InfoQuery,
    now: u128,
    random: Result<Statement, AppError>,
    info: Result<Statement, AppError>,
)
    ensures
        begins_random(before, after, now, random) ==> {
            &&& before.becomes(after, "pixiv_random"@, now)
            &&& random is Ok <==> before.admits_at("pixiv_random"@, now)
            &&& random matches Err(e) ==> e.status_code == 429
            &&& forall|key: Seq<char>|
                key != "pixiv_random"@ ==> #[trigger] after.times(key) == before.times(key)
        },
        begins_info(before, after, query, now, info) ==> {
            &&& before.becomes(after, "pixiv_info"@, now)
            &&& info is Ok <==> before.admits_at("pixiv_info"@, now) && query.list is Some
            &&& info matches Err(e) ==> e.status_code == (if before.admits_at("pixiv_info"@, now) {
                400u16
            } else {
                429u16
            })
            &&& forall|key: Seq<char>|
                key != "pixiv_info"@ ==> #[trigger] after.times(key) == before.times(key)
        },
{
}

/// The question of a request for a picture by its name finds a file exactly where its name
/// contains the term.
pub proof fn law_info_asks_for_term(
    before: RateLimiter,
    after: RateLimiter,
    list: String,
    now: u128,
    r: Result<Statement, AppError>,
    name: Seq<char>,
)
    requires
        begins_info(before, after, (InfoQuery { list: Some(list) }), now, r),
        before.admits_at("pixiv_info"@, now),
    ensures
        r matches Ok(s) && {
            &&& s.params@.len() == 1
            &&& s.params@[0] matches Some(pattern)
            &&& like(pattern@, name, Some('\\')) <==> contains_term(name, list@)
        },
{
    let s = r->Ok_0;
    law_escaped_finds_term(list@, name);
    assert(param_views(s.params@).len() == s.params@.len());
    assert(param_views(s.params@)[0] == opt_text(s.params@[0]));
}

/// All pages of a work match the pattern by which they are found, whatever page and extension
/// they have.
pub proof fn law_pages_of_work_are_found(name: PixivName, rest: Seq<char>)
    ensures
        like(
            beginning_pattern(page_prefix(name)),
            name.base + seq!['_'] + name.pid + rest,
            None,
        ),
{
    reveal_strlit("_");
    assert("_"@ =~= seq!['_']);
    let prefix = page_prefix(name);
    let file = name.base + seq!['_'] + name.pid + rest;
    assert(file.subrange(0, prefix.len() as int) =~= prefix);
    law_beginning_is_found(prefix, file);
}

/// What matches the pattern by which the pages of a work are found begins with its title, one
/// character and its id, but for the case of letters of ASCII, where the title holds no
/// wildcard.
pub proof fn law_found_pages_are_of_work(name: PixivName, file: Seq<char>)
    requires
        !name.base.contains('%') && !name.base.contains('_'),
        all_digits(name.pid),
        like(beginning_pattern(page_prefix(name)), file, None),
    ensures
        file.len() > name.base.len() + name.pid.len(),
        stands_at(file, name.base, 0),
        stands_at(file, name.pid, name.base.len() as int + 1),
{
    reveal_strlit("_");
    assert("_"@ =~= seq!['_']);
    let prefix = page_prefix(name);
    assert forall|k: int| 0 <= k < prefix.len() implies prefix[k] != '%' by {
        let b = name.base.len() as int;
        if k < b {
            assert(prefix[k] == name.base[k]);
            assert(name.base.contains(name.base[k]));
        } else if k > b {
            assert(prefix[k] == name.pid[k - b - 1]);
            assert(is_digit(name.pid[k - b - 1]));
        }
    }
    lemma_beginning_by_characters(prefix, file);
    let b = name.base.len() as int;
    let p = name.pid.len() as int;
    assert forall|k: int| 0 <= k < b implies same_letter(name.base[k], file[k]) by {
        assert(prefix[k] == name.base[k]);
        assert(name.base.contains(name.base[k]));
    }
    assert forall|k: int| 0 <= k < p implies same_letter(name.pid[k], file[b + 1 + k]) by {
        assert(prefix[b + 1 + k] == name.pid[k]);
        assert(is_digit(name.pid[k]));
    }
    assert(ascii_small_text(file.subrange(0, b)) =~= ascii_small_text(name.base));
    assert(ascii_small_text(file.subrange(b + 1, b + 1 + p)) =~= ascii_small_text(name.pid));
}

/// What is said of a name that tells no picture is that name and what a name should be; of a
/// picture without pages its id.
pub proof fn law_picture_refusals_are_told(row: FileRow, name: PixivName)
    ensures
        parse_details(row) matches JsonView::Object(o) && {
            &&& o.contains_pair("filename"@, opt_json(row.filename))
            &&& o.contains_pair("expectedFormat"@, JsonView::Text("base_pid[_p页码]"@))
        },
        no_pages_details(name) matches JsonView::Object(o) && o.contains_pair(
            "illustId"@,
            JsonView::Text(name.pid),
        ),
{
    reveal_strlit("filename");
    reveal_strlit("expectedFormat");
    assert("filename"@.len() == 8 && "expectedFormat"@.len() == 14);
}

/// Where no picture is found a request is refused with 404, where the database fails with
/// 500.
pub proof fn law_no_picture_is_refused(
    list: Seq<char>,
    random: Result<PixivWork, AppError>,
    info: Result<PixivWork, AppError>,
    failure: DbFailure,
)
    ensures
        finds_random(Ok(None), random) ==> (random matches Err(e) && e.status_code == 404),
        finds_random(Err(failure), random) ==> (random matches Err(e) && e.status_code == 500),
        finds_info(list, Ok(None), info) ==> (info matches Err(e) && e.status_code == 404),
        finds_info(list, Err(failure), info) ==> (info matches Err(e) && e.status_code == 500),
{
}

/// What is found for a request is told as it was found.
pub proof fn law_found_picture_is_told(
    list: Seq<char>,
    row: FileRow,
    random: Result<PixivWork, AppError>,
    info: Result<PixivWork, AppError>,
)
    ensures
        finds_random(Ok(Some(row)), random) ==> is_work_of(random, row),
        finds_info(list, Ok(Some(row)), info) ==> is_work_of(info, row),
        is_work_of(random, row) && random is Ok ==> (random->Ok_0).row == row,
{
}

/// The question for the pages of a work asks in the directory of its picture for the names
/// that begin with its title and id.
pub proof fn law_question_finds_pages(work: PixivWork, question: Statement, rest: Seq<char>)
    requires
        work.has_pages_by(question),
    ensures
        question.params@.len() == 2,
        work.row.dir matches Some(dir) ==> (question.params@[0] matches Some(d) && d@ == dir@),
        question.params@[1] matches Some(pattern) && like(
            pattern@,
            work.parsed.base@ + seq!['_'] + work.parsed.pid@ + rest,
            None,
        ),
{
    let params = seq![
        Some(text_or(work.row.dir, ""@)),
        Some(beginning_pattern(page_prefix(work.parsed@))),
    ];
    let sql = "SELECT filename FROM files WHERE type='pixiv' AND dir=? AND filename LIKE ?"@;
    law_statement_says(question, sql, params, 0);
    law_statement_says(question, sql, params, 1);
    law_pages_of_work_are_found(work.parsed@, rest);
}

/// Where the database cannot answer, or holds no picture, a request is refused. It leaves the
/// sessions as they are, but for the picture of the one that was to see any: that is gone
/// where there is none.
pub proof fn law_failed_picture_changes_nothing(
    work: PixivWork,
    failure: DbFailure,
    headers: HeaderMap<HeaderValue>,
    query: Option<Seq<char>>,
    config: Config,
    before: SessionStore,
    after: SessionStore,
    now: u128,
    storage_name: Option<String>,
    random: Result<(String, Reply), AppError>,
    info: Result<Reply, AppError>,
    view: Result<LocatedFile, AppError>,
    id: Seq<char>,
    other: Seq<char>,
)
    ensures
        replies_random(work, Err(failure), headers, query, before, after, now, storage_name, random)
            ==> (random matches Err(e) && e.status_code == 500) && after == before,
        replies_info(work, Err(failure), headers, storage_name, info) ==> (info matches Err(e)
            && e.status_code == 500),
        finds_view(id, Err(failure), config, before, after, view) ==> (view matches Err(e)
            && e.status_code == 500) && after == before,
        finds_view(id, Ok(None), config, before, after, view) ==> {
            &&& view matches Err(e) && e.status_code == 404
            &&& after.sessions()[id].pixiv is None
            &&& after.sessions()[id].plus == before.sessions()[id].plus
            &&& after.sessions()[id].last_accessed == before.sessions()[id].last_accessed
            &&& after.last_cleanup() == before.last_cleanup()
            &&& other != id ==> (after.sessions().contains_key(other)
                <==> before.sessions().contains_key(other))
            &&& other != id && before.sessions().contains_key(other) ==> after.sessions()[other]
                == before.sessions()[other]
        },
{
}

/// The file of a picture that is seen is the one where the catalogue has it, whatever its
/// directory and its name; it is refused where that does not lie below the resources.
pub proof fn law_seen_file_is_that_of_row(
    id: Seq<char>,
    row: FileRow,
    dir: Seq<char>,
    name: Seq<char>,
    config: Config,
    before: SessionStore,
    after: SessionStore,
    r: Result<LocatedFile, AppError>,
)
    requires
        finds_view(id, Ok(Some(row)), config, before, after, r),
        opt_text(row.dir) == Some(dir) || row.dir is None && dir.len() == 0,
        opt_text(row.filename) == Some(name) || row.filename is None && name.len() == 0,
    ensures
        ({
            let path = media_path(config, MediaKind::Pixiv, dir, name);
            &&& r is Ok <==> path_under(path, config.resources@)
            &&& r matches Ok(file) ==> file.kind == MediaKind::Pixiv && file.path@ == path
            &&& r matches Ok(file) ==> row.filename is Some ==> file.filename@ == name
            &&& r matches Ok(file) ==> row.filename is None ==> file.filename@ == "unknown"@
            &&& r matches Err(e) ==> e.status_code == 403
        }),
        after.sessions()[id].pixiv == Some(row),
        after.sessions()[id].plus == before.sessions()[id].plus,
        after.sessions()[id].last_accessed == before.sessions()[id].last_accessed,
        after.last_cleanup() == before.last_cleanup(),
{
    reveal_strlit("");
    assert(""@ =~= Seq::<char>::empty());
    assert(dir =~= text_or(row.dir, ""@));
    assert(name =~= text_or(row.filename, ""@));
}

/// Whatever the name of the file is, what stands before its extension tells the picture
/// where it is made as the names of pictures are.
pub proof fn law_stem_tells_work(
    r: Result<PixivWork, AppError>,
    row: FileRow,
    filename: String,
    name: PixivName,
)
    requires
        is_work_of(r, row),
        row.filename == Some(filename),
        pixiv_name_ok(name),
        file_stem_of(filename@) == Some(pixiv_stem(name)),
    ensures
        r matches Ok(work) && work.row == row && work.parsed@ == name,
{
    law_pixiv_name_told(name);
}

/// Everything that is asked about pictures is asked about pictures only, and to see any picture
/// is to ask for any.
pub proof fn law_picture_questions(
    limiters: (RateLimiter, RateLimiter),
    views: (RateLimiter, RateLimiter),
    stores: (SessionStore, SessionStore),
    headers: HeaderMap<HeaderValue>,
    query: Option<Seq<char>>,
    config: Config,
    info: InfoQuery,
    now: u128,
    work: PixivWork,
    random: Result<Statement, AppError>,
    named: Result<Statement, AppError>,
    seen: Result<(String, Statement), AppError>,
    pages: Statement,
)
    ensures
        begins_random(limiters.0, limiters.1, now, random) ==> (random matches Ok(s) ==> is_about(
            s.sql@,
            "pixiv"@,
        ) && param_views(s.params@).len() == 0),
        begins_info(limiters.0, limiters.1, info, now, named) ==> (named matches Ok(s) ==> is_about(
            s.sql@,
            "pixiv"@,
        )),
        begins_view(headers, query, config, views, stores, now, seen) ==> (seen matches Ok((id, s))
            ==> is_about(s.sql@, "pixiv"@) && param_views(s.params@).len() == 0),
        begins_random(limiters.0, limiters.1, now, random) && begins_view(
            headers,
            query,
            config,
            views,
            stores,
            now,
            seen,
        ) && random is Ok && seen is Ok ==> (random->Ok_0).sql@ == (seen->Ok_0).1.sql@,
        work.has_pages_by(pages) ==> is_about(pages.sql@, "pixiv"@),
{
    lemma_questions_name_their_kind();
}

} // verus!
