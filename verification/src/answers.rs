//! Answers that several requests share.
use axum::http::{HeaderMap, HeaderValue};
use serde_json::Value;
use vstd::prelude::*;

use crate::config::Config;
use crate::error::AppError;
use crate::json::{json_content, json_object, json_set, json_text, JsonView};
use crate::request::referer_details;

verus! {

/// No details.
pub open spec fn no_details() -> JsonView {
    JsonView::Object(Map::empty())
}

/// The answer where the database could not answer.
pub open spec fn is_db_error(e: AppError) -> bool {
    e.says(500, "DB_ERROR"@, "数据库查询失败"@, no_details())
}

/// The answer where a file is not there.
pub open spec fn is_not_found(e: AppError) -> bool {
    e.says(404, "RESOURCE_NOT_FOUND"@, "请求的资源不存在"@, no_details())
}

/// The answer where the page that a request comes from may not ask.
pub open spec fn is_referer_error(
    e: AppError,
    headers: HeaderMap<HeaderValue>,
    config: Config,
) -> bool {
    e.says(
        403,
        "REFERER_FORBIDDEN"@,
        "访问被拒绝，请检查referer设置"@,
        referer_details(headers, config),
    )
}

/// The answer where no name of a file is given.
pub open spec fn is_missing_name(e: AppError) -> bool {
    e.says(400, "MISSING_FILENAME"@, "缺少文件名参数"@, no_details())
}

/// The answer where the database could not answer.
pub fn db_error() -> (r: AppError)
    ensures
        is_db_error(r),
{
    AppError::new(500, "DB_ERROR", "数据库查询失败")
}

/// The answer where a file is not there.
pub fn not_found() -> (r: AppError)
    ensures
        is_not_found(r),
{
    AppError::new(404, "RESOURCE_NOT_FOUND", "请求的资源不存在")
}

/// What is said of a request without a term to search for.
pub open spec fn missing_details(description: Seq<char>) -> JsonView {
    JsonView::Object(
        Map::empty().insert("parameter"@, JsonView::Text("list"@)).insert(
            "description"@,
            JsonView::Text(description),
        ),
    )
}

/// The answer to a request without a term to search for.
pub open spec fn is_missing_list(e: AppError, description: Seq<char>) -> bool {
    e.says(400, "MISSING_PARAMETER"@, "缺少必要参数"@, missing_details(description))
}

/// The answer to a request without a term to search for.
pub fn missing_list(description: &str) -> (r: AppError)
    ensures
        is_missing_list(r, description@),
{
    let mut details: Value = json_object();
    json_set(&mut details, "parameter", json_text("list"));
    json_set(&mut details, "description", json_text(description));
    AppError::with_details(400, "MISSING_PARAMETER", "缺少必要参数", details)
}

/// What is said of a term that finds nothing.
pub open spec fn query_details(list: Seq<char>) -> JsonView {
    JsonView::Object(Map::empty().insert("query"@, JsonView::Text(list)))
}

/// What is said of a term that finds nothing.
pub fn json_query(list: &str) -> (r: Value)
    ensures
        json_content(r) == query_details(list@),
{
    let mut details: Value = json_object();
    json_set(&mut details, "query", json_text(list));
    details
}

/// The answer to a request for a page that there is not.
pub fn endpoint_not_found() -> (r: AppError)
    ensures
        r.says(404, "ENDPOINT_NOT_FOUND"@, "接口不存在"@, no_details()),
{
    AppError::with_details(404, "ENDPOINT_NOT_FOUND", "接口不存在", json_object())
}

// ===================== Laws =====================
/// What is said of a term that finds nothing is the term; of a parameter that is missing its
/// name and what it is for.
pub proof fn law_details_are_told(list: Seq<char>, description: Seq<char>)
    ensures
        query_details(list) matches JsonView::Object(o) && o.contains_pair(
            "query"@,
            JsonView::Text(list),
        ),
        missing_details(description) matches JsonView::Object(o) && {
            &&& o.contains_pair("parameter"@, JsonView::Text("list"@))
            &&& o.contains_pair("description"@, JsonView::Text(description))
        },
        no_details() matches JsonView::Object(o) && o.dom() =~= Set::empty(),
{
    reveal_strlit("parameter");
    reveal_strlit("description");
    assert("parameter"@.len() == 9 && "description"@.len() == 11);
}

/// The answers that several requests share have the status that says what is wrong.
pub proof fn law_answers_have_status(e: AppError, headers: HeaderMap<HeaderValue>, config: Config)
    ensures
        is_db_error(e) ==> e.status_code == 500 && e.error_code@ == "DB_ERROR"@,
        is_not_found(e) ==> e.status_code == 404 && e.error_code@ == "RESOURCE_NOT_FOUND"@,
        is_missing_name(e) ==> e.status_code == 400 && e.error_code@ == "MISSING_FILENAME"@,
        is_referer_error(e, headers, config) ==> e.status_code == 403 && e.error_code@
            == "REFERER_FORBIDDEN"@,
{
}

/// The answer to a request without a term says which parameter is missing and what it is for.
pub proof fn law_missing_list_is_told(e: AppError, description: Seq<char>)
    requires
        is_missing_list(e, description),
    ensures
        e.status_code == 400,
        e.error_code@ == "MISSING_PARAMETER"@,
        json_content(e.details) matches JsonView::Object(o) && {
            &&& o.contains_pair("parameter"@, JsonView::Text("list"@))
            &&& o.contains_pair("description"@, JsonView::Text(description))
            &&& forall|key: Seq<char>| #[trigger]
                o.contains_key(key) ==> key == "parameter"@ || key == "description"@
        },
{
    law_details_are_told(seq![], description);
}

} // verus!
