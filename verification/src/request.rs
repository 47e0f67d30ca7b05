//! What a request says: who asks, from where, and for what.
use axum::http::{HeaderMap, HeaderValue};
use serde_json::Value;
use vstd::prelude::*;

use crate::config::Config;
use crate::error::AppError;
use crate::headers::{contains_header, has_header, header_text, lemma_header_names, opt_str};
use crate::headers::text_header;
use crate::json::{json_array, json_bool, json_content, json_contents, json_object, json_set};
use crate::json::{json_text, JsonView};
use crate::text::{begins_with, chars_of, find_char, opt_text, pieces, same_text};
use crate::text::{is_white, law_split_around, law_trimmed_between, lemma_index_from, split_on};
use crate::text::{law_white_is_trimmed, text_between, texts, trim_text, trimmed};
use crate::sessions::{is_random_uuid, is_small_hex};

verus! {

/// The parameters of a question for files.
#[derive(Clone, Debug)]
pub struct InfoQuery {
    pub list: Option<String>,
}

// ===================== Host =====================
/// What a text is; `default` where there is none.
pub open spec fn seq_or(s: Option<Seq<char>>, default: Seq<char>) -> Seq<char> {
    match s {
        Some(t) => t,
        None => default,
    }
}

/// The protocol that the visitor used: the first that a proxy names.
pub open spec fn request_proto(headers: HeaderMap<HeaderValue>) -> Seq<char> {
    match header_text(headers, "x-forwarded-proto"@) {
        Some(v) => trimmed(split_on(v, ',')[0]),
        None => "http"@,
    }
}

/// The host that the visitor asked: the one that a proxy names, else the one that is
/// asked here.
pub open spec fn request_host(headers: HeaderMap<HeaderValue>) -> Seq<char> {
    if has_header(headers, "x-forwarded-host"@) {
        seq_or(header_text(headers, "x-forwarded-host"@), "localhost"@)
    } else {
        seq_or(header_text(headers, "host"@), "localhost"@)
    }
}

/// What the links of an answer begin with.
pub open spec fn request_origin(headers: HeaderMap<HeaderValue>) -> Seq<char> {
    request_proto(headers) + "://"@ + request_host(headers)
}

/// What the links of an answer begin with.
pub fn get_host(headers: &HeaderMap<HeaderValue>) -> (r: String)
    ensures
        r@ == request_origin(*headers),
{
    proof {
        lemma_header_names();
    }
    let proto: String = match text_header(headers, "x-forwarded-proto") {
        Some(v) => {
            let x: Vec<char> = chars_of(v);
            let to: usize = find_char(&x, ',', 0);
            proof {
                lemma_index_from(x@, ',', 0);
                if to == x@.len() {
                    assert(x@.subrange(0, to as int) =~= x@);
                }
                assert(split_on(v@, ',')[0] == x@.subrange(0, to as int));
            }
            let first: String = text_between(&x, 0, to);
            trim_text(first.as_str())
        },
        None => "http".to_owned(),
    };
    let named: Option<&str> = if contains_header(headers, "x-forwarded-host") {
        text_header(headers, "x-forwarded-host")
    } else {
        text_header(headers, "host")
    };
    let host: &str = match named {
        Some(h) => h,
        None => "localhost",
    };
    proto.concat("://").concat(host)
}

// ===================== Referer =====================
/// The page that a request comes from is one that may ask.
pub open spec fn referer_allowed(
    referer: Option<Seq<char>>,
    allowed: Seq<Seq<char>>,
    allow_empty: bool,
) -> bool {
    match referer {
        None => allow_empty,
        Some(r) => allowed.len() == 0 || exists|i: int|
            0 <= i < allowed.len() && (#[trigger] allowed[i]).is_prefix_of(r),
    }
}

/// The page that the request comes from is one that may ask.
pub open spec fn request_allowed(headers: HeaderMap<HeaderValue>, config: Config) -> bool {
    referer_allowed(
        header_text(headers, "referer"@),
        texts(config.allowed_referers@),
        config.allow_empty_referer,
    )
}

/// Tells whether the page that the request comes from is one that may ask.
pub fn check_referer(headers: &HeaderMap<HeaderValue>, config: &Config) -> (r: bool)
    ensures
        r == request_allowed(*headers, *config),
{
    proof {
        lemma_header_names();
    }
    let ghost allowed = texts(config.allowed_referers@);
    match text_header(headers, "referer") {
        None => config.allow_empty_referer,
        Some(referer) => {
            if config.allowed_referers.len() == 0 {
                return true;
            }
            let mut i: usize = 0;
            while i < config.allowed_referers.len()
                invariant
                    i <= config.allowed_referers@.len(),
                    allowed == texts(config.allowed_referers@),
                    header_text(*headers, "referer"@) == Some(referer@),
                    forall|k: int| 0 <= k < i ==> !(#[trigger] allowed[k]).is_prefix_of(referer@),
                decreases config.allowed_referers@.len() - i,
            {
                if begins_with(referer, config.allowed_referers[i].as_str()) {
                    assert(allowed[i as int].is_prefix_of(referer@));
                    return true;
                }
                i = i + 1;
            }
            false
        },
    }
}

/// The texts in JSON.
pub open spec fn text_array(items: Seq<Seq<char>>) -> JsonView {
    JsonView::Array(items.map_values(|t: Seq<char>| JsonView::Text(t)))
}

/// The strings in JSON.
pub fn json_texts(items: &Vec<String>) -> (r: Value)
    ensures
        json_content(r) == text_array(texts(items@)),
{
    let mut values: Vec<Value> = Vec::new();
    let ghost all = texts(items@).map_values(|t: Seq<char>| JsonView::Text(t));
    let mut i: usize = 0;
    while i < items.len()
        invariant
            i <= items@.len(),
            all == texts(items@).map_values(|t: Seq<char>| JsonView::Text(t)),
            json_contents(values@) =~= all.take(i as int),
        decreases items@.len() - i,
    {
        let ghost before = values@;
        values.push(json_text(items[i].as_str()));
        assert(json_contents(values@) =~= json_contents(before).push(all[i as int]));
        i = i + 1;
    }
    assert(json_contents(values@) =~= all);
    json_array(values)
}

/// What is said of a request whose page may not ask.
pub open spec fn referer_details(headers: HeaderMap<HeaderValue>, config: Config) -> JsonView {
    JsonView::Object(
        Map::empty().insert(
            "referer"@,
            JsonView::Text(seq_or(header_text(headers, "referer"@), "空"@)),
        ).insert("allowedReferers"@, text_array(texts(config.allowed_referers@))).insert(
            "allowEmpty"@,
            JsonView::Bool(config.allow_empty_referer),
        ),
    )
}

/// Refuses the request where the page that it comes from is not one that may ask.
pub fn validate_referer(headers: &HeaderMap<HeaderValue>, config: &Config) -> (r: Result<
    (),
    AppError,
>)
    ensures
        r is Ok <==> request_allowed(*headers, *config),
        r matches Err(e) ==> e.says(
            403,
            "REFERER_FORBIDDEN"@,
            "访问被拒绝，请检查referer设置"@,
            referer_details(*headers, *config),
        ),
{
    if check_referer(headers, config) {
        return Ok(());
    }
    proof {
        lemma_header_names();
    }
    let referer: &str = match text_header(headers, "referer") {
        Some(v) => v,
        None => "空",
    };
    let mut details: Value = json_object();
    json_set(&mut details, "referer", json_text(referer));
    json_set(&mut details, "allowedReferers", json_texts(&config.allowed_referers));
    json_set(&mut details, "allowEmpty", json_bool(config.allow_empty_referer));
    Err(
        AppError::with_details(
            403,
            "REFERER_FORBIDDEN",
            "访问被拒绝，请检查referer设置",
            details,
        ),
    )
}

// ===================== Session =====================
/// What stands behind `sessionId=` in the first of the pieces, from `from` on, that
/// begins with it.
pub open spec fn session_in_pieces(cut: Seq<Seq<char>>, from: int) -> Option<Seq<char>>
    decreases cut.len() - from,
{
    if from >= cut.len() {
        None
    } else {
        let pair = trimmed(cut[from]);
        if "sessionId="@.is_prefix_of(pair) {
            Some(pair.subrange("sessionId="@.len() as int, pair.len() as int))
        } else {
            session_in_pieces(cut, from + 1)
        }
    }
}

/// The session that a cookie names.
pub open spec fn cookie_session(cookie: Seq<char>) -> Option<Seq<char>> {
    session_in_pieces(split_on(cookie, ';'), 0)
}

/// The session that a request names: in its query, else in a header of its own, else in
/// a cookie.
pub open spec fn request_session(
    headers: HeaderMap<HeaderValue>,
    query: Option<Seq<char>>,
) -> Option<Seq<char>> {
    match query {
        Some(id) => Some(id),
        None => match header_text(headers, "x-session-id"@) {
            Some(id) => Some(id),
            None => match header_text(headers, "cookie"@) {
                Some(cookie) => cookie_session(cookie),
                None => None,
            },
        },
    }
}

/// The session that a cookie names.
fn session_of_cookie(cookie: &str) -> (r: Option<String>)
    ensures
        opt_text(r) == cookie_session(cookie@),
{
    let cut: Vec<String> = pieces(cookie, ';');
    let ghost all = split_on(cookie@, ';');
    let mark: Vec<char> = chars_of("sessionId=");
    let mut i: usize = 0;
    while i < cut.len()
        invariant
            i <= cut@.len(),
            all == split_on(cookie@, ';'),
            texts(cut@) == all,
            mark@ == "sessionId="@,
            cookie_session(cookie@) == session_in_pieces(all, i as int),
        decreases cut@.len() - i,
    {
        assert(all[i as int] == cut@[i as int]@);
        let pair: String = trim_text(cut[i].as_str());
        if begins_with(pair.as_str(), "sessionId=") {
            let x: Vec<char> = chars_of(pair.as_str());
            return Some(text_between(&x, mark.len(), x.len()));
        }
        i = i + 1;
    }
    None
}

/// The session that a request names. `query` is the `sessionId` of its query.
pub fn get_session_id(headers: &HeaderMap<HeaderValue>, query: Option<&str>) -> (r: Option<String>)
    ensures
        opt_text(r) == request_session(*headers, opt_str(query)),
{
    proof {
        lemma_header_names();
    }
    if let Some(id) = query {
        return Some(id.to_owned());
    }
    if let Some(id) = text_header(headers, "x-session-id") {
        return Some(id.to_owned());
    }
    match text_header(headers, "cookie") {
        Some(cookie) => session_of_cookie(cookie),
        None => None,
    }
}

// ===================== Terms and types =====================
/// The term without the wildcards of a pattern.
pub open spec fn sanitized(term: Seq<char>) -> Seq<char> {
    term.filter(|c: char| c != '%' && c != '_')
}

/// The term without the wildcards of a pattern.
pub fn sanitize_search_term(term: &str) -> (r: String)
    ensures
        r@ == sanitized(term@),
{
    let x: Vec<char> = chars_of(term);
    let mut out: String = String::new();
    let ghost plain = |c: char| c != '%' && c != '_';
    let mut i: usize = 0;
    proof {
        reveal(Seq::filter);
        assert(out@ =~= x@.take(0).filter(plain));
    }
    while i < x.len()
        invariant
            i <= x@.len(),
            plain == (|c: char| c != '%' && c != '_'),
            out@ == x@.take(i as int).filter(plain),
        decreases x@.len() - i,
    {
        let c: char = x[i];
        proof {
            reveal(Seq::filter);
            assert(x@.take(i + 1).drop_last() =~= x@.take(i as int));
            assert(x@.take(i + 1).last() == c);
        }
        if c != '%' && c != '_' {
            out.push(c);
        }
        i = i + 1;
    }
    assert(x@.take(x@.len() as int) =~= x@);
    out
}

/// A term that was sanitized has no wildcards, and one that had none is left as it was.
pub proof fn law_sanitized_is_plain(term: Seq<char>)
    ensures
        !sanitized(term).contains('%'),
        !sanitized(term).contains('_'),
        !term.contains('%') && !term.contains('_') ==> sanitized(term) == term,
    decreases term.len(),
{
    reveal(Seq::filter);
    if term.len() > 0 {
        let rest = term.drop_last();
        law_sanitized_is_plain(rest);
        let s = sanitized(term);
        let t = sanitized(rest);
        assert forall|i: int| 0 <= i < s.len() implies s[i] != '%' && s[i] != '_' by {
            if i < t.len() {
                assert(t.contains(t[i]));
            }
        }
        if !term.contains('%') && !term.contains('_') {
            assert(term.contains(term.last()));
            assert forall|c: char| rest.contains(c) implies term.contains(c) by {
                let i = choose|i: int| 0 <= i < rest.len() && rest[i] == c;
                assert(term[i] == c);
            }
            assert(s =~= term);
        }
    }
}

/// The type of the contents of a picture, by the extension of its name.
pub open spec fn content_type(ext: Seq<char>) -> Seq<char> {
    if ext == ".jpg"@ || ext == ".jpeg"@ {
        "image/jpeg"@
    } else if ext == ".png"@ {
        "image/png"@
    } else if ext == ".gif"@ {
        "image/gif"@
    } else if ext == ".webp"@ {
        "image/webp"@
    } else {
        "image/jpeg"@
    }
}

/// The type of the contents of a picture, by the extension of its name.
pub fn content_type_for_ext(ext: &str) -> (r: &'static str)
    ensures
        r@ == content_type(ext@),
{
    if same_text(ext, ".jpg") || same_text(ext, ".jpeg") {
        "image/jpeg"
    } else if same_text(ext, ".png") {
        "image/png"
    } else if same_text(ext, ".gif") {
        "image/gif"
    } else if same_text(ext, ".webp") {
        "image/webp"
    } else {
        "image/jpeg"
    }
}

// ===================== Laws =====================
/// The request names no protocol of its own: the links of the answer begin with `http://`
/// and the host that was asked.
pub proof fn law_links_begin_with_host(headers: HeaderMap<HeaderValue>, host: Seq<char>)
    requires
        header_text(headers, "x-forwarded-proto"@) is None,
        if has_header(headers, "x-forwarded-host"@) {
            header_text(headers, "x-forwarded-host"@) == Some(host)
        } else {
            header_text(headers, "host"@) == Some(host)
        },
    ensures
        request_origin(headers) == "http://"@ + host,
{
    reveal_strlit("http");
    reveal_strlit("://");
    reveal_strlit("http://");
    assert("http://"@ =~= "http"@ + "://"@);
}

/// A request that a proxy handed on: the links of the answer begin with the first protocol
/// that the proxy names and the host.
pub proof fn law_links_begin_with_protocol(
    headers: HeaderMap<HeaderValue>,
    proto: Seq<char>,
    others: Seq<char>,
    host: Seq<char>,
)
    requires
        !proto.contains(','),
        proto.len() > 0,
        !is_white(proto[0]),
        !is_white(proto.last()),
        header_text(headers, "x-forwarded-proto"@) == Some(proto) || header_text(
            headers,
            "x-forwarded-proto"@,
        ) == Some(proto + seq![','] + others),
        if has_header(headers, "x-forwarded-host"@) {
            header_text(headers, "x-forwarded-host"@) == Some(host)
        } else {
            header_text(headers, "host"@) == Some(host)
        },
    ensures
        request_origin(headers) == proto + "://"@ + host,
{
    law_split_around(proto, others, ',');
    law_trimmed_between(seq![], proto, seq![]);
    assert(seq![] + proto + seq![] =~= proto);
    assert(split_on(proto, ',')[0] == proto);
    assert((split_on(proto, ',') + split_on(others, ','))[0] == proto);
}

/// A request that names no host that is text is answered with links to `localhost`.
pub proof fn law_links_begin_with_localhost(headers: HeaderMap<HeaderValue>)
    requires
        header_text(headers, "x-forwarded-proto"@) is None,
        header_text(headers, "x-forwarded-host"@) is None,
        has_header(headers, "x-forwarded-host"@) || header_text(headers, "host"@) is None,
    ensures
        request_origin(headers) == "http://localhost"@,
{
    reveal_strlit("http");
    reveal_strlit("://");
    reveal_strlit("localhost");
    reveal_strlit("http://localhost");
    assert("http://localhost"@ =~= "http"@ + "://"@ + "localhost"@);
}

/// A request that comes from no page may ask where that is allowed; one that comes from a
/// page may ask where every page may, or where the page begins with one that may, and only
/// there.
pub proof fn law_who_may_ask(
    headers: HeaderMap<HeaderValue>,
    config: Config,
    i: int,
    rest: Seq<char>,
)
    ensures
        header_text(headers, "referer"@) is None ==> request_allowed(headers, config)
            == config.allow_empty_referer,
        header_text(headers, "referer"@) is Some && config.allowed_referers@.len() == 0
            ==> request_allowed(headers, config),
        0 <= i < config.allowed_referers@.len() && header_text(headers, "referer"@) == Some(
            config.allowed_referers@[i]@ + rest,
        ) ==> request_allowed(headers, config),
        header_text(headers, "referer"@) is Some && config.allowed_referers@.len() > 0 && (forall|
            k: int,
            t: Seq<char>,
        |
            0 <= k < config.allowed_referers@.len() ==> header_text(headers, "referer"@)
                != Some(#[trigger] (config.allowed_referers@[k]@ + t))) ==> !request_allowed(
            headers,
            config,
        ),
{
    let allowed = texts(config.allowed_referers@);
    if 0 <= i < allowed.len() {
        let r = config.allowed_referers@[i]@ + rest;
        assert(r.subrange(0, allowed[i].len() as int) =~= allowed[i]);
    }
    if request_allowed(headers, config) && allowed.len() > 0 && header_text(
        headers,
        "referer"@,
    ) is Some {
        let r = header_text(headers, "referer"@)->0;
        let k = choose|k: int| 0 <= k < allowed.len() && (#[trigger] allowed[k]).is_prefix_of(r);
        let t = r.skip(allowed[k].len() as int);
        assert(r =~= config.allowed_referers@[k]@ + t) by {
            assert(r.subrange(0, allowed[k].len() as int) == allowed[k]);
        }
    }
}

/// The session in the query counts before the one in a header, and that before the one in a
/// cookie.
pub proof fn law_session_is_named_in_order(
    headers: HeaderMap<HeaderValue>,
    query: Option<Seq<char>>,
)
    ensures
        query is Some ==> request_session(headers, query) == query,
        query is None && header_text(headers, "x-session-id"@) is Some ==> request_session(
            headers,
            query,
        ) == header_text(headers, "x-session-id"@),
        query is None && header_text(headers, "x-session-id"@) is None && header_text(
            headers,
            "cookie"@,
        ) is None ==> request_session(headers, query) is None,
{
}

/// The id can stand in a cookie: it holds no `;` and does not end in white space.
pub open spec fn cookie_id(id: Seq<char>) -> bool {
    &&& !id.contains(';')
    &&& id.len() > 0 ==> !is_white(id.last())
}

/// The text of a random UUID can stand in a cookie.
pub proof fn law_uuid_is_cookie_id(id: Seq<char>)
    requires
        is_random_uuid(id),
    ensures
        cookie_id(id),
{
    if id.contains(';') {
        let k = choose|k: int| 0 <= k < id.len() && id[k] == ';';
        if k != 8 && k != 13 && k != 18 && k != 23 {
            assert(is_small_hex(id[k]));
        }
    }
    assert(is_small_hex(id[35]));
}

/// The first piece that names a session is the one that counts.
proof fn lemma_session_in_pieces(cut: Seq<Seq<char>>, from: int, at: int, id: Seq<char>)
    requires
        0 <= from <= at < cut.len(),
        forall|k: int|
            from <= k < at ==> !"sessionId="@.is_prefix_of(trimmed(#[trigger] cut[k])),
        trimmed(cut[at]) == "sessionId="@ + id,
    ensures
        session_in_pieces(cut, from) == Some(id),
    decreases at - from,
{
    let n = "sessionId="@.len() as int;
    if from < at {
        assert(!"sessionId="@.is_prefix_of(trimmed(cut[from])));
        lemma_session_in_pieces(cut, from + 1, at, id);
    } else {
        let pair = "sessionId="@ + id;
        assert(pair.subrange(0, n) =~= "sessionId="@);
        assert(pair.subrange(n, pair.len() as int) =~= id);
    }
}

/// A piece that names a session has no white space to lose but what stands before it.
proof fn lemma_pair_trimmed(space: Seq<char>, id: Seq<char>)
    requires
        cookie_id(id),
        forall|i: int| 0 <= i < space.len() ==> is_white(#[trigger] space[i]),
    ensures
        trimmed(space + ("sessionId="@ + id)) == "sessionId="@ + id,
        !("sessionId="@ + id).contains(';'),
{
    reveal_strlit("sessionId=");
    let mark = "sessionId="@;
    let pair = mark + id;
    assert(mark.len() == 10);
    assert(pair[0] == 's');
    if id.len() > 0 {
        assert(pair.last() == id.last());
    } else {
        assert(pair.last() == mark[9]);
    }
    law_trimmed_between(space, pair, seq![]);
    assert(space + pair + seq![] =~= space + pair);
    if pair.contains(';') {
        let k = choose|k: int| 0 <= k < pair.len() && pair[k] == ';';
        if k >= 10 {
            assert(id[k - 10] == ';');
            assert(id.contains(';'));
        }
    }
}

/// The pair that names a session is one piece of a cookie.
pub proof fn law_pair_is_one_piece(id: Seq<char>)
    requires
        cookie_id(id),
    ensures
        !("sessionId="@ + id).contains(';'),
{
    lemma_pair_trimmed(seq![], id);
}

/// A cookie that names a session, alone or with others behind it, names that session.
pub proof fn law_cookie_leads_back(id: Seq<char>, others: Seq<char>)
    requires
        cookie_id(id),
    ensures
        cookie_session("sessionId="@ + id) == Some(id),
        cookie_session("sessionId="@ + id + seq![';'] + others) == Some(id),
{
    let pair = "sessionId="@ + id;
    lemma_pair_trimmed(seq![], id);
    assert(seq![] + pair =~= pair);
    law_split_around(pair, others, ';');
    lemma_session_in_pieces(split_on(pair, ';'), 0, 0, id);
    lemma_session_in_pieces(split_on(pair + seq![';'] + others, ';'), 0, 0, id);
}

/// A cookie that names a session behind others that name none names that session.
pub proof fn law_cookie_leads_back_behind_others(
    others: Seq<char>,
    space: Seq<char>,
    id: Seq<char>,
)
    requires
        cookie_id(id),
        forall|i: int| 0 <= i < space.len() ==> is_white(#[trigger] space[i]),
        forall|k: int|
            0 <= k < split_on(others, ';').len() ==> !"sessionId="@.is_prefix_of(
                trimmed(#[trigger] split_on(others, ';')[k]),
            ),
    ensures
        cookie_session(others + seq![';'] + (space + ("sessionId="@ + id))) == Some(id),
{
    let pair = space + ("sessionId="@ + id);
    lemma_pair_trimmed(space, id);
    if pair.contains(';') {
        let k = choose|k: int| 0 <= k < pair.len() && pair[k] == ';';
        if k < space.len() {
            assert(is_white(space[k]));
        } else {
            assert(("sessionId="@ + id)[k - space.len()] == ';');
            assert(("sessionId="@ + id).contains(';'));
        }
    }
    law_split_around(others, pair, ';');
    law_split_around(pair, seq![], ';');
    let front = split_on(others, ';');
    let cut = front + seq![pair];
    assert(split_on(others + seq![';'] + pair, ';') =~= cut);
    assert forall|k: int| 0 <= k < front.len() implies !"sessionId="@.is_prefix_of(
        trimmed(#[trigger] cut[k]),
    ) by {
        assert(cut[k] == front[k]);
    }
    assert(cut[front.len() as int] == pair);
    lemma_session_in_pieces(cut, 0, front.len() as int, id);
}

/// A request with such a cookie, and no session in its query or in a header, names the
/// session of the cookie.
pub proof fn law_request_with_cookie(
    headers: HeaderMap<HeaderValue>,
    id: Seq<char>,
    others: Seq<char>,
)
    requires
        is_random_uuid(id),
        header_text(headers, "x-session-id"@) is None,
        header_text(headers, "cookie"@) == Some("sessionId="@ + id) || header_text(
            headers,
            "cookie"@,
        ) == Some("sessionId="@ + id + seq![';'] + others),
    ensures
        request_session(headers, None) == Some(id),
{
    law_uuid_is_cookie_id(id);
    law_cookie_leads_back(id, others);
}

/// A cookie in which no pair names a session names none.
pub proof fn law_other_cookies_name_none(cookie: Seq<char>)
    requires
        forall|k: int|
            0 <= k < split_on(cookie, ';').len() ==> !"sessionId="@.is_prefix_of(
                trimmed(#[trigger] split_on(cookie, ';')[k]),
            ),
    ensures
        cookie_session(cookie) is None,
{
    lemma_no_session(split_on(cookie, ';'), 0);
}

/// Where no piece names a session, none is named.
proof fn lemma_no_session(cut: Seq<Seq<char>>, from: int)
    requires
        0 <= from <= cut.len(),
        forall|k: int|
            from <= k < cut.len() ==> !"sessionId="@.is_prefix_of(trimmed(#[trigger] cut[k])),
    ensures
        session_in_pieces(cut, from) is None,
    decreases cut.len() - from,
{
    if from < cut.len() {
        assert(!"sessionId="@.is_prefix_of(trimmed(cut[from])));
        lemma_no_session(cut, from + 1);
    }
}

/// Sanitizing goes through a cut, leaves a wildcard out, and any other character as it is.
pub proof fn law_sanitized_by_characters(a: Seq<char>, b: Seq<char>, c: char)
    ensures
        sanitized(a + b) == sanitized(a) + sanitized(b),
        sanitized(seq![c]) == (if c == '%' || c == '_' {
            Seq::<char>::empty()
        } else {
            seq![c]
        }),
    decreases b.len(),
{
    reveal(Seq::filter);
    assert(seq![c].drop_last() =~= seq![]);
    assert(sanitized(seq![c].drop_last()) =~= seq![]);
    assert(sanitized(seq![c]) =~= (if c == '%' || c == '_' {
        Seq::<char>::empty()
    } else {
        seq![c]
    }));
    if b.len() == 0 {
        assert(a + b =~= a);
        assert(sanitized(b) =~= seq![]);
        assert(sanitized(a) + sanitized(b) =~= sanitized(a));
    } else {
        law_sanitized_by_characters(a, b.drop_last(), c);
        assert((a + b).drop_last() =~= a + b.drop_last());
        assert((a + b).last() == b.last());
        assert(sanitized(a + b) =~= sanitized(a) + sanitized(b));
    }
}

/// What is said of a request whose page may not ask is that page and who may.
pub proof fn law_referer_is_told(headers: HeaderMap<HeaderValue>, config: Config, i: int)
    ensures
        referer_details(headers, config) matches JsonView::Object(o) && {
            &&& header_text(headers, "referer"@) matches Some(r) ==> o.contains_pair(
                "referer"@,
                JsonView::Text(r),
            )
            &&& header_text(headers, "referer"@) is None ==> o.contains_pair(
                "referer"@,
                JsonView::Text("空"@),
            )
            &&& forall|key: Seq<char>| #[trigger]
                o.contains_key(key) ==> key == "referer"@ || key == "allowEmpty"@ || key
                    == "allowedReferers"@
            &&& o.contains_pair("allowEmpty"@, JsonView::Bool(config.allow_empty_referer))
            &&& o.contains_key("allowedReferers"@)
            &&& o["allowedReferers"@] matches JsonView::Array(a) && {
                &&& a.len() == config.allowed_referers@.len()
                &&& 0 <= i < a.len() ==> a[i] == JsonView::Text(config.allowed_referers@[i]@)
            }
        },
{
    reveal_strlit("referer");
    reveal_strlit("allowedReferers");
    reveal_strlit("allowEmpty");
    assert("referer"@.len() == 7 && "allowedReferers"@.len() == 15 && "allowEmpty"@.len() == 10);
}

/// What the links of an answer begin with is the protocol, `://` and the host. The protocol is
/// what stands before the first comma in the header of the proxy, without the white space
/// around it; the host is the one that the proxy names, where it names one at all.
pub proof fn law_links_begin_with(
    headers: HeaderMap<HeaderValue>,
    space: (Seq<char>, Seq<char>),
    proto: Seq<char>,
    others: Seq<char>,
    host: Seq<char>,
)
    requires
        forall|i: int| 0 <= i < space.0.len() ==> is_white(#[trigger] space.0[i]),
        forall|i: int| 0 <= i < space.1.len() ==> is_white(#[trigger] space.1[i]),
        !proto.contains(','),
        proto.len() > 0 ==> !is_white(proto[0]) && !is_white(proto.last()),
        match header_text(headers, "x-forwarded-proto"@) {
            Some(v) => {
                ||| v == space.0 + proto + space.1
                ||| v == space.0 + proto + space.1 + seq![','] + others
            },
            None => proto == "http"@,
        },
        has_header(headers, "x-forwarded-host"@) ==> (match header_text(
            headers,
            "x-forwarded-host"@,
        ) {
            Some(h) => host == h,
            None => host == "localhost"@,
        }),
        !has_header(headers, "x-forwarded-host"@) ==> (match header_text(headers, "host"@) {
            Some(h) => host == h,
            None => host == "localhost"@,
        }),
    ensures
        request_origin(headers) == proto + "://"@ + host,
{
    if let Some(v) = header_text(headers, "x-forwarded-proto"@) {
        let first = space.0 + proto + space.1;
        if first.contains(',') {
            let k = choose|k: int| 0 <= k < first.len() && first[k] == ',';
            if k < space.0.len() {
                assert(is_white(space.0[k]));
            } else if k < space.0.len() + proto.len() {
                assert(proto[k - space.0.len()] == ',');
            } else {
                assert(is_white(space.1[k - space.0.len() - proto.len()]));
            }
        }
        law_split_around(first, others, ',');
        assert(split_on(v, ',')[0] == first);
        if proto.len() > 0 {
            law_trimmed_between(space.0, proto, space.1);
        } else {
            assert forall|i: int| 0 <= i < first.len() implies is_white(#[trigger] first[i]) by {
                if i < space.0.len() {
                    assert(is_white(space.0[i]));
                } else {
                    assert(is_white(space.1[i - space.0.len()]));
                }
            }
            law_white_is_trimmed(first);
            assert(trimmed(first) =~= proto);
        }
    }
}

/// Pictures have four types, each by its extension; any other extension is taken for that of
/// the first.
pub proof fn law_types_of_pictures(ext: Seq<char>)
    ensures
        content_type(ext) == "image/png"@ <==> ext == ".png"@,
        content_type(ext) == "image/gif"@ <==> ext == ".gif"@,
        content_type(ext) == "image/webp"@ <==> ext == ".webp"@,
        ext != ".png"@ && ext != ".gif"@ && ext != ".webp"@ ==> content_type(ext) == "image/jpeg"@,
{
    reveal_strlit(".jpg");
    reveal_strlit(".jpeg");
    reveal_strlit(".png");
    reveal_strlit(".gif");
    reveal_strlit(".webp");
    reveal_strlit("image/jpeg");
    reveal_strlit("image/png");
    reveal_strlit("image/gif");
    reveal_strlit("image/webp");
    assert("image/jpeg"@[6] == 'j' && "image/png"@[6] == 'p');
    assert("image/gif"@[6] == 'g' && "image/webp"@[6] == 'w');
    assert(".jpg"@[1] == 'j' && ".jpeg"@[1] == 'j' && ".png"@[1] == 'p');
    assert(".gif"@[1] == 'g' && ".webp"@[1] == 'w');
}

} // verus!
