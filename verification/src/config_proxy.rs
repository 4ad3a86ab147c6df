//! The client-config proxy: the request line and headers it accepts, the
//! responses it writes, and the rewrite that points a client config at the
//! local chat proxy.
use vstd::prelude::*;

use std::sync::atomic::Ordering;

use base64::Engine;
use vstd::utf8::{decode_utf8, encode_utf8, valid_utf8};

use crate::json::{
    as_bool, as_str, as_u64, get, get_str, json_view, lemma_members_view_index, lemma_members_view_len, member,
    member_index, members_view, json_parse, json_serialize, opt_json_view, parse_json, serialize_json, JsonNumber,
    JsonValue, JsonView, NumberView,
};
use crate::encoding::b64_url_decode_spec;
use crate::models::LogLevel;

use crate::text::{
    after_char, before_char, chars_of, concat2, decimal, decimal_string, contains_char, eq_ignore_ascii_case, eq_ignore_case,
    find_char_from, has_char, lemma_after_char_shorter, lemma_no_char, lemma_split_at_first_char,
    lower_seq, lowercase, match_at, parse_u16, parse_u16_str, push_str, seq_eq, slice_vec, split_once_char, split_whitespace,
    starts_with, string_of, trim, trim_str, trim_vec, words,
};

verus! {

/// Host name that resolves to the local machine and stands in for Riot's chat servers.
pub const LOCALHOST_DOMAIN: &'static str = "deceive-localhost.molenzwiebel.xyz";

/// Origin of Riot's client configuration service.
pub const CONFIG_URL: &'static str = "https://clientconfig.rpg.riotgames.com";

/// Host of Riot's client configuration service.
pub const CONFIG_HOST: &'static str = "clientconfig.rpg.riotgames.com";

/// Largest request head the proxy reads before it answers 431.
pub const MAX_HEADER_BYTES: usize = 64 * 1024;

pub const JSON_CONTENT_TYPE: &'static str = "application/json";

pub const TEXT_CONTENT_TYPE: &'static str = "text/plain; charset=utf-8";

/// Why a config request was refused.
#[derive(Debug)]
pub enum ConfigError {
    InvalidUtf8,
    EmptyRequest,
    MalformedRequestLine,
    UnsupportedMethod(String),
    FragmentTarget(String),
    SchemeRelativeTarget(String),
    UnsupportedTarget(String),
    MalformedAbsoluteTarget(String),
    MissingHost,
    UnsupportedHost(String),
    UserInfo,
    MissingPath,
    UnsupportedPath(String),
}

pub enum ConfigErrorView {
    InvalidUtf8,
    EmptyRequest,
    MalformedRequestLine,
    UnsupportedMethod(Seq<char>),
    FragmentTarget(Seq<char>),
    SchemeRelativeTarget(Seq<char>),
    UnsupportedTarget(Seq<char>),
    MalformedAbsoluteTarget(Seq<char>),
    MissingHost,
    UnsupportedHost(Seq<char>),
    UserInfo,
    MissingPath,
    UnsupportedPath(Seq<char>),
}

impl View for ConfigError {
    type V = ConfigErrorView;

    open spec fn view(&self) -> ConfigErrorView {
        match self {
            ConfigError::InvalidUtf8 => ConfigErrorView::InvalidUtf8,
            ConfigError::EmptyRequest => ConfigErrorView::EmptyRequest,
            ConfigError::MalformedRequestLine => ConfigErrorView::MalformedRequestLine,
            ConfigError::UnsupportedMethod(s) => ConfigErrorView::UnsupportedMethod(s@),
            ConfigError::FragmentTarget(s) => ConfigErrorView::FragmentTarget(s@),
            ConfigError::SchemeRelativeTarget(s) => ConfigErrorView::SchemeRelativeTarget(s@),
            ConfigError::UnsupportedTarget(s) => ConfigErrorView::UnsupportedTarget(s@),
            ConfigError::MalformedAbsoluteTarget(s) => ConfigErrorView::MalformedAbsoluteTarget(s@),
            ConfigError::MissingHost => ConfigErrorView::MissingHost,
            ConfigError::UnsupportedHost(s) => ConfigErrorView::UnsupportedHost(s@),
            ConfigError::UserInfo => ConfigErrorView::UserInfo,
            ConfigError::MissingPath => ConfigErrorView::MissingPath,
            ConfigError::UnsupportedPath(s) => ConfigErrorView::UnsupportedPath(s@),
        }
    }
}

/// The text of an error, as the proxy logs it.
pub open spec fn error_message(e: ConfigErrorView) -> Seq<char> {
    match e {
        ConfigErrorView::InvalidUtf8 => "Config proxy request headers are not valid UTF-8"@,
        ConfigErrorView::EmptyRequest => "Empty HTTP request"@,
        ConfigErrorView::MalformedRequestLine => "Malformed HTTP request line"@,
        ConfigErrorView::UnsupportedMethod(m) => "Unsupported config proxy method: "@ + m,
        ConfigErrorView::FragmentTarget(t) => "Unsupported config proxy request target with fragment: "@
            + t,
        ConfigErrorView::SchemeRelativeTarget(t) => "Unsupported config proxy scheme-relative target: "@
            + t,
        ConfigErrorView::UnsupportedTarget(t) => "Unsupported config proxy request target: "@ + t,
        ConfigErrorView::MalformedAbsoluteTarget(t) => "Malformed absolute config proxy request target: "@
            + t,
        ConfigErrorView::MissingHost => "Absolute config proxy request target has no host"@,
        ConfigErrorView::UnsupportedHost(h) => "Unsupported config proxy request host: "@ + h,
        ConfigErrorView::UserInfo => "Absolute config proxy request target cannot include userinfo"@,
        ConfigErrorView::MissingPath => "Absolute config proxy request target has no path"@,
        ConfigErrorView::UnsupportedPath(r) => "Unsupported config proxy path: "@ + r,
    }
}

impl ConfigError {
    /// The text of the error.
    pub fn message(&self) -> (r: String)
        ensures
            r@ == error_message(self@),
    {
        match self {
            ConfigError::InvalidUtf8 => "Config proxy request headers are not valid UTF-8".to_owned(),
            ConfigError::EmptyRequest => "Empty HTTP request".to_owned(),
            ConfigError::MalformedRequestLine => "Malformed HTTP request line".to_owned(),
            ConfigError::UnsupportedMethod(m) => concat2(
                "Unsupported config proxy method: ",
                m.as_str(),
            ),
            ConfigError::FragmentTarget(t) => concat2(
                "Unsupported config proxy request target with fragment: ",
                t.as_str(),
            ),
            ConfigError::SchemeRelativeTarget(t) => concat2(
                "Unsupported config proxy scheme-relative target: ",
                t.as_str(),
            ),
            ConfigError::UnsupportedTarget(t) => concat2(
                "Unsupported config proxy request target: ",
                t.as_str(),
            ),
            ConfigError::MalformedAbsoluteTarget(t) => concat2(
                "Malformed absolute config proxy request target: ",
                t.as_str(),
            ),
            ConfigError::MissingHost => "Absolute config proxy request target has no host".to_owned(),
            ConfigError::UnsupportedHost(h) => concat2(
                "Unsupported config proxy request host: ",
                h.as_str(),
            ),
            ConfigError::UserInfo => "Absolute config proxy request target cannot include userinfo".to_owned(),
            ConfigError::MissingPath => "Absolute config proxy request target has no path".to_owned(),
            ConfigError::UnsupportedPath(r) => concat2("Unsupported config proxy path: ", r.as_str()),
        }
    }
}

/// A path result, by views.
pub open spec fn path_result(r: Result<String, ConfigError>) -> Result<Seq<char>, ConfigErrorView> {
    match r {
        Ok(s) => Ok(s@),
        Err(e) => Err(e@),
    }
}

// ---------------------------------------------------------------------------
// The request line
// ---------------------------------------------------------------------------

/// The HTTP versions the proxy accepts on a request line.
pub open spec fn valid_http_version_spec(v: Seq<char>) -> bool {
    v == "HTTP/1.0"@ || v == "HTTP/1.1"@ || v == "HTTP/2"@ || v == "HTTP/2.0"@
}

pub fn valid_http_version(version: &[char]) -> (r: bool)
    ensures
        r == valid_http_version_spec(version@),
{
    let a = chars_of("HTTP/1.0");
    let b = chars_of("HTTP/1.1");
    let c = chars_of("HTTP/2");
    let d = chars_of("HTTP/2.0");
    seq_eq(version, a.as_slice()) || seq_eq(version, b.as_slice()) || seq_eq(version, c.as_slice())
        || seq_eq(version, d.as_slice())
}

/// A config path is served when its route (the part before `?`) is the
/// player or the public configuration.
pub open spec fn allowed_config_path_spec(path: Seq<char>) -> Result<Seq<char>, ConfigErrorView> {
    let route = before_char(path, '?');
    if route == "/api/v1/config/player"@ || route == "/api/v1/config/public"@ {
        Ok(path)
    } else {
        Err(ConfigErrorView::UnsupportedPath(route))
    }
}

pub fn allowed_config_path(path: &[char]) -> (r: Result<String, ConfigError>)
    ensures
        path_result(r) == allowed_config_path_spec(path@),
{
    let route = match split_once_char(path, '?') {
        Some((route, _)) => route,
        None => slice_all(path),
    };
    let player = chars_of("/api/v1/config/player");
    let public = chars_of("/api/v1/config/public");
    if seq_eq(route.as_slice(), player.as_slice()) || seq_eq(route.as_slice(), public.as_slice()) {
        Ok(string_of(path))
    } else {
        Err(ConfigError::UnsupportedPath(string_of(route.as_slice())))
    }
}

fn slice_all(v: &[char]) -> (r: Vec<char>)
    ensures
        r@ == v@,
{
    let r = crate::text::slice_vec(v, 0, v.len());
    assert(v@.subrange(0, v@.len() as int) =~= v@);
    r
}

/// The parts of an absolute URL that decide whether it names a served config.
#[derive(Debug, Clone)]
pub struct UrlParts {
    pub host: Option<String>,
    pub username: String,
    pub password: Option<String>,
    pub path: String,
    pub query: Option<String>,
}

pub struct UrlView {
    pub host: Option<Seq<char>>,
    pub username: Seq<char>,
    pub password: Option<Seq<char>>,
    pub path: Seq<char>,
    pub query: Option<Seq<char>>,
}

pub open spec fn opt_chars(o: Option<String>) -> Option<Seq<char>> {
    match o {
        Some(s) => Some(s@),
        None => None,
    }
}

impl View for UrlParts {
    type V = UrlView;

    open spec fn view(&self) -> UrlView {
        UrlView {
            host: opt_chars(self.host),
            username: self.username@,
            password: opt_chars(self.password),
            path: self.path@,
            query: opt_chars(self.query),
        }
    }
}

pub open spec fn opt_url_view(o: Option<UrlParts>) -> Option<UrlView> {
    match o {
        Some(u) => Some(u@),
        None => None,
    }
}

/// What `url::Url::parse` makes of a text, as the parts above; `None` where
/// it refuses the text.
pub uninterp spec fn url_parse(input: Seq<char>) -> Option<UrlView>;

/// Calls `url::Url::parse` (the `Url` that reqwest re-exports) and reads back
/// `host_str`, `username`, `password`, `path` and `query`. The contract claims
/// only that the result is a function of the text, named `url_parse`.
#[verifier::external_body]
fn parse_url(input: &str) -> (r: Option<UrlParts>)
    ensures
        opt_url_view(r) == url_parse(input@),
{
    match reqwest::Url::parse(input) {
        Ok(url) => Some(
            UrlParts {
                host: url.host_str().map(str::to_owned),
                username: url.username().to_owned(),
                password: url.password().map(str::to_owned),
                path: url.path().to_owned(),
                query: url.query().map(str::to_owned),
            },
        ),
        Err(_) => None,
    }
}

/// The path and query of a URL, joined by `?` when there is a query.
pub open spec fn with_query(path: Seq<char>, query: Option<Seq<char>>) -> Seq<char> {
    match query {
        Some(q) => path + "?"@ + q,
        None => path,
    }
}

/// Which config an absolute request target names: it must be on the config
/// host, carry no user info, and name a path.
pub open spec fn url_config_path_spec(u: UrlView) -> Result<Seq<char>, ConfigErrorView> {
    match u.host {
        None => Err(ConfigErrorView::MissingHost),
        Some(h) => if !eq_ignore_case(h, CONFIG_HOST@) {
            Err(ConfigErrorView::UnsupportedHost(h))
        } else if u.username.len() > 0 || u.password is Some {
            Err(ConfigErrorView::UserInfo)
        } else if u.path == "/"@ && u.query is None {
            Err(ConfigErrorView::MissingPath)
        } else {
            allowed_config_path_spec(with_query(u.path, u.query))
        },
    }
}

/// The config path named by a parsed absolute URL.
pub fn config_path_from_url(url: &UrlParts) -> (r: Result<String, ConfigError>)
    ensures
        path_result(r) == url_config_path_spec(url@),
{
    let host = match &url.host {
        Some(h) => h,
        None => return Err(ConfigError::MissingHost),
    };
    let hv = chars_of(host.as_str());
    let cv = chars_of(CONFIG_HOST);
    if !eq_ignore_ascii_case(hv.as_slice(), cv.as_slice()) {
        return Err(ConfigError::UnsupportedHost(host.clone()));
    }
    let user = chars_of(url.username.as_str());
    if user.len() > 0 || url.password.is_some() {
        return Err(ConfigError::UserInfo);
    }
    let pv = chars_of(url.path.as_str());
    let root = chars_of("/");
    if seq_eq(pv.as_slice(), root.as_slice()) && url.query.is_none() {
        return Err(ConfigError::MissingPath);
    }
    let mut path = url.path.clone();
    proof {
        assert(path@ == url.path@);
    }
    match &url.query {
        Some(q) => {
            push_str(&mut path, "?");
            push_str(&mut path, q.as_str());
        },
        None => {},
    }
    let full = chars_of(path.as_str());
    allowed_config_path(full.as_slice())
}

/// The config path named by an absolute request target.
pub fn absolute_request_path(target: &str) -> (r: Result<String, ConfigError>)
    ensures
        path_result(r) == match url_parse(target@) {
            None => Err(ConfigErrorView::MalformedAbsoluteTarget(target@)),
            Some(u) => url_config_path_spec(u),
        },
{
    match parse_url(target) {
        Some(url) => config_path_from_url(&url),
        None => Err(ConfigError::MalformedAbsoluteTarget(target.to_owned())),
    }
}

/// What the proxy makes of a request line: the config path it forwards, or
/// why it refuses the request.
pub open spec fn request_path_spec(line: Seq<char>) -> Result<Seq<char>, ConfigErrorView> {
    let w = words(line);
    if w.len() != 3 || !valid_http_version_spec(w[2]) {
        Err(ConfigErrorView::MalformedRequestLine)
    } else if !eq_ignore_case(w[0], "GET"@) {
        Err(ConfigErrorView::UnsupportedMethod(w[0]))
    } else if contains_char(w[1], '#') {
        Err(ConfigErrorView::FragmentTarget(w[1]))
    } else if starts_with(w[1], "/"@) {
        if starts_with(w[1], "//"@) {
            Err(ConfigErrorView::SchemeRelativeTarget(w[1]))
        } else {
            allowed_config_path_spec(w[1])
        }
    } else if !starts_with(w[1], "http://"@) && !starts_with(w[1], "https://"@) {
        Err(ConfigErrorView::UnsupportedTarget(w[1]))
    } else {
        match url_parse(w[1]) {
            None => Err(ConfigErrorView::MalformedAbsoluteTarget(w[1])),
            Some(u) => url_config_path_spec(u),
        }
    }
}

/// A request line the proxy accepts is a `GET` (any case) of an origin-form
/// target (`/` but not `//`) or an `http://`/`https://` one on the config
/// host without user info, with no fragment and a known HTTP version, and
/// what it forwards names the player or the public config.
pub proof fn lemma_accepted_request_line(line: Seq<char>)
    requires
        request_path_spec(line) is Ok,
    ensures
        ({
            let w = words(line);
            let p = request_path_spec(line)->Ok_0;
            &&& w.len() == 3
            &&& valid_http_version_spec(w[2])
            &&& eq_ignore_case(w[0], "GET"@)
            &&& !contains_char(w[1], '#')
            &&& (starts_with(w[1], "/"@) && !starts_with(w[1], "//"@) && p == w[1]) || starts_with(
                w[1],
                "http://"@,
            ) || starts_with(w[1], "https://"@)
            &&& before_char(p, '?') == "/api/v1/config/player"@ || before_char(p, '?')
                == "/api/v1/config/public"@
            &&& !starts_with(w[1], "/"@) ==> (url_parse(w[1]) matches Some(u) && u.host matches Some(h)
                && eq_ignore_case(h, CONFIG_HOST@) && u.username.len() == 0 && u.password is None)
        }),
{
    let w = words(line);
    if !starts_with(w[1], "/"@) {
        let u = url_parse(w[1])->0;
        assert(url_config_path_spec(u) is Ok);
        assert(allowed_config_path_spec(with_query(u.path, u.query)) is Ok);
    }
}

/// The config path of an HTTP request line such as
/// `GET /api/v1/config/player?region=NA HTTP/1.1`.
pub fn request_path(first_line: &str) -> (r: Result<String, ConfigError>)
    ensures
        path_result(r) == request_path_spec(first_line@),
{
    let line = chars_of(first_line);
    let parts = split_whitespace(line.as_slice());
    proof {
        assert(parts@.map_values(|w: Vec<char>| w@).len() == parts@.len());
    }
    if parts.len() != 3 {
        return Err(ConfigError::MalformedRequestLine);
    }
    let method = &parts[0];
    let target = &parts[1];
    let version = &parts[2];
    proof {
        let ws = parts@.map_values(|w: Vec<char>| w@);
        assert(ws[0] == method@);
        assert(ws[1] == target@);
        assert(ws[2] == version@);
    }
    if !valid_http_version(version.as_slice()) {
        return Err(ConfigError::MalformedRequestLine);
    }
    let get = chars_of("GET");
    if !eq_ignore_ascii_case(method.as_slice(), get.as_slice()) {
        return Err(ConfigError::UnsupportedMethod(string_of(method.as_slice())));
    }
    if has_char(target.as_slice(), '#') {
        return Err(ConfigError::FragmentTarget(string_of(target.as_slice())));
    }
    let slash = chars_of("/");
    if match_at(target.as_slice(), slash.as_slice(), 0) {
        let double = chars_of("//");
        if match_at(target.as_slice(), double.as_slice(), 0) {
            return Err(ConfigError::SchemeRelativeTarget(string_of(target.as_slice())));
        }
        return allowed_config_path(target.as_slice());
    }
    let http = chars_of("http://");
    let https = chars_of("https://");
    if !match_at(target.as_slice(), http.as_slice(), 0) && !match_at(
        target.as_slice(),
        https.as_slice(),
        0,
    ) {
        return Err(ConfigError::UnsupportedTarget(string_of(target.as_slice())));
    }
    let t = string_of(target.as_slice());
    absolute_request_path(t.as_str())
}

// ---------------------------------------------------------------------------
// Reading the request head
// ---------------------------------------------------------------------------

/// Whether `b[i..i + 4]` is `\r\n\r\n`, the blank line that ends a request head.
pub open spec fn is_head_end_at(b: Seq<u8>, i: int) -> bool {
    &&& 0 <= i
    &&& i + 4 <= b.len()
    &&& b[i] == 13u8
    &&& b[i + 1] == 10u8
    &&& b[i + 2] == 13u8
    &&& b[i + 3] == 10u8
}

/// The length of the request head in `bytes`: the end of the first `\r\n\r\n`.
pub fn header_end(bytes: &[u8]) -> (r: Option<usize>)
    ensures
        match r {
            Some(e) => 4 <= e <= bytes@.len() && is_head_end_at(bytes@, e - 4) && forall|k: int|
                0 <= k < e - 4 ==> !is_head_end_at(bytes@, k),
            None => forall|k: int| !is_head_end_at(bytes@, k),
        },
{
    let n = bytes.len();
    let mut i: usize = 0;
    while i < n && n - i >= 4
        invariant
            n == bytes@.len(),
            forall|k: int| 0 <= k < i ==> !is_head_end_at(bytes@, k),
        decreases n - i,
    {
        if bytes[i] == 13u8 && bytes[i + 1] == 10u8 && bytes[i + 2] == 13u8 && bytes[i + 3] == 10u8 {
            return Some(i + 4);
        }
        i += 1;
    }
    None
}

/// Where reading a request head stands after one more chunk of input.
#[derive(Debug)]
pub enum HeadProgress {
    /// No blank line yet; read on.
    NeedMore,
    /// The head, up to and including its first blank line.
    Complete(Vec<u8>),
    /// More than `MAX_HEADER_BYTES` bytes without a blank line.
    TooLarge,
    /// The input ended before the head did.
    Incomplete,
}

fn append_bytes(v: &mut Vec<u8>, b: &[u8])
    ensures
        final(v)@ == old(v)@ + b@,
{
    let mut i: usize = 0;
    while i < b.len()
        invariant
            i <= b@.len(),
            v@ == old(v)@ + b@.take(i as int),
        decreases b@.len() - i,
    {
        v.push(b[i]);
        assert(b@.take(i + 1) =~= b@.take(i as int).push(b@[i as int]));
        assert(old(v)@ + b@.take(i + 1) =~= (old(v)@ + b@.take(i as int)).push(b@[i as int]));
        i += 1;
    }
    assert(b@.take(b@.len() as int) =~= b@);
}

/// Adds one chunk read from the client to the bytes read so far. An empty
/// chunk is the end of the input. Once more than `MAX_HEADER_BYTES` bytes
/// have come without a blank line the head is too large; once the bytes hold
/// a blank line, the head is everything up to and including the first one.
pub fn push_head_chunk(bytes: &mut Vec<u8>, chunk: &[u8]) -> (r: HeadProgress)
    ensures
        chunk@.len() == 0 ==> r is Incomplete && final(bytes)@ == old(bytes)@,
        chunk@.len() > 0 ==> final(bytes)@ == old(bytes)@ + chunk@,
        chunk@.len() > 0 && final(bytes)@.len() > MAX_HEADER_BYTES ==> r is TooLarge,
        chunk@.len() > 0 && final(bytes)@.len() <= MAX_HEADER_BYTES ==> match r {
            HeadProgress::Complete(head) => 4 <= head@.len() <= final(bytes)@.len() && head@
                == final(bytes)@.take(head@.len() as int) && is_head_end_at(
                final(bytes)@,
                head@.len() - 4,
            ) && forall|k: int| 0 <= k < head@.len() - 4 ==> !is_head_end_at(final(bytes)@, k),
            HeadProgress::NeedMore => forall|k: int| !is_head_end_at(final(bytes)@, k),
            _ => false,
        },
{
    if chunk.len() == 0 {
        return HeadProgress::Incomplete;
    }
    append_bytes(bytes, chunk);
    if bytes.len() > MAX_HEADER_BYTES {
        return HeadProgress::TooLarge;
    }
    match header_end(bytes.as_slice()) {
        Some(end) => {
            let head = slice_bytes(bytes.as_slice(), end);
            HeadProgress::Complete(head)
        },
        None => HeadProgress::NeedMore,
    }
}

fn slice_bytes(b: &[u8], end: usize) -> (r: Vec<u8>)
    requires
        end <= b@.len(),
    ensures
        r@ == b@.take(end as int),
{
    let mut r: Vec<u8> = Vec::new();
    let mut i: usize = 0;
    while i < end
        invariant
            i <= end <= b@.len(),
            r@ == b@.take(i as int),
        decreases end - i,
    {
        r.push(b[i]);
        assert(b@.take(i + 1) =~= b@.take(i as int).push(b@[i as int]));
        i += 1;
    }
    r
}

/// The request head as text; refused when it is not UTF-8.
pub fn request_text(bytes: &[u8]) -> (r: Result<&str, ConfigError>)
    ensures
        match r {
            Ok(s) => valid_utf8(bytes@) && s@ == decode_utf8(bytes@),
            Err(e) => !valid_utf8(bytes@) && e@ == ConfigErrorView::InvalidUtf8,
        },
{
    match crate::text::utf8_str(bytes) {
        Some(s) => Ok(s),
        None => Err(ConfigError::InvalidUtf8),
    }
}

// ---------------------------------------------------------------------------
// Lines and headers
// ---------------------------------------------------------------------------

/// A line without the `\r` of a `\r\n` ending.
pub open spec fn strip_cr(s: Seq<char>) -> Seq<char> {
    if s.len() > 0 && s.last() == '\r' {
        s.drop_last()
    } else {
        s
    }
}

/// `str::lines`: the text split at each `\n`, a `\r` before it dropped, and
/// no empty line after a final `\n`.
pub open spec fn lines(s: Seq<char>) -> Seq<Seq<char>>
    decreases s.len(),
{
    if s.len() == 0 {
        seq![]
    } else if contains_char(s, '\n') {
        proof {
            lemma_after_char_shorter(s, '\n');
        }
        seq![strip_cr(before_char(s, '\n'))] + lines(after_char(s, '\n'))
    } else {
        seq![s]
    }
}

fn strip_cr_vec(v: Vec<char>) -> (r: Vec<char>)
    ensures
        r@ == strip_cr(v@),
{
    let mut v = v;
    if v.len() > 0 && v[v.len() - 1] == '\r' {
        v.pop();
    }
    v
}

/// The lines of a text.
pub fn text_lines(text: &[char]) -> (r: Vec<Vec<char>>)
    ensures
        r@.map_values(|l: Vec<char>| l@) == lines(text@),
{
    let n = text.len();
    let mut r: Vec<Vec<char>> = Vec::new();
    let mut i: usize = 0;
    assert(text@.subrange(0, n as int) =~= text@);
    while i < n
        invariant
            i <= n == text@.len(),
            lines(text@) == r@.map_values(|l: Vec<char>| l@) + lines(text@.subrange(i as int, n as int)),
        decreases n - i,
    {
        let ghost rest = text@.subrange(i as int, n as int);
        let ghost prev = r@;
        match find_char_from(text, '\n', i) {
            Some(j) => {
                proof {
                    assert forall|k: int| 0 <= k < j - i implies rest[k] != '\n' by {
                        assert(rest[k] == text@[i + k]);
                    }
                    assert(rest[j - i] == text@[j as int]);
                    lemma_split_at_first_char(rest, '\n', j - i);
                    assert(rest.take(j - i) =~= text@.subrange(i as int, j as int));
                    assert(rest.skip(j - i + 1) =~= text@.subrange(j + 1, n as int));
                }
                let line = slice_vec(text, i, j);
                let line = strip_cr_vec(line);
                r.push(line);
                assert(r@.map_values(|l: Vec<char>| l@) =~= prev.map_values(|l: Vec<char>| l@) + seq![
                    strip_cr(before_char(rest, '\n')),
                ]);
                i = j + 1;
            },
            None => {
                proof {
                    assert forall|k: int| 0 <= k < rest.len() implies rest[k] != '\n' by {
                        assert(rest[k] == text@[i + k]);
                    }
                    lemma_no_char(rest, '\n');
                }
                let line = slice_vec(text, i, n);
                r.push(line);
                assert(r@.map_values(|l: Vec<char>| l@) =~= prev.map_values(|l: Vec<char>| l@) + seq![
                    rest,
                ]);
                assert(text@.subrange(n as int, n as int) =~= Seq::<char>::empty());
                i = n;
            },
        }
    }
    assert(text@.subrange(n as int, n as int) =~= Seq::<char>::empty());
    assert(r@.map_values(|l: Vec<char>| l@) + lines(Seq::<char>::empty()) =~= r@.map_values(
        |l: Vec<char>| l@,
    ));
    r
}

/// The header a line names: its name, trimmed and lower-cased, and its value,
/// trimmed. A line without `:` or with a blank value names none.
pub open spec fn header_entry(line: Seq<char>) -> Option<(Seq<char>, Seq<char>)> {
    if contains_char(line, ':') && trim(after_char(line, ':')).len() > 0 {
        Some((lower_seq(trim(before_char(line, ':'))), trim(after_char(line, ':'))))
    } else {
        None
    }
}

/// The value stored for `key`.
pub open spec fn lookup(entries: Seq<(Seq<char>, Seq<char>)>, key: Seq<char>) -> Option<Seq<char>>
    decreases entries.len(),
{
    if entries.len() == 0 {
        None
    } else if entries[0].0 == key {
        Some(entries[0].1)
    } else {
        lookup(entries.drop_first(), key)
    }
}

/// The headers of some lines, in the order they first occur, each with the
/// value of its first line that names it.
pub open spec fn headers_spec(ls: Seq<Seq<char>>) -> Seq<(Seq<char>, Seq<char>)>
    decreases ls.len(),
{
    if ls.len() == 0 {
        seq![]
    } else {
        let prev = headers_spec(ls.drop_last());
        match header_entry(ls.last()) {
            Some(e) => if lookup(prev, e.0) is Some {
                prev
            } else {
                prev.push(e)
            },
            None => prev,
        }
    }
}

/// The value of the first line that names `key` (front to back).
pub open spec fn first_value(ls: Seq<Seq<char>>, key: Seq<char>) -> Option<Seq<char>>
    decreases ls.len(),
{
    if ls.len() == 0 {
        None
    } else {
        match header_entry(ls[0]) {
            Some(e) => if e.0 == key {
                Some(e.1)
            } else {
                first_value(ls.drop_first(), key)
            },
            None => first_value(ls.drop_first(), key),
        }
    }
}

pub proof fn lemma_lookup_push(
    entries: Seq<(Seq<char>, Seq<char>)>,
    e: (Seq<char>, Seq<char>),
    key: Seq<char>,
)
    ensures
        lookup(entries.push(e), key) == if lookup(entries, key) is Some {
            lookup(entries, key)
        } else if e.0 == key {
            Some(e.1)
        } else {
            None
        },
    decreases entries.len(),
{
    if entries.len() > 0 {
        assert(entries.push(e)[0] == entries[0]);
        assert(entries.push(e).drop_first() =~= entries.drop_first().push(e));
        lemma_lookup_push(entries.drop_first(), e, key);
    } else {
        assert(entries.push(e)[0] == e);
        assert(entries.push(e).drop_first() =~= entries);
    }
}

proof fn lemma_first_value_push(ls: Seq<Seq<char>>, l: Seq<char>, key: Seq<char>)
    ensures
        first_value(ls.push(l), key) == if first_value(ls, key) is Some {
            first_value(ls, key)
        } else {
            match header_entry(l) {
                Some(e) => if e.0 == key {
                    Some(e.1)
                } else {
                    None
                },
                None => None,
            }
        },
    decreases ls.len(),
{
    if ls.len() > 0 {
        assert(ls.push(l)[0] == ls[0]);
        assert(ls.push(l).drop_first() =~= ls.drop_first().push(l));
        lemma_first_value_push(ls.drop_first(), l, key);
    } else {
        assert(ls.push(l)[0] == l);
        assert(ls.push(l).drop_first() =~= ls);
    }
}

/// A header keeps the value of the first line that names it with a
/// non-blank value; later lines for the same name change nothing.
pub proof fn lemma_first_header_value_wins(ls: Seq<Seq<char>>, key: Seq<char>)
    ensures
        lookup(headers_spec(ls), key) == first_value(ls, key),
    decreases ls.len(),
{
    if ls.len() > 0 {
        let init = ls.drop_last();
        lemma_first_header_value_wins(init, key);
        assert(init.push(ls.last()) =~= ls);
        lemma_first_value_push(init, ls.last(), key);
        match header_entry(ls.last()) {
            Some(e) => {
                lemma_lookup_push(headers_spec(init), e, key);
            },
            None => {},
        }
    }
}

/// No header name occurs twice.
pub open spec fn names_distinct(entries: Seq<(Seq<char>, Seq<char>)>) -> bool {
    forall|i: int, j: int| 0 <= i < j < entries.len() ==> entries[i].0 != entries[j].0
}

proof fn lemma_lookup_none(entries: Seq<(Seq<char>, Seq<char>)>, key: Seq<char>, i: int)
    requires
        lookup(entries, key) is None,
        0 <= i < entries.len(),
    ensures
        entries[i].0 != key,
    decreases entries.len(),
{
    if i > 0 {
        lemma_lookup_none(entries.drop_first(), key, i - 1);
    }
}

pub proof fn lemma_headers_distinct(ls: Seq<Seq<char>>)
    ensures
        names_distinct(headers_spec(ls)),
    decreases ls.len(),
{
    if ls.len() > 0 {
        lemma_headers_distinct(ls.drop_last());
        let prev = headers_spec(ls.drop_last());
        match header_entry(ls.last()) {
            Some(e) => {
                if lookup(prev, e.0) is None {
                    assert forall|i: int| 0 <= i < prev.len() implies prev[i].0 != e.0 by {
                        lemma_lookup_none(prev, e.0, i);
                    }
                }
            },
            None => {},
        }
    }
}

pub open spec fn entry_views(v: Seq<(String, String)>) -> Seq<(Seq<char>, Seq<char>)> {
    v.map_values(|p: (String, String)| (p.0@, p.1@))
}

/// Request headers by lower-case name; no name occurs twice.
#[derive(Debug)]
pub struct Headers {
    entries: Vec<(String, String)>,
}

impl View for Headers {
    type V = Seq<(Seq<char>, Seq<char>)>;

    closed spec fn view(&self) -> Seq<(Seq<char>, Seq<char>)> {
        entry_views(self.entries@)
    }
}

fn entry_position(entries: &Vec<(String, String)>, key: &[char]) -> (r: Option<usize>)
    ensures
        match r {
            Some(i) => i < entries@.len() && lookup(entry_views(entries@), key@) == Some(
                entries@[i as int].1@,
            ),
            None => lookup(entry_views(entries@), key@) is None,
        },
{
    let mut i: usize = 0;
    assert(entry_views(entries@).skip(0) =~= entry_views(entries@));
    while i < entries.len()
        invariant
            i <= entries@.len(),
            lookup(entry_views(entries@), key@) == lookup(
                entry_views(entries@).skip(i as int),
                key@,
            ),
        decreases entries@.len() - i,
    {
        let ghost tail = entry_views(entries@).skip(i as int);
        let name = chars_of(entries[i].0.as_str());
        assert(tail[0] == (entries@[i as int].0@, entries@[i as int].1@));
        if seq_eq(name.as_slice(), key) {
            return Some(i);
        }
        assert(tail.drop_first() =~= entry_views(entries@).skip(i + 1));
        i += 1;
    }
    None
}

impl Headers {
    /// The value of the header named `key` (a lower-case name).
    pub fn get(&self, key: &str) -> (r: Option<&String>)
        ensures
            opt_chars_ref(r) == lookup(self@, key@),
    {
        let k = chars_of(key);
        match entry_position(&self.entries, k.as_slice()) {
            Some(i) => Some(&self.entries[i].1),
            None => None,
        }
    }

    pub fn contains_key(&self, key: &str) -> (r: bool)
        ensures
            r == lookup(self@, key@) is Some,
    {
        self.get(key).is_some()
    }
}

pub open spec fn opt_chars_ref(o: Option<&String>) -> Option<Seq<char>> {
    match o {
        Some(s) => Some(s@),
        None => None,
    }
}

pub open spec fn str_views(v: Seq<&str>) -> Seq<Seq<char>> {
    v.map_values(|s: &str| s@)
}

fn header_entry_of(line: &[char]) -> (r: Option<(String, String)>)
    ensures
        match r {
            Some(p) => header_entry(line@) == Some((p.0@, p.1@)),
            None => header_entry(line@) is None,
        },
{
    match split_once_char(line, ':') {
        Some((key, value)) => {
            let value = trim_vec(value.as_slice());
            if value.len() == 0 {
                return None;
            }
            let key = trim_vec(key.as_slice());
            let key = lowercase(key.as_slice());
            Some((string_of(key.as_slice()), string_of(value.as_slice())))
        },
        None => None,
    }
}

pub open spec fn vec_views(v: Seq<Vec<char>>) -> Seq<Seq<char>> {
    v.map_values(|l: Vec<char>| l@)
}

fn headers_of_lines(lines: &[Vec<char>]) -> (r: Headers)
    ensures
        r@ == headers_spec(vec_views(lines@)),
        names_distinct(r@),
{
    let mut entries: Vec<(String, String)> = Vec::new();
    let mut i: usize = 0;
    while i < lines.len()
        invariant
            i <= lines@.len(),
            entry_views(entries@) == headers_spec(vec_views(lines@).take(i as int)),
        decreases lines@.len() - i,
    {
        let ghost ls = vec_views(lines@).take(i + 1);
        assert(ls.drop_last() =~= vec_views(lines@).take(i as int));
        assert(ls.last() == lines@[i as int]@);
        match header_entry_of(lines[i].as_slice()) {
            Some((key, value)) => {
                let k = chars_of(key.as_str());
                match entry_position(&entries, k.as_slice()) {
                    Some(_) => {},
                    None => {
                        let ghost prev = entries@;
                        entries.push((key, value));
                        assert(entry_views(entries@) =~= entry_views(prev).push((k@, value@)));
                    },
                }
            },
            None => {},
        }
        i += 1;
    }
    assert(vec_views(lines@).take(lines@.len() as int) =~= vec_views(lines@));
    proof {
        lemma_headers_distinct(vec_views(lines@));
    }
    Headers { entries }
}

/// Collects the headers of some request lines: names lower-cased, values
/// trimmed, blank values skipped, and the first value of a name kept.
pub fn parse_headers(lines: &[&str]) -> (r: Headers)
    ensures
        r@ == headers_spec(str_views(lines@)),
        names_distinct(r@),
{
    let mut ls: Vec<Vec<char>> = Vec::new();
    let mut i: usize = 0;
    while i < lines.len()
        invariant
            i <= lines@.len(),
            vec_views(ls@) == str_views(lines@).take(i as int),
        decreases lines@.len() - i,
    {
        let ghost prev = ls@;
        ls.push(chars_of(lines[i]));
        assert(vec_views(ls@) =~= vec_views(prev).push(lines@[i as int]@));
        assert(str_views(lines@).take(i + 1) =~= str_views(lines@).take(i as int).push(
            lines@[i as int]@,
        ));
        i += 1;
    }
    assert(str_views(lines@).take(lines@.len() as int) =~= str_views(lines@));
    headers_of_lines(ls.as_slice())
}

/// A config request the proxy forwards: the config path and the headers.
#[derive(Debug)]
pub struct ConfigRequest {
    pub path: String,
    pub headers: Headers,
}

/// What the proxy makes of a request head: the path and headers of the
/// request it forwards, or why it answers 400.
pub open spec fn config_request_spec(head: Seq<u8>) -> Result<
    (Seq<char>, Seq<(Seq<char>, Seq<char>)>),
    ConfigErrorView,
> {
    if !valid_utf8(head) {
        Err(ConfigErrorView::InvalidUtf8)
    } else {
        let ls = lines(decode_utf8(head));
        if ls.len() == 0 {
            Err(ConfigErrorView::EmptyRequest)
        } else {
            match request_path_spec(ls[0]) {
                Ok(p) => Ok((p, headers_spec(ls.drop_first()))),
                Err(e) => Err(e),
            }
        }
    }
}

pub open spec fn request_result(r: Result<ConfigRequest, ConfigError>) -> Result<
    (Seq<char>, Seq<(Seq<char>, Seq<char>)>),
    ConfigErrorView,
> {
    match r {
        Ok(req) => Ok((req.path@, req.headers@)),
        Err(e) => Err(e@),
    }
}

/// Reads the request line and headers of a request head.
pub fn parse_config_request(head: &[u8]) -> (r: Result<ConfigRequest, ConfigError>)
    ensures
        request_result(r) == config_request_spec(head@),
{
    let text = match request_text(head) {
        Ok(text) => text,
        Err(e) => return Err(e),
    };
    let chars = chars_of(text);
    let all = text_lines(chars.as_slice());
    if all.len() == 0 {
        return Err(ConfigError::EmptyRequest);
    }
    let ghost ls = lines(decode_utf8(head@));
    assert(vec_views(all@) == ls);
    let first = string_of(all[0].as_slice());
    let path = match request_path(first.as_str()) {
        Ok(path) => path,
        Err(e) => return Err(e),
    };
    let mut rest: Vec<Vec<char>> = Vec::new();
    let mut i: usize = 1;
    while i < all.len()
        invariant
            1 <= i <= all@.len(),
            vec_views(rest@) == vec_views(all@).subrange(1, i as int),
        decreases all@.len() - i,
    {
        let ghost prev = rest@;
        rest.push(slice_all(all[i].as_slice()));
        assert(vec_views(rest@) =~= vec_views(prev).push(all@[i as int]@));
        assert(vec_views(all@).subrange(1, i + 1) =~= vec_views(all@).subrange(1, i as int).push(
            all@[i as int]@,
        ));
        i += 1;
    }
    assert(vec_views(all@).subrange(1, all@.len() as int) =~= ls.drop_first());
    let headers = headers_of_lines(rest.as_slice());
    Ok(ConfigRequest { path, headers })
}

/// The request the proxy sends to Riot for a client's config request.
#[derive(Debug)]
pub struct UpstreamRequest {
    pub url: String,
    pub user_agent: String,
    pub authorization: Option<String>,
    pub entitlements: Option<String>,
}

/// The upstream request: the same path on Riot's config service, the
/// client's user agent (`Ghosty` when it sent none), and its authorization
/// and entitlements tokens when it sent them.
pub fn upstream_request(request: &ConfigRequest) -> (r: UpstreamRequest)
    ensures
        r.url@ == CONFIG_URL@ + request.path@,
        r.user_agent@ == match lookup(request.headers@, "user-agent"@) {
            Some(ua) => ua,
            None => "Ghosty"@,
        },
        opt_chars(r.authorization) == lookup(request.headers@, "authorization"@),
        opt_chars(r.entitlements) == lookup(request.headers@, "x-riot-entitlements-jwt"@),
{
    let url = concat2(CONFIG_URL, request.path.as_str());
    let user_agent = match request.headers.get("user-agent") {
        Some(ua) => ua.clone(),
        None => "Ghosty".to_owned(),
    };
    let authorization = match request.headers.get("authorization") {
        Some(a) => Some(a.clone()),
        None => None,
    };
    let entitlements = match request.headers.get("x-riot-entitlements-jwt") {
        Some(a) => Some(a.clone()),
        None => None,
    };
    UpstreamRequest { url, user_agent, authorization, entitlements }
}

// ---------------------------------------------------------------------------
// Responses
// ---------------------------------------------------------------------------

/// The status line and headers of a response with a body of `len` bytes.
pub open spec fn response_head(status: u16, reason: Seq<char>, content_type: Seq<char>, len: nat) -> Seq<
    char,
> {
    "HTTP/1.1 "@ + decimal(status as nat) + " "@ + reason + "\r\nContent-Type: "@ + content_type
        + "\r\nContent-Length: "@ + decimal(len) + "\r\nConnection: close\r\n\r\n"@
}

/// A complete HTTP/1.1 response: the head, encoded as UTF-8, then the body
/// bytes unchanged.
pub fn response_bytes(status: u16, reason: &str, content_type: &str, body: &[u8]) -> (r: Vec<u8>)
    ensures
        r@ == encode_utf8(response_head(status, reason@, content_type@, body@.len())) + body@,
{
    let mut head = "HTTP/1.1 ".to_owned();
    let code = decimal_string(status as u64);
    push_str(&mut head, code.as_str());
    push_str(&mut head, " ");
    push_str(&mut head, reason);
    push_str(&mut head, "\r\nContent-Type: ");
    push_str(&mut head, content_type);
    push_str(&mut head, "\r\nContent-Length: ");
    let len = decimal_string(body.len() as u64);
    push_str(&mut head, len.as_str());
    push_str(&mut head, "\r\nConnection: close\r\n\r\n");
    let encoded = head.as_str().as_bytes();
    let mut r = slice_bytes(encoded, encoded.len());
    assert(encoded@.take(encoded@.len() as int) =~= encoded@);
    append_bytes(&mut r, body);
    r
}

// ---------------------------------------------------------------------------
// Pointing a client config at the local chat proxy
// ---------------------------------------------------------------------------

/// The chat server a config names, and the port and host it is rewritten to.
#[derive(Debug, Clone)]
pub struct PatchedChatServer {
    pub host: String,
    pub port: u16,
    pub affinity: Option<String>,
}

/// A chat host value: a string that is not blank, trimmed.
pub open spec fn chat_host_spec(v: JsonView) -> Option<Seq<char>> {
    match as_str(v) {
        Some(s) => if trim(s).len() > 0 {
            Some(trim(s))
        } else {
            None
        },
        None => None,
    }
}

/// A chat port value: a number or a decimal string that fits in 16 bits and
/// is not zero.
pub open spec fn chat_port_spec(v: JsonView) -> Option<u16> {
    let p: Option<u16> = match as_u64(v) {
        Some(n) => if n <= 65535 {
            Some(n as u16)
        } else {
            None
        },
        None => match as_str(v) {
            Some(s) => parse_u16(s),
            None => None,
        },
    };
    match p {
        Some(x) => if x != 0 {
            Some(x)
        } else {
            None
        },
        None => None,
    }
}

pub fn chat_host_value(v: &JsonValue) -> (r: Option<String>)
    ensures
        opt_chars(r) == chat_host_spec(v@),
{
    match v.as_str() {
        Some(s) => {
            let t = trim_str(s.as_str());
            if t.as_str().is_empty() {
                None
            } else {
                Some(t)
            }
        },
        None => None,
    }
}

pub fn chat_port_value(v: &JsonValue) -> (r: Option<u16>)
    ensures
        r == chat_port_spec(v@),
{
    let p: Option<u16> = match v.as_u64() {
        Some(n) => if n <= 65535 {
            Some(n as u16)
        } else {
            None
        },
        None => match v.as_str() {
            Some(s) => parse_u16_str(s.as_str()),
            None => None,
        },
    };
    match p {
        Some(x) => if x != 0 {
            Some(x)
        } else {
            None
        },
        None => None,
    }
}

/// The first member value that is a chat host.
pub open spec fn first_chat_host(items: Seq<(Seq<char>, JsonView)>) -> Option<Seq<char>>
    decreases items.len(),
{
    if items.len() == 0 {
        None
    } else if chat_host_spec(items[0].1) is Some {
        chat_host_spec(items[0].1)
    } else {
        first_chat_host(items.drop_first())
    }
}

/// The chat host of the player's affinity, when the config lists affinities:
/// the one named `affinity`, else (when `allow_any`) the first listed.
pub open spec fn affinity_host_spec(json: JsonView, affinity: Option<Seq<char>>, allow_any: bool) -> Option<
    Seq<char>,
> {
    match get(json, "chat.affinities"@) {
        Some(JsonView::Object(items)) => {
            let named = match affinity {
                Some(a) => match member(items, a) {
                    Some(v) => chat_host_spec(v),
                    None => None,
                },
                None => None,
            };
            if named is Some {
                named
            } else if allow_any {
                first_chat_host(items)
            } else {
                None
            }
        },
        _ => None,
    }
}

pub open spec fn str_opt(o: Option<&str>) -> Option<Seq<char>> {
    match o {
        Some(s) => Some(s@),
        None => None,
    }
}

fn first_chat_host_of(items: &Vec<(String, JsonValue)>) -> (r: Option<String>)
    ensures
        opt_chars(r) == first_chat_host(members_view(items@)),
{
    let mut i: usize = 0;
    proof {
        lemma_members_view_len(items@);
        assert(members_view(items@).skip(0) =~= members_view(items@));
    }
    while i < items.len()
        invariant
            i <= items@.len() == members_view(items@).len(),
            first_chat_host(members_view(items@)) == first_chat_host(
                members_view(items@).skip(i as int),
            ),
        decreases items@.len() - i,
    {
        proof {
            lemma_members_view_index(items@, i as int);
            assert(members_view(items@).skip(i as int)[0] == members_view(items@)[i as int]);
            assert(members_view(items@).skip(i as int).drop_first() =~= members_view(items@).skip(
                i + 1,
            ));
        }
        match chat_host_value(&items[i].1) {
            Some(h) => return Some(h),
            None => {},
        }
        i += 1;
    }
    None
}

/// The chat host of the player's affinity.
pub fn affinity_host(json: &JsonValue, affinity: Option<&str>, allow_any_affinity: bool) -> (r:
    Option<String>)
    ensures
        opt_chars(r) == affinity_host_spec(json@, str_opt(affinity), allow_any_affinity),
{
    let items = match json.get("chat.affinities") {
        Some(JsonValue::Object(items)) => items,
        _ => return None,
    };
    let named = match affinity {
        Some(a) => match member_index(items, a) {
            Some(i) => chat_host_value(&items[i].1),
            None => None,
        },
        None => None,
    };
    if named.is_some() {
        named
    } else if allow_any_affinity {
        first_chat_host_of(items)
    } else {
        None
    }
}

/// The chat server a config names: the affinity host (any affinity only when
/// the config has no usable `chat.host`), else `chat.host`; and `chat.port`.
pub open spec fn chat_server_spec(json: JsonView, affinity: Option<Seq<char>>) -> Option<
    (Seq<char>, u16),
> {
    let host = match get(json, "chat.host"@) {
        Some(v) => chat_host_spec(v),
        None => None,
    };
    let port = match get(json, "chat.port"@) {
        Some(v) => chat_port_spec(v),
        None => None,
    };
    let chosen = if affinity_host_spec(json, affinity, host is None) is Some {
        affinity_host_spec(json, affinity, host is None)
    } else {
        host
    };
    match (chosen, port) {
        (Some(h), Some(p)) => Some((h, p)),
        _ => None,
    }
}

/// An affinity list with every string host replaced by the local host.
pub open spec fn patched_affinities(v: JsonView) -> JsonView {
    match v {
        JsonView::Object(items) => JsonView::Object(
            items.map_values(
                |m: (Seq<char>, JsonView)|
                    if m.1 is Str {
                        (m.0, JsonView::Str(LOCALHOST_DOMAIN@))
                    } else {
                        m
                    },
            ),
        ),
        _ => v,
    }
}

/// A config member after the rewrite: the chat host and every affinity host
/// become the local host, and the chat port becomes the local proxy's.
pub open spec fn patched_member(m: (Seq<char>, JsonView), chat_port: u16) -> (Seq<char>, JsonView) {
    if m.0 == "chat.host"@ {
        (m.0, JsonView::Str(LOCALHOST_DOMAIN@))
    } else if m.0 == "chat.port"@ {
        (m.0, JsonView::Number(NumberView::Unsigned(chat_port as u64)))
    } else if m.0 == "chat.affinities"@ {
        (m.0, patched_affinities(m.1))
    } else {
        m
    }
}

pub open spec fn patched_config(json: JsonView, chat_port: u16) -> JsonView {
    match json {
        JsonView::Object(members) => JsonView::Object(
            members.map_values(|m: (Seq<char>, JsonView)| patched_member(m, chat_port)),
        ),
        _ => json,
    }
}

fn name_is(name: &String, literal: &str) -> (r: bool)
    ensures
        r == (name@ == literal@),
{
    let a = chars_of(name.as_str());
    let b = chars_of(literal);
    seq_eq(a.as_slice(), b.as_slice())
}

fn patch_affinity_items(items: &mut Vec<(String, JsonValue)>)
    ensures
        members_view(final(items)@) == members_view(old(items)@).map_values(
            |m: (Seq<char>, JsonView)|
                if m.1 is Str {
                    (m.0, JsonView::Str(LOCALHOST_DOMAIN@))
                } else {
                    m
                },
        ),
{
    let ghost orig = items@;
    let mut i: usize = 0;
    while i < items.len()
        invariant
            i <= items@.len() == orig.len(),
            forall|k: int|
                0 <= k < i ==> (#[trigger] items@[k]).0@ == orig[k].0@ && json_view(items@[k].1)
                    == if json_view(orig[k].1) is Str {
                    JsonView::Str(LOCALHOST_DOMAIN@)
                } else {
                    json_view(orig[k].1)
                },
            forall|k: int| i <= k < orig.len() ==> #[trigger] items@[k] == orig[k],
        decreases orig.len() - i,
    {
        let is_str = match &items[i].1 {
            JsonValue::Str(_) => true,
            _ => false,
        };
        if is_str {
            items[i].1 = JsonValue::Str(LOCALHOST_DOMAIN.to_owned());
        }
        i += 1;
    }
    proof {
        lemma_members_view_len(items@);
        lemma_members_view_len(orig);
        assert forall|k: int| 0 <= k < orig.len() implies members_view(items@)[k] == members_view(
            orig,
        ).map_values(
            |m: (Seq<char>, JsonView)|
                if m.1 is Str {
                    (m.0, JsonView::Str(LOCALHOST_DOMAIN@))
                } else {
                    m
                },
        )[k] by {
            lemma_members_view_index(items@, k);
            lemma_members_view_index(orig, k);
        }
        assert(members_view(items@) =~= members_view(orig).map_values(
            |m: (Seq<char>, JsonView)|
                if m.1 is Str {
                    (m.0, JsonView::Str(LOCALHOST_DOMAIN@))
                } else {
                    m
                },
        ));
    }
}

fn patch_affinities(v: &mut JsonValue)
    ensures
        final(v)@ == patched_affinities(old(v)@),
{
    match v {
        JsonValue::Object(items) => patch_affinity_items(items),
        _ => {},
    }
}

fn patch_members(members: &mut Vec<(String, JsonValue)>, chat_port: u16)
    ensures
        members_view(final(members)@) == members_view(old(members)@).map_values(
            |m: (Seq<char>, JsonView)| patched_member(m, chat_port),
        ),
{
    let ghost orig = members@;
    let mut i: usize = 0;
    while i < members.len()
        invariant
            i <= members@.len() == orig.len(),
            forall|k: int|
                0 <= k < i ==> ((#[trigger] members@[k]).0@, json_view(members@[k].1))
                    == patched_member((orig[k].0@, json_view(orig[k].1)), chat_port),
            forall|k: int| i <= k < orig.len() ==> #[trigger] members@[k] == orig[k],
        decreases orig.len() - i,
    {
        if name_is(&members[i].0, "chat.host") {
            members[i].1 = JsonValue::Str(LOCALHOST_DOMAIN.to_owned());
        } else if name_is(&members[i].0, "chat.port") {
            members[i].1 = JsonValue::Number(JsonNumber::Unsigned(chat_port as u64));
        } else if name_is(&members[i].0, "chat.affinities") {
            patch_affinities(&mut members[i].1);
        }
        i += 1;
    }
    proof {
        lemma_members_view_len(members@);
        lemma_members_view_len(orig);
        assert forall|k: int| 0 <= k < orig.len() implies members_view(members@)[k]
            == members_view(orig).map_values(
            |m: (Seq<char>, JsonView)| patched_member(m, chat_port),
        )[k] by {
            lemma_members_view_index(members@, k);
            lemma_members_view_index(orig, k);
        }
        assert(members_view(members@) =~= members_view(orig).map_values(
            |m: (Seq<char>, JsonView)| patched_member(m, chat_port),
        ));
    }
}

/// Finds the chat server a client config names and points the config at the
/// local chat proxy: `chat.host` and every string affinity host become
/// `LOCALHOST_DOMAIN`, `chat.port` becomes `chat_port`. A config that names
/// no complete server is left as it was.
pub fn rewrite_config_with_affinity(json: &mut JsonValue, chat_port: u16, affinity: Option<&str>) -> (r:
    Option<PatchedChatServer>)
    ensures
        match chat_server_spec(old(json)@, str_opt(affinity)) {
            None => r is None && final(json)@ == old(json)@,
            Some(server) => r matches Some(s) && s.host@ == server.0 && s.port == server.1 && opt_chars(
                s.affinity,
            ) == str_opt(affinity) && final(json)@ == patched_config(old(json)@, chat_port),
        },
{
    let original_host = match json.get("chat.host") {
        Some(v) => chat_host_value(v),
        None => None,
    };
    let original_port = match json.get("chat.port") {
        Some(v) => chat_port_value(v),
        None => None,
    };
    let from_affinity = affinity_host(json, affinity, original_host.is_none());
    let host = if from_affinity.is_some() {
        from_affinity
    } else {
        original_host
    };
    let (host, port) = match (host, original_port) {
        (Some(h), Some(p)) => (h, p),
        _ => return None,
    };
    let affinity_owned = match affinity {
        Some(a) => Some(a.to_owned()),
        None => None,
    };
    match json {
        JsonValue::Object(members) => patch_members(members, chat_port),
        _ => {},
    }
    Some(PatchedChatServer { host, port, affinity: affinity_owned })
}

/// Whether a config asks the client to use a chat affinity
/// (`chat.affinity.enabled` is `true`).
pub open spec fn affinity_enabled_spec(json: JsonView) -> bool {
    match get(json, "chat.affinity.enabled"@) {
        Some(v) => as_bool(v) == Some(true),
        None => false,
    }
}

pub fn affinity_enabled(json: &JsonValue) -> (r: bool)
    ensures
        r == affinity_enabled_spec(json@),
{
    match json.get("chat.affinity.enabled") {
        Some(v) => match v.as_bool() {
            Some(b) => b,
            None => false,
        },
        None => false,
    }
}

/// The content type of the proxy's answer: JSON once the config was
/// rewritten, else the upstream's (JSON when it gave none or a blank one).
pub fn response_content_type_for(upstream: Option<&str>, rewritten: bool) -> (r: String)
    ensures
        r@ == if rewritten {
            JSON_CONTENT_TYPE@
        } else {
            match str_opt(upstream) {
                Some(c) => if trim(c).len() > 0 {
                    c
                } else {
                    JSON_CONTENT_TYPE@
                },
                None => JSON_CONTENT_TYPE@,
            }
        },
{
    if rewritten {
        return JSON_CONTENT_TYPE.to_owned();
    }
    match upstream {
        Some(c) => {
            let t = trim_str(c);
            if t.as_str().is_empty() {
                JSON_CONTENT_TYPE.to_owned()
            } else {
                c.to_owned()
            }
        },
        None => JSON_CONTENT_TYPE.to_owned(),
    }
}

/// The server to hand to the chat proxy: only while the service runs.
pub fn patched_server_to_send(running: bool, server: PatchedChatServer) -> (r: Option<PatchedChatServer>)
    ensures
        running ==> r == Some(server),
        !running ==> r is None,
{
    if running {
        Some(server)
    } else {
        None
    }
}

#[verifier::external_type_specification]
#[verifier::external_body]
#[verifier::reject_recursive_types(T)]
pub struct ExSender<T>(std::sync::mpsc::Sender<T>);

/// `std::sync::mpsc::Sender::send`; an error (the receiver is gone) is
/// dropped. Nothing is claimed of the channel.
#[verifier::external_body]
fn send_value<T>(tx: &std::sync::mpsc::Sender<T>, value: T) {
    let _ = tx.send(value);
}

/// Hands a patched chat server to the chat proxy while the service runs.
pub fn send_patched_server_if_running(
    running: &std::sync::Arc<std::sync::atomic::AtomicBool>,
    patched_tx: &std::sync::mpsc::Sender<PatchedChatServer>,
    server: PatchedChatServer,
) {
    let active = running.load(Ordering::Relaxed);
    match patched_server_to_send(active, server) {
        Some(server) => send_value(patched_tx, server),
        None => {},
    }
}

// ---------------------------------------------------------------------------
// The player's chat affinity, from the Geo PAS token
// ---------------------------------------------------------------------------

/// Why no affinity could be read from a Geo PAS token.
#[derive(Debug, Clone, PartialEq, Eq)]
pub enum AffinityError {
    NotJwt,
    InvalidBase64,
    InvalidJson,
    MissingAffinity,
}

/// The text of an affinity lookup error.
pub open spec fn affinity_error_text(e: AffinityError) -> Seq<char> {
    match e {
        AffinityError::NotJwt => "Geo PAS did not return a JWT"@,
        AffinityError::InvalidBase64 => "Geo PAS JWT payload is not base64"@,
        AffinityError::InvalidJson => "Geo PAS JWT payload is not JSON"@,
        AffinityError::MissingAffinity => "Geo PAS JWT did not contain an affinity"@,
    }
}

impl AffinityError {
    pub fn message(&self) -> (r: String)
        ensures
            r@ == affinity_error_text(*self),
    {
        match self {
            AffinityError::NotJwt => "Geo PAS did not return a JWT".to_owned(),
            AffinityError::InvalidBase64 => "Geo PAS JWT payload is not base64".to_owned(),
            AffinityError::InvalidJson => "Geo PAS JWT payload is not JSON".to_owned(),
            AffinityError::MissingAffinity => "Geo PAS JWT did not contain an affinity".to_owned(),
        }
    }
}

/// The payload of a JWT: the text between its first and second `.`.
pub open spec fn jwt_payload_spec(token: Seq<char>) -> Option<Seq<char>> {
    if contains_char(token, '.') {
        Some(before_char(after_char(token, '.'), '.'))
    } else {
        None
    }
}

pub fn jwt_payload(token: &str) -> (r: Option<String>)
    ensures
        opt_chars(r) == jwt_payload_spec(token@),
{
    let t = chars_of(token);
    match split_once_char(t.as_slice(), '.') {
        Some((_, rest)) => match split_once_char(rest.as_slice(), '.') {
            Some((payload, _)) => Some(string_of(payload.as_slice())),
            None => Some(string_of(rest.as_slice())),
        },
        None => None,
    }
}

pub open spec fn opt_bytes(o: Option<Vec<u8>>) -> Option<Seq<u8>> {
    match o {
        Some(v) => Some(v@),
        None => None,
    }
}


/// `base64::engine::general_purpose::URL_SAFE_NO_PAD.decode`. The engine
/// requires no padding and rejects trailing bits, so it reads exactly the
/// texts that unpadded URL-safe base64 writes: the contract claims it gives
/// back the bytes whose encoding the text is, and refuses a text that is the
/// encoding of no bytes.
#[verifier::external_body]
fn decode_base64_url(text: &str) -> (r: Option<Vec<u8>>)
    ensures
        opt_bytes(r) == b64_url_decode_spec(text@),
{
    base64::engine::general_purpose::URL_SAFE_NO_PAD.decode(text).ok()
}

/// The decoded payload of a Geo PAS token, which the caller reads as JSON.
pub fn jwt_payload_bytes(token: &str) -> (r: Result<Vec<u8>, AffinityError>)
    ensures
        match jwt_payload_spec(token@) {
            None => r == Err::<Vec<u8>, AffinityError>(AffinityError::NotJwt),
            Some(p) => match b64_url_decode_spec(p) {
                None => r == Err::<Vec<u8>, AffinityError>(AffinityError::InvalidBase64),
                Some(b) => r matches Ok(v) && v@ == b,
            },
        },
{
    let payload = match jwt_payload(token) {
        Some(p) => p,
        None => return Err(AffinityError::NotJwt),
    };
    match decode_base64_url(payload.as_str()) {
        Some(b) => Ok(b),
        None => Err(AffinityError::InvalidBase64),
    }
}

/// The `affinity` claim of a decoded token payload.
pub fn affinity_from_claims(claims: &JsonValue) -> (r: Result<String, AffinityError>)
    ensures
        match get_str(claims@, "affinity"@) {
            Some(a) => r matches Ok(s) && s@ == a,
            None => r == Err::<String, AffinityError>(AffinityError::MissingAffinity),
        },
{
    match claims.get_str("affinity") {
        Some(a) => Ok(a.clone()),
        None => Err(AffinityError::MissingAffinity),
    }
}

// ---------------------------------------------------------------------------
// Answering a request
// ---------------------------------------------------------------------------

/// Why a request head could not be used.
pub enum HeadFailure {
    /// More than `MAX_HEADER_BYTES` bytes without the end of the head.
    TooLarge,
    /// The client sent nothing for too long.
    TimedOut,
    /// The input ended before the head did.
    Incomplete,
    /// The head was read but refused.
    Rejected(ConfigError),
}

/// A plain-text answer to a request that is not forwarded, and the log
/// line (an error) it gives, if any.
pub struct TextAnswer {
    pub status: u16,
    pub reason: String,
    pub body: String,
    pub log: Option<String>,
}

pub open spec fn opt_text(o: Option<String>) -> Option<Seq<char>> {
    match o {
        Some(s) => Some(s@),
        None => None,
    }
}

/// The answer to a request head that cannot be used: 431 when too large,
/// 408 when the client was too slow, 400 otherwise.
pub fn head_failure_answer(failure: &HeadFailure) -> (r: TextAnswer)
    ensures
        match *failure {
            HeadFailure::TooLarge => r.status == 431 && r.reason@ == "Request Header Fields Too Large"@ && r.body@
                == "Config proxy request headers are too large"@ && r.log is None,
            HeadFailure::TimedOut => r.status == 408 && r.reason@ == "Request Timeout"@ && r.body@
                == "Request Timeout"@ && opt_text(r.log) == Some("Config proxy request timed out"@),
            HeadFailure::Incomplete => r.status == 400 && r.reason@ == "Bad Request"@ && r.body@ == "Bad Request"@
                && opt_text(r.log) == Some("Rejected incomplete config proxy request"@),
            HeadFailure::Rejected(e) => r.status == 400 && r.reason@ == "Bad Request"@ && r.body@ == "Bad Request"@
                && opt_text(r.log) == Some("Rejected config proxy request: "@ + error_message(e@)),
        },
{
    match failure {
        HeadFailure::TooLarge => TextAnswer {
            status: 431,
            reason: "Request Header Fields Too Large".to_owned(),
            body: "Config proxy request headers are too large".to_owned(),
            log: None,
        },
        HeadFailure::TimedOut => TextAnswer {
            status: 408,
            reason: "Request Timeout".to_owned(),
            body: "Request Timeout".to_owned(),
            log: Some("Config proxy request timed out".to_owned()),
        },
        HeadFailure::Incomplete => TextAnswer {
            status: 400,
            reason: "Bad Request".to_owned(),
            body: "Bad Request".to_owned(),
            log: Some("Rejected incomplete config proxy request".to_owned()),
        },
        HeadFailure::Rejected(e) => {
            let m = e.message();
            TextAnswer {
                status: 400,
                reason: "Bad Request".to_owned(),
                body: "Bad Request".to_owned(),
                log: Some(concat2("Rejected config proxy request: ", m.as_str())),
            }
        },
    }
}

/// Where the affinity of a config reply comes from.
pub enum AffinitySource {
    /// The config does not ask for one.
    NotAsked,
    /// Ask Riot's Geo PAS service with this authorization header.
    Lookup(String),
    /// The config asks for one, but the request had no authorization.
    MissingAuthorization,
}

/// Whether to look up the player's chat affinity for a config reply: only
/// where the config enables affinities, and only with the request's
/// authorization header.
pub fn affinity_source(config: &JsonValue, authorization: Option<&String>) -> (r: AffinitySource)
    ensures
        !affinity_enabled_spec(config@) ==> r is NotAsked,
        affinity_enabled_spec(config@) ==> match authorization {
            Some(a) => r matches AffinitySource::Lookup(s) && s@ == a@,
            None => r is MissingAuthorization,
        },
{
    if !affinity_enabled(config) {
        return AffinitySource::NotAsked;
    }
    match authorization {
        Some(a) => AffinitySource::Lookup(a.clone()),
        None => AffinitySource::MissingAuthorization,
    }
}

/// The affinity a Geo PAS token names: its payload decoded and read as JSON,
/// then its `affinity` claim.
pub open spec fn token_affinity(token: Seq<char>) -> Result<Seq<char>, AffinityError> {
    match jwt_payload_spec(token) {
        None => Err(AffinityError::NotJwt),
        Some(p) => match b64_url_decode_spec(p) {
            None => Err(AffinityError::InvalidBase64),
            Some(b) => match json_parse(b) {
                None => Err(AffinityError::InvalidJson),
                Some(claims) => match get_str(claims, "affinity"@) {
                    Some(a) => Ok(a),
                    None => Err(AffinityError::MissingAffinity),
                },
            },
        },
    }
}

pub open spec fn affinity_result(r: Result<String, AffinityError>) -> Result<Seq<char>, AffinityError> {
    match r {
        Ok(s) => Ok(s@),
        Err(e) => Err(e),
    }
}

/// The player's chat affinity from the token Riot's Geo PAS service returned.
pub fn affinity_from_token(token: &str) -> (r: Result<String, AffinityError>)
    ensures
        affinity_result(r) == token_affinity(token@),
{
    let bytes = match jwt_payload_bytes(token) {
        Ok(b) => b,
        Err(e) => return Err(e),
    };
    let claims = match parse_json(bytes.as_slice()) {
        Some(c) => c,
        None => return Err(AffinityError::InvalidJson),
    };
    affinity_from_claims(&claims)
}

/// The affinity used for a config reply once Riot's Geo PAS service was
/// asked, and the log line (its level and text) that says how it went.
pub fn affinity_outcome(lookup: Result<String, String>) -> (r: (Option<String>, LogLevel, String))
    ensures
        match lookup {
            Ok(a) => opt_chars(r.0) == Some(a@) && r.1 == LogLevel::Info && r.2@ == "Using Riot chat affinity: "@
                + a@,
            Err(e) => r.0 is None && r.1 == LogLevel::Warn && r.2@ == "Unable to resolve Riot chat affinity: "@
                + e@,
        },
{
    match lookup {
        Ok(a) => {
            let line = concat2("Using Riot chat affinity: ", a.as_str());
            (Some(a), LogLevel::Info, line)
        },
        Err(e) => (None, LogLevel::Warn, concat2("Unable to resolve Riot chat affinity: ", e.as_str())),
    }
}

/// The log line for a config that asks for an affinity without an
/// authorization header to look it up with.
pub const MISSING_AUTHORIZATION_MESSAGE: &'static str =
    "Riot chat affinity was enabled but no authorization header was present";

/// The config a reply is rewritten from: only a successful upstream answer
/// whose body serde_json reads as JSON.
pub fn config_body_json(success: bool, body: &[u8]) -> (r: Option<JsonValue>)
    ensures
        !success ==> r is None,
        success ==> opt_json_view(r) == json_parse(body@),
{
    if success {
        parse_json(body)
    } else {
        None
    }
}

/// The body of a rewritten config reply and the Riot chat server it named:
/// the config patched to the local chat proxy and written back by
/// serde_json; a config that names no complete server is written back as it
/// was.
pub fn rewritten_config_body(json: JsonValue, chat_port: u16, affinity: Option<&str>) -> (r: (
    Vec<u8>,
    Option<PatchedChatServer>,
))
    ensures
        match chat_server_spec(json@, str_opt(affinity)) {
            None => r.1 is None && r.0@ == json_serialize(json@),
            Some(server) => r.1 matches Some(s) && s.host@ == server.0 && s.port == server.1 && opt_chars(
                s.affinity,
            ) == str_opt(affinity) && r.0@ == json_serialize(patched_config(json@, chat_port)),
        },
{
    let mut json = json;
    let server = rewrite_config_with_affinity(&mut json, chat_port, affinity);
    let body = serialize_json(&json);
    (body, server)
}

} // verus!
