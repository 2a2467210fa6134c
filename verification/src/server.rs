//! The service's request and response values and the decisions it takes
//! around a page operation: browser options, cookie scoping, settle times
//! and which content a fetch returns.

use vstd::prelude::*;
use vstd::string::*;

use crate::errors::{
    app_error_message,
    app_error_status,
    classified_status,
    AppError,
    is_bad_request_message,
    is_timeout_message,
    is_unreachable_message,
};
use crate::extract::{
    extract_text,
    extracted_html,
    invalid_selector_message,
    markdown_renders,
    select_html,
    selector_parse_error,
    extracted_markdown,
    extracted_text,
    html_to_markdown,
    opt_str_view,
    result_view,
};
use crate::text::{
    ascii_lower,
    ascii_lower_seq,
    is_white_space,
    trim_end_seq,
    trim_start_seq,
    chars_eq,
    chars_of,
    chars_to_ascii_lower,
    concat_str,
    index_of_from,
    index_of_from_exec,
    lemma_contains_after_prefix,
    lemma_index_of_from,
    seq_contains,
    sub_chars,
    trim_chars,
    trim_seq,
};

verus! {

/// The format in which a fetch returns the page.
#[derive(Debug, Clone, Copy, PartialEq, Eq, Structural)]
pub enum OutputFormat {
    Markdown,
    Html,
    Text,
}

impl Default for OutputFormat {
    /// Markdown, when a request names no format.
    fn default() -> (r: Self)
        ensures
            r == OutputFormat::Markdown,
    {
        OutputFormat::Markdown
    }
}

/// A request to fetch a page.
#[derive(Debug)]
pub struct FetchRequest {
    pub url: String,
    /// Characters of content returned at most; 0 for no limit.
    pub max_chars: usize,
    pub format: OutputFormat,
    pub selector: Option<String>,
    pub wait_secs: Option<u64>,
    /// Route through the configured proxy; direct by default.
    pub use_proxy: bool,
    /// Cookies to inject before navigation (`"name=value"` entries).
    pub cookies: Vec<String>,
}

/// A request to click an element of a page.
#[derive(Debug)]
pub struct ClickRequest {
    pub url: String,
    pub selector: String,
    pub wait_secs: Option<u64>,
    pub use_proxy: bool,
    pub cookies: Vec<String>,
}

/// A request to evaluate JavaScript on a page.
#[derive(Debug)]
pub struct EvalRequest {
    pub url: String,
    pub script: String,
    pub wait_secs: Option<u64>,
    pub use_proxy: bool,
    pub cookies: Vec<String>,
}

/// The answer to a fetch.
#[derive(Debug)]
pub struct FetchResponse {
    pub url: String,
    pub title: Option<String>,
    pub content: String,
    /// The content was cut to the request's `max_chars`.
    pub truncated: bool,
}

/// The answer to a click.
#[derive(Debug)]
pub struct ClickResponse {
    pub url: String,
    pub selector: String,
    pub clicked: bool,
    pub text_after: Option<String>,
}

// ---------------------------------------------------------------------------
// Browser options.
// ---------------------------------------------------------------------------

/// How the browser for one request is built.
#[derive(Debug)]
pub struct BrowserOptions {
    pub stealth: bool,
    pub proxy: Option<String>,
}

/// Builds the browser options of a request from the stealth switch and the
/// proxy setting of the environment: stealth is on unless the switch is
/// exactly `"0"`, and the proxy is used only when the request asks for it
/// and one is configured.
pub fn browser_options(use_proxy: bool, stealth_switch: Option<&str>, proxy: Option<String>) -> (r:
    BrowserOptions)
    ensures
        r.stealth == !(opt_str_view(stealth_switch) == Some("0"@)),
        r.proxy == (if use_proxy {
            proxy
        } else {
            None
        }),
{
    let stealth = match stealth_switch {
        Some(s) => !crate::text::str_eq(s, "0"),
        None => true,
    };
    let proxy = if use_proxy {
        proxy
    } else {
        None
    };
    BrowserOptions { stealth, proxy }
}

// ---------------------------------------------------------------------------
// Settle times.
// ---------------------------------------------------------------------------

/// Milliseconds a page is left to settle after a click.
pub const CLICK_SETTLE_MILLIS: u64 = 500;

/// The extra settle time of a request, in milliseconds: its wait in seconds
/// times one thousand.
pub fn settle_millis(wait_secs: Option<u64>) -> (r: Option<u64>)
    requires
        wait_secs matches Some(w) ==> w * 1000 <= u64::MAX,
    ensures
        match wait_secs {
            Some(w) => r == Some((w * 1000) as u64),
            None => r is None,
        },
{
    match wait_secs {
        Some(w) => Some(w * 1000),
        None => None,
    }
}

// ---------------------------------------------------------------------------
// Cookies.
// ---------------------------------------------------------------------------

/// The host that `url::Url::parse` followed by `Url::host_str` gives for a
/// URL: `None` when it does not parse, `Some(None)` when it has no host.
pub uninterp spec fn url_host(url: Seq<char>) -> Option<Option<Seq<char>>>;

/// The view of an optional string.
pub open spec fn opt_string_view(s: Option<String>) -> Option<Seq<char>> {
    match s {
        Some(t) => Some(t@),
        None => None,
    }
}

/// Calls `url::Url::parse` and, when it succeeds, `Url::host_str`. Claims
/// only that the outcome is the named one for this URL.
#[verifier::external_body]
fn parse_url_host(url: &str) -> (r: Option<Option<String>>)
    ensures
        match r {
            Some(h) => url_host(url@) == Some(opt_string_view(h)),
            None => url_host(url@) is None,
        },
{
    match url::Url::parse(url) {
        Ok(u) => Some(u.host_str().map(|h| h.to_string())),
        Err(_) => None,
    }
}

/// The attribute of a Set-Cookie line that starts right after position `i`
/// (a `;`): the text up to the next `;` or the end.
pub open spec fn attribute_after(cookie: Seq<char>, i: int) -> Seq<char> {
    cookie.subrange(i + 1, index_of_from(cookie, ';', i + 1))
}

/// The name of an attribute: the text before its first `=`, without
/// surrounding white space, lower-cased.
pub open spec fn attribute_name(attr: Seq<char>) -> Seq<char> {
    ascii_lower_seq(trim_seq(attr.subrange(0, index_of_from(attr, '=', 0))))
}

/// The attribute sets where the cookie applies: it is `Domain=...` or
/// `Path=...`, in any case.
pub open spec fn is_scope_attribute(attr: Seq<char>) -> bool {
    index_of_from(attr, '=', 0) < attr.len() && (attribute_name(attr) == "domain"@
        || attribute_name(attr) == "path"@)
}

/// The cookie already says where it applies: one of its attributes (the
/// parts after the first `;`) is a `Domain` or `Path` attribute.
pub open spec fn cookie_is_scoped(cookie: Seq<char>) -> bool {
    exists|i: int|
        0 <= i < cookie.len() && cookie[i] == ';' && #[trigger] is_scope_attribute(
            attribute_after(cookie, i),
        )
}

/// The Set-Cookie line stored for one cookie: a scoped cookie as given, a
/// bare `name=value` scoped to the host and to every path.
pub open spec fn scoped_cookie(cookie: Seq<char>, host: Seq<char>) -> Seq<char> {
    if cookie_is_scoped(cookie) {
        cookie
    } else {
        cookie + "; Domain="@ + host + "; Path=/"@
    }
}

/// The Set-Cookie lines to store before navigating to `url`: none when there
/// are no cookies or the URL does not parse; else one per cookie, in order,
/// scoped to the URL's host (empty when it has none).
pub open spec fn cookies_to_set(cookies: Seq<Seq<char>>, url: Seq<char>) -> Seq<Seq<char>> {
    if cookies.len() == 0 {
        Seq::empty()
    } else {
        match url_host(url) {
            None => Seq::empty(),
            Some(h) => {
                let host = match h {
                    Some(x) => x,
                    None => Seq::empty(),
                };
                cookies.map_values(|c: Seq<char>| scoped_cookie(c, host))
            },
        }
    }
}

/// Whether an attribute is a `Domain` or `Path` attribute.
fn is_scope_attr(attr: &Vec<char>) -> (r: bool)
    ensures
        r == is_scope_attribute(attr@),
{
    proof {
        lemma_index_of_from(attr@, '=', 0);
    }
    let eq = index_of_from_exec(attr, '=', 0);
    if eq >= attr.len() {
        return false;
    }
    let name = chars_to_ascii_lower(&trim_chars(&sub_chars(attr, 0, eq)));
    let domain = chars_of("domain");
    let path = chars_of("path");
    chars_eq(&name, &domain) || chars_eq(&name, &path)
}

/// Whether a cookie already carries its own `Domain` or `Path` attribute.
fn is_scoped_cookie(cookie: &str) -> (r: bool)
    ensures
        r == cookie_is_scoped(cookie@),
{
    let v = chars_of(cookie);
    let mut i: usize = 0;
    while i < v.len()
        invariant
            v@ == cookie@,
            i <= v.len(),
            forall|j: int|
                0 <= j < i ==> !(v@[j] == ';' && #[trigger] is_scope_attribute(
                    attribute_after(v@, j),
                )),
        decreases v.len() - i,
    {
        if v[i] == ';' {
            proof {
                lemma_index_of_from(v@, ';', i + 1);
            }
            let end = index_of_from_exec(&v, ';', i + 1);
            let attr = sub_chars(&v, i + 1, end);
            if is_scope_attr(&attr) {
                assert(is_scope_attribute(attribute_after(v@, i as int)));
                return true;
            }
        }
        i = i + 1;
    }
    false
}

/// The Set-Cookie lines under which request-supplied cookies are stored
/// before navigating to `target_url`, so that they go with the first request.
pub fn cookies_to_inject(cookies: &Vec<String>, target_url: &str) -> (r: Vec<String>)
    ensures
        r.deep_view() == cookies_to_set(cookies.deep_view(), target_url@),
{
    let mut r: Vec<String> = Vec::new();
    if cookies.len() == 0 {
        assert(r.deep_view() =~= Seq::<Seq<char>>::empty());
        return r;
    }
    let host = match parse_url_host(target_url) {
        None => {
            assert(r.deep_view() =~= Seq::<Seq<char>>::empty());
            return r;
        },
        Some(Some(h)) => h,
        Some(None) => String::new(),
    };
    let domain = concat_str("; Domain=", host.as_str());
    let mut i: usize = 0;
    while i < cookies.len()
        invariant
            i <= cookies.len(),
            domain@ == "; Domain="@ + host@,
            url_host(target_url@) is Some,
            host@ == (match url_host(target_url@) {
                Some(Some(x)) => x,
                _ => Seq::empty(),
            }),
            r@.len() == i,
            forall|k: int|
                0 <= k < i ==> #[trigger] r@[k]@ == scoped_cookie(cookies@[k]@, host@),
        decreases cookies.len() - i,
    {
        let c = cookies[i].as_str();
        let line = if is_scoped_cookie(c) {
            String::from_str(c)
        } else {
            let with_domain = concat_str(c, domain.as_str());
            concat_str(with_domain.as_str(), "; Path=/")
        };
        r.push(line);
        i = i + 1;
    }
    assert(r.deep_view() =~= cookies_to_set(cookies.deep_view(), target_url@));
    r
}

/// A cookie is kept as given as soon as ANY of its attributes (at any
/// position after a `;`, whatever attributes follow it) is a `Domain` or
/// `Path` attribute; a cookie with no `;` at all is a bare `name=value` and
/// is scoped to the URL's host and the root path.
pub proof fn lemma_any_scope_attribute_keeps_cookie(
    cookies: Seq<Seq<char>>,
    url: Seq<char>,
    k: int,
    i: int,
)
    requires
        url_host(url) is Some,
        0 <= k < cookies.len(),
    ensures
        0 <= i < cookies[k].len() && cookies[k][i] == ';' && is_scope_attribute(
            attribute_after(cookies[k], i),
        ) ==> cookies_to_set(cookies, url)[k] == cookies[k],
        (forall|q: int| 0 <= q < cookies[k].len() ==> cookies[k][q] != ';') ==> cookies_to_set(
            cookies,
            url,
        )[k] == cookies[k] + "; Domain="@ + (match url_host(url)->Some_0 {
            Some(h) => h,
            None => Seq::empty(),
        }) + "; Path=/"@,
{
    let c = cookies[k];
    if 0 <= i < c.len() && c[i] == ';' && is_scope_attribute(attribute_after(c, i)) {
        assert(cookie_is_scoped(c));
    }
}

/// A character whose ASCII lower case is a lower-case ASCII letter is a
/// letter: neither `;`, `=` nor white space.
proof fn lemma_letter_is_plain(c: char, x: char)
    requires
        'a' <= x <= 'z',
        ascii_lower(c) == x,
    ensures
        c != ';',
        c != '=',
        !is_white_space(c),
{
}

/// Skipping white space at the start of a sequence that begins with a
/// non-white-space character skips exactly the white-space prefix.
proof fn lemma_trim_start_after_spaces(pre: Seq<char>, x: Seq<char>)
    requires
        forall|q: int| 0 <= q < pre.len() ==> is_white_space(pre[q]),
        x.len() > 0,
        !is_white_space(x[0]),
    ensures
        trim_start_seq(pre + x) == x,
    decreases pre.len(),
{
    if pre.len() == 0 {
        assert(pre + x =~= x);
    } else {
        assert((pre + x).drop_first() =~= pre.drop_first() + x);
        lemma_trim_start_after_spaces(pre.drop_first(), x);
    }
}

/// The attribute right after a `;` that is some spaces, then `word` in any
/// case, then `=`, is a scope attribute when `word` is `domain` or `path`.
proof fn lemma_attribute_form(cookie: Seq<char>, i: int, w: int, word: Seq<char>)
    requires
        word == "domain"@ || word == "path"@,
        0 <= i,
        0 <= w,
        i + 1 + w + word.len() < cookie.len(),
        cookie[i] == ';',
        forall|q: int| i + 1 <= q < i + 1 + w ==> cookie[q] == ' ',
        ascii_lower_seq(cookie.subrange(i + 1 + w, i + 1 + w + word.len())) == word,
        cookie[i + 1 + w + word.len()] == '=',
    ensures
        is_scope_attribute(attribute_after(cookie, i)),
{
    reveal_strlit("domain");
    reveal_strlit("path");
    let n = word.len() as int;
    let j = i + 1 + w + n;
    let orig = cookie.subrange(i + 1 + w, j);
    assert forall|q: int| i + 1 + w <= q < j implies #[trigger] cookie[q] != ';' && cookie[q]
        != '=' && !is_white_space(cookie[q]) by {
        let r = q - (i + 1 + w);
        assert(orig[r] == cookie[q]);
        assert(ascii_lower_seq(orig)[r] == ascii_lower(orig[r]));
        lemma_letter_is_plain(orig[r], word[r]);
    }
    lemma_index_of_from(cookie, ';', i + 1);
    let e = index_of_from(cookie, ';', i + 1);
    if e <= j {
        if e < i + 1 + w {
            assert(cookie[e] == ' ');
        } else if e < j {
            assert(cookie[e] != ';');
        } else {
            assert(cookie[e] == '=');
        }
    }
    let attr = cookie.subrange(i + 1, e);
    assert(attr == attribute_after(cookie, i));
    assert(attr[w + n] == '=');
    lemma_index_of_from(attr, '=', 0);
    let eq = index_of_from(attr, '=', 0);
    if eq < w + n {
        if eq < w {
            assert(attr[eq] == cookie[i + 1 + eq]);
        } else {
            assert(attr[eq] == cookie[i + 1 + eq]);
        }
    }
    assert(eq == w + n);
    let pre = attr.subrange(0, w);
    assert forall|q: int| 0 <= q < pre.len() implies is_white_space(pre[q]) by {
        assert(pre[q] == cookie[i + 1 + q]);
    }
    assert(attr.subrange(0, eq) =~= pre + orig);
    assert(orig[0] == cookie[i + 1 + w]);
    lemma_trim_start_after_spaces(pre, orig);
    assert(orig.last() == cookie[j - 1]);
    assert(trim_end_seq(orig) == orig);
    assert(trim_seq(attr.subrange(0, eq)) == orig);
}

/// A cookie with `; Domain=` or `; Path=` after any of its `;` (any case,
/// any number of spaces before the name) is stored as given.
pub proof fn lemma_domain_or_path_attribute_keeps_cookie(
    cookies: Seq<Seq<char>>,
    url: Seq<char>,
    k: int,
    i: int,
    w: int,
    word: Seq<char>,
)
    requires
        url_host(url) is Some,
        0 <= k < cookies.len(),
        word == "domain"@ || word == "path"@,
        0 <= i,
        0 <= w,
        i + 1 + w + word.len() < cookies[k].len(),
        cookies[k][i] == ';',
        forall|q: int| i + 1 <= q < i + 1 + w ==> cookies[k][q] == ' ',
        ascii_lower_seq(cookies[k].subrange(i + 1 + w, i + 1 + w + word.len())) == word,
        cookies[k][i + 1 + w + word.len()] == '=',
    ensures
        cookies_to_set(cookies, url)[k] == cookies[k],
{
    lemma_attribute_form(cookies[k], i, w, word);
    lemma_any_scope_attribute_keeps_cookie(cookies, url, k, i);
}

/// When the URL parses, every cookie yields exactly one line, in order: a
/// cookie that names its own domain or path is stored unchanged, and any
/// other cookie is the beginning of its line, which ends in `; Path=/`.
pub proof fn lemma_cookie_lines(cookies: Seq<Seq<char>>, url: Seq<char>, k: int)
    requires
        url_host(url) is Some,
        0 <= k < cookies.len(),
    ensures
        cookies_to_set(cookies, url).len() == cookies.len(),
        cookie_is_scoped(cookies[k]) ==> cookies_to_set(cookies, url)[k] == cookies[k],
        !cookie_is_scoped(cookies[k]) ==> {
            let line = cookies_to_set(cookies, url)[k];
            &&& line.subrange(0, cookies[k].len() as int) == cookies[k]
            &&& line.subrange(line.len() - 8, line.len() as int) == "; Path=/"@
        },
{
    reveal_strlit("; Path=/");
    let line = cookies_to_set(cookies, url)[k];
    if !cookie_is_scoped(cookies[k]) {
        assert(line.subrange(0, cookies[k].len() as int) =~= cookies[k]);
        assert(line.subrange(line.len() - 8, line.len() as int) =~= "; Path=/"@);
    }
}

// ---------------------------------------------------------------------------
// Content of a fetch.
// ---------------------------------------------------------------------------

/// The content a fetch returns for a page's HTML in the requested format,
/// narrowed by the selector when one is given.
pub open spec fn fetched_content(
    format: OutputFormat,
    html: Seq<char>,
    selector: Option<Seq<char>>,
) -> Result<Seq<char>, Seq<char>> {
    match format {
        OutputFormat::Html => extracted_html(html, selector),
        OutputFormat::Text => extracted_text(html, selector),
        OutputFormat::Markdown => extracted_markdown(html, selector),
    }
}

/// The content can be produced: only Markdown rendering can fail to return.
pub open spec fn content_renders(
    format: OutputFormat,
    html: Seq<char>,
    selector: Option<Seq<char>>,
) -> bool {
    format == OutputFormat::Markdown ==> markdown_renders(html, selector)
}

/// The content a fetch returns: the HTML itself, its text or its Markdown,
/// narrowed by a CSS selector group when one is given.
pub fn render_content(format: OutputFormat, html: String, selector: Option<&str>) -> (r: Result<
    String,
    String,
>)
    requires
        content_renders(format, html@, opt_str_view(selector)),
    ensures
        result_view(r) == fetched_content(format, html@, opt_str_view(selector)),
{
    match format {
        OutputFormat::Html => select_html(html, selector),
        OutputFormat::Text => extract_text(html.as_str(), selector),
        OutputFormat::Markdown => html_to_markdown(html.as_str(), selector),
    }
}

/// The message of a selector that does not parse is answered with 400 (Bad
/// Request), unless the parser's own error text already speaks of a timeout
/// or of an unreachable host.
pub proof fn lemma_invalid_selector_is_bad_request(e: Seq<char>)
    requires
        !is_timeout_message(e),
        !is_unreachable_message(e),
    ensures
        classified_status(invalid_selector_message(e)) == 400,
{
    let p = "invalid selector: "@;
    reveal_strlit("invalid selector: ");
    reveal_strlit("selector");
    reveal_strlit("timeout");
    reveal_strlit("timed out");
    reveal_strlit("resolve");
    reveal_strlit("connect");
    reveal_strlit("dns");
    let m = p + e;
    assert(m.subrange(8int, 8int + "selector"@.len()) =~= "selector"@);
    assert(is_bad_request_message(m));
    assert forall|i: int| 0 <= i < p.len() implies {
        &&& (#[trigger] p[i] != "timeout"@[0] || (i + 1 < p.len() && p[i + 1] != "timeout"@[1]))
        &&& (p[i] != "timed out"@[0] || (i + 1 < p.len() && p[i + 1] != "timed out"@[1]))
        &&& (p[i] != "resolve"@[0] || (i + 1 < p.len() && p[i + 1] != "resolve"@[1]))
        &&& (p[i] != "connect"@[0] || (i + 1 < p.len() && p[i + 1] != "connect"@[1]))
        &&& (p[i] != "dns"@[0] || (i + 1 < p.len() && p[i + 1] != "dns"@[1]))
    } by {
        assert(i == 0 || i == 1 || i == 2 || i == 3 || i == 4 || i == 5 || i == 6 || i == 7 || i
            == 8 || i == 9 || i == 10 || i == 11 || i == 12 || i == 13 || i == 14 || i == 15 || i
            == 16 || i == 17);
    }
    lemma_contains_after_prefix(p, e, "timeout"@);
    lemma_contains_after_prefix(p, e, "timed out"@);
    lemma_contains_after_prefix(p, e, "resolve"@);
    lemma_contains_after_prefix(p, e, "connect"@);
    lemma_contains_after_prefix(p, e, "dns"@);
}

/// A fetch with a selector that does not parse fails, in every format, with
/// the invalid-selector message, and that failure is answered with 400 (Bad
/// Request) unless the parser's error text itself speaks of a timeout or an
/// unreachable host.
pub proof fn lemma_bad_selector_fetch_is_bad_request(
    format: OutputFormat,
    html: Seq<char>,
    selector: Seq<char>,
)
    requires
        selector_parse_error(selector) is Some,
        !is_timeout_message(selector_parse_error(selector)->Some_0),
        !is_unreachable_message(selector_parse_error(selector)->Some_0),
    ensures
        fetched_content(format, html, Some(selector)) == Err::<Seq<char>, Seq<char>>(
            invalid_selector_message(selector_parse_error(selector)->Some_0),
        ),
        classified_status(invalid_selector_message(selector_parse_error(selector)->Some_0))
            == 400,
{
    lemma_invalid_selector_is_bad_request(selector_parse_error(selector)->Some_0);
}

/// Characters a fetch returns at most, unless the request says otherwise.
pub const DEFAULT_MAX_CHARS: usize = 50000;

/// Content cut to at most `max_chars` characters (no limit when it is 0),
/// and whether anything was cut.
pub open spec fn truncated(content: Seq<char>, max_chars: usize) -> (Seq<char>, bool) {
    if max_chars == 0 || content.len() <= max_chars {
        (content, false)
    } else {
        (content.take(max_chars as int), true)
    }
}

/// Cut content is a prefix of the content, no longer than the limit, and it
/// is marked as cut exactly when the limit is set and the content is longer.
pub proof fn lemma_truncation(content: Seq<char>, max_chars: usize)
    ensures
        ({
            let (cut, was_cut) = truncated(content, max_chars);
            &&& cut == content.take(cut.len() as int)
            &&& max_chars > 0 ==> cut.len() <= max_chars
            &&& was_cut <==> (max_chars > 0 && content.len() > max_chars)
            &&& !was_cut ==> cut == content
        }),
{
    assert(content.take(content.len() as int) =~= content);
}

/// Cuts content to at most `max_chars` characters (0: no limit), and says
/// whether anything was cut.
pub fn truncate_content(content: String, max_chars: usize) -> (r: (String, bool))
    ensures
        (r.0@, r.1) == truncated(content@, max_chars),
{
    let n = content.as_str().unicode_len();
    if max_chars == 0 || n <= max_chars {
        (content, false)
    } else {
        let cut = String::from_str(content.as_str().substring_char(0, max_chars));
        assert(content@.subrange(0, max_chars as int) =~= content@.take(max_chars as int));
        (cut, true)
    }
}

/// The answer to a fetch, from what the page gave: its final URL, its
/// title and its HTML; the content is cut to `max_chars` characters (0: no
/// limit). Fails only when the content cannot be produced.
pub fn fetch_response(
    url: String,
    title: Option<String>,
    format: OutputFormat,
    html: String,
    selector: Option<&str>,
    max_chars: usize,
) -> (r: Result<FetchResponse, String>)
    requires
        content_renders(format, html@, opt_str_view(selector)),
    ensures
        match r {
            Ok(resp) => {
                &&& resp.url == url
                &&& resp.title == title
                &&& fetched_content(format, html@, opt_str_view(selector)) matches Ok(c)
                    && (resp.content@, resp.truncated) == truncated(c, max_chars)
            },
            Err(e) => fetched_content(format, html@, opt_str_view(selector)) == Err::<
                Seq<char>,
                Seq<char>,
            >(e@),
        },
{
    match render_content(format, html, selector) {
        Ok(content) => {
            let (content, truncated) = truncate_content(content, max_chars);
            Ok(FetchResponse { url, title, content, truncated })
        },
        Err(e) => Err(e),
    }
}

/// The message of a click on a matched element that failed.
pub open spec fn click_failed_message() -> Seq<char> {
    "element.click() failed"@
}

/// The message of a click whose selector matched no element.
pub open spec fn element_not_found_message(selector: Seq<char>) -> Seq<char> {
    "element not found: "@ + selector
}

/// The answer to a click, from what the page gave: whether an element
/// matched the selector, the error of clicking it if that failed, and the
/// page's text after the click and the settle time. No match is answered
/// as not found (404), a failed click as an internal error (500); otherwise
/// the answer echoes the URL and the selector and says the element was
/// clicked.
pub fn click_response(
    url: String,
    selector: String,
    matched: bool,
    click_error: Option<String>,
    text_after: Option<String>,
) -> (r: Result<ClickResponse, AppError>)
    ensures
        match r {
            Ok(resp) => {
                &&& matched && click_error is None
                &&& resp.url == url
                &&& resp.selector == selector
                &&& resp.clicked
                &&& resp.text_after == text_after
            },
            Err(e) => if !matched {
                &&& e is NotFound
                &&& app_error_status(e) == 404
                &&& app_error_message(e) == element_not_found_message(selector@)
            } else {
                &&& click_error is Some
                &&& e is Internal
                &&& app_error_status(e) == 500
                &&& app_error_message(e) == click_failed_message()
            },
        },
{
    if !matched {
        return Err(AppError::NotFound(concat_str("element not found: ", selector.as_str())));
    }
    if click_error.is_some() {
        return Err(AppError::Internal(String::from_str("element.click() failed")));
    }
    Ok(ClickResponse { url, selector, clicked: true, text_after })
}

} // verus!
