//! Renewing the session: the three pages of the WeChat login, and what is
//! read from each reply.

use vstd::prelude::*;
use vstd::utf8::{is_char_boundary, length_of_first_scalar, pop_first_scalar, valid_utf8, encode_utf8_valid_utf8};
use crate::book_store_info::{session_cookie, session_cookie_value, BookStoreInfo};
use crate::headers::{
    is_header_name, is_header_value, lemma_printable_value, lemma_request_headers_size, pairs_view, request_headers, tr,
};
use crate::outside::{opt_text, regex_capture, regex_capture_group};
use crate::requests::{HttpMethod, HttpRequest, RequestView};
use crate::text::utf8_of;

verus! {

/// Why a decision of the client failed.
#[derive(Debug)]
pub enum BookingError {
    /// No room with the asked id or name is in the full room list.
    NoSuchRoom,
    /// No person's settings carry the asked name.
    NoSuchConfig,
    /// A search pattern did not compile.
    Pattern(regex::Error),
}

impl BookingError {
    /// The message of the error, where it has a fixed one.
    pub fn message(&self) -> (m: Option<String>)
        ensures
            self is NoSuchRoom ==> (m matches Some(t) && t@ == "NO SUCH ROOM"@),
            self is NoSuchConfig ==> (m matches Some(t) && t@ == "NO SUCH CONFIG"@),
            self is Pattern ==> m is None,
    {
        match self {
            BookingError::NoSuchRoom => Some(String::from_str("NO SUCH ROOM")),
            BookingError::NoSuchConfig => Some(String::from_str("NO SUCH CONFIG")),
            BookingError::Pattern(_) => None,
        }
    }
}

/// Searches `text` with `pattern` and takes group `group` of the first match.
pub fn capture(pattern: &str, text: &str, group: usize) -> (r: Result<Option<String>, BookingError>)
    ensures
        match regex_capture(pattern@, text@, group as int) {
            None => r matches Err(e) && e is Pattern,
            Some(c) => r matches Ok(o) && opt_text(o) == c,
        },
{
    match regex_capture_group(pattern, text, group) {
        Ok(c) => Ok(c),
        Err(e) => Err(BookingError::Pattern(e)),
    }
}

/// The address of the login page of the user's WeChat id.
pub open spec fn login_page_url(open_id: Seq<char>) -> Seq<char> {
    "http://libwx.cau.edu.cn/remote/static/authIndex?parameter=1&openid="@ + open_id
}

/// The request for the login page: the common headers, three seconds to reply.
pub open spec fn login_page_request_view(open_id: Seq<char>) -> RequestView {
    RequestView {
        method: HttpMethod::Get,
        url: login_page_url(open_id),
        headers: request_headers(Seq::empty(), true),
        body: None,
        query: None,
        timeout_secs: Some(3),
        follow_redirects: true,
    }
}

/// The pattern of the redirect line of the login page.
pub open spec fn redirect_pattern() -> Seq<char> {
    "window.location.href = urls \\+ \"(.*)\";"@
}

/// The login address suffix in the login page: the whole first match of the
/// redirect line (as the service's page is read, the match itself).
pub fn login_redirect_suffix(page: &str) -> (r: Result<Option<String>, BookingError>)
    ensures
        match regex_capture(redirect_pattern(), page@, 0) {
            None => r matches Err(e) && e is Pattern,
            Some(c) => r matches Ok(o) && opt_text(o) == c,
        },
{
    capture("window.location.href = urls \\+ \"(.*)\";", page, 0)
}

/// The referer of the WeChat login request.
pub open spec fn login_referer() -> Seq<char> {
    "http://libwx.cau.edu.cn/remote/static/authIndex?parameter=1&openid=oJ7t-1fCfr-FokhmYcI5QerAJIxo"@
}

/// The WeChat login request: the login address with the suffix, a referer
/// and the common headers; a redirect is not followed, for its cookie is the
/// reply.
pub open spec fn wechat_login_request_view(suffix: Seq<char>) -> RequestView {
    RequestView {
        method: HttpMethod::Get,
        url: "http://libwx.cau.edu.cn/space/static/dowechatlogin?type=discuss"@ + suffix,
        headers: request_headers(seq![("Referer"@, login_referer())], true),
        body: None,
        query: None,
        timeout_secs: None,
        follow_redirects: false,
    }
}

/// The WeChat login request for a login address suffix.
pub fn wechat_login_request(suffix: &str) -> (req: HttpRequest)
    ensures
        req@ == wechat_login_request_view(suffix@),
{
    let add_on = [(
        "Referer",
        "http://libwx.cau.edu.cn/remote/static/authIndex?parameter=1&openid=oJ7t-1fCfr-FokhmYcI5QerAJIxo",
    )];
    proof {
        reveal_strlit("Referer");
        reveal_strlit("http://libwx.cau.edu.cn/remote/static/authIndex?parameter=1&openid=oJ7t-1fCfr-FokhmYcI5QerAJIxo");
        lemma_printable_value(login_referer());
        assert(pairs_view(add_on@) =~= seq![("Referer"@, login_referer())]);
        assert(is_header_name("Referer"@));
    }
    proof {
        lemma_request_headers_size(pairs_view(add_on@), true);
    }
    let headers = tr(&add_on, true);
    let mut url = String::from_str("http://libwx.cau.edu.cn/space/static/dowechatlogin?type=discuss");
    url.append(suffix);
    HttpRequest {
        method: HttpMethod::Get,
        url,
        headers,
        body: None,
        query: None,
        timeout_secs: None,
        follow_redirects: false,
    }
}

/// Cutting valid UTF-8 at a character boundary leaves valid UTF-8 whose
/// boundaries are those of the whole, shifted.
proof fn lemma_boundary_shift(b: Seq<u8>, i: int, j: int)
    requires
        valid_utf8(b),
        is_char_boundary(b, i),
        0 <= j,
    ensures
        valid_utf8(b.subrange(i, b.len() as int)),
        is_char_boundary(b.subrange(i, b.len() as int), j) == is_char_boundary(b, i + j),
    decreases b.len(),
{
    if i == 0 {
        assert(b.subrange(0, b.len() as int) =~= b);
    } else {
        let l = length_of_first_scalar(b);
        let p = pop_first_scalar(b);
        assert(p.len() < b.len());
        assert(i <= b.len());
        assert(is_char_boundary(p, i - l));
        assert(0 <= i - l <= p.len());
        lemma_boundary_shift(p, i - l, j);
        assert(b.subrange(i, b.len() as int) =~= p.subrange(i - l, p.len() as int));
    }
}

/// Whether bytes 11 to 43 of a cookie header can be cut out as text: the
/// header is long enough and both cuts fall between characters.
pub open spec fn session_id_cuttable(cookie: Seq<char>) -> bool {
    let b = utf8_of(cookie);
    &&& b.len() >= 43
    &&& is_char_boundary(b, 11)
    &&& is_char_boundary(b, 43)
}

/// The session id in a `Set-Cookie` header: its bytes 11 to 43, after
/// `JSESSIONID=`; nothing when they cannot be cut out.
pub fn session_id_from_cookie(cookie: &str) -> (r: Option<String>)
    ensures
        r is Some <==> session_id_cuttable(cookie@),
        r matches Some(s) ==> utf8_of(s@) == utf8_of(cookie@).subrange(11, 43),
{
    let n = cookie.as_bytes().len();
    if n >= 43 && cookie.is_char_boundary(11) {
        let (_, tail) = cookie.split_at(11);
        assert(utf8_of(tail@) =~= utf8_of(cookie@).subrange(11, utf8_of(cookie@).len() as int));
        proof {
            encode_utf8_valid_utf8(cookie@);
            lemma_boundary_shift(utf8_of(cookie@), 11, 32);
        }
        if tail.is_char_boundary(32) {
            let (mid, _) = tail.split_at(32);
            let s = mid.to_owned();
            assert(utf8_of(s@) =~= utf8_of(cookie@).subrange(11, 43));
            return Some(s);
        }
    }
    None
}

/// The referer of the request for the discussion-room index.
pub open spec fn notice_referer() -> Seq<char> {
    "http://libwx.cau.edu.cn/space/discuss/notice?linkSign=notice&type=discuss&noticeId=7f35dde178074b17bc547ba78160930c"@
}

/// The request for the discussion-room index, whose page holds the CSRF
/// token of the session.
pub open spec fn discuss_index_request_view(jsessionid: Seq<char>) -> RequestView {
    RequestView {
        method: HttpMethod::Get,
        url: "http://libwx.cau.edu.cn/space/discuss/mobileIndex?linkSign=discuss&type=discuss"@,
        headers: request_headers(seq![("Cookie"@, session_cookie(jsessionid)), ("Referer"@, notice_referer())], true),
        body: None,
        query: None,
        timeout_secs: None,
        follow_redirects: true,
    }
}

/// The request for the discussion-room index of a session.
pub fn discuss_index_request(jsessionid: &str) -> (req: HttpRequest)
    requires
        is_header_value(jsessionid@),
    ensures
        req@ == discuss_index_request_view(jsessionid@),
{
    let cookie = session_cookie_value(jsessionid);
    let add_on = [
        ("Cookie", cookie.as_str()),
        ("Referer", "http://libwx.cau.edu.cn/space/discuss/notice?linkSign=notice&type=discuss&noticeId=7f35dde178074b17bc547ba78160930c"),
    ];
    proof {
        reveal_strlit("Cookie");
        reveal_strlit("Referer");
        reveal_strlit("http://libwx.cau.edu.cn/space/discuss/notice?linkSign=notice&type=discuss&noticeId=7f35dde178074b17bc547ba78160930c");
        lemma_printable_value(notice_referer());
        assert(pairs_view(add_on@) =~= seq![("Cookie"@, session_cookie(jsessionid@)), ("Referer"@, notice_referer())]);
        assert(is_header_name("Cookie"@));
        assert(is_header_name("Referer"@));
    }
    proof {
        lemma_request_headers_size(pairs_view(add_on@), true);
    }
    let headers = tr(&add_on, true);
    HttpRequest {
        method: HttpMethod::Get,
        url: String::from_str("http://libwx.cau.edu.cn/space/discuss/mobileIndex?linkSign=discuss&type=discuss"),
        headers,
        body: None,
        query: None,
        timeout_secs: None,
        follow_redirects: true,
    }
}

/// The pattern of the CSRF token in the discussion-room index.
pub open spec fn csrf_pattern() -> Seq<char> {
    "name=\"_csrf\" content=\"(.*)\""@
}

/// The CSRF token in the discussion-room index: the first group of the
/// first match of the token's meta tag.
pub fn csrf_token_from_page(page: &str) -> (r: Result<Option<String>, BookingError>)
    ensures
        match regex_capture(csrf_pattern(), page@, 1) {
            None => r matches Err(e) && e is Pattern,
            Some(c) => r matches Ok(o) && opt_text(o) == c,
        },
{
    capture("name=\"_csrf\" content=\"(.*)\"", page, 1)
}

impl BookStoreInfo {
    /// The request for the login page of the user's WeChat id.
    pub fn login_page_request(&self) -> (req: HttpRequest)
        ensures
            req@ == login_page_request_view(self.config.OPEN_ID@),
    {
        let add_on: [(&'static str, &str); 0] = [];
        assert(pairs_view(add_on@) =~= Seq::empty());
        proof {
            lemma_request_headers_size(pairs_view(add_on@), true);
        }
        let headers = tr(&add_on, true);
        let mut url = String::from_str("http://libwx.cau.edu.cn/remote/static/authIndex?parameter=1&openid=");
        url.append(self.config.OPEN_ID.as_str());
        HttpRequest {
            method: HttpMethod::Get,
            url,
            headers,
            body: None,
            query: None,
            timeout_secs: Some(3),
            follow_redirects: true,
        }
    }
}

} // verus!
