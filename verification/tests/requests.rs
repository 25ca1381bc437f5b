use school_library::book_store_info::{room_list_of, room_list_start, BookStoreInfo, RoomListAction, RoomListEvent, RoomListState};
use school_library::headers::{header_value_ok, tr};
use school_library::requests::HttpMethod;
use school_library::session::{
    csrf_token_from_page, discuss_index_request, login_redirect_suffix, session_id_from_cookie, wechat_login_request,
    BookingError,
};
use school_library::structs::{
    BookStoreInfoConfig, RequestWithCookiesPageList, RequestWithCookiesParams, RequestWithCookiesRooms,
    RequestWithCookiesRootInterface, RequestWithCookiesTimes,
};
use school_library::text::{push_centered, push_decimal, push_signed_decimal, str_equal};

fn config() -> BookStoreInfoConfig {
    BookStoreInfoConfig {
        OPEN_ID: "oJ7t-open".to_string(),
        JSESSIONID: "ABCDEF".to_string(),
        X_CSRF_TOKEN: "token-1".to_string(),
        UUID: "uuid".to_string(),
        RULE_ID: "rule-1".to_string(),
        PREFER: "room-9".to_string(),
        PERSON: vec![],
    }
}

fn room(id: &str, taken: &[bool]) -> RequestWithCookiesPageList {
    RequestWithCookiesPageList {
        id: id.to_string(),
        isdel: false,
        uid: String::new(),
        rname: format!("name-{}", id),
        address: String::new(),
        rtype: String::new(),
        allowuser: 0,
        minuser: 0,
        venceid: String::new(),
        gateid: String::new(),
        status: true,
        opentime: true,
        appointnum: 0,
        rulepoliy: String::new(),
        selected: false,
        authid: String::new(),
        gatestatus: 0,
        opensign: false,
        isseat: false,
        payrule: String::new(),
        rno: 0,
        pics: String::new(),
        wfId: String::new(),
        checkuser: false,
        times: taken.iter().map(|t| RequestWithCookiesTimes { select: *t, time: String::new() }).collect(),
        timeSpace: 0,
    }
}

#[test]
fn common_headers_are_sent_by_default() {
    let h = tr(&[], true);
    assert_eq!(h.len(), 7);
    assert_eq!(h.get("connection").unwrap(), "keep-alive");
    assert_eq!(h.get("dnt").unwrap(), "1");
    assert_eq!(h.get("cache-control").unwrap(), "max-age=0");
    assert_eq!(h.get("accept-language").unwrap(), "zh-CN,zh;q=0.9,en;q=0.8,en-GB;q=0.7,en-US;q=0.6");
}

#[test]
fn no_headers_without_default_or_pairs() {
    assert!(tr(&[], false).is_empty());
}

#[test]
fn added_header_replaces_common_and_earlier_ones() {
    let h = tr(&[("Cache-Control", "no-cache"), ("Pragma", "a"), ("Pragma", "b")], true);
    assert_eq!(h.get("cache-control").unwrap(), "no-cache");
    assert_eq!(h.get_all("pragma").iter().count(), 1);
    assert_eq!(h.get("pragma").unwrap(), "b");
    assert_eq!(h.get("connection").unwrap(), "keep-alive");
    assert_eq!(h.len(), 8);
}

#[test]
fn header_value_check_follows_header_rules() {
    assert!(header_value_ok("JSESSIONID=abc; Path=/"));
    assert!(header_value_ok("tab\there"));
    assert!(header_value_ok("non-ascii é"));
    assert!(!header_value_ok("line\nbreak"));
    assert!(!header_value_ok("del\u{7f}"));
}

#[test]
fn rooms_request_carries_session_and_section() {
    let info = BookStoreInfo::from_config("c.toml", config());
    let req = info.rooms_request(1, "2024-05-06");
    assert_eq!(req.method, HttpMethod::Post);
    assert_eq!(
        req.url,
        "http://libwx.cau.edu.cn/space/discuss/findRoom/0a4c97c5b7844420abdc7128715b8885/57879bf578f24a43bae98434682bf176/2024-05-06"
    );
    assert_eq!(req.headers.len(), 3);
    assert_eq!(req.headers.get("x-csrf-token").unwrap(), "token-1");
    assert_eq!(req.headers.get("cookie").unwrap(), "JSESSIONID=ABCDEF");
    assert_eq!(req.headers.get("content-type").unwrap(), "application/x-www-form-urlencoded");
    assert_eq!(req.body.as_deref(), Some("currentPage=1&pageSize=100"));
    assert!(req.follow_redirects);
}

#[test]
fn rooms_request_of_other_sections_has_empty_code() {
    let info = BookStoreInfo::from_config("c.toml", config());
    let req = info.rooms_request(4, "d");
    assert!(req.url.contains("/findRoom/31df48baed5148a5ae4eb219cdd1e415/"));
    let req = info.rooms_request(0, "d");
    assert_eq!(req.url, "http://libwx.cau.edu.cn/space/discuss/findRoom//57879bf578f24a43bae98434682bf176/d");
}

#[test]
fn rooms_request_today_uses_a_date() {
    let info = BookStoreInfo::from_config("c.toml", config());
    let req = info.rooms_request_today(1);
    let day = req.url.rsplit('/').next().unwrap().to_string();
    assert_eq!(day.len(), 10);
    assert_eq!(&day[4..5], "-");
}

#[test]
fn room_list_success_sets_rule_and_gives_seats() {
    let mut info = BookStoreInfo::from_config("c.toml", config());
    let (state, action) = room_list_start();
    assert_eq!(state, RoomListState::FirstTry);
    assert!(matches!(action, RoomListAction::FetchRooms));
    let (state, action) = info.room_list_step(state, RoomListEvent::Listed(vec![room("r1", &[false, true])], "rule-2".to_string()));
    assert_eq!(state, RoomListState::Finished);
    match action {
        RoomListAction::SaveConfigAndReturn(seats) => {
            assert_eq!(seats.len(), 1);
            assert_eq!(seats[0].times, "OX");
            assert_eq!(seats[0].avai, 1);
        }
        _ => panic!("expected seats"),
    }
    assert_eq!(info.config.RULE_ID, "rule-2");
}

#[test]
fn room_list_failure_renews_the_session_once() {
    let mut info = BookStoreInfo::from_config("c.toml", config());
    let (state, action) = info.room_list_step(RoomListState::FirstTry, RoomListEvent::ListFailed);
    assert_eq!(state, RoomListState::Renewing);
    assert!(matches!(action, RoomListAction::RenewCookies));
    let (state, action) = info.room_list_step(state, RoomListEvent::Renewed("NEWSESSION".to_string(), "NEWTOKEN".to_string()));
    assert_eq!(state, RoomListState::SecondTry);
    assert!(matches!(action, RoomListAction::SaveConfigAndFetchRooms));
    assert_eq!(info.config.JSESSIONID, "NEWSESSION");
    assert_eq!(info.config.X_CSRF_TOKEN, "NEWTOKEN");
    let (state, action) = info.room_list_step(state, RoomListEvent::ListFailed);
    assert_eq!(state, RoomListState::Finished);
    assert!(matches!(action, RoomListAction::Fail));
    assert_eq!(info.config.RULE_ID, "rule-1");
}

#[test]
fn room_list_renewal_failure_gives_up() {
    let mut info = BookStoreInfo::from_config("c.toml", config());
    let (state, action) = info.room_list_step(RoomListState::Renewing, RoomListEvent::RenewFailed);
    assert_eq!(state, RoomListState::Finished);
    assert!(matches!(action, RoomListAction::Fail));
    assert_eq!(info.config.JSESSIONID, "ABCDEF");
}

#[test]
fn room_list_reply_gives_rooms_and_rule() {
    let reply = RequestWithCookiesRootInterface {
        status: true,
        content: String::new(),
        params: RequestWithCookiesParams {
            rooms: RequestWithCookiesRooms {
                currentPage: 1,
                showPage: vec![1],
                nextPage: 1,
                next: false,
                front: false,
                frontPage: 1,
                pageSize: 100,
                totalCount: 1,
                totalPage: 1,
                pageList: vec![room("q", &[])],
            },
            ruleId: "rid".to_string(),
            usetype: "1".to_string(),
        },
    };
    let (rooms, rule) = room_list_of(reply);
    assert_eq!(rooms.len(), 1);
    assert_eq!(rooms[0].id, "q");
    assert_eq!(rule, "rid");
}

#[test]
fn login_page_request_carries_open_id() {
    let info = BookStoreInfo::from_config("c.toml", config());
    let req = info.login_page_request();
    assert_eq!(req.url, "http://libwx.cau.edu.cn/remote/static/authIndex?parameter=1&openid=oJ7t-open");
    assert_eq!(req.timeout_secs, Some(3));
    assert_eq!(req.headers.len(), 7);
}

#[test]
fn redirect_suffix_is_the_whole_match() {
    let page = "<script>\nvar urls = 'x';\nwindow.location.href = urls + \"&code=42\";\n</script>";
    let suffix = login_redirect_suffix(page).unwrap().unwrap();
    assert_eq!(suffix, "window.location.href = urls + \"&code=42\";");
    assert!(login_redirect_suffix("nothing here").unwrap().is_none());
}

#[test]
fn wechat_login_does_not_follow_redirects() {
    let req = wechat_login_request("&a=1");
    assert_eq!(req.url, "http://libwx.cau.edu.cn/space/static/dowechatlogin?type=discuss&a=1");
    assert!(!req.follow_redirects);
    assert_eq!(
        req.headers.get("referer").unwrap(),
        "http://libwx.cau.edu.cn/remote/static/authIndex?parameter=1&openid=oJ7t-1fCfr-FokhmYcI5QerAJIxo"
    );
    assert_eq!(req.headers.len(), 8);
}

#[test]
fn session_id_is_cut_from_the_cookie() {
    let cookie = "JSESSIONID=0123456789ABCDEF0123456789ABCDEF; Path=/; HttpOnly";
    assert_eq!(session_id_from_cookie(cookie).unwrap(), "0123456789ABCDEF0123456789ABCDEF");
    assert!(session_id_from_cookie("JSESSIONID=short").is_none());
    assert!(session_id_from_cookie("JSESSIONID=0123456789ABCDEF0123456789ABCDEé").is_none());
}

#[test]
fn discuss_index_request_carries_the_session() {
    let req = discuss_index_request("S1");
    assert_eq!(req.url, "http://libwx.cau.edu.cn/space/discuss/mobileIndex?linkSign=discuss&type=discuss");
    assert_eq!(req.headers.get("cookie").unwrap(), "JSESSIONID=S1");
    assert_eq!(req.headers.len(), 9);
}

#[test]
fn csrf_token_is_the_first_group() {
    let page = "<meta name=\"_csrf\" content=\"abc-123\"/>";
    assert_eq!(csrf_token_from_page(page).unwrap().unwrap(), "abc-123");
    assert!(csrf_token_from_page("<html></html>").unwrap().is_none());
}

#[test]
fn error_messages() {
    assert_eq!(BookingError::NoSuchRoom.message().unwrap(), "NO SUCH ROOM");
    assert_eq!(BookingError::NoSuchConfig.message().unwrap(), "NO SUCH CONFIG");
}

#[test]
fn text_helpers() {
    let mut s = String::new();
    push_decimal(&mut s, 0);
    s.push(' ');
    push_decimal(&mut s, 1207);
    s.push(' ');
    push_signed_decimal(&mut s, -45);
    assert_eq!(s, "0 1207 -45");
    let mut c = String::new();
    push_centered(&mut c, "abc", 8);
    assert_eq!(c, format!("{:^8}", "abc"));
    let mut c = String::new();
    push_centered(&mut c, "toolong", 3);
    assert_eq!(c, "toolong");
    assert!(str_equal("a", "a") && !str_equal("a", "b"));
}

#[test]
fn many_pairs_of_few_names() {
    let pairs: Vec<(&'static str, &str)> = (0..5000).map(|k| if k % 2 == 0 { ("Pragma", "a") } else { ("Pragma", "b") }).collect();
    let h = tr(&pairs, true);
    assert_eq!(h.len(), 8);
    assert_eq!(h.get("pragma").unwrap(), "b");
}
