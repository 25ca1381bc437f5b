//! The booking client's state (settings, seat lists, appointments to sign)
//! and its decisions: which requests to send, what to make of the replies,
//! and when to renew the session.

use vstd::prelude::*;
use crate::headers::{
    is_header_name, is_header_value, lemma_header_value_concat, lemma_printable_value, lemma_request_headers_size, pairs_view,
    request_headers, tr,
};
use crate::requests::{HttpMethod, HttpRequest, RequestView};
use crate::seats::{
    count_free_marks, is_ranked, law_available_within_full, law_free_count_matches_marks, listed, rank_seats,
    seat_infos, shows_room,
};
use crate::structs::{
    AppointmentInfo, BookStoreInfoConfig, RequestWithCookiesPageList, RequestWithCookiesRootInterface,
    SeatInfo,
};
use crate::outside::{is_date_text, local_date, ClockText};

verus! {

/// The booking client: where its settings are kept, the settings, the rooms
/// as last fetched (all, ranked, and ranked with a free slot), and the
/// appointments that wait to be signed.
#[derive(Debug)]
pub struct BookStoreInfo {
    pub config_path: String,
    pub config: BookStoreInfoConfig,
    pub raw_data: Vec<SeatInfo>,
    pub full_data: Vec<SeatInfo>,
    pub available_data: Vec<SeatInfo>,
    pub raw_appointment: Vec<AppointmentInfo>,
    pub appointment_to_be_signed: Vec<AppointmentInfo>,
}

/// The settings that the session headers carry may stand in headers.
pub open spec fn session_headers_ok(config: BookStoreInfoConfig) -> bool {
    is_header_value(config.X_CSRF_TOKEN@) && is_header_value(config.JSESSIONID@)
}

/// The value of the cookie header of a session.
pub open spec fn session_cookie(jsessionid: Seq<char>) -> Seq<char> {
    "JSESSIONID="@ + jsessionid
}

/// The cookie header value for a session id.
pub fn session_cookie_value(jsessionid: &str) -> (s: String)
    ensures
        s@ == session_cookie(jsessionid@),
        is_header_value(jsessionid@) ==> is_header_value(s@),
{
    let mut s = String::from_str("JSESSIONID=");
    s.append(jsessionid);
    proof {
        reveal_strlit("JSESSIONID=");
        lemma_printable_value("JSESSIONID="@);
        lemma_header_value_concat("JSESSIONID="@, jsessionid@);
    }
    s
}

/// The section code of a room list: the first and the fourth list are the
/// two the library reads; the other entries are empty.
pub open spec fn section_code(sec: int) -> Seq<char> {
    if sec == 1 {
        "0a4c97c5b7844420abdc7128715b8885"@
    } else if sec == 4 {
        "31df48baed5148a5ae4eb219cdd1e415"@
    } else {
        Seq::empty()
    }
}

fn section_id(sec: usize) -> (s: &'static str)
    requires
        sec < 5,
    ensures
        s@ == section_code(sec as int),
{
    proof {
        reveal_strlit("");
    }
    if sec == 1 {
        "0a4c97c5b7844420abdc7128715b8885"
    } else if sec == 4 {
        "31df48baed5148a5ae4eb219cdd1e415"
    } else {
        ""
    }
}

/// The address of the room list of section `sec` on `day`.
pub open spec fn rooms_url(sec: int, day: Seq<char>) -> Seq<char> {
    "http://libwx.cau.edu.cn/space/discuss/findRoom/"@ + section_code(sec) + "/"@
        + "57879bf578f24a43bae98434682bf176"@ + "/"@ + day
}

/// The room-list request of section `sec` on `day`.
pub open spec fn rooms_request_view(config: BookStoreInfoConfig, sec: int, day: Seq<char>) -> RequestView {
    RequestView {
        method: HttpMethod::Post,
        url: rooms_url(sec, day),
        headers: request_headers(
            seq![
                ("X-CSRF-TOKEN"@, config.X_CSRF_TOKEN@),
                ("Cookie"@, session_cookie(config.JSESSIONID@)),
                ("Content-Type"@, "application/x-www-form-urlencoded"@),
            ],
            false,
        ),
        body: Some("currentPage=1&pageSize=100"@),
        query: None,
        timeout_secs: None,
        follow_redirects: true,
    }
}

/// Where fetching a room list stands: the first try, renewing the session
/// after it failed, the second try, or done.
#[derive(Debug, Clone, Copy, PartialEq, Eq, Structural)]
pub enum RoomListState {
    FirstTry,
    Renewing,
    SecondTry,
    Finished,
}

/// What came back: a room list and its rule id, a failed room list, a new
/// session id and CSRF token, or a failed renewal.
#[derive(Debug)]
pub enum RoomListEvent {
    Listed(Vec<RequestWithCookiesPageList>, String),
    ListFailed,
    Renewed(String, String),
    RenewFailed,
}

/// What to do next: request the room list, renew the session, save the
/// settings and request the room list again, save the settings and return
/// the seats, or give up with the last error.
#[derive(Debug)]
pub enum RoomListAction {
    FetchRooms,
    RenewCookies,
    SaveConfigAndFetchRooms,
    SaveConfigAndReturn(Vec<SeatInfo>),
    Fail,
}

/// The state after an event: a room list or a failure in the second try
/// ends the fetch; a failure in the first try leads to renewing the session,
/// and a renewed session to the second try.
pub open spec fn next_room_list_state(state: RoomListState, event: RoomListEvent) -> RoomListState {
    match event {
        RoomListEvent::Listed(_, _) => RoomListState::Finished,
        RoomListEvent::ListFailed => if state == RoomListState::FirstTry {
            RoomListState::Renewing
        } else {
            RoomListState::Finished
        },
        RoomListEvent::Renewed(_, _) => if state == RoomListState::Renewing {
            RoomListState::SecondTry
        } else {
            RoomListState::Finished
        },
        RoomListEvent::RenewFailed => RoomListState::Finished,
    }
}

/// The rooms of a list may be counted in `u32`.
pub open spec fn countable_rooms(data: Seq<RequestWithCookiesPageList>) -> bool {
    forall|k: int| 0 <= k < data.len() ==> (#[trigger] data[k]).times@.len() <= u32::MAX
}

/// A fetch of a room list starts by requesting it.
pub fn room_list_start() -> (out: (RoomListState, RoomListAction))
    ensures
        out.0 == RoomListState::FirstTry,
        out.1 is FetchRooms,
{
    (RoomListState::FirstTry, RoomListAction::FetchRooms)
}

/// From the start, a fetch of a room list ends after at most three replies,
/// and once it has ended it stays ended: the session is renewed at most once
/// and the room list requested at most twice.
pub proof fn law_room_list_ends(e1: RoomListEvent, e2: RoomListEvent, e3: RoomListEvent, e: RoomListEvent)
    ensures
        next_room_list_state(next_room_list_state(next_room_list_state(RoomListState::FirstTry, e1), e2), e3)
            == RoomListState::Finished,
        next_room_list_state(RoomListState::Finished, e) == RoomListState::Finished,
{
}

/// After the seat lists are stored, the available list holds, of each room
/// of the full list, every copy if it has a free slot and none otherwise.
pub proof fn law_available_list_is_free_part_of_full(info: BookStoreInfo, raw: Seq<SeatInfo>)
    requires
        info.full_data@.to_multiset() == listed(raw, false).to_multiset(),
        info.available_data@.to_multiset() == listed(raw, true).to_multiset(),
    ensures
        forall|x: SeatInfo| #[trigger] info.available_data@.to_multiset().count(x)
            == if x.avai > 0 { info.full_data@.to_multiset().count(x) } else { 0 },
{
    law_available_within_full(raw);
}

/// A room's free count is its number of `O` marks.
pub open spec fn counts_its_marks(s: SeatInfo) -> bool {
    s.avai == count_free_marks(s.times@)
}

/// A seat shown from a room counts its own marks.
pub proof fn law_shown_room_counts_marks(seat: SeatInfo, room: RequestWithCookiesPageList)
    requires
        shows_room(seat, room),
    ensures
        counts_its_marks(seat),
{
    law_free_count_matches_marks(room.times@);
}

/// After a refresh that stores the seats shown from a room list, every
/// stored room, in the fetched, the full and the available lists, has as many
/// free slots as `O` marks.
pub proof fn law_refreshed_rooms_count_marks(info: BookStoreInfo, rooms: Seq<RequestWithCookiesPageList>)
    requires
        info.raw_data@.len() == rooms.len(),
        forall|k: int| 0 <= k < rooms.len() ==> shows_room(#[trigger] info.raw_data@[k], rooms[k]),
        info.full_data@.to_multiset() == listed(info.raw_data@, false).to_multiset(),
        info.available_data@.to_multiset() == listed(info.raw_data@, true).to_multiset(),
    ensures
        forall|k: int| 0 <= k < info.raw_data@.len() ==> counts_its_marks(#[trigger] info.raw_data@[k]),
        forall|k: int| 0 <= k < info.full_data@.len() ==> counts_its_marks(#[trigger] info.full_data@[k]),
        forall|k: int| 0 <= k < info.available_data@.len() ==> counts_its_marks(#[trigger] info.available_data@[k]),
{
    let raw = info.raw_data@;
    assert forall|k: int| 0 <= k < raw.len() implies counts_its_marks(#[trigger] raw[k]) by {
        law_shown_room_counts_marks(raw[k], rooms[k]);
    }
    law_available_within_full(raw);
    assert forall|k: int| 0 <= k < info.full_data@.len() implies counts_its_marks(#[trigger] info.full_data@[k]) by {
        let x = info.full_data@[k];
        assert(info.full_data@.contains(x));
        vstd::seq_lib::to_multiset_contains(info.full_data@, x);
        vstd::seq_lib::to_multiset_contains(raw, x);
        assert(raw.to_multiset().count(x) > 0);
        assert(raw.contains(x));
        let m = choose|m: int| 0 <= m < raw.len() && raw[m] == x;
        assert(counts_its_marks(raw[m]));
    }
    assert forall|k: int| 0 <= k < info.available_data@.len() implies counts_its_marks(#[trigger] info.available_data@[k]) by {
        let x = info.available_data@[k];
        assert(info.available_data@.contains(x));
        vstd::seq_lib::to_multiset_contains(info.available_data@, x);
        vstd::seq_lib::to_multiset_contains(raw, x);
        assert(listed(raw, true).to_multiset().count(x) > 0);
        assert(raw.to_multiset().count(x) > 0);
        assert(raw.contains(x));
        let m = choose|m: int| 0 <= m < raw.len() && raw[m] == x;
        assert(counts_its_marks(raw[m]));
    }
}

/// The rooms and the rule id of a room-list reply.
pub fn room_list_of(reply: RequestWithCookiesRootInterface) -> (out: (Vec<RequestWithCookiesPageList>, String))
    ensures
        out.0 == reply.params.rooms.pageList,
        out.1 == reply.params.ruleId,
{
    let params = reply.params;
    (params.rooms.pageList, params.ruleId)
}

impl BookStoreInfo {
    /// A client with the given settings and nothing fetched yet.
    pub fn from_config(config_path: &str, config: BookStoreInfoConfig) -> (res: Self)
        ensures
            res.config_path@ == config_path@,
            res.config == config,
            res.raw_data@.len() == 0,
            res.full_data@.len() == 0,
            res.available_data@.len() == 0,
            res.raw_appointment@.len() == 0,
            res.appointment_to_be_signed@.len() == 0,
    {
        BookStoreInfo {
            config_path: String::from_str(config_path),
            config,
            raw_data: Vec::new(),
            full_data: Vec::new(),
            available_data: Vec::new(),
            raw_appointment: Vec::new(),
            appointment_to_be_signed: Vec::new(),
        }
    }

    /// The rooms as fetched (all, or only those with a free slot), ranked by
    /// free slots, most first, then by name; the client is left unchanged.
    pub fn deal_raw_data(&mut self, available_only: bool) -> (res: Vec<SeatInfo>)
        ensures
            *final(self) == *old(self),
            res@.to_multiset() == listed(old(self).raw_data@, available_only).to_multiset(),
            is_ranked(res@),
    {
        rank_seats(&self.raw_data, available_only)
    }

    /// Takes in the rooms of the two lists, in order, as the rooms fetched,
    /// and ranks them into the full and the available lists.
    pub fn store_seat_lists(&mut self, res_1: Vec<SeatInfo>, res_4: Vec<SeatInfo>)
        ensures
            final(self).raw_data@ == res_1@ + res_4@,
            final(self).full_data@.to_multiset() == listed(res_1@ + res_4@, false).to_multiset(),
            is_ranked(final(self).full_data@),
            final(self).available_data@.to_multiset() == listed(res_1@ + res_4@, true).to_multiset(),
            is_ranked(final(self).available_data@),
            final(self).config == old(self).config,
            final(self).config_path == old(self).config_path,
            final(self).raw_appointment == old(self).raw_appointment,
            final(self).appointment_to_be_signed == old(self).appointment_to_be_signed,
    {
        let mut raw = res_1;
        let mut rest = res_4;
        raw.append(&mut rest);
        self.raw_data = raw;
        self.full_data = self.deal_raw_data(false);
        self.available_data = self.deal_raw_data(true);
    }

    /// The room-list request of section `sec` for `day`.
    pub fn rooms_request(&self, sec: usize, day: &str) -> (req: HttpRequest)
        requires
            sec < 5,
            session_headers_ok(self.config),
        ensures
            req@ == rooms_request_view(self.config, sec as int, day@),
    {
        let cookie = session_cookie_value(self.config.JSESSIONID.as_str());
        let add_on = [
            ("X-CSRF-TOKEN", self.config.X_CSRF_TOKEN.as_str()),
            ("Cookie", cookie.as_str()),
            ("Content-Type", "application/x-www-form-urlencoded"),
        ];
        proof {
            reveal_strlit("X-CSRF-TOKEN");
            reveal_strlit("Cookie");
            reveal_strlit("Content-Type");
            reveal_strlit("application/x-www-form-urlencoded");
            lemma_printable_value("application/x-www-form-urlencoded"@);
            assert(pairs_view(add_on@) =~= seq![
                ("X-CSRF-TOKEN"@, self.config.X_CSRF_TOKEN@),
                ("Cookie"@, session_cookie(self.config.JSESSIONID@)),
                ("Content-Type"@, "application/x-www-form-urlencoded"@),
            ]);
            assert(is_header_name("X-CSRF-TOKEN"@));
            assert(is_header_name("Cookie"@));
            assert(is_header_name("Content-Type"@));
        }
        proof {
            lemma_request_headers_size(pairs_view(add_on@), false);
        }
        let headers = tr(&add_on, false);
        let mut url = String::from_str("http://libwx.cau.edu.cn/space/discuss/findRoom/");
        url.append(section_id(sec));
        url.append("/");
        url.append("57879bf578f24a43bae98434682bf176");
        url.append("/");
        url.append(day);
        HttpRequest {
            method: HttpMethod::Post,
            url,
            headers,
            body: Some(String::from_str("currentPage=1&pageSize=100")),
            query: None,
            timeout_secs: None,
            follow_redirects: true,
        }
    }

    /// Takes the next step of fetching a room list. A room list sets the rule
    /// id and gives its seats; a first failure asks to renew the session; a
    /// renewed session replaces the session id and CSRF token and asks to
    /// fetch again; anything else gives up. Nothing else changes.
    pub fn room_list_step(&mut self, state: RoomListState, event: RoomListEvent) -> (out: (RoomListState, RoomListAction))
        requires
            event matches RoomListEvent::Listed(data, _) ==> countable_rooms(data@),
        ensures
            out.0 == next_room_list_state(state, event),
            final(self).config_path == old(self).config_path,
            final(self).raw_data == old(self).raw_data,
            final(self).full_data == old(self).full_data,
            final(self).available_data == old(self).available_data,
            final(self).raw_appointment == old(self).raw_appointment,
            final(self).appointment_to_be_signed == old(self).appointment_to_be_signed,
            final(self).config.OPEN_ID == old(self).config.OPEN_ID,
            final(self).config.UUID == old(self).config.UUID,
            final(self).config.PREFER == old(self).config.PREFER,
            final(self).config.PERSON == old(self).config.PERSON,
            match event {
                RoomListEvent::Listed(data, rule_id) => {
                    &&& out.1 matches RoomListAction::SaveConfigAndReturn(seats)
                    &&& seats@.len() == data@.len()
                    &&& forall|k: int| 0 <= k < data@.len() ==> shows_room(#[trigger] seats@[k], data@[k])
                    &&& final(self).config.RULE_ID == rule_id
                    &&& final(self).config.JSESSIONID == old(self).config.JSESSIONID
                    &&& final(self).config.X_CSRF_TOKEN == old(self).config.X_CSRF_TOKEN
                },
                RoomListEvent::ListFailed => {
                    &&& (if state == RoomListState::FirstTry { out.1 is RenewCookies } else { out.1 is Fail })
                    &&& final(self).config == old(self).config
                },
                RoomListEvent::Renewed(jsessionid, token) => if state == RoomListState::Renewing {
                    &&& out.1 is SaveConfigAndFetchRooms
                    &&& final(self).config.JSESSIONID == jsessionid
                    &&& final(self).config.X_CSRF_TOKEN == token
                    &&& final(self).config.RULE_ID == old(self).config.RULE_ID
                } else {
                    &&& out.1 is Fail
                    &&& final(self).config == old(self).config
                },
                RoomListEvent::RenewFailed => {
                    &&& out.1 is Fail
                    &&& final(self).config == old(self).config
                },
            },
    {
        match event {
            RoomListEvent::Listed(data, rule_id) => {
                self.config.RULE_ID = rule_id;
                let seats = seat_infos(&data);
                (RoomListState::Finished, RoomListAction::SaveConfigAndReturn(seats))
            },
            RoomListEvent::ListFailed => {
                if state == RoomListState::FirstTry {
                    (RoomListState::Renewing, RoomListAction::RenewCookies)
                } else {
                    (RoomListState::Finished, RoomListAction::Fail)
                }
            },
            RoomListEvent::Renewed(jsessionid, token) => {
                if state == RoomListState::Renewing {
                    self.config.JSESSIONID = jsessionid;
                    self.config.X_CSRF_TOKEN = token;
                    (RoomListState::SecondTry, RoomListAction::SaveConfigAndFetchRooms)
                } else {
                    (RoomListState::Finished, RoomListAction::Fail)
                }
            },
            RoomListEvent::RenewFailed => (RoomListState::Finished, RoomListAction::Fail),
        }
    }

    /// The room-list request of section `sec` for today's local date: the
    /// day in the request is the date that this call read off the clock.
    pub fn rooms_request_today(&self, sec: usize) -> (req: HttpRequest)
        requires
            sec < 5,
            session_headers_ok(self.config),
        ensures
            exists|day: ClockText| is_date_text(day.reading()) && req@ == rooms_request_view(self.config, sec as int, #[trigger] day.reading()),
    {
        let day = local_date();
        self.rooms_request(sec, day.as_str())
    }
}

} // verus!
