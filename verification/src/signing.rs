//! Signing in to a booked room: whose settings to send and for which room,
//! and what the service's answer means.

use vstd::prelude::*;
use crate::book_store_info::BookStoreInfo;
use crate::headers::{lemma_request_headers_size, pairs_view, request_headers, tr};
use crate::outside::{opt_text, regex_capture};
use crate::requests::{HttpMethod, HttpRequest, RequestView};
use crate::session::{capture, BookingError};
use crate::structs::{PersonConfig, SeatInfo};
use crate::text::str_equal;

verus! {

/// What signing in comes to: an answer without asking the service, or the
/// settings to send as the query of the sign-in request.
#[derive(Debug)]
pub enum SignPlan {
    Done(String),
    Query(PersonConfig),
}

/// Position `k` holds the first room named `name`.
pub open spec fn is_first_with_name(seats: Seq<SeatInfo>, name: Seq<char>, k: int) -> bool {
    &&& 0 <= k < seats.len()
    &&& seats[k].rname@ == name
    &&& forall|j: int| 0 <= j < k ==> (#[trigger] seats[j]).rname@ != name
}

/// Some room is named `name`.
pub open spec fn has_room_name(seats: Seq<SeatInfo>, name: Seq<char>) -> bool {
    exists|k: int| 0 <= k < seats.len() && (#[trigger] seats[k]).rname@ == name
}

/// Position `k` holds the first settings named `name`.
pub open spec fn is_first_person(people: Seq<PersonConfig>, name: Seq<char>, k: int) -> bool {
    &&& 0 <= k < people.len()
    &&& people[k].config_name@ == name
    &&& forall|j: int| 0 <= j < k ==> (#[trigger] people[j]).config_name@ != name
}

/// Some settings are named `name`.
pub open spec fn has_person(people: Seq<PersonConfig>, name: Seq<char>) -> bool {
    exists|k: int| 0 <= k < people.len() && (#[trigger] people[k]).config_name@ == name
}

/// `q` is the settings `base` with the room set to `room`.
pub open spec fn person_in_room(q: PersonConfig, base: PersonConfig, room: Seq<char>) -> bool {
    &&& q.config_name == base.config_name
    &&& q.para == base.para
    &&& q.isFlag == base.isFlag
    &&& q.openid == base.openid
    &&& q.account == base.account
    &&& q.upass == base.upass
    &&& q.headimgurl == base.headimgurl
    &&& q.nickname == base.nickname
    &&& q.sign == base.sign
    &&& q.timestamp == base.timestamp
    &&& q.params == base.params
    &&& q.roomId matches Some(r) && r@ == room
}

/// The name of the settings to sign with: the one asked for, or `config1`.
pub open spec fn chosen_config(sign_config: Option<String>) -> Seq<char> {
    match sign_config {
        Some(c) => c@,
        None => "config1"@,
    }
}

/// The answer when no appointment waits to be signed.
pub open spec fn no_appointment_text() -> Seq<char> {
    "No Appoint at that time!"@
}

/// The position of the first room named `name`.
pub fn find_room_by_name(seats: &Vec<SeatInfo>, name: &str) -> (r: Option<usize>)
    ensures
        r matches Some(k) ==> is_first_with_name(seats@, name@, k as int),
        r is None ==> !has_room_name(seats@, name@),
{
    let mut i: usize = 0;
    while i < seats.len()
        invariant
            i <= seats@.len(),
            forall|j: int| 0 <= j < i ==> (#[trigger] seats@[j]).rname@ != name@,
        decreases seats@.len() - i,
    {
        if str_equal(seats[i].rname.as_str(), name) {
            return Some(i);
        }
        i += 1;
    }
    None
}

/// The position of the first settings named `name`.
pub fn find_person(people: &Vec<PersonConfig>, name: &str) -> (r: Option<usize>)
    ensures
        r matches Some(k) ==> is_first_person(people@, name@, k as int),
        r is None ==> !has_person(people@, name@),
{
    let mut i: usize = 0;
    while i < people.len()
        invariant
            i <= people@.len(),
            forall|j: int| 0 <= j < i ==> (#[trigger] people@[j]).config_name@ != name@,
        decreases people@.len() - i,
    {
        if str_equal(people[i].config_name.as_str(), name) {
            return Some(i);
        }
        i += 1;
    }
    None
}

impl BookStoreInfo {
    /// What signing in comes to. With no appointment to sign, the answer
    /// is that there is none, whatever room is asked for. Otherwise the
    /// room of the last appointment must be in the full room list (its first
    /// room of that name gives the room when none is asked for), and the
    /// settings of the asked name (`config1` by default) are sent with the
    /// room set.
    pub fn sign_plan(&self, sign_config: Option<String>, room_id: Option<String>) -> (r: Result<SignPlan, BookingError>)
        ensures
            ({
                let signs = self.appointment_to_be_signed@;
                if signs.len() == 0 {
                    r matches Ok(SignPlan::Done(m)) && m@ == no_appointment_text()
                } else if !has_room_name(self.full_data@, signs.last().rname@) {
                    r matches Err(e) && e is NoSuchRoom
                } else if !has_person(self.config.PERSON@, chosen_config(sign_config)) {
                    r matches Err(e) && e is NoSuchConfig
                } else {
                    exists|k: int, p: int| {
                        &&& is_first_with_name(self.full_data@, signs.last().rname@, k)
                        &&& is_first_person(self.config.PERSON@, chosen_config(sign_config), p)
                        &&& r matches Ok(SignPlan::Query(q)) && person_in_room(q, self.config.PERSON@[p],
                            match room_id { Some(x) => x@, None => self.full_data@[k].id@ })
                    }
                }
            }),
    {
        let real_sign_config = match sign_config {
            Some(c) => c,
            None => String::from_str("config1"),
        };
        let n = self.appointment_to_be_signed.len();
        if n == 0 {
            return Ok(SignPlan::Done(String::from_str("No Appoint at that time!")));
        }
        let room_name = self.appointment_to_be_signed[n - 1].rname.as_str();
        let k = match find_room_by_name(&self.full_data, room_name) {
            Some(k) => k,
            None => return Err(BookingError::NoSuchRoom),
        };
        let default_room = self.full_data[k].id.clone();
        let real_room_id = match room_id {
            Some(x) => x,
            None => default_room,
        };
        let p = match find_person(&self.config.PERSON, real_sign_config.as_str()) {
            Some(p) => p,
            None => return Err(BookingError::NoSuchConfig),
        };
        let mut params = self.config.PERSON[p].clone();
        params.roomId = Some(real_room_id);
        Ok(SignPlan::Query(params))
    }
}

/// The sign-in request: the common headers and the settings as the query.
pub open spec fn sign_request_view(params: PersonConfig) -> RequestView {
    RequestView {
        method: HttpMethod::Get,
        url: "http://libwx.cau.edu.cn/space/static/cau/mediaCheckIn"@,
        headers: request_headers(Seq::empty(), true),
        body: None,
        query: Some(params),
        timeout_secs: None,
        follow_redirects: true,
    }
}

/// The sign-in request for the given settings.
pub fn sign_request(params: PersonConfig) -> (req: HttpRequest)
    ensures
        req@ == sign_request_view(params),
{
    let add_on: [(&'static str, &str); 0] = [];
    assert(pairs_view(add_on@) =~= Seq::empty());
    proof {
        lemma_request_headers_size(pairs_view(add_on@), true);
    }
    let headers = tr(&add_on, true);
    HttpRequest {
        method: HttpMethod::Get,
        url: String::from_str("http://libwx.cau.edu.cn/space/static/cau/mediaCheckIn"),
        headers,
        body: None,
        query: Some(params),
        timeout_secs: None,
        follow_redirects: true,
    }
}

/// The pattern of the answer in the sign-in page.
pub open spec fn sign_answer_pattern() -> Seq<char> {
    "<span>(.*)</span>"@
}

/// The answer in the sign-in page: the first group of the first match of
/// the answer's `span`.
pub fn sign_answer(page: &str) -> (r: Result<Option<String>, BookingError>)
    ensures
        match regex_capture(sign_answer_pattern(), page@, 1) {
            None => r matches Err(e) && e is Pattern,
            Some(c) => r matches Ok(o) && opt_text(o) == c,
        },
{
    capture("<span>(.*)</span>", page, 1)
}

/// The service's answer that the room is signed already.
pub open spec fn already_signed_answer() -> Seq<char> {
    "?????????????????????"@
}

/// The service's answer that it is too early to sign.
pub open spec fn too_early_answer() -> Seq<char> {
    "?????????????????????60???????????????"@
}

/// What a sign-in answer means: `Already!` and `Not Reach Time` for the two
/// answers the library knows, and the answer itself otherwise.
pub fn sign_message(answer: &str) -> (s: String)
    ensures
        s@ == (if answer@ == already_signed_answer() {
            "Already!"@
        } else if answer@ == too_early_answer() {
            "Not Reach Time"@
        } else {
            answer@
        }),
{
    if str_equal(answer, "?????????????????????") {
        String::from_str("Already!")
    } else if str_equal(answer, "?????????????????????60???????????????") {
        String::from_str("Not Reach Time")
    } else {
        String::from_str(answer)
    }
}

} // verus!
