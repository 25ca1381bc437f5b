//! Appointments: which of the user's appointments still wait to be signed,
//! which hours of a room to book, and the booking request for each.

use vstd::prelude::*;
use crate::book_store_info::{session_cookie, session_cookie_value, BookStoreInfo};
use crate::headers::{
    is_header_name, is_header_value, lemma_header_value_concat, lemma_printable_value,
    lemma_request_headers_size, pairs_view, request_headers, tr,
};
use crate::outside::{
    is_before, local_now, local_now_rfc3339, parse_datetime, parsed_datetime, timestamp_before, ClockInstant,
    ClockText, Timestamp,
};
use crate::requests::{HttpMethod, HttpRequest, RequestView};
use crate::seats::{booking_periods, free_hour_periods, periods_view};
use crate::session::BookingError;
use crate::structs::{AppointPageList, AppointmentInfo, AppointmentRootInterface, SeatInfo};
use crate::text::{
    is_printable_ascii, lemma_signed_decimal_printable, push_signed_decimal, signed_decimal,
    str_equal, utf8_of,
};

verus! {

/* Appointments to sign */

/// When an appointment begins, as `<day> <start time>`.
pub open spec fn begin_text(a: AppointPageList) -> Seq<char> {
    a.currentday@ + seq![' '] + a.stime@
}

/// The format in which an appointment's beginning is read.
pub open spec fn begin_format() -> Seq<char> {
    "%Y-%m-%d %H:%M"@
}

/// An appointment waits to be signed when it is not signed yet and, judged
/// at `now`, begins later; one whose beginning does not read as a date is
/// kept too.
pub open spec fn awaits_signing(a: AppointPageList, now: Timestamp) -> bool {
    &&& !a.sign
    &&& match parsed_datetime(begin_text(a), begin_format()) {
        Some(start) => is_before(now, start),
        None => true,
    }
}

/// The appointments of `list` that wait to be signed, each judged at the
/// clock reading of the same position in `nows`.
pub open spec fn pending_of(list: Seq<AppointPageList>, nows: Seq<Timestamp>) -> Seq<AppointPageList>
    decreases list.len(),
{
    if list.len() == 0 {
        Seq::empty()
    } else if awaits_signing(list.last(), nows[list.len() - 1]) {
        pending_of(list.drop_last(), nows).push(list.last())
    } else {
        pending_of(list.drop_last(), nows)
    }
}

/// Every appointment kept as waiting to be signed is one of the list, is
/// not signed, and, where its beginning reads as a date, begins after the
/// clock reading it was judged at.
pub proof fn law_pending_are_unsigned(list: Seq<AppointPageList>, nows: Seq<Timestamp>)
    requires
        nows.len() >= list.len(),
    ensures
        forall|k: int| 0 <= k < pending_of(list, nows).len() ==> exists|j: int| 0 <= j < list.len()
            && list[j] == #[trigger] pending_of(list, nows)[k] && awaits_signing(list[j], nows[j]),
    decreases list.len(),
{
    if list.len() > 0 {
        let init = list.drop_last();
        let j = list.len() - 1;
        law_pending_are_unsigned(init, nows);
        assert forall|k: int| 0 <= k < pending_of(list, nows).len() implies exists|i: int| 0 <= i < list.len()
            && list[i] == #[trigger] pending_of(list, nows)[k] && awaits_signing(list[i], nows[i]) by {
            if k < pending_of(init, nows).len() {
                assert(pending_of(list, nows)[k] == pending_of(init, nows)[k]);
                let i = choose|i: int| 0 <= i < init.len() && init[i] == #[trigger] pending_of(init, nows)[k]
                    && awaits_signing(init[i], nows[i]);
                assert(list[i] == init[i]);
            } else {
                assert(pending_of(list, nows)[k] == list[j]);
            }
        }
    }
}

/// The positions `0 .. m` of `list` whose appointment waits to be signed at
/// the clock reading of the same position of `nows`, in increasing order.
pub open spec fn awaiting_positions(list: Seq<AppointPageList>, nows: Seq<Timestamp>, m: int) -> Seq<int> {
    Seq::new(m as nat, |i: int| i).filter(|i: int| awaits_signing(list[i], nows[i]))
}

proof fn lemma_pending_prefix(list: Seq<AppointPageList>, nows: Seq<Timestamp>, m: int)
    requires
        0 <= m <= list.len(),
    ensures
        pending_of(list.take(m), nows) == awaiting_positions(list, nows, m).map_values(|i: int| list[i]),
    decreases m,
{
    let pred = |i: int| awaits_signing(list[i], nows[i]);
    if m == 0 {
        reveal(Seq::filter);
        assert(pending_of(list.take(0), nows) =~= awaiting_positions(list, nows, 0).map_values(|i: int| list[i]));
    } else {
        lemma_pending_prefix(list, nows, m - 1);
        let prev = Seq::new((m - 1) as nat, |i: int| i);
        assert(Seq::new(m as nat, |i: int| i) =~= prev.push(m - 1));
        prev.lemma_filter_push(m - 1, pred);
        assert(list.take(m).drop_last() =~= list.take(m - 1));
        assert(list.take(m).last() == list[m - 1]);
        assert(pending_of(list.take(m), nows) =~= awaiting_positions(list, nows, m).map_values(|i: int| list[i]));
    }
}

/// The appointments kept as waiting to be signed are exactly those of the
/// list that wait to be signed at their clock readings, each kept once, in
/// the order of the list: none is left out and none is added.
pub proof fn law_pending_are_all_awaiting(list: Seq<AppointPageList>, nows: Seq<Timestamp>)
    requires
        nows.len() >= list.len(),
    ensures
        pending_of(list, nows) == awaiting_positions(list, nows, list.len() as int).map_values(|i: int| list[i]),
        forall|j: int| 0 <= j < list.len() && awaits_signing(list[j], nows[j])
            ==> #[trigger] awaiting_positions(list, nows, list.len() as int).contains(j),
        forall|k: int| 0 <= k < awaiting_positions(list, nows, list.len() as int).len() ==> {
            let j = #[trigger] awaiting_positions(list, nows, list.len() as int)[k];
            0 <= j < list.len() && awaits_signing(list[j], nows[j])
        },
        forall|k1: int, k2: int| 0 <= k1 < k2 < awaiting_positions(list, nows, list.len() as int).len()
            ==> #[trigger] awaiting_positions(list, nows, list.len() as int)[k1] < #[trigger] awaiting_positions(list, nows, list.len() as int)[k2],
{
    lemma_pending_prefix(list, nows, list.len() as int);
    assert(list.take(list.len() as int) =~= list);
    let all = Seq::new(list.len(), |i: int| i);
    let pred = |i: int| awaits_signing(list[i], nows[i]);
    assert forall|j: int| 0 <= j < list.len() && awaits_signing(list[j], nows[j])
        implies #[trigger] awaiting_positions(list, nows, list.len() as int).contains(j) by {
        all.lemma_filter_contains(pred, j);
    }
    lemma_positions_in_order(list, nows, list.len() as int);
}

proof fn lemma_positions_in_order(list: Seq<AppointPageList>, nows: Seq<Timestamp>, m: int)
    requires
        0 <= m,
    ensures
        forall|k: int| 0 <= k < awaiting_positions(list, nows, m).len() ==> {
            let j = #[trigger] awaiting_positions(list, nows, m)[k];
            0 <= j < m && awaits_signing(list[j], nows[j])
        },
        forall|k1: int, k2: int| 0 <= k1 < k2 < awaiting_positions(list, nows, m).len()
            ==> #[trigger] awaiting_positions(list, nows, m)[k1] < #[trigger] awaiting_positions(list, nows, m)[k2],
    decreases m,
{
    let pred = |i: int| awaits_signing(list[i], nows[i]);
    if m == 0 {
        reveal(Seq::filter);
    } else {
        lemma_positions_in_order(list, nows, m - 1);
        let prev = Seq::new((m - 1) as nat, |i: int| i);
        assert(Seq::new(m as nat, |i: int| i) =~= prev.push(m - 1));
        prev.lemma_filter_push(m - 1, pred);
        let before = awaiting_positions(list, nows, m - 1);
        let now_ = awaiting_positions(list, nows, m);
        assert forall|k: int| 0 <= k < now_.len() implies {
            let j = #[trigger] now_[k];
            0 <= j < m && awaits_signing(list[j], nows[j])
        } by {
            if k < before.len() {
                assert(now_[k] == before[k]);
            }
        }
        assert forall|k1: int, k2: int| 0 <= k1 < k2 < now_.len() implies #[trigger] now_[k1] < #[trigger] now_[k2] by {
            assert(now_[k1] == before[k1]);
            if k2 < before.len() {
                assert(now_[k2] == before[k2]);
            }
        }
    }
}

/// `info` sums up appointment `a`: same id, end and room; its beginning as
/// text; status and flag cut to 32 bits.
pub open spec fn summarizes(info: AppointmentInfo, a: AppointPageList) -> bool {
    &&& info.id == a.id
    &&& info.begin_time@ == begin_text(a)
    &&& info.end_time == a.etime
    &&& info.rname == a.rname
    &&& info.status == a.status as i32
    &&& info.flag == a.flag as i32
}

/// `infos` sums up `list`, one by one.
pub open spec fn summarizes_all(infos: Seq<AppointmentInfo>, list: Seq<AppointPageList>) -> bool {
    &&& infos.len() == list.len()
    &&& forall|k: int| 0 <= k < list.len() ==> summarizes(#[trigger] infos[k], list[k])
}

/// `infos` sums up, in order, the appointments of `list` at the positions
/// where one waits to be signed at the reading of `nows` there.
pub open spec fn summarizes_awaiting(infos: Seq<AppointmentInfo>, list: Seq<AppointPageList>, nows: Seq<Timestamp>) -> bool {
    let pos = awaiting_positions(list, nows, list.len() as int);
    &&& infos.len() == pos.len()
    &&& forall|k: int| 0 <= k < pos.len() ==> summarizes(#[trigger] infos[k], list[pos[k]])
}

/// Whether appointment `a` waits to be signed, judged at `now`.
pub fn awaits_signing_at(a: &AppointPageList, now: Timestamp) -> (r: bool)
    ensures
        r == awaits_signing(*a, now),
{
    if a.sign {
        return false;
    }
    let begin = begin_time_text(a);
    match parse_datetime(begin.as_str(), "%Y-%m-%d %H:%M") {
        Some(start) => timestamp_before(now, start),
        None => true,
    }
}

/// Whether an appointment's beginning does not read as a date.
pub fn begin_is_unreadable(a: &AppointPageList) -> (r: bool)
    ensures
        r == (parsed_datetime(begin_text(*a), begin_format()) is None),
{
    let begin = begin_time_text(a);
    parse_datetime(begin.as_str(), "%Y-%m-%d %H:%M").is_none()
}

/// The beginning of an appointment as text.
pub fn begin_time_text(a: &AppointPageList) -> (s: String)
    ensures
        s@ == begin_text(*a),
{
    let mut s = String::from_str(a.currentday.as_str());
    s.push(' ');
    s.append(a.stime.as_str());
    s
}

/// The summary of an appointment.
pub fn summary_of(a: &AppointPageList) -> (info: AppointmentInfo)
    ensures
        summarizes(info, *a),
{
    AppointmentInfo {
        id: a.id.clone(),
        begin_time: begin_time_text(a),
        end_time: a.etime.clone(),
        rname: a.rname.clone(),
        status: a.status as i32,
        flag: a.flag as i32,
    }
}

/// The summaries of the appointments of `list` that wait to be signed, the
/// appointment at each position judged at the clock reading at the same
/// position of `nows`.
pub fn pending_appointments_at(list: &Vec<AppointPageList>, nows: &Vec<Timestamp>) -> (res: Vec<AppointmentInfo>)
    requires
        nows@.len() == list@.len(),
    ensures
        summarizes_all(res@, pending_of(list@, nows@)),
        summarizes_awaiting(res@, list@, nows@),
{
    let mut res: Vec<AppointmentInfo> = Vec::new();
    let mut i: usize = 0;
    while i < list.len()
        invariant
            i <= list@.len(),
            nows@.len() == list@.len(),
            summarizes_all(res@, pending_of(list@.take(i as int), nows@)),
        decreases list@.len() - i,
    {
        assert(list@.take(i + 1).drop_last() =~= list@.take(i as int));
        assert(list@.take(i + 1).last() == list@[i as int]);
        if awaits_signing_at(&list[i], nows[i]) {
            let info = summary_of(&list[i]);
            res.push(info);
        }
        i += 1;
    }
    assert(list@.take(list@.len() as int) =~= list@);
    proof {
        law_pending_are_all_awaiting(list@, nows@);
        let pos = awaiting_positions(list@, nows@, list@.len() as int);
        assert forall|k: int| 0 <= k < pos.len() implies summarizes(#[trigger] res@[k], list@[pos[k]]) by {
            assert(pending_of(list@, nows@)[k] == list@[pos[k]]);
        }
    }
    res
}

/// The instants of clock readings.
pub open spec fn instants(readings: Seq<ClockInstant>) -> Seq<Timestamp> {
    readings.map_values(|c: ClockInstant| c.instant())
}

impl BookStoreInfo {
    /// Judges each appointment of `list` at a reading of the local clock,
    /// keeps the summaries of those that wait to be signed as the
    /// appointments to sign, and returns them. Nothing else changes.
    pub fn record_pending_appointments(&mut self, list: &Vec<AppointPageList>) -> (res: Vec<AppointmentInfo>)
        ensures
            exists|readings: Seq<ClockInstant>| readings.len() == list@.len()
                && summarizes_all(res@, #[trigger] pending_of(list@, instants(readings)))
                && summarizes_awaiting(res@, list@, instants(readings)),
            final(self).appointment_to_be_signed@ == res@,
            final(self).config == old(self).config,
            final(self).config_path == old(self).config_path,
            final(self).raw_data == old(self).raw_data,
            final(self).full_data == old(self).full_data,
            final(self).available_data == old(self).available_data,
            final(self).raw_appointment == old(self).raw_appointment,
    {
        let mut nows: Vec<Timestamp> = Vec::new();
        let ghost mut readings: Seq<ClockInstant> = Seq::empty();
        let mut i: usize = 0;
        while i < list.len()
            invariant
                i <= list@.len(),
                readings.len() == i,
                nows@ == instants(readings),
            decreases list@.len() - i,
        {
            let reading = local_now();
            nows.push(reading.timestamp());
            proof {
                readings = readings.push(reading);
                assert(nows@ =~= instants(readings));
            }
            i += 1;
        }
        let res = pending_appointments_at(list, &nows);
        let mut kept: Vec<AppointmentInfo> = Vec::new();
        let mut j: usize = 0;
        while j < res.len()
            invariant
                j <= res@.len(),
                kept@ == res@.take(j as int),
            decreases res@.len() - j,
        {
            kept.push(res[j].clone());
            assert(res@.take(j + 1) =~= res@.take(j as int).push(res@[j as int]));
            j += 1;
        }
        assert(res@.take(res@.len() as int) =~= res@);
        self.appointment_to_be_signed = kept;
        res
    }
}

/// The request for the user's appointments: all days, with the session's
/// cookie, the appointments page as referer and the common headers.
pub open spec fn records_request_view(config: crate::structs::BookStoreInfoConfig) -> RequestView {
    RequestView {
        method: HttpMethod::Get,
        url: "http://libwx.cau.edu.cn/space/discuss/queryAppiont?cday=1970-01-01_to_2050-01-01&sign=&rtypeid=&type=discuss"@,
        headers: request_headers(
            seq![
                ("Cookie"@, session_cookie(config.JSESSIONID@)),
                ("Referer"@, "http://libwx.cau.edu.cn/space/discuss/myAppoint?linkSign=myReserve&type=discuss"@),
            ],
            true,
        ),
        body: None,
        query: None,
        timeout_secs: None,
        follow_redirects: true,
    }
}

impl BookStoreInfo {
    /// The request for the user's appointments.
    pub fn appointment_records_request(&self) -> (req: HttpRequest)
        requires
            is_header_value(self.config.JSESSIONID@),
        ensures
            req@ == records_request_view(self.config),
    {
        let cookie = session_cookie_value(self.config.JSESSIONID.as_str());
        let add_on = [
            ("Cookie", cookie.as_str()),
            ("Referer", "http://libwx.cau.edu.cn/space/discuss/myAppoint?linkSign=myReserve&type=discuss"),
        ];
        proof {
            reveal_strlit("Cookie");
            reveal_strlit("Referer");
            reveal_strlit("http://libwx.cau.edu.cn/space/discuss/myAppoint?linkSign=myReserve&type=discuss");
            lemma_printable_value("http://libwx.cau.edu.cn/space/discuss/myAppoint?linkSign=myReserve&type=discuss"@);
            assert(is_header_name("Cookie"@));
            assert(is_header_name("Referer"@));
            assert(pairs_view(add_on@) =~= seq![
                ("Cookie"@, session_cookie(self.config.JSESSIONID@)),
                ("Referer"@, "http://libwx.cau.edu.cn/space/discuss/myAppoint?linkSign=myReserve&type=discuss"@),
            ]);
        }
        proof {
            lemma_request_headers_size(pairs_view(add_on@), true);
        }
        let headers = tr(&add_on, true);
        HttpRequest {
            method: HttpMethod::Get,
            url: String::from_str("http://libwx.cau.edu.cn/space/discuss/queryAppiont?cday=1970-01-01_to_2050-01-01&sign=&rtypeid=&type=discuss"),
            headers,
            body: None,
            query: None,
            timeout_secs: None,
            follow_redirects: true,
        }
    }
}

/* Booking */

/// The periods booked when booking is forced: the evening, afternoon and
/// morning runs of the opening hours, latest first.
pub open spec fn forced_periods() -> Seq<Seq<i32>> {
    seq![seq![20i32, 21], seq![17i32, 18, 19], seq![14i32, 15, 16], seq![11i32, 12, 13], seq![8i32, 9, 10]]
}

/// The room to book and the periods to book in it.
#[derive(Debug)]
pub struct AppointmentPlan {
    pub room_id: String,
    pub periods: Vec<Vec<i32>>,
}

/// Position `k` holds the first room with id `id`.
pub open spec fn is_first_with_id(seats: Seq<SeatInfo>, id: Seq<char>, k: int) -> bool {
    &&& 0 <= k < seats.len()
    &&& seats[k].id@ == id
    &&& forall|j: int| 0 <= j < k ==> (#[trigger] seats[j]).id@ != id
}

/// Some room has id `id`.
pub open spec fn has_room_id(seats: Seq<SeatInfo>, id: Seq<char>) -> bool {
    exists|k: int| 0 <= k < seats.len() && (#[trigger] seats[k]).id@ == id
}

/// The position of the first room with id `id`.
pub fn find_room_by_id(seats: &Vec<SeatInfo>, id: &str) -> (r: Option<usize>)
    ensures
        r matches Some(k) ==> is_first_with_id(seats@, id@, k as int),
        r is None ==> !has_room_id(seats@, id@),
{
    let mut i: usize = 0;
    while i < seats.len()
        invariant
            i <= seats@.len(),
            forall|j: int| 0 <= j < i ==> (#[trigger] seats@[j]).id@ != id@,
        decreases seats@.len() - i,
    {
        if str_equal(seats[i].id.as_str(), id) {
            return Some(i);
        }
        i += 1;
    }
    None
}

/// The room asked for, or the preferred room when none is.
pub open spec fn chosen_room(room_id: Option<Seq<char>>, prefer: Seq<char>) -> Seq<char> {
    match room_id {
        Some(r) => r,
        None => prefer,
    }
}

/// The text of an optional borrowed string.
pub open spec fn opt_str(s: Option<&str>) -> Option<Seq<char>> {
    match s {
        Some(t) => Some(t@),
        None => None,
    }
}

/// What booking in `room` comes to, among the rooms `full`: the forced
/// periods when forced; otherwise the free hours of the first room of that
/// id in runs of at most three, or an error when no room has that id.
pub open spec fn plan_meets(full: Seq<SeatInfo>, room: Seq<char>, forced: bool, r: Result<AppointmentPlan, BookingError>) -> bool {
    if forced {
        r matches Ok(p) && p.room_id@ == room && periods_view(p.periods@) == forced_periods()
    } else if has_room_id(full, room) {
        r matches Ok(p) && p.room_id@ == room && exists|k: int| is_first_with_id(full, room, k)
            && periods_view(p.periods@) == booking_periods(utf8_of(full[k].times@))
    } else {
        r matches Err(e) && e is NoSuchRoom
    }
}

/// Planning with no room and no force is planning in the preferred room
/// with force off: both calls owe exactly the same result.
pub proof fn law_plan_defaults(info: BookStoreInfo, preferred: &str, r: Result<AppointmentPlan, BookingError>)
    requires
        preferred@ == info.config.PREFER@,
    ensures
        plan_meets(info.full_data@, chosen_room(opt_str(None), info.config.PREFER@), None::<bool> == Some(true), r)
            == plan_meets(info.full_data@, chosen_room(opt_str(Some(preferred)), info.config.PREFER@), Some(false) == Some(true), r),
{
}

/// Two plans that meet the same contract book the same room and periods, or
/// fail alike.
pub proof fn law_plan_determined(full: Seq<SeatInfo>, room: Seq<char>, forced: bool, r1: Result<AppointmentPlan, BookingError>, r2: Result<AppointmentPlan, BookingError>)
    requires
        plan_meets(full, room, forced, r1),
        plan_meets(full, room, forced, r2),
    ensures
        r1 is Ok == r2 is Ok,
        r1 matches Ok(p1) ==> (r2 matches Ok(p2) && p1.room_id@ == p2.room_id@ && periods_view(p1.periods@) == periods_view(p2.periods@)),
{
    if !forced && has_room_id(full, room) {
        let p1 = r1->Ok_0;
        let p2 = r2->Ok_0;
        let k1 = choose|k: int| is_first_with_id(full, room, k) && periods_view(p1.periods@) == booking_periods(utf8_of(full[k].times@));
        let k2 = choose|k: int| is_first_with_id(full, room, k) && periods_view(p2.periods@) == booking_periods(utf8_of(full[k].times@));
        assert(k1 == k2) by {
            if k1 < k2 {
                assert(full[k1].id@ != room);
            } else if k2 < k1 {
                assert(full[k2].id@ != room);
            }
        }
    }
}

/// A forced booking books the five fixed periods, 20-21, 17-19, 14-16,
/// 11-13 and 8-10 o'clock in that order, in the room asked for, whatever
/// the room list holds.
pub proof fn law_forced_plan_fixed(full: Seq<SeatInfo>, room: Seq<char>, r: Result<AppointmentPlan, BookingError>)
    requires
        plan_meets(full, room, true, r),
    ensures
        r matches Ok(p) && p.room_id@ == room
            && periods_view(p.periods@) == seq![seq![20i32, 21], seq![17i32, 18, 19], seq![14i32, 15, 16], seq![11i32, 12, 13], seq![8i32, 9, 10]],
{
}

/// Forced bookings of one room under two room lists book the same periods:
/// forcing does not consult the room list.
pub proof fn law_forced_plan_ignores_rooms(
    full1: Seq<SeatInfo>,
    full2: Seq<SeatInfo>,
    room: Seq<char>,
    r1: Result<AppointmentPlan, BookingError>,
    r2: Result<AppointmentPlan, BookingError>,
)
    requires
        plan_meets(full1, room, true, r1),
        plan_meets(full2, room, true, r2),
    ensures
        r1 matches Ok(p1) && r2 matches Ok(p2) && p1.room_id@ == p2.room_id@
            && periods_view(p1.periods@) == periods_view(p2.periods@),
{
    law_forced_plan_fixed(full1, room, r1);
    law_forced_plan_fixed(full2, room, r2);
}

impl BookStoreInfo {
    /// What to book: in the room asked for (the preferred room when none
    /// is), the forced periods when booking is forced, and otherwise the
    /// free hours of the first room of the full list with that id, in runs
    /// of at most three; an error when booking is not forced and no room of
    /// the full list has that id.
    pub fn appointment_plan(&self, room_id: Option<&str>, force: Option<bool>) -> (r: Result<AppointmentPlan, BookingError>)
        requires
            force != Some(true) ==> forall|k: int| #[trigger] is_first_with_id(self.full_data@, chosen_room(opt_str(room_id), self.config.PREFER@), k)
                ==> utf8_of(self.full_data@[k].times@).len() >= 14,
        ensures
            plan_meets(self.full_data@, chosen_room(opt_str(room_id), self.config.PREFER@), force == Some(true), r),
            force == Some(true) ==> (r matches Ok(p) && p.room_id@ == chosen_room(opt_str(room_id), self.config.PREFER@)
                && periods_view(p.periods@) == seq![seq![20i32, 21], seq![17i32, 18, 19], seq![14i32, 15, 16], seq![11i32, 12, 13], seq![8i32, 9, 10]]),
    {
        let real_room_id: &str = match room_id {
            Some(r) => r,
            None => self.config.PREFER.as_str(),
        };
        let real_force = match force {
            Some(f) => f,
            None => false,
        };
        if real_force {
            let periods = vec![vec![20i32, 21], vec![17i32, 18, 19], vec![14i32, 15, 16], vec![11i32, 12, 13], vec![8i32, 9, 10]];
            assert(periods_view(periods@) =~= forced_periods()) by {
                assert(periods@[0]@ =~= seq![20i32, 21]);
                assert(periods@[1]@ =~= seq![17i32, 18, 19]);
                assert(periods@[2]@ =~= seq![14i32, 15, 16]);
                assert(periods@[3]@ =~= seq![11i32, 12, 13]);
                assert(periods@[4]@ =~= seq![8i32, 9, 10]);
            }
            return Ok(AppointmentPlan { room_id: String::from_str(real_room_id), periods });
        }
        match find_room_by_id(&self.full_data, real_room_id) {
            Some(k) => {
                assert(real_room_id@ == chosen_room(opt_str(room_id), self.config.PREFER@));
                assert(is_first_with_id(self.full_data@, chosen_room(opt_str(room_id), self.config.PREFER@), k as int));
                let periods = free_hour_periods(self.full_data[k].times.as_str());
                Ok(AppointmentPlan { room_id: String::from_str(real_room_id), periods })
            },
            None => Err(BookingError::NoSuchRoom),
        }
    }
}

/// The booking hours fit the 32-bit arithmetic of the booking request: the
/// start and the end, in minutes.
pub open spec fn booking_hours_fit(start_hour: i32, remain_hours: i32) -> bool {
    &&& i32::MIN <= start_hour * 60 <= i32::MAX
    &&& i32::MIN <= start_hour + remain_hours <= i32::MAX
    &&& i32::MIN <= (start_hour + remain_hours) * 60 <= i32::MAX
}

/// The page of the booking form, sent as the referer of a booking.
pub open spec fn booking_referer(room: Seq<char>, begin: int, end: int, today: Seq<char>, rule: Seq<char>) -> Seq<char> {
    "http://libwx.cau.edu.cn/space/discuss/openAppointDetail?roomid="@ + room + "&ustime="@ + signed_decimal(begin)
        + "&uetime="@ + signed_decimal(end) + "&selectDate="@ + today + "&ruleId="@ + rule
        + "&mobile=true&linkSign=discuss"@
}

/// The JSON body of a booking: start and end in minutes, room, day and rule,
/// and the fixed fields of the form.
pub open spec fn booking_body(room: Seq<char>, begin: int, end: int, today: Seq<char>, rule: Seq<char>) -> Seq<char> {
    "{\"_stime\": \""@ + signed_decimal(begin) + "\", \"_etime\": \""@ + signed_decimal(end) + "\", \"_roomid\": \""@
        + room + "\", \"_currentday\": \""@ + today + "\", \"UUID\": \"VEmkgCYM\", \"ruleId\": \""@ + rule
        + "\", \"users\": \"2019307070109 2019321010102\", \"usercount\": \"2\", \"room_exp\": \"[]\", \"_seatno\": \"0\", \"LOCK\": \"true\"}"@
}

/// The booking request of `room` from `start_hour` for `remain_hours` hours
/// on `today`.
pub open spec fn booking_request_view(config: crate::structs::BookStoreInfoConfig, room: Seq<char>, start_hour: int, remain_hours: int, today: Seq<char>) -> RequestView {
    let begin = start_hour * 60;
    let end = (start_hour + remain_hours) * 60;
    RequestView {
        method: HttpMethod::Post,
        url: "http://libwx.cau.edu.cn/space/form/dynamic/saveFormLock"@,
        headers: request_headers(
            seq![
                ("Content-Type"@, "application/json"@),
                ("X-CSRF-TOKEN"@, config.X_CSRF_TOKEN@),
                ("X-Requested-With"@, "XMLHttpRequest"@),
                ("Origin"@, "http://libwx.cau.edu.cn"@),
                ("Referer"@, booking_referer(room, begin, end, today, config.RULE_ID@)),
                ("Pragma"@, "no-cache"@),
                ("Cache-Control"@, "no-cache"@),
                ("Cookie"@, session_cookie(config.JSESSIONID@)),
            ],
            true,
        ),
        body: Some(booking_body(room, begin, end, today, config.RULE_ID@)),
        query: None,
        timeout_secs: None,
        follow_redirects: true,
    }
}

/// The text pieces of a booking may stand in headers.
pub open spec fn booking_text_ok(config: crate::structs::BookStoreInfoConfig, room: Seq<char>, today: Seq<char>) -> bool {
    &&& crate::book_store_info::session_headers_ok(config)
    &&& is_header_value(room)
    &&& is_header_value(today)
    &&& is_header_value(config.RULE_ID@)
}

proof fn lemma_decimal_value(i: int)
    ensures
        is_header_value(signed_decimal(i)),
{
    lemma_signed_decimal_printable(i);
    lemma_printable_value(signed_decimal(i));
}

/// The referer of a booking.
fn booking_referer_text(room: &str, begin: i32, end: i32, today: &str, rule: &str) -> (s: String)
    ensures
        s@ == booking_referer(room@, begin as int, end as int, today@, rule@),
        (is_header_value(room@) && is_header_value(today@) && is_header_value(rule@)) ==> is_header_value(s@),
{
    let mut s = String::from_str("http://libwx.cau.edu.cn/space/discuss/openAppointDetail?roomid=");
    s.append(room);
    s.append("&ustime=");
    push_signed_decimal(&mut s, begin as i64);
    s.append("&uetime=");
    push_signed_decimal(&mut s, end as i64);
    s.append("&selectDate=");
    s.append(today);
    s.append("&ruleId=");
    s.append(rule);
    s.append("&mobile=true&linkSign=discuss");
    proof {
        if is_header_value(room@) && is_header_value(today@) && is_header_value(rule@) {
            reveal_strlit("http://libwx.cau.edu.cn/space/discuss/openAppointDetail?roomid=");
            reveal_strlit("&ustime=");
            reveal_strlit("&uetime=");
            reveal_strlit("&selectDate=");
            reveal_strlit("&ruleId=");
            reveal_strlit("&mobile=true&linkSign=discuss");
            let p1 = "http://libwx.cau.edu.cn/space/discuss/openAppointDetail?roomid="@;
            lemma_printable_value(p1);
            lemma_printable_value("&ustime="@);
            lemma_printable_value("&uetime="@);
            lemma_printable_value("&selectDate="@);
            lemma_printable_value("&ruleId="@);
            lemma_printable_value("&mobile=true&linkSign=discuss"@);
            lemma_decimal_value(begin as int);
            lemma_decimal_value(end as int);
            let t1 = p1 + room@;
            lemma_header_value_concat(p1, room@);
            let t2 = t1 + "&ustime="@;
            lemma_header_value_concat(t1, "&ustime="@);
            let t3 = t2 + signed_decimal(begin as int);
            lemma_header_value_concat(t2, signed_decimal(begin as int));
            let t4 = t3 + "&uetime="@;
            lemma_header_value_concat(t3, "&uetime="@);
            let t5 = t4 + signed_decimal(end as int);
            lemma_header_value_concat(t4, signed_decimal(end as int));
            let t6 = t5 + "&selectDate="@;
            lemma_header_value_concat(t5, "&selectDate="@);
            let t7 = t6 + today@;
            lemma_header_value_concat(t6, today@);
            let t8 = t7 + "&ruleId="@;
            lemma_header_value_concat(t7, "&ruleId="@);
            let t9 = t8 + rule@;
            lemma_header_value_concat(t8, rule@);
            lemma_header_value_concat(t9, "&mobile=true&linkSign=discuss"@);
        }
    }
    s
}

/// The body of a booking.
fn booking_body_text(room: &str, begin: i32, end: i32, today: &str, rule: &str) -> (s: String)
    ensures
        s@ == booking_body(room@, begin as int, end as int, today@, rule@),
{
    let mut s = String::from_str("{\"_stime\": \"");
    push_signed_decimal(&mut s, begin as i64);
    s.append("\", \"_etime\": \"");
    push_signed_decimal(&mut s, end as i64);
    s.append("\", \"_roomid\": \"");
    s.append(room);
    s.append("\", \"_currentday\": \"");
    s.append(today);
    s.append("\", \"UUID\": \"VEmkgCYM\", \"ruleId\": \"");
    s.append(rule);
    s.append("\", \"users\": \"2019307070109 2019321010102\", \"usercount\": \"2\", \"room_exp\": \"[]\", \"_seatno\": \"0\", \"LOCK\": \"true\"}");
    s
}

impl BookStoreInfo {
    /// The booking request of `room_id` from `start_hour` for `remain_hours`
    /// hours on `today`.
    pub fn appointment_request(&self, room_id: &str, start_hour: i32, remain_hours: i32, today: &str) -> (req: HttpRequest)
        requires
            booking_hours_fit(start_hour, remain_hours),
            booking_text_ok(self.config, room_id@, today@),
        ensures
            req@ == booking_request_view(self.config, room_id@, start_hour as int, remain_hours as int, today@),
    {
        let begin_time = start_hour * 60;
        let end_time = (start_hour + remain_hours) * 60;
        let rule_id = self.config.RULE_ID.as_str();
        let referer = booking_referer_text(room_id, begin_time, end_time, today, rule_id);
        let cookie = session_cookie_value(self.config.JSESSIONID.as_str());
        let add_on = [
            ("Content-Type", "application/json"),
            ("X-CSRF-TOKEN", self.config.X_CSRF_TOKEN.as_str()),
            ("X-Requested-With", "XMLHttpRequest"),
            ("Origin", "http://libwx.cau.edu.cn"),
            ("Referer", referer.as_str()),
            ("Pragma", "no-cache"),
            ("Cache-Control", "no-cache"),
            ("Cookie", cookie.as_str()),
        ];
        proof {
            reveal_strlit("Content-Type");
            reveal_strlit("application/json");
            reveal_strlit("X-CSRF-TOKEN");
            reveal_strlit("X-Requested-With");
            reveal_strlit("XMLHttpRequest");
            reveal_strlit("Origin");
            reveal_strlit("http://libwx.cau.edu.cn");
            reveal_strlit("Referer");
            reveal_strlit("Pragma");
            reveal_strlit("no-cache");
            reveal_strlit("Cache-Control");
            reveal_strlit("Cookie");
            lemma_printable_value("application/json"@);
            lemma_printable_value("XMLHttpRequest"@);
            lemma_printable_value("http://libwx.cau.edu.cn"@);
            lemma_printable_value("no-cache"@);
            assert(is_header_name("Content-Type"@));
            assert(is_header_name("X-CSRF-TOKEN"@));
            assert(is_header_name("X-Requested-With"@));
            assert(is_header_name("Origin"@));
            assert(is_header_name("Referer"@));
            assert(is_header_name("Pragma"@));
            assert(is_header_name("Cache-Control"@));
            assert(is_header_name("Cookie"@));
            assert(pairs_view(add_on@) =~= seq![
                ("Content-Type"@, "application/json"@),
                ("X-CSRF-TOKEN"@, self.config.X_CSRF_TOKEN@),
                ("X-Requested-With"@, "XMLHttpRequest"@),
                ("Origin"@, "http://libwx.cau.edu.cn"@),
                ("Referer"@, referer@),
                ("Pragma"@, "no-cache"@),
                ("Cache-Control"@, "no-cache"@),
                ("Cookie"@, session_cookie(self.config.JSESSIONID@)),
            ]);
        }
        proof {
            lemma_request_headers_size(pairs_view(add_on@), true);
        }
        let headers = tr(&add_on, true);
        let body = booking_body_text(room_id, begin_time, end_time, today, rule_id);
        HttpRequest {
            method: HttpMethod::Post,
            url: String::from_str("http://libwx.cau.edu.cn/space/form/dynamic/saveFormLock"),
            headers,
            body: Some(body),
            query: None,
            timeout_secs: None,
            follow_redirects: true,
        }
    }

    /// The booking request for today's local date: the first ten
    /// characters of the local time in RFC 3339, as this call read it off
    /// the clock.
    pub fn appointment_request_now(&self, room_id: &str, start_hour: i32, remain_hours: i32) -> (req: HttpRequest)
        requires
            booking_hours_fit(start_hour, remain_hours),
            crate::book_store_info::session_headers_ok(self.config),
            is_header_value(room_id@),
            is_header_value(self.config.RULE_ID@),
        ensures
            exists|clock: ClockText| booked_at_clock(self.config, room_id@, start_hour as int, remain_hours as int, #[trigger] clock.reading(), req),
    {
        let now = local_now_rfc3339();
        let text = now.as_str();
        proof {
            assert forall|i: int| 0 <= i < text@.len() implies '\0' <= #[trigger] text@[i] <= '\u{7f}' by {
                assert(' ' <= text@[i] <= '~');
            }
        }
        let today = text.substring_ascii(0, 10);
        proof {
            assert forall|i: int| 0 <= i < today@.len() implies ' ' <= #[trigger] today@[i] <= '~' by {
                assert(today@[i] == text@[i]);
            }
            lemma_printable_value(today@);
        }
        let req = self.appointment_request(room_id, start_hour, remain_hours, today);
        assert(booked_at_clock(self.config, room_id@, start_hour as int, remain_hours as int, now.reading(), req));
        req
    }
}

/// A booking made at a clock reading: the reading is printable text of at
/// least 19 characters and the booking is for its first ten, the day.
pub open spec fn booked_at_clock(
    config: crate::structs::BookStoreInfoConfig,
    room: Seq<char>,
    start_hour: int,
    remain_hours: int,
    clock: Seq<char>,
    req: HttpRequest,
) -> bool {
    &&& clock.len() >= 19
    &&& is_printable_ascii(clock)
    &&& req@ == booking_request_view(config, room, start_hour, remain_hours, clock.subrange(0, 10))
}

/// What a booking reply says: its status and its message.
pub fn appointment_outcome(reply: &AppointmentRootInterface) -> (s: String)
    ensures
        s@ == (if reply.status { "true"@ } else { "false"@ }) + " "@ + reply.content@,
{
    let mut s = if reply.status { String::from_str("true") } else { String::from_str("false") };
    s.append(" ");
    s.append(reply.content.as_str());
    s
}

} // verus!
