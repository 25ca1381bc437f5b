use school_library::appointments::{
    appointment_outcome, begin_is_unreadable, awaits_signing_at, begin_time_text, find_room_by_id, pending_appointments_at, summary_of,
};
use school_library::book_store_info::BookStoreInfo;
use school_library::outside::{timestamp_before, Timestamp};
use school_library::session::BookingError;
use school_library::structs::{
    AppointNode, AppointPageList, AppointmentParams, AppointmentRootInterface, BookStoreInfoConfig, SeatInfo,
};

fn config() -> BookStoreInfoConfig {
    BookStoreInfoConfig {
        OPEN_ID: "oid".to_string(),
        JSESSIONID: "SESS".to_string(),
        X_CSRF_TOKEN: "TOK".to_string(),
        UUID: "uuid".to_string(),
        RULE_ID: "RULE".to_string(),
        PREFER: "pref".to_string(),
        PERSON: vec![],
    }
}

fn appoint(id: &str, day: &str, start: &str, sign: bool, status: i64) -> AppointPageList {
    AppointPageList {
        id: id.to_string(),
        stime: start.to_string(),
        userid: String::new(),
        uid: String::new(),
        ctime: String::new(),
        pay: 0,
        sign,
        etime: "22:00".to_string(),
        currentday: day.to_string(),
        signtime: String::new(),
        rname: format!("room-{}", id),
        status,
        flag: 7,
        title: None,
        bstatus: None,
        cstatus: None,
    }
}

fn seat(id: &str, times: &str) -> SeatInfo {
    SeatInfo { id: id.to_string(), rname: format!("n-{}", id), times: times.to_string(), avai: 0 }
}

fn at(text: &str) -> Timestamp {
    let secs = match text {
        "2024-05-06 08:00" => 1714982400,
        "2024-05-06 09:30" => 1714987800,
        "2024-05-06 10:00" => 1714989600,
        "2024-05-06 11:00" => 1714993200,
        "2024-05-06 13:00" => 1715000400,
        _ => panic!("no instant for {}", text),
    };
    Timestamp { secs, nanos: 0 }
}

#[test]
fn instants_in_order() {
    let a = at("2024-05-06 08:00");
    let b = at("2024-05-06 09:30");
    assert!(timestamp_before(a, b));
    assert!(!timestamp_before(b, a));
    assert!(!timestamp_before(a, a));
    assert!(timestamp_before(a, Timestamp { secs: a.secs, nanos: 1 }));
}

#[test]
fn appointment_beginning_is_read_to_the_minute() {
    let a = appoint("1", "2024-05-06", "09:30", false, 0);
    assert!(awaits_signing_at(&a, Timestamp { secs: 1714987799, nanos: 999_999_999 }));
    assert!(!awaits_signing_at(&a, Timestamp { secs: 1714987800, nanos: 0 }));
}

#[test]
fn begin_time_joins_day_and_start() {
    assert_eq!(begin_time_text(&appoint("1", "2024-05-06", "08:00", false, 0)), "2024-05-06 08:00");
}

#[test]
fn only_later_unsigned_appointments_wait() {
    let now = at("2024-05-06 10:00");
    assert!(awaits_signing_at(&appoint("1", "2024-05-06", "11:00", false, 0), now));
    assert!(!awaits_signing_at(&appoint("2", "2024-05-06", "09:00", false, 0), now));
    assert!(!awaits_signing_at(&appoint("3", "2024-05-06", "11:00", true, 0), now));
    assert!(!awaits_signing_at(&appoint("4", "2024-05-06", "10:00", false, 0), now));
    assert!(awaits_signing_at(&appoint("5", "someday", "noon", false, 0), now));
}

#[test]
fn pending_appointments_are_summarised_in_order() {
    let now = at("2024-05-06 10:00");
    let list = vec![
        appoint("a", "2024-05-06", "12:00", false, 4_294_967_297),
        appoint("b", "2024-05-06", "08:00", false, 1),
        appoint("c", "2024-05-07", "08:00", true, 1),
        appoint("d", "bad", "day", false, 2),
    ];
    let res = pending_appointments_at(&list, &vec![now; 4]);
    assert_eq!(res.len(), 2);
    assert_eq!(res[0].id, "a");
    assert_eq!(res[0].begin_time, "2024-05-06 12:00");
    assert_eq!(res[0].end_time, "22:00");
    assert_eq!(res[0].rname, "room-a");
    assert_eq!(res[0].status, 1);
    assert_eq!(res[0].flag, 7);
    assert_eq!(res[1].id, "d");
    assert_eq!(res[1].begin_time, "bad day");
}

#[test]
fn each_appointment_is_judged_at_its_own_clock() {
    let list = vec![appoint("a", "2024-05-06", "12:00", false, 0), appoint("b", "2024-05-06", "12:00", false, 0)];
    let res = pending_appointments_at(&list, &vec![at("2024-05-06 11:00"), at("2024-05-06 13:00")]);
    assert_eq!(res.len(), 1);
    assert_eq!(res[0].id, "a");
}

#[test]
fn recording_keeps_the_appointments_to_sign() {
    let mut info = BookStoreInfo::from_config("c.toml", config());
    let list = vec![appoint("a", "2999-01-01", "12:00", false, 0), appoint("b", "2000-01-01", "12:00", false, 0)];
    let res = info.record_pending_appointments(&list);
    assert_eq!(res.len(), 1);
    assert_eq!(res[0].id, "a");
    assert_eq!(info.appointment_to_be_signed.len(), 1);
    assert_eq!(info.appointment_to_be_signed[0].begin_time, "2999-01-01 12:00");
}

#[test]
fn summary_cuts_status_to_32_bits() {
    let s = summary_of(&appoint("x", "d", "t", false, -1));
    assert_eq!(s.status, -1);
    let s = summary_of(&appoint("x", "d", "t", false, 1 << 32));
    assert_eq!(s.status, 0);
}

#[test]
fn records_request_asks_for_all_days() {
    let info = BookStoreInfo::from_config("c.toml", config());
    let req = info.appointment_records_request();
    assert_eq!(
        req.url,
        "http://libwx.cau.edu.cn/space/discuss/queryAppiont?cday=1970-01-01_to_2050-01-01&sign=&rtypeid=&type=discuss"
    );
    assert_eq!(req.headers.get("cookie").unwrap(), "JSESSIONID=SESS");
    assert_eq!(
        req.headers.get("referer").unwrap(),
        "http://libwx.cau.edu.cn/space/discuss/myAppoint?linkSign=myReserve&type=discuss"
    );
}

#[test]
fn forced_plan_books_fixed_periods_in_the_asked_room() {
    let info = BookStoreInfo::from_config("c.toml", config());
    let plan = info.appointment_plan(Some("nowhere"), Some(true)).unwrap();
    assert_eq!(plan.room_id, "nowhere");
    assert_eq!(plan.periods, vec![vec![20, 21], vec![17, 18, 19], vec![14, 15, 16], vec![11, 12, 13], vec![8, 9, 10]]);
}

#[test]
fn plan_uses_the_free_hours_of_the_preferred_room() {
    let mut info = BookStoreInfo::from_config("c.toml", config());
    info.full_data = vec![seat("other", "XXXXXXXXXXXXXX"), seat("pref", "XOOXXXXXXXXXOO"), seat("pref", "OOOOOOOOOOOOOO")];
    let plan = info.appointment_plan(None, None).unwrap();
    assert_eq!(plan.room_id, "pref");
    assert_eq!(plan.periods, vec![vec![9, 10], vec![20, 21]]);
    let plan = info.appointment_plan(Some("other"), Some(false)).unwrap();
    assert!(plan.periods.is_empty());
}

#[test]
fn plan_for_an_unknown_room_fails() {
    let info = BookStoreInfo::from_config("c.toml", config());
    assert!(matches!(info.appointment_plan(Some("none"), None), Err(BookingError::NoSuchRoom)));
}

#[test]
fn find_room_gives_the_first_match() {
    let seats = vec![seat("a", ""), seat("b", ""), seat("b", "")];
    assert_eq!(find_room_by_id(&seats, "b"), Some(1));
    assert_eq!(find_room_by_id(&seats, "c"), None);
}

#[test]
fn booking_request_states_hours_in_minutes() {
    let info = BookStoreInfo::from_config("c.toml", config());
    let req = info.appointment_request("R7", 14, 3, "2024-05-06");
    assert_eq!(req.url, "http://libwx.cau.edu.cn/space/form/dynamic/saveFormLock");
    assert_eq!(
        req.body.as_deref().unwrap(),
        "{\"_stime\": \"840\", \"_etime\": \"1020\", \"_roomid\": \"R7\", \"_currentday\": \"2024-05-06\", \"UUID\": \"VEmkgCYM\", \"ruleId\": \"RULE\", \"users\": \"2019307070109 2019321010102\", \"usercount\": \"2\", \"room_exp\": \"[]\", \"_seatno\": \"0\", \"LOCK\": \"true\"}"
    );
    assert_eq!(
        req.headers.get("referer").unwrap(),
        "http://libwx.cau.edu.cn/space/discuss/openAppointDetail?roomid=R7&ustime=840&uetime=1020&selectDate=2024-05-06&ruleId=RULE&mobile=true&linkSign=discuss"
    );
    assert_eq!(req.headers.get("x-csrf-token").unwrap(), "TOK");
    assert_eq!(req.headers.get("cookie").unwrap(), "JSESSIONID=SESS");
    assert_eq!(req.headers.get("cache-control").unwrap(), "no-cache");
    assert_eq!(req.headers.get("content-type").unwrap(), "application/json");
    assert_eq!(req.headers.len(), 14);
}

#[test]
fn booking_request_now_uses_todays_date() {
    let info = BookStoreInfo::from_config("c.toml", config());
    let req = info.appointment_request_now("R7", 8, 2);
    let body = req.body.unwrap();
    assert!(body.starts_with("{\"_stime\": \"480\", \"_etime\": \"600\", \"_roomid\": \"R7\", \"_currentday\": \""));
}

#[test]
fn booking_outcome_text() {
    let reply = AppointmentRootInterface {
        status: false,
        content: "busy".to_string(),
        params: AppointmentParams {
            node: AppointNode {
                _stime: String::new(),
                _etime: String::new(),
                _roomid: String::new(),
                _currentday: String::new(),
                UUID: String::new(),
                ruleId: String::new(),
                users: String::new(),
                usercount: String::new(),
                room_exp: String::new(),
                _seatno: String::new(),
                LOCK: String::new(),
                _uid: String::new(),
                _status: 0,
                _id: None,
                _userid: None,
            },
            _id: None,
        },
    };
    assert_eq!(appointment_outcome(&reply), "false busy");
}

#[test]
fn unreadable_beginnings_are_found() {
    assert!(begin_is_unreadable(&appoint("d", "bad", "day", false, 0)));
    assert!(!begin_is_unreadable(&appoint("a", "2024-05-06", "12:00", false, 0)));
}

#[test]
fn plan_without_room_or_force_is_plan_in_preferred_room() {
    let mut info = BookStoreInfo::from_config("c.toml", config());
    info.full_data = vec![seat("pref", "OOXOOOOXXXXXXO")];
    let a = info.appointment_plan(None, None).unwrap();
    let preferred = info.config.PREFER.clone();
    let b = info.appointment_plan(Some(&preferred), Some(false)).unwrap();
    assert_eq!(a.room_id, b.room_id);
    assert_eq!(a.periods, b.periods);
    assert_eq!(a.periods, vec![vec![8, 9], vec![11, 12, 13], vec![14], vec![21]]);
}

#[test]
fn booking_request_now_day_is_the_clock_date() {
    let info = BookStoreInfo::from_config("c.toml", config());
    let req = info.appointment_request_now("R7", 9, 1);
    let referer = req.headers.get("referer").unwrap().to_str().unwrap().to_string();
    let day = referer.split("selectDate=").nth(1).unwrap().split('&').next().unwrap().to_string();
    assert_eq!(day.len(), 10);
    assert_eq!(&day[4..5], "-");
    assert_eq!(&day[7..8], "-");
}
