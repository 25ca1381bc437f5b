use school_library::book_store_info::BookStoreInfo;
use school_library::session::BookingError;
use school_library::signing::{sign_answer, sign_message, sign_request, SignPlan};
use school_library::structs::{AppointmentInfo, BookStoreInfoConfig, PersonConfig, SeatInfo};

fn person(name: &str) -> PersonConfig {
    PersonConfig {
        config_name: name.to_string(),
        para: "p".to_string(),
        isFlag: "f".to_string(),
        openid: "o".to_string(),
        account: "acc".to_string(),
        upass: "pw".to_string(),
        headimgurl: String::new(),
        nickname: "nick".to_string(),
        sign: "s".to_string(),
        timestamp: "t".to_string(),
        params: "x".to_string(),
        roomId: None,
    }
}

fn client() -> BookStoreInfo {
    let config = BookStoreInfoConfig {
        OPEN_ID: "oid".to_string(),
        JSESSIONID: "S".to_string(),
        X_CSRF_TOKEN: "T".to_string(),
        UUID: "u".to_string(),
        RULE_ID: "r".to_string(),
        PREFER: "p".to_string(),
        PERSON: vec![person("config1"), person("config2")],
    };
    let mut info = BookStoreInfo::from_config("c.toml", config);
    info.full_data = vec![
        SeatInfo { id: "id-a".to_string(), rname: "A".to_string(), times: String::new(), avai: 0 },
        SeatInfo { id: "id-b".to_string(), rname: "B".to_string(), times: String::new(), avai: 0 },
    ];
    info
}

fn appointment(rname: &str) -> AppointmentInfo {
    AppointmentInfo {
        id: "1".to_string(),
        begin_time: "2024-05-06 08:00".to_string(),
        end_time: "10:00".to_string(),
        rname: rname.to_string(),
        status: 0,
        flag: 0,
    }
}

#[test]
fn nothing_to_sign_answers_at_once() {
    let info = client();
    match info.sign_plan(None, Some("id-a".to_string())).unwrap() {
        SignPlan::Done(m) => assert_eq!(m, "No Appoint at that time!"),
        _ => panic!("expected an answer"),
    }
}

#[test]
fn last_appointment_gives_the_room() {
    let mut info = client();
    info.appointment_to_be_signed = vec![appointment("A"), appointment("B")];
    match info.sign_plan(None, None).unwrap() {
        SignPlan::Query(q) => {
            assert_eq!(q.config_name, "config1");
            assert_eq!(q.roomId.as_deref(), Some("id-b"));
            assert_eq!(q.account, "acc");
        }
        _ => panic!("expected a query"),
    }
}

#[test]
fn asked_room_and_settings_are_used() {
    let mut info = client();
    info.appointment_to_be_signed = vec![appointment("A")];
    match info.sign_plan(Some("config2".to_string()), Some("id-z".to_string())).unwrap() {
        SignPlan::Query(q) => {
            assert_eq!(q.config_name, "config2");
            assert_eq!(q.roomId.as_deref(), Some("id-z"));
        }
        _ => panic!("expected a query"),
    }
}

#[test]
fn unknown_room_of_the_appointment_fails_even_with_a_room_asked() {
    let mut info = client();
    info.appointment_to_be_signed = vec![appointment("C")];
    assert!(matches!(info.sign_plan(None, Some("id-a".to_string())), Err(BookingError::NoSuchRoom)));
}

#[test]
fn unknown_settings_fail() {
    let mut info = client();
    info.appointment_to_be_signed = vec![appointment("A")];
    assert!(matches!(info.sign_plan(Some("config9".to_string()), None), Err(BookingError::NoSuchConfig)));
}

#[test]
fn sign_request_sends_the_settings_as_query() {
    let req = sign_request(person("config1"));
    assert_eq!(req.url, "http://libwx.cau.edu.cn/space/static/cau/mediaCheckIn");
    assert_eq!(req.query.unwrap().config_name, "config1");
    assert_eq!(req.headers.len(), 7);
}

#[test]
fn sign_answer_and_message() {
    let page = "<div><span>Signed in</span></div>";
    let answer = sign_answer(page).unwrap().unwrap();
    assert_eq!(answer, "Signed in");
    assert_eq!(sign_message(&answer), "Signed in");
    assert_eq!(sign_message("?????????????????????"), "Already!");
    assert_eq!(sign_message("?????????????????????60???????????????"), "Not Reach Time");
    assert!(sign_answer("<p>none</p>").unwrap().is_none());
}
