use school_library::book_store_info::BookStoreInfo;
use school_library::seats::{free_hour_periods, rank_seats, seat_info_of, seat_infos, seat_table_lines};
use school_library::structs::{BookStoreInfoConfig, RequestWithCookiesPageList, RequestWithCookiesTimes, SeatInfo};

fn room(id: &str, rname: &str, taken: &[bool]) -> RequestWithCookiesPageList {
    RequestWithCookiesPageList {
        id: id.to_string(),
        isdel: false,
        uid: String::new(),
        rname: rname.to_string(),
        address: String::new(),
        rtype: String::new(),
        allowuser: 0,
        minuser: 0,
        venceid: String::new(),
        gateid: String::new(),
        status: true,
        opentime: true,
        appointnum: 0,
        rulepoliy: String::new(),
        selected: false,
        authid: String::new(),
        gatestatus: 0,
        opensign: false,
        isseat: false,
        payrule: String::new(),
        rno: 0,
        pics: String::new(),
        wfId: String::new(),
        checkuser: false,
        times: taken
            .iter()
            .map(|t| RequestWithCookiesTimes { select: *t, time: String::new() })
            .collect(),
        timeSpace: 0,
    }
}

fn seat(id: &str, rname: &str, avai: u32) -> SeatInfo {
    SeatInfo { id: id.to_string(), rname: rname.to_string(), times: String::new(), avai }
}

fn config() -> BookStoreInfoConfig {
    BookStoreInfoConfig {
        OPEN_ID: "oid".to_string(),
        JSESSIONID: "sess".to_string(),
        X_CSRF_TOKEN: "tok".to_string(),
        UUID: "uuid".to_string(),
        RULE_ID: "rule".to_string(),
        PREFER: "r1".to_string(),
        PERSON: vec![],
    }
}

fn names(v: &[SeatInfo]) -> Vec<(String, u32)> {
    v.iter().map(|s| (s.rname.clone(), s.avai)).collect()
}

#[test]
fn seat_marks_taken_and_free_slots() {
    let s = seat_info_of(&room("a1", "Room A", &[true, false, false, true, false]));
    assert_eq!(s.id, "a1");
    assert_eq!(s.rname, "Room A");
    assert_eq!(s.times, "XOOXO");
    assert_eq!(s.avai, 3);
}

#[test]
fn seat_of_room_without_slots() {
    let s = seat_info_of(&room("a2", "Room B", &[]));
    assert_eq!(s.times, "");
    assert_eq!(s.avai, 0);
}

#[test]
fn seat_list_keeps_room_order() {
    let rooms = vec![room("x", "X", &[false]), room("y", "Y", &[true, true])];
    let seats = seat_infos(&rooms);
    assert_eq!(seats.len(), 2);
    assert_eq!(seats[0].id, "x");
    assert_eq!(seats[0].avai, 1);
    assert_eq!(seats[1].times, "XX");
    assert_eq!(seats[1].avai, 0);
}

#[test]
fn ranking_orders_by_free_slots_then_name() {
    let raw = vec![seat("1", "b", 2), seat("2", "a", 2), seat("3", "c", 5), seat("4", "d", 0)];
    let ranked = rank_seats(&raw, false);
    assert_eq!(
        names(&ranked),
        vec![("c".to_string(), 5), ("a".to_string(), 2), ("b".to_string(), 2), ("d".to_string(), 0)]
    );
    let available = rank_seats(&raw, true);
    assert_eq!(names(&available), vec![("c".to_string(), 5), ("a".to_string(), 2), ("b".to_string(), 2)]);
}

#[test]
fn ranking_compares_names_by_bytes() {
    let raw = vec![seat("1", "ab", 1), seat("2", "a", 1), seat("3", "B", 1)];
    let ranked = rank_seats(&raw, false);
    assert_eq!(
        names(&ranked),
        vec![("B".to_string(), 1), ("a".to_string(), 1), ("ab".to_string(), 1)]
    );
}

#[test]
fn ranking_of_empty_list() {
    assert!(rank_seats(&vec![], true).is_empty());
}

#[test]
fn deal_raw_data_leaves_client_unchanged() {
    let mut info = BookStoreInfo::from_config("c.toml", config());
    info.raw_data = vec![seat("1", "z", 0), seat("2", "y", 3)];
    let full = info.deal_raw_data(false);
    let avail = info.deal_raw_data(true);
    assert_eq!(names(&full), vec![("y".to_string(), 3), ("z".to_string(), 0)]);
    assert_eq!(names(&avail), vec![("y".to_string(), 3)]);
    assert_eq!(info.raw_data.len(), 2);
    assert_eq!(info.raw_data[0].rname, "z");
}

#[test]
fn store_seat_lists_ranks_both_lists() {
    let mut info = BookStoreInfo::from_config("c.toml", config());
    info.store_seat_lists(vec![seat("1", "m", 1), seat("2", "n", 0)], vec![seat("3", "k", 4)]);
    assert_eq!(names(&info.raw_data), vec![("m".to_string(), 1), ("n".to_string(), 0), ("k".to_string(), 4)]);
    assert_eq!(names(&info.full_data), vec![("k".to_string(), 4), ("m".to_string(), 1), ("n".to_string(), 0)]);
    assert_eq!(names(&info.available_data), vec![("k".to_string(), 4), ("m".to_string(), 1)]);
}

#[test]
fn available_rooms_are_the_free_rooms_of_the_full_list() {
    let mut info = BookStoreInfo::from_config("c.toml", config());
    info.store_seat_lists(vec![seat("1", "a", 0), seat("2", "b", 2)], vec![seat("3", "c", 0), seat("4", "d", 1)]);
    for s in &info.available_data {
        assert!(s.avai > 0);
        assert!(info.full_data.iter().any(|f| f.id == s.id));
    }
    assert_eq!(info.available_data.len(), info.full_data.iter().filter(|f| f.avai > 0).count());
}

#[test]
fn periods_of_an_all_free_day() {
    let p = free_hour_periods("OOOOOOOOOOOOOO");
    assert_eq!(p, vec![vec![8, 9, 10], vec![11, 12, 13], vec![14, 15, 16], vec![17, 18, 19], vec![20, 21]]);
}

#[test]
fn periods_break_at_taken_hours() {
    let p = free_hour_periods("OXOOXOOOOXXXXO");
    assert_eq!(p, vec![vec![8], vec![10, 11], vec![13, 14, 15], vec![16], vec![21]]);
}

#[test]
fn periods_of_a_full_day() {
    assert!(free_hour_periods("XXXXXXXXXXXXXX").is_empty());
}

#[test]
fn periods_read_only_the_first_fourteen_slots() {
    let p = free_hour_periods("XXXXXXXXXXXXXOOOOO");
    assert_eq!(p, vec![vec![21]]);
}

#[test]
fn periods_cover_free_hours_in_runs_of_at_most_three() {
    let marks = "OOXOOOOOXOOOOO";
    let p = free_hour_periods(marks);
    let joined: Vec<i32> = p.iter().flatten().copied().collect();
    let free: Vec<i32> = marks.bytes().enumerate().filter(|(_, b)| *b == b'O').map(|(i, _)| i as i32 + 8).collect();
    assert_eq!(joined, free);
    for w in &p {
        assert!(!w.is_empty() && w.len() <= 3);
        for k in 1..w.len() {
            assert_eq!(w[k], w[k - 1] + 1);
        }
    }
}

#[test]
fn seat_table_of_empty_list() {
    assert_eq!(seat_table_lines(&[]), vec!["[INFO] SEAT LIST NO DATA".to_string()]);
}

#[test]
fn seat_table_lines_centre_the_head() {
    let lines = seat_table_lines(&[SeatInfo { id: "abc".to_string(), rname: "Room".to_string(), times: "XO".to_string(), avai: 12 }]);
    let head = format!("{:^32}\t{:^21}\t{:^14}\tavai", "id", "rname", "times");
    assert_eq!(lines.len(), 2);
    assert_eq!(lines[0], head);
    assert_eq!(lines[1], "abc\tRoom\tXO\t  12");
}


#[test]
fn with_distinct_names_available_is_full_filtered() {
    let mut info = BookStoreInfo::from_config("c.toml", config());
    info.raw_data = vec![seat("1", "q", 0), seat("2", "p", 3), seat("3", "s", 3), seat("4", "r", 1), seat("5", "t", 0)];
    let full = info.deal_raw_data(false);
    let avail = info.deal_raw_data(true);
    let filtered: Vec<(String, u32)> = names(&full).into_iter().filter(|(_, a)| *a > 0).collect();
    assert_eq!(names(&avail), filtered);
    let ids: Vec<&str> = avail.iter().map(|s| s.id.as_str()).collect();
    assert_eq!(ids, vec!["2", "3", "4"]);
}

#[test]
fn refreshed_rooms_count_their_marks() {
    let mut info = BookStoreInfo::from_config("c.toml", config());
    let first = seat_infos(&vec![room("a", "A", &[false, true, false]), room("b", "B", &[true])]);
    let second = seat_infos(&vec![room("c", "C", &[false, false, false, false])]);
    info.store_seat_lists(first, second);
    for list in [&info.raw_data, &info.full_data, &info.available_data] {
        for s in list.iter() {
            assert_eq!(s.avai as usize, s.times.chars().filter(|c| *c == 'O').count());
        }
    }
}
