//! The records of the booking service: the replies it sends, the settings of
//! the user, and the seat and appointment summaries the library derives.
#![allow(non_snake_case)]

use vstd::prelude::*;

verus! {

/// One time slot of a room in the room list: whether it is taken.
#[derive(Debug, Clone)]
pub struct RequestWithCookiesTimes {
    pub select: bool,
    pub time: String,
}

/// One room of the room list.
#[derive(Debug, Clone)]
pub struct RequestWithCookiesPageList {
    pub id: String,
    pub isdel: bool,
    pub uid: String,
    pub rname: String,
    pub address: String,
    pub rtype: String,
    pub allowuser: i64,
    pub minuser: i64,
    pub venceid: String,
    pub gateid: String,
    pub status: bool,
    pub opentime: bool,
    pub appointnum: i64,
    pub rulepoliy: String,
    pub selected: bool,
    pub authid: String,
    pub gatestatus: i64,
    pub opensign: bool,
    pub isseat: bool,
    pub payrule: String,
    pub rno: i64,
    pub pics: String,
    pub wfId: String,
    pub checkuser: bool,
    pub times: Vec<RequestWithCookiesTimes>,
    pub timeSpace: i64,
}

/// The parameters of a room-list reply.
#[derive(Debug, Clone)]
pub struct RequestWithCookiesParams {
    pub rooms: RequestWithCookiesRooms,
    pub ruleId: String,
    pub usetype: String,
}

/// One page of the room list.
#[derive(Debug, Clone)]
pub struct RequestWithCookiesRooms {
    pub currentPage: i64,
    pub showPage: Vec<i64>,
    pub nextPage: i64,
    pub next: bool,
    pub front: bool,
    pub frontPage: i64,
    pub pageSize: i64,
    pub totalCount: i64,
    pub totalPage: i64,
    pub pageList: Vec<RequestWithCookiesPageList>,
}

/// A reply to a room-list request.
#[derive(Debug, Clone)]
pub struct RequestWithCookiesRootInterface {
    pub status: bool,
    pub content: String,
    pub params: RequestWithCookiesParams,
}

/// The sign-in settings of one person; they are sent as the query of a
/// sign-in request.
#[derive(Debug)]
pub struct PersonConfig {
    pub config_name: String,
    pub para: String,
    pub isFlag: String,
    pub openid: String,
    pub account: String,
    pub upass: String,
    pub headimgurl: String,
    pub nickname: String,
    pub sign: String,
    pub timestamp: String,
    pub params: String,
    pub roomId: Option<String>,
}

impl Clone for PersonConfig {
    fn clone(&self) -> (r: Self)
        ensures
            r == *self,
    {
        PersonConfig {
            config_name: self.config_name.clone(),
            para: self.para.clone(),
            isFlag: self.isFlag.clone(),
            openid: self.openid.clone(),
            account: self.account.clone(),
            upass: self.upass.clone(),
            headimgurl: self.headimgurl.clone(),
            nickname: self.nickname.clone(),
            sign: self.sign.clone(),
            timestamp: self.timestamp.clone(),
            params: self.params.clone(),
            roomId: match &self.roomId {
                Some(r) => Some(r.clone()),
                None => None,
            },
        }
    }
}

/// The settings of the user, kept in a TOML file.
#[derive(Debug)]
pub struct BookStoreInfoConfig {
    pub OPEN_ID: String,
    pub JSESSIONID: String,
    pub X_CSRF_TOKEN: String,
    pub UUID: String,
    pub RULE_ID: String,
    pub PREFER: String,
    pub PERSON: Vec<PersonConfig>,
}

impl Clone for BookStoreInfoConfig {
    fn clone(&self) -> (r: Self)
        ensures
            r.OPEN_ID == self.OPEN_ID,
            r.JSESSIONID == self.JSESSIONID,
            r.X_CSRF_TOKEN == self.X_CSRF_TOKEN,
            r.UUID == self.UUID,
            r.RULE_ID == self.RULE_ID,
            r.PREFER == self.PREFER,
            r.PERSON@ == self.PERSON@,
    {
        let mut people: Vec<PersonConfig> = Vec::new();
        let mut i: usize = 0;
        while i < self.PERSON.len()
            invariant
                i <= self.PERSON@.len(),
                people@ == self.PERSON@.take(i as int),
            decreases self.PERSON@.len() - i,
        {
            people.push(self.PERSON[i].clone());
            assert(self.PERSON@.take(i + 1) =~= self.PERSON@.take(i as int).push(self.PERSON@[i as int]));
            i += 1;
        }
        assert(self.PERSON@.take(self.PERSON@.len() as int) =~= self.PERSON@);
        BookStoreInfoConfig {
            OPEN_ID: self.OPEN_ID.clone(),
            JSESSIONID: self.JSESSIONID.clone(),
            X_CSRF_TOKEN: self.X_CSRF_TOKEN.clone(),
            UUID: self.UUID.clone(),
            RULE_ID: self.RULE_ID.clone(),
            PREFER: self.PREFER.clone(),
            PERSON: people,
        }
    }
}

/// One page of the user's appointments.
#[derive(Debug, Clone)]
pub struct AppointMyappionts {
    pub currentPage: i64,
    pub showPage: Vec<i64>,
    pub nextPage: i64,
    pub next: bool,
    pub front: bool,
    pub frontPage: i64,
    pub pageSize: i64,
    pub totalCount: i64,
    pub totalPage: i64,
    pub pageList: Vec<AppointPageList>,
}

/// One appointment of the user.
#[derive(Debug, Clone)]
pub struct AppointPageList {
    pub id: String,
    pub stime: String,
    pub userid: String,
    pub uid: String,
    pub ctime: String,
    pub pay: i64,
    pub sign: bool,
    pub etime: String,
    pub currentday: String,
    pub signtime: String,
    pub rname: String,
    pub status: i64,
    pub flag: i64,
    pub title: Option<String>,
    pub bstatus: Option<i64>,
    pub cstatus: Option<i64>,
}

/// The parameters of an appointment-list reply.
#[derive(Debug, Clone)]
pub struct AppointParams {
    pub myappionts: AppointMyappionts,
}

/// A reply to an appointment-list request.
#[derive(Debug, Clone)]
pub struct AppointRootInterface {
    pub status: bool,
    pub content: String,
    pub params: AppointParams,
}

/// A room as the library shows it: its slots as a line of `X` (taken) and
/// `O` (free) and the number of free slots.
#[derive(Debug)]
pub struct SeatInfo {
    pub id: String,
    pub rname: String,
    pub times: String,
    pub avai: u32,
}

impl Clone for SeatInfo {
    fn clone(&self) -> (r: Self)
        ensures
            r == *self,
    {
        SeatInfo {
            id: self.id.clone(),
            rname: self.rname.clone(),
            times: self.times.clone(),
            avai: self.avai,
        }
    }
}

/// An appointment that still waits to be signed.
#[derive(Debug)]
pub struct AppointmentInfo {
    pub id: String,
    pub begin_time: String,
    pub end_time: String,
    pub rname: String,
    pub status: i32,
    pub flag: i32,
}

impl Clone for AppointmentInfo {
    fn clone(&self) -> (r: Self)
        ensures
            r == *self,
    {
        AppointmentInfo {
            id: self.id.clone(),
            begin_time: self.begin_time.clone(),
            end_time: self.end_time.clone(),
            rname: self.rname.clone(),
            status: self.status,
            flag: self.flag,
        }
    }
}

/// The appointment a booking request holds.
#[derive(Debug, Clone)]
pub struct AppointNode {
    pub _stime: String,
    pub _etime: String,
    pub _roomid: String,
    pub _currentday: String,
    pub UUID: String,
    pub ruleId: String,
    pub users: String,
    pub usercount: String,
    pub room_exp: String,
    pub _seatno: String,
    pub LOCK: String,
    pub _uid: String,
    pub _status: i64,
    pub _id: Option<String>,
    pub _userid: Option<String>,
}

/// The parameters of a booking reply.
#[derive(Debug, Clone)]
pub struct AppointmentParams {
    pub node: AppointNode,
    pub _id: Option<String>,
}

/// A reply to a booking request.
#[derive(Debug, Clone)]
pub struct AppointmentRootInterface {
    pub status: bool,
    pub content: String,
    pub params: AppointmentParams,
}

} // verus!
