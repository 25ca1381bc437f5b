//! Seats: a room's slots turned into a line of marks, the ranking of rooms by
//! free slots and name, and the free hours of a room grouped into bookable
//! periods.

use vstd::prelude::*;
use vstd::multiset::Multiset;
use crate::structs::{RequestWithCookiesPageList, RequestWithCookiesTimes, SeatInfo};
use crate::text::{centered, decimal, lemma_utf8_injective, push_centered, push_decimal, bytes_less, bytes_lt, lemma_bytes_lt_asymmetric, lemma_bytes_lt_total, lemma_bytes_lt_transitive, utf8_of};

verus! {

broadcast use vstd::seq_lib::group_to_multiset_ensures;

/// The mark of a slot: `X` when it is taken, `O` when it is free.
pub open spec fn slot_mark(t: RequestWithCookiesTimes) -> char {
    if t.select { 'X' } else { 'O' }
}

/// The marks of a room's slots, one per slot, in order.
pub open spec fn slot_marks(times: Seq<RequestWithCookiesTimes>) -> Seq<char> {
    times.map_values(|t: RequestWithCookiesTimes| slot_mark(t))
}

/// The number of free slots.
pub open spec fn free_slot_count(times: Seq<RequestWithCookiesTimes>) -> nat
    decreases times.len(),
{
    if times.len() == 0 {
        0
    } else {
        free_slot_count(times.drop_last()) + if times.last().select { 0nat } else { 1nat }
    }
}

/// The number of `O` marks in a line of marks.
pub open spec fn count_free_marks(marks: Seq<char>) -> nat
    decreases marks.len(),
{
    if marks.len() == 0 {
        0
    } else {
        count_free_marks(marks.drop_last()) + if marks.last() == 'O' { 1nat } else { 0nat }
    }
}

/// `seat` shows `room`: same id and name, one mark per slot, and the number
/// of free slots.
pub open spec fn shows_room(seat: SeatInfo, room: RequestWithCookiesPageList) -> bool {
    &&& seat.id == room.id
    &&& seat.rname == room.rname
    &&& seat.times@ == slot_marks(room.times@)
    &&& seat.avai == free_slot_count(room.times@)
}

/// The seat summary of one room of the room list.
pub fn seat_info_of(room: &RequestWithCookiesPageList) -> (seat: SeatInfo)
    requires
        room.times@.len() <= u32::MAX,
    ensures
        shows_room(seat, *room),
{
    let mut count: u32 = 0;
    let mut marks = String::new();
    let mut i: usize = 0;
    while i < room.times.len()
        invariant
            i <= room.times@.len(),
            room.times@.len() <= u32::MAX,
            marks@ == slot_marks(room.times@.take(i as int)),
            count == free_slot_count(room.times@.take(i as int)),
            count <= i,
        decreases room.times@.len() - i,
    {
        let ghost before = room.times@.take(i as int);
        assert(room.times@.take(i + 1).drop_last() =~= before);
        if room.times[i].select {
            marks.push('X');
        } else {
            count += 1;
            marks.push('O');
        }
        assert(marks@ =~= slot_marks(room.times@.take(i + 1)));
        i += 1;
    }
    assert(room.times@.take(room.times@.len() as int) =~= room.times@);
    SeatInfo { id: room.id.clone(), rname: room.rname.clone(), times: marks, avai: count }
}

/// The seat summaries of a room list, room by room.
pub fn seat_infos(data: &Vec<RequestWithCookiesPageList>) -> (seats: Vec<SeatInfo>)
    requires
        forall|k: int| 0 <= k < data@.len() ==> (#[trigger] data@[k]).times@.len() <= u32::MAX,
    ensures
        seats@.len() == data@.len(),
        forall|k: int| 0 <= k < data@.len() ==> shows_room(#[trigger] seats@[k], data@[k]),
{
    let mut seats: Vec<SeatInfo> = Vec::new();
    let mut i: usize = 0;
    while i < data.len()
        invariant
            i <= data@.len(),
            forall|k: int| 0 <= k < data@.len() ==> (#[trigger] data@[k]).times@.len() <= u32::MAX,
            seats@.len() == i,
            forall|k: int| 0 <= k < i ==> shows_room(#[trigger] seats@[k], data@[k]),
        decreases data@.len() - i,
    {
        let s = seat_info_of(&data[i]);
        seats.push(s);
        i += 1;
    }
    seats
}

/// In any room, the number of free slots is the number of `O` marks.
pub proof fn law_free_count_matches_marks(times: Seq<RequestWithCookiesTimes>)
    ensures
        free_slot_count(times) == count_free_marks(slot_marks(times)),
        slot_marks(times).len() == times.len(),
    decreases times.len(),
{
    if times.len() > 0 {
        law_free_count_matches_marks(times.drop_last());
        assert(slot_marks(times).drop_last() =~= slot_marks(times.drop_last()));
    }
}

/* Ranking */

/// The bytes of a room's name, by which rooms of equal free slots are ordered.
pub open spec fn name_bytes(s: SeatInfo) -> Seq<u8> {
    utf8_of(s.rname@)
}

/// `a` may stand before `b`: more free slots, or as many and a name that
/// does not come after `b`'s.
pub open spec fn ranks_no_later(a: SeatInfo, b: SeatInfo) -> bool {
    a.avai > b.avai || (a.avai == b.avai && !bytes_lt(name_bytes(b), name_bytes(a)))
}

/// Rooms ordered by free slots, most first, then by name.
pub open spec fn is_ranked(s: Seq<SeatInfo>) -> bool {
    forall|i: int, j: int| 0 <= i < j < s.len() ==> ranks_no_later(#[trigger] s[i], #[trigger] s[j])
}

/// The rooms of `s` that a listing keeps: all, or only those with a free slot.
pub open spec fn listed(s: Seq<SeatInfo>, available_only: bool) -> Seq<SeatInfo>
    decreases s.len(),
{
    if s.len() == 0 {
        Seq::empty()
    } else if available_only && s.last().avai == 0 {
        listed(s.drop_last(), available_only)
    } else {
        listed(s.drop_last(), available_only).push(s.last())
    }
}

/// The full listing keeps every room; the available listing keeps, of each
/// room, every copy that has a free slot and none of those that have not.
pub proof fn law_available_within_full(s: Seq<SeatInfo>)
    ensures
        listed(s, false) == s,
        forall|x: SeatInfo| #[trigger] listed(s, true).to_multiset().count(x)
            == if x.avai > 0 { s.to_multiset().count(x) } else { 0 },
    decreases s.len(),
{
    if s.len() == 0 {
        assert(listed(s, false) =~= s);
        assert(listed(s, true) =~= Seq::<SeatInfo>::empty());
        assert(s.to_multiset() =~= vstd::multiset::Multiset::empty());
    } else {
        let init = s.drop_last();
        law_available_within_full(init);
        assert(s =~= init.push(s.last()));
        vstd::seq_lib::to_multiset_build(init, s.last());
        if s.last().avai > 0 {
            vstd::seq_lib::to_multiset_build(listed(init, true), s.last());
        }
    }
}

/// No two rooms share a name.
pub open spec fn names_distinct(s: Seq<SeatInfo>) -> bool {
    forall|i: int, j: int| 0 <= i < j < s.len() ==> (#[trigger] s[i]).rname@ != (#[trigger] s[j]).rname@
}

/// In a bag of rooms, rooms of one name are one room, held once.
pub open spec fn names_distinct_in(m: Multiset<SeatInfo>) -> bool {
    forall|x: SeatInfo, y: SeatInfo| #[trigger] m.count(x) > 0 && #[trigger] m.count(y) > 0 && x.rname@ == y.rname@
        ==> x == y && m.count(x) == 1
}

proof fn lemma_distinct_count(s: Seq<SeatInfo>, x: SeatInfo)
    requires
        names_distinct(s),
    ensures
        s.to_multiset().count(x) <= 1,
    decreases s.len(),
{
    if s.len() > 0 {
        let init = s.drop_last();
        assert(s =~= init.push(s.last()));
        vstd::seq_lib::to_multiset_build(init, s.last());
        assert(names_distinct(init)) by {
            assert forall|i: int, j: int| 0 <= i < j < init.len() implies (#[trigger] init[i]).rname@ != (#[trigger] init[j]).rname@ by {
                assert(init[i] == s[i] && init[j] == s[j]);
            }
        }
        lemma_distinct_count(init, x);
        if x == s.last() {
            assert(!init.contains(x)) by {
                if init.contains(x) {
                    let k = choose|k: int| 0 <= k < init.len() && init[k] == x;
                    assert(s[k] == init[k]);
                    assert(s[k].rname@ != s[s.len() - 1].rname@);
                }
            }
            vstd::seq_lib::to_multiset_contains(init, x);
        }
    }
}

/// Rooms of distinct names make a bag in which each name stands once.
pub proof fn lemma_distinct_bag(s: Seq<SeatInfo>)
    requires
        names_distinct(s),
    ensures
        names_distinct_in(s.to_multiset()),
{
    assert forall|x: SeatInfo, y: SeatInfo| #[trigger] s.to_multiset().count(x) > 0 && #[trigger] s.to_multiset().count(y) > 0
        && x.rname@ == y.rname@ implies x == y && s.to_multiset().count(x) == 1 by {
        vstd::seq_lib::to_multiset_contains(s, x);
        vstd::seq_lib::to_multiset_contains(s, y);
        lemma_distinct_count(s, x);
        let a = choose|a: int| 0 <= a < s.len() && s[a] == x;
        let b = choose|b: int| 0 <= b < s.len() && s[b] == y;
        if a < b {
            assert(s[a].rname@ != s[b].rname@);
        } else if b < a {
            assert(s[b].rname@ != s[a].rname@);
        }
    }
}

/// Two ranked lists of the same rooms, each name standing once, are equal.
pub proof fn lemma_ranked_unique(s: Seq<SeatInfo>, t: Seq<SeatInfo>)
    requires
        is_ranked(s),
        is_ranked(t),
        s.to_multiset() == t.to_multiset(),
        names_distinct_in(s.to_multiset()),
    ensures
        s == t,
    decreases s.len(),
{
    vstd::seq_lib::to_multiset_len(s);
    vstd::seq_lib::to_multiset_len(t);
    if s.len() == 0 {
        assert(s =~= t);
    } else {
        let m = s.to_multiset();
        assert(s.contains(s[0]));
        assert(t.contains(t[0]));
        vstd::seq_lib::to_multiset_contains(s, s[0]);
        vstd::seq_lib::to_multiset_contains(t, s[0]);
        vstd::seq_lib::to_multiset_contains(t, t[0]);
        vstd::seq_lib::to_multiset_contains(s, t[0]);
        let j = choose|j: int| 0 <= j < t.len() && t[j] == s[0];
        let i = choose|i: int| 0 <= i < s.len() && s[i] == t[0];
        if i > 0 && j > 0 {
            assert(ranks_no_later(s[0], s[i]));
            assert(ranks_no_later(t[0], t[j]));
            lemma_bytes_lt_total(name_bytes(s[0]), name_bytes(t[0]));
            lemma_utf8_injective(s[0].rname@, t[0].rname@);
            assert(m.count(s[0]) > 0 && m.count(t[0]) > 0);
        }
        assert(t[0] == s[0]);
        let (s1, t1) = (s.drop_first(), t.drop_first());
        assert(s.remove(0) =~= s1);
        assert(t.remove(0) =~= t1);
        vstd::seq_lib::to_multiset_remove(s, 0);
        vstd::seq_lib::to_multiset_remove(t, 0);
        assert(is_ranked(s1)) by {
            assert forall|a: int, b: int| 0 <= a < b < s1.len() implies ranks_no_later(#[trigger] s1[a], #[trigger] s1[b]) by {
                assert(s1[a] == s[a + 1] && s1[b] == s[b + 1]);
            }
        }
        assert(is_ranked(t1)) by {
            assert forall|a: int, b: int| 0 <= a < b < t1.len() implies ranks_no_later(#[trigger] t1[a], #[trigger] t1[b]) by {
                assert(t1[a] == t[a + 1] && t1[b] == t[b + 1]);
            }
        }
        let m1 = m.remove(s[0]);
        assert(names_distinct_in(m1)) by {
            broadcast use vstd::multiset::group_multiset_axioms;
            assert forall|x: SeatInfo, y: SeatInfo| #[trigger] m1.count(x) > 0 && #[trigger] m1.count(y) > 0 && x.rname@ == y.rname@
                implies x == y && m1.count(x) == 1 by {
                assert(m.count(x) >= m1.count(x));
                assert(m.count(y) >= m1.count(y));
                assert(m.count(x) > 0 && m.count(y) > 0);
            }
        }
        lemma_ranked_unique(s1, t1);
        assert(s =~= t) by {
            assert forall|k: int| 0 <= k < s.len() implies s[k] == t[k] by {
                if k > 0 {
                    assert(s[k] == s1[k - 1] && t[k] == t1[k - 1]);
                }
            }
        }
    }
}

/// A listing of a ranked list is ranked, and each of its rooms is one of the
/// list's.
pub proof fn lemma_listed_ranked(s: Seq<SeatInfo>, available_only: bool)
    requires
        is_ranked(s),
    ensures
        is_ranked(listed(s, available_only)),
        forall|k: int| 0 <= k < listed(s, available_only).len() ==> exists|m: int| 0 <= m < s.len()
            && s[m] == #[trigger] listed(s, available_only)[k],
    decreases s.len(),
{
    if s.len() > 0 {
        let init = s.drop_last();
        assert(is_ranked(init)) by {
            assert forall|a: int, b: int| 0 <= a < b < init.len() implies ranks_no_later(#[trigger] init[a], #[trigger] init[b]) by {
                assert(init[a] == s[a] && init[b] == s[b]);
            }
        }
        lemma_listed_ranked(init, available_only);
        let l0 = listed(init, available_only);
        let l = listed(s, available_only);
        assert forall|k: int| 0 <= k < l.len() implies exists|m: int| 0 <= m < s.len() && s[m] == #[trigger] l[k] by {
            if k < l0.len() {
                assert(l[k] == l0[k]);
                let m = choose|m: int| 0 <= m < init.len() && init[m] == #[trigger] l0[k];
                assert(s[m] == init[m]);
            } else {
                assert(l[k] == s[s.len() - 1]);
            }
        }
        assert forall|a: int, b: int| 0 <= a < b < l.len() implies ranks_no_later(#[trigger] l[a], #[trigger] l[b]) by {
            if b < l0.len() {
                assert(l[a] == l0[a] && l[b] == l0[b]);
            } else {
                assert(l[a] == l0[a]);
                assert(l[b] == s[s.len() - 1]);
                let m = choose|m: int| 0 <= m < init.len() && init[m] == #[trigger] l0[a];
                assert(s[m] == init[m]);
            }
        }
    }
}

/// With distinct room names, the ranked available listing is the ranked full
/// listing with the rooms without a free slot left out.
pub proof fn law_available_is_filtered_full(raw: Seq<SeatInfo>, full: Seq<SeatInfo>, avail: Seq<SeatInfo>)
    requires
        names_distinct(raw),
        is_ranked(full),
        is_ranked(avail),
        full.to_multiset() == listed(raw, false).to_multiset(),
        avail.to_multiset() == listed(raw, true).to_multiset(),
    ensures
        avail == listed(full, true),
{
    law_available_within_full(raw);
    law_available_within_full(full);
    lemma_listed_ranked(full, true);
    let f = listed(full, true);
    assert(f.to_multiset() =~= avail.to_multiset()) by {
        assert forall|x: SeatInfo| #[trigger] f.to_multiset().count(x) == avail.to_multiset().count(x) by {
            assert(f.to_multiset().count(x) == if x.avai > 0 { full.to_multiset().count(x) } else { 0 });
            assert(avail.to_multiset().count(x) == if x.avai > 0 { raw.to_multiset().count(x) } else { 0 });
        }
    }
    lemma_distinct_bag(raw);
    assert(names_distinct_in(avail.to_multiset())) by {
        let m = avail.to_multiset();
        let r = raw.to_multiset();
        assert forall|x: SeatInfo, y: SeatInfo| #[trigger] m.count(x) > 0 && #[trigger] m.count(y) > 0 && x.rname@ == y.rname@
            implies x == y && m.count(x) == 1 by {
            assert(m.count(x) == if x.avai > 0 { r.count(x) } else { 0 });
            assert(m.count(y) == if y.avai > 0 { r.count(y) } else { 0 });
            assert(r.count(x) > 0 && r.count(y) > 0);
        }
    }
    lemma_ranked_unique(avail, f);
}

/// Of two rooms, one may stand before the other.
pub proof fn lemma_rank_total(a: SeatInfo, b: SeatInfo)
    ensures
        ranks_no_later(a, b) || ranks_no_later(b, a),
{
    lemma_bytes_lt_asymmetric(name_bytes(a), name_bytes(b));
}

/// The ranking is transitive.
pub proof fn lemma_rank_transitive(a: SeatInfo, b: SeatInfo, c: SeatInfo)
    requires
        ranks_no_later(a, b),
        ranks_no_later(b, c),
    ensures
        ranks_no_later(a, c),
{
    let (na, nb, nc) = (name_bytes(a), name_bytes(b), name_bytes(c));
    if a.avai == b.avai && b.avai == c.avai {
        lemma_bytes_lt_total(na, nb);
        lemma_bytes_lt_total(nb, nc);
        lemma_bytes_lt_asymmetric(na, nc);
        lemma_bytes_lt_asymmetric(nc, nc);
        if bytes_lt(na, nb) && bytes_lt(nb, nc) {
            lemma_bytes_lt_transitive(na, nb, nc);
        }
    }
}

/// Whether `a` may stand before `b`.
fn rank_no_later(a: &SeatInfo, b: &SeatInfo) -> (r: bool)
    ensures
        r == ranks_no_later(*a, *b),
{
    if a.avai > b.avai {
        true
    } else if a.avai == b.avai {
        !bytes_less(b.rname.as_str().as_bytes(), a.rname.as_str().as_bytes())
    } else {
        false
    }
}

/// The rooms of `raw` that the listing keeps (all, or those with a free
/// slot), ordered by free slots, most first, and then by name.
pub fn rank_seats(raw: &Vec<SeatInfo>, available_only: bool) -> (res: Vec<SeatInfo>)
    ensures
        res@.to_multiset() == listed(raw@, available_only).to_multiset(),
        is_ranked(res@),
{
    let mut res: Vec<SeatInfo> = Vec::new();
    let mut i: usize = 0;
    while i < raw.len()
        invariant
            i <= raw@.len(),
            res@.to_multiset() == listed(raw@.take(i as int), available_only).to_multiset(),
            is_ranked(res@),
        decreases raw@.len() - i,
    {
        let ghost before = raw@.take(i as int);
        assert(raw@.take(i + 1).drop_last() =~= before);
        assert(raw@.take(i + 1).last() == raw@[i as int]);
        if available_only && raw[i].avai == 0 {
        } else {
            let x = raw[i].clone();
            let mut pos: usize = 0;
            while pos < res.len() && rank_no_later(&res[pos], &x)
                invariant
                    pos <= res@.len(),
                    forall|k: int| 0 <= k < pos ==> ranks_no_later(#[trigger] res@[k], x),
                decreases res@.len() - pos,
            {
                pos += 1;
            }
            let ghost old_res = res@;
            proof {
                if pos < old_res.len() {
                    lemma_rank_total(old_res[pos as int], x);
                }
            }
            res.insert(pos, x);
            proof {
                assert forall|a: int, b: int| 0 <= a < b < res@.len() implies ranks_no_later(#[trigger] res@[a], #[trigger] res@[b]) by {
                    if a < pos && b == pos {
                    } else if a < pos && b > pos {
                        assert(res@[a] == old_res[a]);
                        assert(res@[b] == old_res[b - 1]);
                    } else if a == pos {
                        assert(res@[b] == old_res[b - 1]);
                        if b - 1 > pos {
                            lemma_rank_transitive(x, old_res[pos as int], old_res[b - 1]);
                        }
                    } else if a < pos {
                        assert(res@[a] == old_res[a]);
                        assert(res@[b] == old_res[b]);
                    } else {
                        assert(res@[a] == old_res[a - 1]);
                        assert(res@[b] == old_res[b - 1]);
                    }
                }
                vstd::seq_lib::to_multiset_insert(old_res, pos as int, x);
            }
        }
        i += 1;
    }
    assert(raw@.take(raw@.len() as int) =~= raw@);
    res
}

/* Booking periods */

/// The byte that marks a free slot.
pub open spec fn free_mark() -> u8 {
    'O' as u8
}

/// The periods of the first `n` hours from 8 o'clock on: going hour by hour,
/// a free hour joins the last period when that one holds fewer than three
/// hours and ends just before it, and starts a new period otherwise.
pub open spec fn periods_through(marks: Seq<u8>, n: nat) -> Seq<Seq<i32>>
    decreases n,
{
    if n == 0 {
        Seq::empty()
    } else {
        let p = periods_through(marks, (n - 1) as nat);
        let hour = (7 + n) as i32;
        if marks[n - 1] == free_mark() {
            if p.len() > 0 && p.last().len() < 3 && p.last().last() == hour - 1 {
                p.update(p.len() - 1, p.last().push(hour))
            } else {
                p.push(seq![hour])
            }
        } else {
            p
        }
    }
}

/// The periods to book from a room's marks: its free hours from 8 to 21
/// o'clock, in runs of at most three.
pub open spec fn booking_periods(marks: Seq<u8>) -> Seq<Seq<i32>> {
    periods_through(marks, 14)
}

/// The free hours among the first `n` from 8 o'clock on, in order.
pub open spec fn free_hours_through(marks: Seq<u8>, n: nat) -> Seq<i32>
    decreases n,
{
    if n == 0 {
        Seq::empty()
    } else if marks[n - 1] == free_mark() {
        free_hours_through(marks, (n - 1) as nat).push((7 + n) as i32)
    } else {
        free_hours_through(marks, (n - 1) as nat)
    }
}

/// The hours of a list of periods, one period after another.
pub open spec fn joined_hours(p: Seq<Seq<i32>>) -> Seq<i32>
    decreases p.len(),
{
    if p.len() == 0 {
        Seq::empty()
    } else {
        joined_hours(p.drop_last()) + p.last()
    }
}

/// A period: one to three hours, each the hour after the one before.
pub open spec fn is_period(q: Seq<i32>) -> bool {
    &&& 1 <= q.len() <= 3
    &&& forall|t: int| 0 <= t < q.len() - 1 ==> #[trigger] q[t + 1] == q[t] + 1
}

/// Of two periods in a row, the first is full or the second does not start
/// right after it: a period is cut only where it must be.
pub open spec fn cut_where_needed(p: Seq<Seq<i32>>) -> bool {
    forall|k: int| 0 <= k < p.len() - 1 ==> (#[trigger] p[k]).len() == 3 || p[k + 1][0] != p[k].last() + 1
}

/// The periods of a room's marks cover exactly its free hours, in order;
/// each is a run of one to three hours; and a period is cut only where it is
/// full or the next free hour does not follow on.
pub proof fn law_periods_shape(marks: Seq<u8>, n: nat)
    requires
        n <= marks.len(),
    ensures
        joined_hours(periods_through(marks, n)) == free_hours_through(marks, n),
        forall|k: int| 0 <= k < periods_through(marks, n).len() ==> is_period(#[trigger] periods_through(marks, n)[k]),
        cut_where_needed(periods_through(marks, n)),
    decreases n,
{
    if n > 0 {
        let m = (n - 1) as nat;
        law_periods_shape(marks, m);
        let p = periods_through(marks, m);
        let hour = (7 + n) as i32;
        let q = periods_through(marks, n);
        if marks[n - 1] == free_mark() {
            if p.len() > 0 && p.last().len() < 3 && p.last().last() == hour - 1 {
                let last = p.last().push(hour);
                assert(q == p.update(p.len() - 1, last));
                assert(q.drop_last() =~= p.drop_last());
                assert(joined_hours(q) =~= joined_hours(p).push(hour));
                assert(is_period(p[p.len() - 1]));
                assert(is_period(last));
                assert forall|k: int| 0 <= k < q.len() implies is_period(#[trigger] q[k]) by {
                    if k < q.len() - 1 {
                        assert(q[k] == p[k]);
                    }
                }
                assert forall|k: int| 0 <= k < q.len() - 1 implies (#[trigger] q[k]).len() == 3 || q[k + 1][0] != q[k].last() + 1 by {
                    assert(q[k] == p[k]);
                    if k + 1 == q.len() - 1 {
                        assert(q[k + 1][0] == p[k + 1][0]);
                    } else {
                        assert(q[k + 1] == p[k + 1]);
                    }
                }
            } else {
                assert(q.drop_last() =~= p);
                assert(joined_hours(q) =~= joined_hours(p) + seq![hour]);
                assert(is_period(seq![hour]));
                assert forall|k: int| 0 <= k < q.len() implies is_period(#[trigger] q[k]) by {
                    if k < q.len() - 1 {
                        assert(q[k] == p[k]);
                    }
                }
                assert forall|k: int| 0 <= k < q.len() - 1 implies (#[trigger] q[k]).len() == 3 || q[k + 1][0] != q[k].last() + 1 by {
                    assert(q[k] == p[k]);
                    if k + 1 < q.len() - 1 {
                        assert(q[k + 1] == p[k + 1]);
                    } else {
                        assert(is_period(p[k]));
                    }
                }
            }
        }
    }
}

/// The views of a list of periods.
pub open spec fn periods_view(v: Seq<Vec<i32>>) -> Seq<Seq<i32>> {
    v.map_values(|x: Vec<i32>| x@)
}

/// The periods to book from the marks of a room: its free hours from 8 to
/// 21 o'clock, grouped into runs of at most three hours.
pub fn free_hour_periods(times: &str) -> (res: Vec<Vec<i32>>)
    requires
        utf8_of(times@).len() >= 14,
    ensures
        periods_view(res@) == booking_periods(utf8_of(times@)),
{
    let bytes = times.as_bytes();
    let mut tmp: Vec<Vec<i32>> = Vec::new();
    let mut hour: i32 = 8;
    assert(periods_view(tmp@) =~= periods_through(bytes@, 0));
    while hour < 22
        invariant
            8 <= hour <= 22,
            bytes@ == utf8_of(times@),
            bytes@.len() >= 14,
            periods_view(tmp@) == periods_through(bytes@, (hour - 8) as nat),
        decreases 22 - hour,
    {
        let ghost p = periods_through(bytes@, (hour - 8) as nat);
        proof {
            law_periods_shape(bytes@, (hour - 8) as nat);
            assert forall|k: int| 0 <= k < tmp@.len() implies (#[trigger] tmp@[k])@.len() >= 1 by {
                assert(tmp@[k]@ == p[k]);
                assert(is_period(p[k]));
            }
        }
        // 79 is the byte of the mark `O` of a free slot.
        if bytes[(hour - 8) as usize] == 79u8 {
            let n = tmp.len();
            let extend = n > 0 && tmp[n - 1].len() < 3 && tmp[n - 1][tmp[n - 1].len() - 1] == hour - 1;
            if extend {
                let mut last = tmp.pop().unwrap();
                last.push(hour);
                tmp.push(last);
                assert(periods_view(tmp@) =~= p.update(p.len() - 1, p.last().push(hour)));
            } else {
                let mut fresh: Vec<i32> = Vec::new();
                fresh.push(hour);
                assert(fresh@ =~= seq![hour]);
                tmp.push(fresh);
                assert(periods_view(tmp@) =~= p.push(seq![hour]));
            }
        }
        hour += 1;
    }
    tmp
}

/* The seat table */

/// The head line of the seat table: the column names centred in their
/// columns, tab-separated.
pub open spec fn table_header() -> Seq<char> {
    centered("id"@, 32) + "\t"@ + centered("rname"@, 21) + "\t"@ + centered("times"@, 14) + "\tavai"@
}

/// The line of a room in the seat table.
pub open spec fn seat_line(s: SeatInfo) -> Seq<char> {
    s.id@ + "\t"@ + s.rname@ + "\t"@ + s.times@ + "\t  "@ + decimal(s.avai as nat)
}

/// The line of a room in the seat table.
pub fn seat_line_text(s: &SeatInfo) -> (line: String)
    ensures
        line@ == seat_line(*s),
{
    let mut line = String::from_str(s.id.as_str());
    line.append("\t");
    line.append(s.rname.as_str());
    line.append("\t");
    line.append(s.times.as_str());
    line.append("\t  ");
    push_decimal(&mut line, s.avai as u64);
    line
}

/// The lines that show a list of rooms: a head line and one line per room,
/// or a notice that the list is empty.
pub fn seat_table_lines(v: &[SeatInfo]) -> (lines: Vec<String>)
    ensures
        v@.len() == 0 ==> lines@.len() == 1 && lines@[0]@ == "[INFO] SEAT LIST NO DATA"@,
        v@.len() > 0 ==> lines@.len() == v@.len() + 1 && lines@[0]@ == table_header()
            && forall|k: int| 0 <= k < v@.len() ==> (#[trigger] lines@[k + 1])@ == seat_line(v@[k]),
{
    let mut lines: Vec<String> = Vec::new();
    if v.len() == 0 {
        lines.push(String::from_str("[INFO] SEAT LIST NO DATA"));
        return lines;
    }
    let mut head = String::new();
    push_centered(&mut head, "id", 32);
    head.append("\t");
    push_centered(&mut head, "rname", 21);
    head.append("\t");
    push_centered(&mut head, "times", 14);
    head.append("\tavai");
    lines.push(head);
    let mut i: usize = 0;
    while i < v.len()
        invariant
            i <= v@.len(),
            lines@.len() == i + 1,
            lines@[0]@ == table_header(),
            forall|k: int| 0 <= k < i ==> (#[trigger] lines@[k + 1])@ == seat_line(v@[k]),
        decreases v@.len() - i,
    {
        let line = seat_line_text(&v[i]);
        lines.push(line);
        i += 1;
    }
    lines
}

} // verus!
