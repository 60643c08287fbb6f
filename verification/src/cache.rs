//! The cache: what was last fetched, as the calendar shows it.
//!
//! Events are kept by the day on which they begin in the time zone of the
//! calendar, in the order in which they were fetched; an event whose start
//! names no supported day is left out. Tasks are kept as one list.
//!
//! What is kept is replaced as a whole or not at all: a fetch lists its
//! entries collection by collection, and one listing that fails fails the
//! fetch.

use crate::date::CalendarDate;
use crate::model::Event;
use std::collections::HashMap;
use vstd::prelude::*;
use vstd::std_specs::hash::*;
use vstd::string::*;

verus! {

broadcast use vstd::std_specs::hash::group_hash_axioms;

/// The events of `all` that begin on the day with number `day`, in order.
pub open spec fn events_on_day(all: Seq<Event>, day: int, offset: int) -> Seq<Event>
    decreases all.len(),
{
    if all.len() == 0 {
        Seq::empty()
    } else if all.last().start.day_number(offset) == Some(day) {
        events_on_day(all.drop_last(), day, offset).push(all.last())
    } else {
        events_on_day(all.drop_last(), day, offset)
    }
}

/// Every event of a day begins on that day.
pub proof fn lemma_events_on_day_start(all: Seq<Event>, day: int, offset: int)
    ensures
        forall|i: int|
            0 <= i < events_on_day(all, day, offset).len() ==> (#[trigger] events_on_day(
                all,
                day,
                offset,
            )[i]).start.day_number(offset) == Some(day),
    decreases all.len(),
{
    if all.len() > 0 {
        lemma_events_on_day_start(all.drop_last(), day, offset);
    }
}

/// Events by day, with each day's events as a sequence.
pub open spec fn events_view(by_day: Map<i32, Vec<Event>>) -> Map<i32, Seq<Event>> {
    Map::new(|day: i32| by_day.contains_key(day), |day: i32| by_day[day]@)
}

/// The events of `all` by the day on which they begin.
pub open spec fn grouped_events(all: Seq<Event>, offset: int) -> Map<i32, Seq<Event>> {
    Map::new(
        |day: i32| events_on_day(all, day as int, offset).len() > 0,
        |day: i32| events_on_day(all, day as int, offset),
    )
}

/// Whether `list` is a list of events that a day can be kept with: not
/// empty, and every event of it begins on the day with number `day`.
pub open spec fn begins_on(list: Seq<Event>, day: int, offset: int) -> bool {
    &&& list.len() > 0
    &&& forall|i: int|
        0 <= i < list.len() ==> (#[trigger] list[i]).start.day_number(offset) == Some(day)
}

/// Whether every event of `by_day` begins on the day it is kept under, and
/// no day is kept without events.
pub open spec fn kept_by_start(by_day: Map<i32, Seq<Event>>, offset: int) -> bool {
    forall|day: i32| #[trigger] by_day.contains_key(day) ==> begins_on(by_day[day], day as int, offset)
}

/// Events grouped by the day on which they begin are kept by their start.
pub proof fn lemma_grouped_kept_by_start(all: Seq<Event>, offset: int)
    ensures
        kept_by_start(grouped_events(all, offset), offset),
{
    let by_day = grouped_events(all, offset);
    assert forall|day: i32| #[trigger] by_day.contains_key(day) implies {
        &&& by_day[day].len() > 0
        &&& forall|i: int|
            0 <= i < by_day[day].len() ==> (#[trigger] by_day[day][i]).start.day_number(offset)
                == Some(day as int)
    } by {
        lemma_events_on_day_start(all, day as int, offset);
    }
}

/// Whether `by_day` holds the events of `all` by the day on which they begin:
/// under each day number the events of that day, and no day without events.
spec fn groups_events(by_day: Map<i32, Vec<Event>>, all: Seq<Event>, offset: int) -> bool {
    forall|day: i32|
        {
            &&& #[trigger] by_day.contains_key(day) <==> events_on_day(all, day as int, offset).len()
                > 0
            &&& by_day.contains_key(day) ==> by_day[day]@ == events_on_day(all, day as int, offset)
        }
}

/// Keeps fetched events by the day on which they begin.
pub fn group_events(all: &Vec<Event>, offset: i32) -> (by_day: HashMap<i32, Vec<Event>>)
    ensures
        events_view(by_day@) == grouped_events(all@, offset as int),
        kept_by_start(events_view(by_day@), offset as int),
{
    let mut by_day: HashMap<i32, Vec<Event>> = HashMap::new();
    let mut i: usize = 0;
    assert(all@.take(0) == Seq::<Event>::empty());
    while i < all.len()
        invariant
            i <= all.len(),
            groups_events(by_day@, all@.take(i as int), offset as int),
        decreases all.len() - i,
    {
        let ghost before = all@.take(i as int);
        let ghost now = all@.take(i + 1);
        assert(now.drop_last() == before);
        assert(now.last() == all@[i as int]);
        let ghost old_map = by_day@;
        match all[i].start.local_date(offset) {
            Some(date) => {
                let key = date.to_day_number();
                let mut list = match by_day.remove(&key) {
                    Some(list) => list,
                    None => Vec::new(),
                };
                list.push(all[i].duplicate());
                by_day.insert(key, list);
                assert forall|day: i32|
                    {
                        &&& #[trigger] by_day@.contains_key(day) <==> events_on_day(
                            now,
                            day as int,
                            offset as int,
                        ).len() > 0
                        &&& by_day@.contains_key(day) ==> by_day@[day]@ == events_on_day(
                            now,
                            day as int,
                            offset as int,
                        )
                    } by {
                    assert(old_map.contains_key(day) <==> events_on_day(
                        before,
                        day as int,
                        offset as int,
                    ).len() > 0);
                }
            },
            None => {
                assert forall|day: i32|
                    {
                        &&& #[trigger] by_day@.contains_key(day) <==> events_on_day(
                            now,
                            day as int,
                            offset as int,
                        ).len() > 0
                        &&& by_day@.contains_key(day) ==> by_day@[day]@ == events_on_day(
                            now,
                            day as int,
                            offset as int,
                        )
                    } by {
                    assert(old_map.contains_key(day) <==> events_on_day(
                        before,
                        day as int,
                        offset as int,
                    ).len() > 0);
                }
            },
        }
        i += 1;
    }
    assert(all@.take(all.len() as int) == all@);
    proof {
        assert(events_view(by_day@) =~= grouped_events(all@, offset as int));
        lemma_grouped_kept_by_start(all@, offset as int);
    }
    by_day
}

/// The place of the first listing that failed, if one did.
pub open spec fn first_failure<T>(listings: Seq<Result<Vec<T>, String>>) -> Option<int>
    decreases listings.len(),
{
    if listings.len() == 0 {
        None
    } else if first_failure(listings.drop_last()) is Some {
        first_failure(listings.drop_last())
    } else if listings.last() is Err {
        Some(listings.len() - 1)
    } else {
        None
    }
}

/// The entries of the listings that did not fail, joined in the order of
/// the listings.
pub open spec fn joined<T>(listings: Seq<Result<Vec<T>, String>>) -> Seq<T>
    decreases listings.len(),
{
    if listings.len() == 0 {
        Seq::empty()
    } else {
        joined(listings.drop_last()) + match listings.last() {
            Ok(list) => list@,
            Err(_) => Seq::empty(),
        }
    }
}

/// The first failure is a listing that failed, and every listing before it
/// did not; if there is none, no listing failed.
pub proof fn lemma_first_failure<T>(listings: Seq<Result<Vec<T>, String>>)
    ensures
        match first_failure(listings) {
            Some(at) => 0 <= at < listings.len() && listings[at] is Err && forall|i: int|
                0 <= i < at ==> (#[trigger] listings[i]) is Ok,
            None => forall|i: int| 0 <= i < listings.len() ==> (#[trigger] listings[i]) is Ok,
        },
    decreases listings.len(),
{
    if listings.len() > 0 {
        lemma_first_failure(listings.drop_last());
        assert forall|i: int| 0 <= i < listings.len() - 1 implies listings[i]
            == listings.drop_last()[i] by {}
    }
}

/// Gathers what a fetch has listed, collection by collection: if a listing
/// failed, the fetch has failed, with the cause of the first listing that
/// did; else the entries of all listings, in order.
pub fn gather_listings<T>(listings: Vec<Result<Vec<T>, String>>) -> (out: Result<Vec<T>, String>)
    ensures
        match first_failure(listings@) {
            Some(at) => out is Err && out->Err_0 == listings@[at]->Err_0,
            None => out is Ok && out->Ok_0@ == joined(listings@),
        },
{
    let ghost all = listings@;
    let mut gathered: Vec<T> = Vec::new();
    let mut failure: Option<String> = None;
    for listing in it: listings
        invariant
            it.seq() == all,
            match first_failure(all.take(it.index())) {
                Some(at) => 0 <= at < it.index() && failure == Some(all[at]->Err_0),
                None => failure is None && gathered@ == joined::<T>(all.take(it.index())),
            },
    {
        let ghost before = all.take(it.index());
        let ghost now = all.take(it.index() + 1);
        assert(now.drop_last() == before);
        assert(now.last() == listing);
        if failure.is_none() {
            match listing {
                Ok(mut list) => {
                    gathered.append(&mut list);
                },
                Err(cause) => {
                    failure = Some(cause);
                },
            }
        }
    }
    assert(all.take(all.len() as int) == all);
    match failure {
        Some(cause) => Err(cause),
        None => Ok(gathered),
    }
}

/// The events kept under the days `days`, written out day after day.
pub open spec fn written_out(by_day: Map<i32, Seq<Event>>, days: Seq<i32>) -> Seq<Event>
    decreases days.len(),
{
    if days.len() == 0 {
        Seq::empty()
    } else {
        written_out(by_day, days.drop_last()) + by_day[days.last()]
    }
}

/// The events of a day among two lists joined are those among the first
/// followed by those among the second.
pub proof fn lemma_events_on_day_joined(a: Seq<Event>, b: Seq<Event>, day: int, offset: int)
    ensures
        events_on_day(a + b, day, offset) == events_on_day(a, day, offset) + events_on_day(
            b,
            day,
            offset,
        ),
    decreases b.len(),
{
    if b.len() == 0 {
        assert(a + b == a);
    } else {
        assert((a + b).drop_last() == a + b.drop_last());
        assert((a + b).last() == b.last());
        lemma_events_on_day_joined(a, b.drop_last(), day, offset);
    }
}

/// Among events that all begin on one day, the events of that day are all
/// of them, and no other day has any.
pub proof fn lemma_events_of_one_day(list: Seq<Event>, key: int, day: int, offset: int)
    requires
        forall|i: int| 0 <= i < list.len() ==> (#[trigger] list[i]).start.day_number(offset) == Some(
            key,
        ),
    ensures
        events_on_day(list, day, offset) == if day == key {
            list
        } else {
            Seq::empty()
        },
    decreases list.len(),
{
    if list.len() > 0 {
        lemma_events_of_one_day(list.drop_last(), key, day, offset);
        if day == key {
            assert(list.drop_last().push(list.last()) == list);
        }
    }
}

/// Among the events written out day after day, the events of a day are those
/// kept under it, if it is one of the days written out.
pub proof fn lemma_written_out_on_day(
    by_day: Map<i32, Seq<Event>>,
    days: Seq<i32>,
    day: i32,
    offset: int,
)
    requires
        kept_by_start(by_day, offset),
        days.no_duplicates(),
        forall|i: int| 0 <= i < days.len() ==> by_day.contains_key(#[trigger] days[i]),
    ensures
        events_on_day(written_out(by_day, days), day as int, offset) == if days.contains(day) {
            by_day[day]
        } else {
            Seq::empty()
        },
    decreases days.len(),
{
    if days.len() > 0 {
        let before = days.drop_last();
        let last = days.last();
        assert(by_day.contains_key(days[days.len() - 1]));
        lemma_written_out_on_day(by_day, before, day, offset);
        lemma_events_on_day_joined(written_out(by_day, before), by_day[last], day as int, offset);
        lemma_events_of_one_day(by_day[last], last as int, day as int, offset);
        if before.contains(day) {
            let at = choose|i: int| 0 <= i < before.len() && before[i] == day;
            assert(days[at] == day);
            assert(days.contains(day));
            assert(day != last);
        } else if day == last {
            assert(days[days.len() - 1] == day);
        } else if days.contains(day) {
            let at = choose|i: int| 0 <= i < days.len() && days[i] == day;
            assert(before[at] == day);
        }
    }
}

/// What is kept can be written out day after day, in any order of the days,
/// and read back: keeping the events written out by the day on which they
/// begin gives what was kept.
pub proof fn lemma_written_out_reads_back(
    by_day: Map<i32, Seq<Event>>,
    days: Seq<i32>,
    offset: int,
)
    requires
        kept_by_start(by_day, offset),
        days.no_duplicates(),
        forall|day: i32| days.contains(day) <==> by_day.contains_key(day),
    ensures
        grouped_events(written_out(by_day, days), offset) == by_day,
{
    let read = grouped_events(written_out(by_day, days), offset);
    assert forall|i: int| 0 <= i < days.len() implies by_day.contains_key(#[trigger] days[i]) by {
        assert(days.contains(days[i]));
    }
    assert forall|day: i32| #[trigger]
        read.dom().contains(day) == by_day.dom().contains(day) by {
        lemma_written_out_on_day(by_day, days, day, offset);
    }
    assert forall|day: i32| #[trigger] read.dom().contains(day) implies read[day]
        == by_day[day] by {
        lemma_written_out_on_day(by_day, days, day, offset);
    }
    assert(read =~= by_day);
}

/// The events kept under a day: those of the day, or none.
pub open spec fn events_of_day(by_day: Map<i32, Vec<Event>>, date: CalendarDate) -> Seq<Event> {
    if by_day.contains_key(date.day_number() as i32) {
        by_day[date.day_number() as i32]@
    } else {
        Seq::empty()
    }
}

/// The events kept under a day, if there are any.
pub fn day_events<'a>(by_day: &'a HashMap<i32, Vec<Event>>, date: &CalendarDate) -> (events: Option<
    &'a Vec<Event>,
>)
    requires
        date.is_valid(),
    ensures
        match events {
            Some(list) => by_day@.contains_key(date.day_number() as i32) && *list
                == by_day@[date.day_number() as i32],
            None => !by_day@.contains_key(date.day_number() as i32),
        },
        events is Some ==> events->0@ == events_of_day(by_day@, *date),
        events is None ==> events_of_day(by_day@, *date).len() == 0,
{
    let key = date.to_day_number();
    by_day.get(&key)
}

/// Number of events kept under a day.
pub fn day_event_count(by_day: &HashMap<i32, Vec<Event>>, date: &CalendarDate) -> (count: usize)
    requires
        date.is_valid(),
    ensures
        count == events_of_day(by_day@, *date).len(),
{
    match day_events(by_day, date) {
        Some(list) => list.len(),
        None => 0,
    }
}

/// The place in a list that a cursor selects: the cursor's own if the list
/// reaches that far, else the last; none in an empty list.
pub open spec fn selected_place(cursor: usize, len: nat) -> Option<usize> {
    if len == 0 {
        None
    } else if cursor < len {
        Some(cursor)
    } else {
        Some((len - 1) as usize)
    }
}

/// The place in a list of `len` entries that a cursor selects.
pub fn select_place(cursor: usize, len: usize) -> (place: Option<usize>)
    ensures
        place == selected_place(cursor, len as nat),
        place is Some ==> place->0 < len,
{
    if len == 0 {
        None
    } else if cursor < len {
        Some(cursor)
    } else {
        Some(len - 1)
    }
}

/// A cursor brought back into a list: unchanged if the list reaches that
/// far, else on the last entry; on the first place of an empty list.
pub open spec fn clamped_cursor(cursor: usize, len: nat) -> usize {
    if len == 0 {
        0
    } else if cursor < len {
        cursor
    } else {
        (len - 1) as usize
    }
}

/// Brings a cursor back into a list of `len` entries.
pub fn clamp_cursor(cursor: usize, len: usize) -> (clamped: usize)
    ensures
        clamped == clamped_cursor(cursor, len as nat),
{
    if len == 0 {
        0
    } else if cursor < len {
        cursor
    } else {
        len - 1
    }
}

/// Whether a byte stands for itself in a request: a letter, a digit, or one
/// of `-`, `.`, `_` and `~`.
pub open spec fn is_plain_byte(byte: u8) -> bool {
    ||| 0x30 <= byte <= 0x39
    ||| 0x41 <= byte <= 0x5a
    ||| 0x61 <= byte <= 0x7a
    ||| byte == 0x2d
    ||| byte == 0x2e
    ||| byte == 0x5f
    ||| byte == 0x7e
}

/// The digit of base sixteen for a value below sixteen, with capital letters.
pub open spec fn hex_digit(value: int) -> char {
    if value < 10 {
        ('0' as int + value) as char
    } else {
        ('A' as int + value - 10) as char
    }
}

/// A sequence of bytes with every byte that does not stand for itself
/// written as `%` and its two digits of base sixteen.
pub open spec fn percent_encoded(bytes: Seq<u8>) -> Seq<char>
    decreases bytes.len(),
{
    if bytes.len() == 0 {
        Seq::empty()
    } else if is_plain_byte(bytes.last()) {
        percent_encoded(bytes.drop_last()).push(bytes.last() as char)
    } else {
        percent_encoded(bytes.drop_last()) + seq![
            '%',
            hex_digit(bytes.last() as int / 16),
            hex_digit(bytes.last() as int % 16),
        ]
    }
}

/// Encodes a text for a request with `urlencoding::encode`, which works on
/// the bytes of the text in UTF-8: letters, digits, `-`, `.`, `_` and `~`
/// stay, every other byte becomes `%` and its two capital digits of base
/// sixteen.
#[verifier::external_body]
fn url_encode(text: &str) -> (out: String)
    ensures
        out@ == percent_encoded(text.spec_bytes()),
{
    urlencoding::encode(text).into_owned()
}

/// The name of a calendar as requests for its events spell it.
pub fn calendar_request_id(calendar: &str) -> (out: String)
    ensures
        out@ == percent_encoded(calendar.spec_bytes()),
{
    url_encode(calendar)
}

} // verus!
