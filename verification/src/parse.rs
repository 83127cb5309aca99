//! Strict positional record parser: turns clean text into validated `Event`
//! records. Rows are CRLF-separated; the first row is a header and is always
//! skipped; blank rows are tolerated; every other row must carry at least
//! the twelve positional fields, with well-formed dates, times and id, or
//! the whole parse fails (all-or-nothing).

use vstd::prelude::*;
use crate::datetime::{
    Date, TimeOfDay, DateTime, date_valid, datetime_le, days_in_month, time_valid,
};
use crate::event::{Event, EventModel, event_record_invariant, models};
use crate::text::{
    all_digits, all_digits_exec, chars_to_string, digits_to_u32, digits_val, lines_view,
    parse_u64, remove_quotes, remove_quotes_exec, split_char, split_char_exec, split_crlf,
    split_crlf_exec, u64_of_digits,
};

verus! {

/// A digit string of one or two characters, as the day and month fields and
/// the time components use.
pub open spec fn short_digits(s: Seq<char>) -> bool {
    1 <= s.len() <= 2 && all_digits(s)
}

/// A digit string of exactly four characters, as the year field uses.
pub open spec fn year_digits(s: Seq<char>) -> bool {
    s.len() == 4 && all_digits(s)
}

/// The date a `day.month.year` field denotes: one or two digits of day, one
/// or two of month, exactly four of year, and the result must be a real
/// calendar date. The grammar is deliberately strict: no sign, no
/// surrounding whitespace, no two-digit years — a field of any other shape
/// is a malformed row.
pub open spec fn date_of(s: Seq<char>) -> Option<Date> {
    let ps = split_char(s, '.');
    if ps.len() == 3 && short_digits(ps[0]) && short_digits(ps[1]) && year_digits(ps[2]) {
        let d = Date {
            year: digits_val(ps[2]) as u32,
            month: digits_val(ps[1]) as u32,
            day: digits_val(ps[0]) as u32,
        };
        if date_valid(d) {
            Some(d)
        } else {
            None
        }
    } else {
        None
    }
}

/// The time a `hour:minute` field denotes: one or two digits each, hour at
/// most 23, minute at most 59. As with dates, the grammar is deliberately
/// strict: digits and the separator only.
pub open spec fn time_of(s: Seq<char>) -> Option<TimeOfDay> {
    let ps = split_char(s, ':');
    if ps.len() == 2 && short_digits(ps[0]) && short_digits(ps[1]) {
        let t = TimeOfDay { hour: digits_val(ps[0]) as u32, minute: digits_val(ps[1]) as u32 };
        if time_valid(t) {
            Some(t)
        } else {
            None
        }
    } else {
        None
    }
}

fn check_short_digits(v: &Vec<char>) -> (r: bool)
    ensures
        r == short_digits(v@),
{
    1 <= v.len() && v.len() <= 2 && all_digits_exec(v, 0)
}

/// Reads a `day.month.year` date field.
pub fn parse_date(v: &Vec<char>) -> (r: Option<Date>)
    ensures
        r == date_of(v@),
{
    let parts = split_char_exec(v, '.');
    proof {
        assert(lines_view(parts@).len() == parts@.len());
    }
    if parts.len() != 3 {
        return None;
    }
    proof {
        assert(lines_view(parts@)[0] == parts@[0]@);
        assert(lines_view(parts@)[1] == parts@[1]@);
        assert(lines_view(parts@)[2] == parts@[2]@);
    }
    let day_part = &parts[0];
    let month_part = &parts[1];
    let year_part = &parts[2];
    if !check_short_digits(day_part) || !check_short_digits(month_part) {
        return None;
    }
    if !(year_part.len() == 4 && all_digits_exec(year_part, 0)) {
        return None;
    }
    proof {
        assert(day_part@.subrange(0, day_part@.len() as int) =~= day_part@);
        assert(month_part@.subrange(0, month_part@.len() as int) =~= month_part@);
        assert(year_part@.subrange(0, year_part@.len() as int) =~= year_part@);
    }
    let day = digits_to_u32(day_part, 0, day_part.len());
    let month = digits_to_u32(month_part, 0, month_part.len());
    let year = digits_to_u32(year_part, 0, year_part.len());
    let d = Date { year, month, day };
    if 1 <= month && month <= 12 && 1 <= day && day <= days_in_month(year, month) {
        Some(d)
    } else {
        None
    }
}

/// Reads a `hour:minute` time field.
pub fn parse_time(v: &Vec<char>) -> (r: Option<TimeOfDay>)
    ensures
        r == time_of(v@),
{
    let parts = split_char_exec(v, ':');
    proof {
        assert(lines_view(parts@).len() == parts@.len());
    }
    if parts.len() != 2 {
        return None;
    }
    proof {
        assert(lines_view(parts@)[0] == parts@[0]@);
        assert(lines_view(parts@)[1] == parts@[1]@);
    }
    let hour_part = &parts[0];
    let minute_part = &parts[1];
    if !check_short_digits(hour_part) || !check_short_digits(minute_part) {
        return None;
    }
    proof {
        assert(hour_part@.subrange(0, hour_part@.len() as int) =~= hour_part@);
        assert(minute_part@.subrange(0, minute_part@.len() as int) =~= minute_part@);
    }
    let hour = digits_to_u32(hour_part, 0, hour_part.len());
    let minute = digits_to_u32(minute_part, 0, minute_part.len());
    let t = TimeOfDay { hour, minute };
    if hour <= 23 && minute <= 59 {
        Some(t)
    } else {
        None
    }
}

/// The event a row denotes, if the row is well formed: quotes stripped, the
/// row split on `;`, and the first twelve fields read in their fixed order
/// (from-date, to-date, weekday (ignored), from-time, to-time, room, class
/// name, subject, teacher, department, building, event id). Machine imports
/// carry no manual-edit provenance and are visible by default. A row whose
/// record would break the event invariant — an end before its start, or an
/// empty display field — is malformed like any other bad row.
pub open spec fn row_event(line: Seq<char>) -> Option<EventModel> {
    let fs = split_char(remove_quotes(line), ';');
    if fs.len() >= 12 {
        match (date_of(fs[0]), date_of(fs[1]), time_of(fs[3]), time_of(fs[4]), u64_of_digits(
            fs[11],
        )) {
            (Some(fd), Some(td), Some(ft), Some(tt), Some(id)) => {
                let e = EventModel {
                    event_id: id,
                    from_datetime: DateTime { date: fd, time: ft },
                    to_datetime: DateTime { date: td, time: tt },
                    room: fs[5],
                    class_name: fs[6],
                    subject: fs[7],
                    teacher: fs[8],
                    department: fs[9],
                    building: fs[10],
                    modified_at: None,
                    modified_by: None,
                    visible: true,
                };
                if event_record_invariant(e) {
                    Some(e)
                } else {
                    None
                }
            },
            _ => None,
        }
    } else {
        None
    }
}

/// Reads one row into an `Event`, or nothing if the row is malformed.
pub fn parse_row(line: &Vec<char>) -> (r: Option<Event>)
    ensures
        r is Some <==> row_event(line@) is Some,
        r matches Some(e) ==> Some(e@) == row_event(line@),
{
    let cleaned = remove_quotes_exec(line);
    let fields = split_char_exec(&cleaned, ';');
    proof {
        assert(lines_view(fields@).len() == fields@.len());
        assert(forall|k: int|
            0 <= k < fields@.len() ==> lines_view(fields@)[k] == #[trigger] fields@[k]@);
    }
    if fields.len() < 12 {
        return None;
    }
    let from_date = match parse_date(&fields[0]) {
        Some(d) => d,
        None => {
            return None;
        }
    };
    let to_date = match parse_date(&fields[1]) {
        Some(d) => d,
        None => {
            return None;
        }
    };
    let from_time = match parse_time(&fields[3]) {
        Some(t) => t,
        None => {
            return None;
        }
    };
    let to_time = match parse_time(&fields[4]) {
        Some(t) => t,
        None => {
            return None;
        }
    };
    let event_id = match parse_u64(&fields[11]) {
        Some(n) => n,
        None => {
            return None;
        }
    };
    let from_datetime = DateTime { date: from_date, time: from_time };
    let to_datetime = DateTime { date: to_date, time: to_time };
    if !datetime_le(from_datetime, to_datetime) {
        return None;
    }
    if fields[5].len() == 0 || fields[6].len() == 0 || fields[7].len() == 0 || fields[8].len()
        == 0 || fields[9].len() == 0 || fields[10].len() == 0 {
        return None;
    }
    Some(
        Event {
            event_id,
            from_datetime,
            to_datetime,
            room: chars_to_string(&fields[5]),
            class_name: chars_to_string(&fields[6]),
            subject: chars_to_string(&fields[7]),
            teacher: chars_to_string(&fields[8]),
            department: chars_to_string(&fields[9]),
            building: chars_to_string(&fields[10]),
            modified_at: None,
            modified_by: None,
            visible: true,
        },
    )
}

/// A machine-imported row is visible by default and never carries
/// manual-edit provenance.
pub proof fn lemma_machine_import_provenance(line: Seq<char>)
    requires
        row_event(line) is Some,
    ensures
        row_event(line)->Some_0.visible == true,
        row_event(line)->Some_0.modified_at is None,
        row_event(line)->Some_0.modified_by is None,
{
}

/// A row parses only into a record that honors the event invariant: it
/// ends no earlier than it starts and carries no empty display string.
pub proof fn lemma_parsed_row_invariant(line: Seq<char>)
    requires
        row_event(line) is Some,
    ensures
        event_record_invariant(row_event(line)->Some_0),
{
}

/// The parse of rows `i..` of the file: blank and one-character rows are
/// skipped, every other row must be well formed, and the events come out in
/// row order. `None` as soon as any row is malformed.
pub open spec fn parse_from(lines: Seq<Seq<char>>, i: int) -> Option<Seq<EventModel>>
    decreases lines.len() - i,
{
    if i < 0 || i >= lines.len() {
        Some(Seq::empty())
    } else if lines[i].len() <= 1 {
        parse_from(lines, i + 1)
    } else {
        match (row_event(lines[i]), parse_from(lines, i + 1)) {
            (Some(e), Some(rest)) => Some(seq![e] + rest),
            _ => None,
        }
    }
}

/// The parse of the whole text: rows split on CRLF, the header row skipped.
pub open spec fn events_of(text: Seq<char>) -> Option<Seq<EventModel>> {
    parse_from(split_crlf(text), 1)
}

/// Row `i` is one the parser must reject: long enough not to be skipped,
/// but malformed.
pub open spec fn bad_line(lines: Seq<Seq<char>>, i: int) -> bool {
    0 <= i < lines.len() && lines[i].len() > 1 && row_event(lines[i]) is None
}

proof fn lemma_parse_from_invariant(lines: Seq<Seq<char>>, i: int)
    ensures
        parse_from(lines, i) matches Some(evs) ==> forall|k: int|
            0 <= k < evs.len() ==> event_record_invariant(#[trigger] evs[k]),
    decreases lines.len() - i,
{
    if 0 <= i < lines.len() {
        lemma_parse_from_invariant(lines, i + 1);
        if lines[i].len() > 1 {
            match (row_event(lines[i]), parse_from(lines, i + 1)) {
                (Some(e), Some(rest)) => {
                    let evs = (seq![e] + rest);
                    assert forall|k: int| 0 <= k < evs.len() implies event_record_invariant(
                        #[trigger] evs[k],
                    ) by {
                        if k == 0 {
                            assert(evs[0] == e);
                        } else {
                            assert(evs[k] == rest[k - 1]);
                        }
                    }
                }
                _ => {}
            }
        }
    }
}

/// Everything a successful parse produces honors the event invariant.
pub proof fn lemma_parsed_events_invariant(text: Seq<char>)
    ensures
        events_of(text) matches Some(evs) ==> forall|k: int|
            0 <= k < evs.len() ==> event_record_invariant(#[trigger] evs[k]),
{
    lemma_parse_from_invariant(split_crlf(text), 1);
}

proof fn lemma_bad_line_poisons(lines: Seq<Seq<char>>, k: int, i: int)
    requires
        bad_line(lines, i),
        1 <= k <= i,
    ensures
        parse_from(lines, k) is None,
    decreases i - k,
{
    if k < i {
        lemma_bad_line_poisons(lines, k + 1, i);
    }
}

/// The parse is all-or-nothing: one malformed row anywhere in the file
/// means no events at all come out of it.
pub proof fn lemma_all_or_nothing(text: Seq<char>, i: int)
    requires
        1 <= i,
        bad_line(split_crlf(text), i),
    ensures
        events_of(text) is None,
{
    lemma_bad_line_poisons(split_crlf(text), 1, i);
}

/// The parser failed before producing any events.
#[derive(Debug, PartialEq)]
pub enum ParseError {
    /// No text has been loaded yet.
    NoContent,
    /// A row was malformed; carries the offending row and its position
    /// (rows counted from zero, the header being row zero).
    BadRow { line_number: usize, line: String },
}

/// Parses the clean text into the full ordered list of events, or fails on
/// the first malformed row without producing any events.
pub fn parse(text: &Vec<char>) -> (r: Result<Vec<Event>, ParseError>)
    ensures
        r is Ok <==> events_of(text@) is Some,
        r matches Ok(evs) ==> Some(models(evs@)) == events_of(text@),
        r matches Err(e) ==> e matches ParseError::BadRow { line_number, line }
            && line_number >= 1 && bad_line(split_crlf(text@), line_number as int) && line@
            == split_crlf(text@)[line_number as int] && (forall|k: int|
            1 <= k < line_number ==> !bad_line(split_crlf(text@), k)),
{
    let lines = split_crlf_exec(text);
    let ghost ls = split_crlf(text@);
    proof {
        assert(forall|k: int| 0 <= k < lines@.len() ==> ls[k] == #[trigger] lines@[k]@);
    }
    let mut events: Vec<Event> = Vec::new();
    let mut i: usize = 1;
    proof {
        assert(ls.len() >= 1);
        match parse_from(ls, 1) {
            Some(rest) => {
                assert(models(events@) + rest =~= rest);
            }
            None => {}
        }
    }
    while i < lines.len()
        invariant
            1 <= i <= lines@.len(),
            lines_view(lines@) == ls,
            ls == split_crlf(text@),
            forall|k: int| 0 <= k < lines@.len() ==> ls[k] == #[trigger] lines@[k]@,
            parse_from(ls, 1) == match parse_from(ls, i as int) {
                Some(rest) => Some(models(events@) + rest),
                None => { None },
            },
            forall|k: int| 1 <= k < i ==> !bad_line(ls, k),
        decreases lines@.len() - i,
    {
        let line = &lines[i];
        if line.len() > 1 {
            match parse_row(line) {
                Some(e) => {
                    proof {
                        let em = row_event(ls[i as int])->Some_0;
                        match parse_from(ls, i as int + 1) {
                            Some(rest) => {
                                assert(models(events@.push(e)) =~= models(events@).push(e@));
                                assert(models(events@) + (seq![em] + rest) =~= models(
                                    events@.push(e),
                                ) + rest);
                            }
                            None => {}
                        }
                    }
                    events.push(e);
                }
                None => {
                    proof {
                        assert(bad_line(ls, i as int));
                        assert(parse_from(ls, i as int) is None);
                    }
                    return Err(
                        ParseError::BadRow { line_number: i, line: chars_to_string(line) },
                    );
                }
            }
        }
        i = i + 1;
    }
    proof {
        assert(parse_from(ls, i as int) == Some(Seq::<EventModel>::empty()));
        assert(models(events@) + Seq::<EventModel>::empty() =~= models(events@));
    }
    Ok(events)
}

} // verus!
