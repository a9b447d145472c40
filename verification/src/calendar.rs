//! The calendar of one property: its months and days, the words that name
//! them, and the reading of the schedule page.

use vstd::prelude::*;
use vstd::slice::slice_subrange;
use vstd::string::StringExecFns;
use crate::error::{ParsingError, ParsingErrorView};
use crate::text::{
    after_last, before_first, chars_of, contains, cut_after_last, cut_before_first, cut_once,
    decimal, find, find_first, has, is_text, lemma_find_from, parse_u32, preview, preview_of, push_decimal,
    read_u32, split_once,
};

verus! {

/// The address under which the schedules are published.
pub const API_URL: &'static str = "https://www.mojiodpadki.si/urniki/urniki-odvoza-odpadkov";

/// The number of day slots that every month has.
pub const DAYS_IN_A_MONTH: usize = 31;

/// A month of the year.
#[derive(Debug, Clone, Copy, PartialEq, Eq, Structural)]
pub enum Month {
    Jan,
    Feb,
    Mar,
    Apr,
    May,
    Jun,
    Jul,
    Avg,
    Sep,
    Okt,
    Nov,
    Dec,
}

impl Month {
    /// The word that stands for this month on the page.
    pub open spec fn token(self) -> Seq<char> {
        match self {
            Month::Jan => "JANUAR"@,
            Month::Feb => "FEBRUAR"@,
            Month::Mar => "MAREC"@,
            Month::Apr => "APRIL"@,
            Month::May => "MAJ"@,
            Month::Jun => "JUNIJ"@,
            Month::Jul => "JULIJ"@,
            Month::Avg => "AVGUST"@,
            Month::Sep => "SEPTEMBER"@,
            Month::Okt => "OKTOBER"@,
            Month::Nov => "NOVEMBER"@,
            Month::Dec => "DECEMBER"@,
        }
    }

    /// The name under which this month is shown.
    pub open spec fn name(self) -> Seq<char> {
        match self {
            Month::Jan => "januar"@,
            Month::Feb => "februar"@,
            Month::Mar => "marec"@,
            Month::Apr => "april"@,
            Month::May => "maj"@,
            Month::Jun => "junij"@,
            Month::Jul => "julij"@,
            Month::Avg => "avgust"@,
            Month::Sep => "september"@,
            Month::Okt => "oktober"@,
            Month::Nov => "november"@,
            Month::Dec => "december"@,
        }
    }

    /// The month whose word is exactly `s`, if there is one.
    pub open spec fn from_token(s: Seq<char>) -> Option<Month> {
        if s == "JANUAR"@ {
            Some(Month::Jan)
        } else if s == "FEBRUAR"@ {
            Some(Month::Feb)
        } else if s == "MAREC"@ {
            Some(Month::Mar)
        } else if s == "APRIL"@ {
            Some(Month::Apr)
        } else if s == "MAJ"@ {
            Some(Month::May)
        } else if s == "JUNIJ"@ {
            Some(Month::Jun)
        } else if s == "JULIJ"@ {
            Some(Month::Jul)
        } else if s == "AVGUST"@ {
            Some(Month::Avg)
        } else if s == "SEPTEMBER"@ {
            Some(Month::Sep)
        } else if s == "OKTOBER"@ {
            Some(Month::Okt)
        } else if s == "NOVEMBER"@ {
            Some(Month::Nov)
        } else if s == "DECEMBER"@ {
            Some(Month::Dec)
        } else {
            None
        }
    }

    /// Reads the word of a month, given as characters.
    pub fn parse(value: &[char]) -> (r: Result<Month, ParsingError>)
        ensures
            match r {
                Ok(m) => Month::from_token(value@) == Some(m),
                Err(e) => Month::from_token(value@) is None && e@ == ParsingErrorView::MonthName(
                    preview(value@, 9),
                ),
            },
    {
        if is_text(value, "JANUAR") {
            Ok(Month::Jan)
        } else if is_text(value, "FEBRUAR") {
            Ok(Month::Feb)
        } else if is_text(value, "MAREC") {
            Ok(Month::Mar)
        } else if is_text(value, "APRIL") {
            Ok(Month::Apr)
        } else if is_text(value, "MAJ") {
            Ok(Month::May)
        } else if is_text(value, "JUNIJ") {
            Ok(Month::Jun)
        } else if is_text(value, "JULIJ") {
            Ok(Month::Jul)
        } else if is_text(value, "AVGUST") {
            Ok(Month::Avg)
        } else if is_text(value, "SEPTEMBER") {
            Ok(Month::Sep)
        } else if is_text(value, "OKTOBER") {
            Ok(Month::Okt)
        } else if is_text(value, "NOVEMBER") {
            Ok(Month::Nov)
        } else if is_text(value, "DECEMBER") {
            Ok(Month::Dec)
        } else {
            Err(ParsingError::MonthName(preview_of(value, 9)))
        }
    }

    /// Reads the word of a month. The match is exact: upper case, nothing
    /// before or after. Any other word is reported by its first nine
    /// characters, with three dots if it had more.
    pub fn try_from(value: &str) -> (r: Result<Month, ParsingError>)
        ensures
            match r {
                Ok(m) => Month::from_token(value@) == Some(m),
                Err(e) => Month::from_token(value@) is None && e@ == ParsingErrorView::MonthName(
                    preview(value@, 9),
                ),
            },
    {
        let v = chars_of(value);
        Month::parse(v.as_slice())
    }

    /// The name under which this month is shown.
    pub fn to_string(&self) -> (r: String)
        ensures
            r@ == self.name(),
    {
        String::from_str(
            match self {
                Month::Jan => "januar",
                Month::Feb => "februar",
                Month::Mar => "marec",
                Month::Apr => "april",
                Month::May => "maj",
                Month::Jun => "junij",
                Month::Jul => "julij",
                Month::Avg => "avgust",
                Month::Sep => "september",
                Month::Okt => "oktober",
                Month::Nov => "november",
                Month::Dec => "december",
            },
        )
    }
}

/// A day of the week.
#[derive(Debug, Clone, Copy, PartialEq, Eq, Structural)]
pub enum DayInAWeek {
    Mon,
    Tue,
    Wen,
    Thu,
    Fri,
    Sat,
    Sun,
}

impl DayInAWeek {
    /// The two letters that stand for this day on the page.
    pub open spec fn token(self) -> Seq<char> {
        match self {
            DayInAWeek::Mon => "po"@,
            DayInAWeek::Tue => "to"@,
            DayInAWeek::Wen => "sr"@,
            DayInAWeek::Thu => "če"@,
            DayInAWeek::Fri => "pe"@,
            DayInAWeek::Sat => "so"@,
            DayInAWeek::Sun => "ne"@,
        }
    }

    /// The name under which this day is shown.
    pub open spec fn name(self) -> Seq<char> {
        match self {
            DayInAWeek::Mon => "ponedeljek"@,
            DayInAWeek::Tue => "torek"@,
            DayInAWeek::Wen => "sreda"@,
            DayInAWeek::Thu => "četrtek"@,
            DayInAWeek::Fri => "petek"@,
            DayInAWeek::Sat => "sobota"@,
            DayInAWeek::Sun => "nedelja"@,
        }
    }

    /// The day whose two letters are exactly `s`, if there is one.
    pub open spec fn from_token(s: Seq<char>) -> Option<DayInAWeek> {
        if s == "po"@ {
            Some(DayInAWeek::Mon)
        } else if s == "to"@ {
            Some(DayInAWeek::Tue)
        } else if s == "sr"@ {
            Some(DayInAWeek::Wen)
        } else if s == "če"@ {
            Some(DayInAWeek::Thu)
        } else if s == "pe"@ {
            Some(DayInAWeek::Fri)
        } else if s == "so"@ {
            Some(DayInAWeek::Sat)
        } else if s == "ne"@ {
            Some(DayInAWeek::Sun)
        } else {
            None
        }
    }

    /// Reads the two letters of a day of the week, given as characters.
    pub fn parse(value: &[char]) -> (r: Result<DayInAWeek, ParsingError>)
        ensures
            match r {
                Ok(d) => DayInAWeek::from_token(value@) == Some(d),
                Err(e) => DayInAWeek::from_token(value@) is None && e@
                    == ParsingErrorView::DIAWName(preview(value@, 2)),
            },
    {
        if is_text(value, "po") {
            Ok(DayInAWeek::Mon)
        } else if is_text(value, "to") {
            Ok(DayInAWeek::Tue)
        } else if is_text(value, "sr") {
            Ok(DayInAWeek::Wen)
        } else if is_text(value, "če") {
            Ok(DayInAWeek::Thu)
        } else if is_text(value, "pe") {
            Ok(DayInAWeek::Fri)
        } else if is_text(value, "so") {
            Ok(DayInAWeek::Sat)
        } else if is_text(value, "ne") {
            Ok(DayInAWeek::Sun)
        } else {
            Err(ParsingError::DIAWName(preview_of(value, 2)))
        }
    }

    /// Reads the two letters of a day of the week. The match is exact: lower
    /// case, nothing before or after. Any other word is reported by its first
    /// two characters, with three dots if it had more.
    pub fn try_from(value: &str) -> (r: Result<DayInAWeek, ParsingError>)
        ensures
            match r {
                Ok(d) => DayInAWeek::from_token(value@) == Some(d),
                Err(e) => DayInAWeek::from_token(value@) is None && e@
                    == ParsingErrorView::DIAWName(preview(value@, 2)),
            },
    {
        let v = chars_of(value);
        DayInAWeek::parse(v.as_slice())
    }

    /// The name under which this day is shown.
    pub fn to_string(&self) -> (r: String)
        ensures
            r@ == self.name(),
    {
        String::from_str(
            match self {
                DayInAWeek::Mon => "ponedeljek",
                DayInAWeek::Tue => "torek",
                DayInAWeek::Wen => "sreda",
                DayInAWeek::Thu => "četrtek",
                DayInAWeek::Fri => "petek",
                DayInAWeek::Sat => "sobota",
                DayInAWeek::Sun => "nedelja",
            },
        )
    }
}

/// What is collected on one day.
#[derive(Debug, Clone, Copy, PartialEq, Eq, Structural)]
pub struct Day {
    /// The day of the week.
    pub diaw: DayInAWeek,
    /// Mixed municipal waste.
    pub mko: bool,
    /// Packaging.
    pub emb: bool,
    /// Biodegradable waste.
    pub bio: bool,
    /// Paper.
    pub pap: bool,
}

/// One month of the calendar. The slot with index `i` is the day `i + 1` of the
/// month; a slot is empty where the month has no such day.
#[derive(Debug, Clone, PartialEq, Eq)]
pub struct MonthlyCalendar {
    pub year: u32,
    pub month: Month,
    pub days: [Option<Day>; DAYS_IN_A_MONTH],
}

/// A `MonthlyCalendar` with its slots as a sequence.
pub struct MonthlyCalendarView {
    pub year: u32,
    pub month: Month,
    pub days: Seq<Option<Day>>,
}

impl View for MonthlyCalendar {
    type V = MonthlyCalendarView;

    open spec fn view(&self) -> MonthlyCalendarView {
        MonthlyCalendarView { year: self.year, month: self.month, days: self.days@ }
    }
}

impl MonthlyCalendarView {
    /// There are 31 slots, and no day stands behind an empty slot.
    pub open spec fn wf(self) -> bool {
        &&& self.days.len() == DAYS_IN_A_MONTH
        &&& forall|i: int, j: int|
            0 <= i <= j < self.days.len() && self.days[i] is None ==> self.days[j] is None
    }
}

impl MonthlyCalendar {
    /// There are 31 slots, and no day stands behind an empty slot.
    pub open spec fn wf(&self) -> bool {
        self@.wf()
    }
}

/// The 31 slots of a month whose days are `present`: the days in order, then
/// empty slots.
pub open spec fn slots(present: Seq<Day>) -> Seq<Option<Day>> {
    Seq::new(
        DAYS_IN_A_MONTH as nat,
        |i: int|
            if i < present.len() {
                Some(present[i])
            } else {
                None
            },
    )
}

/// What one row of a month's table says: a day; `Ok(None)` where the row has no
/// two closed cells, or nothing behind them, which ends the month; or an error
/// where the second cell names no day of the week. The first cell is passed
/// over. In the second cell only what follows its last `>` counts.
pub open spec fn row_spec(row: Seq<char>) -> Result<Option<Day>, ParsingErrorView> {
    match split_once(row, "</td>"@) {
        None => Ok(None),
        Some((_, rest)) => match split_once(rest, "</td>"@) {
            None => Ok(None),
            Some((cell, kind)) => {
                let word = after_last(cell, ">"@);
                if kind.len() == 0 {
                    Ok(None)
                } else {
                    match DayInAWeek::from_token(word) {
                        None => Err(ParsingErrorView::DIAWName(preview(word, 2))),
                        Some(d) => Ok(
                            Some(
                                Day {
                                    diaw: d,
                                    mko: contains(kind, "MKO"@),
                                    emb: contains(kind, "EMB"@),
                                    bio: contains(kind, "BIO"@),
                                    pap: contains(kind, "PAP"@),
                                },
                            ),
                        ),
                    }
                }
            },
        },
    }
}

/// The next row of `rest` and what follows it. A row ends at `</tr>`; what
/// stands behind the last `</tr>` is a row too.
pub open spec fn next_row(rest: Seq<char>) -> (Seq<char>, Seq<char>) {
    match split_once(rest, "</tr>"@) {
        Some(parts) => parts,
        None => (rest, Seq::empty()),
    }
}

/// The days that the rows of `rest` give, at most `n` of them: one per row, up
/// to the end of the rows or the first row that ends the month. The first row
/// that names no day of the week makes the whole an error.
pub open spec fn days_spec(rest: Seq<char>, n: nat) -> Result<Seq<Day>, ParsingErrorView>
    decreases n,
{
    if n == 0 || rest.len() == 0 {
        Ok(Seq::empty())
    } else {
        let (row, tail) = next_row(rest);
        match row_spec(row) {
            Err(e) => Err(e),
            Ok(None) => Ok(Seq::empty()),
            Ok(Some(d)) => match days_spec(tail, (n - 1) as nat) {
                Err(e) => Err(e),
                Ok(ds) => Ok(seq![d] + ds),
            },
        }
    }
}

/// The 31 slots that the rows of a month's table fill.
pub open spec fn slots_spec(rows: Seq<char>) -> Result<Seq<Option<Day>>, ParsingErrorView> {
    match days_spec(rows, DAYS_IN_A_MONTH as nat) {
        Ok(ds) => Ok(slots(ds)),
        Err(e) => Err(e),
    }
}

/// The year that a table stands for: the one its year cell writes, else the one
/// of the table before it.
pub open spec fn year_spec(cell: Seq<char>, before: Option<u32>) -> Option<u32> {
    match parse_u32(cell) {
        Some(y) => Some(y),
        None => before,
    }
}

/// The three parts of a table that are read: the first row of its head, the
/// rest of the head, and what follows the head. `seg` is what follows the
/// table's opening marker. The table ends at the first `</table>`, its head at
/// the first `</thead>`, and the head's first row at the first `</tr>`; each of
/// the three must be there.
pub open spec fn table_parts(seg: Seq<char>) -> Result<
    (Seq<char>, Seq<char>, Seq<char>),
    ParsingErrorView,
> {
    match find(seg, "</table>"@) {
        None => Err(ParsingErrorView::HTMLParsing { item: "tables"@, expr: "</table>"@ }),
        Some(end) => match split_once(seg.take(end), "</thead>"@) {
            None => Err(
                ParsingErrorView::HTMLParsing { item: "head and body"@, expr: "</thead>"@ },
            ),
            Some((head, body)) => match split_once(head, "</tr>"@) {
                None => Err(
                    ParsingErrorView::HTMLParsing { item: "year and month"@, expr: "</tr>"@ },
                ),
                Some((first, second)) => Ok((first, second, body)),
            },
        },
    }
}

/// Where the year is written: behind the last `>` of the head's first row,
/// before the cell of class `year`.
pub open spec fn year_cell(first: Seq<char>) -> Seq<char> {
    after_last(before_first(first, "</td><td class=\"year\""@), ">"@)
}

/// Where the month is written: behind the last `>` of what follows the head's
/// first row, before `</td></tr>`.
pub open spec fn month_cell(second: Seq<char>) -> Seq<char> {
    after_last(before_first(second, "</td></tr>"@), ">"@)
}

/// Where the rows of days stand: behind the last `<tbody>` of what follows the
/// head, before `</tbody`.
pub open spec fn rows_of(body: Seq<char>) -> Seq<char> {
    after_last(before_first(body, "</tbody"@), "<tbody>"@)
}

/// The month that one table gives. `seg` is what follows the table's opening
/// marker, `before` the year of the table before it. A missing part is
/// reported first, then a missing year, then an unknown month, then an unknown
/// day of the week.
pub open spec fn table_spec(seg: Seq<char>, before: Option<u32>) -> Result<
    MonthlyCalendarView,
    ParsingErrorView,
> {
    match table_parts(seg) {
        Err(e) => Err(e),
        Ok((first, second, body)) => match year_spec(year_cell(first), before) {
            None => Err(ParsingErrorView::Generic { item: "year"@ }),
            Some(year) => match Month::from_token(month_cell(second)) {
                None => Err(ParsingErrorView::MonthName(preview(month_cell(second), 9))),
                Some(month) => match slots_spec(rows_of(body)) {
                    Err(e) => Err(e),
                    Ok(days) => Ok(MonthlyCalendarView { year, month, days }),
                },
            },
        },
    }
}

/// The marker that opens the table of a month.
pub open spec fn table_open() -> Seq<char> {
    "<table class=\"calendar table-responsive\">"@
}

/// The months that the tables of `rest` give, in order. `rest` is what follows
/// one opening marker; each further opening marker starts the next table. A
/// table without a year of its own has the year of the table before it. The
/// first table that cannot be read makes the whole an error.
pub open spec fn tables_spec(rest: Seq<char>, before: Option<u32>) -> Result<
    Seq<MonthlyCalendarView>,
    ParsingErrorView,
>
    decreases rest.len(),
    via tables_spec_decreases
{
    match table_spec(before_first(rest, table_open()), before) {
        Err(e) => Err(e),
        Ok(cal) => match find(rest, table_open()) {
            None => Ok(seq![cal]),
            Some(i) => match tables_spec(rest.skip(i + table_open().len()), Some(cal.year)) {
                Err(e) => Err(e),
                Ok(more) => Ok(seq![cal] + more),
            },
        },
    }
}

/// What follows an opening marker is shorter than the text it was found in.
#[via_fn]
proof fn tables_spec_decreases(rest: Seq<char>, before: Option<u32>) {
    reveal_strlit("<table class=\"calendar table-responsive\">");
    lemma_find_from(rest, table_open(), 0);
}

/// The calendar that the page `body` gives: one month for each opening marker
/// of a table, in the order of the page. What stands before the first marker
/// is passed over; a page without one is an error.
pub open spec fn parse_html_spec(body: Seq<char>) -> Result<
    Seq<MonthlyCalendarView>,
    ParsingErrorView,
> {
    match find(body, table_open()) {
        None => Err(ParsingErrorView::HTMLParsing { item: "tables"@, expr: "</table>"@ }),
        Some(i) => tables_spec(body.skip(i + table_open().len()), None),
    }
}

/// The views of the months of `v`, in order.
pub open spec fn views_of(v: Seq<MonthlyCalendar>) -> Seq<MonthlyCalendarView> {
    v.map_values(|c: MonthlyCalendar| c@)
}

/// A result of reading a page, with views in place of values.
pub open spec fn result_view(r: Result<Vec<MonthlyCalendar>, ParsingError>) -> Result<
    Seq<MonthlyCalendarView>,
    ParsingErrorView,
> {
    match r {
        Ok(v) => Ok(views_of(v@)),
        Err(e) => Err(e@),
    }
}

/// Reads one row of a month's table.
pub fn parse_row(row: &[char]) -> (r: Result<Option<Day>, ParsingError>)
    ensures
        match r {
            Ok(d) => row_spec(row@) == Ok::<Option<Day>, ParsingErrorView>(d),
            Err(e) => row_spec(row@) == Err::<Option<Day>, ParsingErrorView>(e@),
        },
{
    let cell_end = chars_of("</td>");
    let gt = chars_of(">");
    match cut_once(row, cell_end.as_slice()) {
        None => Ok(None),
        Some((_, rest)) => match cut_once(rest, cell_end.as_slice()) {
            None => Ok(None),
            Some((cell, kind)) => {
                if kind.len() == 0 {
                    return Ok(None);
                }
                let word = cut_after_last(cell, gt.as_slice());
                match DayInAWeek::parse(word) {
                    Err(e) => Err(e),
                    Ok(diaw) => {
                        let mko = has(kind, chars_of("MKO").as_slice());
                        let emb = has(kind, chars_of("EMB").as_slice());
                        let bio = has(kind, chars_of("BIO").as_slice());
                        let pap = has(kind, chars_of("PAP").as_slice());
                        Ok(Some(Day { diaw, mko, emb, bio, pap }))
                    },
                }
            },
        },
    }
}

/// Reads the rows of a month's table into its 31 slots.
pub fn parse_days(rows: &[char]) -> (r: Result<[Option<Day>; DAYS_IN_A_MONTH], ParsingError>)
    ensures
        match r {
            Ok(days) => slots_spec(rows@) == Ok::<Seq<Option<Day>>, ParsingErrorView>(days@),
            Err(e) => slots_spec(rows@) == Err::<Seq<Option<Day>>, ParsingErrorView>(e@),
        },
{
    let row_end = chars_of("</tr>");
    let mut days: [Option<Day>; DAYS_IN_A_MONTH] = [None; DAYS_IN_A_MONTH];
    let ghost mut found: Seq<Day> = Seq::empty();
    let mut rest: &[char] = rows;
    let mut k: usize = 0;
    while k < DAYS_IN_A_MONTH
        invariant
            row_end@ == "</tr>"@,
            k <= DAYS_IN_A_MONTH,
            found.len() == k,
            days@ =~= slots(found),
            match days_spec(rest@, (DAYS_IN_A_MONTH - k) as nat) {
                Ok(ds) => days_spec(rows@, DAYS_IN_A_MONTH as nat) == Ok::<
                    Seq<Day>,
                    ParsingErrorView,
                >(found + ds),
                Err(e) => days_spec(rows@, DAYS_IN_A_MONTH as nat) == Err::<
                    Seq<Day>,
                    ParsingErrorView,
                >(e),
            },
        decreases DAYS_IN_A_MONTH - k,
    {
        if rest.len() == 0 {
            proof {
                assert(found + Seq::<Day>::empty() =~= found);
            }
            return Ok(days);
        }
        let (row, tail): (&[char], &[char]) = match cut_once(rest, row_end.as_slice()) {
            Some(parts) => parts,
            None => (rest, slice_subrange(rest, 0, 0)),
        };
        proof {
            assert(tail@ =~= next_row(rest@).1);
            assert(row@ == next_row(rest@).0);
        }
        match parse_row(row) {
            Err(e) => {
                return Err(e);
            },
            Ok(None) => {
                proof {
                    assert(found + Seq::<Day>::empty() =~= found);
                }
                return Ok(days);
            },
            Ok(Some(d)) => {
                proof {
                    let left = (DAYS_IN_A_MONTH - k - 1) as nat;
                    match days_spec(tail@, left) {
                        Ok(ds) => {
                            assert(found + (seq![d] + ds) =~= found.push(d) + ds);
                        },
                        Err(_) => {},
                    }
                    assert(days@.update(k as int, Some(d)) =~= slots(found.push(d)));
                    found = found.push(d);
                }
                days[k] = Some(d);
                rest = tail;
                k += 1;
            },
        }
    }
    proof {
        assert(found + Seq::<Day>::empty() =~= found);
    }
    Ok(days)
}

/// Reads the table of one month. `seg` is what follows the table's opening
/// marker, `before` the year of the table before it.
pub fn parse_table(seg: &[char], before: Option<u32>) -> (r: Result<MonthlyCalendar, ParsingError>)
    ensures
        match r {
            Ok(cal) => table_spec(seg@, before) == Ok::<MonthlyCalendarView, ParsingErrorView>(
                cal@,
            ),
            Err(e) => table_spec(seg@, before) == Err::<MonthlyCalendarView, ParsingErrorView>(
                e@,
            ),
        },
{
    let gt = chars_of(">");
    let table = match find_first(seg, chars_of("</table>").as_slice()) {
        Some(end) => slice_subrange(seg, 0, end),
        None => {
            return Err(ParsingError::HTMLParsing { item: "tables", expr: "</table>" });
        },
    };
    let (head, body) = match cut_once(table, chars_of("</thead>").as_slice()) {
        Some(parts) => parts,
        None => {
            return Err(ParsingError::HTMLParsing { item: "head and body", expr: "</thead>" });
        },
    };
    let (first, second) = match cut_once(head, chars_of("</tr>").as_slice()) {
        Some(parts) => parts,
        None => {
            return Err(ParsingError::HTMLParsing { item: "year and month", expr: "</tr>" });
        },
    };
    let year_cell = cut_after_last(
        cut_before_first(first, chars_of("</td><td class=\"year\"").as_slice()),
        gt.as_slice(),
    );
    let month_cell = cut_after_last(
        cut_before_first(second, chars_of("</td></tr>").as_slice()),
        gt.as_slice(),
    );
    let year: u32 = match read_u32(year_cell) {
        Some(y) => y,
        None => match before {
            Some(y) => y,
            None => {
                return Err(ParsingError::Generic { item: "year" });
            },
        },
    };
    let month = match Month::parse(month_cell) {
        Ok(m) => m,
        Err(e) => {
            return Err(e);
        },
    };
    let rows = cut_after_last(
        cut_before_first(body, chars_of("</tbody").as_slice()),
        chars_of("<tbody>").as_slice(),
    );
    match parse_days(rows) {
        Ok(days) => Ok(MonthlyCalendar { year, month, days }),
        Err(e) => Err(e),
    }
}

/// Reads the schedule page `body` into its months, in the order of the page.
/// Either every table is read, or nothing is returned but the first error.
pub fn parse_html(body: &str) -> (r: Result<Vec<MonthlyCalendar>, ParsingError>)
    ensures
        result_view(r) == parse_html_spec(body@),
        r matches Ok(v) ==> v@.len() >= 1 && forall|i: int|
            0 <= i < v@.len() ==> (#[trigger] v@[i]).wf(),
{
    let text = chars_of(body);
    let open = chars_of("<table class=\"calendar table-responsive\">");
    let mut rest: &[char] = match cut_once(text.as_slice(), open.as_slice()) {
        Some((_, rest)) => rest,
        None => {
            return Err(ParsingError::HTMLParsing { item: "tables", expr: "</table>" });
        },
    };
    let mut months: Vec<MonthlyCalendar> = Vec::new();
    let mut year: Option<u32> = None;
    loop
        invariant
            open@ == table_open(),
            forall|i: int| 0 <= i < months@.len() ==> (#[trigger] months@[i]).wf(),
            match tables_spec(rest@, year) {
                Ok(more) => parse_html_spec(body@) == Ok::<
                    Seq<MonthlyCalendarView>,
                    ParsingErrorView,
                >(views_of(months@) + more),
                Err(e) => parse_html_spec(body@) == Err::<
                    Seq<MonthlyCalendarView>,
                    ParsingErrorView,
                >(e),
            },
        decreases rest@.len(),
    {
        let seg = cut_before_first(rest, open.as_slice());
        let cal = match parse_table(seg, year) {
            Ok(cal) => cal,
            Err(e) => {
                return Err(e);
            },
        };
        let ghost before = views_of(months@);
        let ghost month = cal@;
        proof {
            match find(rest@, table_open()) {
                None => {},
                Some(i) => {
                    reveal_strlit("<table class=\"calendar table-responsive\">");
                    lemma_find_from(rest@, table_open(), 0);
                    match tables_spec(rest@.skip(i + table_open().len()), Some(cal.year)) {
                        Ok(more) => {
                            assert(before + (seq![cal@] + more) =~= before.push(cal@) + more);
                        },
                        Err(_) => {},
                    }
                },
            }
            assert(views_of(months@.push(cal)) =~= before.push(cal@));
        }
        year = Some(cal.year);
        months.push(cal);
        match cut_once(rest, open.as_slice()) {
            Some((_, tail)) => {
                rest = tail;
            },
            None => {
                proof {
                    assert(views_of(months@) =~= before + seq![month]);
                }
                return Ok(months);
            },
        }
    }
}

/// The address of the printable schedule of the property `uprn`.
pub open spec fn url_of(uprn: u32) -> Seq<char> {
    API_URL@ + "/s/"@ + decimal(uprn as nat) + "/print/version"@
}

/// The address of the printable schedule of the property `uprn`.
pub fn get_url(uprn: u32) -> (r: String)
    ensures
        r@ == url_of(uprn),
{
    let mut r = String::from_str(API_URL);
    r.append("/s/");
    push_decimal(&mut r, uprn);
    r.append("/print/version");
    r
}

} // verus!
