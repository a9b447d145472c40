//! What holds of the words, the slots and the reading of a page, for every
//! input.

use vstd::prelude::*;
use crate::calendar::{
    days_spec, next_row, parse_html_spec, row_spec, slots, table_open, table_parts, table_spec,
    tables_spec, year_cell, Day, DayInAWeek, Month, MonthlyCalendarView, DAYS_IN_A_MONTH,
};
use crate::error::ParsingErrorView;
use crate::text::{
    after_last, all_digits, before_first, contains, decimal, digits_value, find, is_digit,
    lemma_find_from, matches_at, parse_u32, preview, split_once,
};

verus! {

/// `s` with its capital letters A to Z made small.
pub open spec fn lower(s: Seq<char>) -> Seq<char> {
    s.map_values(
        |c: char|
            if 'A' <= c <= 'Z' {
                (c as int + 32) as char
            } else {
                c
            },
    )
}

/// A text is read as a month exactly when it is that month's word.
pub proof fn lemma_month_token(s: Seq<char>, m: Month)
    ensures
        Month::from_token(s) == Some(m) <==> s == m.token(),
{
    reveal_strlit("JANUAR");
    reveal_strlit("FEBRUAR");
    reveal_strlit("MAREC");
    reveal_strlit("APRIL");
    reveal_strlit("MAJ");
    reveal_strlit("JUNIJ");
    reveal_strlit("JULIJ");
    reveal_strlit("AVGUST");
    reveal_strlit("SEPTEMBER");
    reveal_strlit("OKTOBER");
    reveal_strlit("NOVEMBER");
    reveal_strlit("DECEMBER");
    assert("JANUAR"@.len() == 6 && "FEBRUAR"@.len() == 7 && "MAREC"@.len() == 5);
    assert("APRIL"@.len() == 5 && "MAJ"@.len() == 3 && "JUNIJ"@.len() == 5);
    assert("JULIJ"@.len() == 5 && "AVGUST"@.len() == 6 && "SEPTEMBER"@.len() == 9);
    assert("OKTOBER"@.len() == 7 && "NOVEMBER"@.len() == 8 && "DECEMBER"@.len() == 8);
    assert("JANUAR"@[0] == 'J' && "AVGUST"@[0] == 'A');
    assert("FEBRUAR"@[0] == 'F' && "OKTOBER"@[0] == 'O');
    assert("NOVEMBER"@[0] == 'N' && "DECEMBER"@[0] == 'D');
    assert("MAREC"@[0] == 'M' && "APRIL"@[0] == 'A' && "JUNIJ"@[0] == 'J' && "JULIJ"@[0] == 'J');
    assert("JUNIJ"@[2] == 'N' && "JULIJ"@[2] == 'L');
}

/// The word of a month is read as that month, and the month is shown under
/// its word in small letters.
pub proof fn lemma_month_round_trip(m: Month)
    ensures
        Month::from_token(m.token()) == Some(m),
        m.name() == lower(m.token()),
{
    lemma_month_token(m.token(), m);
    reveal_strlit("JANUAR");
    reveal_strlit("FEBRUAR");
    reveal_strlit("MAREC");
    reveal_strlit("APRIL");
    reveal_strlit("MAJ");
    reveal_strlit("JUNIJ");
    reveal_strlit("JULIJ");
    reveal_strlit("AVGUST");
    reveal_strlit("SEPTEMBER");
    reveal_strlit("OKTOBER");
    reveal_strlit("NOVEMBER");
    reveal_strlit("DECEMBER");
    reveal_strlit("januar");
    reveal_strlit("februar");
    reveal_strlit("marec");
    reveal_strlit("april");
    reveal_strlit("maj");
    reveal_strlit("junij");
    reveal_strlit("julij");
    reveal_strlit("avgust");
    reveal_strlit("september");
    reveal_strlit("oktober");
    reveal_strlit("november");
    reveal_strlit("december");
    assert(m.name() =~= lower(m.token()));
}

/// A text is read as a day of the week exactly when it is that day's two
/// letters.
pub proof fn lemma_weekday_token(s: Seq<char>, d: DayInAWeek)
    ensures
        DayInAWeek::from_token(s) == Some(d) <==> s == d.token(),
{
    reveal_strlit("po");
    reveal_strlit("to");
    reveal_strlit("sr");
    reveal_strlit("če");
    reveal_strlit("pe");
    reveal_strlit("so");
    reveal_strlit("ne");
    assert("po"@[0] == 'p' && "po"@[1] == 'o');
    assert("to"@[0] == 't' && "to"@[1] == 'o');
    assert("sr"@[0] == 's' && "sr"@[1] == 'r');
    assert("če"@[0] == 'č' && "če"@[1] == 'e');
    assert("pe"@[0] == 'p' && "pe"@[1] == 'e');
    assert("so"@[0] == 's' && "so"@[1] == 'o');
    assert("ne"@[0] == 'n' && "ne"@[1] == 'e');
}

/// The two letters of a day of the week are read as that day, and they are the
/// first two letters of the name under which the day is shown.
pub proof fn lemma_weekday_round_trip(d: DayInAWeek)
    ensures
        DayInAWeek::from_token(d.token()) == Some(d),
        d.token().len() == 2,
        d.name().take(2) == d.token(),
{
    lemma_weekday_token(d.token(), d);
    reveal_strlit("po");
    reveal_strlit("to");
    reveal_strlit("sr");
    reveal_strlit("če");
    reveal_strlit("pe");
    reveal_strlit("so");
    reveal_strlit("ne");
    reveal_strlit("ponedeljek");
    reveal_strlit("torek");
    reveal_strlit("sreda");
    reveal_strlit("četrtek");
    reveal_strlit("petek");
    reveal_strlit("sobota");
    reveal_strlit("nedelja");
    assert(d.name().take(2) =~= d.token());
}

/// The short form of a text is the text itself where it has at most `n`
/// characters, and else its first `n` characters and three dots: never more
/// than `n + 3` characters.
pub proof fn lemma_preview(s: Seq<char>, n: nat)
    ensures
        s.len() <= n ==> preview(s, n) == s,
        s.len() > n ==> preview(s, n).len() == n + 3 && preview(s, n).take(n as int) == s.take(
            n as int,
        ) && preview(s, n).skip(n as int) == "..."@,
        preview(s, n).len() <= n + 3,
{
    reveal_strlit("...");
    if s.len() > n {
        assert(preview(s, n).take(n as int) =~= s.take(n as int));
        assert(preview(s, n).skip(n as int) =~= "..."@);
    }
}

/// A number in decimal is one or more digits that write the number, without a
/// zero in front unless the number is 0.
pub proof fn lemma_decimal(n: nat)
    ensures
        decimal(n).len() >= 1,
        all_digits(decimal(n)),
        digits_value(decimal(n)) == n,
        decimal(n)[0] == '0' <==> n == 0,
    decreases n,
{
    let d = decimal(n);
    if n < 10 {
        assert(d.drop_last() =~= Seq::<char>::empty());
        assert(digits_value(d) == digits_value(d.drop_last()) * 10 + (d.last() as int - '0' as int));
    } else {
        lemma_decimal(n / 10);
        let front = decimal(n / 10);
        assert(d.drop_last() =~= front);
        assert forall|i: int| 0 <= i < d.len() implies is_digit(#[trigger] d[i]) by {
            if i < front.len() {
                assert(is_digit(front[i]));
            }
        }
        assert(d[0] == front[0]);
    }
}

/// A number of 32 bits that is written in decimal is read back as itself.
pub proof fn lemma_decimal_read_back(n: u32)
    ensures
        parse_u32(decimal(n as nat)) == Some(n),
{
    lemma_decimal(n as nat);
    assert(is_digit(decimal(n as nat)[0]));
}

/// A page in which the opening marker of a table stands nowhere is not read.
pub proof fn lemma_page_without_table(body: Seq<char>)
    requires
        forall|i: int| !matches_at(body, table_open(), i),
    ensures
        parse_html_spec(body) == Err::<Seq<MonthlyCalendarView>, ParsingErrorView>(
            ParsingErrorView::HTMLParsing { item: "tables"@, expr: "</table>"@ },
        ),
{
    lemma_find_from(body, table_open(), 0);
}

/// A page is read only if the opening marker of a table stands in it, and
/// then it gives at least one month.
pub proof fn lemma_page_with_months(body: Seq<char>)
    ensures
        parse_html_spec(body) matches Ok(months) ==> months.len() >= 1 && exists|i: int|
            matches_at(body, table_open(), i),
{
    lemma_find_from(body, table_open(), 0);
}

/// The slots of a month are 31; the days fill them from the first on, and every
/// slot behind the days is empty.
pub proof fn lemma_slots(present: Seq<Day>)
    ensures
        slots(present).len() == DAYS_IN_A_MONTH,
        forall|i: int|
            0 <= i < DAYS_IN_A_MONTH ==> (#[trigger] slots(present)[i] is Some <==> i
                < present.len()),
        forall|i: int|
            0 <= i < DAYS_IN_A_MONTH && i < present.len() ==> #[trigger] slots(present)[i] == Some(
                present[i],
            ),
        forall|i: int, j: int|
            0 <= i <= j < DAYS_IN_A_MONTH && slots(present)[i] is None ==> slots(
                present,
            )[j] is None,
{
}

/// The rows never give more days than they were asked for, so that every day
/// read for a month has a slot.
pub proof fn lemma_days_fit(rest: Seq<char>, n: nat)
    ensures
        days_spec(rest, n) matches Ok(present) ==> present.len() <= n,
    decreases n,
{
    if n > 0 && rest.len() > 0 {
        lemma_days_fit(next_row(rest).1, (n - 1) as nat);
    }
}

/// Every month that a table gives has 31 slots, and no day behind an empty one.
pub proof fn lemma_table_wf(seg: Seq<char>, before: Option<u32>)
    ensures
        table_spec(seg, before) matches Ok(cal) ==> cal.wf(),
{
}

/// Every month that a run of tables gives has 31 slots, and no day behind an
/// empty one.
pub proof fn lemma_tables_wf(rest: Seq<char>, before: Option<u32>)
    ensures
        tables_spec(rest, before) matches Ok(months) ==> forall|i: int|
            0 <= i < months.len() ==> (#[trigger] months[i]).wf(),
    decreases rest.len(),
{
    let seg = before_first(rest, table_open());
    lemma_table_wf(seg, before);
    if let Ok(cal) = table_spec(seg, before) {
        if let Some(i) = find(rest, table_open()) {
            reveal_strlit("<table class=\"calendar table-responsive\">");
            lemma_find_from(rest, table_open(), 0);
            lemma_tables_wf(rest.skip(i + table_open().len()), Some(cal.year));
        }
    }
}

/// Every month of a page that is read has 31 slots, and no day behind an empty
/// one.
pub proof fn lemma_page_wf(body: Seq<char>)
    ensures
        parse_html_spec(body) matches Ok(months) ==> forall|i: int|
            0 <= i < months.len() ==> (#[trigger] months[i]).wf(),
{
    if let Some(i) = find(body, table_open()) {
        lemma_tables_wf(body.skip(i + table_open().len()), None);
    }
}

/// A row with two closed cells, a known day of the week in the second and
/// something behind it gives a day, on which each kind of waste is collected
/// exactly when its three letters stand behind the second cell.
pub proof fn lemma_row_kinds(row: Seq<char>, d: DayInAWeek)
    requires
        split_once(row, "</td>"@) matches Some(a) && split_once(a.1, "</td>"@) matches Some(b)
            && b.1.len() > 0 && DayInAWeek::from_token(after_last(b.0, ">"@)) == Some(d),
    ensures
        split_once(row, "</td>"@) matches Some(a) && split_once(a.1, "</td>"@) matches Some(b)
            && row_spec(row) == Ok::<Option<Day>, ParsingErrorView>(
            Some(
                Day {
                    diaw: d,
                    mko: contains(b.1, "MKO"@),
                    emb: contains(b.1, "EMB"@),
                    bio: contains(b.1, "BIO"@),
                    pap: contains(b.1, "PAP"@),
                },
            ),
        ),
{
}

/// A table whose year cell writes no number has the year of the table before
/// it, and is not read where there is none before it.
pub proof fn lemma_year_carried(seg: Seq<char>, year: u32)
    requires
        table_parts(seg) matches Ok(parts) && parse_u32(year_cell(parts.0)) is None,
    ensures
        table_spec(seg, Some(year)) matches Ok(cal) ==> cal.year == year,
        table_spec(seg, None) == Err::<MonthlyCalendarView, ParsingErrorView>(
            ParsingErrorView::Generic { item: "year"@ },
        ),
{
}

/// Where the second of a run of tables writes no number in its year cell, the
/// second month has the year of the first.
pub proof fn lemma_second_table_year(rest: Seq<char>, before: Option<u32>)
    requires
        tables_spec(rest, before) is Ok,
        find(rest, table_open()) matches Some(i) && table_parts(
            before_first(rest.skip(i + table_open().len()), table_open()),
        ) matches Ok(parts) && parse_u32(year_cell(parts.0)) is None,
    ensures
        tables_spec(rest, before) matches Ok(months) && months.len() >= 2 && months[1].year
            == months[0].year,
{
    let cal = table_spec(before_first(rest, table_open()), before)->Ok_0;
    let i = find(rest, table_open())->Some_0;
    let next = rest.skip(i + table_open().len());
    lemma_year_carried(before_first(next, table_open()), cal.year);
    assert(tables_spec(next, Some(cal.year)) is Ok);
}

} // verus!
