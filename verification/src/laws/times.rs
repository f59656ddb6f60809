//! Dates and times as texts, and the hours of work.
use crate::calendar::{
    clock_text, date_before, date_key, day_number, days_before_month, field_text, four_digits,
    long_date, rendered, stamp_text, time_text, two_digits, year_text, LocalReading, Moment, TimeOfDay,
    TimeReading, EPOCH_DAY, LAST_SECOND, LAST_YEAR,
};
use crate::journal::EntryView;
use crate::laws::words::number_of;
use crate::search::{is_newer, HitView};
use crate::state::{clock_entry_text, work_hours};
use crate::text::{digit, precedes, precedes_irreflexive};
use vstd::arithmetic::div_mod::{lemma_mod_multiples_vanish, lemma_small_mod};
use vstd::prelude::*;

verus! {

/// Texts with fronts of one length are ordered by the fronts, and then by what follows.
proof fn precedes_by_parts(a: Seq<char>, b: Seq<char>, x: Seq<char>, y: Seq<char>)
    requires
        a.len() == b.len(),
    ensures
        precedes(a + x, b + y) <==> precedes(a, b) || (a == b && precedes(x, y)),
    decreases a.len(),
{
    if a.len() == 0 {
        assert(a =~= b);
        assert(a + x =~= x);
        assert(b + y =~= y);
    } else {
        assert((a + x).drop_first() =~= a.drop_first() + x);
        assert((b + y).drop_first() =~= b.drop_first() + y);
        precedes_by_parts(a.drop_first(), b.drop_first(), x, y);
        if a[0] == b[0] {
            assert(a == b <==> a.drop_first() == b.drop_first()) by {
                if a.drop_first() == b.drop_first() {
                    assert(a =~= seq![a[0]] + a.drop_first());
                    assert(b =~= seq![b[0]] + b.drop_first());
                }
            }
        }
    }
}

proof fn two_digits_in_order(a: int, b: int)
    requires
        0 <= a < 100,
        0 <= b < 100,
    ensures
        precedes(two_digits(a), two_digits(b)) <==> a < b,
        two_digits(a) == two_digits(b) <==> a == b,
{
    reveal_with_fuel(precedes, 3);
    let x = two_digits(a);
    let y = two_digits(b);
    assert(x[0] == digit(a / 10) && x[1] == digit(a % 10));
    assert(y[0] == digit(b / 10) && y[1] == digit(b % 10));
    assert(x.drop_first()[0] == x[1]);
    assert(y.drop_first()[0] == y[1]);
    assert(x[0] == y[0] <==> a / 10 == b / 10);
    assert(x[1] == y[1] <==> a % 10 == b % 10);
}

proof fn four_digits_in_order(a: nat, b: nat)
    requires
        a < 10000,
        b < 10000,
    ensures
        precedes(four_digits(a), four_digits(b)) <==> a < b,
        four_digits(a) == four_digits(b) <==> a == b,
{
    let (ah, al) = ((a / 100) as int, (a % 100) as int);
    let (bh, bl) = ((b / 100) as int, (b % 100) as int);
    two_digits_in_order(ah, bh);
    two_digits_in_order(al, bl);
    precedes_by_parts(two_digits(ah), two_digits(bh), two_digits(al), two_digits(bl));
    four_digits_are_pairs(a);
    four_digits_are_pairs(b);
    if four_digits(a) == four_digits(b) {
        precedes_irreflexive(four_digits(a));
    }
}

proof fn four_digits_are_pairs(n: nat)
    requires
        n < 10000,
    ensures
        four_digits(n) == two_digits((n / 100) as int) + two_digits((n % 100) as int),
{
    assert(n / 100 / 10 == n / 1000);
    assert(n / 100 % 10 == (n / 100) % 10);
    assert((n % 100) / 10 == n / 10 % 10) by (nonlinear_arith)
        requires
            n < 10000,
    ;
    assert((n % 100) % 10 == n % 10);
    assert(four_digits(n) =~= two_digits((n / 100) as int) + two_digits((n % 100) as int));
}

proof fn keys_in_order(a: Moment, b: Moment)
    requires
        a.wf(),
        b.wf(),
        0 <= a.year <= 9999,
        0 <= b.year <= 9999,
    ensures
        precedes(date_key(a), date_key(b)) <==> date_before(a.date(), b.date()),
{
    let (ya, yb) = (year_text(a.year as int), year_text(b.year as int));
    let (ma, mb) = (two_digits(a.month as int), two_digits(b.month as int));
    let (da, db) = (two_digits(a.day as int), two_digits(b.day as int));
    let bar = seq!['_'];
    four_digits_in_order(a.year as nat, b.year as nat);
    two_digits_in_order(a.month as int, b.month as int);
    two_digits_in_order(a.day as int, b.day as int);
    let (ta, tb) = (bar + da, bar + db);
    let (sa, sb) = (ma + ta, mb + tb);
    precedes_irreflexive(bar);
    precedes_by_parts(bar, bar, da, db);
    precedes_by_parts(ma, mb, ta, tb);
    precedes_by_parts(bar, bar, sa, sb);
    precedes_by_parts(ya, yb, bar + sa, bar + sb);
    assert(date_key(a) =~= ya + (bar + sa));
    assert(date_key(b) =~= yb + (bar + sb));
}

/// Keys of days stand in the order of the days, from the year 0 to the year 9999.
pub proof fn law_keys_are_chronological(a: Moment, b: Moment)
    requires
        a.wf(),
        b.wf(),
        0 <= a.year <= 9999,
        0 <= b.year <= 9999,
    ensures
        precedes(date_key(a), date_key(b)) <==> date_before(a.date(), b.date()),
        date_key(a) == date_key(b) <==> a.date() == b.date(),
{
    keys_in_order(a, b);
    keys_in_order(b, a);
    precedes_irreflexive(date_key(a));
}

/// Times of day stand in their order.
pub proof fn law_clock_texts_are_chronological(a: Moment, b: Moment)
    requires
        a.wf(),
        b.wf(),
    ensures
        precedes(clock_text(a), clock_text(b)) <==> a.hour * 60 + a.minute < b.hour * 60 + b.minute,
{
    let colon = seq![':'];
    let (ha, hb) = (two_digits(a.hour as int), two_digits(b.hour as int));
    let (ma, mb) = (two_digits(a.minute as int), two_digits(b.minute as int));
    two_digits_in_order(a.hour as int, b.hour as int);
    two_digits_in_order(a.minute as int, b.minute as int);
    precedes_irreflexive(colon);
    precedes_by_parts(colon, colon, ma, mb);
    precedes_by_parts(ha, hb, colon + ma, colon + mb);
    assert(clock_text(a) =~= ha + (colon + ma));
    assert(clock_text(b) =~= hb + (colon + mb));
}

/// Of two entries the search ranks as newer the one that was written on a later day, or at
/// a later minute of the same day.
pub proof fn law_newer_is_later(a: Moment, b: Moment, x: EntryView, y: EntryView)
    requires
        a.wf(),
        b.wf(),
        0 <= a.year <= 9999,
        0 <= b.year <= 9999,
        x.time == clock_text(a),
        y.time == clock_text(b),
    ensures
        is_newer(
            HitView { date: date_key(a), entry: x },
            HitView { date: date_key(b), entry: y },
        ) <==> date_before(b.date(), a.date()) || (a.date() == b.date() && b.hour * 60 + b.minute
            < a.hour * 60 + a.minute),
{
    law_keys_are_chronological(b, a);
    law_clock_texts_are_chronological(b, a);
}

/// The last second of the calendar is that of its last day.
pub proof fn law_last_second_is_of_the_last_day()
    ensures
        LAST_SECOND == (day_number(LAST_YEAR as int, 12, 31) - EPOCH_DAY) * 86400 + 86399,
{
    reveal_with_fuel(days_before_month, 13);
}

/// Seconds that come to as much, in days and in seconds of a day.
proof fn seconds_go_round(from_day: int, from: int, to_day: int, to: int, gone: int)
    requires
        0 <= to < 86400,
        to_day * 86400 + to == from_day * 86400 + from + gone,
    ensures
        to == (from + gone) % 86400,
{
    let days = to_day - from_day;
    assert(from + gone == 86400 * days + to);
    lemma_mod_multiples_vanish(days, to, 86400);
    lemma_small_mod(to as nat, 86400);
}

/// Minutes and seconds go round the day as minutes do.
proof fn minutes_go_round(minutes: int, second: int)
    requires
        0 <= second < 60,
    ensures
        (minutes * 60 + second) % 86400 / 60 == minutes % 1440,
{
    let (days, rest) = (minutes / 1440, minutes % 1440);
    assert(minutes * 60 + second == 86400 * days + (rest * 60 + second));
    lemma_mod_multiples_vanish(days, rest * 60 + second, 86400);
    lemma_small_mod((rest * 60 + second) as nat, 86400);
}

/// While the offset from UTC stays, a clock that goes on for some hours shows that many
/// hours more, round the day.
pub proof fn law_clock_goes_round(from: LocalReading, to: TimeReading, hours: int)
    requires
        from.wf(),
        to.wf(),
        to.unix == from.unix + hours * 3600,
        to.offset == from.offset,
    ensures
        to.time.hour * 60 + to.time.minute == (from.local.hour * 60 + from.local.minute + hours
            * 60) % 1440,
{
    let a = from.local;
    let from_day = day_number(a.year as int, a.month as int, a.day as int);
    let shown = (to.unix + to.offset) % 86400;
    let to_day = (to.unix + to.offset) / 86400 + EPOCH_DAY;
    seconds_go_round(from_day, a.second_of_day(), to_day, shown, hours * 3600);
    minutes_go_round(a.hour * 60 + a.minute + hours * 60, a.second as int);
}

proof fn two_digits_read_back(n: int)
    requires
        0 <= n < 100,
    ensures
        number_of(two_digits(n)) == n,
        two_digits(n).len() == 2,
{
    reveal_with_fuel(number_of, 3);
    let s = two_digits(n);
    assert(s.drop_last() =~= seq![digit(n / 10)]);
    assert(s.drop_last().drop_last() =~= Seq::<char>::empty());
    assert(digit(n / 10) as int == 0x30 + n / 10 && digit(n % 10) as int == 0x30 + n % 10);
}

proof fn four_digits_read_back(n: nat)
    requires
        n < 10000,
    ensures
        number_of(four_digits(n)) == n,
        four_digits(n).len() == 4,
{
    let (h, l) = ((n / 100) as int, (n % 100) as int);
    four_digits_are_pairs(n);
    two_digits_read_back(h);
    two_digits_read_back(l);
    reveal_with_fuel(number_of, 3);
    let s = four_digits(n);
    let low = two_digits(l);
    assert(s.drop_last().drop_last() =~= two_digits(h));
    assert(s.drop_last().last() == low[0] && s.last() == low[1]);
    assert(low.drop_last() =~= seq![low[0]]);
    assert(low.drop_last().drop_last() =~= Seq::<char>::empty());
}

proof fn field_comes_first(m: Moment, fmt: Seq<char>, c: char, rest: Seq<char>)
    requires
        fmt == seq!['%', c] + rest,
    ensures
        rendered(m, fmt) == field_text(m, c) + rendered(m, rest),
{
    assert(fmt.skip(2) =~= rest);
}

proof fn sign_comes_first(m: Moment, fmt: Seq<char>, c: char, rest: Seq<char>)
    requires
        c != '%',
        fmt == seq![c] + rest,
    ensures
        rendered(m, fmt) == seq![c] + rendered(m, rest),
{
    assert(fmt.drop_first() =~= rest);
}

proof fn field_is_last(m: Moment, fmt: Seq<char>, c: char)
    requires
        fmt == seq!['%', c],
    ensures
        rendered(m, fmt) == field_text(m, c),
{
    let none = Seq::<char>::empty();
    assert(fmt =~= seq!['%', c] + none);
    field_comes_first(m, fmt, c, none);
    assert(field_text(m, c) + none =~= field_text(m, c));
}

/// A field and a sign in front of the rest of a format.
proof fn field_and_sign(m: Moment, fmt: Seq<char>, c: char, sign: char, rest: Seq<char>)
    requires
        sign != '%',
        fmt == seq!['%', c, sign] + rest,
    ensures
        rendered(m, fmt) == field_text(m, c).push(sign) + rendered(m, rest),
{
    let tail = seq![sign] + rest;
    assert(fmt =~= seq!['%', c] + tail);
    field_comes_first(m, fmt, c, tail);
    sign_comes_first(m, tail, sign, rest);
    assert(field_text(m, c) + (seq![sign] + rendered(m, rest)) =~= field_text(m, c).push(sign)
        + rendered(m, rest));
}

/// The key of a day is the text of its format.
pub proof fn law_key_follows_its_format(m: Moment)
    ensures
        date_key(m) == rendered(m, "%Y_%m_%d"@),
{
    reveal_strlit("%Y_%m_%d");
    let f = "%Y_%m_%d"@;
    let f1 = seq!['%', 'm', '_', '%', 'd'];
    let f2 = seq!['%', 'd'];
    assert(f =~= seq!['%', 'Y', '_'] + f1);
    assert(f1 =~= seq!['%', 'm', '_'] + f2);
    field_and_sign(m, f, 'Y', '_', f1);
    field_and_sign(m, f1, 'm', '_', f2);
    field_is_last(m, f2, 'd');
    assert(date_key(m) =~= rendered(m, f));
}

/// The time of day is the text of its format.
pub proof fn law_clock_follows_its_format(m: Moment)
    ensures
        clock_text(m) == rendered(m, "%H:%M"@),
{
    reveal_strlit("%H:%M");
    let f = "%H:%M"@;
    let f1 = seq!['%', 'M'];
    assert(f =~= seq!['%', 'H', ':'] + f1);
    field_and_sign(m, f, 'H', ':', f1);
    field_is_last(m, f1, 'M');
}

/// A stamp is the text of its format.
pub proof fn law_stamp_follows_its_format(m: Moment)
    ensures
        stamp_text(m) == rendered(m, "%Y-%m-%dT%H:%M:%S"@),
{
    reveal_strlit("%Y-%m-%dT%H:%M:%S");
    let f = "%Y-%m-%dT%H:%M:%S"@;
    let f5 = seq!['%', 'S'];
    let f4 = seq!['%', 'M', ':'] + f5;
    let f3 = seq!['%', 'H', ':'] + f4;
    let f2 = seq!['%', 'd', 'T'] + f3;
    let f1 = seq!['%', 'm', '-'] + f2;
    assert(f =~= seq!['%', 'Y', '-'] + f1);
    field_and_sign(m, f, 'Y', '-', f1);
    field_and_sign(m, f1, 'm', '-', f2);
    field_and_sign(m, f2, 'd', 'T', f3);
    field_and_sign(m, f3, 'H', ':', f4);
    field_and_sign(m, f4, 'M', ':', f5);
    field_is_last(m, f5, 'S');
    assert(stamp_text(m) =~= rendered(m, f));
}

/// The date in words is the text of its format.
pub proof fn law_words_follow_their_format(m: Moment)
    ensures
        long_date(m) == rendered(m, "%A,%e %B"@),
{
    reveal_strlit("%A,%e %B");
    let f = "%A,%e %B"@;
    let f2 = seq!['%', 'B'];
    let f1 = seq!['%', 'e', ' '] + f2;
    assert(f =~= seq!['%', 'A', ','] + f1);
    field_and_sign(m, f, 'A', ',', f1);
    field_and_sign(m, f1, 'e', ' ', f2);
    field_is_last(m, f2, 'B');
    assert(long_date(m) =~= rendered(m, f));
}

/// The key of a day from the year 0 to the year 9999 has ten characters: the digits of the
/// year, the month and the day read back, and a bar stands between them.
pub proof fn law_key_reads_back(m: Moment)
    requires
        m.wf(),
        0 <= m.year <= 9999,
    ensures
        ({
            let key = date_key(m);
            &&& key.len() == 10
            &&& number_of(key.subrange(0, 4)) == m.year
            &&& number_of(key.subrange(5, 7)) == m.month
            &&& number_of(key.subrange(8, 10)) == m.day
            &&& key[4] == '_' && key[7] == '_'
        }),
{
    let key = date_key(m);
    four_digits_read_back(m.year as nat);
    two_digits_read_back(m.month as int);
    two_digits_read_back(m.day as int);
    assert(key.subrange(0, 4) =~= four_digits(m.year as nat));
    assert(key.subrange(5, 7) =~= two_digits(m.month as int));
    assert(key.subrange(8, 10) =~= two_digits(m.day as int));
}

/// A time of day has five characters: the digits of the hour and the minute read back, and a
/// colon stands between them.
pub proof fn law_time_reads_back(t: TimeOfDay)
    requires
        t.wf(),
    ensures
        time_text(t).len() == 5,
        number_of(time_text(t).subrange(0, 2)) == t.hour,
        number_of(time_text(t).subrange(3, 5)) == t.minute,
        time_text(t)[2] == ':',
{
    two_digits_read_back(t.hour as int);
    two_digits_read_back(t.minute as int);
    assert(time_text(t).subrange(0, 2) =~= two_digits(t.hour as int));
    assert(time_text(t).subrange(3, 5) =~= two_digits(t.minute as int));
}

/// A stamp from the year 0 to the year 9999 holds the date and the time of day to the second.
#[verifier::rlimit(30)]
pub proof fn law_stamp_reads_back(m: Moment)
    requires
        m.wf(),
        0 <= m.year <= 9999,
    ensures
        ({
            let stamp = stamp_text(m);
            &&& stamp.len() == 19
            &&& number_of(stamp.subrange(0, 4)) == m.year
            &&& number_of(stamp.subrange(5, 7)) == m.month
            &&& number_of(stamp.subrange(8, 10)) == m.day
            &&& number_of(stamp.subrange(11, 13)) == m.hour
            &&& number_of(stamp.subrange(14, 16)) == m.minute
            &&& number_of(stamp.subrange(17, 19)) == m.second
        }),
{
    let stamp = stamp_text(m);
    four_digits_read_back(m.year as nat);
    two_digits_read_back(m.month as int);
    two_digits_read_back(m.day as int);
    two_digits_read_back(m.hour as int);
    two_digits_read_back(m.minute as int);
    two_digits_read_back(m.second as int);
    assert(stamp.subrange(0, 4) =~= four_digits(m.year as nat));
    assert(stamp.subrange(5, 7) =~= two_digits(m.month as int));
    assert(stamp.subrange(8, 10) =~= two_digits(m.day as int));
    assert(stamp.subrange(11, 13) =~= two_digits(m.hour as int));
    assert(stamp.subrange(14, 16) =~= two_digits(m.minute as int));
    assert(stamp.subrange(17, 19) =~= two_digits(m.second as int));
}

/// Dates are ordered by year, then by month, then by day: of two dates one is earlier or they
/// are the same, and the earlier one has the lower count of days at 31 to a month.
pub proof fn law_dates_are_ordered(a: (i32, u32, u32), b: (i32, u32, u32))
    ensures
        a == b <==> !date_before(a, b) && !date_before(b, a),
        !(date_before(a, b) && date_before(b, a)),
        1 <= a.1 <= 12 && 1 <= b.1 <= 12 && 1 <= a.2 <= 31 && 1 <= b.2 <= 31 ==> (date_before(a, b)
            <==> (a.0 * 12 + a.1) * 31 + a.2 < (b.0 * 12 + b.1) * 31 + b.2),
{
}

/// Nine hours of work on Monday and Tuesday, eight on every other day.
pub proof fn law_hours_by_the_day_of_the_week(m: Moment)
    ensures
        work_hours(m.weekday()) == if m.weekday() < 2 {
            9
        } else {
            8int
        },
{
}

/// A clock entry holds both times: that of the moment, and that at which the work is over.
#[verifier::rlimit(30)]
pub proof fn law_clock_entry_reads_back(now: Moment, out: TimeOfDay)
    requires
        now.wf(),
        out.wf(),
    ensures
        ({
            let text = clock_entry_text(now, out);
            &&& text.len() == 33
            &&& text.subrange(0, 10) == "Clock-in: "@
            &&& number_of(text.subrange(10, 12)) == now.hour
            &&& number_of(text.subrange(13, 15)) == now.minute
            &&& text.subrange(15, 28) == ", Clock-out: "@
            &&& number_of(text.subrange(28, 30)) == out.hour
            &&& number_of(text.subrange(31, 33)) == out.minute
        }),
{
    reveal_strlit("Clock-in: ");
    reveal_strlit(", Clock-out: ");
    let text = clock_entry_text(now, out);
    let (x, y) = (clock_text(now), time_text(out));
    law_time_reads_back(TimeOfDay { hour: now.hour, minute: now.minute });
    law_time_reads_back(out);
    assert(text.subrange(0, 10) =~= "Clock-in: "@);
    assert(text.subrange(10, 12) =~= x.subrange(0, 2));
    assert(text.subrange(13, 15) =~= x.subrange(3, 5));
    assert(text.subrange(15, 28) =~= ", Clock-out: "@);
    assert(text.subrange(28, 30) =~= y.subrange(0, 2));
    assert(text.subrange(31, 33) =~= y.subrange(3, 5));
}

} // verus!
