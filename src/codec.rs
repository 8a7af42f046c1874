//! Config codes: the dotted text form of a reminder schedule,
//! `ssc.<interval>.<time>[.<weekday>][.<day>][.<channel>]`.

use vstd::prelude::*;
use crate::decimal::{decimal_of, lemma_decimal_of, lemma_parse_decimal_of, parse_decimal, parse_unsigned, push_char, push_decimal};
use crate::text::{chars_equal, chars_of, has_no_dot, join_dots, lemma_split_join, lemma_trim_keeps, split_dots, split_trimmed, trim};

verus! {

/// How often a reminder recurs.
#[derive(Clone, Copy, Debug, PartialEq, Eq, Structural)]
pub enum Interval {
    Daily,
    Weekly,
    Monthly,
}

/// A reminder schedule.
#[derive(Clone, Copy, Debug, PartialEq, Eq, Structural)]
pub struct Config {
    pub interval: Interval,
    /// Hour of the day, 0 to 23.
    pub time: u8,
    /// Day of the week, 1 (Monday) to 7 (Sunday).
    pub weekday: Option<u8>,
    /// Day of the month, 1 to 31.
    pub day: Option<u8>,
    /// The channel that receives the reminder.
    pub channel_id: Option<u64>,
}

/// The hour that a code without a readable time gets.
pub const DEFAULT_TIME: u8 = 9;

pub open spec fn marker() -> Seq<char> {
    "ssc"@
}

pub open spec fn interval_word(i: Interval) -> Seq<char> {
    match i {
        Interval::Daily => "daily"@,
        Interval::Weekly => "weekly"@,
        Interval::Monthly => "monthly"@,
    }
}

pub open spec fn interval_of(w: Seq<char>) -> Option<Interval> {
    if w == "daily"@ {
        Some(Interval::Daily)
    } else if w == "weekly"@ {
        Some(Interval::Weekly)
    } else if w == "monthly"@ {
        Some(Interval::Monthly)
    } else {
        None
    }
}

/// How many fields a code of the interval needs: a weekly one its weekday,
/// a monthly one its day of the month.
pub open spec fn min_fields(i: Interval) -> nat {
    match i {
        Interval::Daily => 3,
        Interval::Weekly => 4,
        Interval::Monthly => 5,
    }
}

/// The schedule that a malformed code stands for.
pub open spec fn default_schedule() -> Config {
    Config {
        interval: Interval::Daily,
        time: DEFAULT_TIME,
        weekday: None,
        day: None,
        channel_id: None,
    }
}

/// Field `i` read as a `u8`, where there is such a field and it parses.
pub open spec fn field_u8(fs: Seq<Seq<char>>, i: int) -> Option<u8> {
    if i < fs.len() {
        match parse_unsigned(fs[i], 255) {
            Some(v) => Some(v as u8),
            None => None,
        }
    } else {
        None
    }
}

/// Field `i` read as a channel identifier, a non-zero `u64`.
pub open spec fn field_channel(fs: Seq<Seq<char>>, i: int) -> Option<u64> {
    if i < fs.len() {
        match parse_unsigned(fs[i], u64::MAX as nat) {
            Some(v) => if v > 0 {
                Some(v as u64)
            } else {
                None
            },
            None => None,
        }
    } else {
        None
    }
}

pub open spec fn decoded_fields(fs: Seq<Seq<char>>) -> Config {
    if fs.len() >= 2 && fs[0] == marker() && interval_of(fs[1]) is Some && fs.len()
        >= min_fields(interval_of(fs[1])->0) {
        Config {
            interval: interval_of(fs[1])->0,
            time: match field_u8(fs, 2) {
                Some(t) => t,
                None => DEFAULT_TIME,
            },
            weekday: field_u8(fs, 3),
            day: field_u8(fs, 4),
            channel_id: field_channel(fs, 5),
        }
    } else {
        default_schedule()
    }
}

/// The schedule that a config code stands for.
pub open spec fn decoded(code: Seq<char>) -> Config {
    decoded_fields(split_dots(trim(code)))
}

pub open spec fn optional_digits(o: Option<u8>) -> Seq<char> {
    match o {
        Some(v) => decimal_of(v as nat),
        None => Seq::<char>::empty(),
    }
}

pub open spec fn channel_digits(o: Option<u64>) -> Seq<char> {
    match o {
        Some(v) => decimal_of(v as nat),
        None => Seq::<char>::empty(),
    }
}

/// Fields are written up to the last one that holds a value; those before it
/// that hold none are written empty.
pub open spec fn field_count(c: Config) -> nat {
    if c.channel_id is Some {
        6
    } else if c.day is Some {
        5
    } else if c.weekday is Some {
        4
    } else {
        3
    }
}

pub open spec fn encoded_fields(c: Config) -> Seq<Seq<char>> {
    seq![
        marker(),
        interval_word(c.interval),
        decimal_of(c.time as nat),
        optional_digits(c.weekday),
        optional_digits(c.day),
        channel_digits(c.channel_id),
    ].take(field_count(c) as int)
}

/// The config code of a schedule.
pub open spec fn encoded(c: Config) -> Seq<char> {
    join_dots(encoded_fields(c))
}

/// A schedule holds the field that its interval needs, and a channel
/// identifier, where it has one, is not zero.
pub open spec fn is_consistent(c: Config) -> bool {
    &&& c.interval == Interval::Weekly ==> c.weekday is Some
    &&& c.interval == Interval::Monthly ==> c.day is Some
    &&& c.channel_id != Some(0u64)
}

proof fn lemma_decimal_no_dot(n: nat)
    ensures
        has_no_dot(decimal_of(n)),
        decimal_of(n).len() > 0,
        decimal_of(n)[0] != '.',
        !crate::text::is_white_space(decimal_of(n).last()),
{
    lemma_decimal_of(n);
    let s = decimal_of(n);
    assert(crate::decimal::is_digit(s[s.len() - 1]));
}

proof fn lemma_join_ends(fs: Seq<Seq<char>>)
    requires
        fs.len() >= 1,
        fs[0].len() > 0,
        fs.last().len() > 0,
    ensures
        join_dots(fs).len() > 0,
        join_dots(fs)[0] == fs[0][0],
        join_dots(fs).last() == fs.last().last(),
    decreases fs.len(),
{
    if fs.len() > 1 {
        lemma_join_ends_first(fs.drop_last());
    }
}

proof fn lemma_join_ends_first(fs: Seq<Seq<char>>)
    requires
        fs.len() >= 1,
        fs[0].len() > 0,
    ensures
        join_dots(fs).len() > 0,
        join_dots(fs)[0] == fs[0][0],
    decreases fs.len(),
{
    if fs.len() > 1 {
        lemma_join_ends_first(fs.drop_last());
    }
}

proof fn lemma_interval_word(i: Interval)
    ensures
        interval_of(interval_word(i)) == Some(i),
        has_no_dot(interval_word(i)),
        interval_word(i).len() > 0,
{
    reveal_strlit("daily");
    reveal_strlit("weekly");
    reveal_strlit("monthly");
    match i {
        Interval::Daily => {},
        Interval::Weekly => {
            assert("weekly"@[0] != "daily"@[0]);
            assert("weekly"@ != "daily"@);
        },
        Interval::Monthly => {
            assert("monthly"@[0] != "daily"@[0]);
            assert("monthly"@[0] != "weekly"@[0]);
            assert("monthly"@ != "daily"@);
            assert("monthly"@ != "weekly"@);
        },
    }
}

/// Decoding the code of a schedule gives the schedule back.
pub proof fn lemma_round_trip(c: Config)
    requires
        is_consistent(c),
    ensures
        decoded(encoded(c)) == c,
{
    reveal_strlit("ssc");
    lemma_interval_word(c.interval);
    let fs = encoded_fields(c);
    let all = seq![
        marker(),
        interval_word(c.interval),
        decimal_of(c.time as nat),
        optional_digits(c.weekday),
        optional_digits(c.day),
        channel_digits(c.channel_id),
    ];
    lemma_decimal_no_dot(c.time as nat);
    if let Some(w) = c.weekday {
        lemma_decimal_no_dot(w as nat);
        lemma_parse_decimal_of(w as nat, 255);
    }
    if let Some(d) = c.day {
        lemma_decimal_no_dot(d as nat);
        lemma_parse_decimal_of(d as nat, 255);
    }
    if let Some(ch) = c.channel_id {
        lemma_decimal_no_dot(ch as nat);
        lemma_parse_decimal_of(ch as nat, u64::MAX as nat);
    }
    lemma_parse_decimal_of(c.time as nat, 255);
    assert(parse_unsigned(Seq::<char>::empty(), 255) is None);
    assert(parse_unsigned(Seq::<char>::empty(), u64::MAX as nat) is None);
    assert forall|i: int| 0 <= i < all.len() implies has_no_dot(#[trigger] all[i]) by {}
    assert forall|i: int| 0 <= i < fs.len() implies has_no_dot(#[trigger] fs[i]) by {
        assert(fs[i] == all[i]);
    }
    lemma_split_join(fs);
    lemma_join_ends(fs);
    lemma_trim_keeps(encoded(c));
}

fn default_config() -> (r: Config)
    ensures
        r == default_schedule(),
{
    Config {
        interval: Interval::Daily,
        time: DEFAULT_TIME,
        weekday: None,
        day: None,
        channel_id: None,
    }
}

fn optional_u8(fields: &Vec<Vec<char>>, i: usize) -> (r: Option<u8>)
    ensures
        r == field_u8(fields@.map_values(|f: Vec<char>| f@), i as int),
{
    if i < fields.len() {
        assert(fields@.map_values(|f: Vec<char>| f@)[i as int] == fields@[i as int]@);
        match parse_decimal(&fields[i], 255) {
            Some(v) => Some(v as u8),
            None => None,
        }
    } else {
        None
    }
}

fn optional_channel(fields: &Vec<Vec<char>>, i: usize) -> (r: Option<u64>)
    ensures
        r == field_channel(fields@.map_values(|f: Vec<char>| f@), i as int),
{
    if i < fields.len() {
        assert(fields@.map_values(|f: Vec<char>| f@)[i as int] == fields@[i as int]@);
        match parse_decimal(&fields[i], u64::MAX) {
            Some(v) => if v > 0 {
                Some(v)
            } else {
                None
            },
            None => None,
        }
    } else {
        None
    }
}

/// Reads a config code. Codes are typed by people, so this never fails: a code
/// with the wrong marker, an unknown interval or too few fields gives the
/// default schedule, an unreadable time gives the default hour, and an
/// unreadable weekday, day or channel gives none.
pub fn parse_config_code(code: String) -> (r: Config)
    ensures
        r == decoded(code@),
{
    let chars = chars_of(code.as_str());
    let fields = split_trimmed(&chars);
    let ghost fs = fields@.map_values(|f: Vec<char>| f@);
    if fields.len() < 2 {
        return default_config();
    }
    assert(fs[0] == fields@[0]@);
    assert(fs[1] == fields@[1]@);
    if !chars_equal(&fields[0], "ssc") {
        return default_config();
    }
    let interval = if chars_equal(&fields[1], "daily") {
        Interval::Daily
    } else if chars_equal(&fields[1], "weekly") {
        Interval::Weekly
    } else if chars_equal(&fields[1], "monthly") {
        Interval::Monthly
    } else {
        return default_config();
    };
    let needed: usize = match interval {
        Interval::Daily => 3,
        Interval::Weekly => 4,
        Interval::Monthly => 5,
    };
    if fields.len() < needed {
        return default_config();
    }
    let time = match optional_u8(&fields, 2) {
        Some(t) => t,
        None => DEFAULT_TIME,
    };
    Config {
        interval,
        time,
        weekday: optional_u8(&fields, 3),
        day: optional_u8(&fields, 4),
        channel_id: optional_channel(&fields, 5),
    }
}

fn interval_text(i: Interval) -> (r: &'static str)
    ensures
        r@ == interval_word(i),
{
    match i {
        Interval::Daily => "daily",
        Interval::Weekly => "weekly",
        Interval::Monthly => "monthly",
    }
}

/// Writes the config code of a schedule.
pub fn encode_config_code(config: &Config) -> (r: String)
    ensures
        r@ == encoded(*config),
{
    let ghost c = *config;
    let ghost all = seq![
        marker(),
        interval_word(c.interval),
        decimal_of(c.time as nat),
        optional_digits(c.weekday),
        optional_digits(c.day),
        channel_digits(c.channel_id),
    ];
    let count: usize = if config.channel_id.is_some() {
        6
    } else if config.day.is_some() {
        5
    } else if config.weekday.is_some() {
        4
    } else {
        3
    };
    let mut s = String::new();
    s.append("ssc");
    proof {
        assert(s@ =~= join_dots(all.take(1)));
    }
    push_char(&mut s, '.');
    s.append(interval_text(config.interval));
    proof {
        assert(all.take(2).drop_last() =~= all.take(1));
        assert(s@ =~= join_dots(all.take(2)));
    }
    push_char(&mut s, '.');
    push_decimal(&mut s, config.time as u64);
    proof {
        assert(all.take(3).drop_last() =~= all.take(2));
        assert(s@ =~= join_dots(all.take(3)));
    }
    if count >= 4 {
        push_char(&mut s, '.');
        if let Some(w) = config.weekday {
            push_decimal(&mut s, w as u64);
        }
        proof {
            assert(all.take(4).drop_last() =~= all.take(3));
            assert(s@ =~= join_dots(all.take(4)));
        }
    }
    if count >= 5 {
        push_char(&mut s, '.');
        if let Some(d) = config.day {
            push_decimal(&mut s, d as u64);
        }
        proof {
            assert(all.take(5).drop_last() =~= all.take(4));
            assert(s@ =~= join_dots(all.take(5)));
        }
    }
    if count >= 6 {
        push_char(&mut s, '.');
        if let Some(ch) = config.channel_id {
            push_decimal(&mut s, ch);
        }
        proof {
            assert(all.take(6).drop_last() =~= all.take(5));
            assert(s@ =~= join_dots(all.take(6)));
        }
    }
    s
}

} // verus!
