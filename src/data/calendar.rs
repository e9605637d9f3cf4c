//! The NASDAQ trading calendar over UTC day numbers and UTC seconds.
//!
//! Saturdays and Sundays are not trading days; holidays are not modelled.
//! The session runs from 14:30 to 21:00 UTC, the closing minute included.
use vstd::arithmetic::div_mod::lemma_fundamental_div_mod_converse;
use vstd::prelude::*;

verus! {

/// Seconds in one day.
pub const SECS_PER_DAY: i64 = 86400;

/// Seconds in one minute.
pub const SECS_PER_MINUTE: i64 = 60;

/// Minute of the day at which the session opens (14:30 UTC).
pub const SESSION_OPEN_MINUTE: i64 = 870;

/// Minute of the day at which the session closes (21:00 UTC), inclusive.
pub const SESSION_CLOSE_MINUTE: i64 = 1260;

/// A calendar day in UTC, as the number of days since 1970-01-01.
#[derive(Clone, Copy, Debug, PartialEq, Eq, Structural, Hash, PartialOrd, Ord)]
pub struct Date {
    pub days: i32,
}

/// An instant in UTC, as whole seconds since 1970-01-01T00:00:00.
#[derive(Clone, Copy, Debug, PartialEq, Eq, Structural, Hash, PartialOrd, Ord)]
pub struct Timestamp {
    pub secs: i64,
}

/// Day of the week of a day number, from 0 (Monday) to 6 (Sunday).
/// Day 0, 1970-01-01, was a Thursday.
pub open spec fn weekday_of(days: int) -> int {
    (days + 3) % 7
}

/// A trading day is any day but Saturday and Sunday.
pub open spec fn trading_day(days: int) -> bool {
    weekday_of(days) < 5
}

/// The day number that an instant falls on.
pub open spec fn day_of(secs: int) -> int {
    secs / (SECS_PER_DAY as int)
}

/// The minute of its day that an instant falls in, from 0 to 1439.
pub open spec fn minute_of_day(secs: int) -> int {
    (secs % (SECS_PER_DAY as int)) / (SECS_PER_MINUTE as int)
}

/// An instant is in the session when it falls on a trading day, no earlier
/// than 14:30 and before 21:01.
pub open spec fn trading_time(secs: int) -> bool {
    &&& trading_day(day_of(secs))
    &&& SESSION_OPEN_MINUTE <= minute_of_day(secs) <= SESSION_CLOSE_MINUTE
}

/// The first trading day on or after `days`: never more than two days on.
pub open spec fn next_trading_day(days: int) -> int {
    if trading_day(days) {
        days
    } else if trading_day(days + 1) {
        days + 1
    } else {
        days + 2
    }
}

/// The opening instant of the session on a day.
pub open spec fn session_open(days: int) -> int {
    days * SECS_PER_DAY + SESSION_OPEN_MINUTE * SECS_PER_MINUTE
}

/// Number of minutes that the session emits on a trading day.
pub open spec fn session_minutes() -> int {
    SESSION_CLOSE_MINUTE - SESSION_OPEN_MINUTE + 1
}

fn weekday_of_day_number(days: i64) -> (r: u8)
    ensures
        r == weekday_of(days as int),
        r < 7,
{
    let shifted: i128 = days as i128 + 3;
    match shifted.checked_rem_euclid(7) {
        Some(w) => w as u8,
        None => 0,
    }
}

impl Date {
    /// Day of the week, from 0 (Monday) to 6 (Sunday).
    pub fn weekday_from_monday(&self) -> (r: u8)
        ensures
            r == weekday_of(self.days as int),
    {
        weekday_of_day_number(self.days as i64)
    }

    /// The following day, or `None` past the last representable day.
    pub fn succ(&self) -> (r: Option<Date>)
        ensures
            self.days < i32::MAX ==> r == Some(Date { days: (self.days + 1) as i32 }),
            self.days == i32::MAX ==> r.is_none(),
    {
        if self.days < i32::MAX {
            Some(Date { days: self.days + 1 })
        } else {
            None
        }
    }
}

impl Timestamp {
    /// The day number that this instant falls on.
    pub fn day_number(&self) -> (r: i64)
        ensures
            r == day_of(self.secs as int),
    {
        match self.secs.checked_div_euclid(SECS_PER_DAY) {
            Some(d) => d,
            None => 0,
        }
    }

    /// The minute of the day, from 0 to 1439.
    pub fn minute_of_day(&self) -> (r: i64)
        ensures
            r == minute_of_day(self.secs as int),
            0 <= r < 1440,
    {
        let secs_of_day: i64 = match self.secs.checked_rem_euclid(SECS_PER_DAY) {
            Some(s) => s,
            None => 0,
        };
        secs_of_day / SECS_PER_MINUTE
    }

    /// The hour of the day, from 0 to 23.
    pub fn hour(&self) -> (r: u32)
        ensures
            r == minute_of_day(self.secs as int) / 60,
            r < 24,
    {
        (self.minute_of_day() / 60) as u32
    }

    /// The minute within the hour, from 0 to 59.
    pub fn minute(&self) -> (r: u32)
        ensures
            r == minute_of_day(self.secs as int) % 60,
            r < 60,
    {
        (self.minute_of_day() % 60) as u32
    }
}

/// Whether a UTC day is a NASDAQ trading day.
pub fn naive_utc_is_nasdaq_trading_day(date: Date) -> (r: bool)
    ensures
        r == trading_day(date.days as int),
{
    date.weekday_from_monday() < 5
}

/// Whether a day is a NASDAQ trading day. Days are kept in UTC throughout.
pub fn is_nasdaq_trading_day(date: Date) -> (r: bool)
    ensures
        r == trading_day(date.days as int),
{
    naive_utc_is_nasdaq_trading_day(date)
}

/// Whether a UTC instant lies within NASDAQ trading hours.
pub fn naitve_utc_is_nasdaq_trading_time(datetime: Timestamp) -> (r: bool)
    ensures
        r == trading_time(datetime.secs as int),
{
    if weekday_of_day_number(datetime.day_number()) >= 5 {
        return false;
    }
    let minute = datetime.minute_of_day();
    SESSION_OPEN_MINUTE <= minute && minute <= SESSION_CLOSE_MINUTE
}

/// Whether an instant lies within NASDAQ trading hours. Instants are kept in
/// UTC throughout.
pub fn is_nasdaq_trading_time(datetime: Timestamp) -> (r: bool)
    ensures
        r == trading_time(datetime.secs as int),
{
    naitve_utc_is_nasdaq_trading_time(datetime)
}

/// The NASDAQ trading days from a given day on: the day held is the next one
/// to consider.
#[derive(Clone, Copy, Debug, PartialEq, Eq, Structural, Hash, PartialOrd, Ord)]
pub struct NASDAQDays(pub Date);

impl NASDAQDays {
    /// The next trading day, on or after the day held, after which the day
    /// held is the one following it. `None`, with nothing changed, only where
    /// that following day cannot be represented.
    pub fn next(&mut self) -> (r: Option<Date>)
        ensures
            ({
                let d = next_trading_day(old(self).0.days as int);
                if d < i32::MAX {
                    &&& r == Some(Date { days: d as i32 })
                    &&& final(self).0.days == d + 1
                } else {
                    &&& r.is_none()
                    &&& *final(self) == *old(self)
                }
            }),
            r matches Some(day) ==> trading_day(day.days as int),
            r matches Some(day) ==> forall|k: int|
                old(self).0.days <= k < day.days ==> !trading_day(k),
    {
        let start = self.0;
        let mut day = self.0;
        while !naive_utc_is_nasdaq_trading_day(day)
            invariant
                start.days <= day.days <= next_trading_day(start.days as int),
                forall|k: int| start.days <= k < day.days ==> !trading_day(k),
            decreases next_trading_day(start.days as int) - day.days,
        {
            match day.succ() {
                Some(following) => {
                    day = following;
                },
                None => {
                    return None;
                },
            }
        }
        match day.succ() {
            Some(following) => {
                self.0 = following;
                Some(day)
            },
            None => None,
        }
    }
}

/// The NASDAQ trading minutes of one day, from the instant held up to the
/// close of its session.
#[derive(Clone, Copy, Debug, PartialEq, Eq, Structural, Hash, PartialOrd, Ord)]
pub struct NASDAQMinutes(pub Timestamp);

impl NASDAQMinutes {
    /// The trading minutes of a day, starting at the session's opening.
    pub fn for_date(date: Date) -> (r: NASDAQMinutes)
        ensures
            r.0.secs == session_open(date.days as int),
    {
        NASDAQMinutes(Timestamp { secs: date.days as i64 * SECS_PER_DAY + SESSION_OPEN_MINUTE * SECS_PER_MINUTE })
    }

    /// The instant held, if it is a trading minute, after which the instant
    /// held is one minute later. `None`, with nothing changed, once the
    /// instant held is outside the session (or a minute later cannot be
    /// represented).
    pub fn next(&mut self) -> (r: Option<Timestamp>)
        ensures
            if trading_time(old(self).0.secs as int) && old(self).0.secs + SECS_PER_MINUTE <= i64::MAX {
                &&& r == Some(old(self).0)
                &&& final(self).0.secs == old(self).0.secs + SECS_PER_MINUTE
            } else {
                &&& r.is_none()
                &&& *final(self) == *old(self)
            },
    {
        if !is_nasdaq_trading_time(self.0) || self.0.secs > i64::MAX - SECS_PER_MINUTE {
            return None;
        }
        let result = self.0;
        self.0 = Timestamp { secs: self.0.secs + SECS_PER_MINUTE };
        Some(result)
    }
}

proof fn lemma_session_instant(days: int, i: int)
    requires
        0 <= i <= session_minutes(),
    ensures
        day_of(session_open(days) + i * SECS_PER_MINUTE) == days,
        minute_of_day(session_open(days) + i * SECS_PER_MINUTE) == SESSION_OPEN_MINUTE + i,
{
    let t = session_open(days) + i * SECS_PER_MINUTE;
    let r = (SESSION_OPEN_MINUTE + i) * SECS_PER_MINUTE;
    lemma_fundamental_div_mod_converse(t, SECS_PER_DAY as int, days, r);
    lemma_fundamental_div_mod_converse(r, SECS_PER_MINUTE as int, SESSION_OPEN_MINUTE + i, 0);
}

/// On a trading day, the trading minutes are exactly the session's minutes:
/// every instant a whole number of minutes after the opening, up to and
/// including the close, is in the session, and the minute after the close is
/// not. So `NASDAQMinutes::for_date` yields them in strictly increasing order
/// and stops at the close.
pub proof fn lemma_session_minutes(days: int)
    requires
        trading_day(days),
    ensures
        forall|i: int|
            0 <= i < session_minutes() ==> #[trigger] trading_time(
                session_open(days) + i * SECS_PER_MINUTE,
            ),
        !trading_time(session_open(days) + session_minutes() * SECS_PER_MINUTE),
{
    assert forall|i: int| 0 <= i < session_minutes() implies #[trigger] trading_time(
        session_open(days) + i * SECS_PER_MINUTE,
    ) by {
        lemma_session_instant(days, i);
    }
    lemma_session_instant(days, session_minutes());
}

proof fn lemma_session_bound(days: int, secs: int)
    requires
        session_open(days) <= secs <= session_open(days) + (session_minutes() + 1)
            * SECS_PER_MINUTE,
    ensures
        trading_time(secs) ==> secs + SECS_PER_MINUTE <= session_open(days) + (session_minutes() + 1) * SECS_PER_MINUTE,
{
    let r = secs - days * SECS_PER_DAY;
    lemma_fundamental_div_mod_converse(secs, SECS_PER_DAY as int, days, r);
    vstd::arithmetic::div_mod::lemma_fundamental_div_mod(r, SECS_PER_MINUTE as int);
}

/// Every NASDAQ trading minute from the opening of a given day on, across
/// days: the trading days, each expanded into its trading minutes.
#[derive(Clone, Copy, Debug, PartialEq, Eq, Structural, Hash)]
pub struct TradingMinutes {
    /// The next day to expand once the minutes held run out.
    pub days: NASDAQDays,
    /// The minutes of the day last expanded, if any.
    pub minutes: Option<NASDAQMinutes>,
}

impl TradingMinutes {
    /// The earliest instant that the next call of `next` may yield.
    pub open spec fn floor(&self) -> int {
        match self.minutes {
            Some(m) => m.0.secs as int,
            None => session_open(self.days.0.days as int),
        }
    }

    /// The minutes held belong to the day before the next one to consider.
    pub open spec fn wf(&self) -> bool {
        self.minutes matches Some(m) ==> {
            let open = session_open(self.days.0.days - 1);
            open <= m.0.secs <= open + (session_minutes() + 1) * SECS_PER_MINUTE
        }
    }

    /// Whether the minute held, if any, is still in the session.
    pub open spec fn holds_trading_minute(&self) -> bool {
        self.minutes matches Some(m) && trading_time(m.0.secs as int)
    }

    /// The trading minutes from the opening of `date` on (or of the first
    /// trading day after it).
    pub fn starting(date: Date) -> (r: TradingMinutes)
        ensures
            r.wf(),
            r.days == NASDAQDays(date),
            r.minutes.is_none(),
            r.floor() == session_open(date.days as int),
    {
        TradingMinutes { days: NASDAQDays(date), minutes: None }
    }

    /// The next trading minute. While the minute held is in the session it
    /// is yielded and the one after it is held; otherwise the next trading day
    /// is expanded, its opening is yielded and the minute after it is held.
    /// `None`, with nothing changed, only where the day after that trading
    /// day cannot be represented. Each minute yielded is in the session and
    /// strictly later than every minute yielded before.
    pub fn next(&mut self) -> (r: Option<Timestamp>)
        requires
            old(self).wf(),
        ensures
            final(self).wf(),
            old(self).holds_trading_minute() ==> {
                let m = old(self).minutes->Some_0.0;
                &&& r == Some(m)
                &&& final(self).days == old(self).days
                &&& final(self).minutes == Some(
                    NASDAQMinutes(Timestamp { secs: (m.secs + SECS_PER_MINUTE) as i64 }),
                )
            },
            !old(self).holds_trading_minute() ==> {
                let d = next_trading_day(old(self).days.0.days as int);
                if d < i32::MAX {
                    &&& r == Some(Timestamp { secs: session_open(d) as i64 })
                    &&& final(self).days.0.days == d + 1
                    &&& final(self).minutes == Some(
                        NASDAQMinutes(Timestamp { secs: (session_open(d) + SECS_PER_MINUTE) as i64 }),
                    )
                } else {
                    &&& r.is_none()
                    &&& *final(self) == *old(self)
                }
            },
            r matches Some(t) ==> {
                &&& trading_time(t.secs as int)
                &&& old(self).floor() <= t.secs < final(self).floor()
            },
    {
        if let Some(mut m) = self.minutes {
            proof {
                lemma_session_bound(self.days.0.days - 1, m.0.secs as int);
                lemma_session_open_range(self.days.0.days - 1);
            }
            let r = m.next();
            if r.is_some() {
                self.minutes = Some(m);
                return r;
            }
        }
        let ghost before = self.days.0.days;
        let mut days = self.days;
        match days.next() {
            Some(day) => {
                let mut m = NASDAQMinutes::for_date(day);
                proof {
                    lemma_session_minutes(day.days as int);
                    lemma_session_open_range(day.days as int);
                    assert(trading_time(session_open(day.days as int) + 0 * SECS_PER_MINUTE));
                    assert(session_open(before as int) <= session_open(day.days as int)) by (
                    nonlinear_arith)
                        requires
                            before <= day.days,
                    ;
                }
                let r = m.next();
                self.days = days;
                self.minutes = Some(m);
                r
            },
            None => None,
        }
    }
}

proof fn lemma_session_open_range(days: int)
    requires
        i32::MIN - 1 <= days <= i32::MAX,
    ensures
        i64::MIN + SECS_PER_DAY <= session_open(days),
        session_open(days) + SECS_PER_DAY <= i64::MAX,
{
    assert(i32::MIN * SECS_PER_DAY - SECS_PER_DAY <= days * SECS_PER_DAY <= i32::MAX * SECS_PER_DAY)
        by (nonlinear_arith)
        requires
            i32::MIN - 1 <= days <= i32::MAX,
    ;
}

/// Trading days are weekdays: from any day with two representable days after
/// it, the next trading day is representable, is neither a Saturday (5) nor a
/// Sunday (6), and is at most two days on. So `NASDAQDays::next` yields it.
pub proof fn lemma_trading_days_are_weekdays(days: int)
    requires
        days < i32::MAX - 2,
    ensures
        days <= next_trading_day(days) <= days + 2,
        next_trading_day(days) < i32::MAX,
        trading_day(next_trading_day(days)),
        weekday_of(next_trading_day(days)) != 5,
        weekday_of(next_trading_day(days)) != 6,
{
}

} // verus!
