//! Cron schedules of backup policies (UTC) and the names of scheduled runs.
use crate::clock::{
    compact_stamp, compact_text, Timestamp, FIRST_FOUR_DIGIT_SEC, LAST_FOUR_DIGIT_SEC, MAX_SECS,
};
use crate::crontab::{
    cron_week, law_named_days_stand_for_themselves, lemma_week_made_of, translate_week,
};
use crate::text::{
    chars_of, decimal, decimal_text, is_blank, join, joined, split_words, string_of, trim, trimmed,
    words,
};
use vstd::prelude::*;
use vstd::utf8::encode_utf8;

verus! {

/// What the cron parser makes of an expression: acceptance, or its error text.
pub uninterp spec fn cron_parse(expr: Seq<char>) -> Result<(), Seq<char>>;

/// The first fire time of an expression after a point in time, as seconds and nanoseconds.
pub uninterp spec fn cron_next(expr: Seq<char>, secs: i64, nanos: u32) -> Option<(i64, u32)>;

/// `Schedule::from_str` of `cron`, by way of `str::parse`: whether the expression parses, and the
/// error's text where it does not. Both depend on the expression alone.
#[verifier::external_body]
fn cron_from_str(expr: &str) -> (res: Result<(), String>)
    ensures
        match res {
            Ok(_) => cron_parse(expr@) is Ok,
            Err(m) => cron_parse(expr@) == Err::<(), Seq<char>>(m@),
        },
{
    match expr.parse::<cron::Schedule>() {
        Ok(_) => Ok(()),
        Err(err) => Err(err.to_string()),
    }
}

/// `Schedule::after` of `cron` and the first item of its iterator, for a parsed expression: a
/// whole second strictly after `t`, no later than the year 2100, or nothing.
#[verifier::external_body]
fn cron_after(expr: &str, t: Timestamp) -> (res: Option<Timestamp>)
    requires
        t.valid(),
        t.secs < MAX_SECS,
        cron_parse(expr@) is Ok,
    ensures
        match res {
            Some(n) => {
                &&& cron_next(expr@, t.secs, t.nanos) == Some((n.secs, n.nanos))
                &&& n.valid()
                &&& n.secs <= 4_133_980_799
                &&& n.nanos == 0
                &&& !n.le(t)
            },
            None => cron_next(expr@, t.secs, t.nanos) is None,
        },
{
    let schedule = expr.parse::<cron::Schedule>().ok()?;
    let after = chrono::DateTime::from_timestamp(t.secs, t.nanos)?;
    let next = schedule.after(&after).next()?;
    Some(Timestamp { secs: next.timestamp(), nanos: next.timestamp_subsec_nanos() })
}

/// The text for a schedule with `n` fields, where `n` is not a number of fields that cron takes.
pub open spec fn field_count_text(n: nat) -> Seq<char> {
    "schedule must have 5 or 6 fields (got "@ + decimal(n)
        + "); example: '0 2 * * *' (daily 02:00 UTC)"@
}

/// The six- or seven-field form of a cron expression, with `0` for the seconds of a five-field
/// one, or why there is none.
pub open spec fn normalized(expr: Seq<char>) -> Result<Seq<char>, Seq<char>> {
    let fields = words(trim(expr));
    if trim(expr).len() == 0 {
        Err("schedule must not be empty"@)
    } else if fields.len() == 5 {
        Ok("0 "@ + joined(fields, " "@))
    } else if fields.len() == 6 || fields.len() == 7 {
        Ok(joined(fields, " "@))
    } else {
        Err(field_count_text(fields.len()))
    }
}

/// Normalizes a user's cron string.
///
/// - 5 fields: `min hour dom month dow` get `0` for the seconds
/// - 6 fields: `sec min hour dom month dow`
/// - 7 fields: with a year
pub fn normalize_cron_expression(expr: &str) -> (res: Result<String, String>)
    ensures
        match res {
            Ok(s) => normalized(expr@) == Ok::<Seq<char>, Seq<char>>(s@),
            Err(m) => normalized(expr@) == Err::<Seq<char>, Seq<char>>(m@),
        },
{
    let trimmed_expr = trimmed(expr);
    if is_blank(expr) {
        return Err(String::from_str("schedule must not be empty"));
    }
    let fields = split_words(trimmed_expr.as_str());
    let n: usize = fields.len();
    if n == 5 {
        Ok(String::from_str("0 ").concat(join(&fields, " ").as_str()))
    } else if n == 6 || n == 7 {
        Ok(join(&fields, " "))
    } else {
        Err(
            String::from_str("schedule must have 5 or 6 fields (got ").concat(
                decimal_text(n as u64).as_str(),
            ).concat("); example: '0 2 * * *' (daily 02:00 UTC)"),
        )
    }
}

/// The expression that the cron parser gets: the normalized one, with the days of the week of a
/// five-field crontab in the parser's numbers.
pub open spec fn cron_form(expr: Seq<char>) -> Result<Seq<char>, Seq<char>> {
    let fields = words(trim(expr));
    if trim(expr).len() > 0 && fields.len() == 5 {
        Ok("0 "@ + joined(fields.update(4, cron_week(fields[4])), " "@))
    } else {
        normalized(expr)
    }
}

/// The expression that the cron parser gets for a user's cron string.
fn cron_expression(expr: &str) -> (res: Result<String, String>)
    ensures
        match res {
            Ok(s) => cron_form(expr@) == Ok::<Seq<char>, Seq<char>>(s@),
            Err(m) => cron_form(expr@) == Err::<Seq<char>, Seq<char>>(m@),
        },
{
    if !is_blank(expr) {
        let trimmed_expr = trimmed(expr);
        let mut fields = split_words(trimmed_expr.as_str());
        if fields.len() == 5 {
            let ghost before = fields.deep_view();
            let week = translate_week(fields[4].as_str());
            assert(week@ == cron_week(before[4]));
            fields.set(4, week);
            assert(fields.deep_view() =~= before.update(4, week@));
            return Ok(String::from_str("0 ").concat(join(&fields, " ").as_str()));
        }
    }
    normalize_cron_expression(expr)
}

/// A cron schedule that parses.
pub struct Schedule {
    pub expression: String,
}

impl Schedule {
    /// The expression is one that cron accepts.
    pub open spec fn wf(&self) -> bool {
        cron_parse(self.expression@) is Ok
    }
}

/// The expression that the cron parser got for a valid schedule, or why `expr` is none, given what
/// the parser says of that expression.
pub open spec fn parsed_schedule(expr: Seq<char>, parse: Result<(), Seq<char>>) -> Result<
    Seq<char>,
    Seq<char>,
> {
    match (cron_form(expr), parse) {
        (Err(m), _) => Err(m),
        (Ok(n), Ok(_)) => Ok(n),
        (Ok(_), Err(m)) => Err("invalid schedule '"@ + expr + "': "@ + m),
    }
}

/// What the cron parser says of the expression that it gets for `expr`.
pub open spec fn parse_of(expr: Seq<char>) -> Result<(), Seq<char>> {
    match cron_form(expr) {
        Ok(n) => cron_parse(n),
        Err(_) => Ok(()),
    }
}

/// Reports what the cron parser said of a schedule.
pub fn schedule_outcome(expr: &str, normalized_expr: String, parse: Result<(), String>) -> (res:
    Result<String, String>)
    ensures
        match (parse, res) {
            (Ok(_), Ok(s)) => s == normalized_expr,
            (Err(m), Err(t)) => t@ == "invalid schedule '"@ + expr@ + "': "@ + m@,
            _ => false,
        },
{
    match parse {
        Ok(_) => Ok(normalized_expr),
        Err(m) => Err(
            String::from_str("invalid schedule '").concat(expr).concat("': ").concat(m.as_str()),
        ),
    }
}

/// Parses a user's cron string. Five fields are a standard crontab, whose week starts with Sunday
/// as 0; six or seven are handed to the cron parser as they are.
pub fn parse_schedule(expr: &str) -> (res: Result<Schedule, String>)
    ensures
        match res {
            Ok(s) => s.wf() && parsed_schedule(expr@, parse_of(expr@)) == Ok::<
                Seq<char>,
                Seq<char>,
            >(s.expression@),
            Err(m) => parsed_schedule(expr@, parse_of(expr@)) == Err::<Seq<char>, Seq<char>>(m@),
        },
{
    match cron_expression(expr) {
        Ok(n) => {
            let parse = cron_from_str(n.as_str());
            match schedule_outcome(expr, n, parse) {
                Ok(expression) => Ok(Schedule { expression }),
                Err(m) => Err(m),
            }
        },
        Err(m) => Err(m),
    }
}

/// The first fire time of a valid schedule strictly after `after`; nothing fires after the last
/// representable second.
pub open spec fn next_fire(expression: Seq<char>, after: Timestamp) -> Option<(i64, u32)> {
    if after.secs < MAX_SECS {
        cron_next(expression, after.secs, after.nanos)
    } else {
        None
    }
}

/// The next fire time, which lies strictly after `after`, or why there is none.
pub open spec fn next_run(expr: Seq<char>, after: Timestamp) -> Result<(i64, u32), Seq<char>> {
    match parsed_schedule(expr, parse_of(expr)) {
        Err(m) => Err(m),
        Ok(n) => match next_fire(n, after) {
            Some((secs, nanos)) if !(Timestamp { secs, nanos }).le(after) => Ok((secs, nanos)),
            _ => Err("schedule '"@ + expr + "' has no upcoming fire time"@),
        },
    }
}

/// Next fire time strictly after `after` (UTC).
pub fn next_run_after(expr: &str, after: Timestamp) -> (res: Result<Timestamp, String>)
    requires
        after.valid(),
    ensures
        match res {
            Ok(t) => next_run(expr@, after) == Ok::<(i64, u32), Seq<char>>((t.secs, t.nanos))
                && t.valid() && !t.le(after),
            Err(m) => next_run(expr@, after) == Err::<(i64, u32), Seq<char>>(m@),
        },
{
    match parse_schedule(expr) {
        Ok(schedule) => {
            if after.secs < MAX_SECS {
                if let Some(next) = cron_after(schedule.expression.as_str(), after) {
                    return Ok(next);
                }
            }
            Err(String::from_str("schedule '").concat(expr).concat("' has no upcoming fire time"))
        },
        Err(m) => Err(m),
    }
}

/// Validates that `expr` is a usable cron schedule.
pub fn validate_schedule(expr: &str) -> (res: Result<(), String>)
    ensures
        match res {
            Ok(_) => parsed_schedule(expr@, parse_of(expr@)) is Ok,
            Err(m) => parsed_schedule(expr@, parse_of(expr@)) == Err::<Seq<char>, Seq<char>>(m@),
        },
{
    match parse_schedule(expr) {
        Ok(_) => Ok(()),
        Err(m) => Err(m),
    }
}

/// The longest run name.
pub const RUN_NAME_LIMIT: usize = 63;

/// The name of a run: the policy's name and the stamp, with the policy's name cut where the whole
/// would be longer than the limit.
pub open spec fn run_name(policy_name: Seq<char>, stamp: Seq<char>) -> Seq<char> {
    let base = policy_name + "-"@ + stamp;
    if encode_utf8(base).len() <= RUN_NAME_LIMIT {
        base
    } else {
        let room = RUN_NAME_LIMIT - (1 + encode_utf8(stamp).len());
        let keep = if room < 0 {
            0
        } else if room > policy_name.len() {
            policy_name.len() as int
        } else {
            room
        };
        policy_name.take(keep) + "-"@ + stamp
    }
}

proof fn lemma_utf8_at_least_chars(s: Seq<char>)
    ensures
        s.len() <= encode_utf8(s).len(),
    decreases s.len(),
{
    if s.len() > 0 {
        lemma_utf8_at_least_chars(s.drop_first());
        vstd::utf8::char_is_scalar(s[0]);
    }
}

/// A run name has at most 63 characters, for every stamp of ASCII characters that leaves room for
/// it.
pub proof fn law_run_name_within_limit(policy_name: Seq<char>, stamp: Seq<char>)
    requires
        stamp.len() < RUN_NAME_LIMIT,
        vstd::utf8::is_ascii_chars(stamp),
    ensures
        run_name(policy_name, stamp).len() <= RUN_NAME_LIMIT,
{
    reveal_strlit("-");
    lemma_utf8_at_least_chars(policy_name + "-"@ + stamp);
    vstd::utf8::is_ascii_chars_encode_utf8(stamp);
}

/// A run name ends with the dash and the whole stamp, and a name that fits is not cut.
pub proof fn law_run_name_keeps_stamp(policy_name: Seq<char>, stamp: Seq<char>)
    ensures
        ("-"@ + stamp).is_suffix_of(run_name(policy_name, stamp)),
        encode_utf8(policy_name + "-"@ + stamp).len() <= RUN_NAME_LIMIT ==> run_name(
            policy_name,
            stamp,
        ) == policy_name + "-"@ + stamp,
        exists|n: int|
            0 <= n <= policy_name.len() && run_name(policy_name, stamp) == #[trigger] policy_name.take(
                n,
            ) + "-"@ + stamp,
{
    let tail = "-"@ + stamp;
    let name = run_name(policy_name, stamp);
    if encode_utf8(policy_name + "-"@ + stamp).len() <= RUN_NAME_LIMIT {
        assert(policy_name.take(policy_name.len() as int) =~= policy_name);
        assert(name == policy_name.take(policy_name.len() as int) + "-"@ + stamp);
    }
    assert(name.subrange(name.len() - tail.len(), name.len() as int) =~= tail);
}

/// Whether `c` is a lower-case letter or a digit.
pub open spec fn is_dns_alphanumeric(c: char) -> bool {
    'a' <= c <= 'z' || '0' <= c <= '9'
}

/// Whether `s` may begin a DNS-1123 label: lower-case letters, digits and dashes, of any number,
/// with a letter or digit first.
pub open spec fn begins_dns_label(s: Seq<char>) -> bool {
    &&& s.len() > 0
    &&& is_dns_alphanumeric(s[0])
    &&& forall|i: int|
        0 <= i < s.len() ==> is_dns_alphanumeric(#[trigger] s[i]) || s[i] == '-'
}

/// Whether `s` is a DNS-1123 label: at most 63 lower-case letters, digits and dashes, with a letter
/// or digit at either end.
pub open spec fn is_dns_label(s: Seq<char>) -> bool {
    &&& begins_dns_label(s)
    &&& s.len() <= RUN_NAME_LIMIT
    &&& is_dns_alphanumeric(s.last())
}

/// Whether `s` is fourteen digits, as the stamp of a time in the years 0000 to 9999 is.
pub open spec fn is_stamp(s: Seq<char>) -> bool {
    s.len() == 14 && forall|i: int| 0 <= i < s.len() ==> '0' <= #[trigger] s[i] <= '9'
}

/// The run name of a policy whose name is a DNS label, or would be one if it were shorter, is a DNS
/// label that ends with the stamp.
pub proof fn law_run_name_is_dns_label(policy_name: Seq<char>, stamp: Seq<char>)
    requires
        begins_dns_label(policy_name),
        is_stamp(stamp),
    ensures
        is_dns_label(run_name(policy_name, stamp)),
        run_name(policy_name, stamp).skip(run_name(policy_name, stamp).len() - 14) == stamp,
{
    reveal_strlit("-");
    let name = run_name(policy_name, stamp);
    assert(vstd::utf8::is_ascii_chars(stamp)) by {
        assert forall|i: int| 0 <= i < stamp.len() implies 0 <= #[trigger] stamp[i] < 128 by {
            assert('0' <= stamp[i] <= '9');
        }
    }
    vstd::utf8::is_ascii_chars_encode_utf8(stamp);
    law_run_name_within_limit(policy_name, stamp);
    law_run_name_keeps_stamp(policy_name, stamp);
    assert(encode_utf8(stamp).len() == 14);
    let n = name.len() - 15;
    assert(name =~= policy_name.take(n) + "-"@ + stamp);
    assert(name.skip(name.len() - 14) =~= stamp);
    assert(name.last() == stamp[13]);
    assert forall|i: int| 0 <= i < name.len() implies is_dns_alphanumeric(#[trigger] name[i])
        || name[i] == '-' by {
        if i < n {
            assert(name[i] == policy_name[i]);
        } else if i > n {
            assert(name[i] == stamp[i - n - 1]);
        }
    }
}

/// Run name for a policy and a stamp.
pub fn run_name_for(policy_name: &str, stamp: &str) -> (res: String)
    ensures
        res@ == run_name(policy_name@, stamp@),
{
    let base = String::from_str(policy_name).concat("-").concat(stamp);
    if base.as_str().as_bytes().len() <= RUN_NAME_LIMIT {
        return base;
    }
    let stamp_len: usize = stamp.as_bytes().len();
    let room: usize = if stamp_len >= RUN_NAME_LIMIT {
        0
    } else {
        RUN_NAME_LIMIT - 1 - stamp_len
    };
    let chars = chars_of(policy_name);
    let keep: usize = if room > chars.len() {
        chars.len()
    } else {
        room
    };
    let prefix = string_of(&chars, 0, keep);
    assert(prefix@ =~= policy_name@.take(keep as int));
    prefix.concat("-").concat(stamp)
}

/// DNS-1123-safe run name: `{policy}-{YYYYMMDDHHMMSS}`, truncated to 63 chars.
pub fn backup_run_name(policy_name: &str, at: Timestamp) -> (res: String)
    requires
        at.valid(),
    ensures
        res@ == run_name(policy_name@, compact_text(at.secs, at.nanos)),
        res@.len() <= RUN_NAME_LIMIT,
        begins_dns_label(policy_name@) && FIRST_FOUR_DIGIT_SEC <= at.secs <= LAST_FOUR_DIGIT_SEC
            ==> is_dns_label(res@) && is_stamp(res@.skip(res@.len() - 14)),
{
    let stamp = compact_stamp(at);
    proof {
        assert(vstd::utf8::is_ascii_chars(stamp@)) by {
            assert forall|i: int| 0 <= i < stamp@.len() implies 0 <= #[trigger] stamp@[i] < 128 by {
                assert('+' <= stamp@[i] <= '9');
            }
        }
        law_run_name_within_limit(policy_name@, stamp@);
        if begins_dns_label(policy_name@) && is_stamp(stamp@) {
            law_run_name_is_dns_label(policy_name@, stamp@);
        }
    }
    run_name_for(policy_name, stamp.as_str())
}

/// Whether a scheduled tick is due: a known fire time that has come.
pub open spec fn is_due(now: Timestamp, next_run_at: Option<Timestamp>) -> bool {
    next_run_at is Some && next_run_at->0.le(now)
}

/// Whether a scheduled tick is due.
///
/// - If `next_run_at` is set and `<= now`: due.
/// - If `next_run_at` is unset: not due (the caller seeds `next_run_at`).
pub fn schedule_is_due(now: Timestamp, next_run_at: Option<Timestamp>) -> (res: bool)
    ensures
        res == is_due(now, next_run_at),
{
    match next_run_at {
        Some(next) => next.at_or_before(now),
        None => false,
    }
}

/// The last fire time at or before `now` on the way from `cursor` through one fire time after the
/// other, or `last` where there is none; or why there is no further fire time.
pub open spec fn last_tick(
    expr: Seq<char>,
    cursor: Timestamp,
    now: Timestamp,
    last: Option<Timestamp>,
) -> Result<Option<Timestamp>, Seq<char>>
    decreases now.secs - cursor.secs, u32::MAX - cursor.nanos,
{
    match next_run(expr, cursor) {
        Err(m) => Err(m),
        Ok((secs, nanos)) => {
            let t = Timestamp { secs, nanos };
            if t.le(now) {
                last_tick(expr, t, now, Some(t))
            } else {
                Ok(last)
            }
        },
    }
}

/// Whether the schedule does not fire after `t` up to `now`.
pub open spec fn no_tick_until(expr: Seq<char>, t: Timestamp, now: Timestamp) -> bool {
    next_run(expr, t) matches Ok((secs, nanos)) && !(Timestamp { secs, nanos }).le(now)
}

/// Advances past every fire time `<= now` starting after `from`. Returns the last tick at or
/// before `now`, or `None` if there is none.
pub fn last_tick_at_or_before(expr: &str, from: Timestamp, now: Timestamp) -> (res: Result<
    Option<Timestamp>,
    String,
>)
    requires
        from.valid(),
    ensures
        match res {
            Ok(last) => {
                &&& last_tick(expr@, from, now, None) == Ok::<Option<Timestamp>, Seq<char>>(last)
                &&& match last {
                    Some(t) => t.valid() && t.le(now) && !t.le(from) && no_tick_until(
                        expr@,
                        t,
                        now,
                    ),
                    None => no_tick_until(expr@, from, now),
                }
            },
            Err(m) => last_tick(expr@, from, now, None) == Err::<Option<Timestamp>, Seq<char>>(m@),
        },
{
    let mut cursor = from;
    let mut last: Option<Timestamp> = None;
    loop
        invariant
            cursor.valid(),
            last_tick(expr@, cursor, now, last) == last_tick(expr@, from, now, None),
            match last {
                Some(t) => t == cursor && t.le(now) && !t.le(from),
                None => cursor == from,
            },
        decreases now.secs - cursor.secs, u32::MAX - cursor.nanos,
    {
        match next_run_after(expr, cursor) {
            Ok(next) => {
                if !next.at_or_before(now) {
                    return Ok(last);
                }
                last = Some(next);
                cursor = next;
            },
            Err(m) => {
                return Err(m);
            },
        }
    }
}

/// The last tick is the last one: it lies after the start and not after `now`, and the schedule
/// does not fire again between it and `now`; where there is none, it does not fire between the
/// start and `now`.
pub proof fn law_last_tick_is_last(expr: Seq<char>, from: Timestamp, now: Timestamp)
    requires
        last_tick(expr, from, now, None) is Ok,
    ensures
        match last_tick(expr, from, now, None)->Ok_0 {
            Some(t) => t.le(now) && !t.le(from) && no_tick_until(expr, t, now),
            None => no_tick_until(expr, from, now),
        },
{
    lemma_last_tick(expr, from, now, None);
}

proof fn lemma_last_tick(
    expr: Seq<char>,
    cursor: Timestamp,
    now: Timestamp,
    last: Option<Timestamp>,
)
    requires
        last_tick(expr, cursor, now, last) is Ok,
    ensures
        last_tick(expr, cursor, now, last)->Ok_0 != last ==> (last_tick(
            expr,
            cursor,
            now,
            last,
        )->Ok_0 matches Some(t) && t.le(now) && !t.le(cursor) && no_tick_until(expr, t, now)),
        last_tick(expr, cursor, now, last)->Ok_0 == last ==> no_tick_until(expr, cursor, now) || (
        last matches Some(t) && t.le(now) && !t.le(cursor) && no_tick_until(expr, t, now)),
    decreases now.secs - cursor.secs, u32::MAX - cursor.nanos,
{
    if let Ok((secs, nanos)) = next_run(expr, cursor) {
        let t = Timestamp { secs, nanos };
        if t.le(now) {
            lemma_last_tick(expr, t, now, Some(t));
        }
    }
}

/// A tick that is due stays due as time goes on.
pub proof fn law_due_is_monotone(now: Timestamp, later: Timestamp, next_run_at: Option<Timestamp>)
    requires
        now.le(later),
        is_due(now, next_run_at),
    ensures
        is_due(later, next_run_at),
{
}

/// The normal form of a schedule is its own normal form.
pub proof fn law_normalize_is_idempotent(expr: Seq<char>)
    requires
        normalized(expr) is Ok,
    ensures
        normalized(normalized(expr)->Ok_0) == normalized(expr),
{
    let fields = words(trim(expr));
    lemma_words_are_words(trim(expr));
    reveal_strlit("0 ");
    reveal_strlit(" ");
    reveal_strlit("0");
    if fields.len() == 5 {
        let all = seq!["0"@] + fields;
        assert(is_words(all)) by {
            assert forall|i: int| 0 <= i < all.len() implies is_word(#[trigger] all[i]) by {
                if i > 0 {
                    assert(all[i] == fields[i - 1]);
                }
            }
        }
        lemma_joined_front(fields, "0"@, " "@);
        assert("0 "@ =~= "0"@ + " "@);
        lemma_words_of_joined(all);
    } else {
        lemma_words_of_joined(fields);
    }
}

/// Whether `w` is a non-empty text without white space.
pub open spec fn is_word(w: Seq<char>) -> bool {
    w.len() > 0 && forall|i: int| 0 <= i < w.len() ==> !crate::text::is_space(#[trigger] w[i])
}

/// Whether every part is a word.
pub open spec fn is_words(ws: Seq<Seq<char>>) -> bool {
    forall|i: int| 0 <= i < ws.len() ==> is_word(#[trigger] ws[i])
}

proof fn lemma_word_len_word(s: Seq<char>)
    ensures
        crate::text::word_len(s) <= s.len(),
        forall|i: int|
            0 <= i < crate::text::word_len(s) ==> !crate::text::is_space(#[trigger] s[i]),
        crate::text::word_len(s) < s.len() ==> crate::text::is_space(
            s[crate::text::word_len(s) as int],
        ),
    decreases s.len(),
{
    if s.len() > 0 && !crate::text::is_space(s[0]) {
        let r = s.skip(1);
        lemma_word_len_word(r);
        assert forall|i: int| 0 <= i < crate::text::word_len(s) implies !crate::text::is_space(
            #[trigger] s[i],
        ) by {
            if i > 0 {
                assert(s[i] == r[i - 1]);
            }
        }
    }
}

proof fn lemma_words_are_words(s: Seq<char>)
    ensures
        is_words(words(s)),
    decreases s.len(),
{
    let t = crate::text::trim_start(s);
    crate::text::lemma_trim_start_suffix(s);
    if t.len() > 0 {
        lemma_word_len_word(t);
        let n = crate::text::word_len(t) as int;
        if n > 0 {
            lemma_words_are_words(t.skip(n));
            let rest = words(t.skip(n));
            let all = words(s);
            assert forall|i: int| 0 <= i < all.len() implies is_word(#[trigger] all[i]) by {
                if i > 0 {
                    assert(all[i] == rest[i - 1]);
                } else {
                    assert forall|j: int| 0 <= j < all[0].len() implies !crate::text::is_space(
                        #[trigger] all[0][j],
                    ) by {
                        assert(all[0][j] == t[j]);
                    }
                }
            }
        }
    }
}

pub(crate) proof fn lemma_joined_front(parts: Seq<Seq<char>>, first: Seq<char>, sep: Seq<char>)
    requires
        parts.len() > 0,
    ensures
        joined(seq![first] + parts, sep) == first + sep + joined(parts, sep),
    decreases parts.len(),
{
    let all = seq![first] + parts;
    if parts.len() == 1 {
        assert(all.drop_last() =~= seq![first]);
        assert(joined(seq![first], sep) == first);
        assert(all.last() == parts[0]);
    } else {
        lemma_joined_front(parts.drop_last(), first, sep);
        assert(all.drop_last() =~= seq![first] + parts.drop_last());
        assert(joined(all, sep) =~= first + sep + joined(parts, sep));
    }
}

proof fn lemma_words_of_joined(ws: Seq<Seq<char>>)
    requires
        is_words(ws),
        ws.len() > 0,
    ensures
        words(trim(joined(ws, " "@))) == ws,
        trim(joined(ws, " "@)).len() > 0,
{
    reveal_strlit(" ");
    let s = joined(ws, " "@);
    lemma_joined_ends(ws);
    assert(trim(s) == s) by {
        assert(crate::text::trim_start(s) == s);
        assert(crate::text::trim_end(s) == s);
    }
    lemma_words_of_untrimmed(ws);
}

proof fn lemma_joined_ends(ws: Seq<Seq<char>>)
    requires
        is_words(ws),
        ws.len() > 0,
    ensures
        joined(ws, " "@).len() > 0,
        !crate::text::is_space(joined(ws, " "@)[0]),
        !crate::text::is_space(joined(ws, " "@).last()),
    decreases ws.len(),
{
    reveal_strlit(" ");
    let s = joined(ws, " "@);
    if ws.len() == 1 {
        assert(is_word(ws[0]));
    } else {
        let init = ws.drop_last();
        assert forall|i: int| 0 <= i < init.len() implies is_word(#[trigger] init[i]) by {
            assert(init[i] == ws[i]);
        }
        lemma_joined_ends(init);
        assert(is_word(ws[ws.len() - 1]));
        assert(s[0] == joined(init, " "@)[0]);
        let w = ws.last();
        assert(s.last() == w.last());
    }
}

proof fn lemma_words_of_untrimmed(ws: Seq<Seq<char>>)
    requires
        is_words(ws),
    ensures
        words(joined(ws, " "@)) == ws,
    decreases ws.len(),
{
    reveal_strlit(" ");
    if ws.len() == 0 {
        assert(words(joined(ws, " "@)) =~= ws);
    } else if ws.len() == 1 {
        assert(is_word(ws[0]));
        lemma_words_snoc(seq![], ws[0]);
    } else {
        let init = ws.drop_last();
        assert forall|i: int| 0 <= i < init.len() implies is_word(#[trigger] init[i]) by {
            assert(init[i] == ws[i]);
        }
        lemma_words_of_untrimmed(init);
        assert(is_word(ws[ws.len() - 1]));
        lemma_words_snoc(joined(init, " "@), ws.last());
        assert(init.push(ws.last()) =~= ws);
    }
}

/// Splitting sees a word after a blank as one more word.
proof fn lemma_words_snoc(s: Seq<char>, w: Seq<char>)
    requires
        is_word(w),
    ensures
        words(s + " "@ + w) == words(s).push(w),
        s.len() == 0 ==> words(w) == seq![w],
    decreases s.len(),
{
    reveal_strlit(" ");
    let t = crate::text::trim_start(s);
    let all = s + " "@ + w;
    crate::text::lemma_trim_start_suffix(s);
    lemma_words_single(w);
    if t.len() == 0 {
        let k = s.len() as int + 1;
        assert forall|i: int| 0 <= i < k implies crate::text::is_space(#[trigger] all[i]) by {
            if i < s.len() {
                assert(all[i] == s[i]);
            }
        }
        assert(all[k] == w[0]);
        crate::text::lemma_trim_start_at(all, k);
        assert(all.skip(k) =~= w);
        assert(words(s) =~= seq![]);
        crate::text::lemma_trim_start_at(w, 0);
        assert(w.skip(0) =~= w);
        assert(words(all) =~= words(w));
        assert(words(all) =~= words(s).push(w));
    } else {
        let k = s.len() - t.len();
        assert forall|i: int| 0 <= i < k implies crate::text::is_space(#[trigger] all[i]) by {
            assert(all[i] == s[i]);
        }
        assert(all[k] == t[0]);
        crate::text::lemma_trim_start_at(all, k);
        let u = t + " "@ + w;
        assert(all.skip(k) =~= u);
        lemma_word_len_word(t);
        let n = crate::text::word_len(t) as int;
        if n == 0 {
            assert(crate::text::is_space(t[0]));
        }
        assert forall|i: int| 0 <= i < n implies !crate::text::is_space(#[trigger] u[i]) by {
            assert(u[i] == t[i]);
        }
        assert(crate::text::is_space(u[n]));
        crate::text::lemma_word_len_at(u, n);
        assert(u.take(n) =~= t.take(n));
        assert(u.skip(n) =~= t.skip(n) + " "@ + w);
        lemma_words_snoc(t.skip(n), w);
        assert(words(all) =~= seq![t.take(n)] + words(t.skip(n)).push(w));
        assert(words(s).push(w) =~= seq![t.take(n)] + words(t.skip(n)).push(w));
    }
}

proof fn lemma_words_single(w: Seq<char>)
    requires
        is_word(w),
    ensures
        words(w) == seq![w],
{
    assert(!crate::text::is_space(w[0]));
    crate::text::lemma_word_len_at(w, w.len() as int);
    assert(w.take(w.len() as int) =~= w);
    assert(w.skip(w.len() as int).len() == 0);
    assert(words(w.skip(w.len() as int)) =~= seq![]);
    assert(words(w) =~= seq![w]);
}

/// The words of a text that was put together from words with blanks between them are those words.
pub proof fn law_fields_are_the_words(ws: Seq<Seq<char>>)
    requires
        is_words(ws),
        ws.len() > 0,
    ensures
        words(trim(joined(ws, " "@))) == ws,
        !crate::text::blank(joined(ws, " "@)),
{
    lemma_words_of_joined(ws);
    crate::text::lemma_trim_empty_iff_blank(joined(ws, " "@));
}

/// Of a crontab in five fields the cron parser gets six: zero seconds, then minute, hour, day of
/// the month and month as they were written, in order, and then the day of the week in its own
/// numbers. Where that names no number, it is the normal form of what was written.
pub proof fn law_crontab_fields_are_handed_on(ws: Seq<Seq<char>>)
    requires
        is_words(ws),
        ws.len() == 5,
    ensures
        ({
            let expr = joined(ws, " "@);
            &&& cron_form(expr) is Ok
            &&& words(trim(cron_form(expr)->Ok_0)) == seq![
                "0"@,
                ws[0],
                ws[1],
                ws[2],
                ws[3],
                cron_week(ws[4]),
            ]
            &&& (forall|i: int| 0 <= i < ws[4].len() ==> !('0' <= #[trigger] ws[4][i] <= '9'))
                ==> cron_form(expr) == normalized(expr)
        }),
{
    let expr = joined(ws, " "@);
    let week = cron_week(ws[4]);
    law_fields_are_the_words(ws);
    reveal_strlit("0 ");
    reveal_strlit(" ");
    reveal_strlit("0");
    let fields = ws.update(4, week);
    let all = seq!["0"@] + fields;
    lemma_week_made_of(ws[4]);
    assert(is_word(ws[4]));
    assert forall|i: int| 0 <= i < week.len() implies !crate::text::is_space(#[trigger] week[i]) by {
        if ws[4].contains(week[i]) {
            let k = choose|k: int| 0 <= k < ws[4].len() && ws[4][k] == week[i];
            assert(!crate::text::is_space(ws[4][k]));
        }
    }
    assert(is_words(all)) by {
        assert forall|i: int| 0 <= i < all.len() implies is_word(#[trigger] all[i]) by {
            if 0 < i < 5 {
                assert(all[i] == ws[i - 1]);
            }
        }
    }
    lemma_joined_front(fields, "0"@, " "@);
    assert("0 "@ =~= "0"@ + " "@);
    lemma_words_of_joined(all);
    assert(all =~= seq!["0"@, ws[0], ws[1], ws[2], ws[3], week]);
    if forall|i: int| 0 <= i < ws[4].len() ==> !('0' <= #[trigger] ws[4][i] <= '9') {
        law_named_days_stand_for_themselves(ws[4]);
        assert(fields =~= ws);
    }
}

/// Six or seven fields are handed on as they were written; five get zero seconds in the normal
/// form; any other number of fields is refused, and so is a blank text.
pub proof fn law_other_fields_are_handed_on(ws: Seq<Seq<char>>)
    requires
        is_words(ws),
        ws.len() > 0,
    ensures
        ({
            let expr = joined(ws, " "@);
            &&& ws.len() == 6 || ws.len() == 7 ==> cron_form(expr) == Ok::<Seq<char>, Seq<char>>(
                expr,
            ) && normalized(expr) == Ok::<Seq<char>, Seq<char>>(expr)
            &&& ws.len() == 5 ==> normalized(expr) == Ok::<Seq<char>, Seq<char>>("0 "@ + expr)
            &&& cron_form(expr) is Ok <==> 5 <= ws.len() <= 7
            &&& normalized(expr) is Ok <==> 5 <= ws.len() <= 7
        }),
{
    law_fields_are_the_words(ws);
}

/// A blank schedule is refused.
pub proof fn law_blank_schedule_is_refused(expr: Seq<char>)
    requires
        crate::text::blank(expr),
    ensures
        cron_form(expr) == Err::<Seq<char>, Seq<char>>("schedule must not be empty"@),
        normalized(expr) == Err::<Seq<char>, Seq<char>>("schedule must not be empty"@),
{
    crate::text::lemma_trim_empty_iff_blank(expr);
}

/// A schedule is valid exactly where the cron parser takes the expression that it gets; it is then
/// that expression, and else the parser's error is reported.
pub proof fn law_schedule_is_valid_where_cron_takes_it(expr: Seq<char>)
    ensures
        match cron_form(expr) {
            Ok(n) => match cron_parse(n) {
                Ok(_) => parsed_schedule(expr, parse_of(expr)) == Ok::<Seq<char>, Seq<char>>(n),
                Err(m) => parsed_schedule(expr, parse_of(expr)) matches Err(t) && m.is_suffix_of(t),
            },
            Err(m) => parsed_schedule(expr, parse_of(expr)) == Err::<Seq<char>, Seq<char>>(m),
        },
{
    if let (Ok(n), Err(m)) = (cron_form(expr), parse_of(expr)) {
        let t = "invalid schedule '"@ + expr + "': "@ + m;
        assert(t.subrange(t.len() - m.len(), t.len() as int) =~= m);
    }
}

/// The next run is the next fire time that cron gives for the expression it gets, and lies after
/// the given time; an invalid schedule has none, and neither has one that does not fire again.
pub proof fn law_next_run_is_the_next_fire_time(expr: Seq<char>, after: Timestamp)
    ensures
        match next_run(expr, after) {
            Ok((secs, nanos)) => {
                &&& cron_form(expr) is Ok
                &&& cron_parse(cron_form(expr)->Ok_0) is Ok
                &&& cron_next(cron_form(expr)->Ok_0, after.secs, after.nanos) == Some((secs, nanos))
                &&& !(Timestamp { secs, nanos }).le(after)
            },
            Err(_) => cron_form(expr) is Err || cron_parse(cron_form(expr)->Ok_0) is Err
                || after.secs >= MAX_SECS || match cron_next(
                cron_form(expr)->Ok_0,
                after.secs,
                after.nanos,
            ) {
                Some((secs, nanos)) => (Timestamp { secs, nanos }).le(after),
                None => true,
            },
        },
{
}

/// A tick is due exactly when its time is known and has come.
pub proof fn law_tick_is_due_when_its_time_has_come(now: Timestamp, next: Timestamp)
    ensures
        !is_due(now, None),
        is_due(now, Some(next)) <==> next.secs < now.secs || (next.secs == now.secs && next.nanos
            <= now.nanos),
        is_due(next, Some(next)),
{
}

/// A run name that is cut uses all the room that there is.
pub proof fn law_cut_run_name_uses_the_room(policy_name: Seq<char>, stamp: Seq<char>)
    requires
        vstd::utf8::is_ascii_chars(policy_name),
        vstd::utf8::is_ascii_chars(stamp),
        stamp.len() < RUN_NAME_LIMIT,
        policy_name.len() + 1 + stamp.len() > 63,
    ensures
        run_name(policy_name, stamp).len() == 63,
        run_name(policy_name, stamp) == policy_name.take(62 - stamp.len()) + "-"@ + stamp,
{
    reveal_strlit("-");
    let base = policy_name + "-"@ + stamp;
    lemma_utf8_at_least_chars(base);
    vstd::utf8::is_ascii_chars_encode_utf8(stamp);
}

/// A refused number of fields is told.
pub proof fn law_refused_field_count_is_told(n: nat)
    ensures
        ("schedule must have 5 or 6 fields (got "@ + decimal(n)).is_prefix_of(field_count_text(n)),
{
    let t = field_count_text(n);
    let head = "schedule must have 5 or 6 fields (got "@ + decimal(n);
    assert(t.subrange(0, head.len() as int) =~= head);
}

} // verus!
