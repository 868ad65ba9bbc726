//! Days of the week as a crontab numbers them, from Sunday as 0 or 7, in the numbers that the cron
//! parser takes, from Sunday as 1.
use crate::schedule::lemma_joined_front;
use crate::search::{
    law_split_undoes_concatenation, lemma_first_at, split_first, split_once,
};
use crate::text::{chars_of, decimal, decimal_text, join, joined};
use vstd::prelude::*;

verus! {

/// The day that a crontab number stands for: a digit up to 7, behind any zeros.
pub open spec fn day_value(s: Seq<char>) -> Option<nat> {
    if s.len() > 0 && '0' <= s.last() <= '7' && forall|i: int|
        0 <= i < s.len() - 1 ==> #[trigger] s[i] == '0' {
        Some((s.last() as nat - '0' as nat) as nat)
    } else {
        None
    }
}

/// The day that a crontab number stands for: a digit up to 7, behind any zeros.
pub fn read_day(s: &str) -> (res: Option<u8>)
    ensures
        match res {
            Some(d) => day_value(s@) == Some(d as nat) && d <= 7,
            None => day_value(s@) is None,
        },
{
    let chars = chars_of(s);
    let n: usize = chars.len();
    if n == 0 {
        return None;
    }
    let mut i: usize = 0;
    while i < n - 1
        invariant
            n == chars@.len(),
            n > 0,
            i <= n - 1,
            chars@ == s@,
            forall|k: int| 0 <= k < i ==> #[trigger] s@[k] == '0',
        decreases n - i,
    {
        if chars[i] != '0' {
            assert(s@[i as int] != '0');
            return None;
        }
        i += 1;
    }
    let c = chars[n - 1];
    if '0' <= c && c <= '7' {
        Some((c as u32 - '0' as u32) as u8)
    } else {
        None
    }
}

/// The number that the cron parser takes for a day of the crontab week.
pub open spec fn cron_day(day: nat) -> nat {
    day % 7 + 1
}

/// How many days there are from `from` to `to`.
pub open spec fn days_left(from: nat, to: nat) -> int {
    if from > to {
        0
    } else {
        to + 1 - from
    }
}

/// The days from `from` to `to`, `step` apart, as the cron parser takes them.
pub open spec fn day_list(from: nat, to: nat, step: nat) -> Seq<Seq<char>>
    decreases days_left(from, to),
{
    if from > to || step == 0 {
        seq![]
    } else {
        seq![decimal(cron_day(from))] + day_list(from + step, to, step)
    }
}

fn list_days(from: u8, to: u8, step: u8) -> (res: String)
    requires
        from <= 7,
        to <= 7,
        1 <= step <= 7,
    ensures
        res@ == joined(day_list(from as nat, to as nat, step as nat), ","@),
{
    let ghost all = day_list(from as nat, to as nat, step as nat);
    let mut days: Vec<String> = Vec::new();
    let mut day: u8 = from;
    assert(days.deep_view() + all =~= all);
    while day <= to
        invariant
            to <= 7,
            1 <= step <= 7,
            day <= 14,
            days.deep_view() + day_list(day as nat, to as nat, step as nat) == all,
        decreases 15 - day,
    {
        let ghost before = days.deep_view();
        days.push(decimal_text((day % 7 + 1) as u64));
        proof {
            let rest = day_list((day + step) as nat, to as nat, step as nat);
            assert(days.deep_view() =~= before.push(decimal(cron_day(day as nat))));
            assert(days.deep_view() + rest =~= before + (seq![decimal(cron_day(day as nat))]
                + rest));
        }
        day += step;
    }
    assert(days.deep_view() =~= all);
    join(&days, ",")
}

/// The first and the last day of a crontab range `a-b`; none where it is no such range.
pub open spec fn day_range(s: Seq<char>) -> Option<(nat, nat)> {
    match split_first(s, "-"@) {
        Some((a, b)) => match (day_value(a), day_value(b)) {
            (Some(x), Some(y)) if x <= y => Some((x, y)),
            _ => None,
        },
        None => None,
    }
}

fn read_range(s: &str) -> (res: Option<(u8, u8)>)
    ensures
        match res {
            Some(r) => day_range(s@) == Some((r.0 as nat, r.1 as nat)) && r.0 <= r.1 <= 7,
            None => day_range(s@) is None,
        },
{
    if let Some((a, b)) = split_once(s, "-") {
        if let (Some(x), Some(y)) = (read_day(a.as_str()), read_day(b.as_str())) {
            if x <= y {
                return Some((x, y));
            }
        }
    }
    None
}

/// The last day of an entry that names its first day and a step: the end of the week.
pub open spec fn week_end(day: nat) -> nat {
    if day <= 6 {
        6
    } else {
        day
    }
}

/// One entry of the day-of-week field as the cron parser takes it: a number, a range, or either
/// with a step is written out day by day; anything else stands for itself.
pub open spec fn cron_entry(entry: Seq<char>) -> Seq<char> {
    match split_first(entry, "/"@) {
        None => match (day_range(entry), day_value(entry)) {
            (Some((a, b)), _) => joined(day_list(a, b, 1), ","@),
            (None, Some(a)) => decimal(cron_day(a)),
            (None, None) => entry,
        },
        Some((base, step)) => match day_value(step) {
            Some(s) if s > 0 => match (day_range(base), day_value(base)) {
                (Some((a, b)), _) => joined(day_list(a, b, s), ","@),
                (None, Some(a)) => joined(day_list(a, week_end(a), s), ","@),
                (None, None) => entry,
            },
            _ => entry,
        },
    }
}

fn translate_entry(entry: &str) -> (res: String)
    ensures
        res@ == cron_entry(entry@),
{
    match split_once(entry, "/") {
        None => {
            if let Some((a, b)) = read_range(entry) {
                return list_days(a, b, 1);
            }
            if let Some(a) = read_day(entry) {
                return decimal_text((a % 7 + 1) as u64);
            }
        },
        Some((base, step)) => {
            if let Some(s) = read_day(step.as_str()) {
                if s > 0 {
                    if let Some((a, b)) = read_range(base.as_str()) {
                        return list_days(a, b, s);
                    }
                    if let Some(a) = read_day(base.as_str()) {
                        let end: u8 = if a <= 6 {
                            6
                        } else {
                            a
                        };
                        return list_days(a, end, s);
                    }
                }
            }
        },
    }
    String::from_str(entry)
}

/// A day-of-week field as the cron parser takes it, entry by entry.
pub open spec fn cron_week(field: Seq<char>) -> Seq<char>
    decreases field.len(),
{
    match split_first(field, ","@) {
        None => cron_entry(field),
        Some((entry, rest)) => {
            proof {
                reveal_strlit(",");
                lemma_first_at(field, ","@, 0);
            }
            cron_entry(entry) + ","@ + cron_week(rest)
        },
    }
}

/// A day-of-week field of a crontab, in the numbers that the cron parser takes.
pub fn translate_week(field: &str) -> (res: String)
    ensures
        res@ == cron_week(field@),
    decreases field@.len(),
{
    match split_once(field, ",") {
        None => translate_entry(field),
        Some((entry, rest)) => {
            proof {
                reveal_strlit(",");
                lemma_first_at(field@, ","@, 0);
            }
            translate_entry(entry.as_str()).concat(",").concat(translate_week(rest.as_str()).as_str())
        },
    }
}

/// A single day is counted from Sunday, which is 0 as well as 7; the cron parser gets the next
/// number, and Sunday as 1.
pub proof fn law_crontab_days_start_on_sunday(day: nat)
    requires
        day <= 7,
    ensures
        cron_week(decimal(day)) == decimal(if day == 7 {
            1
        } else {
            day + 1
        }),
{
    let s = decimal(day);
    reveal_strlit(",");
    reveal_strlit("/");
    reveal_strlit("-");
    lemma_no_mark(s, ","@);
    lemma_no_mark(s, "/"@);
    lemma_no_mark(s, "-"@);
    assert(day_value(s) == Some(day));
}

proof fn lemma_no_mark(s: Seq<char>, mark: Seq<char>)
    requires
        mark.len() == 1,
        forall|i: int| 0 <= i < s.len() ==> s[i] != mark[0],
    ensures
        split_first(s, mark) is None,
{
    lemma_first_at(s, mark, 0);
    if let Some(i) = crate::search::first_at(s, mark, 0) {
        assert(s.subrange(i as int, (i + 1) as int)[0] == s[i as int]);
    }
}

/// A field without digits, such as `*` or a list of day names, is handed on as it is.
pub proof fn law_named_days_stand_for_themselves(field: Seq<char>)
    requires
        forall|i: int| 0 <= i < field.len() ==> !('0' <= #[trigger] field[i] <= '9'),
    ensures
        cron_week(field) == field,
    decreases field.len(),
{
    reveal_strlit(",");
    reveal_strlit("/");
    reveal_strlit("-");
    lemma_first_at(field, ","@, 0);
    lemma_first_at(field, "/"@, 0);
    lemma_first_at(field, "-"@, 0);
    match split_first(field, ","@) {
        None => {
            lemma_entry_without_digits(field);
        },
        Some((entry, rest)) => {
            lemma_entry_without_digits(entry);
            law_named_days_stand_for_themselves(rest);
            let i = entry.len() as int;
            assert(field.subrange(i, i + 1) == ","@);
            assert(entry + ","@ + rest =~= field);
        },
    }
}

proof fn lemma_entry_without_digits(entry: Seq<char>)
    requires
        forall|i: int| 0 <= i < entry.len() ==> !('0' <= #[trigger] entry[i] <= '9'),
    ensures
        cron_entry(entry) == entry,
{
    reveal_strlit("/");
    reveal_strlit("-");
    lemma_first_at(entry, "/"@, 0);
    lemma_no_day(entry);
    if let Some((base, step)) = split_first(entry, "/"@) {
        lemma_no_day(step);
    } else {
        lemma_first_at(entry, "-"@, 0);
        if let Some((a, b)) = split_first(entry, "-"@) {
            lemma_no_day(a);
        }
    }
}

proof fn lemma_no_day(s: Seq<char>)
    requires
        forall|i: int| 0 <= i < s.len() ==> !('0' <= #[trigger] s[i] <= '9'),
    ensures
        day_value(s) is None,
{
    if s.len() > 0 {
        assert(!('0' <= s[s.len() - 1] <= '9'));
    }
}

/// The entries of a list are taken one by one.
pub proof fn law_entries_are_taken_one_by_one(entry: Seq<char>, rest: Seq<char>)
    requires
        forall|i: int| 0 <= i < entry.len() ==> #[trigger] entry[i] != ',',
    ensures
        cron_week(entry + ","@ + rest) == cron_week(entry) + ","@ + cron_week(rest),
{
    reveal_strlit(",");
    law_split_undoes_concatenation(entry, ","@, rest);
    lemma_no_mark(entry, ","@);
}

/// The days from `from` to `to`, `step` apart, as a crontab writes them.
pub open spec fn stepped_range(from: nat, to: nat, step: nat) -> Seq<char> {
    decimal(from) + "-"@ + decimal(to) + "/"@ + decimal(step)
}

proof fn lemma_stepped_range(from: nat, to: nat, step: nat)
    requires
        from <= to <= 7,
        1 <= step <= 7,
    ensures
        cron_week(stepped_range(from, to, step)) == joined(day_list(from, to, step), ","@),
{
    reveal_strlit(",");
    reveal_strlit("/");
    reveal_strlit("-");
    let base = decimal(from) + "-"@ + decimal(to);
    let s = base + "/"@ + decimal(step);
    assert(s =~= stepped_range(from, to, step));
    lemma_no_mark(s, ","@);
    law_split_undoes_concatenation(base, "/"@, decimal(step));
    law_split_undoes_concatenation(decimal(from), "-"@, decimal(to));
    assert(day_value(decimal(step)) == Some(step));
    assert(day_value(decimal(from)) == Some(from));
    assert(day_value(decimal(to)) == Some(to));
}

/// A range is walked day by day: it stands for its first day, counted from Sunday, and then for the
/// range that starts a step later, while that has days. The days number from 1 for Sunday, which
/// comes first as 0 and last as 7.
pub proof fn law_ranges_are_walked_day_by_day(from: nat, to: nat, step: nat)
    requires
        from <= to <= 7,
        1 <= step <= 7,
    ensures
        ({
            let first = decimal(
                if from == 7 {
                    1
                } else {
                    from + 1
                },
            );
            cron_week(stepped_range(from, to, step)) == (if from + step <= to {
                first + ","@ + cron_week(stepped_range(from + step, to, step))
            } else {
                first
            })
        }),
{
    lemma_stepped_range(from, to, step);
    let first = decimal(cron_day(from));
    let rest = day_list(from + step, to, step);
    if from + step <= to {
        lemma_stepped_range(from + step, to, step);
        lemma_joined_front(rest, first, ","@);
    } else {
        assert(seq![first] + rest =~= seq![first]);
    }
}

/// A range without a step takes every day; a day with a step goes on to the end of the week.
pub proof fn law_ranges_without_step_or_end(from: nat, to: nat, step: nat)
    requires
        from <= to <= 7,
        1 <= step <= 7,
    ensures
        cron_week(decimal(from) + "-"@ + decimal(to)) == cron_week(stepped_range(from, to, 1)),
        from <= 6 ==> cron_week(decimal(from) + "/"@ + decimal(step)) == cron_week(
            stepped_range(from, 6, step),
        ),
{
    reveal_strlit(",");
    reveal_strlit("/");
    reveal_strlit("-");
    lemma_stepped_range(from, to, 1);
    let range = decimal(from) + "-"@ + decimal(to);
    lemma_no_mark(range, ","@);
    lemma_no_mark(range, "/"@);
    law_split_undoes_concatenation(decimal(from), "-"@, decimal(to));
    assert(day_value(decimal(from)) == Some(from));
    assert(day_value(decimal(to)) == Some(to));
    if from <= 6 {
        lemma_stepped_range(from, 6, step);
        let open = decimal(from) + "/"@ + decimal(step);
        lemma_no_mark(open, ","@);
        law_split_undoes_concatenation(decimal(from), "/"@, decimal(step));
        lemma_no_mark(decimal(from), "-"@);
        assert(day_value(decimal(step)) == Some(step));
    }
}

/// Whether `s` is made of digits, commas and characters of `t`.
spec fn made_of(s: Seq<char>, t: Seq<char>) -> bool {
    forall|i: int|
        0 <= i < s.len() ==> ('0' <= #[trigger] s[i] <= '9') || s[i] == ',' || t.contains(s[i])
}

proof fn lemma_joined_made_of(parts: Seq<Seq<char>>, t: Seq<char>)
    requires
        forall|i: int|
            0 <= i < parts.len() ==> made_of(#[trigger] parts[i], t) && parts[i].len() > 0,
    ensures
        made_of(joined(parts, ","@), t),
        parts.len() > 0 ==> joined(parts, ","@).len() > 0,
    decreases parts.len(),
{
    reveal_strlit(",");
    if parts.len() > 0 {
        let front = parts.drop_last();
        assert forall|i: int| 0 <= i < front.len() implies made_of(#[trigger] front[i], t)
            && front[i].len() > 0 by {
            assert(front[i] == parts[i]);
        }
        lemma_joined_made_of(front, t);
        assert(made_of(parts[parts.len() - 1], t));
        if parts.len() > 1 {
            let a = joined(front, ","@);
            let s = joined(parts, ","@);
            assert forall|i: int| 0 <= i < s.len() implies ('0' <= #[trigger] s[i] <= '9') || s[i]
                == ',' || t.contains(s[i]) by {
                if i < a.len() {
                    assert(s[i] == a[i]);
                } else if i > a.len() {
                    assert(s[i] == parts.last()[i - a.len() - 1]);
                }
            }
        }
    }
}

proof fn lemma_day_list_made_of(from: nat, to: nat, step: nat, t: Seq<char>)
    ensures
        forall|i: int|
            0 <= i < day_list(from, to, step).len() ==> made_of(
                #[trigger] day_list(from, to, step)[i],
                t,
            ) && day_list(from, to, step)[i].len() > 0,
        from <= to && step > 0 ==> day_list(from, to, step).len() > 0,
    decreases days_left(from, to),
{
    if from <= to && step > 0 {
        lemma_day_list_made_of(from + step, to, step, t);
        let rest = day_list(from + step, to, step);
        let all = day_list(from, to, step);
        assert forall|i: int| 0 <= i < all.len() implies made_of(#[trigger] all[i], t)
            && all[i].len() > 0 by {
            if i > 0 {
                assert(all[i] == rest[i - 1]);
            }
        }
    }
}

/// A translated field holds digits, commas and what the field held, and is never empty where the
/// field is not.
pub(crate) proof fn lemma_week_made_of(field: Seq<char>)
    ensures
        forall|i: int|
            0 <= i < cron_week(field).len() ==> ('0' <= #[trigger] cron_week(field)[i] <= '9')
                || cron_week(field)[i] == ',' || field.contains(cron_week(field)[i]),
        field.len() > 0 ==> cron_week(field).len() > 0,
    decreases field.len(),
{
    reveal_strlit(",");
    lemma_first_at(field, ","@, 0);
    match split_first(field, ","@) {
        None => {
            lemma_entry_made_of(field);
        },
        Some((entry, rest)) => {
            lemma_entry_made_of(entry);
            lemma_week_made_of(rest);
            let a = cron_entry(entry);
            let b = cron_week(rest);
            let s = cron_week(field);
            assert forall|i: int| 0 <= i < s.len() implies ('0' <= #[trigger] s[i] <= '9') || s[i]
                == ',' || field.contains(s[i]) by {
                if i < a.len() {
                    assert(s[i] == a[i]);
                    if entry.contains(a[i]) {
                        let k = choose|k: int| 0 <= k < entry.len() && entry[k] == a[i];
                        assert(field[k] == a[i]);
                    }
                } else if i > a.len() {
                    let j = i - a.len() - 1;
                    assert(s[i] == b[j]);
                    if rest.contains(b[j]) {
                        let k = choose|k: int| 0 <= k < rest.len() && rest[k] == b[j];
                        assert(field[entry.len() + 1 + k] == b[j]);
                    }
                }
            }
        },
    }
}

proof fn lemma_entry_made_of(entry: Seq<char>)
    ensures
        made_of(cron_entry(entry), entry),
        entry.len() > 0 ==> cron_entry(entry).len() > 0,
{
    reveal_strlit("/");
    lemma_first_at(entry, "/"@, 0);
    assert(made_of(entry, entry)) by {
        assert forall|i: int| 0 <= i < entry.len() implies entry.contains(#[trigger] entry[i]) by {
        }
    }
    match split_first(entry, "/"@) {
        None => {
            if let Some((a, b)) = day_range(entry) {
                lemma_day_list_made_of(a, b, 1, entry);
                lemma_joined_made_of(day_list(a, b, 1), entry);
            }
        },
        Some((base, step)) => {
            if let Some(s) = day_value(step) {
                if let Some((a, b)) = day_range(base) {
                    lemma_day_list_made_of(a, b, s, entry);
                    lemma_joined_made_of(day_list(a, b, s), entry);
                } else if let Some(a) = day_value(base) {
                    lemma_day_list_made_of(a, week_end(a), s, entry);
                    lemma_joined_made_of(day_list(a, week_end(a), s), entry);
                }
            }
        },
    }
}

} // verus!
