//! Texts that the console shows.
use super::client::{failure_text, BackupListItem};
use crate::api::common::ApiError;
use crate::schedule::{law_run_name_keeps_stamp, run_name};
use crate::search::{
    byte_prefix, lemma_first_at, occurs_at, split_first, split_once, starts_with, take_bytes,
};
use crate::text::{
    chars_of, decimal, decimal_text, is_blank, is_digit, lemma_trimmed_ends, named, opt_view,
    optional_trimmed, same_text, string_of, str_view, trim, trimmed,
};
use vstd::prelude::*;

verus! {

/// The schedules that the policy form offers.
#[derive(Debug, Clone, Copy, PartialEq, Eq, Structural)]
pub enum SchedulePreset {
    Off,
    Hourly,
    Daily,
    Weekly,
    Custom,
}

/// The cron expression of a preset, if it stands for one.
pub open spec fn preset_text(preset: SchedulePreset) -> Option<Seq<char>> {
    match preset {
        SchedulePreset::Off => None,
        SchedulePreset::Hourly => Some("0 * * * *"@),
        SchedulePreset::Daily => Some("0 2 * * *"@),
        SchedulePreset::Weekly => Some("0 2 * * 0"@),
        SchedulePreset::Custom => None,
    }
}

/// The cron expression of a preset, if it stands for one.
pub fn preset_cron(preset: SchedulePreset) -> (res: Option<&'static str>)
    ensures
        str_view(res) == preset_text(preset),
{
    match preset {
        SchedulePreset::Off => None,
        SchedulePreset::Hourly => Some("0 * * * *"),
        SchedulePreset::Daily => Some("0 2 * * *"),
        SchedulePreset::Weekly => Some("0 2 * * 0"),
        SchedulePreset::Custom => None,
    }
}

impl SchedulePreset {
    /// The value of the preset in the form.
    pub open spec fn text(self) -> Seq<char> {
        match self {
            SchedulePreset::Off => "off"@,
            SchedulePreset::Hourly => "hourly"@,
            SchedulePreset::Daily => "daily"@,
            SchedulePreset::Weekly => "weekly"@,
            SchedulePreset::Custom => "custom"@,
        }
    }

    /// The value of the preset in the form.
    pub fn value(self) -> (res: &'static str)
        ensures
            res@ == self.text(),
    {
        match self {
            SchedulePreset::Off => "off",
            SchedulePreset::Hourly => "hourly",
            SchedulePreset::Daily => "daily",
            SchedulePreset::Weekly => "weekly",
            SchedulePreset::Custom => "custom",
        }
    }

    /// The preset of a value of the form; no schedule where there is no such value.
    pub open spec fn of(value: Seq<char>) -> SchedulePreset {
        if value == "hourly"@ {
            SchedulePreset::Hourly
        } else if value == "daily"@ {
            SchedulePreset::Daily
        } else if value == "weekly"@ {
            SchedulePreset::Weekly
        } else if value == "custom"@ {
            SchedulePreset::Custom
        } else {
            SchedulePreset::Off
        }
    }

    /// The preset of a value of the form; no schedule where there is no such value.
    pub fn from_value(value: &str) -> (res: Self)
        ensures
            res == SchedulePreset::of(value@),
    {
        if same_text(value, "hourly") {
            SchedulePreset::Hourly
        } else if same_text(value, "daily") {
            SchedulePreset::Daily
        } else if same_text(value, "weekly") {
            SchedulePreset::Weekly
        } else if same_text(value, "custom") {
            SchedulePreset::Custom
        } else {
            SchedulePreset::Off
        }
    }
}

/// The form gives back the preset that it shows.
pub proof fn law_preset_survives_the_form(preset: SchedulePreset)
    ensures
        SchedulePreset::of(preset.text()) == preset,
{
    reveal_strlit("off");
    reveal_strlit("hourly");
    reveal_strlit("daily");
    reveal_strlit("weekly");
    reveal_strlit("custom");
    assert("off"@[0] == 'o' && "hourly"@[0] == 'h' && "daily"@[0] == 'd' && "weekly"@[0] == 'w'
        && "custom"@[0] == 'c');
}

/// A day and time of an RFC 3339 text, without seconds and zone.
pub open spec fn short_time(s: Seq<char>) -> Seq<char> {
    match split_first(s, "T"@) {
        Some((date, rest)) => date + " "@ + byte_prefix(rest, 5) + " UTC"@,
        None => s,
    }
}

/// A day and time of an RFC 3339 text, without seconds and zone; another text as it is.
pub fn format_rfc3339_short(raw: &str) -> (res: String)
    ensures
        res@ == short_time(raw@),
{
    match split_once(raw, "T") {
        Some((date, rest)) => date.concat(" ").concat(take_bytes(rest.as_str(), 5).as_str()).concat(
            " UTC",
        ),
        None => raw.to_owned(),
    }
}

/// When a policy runs next, in short.
pub open spec fn next_run_text(raw: Seq<char>) -> Seq<char> {
    if trim(raw).len() == 0 {
        "—"@
    } else {
        short_time(trim(raw))
    }
}

/// When a policy runs next, in short.
pub fn format_next_run(raw: &str) -> (res: String)
    ensures
        res@ == next_run_text(raw@),
{
    if is_blank(raw) {
        return String::from_str("—");
    }
    format_rfc3339_short(trimmed(raw).as_str())
}

/// What follows `mark` in a text, trimmed; the text itself where `mark` does not occur.
pub open spec fn behind(s: Seq<char>, mark: Seq<char>) -> Seq<char> {
    match split_first(s, mark) {
        Some((_, rest)) => trim(rest),
        None => s,
    }
}

fn text_behind(s: String, mark: &str) -> (res: String)
    ensures
        res@ == behind(s@, mark@),
{
    match split_once(s.as_str(), mark) {
        Some((_, rest)) => trimmed(rest.as_str()),
        None => s,
    }
}

/// An error of the API without what only the transport added.
pub open spec fn friendly_text(message: Seq<char>) -> Seq<char> {
    let msg = trim(message);
    if split_first(msg, "bad request: "@) is Some {
        behind(msg, "bad request: "@)
    } else if "HTTP "@.is_prefix_of(msg) {
        behind(behind(msg, ": "@), "bad request: "@)
    } else {
        msg
    }
}

/// An error of the API without what only the transport added (`HTTP 400: bad request: …`).
pub fn friendly_api_error(message: &str) -> (res: String)
    ensures
        res@ == friendly_text(message@),
{
    let msg = trimmed(message);
    if split_once(msg.as_str(), "bad request: ").is_some() {
        text_behind(msg, "bad request: ")
    } else if starts_with(msg.as_str(), "HTTP ") {
        text_behind(text_behind(msg, ": "), "bad request: ")
    } else {
        msg
    }
}

/// The cron expression that the policy form stands for, if any.
pub open spec fn form_cron(preset: SchedulePreset, custom: Seq<char>) -> Option<Seq<char>> {
    match preset {
        SchedulePreset::Custom => named(Some(custom)),
        other => preset_text(other),
    }
}

/// The cron expression that the policy form stands for, if any.
pub fn form_schedule_cron(preset: SchedulePreset, custom: &str) -> (res: Option<String>)
    ensures
        opt_view(res) == form_cron(preset, custom@),
{
    match preset {
        SchedulePreset::Custom => {
            if is_blank(custom) {
                None
            } else {
                Some(trimmed(custom))
            }
        },
        other => match preset_cron(other) {
            Some(s) => Some(s.to_owned()),
            None => None,
        },
    }
}

/// How many runs a policy has, in words; ten and more are not told apart.
pub open spec fn run_count_text(count: nat) -> Seq<char> {
    if count > 10 {
        "10+ runs"@
    } else if count == 1 {
        "1 run"@
    } else {
        decimal(count) + " runs"@
    }
}

/// How many runs a policy has, in words.
pub fn format_run_count_label(count: usize) -> (res: String)
    ensures
        res@ == run_count_text(count as nat),
{
    if count > 10 {
        String::from_str("10+ runs")
    } else if count == 1 {
        String::from_str("1 run")
    } else {
        decimal_text(count as u64).concat(" runs")
    }
}

/// The question before an object is deleted.
pub fn delete_question(kind: &str, name: &str, namespace: &str) -> (res: String)
    ensures
        res@ == "Delete "@ + kind@ + " "@ + name@ + " in namespace "@ + namespace@ + "?"@,
{
    String::from_str("Delete ").concat(kind).concat(" ").concat(name).concat(
        " in namespace ",
    ).concat(namespace).concat("?")
}

/// The question before a policy is deleted.
pub fn delete_policy_question(name: &str, namespace: &str) -> (res: String)
    ensures
        res@ == "Delete "@ + "backup policy"@ + " "@ + name@ + " in namespace "@ + namespace@
            + "?"@,
{
    delete_question("backup policy", name, namespace)
}

/// The question before a run is deleted.
pub fn delete_backup_question(name: &str, namespace: &str) -> (res: String)
    ensures
        res@ == "Delete backup run "@ + name@ + " in "@ + namespace@
            + "?\n\nUnreferenced objects in its repository will be removed (other runs' snapshots are kept)."@,
{
    String::from_str("Delete backup run ").concat(name).concat(" in ").concat(namespace).concat(
        "?\n\nUnreferenced objects in its repository will be removed (other runs' snapshots are kept).",
    )
}

/// The question before a run is restored.
pub fn restore_question(when: &str, name: &str, namespace: &str) -> (res: String)
    ensures
        res@ == "Restore backup from "@ + when@ + "\n\nRun: "@ + name@ + "\nNamespace: "@
            + namespace@
            + "\n\nPVCs with the same names must already exist. A Restore CR will be created."@,
{
    String::from_str("Restore backup from ").concat(when).concat("\n\nRun: ").concat(name).concat(
        "\nNamespace: ",
    ).concat(namespace).concat(
        "\n\nPVCs with the same names must already exist. A Restore CR will be created.",
    )
}

/// An id cut to its first characters.
pub open spec fn short_id_text(id: Seq<char>, keep: nat) -> Seq<char> {
    let t = trim(id);
    if t.len() == 0 {
        "—"@
    } else if t.len() <= keep {
        t
    } else {
        t.take(keep as int) + "…"@
    }
}

/// An id cut to its first `keep` characters.
pub fn short_id(id: &str, keep: usize) -> (res: String)
    ensures
        res@ == short_id_text(id@, keep as nat),
{
    if is_blank(id) {
        return String::from_str("—");
    }
    let t = trimmed(id);
    let chars = chars_of(t.as_str());
    if chars.len() <= keep {
        return t;
    }
    let head = string_of(&chars, 0, keep);
    assert(head@ =~= t@.take(keep as int));
    head.concat("…")
}

/// What follows the last dash of a text, or the whole text without one.
pub open spec fn last_part(s: Seq<char>) -> Seq<char>
    decreases s.len(),
{
    if s.len() == 0 || s.last() == '-' {
        seq![]
    } else {
        last_part(s.drop_last()).push(s.last())
    }
}

/// The time of a run by its name, `{policy}-{YYYYMMDDHHMMSS}`.
pub open spec fn name_stamp(name: Seq<char>) -> Option<Seq<char>> {
    let stamp = last_part(name);
    if stamp.len() == 14 && forall|i: int| 0 <= i < 14 ==> is_digit(#[trigger] stamp[i]) {
        Some(
            stamp.subrange(0, 4) + "-"@ + stamp.subrange(4, 6) + "-"@ + stamp.subrange(6, 8)
                + " "@ + stamp.subrange(8, 10) + ":"@ + stamp.subrange(10, 12) + " UTC"@,
        )
    } else {
        None
    }
}

proof fn lemma_last_part_at(s: Seq<char>, n: int)
    requires
        0 <= n <= s.len(),
        n > 0 ==> s[n - 1] == '-',
        forall|i: int| n <= i < s.len() ==> #[trigger] s[i] != '-',
    ensures
        last_part(s) == s.skip(n),
    decreases s.len(),
{
    if n == s.len() {
        assert(s.skip(n) =~= seq![]);
    } else {
        lemma_last_part_at(s.drop_last(), n);
        assert(s.drop_last().skip(n).push(s.last()) =~= s.skip(n));
    }
}

/// The time of a run by its name, `{policy}-{YYYYMMDDHHMMSS}`.
pub fn stamp_from_run_name(name: &str) -> (res: Option<String>)
    ensures
        opt_view(res) == name_stamp(name@),
{
    let chars = chars_of(name);
    let len: usize = chars.len();
    let mut n: usize = len;
    while n > 0 && chars[n - 1] != '-'
        invariant
            n <= len,
            len == chars@.len(),
            forall|i: int| n <= i < len ==> #[trigger] chars@[i] != '-',
        decreases n,
    {
        n -= 1;
    }
    let ghost stamp = chars@.skip(n as int);
    proof {
        lemma_last_part_at(chars@, n as int);
    }
    if len - n != 14 {
        return None;
    }
    let mut i: usize = n;
    while i < len
        invariant
            n <= i <= len,
            len == chars@.len(),
            len - n == 14,
            stamp == chars@.skip(n as int),
            stamp == last_part(chars@),
            chars@ == name@,
            forall|k: int| 0 <= k < i - n ==> is_digit(#[trigger] stamp[k]),
        decreases len - i,
    {
        let c = chars[i];
        assert(stamp[i - n] == c);
        if c < '0' || c > '9' {
            return None;
        }
        i += 1;
    }
    let y = string_of(&chars, n, n + 4);
    let mo = string_of(&chars, n + 4, n + 6);
    let d = string_of(&chars, n + 6, n + 8);
    let h = string_of(&chars, n + 8, n + 10);
    let mi = string_of(&chars, n + 10, n + 12);
    proof {
        assert(y@ =~= stamp.subrange(0, 4));
        assert(mo@ =~= stamp.subrange(4, 6));
        assert(d@ =~= stamp.subrange(6, 8));
        assert(h@ =~= stamp.subrange(8, 10));
        assert(mi@ =~= stamp.subrange(10, 12));
    }
    Some(
        y.concat("-").concat(mo.as_str()).concat("-").concat(d.as_str()).concat(" ").concat(
            h.as_str(),
        ).concat(":").concat(mi.as_str()).concat(" UTC"),
    )
}

/// When a run was made: when it started, else when it was created, else the time in its name.
pub open spec fn run_when(item: BackupListItem) -> Seq<char> {
    let raw = match item.started_at {
        Some(s) => Some(s@),
        None => opt_view(item.created_at),
    };
    match named(raw) {
        Some(t) => short_time(t),
        None => match name_stamp(item.name@) {
            Some(t) => t,
            None => "Unknown time"@,
        },
    }
}

/// When a run was made, for picking one to restore: `2026-08-04 04:50 UTC`.
pub fn format_run_when(item: &BackupListItem) -> (res: String)
    ensures
        res@ == run_when(*item),
{
    let raw = match &item.started_at {
        Some(_) => optional_trimmed(&item.started_at),
        None => optional_trimmed(&item.created_at),
    };
    match raw {
        Some(t) => format_rfc3339_short(t.as_str()),
        None => match stamp_from_run_name(item.name.as_str()) {
            Some(t) => t,
            None => String::from_str("Unknown time"),
        },
    }
}

/// The name of a run tells when it was made: whatever the policy is called, and cut or not, the
/// stamp of fourteen digits is found again.
pub proof fn law_run_name_tells_its_time(policy_name: Seq<char>, stamp: Seq<char>)
    requires
        stamp.len() == 14,
        forall|i: int| 0 <= i < 14 ==> is_digit(#[trigger] stamp[i]),
    ensures
        last_part(run_name(policy_name, stamp)) == stamp,
        name_stamp(run_name(policy_name, stamp)) == Some(
            stamp.subrange(0, 4) + "-"@ + stamp.subrange(4, 6) + "-"@ + stamp.subrange(6, 8)
                + " "@ + stamp.subrange(8, 10) + ":"@ + stamp.subrange(10, 12) + " UTC"@,
        ),
{
    reveal_strlit("-");
    law_run_name_keeps_stamp(policy_name, stamp);
    let name = run_name(policy_name, stamp);
    let n = choose|n: int|
        0 <= n <= policy_name.len() && name == #[trigger] policy_name.take(n) + "-"@ + stamp;
    let head = policy_name.take(n) + "-"@;
    assert(name.skip(head.len() as int) =~= stamp);
    assert forall|i: int| head.len() <= i < name.len() implies #[trigger] name[i] != '-' by {
        assert(name[i] == stamp[i - head.len()]);
    }
    lemma_last_part_at(name, head.len() as int);
}

proof fn lemma_decimal_digits(n: nat)
    ensures
        decimal(n).len() > 0,
        forall|i: int| 0 <= i < decimal(n).len() ==> is_digit(#[trigger] decimal(n)[i]),
    decreases n,
{
    if n >= 10 {
        lemma_decimal_digits(n / 10);
    }
}

/// A refusal of the API is shown as it was written: what status and transport put before it is
/// taken off again.
pub proof fn law_friendly_error_recovers_refusal(status: u16, body: Seq<char>, e: ApiError)
    requires
        e is BadRequest,
        e->BadRequest_0@.len() > 0,
        trim(e->BadRequest_0@) == e->BadRequest_0@,
    ensures
        friendly_text(failure_text(status, body, Some(e.text()))) == e->BadRequest_0@,
{
    let m = e->BadRequest_0@;
    let mark = "bad request: "@;
    let digits = decimal(status as nat);
    let head = "HTTP "@ + digits + ": "@;
    let msg = failure_text(status, body, Some(e.text()));
    reveal_strlit("bad request: ");
    reveal_strlit("HTTP ");
    reveal_strlit(": ");
    lemma_decimal_digits(status as nat);
    assert(msg =~= head + (mark + m));
    lemma_trimmed_ends(m);
    assert(msg[0] == 'H' && msg.last() == m.last());
    lemma_trimmed_ends(msg);
    assert(occurs_at(msg, mark, head.len() as int)) by {
        assert(msg.subrange(head.len() as int, (head.len() + mark.len()) as int) =~= mark);
    }
    assert forall|k: int| 0 <= k < head.len() implies !#[trigger] occurs_at(msg, mark, k) by {
        if occurs_at(msg, mark, k) {
            let part = msg.subrange(k, k + mark.len());
            assert(part[0] == msg[k]);
            assert(msg[k] == head[k]);
            if 5 <= k < 5 + digits.len() {
                assert(head[k] == digits[k - 5]);
            }
        }
    }
    lemma_first_at(msg, mark, 0);
    let (a, rest) = split_first(msg, mark)->0;
    assert(a.len() == head.len());
    assert(rest =~= m);
}

/// The presets fire on the hour: every hour, at two every day, or at two on Sundays.
pub proof fn law_presets_fire_on_the_hour(preset: SchedulePreset)
    ensures
        preset_text(preset) is None <==> preset is Off || preset is Custom,
        preset_text(preset) matches Some(t) ==> {
            &&& t.len() == 9
            &&& t[0] == '0'
            &&& t[2] == '*' <==> preset is Hourly
            &&& t[2] == '2' <==> preset is Daily || preset is Weekly
            &&& t[4] == '*'
            &&& t[6] == '*'
            &&& t[8] == '0' <==> preset is Weekly
            &&& t[8] == '*' <==> preset is Hourly || preset is Daily
            &&& t[1] == ' ' && t[3] == ' ' && t[5] == ' ' && t[7] == ' '
        },
{
    reveal_strlit("0 * * * *");
    reveal_strlit("0 2 * * *");
    reveal_strlit("0 2 * * 0");
}

/// A schedule is that of its preset, whatever was typed, and what was typed where it is custom.
pub proof fn law_typed_cron_counts_only_where_custom(
    preset: SchedulePreset,
    one: Seq<char>,
    other: Seq<char>,
)
    ensures
        preset !is Custom ==> form_cron(preset, one) == form_cron(preset, other) && form_cron(
            preset,
            one,
        ) == preset_text(preset),
        preset is Custom ==> form_cron(preset, one) == named(Some(one)),
        form_cron(SchedulePreset::Off, one) is None,
{
}

/// A short time is the date, the hour and the minute, and a text that is no time stays as it is.
pub proof fn law_short_time_is_to_the_minute(date: Seq<char>, rest: Seq<char>)
    requires
        !date.contains('T'),
        vstd::utf8::is_ascii_chars(rest),
        rest.len() >= 5,
    ensures
        short_time(date + "T"@ + rest) == date + " "@ + rest.take(5) + " UTC"@,
        short_time(date) == date,
        next_run_text(seq![]) == "—"@,
        trim(date).len() > 0 && trim(date) == date ==> next_run_text(date) == date,
{
    reveal_strlit("T");
    assert forall|i: int| 0 <= i < date.len() implies #[trigger] date[i] != "T"@[0] by {
        assert(date.contains(date[i]));
    }
    crate::search::law_split_undoes_concatenation(date, "T"@, rest);
    crate::search::law_byte_prefix_is_a_prefix(rest, 5);
    lemma_first_at(date, "T"@, 0);
    if split_first(date, "T"@) is Some {
        let i = crate::search::first_at(date, "T"@, 0)->0 as int;
        assert(date.subrange(i, i + 1)[0] == date[i]);
    }
}

/// A time of the next run is shown short where there is one.
pub proof fn law_next_run_is_shown_short(raw: Seq<char>)
    ensures
        crate::text::blank(raw) ==> next_run_text(raw) == "—"@,
        !crate::text::blank(raw) ==> next_run_text(raw) == short_time(trim(raw)),
{
    crate::text::lemma_trim_empty_iff_blank(raw);
}

/// Of an error that the API describes, the description is shown; of any other text, the text.
pub proof fn law_friendly_error_is_what_was_said(status: u16, body: Seq<char>, error: Seq<char>)
    requires
        error.len() > 0,
        trim(error) == error,
        split_first(error, "bad request: "@) is None,
    ensures
        friendly_text(failure_text(status, body, Some(error))) == error,
        !"HTTP "@.is_prefix_of(error) ==> friendly_text(error) == error,
{
    let mark = "bad request: "@;
    let digits = decimal(status as nat);
    let head = "HTTP "@ + digits + ": "@;
    let msg = failure_text(status, body, Some(error));
    reveal_strlit("bad request: ");
    reveal_strlit("HTTP ");
    reveal_strlit(": ");
    lemma_decimal_digits(status as nat);
    assert(msg =~= head + error);
    lemma_trimmed_ends(error);
    assert(msg[0] == 'H' && msg.last() == error.last());
    lemma_trimmed_ends(msg);
    lemma_first_at(error, mark, 0);
    lemma_first_at(msg, mark, 0);
    assert forall|k: int| 0 <= k implies !#[trigger] occurs_at(msg, mark, k) by {
        if occurs_at(msg, mark, k) {
            let part = msg.subrange(k, k + mark.len());
            assert(part[0] == msg[k]);
            if k < head.len() {
                assert(msg[k] == head[k]);
                if 5 <= k < 5 + digits.len() {
                    assert(head[k] == digits[k - 5]);
                }
            } else {
                let i = k - head.len();
                assert(error.subrange(i, i + mark.len()) =~= part);
                assert(occurs_at(error, mark, i));
            }
        }
    }
    assert(split_first(msg, mark) is None);
    assert(msg.subrange(0, 5) =~= "HTTP "@);
    let n = 5 + digits.len() as int;
    let colon = ": "@;
    assert(occurs_at(msg, colon, n)) by {
        assert(msg.subrange(n, n + 2) =~= colon);
    }
    assert forall|k: int| 0 <= k < n implies !#[trigger] occurs_at(msg, colon, k) by {
        if occurs_at(msg, colon, k) {
            assert(msg.subrange(k, k + 2)[0] == msg[k]);
            assert(msg[k] == head[k]);
            if 5 <= k {
                assert(head[k] == digits[k - 5]);
            }
        }
    }
    lemma_first_at(msg, colon, 0);
    let (_, rest) = split_first(msg, colon)->0;
    assert(rest =~= error);
}

/// A count is shown up to ten, in the singular for one run; beyond ten all counts read the same.
pub proof fn law_counts_are_shown_up_to_ten(count: nat)
    ensures
        count <= 10 ==> decimal(count).is_prefix_of(run_count_text(count)),
        count > 10 ==> run_count_text(count) == run_count_text(11) && "10+"@.is_prefix_of(
            run_count_text(count),
        ),
        run_count_text(count).last() == 's' <==> count != 1,
{
    reveal_strlit("10+ runs");
    reveal_strlit("10+");
    reveal_strlit("1 run");
    reveal_strlit(" runs");
    let t = run_count_text(count);
    if count > 10 {
        assert(t.subrange(0, 3) =~= "10+"@);
    } else if count == 1 {
        assert(decimal(1) =~= seq!['1']) by {
            reveal_with_fuel(decimal, 2);
        }
        assert(t.subrange(0, 1) =~= decimal(1));
    } else {
        let d = decimal(count);
        assert(t.subrange(0, d.len() as int) =~= d);
    }
}

/// A short id is the id where that fits, else as much of its front as fits, with a mark behind.
pub proof fn law_short_ids_fit(id: Seq<char>, keep: nat)
    ensures
        short_id_text(id, keep).len() <= keep + 1,
        0 < trim(id).len() <= keep ==> short_id_text(id, keep) == trim(id),
        trim(id).len() > keep ==> short_id_text(id, keep).take(keep as int) == trim(id).take(
            keep as int,
        ) && short_id_text(id, keep).last() == '…' && short_id_text(id, keep).len() == keep + 1,
        trim(id).len() == 0 ==> short_id_text(id, keep) == "—"@,
{
    reveal_strlit("—");
    reveal_strlit("…");
    if trim(id).len() > keep {
        assert(short_id_text(id, keep).take(keep as int) =~= trim(id).take(keep as int));
    }
}

/// A name tells a time exactly where what stands behind its last hyphen is fourteen digits,
/// whatever stands before it.
pub proof fn law_names_tell_times_behind_the_last_hyphen(
    one: Seq<char>,
    other: Seq<char>,
    tail: Seq<char>,
)
    requires
        !tail.contains('-'),
    ensures
        name_stamp(one + "-"@ + tail) == name_stamp(other + "-"@ + tail),
        name_stamp(one + "-"@ + tail) is Some <==> tail.len() == 14 && (forall|i: int|
            0 <= i < 14 ==> is_digit(#[trigger] tail[i])),
        name_stamp(one + "-"@ + tail) matches Some(t) ==> t.subrange(0, 4) == tail.subrange(0, 4)
            && t.subrange(5, 7) == tail.subrange(4, 6) && t.subrange(8, 10) == tail.subrange(6, 8)
            && t.subrange(11, 13) == tail.subrange(8, 10) && t.subrange(14, 16) == tail.subrange(
            10,
            12,
        ),
{
    reveal_strlit("-");
    reveal_strlit(" ");
    reveal_strlit(":");
    reveal_strlit(" UTC");
    assert forall|i: int| 0 <= i < tail.len() implies #[trigger] tail[i] != '-' by {
        assert(tail.contains(tail[i]));
    }
    lemma_stamp_behind(one, tail);
    lemma_stamp_behind(other, tail);
    if let Some(t) = name_stamp(one + "-"@ + tail) {
        assert(t.subrange(0, 4) =~= tail.subrange(0, 4));
        assert(t.subrange(5, 7) =~= tail.subrange(4, 6));
        assert(t.subrange(8, 10) =~= tail.subrange(6, 8));
        assert(t.subrange(11, 13) =~= tail.subrange(8, 10));
        assert(t.subrange(14, 16) =~= tail.subrange(10, 12));
    }
}

proof fn lemma_stamp_behind(head: Seq<char>, tail: Seq<char>)
    requires
        forall|i: int| 0 <= i < tail.len() ==> #[trigger] tail[i] != '-',
    ensures
        last_part(head + "-"@ + tail) == tail,
{
    reveal_strlit("-");
    let s = head + "-"@ + tail;
    let n = head.len() as int + 1;
    assert(s[n - 1] == '-');
    assert forall|i: int| n <= i < s.len() implies #[trigger] s[i] != '-' by {
        assert(s[i] == tail[i - n]);
    }
    lemma_last_part_at(s, n);
    assert(s.skip(n) =~= tail);
}

/// When a run was: when it started, else when it was created, else what its name tells.
pub proof fn law_start_comes_before_creation(item: BackupListItem)
    ensures
        item.started_at matches Some(s) && named(Some(s@)) is Some ==> run_when(item) == short_time(
            trim(item.started_at->0@),
        ),
        item.started_at is None && named(opt_view(item.created_at)) is Some ==> run_when(item)
            == short_time(trim(item.created_at->0@)),
        item.started_at is None && named(opt_view(item.created_at)) is None ==> run_when(item) == (
        match name_stamp(item.name@) {
            Some(t) => t,
            None => "Unknown time"@,
        }),
{
}

} // verus!
