//! Lists of runs: one row per policy, and the runs of one policy in order.
use super::client::BackupListItem;
use crate::order::{
    at_or_before, lemma_text_le_antisymmetric, lemma_text_le_total, lemma_text_le_transitive,
    reversed, text_le,
};
use crate::text::{named, opt_view, optional_trimmed, same_text, trim, trimmed};
use vstd::prelude::*;

verus! {

/// Active runs come first: running, then pending, then the others.
pub open spec fn phase_rank(phase: Option<Seq<char>>) -> int {
    if phase == Some("Running"@) {
        0
    } else if phase == Some("Pending"@) {
        1
    } else {
        2
    }
}

fn rank_of(phase: &Option<String>) -> (res: u8)
    ensures
        res == phase_rank(opt_view(*phase)),
{
    match phase {
        Some(p) => {
            if same_text(p.as_str(), "Running") {
                0
            } else if same_text(p.as_str(), "Pending") {
                1
            } else {
                2
            }
        },
        None => 2,
    }
}

/// Whether `a` may come before `b` among runs: active ones first, then by name from the last to
/// the first, which is from the newest to the oldest.
pub open spec fn run_le(a: BackupListItem, b: BackupListItem) -> bool {
    let (ra, rb) = (phase_rank(opt_view(a.phase)), phase_rank(opt_view(b.phase)));
    ra < rb || (ra == rb && text_le(b.name@, a.name@))
}

fn run_at_or_before(a: &BackupListItem, b: &BackupListItem) -> (res: bool)
    ensures
        res == run_le(*a, *b),
{
    let ra: u8 = rank_of(&a.phase);
    let rb: u8 = rank_of(&b.phase);
    ra < rb || (ra == rb && at_or_before(b.name.as_str(), a.name.as_str()))
}

proof fn lemma_run_le_total(a: BackupListItem, b: BackupListItem)
    ensures
        run_le(a, b) || run_le(b, a),
{
    lemma_text_le_total(a.name@, b.name@);
}

proof fn lemma_run_le_transitive(a: BackupListItem, b: BackupListItem, c: BackupListItem)
    requires
        run_le(a, b),
        run_le(b, c),
    ensures
        run_le(a, c),
{
    if phase_rank(opt_view(a.phase)) == phase_rank(opt_view(c.phase)) {
        lemma_text_le_transitive(c.name@, b.name@, a.name@);
    }
}

/// Whether item `i` of a list comes before item `j`, or is the same: by [`run_le`], and by place
/// where that does not tell them apart.
pub open spec fn leads(items: Seq<BackupListItem>, i: int, j: int) -> bool {
    run_le(items[i], items[j]) && (run_le(items[j], items[i]) ==> i <= j)
}

proof fn lemma_leads_antisymmetric(items: Seq<BackupListItem>, i: int, j: int)
    requires
        leads(items, i, j),
        leads(items, j, i),
    ensures
        i == j,
{
}

proof fn lemma_leads_total(items: Seq<BackupListItem>, i: int, j: int)
    ensures
        leads(items, i, j) || leads(items, j, i),
{
    lemma_run_le_total(items[i], items[j]);
}

proof fn lemma_leads_transitive(items: Seq<BackupListItem>, i: int, j: int, k: int)
    requires
        leads(items, i, j),
        leads(items, j, k),
    ensures
        leads(items, i, k),
{
    lemma_run_le_transitive(items[i], items[j], items[k]);
    if run_le(items[k], items[i]) {
        lemma_run_le_transitive(items[k], items[i], items[j]);
        lemma_run_le_transitive(items[j], items[k], items[i]);
    }
}

/// Whether `places` names every place of a list of length `n` once.
pub open spec fn is_arrangement(places: Seq<int>, n: nat) -> bool {
    &&& places.len() == n
    &&& places.no_duplicates()
    &&& forall|k: int| 0 <= k < places.len() ==> 0 <= #[trigger] places[k] < n
}

/// Whether `res` holds the items at `places`, each before those that it leads.
pub open spec fn is_run_order(
    items: Seq<BackupListItem>,
    places: Seq<int>,
    res: Seq<BackupListItem>,
) -> bool {
    &&& is_arrangement(places, items.len())
    &&& res.len() == items.len()
    &&& forall|k: int| 0 <= k < res.len() ==> #[trigger] res[k] == items[places[k]]
    &&& in_order(items, places)
}

/// Whether each place leads the later ones.
pub open spec fn in_order(items: Seq<BackupListItem>, places: Seq<int>) -> bool {
    forall|a: int, b: int|
        #![trigger places[a], places[b]]
        0 <= a < b < places.len() ==> leads(items, places[a], places[b])
}

/// The runs in order: active ones first, then from the newest to the oldest by name; runs that
/// this does not tell apart stay in order.
pub fn sort_runs(items: Vec<BackupListItem>) -> (res: Vec<BackupListItem>)
    ensures
        exists|places: Seq<int>| #[trigger] is_run_order(items@, places, res@),
{
    let ghost all = items@;
    let mut todo = reversed(items);
    let mut out: Vec<BackupListItem> = Vec::new();
    let ghost mut places: Seq<int> = seq![];
    while todo.len() > 0
        invariant
            out@.len() + todo@.len() == all.len(),
            forall|i: int|
                0 <= i < todo@.len() ==> #[trigger] todo@[i] == all[all.len() - 1 - i],
            is_arrangement(places, out@.len()),
            forall|k: int| 0 <= k < out@.len() ==> #[trigger] out@[k] == all[places[k]],
            in_order(all, places),
        decreases todo@.len(),
    {
        let ghost n = out@.len() as int;
        if let Some(item) = todo.pop() {
            assert(item == all[n]);
            let len: usize = out.len();
            let mut at: usize = len;
            while at > 0 && !run_at_or_before(&out[at - 1], &item)
                invariant
                    at <= len,
                    len == out@.len(),
                    len == n,
                    item == all[n],
                    is_arrangement(places, out@.len()),
                    forall|k: int| 0 <= k < out@.len() ==> #[trigger] out@[k] == all[places[k]],
                    forall|k: int|
                        at <= k < len ==> !run_le(all[#[trigger] places[k]], item),
                decreases at,
            {
                at -= 1;
                assert(out@[at as int] == all[places[at as int]]);
            }
            proof {
                let before = places;
                lemma_insert_place(all, before, at as int, n);
                places = before.insert(at as int, n);
            }
            let ghost old_out = out@;
            out.insert(at, item);
            assert forall|k: int| 0 <= k < out@.len() implies #[trigger] out@[k]
                == all[places[k]] by {
                if k < at {
                    assert(out@[k] == old_out[k]);
                } else if k > at {
                    assert(out@[k] == old_out[k - 1]);
                }
            }
        }
    }
    assert(is_run_order(all, places, out@));
    out
}

proof fn lemma_insert_place(items: Seq<BackupListItem>, places: Seq<int>, at: int, n: int)
    requires
        0 <= at <= places.len(),
        n == places.len(),
        is_arrangement(places, n as nat),
        in_order(items, places),
        at > 0 ==> run_le(items[places[at - 1]], items[n]),
        forall|k: int| at <= k < places.len() ==> !run_le(items[#[trigger] places[k]], items[n]),
    ensures
        is_arrangement(places.insert(at, n), (n + 1) as nat),
        in_order(items, places.insert(at, n)),
{
    let after = places.insert(at, n);
    assert forall|a: int, b: int|
        #![trigger after[a], after[b]]
        0 <= a < b < after.len() implies leads(items, after[a], after[b]) by {
        if a == at {
            assert(after[b] == places[b - 1]);
            lemma_run_le_total(items[n], items[places[b - 1]]);
        } else if b == at {
            assert(after[a] == places[a]);
            if a < at - 1 {
                assert(leads(items, places[a], places[at - 1]));
                lemma_run_le_transitive(items[places[a]], items[places[at - 1]], items[n]);
            }
            assert(places[a] < n);
        } else {
            let x = if a < at {
                a
            } else {
                a - 1
            };
            let y = if b < at {
                b
            } else {
                b - 1
            };
            assert(after[a] == places[x] && after[b] == places[y]);
        }
    }
    assert forall|a: int, b: int| 0 <= a < after.len() && 0 <= b < after.len() && a != b implies
        after[a] != after[b] by {
        let x = if a < at {
            a
        } else {
            a - 1
        };
        let y = if b < at {
            b
        } else {
            b - 1
        };
        if a == at {
            assert(after[b] == places[y] && places[y] < n);
        } else if b == at {
            assert(after[a] == places[x] && places[x] < n);
        } else {
            assert(after[a] == places[x] && after[b] == places[y]);
        }
    }
    assert forall|k: int| 0 <= k < after.len() implies 0 <= #[trigger] after[k] < n + 1 by {
        if k < at {
            assert(after[k] == places[k]);
        } else if k > at {
            assert(after[k] == places[k - 1]);
        }
    }
}

/// The group of a run in the list: its namespace with its policy, or with its own name where it
/// has none.
pub open spec fn group_key(item: BackupListItem) -> (Seq<char>, Seq<char>) {
    match named(opt_view(item.policy_ref)) {
        Some(policy) => (item.namespace@, "policy:"@ + policy),
        None => (item.namespace@, "run:"@ + item.name@),
    }
}

fn key_of(item: &BackupListItem) -> (res: (String, String))
    ensures
        (res.0@, res.1@) == group_key(*item),
{
    let group = match optional_trimmed(&item.policy_ref) {
        Some(policy) => String::from_str("policy:").concat(policy.as_str()),
        None => String::from_str("run:").concat(item.name.as_str()),
    };
    (item.namespace.clone(), group)
}

/// Whether item `i` leads every run of its group.
pub open spec fn is_latest(items: Seq<BackupListItem>, i: int) -> bool {
    &&& 0 <= i < items.len()
    &&& forall|j: int|
        0 <= j < items.len() && group_key(#[trigger] items[j]) == group_key(items[i]) ==> leads(
            items,
            i,
            j,
        )
}

/// How many runs a group has.
pub open spec fn group_size(items: Seq<BackupListItem>, key: (Seq<char>, Seq<char>)) -> nat
    decreases items.len(),
{
    if items.len() == 0 {
        0
    } else {
        group_size(items.drop_last(), key) + if group_key(items.last()) == key {
            1nat
        } else {
            0nat
        }
    }
}

/// The order of groups: by namespace, then by policy or name.
pub open spec fn key_le(a: (Seq<char>, Seq<char>), b: (Seq<char>, Seq<char>)) -> bool {
    if a.0 == b.0 {
        text_le(a.1, b.1)
    } else {
        text_le(a.0, b.0)
    }
}

/// Whether the row of `a` may stand above that of `b`: by name from the last to the first, then by
/// group.
pub open spec fn row_le(a: BackupListItem, b: BackupListItem) -> bool {
    if a.name@ == b.name@ {
        key_le(group_key(a), group_key(b))
    } else {
        text_le(b.name@, a.name@)
    }
}

fn key_at_or_before(a: &(String, String), b: &(String, String)) -> (res: bool)
    ensures
        res == key_le((a.0@, a.1@), (b.0@, b.1@)),
{
    if same_text(a.0.as_str(), b.0.as_str()) {
        at_or_before(a.1.as_str(), b.1.as_str())
    } else {
        at_or_before(a.0.as_str(), b.0.as_str())
    }
}

fn row_at_or_before(a: &BackupListItem, b: &BackupListItem) -> (res: bool)
    ensures
        res == row_le(*a, *b),
{
    if same_text(a.name.as_str(), b.name.as_str()) {
        key_at_or_before(&key_of(a), &key_of(b))
    } else {
        at_or_before(b.name.as_str(), a.name.as_str())
    }
}

proof fn lemma_key_le_total(a: (Seq<char>, Seq<char>), b: (Seq<char>, Seq<char>))
    ensures
        key_le(a, b) || key_le(b, a),
{
    lemma_text_le_total(a.0, b.0);
    lemma_text_le_total(a.1, b.1);
}

proof fn lemma_key_le_transitive(
    a: (Seq<char>, Seq<char>),
    b: (Seq<char>, Seq<char>),
    c: (Seq<char>, Seq<char>),
)
    requires
        key_le(a, b),
        key_le(b, c),
    ensures
        key_le(a, c),
{
    if a.0 == b.0 && b.0 == c.0 {
        lemma_text_le_transitive(a.1, b.1, c.1);
    } else if a.0 != b.0 && b.0 != c.0 {
        lemma_text_le_transitive(a.0, b.0, c.0);
        if a.0 == c.0 {
            lemma_text_le_antisymmetric(a.0, b.0);
        }
    }
}

proof fn lemma_row_le_total(a: BackupListItem, b: BackupListItem)
    ensures
        row_le(a, b) || row_le(b, a),
{
    lemma_text_le_total(a.name@, b.name@);
    lemma_key_le_total(group_key(a), group_key(b));
}

proof fn lemma_row_le_transitive(a: BackupListItem, b: BackupListItem, c: BackupListItem)
    requires
        row_le(a, b),
        row_le(b, c),
    ensures
        row_le(a, c),
{
    if a.name@ == b.name@ && b.name@ == c.name@ {
        lemma_key_le_transitive(group_key(a), group_key(b), group_key(c));
    } else if a.name@ != b.name@ && b.name@ != c.name@ {
        lemma_text_le_transitive(c.name@, b.name@, a.name@);
        if a.name@ == c.name@ {
            lemma_text_le_antisymmetric(a.name@, b.name@);
        }
    }
}

/// Whether `rows` shows the latest runs at `picks`, one row for each group with the number of its
/// runs, in order.
pub open spec fn is_grouping(
    items: Seq<BackupListItem>,
    picks: Seq<int>,
    rows: Seq<(&BackupListItem, usize)>,
) -> bool {
    &&& rows.len() == picks.len()
    &&& picks.no_duplicates()
    &&& forall|i: int| #[trigger] picks.contains(i) <==> is_latest(items, i)
    &&& forall|k: int|
        0 <= k < rows.len() ==> *(#[trigger] rows[k]).0 == items[picks[k]] && rows[k].1
            == group_size(items, group_key(items[picks[k]]))
    &&& rows_in_order(rows)
}

/// Whether each row may stand above the later ones.
pub open spec fn rows_in_order(rows: Seq<(&BackupListItem, usize)>) -> bool {
    forall|a: int, b: int|
        #![trigger rows[a], rows[b]]
        0 <= a < b < rows.len() ==> row_le(*rows[a].0, *rows[b].0)
}

fn same_group(a: &BackupListItem, b: &BackupListItem) -> (res: bool)
    ensures
        res == (group_key(*a) == group_key(*b)),
{
    let ka = key_of(a);
    let kb = key_of(b);
    same_text(ka.0.as_str(), kb.0.as_str()) && same_text(ka.1.as_str(), kb.1.as_str())
}

/// The size of the group of item `i` where that item is the latest of it.
fn latest_of_group(items: &Vec<BackupListItem>, i: usize) -> (res: Option<usize>)
    requires
        i < items@.len(),
    ensures
        match res {
            Some(n) => is_latest(items@, i as int) && n == group_size(
                items@,
                group_key(items@[i as int]),
            ),
            None => !is_latest(items@, i as int),
        },
{
    let ghost all = items@;
    let ghost key = group_key(all[i as int]);
    let mut count: usize = 0;
    let mut j: usize = 0;
    assert(all.take(0) =~= seq![]);
    while j < items.len()
        invariant
            j <= items@.len(),
            i < items@.len(),
            all == items@,
            key == group_key(all[i as int]),
            count <= j,
            count == group_size(all.take(j as int), key),
            forall|k: int|
                0 <= k < j && group_key(#[trigger] all[k]) == key ==> leads(all, i as int, k),
        decreases items@.len() - j,
    {
        proof {
            assert(all.take(j + 1).drop_last() =~= all.take(j as int));
            assert(all.take(j + 1).last() == all[j as int]);
        }
        if same_group(&items[j], &items[i]) {
            let before = run_at_or_before(&items[i], &items[j]);
            let after = run_at_or_before(&items[j], &items[i]);
            if !before || (after && i > j) {
                assert(!leads(all, i as int, j as int));
                return None;
            }
            count += 1;
        }
        j += 1;
    }
    assert(all.take(j as int) =~= all);
    Some(count)
}

/// The list of runs with one row for each policy: its latest run and how many it has. Runs without
/// a policy have a row each. An active run counts as later than one that is over; among equals the
/// name decides, which ends with the time.
pub fn group_runs_for_list(items: &Vec<BackupListItem>) -> (res: Vec<(&BackupListItem, usize)>)
    ensures
        exists|picks: Seq<int>| #[trigger] is_grouping(items@, picks, res@),
{
    let ghost all = items@;
    let mut out: Vec<(&BackupListItem, usize)> = Vec::new();
    let ghost mut picks: Seq<int> = seq![];
    let mut i: usize = 0;
    while i < items.len()
        invariant
            i <= items@.len(),
            all == items@,
            out@.len() == picks.len(),
            picks.no_duplicates(),
            forall|p: int| #[trigger] picks.contains(p) <==> (p < i && is_latest(all, p)),
            forall|k: int|
                0 <= k < out@.len() ==> *(#[trigger] out@[k]).0 == all[picks[k]] && out@[k].1
                    == group_size(all, group_key(all[picks[k]])),
            rows_in_order(out@),
        decreases items@.len() - i,
    {
        if let Some(count) = latest_of_group(items, i) {
            let len: usize = out.len();
            let mut at: usize = len;
            while at > 0 && !row_at_or_before(out[at - 1].0, &items[i])
                invariant
                    at <= len,
                    len == out@.len(),
                    i < items@.len(),
                    all == items@,
                    forall|k: int|
                        at <= k < len ==> !row_le(*(#[trigger] out@[k]).0, all[i as int]),
                decreases at,
            {
                at -= 1;
            }
            let ghost before = out@;
            let ghost old_picks = picks;
            out.insert(at, (&items[i], count));
            proof {
                picks = old_picks.insert(at as int, i as int);
                lemma_insert_row(before, at as int, out@[at as int]);
                assert(out@ =~= before.insert(at as int, out@[at as int]));
                lemma_insert_pick(old_picks, at as int, i as int);
                assert forall|k: int| 0 <= k < out@.len() implies *(#[trigger] out@[k]).0
                    == all[picks[k]] && out@[k].1 == group_size(all, group_key(all[picks[k]])) by {
                    if k < at {
                        assert(out@[k] == before[k]);
                        assert(picks[k] == old_picks[k]);
                    } else if k > at {
                        assert(out@[k] == before[k - 1]);
                        assert(picks[k] == old_picks[k - 1]);
                    }
                }
                assert forall|p: int| #[trigger] picks.contains(p) <==> (p < i + 1 && is_latest(
                    all,
                    p,
                )) by {
                    assert(picks.contains(p) <==> (old_picks.contains(p) || p == i));
                }
            }
        }
        i += 1;
    }
    assert(is_grouping(all, picks, out@));
    out
}

proof fn lemma_insert_row(
    rows: Seq<(&BackupListItem, usize)>,
    at: int,
    row: (&BackupListItem, usize),
)
    requires
        0 <= at <= rows.len(),
        rows_in_order(rows),
        at > 0 ==> row_le(*rows[at - 1].0, *row.0),
        forall|k: int| at <= k < rows.len() ==> !row_le(*(#[trigger] rows[k]).0, *row.0),
    ensures
        rows_in_order(rows.insert(at, row)),
{
    let after = rows.insert(at, row);
    assert forall|a: int, b: int|
        #![trigger after[a], after[b]]
        0 <= a < b < after.len() implies row_le(*after[a].0, *after[b].0) by {
        if a == at {
            assert(after[b] == rows[b - 1]);
            lemma_row_le_total(*row.0, *rows[b - 1].0);
        } else if b == at {
            assert(after[a] == rows[a]);
            if a < at - 1 {
                assert(row_le(*rows[a].0, *rows[at - 1].0));
                lemma_row_le_transitive(*rows[a].0, *rows[at - 1].0, *row.0);
            }
        } else {
            let x = if a < at {
                a
            } else {
                a - 1
            };
            let y = if b < at {
                b
            } else {
                b - 1
            };
            assert(after[a] == rows[x] && after[b] == rows[y]);
        }
    }
}

proof fn lemma_insert_pick(picks: Seq<int>, at: int, n: int)
    requires
        0 <= at <= picks.len(),
        picks.no_duplicates(),
        !picks.contains(n),
    ensures
        picks.insert(at, n).no_duplicates(),
        forall|p: int|
            #[trigger] picks.insert(at, n).contains(p) <==> (picks.contains(p) || p == n),
{
    let after = picks.insert(at, n);
    assert forall|a: int, b: int| 0 <= a < after.len() && 0 <= b < after.len() && a != b implies
        after[a] != after[b] by {
        let x = if a < at {
            a
        } else {
            a - 1
        };
        let y = if b < at {
            b
        } else {
            b - 1
        };
        if a == at {
            assert(after[b] == picks[y] && picks.contains(picks[y]));
        } else if b == at {
            assert(after[a] == picks[x] && picks.contains(picks[x]));
        } else {
            assert(after[a] == picks[x] && after[b] == picks[y]);
        }
    }
    assert forall|p: int| #[trigger] after.contains(p) <==> (picks.contains(p) || p == n) by {
        if after.contains(p) {
            let k = choose|k: int| 0 <= k < after.len() && after[k] == p;
            if k < at {
                assert(picks[k] == p);
            } else if k > at {
                assert(picks[k - 1] == p);
            }
        }
        if picks.contains(p) {
            let k = choose|k: int| 0 <= k < picks.len() && picks[k] == p;
            if k < at {
                assert(after[k] == p);
            } else {
                assert(after[k + 1] == p);
            }
        }
        assert(after[at] == n);
    }
}

proof fn lemma_latest_exists(items: Seq<BackupListItem>, i: int, n: int) -> (lead: int)
    requires
        0 <= i < n <= items.len(),
    ensures
        0 <= lead < n,
        group_key(items[lead]) == group_key(items[i]),
        forall|j: int|
            0 <= j < n && group_key(#[trigger] items[j]) == group_key(items[i]) ==> leads(
                items,
                lead,
                j,
            ),
    decreases n,
{
    let key = group_key(items[i]);
    let last = n - 1;
    lemma_run_le_total(items[last], items[last]);
    if i == last {
        if exists|k: int| 0 <= k < last && group_key(#[trigger] items[k]) == key {
            let k = choose|k: int| 0 <= k < last && group_key(#[trigger] items[k]) == key;
            let lead = lemma_latest_exists(items, k, last);
            lemma_later_lead(items, lead, last, n, key)
        } else {
            last
        }
    } else {
        let lead = lemma_latest_exists(items, i, last);
        if group_key(items[last]) == key {
            lemma_later_lead(items, lead, last, n, key)
        } else {
            lead
        }
    }
}

proof fn lemma_later_lead(
    items: Seq<BackupListItem>,
    lead: int,
    last: int,
    n: int,
    key: (Seq<char>, Seq<char>),
) -> (res: int)
    requires
        0 <= lead < last,
        n == last + 1,
        n <= items.len(),
        group_key(items[lead]) == key,
        group_key(items[last]) == key,
        forall|j: int|
            0 <= j < last && group_key(#[trigger] items[j]) == key ==> leads(items, lead, j),
    ensures
        res == lead || res == last,
        forall|j: int|
            0 <= j < n && group_key(#[trigger] items[j]) == key ==> leads(items, res, j),
{
    lemma_leads_total(items, lead, last);
    lemma_leads_total(items, last, last);
    if leads(items, lead, last) {
        lead
    } else {
        assert forall|j: int| 0 <= j < n && group_key(#[trigger] items[j]) == key implies leads(
            items,
            last,
            j,
        ) by {
            if j < last {
                lemma_leads_transitive(items, last, lead, j);
            }
        }
        last
    }
}

/// Every run is shown by exactly one row: that of its own group.
pub proof fn law_every_run_has_one_row(
    items: Seq<BackupListItem>,
    picks: Seq<int>,
    rows: Seq<(&BackupListItem, usize)>,
    i: int,
)
    requires
        is_grouping(items, picks, rows),
        0 <= i < items.len(),
    ensures
        exists|k: int|
            #![trigger rows[k]]
            0 <= k < rows.len() && group_key(*rows[k].0) == group_key(items[i]),
        forall|a: int, b: int|
            #![trigger rows[a], rows[b]]
            0 <= a < rows.len() && 0 <= b < rows.len() && group_key(*rows[a].0) == group_key(
                *rows[b].0,
            ) ==> a == b,
{
    let lead = lemma_latest_exists(items, i, items.len() as int);
    assert(is_latest(items, lead));
    assert(picks.contains(lead));
    let k = choose|k: int| 0 <= k < picks.len() && picks[k] == lead;
    assert(*rows[k].0 == items[lead]);
    assert forall|a: int, b: int|
        #![trigger rows[a], rows[b]]
        0 <= a < rows.len() && 0 <= b < rows.len() && group_key(*rows[a].0) == group_key(
            *rows[b].0,
        ) implies a == b by {
        assert(picks.contains(picks[a]) && picks.contains(picks[b]));
        assert(*rows[a].0 == items[picks[a]] && *rows[b].0 == items[picks[b]]);
        assert(leads(items, picks[a], picks[b]));
        assert(leads(items, picks[b], picks[a]));
        lemma_leads_antisymmetric(items, picks[a], picks[b]);
    }
}

/// A running run is never hidden by one that is over: the row of its group shows an active run.
pub proof fn law_active_run_is_shown(
    items: Seq<BackupListItem>,
    picks: Seq<int>,
    rows: Seq<(&BackupListItem, usize)>,
    i: int,
    k: int,
)
    requires
        is_grouping(items, picks, rows),
        0 <= i < items.len(),
        0 <= k < rows.len(),
        group_key(*rows[k].0) == group_key(items[i]),
    ensures
        phase_rank(opt_view(rows[k].0.phase)) <= phase_rank(opt_view(items[i].phase)),
{
    assert(picks.contains(picks[k]));
    assert(*rows[k].0 == items[picks[k]]);
    assert(leads(items, picks[k], i));
}

/// Whether a run is one of the policy of that namespace and name.
pub open spec fn is_run_of(item: BackupListItem, ns: Seq<char>, policy: Seq<char>) -> bool {
    item.namespace@ == ns && (opt_view(item.policy_ref) matches Some(p) && trim(p) == policy)
}

/// Whether a run is one of the policy of that namespace and name.
pub fn matches_policy(item: &BackupListItem, policy_ns: &str, policy_name: &str) -> (res: bool)
    ensures
        res == is_run_of(*item, policy_ns@, policy_name@),
{
    if !same_text(item.namespace.as_str(), policy_ns) {
        return false;
    }
    match &item.policy_ref {
        Some(p) => same_text(trimmed(p.as_str()).as_str(), policy_name),
        None => false,
    }
}

/// The runs of a policy, in order.
pub open spec fn runs_of(items: Seq<BackupListItem>, ns: Seq<char>, policy: Seq<char>) -> Seq<
    BackupListItem,
>
    decreases items.len(),
{
    if items.len() == 0 {
        seq![]
    } else {
        let rest = runs_of(items.drop_last(), ns, policy);
        if is_run_of(items.last(), ns, policy) {
            rest.push(items.last())
        } else {
            rest
        }
    }
}

/// The runs of a policy as its page lists them.
pub fn policy_runs(items: Vec<BackupListItem>, policy_ns: &str, policy_name: &str) -> (res: Vec<
    BackupListItem,
>)
    ensures
        exists|places: Seq<int>| #[trigger]
            is_run_order(runs_of(items@, policy_ns@, policy_name@), places, res@),
{
    let ghost all = items@;
    let mut todo = reversed(items);
    let mut kept: Vec<BackupListItem> = Vec::new();
    proof {
        assert(all.take(0) =~= seq![]);
    }
    while todo.len() > 0
        invariant
            todo@.len() <= all.len(),
            forall|i: int|
                0 <= i < todo@.len() ==> #[trigger] todo@[i] == all[all.len() - 1 - i],
            kept@ == runs_of(
                all.take(all.len() - todo@.len()),
                policy_ns@,
                policy_name@,
            ),
        decreases todo@.len(),
    {
        let ghost done = all.len() - todo@.len();
        if let Some(item) = todo.pop() {
            proof {
                assert(item == all[done]);
                assert(all.take(done + 1).drop_last() =~= all.take(done));
                assert(all.take(done + 1).last() == item);
            }
            if matches_policy(&item, policy_ns, policy_name) {
                kept.push(item);
            }
        }
    }
    assert(all.take(all.len() as int) =~= all);
    sort_runs(kept)
}

/// Runs under way come first, then those that wait, then the others; among runs of one standing the
/// later name comes first.
pub proof fn law_runs_under_way_come_first(a: BackupListItem, b: BackupListItem)
    ensures
        opt_view(a.phase) == Some("Running"@) && opt_view(b.phase) != Some("Running"@) ==> run_le(
            a,
            b,
        ) && !run_le(b, a),
        opt_view(a.phase) == Some("Pending"@) && opt_view(b.phase) != Some("Running"@) && opt_view(
            b.phase,
        ) != Some("Pending"@) ==> run_le(a, b) && !run_le(b, a),
        opt_view(a.phase) == opt_view(b.phase) ==> (run_le(a, b) <==> text_le(b.name@, a.name@)),
{
    reveal_strlit("Running");
    reveal_strlit("Pending");
    assert("Running"@[0] == 'R' && "Pending"@[0] == 'P');
}

/// The runs in order are the runs, each once, no run before one that comes first.
pub proof fn law_run_order_is_an_order(
    items: Seq<BackupListItem>,
    places: Seq<int>,
    res: Seq<BackupListItem>,
    a: int,
    b: int,
)
    requires
        is_run_order(items, places, res),
        0 <= a < b < res.len(),
    ensures
        res.len() == items.len(),
        run_le(res[a], res[b]),
        res[a] == items[places[a]],
        places[a] != places[b],
        run_le(res[b], res[a]) ==> places[a] < places[b],
{
    assert(leads(items, places[a], places[b]));
}

/// Two runs share a row exactly where they lie in one namespace and are of one policy, or are the
/// same run without a policy.
pub proof fn law_runs_of_a_policy_share_a_row(a: BackupListItem, b: BackupListItem)
    ensures
        group_key(a) == group_key(b) <==> a.namespace@ == b.namespace@ && named(
            opt_view(a.policy_ref),
        ) == named(opt_view(b.policy_ref)) && (named(opt_view(a.policy_ref)) is None ==> a.name@
            == b.name@),
{
    reveal_strlit("policy:");
    reveal_strlit("run:");
    let (ka, kb) = (group_key(a).1, group_key(b).1);
    let (pa, pb) = (named(opt_view(a.policy_ref)), named(opt_view(b.policy_ref)));
    assert("policy:"@[0] == 'p' && "run:"@[0] == 'r');
    assert(pa is Some ==> ka[0] == 'p' && ka.skip(7) =~= pa->0);
    assert(pa is None ==> ka[0] == 'r' && ka.skip(4) =~= a.name@);
    assert(pb is Some ==> kb[0] == 'p' && kb.skip(7) =~= pb->0);
    assert(pb is None ==> kb[0] == 'r' && kb.skip(4) =~= b.name@);
}

/// Of the runs that share a row the one shown comes first, and the count is that of all of them.
pub proof fn law_first_run_of_a_row_is_shown(
    items: Seq<BackupListItem>,
    picks: Seq<int>,
    rows: Seq<(&BackupListItem, usize)>,
    i: int,
    k: int,
)
    requires
        is_grouping(items, picks, rows),
        0 <= i < items.len(),
        0 <= k < rows.len(),
        group_key(*rows[k].0) == group_key(items[i]),
    ensures
        run_le(*rows[k].0, items[i]),
        rows[k].1 == group_size(items, group_key(items[i])),
        items.contains(*rows[k].0),
{
    let p = picks[k];
    assert(picks.contains(p));
    assert(is_latest(items, p));
    assert(*rows[k].0 == items[p]);
    assert(leads(items, p, i));
}

/// Rows go from the later name to the earlier one.
pub proof fn law_rows_go_by_name(a: BackupListItem, b: BackupListItem)
    ensures
        a.name@ != b.name@ ==> (row_le(a, b) <==> text_le(b.name@, a.name@)),
        a.name@ == b.name@ && a.namespace@ != b.namespace@ ==> (row_le(a, b) <==> text_le(
            a.namespace@,
            b.namespace@,
        )),
{
}

/// The runs that share a row are counted one by one.
pub proof fn law_runs_are_counted_one_by_one(
    a: Seq<BackupListItem>,
    b: Seq<BackupListItem>,
    x: BackupListItem,
    key: (Seq<char>, Seq<char>),
)
    ensures
        group_size(a + b, key) == group_size(a, key) + group_size(b, key),
        group_size(seq![x], key) == (if group_key(x) == key {
            1int
        } else {
            0
        }),
    decreases b.len(),
{
    assert(seq![x].drop_last() =~= seq![]);
    assert(group_size(seq![], key) == 0);
    if b.len() == 0 {
        assert(a + b =~= a);
    } else {
        assert((a + b).drop_last() =~= a + b.drop_last());
        law_runs_are_counted_one_by_one(a, b.drop_last(), x, key);
    }
}

/// Of a list of runs those are listed that lie in the namespace and are of the policy, in order.
pub proof fn law_runs_of_a_policy_are_listed(
    a: Seq<BackupListItem>,
    b: Seq<BackupListItem>,
    x: BackupListItem,
    ns: Seq<char>,
    policy: Seq<char>,
)
    ensures
        runs_of(a + b, ns, policy) == runs_of(a, ns, policy) + runs_of(b, ns, policy),
        x.namespace@ == ns && x.policy_ref is Some && trim(x.policy_ref->0@) == policy ==> runs_of(
            seq![x],
            ns,
            policy,
        ) == seq![x],
        !(x.namespace@ == ns && x.policy_ref is Some && trim(x.policy_ref->0@) == policy)
            ==> runs_of(seq![x], ns, policy).len() == 0,
    decreases b.len(),
{
    assert(seq![x].drop_last() =~= seq![]);
    assert(runs_of(seq![], ns, policy) =~= seq![]);
    if b.len() == 0 {
        assert(a + b =~= a);
        assert(runs_of(a, ns, policy) + runs_of(b, ns, policy) =~= runs_of(a, ns, policy));
    } else {
        assert((a + b).drop_last() =~= a + b.drop_last());
        law_runs_of_a_policy_are_listed(a, b.drop_last(), x, ns, policy);
        assert(runs_of(a + b, ns, policy) =~= runs_of(a, ns, policy) + runs_of(b, ns, policy));
    }
    if x.namespace@ == ns && x.policy_ref is Some && trim(x.policy_ref->0@) == policy {
        assert(runs_of(seq![x], ns, policy) =~= seq![x]);
    }
}

} // verus!
