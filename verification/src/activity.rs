//! Activities: what is locked on, and which of them to suggest next.

use crate::number::{parse_number, parse_unsigned};
use crate::text::{after, before, chars_of, take_after, take_before, trim, trimmed};
use vstd::prelude::*;

verus! {

/// An activity that the user may lock on.
#[derive(Debug, Clone)]
pub struct Activity {
    pub id: String,
    pub name: String,
    /// The time of day at which the activity is usually done, as `HH:MM`.
    pub typical_time: String,
    pub duration_minutes: u32,
    pub minimum_lock_minutes: u32,
    pub allowed_apps: Vec<String>,
    pub allowed_domains: Vec<String>,
}

/// How many minutes a day has.
pub const MINUTES_PER_DAY: i64 = 1440;

/// How many activities are suggested at most.
pub const SUGGESTIONS: usize = 3;

/// The minimum lock time of an activity that states none, in minutes.
pub fn default_lock_minutes() -> (r: u32)
    ensures
        r == 10,
{
    10
}

/// The hour and minute that `s` states: two numbers around one colon, each
/// with white space around it at most, the hour below 24 and the minute
/// below 60.
pub open spec fn time_of(s: Seq<char>) -> Option<(u32, u32)> {
    match after(s, ':') {
        None => None,
        Some(rest) => if after(rest, ':') is Some {
            None
        } else {
            match (
                parse_unsigned(trimmed(before(s, ':')), u32::MAX as nat),
                parse_unsigned(trimmed(rest), u32::MAX as nat),
            ) {
                (Some(h), Some(m)) => if h < 24 && m < 60 {
                    Some((h as u32, m as u32))
                } else {
                    None
                },
                _ => None,
            }
        },
    }
}

/// The minute of the day that `s` states; 0 where it states no time.
pub open spec fn minute_of_day(s: Seq<char>) -> int {
    match time_of(s) {
        Some((h, m)) => h * 60 + m,
        None => 0,
    }
}

/// How far two minutes of the day lie apart, the shorter way round the
/// clock.
pub open spec fn day_distance(a: int, b: int) -> int {
    let d = if a >= b {
        a - b
    } else {
        b - a
    };
    if d > MINUTES_PER_DAY / 2 {
        MINUTES_PER_DAY - d
    } else {
        d
    }
}

/// How far each activity's usual time lies from the minute `now` of the day.
pub open spec fn distances(activities: Seq<Activity>, now: int) -> Seq<int> {
    Seq::new(activities.len(), |i: int| day_distance(minute_of_day(activities[i].typical_time@), now))
}

/// Whether the activity at index `i` is suggested before the one at index
/// `j`: it lies nearer, or as near and earlier in the list.
pub open spec fn goes_before(d: Seq<int>, i: int, j: int) -> bool {
    d[i] < d[j] || (d[i] == d[j] && i < j)
}

/// Whether `chosen` holds the indices of the first `chosen.len()` activities
/// in the order of suggestion: they stand in that order, and every other
/// activity goes after each of them.
pub open spec fn leads(d: Seq<int>, chosen: Seq<usize>) -> bool {
    &&& forall|k: int| 0 <= k < chosen.len() ==> (#[trigger] chosen[k]) < d.len()
    &&& forall|a: int, b: int|
        #![trigger chosen[a], chosen[b]]
        0 <= a < b < chosen.len() ==> goes_before(d, chosen[a] as int, chosen[b] as int)
    &&& forall|k: int, j: int|
        #![trigger chosen[k], d[j]]
        0 <= k < chosen.len() && 0 <= j < d.len() && !chosen.contains(j as usize) ==> goes_before(
            d,
            chosen[k] as int,
            j,
        )
}

/// A time that is read lies within the day.
pub proof fn lemma_time_in_range(s: Seq<char>)
    ensures
        time_of(s) matches Some(t) ==> t.0 < 24 && t.1 < 60,
        0 <= minute_of_day(s) < MINUTES_PER_DAY,
{
}

/// Two minutes of the day lie at most half a day apart, and as far from each
/// other either way.
pub proof fn lemma_day_distance(a: int, b: int)
    requires
        0 <= a < MINUTES_PER_DAY,
        0 <= b < MINUTES_PER_DAY,
    ensures
        0 <= day_distance(a, b) <= MINUTES_PER_DAY / 2,
        day_distance(a, b) == day_distance(b, a),
        day_distance(a, a) == 0,
{
}

/// Reads a time of day written as `HH:MM`.
pub fn parse_time(s: &str) -> (r: Option<(u32, u32)>)
    ensures
        r == time_of(s@),
{
    let chars: Vec<char> = chars_of(s);
    let rest: &[char] = match take_after(chars.as_slice(), ':') {
        None => {
            return None;
        },
        Some(rest) => rest,
    };
    if take_after(rest, ':').is_some() {
        return None;
    }
    let h: u64 = match parse_number(trim(take_before(chars.as_slice(), ':')), 0xffff_ffff) {
        None => {
            return None;
        },
        Some(h) => h,
    };
    let m: u64 = match parse_number(trim(rest), 0xffff_ffff) {
        None => {
            return None;
        },
        Some(m) => m,
    };
    if h < 24 && m < 60 {
        Some((h as u32, m as u32))
    } else {
        None
    }
}

/// How far the usual time `typical_time` lies from the minute `now_minutes`
/// of the day.
pub fn distance_from(typical_time: &str, now_minutes: u32) -> (r: i64)
    ensures
        r == day_distance(minute_of_day(typical_time@), now_minutes as int),
{
    let usual: i64 = match parse_time(typical_time) {
        Some((h, m)) => (h * 60 + m) as i64,
        None => 0,
    };
    let now: i64 = now_minutes as i64;
    let d: i64 = if usual >= now {
        usual - now
    } else {
        now - usual
    };
    if d > MINUTES_PER_DAY / 2 {
        MINUTES_PER_DAY - d
    } else {
        d
    }
}

/// Whether `j` is among the chosen.
fn holds(chosen: &Vec<usize>, j: usize) -> (r: bool)
    ensures
        r == chosen@.contains(j),
{
    let mut k: usize = 0;
    while k < chosen.len()
        invariant
            k <= chosen.len(),
            forall|a: int| 0 <= a < k ==> chosen@[a] != j,
        decreases chosen.len() - k,
    {
        if chosen[k] == j {
            return true;
        }
        k += 1;
    }
    false
}

/// The indices of the activities to suggest at the minute `now_minutes` of
/// the day: the three whose usual time lies nearest, nearest first, and of
/// two that lie as near the one that stands earlier in the list first.
pub fn suggested_indices(activities: &[Activity], now_minutes: u32) -> (r: Vec<usize>)
    ensures
        r@.len() == if activities@.len() < SUGGESTIONS {
            activities@.len()
        } else {
            SUGGESTIONS as nat
        },
        leads(distances(activities@, now_minutes as int), r@),
{
    let n: usize = activities.len();
    let ghost d = distances(activities@, now_minutes as int);
    let mut dist: Vec<i64> = Vec::new();
    let mut i: usize = 0;
    while i < n
        invariant
            i <= n,
            n == activities@.len(),
            d == distances(activities@, now_minutes as int),
            dist@.len() == i,
            forall|j: int| 0 <= j < i ==> dist@[j] == d[j],
        decreases n - i,
    {
        dist.push(distance_from(activities[i].typical_time.as_str(), now_minutes));
        i += 1;
    }
    let mut chosen: Vec<usize> = Vec::new();
    while chosen.len() < SUGGESTIONS && chosen.len() < n
        invariant
            n == d.len(),
            dist@.len() == n,
            forall|j: int| 0 <= j < n ==> dist@[j] == d[j],
            chosen@.len() <= SUGGESTIONS,
            chosen@.len() <= n,
            chosen@.no_duplicates(),
            leads(d, chosen@),
        decreases SUGGESTIONS - chosen@.len(),
    {
        let mut best: Option<usize> = None;
        let mut j: usize = 0;
        while j < n
            invariant
                j <= n,
                n == d.len(),
                dist@.len() == n,
                forall|k: int| 0 <= k < n ==> dist@[k] == d[k],
                match best {
                    Some(b) => b < j && !chosen@.contains(b) && forall|k: int|
                        0 <= k < j && !chosen@.contains(k as usize) && k != b ==> goes_before(
                            d,
                            b as int,
                            k,
                        ),
                    None => forall|k: usize| k < j ==> chosen@.contains(k),
                },
            decreases n - j,
        {
            if !holds(&chosen, j) {
                match best {
                    None => {
                        best = Some(j);
                    },
                    Some(b) => {
                        if dist[j] < dist[b] {
                            assert forall|k: int|
                                0 <= k < j && !chosen@.contains(k as usize) implies goes_before(
                                d,
                                j as int,
                                k,
                            ) by {
                                if k != b {
                                    assert(goes_before(d, b as int, k));
                                }
                            }
                            best = Some(j);
                        } else {
                            assert(goes_before(d, b as int, j as int));
                        }
                    },
                }
            }
            j += 1;
        }
        match best {
            None => {
                proof {
                    lemma_all_held(chosen@, n);
                }
                return chosen;
            },
            Some(b) => {
                let ghost before = chosen@;
                chosen.push(b);
                assert forall|k: int, j: int|
                    #![trigger chosen@[k], d[j]]
                    0 <= k < chosen@.len() && 0 <= j < d.len() && !chosen@.contains(
                        j as usize,
                    ) implies goes_before(d, chosen@[k] as int, j) by {
                    assert(!before.contains(j as usize)) by {
                        if before.contains(j as usize) {
                            let w = choose|w: int| 0 <= w < before.len() && before[w] == j as usize;
                            assert(chosen@[w] == j as usize);
                        }
                    }
                    assert(j != b) by {
                        assert(chosen@[before.len() as int] == b);
                    }
                    if k < before.len() {
                        assert(before[k] == chosen@[k]);
                    }
                }
                assert forall|x: int, y: int|
                    #![trigger chosen@[x], chosen@[y]]
                    0 <= x < y < chosen@.len() implies goes_before(
                    d,
                    chosen@[x] as int,
                    chosen@[y] as int,
                ) by {
                    if y < before.len() {
                        assert(before[x] == chosen@[x] && before[y] == chosen@[y]);
                    } else {
                        assert(before[x] == chosen@[x]);
                        assert(d[b as int] == d[b as int]);
                    }
                }
                assert(chosen@.no_duplicates()) by {
                    assert forall|x: int, y: int|
                        0 <= x < chosen@.len() && 0 <= y < chosen@.len() && x != y implies chosen@[x]
                        != chosen@[y] by {
                        if x < before.len() && y < before.len() {
                            assert(before[x] != before[y]);
                        } else if x < before.len() {
                            assert(before.contains(before[x]));
                        } else {
                            assert(before.contains(before[y]));
                        }
                    }
                }
            },
        }
    }
    chosen
}

/// The order of suggestion leaves no choice: two lists of the same length
/// that both lead are the same list.
pub proof fn lemma_leads_is_unique(d: Seq<int>, a: Seq<usize>, b: Seq<usize>)
    requires
        leads(d, a),
        leads(d, b),
        a.len() == b.len(),
    ensures
        a == b,
{
    assert forall|k: int| 0 <= k < a.len() implies a[k] == b[k] by {
        lemma_leads_agree(d, a, b, k);
    }
    assert(a =~= b);
}

/// Two lists that both lead agree up to and at every index that both have.
proof fn lemma_leads_agree(d: Seq<int>, a: Seq<usize>, b: Seq<usize>, k: int)
    requires
        leads(d, a),
        leads(d, b),
        0 <= k < a.len(),
        k < b.len(),
    ensures
        forall|j: int| 0 <= j <= k ==> a[j] == b[j],
    decreases k,
{
    if k > 0 {
        lemma_leads_agree(d, a, b, k - 1);
    }
    if a[k] != b[k] {
        if goes_before(d, a[k] as int, b[k] as int) {
            lemma_missing_goes_after(d, a, b, k);
        } else {
            lemma_missing_goes_after(d, b, a, k);
        }
    }
}

/// Where two lists that both lead agree below `k`, what the first holds at
/// `k` does not go before what the second holds there.
proof fn lemma_missing_goes_after(d: Seq<int>, a: Seq<usize>, b: Seq<usize>, k: int)
    requires
        leads(d, a),
        leads(d, b),
        0 <= k < a.len(),
        k < b.len(),
        forall|j: int| 0 <= j < k ==> a[j] == b[j],
        a[k] != b[k],
    ensures
        !goes_before(d, a[k] as int, b[k] as int),
{
    let x = a[k];
    if b.contains(x) {
        let m = choose|m: int| 0 <= m < b.len() && b[m] == x;
        if m < k {
            assert(a[m] == b[m]);
            assert(goes_before(d, a[m] as int, a[k] as int));
        } else {
            assert(goes_before(d, b[k] as int, b[m] as int));
        }
    } else {
        assert(d[x as int] == d[x as int]);
        assert(goes_before(d, b[k] as int, x as int));
    }
}

/// Indices below `n` without repetition, which hold every index below `n`,
/// are `n` in number.
proof fn lemma_all_held(chosen: Seq<usize>, n: usize)
    requires
        chosen.no_duplicates(),
        forall|k: int| 0 <= k < chosen.len() ==> (#[trigger] chosen[k]) < n,
        forall|k: usize| k < n ==> chosen.contains(k),
    ensures
        chosen.len() == n,
{
    let held = chosen.to_set();
    let all = Set::new(|k: usize| k < n as nat);
    assert(held =~= all) by {
        assert forall|k: usize| all.contains(k) implies held.contains(k) by {
            assert(chosen.contains(k));
        }
    }
    chosen.unique_seq_to_set();
    lemma_indices_below(n as nat);
}

/// There are `n` indices below `n`.
proof fn lemma_indices_below(n: nat)
    ensures
        Set::new(|k: usize| k < n).finite(),
        n <= usize::MAX + 1 ==> Set::new(|k: usize| k < n).len() == n,
    decreases n,
{
    let s = Set::new(|k: usize| k < n);
    if n == 0 {
        assert(s =~= Set::<usize>::empty());
    } else {
        lemma_indices_below((n - 1) as nat);
        let t = Set::new(|k: usize| k < n - 1);
        if n <= usize::MAX + 1 {
            assert(s =~= t.insert((n - 1) as usize));
        } else {
            assert(s =~= t);
        }
    }
}

} // verus!
