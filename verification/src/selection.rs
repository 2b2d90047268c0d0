//! Picking the day's image: a random draw from the pool that avoids every
//! object selected in the recency window, then persisting the choice.

use vstd::prelude::*;

use crate::date::{lemma_prev_n_succ, Date};
use crate::images::{set_image, WINDOW_SIZE};
use crate::store::{ImageRow, Store};
use vstd::seq_lib::lemma_seq_contains_after_push;

verus! {

/// Why no object could be selected.
#[derive(Clone, Copy, Debug, PartialEq, Eq, Structural)]
pub enum SelectAndSetRandomObjectError {
    /// The pool holds no objects at all.
    SelectionExhausted,
    /// Every object in the pool was already selected within the window.
    PoolExhausted,
}

/// Relies on `rand::random_range`: returns a uniformly drawn value inside
/// the given range, and panics only on an empty range, which `n > 0` rules
/// out.
#[verifier::external_body]
fn random_below(n: usize) -> (r: usize)
    requires
        n > 0,
    ensures
        r < n,
{
    rand::random_range(0..n)
}

/// The record stored for the day `i` days before `d`, if any.
pub open spec fn window_record(s: Store, g: Seq<char>, d: Date, i: int) -> Option<
    crate::store::ImageRowView,
> {
    s.image_at(g, d.spec_prev_n(i as nat))
}

/// Whether `key` was selected on the day `i` days before `d`.
pub open spec fn window_day_has_key(
    s: Store,
    g: Seq<char>,
    d: Date,
    i: int,
    key: Seq<char>,
) -> bool {
    match window_record(s, g, d, i) {
        Some(v) => v.object_key == key,
        None => false,
    }
}

/// Whether the day `i` days before `d` stored a refresh-flagged selection.
pub open spec fn window_day_flagged(s: Store, g: Seq<char>, d: Date, i: int) -> bool {
    match window_record(s, g, d, i) {
        Some(v) => v.get_recents,
        None => false,
    }
}

/// Whether `key` was selected on one of the `WINDOW_SIZE` days before `d`:
/// the exclusion set of the anti-repeat rule.
pub open spec fn excluded(s: Store, g: Seq<char>, d: Date, key: Seq<char>) -> bool {
    exists|i: int| 1 <= i <= WINDOW_SIZE && #[trigger] window_day_has_key(s, g, d, i, key)
}

/// Days since the most recent refresh-flagged selection in the window, or 0
/// when the window holds none — a refresh is then due immediately.
pub open spec fn spec_days_since_refresh(s: Store, g: Seq<char>, d: Date) -> int {
    if window_day_flagged(s, g, d, 1) {
        1
    } else if window_day_flagged(s, g, d, 2) {
        2
    } else if window_day_flagged(s, g, d, 3) {
        3
    } else if window_day_flagged(s, g, d, 4) {
        4
    } else if window_day_flagged(s, g, d, 5) {
        5
    } else {
        0
    }
}

/// A fetched window entry mirrors what the store holds for the day `t` days
/// back.
spec fn window_entry_ok(
    w: Seq<Option<ImageRow>>,
    s: Store,
    g: Seq<char>,
    d: Date,
    t: int,
) -> bool {
    match window_record(s, g, d, t) {
        Some(v) => 0 <= t - 1 < w.len() && (w[t - 1] matches Some(row) && row@ == v),
        None => 0 <= t - 1 < w.len() && w[t - 1] is None,
    }
}

/// Select a random object from `pool` that was not selected in the
/// `WINDOW_SIZE` days before `date`, store it as the selection for
/// `(group, date)`, and return its key.
///
/// Fails with `SelectionExhausted` when the pool is empty and with
/// `PoolExhausted` when every object in it is excluded; the store is left
/// untouched on failure. Whenever any candidate escapes the exclusion set,
/// the call succeeds.
pub fn select_and_set(store: &mut Store, group: &String, date: Date, pool: &Vec<String>) -> (r:
    Result<String, SelectAndSetRandomObjectError>)
    requires
        old(store).wf(),
        date.valid(),
        date.year >= 2,
    ensures
        final(store).wf(),
        final(store).counts@ == old(store).counts@,
        final(store).users@ == old(store).users@,
        match r {
            Ok(key) => {
                &&& exists|k: int| 0 <= k < pool@.len() && #[trigger] pool@[k]@ == key@
                &&& !excluded(*old(store), group@, date, key@)
                &&& final(store).image_at(group@, date) == Some(
                    crate::store::ImageRowView {
                        object_key: key@,
                        get_recents: spec_days_since_refresh(*old(store), group@, date) == 0,
                        days_until_get_recents: (WINDOW_SIZE + 1) - spec_days_since_refresh(
                            *old(store),
                            group@,
                            date,
                        ),
                    },
                )
                &&& forall|g: Seq<char>, d: Date|
                    !(g == group@ && d == date) ==> #[trigger] final(store).image_at(g, d) == old(
                        store,
                    ).image_at(g, d)
            },
            Err(e) => {
                &&& *final(store) == *old(store)
                &&& (e == SelectAndSetRandomObjectError::SelectionExhausted <==> pool@.len() == 0)
                &&& (e == SelectAndSetRandomObjectError::PoolExhausted <==> pool@.len() > 0)
                &&& e == SelectAndSetRandomObjectError::PoolExhausted ==> forall|k: int|
                    0 <= k < pool@.len() ==> excluded(*old(store), group@, date, #[trigger] pool@[k]@)
            },
        },
        (exists|k: int|
            0 <= k < pool@.len() && !excluded(*old(store), group@, date, #[trigger] pool@[k]@))
            ==> r is Ok,
{
    let ghost pre = *store;

    // fetch the window: record i days back sits at index i - 1
    let mut window: Vec<Option<ImageRow>> = Vec::new();
    let mut cur: Date = date;
    let mut i: usize = 0;
    while i < WINDOW_SIZE
        invariant
            i <= WINDOW_SIZE,
            window@.len() == i,
            date.valid(),
            date.year >= 2,
            pre == *store,
            store.wf(),
            cur == date.spec_prev_n(i as nat),
            cur.valid(),
            cur.year == date.year || cur.year + 1 == date.year,
            cur.year + 1 == date.year ==> cur.month == 12 && cur.day + i >= 31,
            forall|t: int|
                1 <= t <= i ==> #[trigger] window_entry_ok(window@, pre, group@, date, t),
        decreases WINDOW_SIZE - i,
    {
        let day = cur.prev_day();
        proof {
            lemma_prev_n_succ(date, i as nat);
        }
        let ghost prev_window = window@;
        window.push(store.lookup_image(group, day));
        proof {
            assert forall|t: int| 1 <= t <= i + 1 implies #[trigger] window_entry_ok(
                window@,
                pre,
                group@,
                date,
                t,
            ) by {
                if t <= i {
                    assert(window_entry_ok(prev_window, pre, group@, date, t));
                    assert(window@[t - 1] == prev_window[t - 1]);
                } else {
                    assert(day == date.spec_prev_n((i + 1) as nat));
                }
            }
        }
        cur = day;
        i = i + 1;
    }

    // how long ago the last refresh point was
    let mut days_since: i64 = 0;
    let mut j: usize = 0;
    while j < WINDOW_SIZE && days_since == 0
        invariant
            j <= WINDOW_SIZE,
            window@.len() == WINDOW_SIZE,
            forall|t: int|
                1 <= t <= WINDOW_SIZE ==> #[trigger] window_entry_ok(window@, pre, group@, date, t),
            forall|t: int| 1 <= t <= j ==> !(#[trigger] window_day_flagged(pre, group@, date, t)),
            days_since != 0 ==> j < WINDOW_SIZE && days_since == j + 1 && window_day_flagged(
                pre,
                group@,
                date,
                j + 1,
            ),
        decreases WINDOW_SIZE - j + (if days_since == 0 {
            1int
        } else {
            0int
        }),
    {
        proof {
            assert(window_entry_ok(window@, pre, group@, date, j + 1));
        }
        let flagged: bool = match &window[j] {
            Some(row) => row.get_recents,
            None => false,
        };
        if flagged {
            days_since = (j + 1) as i64;
        } else {
            j = j + 1;
        }
    }
    proof {
        assert(window_entry_ok(window@, pre, group@, date, 1));
        assert(window_entry_ok(window@, pre, group@, date, 2));
        assert(window_entry_ok(window@, pre, group@, date, 3));
        assert(window_entry_ok(window@, pre, group@, date, 4));
        assert(window_entry_ok(window@, pre, group@, date, 5));
        assert(days_since == spec_days_since_refresh(pre, group@, date));
    }

    if pool.len() == 0 {
        return Err(SelectAndSetRandomObjectError::SelectionExhausted);
    }

    // the candidates: indices of pool objects outside the exclusion set
    let mut candidates: Vec<usize> = Vec::new();
    let mut k: usize = 0;
    while k < pool.len()
        invariant
            k <= pool@.len(),
            window@.len() == WINDOW_SIZE,
            forall|t: int|
                1 <= t <= WINDOW_SIZE ==> #[trigger] window_entry_ok(window@, pre, group@, date, t),
            forall|t: int|
                0 <= t < candidates@.len() ==> (#[trigger] candidates@[t]) < k && !excluded(
                    pre,
                    group@,
                    date,
                    pool@[candidates@[t] as int]@,
                ),
            forall|m: int|
                0 <= m < k && !excluded(pre, group@, date, #[trigger] pool@[m]@)
                    ==> candidates@.contains(m as usize),
        decreases pool@.len() - k,
    {
        let mut hit: bool = false;
        let mut w: usize = 0;
        while w < WINDOW_SIZE && !hit
            invariant
                w <= WINDOW_SIZE,
                k < pool@.len(),
                window@.len() == WINDOW_SIZE,
                forall|t: int|
                    1 <= t <= WINDOW_SIZE ==> #[trigger] window_entry_ok(
                        window@,
                        pre,
                        group@,
                        date,
                        t,
                    ),
                hit ==> excluded(pre, group@, date, pool@[k as int]@),
                !hit ==> forall|t: int|
                    1 <= t <= w ==> !(#[trigger] window_day_has_key(
                        pre,
                        group@,
                        date,
                        t,
                        pool@[k as int]@,
                    )),
            decreases WINDOW_SIZE - w + (if hit {
                0int
            } else {
                1int
            }),
        {
            proof {
                assert(window_entry_ok(window@, pre, group@, date, w + 1));
            }
            let found: bool = match &window[w] {
                Some(row) => row.object_key == pool[k],
                None => false,
            };
            if found {
                proof {
                    assert(window_day_has_key(pre, group@, date, w + 1, pool@[k as int]@));
                }
                hit = true;
            } else {
                w = w + 1;
            }
        }
        if !hit {
            let ghost old_candidates = candidates@;
            candidates.push(k);
            proof {
                assert forall|m: int|
                    0 <= m < k + 1 && !excluded(pre, group@, date, #[trigger] pool@[m]@) implies candidates@.contains(
                    m as usize,
                ) by {
                    if m < k {
                        lemma_seq_contains_after_push(old_candidates, k as usize, m as usize);
                    } else {
                        assert(candidates@[candidates@.len() - 1] == m as usize);
                    }
                }
            }
        }
        k = k + 1;
    }

    if candidates.len() == 0 {
        proof {
            assert forall|m: int| 0 <= m < pool@.len() implies excluded(
                pre,
                group@,
                date,
                #[trigger] pool@[m]@,
            ) by {
                if !excluded(pre, group@, date, pool@[m]@) {
                    assert(candidates@.contains(m as usize));
                }
            }
        }
        return Err(SelectAndSetRandomObjectError::PoolExhausted);
    }

    let pick: usize = random_below(candidates.len());
    let idx: usize = candidates[pick];
    let key: String = pool[idx].clone();
    set_image(store, group, date, &key, days_since);
    Ok(key)
}

/// The object keys stored on the days 1 through `n` before `d`.
spec fn window_keys_upto(s: Store, g: Seq<char>, d: Date, n: int) -> Set<Seq<char>>
    decreases n,
{
    if n <= 0 {
        Set::empty()
    } else {
        let rest = window_keys_upto(s, g, d, n - 1);
        match window_record(s, g, d, n) {
            Some(v) => rest.insert(v.object_key),
            None => rest,
        }
    }
}

proof fn lemma_window_keys_len(s: Store, g: Seq<char>, d: Date, n: int)
    requires
        n >= 0,
    ensures
        window_keys_upto(s, g, d, n).finite(),
        window_keys_upto(s, g, d, n).len() <= n,
    decreases n,
{
    broadcast use vstd::set::group_set_axioms;

    if n > 0 {
        lemma_window_keys_len(s, g, d, n - 1);
    }
}

proof fn lemma_window_keys_contain(s: Store, g: Seq<char>, d: Date, n: int, i: int, key: Seq<char>)
    requires
        1 <= i <= n,
        window_day_has_key(s, g, d, i, key),
    ensures
        window_keys_upto(s, g, d, n).contains(key),
    decreases n,
{
    broadcast use vstd::set::group_set_axioms;

    if i < n {
        lemma_window_keys_contain(s, g, d, n - 1, i, key);
    }
}

/// Anti-repeat guarantee: when the pool holds more distinct objects than the
/// window has days, some object always escapes the exclusion set, so the
/// selection cannot fail for want of a candidate.
pub proof fn lemma_pool_larger_than_window(s: Store, g: Seq<char>, d: Date, pool: Seq<Seq<char>>)
    requires
        pool.to_set().len() > WINDOW_SIZE,
    ensures
        exists|k: int| 0 <= k < pool.len() && !excluded(s, g, d, #[trigger] pool[k]),
{
    broadcast use vstd::set::group_set_axioms;
    broadcast use vstd::seq_lib::seq_to_set_is_finite;

    if !(exists|k: int| 0 <= k < pool.len() && !excluded(s, g, d, #[trigger] pool[k])) {
        let keys = window_keys_upto(s, g, d, WINDOW_SIZE as int);
        assert forall|x: Seq<char>| pool.to_set().contains(x) implies keys.contains(x) by {
            assert(pool.contains(x));
            let k = choose|k: int| 0 <= k < pool.len() && pool[k] == x;
            assert(excluded(s, g, d, pool[k]));
            let i = choose|i: int| 1 <= i <= WINDOW_SIZE && #[trigger] window_day_has_key(
                s,
                g,
                d,
                i,
                x,
            );
            lemma_window_keys_contain(s, g, d, WINDOW_SIZE as int, i, x);
        }
        lemma_window_keys_len(s, g, d, WINDOW_SIZE as int);
        vstd::set_lib::lemma_len_subset(pool.to_set(), keys);
        assert(false);
    }
}

} // verus!
