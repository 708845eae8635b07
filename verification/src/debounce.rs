//! Leading-edge debouncing of change notifications.
//!
//! The debouncer holds, for each path ever accepted, the timestamp of its
//! last accepted notification. A notification is accepted when the path has
//! no recorded timestamp yet, or when at least the quiet window has elapsed
//! since the last acceptance; every other notification for that path is
//! silently dropped. The window is measured from the last *acceptance*, so a
//! burst of notifications collapses to its first member. Entries are never
//! removed.

use crate::assoc::{fold_pairs, lemma_fold_pairs_contains, lemma_fold_pairs_update, lemma_fold_pairs_value};
use vstd::prelude::*;

verus! {

/// Whether a notification for `path` at time `now` is accepted against the
/// recorded last-acceptance map `m`: the path is new, or the quiet window has
/// fully elapsed since its last acceptance.
pub open spec fn spec_accepts(m: Map<Seq<char>, u64>, window: u64, path: Seq<char>, now: u64) -> bool {
    !m.contains_key(path) || now >= m[path] + window
}

/// The last-acceptance map after a notification for `path` at time `now`:
/// unchanged when the notification is dropped, updated to `now` when it is
/// accepted.
pub open spec fn spec_step(m: Map<Seq<char>, u64>, window: u64, path: Seq<char>, now: u64) -> Map<
    Seq<char>,
    u64,
> {
    if spec_accepts(m, window, path, now) {
        m.insert(path, now)
    } else {
        m
    }
}

/// Coalesces rapid notifications for the same path: one logical event per
/// quiet window.
pub struct Debouncer {
    window: u64,
    entries: Vec<(String, u64)>,
}

impl Debouncer {
    /// The quiet window, in the caller's time unit.
    pub closed spec fn window(self) -> u64 {
        self.window
    }

    /// The recorded entries, as character sequences.
    pub closed spec fn entries_seq(self) -> Seq<(Seq<char>, u64)> {
        self.entries@.map_values(|p: (String, u64)| (p.0@, p.1))
    }

    /// Path to timestamp of its last accepted notification.
    pub open spec fn last_accepted(self) -> Map<Seq<char>, u64> {
        fold_pairs(self.entries_seq())
    }

    /// Each path has at most one entry.
    pub closed spec fn wf(self) -> bool {
        forall|i: int, j: int|
            0 <= i < j < self.entries_seq().len() ==> self.entries_seq()[i].0
                != self.entries_seq()[j].0
    }

    /// A fresh debouncer: no path has been accepted yet.
    pub fn new(window: u64) -> (d: Debouncer)
        ensures
            d.wf(),
            d.window() == window,
            d.last_accepted() == Map::<Seq<char>, u64>::empty(),
    {
        Debouncer { window, entries: Vec::new() }
    }

    /// Decides a notification for `path` arriving at time `now`, and records
    /// `now` as the path's last acceptance when it is accepted.
    pub fn accept(&mut self, path: &String, now: u64) -> (accepted: bool)
        requires
            old(self).wf(),
        ensures
            final(self).wf(),
            final(self).window() == old(self).window(),
            accepted == spec_accepts(old(self).last_accepted(), old(self).window(), path@, now),
            final(self).last_accepted() == spec_step(
                old(self).last_accepted(),
                old(self).window(),
                path@,
                now,
            ),
    {
        let n = self.entries.len();
        let mut i: usize = 0;
        while i < n
            invariant
                n == self.entries@.len(),
                self == old(self),
                old(self).wf(),
                forall|j: int| 0 <= j < i ==> self.entries_seq()[j].0 != path@,
            decreases n - i,
        {
            if self.entries[i].0 == *path {
                proof {
                    lemma_fold_pairs_value(self.entries_seq(), i as int);
                    lemma_fold_pairs_contains(self.entries_seq(), path@);
                }
                let last = self.entries[i].1;
                if now >= last && now - last >= self.window {
                    self.entries[i] = (path.clone(), now);
                    proof {
                        lemma_fold_pairs_update(old(self).entries_seq(), i as int, now);
                        assert(self.entries_seq() =~= old(self).entries_seq().update(
                            i as int,
                            (path@, now),
                        ));
                    }
                    return true;
                } else {
                    return false;
                }
            }
            i += 1;
        }
        proof {
            lemma_fold_pairs_contains(self.entries_seq(), path@);
        }
        self.entries.push((path.clone(), now));
        proof {
            assert(self.entries_seq() =~= old(self).entries_seq().push((path@, now)));
            assert(self.entries_seq().drop_last() =~= old(self).entries_seq());
        }
        true
    }
}

/// A path never seen before is always accepted, whatever its timing.
pub proof fn lemma_fresh_path_accepted(m: Map<Seq<char>, u64>, window: u64, path: Seq<char>, t: u64)
    requires
        !m.contains_key(path),
    ensures
        spec_accepts(m, window, path, t),
{
}

/// An acceptance opens a quiet window: whatever the state was, once a
/// notification for a path is accepted, every further notification for that
/// path arriving less than a full window later is dropped.
pub proof fn lemma_accepted_opens_quiet_window(
    m: Map<Seq<char>, u64>,
    window: u64,
    path: Seq<char>,
    t1: u64,
    t2: u64,
)
    requires
        spec_accepts(m, window, path, t1),
        t1 <= t2 < t1 + window,
    ensures
        !spec_accepts(spec_step(m, window, path, t1), window, path, t2),
{
}

/// Two notifications for one fresh path within the quiet window of each
/// other produce exactly one acceptance: the first is accepted, and the
/// second, arriving less than a full window after it, is dropped.
pub proof fn lemma_burst_coalesces(
    m: Map<Seq<char>, u64>,
    window: u64,
    path: Seq<char>,
    t1: u64,
    t2: u64,
)
    requires
        !m.contains_key(path),
        t1 <= t2 < t1 + window,
    ensures
        spec_accepts(m, window, path, t1),
        !spec_accepts(spec_step(m, window, path, t1), window, path, t2),
{
    lemma_accepted_opens_quiet_window(m, window, path, t1, t2);
}

/// Notifications for distinct paths are independent: whatever one path's
/// notification does to the state, it neither enables nor suppresses an
/// acceptance for another path.
pub proof fn lemma_distinct_paths_independent(
    m: Map<Seq<char>, u64>,
    window: u64,
    p1: Seq<char>,
    p2: Seq<char>,
    t1: u64,
    t2: u64,
)
    requires
        p1 != p2,
    ensures
        spec_accepts(spec_step(m, window, p1, t1), window, p2, t2) == spec_accepts(
            m,
            window,
            p2,
            t2,
        ),
{
}

/// A recorded last-acceptance timestamp never decreases, and no entry is
/// ever removed.
pub proof fn lemma_stamps_monotone(
    m: Map<Seq<char>, u64>,
    window: u64,
    path: Seq<char>,
    now: u64,
    q: Seq<char>,
)
    requires
        m.contains_key(q),
    ensures
        spec_step(m, window, path, now).contains_key(q),
        spec_step(m, window, path, now)[q] >= m[q],
{
}

} // verus!
