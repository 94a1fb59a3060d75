//! The session leaderboard: entries ordered by score, highest first.
//!
//! The network layer fetches and submits raw entries; the board itself
//! only ever holds a descending ordering of what it was given.

use vstd::prelude::*;

use vstd::multiset::Multiset;

verus! {

/// One leaderboard row.
#[derive(Clone, Debug)]
pub struct LeaderboardEntry {
    pub name: String,
    pub score: usize,
    pub time_ms: u64,
}

/// Scores never increase along the board.
pub open spec fn sorted_desc(s: Seq<LeaderboardEntry>) -> bool {
    forall|i: int, j: int| 0 <= i < j < s.len() ==> #[trigger] s[i].score >= #[trigger] s[j].score
}

/// The leaderboard resource.
#[derive(Debug)]
pub struct Leaderboard {
    pub entries: Vec<LeaderboardEntry>,
}

impl Default for Leaderboard {
    /// The built-in sample board shown before any fetch completes.
    fn default() -> (r: Leaderboard)
        ensures
            r.entries@.len() == 3,
            sorted_desc(r.entries@),
            r.entries@[0].name@ == "MossMaster"@ && r.entries@[0].score == 50_000,
            r.entries@[1].name@ == "GreenKing"@ && r.entries@[1].score == 35_000,
            r.entries@[2].name@ == "PlanetSaver"@ && r.entries@[2].score == 12_000,
    {
        let mut entries: Vec<LeaderboardEntry> = Vec::new();
        entries.push(
            LeaderboardEntry { name: String::from_str("MossMaster"), score: 50_000, time_ms: 0 },
        );
        entries.push(
            LeaderboardEntry { name: String::from_str("GreenKing"), score: 35_000, time_ms: 0 },
        );
        entries.push(
            LeaderboardEntry { name: String::from_str("PlanetSaver"), score: 12_000, time_ms: 0 },
        );
        Leaderboard { entries }
    }
}

impl Leaderboard {
    /// An empty board.
    pub fn new() -> (r: Leaderboard)
        ensures
            r.entries@.len() == 0,
            sorted_desc(r.entries@),
    {
        Leaderboard { entries: Vec::new() }
    }

    /// Inserts one submitted entry, keeping the descending score order;
    /// ties keep earlier submissions first (the stable-sort behavior).
    pub fn submit_entry(&mut self, entry: LeaderboardEntry)
        requires
            sorted_desc(old(self).entries@),
            old(self).entries@.len() < usize::MAX,
        ensures
            sorted_desc(final(self).entries@),
            final(self).entries@.len() == old(self).entries@.len() + 1,
            final(self).entries@.to_multiset() == old(self).entries@.to_multiset().insert(entry),
    {
        let n: usize = self.entries.len();
        let mut idx: usize = 0;
        while idx < n && self.entries[idx].score >= entry.score
            invariant
                0 <= idx <= n,
                n == self.entries@.len(),
                self.entries == old(self).entries,
                forall|k: int| 0 <= k < idx ==> #[trigger] self.entries@[k].score >= entry.score,
            decreases n - idx,
        {
            idx = idx + 1;
        }
        let ghost pre = self.entries@;
        self.entries.insert(idx, entry);
        proof {
            vstd::seq_lib::to_multiset_insert(pre, idx as int, entry);
            assert forall|i: int, j: int|
                0 <= i < j < self.entries@.len() implies #[trigger] self.entries@[i].score
                >= #[trigger] self.entries@[j].score by {
                let s = self.entries@;
                if i < idx && j < idx {
                    assert(s[i] == pre[i] && s[j] == pre[j]);
                } else if i < idx && j == idx {
                    assert(s[i] == pre[i] && s[j] == entry);
                } else if i < idx && j > idx {
                    assert(s[i] == pre[i] && s[j] == pre[j - 1]);
                    if idx < pre.len() {
                        assert(pre[idx as int].score < entry.score);
                    }
                } else if i == idx {
                    assert(s[i] == entry && s[j] == pre[j - 1]);
                    assert(pre[idx as int].score < entry.score);
                    assert(pre[idx as int].score >= pre[j - 1].score);
                } else {
                    assert(s[i] == pre[i - 1] && s[j] == pre[j - 1]);
                }
            }
        }
    }

    /// Replaces the board with a freshly fetched batch, reordered by
    /// descending score.
    pub fn set_entries(&mut self, list: Vec<LeaderboardEntry>)
        ensures
            sorted_desc(final(self).entries@),
            final(self).entries@.len() == list@.len(),
            final(self).entries@.to_multiset() == list@.to_multiset(),
    {
        let ghost orig = list@;
        let mut remaining: Vec<LeaderboardEntry> = list;
        let total: usize = remaining.len();
        proof {
            assert(orig.len() == total);
        }
        self.entries = Vec::new();
        proof {
            broadcast use vstd::seq_lib::group_to_multiset_ensures;
            broadcast use vstd::multiset::group_multiset_axioms;
            broadcast use vstd::multiset::group_multiset_properties;

            assert(self.entries@.to_multiset().len() == 0);
            assert(self.entries@.to_multiset() =~= Multiset::empty());
            assert(self.entries@.to_multiset().add(remaining@.to_multiset())
                =~= orig.to_multiset());
        }
        while remaining.len() > 0
            invariant
                sorted_desc(self.entries@),
                orig.len() <= usize::MAX,
                self.entries@.len() + remaining@.len() == orig.len(),
                self.entries@.to_multiset().add(remaining@.to_multiset()) == orig.to_multiset(),
            decreases remaining@.len(),
        {
            let ghost pre_rem = remaining@;
            let ghost pre_entries = self.entries@;
            let ghost e0 = remaining@[0];
            let e: LeaderboardEntry = remaining.remove(0);
            self.submit_entry(e);
            proof {
                broadcast use vstd::seq_lib::group_to_multiset_ensures;
                broadcast use vstd::multiset::group_multiset_axioms;

                vstd::seq_lib::to_multiset_remove(pre_rem, 0);
                assert(pre_rem.contains(e0));
                assert(pre_rem.to_multiset().count(e0) >= 1);
                assert(remaining@.to_multiset() == pre_rem.to_multiset().remove(e0));
                assert(self.entries@.to_multiset().add(remaining@.to_multiset())
                    =~= orig.to_multiset());
            }
        }
        proof {
            broadcast use vstd::seq_lib::group_to_multiset_ensures;
            broadcast use vstd::multiset::group_multiset_axioms;
            broadcast use vstd::multiset::group_multiset_properties;

            assert(remaining@.to_multiset().len() == 0);
            assert(remaining@.to_multiset() =~= Multiset::empty());
            assert(self.entries@.to_multiset() =~= orig.to_multiset());
        }
    }
}

} // verus!
