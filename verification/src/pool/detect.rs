//! The pool's state as derived from the worktrees directory: a worktree
//! belongs to the pool when its directory exists, and it is acquired when an
//! acquire marker named after it exists.

use vstd::prelude::*;

use crate::pool::inventory::{
    count_status, max_number, next_name_view, next_pool_name, WorktreeStatus,
};
use crate::text::{lex_lt, seq_starts_with, starts_with, str_eq, str_lt, strings_view, trim, trim_view};

verus! {

/// One worktree of the pool, as found on disk.
#[derive(Debug, Clone)]
pub struct PoolEntry {
    pub name: String,
    pub path: String,
    pub branch: String,
    pub status: WorktreeStatus,
    /// Who acquired it, when its marker names someone.
    pub owner: Option<String>,
}

/// The recommended step for the pool.
#[derive(Debug, Clone, PartialEq, Eq, Structural)]
pub enum PoolNextAction {
    /// There is no pool yet.
    WarmPool,
    /// Some worktrees are available and some acquired.
    Ready { available: usize },
    /// Every worktree is acquired.
    Exhausted { acquired: usize },
    /// Every worktree is available.
    AllIdle { available: usize },
}

/// The pool's worktrees, in name order.
#[derive(Debug)]
pub struct PoolState {
    pub entries: Vec<PoolEntry>,
}

/// The statuses of the entries.
pub open spec fn statuses(entries: Seq<PoolEntry>) -> Seq<WorktreeStatus> {
    entries.map_values(|e: PoolEntry| e.status)
}

/// The names of the entries.
pub open spec fn names(entries: Seq<PoolEntry>) -> Seq<Seq<char>> {
    entries.map_values(|e: PoolEntry| e.name@)
}

/// The recommended step for a pool with these statuses.
pub open spec fn pool_next_action(s: Seq<WorktreeStatus>) -> PoolNextAction {
    let available = count_status(s, WorktreeStatus::Available);
    let acquired = count_status(s, WorktreeStatus::Acquired);
    if s.len() == 0 {
        PoolNextAction::WarmPool
    } else if available == 0 {
        PoolNextAction::Exhausted { acquired: acquired as usize }
    } else if acquired == 0 {
        PoolNextAction::AllIdle { available: available as usize }
    } else {
        PoolNextAction::Ready { available: available as usize }
    }
}

impl PoolState {
    /// How many worktrees have `status`.
    pub fn count_by_status(&self, status: &WorktreeStatus) -> (r: usize)
        ensures
            r == count_status(statuses(self.entries@), *status),
    {
        let mut n: usize = 0;
        let mut i: usize = 0;
        let ghost sv = statuses(self.entries@);
        while i < self.entries.len()
            invariant
                i <= self.entries.len(),
                n <= i,
                sv == statuses(self.entries@),
                n == count_status(sv.take(i as int), *status),
            decreases self.entries.len() - i,
        {
            proof {
                assert(sv.take(i + 1).drop_last() =~= sv.take(i as int));
            }
            if self.entries[i].status == *status {
                n = n + 1;
            }
            i = i + 1;
        }
        assert(sv.take(self.entries.len() as int) =~= sv);
        n
    }

    /// The first available worktree.
    pub fn find_available(&self) -> (r: Option<&PoolEntry>)
        ensures
            match r {
                Some(e) => exists|i: int|
                    0 <= i < self.entries.len() && self.entries@[i] == *e && e.status
                        == WorktreeStatus::Available && forall|j: int|
                        0 <= j < i ==> self.entries@[j].status != WorktreeStatus::Available,
                None => forall|j: int|
                    0 <= j < self.entries.len() ==> self.entries@[j].status != WorktreeStatus::Available,
            },
    {
        let mut i: usize = 0;
        while i < self.entries.len()
            invariant
                i <= self.entries.len(),
                forall|j: int| 0 <= j < i ==> self.entries@[j].status != WorktreeStatus::Available,
            decreases self.entries.len() - i,
        {
            if self.entries[i].status == WorktreeStatus::Available {
                return Some(&self.entries[i]);
            }
            i = i + 1;
        }
        None
    }

    /// The first worktree named or located at `identifier`.
    pub fn find_by_name_or_path(&self, identifier: &str) -> (r: Option<&PoolEntry>)
        ensures
            match r {
                Some(e) => exists|i: int|
                    0 <= i < self.entries.len() && self.entries@[i] == *e && (e.name@ == identifier@
                        || e.path@ == identifier@) && forall|j: int|
                        0 <= j < i ==> self.entries@[j].name@ != identifier@ && self.entries@[j].path@
                            != identifier@,
                None => forall|j: int|
                    0 <= j < self.entries.len() ==> self.entries@[j].name@ != identifier@
                        && self.entries@[j].path@ != identifier@,
            },
    {
        let mut i: usize = 0;
        while i < self.entries.len()
            invariant
                i <= self.entries.len(),
                forall|j: int|
                    0 <= j < i ==> self.entries@[j].name@ != identifier@ && self.entries@[j].path@
                        != identifier@,
            decreases self.entries.len() - i,
        {
            if str_eq(self.entries[i].name.as_str(), identifier) || str_eq(
                self.entries[i].path.as_str(),
                identifier,
            ) {
                return Some(&self.entries[i]);
            }
            i = i + 1;
        }
        None
    }

    /// The names of the pool's worktrees, in order.
    pub fn names(&self) -> (r: Vec<String>)
        ensures
            strings_view(r@) == names(self.entries@),
    {
        let mut v: Vec<String> = Vec::new();
        let mut i: usize = 0;
        while i < self.entries.len()
            invariant
                i <= self.entries.len(),
                strings_view(v@) == names(self.entries@).take(i as int),
            decreases self.entries.len() - i,
        {
            let ghost before = v@;
            let n = self.entries[i].name.clone();
            v.push(n);
            proof {
                assert(strings_view(v@) =~= strings_view(before).push(n@));
                assert(names(self.entries@).take(i + 1) =~= names(self.entries@).take(i as int).push(n@));
            }
            i = i + 1;
        }
        assert(names(self.entries@).take(self.entries.len() as int) =~= names(self.entries@));
        v
    }

    /// The next name for a worktree of this pool: `prefix` and one more than
    /// the largest number in use, with at least three digits.
    pub fn next_name(&self, prefix: &str) -> (r: String)
        requires
            max_number(names(self.entries@), prefix@) < u32::MAX,
        ensures
            r@ == next_name_view(names(self.entries@), prefix@),
    {
        let v = self.names();
        next_pool_name(&v, prefix)
    }

    /// The recommended step for the pool.
    pub fn next_action(&self) -> (r: PoolNextAction)
        ensures
            r == pool_next_action(statuses(self.entries@)),
    {
        if self.entries.len() == 0 {
            return PoolNextAction::WarmPool;
        }
        let available = self.count_by_status(&WorktreeStatus::Available);
        let acquired = self.count_by_status(&WorktreeStatus::Acquired);
        if available == 0 {
            return PoolNextAction::Exhausted { acquired };
        }
        if acquired == 0 {
            return PoolNextAction::AllIdle { available };
        }
        PoolNextAction::Ready { available }
    }
}

/// The recommended step always reports the pool truthfully: an exhausted pool
/// has every worktree acquired, an idle one every worktree available.
pub proof fn lemma_next_action_consistent(s: Seq<WorktreeStatus>)
    requires
        s.len() <= usize::MAX,
    ensures
        pool_next_action(s) matches PoolNextAction::Exhausted { acquired } ==> acquired == s.len(),
        pool_next_action(s) matches PoolNextAction::AllIdle { available } ==> available == s.len(),
        pool_next_action(s) matches PoolNextAction::Ready { available } ==> 0 < available < s.len(),
{
    crate::pool::inventory::lemma_counts_partition(s);
}

/// A directory found in the worktrees directory, with its acquire marker.
#[derive(Debug, Clone)]
pub struct ScannedDir {
    pub name: String,
    pub path: String,
    /// Whether it is a directory.
    pub is_dir: bool,
    /// The acquire marker: `None` when there is none, `Some(None)` when it
    /// exists but cannot be read, `Some(Some(text))` with its content.
    pub marker: Option<Option<String>>,
}

/// A pool entry with texts as character sequences.
pub struct PoolEntryView {
    pub name: Seq<char>,
    pub path: Seq<char>,
    pub branch: Seq<char>,
    pub status: WorktreeStatus,
    pub owner: Option<Seq<char>>,
}

/// The view of a pool entry.
pub open spec fn entry_view(e: PoolEntry) -> PoolEntryView {
    PoolEntryView {
        name: e.name@,
        path: e.path@,
        branch: e.branch@,
        status: e.status,
        owner: match e.owner {
            Some(o) => Some(o@),
            None => None,
        },
    }
}

/// The views of pool entries.
pub open spec fn entry_views(s: Seq<PoolEntry>) -> Seq<PoolEntryView> {
    s.map_values(|e: PoolEntry| entry_view(e))
}

/// Whether a scanned directory belongs to the pool: a directory whose name
/// starts with the pool's prefix.
pub open spec fn keeps(d: ScannedDir, prefix: Seq<char>) -> bool {
    d.is_dir && seq_starts_with(d.name@, prefix)
}

/// The entry that a pool directory stands for: its branch is its name; a
/// marker makes it acquired, by the marker's trimmed text when there is one.
pub open spec fn scanned_entry(d: ScannedDir) -> PoolEntryView {
    PoolEntryView {
        name: d.name@,
        path: d.path@,
        branch: d.name@,
        status: if d.marker is Some {
            WorktreeStatus::Acquired
        } else {
            WorktreeStatus::Available
        },
        owner: match d.marker {
            Some(Some(c)) => if trim_view(c@).len() > 0 {
                Some(trim_view(c@))
            } else {
                None
            },
            _ => None,
        },
    }
}

/// The entries for the pool directories among `s`, in the order found.
pub open spec fn kept_entries(s: Seq<ScannedDir>, prefix: Seq<char>) -> Seq<PoolEntryView>
    decreases s.len(),
{
    if s.len() == 0 {
        seq![]
    } else {
        let r = kept_entries(s.drop_last(), prefix);
        if keeps(s.last(), prefix) {
            r.push(scanned_entry(s.last()))
        } else {
            r
        }
    }
}

/// The entries are in name order.
pub open spec fn sorted_by_name(s: Seq<PoolEntryView>) -> bool {
    forall|i: int, j: int| 0 <= i < j < s.len() ==> !lex_lt(#[trigger] s[j].name, #[trigger] s[i].name)
}

/// The entry for a pool directory.
fn entry_of(d: &ScannedDir) -> (r: PoolEntry)
    ensures
        entry_view(r) == scanned_entry(*d),
{
    let (status, owner) = match &d.marker {
        Some(content) => {
            let owner = match content {
                Some(c) => {
                    let t = trim(c.as_str());
                    if t.as_str().is_empty() {
                        None
                    } else {
                        Some(t)
                    }
                },
                None => None,
            };
            (WorktreeStatus::Acquired, owner)
        },
        None => (WorktreeStatus::Available, None),
    };
    PoolEntry { name: d.name.clone(), path: d.path.clone(), branch: d.name.clone(), status, owner }
}

/// Where `name` goes in entries sorted by name: after every entry that does
/// not come after it.
fn insertion_point(out: &Vec<PoolEntry>, name: &str) -> (k: usize)
    ensures
        k <= out.len(),
        forall|i: int| 0 <= i < k ==> !lex_lt(name@, #[trigger] out@[i].name@),
        k < out.len() ==> lex_lt(name@, out@[k as int].name@),
{
    let mut k: usize = 0;
    while k < out.len() && !str_lt(name, out[k].name.as_str())
        invariant
            k <= out.len(),
            forall|i: int| 0 <= i < k ==> !lex_lt(name@, #[trigger] out@[i].name@),
        decreases out.len() - k,
    {
        k = k + 1;
    }
    k
}

impl PoolState {
    /// The pool found on disk: the directories whose names start with
    /// `prefix`, in name order; one with an acquire marker is acquired.
    pub fn scan(dirs: Vec<ScannedDir>, prefix: &str) -> (r: PoolState)
        ensures
            sorted_by_name(entry_views(r.entries@)),
            entry_views(r.entries@).to_multiset() == kept_entries(dirs@, prefix@).to_multiset(),
    {
        let mut out: Vec<PoolEntry> = Vec::new();
        let mut i: usize = 0;
        assert(entry_views(out@) =~= Seq::<PoolEntryView>::empty());
        assert(kept_entries(dirs@.take(0), prefix@) =~= Seq::<PoolEntryView>::empty());
        while i < dirs.len()
            invariant
                i <= dirs.len(),
                sorted_by_name(entry_views(out@)),
                entry_views(out@).to_multiset() == kept_entries(dirs@.take(i as int), prefix@).to_multiset(),
            decreases dirs.len() - i,
        {
            let d = &dirs[i];
            proof {
                assert(dirs@.take(i + 1).drop_last() =~= dirs@.take(i as int));
                assert(dirs@.take(i + 1).last() == dirs@[i as int]);
            }
            if d.is_dir && starts_with(d.name.as_str(), prefix) {
                let e = entry_of(d);
                let k = insertion_point(&out, e.name.as_str());
                let ghost before = entry_views(out@);
                let ghost ev = entry_view(e);
                out.insert(k, e);
                proof {
                    assert(entry_views(out@) =~= before.insert(k as int, ev));
                    assert(ev == scanned_entry(dirs@[i as int]));
                    assert(keeps(dirs@[i as int], prefix@));
                    assert(kept_entries(dirs@.take(i + 1), prefix@) == kept_entries(dirs@.take(i as int), prefix@).push(
                        ev,
                    ));
                    vstd::seq_lib::to_multiset_insert(before, k as int, ev);
                    vstd::seq_lib::to_multiset_build(kept_entries(dirs@.take(i as int), prefix@), ev);
                    assert(kept_entries(dirs@.take(i as int), prefix@).push(ev).to_multiset() == kept_entries(
                        dirs@.take(i as int),
                        prefix@,
                    ).to_multiset().insert(ev));
                    assert forall|a: int, b: int|
                        0 <= a < b < entry_views(out@).len() implies !lex_lt(
                        #[trigger] entry_views(out@)[b].name,
                        #[trigger] entry_views(out@)[a].name,
                    ) by {
                        let s2 = entry_views(out@);
                        if b < k {
                            assert(s2[a] == before[a] && s2[b] == before[b]);
                        } else if b == k {
                            assert(s2[b] == ev && s2[a] == before[a]);
                            assert(!lex_lt(ev.name, out@[a].name@));
                        } else if a == k {
                            assert(s2[a] == ev && s2[b] == before[b - 1]);
                            assert(lex_lt(ev.name, before[k as int].name));
                            if lex_lt(before[b - 1].name, ev.name) {
                                crate::text::lemma_lex_transitive(
                                    before[b - 1].name,
                                    ev.name,
                                    before[k as int].name,
                                );
                                if b - 1 == k {
                                    crate::text::lemma_lex_irreflexive(before[k as int].name);
                                }
                            }
                        } else if a < k {
                            assert(s2[a] == before[a] && s2[b] == before[b - 1]);
                        } else {
                            assert(s2[a] == before[a - 1] && s2[b] == before[b - 1]);
                        }
                    }
                }
            } else {
                proof {
                    assert(kept_entries(dirs@.take(i + 1), prefix@) == kept_entries(dirs@.take(i as int), prefix@));
                }
            }
            i = i + 1;
        }
        assert(dirs@.take(dirs.len() as int) =~= dirs@);
        PoolState { entries: out }
    }
}

} // verus!
