//! The pool inventory: entries with their status, and the naming of new ones.

use vstd::prelude::*;

use crate::text::{
    cat, pad_decimal, padded_view, parse_u32, parse_u32_view, seq_strip_prefix, str_eq, strip_prefix,
};

verus! {

/// The inventory format version.
pub const INVENTORY_VERSION: u32 = 1;

/// Whether a pool worktree is free or handed out.
#[derive(Debug, Clone, Copy, PartialEq, Eq, Structural)]
pub enum WorktreeStatus {
    Available,
    Acquired,
}

/// The word for a status.
pub open spec fn status_word(s: WorktreeStatus) -> Seq<char> {
    match s {
        WorktreeStatus::Available => "available"@,
        WorktreeStatus::Acquired => "acquired"@,
    }
}

impl WorktreeStatus {
    /// The word for this status.
    pub fn to_string(&self) -> (r: String)
        ensures
            r@ == status_word(*self),
    {
        match self {
            WorktreeStatus::Available => "available".to_string(),
            WorktreeStatus::Acquired => "acquired".to_string(),
        }
    }
}

/// One worktree of the pool.
#[derive(Debug, Clone)]
pub struct PoolEntry {
    pub name: String,
    pub path: String,
    pub branch: String,
    pub status: WorktreeStatus,
    pub created_at: u64,
    pub acquired_at: Option<u64>,
    pub acquired_by: Option<u32>,
}

/// The pool's worktrees.
#[derive(Debug)]
pub struct Inventory {
    pub version: u32,
    pub worktrees: Vec<PoolEntry>,
}

/// How many of the statuses equal `status`.
pub open spec fn count_status(statuses: Seq<WorktreeStatus>, status: WorktreeStatus) -> nat
    decreases statuses.len(),
{
    if statuses.len() == 0 {
        0
    } else {
        count_status(statuses.drop_last(), status) + if statuses.last() == status {
            1nat
        } else {
            0nat
        }
    }
}

/// The number that a pool name carries after `prefix`, if it has one.
pub open spec fn name_number(name: Seq<char>, prefix: Seq<char>) -> Option<u32> {
    match seq_strip_prefix(name, prefix) {
        Some(rest) => parse_u32_view(rest),
        None => None,
    }
}

/// The largest number carried by the names after `prefix`, or 0.
pub open spec fn max_number(names: Seq<Seq<char>>, prefix: Seq<char>) -> nat
    decreases names.len(),
{
    if names.len() == 0 {
        0
    } else {
        let rest = max_number(names.drop_last(), prefix);
        match name_number(names.last(), prefix) {
            Some(n) => if n > rest {
                n as nat
            } else {
                rest
            },
            None => rest,
        }
    }
}

/// The name after the largest numbered one: `prefix` and the next number,
/// written with at least three digits.
pub open spec fn next_name_view(names: Seq<Seq<char>>, prefix: Seq<char>) -> Seq<char> {
    prefix + padded_view(max_number(names, prefix) + 1, 3)
}

proof fn lemma_max_number_bounds(names: Seq<Seq<char>>, prefix: Seq<char>, i: int)
    requires
        0 <= i < names.len(),
    ensures
        name_number(names[i], prefix) matches Some(n) ==> n <= max_number(names, prefix),
    decreases names.len(),
{
    if i < names.len() - 1 {
        lemma_max_number_bounds(names.drop_last(), prefix, i);
    }
}

proof fn lemma_max_number_fits(names: Seq<Seq<char>>, prefix: Seq<char>)
    ensures
        max_number(names, prefix) <= u32::MAX,
    decreases names.len(),
{
    if names.len() > 0 {
        lemma_max_number_fits(names.drop_last(), prefix);
    }
}

/// The largest number that the names carry after `prefix`, or 0.
pub fn max_pool_number(names: &Vec<String>, prefix: &str) -> (r: u32)
    ensures
        r == max_number(crate::text::strings_view(names@), prefix@),
{
    let ghost nv = crate::text::strings_view(names@);
    let mut best: u32 = 0;
    let mut i: usize = 0;
    while i < names.len()
        invariant
            i <= names.len(),
            nv == crate::text::strings_view(names@),
            best == max_number(nv.take(i as int), prefix@),
        decreases names.len() - i,
    {
        proof {
            assert(nv.take(i + 1).drop_last() =~= nv.take(i as int));
            assert(nv.take(i + 1).last() == names@[i as int]@);
            lemma_max_number_fits(nv.take(i as int), prefix@);
        }
        match strip_prefix(names[i].as_str(), prefix) {
            Some(rest) => match parse_u32(rest.as_str()) {
                Some(n) => {
                    if n > best {
                        best = n;
                    }
                },
                None => {},
            },
            None => {},
        }
        i = i + 1;
    }
    assert(nv.take(names.len() as int) =~= nv);
    best
}

/// The next pool name after the names: `prefix` followed by one more than
/// their largest number, with at least three digits.
pub fn next_pool_name(names: &Vec<String>, prefix: &str) -> (r: String)
    requires
        max_number(crate::text::strings_view(names@), prefix@) < u32::MAX,
    ensures
        r@ == next_name_view(crate::text::strings_view(names@), prefix@),
{
    let max = max_pool_number(names, prefix);
    let d = pad_decimal((max + 1) as u64, 3);
    cat(prefix, d.as_str())
}

/// The names of pool entries.
pub open spec fn entry_names(entries: Seq<PoolEntry>) -> Seq<Seq<char>> {
    entries.map_values(|e: PoolEntry| e.name@)
}

/// The statuses of pool entries.
pub open spec fn entry_statuses(entries: Seq<PoolEntry>) -> Seq<WorktreeStatus> {
    entries.map_values(|e: PoolEntry| e.status)
}

/// The name of each entry.
pub fn names_of(entries: &Vec<PoolEntry>) -> (r: Vec<String>)
    ensures
        crate::text::strings_view(r@) == entry_names(entries@),
{
    let mut v: Vec<String> = Vec::new();
    let mut i: usize = 0;
    while i < entries.len()
        invariant
            i <= entries.len(),
            crate::text::strings_view(v@) == entry_names(entries@).take(i as int),
        decreases entries.len() - i,
    {
        let ghost before = v@;
        let n = entries[i].name.clone();
        v.push(n);
        proof {
            assert(crate::text::strings_view(v@) =~= crate::text::strings_view(before).push(n@));
            assert(entry_names(entries@).take(i + 1) =~= entry_names(entries@).take(i as int).push(n@));
        }
        i = i + 1;
    }
    assert(entry_names(entries@).take(entries.len() as int) =~= entry_names(entries@));
    v
}

/// Count the entries whose status is `status`.
pub fn count_entries(entries: &Vec<PoolEntry>, status: &WorktreeStatus) -> (r: usize)
    ensures
        r == count_status(entry_statuses(entries@), *status),
{
    let ghost sv = entry_statuses(entries@);
    let mut n: usize = 0;
    let mut i: usize = 0;
    while i < entries.len()
        invariant
            i <= entries.len(),
            n <= i,
            sv == entry_statuses(entries@),
            n == count_status(sv.take(i as int), *status),
        decreases entries.len() - i,
    {
        proof {
            assert(sv.take(i + 1).drop_last() =~= sv.take(i as int));
        }
        if entries[i].status == *status {
            n = n + 1;
        }
        i = i + 1;
    }
    assert(sv.take(entries.len() as int) =~= sv);
    n
}

/// The index of the first available entry.
pub fn find_first_available(entries: &Vec<PoolEntry>) -> (r: Option<usize>)
    ensures
        match r {
            Some(i) => i < entries.len() && entries@[i as int].status == WorktreeStatus::Available
                && forall|j: int| 0 <= j < i ==> entries@[j].status != WorktreeStatus::Available,
            None => forall|j: int| 0 <= j < entries.len() ==> entries@[j].status != WorktreeStatus::Available,
        },
{
    let mut i: usize = 0;
    while i < entries.len()
        invariant
            i <= entries.len(),
            forall|j: int| 0 <= j < i ==> entries@[j].status != WorktreeStatus::Available,
        decreases entries.len() - i,
    {
        if entries[i].status == WorktreeStatus::Available {
            return Some(i);
        }
        i = i + 1;
    }
    None
}

/// The index of the first entry named `identifier` or whose path is `identifier`.
pub fn find_named(entries: &Vec<PoolEntry>, identifier: &str) -> (r: Option<usize>)
    ensures
        match r {
            Some(i) => i < entries.len() && (entries@[i as int].name@ == identifier@
                || entries@[i as int].path@ == identifier@) && forall|j: int|
                0 <= j < i ==> entries@[j].name@ != identifier@ && entries@[j].path@ != identifier@,
            None => forall|j: int|
                0 <= j < entries.len() ==> entries@[j].name@ != identifier@ && entries@[j].path@
                    != identifier@,
        },
{
    let mut i: usize = 0;
    while i < entries.len()
        invariant
            i <= entries.len(),
            forall|j: int|
                0 <= j < i ==> entries@[j].name@ != identifier@ && entries@[j].path@ != identifier@,
        decreases entries.len() - i,
    {
        if str_eq(entries[i].name.as_str(), identifier) || str_eq(entries[i].path.as_str(), identifier) {
            return Some(i);
        }
        i = i + 1;
    }
    None
}

impl Inventory {
    /// An empty inventory of the current format version.
    pub fn new() -> (r: Self)
        ensures
            r.version == INVENTORY_VERSION,
            r.worktrees@.len() == 0,
    {
        Inventory { version: INVENTORY_VERSION, worktrees: Vec::new() }
    }

    /// How many worktrees have `status`.
    pub fn count_by_status(&self, status: &WorktreeStatus) -> (r: usize)
        ensures
            r == count_status(entry_statuses(self.worktrees@), *status),
    {
        count_entries(&self.worktrees, status)
    }

    /// The next name `pool-NNN`, after the largest number in use (gaps are not filled).
    pub fn next_name(&self) -> (r: String)
        requires
            max_number(entry_names(self.worktrees@), "pool-"@) < u32::MAX,
        ensures
            r@ == next_name_view(entry_names(self.worktrees@), "pool-"@),
    {
        let names = names_of(&self.worktrees);
        next_pool_name(&names, "pool-")
    }

    /// The index of the first available worktree.
    pub fn find_available(&self) -> (r: Option<usize>)
        ensures
            match r {
                Some(i) => i < self.worktrees.len() && self.worktrees@[i as int].status
                    == WorktreeStatus::Available && forall|j: int|
                    0 <= j < i ==> self.worktrees@[j].status != WorktreeStatus::Available,
                None => forall|j: int|
                    0 <= j < self.worktrees.len() ==> self.worktrees@[j].status != WorktreeStatus::Available,
            },
    {
        find_first_available(&self.worktrees)
    }

    /// The index of the worktree named or located at `identifier`.
    pub fn find_by_name_or_path(&self, identifier: &str) -> (r: Option<usize>)
        ensures
            match r {
                Some(i) => i < self.worktrees.len() && (self.worktrees@[i as int].name@ == identifier@
                    || self.worktrees@[i as int].path@ == identifier@) && forall|j: int|
                    0 <= j < i ==> self.worktrees@[j].name@ != identifier@ && self.worktrees@[j].path@
                        != identifier@,
                None => forall|j: int|
                    0 <= j < self.worktrees.len() ==> self.worktrees@[j].name@ != identifier@
                        && self.worktrees@[j].path@ != identifier@,
            },
    {
        find_named(&self.worktrees, identifier)
    }
}

impl Default for Inventory {
    fn default() -> (r: Self)
        ensures
            r.version == INVENTORY_VERSION,
            r.worktrees@.len() == 0,
    {
        Inventory::new()
    }
}

/// The next pool name is new: no existing name equals it, since its number is
/// one more than the largest number among the names.
pub proof fn lemma_next_name_is_fresh(names: Seq<Seq<char>>, prefix: Seq<char>)
    requires
        max_number(names, prefix) < u32::MAX,
    ensures
        forall|i: int| 0 <= i < names.len() ==> names[i] != next_name_view(names, prefix),
{
    let m = max_number(names, prefix);
    let next = next_name_view(names, prefix);
    crate::text::lemma_padded_parses(m + 1, 3);
    assert(seq_strip_prefix(next, prefix) == Some(padded_view(m + 1, 3))) by {
        assert(next.take(prefix.len() as int) =~= prefix);
        assert(next.skip(prefix.len() as int) =~= padded_view(m + 1, 3));
    }
    assert forall|i: int| 0 <= i < names.len() implies names[i] != next by {
        lemma_max_number_bounds(names, prefix, i);
    }
}

/// Adding the next pool name raises the largest number by one.
pub proof fn lemma_next_name_advances(names: Seq<Seq<char>>, prefix: Seq<char>)
    requires
        max_number(names, prefix) < u32::MAX,
    ensures
        name_number(next_name_view(names, prefix), prefix) == Some((max_number(names, prefix) + 1) as u32),
        max_number(names.push(next_name_view(names, prefix)), prefix) == max_number(names, prefix) + 1,
{
    let m = max_number(names, prefix);
    let next = next_name_view(names, prefix);
    crate::text::lemma_padded_parses(m + 1, 3);
    assert(seq_strip_prefix(next, prefix) == Some(padded_view(m + 1, 3))) by {
        assert(next.take(prefix.len() as int) =~= prefix);
        assert(next.skip(prefix.len() as int) =~= padded_view(m + 1, 3));
    }
    assert(names.push(next).drop_last() =~= names);
}

/// The names after `count` pool worktrees were added one after another,
/// each under the next free name.
pub open spec fn after_adding(names: Seq<Seq<char>>, prefix: Seq<char>, count: nat) -> Seq<Seq<char>>
    decreases count,
{
    if count == 0 {
        names
    } else {
        let before = after_adding(names, prefix, (count - 1) as nat);
        before.push(next_name_view(before, prefix))
    }
}

/// Warming adds worktrees numbered on from the largest number: the `j`-th
/// new one carries the largest number plus `j + 1`, and the names already
/// there stay.
pub proof fn lemma_warm_numbers_on(names: Seq<Seq<char>>, prefix: Seq<char>, count: nat)
    requires
        max_number(names, prefix) + count <= u32::MAX,
    ensures
        after_adding(names, prefix, count).len() == names.len() + count,
        after_adding(names, prefix, count).take(names.len() as int) == names,
        max_number(after_adding(names, prefix, count), prefix) == max_number(names, prefix) + count,
        forall|j: int|
            0 <= j < count ==> #[trigger] after_adding(names, prefix, count)[names.len() + j] == prefix + padded_view(
                (max_number(names, prefix) + j + 1) as nat,
                3,
            ),
    decreases count,
{
    if count > 0 {
        let c1 = (count - 1) as nat;
        lemma_warm_numbers_on(names, prefix, c1);
        let before = after_adding(names, prefix, c1);
        lemma_next_name_advances(before, prefix);
        let after = after_adding(names, prefix, count);
        assert(after == before.push(next_name_view(before, prefix)));
        assert(after.take(names.len() as int) =~= before.take(names.len() as int));
        assert forall|j: int| 0 <= j < count implies #[trigger] after[names.len() + j] == prefix + padded_view(
            (max_number(names, prefix) + j + 1) as nat,
            3,
        ) by {
            if j < c1 {
                assert(after[names.len() + j] == before[names.len() + j]);
            }
        }
    }
}

/// Every worktree is either available or acquired: the two counts add up to the total.
pub proof fn lemma_counts_partition(statuses: Seq<WorktreeStatus>)
    ensures
        count_status(statuses, WorktreeStatus::Available) + count_status(statuses, WorktreeStatus::Acquired)
            == statuses.len(),
    decreases statuses.len(),
{
    if statuses.len() > 0 {
        lemma_counts_partition(statuses.drop_last());
    }
}

} // verus!
