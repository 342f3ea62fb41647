//! The pool inventory and the pool state found on disk.

use git_workflow::pool::detect::{PoolNextAction, PoolState, ScannedDir};
use git_workflow::pool::inventory::{Inventory, PoolEntry, WorktreeStatus};

fn make_entry(name: &str, status: WorktreeStatus) -> PoolEntry {
    PoolEntry {
        name: name.to_string(),
        path: format!("/tmp/test/.worktrees/{name}"),
        branch: format!("pool/{name}"),
        status,
        created_at: 1700000000,
        acquired_at: None,
        acquired_by: None,
    }
}

#[test]
fn test_new_inventory_is_empty() {
    let inv = Inventory::new();
    assert_eq!(inv.version, 1);
    assert!(inv.worktrees.is_empty());
}

#[test]
fn test_default_equals_new() {
    let a = Inventory::new();
    let b = Inventory::default();
    assert_eq!(a.version, b.version);
    assert_eq!(a.worktrees.len(), b.worktrees.len());
}

#[test]
fn test_count_by_status_empty() {
    let inv = Inventory::new();
    assert_eq!(inv.count_by_status(&WorktreeStatus::Available), 0);
    assert_eq!(inv.count_by_status(&WorktreeStatus::Acquired), 0);
}

#[test]
fn test_count_by_status_mixed() {
    let mut inv = Inventory::new();
    inv.worktrees.push(make_entry("pool-001", WorktreeStatus::Available));
    inv.worktrees.push(make_entry("pool-002", WorktreeStatus::Acquired));
    inv.worktrees.push(make_entry("pool-003", WorktreeStatus::Available));

    assert_eq!(inv.count_by_status(&WorktreeStatus::Available), 2);
    assert_eq!(inv.count_by_status(&WorktreeStatus::Acquired), 1);
}

#[test]
fn test_next_name_empty() {
    let inv = Inventory::new();
    assert_eq!(inv.next_name(), "pool-001");
}

#[test]
fn test_next_name_sequential() {
    let mut inv = Inventory::new();
    inv.worktrees.push(make_entry("pool-001", WorktreeStatus::Available));
    inv.worktrees.push(make_entry("pool-002", WorktreeStatus::Available));
    assert_eq!(inv.next_name(), "pool-003");
}

#[test]
fn test_next_name_with_gap() {
    let mut inv = Inventory::new();
    inv.worktrees.push(make_entry("pool-001", WorktreeStatus::Available));
    inv.worktrees.push(make_entry("pool-005", WorktreeStatus::Available));
    assert_eq!(inv.next_name(), "pool-006");
}

#[test]
fn test_find_available_none() {
    let mut inv = Inventory::new();
    inv.worktrees.push(make_entry("pool-001", WorktreeStatus::Acquired));
    assert_eq!(inv.find_available(), None);
}

#[test]
fn test_find_available_returns_first() {
    let mut inv = Inventory::new();
    inv.worktrees.push(make_entry("pool-001", WorktreeStatus::Acquired));
    inv.worktrees.push(make_entry("pool-002", WorktreeStatus::Available));
    inv.worktrees.push(make_entry("pool-003", WorktreeStatus::Available));
    assert_eq!(inv.find_available(), Some(1));
}

#[test]
fn test_find_available_empty_inventory() {
    let inv = Inventory::new();
    assert_eq!(inv.find_available(), None);
}

#[test]
fn test_find_by_name() {
    let mut inv = Inventory::new();
    inv.worktrees.push(make_entry("pool-001", WorktreeStatus::Available));
    inv.worktrees.push(make_entry("pool-002", WorktreeStatus::Acquired));

    assert_eq!(inv.find_by_name_or_path("pool-002"), Some(1));
}

#[test]
fn test_find_by_path() {
    let mut inv = Inventory::new();
    inv.worktrees.push(make_entry("pool-001", WorktreeStatus::Available));

    assert_eq!(inv.find_by_name_or_path("/tmp/test/.worktrees/pool-001"), Some(0));
}

#[test]
fn test_find_nonexistent() {
    let mut inv = Inventory::new();
    inv.worktrees.push(make_entry("pool-001", WorktreeStatus::Available));

    assert_eq!(inv.find_by_name_or_path("pool-999"), None);
    assert_eq!(inv.find_by_name_or_path("/wrong/path"), None);
}

#[test]
fn test_status_display() {
    assert_eq!(WorktreeStatus::Available.to_string(), "available");
    assert_eq!(WorktreeStatus::Acquired.to_string(), "acquired");
}

fn dir(name: &str, is_dir: bool, marker: Option<Option<&str>>) -> ScannedDir {
    ScannedDir {
        name: name.to_string(),
        path: format!("/repo/.worktrees/{name}"),
        is_dir,
        marker: marker.map(|m| m.map(|s| s.to_string())),
    }
}

#[test]
fn scan_keeps_prefixed_directories_in_name_order() {
    let state = PoolState::scan(
        vec![
            dir("web-pool-003", true, None),
            dir("web-pool-001", true, Some(Some("  web \n"))),
            dir("other-pool-001", true, None),
            dir("web-pool-002", false, None),
            dir("web-pool-010", true, Some(None)),
        ],
        "web-pool-",
    );
    let names: Vec<&str> = state.entries.iter().map(|e| e.name.as_str()).collect();
    assert_eq!(names, vec!["web-pool-001", "web-pool-003", "web-pool-010"]);
    assert_eq!(state.entries[0].status, WorktreeStatus::Acquired);
    assert_eq!(state.entries[0].owner.as_deref(), Some("web"));
    assert_eq!(state.entries[0].branch, "web-pool-001");
    assert_eq!(state.entries[1].status, WorktreeStatus::Available);
    assert_eq!(state.entries[2].status, WorktreeStatus::Acquired);
    assert_eq!(state.entries[2].owner, None);
}

#[test]
fn scan_state_counts_and_next_name() {
    let state = PoolState::scan(
        vec![dir("web-pool-002", true, None), dir("web-pool-007", true, Some(Some("")))],
        "web-pool-",
    );
    assert_eq!(state.count_by_status(&WorktreeStatus::Available), 1);
    assert_eq!(state.count_by_status(&WorktreeStatus::Acquired), 1);
    assert_eq!(state.next_name("web-pool-"), "web-pool-008");
    assert_eq!(state.next_action(), PoolNextAction::Ready { available: 1 });
    assert_eq!(state.entries[1].owner, None);
}

#[test]
fn next_action_covers_every_pool_shape() {
    let empty = PoolState::scan(vec![], "p-");
    assert_eq!(empty.next_action(), PoolNextAction::WarmPool);
    let idle = PoolState::scan(vec![dir("p-001", true, None)], "p-");
    assert_eq!(idle.next_action(), PoolNextAction::AllIdle { available: 1 });
    let full = PoolState::scan(vec![dir("p-001", true, Some(Some("x")))], "p-");
    assert_eq!(full.next_action(), PoolNextAction::Exhausted { acquired: 1 });
}
