use multiview_control::account_audit::{
    AccountAuditKind, AccountAuditStore, InMemoryAccountAudit, DEFAULT_ACCOUNT_AUDIT_CAPACITY,
};
use multiview_control::json::Json;
use multiview_control::time::MediaTime;

fn rec(store: &mut InMemoryAccountAudit, kind: AccountAuditKind, n: i64) -> u64 {
    store.record("actor", kind, MediaTime::from_nanos(n), None)
}

#[test]
fn record_assigns_monotonic_strictly_increasing_seq() {
    let mut store = InMemoryAccountAudit::new();
    let a = rec(&mut store, AccountAuditKind::LeaseInstall, 1);
    let b = rec(&mut store, AccountAuditKind::ActionRequested, 2);
    let c = rec(&mut store, AccountAuditKind::ActionCancelled, 3);
    assert_eq!((a, b, c), (0, 1, 2), "seq starts at 0 and increments by 1");
}

#[test]
fn page_is_oldest_first_and_resumes_from_cursor_without_gaps_or_dupes() {
    let mut store = InMemoryAccountAudit::new();
    for i in 0..5 {
        rec(&mut store, AccountAuditKind::ActionRequested, i);
    }
    let first = store.page(None, None, 2);
    let seqs: Vec<u64> = first.entries.iter().map(|e| e.seq).collect();
    assert_eq!(seqs, vec![0, 1], "oldest-first page of 2");
    assert_eq!(first.next_cursor, Some(1), "resume after the last seq");

    let second = store.page(first.next_cursor, None, 2);
    let seqs: Vec<u64> = second.entries.iter().map(|e| e.seq).collect();
    assert_eq!(seqs, vec![2, 3], "no gap, no dupe across the page boundary");
    assert_eq!(second.next_cursor, Some(3));

    let third = store.page(second.next_cursor, None, 2);
    let seqs: Vec<u64> = third.entries.iter().map(|e| e.seq).collect();
    assert_eq!(seqs, vec![4], "the final partial page");
    assert_eq!(third.next_cursor, None, "no next page at the end");
}

#[test]
fn page_filters_by_kind() {
    let mut store = InMemoryAccountAudit::new();
    rec(&mut store, AccountAuditKind::LeaseInstall, 1);
    rec(&mut store, AccountAuditKind::ActionRequested, 2);
    rec(&mut store, AccountAuditKind::LeaseInstall, 3);
    let page = store.page(None, Some(AccountAuditKind::LeaseInstall), 10);
    assert_eq!(page.entries.len(), 2);
    assert!(page.entries.iter().all(|e| e.kind == AccountAuditKind::LeaseInstall));
    assert_eq!(page.next_cursor, None);
}

#[test]
fn bounded_eviction_keeps_newest_and_seq_never_rewinds() {
    let mut store = InMemoryAccountAudit::with_capacity(2);
    for i in 0..5 {
        rec(&mut store, AccountAuditKind::ActionRequested, i);
    }
    // Capacity is 2 so only seq 3 and 4 survive; seq is never reused.
    let page = store.page(None, None, 100);
    let seqs: Vec<u64> = page.entries.iter().map(|e| e.seq).collect();
    assert_eq!(seqs, vec![3, 4], "oldest evicted, newest retained");
}

#[test]
fn default_capacity_is_the_documented_constant() {
    // The capacity constant is load-bearing (bounded memory); pin it so a
    // "tidy" cannot silently change the retention floor.
    assert_eq!(DEFAULT_ACCOUNT_AUDIT_CAPACITY, 10_000);
}

#[test]
fn entries_carry_who_when_and_what_else() {
    let mut store = InMemoryAccountAudit::default();
    store.record(
        "alice",
        AccountAuditKind::Claim,
        MediaTime::from_nanos(-7),
        Some(Json::Unsigned(3)),
    );
    let page = store.page(None, None, 0);
    assert_eq!(page.entries.len(), 1, "a page holds one entry at least");
    let e = &page.entries[0];
    assert_eq!((e.actor.as_str(), e.at_nanos, e.seq), ("alice", -7, 0));
    assert_eq!(e.detail, Some(Json::Unsigned(3)));
}

#[test]
fn a_page_that_ends_on_the_last_match_has_no_cursor() {
    let mut store = InMemoryAccountAudit::with_capacity(0);
    rec(&mut store, AccountAuditKind::Claim, 0);
    rec(&mut store, AccountAuditKind::Transfer, 0);
    // A capacity of nothing keeps one.
    assert_eq!(store.page(None, None, 1).entries[0].seq, 1);
    assert_eq!(store.page(None, None, 1).next_cursor, None);
    assert!(store.page(Some(1), None, 1).entries.is_empty());
    let mut store = InMemoryAccountAudit::new();
    rec(&mut store, AccountAuditKind::Claim, 0);
    rec(&mut store, AccountAuditKind::Transfer, 0);
    rec(&mut store, AccountAuditKind::Claim, 0);
    rec(&mut store, AccountAuditKind::Transfer, 0);
    let page = store.page(None, Some(AccountAuditKind::Claim), 1);
    assert_eq!(page.next_cursor, Some(0));
    let page = store.page(page.next_cursor, Some(AccountAuditKind::Claim), 1);
    assert_eq!(page.entries[0].seq, 2);
    assert_eq!(page.next_cursor, None, "what is left is of another kind");
}

#[test]
fn a_reader_that_follows_the_cursors_sees_every_entry_once() {
    let mut store = InMemoryAccountAudit::with_capacity(7);
    for i in 0..12 {
        let kind = if i % 3 == 0 {
            AccountAuditKind::Claim
        } else {
            AccountAuditKind::RelayToggle
        };
        rec(&mut store, kind, i);
    }
    for (filter, wanted) in
        [(None, vec![5, 6, 7, 8, 9, 10, 11]), (Some(AccountAuditKind::RelayToggle), vec![5, 7, 8, 10, 11])]
    {
        for limit in 0..9 {
            let mut seen: Vec<u64> = Vec::new();
            let mut page = store.page(None, filter, limit);
            seen.extend(page.entries.iter().map(|e| e.seq));
            while page.next_cursor.is_some() {
                page = store.page(page.next_cursor, filter, limit);
                seen.extend(page.entries.iter().map(|e| e.seq));
            }
            assert_eq!(seen, wanted);
        }
    }
}
