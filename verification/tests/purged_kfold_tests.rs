use quant_lab::afml::purged_kfold::{event_overlaps, purged_kfold_splits, EventSpan, PurgedKFoldConfig};

fn ev(entry: usize, exit: usize) -> EventSpan {
    EventSpan { entry_index: entry, exit_index: exit }
}

#[test]
fn test_event_overlaps() {
    let e = ev(2, 6);
    assert!(event_overlaps(&e, 0, 5));
    assert!(event_overlaps(&e, 5, 10));
    assert!(!event_overlaps(&e, 6, 10));
    assert!(!event_overlaps(&e, 0, 2));
}

#[test]
fn test_purged_kfold_no_leakage() {
    let events: Vec<EventSpan> = (0..10).map(|i| ev(i * 10, i * 10 + 3)).collect();
    let splits = purged_kfold_splits(&events, 100, &PurgedKFoldConfig { n_folds: 5, embargo: 0 });
    assert_eq!(splits.len(), 5);
    for split in &splits {
        for &ti in &split.test_indices {
            let ev_t = &events[ti];
            for &tr in &split.train_indices {
                let ev_tr = &events[tr];
                assert!(
                    ev_tr.exit_index <= ev_t.entry_index || ev_tr.entry_index >= ev_t.exit_index,
                    "train event {tr:?} overlaps test event {ti:?}"
                );
            }
        }
    }
}

#[test]
fn test_purged_kfold_embargo() {
    // 20 events of width 2 bars, starting every 5 bars across 100 bars.
    let events: Vec<EventSpan> = (0..20).map(|i| ev(i * 5, i * 5 + 2)).collect();
    let splits = purged_kfold_splits(&events, 100, &PurgedKFoldConfig { n_folds: 4, embargo: 5 });
    let total_embargoed: usize = splits.iter().map(|s| s.embargoed_count).sum();
    assert_eq!(total_embargoed, 3, "expected 3 embargoed events total, got {total_embargoed}");
    // The last fold has an empty embargo (clamped at n_bars).
    assert_eq!(splits[3].embargoed_count, 0);
}

#[test]
fn t09_purged_kfold_no_leakage() {
    let events: Vec<EventSpan> = (0..10).map(|i| ev(i * 10, i * 10 + 3)).collect();
    let splits = purged_kfold_splits(&events, 100, &PurgedKFoldConfig { n_folds: 5, embargo: 0 });
    assert_eq!(splits.len(), 5);
    for split in &splits {
        for &ti in &split.test_indices {
            let ev_t = &events[ti];
            for &tr in &split.train_indices {
                let ev_tr = &events[tr];
                assert!(
                    ev_tr.exit_index <= ev_t.entry_index || ev_tr.entry_index >= ev_t.exit_index,
                    "train event {tr:?} overlaps test event {ti:?}"
                );
            }
        }
    }
}

#[test]
fn t10_purged_kfold_embargo() {
    let events: Vec<EventSpan> = (0..20).map(|i| ev(i * 5, i * 5 + 2)).collect();
    let splits = purged_kfold_splits(&events, 100, &PurgedKFoldConfig { n_folds: 4, embargo: 5 });
    let total_embargoed: usize = splits.iter().map(|s| s.embargoed_count).sum();
    assert_eq!(total_embargoed, 3, "expected 3 embargoed events total, got {total_embargoed}");
    assert_eq!(splits[3].embargoed_count, 0);
}

#[test]
fn purged_kfold_roles_exact() {
    // Folds of 10 bars over 30 bars, embargo 3.
    let events = vec![ev(0, 4), ev(8, 12), ev(10, 14), ev(13, 15), ev(21, 25), ev(29, 40)];
    let splits = purged_kfold_splits(&events, 30, &PurgedKFoldConfig { n_folds: 3, embargo: 3 });
    assert_eq!(splits.len(), 3);
    // Fold 0 tests [0, 10): events 0 and 1; embargo [10, 13): event 2.
    assert_eq!(splits[0].test_indices, vec![0, 1]);
    assert_eq!(splits[0].purged_count, 0);
    assert_eq!(splits[0].embargoed_count, 1);
    assert_eq!(splits[0].train_indices, vec![3, 4, 5]);
    // Fold 1 tests [10, 20): events 2 and 3; event 1 overlaps it and is
    // purged; embargo [20, 23): event 4.
    assert_eq!(splits[1].test_indices, vec![2, 3]);
    assert_eq!(splits[1].purged_count, 1);
    assert_eq!(splits[1].embargoed_count, 1);
    assert_eq!(splits[1].train_indices, vec![0, 5]);
    // Last fold tests [20, 30) and its embargo is empty.
    assert_eq!(splits[2].test_indices, vec![4, 5]);
    assert_eq!(splits[2].purged_count, 0);
    assert_eq!(splits[2].embargoed_count, 0);
    assert_eq!(splits[2].train_indices, vec![0, 1, 2, 3]);
    for s in &splits {
        assert_eq!(
            s.test_indices.len() + s.train_indices.len() + s.purged_count + s.embargoed_count,
            events.len()
        );
    }
}

#[test]
fn purged_kfold_more_folds_than_bars() {
    // Fold size 0: every fold but the last has an empty test period.
    let events = vec![ev(0, 1), ev(2, 2)];
    let splits = purged_kfold_splits(&events, 3, &PurgedKFoldConfig { n_folds: 5, embargo: 1 });
    assert_eq!(splits.len(), 5);
    for s in &splits[..4] {
        assert!(s.test_indices.is_empty());
    }
    assert_eq!(splits[4].test_indices, vec![0, 1]);
}

#[test]
fn purged_kfold_each_event_tested_once() {
    let events: Vec<EventSpan> = (0..23).map(|i| ev(i * 5, i * 5 + 7)).collect();
    let splits = purged_kfold_splits(&events, 120, &PurgedKFoldConfig { n_folds: 4, embargo: 6 });
    for i in 0..events.len() {
        let folds = splits.iter().filter(|s| s.test_indices.contains(&i)).count();
        assert_eq!(folds, if events[i].entry_index < 120 { 1 } else { 0 });
    }
    // Test events exit by the end of the embargo here, so nothing leaks.
    for s in &splits {
        for &t in &s.test_indices {
            for &r in &s.train_indices {
                assert!(
                    events[r].exit_index <= events[t].entry_index
                        || events[r].entry_index >= events[t].exit_index
                );
            }
        }
    }
}
