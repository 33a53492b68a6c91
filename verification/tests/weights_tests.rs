use quant_lab::afml::purged_kfold::EventSpan;
use quant_lab::afml::weights::concurrent_events;

fn ev(entry: usize, exit: usize) -> EventSpan {
    EventSpan { entry_index: entry, exit_index: exit }
}

#[test]
fn test_concurrent_events_overlap() {
    let events = vec![ev(0, 5), ev(3, 8), ev(7, 10)];
    let counts = concurrent_events(&events, 12);
    // Bars 3-5 should have count 2; bars 7-8 should have count 2; rest 1 or 0.
    assert_eq!(counts[0], 1);
    assert_eq!(counts[3], 2);
    assert_eq!(counts[7], 2);
    assert_eq!(counts[10], 1);
    assert_eq!(counts[11], 0);
}

#[test]
fn t06_concurrent_events_overlap() {
    let events = vec![ev(0, 5), ev(3, 8), ev(7, 10)];
    let counts = concurrent_events(&events, 12);
    assert_eq!(counts[0], 1);
    assert_eq!(counts[3], 2);
    assert_eq!(counts[7], 2);
    assert_eq!(counts[11], 0);
    let max_c = *counts.iter().max().unwrap();
    assert!(max_c > 1, "expected overlap, max concurrency = {max_c}");
}

#[test]
fn concurrent_events_clamped_to_data() {
    // An event running past the data is counted up to the last bar; an
    // event entered after the data is ignored; an inverted span counts
    // nowhere.
    let events = vec![ev(2, 100), ev(7, 9), ev(4, 1)];
    let counts = concurrent_events(&events, 5);
    assert_eq!(counts, vec![0, 0, 1, 1, 1]);
    assert!(concurrent_events(&events, 0).is_empty());
}

#[test]
fn lone_event_counted_once() {
    let counts = concurrent_events(&[ev(100, 105)], 200);
    for t in 0..200 {
        assert_eq!(counts[t], if (100..=105).contains(&t) { 1 } else { 0 });
    }
}
