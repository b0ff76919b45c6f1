use apod_crawl::governor::{ConcurrencyBudget, Governor};

fn budget(n: usize) -> ConcurrencyBudget {
    ConcurrencyBudget::new(n).unwrap()
}

#[test]
fn budget_takes_every_positive_number() {
    assert!(ConcurrencyBudget::new(0).is_none());
    assert_eq!(ConcurrencyBudget::new(1).unwrap().get(), 1);
    assert_eq!(ConcurrencyBudget::new(5).unwrap().get(), 5);
    assert_eq!(ConcurrencyBudget::new(50).unwrap().get(), 50);
    assert_eq!(ConcurrencyBudget::new(usize::MAX).unwrap().get(), usize::MAX);
}

#[test]
fn governor_admits_in_index_order_up_to_the_budget() {
    let mut g = Governor::new(budget(3), 5);
    assert_eq!(g.in_flight_count(), 0);
    assert_eq!(g.pending_count(), 5);
    assert_eq!(g.admit_next(), Some(0));
    assert_eq!(g.admit_next(), Some(1));
    assert_eq!(g.admit_next(), Some(2));
    assert_eq!(g.in_flight_count(), 3);
    assert_eq!(g.admit_next(), None);
    assert_eq!(g.admit_next(), None);
    assert_eq!(g.in_flight_count(), 3);
    assert_eq!(g.admitted_count(), 3);
    assert_eq!(g.pending_count(), 2);
}

#[test]
fn governor_queues_what_it_cannot_take() {
    let mut g = Governor::new(budget(1), 3);
    assert_eq!(g.admit_next(), Some(0));
    assert_eq!(g.admit_next(), None);
    assert!(g.release());
    assert_eq!(g.admit_next(), Some(1));
    assert_eq!(g.admit_next(), None);
    assert!(g.release());
    assert_eq!(g.admit_next(), Some(2));
    assert!(!g.drained());
    assert!(g.release());
    assert!(g.drained());
    assert_eq!(g.admit_next(), None);
    assert_eq!(g.in_flight_count(), 0);
    assert_eq!(g.pending_count(), 0);
}

#[test]
fn governor_release_without_anything_in_flight_changes_nothing() {
    let mut g = Governor::new(budget(2), 2);
    assert!(!g.release());
    assert_eq!(g.in_flight_count(), 0);
    assert_eq!(g.admit_next(), Some(0));
    assert!(g.release());
    assert!(!g.release());
    assert_eq!(g.admitted_count(), 1);
    assert_eq!(g.admit_next(), Some(1));
}

#[test]
fn governor_without_entries_is_drained_at_once() {
    let mut g = Governor::new(budget(5), 0);
    assert!(g.drained());
    assert_eq!(g.admit_next(), None);
    assert_eq!(g.limit(), 5);
}

#[test]
fn governor_never_exceeds_its_budget() {
    for limit in [1usize, 5, 50] {
        let mut g = Governor::new(budget(limit), 120);
        let mut order = Vec::new();
        let mut step = 0usize;
        while !g.drained() {
            while let Some(index) = g.admit_next() {
                order.push(index);
                assert!(g.in_flight_count() <= limit);
            }
            assert_eq!(g.in_flight_count(), limit.min(120 - (order.len() - g.in_flight_count())));
            let releases = 1 + step % 3;
            for _ in 0..releases {
                g.release();
            }
            assert!(g.in_flight_count() <= limit);
            step += 1;
        }
        assert_eq!(order, (0..120).collect::<Vec<usize>>());
    }
}
