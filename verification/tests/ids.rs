use tardy::{Counter, Id, Identifier};

#[test]
fn counter_starts_at_zero() {
    assert_eq!(Counter::default(), Counter(0));
}

#[test]
fn counter_counts_upward() {
    let mut c = Counter::default();
    assert_eq!(c.next(), 1);
    assert_eq!(c.next(), 2);
    assert_eq!(c.next(), 3);
}

#[test]
fn id_counter_draws_in_order() {
    let mut id = Id::counter();
    assert_eq!(id.id, Counter(0));
    assert_eq!(id.next(), 1);
    assert_eq!(id.next(), 2);
    assert_eq!(id.id, Counter(2));
}
