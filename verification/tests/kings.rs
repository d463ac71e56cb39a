use tardy::{Filch, Frame, Hijinks, ImpKing, Quote, Quotes, Route, FRAMES};

fn sample(n: u64) -> Frame {
    Frame::new(n, 60, 70, 200, 100)
}

fn pool_of(n: u64) -> Vec<Frame> {
    (0..n).map(sample).collect()
}

fn one_quote() -> Quotes {
    Quotes::new(vec![Quote::new(None, "Onward".to_string())])
}

fn names(list: &[&str]) -> Vec<String> {
    list.iter().map(|s| s.to_string()).collect()
}

#[test]
fn summon_keeps_pool_and_catalog() {
    let king = ImpKing::summon(pool_of(3), one_quote());
    assert_eq!(king.frames().len(), 3);
    assert_eq!(king.quotes().len(), 1);
}

#[test]
fn provision_twenty_for_two_then_fail_fast() {
    // A pool of 20 provisions two workers of 10 and is left empty; asking for
    // one more must fail fast without partially creating a worker.
    let mut king = ImpKing::summon(pool_of(20), one_quote());
    let imps = king.provision(names(&["Ash", "Brook"]), 10);
    assert_eq!(imps.len(), 2);
    assert_eq!(king.frames().len(), 0);
    assert_eq!(imps[0].name(), "Ash");
    assert_eq!(imps[1].name(), "Brook");
    assert_eq!(imps[0].frames().len(), 10);
    assert_eq!(imps[1].frames().len(), 10);
    // newest first: the first worker starts from the end of the pool
    assert_eq!(imps[0].frames()[0], sample(19));
    assert_eq!(imps[1].frames()[0], sample(9));
    let more = king.provision(names(&["Cedar"]), 10);
    assert!(more.is_empty());
    assert_eq!(king.frames().len(), 0);
}

#[test]
fn provision_never_partial() {
    let mut king = ImpKing::summon(pool_of(15), one_quote());
    let imps = king.provision(names(&["Ash", "Brook"]), 10);
    assert!(imps.is_empty());
    assert_eq!(king.frames().len(), 15);
}

#[test]
fn provision_clones_catalog_per_worker() {
    let mut king = ImpKing::summon(pool_of(2), one_quote());
    let imps = king.provision(names(&["Ash", "Brook"]), 1);
    assert_eq!(imps[0].quotes().len(), 1);
    assert_eq!(imps[1].quotes().len(), 1);
    assert_eq!(imps[0].quotes().at(0).quote, "Onward");
}

#[test]
fn imps_draws_fresh_names() {
    let mut king = ImpKing::summon(pool_of(20), one_quote());
    let imps = king.imps(2);
    assert_eq!(imps.len(), 2);
    assert_eq!(king.frames().len(), 20 - 2 * FRAMES);
    for imp in &imps {
        assert_eq!(imp.frames().len(), FRAMES);
    }
}

#[test]
fn dispatch_forwards_logs_unchanged() {
    let mut king = ImpKing::summon(pool_of(3), one_quote());
    let route = king.dispatch(Hijinks::Vandalize("hi".to_string()));
    match route {
        Route::Forward(Hijinks::Vandalize(text)) => assert_eq!(text, "hi"),
        _ => panic!("a log must be forwarded unchanged"),
    }
    assert_eq!(king.frames().len(), 3);
}

#[test]
fn dispatch_replies_through_the_carried_channel() {
    // The reply reaches exactly the channel the request carried.
    let mut king = ImpKing::summon(pool_of(25), one_quote());
    let (tx, mut rx) = tokio::sync::oneshot::channel();
    let (other_tx, mut other_rx) = tokio::sync::oneshot::channel::<Vec<Frame>>();
    let route = king.dispatch(Hijinks::Filch(Filch::new(tx)));
    assert!(matches!(route, Route::Replied(true)));
    let got = rx.try_recv().expect("the requester must see its reply");
    assert_eq!(got.len(), FRAMES);
    assert_eq!(got[0], sample(24));
    assert_eq!(king.frames().len(), 25 - FRAMES);
    assert!(other_rx.try_recv().is_err(), "no other channel may see it");
    drop(other_tx);
}

#[test]
fn dispatch_empty_pool_replies_empty() {
    // Exhaustion returns an empty reply at once, it never withholds one.
    let mut king = ImpKing::summon(Vec::new(), one_quote());
    let (tx, mut rx) = tokio::sync::oneshot::channel();
    let route = king.dispatch(Hijinks::Filch(Filch::new(tx)));
    assert!(matches!(route, Route::Replied(true)));
    let got = rx.try_recv().expect("an empty pool still answers");
    assert!(got.is_empty());
}

#[test]
fn dispatch_dead_requester_restores_pool() {
    let mut king = ImpKing::summon(pool_of(4), one_quote());
    let (tx, rx) = tokio::sync::oneshot::channel::<Vec<Frame>>();
    drop(rx);
    let route = king.dispatch(Hijinks::Filch(Filch::new(tx)));
    assert!(matches!(route, Route::Replied(false)));
    assert_eq!(king.frames(), &pool_of(4));
}
