use tardy::{Act, Frame, Hijinks, Imp, Quote, Quotes, Urge};

fn one_quote() -> Quotes {
    Quotes::new(vec![Quote::new(Some("Ada".to_string()), "Onward".to_string())])
}

fn sample(n: u64) -> Frame {
    Frame::new(n, 60, 70, 200, 100)
}

#[test]
fn instigate_spends_newest_frame() {
    let mut imp = Imp::new(vec![sample(1), sample(2)], "Pix".to_string(), one_quote());
    let urge = imp.instigate();
    match urge {
        Urge::Send(Hijinks::Meddle(m)) => {
            assert_eq!(*m.act(), Act::NewWindow);
            assert_eq!(*m.frame(), Some(sample(2)));
            assert_eq!(m.title(), "Pix's Window");
        }
        _ => panic!("expected a new-window request"),
    }
    assert_eq!(imp.frames(), &vec![sample(1)]);
}

#[test]
fn empty_slice_pleads_then_resumes() {
    // A worker with an empty slice pleads instead of crashing; an empty reply
    // leaves it operating, and a stocked reply lets it act again.
    let mut imp = Imp::new(Vec::new(), "Pix".to_string(), one_quote());
    match imp.instigate() {
        Urge::Plead(Hijinks::Filch(_), _rx) => {}
        _ => panic!("expected a plea for frames"),
    }
    imp.accept_reply(Vec::new());
    match imp.instigate() {
        Urge::Plead(Hijinks::Filch(_), _rx) => {}
        _ => panic!("expected another plea after the empty reply"),
    }
    imp.accept_reply(vec![sample(9)]);
    match imp.instigate() {
        Urge::Send(Hijinks::Meddle(m)) => assert_eq!(*m.frame(), Some(sample(9))),
        _ => panic!("expected a new-window request after restocking"),
    }
    assert!(imp.frames().is_empty());
}

#[test]
fn spoil_closes_without_frame() {
    let imp = Imp::new(Vec::new(), "Pix".to_string(), one_quote());
    match imp.spoil() {
        Urge::Send(Hijinks::Meddle(m)) => {
            assert_eq!(*m.act(), Act::CloseWindow);
            assert_eq!(*m.frame(), None);
            assert_eq!(m.title(), "Pix");
        }
        _ => panic!("expected a close-window request"),
    }
}

#[test]
fn vandal_index_reduces_modulo() {
    let quotes = Quotes::new(vec![
        Quote::new(None, "a".to_string()),
        Quote::new(None, "b".to_string()),
        Quote::new(None, "c".to_string()),
    ]);
    let imp = Imp::new(Vec::new(), "Pix".to_string(), quotes);
    assert_eq!(imp.vandal_index(0), 0);
    assert_eq!(imp.vandal_index(4), 1);
    assert_eq!(imp.vandal_index(65535), 65535 % 3);
}

#[test]
fn vandal_quip_formats_quote() {
    let imp = Imp::new(Vec::new(), "Pix".to_string(), one_quote());
    assert_eq!(imp.vandal_quip(0), "Pix says: 'Onward' - Ada");
}

#[test]
fn vandalize_single_quote_catalog() {
    // With one quote the random draw cannot matter.
    let imp = Imp::new(Vec::new(), "Pix".to_string(), one_quote());
    match imp.vandalize() {
        Urge::Send(Hijinks::Vandalize(text)) => {
            assert_eq!(text, "Pix says: 'Onward' - Ada");
        }
        _ => panic!("expected a log message"),
    }
}

#[test]
fn meddle_with_heads_instigates_tails_spoils() {
    let mut imp = Imp::new(vec![sample(5)], "Pix".to_string(), one_quote());
    match imp.meddle_with(false) {
        Urge::Send(Hijinks::Meddle(m)) => assert_eq!(*m.act(), Act::CloseWindow),
        _ => panic!("expected a close-window request"),
    }
    assert_eq!(imp.frames().len(), 1);
    match imp.meddle_with(true) {
        Urge::Send(Hijinks::Meddle(m)) => assert_eq!(*m.act(), Act::NewWindow),
        _ => panic!("expected a new-window request"),
    }
    assert!(imp.frames().is_empty());
}

#[test]
fn hijinks_turn_is_one_of_three() {
    let mut imp = Imp::new(vec![sample(5)], "Pix".to_string(), one_quote());
    for _ in 0..20 {
        match imp.hijinks() {
            Urge::Send(Hijinks::Meddle(m)) => {
                assert!(*m.act() == Act::NewWindow || *m.act() == Act::CloseWindow);
            }
            Urge::Send(Hijinks::Vandalize(text)) => {
                assert_eq!(text, "Pix says: 'Onward' - Ada");
            }
            Urge::Plead(Hijinks::Filch(_), _rx) => {}
            _ => panic!("no other turn exists"),
        }
    }
}
