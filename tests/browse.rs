use grit_find::window::{clamp_page, parse_choice, total_pages, BrowseAction, Browser, Choice};

#[test]
fn windows_of_thirty_seven() {
    let mut b = Browser::start_at(37, 1).unwrap();
    assert_eq!(b.total, 2);
    assert_eq!(b.bounds(), (0, 25));
    assert_eq!(b.on_choice(Choice::Next), BrowseAction::Show);
    assert_eq!(b.page, 2);
    assert_eq!(b.bounds(), (25, 37));
    assert_eq!(b.on_choice(Choice::Next), BrowseAction::NoMorePages);
    assert_eq!(b.bounds(), (25, 37));
    assert_eq!(b.on_choice(Choice::Previous), BrowseAction::Show);
    assert_eq!(b.on_choice(Choice::Previous), BrowseAction::AlreadyFirst);
    assert_eq!(b.page, 1);
}

#[test]
fn out_of_range_pick_is_rejected() {
    let mut b = Browser::start_at(37, 2).unwrap();
    assert_eq!(b.on_choice(Choice::Pick(13)), BrowseAction::InvalidChoice);
    assert_eq!(b.on_choice(Choice::Pick(0)), BrowseAction::InvalidChoice);
    assert_eq!(b.on_choice(Choice::Pick(26)), BrowseAction::InvalidChoice);
    assert_eq!(b.on_choice(Choice::Pick(12)), BrowseAction::Selected(36));
    assert_eq!(b.on_choice(Choice::Pick(1)), BrowseAction::Selected(25));
    assert_eq!(b.on_choice(Choice::Invalid), BrowseAction::InvalidChoice);
    assert_eq!(b.on_choice(Choice::Cancel), BrowseAction::Cancelled);
    assert_eq!(b.page, 2);
}

#[test]
fn start_page_is_clamped() {
    assert_eq!(Browser::start_at(37, 0).unwrap().page, 1);
    assert_eq!(Browser::start_at(37, 9).unwrap().page, 2);
    assert_eq!(Browser::start_at(100, 4).unwrap().page, 4);
    assert!(Browser::start_at(0, 1).is_none());
    assert_eq!(clamp_page(5, 0), 1);
    assert_eq!(clamp_page(3, 4), 3);
}

#[test]
fn page_counts() {
    assert_eq!(total_pages(0, 25), 0);
    assert_eq!(total_pages(1, 25), 1);
    assert_eq!(total_pages(25, 25), 1);
    assert_eq!(total_pages(26, 25), 2);
    assert_eq!(total_pages(100, 25), 4);
}

#[test]
fn choices_are_read_trimmed_and_caseless() {
    assert_eq!(parse_choice(" n "), Choice::Next);
    assert_eq!(parse_choice("N"), Choice::Next);
    assert_eq!(parse_choice("p\n"), Choice::Previous);
    assert_eq!(parse_choice("C"), Choice::Cancel);
    assert_eq!(parse_choice(" 12 "), Choice::Pick(12));
    assert_eq!(parse_choice("next"), Choice::Invalid);
    assert_eq!(parse_choice(""), Choice::Invalid);
    assert_eq!(parse_choice("-3"), Choice::Invalid);
}
