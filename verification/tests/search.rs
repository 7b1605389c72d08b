use hybrid_gauge::search::{Notice, Search};

#[test]
fn the_object_manager_is_searched_once() {
    let mut search = Search::new();
    assert!(search.reports());
    assert!(search.failed());
    assert!(!search.reports());
    assert!(!search.failed());
    search.opened();
    assert!(search.reports());
    assert!(!search.failed());
    assert!(!search.reports());
}

#[test]
fn a_success_does_not_use_up_the_search() {
    let mut search = Search::new();
    search.opened();
    assert!(search.reports());
    assert!(search.failed());
    assert!(search.scanned);
}

#[test]
fn a_notice_is_given_once_until_withdrawn() {
    let mut notice = Notice { given: false };
    assert!(notice.give());
    assert!(!notice.give());
    notice.withdraw();
    assert!(notice.give());
    assert!(!notice.give());
}
