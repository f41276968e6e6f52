use wirewhale::filtable::{Filtable, FiltableList};

struct Mock {
    s: String,
}

impl Filtable for Mock {
    fn is_match(&self, s: &str) -> bool {
        self.s.contains(s)
    }
}

#[test]
fn it_work() {
    let mut li = FiltableList::<Mock>::default();
    assert_eq!(li.filterd_first(), None);
    assert_eq!(li.filterd_last(), None);
    for i in 0..20 {
        if i % 2 == 0 {
            li.push(Mock {
                s: "tcp".to_string(),
            });
        } else {
            li.push(Mock {
                s: "udp".to_string(),
            });
        }
    }
    assert_eq!(li.filterd_first(), Some(0));
    assert_eq!(li.filterd_last(), Some(19));
    li.add_filter_str("tcp");
    assert_eq!(li.filterd_first(), Some(0));
    assert_eq!(li.filterd_last(), Some(18));
    li.push(Mock {
        s: "ucp".to_string(),
    });
    li.delete_filter_char();
    li.delete_filter_char();
    li.delete_filter_char();
    li.add_filter_str("udp");
    assert_eq!(li.filterd_first(), Some(1));
    assert_eq!(li.next(1), Some(3));
    assert_eq!(li.next(0), Some(1));
    assert_eq!(li.previous(3), Some(1));
}

fn list_of(items: &[&str], filter: &str) -> FiltableList<Mock> {
    let mut li = FiltableList::<Mock>::new();
    li.add_filter_str(filter);
    for s in items {
        li.push(Mock { s: s.to_string() });
    }
    li
}

fn alternating() -> FiltableList<Mock> {
    let mut li = FiltableList::<Mock>::new();
    for i in 0..20 {
        if i % 2 == 0 {
            li.push(Mock {
                s: "a tcp item".to_string(),
            });
        } else {
            li.push(Mock {
                s: "a udp item".to_string(),
            });
        }
    }
    li
}

/// The chain as the definition gives it, by searching.
fn nearest(li: &FiltableList<Mock>, i: usize) -> (Option<usize>, Option<usize>) {
    let previous = (0..i).rev().find(|&j| li.is_match(j));
    let next = (i + 1..li.len()).find(|&j| li.is_match(j));
    (previous, next)
}

fn assert_chain(li: &FiltableList<Mock>) {
    for i in 0..li.len() {
        assert_eq!((li.previous(i), li.next(i)), nearest(li, i));
    }
    assert_eq!(li.filterd_first(), (0..li.len()).find(|&j| li.is_match(j)));
    assert_eq!(
        li.filterd_last(),
        (0..li.len()).rev().find(|&j| li.is_match(j))
    );
    assert_eq!(
        li.is_filterd_empty(),
        (0..li.len()).all(|j| !li.is_match(j))
    );
}

#[test]
fn alternating_items_under_a_filter() {
    let mut li = alternating();
    li.add_filter_str("udp");
    assert_eq!(li.filterd_first(), Some(1));
    assert_eq!(li.next(1), Some(3));
    assert_eq!(li.filterd_last(), Some(19));
    assert_eq!(li.next(19), None);
    assert_eq!(li.next(18), Some(19));
    assert_eq!(li.previous(1), None);
    assert_eq!(li.previous(0), None);
    assert_eq!(li.previous(2), Some(1));
}

#[test]
fn a_new_list_is_empty() {
    let li = FiltableList::<Mock>::new();
    assert!(li.is_empty());
    assert!(li.is_filterd_empty());
    assert_eq!(li.len(), 0);
    assert_eq!(li.get_filter(), "");
    assert_eq!(li.filterd_first(), None);
    assert_eq!(li.filterd_last(), None);
}

#[test]
fn items_keep_their_index() {
    let li = list_of(&["a", "b", "c"], "b");
    assert_eq!(li.len(), 3);
    assert!(!li.is_empty());
    assert_eq!(li.get_item(0).s, "a");
    assert_eq!(li.get_item(1).s, "b");
    assert_eq!(li.get_item(2).s, "c");
    assert!(!li.is_match(0));
    assert!(li.is_match(1));
    assert!(!li.is_match(2));
}

#[test]
fn chain_after_every_push_and_filter_edit() {
    let items = [
        "ab", "b", "abc", "", "c", "bc", "a", "abc", "cab", "b", "bca", "x",
    ];
    for filter in ["", "a", "b", "ab", "abc", "bc", "zz"] {
        let mut li = FiltableList::<Mock>::new();
        li.add_filter_str(filter);
        assert_chain(&li);
        for s in items {
            li.push(Mock { s: s.to_string() });
            assert_chain(&li);
        }
        for _ in 0..4 {
            li.delete_filter_char();
            assert_chain(&li);
        }
        li.add_filter_str("c");
        assert_chain(&li);
        li.push(Mock {
            s: "c".to_string(),
        });
        assert_chain(&li);
    }
}

#[test]
fn first_and_last_are_none_exactly_when_nothing_matches() {
    let mut li = list_of(&["tcp", "udp", "tcp"], "");
    assert!(!li.is_filterd_empty());
    li.add_filter_str("icmp");
    assert_eq!(li.filterd_first(), None);
    assert_eq!(li.filterd_last(), None);
    assert!(li.is_filterd_empty());
    assert!(!li.is_empty());
    li.push(Mock {
        s: "icmp".to_string(),
    });
    assert_eq!(li.filterd_first(), Some(3));
    assert_eq!(li.filterd_last(), Some(3));
    assert!(!li.is_filterd_empty());
}

#[test]
fn only_the_first_item_matches() {
    let li = list_of(&["x", "a", "b"], "x");
    assert!(!li.is_filterd_empty());
    assert_eq!(li.filterd_first(), Some(0));
    assert_eq!(li.filterd_last(), Some(0));
    assert_eq!(li.next(0), None);
    assert_eq!(li.previous(2), Some(0));
}

#[test]
fn filter_set_first_or_last_gives_the_same_chain() {
    let items = ["tcp", "udp", "udp", "arp", "tcp", "udp", "tcp", "tcp"];
    for filter in ["", "udp", "tcp", "p", "arp", "none"] {
        let direct = list_of(&items, filter);
        let mut later = list_of(&items, "");
        later.add_filter_str(filter);
        assert_eq!(direct.get_filter(), later.get_filter());
        assert_eq!(direct.len(), later.len());
        for i in 0..direct.len() {
            assert_eq!(direct.next(i), later.next(i));
            assert_eq!(direct.previous(i), later.previous(i));
        }
        assert_eq!(direct.filterd_first(), later.filterd_first());
        assert_eq!(direct.filterd_last(), later.filterd_last());
    }
}

#[test]
fn filter_is_edited_at_its_end() {
    let mut li = list_of(&["abc"], "");
    li.add_filter_str("ab");
    li.add_filter_str("");
    li.add_filter_str("c");
    assert_eq!(li.get_filter(), "abc");
    assert!(li.is_match(0));
    li.delete_filter_char();
    assert_eq!(li.get_filter(), "ab");
    li.add_filter_str("\u{e9}");
    assert_eq!(li.get_filter(), "ab\u{e9}");
    assert!(!li.is_match(0));
    li.delete_filter_char();
    assert_eq!(li.get_filter(), "ab");
    li.delete_filter_char();
    li.delete_filter_char();
    li.delete_filter_char();
    assert_eq!(li.get_filter(), "");
    assert!(li.is_match(0));
}
