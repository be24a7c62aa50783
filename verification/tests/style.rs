use termview::document::foreground_of;
use termview::document::Foreground;
use termview::document::BOLD;
use termview::document::CODE;
use termview::document::DIM;
use termview::document::HEADING;
use termview::document::ITALIC;
use termview::document::QUOTE;
use termview::document::TextStyle;
use termview::document::union;

#[test]
fn insert_remove_round_trip() {
    // Inserting an attribute that was absent and removing it again restores
    // the prior set.
    let mut s = TextStyle(BOLD | QUOTE);
    let before = s;
    s.insert(TextStyle(ITALIC));
    s.remove(TextStyle(ITALIC));
    assert_eq!(s, before);
}

#[test]
fn disjoint_insert_then_remove_one() {
    let mut s = TextStyle(HEADING);
    s.insert(TextStyle(BOLD));
    s.insert(TextStyle(ITALIC));
    assert!(s.contains(TextStyle(BOLD)));
    assert!(s.contains(TextStyle(ITALIC)));
    s.remove(TextStyle(BOLD));
    assert!(!s.contains(TextStyle(BOLD)));
    assert!(s.contains(TextStyle(ITALIC)));
}

#[test]
fn contains_tests_all_bits() {
    let s = TextStyle(BOLD | HEADING);
    assert!(s.contains(TextStyle(BOLD)));
    assert!(s.contains(TextStyle(BOLD | HEADING)));
    assert!(!s.contains(TextStyle(BOLD | ITALIC)));
    assert!(TextStyle(0).contains(TextStyle(0)));
}

#[test]
fn union_is_bitwise_or() {
    let u = union(TextStyle(BOLD), TextStyle(HEADING));
    assert_eq!(u, TextStyle(BOLD | HEADING));
    assert_eq!(union(u, TextStyle(0)), u);
}

#[test]
fn foreground_priority_is_heading_quote_code() {
    assert_eq!(foreground_of(TextStyle(HEADING | QUOTE | CODE)), Some(Foreground::Heading));
    assert_eq!(foreground_of(TextStyle(QUOTE | CODE)), Some(Foreground::Quote));
    assert_eq!(foreground_of(TextStyle(CODE | BOLD | DIM)), Some(Foreground::Code));
    assert_eq!(foreground_of(TextStyle(BOLD | ITALIC)), None);
    assert_eq!(foreground_of(TextStyle(0)), None);
}
