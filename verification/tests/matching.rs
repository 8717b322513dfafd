use generic_search::defs::{DirContent, EntryKind};
use generic_search::matching::{matches_query, report_match};
use generic_search::text::contains;

#[test]
fn contains_finds_substrings() {
    assert!(contains("/home/zombie/notes.txt", "zombie"));
    assert!(contains("abc", ""));
    assert!(contains("", ""));
    assert!(!contains("", "a"));
    assert!(!contains("abc", "abcd"));
    assert!(!contains("/home/Zombie", "zombie"));
    assert!(contains("aaab", "aab"));
    assert!(contains("ÀÉÎ", "ÉÎ"));
}

#[test]
fn containment_laws_on_examples() {
    let text = "/srv/zombie_hunt/config";
    assert!(contains(text, text));
    assert!(contains(text, ""));
    assert!(contains(text, "zombie_hunt"));
    assert!(contains("zombie_hunt", "bie_h"));
    assert!(contains(text, "bie_h"));
}

#[test]
fn matching_ignores_case() {
    assert!(matches_query("/home/Zombie/Notes.TXT", "zombie"));
    assert!(matches_query("/home/zombie", "ZOMBIE"));
    assert!(!matches_query("/home/ghost", "zombie"));
    assert!(matches_query("/ÉTÉ/Été", "été"));
}

#[test]
fn reports_follow_the_file_system() {
    let f = report_match(String::from("/a"), EntryKind::File).unwrap();
    assert_eq!(f.path, "/a");
    assert!(!f.is_directory);
    let d = report_match(String::from("/b"), EntryKind::Directory).unwrap();
    assert!(d.is_directory);
    assert!(report_match(String::from("/c"), EntryKind::Other).is_none());
    let _ = DirContent::File(String::from("/x"));
}
