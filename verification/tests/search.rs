use generic_search::cli::Args;
use generic_search::defs::{DirContent, EntryKind};
use generic_search::handler::process;
use generic_search::local_consumer::LocalConsumer;
use generic_search::orchestrator::{SimpleOrchestrator, Step};
use generic_search::producer::{ListedEntry, SimpleProducer};
use generic_search::remote_consumer::RemoteConsumer;

fn entry(path: &str, is_dir: bool) -> Option<ListedEntry> {
    Some(ListedEntry { path: String::from(path), is_dir })
}

fn paths(batch: &[DirContent]) -> Vec<String> {
    batch.iter().map(|d| d.path().clone()).collect()
}

#[test]
fn producer_classifies_readable_entries() {
    let listing = vec![entry("/r/a", true), None, entry("/r/b.txt", false), entry("/r/c", true)];
    let batch = SimpleProducer::produce(Some(listing)).unwrap();
    assert_eq!(paths(&batch), vec!["/r/a", "/r/b.txt", "/r/c"]);
    assert!(batch[0].is_dir());
    assert!(!batch[1].is_dir());
    assert!(batch[2].is_dir());
}

#[test]
fn producer_of_unreadable_directory_sends_nothing() {
    assert!(SimpleProducer::produce(None).is_none());
    let empty = SimpleProducer::produce(Some(Vec::new())).unwrap();
    assert!(empty.is_empty());
}

#[test]
fn producer_lists_the_entry_it_was_given() {
    assert_eq!(SimpleProducer::directory(DirContent::Dir(String::from("/r"))), "/r");
    assert_eq!(SimpleProducer::directory(DirContent::File(String::from("/f"))), "/f");
    let d = SimpleProducer::classify(&ListedEntry { path: String::from("/x"), is_dir: true });
    assert!(d.is_dir());
    assert_eq!(d.into_path(), "/x");
}

#[test]
fn orchestrator_starts_at_the_root() {
    let o = SimpleOrchestrator::new(String::from("zombie"), String::from("/home"));
    let start = o.start();
    assert!(start.is_dir());
    assert_eq!(start.path(), "/home");
    assert_eq!(o.query(), "zombie");
}

#[test]
fn orchestrator_dispatches_batches() {
    let o = SimpleOrchestrator::new(String::from("q"), String::from("/home"));
    let batch = vec![
        DirContent::Dir(String::from("/home/a")),
        DirContent::File(String::from("/home/b")),
        DirContent::Dir(String::from("/home/c")),
    ];
    match o.handle(Some(batch)) {
        Step::Dispatch(d) => {
            assert_eq!(paths(&d.produce), vec!["/home/a", "/home/c"]);
            assert!(d.produce.iter().all(|e| e.is_dir()));
            assert_eq!(paths(&d.consume), vec!["/home/a", "/home/b", "/home/c"]);
            assert_eq!(d.query, "q");
        }
        Step::Stop => panic!("a batch is dispatched"),
    }
    assert!(matches!(o.handle(None), Step::Stop));
}

#[test]
fn listing_is_fully_dispatched() {
    let o = SimpleOrchestrator::new(String::from("q"), String::from("/r"));
    let listing = vec![entry("/r/x", false), None, entry("/r/y", true), entry("/r/z", true)];
    let batch = SimpleProducer::produce(Some(listing)).unwrap();
    match o.handle(Some(batch)) {
        Step::Dispatch(d) => {
            assert_eq!(paths(&d.produce), vec!["/r/y", "/r/z"]);
            assert_eq!(paths(&d.consume), vec!["/r/x", "/r/y", "/r/z"]);
        }
        Step::Stop => panic!("a batch is dispatched"),
    }
}

fn sample_batch() -> Vec<DirContent> {
    vec![
        DirContent::Dir(String::from("/home/Zombie")),
        DirContent::File(String::from("/home/notes.txt")),
        DirContent::File(String::from("/home/ZOMBIE_hunt.md")),
        DirContent::File(String::from("/home/zom")),
    ]
}

#[test]
fn local_consumer_finds_hits_in_order() {
    let found = LocalConsumer::consume(sample_batch(), String::from("zombie"));
    assert_eq!(found, vec!["/home/Zombie", "/home/ZOMBIE_hunt.md"]);
    let none = LocalConsumer::consume(sample_batch(), String::from("ghost"));
    assert!(none.is_empty());
}

#[test]
fn remote_consumer_finds_the_same_hits() {
    let found = RemoteConsumer::consume(sample_batch(), String::from("ZoMbIe"));
    assert_eq!(found, vec!["/home/Zombie", "/home/ZOMBIE_hunt.md"]);
    let r = RemoteConsumer::response(String::from("/home/Zombie"), EntryKind::Directory).unwrap();
    assert_eq!(r.path, "/home/Zombie");
    assert!(r.is_directory);
    assert!(RemoteConsumer::response(String::from("/gone"), EntryKind::Other).is_none());
}

#[test]
fn local_reports_follow_the_file_system() {
    let r = LocalConsumer::report(String::from("/home/notes.txt"), EntryKind::File).unwrap();
    assert!(!r.is_directory);
    assert!(LocalConsumer::report(String::from("/gone"), EntryKind::Other).is_none());
}

#[test]
fn blank_query_finds_everything() {
    let found = LocalConsumer::consume(sample_batch(), String::new());
    assert_eq!(found.len(), 4);
}

#[test]
fn same_lowercase_same_hits() {
    let a = LocalConsumer::consume(sample_batch(), String::from("ZOMBIE"));
    let b = LocalConsumer::consume(sample_batch(), String::from("zombie"));
    assert_eq!(a, b);
}

#[test]
fn narrower_query_keeps_hits() {
    let wide = LocalConsumer::consume(sample_batch(), String::from("zombie"));
    let narrow = LocalConsumer::consume(sample_batch(), String::from("omb"));
    for hit in &wide {
        assert!(narrow.contains(hit));
    }
    assert_eq!(narrow.len(), 2);
    let shorter = LocalConsumer::consume(sample_batch(), String::from("zom"));
    assert_eq!(shorter.len(), 3);
}

#[test]
fn process_respects_case() {
    let step = process(String::from("/home/Zombie"), "Zombie", EntryKind::Directory);
    assert!(step.descend);
    let r = step.report.unwrap();
    assert!(r.is_directory);
    assert_eq!(r.path, "/home/Zombie");

    let step = process(String::from("/home/Zombie"), "zombie", EntryKind::Directory);
    assert!(step.descend);
    assert!(step.report.is_none());

    let step = process(String::from("/home/zombie.txt"), "zombie", EntryKind::File);
    assert!(!step.descend);
    assert!(!step.report.unwrap().is_directory);

    let step = process(String::from("/home/zombie.lnk"), "zombie", EntryKind::Other);
    assert!(!step.descend);
    assert!(step.report.is_none());
}

#[test]
fn process_narrower_query_same_report() {
    let wide = process(String::from("/srv/zombie_hunt"), "zombie_hunt", EntryKind::File);
    let narrow = process(String::from("/srv/zombie_hunt"), "hunt", EntryKind::File);
    assert_eq!(wide.report.unwrap().path, narrow.report.unwrap().path);
}

fn args(remote: bool, remote_only: bool) -> Args {
    Args { dir: String::from("/"), query: String::from("q"), remote, remote_only }
}

#[test]
fn modes_follow_the_switches() {
    let m = args(false, false).modes().unwrap();
    assert!(m.local && !m.remote);
    let m = args(true, false).modes().unwrap();
    assert!(m.local && m.remote);
    let m = args(true, true).modes().unwrap();
    assert!(!m.local && m.remote);
    assert!(args(false, true).modes().is_none());
}
