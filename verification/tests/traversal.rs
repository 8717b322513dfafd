use generic_search::defs::DirContent;
use generic_search::local_consumer::LocalConsumer;
use generic_search::orchestrator::{SimpleOrchestrator, Step};
use generic_search::producer::{ListedEntry, SimpleProducer};
use std::collections::{BTreeMap, VecDeque};

/// A small file tree: each directory's listing, as (path, is_dir).
fn tree() -> BTreeMap<&'static str, Vec<(&'static str, bool)>> {
    let mut t = BTreeMap::new();
    t.insert("/r", vec![("/r/Zombie", true), ("/r/notes.txt", false), ("/r/empty", true)]);
    t.insert("/r/Zombie", vec![("/r/Zombie/hunt.md", false), ("/r/Zombie/deep", true)]);
    t.insert("/r/Zombie/deep", vec![("/r/Zombie/deep/zombie.TXT", false)]);
    t.insert("/r/empty", vec![]);
    t
}

/// Runs a whole search over `tree()` through the library's producer,
/// orchestrator and consumer, one event at a time.
fn run(query: &str) -> Vec<String> {
    run_over(&tree(), &[], query)
}

/// The same, over `fs`, where the directories in `locked` cannot be
/// listed, and an entry named `?` stands for one that listing fails on.
fn run_over(fs: &BTreeMap<&'static str, Vec<(&'static str, bool)>>, locked: &[&str], query: &str) -> Vec<String> {
    let o = SimpleOrchestrator::new(String::from(query), String::from("/r"));
    let mut producers: VecDeque<DirContent> = VecDeque::new();
    producers.push_back(o.start());
    let mut found = Vec::new();
    loop {
        let event = producers.pop_front().map(|dir| {
            let path = SimpleProducer::directory(dir);
            let listing = fs.get(path.as_str()).filter(|_| !locked.contains(&path.as_str())).map(|entries| {
                entries
                    .iter()
                    .map(|(p, d)| {
                        if *p == "?" {
                            None
                        } else {
                            Some(ListedEntry { path: String::from(*p), is_dir: *d })
                        }
                    })
                    .collect::<Vec<_>>()
            });
            SimpleProducer::produce(listing)
        });
        // A directory that cannot be listed sends no batch.
        let event = match event {
            Some(None) => continue,
            Some(Some(batch)) => Some(batch),
            None => None,
        };
        match o.handle(event) {
            Step::Stop => break,
            Step::Dispatch(d) => {
                producers.extend(d.produce);
                found.extend(LocalConsumer::consume(d.consume, d.query));
            }
        }
    }
    found.sort();
    found
}

#[test]
fn run_blank_query_reports_everything_below_once() {
    let mut expected: Vec<String> = tree().values().flatten().map(|(p, _)| String::from(*p)).collect();
    expected.sort();
    assert_eq!(run(""), expected);
    assert_eq!(run("").len(), 6);
}

#[test]
fn run_narrower_query_keeps_hits() {
    let wide = run("zombie");
    let narrow = run("omb");
    assert_eq!(wide, vec!["/r/Zombie", "/r/Zombie/deep", "/r/Zombie/deep/zombie.TXT", "/r/Zombie/hunt.md"]);
    for hit in &wide {
        assert!(narrow.contains(hit));
    }
}

#[test]
fn run_ascii_case_same_hits() {
    assert_eq!(run("zombie"), run("ZOMBIE"));
    assert_eq!(run("deep/zombie.txt"), run("DEEP/ZOMBIE.TXT"));
    assert_eq!(run("deep/zombie.txt").len(), 1);
}

#[test]
fn run_skips_what_cannot_be_read() {
    let mut fs = tree();
    fs.insert("/r/Zombie", vec![("/r/Zombie/hunt.md", false), ("?", false), ("/r/Zombie/deep", true)]);
    // The locked directory is itself reported, but nothing inside it.
    let found = run_over(&fs, &["/r/Zombie/deep"], "");
    assert_eq!(found, vec!["/r/Zombie", "/r/Zombie/deep", "/r/Zombie/hunt.md", "/r/empty", "/r/notes.txt"]);
    assert!(run_over(&fs, &["/r"], "").is_empty());
}
