use lockscan::discovery::{find_named, Attempt, Search};

fn names(items: &[&str]) -> Vec<String> {
    items.iter().map(|s| s.to_string()).collect()
}

#[test]
fn lock_files_are_tried_before_manifests() {
    let listing = names(&["tmp", "Cargo.toml", "src", "main.rs", "Cargo.lock", "sub", "Cargo.lock", "Cargo.toml"]);
    let (rest, attempt) = Search::start().advance(&listing);
    assert_eq!(attempt, Attempt::LoadLock(4));
    assert_eq!(rest, Search::Locks { from: 5 });
    let (rest, attempt) = rest.advance(&listing);
    assert_eq!(attempt, Attempt::LoadLock(6));
    assert_eq!(rest, Search::Locks { from: 7 });
    let (rest, attempt) = rest.advance(&listing);
    assert_eq!(attempt, Attempt::ProbeManifest(1));
    assert_eq!(rest, Search::Manifests { from: 2 });
    let (rest, attempt) = rest.advance(&listing);
    assert_eq!(attempt, Attempt::ProbeManifest(7));
    assert_eq!(rest, Search::Manifests { from: 8 });
    let (rest, attempt) = rest.advance(&listing);
    assert_eq!(attempt, Attempt::GiveUp);
    assert_eq!(rest, Search::Manifests { from: 8 });
    let (_, attempt) = rest.advance(&listing);
    assert_eq!(attempt, Attempt::GiveUp);
}

#[test]
fn listing_without_project_gives_up_at_once() {
    let (rest, attempt) = Search::start().advance(&Vec::new());
    assert_eq!(attempt, Attempt::GiveUp);
    assert_eq!(rest, Search::Manifests { from: 0 });
    let listing = names(&["cargo.lock", "Cargo.lock.bak", "cargo.toml", "README.md"]);
    let (_, attempt) = Search::start().advance(&listing);
    assert_eq!(attempt, Attempt::GiveUp);
}

#[test]
fn manifest_only_listing_probes_the_manifest() {
    let listing = names(&["tmp", "project", "Cargo.toml", "src"]);
    let (rest, attempt) = Search::start().advance(&listing);
    assert_eq!(attempt, Attempt::ProbeManifest(2));
    assert_eq!(rest, Search::Manifests { from: 3 });
}

#[test]
fn names_are_found_from_a_given_place() {
    let listing = names(&["a", "b", "a", "c"]);
    assert_eq!(find_named(&listing, "a", 0), Some(0));
    assert_eq!(find_named(&listing, "a", 1), Some(2));
    assert_eq!(find_named(&listing, "a", 3), None);
    assert_eq!(find_named(&listing, "c", 3), Some(3));
    assert_eq!(find_named(&listing, "c", 4), None);
    assert_eq!(find_named(&listing, "c", 100), None);
    assert_eq!(find_named(&listing, "d", 0), None);
}
