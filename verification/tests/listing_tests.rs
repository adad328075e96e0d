use rnas::listing::{DirEntry, DirectoryListing, list, sort_names};
use rnas::janitor::sweep_targets;
use rnas::paths::ExistenceClass;
use rnas::context::{AppContext, Config, home};
use rnas::credentials::CredentialStore;
use rnas::hashing::sha384_hex;
use sha2::Digest;

fn entry(name: &str, class: ExistenceClass) -> DirEntry {
    DirEntry { name: String::from(name), class }
}

#[test]
fn listing_partitions_and_sorts_case_insensitively() {
    let entries = vec![
        entry("Zeta", ExistenceClass::Directory),
        entry("alpha.txt", ExistenceClass::File),
        entry("beta", ExistenceClass::Directory),
        entry("Gamma.txt", ExistenceClass::File),
        entry("dangling", ExistenceClass::Absent),
    ];
    let DirectoryListing { directories, files } = list(&entries);
    assert_eq!(directories, vec![String::from("beta"), String::from("Zeta")]);
    assert_eq!(files, vec![String::from("alpha.txt"), String::from("Gamma.txt")]);
}

#[test]
fn sorting_keeps_original_case() {
    let names = vec![
        String::from("cherry"),
        String::from("Banana"),
        String::from("apple"),
        String::from("BANANA2"),
    ];
    let sorted = sort_names(names);
    assert_eq!(
        sorted,
        vec![
            String::from("apple"),
            String::from("Banana"),
            String::from("BANANA2"),
            String::from("cherry"),
        ],
    );
}

#[test]
fn sorting_keeps_duplicates() {
    let names = vec![String::from("b"), String::from("a"), String::from("b")];
    let sorted = sort_names(names);
    assert_eq!(sorted, vec![String::from("a"), String::from("b"), String::from("b")]);
}

#[test]
fn a_shorter_name_sorts_before_its_extensions() {
    let names = vec![String::from("abc"), String::from("ab")];
    let sorted = sort_names(names);
    assert_eq!(sorted, vec![String::from("ab"), String::from("abc")]);
}

#[test]
fn the_janitor_reclaims_every_file_and_nothing_else() {
    let entries = vec![
        entry("a.zip", ExistenceClass::File),
        entry("half-written", ExistenceClass::Absent),
        entry("sub", ExistenceClass::Directory),
        entry("b.zip", ExistenceClass::File),
    ];
    let targets = sweep_targets(&entries);
    assert_eq!(targets, vec![String::from("a.zip"), String::from("b.zip")]);
}

#[test]
fn the_janitor_leaves_an_empty_area_alone() {
    let targets = sweep_targets(&Vec::new());
    assert!(targets.is_empty());
}

fn hex_of(bytes: &[u8]) -> String {
    let mut s = String::new();
    for b in bytes {
        s.push_str(&format!("{:02x}", b));
    }
    s
}

#[test]
fn sha384_hex_matches_the_digest_crate() {
    assert_eq!(
        sha384_hex(""),
        "38b060a751ac96384cd9327eb1b1e36a21fdb71114be07434c0cc7bf63f6e1da274edebfe76f65fbd51ad2f14898b95b",
    );
    assert_eq!(sha384_hex("secretalice"), hex_of(&sha2::Sha384::digest("secretalice".as_bytes())));
}

#[test]
fn the_context_serves_its_home_page() {
    let credentials = CredentialStore::from_lines(&Vec::new()).unwrap();
    let ctx = AppContext {
        config: Config {
            whitelist: String::from("abc"),
            name_length: 32,
            clean_tmp_files: 60,
        },
        credentials,
        home_page: String::from("<html>home</html>"),
    };
    assert_eq!(home(&ctx), "<html>home</html>");
}
