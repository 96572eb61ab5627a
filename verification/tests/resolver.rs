use patch_gateway::catalog::{
    applicable_patches, contains_path, get_latest_version_in, get_latest_version_in_up_to,
    patch_mentions, resolve, touched_files, Patch, ResolvedFile,
};

fn patch(version: u16, files: &[&str]) -> Patch {
    Patch { version, files: files.iter().map(|f| f.to_string()).collect() }
}

fn entry(file: &str, source_version: u16) -> ResolvedFile {
    ResolvedFile { file: file.to_string(), source_version }
}

fn three_patches() -> Vec<Patch> {
    vec![patch(1, &["a.txt"]), patch(2, &["a.txt", "b.txt"]), patch(3, &["b.txt"])]
}

fn sorted(mut files: Vec<ResolvedFile>) -> Vec<(String, u16)> {
    files.sort_by_key(|f| f.file.clone());
    files.into_iter().map(|f| (f.file, f.source_version)).collect()
}

#[test]
fn upgrade_across_the_whole_catalog_takes_the_newest_copies() {
    let out = resolve(&three_patches(), 1, 3);
    assert_eq!(out, vec![entry("a.txt", 2), entry("b.txt", 3)]);
}

#[test]
fn downgrade_reverts_what_has_an_older_copy_and_leaves_the_rest() {
    let out = resolve(&three_patches(), 3, 1);
    assert_eq!(out, vec![entry("a.txt", 1)]);
}

#[test]
fn upgrade_from_before_the_first_patch_sees_every_file() {
    let out = resolve(&three_patches(), 0, 3);
    assert_eq!(sorted(out), vec![("a.txt".to_string(), 2), ("b.txt".to_string(), 3)]);
}

#[test]
fn upgrade_by_one_version_takes_only_that_patch() {
    assert_eq!(resolve(&three_patches(), 2, 3), vec![entry("b.txt", 3)]);
    assert_eq!(resolve(&three_patches(), 0, 1), vec![entry("a.txt", 1)]);
}

#[test]
fn upgrade_stops_at_the_target() {
    let out = resolve(&three_patches(), 0, 2);
    assert_eq!(out, vec![entry("a.txt", 2), entry("b.txt", 2)]);
}

#[test]
fn downgrade_by_one_version_goes_back_to_the_copy_below() {
    let out = resolve(&three_patches(), 3, 2);
    assert_eq!(out, vec![entry("b.txt", 2)]);
}

#[test]
fn downgrade_below_every_patch_reverts_nothing() {
    assert_eq!(resolve(&three_patches(), 3, 0), Vec::<ResolvedFile>::new());
}

#[test]
fn a_file_listed_in_many_patches_comes_once() {
    let patches = vec![
        patch(1, &["x"]),
        patch(2, &["x", "y"]),
        patch(3, &["x"]),
        patch(4, &["y", "x", "x"]),
    ];
    assert_eq!(resolve(&patches, 0, 4), vec![entry("x", 4), entry("y", 4)]);
    assert_eq!(resolve(&patches, 0, 3), vec![entry("x", 3), entry("y", 2)]);
    assert_eq!(resolve(&patches, 4, 1), vec![entry("x", 1)]);
}

#[test]
fn entries_come_in_the_order_of_first_mention() {
    let patches = vec![patch(1, &["c", "a"]), patch(2, &["b", "a"]), patch(3, &["d", "c"])];
    let out = resolve(&patches, 0, 3);
    assert_eq!(out, vec![entry("c", 3), entry("a", 2), entry("b", 2), entry("d", 3)]);
}

#[test]
fn equal_versions_need_nothing() {
    for version in 0..5u16 {
        assert!(resolve(&three_patches(), version, version).is_empty());
    }
}

#[test]
fn empty_catalog_needs_nothing() {
    let patches: Vec<Patch> = Vec::new();
    assert!(resolve(&patches, 0, 7).is_empty());
    assert!(resolve(&patches, 7, 0).is_empty());
    assert!(resolve(&patches, 65535, 0).is_empty());
    assert!(resolve(&patches, 0, 65535).is_empty());
}

#[test]
fn versions_outside_the_catalog_are_handled() {
    assert!(resolve(&three_patches(), 3, 9).is_empty());
    assert_eq!(resolve(&three_patches(), 9, 2), vec![entry("b.txt", 2)]);
}

#[test]
fn resolving_twice_gives_the_same_result() {
    let patches = three_patches();
    for current in 0..5u16 {
        for target in 0..5u16 {
            let first = resolve(&patches, current, target);
            let second = resolve(&patches, current, target);
            assert_eq!(sorted(first), sorted(second));
        }
    }
}

#[test]
fn every_touched_file_of_an_upgrade_comes_once_with_the_highest_version() {
    let patches = vec![
        patch(1, &["a", "b"]),
        patch(2, &["b", "c"]),
        patch(4, &["a", "sub/d"]),
        patch(7, &["c"]),
        patch(9, &["e"]),
    ];
    for current in 0..10u16 {
        for target in (current + 1)..11u16 {
            let out = resolve(&patches, current, target);
            for file in ["a", "b", "c", "sub/d", "e"] {
                let highest = patches
                    .iter()
                    .filter(|p| p.version > current && p.version <= target)
                    .filter(|p| p.files.iter().any(|f| f == file))
                    .map(|p| p.version)
                    .max();
                let found: Vec<u16> =
                    out.iter().filter(|e| e.file == file).map(|e| e.source_version).collect();
                match highest {
                    Some(version) => assert_eq!(found, vec![version]),
                    None => assert!(found.is_empty()),
                }
            }
        }
    }
}

#[test]
fn every_touched_file_of_a_downgrade_comes_once_with_the_highest_older_version() {
    let patches = vec![
        patch(1, &["a", "b"]),
        patch(2, &["b", "c"]),
        patch(4, &["a", "sub/d"]),
        patch(7, &["c"]),
        patch(9, &["e"]),
    ];
    for target in 0..10u16 {
        for current in (target + 1)..11u16 {
            let out = resolve(&patches, current, target);
            for file in ["a", "b", "c", "sub/d", "e"] {
                let touched = patches
                    .iter()
                    .filter(|p| p.version > target && p.version <= current)
                    .any(|p| p.files.iter().any(|f| f == file));
                let older = patches
                    .iter()
                    .filter(|p| p.version <= target)
                    .filter(|p| p.files.iter().any(|f| f == file))
                    .map(|p| p.version)
                    .max();
                let found: Vec<u16> =
                    out.iter().filter(|e| e.file == file).map(|e| e.source_version).collect();
                match (touched, older) {
                    (true, Some(version)) => assert_eq!(found, vec![version]),
                    _ => assert!(found.is_empty()),
                }
            }
        }
    }
}

#[test]
fn a_catalog_out_of_order_is_read_in_its_own_order() {
    let patches = vec![patch(3, &["a"]), patch(2, &["a"])];
    assert_eq!(resolve(&patches, 0, 3), vec![entry("a", 2)]);
    assert_eq!(resolve(&patches, 3, 2), vec![entry("a", 2)]);
}

#[test]
fn latest_version_in_takes_the_last_patch_that_lists_the_file() {
    let patches = three_patches();
    let all: Vec<&Patch> = patches.iter().collect();
    assert_eq!(get_latest_version_in(&"a.txt".to_string(), &all), Some(2));
    assert_eq!(get_latest_version_in(&"b.txt".to_string(), &all), Some(3));
    assert_eq!(get_latest_version_in(&"c.txt".to_string(), &all), None);
    let none: Vec<&Patch> = Vec::new();
    assert_eq!(get_latest_version_in(&"a.txt".to_string(), &none), None);
}

#[test]
fn latest_version_up_to_ignores_newer_patches() {
    let patches = three_patches();
    assert_eq!(get_latest_version_in_up_to(&"a.txt".to_string(), &patches, 3), Some(2));
    assert_eq!(get_latest_version_in_up_to(&"a.txt".to_string(), &patches, 1), Some(1));
    assert_eq!(get_latest_version_in_up_to(&"a.txt".to_string(), &patches, 0), None);
    assert_eq!(get_latest_version_in_up_to(&"b.txt".to_string(), &patches, 1), None);
    assert_eq!(get_latest_version_in_up_to(&"b.txt".to_string(), &patches, 2), Some(2));
    assert_eq!(get_latest_version_in_up_to(&"b.txt".to_string(), &patches, 65535), Some(3));
}

#[test]
fn applicable_patches_lie_above_the_first_and_up_to_the_second_version() {
    let patches = three_patches();
    let versions = |after: u16, up_to: u16| -> Vec<u16> {
        applicable_patches(&patches, after, up_to).iter().map(|p| p.version).collect()
    };
    assert_eq!(versions(0, 3), vec![1, 2, 3]);
    assert_eq!(versions(1, 3), vec![2, 3]);
    assert_eq!(versions(1, 2), vec![2]);
    assert_eq!(versions(2, 2), Vec::<u16>::new());
    assert_eq!(versions(3, 1), Vec::<u16>::new());
}

#[test]
fn touched_files_are_listed_once_in_order() {
    let patches = three_patches();
    let all: Vec<&Patch> = patches.iter().collect();
    assert_eq!(touched_files(&all), vec!["a.txt".to_string(), "b.txt".to_string()]);
    let last: Vec<&Patch> = patches.iter().rev().collect();
    assert_eq!(touched_files(&last), vec!["b.txt".to_string(), "a.txt".to_string()]);
}

#[test]
fn membership_is_by_the_whole_path() {
    let files = vec!["a.txt".to_string(), "dir/a.txt".to_string()];
    assert!(contains_path(&files, &"a.txt".to_string()));
    assert!(contains_path(&files, &"dir/a.txt".to_string()));
    assert!(!contains_path(&files, &"dir".to_string()));
    assert!(!contains_path(&files, &"A.txt".to_string()));
    let p = patch(1, &["dir/a.txt"]);
    assert!(patch_mentions(&p, &"dir/a.txt".to_string()));
    assert!(!patch_mentions(&p, &"a.txt".to_string()));
}
