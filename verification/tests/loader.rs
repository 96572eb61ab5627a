use patch_gateway::catalog::Patch;
use patch_gateway::loader::{load_patches, parse_version, LoadError, PatchDirectory};

fn directory(name: &str, files: &[&str]) -> PatchDirectory {
    PatchDirectory { name: name.to_string(), files: files.iter().map(|f| f.to_string()).collect() }
}

#[test]
fn digits_are_read_as_a_version() {
    assert_eq!(parse_version("0"), Some(0));
    assert_eq!(parse_version("5"), Some(5));
    assert_eq!(parse_version("42"), Some(42));
    assert_eq!(parse_version("00012"), Some(12));
    assert_eq!(parse_version("65535"), Some(65535));
    assert_eq!(parse_version("+5"), Some(5));
    assert_eq!(parse_version("+065535"), Some(65535));
}

#[test]
fn anything_else_is_no_version() {
    assert_eq!(parse_version(""), None);
    assert_eq!(parse_version("+"), None);
    assert_eq!(parse_version("-1"), None);
    assert_eq!(parse_version("++1"), None);
    assert_eq!(parse_version("1+"), None);
    assert_eq!(parse_version("1a"), None);
    assert_eq!(parse_version("a1"), None);
    assert_eq!(parse_version(" 5"), None);
    assert_eq!(parse_version("5 "), None);
    assert_eq!(parse_version("1_000"), None);
    assert_eq!(parse_version("٣"), None);
    assert_eq!(parse_version("65536"), None);
    assert_eq!(parse_version("70000"), None);
    assert_eq!(parse_version("99999999999999999999999999"), None);
}

#[test]
fn parse_version_agrees_with_the_standard_library() {
    let names = [
        "0", "1", "9", "10", "+0", "+9", "-0", "", "+", "65535", "65536", "065535", "0x10", "1e3",
        "12 ", "\t12", "4294967295", "4294967296", "000000000000000000001", "+-1", "1.0",
    ];
    for name in names {
        assert_eq!(parse_version(name), name.parse::<u16>().ok());
    }
    for n in 0..=70000u32 {
        let name = n.to_string();
        assert_eq!(parse_version(&name), name.parse::<u16>().ok());
    }
}

#[test]
fn a_listing_becomes_patches_in_its_order() {
    let entries = vec![
        directory("2", &["a.txt", "dir/b.txt"]),
        directory("1", &[]),
        directory("+10", &["c"]),
    ];
    let loaded = load_patches(&entries);
    assert_eq!(
        loaded,
        Ok(vec![
            Patch { version: 2, files: vec!["a.txt".to_string(), "dir/b.txt".to_string()] },
            Patch { version: 1, files: vec![] },
            Patch { version: 10, files: vec!["c".to_string()] },
        ])
    );
}

#[test]
fn an_empty_listing_gives_an_empty_catalog() {
    assert_eq!(load_patches(&Vec::new()), Ok(Vec::new()));
}

#[test]
fn the_first_name_that_is_no_version_fails_the_load() {
    let entries = vec![
        directory("1", &["a"]),
        directory("notes", &["b"]),
        directory("3", &["c"]),
        directory("", &[]),
    ];
    assert_eq!(load_patches(&entries), Err(LoadError::NotAVersion { entry: 1 }));
    let entries = vec![directory("70000", &[])];
    assert_eq!(load_patches(&entries), Err(LoadError::NotAVersion { entry: 0 }));
}
