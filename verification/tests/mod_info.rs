use cauldron::mod_info::{
    CauldronModDependency, CauldronModInfo, SafeCauldronModDependency, SafeCauldronModInfo,
};

fn s(text: &str) -> String {
    text.to_string()
}

#[test]
fn built_authors_read_back_in_order() {
    let raw = CauldronModInfo::builder("mod", "1.2.3").authors(vec![s("a"), s("b")]).build();
    assert_eq!(raw.authors_len, 2);
    let owned = SafeCauldronModInfo::from(raw);
    assert_eq!(owned.authors, vec![s("a"), s("b")]);
}

#[test]
fn appended_authors_read_back_in_order() {
    let raw = CauldronModInfo::builder("mod", "1.2.3").author("a").author("b").build();
    let owned = SafeCauldronModInfo::from(raw);
    assert_eq!(owned.authors, vec![s("a"), s("b")]);
}

#[test]
fn bare_descriptor_has_only_name_and_version() {
    let raw = CauldronModInfo::builder("mod", "0.1.0").build();
    assert_eq!(raw.name, b"mod".to_vec());
    assert_eq!(raw.version, b"0.1.0".to_vec());
    assert!(raw.display_name.is_none());
    assert!(raw.authors.is_none());
    assert_eq!(raw.authors_len, 0);
    assert!(raw.depends.is_none());
    assert_eq!(raw.depends_len, 0);
    let owned = SafeCauldronModInfo::from(raw);
    assert_eq!(
        owned,
        SafeCauldronModInfo {
            name: s("mod"),
            version: s("0.1.0"),
            display_name: None,
            description: None,
            homepage_url: None,
            source_url: None,
            issue_tracker_url: None,
            authors: vec![],
            dependencies: vec![],
        }
    );
}

#[test]
fn full_descriptor_reads_back() {
    let raw = CauldronModInfo::builder("pulse", "2.0.0-beta.1")
        .display_name("Pulse")
        .description("Exports types \u{2014} and more")
        .homepage_url("https://example.org")
        .source_url("https://example.org/src")
        .issue_tracker_url("https://example.org/issues")
        .author("Someone <someone@example.org>")
        .dependency(CauldronModDependency::new("libdecima", Some(">=1.0.0"), false))
        .dependency(CauldronModDependency::new("extras", None, true))
        .build();
    assert_eq!(raw.depends_len, 2);
    let owned = SafeCauldronModInfo::from(raw);
    assert_eq!(owned.name, "pulse");
    assert_eq!(owned.version, "2.0.0-beta.1");
    assert_eq!(owned.display_name, Some(s("Pulse")));
    assert_eq!(owned.description, Some(s("Exports types \u{2014} and more")));
    assert_eq!(owned.homepage_url, Some(s("https://example.org")));
    assert_eq!(owned.source_url, Some(s("https://example.org/src")));
    assert_eq!(owned.issue_tracker_url, Some(s("https://example.org/issues")));
    assert_eq!(owned.authors, vec![s("Someone <someone@example.org>")]);
    assert_eq!(
        owned.dependencies,
        vec![
            SafeCauldronModDependency { name: s("libdecima"), version: Some(s(">=1.0.0")), optional: false },
            SafeCauldronModDependency { name: s("extras"), version: None, optional: true },
        ]
    );
}

#[test]
fn source_link_is_read_without_a_homepage() {
    let raw = CauldronModInfo::builder("mod", "1.0.0").source_url("https://example.org/src").build();
    let owned = SafeCauldronModInfo::from(raw);
    assert_eq!(owned.homepage_url, None);
    assert_eq!(owned.source_url, Some(s("https://example.org/src")));
}

#[test]
fn only_as_many_entries_are_read_as_the_record_says() {
    let mut raw = CauldronModInfo::builder("mod", "1.0.0").authors(vec![s("a"), s("b"), s("c")]).build();
    raw.authors_len = 2;
    assert_eq!(SafeCauldronModInfo::from(raw).authors, vec![s("a"), s("b")]);
}

#[test]
fn replaced_lists_drop_earlier_entries() {
    let raw = CauldronModInfo::builder("mod", "1.0.0")
        .author("first")
        .authors(vec![s("x")])
        .dependency(CauldronModDependency::new("old", None, false))
        .dependencies(vec![])
        .build();
    let owned = SafeCauldronModInfo::from(raw);
    assert_eq!(owned.authors, vec![s("x")]);
    assert_eq!(owned.dependencies, vec![]);
}

#[test]
fn raw_dependency_reads_back() {
    let raw = CauldronModDependency::new("dep", Some("^1"), true);
    assert_eq!(raw.name, b"dep".to_vec());
    assert_eq!(
        SafeCauldronModDependency::from(&raw),
        SafeCauldronModDependency { name: s("dep"), version: Some(s("^1")), optional: true }
    );
}

#[test]
fn records_with_broken_text_or_short_arrays_are_not_readable() {
    let good = CauldronModInfo::builder("mod", "1.0.0").author("a").build();
    assert!(good.is_readable());

    let mut broken_name = good.clone();
    broken_name.name = vec![0xff, 0xfe];
    assert!(!broken_name.is_readable());

    let mut broken_link = good.clone();
    broken_link.source_url = Some(vec![0xc3]);
    assert!(!broken_link.is_readable());

    let mut short = good.clone();
    short.authors_len = 2;
    assert!(!short.is_readable());

    let mut unread = good.clone();
    unread.authors = Some(vec![b"a".to_vec(), vec![0x80]]);
    assert!(unread.is_readable());
    unread.authors_len = 2;
    assert!(!unread.is_readable());

    let mut broken_dependency = good.clone();
    broken_dependency.depends =
        Some(vec![CauldronModDependency { name: vec![0xe2, 0x82], version: None, optional: false }]);
    broken_dependency.depends_len = 1;
    assert!(!broken_dependency.is_readable());
    assert!(!CauldronModDependency { name: b"d".to_vec(), version: Some(vec![0xff]), optional: true }
        .is_readable());
}

#[test]
fn strings_with_a_nul_cannot_be_built() {
    assert!(CauldronModInfo::builder("mod", "1.0.0").author("a").is_buildable());
    assert!(!CauldronModInfo::builder("m\0d", "1.0.0").is_buildable());
    assert!(!CauldronModInfo::builder("mod", "1.0.0\0").is_buildable());
    assert!(!CauldronModInfo::builder("mod", "1.0.0").description("a\0b").is_buildable());
    assert!(!CauldronModInfo::builder("mod", "1.0.0").author("a").author("\0").is_buildable());
    assert!(CauldronModInfo::builder("mod", "1.0.0").description("\u{2014}").is_buildable());
}
