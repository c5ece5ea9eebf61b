use og_loc::augment::{
    ArchiveTables, CrateDb, CrateOwnerRow, CrateRow, DefaultVersionRow, LoadFilter, OwnerId,
    TeamRow, UserRow, VersionRow,
};
use og_loc::convert::TypstString;
use og_loc::error::Error;
use og_loc::names::CrateName;

fn crate_row(id: u64, name: &str, description: &str) -> CrateRow {
    CrateRow { id, name: name.to_string(), description: description.to_string() }
}

fn empty_tables() -> ArchiveTables {
    ArchiveTables {
        crates: vec![],
        crate_owners: vec![],
        teams: vec![],
        users: vec![],
        default_versions: vec![],
        versions: vec![],
    }
}

/// The archive of the end-to-end scenario: the crate `knien` with two
/// user owners whose avatars are known, a default version licensed MIT,
/// and an unselected neighbour crate with owners and versions of its
/// own.
fn knien_tables() -> ArchiveTables {
    ArchiveTables {
        crates: vec![
            crate_row(1, "knien", "Typed RabbitMQ interfacing for async Rust"),
            crate_row(2, "other", "Another crate"),
        ],
        crate_owners: vec![
            CrateOwnerRow { crate_id: 1, owner_id: OwnerId::User(10) },
            CrateOwnerRow { crate_id: 1, owner_id: OwnerId::User(11) },
            CrateOwnerRow { crate_id: 2, owner_id: OwnerId::User(12) },
            CrateOwnerRow { crate_id: 2, owner_id: OwnerId::Team(20) },
        ],
        teams: vec![TeamRow { id: 20, avatar: "https://example.com/team20".to_string() }],
        users: vec![
            UserRow {
                id: 10,
                gh_avatar: "https://avatars.githubusercontent.com/u/17907879?v=4".to_string(),
            },
            UserRow {
                id: 11,
                gh_avatar: "https://avatars.githubusercontent.com/u/8545127?v=4".to_string(),
            },
            UserRow { id: 12, gh_avatar: "https://example.com/u12".to_string() },
        ],
        default_versions: vec![
            DefaultVersionRow { crate_id: 1, version_id: 100 },
            DefaultVersionRow { crate_id: 2, version_id: 200 },
        ],
        versions: vec![
            VersionRow { crate_id: 1, id: 100, license: "MIT".to_string() },
            VersionRow { crate_id: 1, id: 101, license: "Apache-2.0".to_string() },
            VersionRow { crate_id: 2, id: 200, license: "GPL-3.0".to_string() },
        ],
    }
}

fn name(s: &str) -> CrateName {
    CrateName::from_str(s).unwrap()
}

#[test]
fn end_to_end_knien_scenario() {
    let db = CrateDb::load_with_filter(knien_tables(), &LoadFilter::Single("knien".to_string()));
    assert_eq!(db.item_count(), 1);

    let data = db.augment_crate_spec(name("knien")).unwrap();
    assert_eq!(data.name.inner().as_str(), "knien");
    // Under the display bound, the description is untruncated.
    assert_eq!(
        data.description,
        TypstString::escape("Typed RabbitMQ interfacing for async Rust")
    );
    // Exactly the two user owners, in first-seen order, sized for display.
    assert_eq!(data.user_owners.len(), 2);
    assert_eq!(
        data.user_owners[0].avatar,
        TypstString::escape("https://avatars.githubusercontent.com/u/17907879?v=4&s=70")
    );
    assert_eq!(
        data.user_owners[1].avatar,
        TypstString::escape("https://avatars.githubusercontent.com/u/8545127?v=4&s=70")
    );
    assert_eq!(data.team_owners.len(), 0);
    assert_eq!(data.license, Some(TypstString::escape("MIT")));
}

#[test]
fn selection_retains_exactly_matching_names() {
    let filter = LoadFilter::Select(vec!["knien".to_string(), "absent".to_string()]);
    let db = CrateDb::load_with_filter(knien_tables(), &filter);
    assert_eq!(db.item_count(), 1);
    assert!(db.augment_crate_spec(name("knien")).is_ok());
    assert!(matches!(db.augment_crate_spec(name("other")), Err(Error::NotFound)));
    assert!(matches!(db.augment_crate_spec(name("absent")), Err(Error::NotFound)));
}

#[test]
fn load_all_retains_everything() {
    let db = CrateDb::load_with_filter(knien_tables(), &LoadFilter::All);
    assert_eq!(db.item_count(), 2);
    assert!(db.all_names_valid());
    let all = db.augment_preloaded();
    assert_eq!(all.len(), 2);
    assert_eq!(all[0].name.inner().as_str(), "knien");
    assert_eq!(all[1].name.inner().as_str(), "other");
    assert_eq!(all[1].license, Some(TypstString::escape("GPL-3.0")));
}

#[test]
fn reference_pruning_drops_unselected_owners() {
    // `other` is filtered out: its user and team owners leave no trace
    // in the identity registry, though their identity rows are in the
    // archive.
    let db = CrateDb::load_with_filter(knien_tables(), &LoadFilter::Single("knien".to_string()));
    assert_eq!(db.identity_count(), 2);

    let db_all = CrateDb::load_with_filter(knien_tables(), &LoadFilter::All);
    assert_eq!(db_all.identity_count(), 4);
}

#[test]
fn idempotent_reload_yields_equal_contents() {
    let filter1 = LoadFilter::Single("knien".to_string());
    let filter2 = LoadFilter::Single("knien".to_string());
    let db1 = CrateDb::load_with_filter(knien_tables(), &filter1);
    let db2 = CrateDb::load_with_filter(knien_tables(), &filter2);
    assert_eq!(db1.item_count(), db2.item_count());
    assert_eq!(db1.identity_count(), db2.identity_count());
    let a1 = db1.augment_crate_spec(name("knien")).unwrap();
    let a2 = db2.augment_crate_spec(name("knien")).unwrap();
    assert_eq!(a1, a2);
}

#[test]
fn unresolved_identities_are_omitted() {
    // The owner is referenced but no identity row gives an avatar: the
    // owner is left out of the output, not replaced by a placeholder.
    let mut tables = knien_tables();
    tables.users = vec![];
    tables.teams = vec![];
    let db = CrateDb::load_with_filter(tables, &LoadFilter::Single("knien".to_string()));
    let data = db.augment_crate_spec(name("knien")).unwrap();
    assert_eq!(data.user_owners.len(), 0);
    assert_eq!(data.team_owners.len(), 0);
}

#[test]
fn missing_default_version_leaves_license_unresolved() {
    let mut tables = knien_tables();
    tables.default_versions = vec![];
    let db = CrateDb::load_with_filter(tables, &LoadFilter::Single("knien".to_string()));
    let data = db.augment_crate_spec(name("knien")).unwrap();
    assert_eq!(data.license, None);
}

#[test]
fn non_default_versions_are_discarded() {
    let mut tables = knien_tables();
    // Only a non-default version row for knien: no license is recorded.
    tables.versions = vec![VersionRow { crate_id: 1, id: 101, license: "MIT".to_string() }];
    let db = CrateDb::load_with_filter(tables, &LoadFilter::Single("knien".to_string()));
    let data = db.augment_crate_spec(name("knien")).unwrap();
    assert_eq!(data.license, None);
}

#[test]
fn owner_duplicates_are_kept() {
    let mut tables = knien_tables();
    tables.crate_owners = vec![
        CrateOwnerRow { crate_id: 1, owner_id: OwnerId::User(10) },
        CrateOwnerRow { crate_id: 1, owner_id: OwnerId::User(10) },
    ];
    let db = CrateDb::load_with_filter(tables, &LoadFilter::Single("knien".to_string()));
    let data = db.augment_crate_spec(name("knien")).unwrap();
    assert_eq!(data.user_owners.len(), 2);
    assert_eq!(data.user_owners[0], data.user_owners[1]);
}

#[test]
fn owner_lists_are_capped_for_display() {
    let mut tables = knien_tables();
    tables.crate_owners = (0..5)
        .map(|k| CrateOwnerRow { crate_id: 1, owner_id: OwnerId::User(30 + k) })
        .collect();
    tables.users = (0..5)
        .map(|k| UserRow { id: 30 + k, gh_avatar: format!("https://example.com/u{k}") })
        .collect();
    let db = CrateDb::load_with_filter(tables, &LoadFilter::Single("knien".to_string()));
    let data = db.augment_crate_spec(name("knien")).unwrap();
    assert_eq!(data.user_owners.len(), 3);
    assert_eq!(data.user_owners[0].avatar, TypstString::escape("https://example.com/u0&s=70"));
    assert_eq!(data.user_owners[2].avatar, TypstString::escape("https://example.com/u2&s=70"));
}

#[test]
fn empty_archive_builds_empty_index() {
    let db = CrateDb::load_with_filter(empty_tables(), &LoadFilter::All);
    assert_eq!(db.item_count(), 0);
    assert_eq!(db.identity_count(), 0);
    assert!(matches!(db.augment_crate_spec(name("knien")), Err(Error::NotFound)));
    assert!(db.augment_preloaded().is_empty());
}

#[test]
fn long_description_is_truncated_in_augmentation() {
    let long = format!("{} {}", "word".repeat(30), "tail");
    let mut tables = knien_tables();
    tables.crates[0].description = long;
    let db = CrateDb::load_with_filter(tables, &LoadFilter::Single("knien".to_string()));
    let data = db.augment_crate_spec(name("knien")).unwrap();
    // 120 characters of one word: the cut is hard at the bound.
    let expect = format!("{}...", "word".repeat(25));
    assert_eq!(data.description, TypstString::escape(&expect));
}

#[test]
fn filter_matches_by_kind() {
    let all = LoadFilter::All;
    assert!(all.matches("anything"));
    let single = LoadFilter::Single("knien".to_string());
    assert!(single.matches("knien"));
    assert!(!single.matches("knie"));
    let select = LoadFilter::Select(vec!["a".to_string(), "b".to_string()]);
    assert!(select.matches("a"));
    assert!(select.matches("b"));
    assert!(!select.matches("c"));
}
