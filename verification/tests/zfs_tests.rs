use wings_rs::zfs::{
    content_disposition, destroy_argument, entry_limit, zfs_backup_record, join_path, list_directory_page, parse_dataset_server,
    parse_uuid, snapshot_argument, sort_names, uuid_string, BackupTally, DatasetError,
    DirEntryName, ZfsBackup,
};

const ID: u128 = 0x67e5504410b1426f9247bb680e5fe0c8;
const SERVER: u128 = 0x123e4567e89b12d3a456426614174000;

#[test]
fn uuid_text_is_hyphenated_lower_case() {
    assert_eq!(uuid_string(ID), "67e55044-10b1-426f-9247-bb680e5fe0c8");
    assert_eq!(uuid_string(0), "00000000-0000-0000-0000-000000000000");
    assert_eq!(uuid_string(ID), uuid::Uuid::from_u128(ID).to_string());
}

#[test]
fn uuid_parsing() {
    assert_eq!(parse_uuid("67e55044-10b1-426f-9247-bb680e5fe0c8"), Some(ID));
    assert_eq!(parse_uuid("67E5504410B1426F9247BB680E5FE0C8"), Some(ID));
    assert_eq!(parse_uuid("not a uuid"), None);
}

#[test]
fn uuid_text_parses_back() {
    for id in [0u128, 1, ID, u128::MAX, 0x0123_4567_89ab_cdef_fedc_ba98_7654_3210] {
        assert_eq!(parse_uuid(&uuid_string(id)), Some(id));
    }
    assert_eq!(parse_uuid("{67e55044-10b1-426f-9247-bb680e5fe0c8}"), Some(ID));
    assert_eq!(parse_uuid("URN:uuid:67e55044-10b1-426f-9247-bb680e5fe0c8"), Some(ID));
    assert_eq!(parse_uuid("67e55044-10b1-426f-9247-bb680e5fe0c"), None);
}

#[test]
fn path_join_follows_std() {
    let cases = [("a", "b"), ("a/", "b"), ("", "b"), ("a", "/abs"), ("/var/lib", "zfs")];
    for (base, part) in cases {
        let expected = std::path::Path::new(base).join(part);
        assert_eq!(join_path(base, part), expected.to_str().unwrap());
    }
}

#[test]
fn backup_paths() {
    assert_eq!(
        ZfsBackup::get_backup_path("/var/lib/pterodactyl/backups", ID),
        "/var/lib/pterodactyl/backups/zfs/67e55044-10b1-426f-9247-bb680e5fe0c8"
    );
    assert_eq!(ZfsBackup::get_snapshot_name(ID), "backup-67e55044-10b1-426f-9247-bb680e5fe0c8");
    assert_eq!(
        ZfsBackup::get_snapshot_path("/data/", SERVER, ID),
        "/data/123e4567-e89b-12d3-a456-426614174000/.zfs/snapshot/backup-67e55044-10b1-426f-9247-bb680e5fe0c8"
    );
    assert_eq!(
        ZfsBackup::get_dataset_path("/b", ID),
        "/b/zfs/67e55044-10b1-426f-9247-bb680e5fe0c8/dataset"
    );
    assert_eq!(
        ZfsBackup::get_ignore_path("/b", ID),
        "/b/zfs/67e55044-10b1-426f-9247-bb680e5fe0c8/ignored"
    );
    let backup = ZfsBackup { server_uuid: SERVER, uuid: ID };
    assert_eq!(backup.uuid(), ID);
}

#[test]
fn dataset_names_the_server() {
    assert_eq!(
        parse_dataset_server("tank/wings/server-123e4567-e89b-12d3-a456-426614174000"),
        Ok(SERVER)
    );
    assert_eq!(parse_dataset_server("tank/wings/volume"), Err(DatasetError::MissingServerMarker));
    assert_eq!(parse_dataset_server("tank/server-nope"), Err(DatasetError::InvalidUuid));
}

#[test]
fn zfs_arguments() {
    assert_eq!(snapshot_argument("tank/s", "backup-x"), "tank/s@backup-x");
    assert_eq!(
        destroy_argument("  tank/s\n", ID),
        "tank/s@backup-67e55044-10b1-426f-9247-bb680e5fe0c8"
    );
    assert_eq!(
        content_disposition(ID, "tar.gz"),
        "attachment; filename=67e55044-10b1-426f-9247-bb680e5fe0c8.tar.gz"
    );
}

#[test]
fn tally_counts_size_and_files() {
    let mut t = BackupTally::new();
    t.add(4096, true);
    t.add(100, false);
    t.add(5, false);
    assert_eq!(t.total_size, 4201);
    assert_eq!(t.total_files, 2);
    let t = BackupTally::tally(&vec![(4096, true), (100, false), (5, false)]);
    assert_eq!((t.total_size, t.total_files), (4201, 2));
    let t = BackupTally::tally(&vec![]);
    assert_eq!((t.total_size, t.total_files), (0, 0));
}

#[test]
fn names_sort_by_code_point() {
    let mut v = vec!["b".to_string(), "B".to_string(), "a".to_string(), "\u{e9}".to_string(), "ab".to_string()];
    sort_names(&mut v);
    assert_eq!(v, vec!["B", "a", "ab", "b", "\u{e9}"]);
}

fn entry(name: &str, is_dir: bool, ignored: bool) -> DirEntryName {
    DirEntryName { name: name.to_string(), is_dir, ignored }
}

fn sample() -> Vec<DirEntryName> {
    vec![
        entry("z.txt", false, false),
        entry("logs", true, false),
        entry("a.txt", false, false),
        entry("secret", false, true),
        entry("config", true, false),
    ]
}

#[test]
fn listing_puts_directories_first() {
    let (total, names) = list_directory_page(sample(), None, 1);
    assert_eq!(total, 4);
    assert_eq!(names, vec!["config", "logs", "a.txt", "z.txt"]);
}

#[test]
fn listing_pages() {
    assert_eq!(list_directory_page(sample(), Some(3), 1), (4, vec!["config".to_string(), "logs".to_string(), "a.txt".to_string()]));
    assert_eq!(list_directory_page(sample(), Some(3), 2), (4, vec!["z.txt".to_string()]));
    assert_eq!(list_directory_page(sample(), Some(3), 3), (4, vec![]));
}

#[test]
fn listing_does_not_depend_on_entry_order() {
    let mut reversed = sample();
    reversed.reverse();
    assert_eq!(list_directory_page(sample(), Some(2), 2), list_directory_page(reversed, Some(2), 2));
}

#[test]
fn zero_entry_limit_means_unlimited() {
    assert_eq!(entry_limit(0), None);
    assert_eq!(entry_limit(10000), Some(10000));
}

#[test]
fn zfs_backup_record_names_the_dataset() {
    let tally = BackupTally::tally(&vec![(4096, true), (10, false)]);
    let r = zfs_backup_record::<u8>("tank/server-1".to_string(), tally);
    assert_eq!(r.checksum, "tank/server-1");
    assert_eq!(r.checksum_type, "zfs-subvolume");
    assert_eq!((r.size, r.files), (4106, 1));
    assert!(r.successful);
    assert!(r.parts.is_empty());
}
