use winfr_core::catalog::{categorize_file, build_catalog, sort_catalog, pick_latest_recovery_dir,
    DirEntryInfo, ScannedEntry};
use winfr_core::drives::{format_bytes, make_drive_info, sort_drives, DiskKindCode};
use winfr_core::health::{classify_check_output, normalize_drive};

#[test]
fn categories_from_extension() {
    assert_eq!(categorize_file("jpg"), "Images");
    assert_eq!(categorize_file("JPG"), "Images");
    assert_eq!(categorize_file("docx"), "Documents");
    assert_eq!(categorize_file("mkv"), "Videos");
    assert_eq!(categorize_file("FLAC"), "Audio");
    assert_eq!(categorize_file("7z"), "Archives");
    assert_eq!(categorize_file("exe"), "Other");
    assert_eq!(categorize_file(""), "Other");
}

fn entry(name: &str, ext: &str, rel: &str, size: u64) -> ScannedEntry {
    ScannedEntry {
        name: name.to_string(),
        ext: ext.to_string(),
        rel_path: rel.to_string(),
        size,
    }
}

#[test]
fn catalog_ids_paths_and_categories() {
    let files = build_catalog(&vec![
        entry("a.jpg", "jpg", "sub/a.jpg", 10),
        entry("b.pdf", "pdf", "b.pdf", 20),
    ]);
    assert_eq!(files.len(), 2);
    assert_eq!(files[0].id, "1");
    assert_eq!(files[0].path, "\\sub\\a.jpg");
    assert_eq!(files[0].category, "Images");
    assert_eq!(files[1].id, "2");
    assert_eq!(files[1].size, 20);
    assert_eq!(files[1].category, "Documents");
}

#[test]
fn catalog_sorted_by_category_then_name() {
    let files = build_catalog(&vec![
        entry("z.mp4", "mp4", "z.mp4", 1),
        entry("b.jpg", "jpg", "b.jpg", 2),
        entry("a.mp4", "mp4", "a.mp4", 3),
        entry("a.jpg", "jpg", "a.jpg", 4),
    ]);
    let sorted = sort_catalog(files);
    let order: Vec<(String, String)> = sorted
        .iter()
        .map(|f| (f.category.clone(), f.name.clone()))
        .collect();
    assert_eq!(
        order,
        vec![
            ("Images".to_string(), "a.jpg".to_string()),
            ("Images".to_string(), "b.jpg".to_string()),
            ("Videos".to_string(), "a.mp4".to_string()),
            ("Videos".to_string(), "z.mp4".to_string()),
        ]
    );
}

fn dir(name: &str, is_dir: bool, modified: u64) -> DirEntryInfo {
    DirEntryInfo { name: name.to_string(), is_dir, modified }
}

#[test]
fn latest_recovery_dir_picked() {
    let entries = vec![
        dir("Recovery_20240101_000000", true, 100),
        dir("notes.txt", false, 999),
        dir("Recovery_20240201_000000", true, 300),
        dir("Backup", true, 500),
        dir("Recovery_20240301_000000", true, 200),
    ];
    assert_eq!(pick_latest_recovery_dir(&entries), Some(2));
}

#[test]
fn no_recovery_dir_yields_none() {
    let entries = vec![dir("other", true, 10), dir("Recovery_x", false, 20)];
    assert_eq!(pick_latest_recovery_dir(&entries), None);
}

#[test]
fn earliest_wins_on_equal_times() {
    let entries = vec![
        dir("Recovery_20240101_000000", true, 100),
        dir("Recovery_20240102_000000", true, 100),
    ];
    assert_eq!(pick_latest_recovery_dir(&entries), Some(0));
}

#[test]
fn byte_sizes_rendered() {
    assert_eq!(format_bytes(512 * 1024 * 1024 * 1024), "512 GB");
    assert_eq!(format_bytes(1024 * 1024 * 1024), "1 GB");
    assert_eq!(format_bytes(1_649_267_441_664), "1.5 TB");
    assert_eq!(format_bytes(500 * 1024 * 1024), "500 MB");
    assert_eq!(format_bytes(0), "0 MB");
    // just below a gigabyte still renders in megabytes
    assert_eq!(format_bytes(1024 * 1024 * 1024 - 1), "1024 MB");
}

#[test]
fn equal_keys_keep_both_entries() {
    let files = build_catalog(&vec![
        entry("same.jpg", "jpg", "a/same.jpg", 1),
        entry("same.jpg", "jpg", "b/same.jpg", 2),
    ]);
    let sorted = sort_catalog(files);
    assert_eq!(sorted.len(), 2);
    assert!(sorted.iter().all(|f| f.name == "same.jpg"));
    let sizes: Vec<u64> = sorted.iter().map(|f| f.size).collect();
    assert!(sizes.contains(&1) && sizes.contains(&2));
}

#[test]
fn drive_info_built_from_raw_values() {
    let d = make_drive_info(
        &"c:\\".to_string(),
        &"".to_string(),
        DiskKindCode::Ssd,
        "NTFS".to_string(),
        100 * 1024 * 1024 * 1024,
        25 * 1024 * 1024 * 1024,
    )
    .unwrap();
    assert_eq!(d.id, "C:");
    assert_eq!(d.label, "Local Disk");
    assert_eq!(d.drive_type, "SSD");
    assert_eq!(d.fs, "NTFS");
    assert_eq!(d.size, "100 GB");
    assert_eq!(d.used, "75 GB");
    assert_eq!(d.percent, 75);
    assert!(d.is_system);
}

#[test]
fn non_letter_mounts_skipped() {
    assert!(make_drive_info(
        &"/".to_string(),
        &"root".to_string(),
        DiskKindCode::Other,
        "ext4".to_string(),
        1,
        1
    )
    .is_none());
}

#[test]
fn drives_sorted_system_first_then_letter() {
    let e = make_drive_info(
        &"E:\\".to_string(),
        &"data".to_string(),
        DiskKindCode::Hdd,
        "NTFS".to_string(),
        10,
        5,
    )
    .unwrap();
    let c = make_drive_info(
        &"C:\\".to_string(),
        &"sys".to_string(),
        DiskKindCode::Ssd,
        "NTFS".to_string(),
        10,
        5,
    )
    .unwrap();
    let d = make_drive_info(
        &"d:\\".to_string(),
        &"more".to_string(),
        DiskKindCode::Hdd,
        "exFAT".to_string(),
        10,
        5,
    )
    .unwrap();
    let sorted = sort_drives(vec![e, c, d]);
    let ids: Vec<String> = sorted.iter().map(|x| x.id.clone()).collect();
    assert_eq!(ids, vec!["C:", "D:", "E:"]);
    assert!(sorted[0].is_system);
}

#[test]
fn drive_argument_normalized() {
    assert_eq!(normalize_drive(&"E".to_string()), "E:");
    assert_eq!(normalize_drive(&"E:".to_string()), "E:");
    assert_eq!(normalize_drive(&"".to_string()), ":");
}

#[test]
fn check_output_classified() {
    assert_eq!(
        classify_check_output("fine".to_string(), "".to_string(), Some(0)),
        Ok("fine".to_string())
    );
    assert_eq!(
        classify_check_output("out".to_string(), "bad".to_string(), Some(2)),
        Err("bad".to_string())
    );
    assert_eq!(
        classify_check_output("out".to_string(), "bad".to_string(), Some(0)),
        Ok("out".to_string())
    );
    assert_eq!(
        classify_check_output("out".to_string(), "".to_string(), Some(3)),
        Ok("out".to_string())
    );
    assert_eq!(
        classify_check_output("out".to_string(), "warn".to_string(), None),
        Err("warn".to_string())
    );
}
