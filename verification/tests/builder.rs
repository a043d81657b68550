use winfr_core::args::build_winfr_args;
use winfr_core::config::RecoveryConfig;

fn base_config() -> RecoveryConfig {
    RecoveryConfig {
        source: "E:".to_string(),
        destination: "D:\\out".to_string(),
        mode: "regular".to_string(),
        filters: Vec::new(),
        segment_mode: false,
        signature_mode: false,
        recover_non_deleted: false,
        keep_both: false,
        auto_accept: false,
        recover_system_files: false,
        keep_all_extensions: false,
        source_fs: None,
        verbose_mode: false,
    }
}

#[test]
fn regular_mode_with_images_filter() {
    let mut c = base_config();
    c.filters = vec!["Images".to_string()];
    let args = build_winfr_args(&c);
    let expected = vec![
        "E:", "D:\\out\\", "/regular", "/n", "*.jpg", "/n", "*.jpeg", "/n", "*.png", "/n",
        "*.gif", "/n", "*.bmp", "/n", "*.webp", "/n", "*.heic", "/n", "*.raw",
    ];
    assert_eq!(args, expected);
}

#[test]
fn trailing_separator_kept() {
    let mut c = base_config();
    c.destination = "D:\\out\\".to_string();
    let args = build_winfr_args(&c);
    assert_eq!(args[1], "D:\\out\\");
    let mut c2 = base_config();
    c2.destination = "D:/out/".to_string();
    assert_eq!(build_winfr_args(&c2)[1], "D:/out/");
}

#[test]
fn mode_precedence_signature_over_segment() {
    let mut c = base_config();
    c.signature_mode = true;
    c.segment_mode = true;
    c.mode = "extensive".to_string();
    let args = build_winfr_args(&c);
    assert_eq!(&args[2..4], &["/extensive".to_string(), "/x".to_string()]);
    assert!(!args.contains(&"/r".to_string()));
    assert!(!args.contains(&"/regular".to_string()));
}

#[test]
fn mode_precedence_segment_over_extensive() {
    let mut c = base_config();
    c.segment_mode = true;
    c.mode = "regular".to_string();
    let args = build_winfr_args(&c);
    assert_eq!(&args[2..4], &["/extensive".to_string(), "/r".to_string()]);
}

#[test]
fn extensive_mode_alone() {
    let mut c = base_config();
    c.mode = "extensive".to_string();
    let args = build_winfr_args(&c);
    assert_eq!(args[2], "/extensive");
    assert_eq!(args.len(), 3);
}

#[test]
fn keep_both_plain() {
    let mut c = base_config();
    c.keep_both = true;
    let args = build_winfr_args(&c);
    assert!(args.contains(&"/o:b".to_string()));
}

#[test]
fn keep_both_suppressed_on_exfat() {
    let mut c = base_config();
    c.keep_both = true;
    c.source_fs = Some("exFAT".to_string());
    let args = build_winfr_args(&c);
    assert!(!args.contains(&"/o:b".to_string()));
}

#[test]
fn keep_both_suppressed_in_signature_mode() {
    let mut c = base_config();
    c.keep_both = true;
    c.signature_mode = true;
    let args = build_winfr_args(&c);
    assert!(!args.contains(&"/o:b".to_string()));
}

#[test]
fn verbose_suppressed_in_signature_mode() {
    let mut c = base_config();
    c.verbose_mode = true;
    c.signature_mode = true;
    let args = build_winfr_args(&c);
    assert!(!args.contains(&"/v".to_string()));
    let mut c2 = base_config();
    c2.verbose_mode = true;
    assert!(build_winfr_args(&c2).contains(&"/v".to_string()));
}

#[test]
fn boolean_switches_in_order() {
    let mut c = base_config();
    c.auto_accept = true;
    c.recover_non_deleted = true;
    c.recover_system_files = true;
    c.keep_all_extensions = true;
    c.verbose_mode = true;
    let args = build_winfr_args(&c);
    assert_eq!(
        &args[3..8],
        &[
            "/a".to_string(),
            "/u".to_string(),
            "/k".to_string(),
            "/e".to_string(),
            "/v".to_string()
        ]
    );
}

#[test]
fn signature_filters_sorted_and_deduplicated() {
    let mut c = base_config();
    c.signature_mode = true;
    c.filters = vec![
        "Images".to_string(),
        "Audio".to_string(),
        "Archives".to_string(),
        "Documents".to_string(),
    ];
    let args = build_winfr_args(&c);
    // ZIP named by both Documents and Archives appears once; names sorted
    assert_eq!(args.last().unwrap(), "/y:ASF,JPEG,MP3,PDF,PNG,ZIP");
}

#[test]
fn signature_unknown_filter_dropped() {
    let mut c = base_config();
    c.signature_mode = true;
    c.filters = vec!["Floppies".to_string()];
    let args = build_winfr_args(&c);
    assert_eq!(args, vec!["E:", "D:\\out\\", "/extensive", "/x"]);
}

#[test]
fn custom_filter_passes_through() {
    let mut c = base_config();
    c.filters = vec!["*.foo".to_string()];
    let args = build_winfr_args(&c);
    assert_eq!(&args[3..5], &["/n".to_string(), "*.foo".to_string()]);
}

#[test]
fn documents_filter_covers_whole_table() {
    let mut c = base_config();
    c.filters = vec!["Documents".to_string()];
    let args = build_winfr_args(&c);
    // 11 extensions, one flag/value pair each
    assert_eq!(args.len(), 3 + 22);
    for i in 0..11 {
        assert_eq!(args[3 + 2 * i], "/n");
    }
}
