use design_extractor::model::{DesignSpec, Evidence, Platform, Rule, RuleKind, RuleStatus};
use design_extractor::storage::error::StorageError;
use design_extractor::storage::paths::{absolute_screenshot_path, Storage};
use design_extractor::storage::projects::{platform_from_str, platform_to_str};
use design_extractor::storage::screenshots::{
    check_source_size, detect_image_metadata, hex_sha256, import_admission, insert_failure,
    mark_dependent_rules_pending,
    next_sort_order, relative_screenshot_path, temporary_file_name, ImageKind, MAX_SOURCE_BYTES,
};
use sha2::Digest;

fn png(width: u32, height: u32) -> Vec<u8> {
    let image = image::RgbImage::new(width, height);
    let mut bytes = Vec::new();
    image
        .write_to(&mut std::io::Cursor::new(&mut bytes), image::ImageFormat::Png)
        .unwrap();
    bytes
}

#[test]
fn accepted_images_report_their_format_and_decoded_size() {
    let meta = detect_image_metadata(&png(3, 2)).unwrap();
    assert_eq!(meta.kind, ImageKind::Png);
    assert_eq!((meta.width, meta.height), (3, 2));
}

#[test]
fn unsupported_corrupt_and_oversized_images_are_refused() {
    assert_eq!(detect_image_metadata(b"plain text").unwrap_err(), StorageError::UnsupportedMediaType);
    let mut truncated = png(4, 4);
    truncated.truncate(30);
    assert_eq!(detect_image_metadata(&truncated).unwrap_err(), StorageError::CorruptImage);
    assert_eq!(
        detect_image_metadata(&png(16385, 1)).unwrap_err(),
        StorageError::ImageTooLarge { width: 16385, height: 1, max: 16384 }
    );
    assert_eq!(
        detect_image_metadata(&png(4097, 4097)).unwrap_err(),
        StorageError::ImageTooLarge { width: 4097, height: 4097, max: 16384 }
    );
    assert!(check_source_size(MAX_SOURCE_BYTES).is_ok());
    assert_eq!(
        check_source_size(MAX_SOURCE_BYTES + 1).unwrap_err(),
        StorageError::FileTooLarge { size: MAX_SOURCE_BYTES + 1, max: 26_214_400 }
    );
}

#[test]
fn digests_are_lower_case_hex() {
    let bytes = png(1, 1);
    let expected: String = sha2::Sha256::digest(&bytes).iter().map(|b| format!("{b:02x}")).collect();
    assert_eq!(hex_sha256(&bytes), expected);
    assert_eq!(
        hex_sha256(b""),
        "e3b0c44298fc1c149afbf4c8996fb92427ae41e4649b934ca495991b7852b855"
    );
}

#[test]
fn stored_names_and_sort_positions() {
    let id = 0x0102_0304_0506_0708_090a_0b0c_0d0e_0f10;
    assert_eq!(
        relative_screenshot_path(id, ImageKind::Jpeg),
        "screenshots/01020304-0506-0708-090a-0b0c0d0e0f10.jpg"
    );
    assert_eq!(temporary_file_name(id), ".01020304-0506-0708-090a-0b0c0d0e0f10.tmp");
    assert_eq!(next_sort_order(None), 0);
    assert_eq!(next_sort_order(Some(4)), 5);
}

#[test]
fn paths_are_below_the_data_directory() {
    let storage = Storage::new("/data");
    assert_eq!(storage.db_path, "/data/design-storage.sqlite3");
    assert_eq!(storage.projects().projects_dir(), "/data/projects");
    assert_eq!(storage.screenshots().project_dir(0x10), "/data/projects/00000000-0000-0000-0000-000000000010");
    assert_eq!(absolute_screenshot_path("/data", "p1", "screenshots/a.png"), "/data/projects/p1/screenshots/a.png");
}

#[test]
fn platforms_are_stored_by_name() {
    for platform in [Platform::Web, Platform::Desktop, Platform::Mobile, Platform::CrossPlatform] {
        assert_eq!(platform_from_str(platform_to_str(platform)), Some(platform));
    }
    assert_eq!(platform_to_str(Platform::CrossPlatform), "cross_platform");
    assert_eq!(platform_from_str("Web"), None);
}

fn rule(id: u128, status: RuleStatus, evidence: Vec<u128>) -> Rule {
    let mut rule = Rule::new("layout", "Use a grid.", RuleKind::Pattern, 0.5f32.to_bits());
    rule.id = id;
    rule.status = status;
    rule.evidence_ids = evidence;
    rule
}

#[test]
fn removing_a_screenshot_marks_dependent_rules_for_review() {
    let removed = 0xAA;
    let kept = 0xBB;
    let mut spec = DesignSpec::empty("project");
    spec.evidence = vec![
        Evidence { id: 1, screenshot_id: removed, region: None, description: "a".to_owned() },
        Evidence { id: 2, screenshot_id: kept, region: None, description: "b".to_owned() },
    ];
    spec.layout = vec![
        rule(10, RuleStatus::Accepted, vec![1]),
        rule(11, RuleStatus::Edited, vec![2, 1]),
        rule(12, RuleStatus::Accepted, vec![2]),
        rule(13, RuleStatus::Rejected, vec![1]),
    ];
    spec.constraints = vec![rule(14, RuleStatus::Edited, vec![2])];

    let updated = mark_dependent_rules_pending(spec.clone(), removed).unwrap();

    let statuses: Vec<RuleStatus> = updated.layout.iter().map(|r| r.status).collect();
    assert_eq!(
        statuses,
        vec![RuleStatus::Pending, RuleStatus::Pending, RuleStatus::Accepted, RuleStatus::Rejected]
    );
    assert_eq!(updated.constraints[0].status, RuleStatus::Edited);
    assert_eq!(updated.evidence, spec.evidence);

    assert!(mark_dependent_rules_pending(spec, 0xCC).is_none());
}

#[test]
fn storage_errors_read_as_their_messages() {
    assert_eq!(
        StorageError::ProjectNotFound(1).message(),
        "project 00000000-0000-0000-0000-000000000001 was not found"
    );
    assert_eq!(
        StorageError::Io { message: "disk full".to_owned() }.message(),
        "storage I/O failed"
    );
    assert_eq!(
        StorageError::DuplicateScreenshot(2).message(),
        "screenshot duplicates existing screenshot 00000000-0000-0000-0000-000000000002"
    );
}

#[test]
fn imports_need_the_project_and_new_content() {
    assert_eq!(import_admission(7, false, None), Err(StorageError::ProjectNotFound(7)));
    assert_eq!(import_admission(7, false, Some(9)), Err(StorageError::ProjectNotFound(7)));
    assert_eq!(import_admission(7, true, Some(9)), Err(StorageError::DuplicateScreenshot(9)));
    assert_eq!(import_admission(7, true, None), Ok(()));

    assert_eq!(insert_failure(true, Some(9), "UNIQUE".to_owned()), StorageError::DuplicateScreenshot(9));
    assert_eq!(
        insert_failure(true, None, "UNIQUE".to_owned()),
        StorageError::Sqlite { message: "UNIQUE".to_owned() }
    );
    assert_eq!(
        insert_failure(false, Some(9), "disk full".to_owned()),
        StorageError::Sqlite { message: "disk full".to_owned() }
    );
}
