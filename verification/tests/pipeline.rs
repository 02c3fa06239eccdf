//! Generations, journal records and the local gallery.

use photo_publisher::gallery::{
    download_path, generate_photo_id, preview_path, ProcessedDimensions, SourcePhoto,
};
use photo_publisher::inventory::Duplicate;
use photo_publisher::journal::{JournalPhase, JournalRecord};
use photo_publisher::preview::{
    copy_needed, preview_plan, unscaled_preview, PreviewPlan, MAX_PREVIEW_EDGE,
};
use photo_publisher::publish::{next_generation, processed_dimensions};
use photo_publisher::recovery::validate_generation_chain;

#[test]
fn generation_is_monotonic() {
    assert_eq!(next_generation(None), "g-000001");
}

#[test]
fn generation_chain_requires_latest_committed_predecessor() {
    let g1 = JournalRecord::new(
        10,
        "g-000001".into(),
        None,
        JournalPhase::Committed,
        "a".repeat(64),
        "b".repeat(64),
        ".publisher/staging/g-000001".into(),
        ".publisher/backups/none".into(),
        None,
        None,
    );
    let g2 = JournalRecord::new(
        20,
        "g-000002".into(),
        Some("g-000001".into()),
        JournalPhase::Committed,
        "c".repeat(64),
        "d".repeat(64),
        ".publisher/staging/g-000002".into(),
        ".publisher/backups/g-000001".into(),
        Some("a".repeat(64)),
        Some("b".repeat(64)),
    );
    let g3_from_g1 = JournalRecord::new(
        30,
        "g-000003".into(),
        Some("g-000001".into()),
        JournalPhase::StateInstalled,
        "e".repeat(64),
        "f".repeat(64),
        ".publisher/staging/g-000003".into(),
        ".publisher/backups/g-000001".into(),
        Some("a".repeat(64)),
        Some("b".repeat(64)),
    );
    assert!(
        validate_generation_chain(&g3_from_g1, &[g1.duplicate(), g2.duplicate()]).is_err()
    );
    let g3_from_g2 = JournalRecord::new(
        30,
        "g-000003".into(),
        Some("g-000002".into()),
        JournalPhase::StateInstalled,
        "e".repeat(64),
        "f".repeat(64),
        ".publisher/staging/g-000003".into(),
        ".publisher/backups/g-000002".into(),
        Some("c".repeat(64)),
        Some("d".repeat(64)),
    );
    assert!(validate_generation_chain(&g3_from_g2, &[g1, g2]).is_ok());
}

#[test]
fn test_photo_id_generation() {
    let id1 = generate_photo_id("folder/photo.jpg");
    let id2 = generate_photo_id("folder/photo.jpg");
    assert_eq!(id1, id2);
    assert_eq!(id1.len(), 16);

    let id3 = generate_photo_id("folder/other.jpg");
    assert_ne!(id1, id3);
}

#[test]
fn downloads_are_copied_where_they_differ() {
    let source = b"a picture".to_vec();
    assert!(copy_needed(&source, &None));
    assert!(copy_needed(&source, &Some(b"another picture".to_vec())));
    assert!(!copy_needed(&source, &Some(b"a picture".to_vec())));
}

#[test]
fn readable_jpeg_previews_are_kept() {
    let jpg = Some("JPG".to_owned());
    assert_eq!(
        preview_plan(true, Some((3, 2)), &jpg),
        PreviewPlan::Keep {
            width: 3,
            height: 2
        }
    );
    assert_eq!(preview_plan(false, Some((3, 2)), &jpg), PreviewPlan::Make);
    assert_eq!(preview_plan(true, None, &jpg), PreviewPlan::Make);
    assert_eq!(
        preview_plan(true, Some((3, 2)), &Some("png".to_owned())),
        PreviewPlan::Make
    );
    assert_eq!(preview_plan(true, Some((3, 2)), &None), PreviewPlan::Make);
}

#[test]
fn small_pictures_keep_their_size() {
    assert_eq!(MAX_PREVIEW_EDGE, 2048);
    assert_eq!(unscaled_preview(2048, 1), Some((2048, 1)));
    assert_eq!(unscaled_preview(0, 7), Some((1, 7)));
    assert_eq!(unscaled_preview(2049, 1), None);
    assert_eq!(unscaled_preview(1, 2049), None);
}

#[test]
fn processed_photos_have_known_dimensions() {
    let photo = |path: &str| SourcePhoto {
        relative_path: path.to_owned(),
        sha256: "a".repeat(64),
        bytes: 1,
    };
    let dimensions = |width: u32| ProcessedDimensions {
        preview_width: width,
        preview_height: 1,
        orig_width: width,
        orig_height: 1,
    };
    assert_eq!(
        processed_dimensions(
            &vec![photo("a.jpg"), photo("b.jpg"), photo("c.jpg"), photo("a.jpg")],
            &vec![
                ("a.jpg".to_owned(), dimensions(1)),
                ("c.jpg".to_owned(), dimensions(2)),
                ("a.jpg".to_owned(), dimensions(3)),
                ("d.jpg".to_owned(), dimensions(4)),
            ],
        ),
        vec![Some(dimensions(3)), None, Some(dimensions(2)), None]
    );
}

#[test]
fn assets_are_named_by_digest() {
    assert_eq!(preview_path("ab"), "photos/preview/ab.jpg");
    assert_eq!(download_path("ab"), "photos/download/ab.jpg");
}
