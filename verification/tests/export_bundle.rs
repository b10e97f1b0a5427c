use schema_forge_acton::export_bundle::{blob_member_name, build_zip_bundle, data_member_name, BundleEntry};
use std::io::Read;

fn read_zip(bytes: &[u8]) -> Vec<(String, Vec<u8>)> {
    let mut archive = zip::ZipArchive::new(std::io::Cursor::new(bytes.to_vec())).expect("valid zip");
    let mut out = Vec::new();
    for i in 0..archive.len() {
        let mut file = archive.by_index(i).expect("member");
        let name = file.name().to_string();
        let mut buf = Vec::new();
        file.read_to_end(&mut buf).expect("read member");
        out.push((name, buf));
    }
    out
}

#[test]
fn build_bundle_preserves_members_and_order() {
    let entries = vec![
        BundleEntry::new("data.csv", b"name\nAda\n".to_vec()),
        BundleEntry::new("files/photo/e1/p.png", vec![0u8, 1, 2, 3]),
    ];
    let bytes = build_zip_bundle(&entries).unwrap();
    assert_eq!(&bytes[..2], b"PK");
    let members = read_zip(&bytes);
    assert_eq!(members.len(), 2);
    assert_eq!(members[0].0, "data.csv");
    assert_eq!(members[0].1, b"name\nAda\n");
    assert_eq!(members[1].0, "files/photo/e1/p.png");
    assert_eq!(members[1].1, vec![0u8, 1, 2, 3]);
}

#[test]
fn build_bundle_rejects_duplicate_member() {
    let entries = vec![
        BundleEntry::new("data.csv", b"a".to_vec()),
        BundleEntry::new("data.csv", b"b".to_vec()),
    ];
    let err = build_zip_bundle(&entries).unwrap_err();
    assert!(err.contains("duplicate"), "{err}");
    assert_eq!(err, "duplicate bundle member 'data.csv'");
}

#[test]
fn empty_bundle_is_a_valid_empty_archive() {
    let bytes = build_zip_bundle(&[]).unwrap();
    let members = read_zip(&bytes);
    assert!(members.is_empty());
}

#[test]
fn identical_members_give_identical_archives() {
    let entries = vec![BundleEntry::new("a.txt", b"same".to_vec())];
    assert_eq!(build_zip_bundle(&entries).unwrap(), build_zip_bundle(&entries).unwrap());
}

#[test]
fn blob_member_name_layout_and_sanitization() {
    assert_eq!(
        blob_member_name("photo", "e1", "p.png"),
        "files/photo/e1/p.png"
    );
    assert_eq!(
        blob_member_name("photo", "e1", "tenant/x/y/p.png"),
        "files/photo/e1/p.png"
    );
    assert_eq!(
        blob_member_name("photo", "e1", "../../etc/passwd"),
        "files/photo/e1/passwd"
    );
    assert_eq!(blob_member_name("photo", "e1", ".."), "files/photo/e1/blob");
    assert_eq!(blob_member_name("photo", "e1", ""), "files/photo/e1/blob");
}

#[test]
fn blob_member_name_flattens_backslashes_and_trims() {
    assert_eq!(blob_member_name("f", "e", "a\\b\\c.txt"), "files/f/e/c.txt");
    assert_eq!(blob_member_name("f", "e", "dir/  report.pdf "), "files/f/e/report.pdf");
    assert_eq!(blob_member_name("f", "e", "dir/."), "files/f/e/blob");
    assert_eq!(blob_member_name("f", "e", "dir/"), "files/f/e/blob");
}

#[test]
fn data_member_name_uses_schema_and_extension() {
    assert_eq!(data_member_name("Subject", "csv"), "Subject.csv");
    assert_eq!(data_member_name("Subject", "ndjson"), "Subject.ndjson");
}

use schema_forge_acton::definition::{FileConstraints, FieldDefinition, FieldType, SchemaDefinition, TextConstraints};
use schema_forge_acton::export_bundle::{collect_file_blob_refs, ExportRow, FileAttachment, FileStatus};

fn bundle_schema() -> SchemaDefinition {
    SchemaDefinition {
        id: "sch-test".to_string(),
        name: "Doc".to_string(),
        fields: vec![
            FieldDefinition::new("title".to_string(), FieldType::Text(TextConstraints { max_length: None })),
            FieldDefinition::new("attachment".to_string(), FieldType::File(FileConstraints { bucket: "documents".to_string() })),
        ],
        access: None,
        version: None,
        display_field: None,
        system: false,
    }
}

fn bundle_columns() -> Vec<String> {
    vec!["title".to_string(), "attachment".to_string()]
}

fn attachment(key: &str, status: FileStatus) -> FileAttachment {
    FileAttachment { key: key.to_string(), status }
}

fn row(id: &str, files: Vec<(&str, Vec<FileAttachment>)>) -> ExportRow {
    ExportRow { id: id.to_string(), files: files.into_iter().map(|(k, v)| (k.to_string(), v)).collect() }
}

#[test]
fn collect_refs_picks_available_file_blobs_only() {
    let rows = vec![
        row("e1", vec![("attachment", vec![attachment("blobs/a.png", FileStatus::Available)])]),
        row("e2", vec![("attachment", vec![attachment("blobs/bad.png", FileStatus::Quarantined)])]),
    ];
    let refs = collect_file_blob_refs(&rows, &bundle_schema(), &bundle_columns());
    assert_eq!(refs.len(), 1);
    assert_eq!(refs[0].key, "blobs/a.png");
    assert_eq!(refs[0].member_name, "files/attachment/e1/a.png");
}

#[test]
fn collect_refs_skips_stripped_file_field() {
    let rows = vec![row("e1", vec![])];
    let refs = collect_file_blob_refs(&rows, &bundle_schema(), &bundle_columns());
    assert!(refs.is_empty());
}

#[test]
fn collect_refs_handles_array_of_files() {
    let rows = vec![row(
        "e1",
        vec![(
            "attachment",
            vec![attachment("blobs/a.png", FileStatus::Available), attachment("blobs/b.png", FileStatus::Available)],
        )],
    )];
    let refs = collect_file_blob_refs(&rows, &bundle_schema(), &bundle_columns());
    assert_eq!(refs.len(), 2);
    assert_eq!(refs[0].key, "blobs/a.png");
    assert_eq!(refs[1].key, "blobs/b.png");
}

#[test]
fn collect_refs_ignores_non_file_and_unexported_columns() {
    let rows = vec![row(
        "e1",
        vec![("title", vec![attachment("blobs/t.png", FileStatus::Available)]),
             ("attachment", vec![attachment("blobs/a.png", FileStatus::Available)])],
    )];
    let refs = collect_file_blob_refs(&rows, &bundle_schema(), &["title".to_string()]);
    assert!(refs.is_empty());
    let refs = collect_file_blob_refs(&rows, &bundle_schema(), &[]);
    assert!(refs.is_empty());
}
