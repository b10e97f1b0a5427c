//! ZIP-bundle assembly for the export path: the archive layout, the
//! member-name policy that keeps blobs inside `files/`, and the archive
//! writer that refuses duplicate members.
use vstd::prelude::*;

use std::io::Cursor;
use zip::ZipWriter;

use crate::definition::{FieldDefinition, FieldType, SchemaDefinition};
use crate::text::{chars_of, has_prefix, is_whitespace, push_str, str_to_string, string_from, trim, trim_chars, trim_end, trim_start};

verus! {

/// One member of the archive: a path inside the ZIP plus its bytes.
#[derive(Debug, Clone, PartialEq, Eq)]
pub struct BundleEntry {
    /// Archive-internal path, always forward-slash separated.
    pub name: String,
    /// Full member content.
    pub bytes: Vec<u8>,
}

impl BundleEntry {
    /// Construct an entry from an archive path and its bytes.
    pub fn new(name: &str, bytes: Vec<u8>) -> (e: Self)
        ensures
            e.name@ == name@,
            e.bytes@ == bytes@,
    {
        BundleEntry { name: str_to_string(name), bytes }
    }
}

/// A pointer to a single `file`-field blob that should be pulled from
/// storage and embedded in the bundle.
#[derive(Debug, Clone, PartialEq, Eq)]
pub struct FileBlobRef {
    /// Object-storage key of the blob.
    pub key: String,
    /// Deterministic archive path the blob lands under in the bundle.
    pub member_name: String,
}

/// The archive directory under which `file`-field blobs are placed.
pub const BUNDLE_FILES_DIR: &'static str = "files";

pub open spec fn is_path_separator(c: char) -> bool {
    c == '/' || c == '\\'
}

/// What follows the last `/` or `\` of `s` (all of `s` when it has none).
pub open spec fn last_segment(s: Seq<char>) -> Seq<char>
    decreases s.len(),
{
    if s.len() == 0 {
        s
    } else if is_path_separator(s.last()) {
        Seq::empty()
    } else {
        last_segment(s.drop_last()).push(s.last())
    }
}

/// A single safe archive path segment made of an untrusted name: its last
/// path segment, trimmed, or `blob` when that is empty, `.` or `..`.
pub open spec fn safe_segment(name: Seq<char>) -> Seq<char> {
    let last = trim(last_segment(name));
    if last.len() == 0 || last == "."@ || last == ".."@ {
        "blob"@
    } else {
        last
    }
}

/// The archive member name of one file blob: `files/<field>/<entity_id>/<safe filename>`.
pub open spec fn blob_member_spec(field: Seq<char>, entity_id: Seq<char>, filename: Seq<char>) -> Seq<char> {
    "files/"@ + field + "/"@ + entity_id + "/"@ + safe_segment(filename)
}

proof fn lemma_last_segment_from(s: Seq<char>, k: int)
    requires
        0 <= k <= s.len(),
        forall|j: int| k <= j < s.len() ==> !is_path_separator(#[trigger] s[j]),
        k == 0 || is_path_separator(s[k - 1]),
    ensures
        last_segment(s) == s.subrange(k, s.len() as int),
    decreases s.len(),
{
    if s.len() == k {
        if k > 0 {
            assert(is_path_separator(s.last()));
        }
        assert(s.subrange(k, s.len() as int) =~= Seq::<char>::empty());
    } else {
        let t = s.drop_last();
        assert forall|j: int| k <= j < t.len() implies !is_path_separator(#[trigger] t[j]) by {
            assert(t[j] == s[j]);
        }
        lemma_last_segment_from(t, k);
        assert(!is_path_separator(s[s.len() - 1]));
        assert(t.subrange(k, t.len() as int).push(s.last()) =~= s.subrange(k, s.len() as int));
    }
}

proof fn lemma_last_segment_no_separator(s: Seq<char>)
    ensures
        forall|i: int| 0 <= i < last_segment(s).len() ==> !is_path_separator(#[trigger] last_segment(s)[i]),
    decreases s.len(),
{
    if s.len() > 0 && !is_path_separator(s.last()) {
        lemma_last_segment_no_separator(s.drop_last());
        let t = last_segment(s.drop_last());
        assert forall|i: int| 0 <= i < t.push(s.last()).len() implies !is_path_separator(
            #[trigger] t.push(s.last())[i],
        ) by {
            if i < t.len() {
                assert(t.push(s.last())[i] == t[i]);
            }
        }
    }
}

proof fn lemma_trim_start_keeps(s: Seq<char>)
    requires
        forall|i: int| 0 <= i < s.len() ==> !is_path_separator(#[trigger] s[i]),
    ensures
        forall|i: int| 0 <= i < trim_start(s).len() ==> !is_path_separator(#[trigger] trim_start(s)[i]),
    decreases s.len(),
{
    if s.len() > 0 && is_whitespace(s[0]) {
        let t = s.drop_first();
        assert forall|i: int| 0 <= i < t.len() implies !is_path_separator(#[trigger] t[i]) by {
            assert(t[i] == s[i + 1]);
        }
        lemma_trim_start_keeps(t);
        assert(trim_start(s) == trim_start(t));
    } else {
        assert(trim_start(s) == s);
    }
}

proof fn lemma_trim_end_keeps(s: Seq<char>)
    requires
        forall|i: int| 0 <= i < s.len() ==> !is_path_separator(#[trigger] s[i]),
    ensures
        forall|i: int| 0 <= i < trim_end(s).len() ==> !is_path_separator(#[trigger] trim_end(s)[i]),
    decreases s.len(),
{
    if s.len() > 0 && is_whitespace(s.last()) {
        let t = s.drop_last();
        assert forall|i: int| 0 <= i < t.len() implies !is_path_separator(#[trigger] t[i]) by {
            assert(t[i] == s[i]);
        }
        lemma_trim_end_keeps(t);
        assert(trim_end(s) == trim_end(t));
    } else {
        assert(trim_end(s) == s);
    }
}

/// Zip-slip defense: whatever the stored name, its archive segment is one
/// non-empty path segment with no `/` or `\\`, and neither `.` nor `..`.
pub proof fn lemma_safe_segment_stays_inside(name: Seq<char>)
    ensures
        safe_segment(name).len() > 0,
        forall|i: int|
            0 <= i < safe_segment(name).len() ==> !is_path_separator(#[trigger] safe_segment(name)[i]),
        safe_segment(name) != "."@,
        safe_segment(name) != ".."@,
{
    reveal_strlit("blob");
    reveal_strlit(".");
    reveal_strlit("..");
    lemma_last_segment_no_separator(name);
    lemma_trim_start_keeps(last_segment(name));
    lemma_trim_end_keeps(trim_start(last_segment(name)));
    let b = "blob"@;
    if safe_segment(name) == b {
        assert forall|i: int| 0 <= i < b.len() implies !is_path_separator(#[trigger] b[i]) by {}
        assert(b[0] == 'b');
    }
}

/// Flattens an untrusted name into a single safe archive path segment.
pub fn sanitize_archive_segment(name: &str) -> (r: String)
    ensures
        r@ == safe_segment(name@),
{
    proof {
        reveal_strlit(".");
        reveal_strlit("..");
        reveal_strlit("blob");
    }
    let v = chars_of(name);
    let mut k: usize = v.len();
    while k > 0 && !(v[k - 1] == '/' || v[k - 1] == '\\')
        invariant
            k <= v@.len(),
            forall|j: int| k <= j < v@.len() ==> !is_path_separator(#[trigger] v@[j]),
        decreases k,
    {
        k -= 1;
    }
    proof {
        lemma_last_segment_from(v@, k as int);
    }
    let last = trim_chars(vstd::slice::slice_subrange(v.as_slice(), k, v.len()));
    let is_dot = last.len() == 1 && last[0] == '.';
    let is_dotdot = last.len() == 2 && last[0] == '.' && last[1] == '.';
    proof {
        if is_dot {
            assert(last@ =~= "."@);
        }
        if last@ == "."@ {
            assert(last@[0] == '.');
        }
        if is_dotdot {
            assert(last@ =~= ".."@);
        }
        if last@ == ".."@ {
            assert(last@[0] == '.' && last@[1] == '.');
        }
    }
    if last.len() == 0 || is_dot || is_dotdot {
        str_to_string("blob")
    } else {
        string_from(last.as_slice())
    }
}

/// Builds the archive member name for one file blob:
/// `files/<field>/<entity_id>/<filename>`, with the filename flattened to
/// one safe segment (zip-slip defense).
pub fn blob_member_name(field: &str, entity_id: &str, filename: &str) -> (r: String)
    ensures
        r@ == blob_member_spec(field@, entity_id@, filename@),
{
    let safe = sanitize_archive_segment(filename);
    let mut r = str_to_string(BUNDLE_FILES_DIR);
    push_str(&mut r, "/");
    push_str(&mut r, field);
    push_str(&mut r, "/");
    push_str(&mut r, entity_id);
    push_str(&mut r, "/");
    push_str(&mut r, safe.as_str());
    proof {
        reveal_strlit("files");
        reveal_strlit("/");
        reveal_strlit("files/");
        assert("files"@ + "/"@ =~= "files/"@);
    }
    assert(r@ =~= blob_member_spec(field@, entity_id@, filename@));
    r
}

/// The scan state of a stored file.
#[derive(Debug, Clone, Copy, PartialEq, Eq, Structural)]
pub enum FileStatus {
    Pending,
    Scanning,
    Available,
    Quarantined,
    Rejected,
}

/// A stored file attachment: its object-storage key and scan state.
#[derive(Debug, Clone)]
pub struct FileAttachment {
    pub key: String,
    pub status: FileStatus,
}

/// An exported entity, as the bundler reads it: its id, and for each of its
/// fields that holds file attachments, the attachments that field's value
/// decodes to. A field stripped for read access is simply absent.
#[derive(Debug, Clone)]
pub struct ExportRow {
    pub id: String,
    pub files: Vec<(String, Vec<FileAttachment>)>,
}

/// Blob references as (key, member name).
pub open spec fn refs_view(refs: Seq<FileBlobRef>) -> Seq<(Seq<char>, Seq<char>)> {
    refs.map_values(|r: FileBlobRef| (r.key@, r.member_name@))
}

/// The references one field value contributes: its available attachments,
/// in order.
pub open spec fn attachment_refs(field: Seq<char>, id: Seq<char>, atts: Seq<FileAttachment>) -> Seq<
    (Seq<char>, Seq<char>),
>
    decreases atts.len(),
{
    if atts.len() == 0 {
        Seq::empty()
    } else {
        let rest = attachment_refs(field, id, atts.drop_last());
        let a = atts.last();
        if a.status == FileStatus::Available {
            rest.push((a.key@, blob_member_spec(field, id, a.key@)))
        } else {
            rest
        }
    }
}

/// The attachments a row holds in field `name`; none when absent.
pub open spec fn row_files(files: Seq<(String, Vec<FileAttachment>)>, name: Seq<char>) -> Seq<FileAttachment>
    decreases files.len(),
{
    if files.len() == 0 {
        Seq::empty()
    } else if files[0].0@ == name {
        files[0].1@
    } else {
        row_files(files.drop_first(), name)
    }
}

/// The references field `field` contributes over all rows, row by row.
pub open spec fn column_refs(field: Seq<char>, rows: Seq<ExportRow>) -> Seq<(Seq<char>, Seq<char>)>
    decreases rows.len(),
{
    if rows.len() == 0 {
        Seq::empty()
    } else {
        column_refs(field, rows.drop_last()) + attachment_refs(
            field,
            rows.last().id@,
            row_files(rows.last().files@, field),
        )
    }
}

/// The schema's field named `name` (its first such field) is a `file` field.
pub open spec fn is_file_field(fields: Seq<FieldDefinition>, name: Seq<char>) -> bool
    decreases fields.len(),
{
    if fields.len() == 0 {
        false
    } else if fields[0].name@ == name {
        fields[0].field_type is File
    } else {
        is_file_field(fields.drop_first(), name)
    }
}

/// The blob references of an export: column by column, the `file` columns'
/// references.
pub open spec fn blob_refs(rows: Seq<ExportRow>, fields: Seq<FieldDefinition>, columns: Seq<String>) -> Seq<
    (Seq<char>, Seq<char>),
>
    decreases columns.len(),
{
    if columns.len() == 0 {
        Seq::empty()
    } else {
        let rest = blob_refs(rows, fields, columns.drop_last());
        let c = columns.last()@;
        if is_file_field(fields, c) {
            rest + column_refs(c, rows)
        } else {
            rest
        }
    }
}

fn find_file_field(fields: &[FieldDefinition], name: &str) -> (b: bool)
    ensures
        b == is_file_field(fields@, name@),
{
    let wanted = str_to_string(name);
    let mut i: usize = 0;
    assert(fields@.subrange(0, fields@.len() as int) =~= fields@);
    while i < fields.len()
        invariant
            i <= fields@.len(),
            wanted@ == name@,
            is_file_field(fields@, name@) == is_file_field(fields@.subrange(i as int, fields@.len() as int), name@),
        decreases fields@.len() - i,
    {
        let ghost rest = fields@.subrange(i as int, fields@.len() as int);
        assert(rest.drop_first() =~= fields@.subrange(i + 1, fields@.len() as int));
        if fields[i].name == wanted {
            return match fields[i].field_type {
                FieldType::File(_) => true,
                _ => false,
            };
        }
        i += 1;
    }
    false
}

fn find_row_files(files: &[(String, Vec<FileAttachment>)], name: &str) -> (r: Option<usize>)
    ensures
        match r {
            Some(k) => k < files@.len() && row_files(files@, name@) == files@[k as int].1@,
            None => row_files(files@, name@) == Seq::<FileAttachment>::empty(),
        },
{
    let wanted = str_to_string(name);
    let mut i: usize = 0;
    assert(files@.subrange(0, files@.len() as int) =~= files@);
    while i < files.len()
        invariant
            i <= files@.len(),
            wanted@ == name@,
            row_files(files@, name@) == row_files(files@.subrange(i as int, files@.len() as int), name@),
        decreases files@.len() - i,
    {
        let ghost rest = files@.subrange(i as int, files@.len() as int);
        assert(rest.drop_first() =~= files@.subrange(i + 1, files@.len() as int));
        if files[i].0 == wanted {
            return Some(i);
        }
        i += 1;
    }
    None
}

fn push_attachment_refs(refs: &mut Vec<FileBlobRef>, field: &str, id: &str, atts: &[FileAttachment])
    ensures
        refs_view(final(refs)@) == refs_view(old(refs)@) + attachment_refs(field@, id@, atts@),
{
    let ghost start = refs_view(refs@);
    let mut i: usize = 0;
    while i < atts.len()
        invariant
            i <= atts@.len(),
            refs_view(refs@) == start + attachment_refs(field@, id@, atts@.subrange(0, i as int)),
        decreases atts@.len() - i,
    {
        let ghost pre = atts@.subrange(0, i + 1);
        assert(pre.drop_last() =~= atts@.subrange(0, i as int));
        let a = &atts[i];
        let available = match a.status {
            FileStatus::Available => true,
            _ => false,
        };
        if available {
            let member_name = blob_member_name(field, id, a.key.as_str());
            let ghost before = refs@;
            refs.push(FileBlobRef { key: a.key.clone(), member_name });
            assert(refs_view(refs@) =~= refs_view(before).push(refs_view(refs@).last()));
        }
        i += 1;
        assert(refs_view(refs@) =~= start + attachment_refs(field@, id@, atts@.subrange(0, i as int)));
    }
    assert(atts@.subrange(0, i as int) =~= atts@);
}

fn push_column_refs(refs: &mut Vec<FileBlobRef>, field: &str, rows: &[ExportRow])
    ensures
        refs_view(final(refs)@) == refs_view(old(refs)@) + column_refs(field@, rows@),
{
    let ghost start = refs_view(refs@);
    let mut i: usize = 0;
    while i < rows.len()
        invariant
            i <= rows@.len(),
            refs_view(refs@) == start + column_refs(field@, rows@.subrange(0, i as int)),
        decreases rows@.len() - i,
    {
        let ghost pre = rows@.subrange(0, i + 1);
        assert(pre.drop_last() =~= rows@.subrange(0, i as int));
        let row = &rows[i];
        let ghost mid = refs_view(refs@);
        match find_row_files(row.files.as_slice(), field) {
            Some(k) => push_attachment_refs(refs, field, row.id.as_str(), row.files[k].1.as_slice()),
            None => {
                let empty: Vec<FileAttachment> = Vec::new();
                push_attachment_refs(refs, field, row.id.as_str(), empty.as_slice());
            },
        }
        i += 1;
        assert(refs_view(refs@) =~= start + column_refs(field@, rows@.subrange(0, i as int)));
    }
    assert(rows@.subrange(0, i as int) =~= rows@);
}

/// The blobs an export bundles: for each exported column (in order) that
/// is a `file` field of the schema, each row's attachments in that field
/// (row by row, in order) whose scan state is available, each under its
/// member name `files/<field>/<entity id>/<file name>`. A field a row does
/// not carry (stripped for read access) contributes nothing, and neither
/// does a column that is not a `file` field.
pub fn collect_file_blob_refs(rows: &[ExportRow], schema: &SchemaDefinition, columns: &[String]) -> (r: Vec<
    FileBlobRef,
>)
    ensures
        refs_view(r@) == blob_refs(rows@, schema.fields@, columns@),
{
    let mut refs: Vec<FileBlobRef> = Vec::new();
    let mut i: usize = 0;
    assert(refs_view(refs@) =~= Seq::empty());
    while i < columns.len()
        invariant
            i <= columns@.len(),
            refs_view(refs@) == blob_refs(rows@, schema.fields@, columns@.subrange(0, i as int)),
        decreases columns@.len() - i,
    {
        let ghost pre = columns@.subrange(0, i + 1);
        assert(pre.drop_last() =~= columns@.subrange(0, i as int));
        let name = columns[i].as_str();
        if find_file_field(schema.fields.as_slice(), name) {
            push_column_refs(&mut refs, name, rows);
        }
        i += 1;
    }
    assert(columns@.subrange(0, i as int) =~= columns@);
    refs
}

/// `key` is the key of an available attachment that some row holds in
/// some exported column that is a `file` field of the schema.
pub open spec fn exported_available_key(
    rows: Seq<ExportRow>,
    fields: Seq<FieldDefinition>,
    columns: Seq<String>,
    key: Seq<char>,
) -> bool {
    exists|c: int, r: int, a: int|
        #![trigger row_files(rows[r].files@, columns[c]@)[a]]
        0 <= c < columns.len() && is_file_field(fields, columns[c]@) && 0 <= r < rows.len() && 0 <= a
            < row_files(rows[r].files@, columns[c]@).len() && row_files(rows[r].files@, columns[c]@)[a].key@
            == key && row_files(rows[r].files@, columns[c]@)[a].status == FileStatus::Available
}

proof fn lemma_attachment_ref_at(field: Seq<char>, id: Seq<char>, atts: Seq<FileAttachment>, j: int) -> (a: int)
    requires
        0 <= j < attachment_refs(field, id, atts).len(),
    ensures
        0 <= a < atts.len(),
        atts[a].key@ == attachment_refs(field, id, atts)[j].0,
        atts[a].status == FileStatus::Available,
    decreases atts.len(),
{
    let init = atts.drop_last();
    let rest = attachment_refs(field, id, init);
    let last = atts.last();
    if j < rest.len() {
        if last.status == FileStatus::Available {
            assert(attachment_refs(field, id, atts) == rest.push((last.key@, blob_member_spec(field, id, last.key@))));
        } else {
            assert(attachment_refs(field, id, atts) == rest);
        }
        let a = lemma_attachment_ref_at(field, id, init, j);
        assert(atts[a] == init[a]);
        a
    } else {
        assert(last.status == FileStatus::Available);
        assert(attachment_refs(field, id, atts) == rest.push((last.key@, blob_member_spec(field, id, last.key@))));
        assert(attachment_refs(field, id, atts)[j] == (last.key@, blob_member_spec(field, id, last.key@)));
        atts.len() - 1
    }
}

proof fn lemma_column_ref_at(field: Seq<char>, rows: Seq<ExportRow>, j: int) -> (ra: (int, int))
    requires
        0 <= j < column_refs(field, rows).len(),
    ensures
        0 <= ra.0 < rows.len(),
        0 <= ra.1 < row_files(rows[ra.0].files@, field).len(),
        row_files(rows[ra.0].files@, field)[ra.1].key@ == column_refs(field, rows)[j].0,
        row_files(rows[ra.0].files@, field)[ra.1].status == FileStatus::Available,
    decreases rows.len(),
{
    let init = rows.drop_last();
    let last = rows.last();
    let head = column_refs(field, init);
    let tail = attachment_refs(field, last.id@, row_files(last.files@, field));
    assert(column_refs(field, rows) == head + tail);
    if j < head.len() {
        assert(column_refs(field, rows)[j] == head[j]);
        let (r, a) = lemma_column_ref_at(field, init, j);
        assert(rows[r] == init[r]);
        (r, a)
    } else {
        assert(column_refs(field, rows)[j] == tail[j - head.len()]);
        let a = lemma_attachment_ref_at(field, last.id@, row_files(last.files@, field), j - head.len());
        assert(rows[rows.len() - 1] == last);
        (rows.len() - 1, a)
    }
}

/// Law: a bundle never widens what the export already shows. Every blob
/// the bundle pulls is an available attachment (never a pending, scanning,
/// quarantined or rejected one) that some exported row holds in some
/// exported column that is a `file` field.
pub proof fn lemma_bundle_never_widens(rows: Seq<ExportRow>, fields: Seq<FieldDefinition>, columns: Seq<String>)
    ensures
        forall|j: int|
            0 <= j < blob_refs(rows, fields, columns).len() ==> exported_available_key(
                rows,
                fields,
                columns,
                (#[trigger] blob_refs(rows, fields, columns)[j]).0,
            ),
    decreases columns.len(),
{
    if columns.len() > 0 {
        let init = columns.drop_last();
        let c = columns.last()@;
        lemma_bundle_never_widens(rows, fields, init);
        let rest = blob_refs(rows, fields, init);
        assert forall|j: int| 0 <= j < blob_refs(rows, fields, columns).len() implies exported_available_key(
            rows,
            fields,
            columns,
            (#[trigger] blob_refs(rows, fields, columns)[j]).0,
        ) by {
            if j < rest.len() {
                if is_file_field(fields, c) {
                    assert(blob_refs(rows, fields, columns) == rest + column_refs(c, rows));
                }
                assert(blob_refs(rows, fields, columns)[j] == rest[j]);
                assert(exported_available_key(rows, fields, init, rest[j].0));
                let (ci, r, a) = choose|ci: int, r: int, a: int|
                    #![trigger row_files(rows[r].files@, init[ci]@)[a]]
                    0 <= ci < init.len() && is_file_field(fields, init[ci]@) && 0 <= r < rows.len() && 0 <= a
                        < row_files(rows[r].files@, init[ci]@).len() && row_files(rows[r].files@, init[ci]@)[a].key@
                        == rest[j].0 && row_files(rows[r].files@, init[ci]@)[a].status == FileStatus::Available;
                assert(columns[ci] == init[ci]);
                assert(row_files(rows[r].files@, columns[ci]@)[a].key@ == rest[j].0);
            } else {
                assert(is_file_field(fields, c));
                assert(blob_refs(rows, fields, columns) == rest + column_refs(c, rows));
                let k = j - rest.len();
                assert(blob_refs(rows, fields, columns)[j] == column_refs(c, rows)[k]);
                let (r, a) = lemma_column_ref_at(c, rows, k);
                let ci = columns.len() - 1;
                assert(columns[ci]@ == c);
                assert(row_files(rows[r].files@, columns[ci]@)[a].key@ == column_refs(c, rows)[k].0);
            }
        }
    }
}

/// The bundle's data-file member name: `<schema>.<extension>`.
pub fn data_member_name(schema_name: &str, extension: &str) -> (r: String)
    ensures
        r@ == schema_name@ + "."@ + extension@,
{
    let mut r = str_to_string(schema_name);
    push_str(&mut r, ".");
    push_str(&mut r, extension);
    r
}

// ---------------------------------------------------------------------------
// Archive writing
// ---------------------------------------------------------------------------

/// How a member's bytes are stored in an archive.
#[derive(Debug, Clone, Copy, PartialEq, Eq)]
pub enum ZipCompression {
    Stored,
    Deflated,
}

/// A zip writer over an in-memory buffer: the members written so far, as
/// `zip_members` names them, the compression its members get, as
/// `zip_method` names it, and the archive they will make.
#[verifier::external_body]
pub struct ArchiveWriter {
    writer: ZipWriter<Cursor<Vec<u8>>>,
    method: zip::CompressionMethod,
}

/// Names the compression a zip writer gives its members (the one it was
/// made with).
pub uninterp spec fn zip_method(w: ArchiveWriter) -> ZipCompression;

/// Names the members a zip writer holds so far, in order: each one's name
/// and the bytes written to it.
pub uninterp spec fn zip_members(w: ArchiveWriter) -> Seq<(Seq<char>, Seq<u8>)>;

/// Names the archive bytes zip writes for a member list, each member
/// compressed by `method` (with the default fixed timestamp).
pub uninterp spec fn zip_archive_bytes(method: ZipCompression, members: Seq<(Seq<char>, Seq<u8>)>) -> Seq<u8>;

/// Names whether zip starts a member named `name`, compressed by `method`,
/// on an in-memory writer that holds `members`.
pub uninterp spec fn zip_start_ok(method: ZipCompression, members: Seq<(Seq<char>, Seq<u8>)>, name: Seq<char>) -> bool;

/// Names whether zip writes `bytes` into the last member of an in-memory
/// writer that holds `members`, compressed by `method`.
pub uninterp spec fn zip_write_ok(method: ZipCompression, members: Seq<(Seq<char>, Seq<u8>)>, bytes: Seq<u8>) -> bool;

/// Names whether zip finishes an in-memory archive of `members`, compressed
/// by `method`.
pub uninterp spec fn zip_finish_ok(method: ZipCompression, members: Seq<(Seq<char>, Seq<u8>)>) -> bool;

/// Every member of `members`, in order, starts and is written without a
/// zip error.
pub open spec fn zip_steps_ok(method: ZipCompression, members: Seq<(Seq<char>, Seq<u8>)>) -> bool
    decreases members.len(),
{
    if members.len() == 0 {
        true
    } else {
        let pre = members.drop_last();
        &&& zip_steps_ok(method, pre)
        &&& zip_start_ok(method, pre, members.last().0)
        &&& zip_write_ok(method, pre.push((members.last().0, Seq::empty())), members.last().1)
    }
}

/// Writing `members` into a fresh in-memory archive, then finishing it,
/// raises no zip error.
pub open spec fn zip_writes_ok(method: ZipCompression, members: Seq<(Seq<char>, Seq<u8>)>) -> bool {
    zip_steps_ok(method, members) && zip_finish_ok(method, members)
}

proof fn lemma_zip_steps_prefix(method: ZipCompression, members: Seq<(Seq<char>, Seq<u8>)>, k: int)
    requires
        0 <= k <= members.len(),
        zip_steps_ok(method, members),
    ensures
        zip_steps_ok(method, members.subrange(0, k)),
    decreases members.len(),
{
    if k < members.len() {
        assert(members.drop_last() =~= members.subrange(0, members.len() - 1));
        lemma_zip_steps_prefix(method, members.drop_last(), k);
        assert(members.drop_last().subrange(0, k) =~= members.subrange(0, k));
    } else {
        assert(members.subrange(0, k) =~= members);
    }
}

/// zip `ZipWriter::new` over an empty in-memory cursor: no members yet;
/// its members will be compressed by `method`.
#[verifier::external_body]
fn zip_writer_new(method: ZipCompression) -> (w: ArchiveWriter)
    ensures
        zip_members(w) == Seq::<(Seq<char>, Seq<u8>)>::empty(),
        zip_method(w) == method,
{
    let method = match method {
        ZipCompression::Stored => zip::CompressionMethod::Stored,
        ZipCompression::Deflated => zip::CompressionMethod::Deflated,
    };
    ArchiveWriter { writer: ZipWriter::new(Cursor::new(Vec::new())), method }
}

proof fn lemma_zip_step_fails(method: ZipCompression, members: Seq<(Seq<char>, Seq<u8>)>, j: int)
    requires
        0 <= j < members.len(),
        !(zip_start_ok(method, members.subrange(0, j), members[j].0) && zip_write_ok(method,
            members.subrange(0, j).push((members[j].0, Seq::empty())),
            members[j].1,
        )),
    ensures
        forall|k: int| j < k <= members.len() ==> !zip_steps_ok(method, #[trigger] members.subrange(0, k)),
        !zip_writes_ok(method, members),
{
    assert forall|k: int| j < k <= members.len() implies !zip_steps_ok(method, #[trigger] members.subrange(0, k)) by {
        if zip_steps_ok(method, members.subrange(0, k)) {
            lemma_zip_steps_prefix(method, members.subrange(0, k), j + 1);
            let p = members.subrange(0, k).subrange(0, j + 1);
            assert(p =~= members.subrange(0, j + 1));
            assert(p.drop_last() =~= members.subrange(0, j));
            assert(p.last() == members[j]);
        }
    }
    assert(members.subrange(0, members.len() as int) =~= members);
}

/// zip `ZipWriter::start_file`, with the writer's compression: it succeeds
/// as `zip_start_ok` names, and then a new, empty member named `name`
/// follows the earlier ones. The error text is the zip error's display.
#[verifier::external_body]
fn zip_start_file(w: &mut ArchiveWriter, name: &str) -> (r: Result<(), String>)
    ensures
        r is Ok <==> zip_start_ok(zip_method(*old(w)), zip_members(*old(w)), name@),
        r is Ok ==> zip_members(*final(w)) == zip_members(*old(w)).push((name@, Seq::<u8>::empty())),
        zip_method(*final(w)) == zip_method(*old(w)),
{
    let options = zip::write::SimpleFileOptions::default().compression_method(w.method);
    match w.writer.start_file(name, options) {
        Ok(()) => Ok(()),
        Err(e) => Err(e.to_string()),
    }
}

/// std `Write::write_all` on a zip writer: on success `bytes` are appended
/// to the member being written (the last one); the earlier members stay.
#[verifier::external_body]
fn zip_write_all(w: &mut ArchiveWriter, bytes: &[u8]) -> (r: Result<(), String>)
    requires
        zip_members(*old(w)).len() > 0,
    ensures
        r is Ok <==> zip_write_ok(zip_method(*old(w)), zip_members(*old(w)), bytes@),
        zip_method(*final(w)) == zip_method(*old(w)),
        r is Ok ==> {
            let before = zip_members(*old(w));
            let n = before.len() - 1;
            zip_members(*final(w)) == before.update(n, (before[n].0, before[n].1 + bytes@))
        },
{
    match std::io::Write::write_all(&mut w.writer, bytes) {
        Ok(()) => Ok(()),
        Err(e) => Err(e.to_string()),
    }
}

/// zip `ZipWriter::finish`, then the cursor's buffer: on success the
/// archive bytes of the members written, as `zip_archive_bytes` names them.
#[verifier::external_body]
fn zip_finish(w: ArchiveWriter) -> (r: Result<Vec<u8>, String>)
    ensures
        r is Ok <==> zip_finish_ok(zip_method(w), zip_members(w)),
        r matches Ok(b) ==> b@ == zip_archive_bytes(zip_method(w), zip_members(w)),
{
    match w.writer.finish() {
        Ok(cursor) => Ok(cursor.into_inner()),
        Err(e) => Err(e.to_string()),
    }
}

/// The members of `entries` as (name, bytes) views.
pub open spec fn bundle_members(entries: Seq<BundleEntry>) -> Seq<(Seq<char>, Seq<u8>)> {
    entries.map_values(|e: BundleEntry| (e.name@, e.bytes@))
}

/// No member name occurs twice among the first `n` entries.
pub open spec fn names_distinct_upto(entries: Seq<BundleEntry>, n: int) -> bool {
    forall|a: int, b: int| 0 <= a < b < n ==> entries[a].name@ != entries[b].name@
}

/// Entry `j` is the first whose name repeats an earlier entry's.
pub open spec fn first_repeat(entries: Seq<BundleEntry>, j: int) -> bool {
    &&& 0 <= j < entries.len()
    &&& exists|i: int| 0 <= i < j && entries[i].name@ == entries[j].name@
    &&& names_distinct_upto(entries, j)
}

/// The error text for a repeated member name.
pub open spec fn duplicate_message(name: Seq<char>) -> Seq<char> {
    "duplicate bundle member '"@ + name + "'"@
}

/// Whether `entries[j]`'s name occurs among `entries[..j]`.
fn repeats_earlier(entries: &[BundleEntry], j: usize) -> (b: bool)
    requires
        j < entries@.len(),
    ensures
        b == exists|i: int| 0 <= i < j && entries@[i].name@ == entries@[j as int].name@,
{
    let mut i: usize = 0;
    while i < j
        invariant
            i <= j < entries@.len(),
            forall|k: int| 0 <= k < i ==> entries@[k].name@ != entries@[j as int].name@,
        decreases j - i,
    {
        if entries[i].name == entries[j].name {
            return true;
        }
        i += 1;
    }
    false
}

/// A zip failure while writing entry `j` (whose name does not repeat an
/// earlier one) rules out success and every later first repeat.
proof fn failure_after(entries: Seq<BundleEntry>, j: int, before: Seq<(Seq<char>, Seq<u8>)>)
    requires
        0 <= j < entries.len(),
        names_distinct_upto(entries, j),
        !(exists|i: int| 0 <= i < j && entries[i].name@ == entries[j].name@),
        before == bundle_members(entries).subrange(0, j),
        !(zip_start_ok(ZipCompression::Deflated, before, entries[j].name@) && zip_write_ok(ZipCompression::Deflated,
            before.push((entries[j].name@, Seq::empty())),
            entries[j].bytes@,
        )),
    ensures
        !zip_writes_ok(ZipCompression::Deflated, bundle_members(entries)),
        forall|k: int|
            first_repeat(entries, k) ==> !zip_steps_ok(ZipCompression::Deflated, #[trigger] bundle_members(entries).subrange(0, k)),
{
    let m = bundle_members(entries);
    assert(m[j] == (entries[j].name@, entries[j].bytes@));
    lemma_zip_step_fails(ZipCompression::Deflated, m, j);
    assert forall|k: int| first_repeat(entries, k) implies !zip_steps_ok(ZipCompression::Deflated,
        #[trigger] bundle_members(entries).subrange(0, k),
    ) by {
        if k <= j {
            let i = choose|i: int| 0 <= i < k && entries[i].name@ == entries[k].name@;
            if k < j {
                assert(entries[i].name@ != entries[k].name@);
            }
        }
        assert(j < k <= m.len());
        assert(!zip_steps_ok(ZipCompression::Deflated, m.subrange(0, k)));
    }
}

/// Assembles `entries` into one in-memory ZIP archive, each member
/// Deflate-compressed, in the order given. A repeated member name is an
/// error naming it; a failure of the zip writer is an error starting with
/// `zip `.
pub fn build_zip_bundle(entries: &[BundleEntry]) -> (r: Result<Vec<u8>, String>)
    ensures
        match r {
            Ok(b) => names_distinct_upto(entries@, entries@.len() as int) && b@ == zip_archive_bytes(
                ZipCompression::Deflated,
                bundle_members(entries@),
            ),
            Err(m) => (exists|j: int|
                first_repeat(entries@, j) && m@ == duplicate_message(entries@[j].name@)) || has_prefix(
                m@,
                "zip "@,
            ),
        },
        forall|j: int| first_repeat(entries@, j) ==> r is Err,
        r is Ok <==> names_distinct_upto(entries@, entries@.len() as int) && zip_writes_ok(ZipCompression::Deflated,
            bundle_members(entries@),
        ),
        forall|j: int|
            first_repeat(entries@, j) && zip_steps_ok(ZipCompression::Deflated, bundle_members(entries@).subrange(0, j)) ==> (
            r matches Err(m) && m@ == duplicate_message(entries@[j].name@)),
{
    let mut w = zip_writer_new(ZipCompression::Deflated);
    let mut j: usize = 0;
    while j < entries.len()
        invariant
            j <= entries@.len(),
            names_distinct_upto(entries@, j as int),
            zip_members(w) == bundle_members(entries@).subrange(0, j as int),
            zip_method(w) == ZipCompression::Deflated,
            zip_steps_ok(ZipCompression::Deflated, bundle_members(entries@).subrange(0, j as int)),
        decreases entries@.len() - j,
    {
        if repeats_earlier(entries, j) {
            let mut m = str_to_string("duplicate bundle member '");
            push_str(&mut m, entries[j].name.as_str());
            push_str(&mut m, "'");
            proof {
                assert(first_repeat(entries@, j as int));
                assert(m@ =~= duplicate_message(entries@[j as int].name@));
                let i0 = choose|i: int| 0 <= i < j && entries@[i].name@ == entries@[j as int].name@;
                assert(!names_distinct_upto(entries@, entries@.len() as int)) by {
                    assert(0 <= i0 < j < entries@.len());
                }
                assert forall|k: int| first_repeat(entries@, k) implies k == j by {
                    if k < j {
                        let i = choose|i: int| 0 <= i < k && entries@[i].name@ == entries@[k].name@;
                        assert(!names_distinct_upto(entries@, j as int));
                    } else if k > j {
                        let i = choose|i: int| 0 <= i < j && entries@[i].name@ == entries@[j as int].name@;
                        assert(entries@[i].name@ == entries@[j as int].name@);
                    }
                }
            }
            return Err(m);
        }
        let ghost before = zip_members(w);
        match zip_start_file(&mut w, entries[j].name.as_str()) {
            Ok(()) => {},
            Err(e) => {
                let mut m = str_to_string("zip start_file '");
                push_str(&mut m, entries[j].name.as_str());
                push_str(&mut m, "' failed: ");
                push_str(&mut m, e.as_str());
                proof {
                    reveal_strlit("zip ");
                    reveal_strlit("zip start_file '");
                    assert(m@.subrange(0, 4) =~= "zip "@);
                    failure_after(entries@, j as int, before);
                }
                return Err(m);
            },
        }
        match zip_write_all(&mut w, entries[j].bytes.as_slice()) {
            Ok(()) => {},
            Err(e) => {
                let mut m = str_to_string("zip write '");
                push_str(&mut m, entries[j].name.as_str());
                push_str(&mut m, "' failed: ");
                push_str(&mut m, e.as_str());
                proof {
                    reveal_strlit("zip ");
                    reveal_strlit("zip write '");
                    assert(m@.subrange(0, 4) =~= "zip "@);
                    failure_after(entries@, j as int, before);
                }
                return Err(m);
            },
        }
        proof {
            assert(zip_members(w) =~= bundle_members(entries@).subrange(0, j + 1));
            let nx = bundle_members(entries@).subrange(0, j + 1);
            assert(nx.drop_last() =~= before);
            assert(nx.last() == (entries@[j as int].name@, entries@[j as int].bytes@));
        }
        j += 1;
    }
    assert(bundle_members(entries@).subrange(0, entries@.len() as int) =~= bundle_members(entries@));
    match zip_finish(w) {
        Ok(b) => Ok(b),
        Err(e) => {
            let mut m = str_to_string("zip finish failed: ");
            push_str(&mut m, e.as_str());
            proof {
                reveal_strlit("zip ");
                reveal_strlit("zip finish failed: ");
                assert(m@.subrange(0, 4) =~= "zip "@);
            }
            Err(m)
        },
    }
}

} // verus!
