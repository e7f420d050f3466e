use vstd::prelude::*;
use crate::error::{CoreError, CoreResult};
use crate::text::{concat_str, str_equal, string_of};
use vstd::utf8::encode_utf8;
use flate2::read::GzDecoder;
use flate2::write::GzEncoder;
use flate2::Compression;
use std::io::Read;
use tar::{Archive, Builder, Header};

verus! {

/// What decompressing the gzip stream `data` gives: the bytes, or the
/// decoder's error message.
pub uninterp spec fn gunzipped(data: Seq<u8>) -> Result<Seq<u8>, Seq<char>>;

/// The entries of the tar archive `data`, in archive order: each entry's
/// path (its raw path bytes read as UTF-8, invalid sequences replaced) and
/// its content read as UTF-8 text; or the reader's error message.
pub uninterp spec fn tar_text_entries(data: Seq<u8>) -> Result<Seq<(Seq<char>, Seq<char>)>, Seq<char>>;

/// The gzip-compressed tar archive holding `files` (path, content) in order,
/// each with GNU headers and permission bits `mode`; or the writer's error
/// message.
pub uninterp spec fn tar_gz_packed(files: Seq<(Seq<char>, Seq<u8>)>, mode: u32) -> Result<Seq<u8>, Seq<char>>;

/// The abstract value of bytes or an error message.
pub open spec fn bytes_or_message(r: Result<Vec<u8>, String>) -> Result<Seq<u8>, Seq<char>> {
    match r {
        Ok(b) => Ok(b@),
        Err(m) => Err(m@),
    }
}

/// The abstract value of a list of (path, text) pairs.
pub open spec fn text_pairs(v: Seq<(String, String)>) -> Seq<(Seq<char>, Seq<char>)> {
    v.map_values(|p: (String, String)| (p.0@, p.1@))
}

/// The abstract value of a list of (path, bytes) pairs.
pub open spec fn byte_pairs(v: Seq<(String, Vec<u8>)>) -> Seq<(Seq<char>, Seq<u8>)> {
    v.map_values(|p: (String, Vec<u8>)| (p.0@, p.1@))
}

/// Decompresses a gzip stream with flate2's `GzDecoder` (`read_to_end`).
/// Claimed: the result is `gunzipped` of the input, the bytes or the
/// message of the `io::Error`.
#[verifier::external_body]
fn gunzip(data: &[u8]) -> (r: Result<Vec<u8>, String>)
    ensures
        bytes_or_message(r) == gunzipped(data@),
{
    let mut decoder = GzDecoder::new(data);
    let mut out = Vec::new();
    match decoder.read_to_end(&mut out) {
        Ok(_) => Ok(out),
        Err(e) => Err(e.to_string()),
    }
}

/// Reads the entries of a tar archive with tar's `Archive::entries`, each
/// entry's `path_bytes` (read with `String::from_utf8_lossy`) and its
/// content (`read_to_string`), stopping at the first `io::Error`. Claimed:
/// the result is `tar_text_entries` of the input.
#[verifier::external_body]
fn untar_texts(data: &[u8]) -> (r: Result<Vec<(String, String)>, String>)
    ensures
        match r {
            Ok(v) => tar_text_entries(data@) == Ok::<Seq<(Seq<char>, Seq<char>)>, Seq<char>>(text_pairs(v@)),
            Err(m) => tar_text_entries(data@) == Err::<Seq<(Seq<char>, Seq<char>)>, Seq<char>>(m@),
        },
{
    let mut archive = Archive::new(data);
    let mut out = Vec::new();
    for entry in archive.entries().map_err(|e| e.to_string())? {
        let mut entry = entry.map_err(|e| e.to_string())?;
        let path = String::from_utf8_lossy(&entry.path_bytes()).to_string();
        let mut content = String::new();
        entry.read_to_string(&mut content).map_err(|e| e.to_string())?;
        out.push((path, content));
    }
    Ok(out)
}

/// Writes files into a tar archive (tar's `Builder` over flate2's
/// `GzEncoder` at the default level; for each file a `Header::new_gnu` with
/// `set_path`, `set_size`, `set_mode`, `set_cksum`, then `append`), and
/// finishes both. Claimed: the result is `tar_gz_packed` of the files and
/// the mode, the bytes or the first `io::Error`'s message.
#[verifier::external_body]
fn tar_gz(files: &Vec<(String, Vec<u8>)>, mode: u32) -> (r: Result<Vec<u8>, String>)
    ensures
        bytes_or_message(r) == tar_gz_packed(byte_pairs(files@), mode),
{
    let mut tar = Builder::new(GzEncoder::new(Vec::new(), Compression::default()));
    for (name, data) in files.iter() {
        let mut header = Header::new_gnu();
        header.set_path(name).map_err(|e| e.to_string())?;
        header.set_size(data.len() as u64);
        header.set_mode(mode);
        header.set_cksum();
        tar.append(&header, &data[..]).map_err(|e| e.to_string())?;
    }
    let encoder = tar.into_inner().map_err(|e| e.to_string())?;
    encoder.finish().map_err(|e| e.to_string())
}

/// The four documents of a project file, each when present.
#[derive(Debug)]
pub struct BfArchiveTexts {
    pub metadata: Option<String>,
    pub styles: Option<String>,
    pub images: Option<String>,
    pub markers: Option<String>,
}

/// The content of the last entry named `name`, if any.
pub open spec fn last_named(entries: Seq<(Seq<char>, Seq<char>)>, name: Seq<char>) -> Option<Seq<char>>
    decreases entries.len(),
{
    if entries.len() == 0 {
        None
    } else if entries.last().0 == name {
        Some(entries.last().1)
    } else {
        last_named(entries.drop_last(), name)
    }
}

/// The abstract value of an optional text.
pub open spec fn opt_text(s: Option<String>) -> Option<Seq<char>> {
    match s {
        Some(t) => Some(t@),
        None => None,
    }
}

/// Whether `t` holds the documents of the archive entries `entries`.
pub open spec fn texts_of(t: BfArchiveTexts, entries: Seq<(Seq<char>, Seq<char>)>) -> bool {
    &&& opt_text(t.metadata) == last_named(entries, "metadata.json"@)
    &&& opt_text(t.styles) == last_named(entries, "styles.json"@)
    &&& opt_text(t.images) == last_named(entries, "images.json"@)
    &&& opt_text(t.markers) == last_named(entries, "markers.json"@)
}

/// The error for a project file that cannot be decompressed.
pub open spec fn is_decompress_error(e: CoreError, msg: Seq<char>) -> bool {
    e matches CoreError::ValidationFailed { field, reason } && field@ == "bf_file"@ && reason@
        == "Failed to decompress: "@ + msg
}

/// Takes the documents of a project file out of its bytes: the gzip stream
/// is decompressed (a failure is a validation error of `bf_file`), the tar
/// archive read (a failure is an I/O error), and for each document the last
/// entry of its name is kept.
pub fn read_bf_archive(data: &[u8]) -> (r: CoreResult<BfArchiveTexts>)
    ensures
        match gunzipped(data@) {
            Err(msg) => r matches Err(e) && is_decompress_error(e, msg),
            Ok(tar) => match tar_text_entries(tar) {
                Err(msg) => r matches Err(e) && e matches CoreError::IoError(m) && m@ == msg,
                Ok(entries) => r matches Ok(t) && texts_of(t, entries),
            },
        },
{
    let decompressed = match gunzip(data) {
        Ok(d) => d,
        Err(msg) => {
            let reason = concat_str("Failed to decompress: ", msg.as_str());
            proof {
                reveal_strlit("Failed to decompress: ");
            }
            return Err(CoreError::ValidationFailed { field: string_of("bf_file"), reason });
        },
    };
    let entries = match untar_texts(decompressed.as_slice()) {
        Ok(v) => v,
        Err(msg) => {
            return Err(CoreError::IoError(msg));
        },
    };
    let ghost ev = text_pairs(entries@);
    let mut texts = BfArchiveTexts { metadata: None, styles: None, images: None, markers: None };
    let mut i: usize = 0;
    while i < entries.len()
        invariant
            i <= entries@.len(),
            ev == text_pairs(entries@),
            texts_of(texts, ev.take(i as int)),
        decreases entries@.len() - i,
    {
        proof {
            assert(ev.take(i as int + 1).drop_last() =~= ev.take(i as int));
            assert(ev.take(i as int + 1).last() == (entries@[i as int].0@, entries@[i as int].1@));
            reveal_strlit("metadata.json");
            reveal_strlit("styles.json");
            reveal_strlit("images.json");
            reveal_strlit("markers.json");
            assert("metadata.json"@.len() == 13 && "styles.json"@.len() == 11);
            assert("images.json"@.len() == 11 && "markers.json"@.len() == 12);
            assert("styles.json"@[0] != "images.json"@[0]);
        }
        let path = entries[i].0.as_str();
        if str_equal(path, "metadata.json") {
            texts.metadata = Some(entries[i].1.clone());
        } else if str_equal(path, "styles.json") {
            texts.styles = Some(entries[i].1.clone());
        } else if str_equal(path, "images.json") {
            texts.images = Some(entries[i].1.clone());
        } else if str_equal(path, "markers.json") {
            texts.markers = Some(entries[i].1.clone());
        }
        i = i + 1;
    }
    assert(ev.take(entries@.len() as int) =~= ev);
    Ok(texts)
}

/// The error for a project file that lacks the document `name`.
pub open spec fn is_missing_member_error(e: CoreError, name: Seq<char>) -> bool {
    e matches CoreError::ValidationFailed { field, reason } && field@ == name && reason@ == "Missing "@ + name
        + " in BF file"@
}

/// A document of a project file, or the error that it is missing.
pub fn bf_member(text: Option<String>, name: &str) -> (r: CoreResult<String>)
    ensures
        match text {
            Some(t) => r matches Ok(s) && s@ == t@,
            None => r matches Err(e) && is_missing_member_error(e, name@),
        },
{
    match text {
        Some(t) => Ok(t),
        None => {
            let head = concat_str("Missing ", name);
            let reason = concat_str(head.as_str(), " in BF file");
            proof {
                reveal_strlit("Missing ");
                reveal_strlit(" in BF file");
            }
            Err(CoreError::ValidationFailed { field: string_of(name), reason })
        },
    }
}

/// The four documents of a project file with their names, in the order they
/// are written.
pub open spec fn bf_files(metadata: Seq<char>, styles: Seq<char>, images: Seq<char>, markers: Seq<char>) -> Seq<
    (Seq<char>, Seq<u8>),
> {
    seq![
        ("metadata.json"@, encode_utf8(metadata)),
        ("styles.json"@, encode_utf8(styles)),
        ("images.json"@, encode_utf8(images)),
        ("markers.json"@, encode_utf8(markers)),
    ]
}

/// The permission bits of the entries of a project file.
pub const BF_ENTRY_MODE: u32 = 0o644;

/// Packs the four documents of a project file into its bytes: a
/// gzip-compressed tar archive of `metadata.json`, `styles.json`,
/// `images.json` and `markers.json`, in that order (a failure is an I/O
/// error).
pub fn pack_bf_archive(metadata: &str, styles: &str, images: &str, markers: &str) -> (r: CoreResult<Vec<u8>>)
    ensures
        match tar_gz_packed(bf_files(metadata@, styles@, images@, markers@), BF_ENTRY_MODE) {
            Ok(bytes) => r matches Ok(b) && b@ == bytes,
            Err(msg) => r matches Err(e) && e matches CoreError::IoError(m) && m@ == msg,
        },
{
    let mut files: Vec<(String, Vec<u8>)> = Vec::new();
    files.push((string_of("metadata.json"), bytes_of(metadata)));
    files.push((string_of("styles.json"), bytes_of(styles)));
    files.push((string_of("images.json"), bytes_of(images)));
    files.push((string_of("markers.json"), bytes_of(markers)));
    proof {
        reveal_strlit("metadata.json");
        reveal_strlit("styles.json");
        reveal_strlit("images.json");
        reveal_strlit("markers.json");
        assert(byte_pairs(files@) =~= bf_files(metadata@, styles@, images@, markers@));
    }
    match tar_gz(&files, BF_ENTRY_MODE) {
        Ok(b) => Ok(b),
        Err(msg) => Err(CoreError::IoError(msg)),
    }
}

/// The UTF-8 bytes of a text, as a new vector.
fn bytes_of(s: &str) -> (r: Vec<u8>)
    ensures
        r@ == encode_utf8(s@),
{
    let b = s.as_bytes();
    let mut out: Vec<u8> = Vec::new();
    let mut i: usize = 0;
    while i < b.len()
        invariant
            i <= b@.len(),
            out@ == b@.take(i as int),
        decreases b@.len() - i,
    {
        out.push(b[i]);
        i = i + 1;
    }
    assert(b@.take(b@.len() as int) =~= b@);
    out
}

} // verus!
