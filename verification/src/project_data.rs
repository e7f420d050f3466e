use vstd::prelude::*;
use std::sync::Arc;
use crate::paths::{path_extension, path_extension_of};
use crate::text::{ascii_lower, chars_of, lower_equals, concat_str, lemma_ascii_lower_idempotent};
use crate::error::{CoreError, CoreResult};
use crate::opening_service::{utf8_error_text, utf8_text};
use vstd::utf8::{decode_utf8, valid_utf8};

verus! {

/// The kinds of project files.
#[derive(Debug, Clone, Copy, PartialEq, Eq, Structural)]
pub enum ProjectFormat {
    Labelplus,
    Bubblefish,
}

/// The format a file extension names, compared without regard to case
/// (`txt` and `lp` for LabelPlus text, `bf` for project archives). No
/// non-ASCII char lower-cases to a letter of these names, so comparing the
/// ASCII lower-casing gives the same answer as full lower-casing.
pub open spec fn project_format_of_extension(ext: Seq<char>) -> Option<ProjectFormat> {
    let l = ascii_lower(ext);
    if l == "txt"@ || l == "lp"@ {
        Some(ProjectFormat::Labelplus)
    } else if l == "bf"@ {
        Some(ProjectFormat::Bubblefish)
    } else {
        None
    }
}

/// The usual file extension of a format.
pub open spec fn format_extension(f: ProjectFormat) -> Seq<char> {
    match f {
        ProjectFormat::Labelplus => "txt"@,
        ProjectFormat::Bubblefish => "bf"@,
    }
}

/// A format's own extension names that format again.
pub proof fn law_extension_names_its_format(f: ProjectFormat)
    ensures
        project_format_of_extension(format_extension(f)) == Some(f),
{
    reveal_strlit("txt");
    reveal_strlit("lp");
    reveal_strlit("bf");
    match f {
        ProjectFormat::Labelplus => {
            assert(ascii_lower("txt"@) =~= "txt"@);
        },
        ProjectFormat::Bubblefish => {
            let l = ascii_lower("bf"@);
            assert(l =~= "bf"@);
            assert(l.len() != "txt"@.len());
            assert(l[0] != "lp"@[0]);
        },
    }
}

/// Matching an extension ignores case: an extension and its lower-casing
/// name the same format.
pub proof fn law_extension_ignores_case(ext: Seq<char>)
    ensures
        project_format_of_extension(ascii_lower(ext)) == project_format_of_extension(ext),
{
    lemma_ascii_lower_idempotent(ext);
}

impl ProjectFormat {
    /// The format named by a file extension (case-insensitive).
    pub fn from_extension(ext: &str) -> (r: Option<Self>)
        ensures
            r == project_format_of_extension(ext@),
    {
        let e = chars_of(ext);
        if lower_equals(&e, "txt") || lower_equals(&e, "lp") {
            Some(ProjectFormat::Labelplus)
        } else if lower_equals(&e, "bf") {
            Some(ProjectFormat::Bubblefish)
        } else {
            None
        }
    }

    /// The MIME type of the format.
    pub fn mime_type(&self) -> (r: &'static str)
        ensures
            r@ == (match *self {
                ProjectFormat::Labelplus => "text/plain"@,
                ProjectFormat::Bubblefish => "application/gzip"@,
            }),
    {
        match self {
            ProjectFormat::Labelplus => "text/plain",
            ProjectFormat::Bubblefish => "application/gzip",
        }
    }

    /// The usual file extension of the format.
    pub fn extension(&self) -> (r: &'static str)
        ensures
            r@ == format_extension(*self),
    {
        match self {
            ProjectFormat::Labelplus => "txt",
            ProjectFormat::Bubblefish => "bf",
        }
    }
}

/// Where the bytes of a project file are: a path, bytes in memory, or a
/// buffer shared with the front end.
#[derive(Debug)]
pub enum ProjectData {
    FilePath(String),
    Binary { format: ProjectFormat, data: Arc<Vec<u8>> },
    SharedBuffer { format: ProjectFormat, buffer_id: u32 },
}

/// The format of project data: the one recorded, or for a path the one its
/// extension names (LabelPlus when it names none).
pub open spec fn project_data_format(d: ProjectData) -> ProjectFormat {
    match d {
        ProjectData::Binary { format, .. } => format,
        ProjectData::SharedBuffer { format, .. } => format,
        ProjectData::FilePath(p) => match path_extension_of(p@) {
            Some(ext) => match project_format_of_extension(ext) {
                Some(f) => f,
                None => ProjectFormat::Labelplus,
            },
            None => ProjectFormat::Labelplus,
        },
    }
}

impl ProjectData {
    /// The format of the data (see `project_data_format`).
    pub fn get_format(&self) -> (r: ProjectFormat)
        ensures
            r == project_data_format(*self),
    {
        match self {
            ProjectData::Binary { format, .. } => *format,
            ProjectData::SharedBuffer { format, .. } => *format,
            ProjectData::FilePath(path) => match path_extension(path.as_str()) {
                Some(ext) => match ProjectFormat::from_extension(ext.as_str()) {
                    Some(f) => f,
                    None => ProjectFormat::Labelplus,
                },
                None => ProjectFormat::Labelplus,
            },
        }
    }

    /// The text of the data, given what reading its bytes gave (the reading
    /// is the caller's): a read error passes through; the bytes must be
    /// UTF-8, else the error is a serialization error.
    pub fn read_text(&self, read: CoreResult<Vec<u8>>) -> (r: CoreResult<String>)
        ensures
            match read {
                Err(e) => r == Err::<String, CoreError>(e),
                Ok(b) => if valid_utf8(b@) {
                    r matches Ok(s) && s@ == decode_utf8(b@)
                } else {
                    r matches Err(CoreError::SerializationError(m)) && m@ == "Invalid UTF-8: "@ + utf8_error_text(b@)
                },
            },
    {
        let data = match read {
            Ok(b) => b,
            Err(e) => {
                return Err(e);
            },
        };
        match utf8_text(data) {
            Ok(s) => Ok(s),
            Err(msg) => {
                let m = concat_str("Invalid UTF-8: ", msg.as_str());
                proof {
                    reveal_strlit("Invalid UTF-8: ");
                }
                Err(CoreError::SerializationError(m))
            },
        }
    }

    /// The bytes, when they are held in memory.
    pub fn get_data(&self) -> (r: Option<&Vec<u8>>)
        ensures
            match *self {
                ProjectData::Binary { data, .. } => r == Some(&*data),
                _ => r is None,
            },
    {
        match self {
            ProjectData::Binary { data, .. } => Some(&**data),
            _ => None,
        }
    }
}

} // verus!
