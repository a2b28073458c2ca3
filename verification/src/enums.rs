//! The two enumerations at the heart of the data model: the declared
//! category of an uploaded file and its lifecycle status.

use vstd::prelude::*;

use crate::text::{lower_chars, lowercase};
use vstd::string::StringExecFns;

verus! {

/// Declared category of an uploaded file.
#[derive(Clone, Copy, Debug, PartialEq, Eq, Structural)]
pub enum FileType {
    Avatar,
    Post,
    Reply,
    SectionIcon,
}

/// Lifecycle status of a file record. `Deleted` is terminal.
#[derive(Clone, Copy, Debug, PartialEq, Eq, Structural)]
pub enum FileStatus {
    Unused,
    Used,
    Deleted,
}

/// The canonical lower-case label of a file type.
pub open spec fn spec_file_type_label(t: FileType) -> Seq<char> {
    match t {
        FileType::Avatar => "avatar"@,
        FileType::Post => "post"@,
        FileType::Reply => "reply"@,
        FileType::SectionIcon => "section_icon"@,
    }
}

/// The file type a string parses to, after ASCII case folding;
/// "section-icon" is accepted as a synonym of "section_icon".
pub open spec fn spec_parse_file_type(s: Seq<char>) -> Option<FileType> {
    let l = lower_chars(s);
    if l == "avatar"@ {
        Some(FileType::Avatar)
    } else if l == "post"@ {
        Some(FileType::Post)
    } else if l == "reply"@ {
        Some(FileType::Reply)
    } else if l == "section_icon"@ || l == "section-icon"@ {
        Some(FileType::SectionIcon)
    } else {
        None
    }
}

impl FileType {
    /// The lower-case label, as the wire format spells it.
    pub fn label(&self) -> (r: String)
        ensures
            r@ == spec_file_type_label(*self),
    {
        match self {
            FileType::Avatar => "avatar".to_owned(),
            FileType::Post => "post".to_owned(),
            FileType::Reply => "reply".to_owned(),
            FileType::SectionIcon => "section_icon".to_owned(),
        }
    }

    /// Parses a case-insensitive file type label.
    pub fn from_str(s: &str) -> (r: Result<FileType, String>)
        ensures
            match r {
                Ok(t) => spec_parse_file_type(s@) == Some(t),
                Err(e) => spec_parse_file_type(s@) is None && e@ == "Invalid file type: "@
                    + s@,
            },
    {
        let l = lowercase(s);
        if l == "avatar".to_owned() {
            Ok(FileType::Avatar)
        } else if l == "post".to_owned() {
            Ok(FileType::Post)
        } else if l == "reply".to_owned() {
            Ok(FileType::Reply)
        } else if l == "section_icon".to_owned() || l == "section-icon".to_owned() {
            Ok(FileType::SectionIcon)
        } else {
            Err("Invalid file type: ".to_owned().concat(s))
        }
    }
}

/// The canonical lower-case label of a file status.
pub open spec fn spec_file_status_label(st: FileStatus) -> Seq<char> {
    match st {
        FileStatus::Unused => "unused"@,
        FileStatus::Used => "used"@,
        FileStatus::Deleted => "deleted"@,
    }
}

/// The file status a string parses to, after ASCII case folding.
pub open spec fn spec_parse_file_status(s: Seq<char>) -> Option<FileStatus> {
    let l = lower_chars(s);
    if l == "unused"@ {
        Some(FileStatus::Unused)
    } else if l == "used"@ {
        Some(FileStatus::Used)
    } else if l == "deleted"@ {
        Some(FileStatus::Deleted)
    } else {
        None
    }
}

impl FileStatus {
    /// The lower-case label, as the wire format spells it.
    pub fn label(&self) -> (r: String)
        ensures
            r@ == spec_file_status_label(*self),
    {
        match self {
            FileStatus::Unused => "unused".to_owned(),
            FileStatus::Used => "used".to_owned(),
            FileStatus::Deleted => "deleted".to_owned(),
        }
    }

    /// Parses a case-insensitive file status label.
    pub fn from_str(s: &str) -> (r: Result<FileStatus, String>)
        ensures
            match r {
                Ok(st) => spec_parse_file_status(s@) == Some(st),
                Err(e) => spec_parse_file_status(s@) is None && e@ == "Invalid file status: "@
                    + s@,
            },
    {
        let l = lowercase(s);
        if l == "unused".to_owned() {
            Ok(FileStatus::Unused)
        } else if l == "used".to_owned() {
            Ok(FileStatus::Used)
        } else if l == "deleted".to_owned() {
            Ok(FileStatus::Deleted)
        } else {
            Err("Invalid file status: ".to_owned().concat(s))
        }
    }
}

} // verus!
