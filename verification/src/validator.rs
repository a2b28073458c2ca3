//! Content validation of uploads: magic-number MIME detection, the
//! per-category size limits, and extension checks.

use vstd::prelude::*;

use crate::enums::FileType;
use crate::error::FileError;
use crate::text::{contains_bytes, contains_seq, lower_chars, lowercase, streq};
use vstd::string::StringExecFns;

verus! {

/// The MIME type the magic-number matcher reports for a buffer, or None
/// where no matcher fires; it depends on the bytes alone.
pub uninterp spec fn detected_mime(data: Seq<u8>) -> Option<Seq<char>>;

/// Relies on infer::get and infer::Type::mime_type: magic-number matching
/// is a pure function of the buffer.
#[verifier::external_body]
fn detect_mime(data: &[u8]) -> (r: Option<String>)
    ensures
        match r {
            Some(m) => detected_mime(data@) == Some(m@),
            None => detected_mime(data@) is None,
        },
{
    match infer::get(data) {
        Some(kind) => Some(kind.mime_type().to_owned()),
        None => None,
    }
}

/// The bytes of "<svg".
pub open spec fn svg_tag() -> Seq<u8> {
    seq![60u8, 115u8, 118u8, 103u8]
}

/// The MIME type an upload is accepted under: one of the three raster
/// image types as detected, or SVG when the detector reports an XML
/// flavour and the buffer carries an `<svg` tag.
pub open spec fn spec_accepted_mime(data: Seq<u8>) -> Option<Seq<char>> {
    match detected_mime(data) {
        None => None,
        Some(m) => if m == "image/jpeg"@ || m == "image/png"@ || m == "image/gif"@ {
            Some(m)
        } else if m == "image/svg+xml"@ || m == "text/xml"@ {
            if contains_seq(data, svg_tag()) {
                Some("image/svg+xml"@)
            } else {
                None
            }
        } else {
            None
        },
    }
}

/// Validators for uploaded file content and names.
pub struct FileValidator;

impl FileValidator {
    /// Whether the buffer carries an `<svg` tag. An SVG payload is often
    /// detected as plain XML, so the tag decides between the two.
    pub fn is_svg(data: &[u8]) -> (r: bool)
        ensures
            r == contains_seq(data@, svg_tag()),
    {
        let mut tag: Vec<u8> = Vec::new();
        tag.push(60);
        tag.push(115);
        tag.push(118);
        tag.push(103);
        proof {
            assert(tag@ =~= svg_tag());
        }
        contains_bytes(data, tag.as_slice())
    }

    /// Detects the true content type of a buffer from its bytes and
    /// accepts only the supported image types.
    pub fn validate_file_type(data: &[u8]) -> (r: Result<String, FileError>)
        ensures
            match r {
                Ok(m) => data@.len() > 0 && spec_accepted_mime(data@) == Some(m@),
                Err(e) => match e {
                    FileError::EmptyFile => data@.len() == 0,
                    FileError::UnsupportedFileType(_) => data@.len() > 0 && spec_accepted_mime(
                        data@,
                    ) is None,
                    _ => false,
                },
            },
    {
        if data.len() == 0 {
            return Err(FileError::EmptyFile);
        }
        let detected = detect_mime(data);
        match detected {
            None => Err(FileError::UnsupportedFileType("Unable to detect file type".to_owned())),
            Some(m) => {
                if m == "image/jpeg".to_owned() || m == "image/png".to_owned() || m
                    == "image/gif".to_owned() {
                    Ok(m)
                } else if m == "image/svg+xml".to_owned() || m == "text/xml".to_owned() {
                    if Self::is_svg(data) {
                        Ok("image/svg+xml".to_owned())
                    } else {
                        Err(FileError::UnsupportedFileType(m))
                    }
                } else {
                    Err(FileError::UnsupportedFileType(m))
                }
            },
        }
    }

    /// Whether a MIME type may be stored under the given category; every
    /// category accepts the same four image types.
    pub fn validate_mime_type(mime_type: &str, file_type: FileType) -> (r: Result<(), FileError>)
        ensures
            match r {
                Ok(_) => mime_type@ == "image/jpeg"@ || mime_type@ == "image/png"@ || mime_type@
                    == "image/gif"@ || mime_type@ == "image/svg+xml"@,
                Err(e) => e is UnsupportedFileType && !(mime_type@ == "image/jpeg"@ || mime_type@
                    == "image/png"@ || mime_type@ == "image/gif"@ || mime_type@
                    == "image/svg+xml"@),
            },
    {
        let _ = file_type;
        if streq(mime_type, "image/jpeg") || streq(mime_type, "image/png") || streq(
            mime_type,
            "image/gif",
        ) || streq(mime_type, "image/svg+xml") {
            Ok(())
        } else {
            Err(
                FileError::UnsupportedFileType(
                    "MIME type not allowed: ".to_owned().concat(mime_type),
                ),
            )
        }
    }

    /// The size limit of a category, in bytes.
    pub open spec fn spec_size_limit(file_type: FileType) -> usize {
        match file_type {
            FileType::Avatar => 2097152,
            FileType::Post => 5242880,
            FileType::Reply => 5242880,
            FileType::SectionIcon => 512000,
        }
    }

    /// The per-category upload size limit in bytes: 2 MiB for avatars,
    /// 5 MiB for post and reply attachments, 500 KiB for section icons.
    pub fn get_size_limit(file_type: FileType) -> (r: usize)
        ensures
            r == Self::spec_size_limit(file_type),
    {
        match file_type {
            FileType::Avatar => 2 * 1024 * 1024,
            FileType::Post => 5 * 1024 * 1024,
            FileType::Reply => 5 * 1024 * 1024,
            FileType::SectionIcon => 500 * 1024,
        }
    }

    /// Rejects empty payloads and payloads over the category limit.
    pub fn validate_file_size(data: &[u8], file_type: FileType) -> (r: Result<(), FileError>)
        ensures
            match r {
                Ok(_) => 0 < data@.len() <= Self::spec_size_limit(file_type),
                Err(e) => match e {
                    FileError::EmptyFile => data@.len() == 0,
                    FileError::FileTooLarge { size, max } => data@.len() > Self::spec_size_limit(
                        file_type,
                    ) && size == data@.len() && max == Self::spec_size_limit(file_type),
                    _ => false,
                },
            },
    {
        let size = data.len();
        let limit = Self::get_size_limit(file_type);
        if size == 0 {
            return Err(FileError::EmptyFile);
        }
        if size > limit {
            return Err(FileError::FileTooLarge { size, max: limit });
        }
        Ok(())
    }

    /// The lower-cased extension of a filename, as the final path
    /// component's text after its last dot: absent when there is no dot,
    /// or when the only dot leads the name.
    pub open spec fn spec_extension(s: Seq<char>) -> Option<Seq<char>> {
        let name = s.subrange(last_index_of_char(s, '/') + 1, s.len() as int);
        let d = last_index_of_char(name, '.');
        if d <= 0 {
            None
        } else {
            Some(name.subrange(d + 1, name.len() as int))
        }
    }

    /// Parses and lower-cases the extension and accepts only the
    /// supported image extensions.
    pub fn validate_extension(filename: &str) -> (r: Result<String, FileError>)
        ensures
            match r {
                Ok(e) => spec_extension_accepted(filename@) == Some(e@),
                Err(err) => match err {
                    FileError::InvalidFileName(_) => Self::spec_extension(filename@) is None,
                    FileError::UnsupportedFileType(_) => Self::spec_extension(filename@) is Some
                        && spec_extension_accepted(filename@) is None,
                    _ => false,
                },
            },
    {
        let cs = crate::text::chars_vec(filename);
        let n = cs.len();
        let mut has_slash: bool = false;
        let mut last_slash: usize = 0;
        let mut i: usize = 0;
        while i < n
            invariant
                cs@ == filename@,
                n == cs@.len(),
                i <= n,
                (if has_slash {
                    last_slash as int
                } else {
                    -1int
                }) == last_index_of_char_upto(cs@, '/', i as int),
                has_slash ==> last_slash < i,
            decreases n - i,
        {
            if cs[i] == '/' {
                has_slash = true;
                last_slash = i;
            }
            i = i + 1;
        }
        let name_start: usize = if has_slash {
            last_slash + 1
        } else {
            0
        };
        let ghost name = filename@.subrange(
            last_index_of_char(filename@, '/') + 1,
            filename@.len() as int,
        );
        proof {
            lemma_last_index_upto_bounds(filename@, '/', filename@.len() as int);
            assert(name_start as int == last_index_of_char(filename@, '/') + 1);
            assert(name.len() == filename@.len() - name_start);
        }
        let mut has_dot: bool = false;
        let mut last_dot: usize = 0;
        let mut j: usize = name_start;
        while j < n
            invariant
                cs@ == filename@,
                n == cs@.len(),
                name_start <= j <= n,
                name_start as int == last_index_of_char(filename@, '/') + 1,
                name == filename@.subrange(name_start as int, filename@.len() as int),
                (if has_dot {
                    last_dot as int - name_start as int
                } else {
                    -1int
                }) == last_index_of_char_upto(name, '.', j - name_start),
                has_dot ==> name_start <= last_dot < j,
            decreases n - j,
        {
            proof {
                assert(name[j - name_start] == filename@[j as int]);
            }
            if cs[j] == '.' {
                has_dot = true;
                last_dot = j;
            }
            j = j + 1;
        }
        if !has_dot || last_dot == name_start {
            proof {
                assert(Self::spec_extension(filename@) is None);
            }
            return Err(FileError::InvalidFileName("File has no extension".to_owned()));
        }
        let ghost d_rel = last_dot as int - name_start as int;
        let mut ext_chars: Vec<char> = Vec::new();
        let mut k: usize = last_dot + 1;
        while k < n
            invariant
                cs@ == filename@,
                n == cs@.len(),
                last_dot + 1 <= k <= n,
                last_dot < n,
                ext_chars@ == filename@.subrange(last_dot + 1 as int, k as int),
            decreases n - k,
        {
            ext_chars.push(cs[k]);
            k = k + 1;
            proof {
                assert(ext_chars@ =~= filename@.subrange(last_dot + 1 as int, k as int));
            }
        }
        proof {
            assert(name.subrange(d_rel + 1, name.len() as int) =~= filename@.subrange(
                last_dot + 1 as int,
                filename@.len() as int,
            ));
            assert(Self::spec_extension(filename@) == Some(
                filename@.subrange(last_dot + 1 as int, filename@.len() as int),
            ));
        }
        let raw = crate::text::string_from_chars(&ext_chars);
        let ext = lowercase(raw.as_str());
        if ext == "jpg".to_owned() || ext == "jpeg".to_owned() || ext == "png".to_owned() || ext
            == "gif".to_owned() || ext == "svg".to_owned() {
            Ok(ext)
        } else {
            Err(
                FileError::UnsupportedFileType(
                    "Extension not supported: ".to_owned().concat(ext.as_str()),
                ),
            )
        }
    }
}

/// The lower-cased extension when it is one of the supported image
/// extensions, absent otherwise.
pub open spec fn spec_extension_accepted(s: Seq<char>) -> Option<Seq<char>> {
    match FileValidator::spec_extension(s) {
        None => None,
        Some(e) => {
            let le = lower_chars(e);
            if le == "jpg"@ || le == "jpeg"@ || le == "png"@ || le == "gif"@ || le == "svg"@ {
                Some(le)
            } else {
                None
            }
        },
    }
}

/// The last index of `c` in `s[0..upto]`, or -1 when it does not occur.
pub open spec fn last_index_of_char_upto(s: Seq<char>, c: char, upto: int) -> int
    decreases upto,
{
    if upto <= 0 {
        -1
    } else if s[upto - 1] == c {
        upto - 1
    } else {
        last_index_of_char_upto(s, c, upto - 1)
    }
}

/// The last index of `c` in `s`, or -1 when it does not occur.
pub open spec fn last_index_of_char(s: Seq<char>, c: char) -> int {
    last_index_of_char_upto(s, c, s.len() as int)
}

proof fn lemma_last_index_upto_bounds(s: Seq<char>, c: char, upto: int)
    requires
        upto <= s.len(),
    ensures
        -1 <= last_index_of_char_upto(s, c, upto) < upto || (upto <= 0
            && last_index_of_char_upto(s, c, upto) == -1),
        -1 <= last_index_of_char_upto(s, c, upto),
        last_index_of_char_upto(s, c, upto) < s.len(),
    decreases upto,
{
    if upto > 0 {
        lemma_last_index_upto_bounds(s, c, upto - 1);
    }
}

} // verus!
