use vstd::prelude::*;

verus! {

/// What the text decoder returns for a given byte sequence: `Some` of the
/// decoded characters exactly when the bytes are valid text, `None`
/// otherwise.
pub uninterp spec fn text_of(bytes: Seq<u8>) -> Option<Seq<char>>;

/// The reason a file path was rejected by the validating file-enable
/// operation.
#[derive(Debug, Clone, Copy, PartialEq, Eq)]
pub enum PathFault {
    /// The path does not begin with the path separator.
    NotAbsolute,
    /// The path's final component does not carry the source-file extension
    /// after a nonempty stem.
    NotSourceFile,
    /// The path's bytes are not valid text.
    NotText,
}

/// Indicates that a file path was invalid for use in an allow-list.
///
/// Carries the rejected path and the reason it was rejected; a fixed
/// explanatory message for the reason is available through
/// [`BadPath::message`].
#[derive(Debug)]
pub struct BadPath {
    /// The rejected path, as the caller supplied it.
    pub path: Vec<u8>,
    /// Why the path was rejected.
    pub fault: PathFault,
}

/// A path is absolute when it begins with the path separator `/`.
pub open spec fn is_absolute_path(bytes: Seq<u8>) -> bool {
    bytes.len() > 0 && bytes[0] == 47u8
}

/// A path names a source file when it ends with the extension `.src` and
/// the final component's stem is nonempty: at least one byte stands between
/// the last separator and the extension.
pub open spec fn is_source_file(bytes: Seq<u8>) -> bool {
    let n = bytes.len() as int;
    &&& n >= 5
    &&& bytes[n - 4] == 46u8
    &&& bytes[n - 3] == 115u8
    &&& bytes[n - 2] == 114u8
    &&& bytes[n - 1] == 99u8
    &&& bytes[n - 5] != 47u8
}

/// A path may be stored in the file allow-list when it is absolute, names a
/// source file, and is valid text.
pub open spec fn path_ok(bytes: Seq<u8>) -> bool {
    &&& is_absolute_path(bytes)
    &&& is_source_file(bytes)
    &&& text_of(bytes) is Some
}

/// The first rule that an invalid path breaks, in the order the rules are
/// checked: absoluteness, then the extension, then text validity.
pub open spec fn path_fault(bytes: Seq<u8>) -> PathFault
    recommends
        !path_ok(bytes),
{
    if !is_absolute_path(bytes) {
        PathFault::NotAbsolute
    } else if !is_source_file(bytes) {
        PathFault::NotSourceFile
    } else {
        PathFault::NotText
    }
}

/// The fixed explanatory message for each fault.
pub open spec fn fault_message(fault: PathFault) -> Seq<char> {
    match fault {
        PathFault::NotAbsolute => "must be absolute"@,
        PathFault::NotSourceFile => "must be a source file"@,
        PathFault::NotText => "must be valid text"@,
    }
}

impl BadPath {
    /// Builds the error for a rejected path.
    pub fn new(path: Vec<u8>, fault: PathFault) -> (e: BadPath)
        ensures
            e.path == path,
            e.fault == fault,
    {
        BadPath { path, fault }
    }

    /// The fixed, human-readable explanation of why the path was rejected.
    pub fn message(&self) -> (m: &'static str)
        ensures
            m@ == fault_message(self.fault),
    {
        match self.fault {
            PathFault::NotAbsolute => "must be absolute",
            PathFault::NotSourceFile => "must be a source file",
            PathFault::NotText => "must be valid text",
        }
    }
}

/// Checks that a path begins with the separator.
pub fn check_absolute(bytes: &Vec<u8>) -> (r: bool)
    ensures
        r == is_absolute_path(bytes@),
{
    bytes.len() > 0 && bytes[0] == 47u8
}

/// Checks that a path ends with the source-file extension after a nonempty
/// final-component stem.
pub fn check_source_file(bytes: &Vec<u8>) -> (r: bool)
    ensures
        r == is_source_file(bytes@),
{
    let n = bytes.len();
    if n < 5 {
        return false;
    }
    bytes[n - 4] == 46u8 && bytes[n - 3] == 115u8 && bytes[n - 2] == 114u8 && bytes[n - 1] == 99u8
        && bytes[n - 5] != 47u8
}

/// Relies on `String::from_utf8`: it returns `Ok` exactly when the bytes
/// are valid text, the decoded string is a function of the bytes alone, and
/// `FromUtf8Error::into_bytes` gives back the bytes that were passed in.
#[verifier::external_body]
pub fn decode_text(bytes: Vec<u8>) -> (r: Result<String, Vec<u8>>)
    ensures
        r is Ok <==> text_of(bytes@) is Some,
        r matches Ok(s) ==> s@ == text_of(bytes@)->0,
        r matches Err(b) ==> b == bytes,
{
    match String::from_utf8(bytes) {
        Ok(s) => Ok(s),
        Err(e) => Err(e.into_bytes()),
    }
}

} // verus!
