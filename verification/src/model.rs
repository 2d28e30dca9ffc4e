//! Shared result and error types of the decoder.

use vstd::prelude::*;

verus! {

/// Fatal decode failures.
///
/// `IoError` stands for unreadable input: the front end maps file-system
/// failures to it, and the STL entry point returns it when a stream sniffed
/// as ASCII is not decodable text. `TruncatedBinaryRecord` is returned when
/// a binary STL stream ends before the declared number of 50-byte records
/// has been read; no partial triangle list is ever surfaced with it.
#[derive(Clone, Copy, PartialEq, Eq, Structural, Debug)]
pub enum StlError {
    IoError,
    TruncatedBinaryRecord,
}

/// The encoding a decoded STL document came from.
#[derive(Clone, Copy, PartialEq, Eq, Structural, Debug)]
pub enum StlEncoding {
    Binary,
    Ascii,
}

/// The operations the command-line front end can be asked to run.
#[derive(Clone, Copy, PartialEq, Eq, Structural, Debug)]
pub enum IOType {
    ReadAsciiSTL,
    WriteAsciiSTL,
}

/// Maps a command-line pattern to the operation it names.
///
/// Only the reading operation is implemented; every other pattern yields
/// `None`, which the front end reports as an error instead of aborting.
pub fn args_to_io_type(pattern: &String) -> (r: Option<IOType>)
    ensures
        r == if pattern@ == "read_ascii_stl"@ {
            Some(IOType::ReadAsciiSTL)
        } else {
            None::<IOType>
        },
{
    let keyword: String = String::from_str("read_ascii_stl");
    if pattern.eq(&keyword) {
        Some(IOType::ReadAsciiSTL)
    } else {
        None
    }
}

} // verus!
