//! A dual-format triangle-mesh decoder.
//!
//! The crate ingests 3D geometry in the STL (stereolithography) and OBJ
//! (Wavefront) exchange formats and materializes it into an in-memory,
//! read-only document. STL input is auto-detected as binary or ASCII;
//! binary records are decoded into exact 32-bit component payloads,
//! ASCII values are kept as text so the original formatting survives.

pub mod model;
pub mod num;
pub mod obj;
pub mod sniff;
pub mod stl_ascii;
pub mod stl_binary;
pub mod text;

use vstd::prelude::*;

use crate::model::{StlEncoding, StlError};
use crate::sniff::{sniff_is_ascii, sniffs_ascii};
use crate::stl_ascii::{
    ascii_end_of, normal_rows, nv_views, read_ascii_stl, stl_name_of, vc_views, vertex_rows,
    ParsedSTL,
};
use crate::stl_binary::{binary_ok, binary_triangles, decode_binary_stl, Triangle};
use crate::text::{all_ascii, ascii_chars, bytes_to_string, lines_of, utf8_chars};

verus! {

/// The decoded STL document: the triangle records of a binary stream, or
/// the scanned text of an ASCII one. The two pipelines share only this
/// output; a binary document has no name and an ASCII one keeps its
/// values as text.
pub enum STLDocument {
    Binary(Vec<Triangle>),
    Ascii(ParsedSTL),
}

impl STLDocument {
    /// The encoding this document was decoded from.
    pub open spec fn spec_encoding(&self) -> StlEncoding {
        match self {
            STLDocument::Binary(_) => StlEncoding::Binary,
            STLDocument::Ascii(_) => StlEncoding::Ascii,
        }
    }

    /// Returns the encoding this document was decoded from.
    pub fn encoding(&self) -> (r: StlEncoding)
        ensures
            r == self.spec_encoding(),
    {
        match self {
            STLDocument::Binary(_) => StlEncoding::Binary,
            STLDocument::Ascii(_) => StlEncoding::Ascii,
        }
    }
}

/// What the ASCII scan of text `t` promises of its result.
pub open spec fn ascii_doc_ok(p: ParsedSTL, t: Seq<char>) -> bool {
    &&& p.name@ == stl_name_of(lines_of(t)[0])
    &&& p.is_binary == false
    &&& p.is_ascii == true
    &&& p.is_valid == true
    &&& nv_views(p.normal_vectors@) == normal_rows(lines_of(t), ascii_end_of(t))
    &&& vc_views(p.vertex_coordinates@) == vertex_rows(lines_of(t), ascii_end_of(t))
}

/// Decodes one STL byte stream, auto-detecting its encoding.
///
/// A stream sniffed as binary succeeds exactly when it holds the full
/// declared record run, and fails with `TruncatedBinaryRecord` otherwise,
/// returning no partial document. A stream sniffed as ASCII is scanned
/// leniently and fails only with `IoError`, when it is not decodable
/// text.
pub fn read_stl(bytes: &Vec<u8>) -> (r: Result<STLDocument, StlError>)
    ensures
        !sniffs_ascii(bytes@) && binary_ok(bytes@) ==> (r matches Ok(d) && (
        d matches STLDocument::Binary(ts) && ts@ == binary_triangles(bytes@))),
        !sniffs_ascii(bytes@) && !binary_ok(bytes@) ==> r == Err::<STLDocument, StlError>(
            StlError::TruncatedBinaryRecord,
        ),
        sniffs_ascii(bytes@) && all_ascii(bytes@) ==> (r matches Ok(d) && (
        d matches STLDocument::Ascii(p) && ascii_doc_ok(p, ascii_chars(bytes@)))),
        sniffs_ascii(bytes@) ==> (r matches Ok(d) ==> (d matches STLDocument::Ascii(p)
            && ascii_doc_ok(p, utf8_chars(bytes@)))),
        sniffs_ascii(bytes@) && r is Err ==> r == Err::<STLDocument, StlError>(StlError::IoError)
            && !all_ascii(bytes@),
{
    if sniff_is_ascii(bytes) {
        match bytes_to_string(bytes) {
            Some(texts) => Ok(STLDocument::Ascii(read_ascii_stl(texts))),
            None => Err(StlError::IoError),
        }
    } else {
        match decode_binary_stl(bytes) {
            Ok(triangles) => Ok(STLDocument::Binary(triangles)),
            Err(e) => Err(e),
        }
    }
}

/// Adds two lengths; the caller keeps the sum within `usize`.
pub fn add(left: usize, right: usize) -> (r: usize)
    requires
        left + right <= usize::MAX,
    ensures
        r == left + right,
{
    left + right
}

} // verus!
