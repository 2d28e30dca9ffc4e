//! Line scanner for ASCII STL text.
//!
//! The scan is flat and lenient: the first line yields the solid name, the
//! body runs up to the last line exactly equal to `endsolid`, and within it
//! any line holding both tokens `facet` and `normal` yields a normal
//! triple, any line holding the token `vertex` a coordinate triple. The
//! numeric components are kept as text, preserving the original decimal
//! formatting; normals and vertices accumulate independently, so unequal
//! counts are returned as such rather than rejected.

use vstd::prelude::*;

use crate::text::{
    filter_tokens, filter_tokens_exec, has_token, has_token_exec, lines_of, split_by, split_lines,
    split_seps, str_eq, trim_spaces, trim_str, views, SepKind,
};

verus! {

/// One normal declaration, components as written in the file.
pub struct NormalVector {
    pub x: String,
    pub y: String,
    pub z: String,
}

/// One vertex declaration, components as written in the file.
pub struct VertexCoordinates {
    pub x: String,
    pub y: String,
    pub z: String,
}

/// The result of scanning one ASCII STL text.
pub struct ParsedSTL {
    pub name: String,
    pub is_binary: bool,
    pub is_ascii: bool,
    pub is_valid: bool,
    pub normal_vectors: Vec<NormalVector>,
    pub vertex_coordinates: Vec<VertexCoordinates>,
}

/// The component views of a normal list.
pub open spec fn nv_views(s: Seq<NormalVector>) -> Seq<(Seq<char>, Seq<char>, Seq<char>)> {
    s.map_values(|n: NormalVector| (n.x@, n.y@, n.z@))
}

/// The component views of a vertex list.
pub open spec fn vc_views(s: Seq<VertexCoordinates>) -> Seq<(Seq<char>, Seq<char>, Seq<char>)> {
    s.map_values(|v: VertexCoordinates| (v.x@, v.y@, v.z@))
}

/// The solid name of the first line: everything after the `solid `
/// keyword, trimmed of surrounding whitespace; empty when the line does
/// not open with the keyword.
pub open spec fn stl_name_of(line: Seq<char>) -> Seq<char> {
    if line.len() >= 6 && line.take(6) == "solid "@ {
        trim_spaces(line.skip(6))
    } else {
        Seq::empty()
    }
}

/// Extracts the solid name from the opening line.
pub fn get_stl_name(line: &str) -> (r: String)
    ensures
        r@ == stl_name_of(line@),
{
    let n = line.unicode_len();
    if n >= 6 && str_eq(line.substring_char(0, 6), "solid ") {
        trim_str(line.substring_char(6, n))
    } else {
        String::new()
    }
}

/// Index of the last element of `ls` equal to `kw`, or `0` if none.
pub open spec fn last_eq(ls: Seq<Seq<char>>, kw: Seq<char>) -> int
    decreases ls.len(),
{
    if ls.len() == 0 {
        0
    } else if ls.last() == kw {
        ls.len() - 1
    } else {
        last_eq(ls.drop_last(), kw)
    }
}

/// When no element matches, the index defaults to zero.
pub proof fn lemma_last_eq_none(ls: Seq<Seq<char>>, kw: Seq<char>)
    requires
        forall|i: int| 0 <= i < ls.len() ==> ls[i] != kw,
    ensures
        last_eq(ls, kw) == 0,
    decreases ls.len(),
{
    if ls.len() > 0 {
        lemma_last_eq_none(ls.drop_last(), kw);
    }
}

/// Finds the index of the last line exactly equal to `key_word`; a text
/// with no such line yields `0`, collapsing the scan window.
pub fn get_keyword_line(texts: &Vec<String>, key_word: &str) -> (r: usize)
    ensures
        r == last_eq(views(texts@), key_word@),
        r == 0 || r < texts@.len(),
{
    let mut index: usize = 0;
    let mut ith: usize = 0;
    while ith < texts.len()
        invariant
            ith <= texts@.len(),
            index == last_eq(views(texts@).take(ith as int), key_word@),
            index == 0 || index < ith,
        decreases texts@.len() - ith,
    {
        proof {
            assert(views(texts@).take(ith + 1).drop_last() =~= views(texts@).take(ith as int));
            assert(views(texts@).take(ith + 1).last() == texts@[ith as int]@);
        }
        if str_eq(texts[ith].as_str(), key_word) {
            index = ith;
        }
        ith = ith + 1;
    }
    proof {
        assert(views(texts@).take(texts@.len() as int) =~= views(texts@));
    }
    index
}

/// The tokens of `text` split on single spaces, with empty tokens and the
/// two given keywords removed.
pub open spec fn cleaned_tokens(text: Seq<char>, drop1: Seq<char>, drop2: Seq<char>) -> Seq<
    Seq<char>,
> {
    filter_tokens(split_seps(text, SepKind::Space), drop1, drop2)
}

/// Splits on single spaces and drops empty tokens and the two keywords.
pub fn remove_keywords(text: &str, drop1: &str, drop2: &str) -> (r: Vec<String>)
    ensures
        views(r@) == cleaned_tokens(text@, drop1@, drop2@),
{
    let tokens = split_by(text, SepKind::Space);
    filter_tokens_exec(&tokens, drop1, drop2)
}

/// Whether a body line declares a facet normal: it holds both tokens.
pub open spec fn is_normal_line(l: Seq<char>) -> bool {
    has_token(split_seps(l, SepKind::Space), "facet"@) && has_token(
        split_seps(l, SepKind::Space),
        "normal"@,
    )
}

/// Whether a body line declares a vertex: it holds the token.
pub open spec fn is_vertex_line(l: Seq<char>) -> bool {
    has_token(split_seps(l, SepKind::Space), "vertex"@)
}

/// The normal triples declared by lines `1 .. end`, in order. A matching
/// line with fewer than three remaining tokens declares nothing.
pub open spec fn normal_rows(ls: Seq<Seq<char>>, end: int) -> Seq<(Seq<char>, Seq<char>, Seq<char>)>
    decreases end,
{
    if end <= 1 {
        Seq::empty()
    } else {
        normal_rows(ls, end - 1) + {
            let c = cleaned_tokens(ls[end - 1], "facet"@, "normal"@);
            if is_normal_line(ls[end - 1]) && c.len() >= 3 {
                seq![(c[0], c[1], c[2])]
            } else {
                Seq::empty()
            }
        }
    }
}

/// The vertex triples declared by lines `1 .. end`, in order.
pub open spec fn vertex_rows(ls: Seq<Seq<char>>, end: int) -> Seq<(Seq<char>, Seq<char>, Seq<char>)>
    decreases end,
{
    if end <= 1 {
        Seq::empty()
    } else {
        vertex_rows(ls, end - 1) + {
            let c = cleaned_tokens(ls[end - 1], "vertex"@, "vertex"@);
            if is_vertex_line(ls[end - 1]) && c.len() >= 3 {
                seq![(c[0], c[1], c[2])]
            } else {
                Seq::empty()
            }
        }
    }
}

/// Collects the normal triples of the body lines before `num_eof`.
pub fn get_normal_vectors(texts: &Vec<String>, num_eof: usize) -> (r: Vec<NormalVector>)
    requires
        num_eof <= texts@.len(),
    ensures
        nv_views(r@) == normal_rows(views(texts@), num_eof as int),
{
    let mut r: Vec<NormalVector> = Vec::new();
    proof {
        assert(nv_views(r@) =~= Seq::<(Seq<char>, Seq<char>, Seq<char>)>::empty());
    }
    if num_eof <= 1 {
        return r;
    }
    let mut ith: usize = 1;
    while ith < num_eof
        invariant
            num_eof <= texts@.len(),
            1 <= ith <= num_eof,
            nv_views(r@) == normal_rows(views(texts@), ith as int),
        decreases num_eof - ith,
    {
        let line: &String = &texts[ith];
        let tokens = split_by(line.as_str(), SepKind::Space);
        if has_token_exec(&tokens, "facet") && has_token_exec(&tokens, "normal") {
            let cleaned = filter_tokens_exec(&tokens, "facet", "normal");
            if cleaned.len() >= 3 {
                let nv = NormalVector {
                    x: cleaned[0].clone(),
                    y: cleaned[1].clone(),
                    z: cleaned[2].clone(),
                };
                proof {
                    assert(nv_views(r@.push(nv)) =~= nv_views(r@) + seq![(nv.x@, nv.y@, nv.z@)]);
                }
                r.push(nv);
            }
        }
        ith = ith + 1;
    }
    r
}

/// Collects the vertex triples of the body lines before `num_eof`.
pub fn get_vertex_coordinates(texts: &Vec<String>, num_eof: usize) -> (r: Vec<VertexCoordinates>)
    requires
        num_eof <= texts@.len(),
    ensures
        vc_views(r@) == vertex_rows(views(texts@), num_eof as int),
{
    let mut r: Vec<VertexCoordinates> = Vec::new();
    proof {
        assert(vc_views(r@) =~= Seq::<(Seq<char>, Seq<char>, Seq<char>)>::empty());
    }
    if num_eof <= 1 {
        return r;
    }
    let mut ith: usize = 1;
    while ith < num_eof
        invariant
            num_eof <= texts@.len(),
            1 <= ith <= num_eof,
            vc_views(r@) == vertex_rows(views(texts@), ith as int),
        decreases num_eof - ith,
    {
        let line: &String = &texts[ith];
        let tokens = split_by(line.as_str(), SepKind::Space);
        if has_token_exec(&tokens, "vertex") {
            let cleaned = filter_tokens_exec(&tokens, "vertex", "vertex");
            if cleaned.len() >= 3 {
                let vc = VertexCoordinates {
                    x: cleaned[0].clone(),
                    y: cleaned[1].clone(),
                    z: cleaned[2].clone(),
                };
                proof {
                    assert(vc_views(r@.push(vc)) =~= vc_views(r@) + seq![(vc.x@, vc.y@, vc.z@)]);
                }
                r.push(vc);
            }
        }
        ith = ith + 1;
    }
    r
}

/// The index of the body's terminating line in `text`.
pub open spec fn ascii_end_of(text: Seq<char>) -> int {
    last_eq(lines_of(text), "endsolid"@)
}

/// Scans one ASCII STL text into its name and its normal and vertex
/// declarations, kept as text.
pub fn read_ascii_stl(texts: String) -> (r: ParsedSTL)
    ensures
        r.name@ == stl_name_of(lines_of(texts@)[0]),
        r.is_binary == false,
        r.is_ascii == true,
        r.is_valid == true,
        nv_views(r.normal_vectors@) == normal_rows(lines_of(texts@), ascii_end_of(texts@)),
        vc_views(r.vertex_coordinates@) == vertex_rows(lines_of(texts@), ascii_end_of(texts@)),
{
    let lines = split_lines(texts.as_str());
    let name = get_stl_name(lines[0].as_str());
    let end_line_index = get_keyword_line(&lines, "endsolid");
    let normal_vectors = get_normal_vectors(&lines, end_line_index);
    let vertex_coordinates = get_vertex_coordinates(&lines, end_line_index);
    ParsedSTL {
        name,
        is_binary: false,
        is_ascii: true,
        is_valid: true,
        normal_vectors,
        vertex_coordinates,
    }
}

/// A text whose terminator is not the bare `endsolid` line — for example
/// `endsolid <name>` — has an empty scan window: no normal and no vertex
/// triples are extracted, whatever the body holds.
pub proof fn lemma_no_terminator_no_triples(text: Seq<char>)
    requires
        forall|i: int| 0 <= i < lines_of(text).len() ==> lines_of(text)[i] != "endsolid"@,
    ensures
        normal_rows(lines_of(text), ascii_end_of(text)) == Seq::<(Seq<char>, Seq<char>, Seq<char>)>::empty(),
        vertex_rows(lines_of(text), ascii_end_of(text)) == Seq::<(Seq<char>, Seq<char>, Seq<char>)>::empty(),
{
    lemma_last_eq_none(lines_of(text), "endsolid"@);
}

} // verus!
