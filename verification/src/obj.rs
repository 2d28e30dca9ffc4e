//! Resolver for OBJ text: vertex, normal and texture-coordinate tables
//! and face index tuples.
//!
//! Recognized directives are `v`, `vn`, `vt` and `f`; every other line is
//! skipped silently. Attribute components that are not decimal literals
//! default to `0`; the one-based face indices are stored zero-based, and
//! a reference whose primary index does not parse as an unsigned numeral
//! — a negative, zero or malformed index — is omitted from its face.

use vstd::prelude::*;

use crate::num::{is_float_literal, is_float_token, parse_uint, parse_usize_token};
use crate::text::{
    filter_tokens, filter_tokens_exec, lines_of, split_by, split_lines, split_seps, str_eq, views,
    SepKind,
};

verus! {

/// One three-component attribute row, components as stored.
pub struct ObjTriple {
    pub x: String,
    pub y: String,
    pub z: String,
}

/// One two-component texture coordinate row.
pub struct ObjPair {
    pub u: String,
    pub v: String,
}

/// One resolved face vertex reference: a zero-based vertex index and the
/// optional zero-based texture-coordinate and normal indices.
#[derive(Clone, Copy, PartialEq, Eq, Debug)]
pub struct FaceVertex {
    pub vertex: usize,
    pub tex: Option<usize>,
    pub normal: Option<usize>,
}

/// The resolved content of one OBJ text.
pub struct ObjDocument {
    pub vertices: Vec<ObjTriple>,
    pub normals: Vec<ObjTriple>,
    pub tex_coords: Vec<ObjPair>,
    pub faces: Vec<Vec<FaceVertex>>,
}

impl ObjDocument {
    /// The vertex position table.
    pub fn get_vertices(&self) -> (r: &Vec<ObjTriple>)
        ensures
            r == &self.vertices,
    {
        &self.vertices
    }

    /// The normal table.
    pub fn get_normals(&self) -> (r: &Vec<ObjTriple>)
        ensures
            r == &self.normals,
    {
        &self.normals
    }

    /// The texture-coordinate table.
    pub fn get_tex_coords(&self) -> (r: &Vec<ObjPair>)
        ensures
            r == &self.tex_coords,
    {
        &self.tex_coords
    }

    /// The resolved faces, in file order.
    pub fn get_faces(&self) -> (r: &Vec<Vec<FaceVertex>>)
        ensures
            r == &self.faces,
    {
        &self.faces
    }
}

/// The mathematical content of an OBJ document.
pub ghost struct ObjModel {
    pub vertices: Seq<(Seq<char>, Seq<char>, Seq<char>)>,
    pub normals: Seq<(Seq<char>, Seq<char>, Seq<char>)>,
    pub tex_coords: Seq<(Seq<char>, Seq<char>)>,
    pub faces: Seq<Seq<FaceVertex>>,
}

/// The component views of a triple list.
pub open spec fn triple_views(s: Seq<ObjTriple>) -> Seq<(Seq<char>, Seq<char>, Seq<char>)> {
    s.map_values(|t: ObjTriple| (t.x@, t.y@, t.z@))
}

/// The component views of a pair list.
pub open spec fn pair_views(s: Seq<ObjPair>) -> Seq<(Seq<char>, Seq<char>)> {
    s.map_values(|t: ObjPair| (t.u@, t.v@))
}

/// The views of a face list.
pub open spec fn face_views(s: Seq<Vec<FaceVertex>>) -> Seq<Seq<FaceVertex>> {
    s.map_values(|f: Vec<FaceVertex>| f@)
}

/// The non-empty whitespace-separated tokens of a line.
pub open spec fn obj_tokens(l: Seq<char>) -> Seq<Seq<char>> {
    filter_tokens(split_seps(l, SepKind::Whitespace), Seq::empty(), Seq::empty())
}

/// An attribute component: the token itself when it is a decimal
/// literal, the zero numeral otherwise.
pub open spec fn defaulted(t: Seq<char>) -> Seq<char> {
    if is_float_token(t) {
        t
    } else {
        seq!['0']
    }
}

/// The `k`-th attribute component of a directive line; a missing token
/// counts as unparsable and defaults to zero.
pub open spec fn comp(ts: Seq<Seq<char>>, k: int) -> Seq<char> {
    if k < ts.len() {
        defaulted(ts[k])
    } else {
        seq!['0']
    }
}

/// The optional index in slot `k` of a face reference, converted to
/// zero-based; an absent, malformed or zero index is `None`.
pub open spec fn slot_index(parts: Seq<Seq<char>>, k: int) -> Option<usize> {
    if k < parts.len() {
        match parse_uint(parts[k]) {
            Some(n) => if n >= 1 {
                Some((n - 1) as usize)
            } else {
                None
            },
            None => None,
        }
    } else {
        None
    }
}

/// The resolved reference of one face token, split on `/`: slot 0 is the
/// mandatory vertex index, slots 1 and 2 the optional texture-coordinate
/// and normal indices. A primary index that does not parse drops the
/// whole reference.
pub open spec fn face_ref(tok: Seq<char>) -> Option<FaceVertex> {
    let parts = split_seps(tok, SepKind::Slash);
    match parse_uint(parts[0]) {
        Some(n) => if n >= 1 {
            Some(
                FaceVertex {
                    vertex: (n - 1) as usize,
                    tex: slot_index(parts, 1),
                    normal: slot_index(parts, 2),
                },
            )
        } else {
            None
        },
        None => None,
    }
}

/// The resolved references of a face's tokens, omissions included.
pub open spec fn face_list(ts: Seq<Seq<char>>) -> Seq<FaceVertex>
    decreases ts.len(),
{
    if ts.len() == 0 {
        Seq::empty()
    } else {
        face_list(ts.drop_last()) + match face_ref(ts.last()) {
            Some(fv) => seq![fv],
            None => Seq::empty(),
        }
    }
}

/// The model with all tables empty.
pub open spec fn empty_model() -> ObjModel {
    ObjModel {
        vertices: Seq::empty(),
        normals: Seq::empty(),
        tex_coords: Seq::empty(),
        faces: Seq::empty(),
    }
}

/// The model after one more line.
pub open spec fn obj_step(m: ObjModel, line: Seq<char>) -> ObjModel {
    let ts = obj_tokens(line);
    if ts.len() == 0 {
        m
    } else if ts[0] == "v"@ {
        ObjModel { vertices: m.vertices.push((comp(ts, 1), comp(ts, 2), comp(ts, 3))), ..m }
    } else if ts[0] == "vn"@ {
        ObjModel { normals: m.normals.push((comp(ts, 1), comp(ts, 2), comp(ts, 3))), ..m }
    } else if ts[0] == "vt"@ {
        ObjModel { tex_coords: m.tex_coords.push((comp(ts, 1), comp(ts, 2))), ..m }
    } else if ts[0] == "f"@ {
        ObjModel { faces: m.faces.push(face_list(ts.skip(1))), ..m }
    } else {
        m
    }
}

/// The model after the first `i` lines.
pub open spec fn obj_model(lines: Seq<Seq<char>>, i: int) -> ObjModel
    decreases i,
{
    if i <= 0 {
        empty_model()
    } else {
        obj_step(obj_model(lines, i - 1), lines[i - 1])
    }
}

/// The model of a whole OBJ text.
pub open spec fn obj_spec(text: Seq<char>) -> ObjModel {
    obj_model(lines_of(text), lines_of(text).len() as int)
}

/// Returns the `k`-th attribute component of a directive line, the zero
/// numeral when the token is missing or not a decimal literal.
fn component_of(ts: &Vec<String>, k: usize) -> (r: String)
    ensures
        r@ == comp(views(ts@), k as int),
{
    proof {
        reveal_strlit("0");
        assert("0"@ =~= seq!['0']);
    }
    if k < ts.len() {
        let t: &String = &ts[k];
        if is_float_literal(t.as_str()) {
            t.clone()
        } else {
            String::from_str("0")
        }
    } else {
        String::from_str("0")
    }
}

/// Returns the optional zero-based index in slot `k` of a face token.
fn slot_of(parts: &Vec<String>, k: usize) -> (r: Option<usize>)
    ensures
        r == slot_index(views(parts@), k as int),
{
    if k < parts.len() {
        match parse_usize_token(parts[k].as_str()) {
            Some(n) => if n >= 1 {
                Some(n - 1)
            } else {
                None
            },
            None => None,
        }
    } else {
        None
    }
}

/// Resolves one face token into its reference, if its vertex index parses.
pub fn face_vertex_of(tok: &str) -> (r: Option<FaceVertex>)
    ensures
        r == face_ref(tok@),
{
    let parts = split_by(tok, SepKind::Slash);
    proof {
        assert(split_seps(tok@, SepKind::Slash).len() >= 1);
        assert(views(parts@)[0] == parts@[0]@);
    }
    match parse_usize_token(parts[0].as_str()) {
        Some(n) => if n >= 1 {
            let tex = slot_of(&parts, 1);
            let normal = slot_of(&parts, 2);
            Some(FaceVertex { vertex: n - 1, tex, normal })
        } else {
            None
        },
        None => None,
    }
}

/// Resolves the references of a face line's tokens after the directive.
fn face_list_of(ts: &Vec<String>) -> (r: Vec<FaceVertex>)
    requires
        ts@.len() >= 1,
    ensures
        r@ == face_list(views(ts@).skip(1)),
{
    let mut r: Vec<FaceVertex> = Vec::new();
    let mut i: usize = 1;
    proof {
        assert(views(ts@).subrange(1, 1) =~= Seq::<Seq<char>>::empty());
    }
    while i < ts.len()
        invariant
            1 <= i <= ts@.len(),
            r@ == face_list(views(ts@).subrange(1, i as int)),
        decreases ts@.len() - i,
    {
        proof {
            assert(views(ts@).subrange(1, i + 1).drop_last() =~= views(ts@).subrange(1, i as int));
            assert(views(ts@).subrange(1, i + 1).last() == ts@[i as int]@);
        }
        match face_vertex_of(ts[i].as_str()) {
            Some(fv) => r.push(fv),
            None => {},
        }
        i = i + 1;
    }
    proof {
        assert(views(ts@).subrange(1, ts@.len() as int) =~= views(ts@).skip(1));
    }
    r
}

/// Resolves one OBJ text into its attribute tables and faces.
///
/// Directive lines append in file order; unknown directives and blank
/// lines change nothing; a face reference whose vertex index does not
/// parse is omitted from its face, and unparsable attribute components
/// default to the zero numeral.
pub fn read_obj(text: &str) -> (r: ObjDocument)
    ensures
        triple_views(r.vertices@) == obj_spec(text@).vertices,
        triple_views(r.normals@) == obj_spec(text@).normals,
        pair_views(r.tex_coords@) == obj_spec(text@).tex_coords,
        face_views(r.faces@) == obj_spec(text@).faces,
{
    let lines = split_lines(text);
    let ghost ls = lines_of(text@);
    let mut vertices: Vec<ObjTriple> = Vec::new();
    let mut normals: Vec<ObjTriple> = Vec::new();
    let mut tex_coords: Vec<ObjPair> = Vec::new();
    let mut faces: Vec<Vec<FaceVertex>> = Vec::new();
    let mut i: usize = 0;
    proof {
        assert(triple_views(vertices@) =~= obj_model(ls, 0).vertices);
        assert(triple_views(normals@) =~= obj_model(ls, 0).normals);
        assert(pair_views(tex_coords@) =~= obj_model(ls, 0).tex_coords);
        assert(face_views(faces@) =~= obj_model(ls, 0).faces);
    }
    while i < lines.len()
        invariant
            ls == views(lines@),
            i <= lines@.len(),
            triple_views(vertices@) == obj_model(ls, i as int).vertices,
            triple_views(normals@) == obj_model(ls, i as int).normals,
            pair_views(tex_coords@) == obj_model(ls, i as int).tex_coords,
            face_views(faces@) == obj_model(ls, i as int).faces,
        decreases lines@.len() - i,
    {
        let raw = split_by(lines[i].as_str(), SepKind::Whitespace);
        let ts = filter_tokens_exec(&raw, "", "");
        proof {
            reveal_strlit("");
            assert(""@ =~= Seq::<char>::empty());
            assert(views(ts@) == obj_tokens(ls[i as int]));
            assert(obj_model(ls, i + 1) == obj_step(obj_model(ls, i as int), ls[i as int]));
        }
        if ts.len() > 0 {
            let first: &String = &ts[0];
            proof {
                assert(views(ts@)[0] == ts@[0]@);
            }
            if str_eq(first.as_str(), "v") {
                let row = ObjTriple {
                    x: component_of(&ts, 1),
                    y: component_of(&ts, 2),
                    z: component_of(&ts, 3),
                };
                proof {
                    assert(triple_views(vertices@.push(row)) =~= triple_views(vertices@) + seq![
                        (row.x@, row.y@, row.z@),
                    ]);
                }
                vertices.push(row);
            } else if str_eq(first.as_str(), "vn") {
                let row = ObjTriple {
                    x: component_of(&ts, 1),
                    y: component_of(&ts, 2),
                    z: component_of(&ts, 3),
                };
                proof {
                    assert(triple_views(normals@.push(row)) =~= triple_views(normals@) + seq![
                        (row.x@, row.y@, row.z@),
                    ]);
                }
                normals.push(row);
            } else if str_eq(first.as_str(), "vt") {
                let row = ObjPair { u: component_of(&ts, 1), v: component_of(&ts, 2) };
                proof {
                    assert(pair_views(tex_coords@.push(row)) =~= pair_views(tex_coords@) + seq![
                        (row.u@, row.v@),
                    ]);
                }
                tex_coords.push(row);
            } else if str_eq(first.as_str(), "f") {
                let fl = face_list_of(&ts);
                proof {
                    assert(views(ts@).skip(1) == obj_tokens(ls[i as int]).skip(1));
                    assert(face_views(faces@.push(fl)) =~= face_views(faces@) + seq![fl@]);
                }
                faces.push(fl);
            }
        }
        i = i + 1;
    }
    proof {
        assert(obj_model(ls, lines@.len() as int) == obj_spec(text@));
    }
    ObjDocument { vertices, normals, tex_coords, faces }
}

} // verus!
