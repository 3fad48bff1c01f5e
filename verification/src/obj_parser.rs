//! A reader for Wavefront OBJ text: objects (`o`), vertices (`v`) and
//! triangular faces (`f`), with `#` and `s` lines skipped.
use vstd::prelude::*;

use crate::number::{
    check_float_literal, is_float_literal, parse_u16, spec_parse_u16, FloatErrorKind, IntErrorKind,
    ParseFloatError, ParseIntError,
};
use crate::text::{chars_of, lines_of, rows, split_lines, string_from_chars, tokenize, tokens};

verus! {

/// The index of a vertex within its mesh.
pub type Index = u16;

/// A mesh vertex. Its coordinates are kept as the floating-point literals
/// read from the text (each accepted by `f32::from_str`); rendering code
/// gives every vertex the colour white and texture coordinates (0, 0).
pub struct Vertex {
    pub position: [String; 3],
}

/// A triangle mesh: vertices, and three vertex indices per face.
pub struct Mesh {
    pub vertices: Vec<Vertex>,
    pub indices: Vec<Index>,
}

/// A model: the meshes read, in order.
pub struct Model {
    pub meshes: Vec<Mesh>,
}

/// Why an OBJ line could not be read.
#[derive(Clone, Copy, Debug, PartialEq, Eq, Structural)]
pub enum ObjParseError {
    UnsupportedKeyword,
    CoordinateNotFound,
    CoordinateParsingFailed(ParseFloatError),
    VertexIndexNotFound,
    VertexIndexParsingFailed(ParseIntError),
    NotParsingMesh,
}

/// Why a model could not be read.
#[derive(Clone, Copy, Debug, PartialEq, Eq, Structural)]
pub enum ParseError {
    ObjParseError(ObjParseError),
}

/// A mesh as values: the coordinate texts of each vertex, and the indices.
pub struct MeshModel {
    pub vertices: Seq<Seq<Seq<char>>>,
    pub indices: Seq<u16>,
}

impl Vertex {
    /// The three coordinate texts.
    pub open spec fn spec_coords(&self) -> Seq<Seq<char>> {
        seq![self.position[0]@, self.position[1]@, self.position[2]@]
    }
}

impl Mesh {
    /// The mesh as values.
    pub open spec fn spec_model(&self) -> MeshModel {
        MeshModel {
            vertices: Seq::new(self.vertices@.len(), |i: int| self.vertices@[i].spec_coords()),
            indices: self.indices@,
        }
    }
}

impl Model {
    /// The meshes as values.
    pub open spec fn spec_meshes(&self) -> Seq<MeshModel> {
        Seq::new(self.meshes@.len(), |i: int| self.meshes@[i].spec_model())
    }
}

/// What one line does to the model.
pub enum LineEffect {
    Nothing,
    NewMesh,
    AddVertex(Seq<Seq<char>>),
    AddFace(Seq<u16>),
    Fail(ObjParseError),
    /// A face index of 0, which has no predecessor to refer to.
    Abort,
}

/// The outcome of reading the argument at position `k` of a face line.
pub enum IndexRead {
    Read(u16),
    Missing,
    Bad(IntErrorKind),
    Zero,
}

/// Reading the vertex index at position `k` of the face arguments `args`.
pub open spec fn index_read(args: Seq<Seq<char>>, k: int) -> IndexRead {
    if args.len() <= k {
        IndexRead::Missing
    } else {
        match spec_parse_u16(args[k]) {
            Err(e) => IndexRead::Bad(e),
            Ok(v) => if v == 0 {
                IndexRead::Zero
            } else {
                IndexRead::Read((v - 1) as u16)
            },
        }
    }
}

/// The effect of reading index `k` when it does not yield a value.
pub open spec fn index_failure(r: IndexRead) -> LineEffect {
    match r {
        IndexRead::Missing => LineEffect::Fail(ObjParseError::VertexIndexNotFound),
        IndexRead::Bad(e) => LineEffect::Fail(
            ObjParseError::VertexIndexParsingFailed(ParseIntError { kind: e }),
        ),
        _ => LineEffect::Abort,
    }
}

/// The effect of a face line with arguments `args`: three one-based vertex
/// indices, read in order and stored zero-based.
pub open spec fn face_effect(args: Seq<Seq<char>>) -> LineEffect {
    let a = index_read(args, 0);
    let b = index_read(args, 1);
    let c = index_read(args, 2);
    if !(a is Read) {
        index_failure(a)
    } else if !(b is Read) {
        index_failure(b)
    } else if !(c is Read) {
        index_failure(c)
    } else {
        LineEffect::AddFace(seq![a->Read_0, b->Read_0, c->Read_0])
    }
}

/// Reading coordinate `k` of a vertex line with arguments `args`.
pub open spec fn coordinate_failure(args: Seq<Seq<char>>, k: int) -> Option<ObjParseError> {
    if args.len() <= k {
        Some(ObjParseError::CoordinateNotFound)
    } else if !is_float_literal(args[k]) {
        Some(ObjParseError::CoordinateParsingFailed(ParseFloatError { kind: FloatErrorKind::Invalid }))
    } else {
        None
    }
}

/// The effect of a vertex line with arguments `args`: three coordinates,
/// read in order.
pub open spec fn vertex_effect(args: Seq<Seq<char>>) -> LineEffect {
    if coordinate_failure(args, 0) is Some {
        LineEffect::Fail(coordinate_failure(args, 0)->0)
    } else if coordinate_failure(args, 1) is Some {
        LineEffect::Fail(coordinate_failure(args, 1)->0)
    } else if coordinate_failure(args, 2) is Some {
        LineEffect::Fail(coordinate_failure(args, 2)->0)
    } else {
        LineEffect::AddVertex(args.take(3))
    }
}

/// The effect of a line with tokens `toks`; `has_mesh` tells whether a mesh
/// was opened before.
pub open spec fn line_effect(toks: Seq<Seq<char>>, has_mesh: bool) -> LineEffect {
    if toks.len() == 0 {
        LineEffect::Nothing
    } else if toks[0] == seq!['o'] {
        LineEffect::NewMesh
    } else if toks[0] == seq!['v'] {
        if !has_mesh {
            LineEffect::Fail(ObjParseError::NotParsingMesh)
        } else {
            vertex_effect(toks.drop_first())
        }
    } else if toks[0] == seq!['f'] {
        if !has_mesh {
            LineEffect::Fail(ObjParseError::NotParsingMesh)
        } else {
            face_effect(toks.drop_first())
        }
    } else if toks[0] == seq!['#'] || toks[0] == seq!['s'] {
        LineEffect::Nothing
    } else {
        LineEffect::Fail(ObjParseError::UnsupportedKeyword)
    }
}

/// Where reading stands after some lines.
pub enum ParseState {
    Parsing(Seq<MeshModel>),
    Failed(ObjParseError),
    Aborted,
}

/// An empty mesh.
pub open spec fn empty_mesh() -> MeshModel {
    MeshModel { vertices: Seq::empty(), indices: Seq::empty() }
}

/// The meshes after a line with effect `e`.
pub open spec fn apply_effect(ms: Seq<MeshModel>, e: LineEffect) -> ParseState {
    match e {
        LineEffect::Nothing => ParseState::Parsing(ms),
        LineEffect::NewMesh => ParseState::Parsing(ms.push(empty_mesh())),
        LineEffect::AddVertex(v) => ParseState::Parsing(
            ms.update(
                ms.len() - 1,
                MeshModel { vertices: ms.last().vertices.push(v), indices: ms.last().indices },
            ),
        ),
        LineEffect::AddFace(f) => ParseState::Parsing(
            ms.update(
                ms.len() - 1,
                MeshModel { vertices: ms.last().vertices, indices: ms.last().indices + f },
            ),
        ),
        LineEffect::Fail(err) => ParseState::Failed(err),
        LineEffect::Abort => ParseState::Aborted,
    }
}

/// The state after the first `n` lines of `lines`; reading stops at the
/// first line that fails.
pub open spec fn parse_lines(lines: Seq<Seq<char>>, n: nat) -> ParseState
    decreases n,
{
    if n == 0 {
        ParseState::Parsing(Seq::empty())
    } else {
        match parse_lines(lines, (n - 1) as nat) {
            ParseState::Parsing(ms) => apply_effect(ms, line_effect(tokens(lines[n - 1]), ms.len() > 0)),
            other => other,
        }
    }
}

/// The outcome of reading OBJ text `data` line by line.
pub open spec fn spec_parse_obj(data: Seq<char>) -> ParseState {
    parse_lines(split_lines(data), split_lines(data).len())
}

/// Whether `t` is the one-character word `c`.
fn is_word(t: &Vec<char>, c: char) -> (b: bool)
    ensures
        b == (t@ == seq![c]),
{
    if t.len() == 1 && t[0] == c {
        assert(t@ =~= seq![c]);
        true
    } else {
        proof {
            if t@ == seq![c] {
                assert(t@[0] == c);
            }
        }
        false
    }
}

/// Reads OBJ text.
pub struct ObjParser;

/// Why a line was not read: an error, or a face index of 0 (which has no
/// zero-based value).
enum LineFault {
    Error(ObjParseError),
    ZeroIndex,
}

impl ObjParser {
    fn read_index(args: &[Vec<char>], k: usize) -> (r: Result<u16, LineFault>)
        ensures
            match r {
                Ok(v) => index_read(rows(args@), k as int) == IndexRead::Read(v),
                Err(LineFault::Error(e)) => index_failure(index_read(rows(args@), k as int)) == LineEffect::Fail(e)
                    && !(index_read(rows(args@), k as int) is Read),
                Err(LineFault::ZeroIndex) => index_read(rows(args@), k as int) is Zero,
            },
    {
        if args.len() <= k {
            return Err(LineFault::Error(ObjParseError::VertexIndexNotFound));
        }
        assert(rows(args@)[k as int] == args@[k as int]@);
        match parse_u16(args[k].as_slice()) {
            Err(e) => Err(LineFault::Error(ObjParseError::VertexIndexParsingFailed(e))),
            Ok(v) => if v == 0 {
                Err(LineFault::ZeroIndex)
            } else {
                Ok(v - 1)
            },
        }
    }

    fn face_from_tokens(args: &[Vec<char>]) -> (r: Result<[Index; 3], LineFault>)
        ensures
            match r {
                Ok(f) => face_effect(rows(args@)) == LineEffect::AddFace(f@),
                Err(LineFault::Error(e)) => face_effect(rows(args@)) == LineEffect::Fail(e),
                Err(LineFault::ZeroIndex) => face_effect(rows(args@)) is Abort,
            },
    {
        let first = Self::read_index(args, 0)?;
        let second = Self::read_index(args, 1)?;
        let third = Self::read_index(args, 2)?;
        let f: [Index; 3] = [first, second, third];
        assert(f@ =~= seq![first, second, third]);
        Ok(f)
    }

    fn coordinate(args: &[Vec<char>], k: usize) -> (r: Result<String, ObjParseError>)
        ensures
            match r {
                Ok(s) => coordinate_failure(rows(args@), k as int) is None && s@ == rows(args@)[k as int],
                Err(e) => coordinate_failure(rows(args@), k as int) == Some(e),
            },
    {
        if args.len() <= k {
            return Err(ObjParseError::CoordinateNotFound);
        }
        assert(rows(args@)[k as int] == args@[k as int]@);
        match check_float_literal(args[k].as_slice()) {
            Err(_) => Err(ObjParseError::CoordinateParsingFailed(ParseFloatError { kind: FloatErrorKind::Invalid })),
            Ok(()) => Ok(string_from_chars(args[k].as_slice())),
        }
    }

    fn vertex_from_tokens(args: &[Vec<char>]) -> (r: Result<Vertex, ObjParseError>)
        ensures
            match r {
                Ok(v) => vertex_effect(rows(args@)) == LineEffect::AddVertex(v.spec_coords()),
                Err(e) => vertex_effect(rows(args@)) == LineEffect::Fail(e),
            },
    {
        let x = Self::coordinate(args, 0)?;
        let y = Self::coordinate(args, 1)?;
        let z = Self::coordinate(args, 2)?;
        let v = Vertex { position: [x, y, z] };
        assert(v.spec_coords() =~= rows(args@).take(3));
        Ok(v)
    }

    /// Reads the three coordinates of a vertex from the arguments of a `v`
    /// line.
    pub fn parse_vertex(args: &[String]) -> (r: Result<Vertex, ObjParseError>)
        ensures
            match r {
                Ok(v) => vertex_effect(Seq::new(args@.len(), |i: int| args@[i]@)) == LineEffect::AddVertex(v.spec_coords()),
                Err(e) => vertex_effect(Seq::new(args@.len(), |i: int| args@[i]@)) == LineEffect::Fail(e),
            },
    {
        let toks = Self::token_chars(args);
        Self::vertex_from_tokens(toks.as_slice())
    }

    /// Reads the three vertex indices of a face from the arguments of an `f`
    /// line; the text counts vertices from 1, the result from 0.
    pub fn parse_face(args: &[String]) -> (r: Result<[Index; 3], ObjParseError>)
        requires
            !(face_effect(Seq::new(args@.len(), |i: int| args@[i]@)) is Abort),
        ensures
            match r {
                Ok(f) => face_effect(Seq::new(args@.len(), |i: int| args@[i]@)) == LineEffect::AddFace(f@),
                Err(e) => face_effect(Seq::new(args@.len(), |i: int| args@[i]@)) == LineEffect::Fail(e),
            },
    {
        let toks = Self::token_chars(args);
        match Self::face_from_tokens(toks.as_slice()) {
            Ok(f) => Ok(f),
            Err(LineFault::Error(e)) => Err(e),
            Err(LineFault::ZeroIndex) => {
                assert(false);
                Err(ObjParseError::VertexIndexNotFound)
            },
        }
    }

    fn token_chars(args: &[String]) -> (r: Vec<Vec<char>>)
        ensures
            rows(r@) == Seq::new(args@.len(), |i: int| args@[i]@),
    {
        let mut r: Vec<Vec<char>> = Vec::new();
        let mut i: usize = 0;
        while i < args.len()
            invariant
                i <= args@.len(),
                r@.len() == i,
                forall|j: int| 0 <= j < i ==> #[trigger] r@[j]@ == args@[j]@,
            decreases args@.len() - i,
        {
            r.push(chars_of(args[i].as_str()));
            i = i + 1;
        }
        assert(rows(r@) =~= Seq::new(args@.len(), |i: int| args@[i]@));
        r
    }

    /// Opens a new, empty mesh.
    pub fn parse_object(model: &mut Model) -> (r: Result<(), ObjParseError>)
        ensures
            r is Ok,
            final(model).spec_meshes() == old(model).spec_meshes().push(empty_mesh()),
    {
        model.meshes.push(Mesh { vertices: Vec::new(), indices: Vec::new() });
        let ghost lm = model.meshes@.last().spec_model();
        assert(lm.vertices =~= Seq::<Seq<Seq<char>>>::empty());
        assert(lm.indices =~= Seq::<u16>::empty());
        assert(lm == empty_mesh());
        assert(model.spec_meshes() =~= old(model).spec_meshes().push(empty_mesh()));
        Ok(())
    }

    fn apply_tokens(toks: &Vec<Vec<char>>, model: &mut Model) -> (r: Result<(), LineFault>)
        ensures
            match r {
                Ok(()) => apply_effect(old(model).spec_meshes(), line_effect(rows(toks@), old(model).meshes@.len() > 0))
                    == ParseState::Parsing(final(model).spec_meshes()),
                Err(LineFault::Error(e)) => apply_effect(old(model).spec_meshes(), line_effect(rows(toks@), old(model).meshes@.len() > 0))
                    == ParseState::Failed(e),
                Err(LineFault::ZeroIndex) => line_effect(rows(toks@), old(model).meshes@.len() > 0) is Abort,
            },
            r is Err ==> *final(model) == *old(model),
    {
        let ghost t = rows(toks@);
        if toks.len() == 0 {
            return Ok(());
        }
        assert(t[0] == toks@[0]@);
        assert(t.drop_first() =~= rows(toks@.skip(1)));
        let rest = toks.as_slice();
        if is_word(&toks[0], 'o') {
            Self::parse_object(model);
            return Ok(());
        }
        if is_word(&toks[0], 'v') {
            if model.meshes.len() == 0 {
                return Err(LineFault::Error(ObjParseError::NotParsingMesh));
            }
            let args = slice_tail(rest);
            let v = match Self::vertex_from_tokens(args) {
                Ok(v) => v,
                Err(e) => return Err(LineFault::Error(e)),
            };
            let last = model.meshes.len() - 1;
            model.meshes[last].vertices.push(v);
            proof {
                let ms = old(model).spec_meshes();
                assert(model.meshes@.len() == old(model).meshes@.len());
                assert forall|i: int| 0 <= i < ms.len() && i != last implies
                    #[trigger] model.spec_meshes()[i] == ms[i] by {
                    assert(model.meshes@[i] == old(model).meshes@[i]);
                }
                assert(model.spec_meshes()[last as int].vertices =~= ms.last().vertices.push(v.spec_coords()));
                assert(model.spec_meshes() =~= ms.update(last as int,
                    MeshModel { vertices: ms.last().vertices.push(v.spec_coords()), indices: ms.last().indices }));
            }
            return Ok(());
        }
        if is_word(&toks[0], 'f') {
            if model.meshes.len() == 0 {
                return Err(LineFault::Error(ObjParseError::NotParsingMesh));
            }
            let args = slice_tail(rest);
            let f = Self::face_from_tokens(args)?;
            let last = model.meshes.len() - 1;
            model.meshes[last].indices.push(f[0]);
            model.meshes[last].indices.push(f[1]);
            model.meshes[last].indices.push(f[2]);
            proof {
                let ms = old(model).spec_meshes();
                assert(model.meshes@.len() == old(model).meshes@.len());
                assert forall|i: int| 0 <= i < ms.len() && i != last implies
                    #[trigger] model.spec_meshes()[i] == ms[i] by {
                    assert(model.meshes@[i] == old(model).meshes@[i]);
                }
                assert(model.spec_meshes()[last as int].vertices =~= ms.last().vertices);
                assert(model.spec_meshes()[last as int].indices =~= ms.last().indices + f@);
                assert(model.spec_meshes() =~= ms.update(last as int,
                    MeshModel { vertices: ms.last().vertices, indices: ms.last().indices + f@ }));
            }
            return Ok(());
        }
        if is_word(&toks[0], '#') || is_word(&toks[0], 's') {
            return Ok(());
        }
        Err(LineFault::Error(ObjParseError::UnsupportedKeyword))
    }

    /// Reads one line of OBJ text into `model`.
    pub fn parse_line(line: &str, model: &mut Model) -> (r: Result<(), ObjParseError>)
        requires
            !(line_effect(tokens(line@), old(model).meshes@.len() > 0) is Abort),
        ensures
            match r {
                Ok(()) => apply_effect(old(model).spec_meshes(), line_effect(tokens(line@), old(model).meshes@.len() > 0))
                    == ParseState::Parsing(final(model).spec_meshes()),
                Err(e) => apply_effect(old(model).spec_meshes(), line_effect(tokens(line@), old(model).meshes@.len() > 0))
                    == ParseState::Failed(e),
            },
            r is Err ==> *final(model) == *old(model),
    {
        let chars = chars_of(line);
        let toks = tokenize(chars.as_slice());
        match Self::apply_tokens(&toks, model) {
            Ok(()) => Ok(()),
            Err(LineFault::Error(e)) => Err(e),
            Err(LineFault::ZeroIndex) => {
                assert(false);
                Err(ObjParseError::VertexIndexNotFound)
            },
        }
    }

    fn read_text(data: &str) -> (r: Result<Model, LineFault>)
        ensures
            match r {
                Ok(m) => spec_parse_obj(data@) == ParseState::Parsing(m.spec_meshes()),
                Err(LineFault::Error(e)) => spec_parse_obj(data@) == ParseState::Failed(e),
                Err(LineFault::ZeroIndex) => spec_parse_obj(data@) is Aborted,
            },
    {
        let chars = chars_of(data);
        let lines = lines_of(chars.as_slice());
        let ghost ls = split_lines(data@);
        let mut model = Model { meshes: Vec::new() };
        assert(model.spec_meshes() =~= Seq::<MeshModel>::empty());
        let mut i: usize = 0;
        while i < lines.len()
            invariant
                rows(lines@) == ls,
                ls == split_lines(data@),
                i <= lines@.len(),
                parse_lines(ls, i as nat) == ParseState::Parsing(model.spec_meshes()),
            decreases lines@.len() - i,
        {
            let toks = tokenize(lines[i].as_slice());
            assert(ls[i as int] == lines@[i as int]@);
            match Self::apply_tokens(&toks, &mut model) {
                Ok(()) => {},
                Err(fault) => {
                    proof { law_first_error_is_final(ls, (i + 1) as nat, ls.len()); }
                    return Err(fault);
                },
            }
            i = i + 1;
        }
        Ok(model)
    }

    /// Reads OBJ text line by line; stops at the first line that fails.
    pub fn parse_obj(data: &str) -> (r: Result<Model, ParseError>)
        requires
            !(spec_parse_obj(data@) is Aborted),
        ensures
            match r {
                Ok(m) => spec_parse_obj(data@) == ParseState::Parsing(m.spec_meshes()),
                Err(ParseError::ObjParseError(e)) => spec_parse_obj(data@) == ParseState::Failed(e),
            },
    {
        match Self::read_text(data) {
            Ok(model) => Ok(model),
            Err(LineFault::Error(e)) => Err(ParseError::ObjParseError(e)),
            Err(LineFault::ZeroIndex) => {
                assert(false);
                Err(ParseError::ObjParseError(ObjParseError::VertexIndexNotFound))
            },
        }
    }

    /// Whether reading `data` reaches a face index of 0 (which counts
    /// vertices from 1): the texts that [`ObjParser::parse_obj`] does not
    /// accept.
    pub fn reaches_zero_index(data: &str) -> (b: bool)
        ensures
            b == (spec_parse_obj(data@) is Aborted),
    {
        match Self::read_text(data) {
            Err(LineFault::ZeroIndex) => true,
            _ => false,
        }
    }
}

/// A reader of model text.
pub trait ModelParser {
    /// The texts this reader can be given.
    spec fn accepts(data: Seq<char>) -> bool;

    /// Reads a model from text.
    fn parse_model(data: &str) -> (r: Result<Model, ParseError>)
        requires
            Self::accepts(data@),
    ;
}

impl ModelParser for ObjParser {
    /// Any text without a face index of 0.
    open spec fn accepts(data: Seq<char>) -> bool {
        !(spec_parse_obj(data) is Aborted)
    }

    fn parse_model(data: &str) -> (r: Result<Model, ParseError>)
        ensures
            match r {
                Ok(m) => spec_parse_obj(data@) == ParseState::Parsing(m.spec_meshes()),
                Err(ParseError::ObjParseError(e)) => spec_parse_obj(data@) == ParseState::Failed(e),
            },
    {
        ObjParser::parse_obj(data)
    }
}

/// `s` without its first element.
fn slice_tail(s: &[Vec<char>]) -> (r: &[Vec<char>])
    requires
        s@.len() > 0,
    ensures
        r@ == s@.skip(1),
{
    let (_, tail) = s.split_at(1);
    tail
}

/// Once a line fails (or aborts), reading more lines changes nothing: the
/// outcome of the whole text is that of the first failing line.
pub proof fn law_first_error_is_final(lines: Seq<Seq<char>>, n: nat, m: nat)
    requires
        n <= m,
    ensures
        !(parse_lines(lines, n) is Parsing) ==> parse_lines(lines, m) == parse_lines(lines, n),
    decreases m - n,
{
    if n < m {
        law_first_error_is_final(lines, n, (m - 1) as nat);
    }
}

/// A face line read while a mesh is open adds its three indices, in order,
/// after those of the mesh opened last (the one the latest `o` line
/// started); that mesh keeps its vertices and every other mesh stays as it
/// was.
pub proof fn law_face_extends_last_mesh(
    before: Seq<MeshModel>,
    after: Seq<MeshModel>,
    toks: Seq<Seq<char>>,
    f: Seq<u16>,
)
    requires
        before.len() > 0,
        toks.len() > 0,
        toks[0] == seq!['f'],
        face_effect(toks.drop_first()) == LineEffect::AddFace(f),
        apply_effect(before, line_effect(toks, true)) == ParseState::Parsing(after),
    ensures
        after.len() == before.len(),
        after.last().indices == before.last().indices + f,
        after.last().vertices == before.last().vertices,
        forall|i: int| 0 <= i < before.len() - 1 ==> #[trigger] after[i] == before[i],
{
    assert(toks[0] != seq!['o']) by {
        if toks[0] == seq!['o'] {
            assert(toks[0][0] == 'o');
        }
    }
    assert(toks[0] != seq!['v']) by {
        if toks[0] == seq!['v'] {
            assert(toks[0][0] == 'v');
        }
    }
}

/// A vertex line read while a mesh is open adds its three coordinates as
/// the last vertex of the mesh opened last; that mesh keeps its indices and
/// every other mesh stays as it was.
pub proof fn law_vertex_extends_last_mesh(
    before: Seq<MeshModel>,
    after: Seq<MeshModel>,
    toks: Seq<Seq<char>>,
    v: Seq<Seq<char>>,
)
    requires
        before.len() > 0,
        toks.len() > 0,
        toks[0] == seq!['v'],
        vertex_effect(toks.drop_first()) == LineEffect::AddVertex(v),
        apply_effect(before, line_effect(toks, true)) == ParseState::Parsing(after),
    ensures
        after.len() == before.len(),
        after.last().vertices == before.last().vertices.push(v),
        after.last().indices == before.last().indices,
        forall|i: int| 0 <= i < before.len() - 1 ==> #[trigger] after[i] == before[i],
{
    assert(toks[0] != seq!['o']) by {
        if toks[0] == seq!['o'] {
            assert(toks[0][0] == 'o');
        }
    }
}

/// An `o` line opens a new, empty mesh after all the meshes before it,
/// which stay as they were.
pub proof fn law_object_opens_mesh(before: Seq<MeshModel>, after: Seq<MeshModel>, toks: Seq<Seq<char>>, has_mesh: bool)
    requires
        toks.len() > 0,
        toks[0] == seq!['o'],
        apply_effect(before, line_effect(toks, has_mesh)) == ParseState::Parsing(after),
    ensures
        after.len() == before.len() + 1,
        after.last().vertices.len() == 0,
        after.last().indices.len() == 0,
        forall|i: int| 0 <= i < before.len() ==> #[trigger] after[i] == before[i],
{
}

/// A face's indices are the face line's three one-based vertex numbers, in
/// order, each less one; a vertex's coordinates are the vertex line's first
/// three arguments, in order, each a number.
pub proof fn law_line_values(args: Seq<Seq<char>>, f: Seq<u16>, v: Seq<Seq<char>>)
    ensures
        face_effect(args) == LineEffect::AddFace(f) ==> {
            &&& f.len() == 3
            &&& args.len() >= 3
            &&& forall|k: int| 0 <= k < 3 ==> spec_parse_u16(#[trigger] args[k]) == Ok::<u16, IntErrorKind>(
                (f[k] + 1) as u16,
            ) && f[k] + 1 <= u16::MAX
        },
        vertex_effect(args) == LineEffect::AddVertex(v) ==> {
            &&& v.len() == 3
            &&& forall|k: int| 0 <= k < 3 ==> #[trigger] v[k] == args[k] && is_float_literal(args[k])
        },
{
    if face_effect(args) == LineEffect::AddFace(f) {
        assert forall|k: int| 0 <= k < 3 implies spec_parse_u16(#[trigger] args[k]) == Ok::<u16, IntErrorKind>(
            (f[k] + 1) as u16,
        ) && f[k] + 1 <= u16::MAX by {
            assert(index_read(args, k) is Read);
        }
    }
}

} // verus!
