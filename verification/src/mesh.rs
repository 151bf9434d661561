//! The records of a mesh: vertices with their normals, and faces.
//!
//! A coordinate is a 32-bit float. This module never computes with one, so it
//! holds each as its IEEE 754 bit pattern, a `u32`; the bit pattern 0 is the
//! float 0.0.

use crate::ply::{
    float_in, keys_of, record_keys, record_values, records_view, uint_list_in, value_in, value_of,
    RecordView, Value, ValueView,
};
use crate::text::same_text;
use vstd::prelude::*;

verus! {

/// A point of the mesh: where it is, and where it lies on a texture.
#[derive(Clone, Copy, Debug, PartialEq, Eq)]
pub struct Vertex {
    pub position: (u32, u32, u32),
    pub tex_coords: [u32; 2],
}

/// The direction that the surface faces at a vertex.
#[derive(Clone, Copy, Debug, PartialEq, Eq)]
pub struct Normal {
    pub normal: (u32, u32, u32),
}

/// A vertex together with its normal: one record of the element `vertex`.
#[derive(Clone, Copy, Debug, PartialEq, Eq)]
pub struct Shape {
    pub vertex: Vertex,
    pub normali: Normal,
}

/// One record of the element `face`: the vertices of a polygon, each by its
/// place in the list of vertices.
#[derive(Clone, Debug, PartialEq, Eq)]
pub struct Face {
    pub vertex_index: Vec<u32>,
}

impl View for Face {
    type V = Seq<u32>;

    open spec fn view(&self) -> Seq<u32> {
        self.vertex_index@
    }
}

/// The coordinate that a record with the values `values` gives under `key`:
/// the float there, or 0 where there is none.
pub open spec fn coordinate(values: Map<Seq<char>, ValueView>, key: Seq<char>) -> u32 {
    match float_in(values, key) {
        Some(bits) => bits,
        None => 0,
    }
}

/// The keys of the six coordinates differ from one another.
pub proof fn lemma_coordinate_keys_differ()
    ensures
        "x"@ != "y"@,
        "x"@ != "z"@,
        "x"@ != "nx"@,
        "x"@ != "ny"@,
        "x"@ != "nz"@,
        "y"@ != "z"@,
        "y"@ != "nx"@,
        "y"@ != "ny"@,
        "y"@ != "nz"@,
        "z"@ != "nx"@,
        "z"@ != "ny"@,
        "z"@ != "nz"@,
        "nx"@ != "ny"@,
        "nx"@ != "nz"@,
        "ny"@ != "nz"@,
{
    reveal_strlit("x");
    reveal_strlit("y");
    reveal_strlit("z");
    reveal_strlit("nx");
    reveal_strlit("ny");
    reveal_strlit("nz");
    assert("x"@[0] == 'x' && "y"@[0] == 'y' && "z"@[0] == 'z');
    assert("nx"@[1] == 'x' && "ny"@[1] == 'y' && "nz"@[1] == 'z');
}

/// A record without values stands for the blank shape.
proof fn lemma_blank_shape(values: Map<Seq<char>, ValueView>)
    ensures
        Shape::of_values(values.restrict(Set::empty())) == Shape::blank(),
{
}

/// Storing the value under one more key gives the shape of the values under
/// the keys stored so far and that key.
proof fn lemma_shape_with_property(
    shape: Shape,
    values: Map<Seq<char>, ValueView>,
    done: Set<Seq<char>>,
    key: Seq<char>,
)
    requires
        shape == Shape::of_values(values.restrict(done)),
        values.contains_key(key),
    ensures
        shape.with_property(key, value_in(values, key)) == Shape::of_values(
            values.restrict(done.insert(key)),
        ),
{
    lemma_coordinate_keys_differ();
    let before = values.restrict(done);
    let after = values.restrict(done.insert(key));
    assert forall|other: Seq<char>| other != key implies coordinate(after, other) == coordinate(
        before,
        other,
    ) by {}
    assert(value_in(after, key) == value_in(values, key));
}

/// No key is left unread where there is no key.
proof fn lemma_unread_of_none(values: Map<Seq<char>, ValueView>)
    ensures
        Face::unread(Seq::empty(), values) == Seq::<Seq<char>>::empty(),
{
    reveal(Seq::filter);
}

/// Storing the value under one more key gives the face of the values under
/// the keys stored so far and that key.
proof fn lemma_face_with_property(
    indices: Seq<u32>,
    values: Map<Seq<char>, ValueView>,
    done: Set<Seq<char>>,
    key: Seq<char>,
)
    requires
        indices == Face::of_values(values.restrict(done)),
        values.contains_key(key),
    ensures
        Face::with_property(indices, key, value_in(values, key)) == Face::of_values(
            values.restrict(done.insert(key)),
        ),
{
    let before = values.restrict(done);
    let after = values.restrict(done.insert(key));
    assert(value_in(after, key) == value_in(values, key));
    if key != "vertex_indices"@ {
        assert(value_in(after, "vertex_indices"@) == value_in(before, "vertex_indices"@));
    }
}

impl Vertex {
    /// The vertex at the origin, with texture coordinates 0.
    pub open spec fn origin() -> Vertex {
        Vertex { position: (0, 0, 0), tex_coords: [0, 0] }
    }

    pub fn new() -> (vertex: Self)
        ensures
            vertex == Self::origin(),
    {
        Vertex { position: (0, 0, 0), tex_coords: [0, 0] }
    }
}

impl Normal {
    /// The normal of length 0.
    pub open spec fn zero() -> Normal {
        Normal { normal: (0, 0, 0) }
    }

    pub fn new() -> (normal: Self)
        ensures
            normal == Self::zero(),
    {
        Normal { normal: (0, 0, 0) }
    }
}

impl Shape {
    /// The shape that a record without properties stands for.
    pub open spec fn blank() -> Shape {
        Shape { vertex: Vertex::origin(), normali: Normal::zero() }
    }

    /// The shape with one coordinate of its position replaced.
    pub open spec fn with_position(self, position: (u32, u32, u32)) -> Shape {
        Shape { vertex: Vertex { position, ..self.vertex }, ..self }
    }

    /// The shape with one coordinate of its normal replaced.
    pub open spec fn with_normal(self, normal: (u32, u32, u32)) -> Shape {
        Shape { normali: Normal { normal }, ..self }
    }

    /// The shape after the property `property` was stored under `key`: a float
    /// under `x`, `y` or `z` replaces that coordinate of the position, a float
    /// under `nx`, `ny` or `nz` that coordinate of the normal, and anything
    /// else leaves the shape as it is.
    pub open spec fn with_property(self, key: Seq<char>, property: ValueView) -> Shape {
        let p = self.vertex.position;
        let n = self.normali.normal;
        match property {
            ValueView::Float(v) => if key == "x"@ {
                self.with_position((v, p.1, p.2))
            } else if key == "y"@ {
                self.with_position((p.0, v, p.2))
            } else if key == "z"@ {
                self.with_position((p.0, p.1, v))
            } else if key == "nx"@ {
                self.with_normal((v, n.1, n.2))
            } else if key == "ny"@ {
                self.with_normal((n.0, v, n.2))
            } else if key == "nz"@ {
                self.with_normal((n.0, n.1, v))
            } else {
                self
            },
            _ => self,
        }
    }

    /// The shape that a record with the values `values` stands for: each
    /// coordinate is the float under its key, or 0 where there is none.
    pub open spec fn of_values(values: Map<Seq<char>, ValueView>) -> Shape {
        Shape {
            vertex: Vertex {
                position: (
                    coordinate(values, "x"@),
                    coordinate(values, "y"@),
                    coordinate(values, "z"@),
                ),
                tex_coords: [0, 0],
            },
            normali: Normal {
                normal: (
                    coordinate(values, "nx"@),
                    coordinate(values, "ny"@),
                    coordinate(values, "nz"@),
                ),
            },
        }
    }

    pub fn new() -> (shape: Self)
        ensures
            shape == Self::blank(),
    {
        Shape { vertex: Vertex::new(), normali: Normal::new() }
    }

    /// The shape that `record` stands for: the properties of the record are
    /// stored one by one, in the order of its keys.
    pub fn from_record(record: &ply_rs::ply::DefaultElement) -> (shape: Self)
        ensures
            shape == Self::of_values(record_values(*record)),
    {
        let keys = keys_of(record);
        let ghost values = record_values(*record);
        let ghost names = keys.deep_view();
        let mut shape = Shape::new();
        proof {
            assert(names.take(0).to_set() =~= Set::<Seq<char>>::empty());
            lemma_blank_shape(values);
        }
        for i in 0..keys.len()
            invariant
                names == keys.deep_view(),
                values == record_values(*record),
                names.to_set() == values.dom(),
                shape == Self::of_values(values.restrict(names.take(i as int).to_set())),
        {
            let value = value_of(record, keys[i].as_str());
            proof {
                let done = names.take(i as int).to_set();
                assert(names[i as int] == keys[i as int]@);
                names.lemma_take_succ_push(i as int);
                names.take(i as int).lemma_push_to_set_commute(names[i as int]);
                assert(names.to_set().contains(names[i as int]));
                lemma_shape_with_property(shape, values, done, names[i as int]);
            }
            shape.set_property(keys[i].clone(), value);
        }
        proof {
            assert(names.take(keys.len() as int) =~= names);
            assert(values.restrict(values.dom()) =~= values);
        }
        shape
    }

    /// Stores `property` under `key`.
    pub fn set_property(&mut self, key: String, property: Value)
        ensures
            *final(self) == old(self).with_property(key@, property@),
    {
        let key = key.as_str();
        match property {
            Value::Float(v) => {
                if same_text(key, "x") {
                    self.vertex.position.0 = v;
                } else if same_text(key, "y") {
                    self.vertex.position.1 = v;
                } else if same_text(key, "z") {
                    self.vertex.position.2 = v;
                } else if same_text(key, "nx") {
                    self.normali.normal.0 = v;
                } else if same_text(key, "ny") {
                    self.normali.normal.1 = v;
                } else if same_text(key, "nz") {
                    self.normali.normal.2 = v;
                }
            },
            _ => {},
        }
    }
}

impl Face {
    /// Whether a face reads `property` under `key`: only a list of unsigned
    /// integers under `vertex_indices`.
    pub open spec fn reads(key: Seq<char>, property: ValueView) -> bool {
        key == "vertex_indices"@ && property is ListUInt
    }

    /// The indices of a face after `property` was stored under `key`.
    pub open spec fn with_property(
        indices: Seq<u32>,
        key: Seq<char>,
        property: ValueView,
    ) -> Seq<u32> {
        if Self::reads(key, property) {
            property->ListUInt_0
        } else {
            indices
        }
    }

    /// The indices of the face that a record with the values `values`
    /// stands for: the list under `vertex_indices`, or none where there is no
    /// such list.
    pub open spec fn of_values(values: Map<Seq<char>, ValueView>) -> Seq<u32> {
        match uint_list_in(values, "vertex_indices"@) {
            Some(list) => list,
            None => Seq::empty(),
        }
    }

    /// Whether a face does not read what a record with the values `values`
    /// holds under a key.
    pub open spec fn unread_in(values: Map<Seq<char>, ValueView>) -> spec_fn(Seq<char>) -> bool {
        |key: Seq<char>| !Self::reads(key, value_in(values, key))
    }

    /// Those of the keys `keys` of a record under which a face reads nothing,
    /// in the order of `keys`.
    pub open spec fn unread(keys: Seq<Seq<char>>, values: Map<Seq<char>, ValueView>) -> Seq<
        Seq<char>,
    > {
        keys.filter(Self::unread_in(values))
    }

    pub fn new() -> (face: Self)
        ensures
            face@ == Seq::<u32>::empty(),
    {
        Face { vertex_index: Vec::new() }
    }

    /// The face that `record` stands for, and the keys of the record under
    /// which the face read nothing: the properties of the record are stored
    /// one by one, in the order of its keys.
    pub fn from_record(record: &ply_rs::ply::DefaultElement) -> (out: (Self, Vec<String>))
        ensures
            out.0@ == Self::of_values(record_values(*record)),
            out.1.deep_view() == Self::unread(record_keys(*record), record_values(*record)),
    {
        let keys = keys_of(record);
        let ghost values = record_values(*record);
        let ghost names = keys.deep_view();
        let mut face = Face::new();
        let mut unread: Vec<String> = Vec::new();
        proof {
            assert(names.take(0).to_set() =~= Set::<Seq<char>>::empty());
            assert(names.take(0) =~= Seq::<Seq<char>>::empty());
            assert(unread.deep_view() =~= Seq::<Seq<char>>::empty());
            lemma_unread_of_none(values);
        }
        for i in 0..keys.len()
            invariant
                names == keys.deep_view(),
                names == record_keys(*record),
                values == record_values(*record),
                names.to_set() == values.dom(),
                face@ == Self::of_values(values.restrict(names.take(i as int).to_set())),
                unread.deep_view() == Self::unread(names.take(i as int), values),
        {
            let value = value_of(record, keys[i].as_str());
            let key = keys[i].clone();
            let ghost before = unread.deep_view();
            proof {
                let done = names.take(i as int).to_set();
                assert(names[i as int] == keys[i as int]@);
                names.lemma_take_succ_push(i as int);
                names.take(i as int).lemma_push_to_set_commute(names[i as int]);
                names.take(i as int).lemma_filter_push(names[i as int], Self::unread_in(values));
                assert(names.to_set().contains(names[i as int]));
                lemma_face_with_property(face@, values, done, names[i as int]);
            }
            let read = face.set_property(keys[i].clone(), value);
            if !read {
                unread.push(key);
                assert(unread.deep_view() =~= before.push(names[i as int]));
            }
        }
        proof {
            assert(names.take(keys.len() as int) =~= names);
            assert(values.restrict(values.dom()) =~= values);
        }
        (face, unread)
    }

    /// Stores `property` under `key`, and says whether the face reads it. A
    /// property that it does not read leaves the face as it is.
    pub fn set_property(&mut self, key: String, property: Value) -> (read: bool)
        ensures
            read == Self::reads(key@, property@),
            final(self)@ == Self::with_property(old(self)@, key@, property@),
    {
        match property {
            Value::ListUInt(list) => {
                if same_text(key.as_str(), "vertex_indices") {
                    self.vertex_index = list;
                    true
                } else {
                    false
                }
            },
            _ => false,
        }
    }
}

/// The shapes that the records of an element `vertex` stand for, in order.
pub open spec fn shapes_of(records: Seq<RecordView>) -> Seq<Shape> {
    records.map_values(|record: RecordView| Shape::of_values(record.values))
}

/// The index lists of the faces that the records of an element `face` stand
/// for, in order.
pub open spec fn faces_of(records: Seq<RecordView>) -> Seq<Seq<u32>> {
    records.map_values(|record: RecordView| Face::of_values(record.values))
}

/// The keys under which the faces of the records of an element `face` read
/// nothing: those of the first record, then those of the second, and so on.
pub open spec fn unread_of(records: Seq<RecordView>) -> Seq<Seq<char>> {
    records.map_values(|record: RecordView| Face::unread(record.keys, record.values)).flatten()
}

/// The index list of each face.
pub open spec fn face_lists(faces: Seq<Face>) -> Seq<Seq<u32>> {
    faces.map_values(|face: Face| face@)
}

/// Reads each record of an element `vertex` as a shape.
pub fn read_shapes(records: &Vec<ply_rs::ply::DefaultElement>) -> (shapes: Vec<Shape>)
    ensures
        shapes@ == shapes_of(records_view(records@)),
{
    let mut shapes: Vec<Shape> = Vec::new();
    for i in 0..records.len()
        invariant
            shapes@ == shapes_of(records_view(records@.take(i as int))),
    {
        let shape = Shape::from_record(&records[i]);
        proof {
            records@.lemma_take_succ_push(i as int);
            assert(shapes_of(records_view(records@.take(i as int).push(records@[i as int])))
                =~= shapes_of(records_view(records@.take(i as int))).push(shape));
        }
        shapes.push(shape);
    }
    proof {
        assert(records@.take(records.len() as int) =~= records@);
    }
    shapes
}

/// Reads each record of an element `face` as a face, and collects the keys
/// under which the faces read nothing.
pub fn read_faces(records: &Vec<ply_rs::ply::DefaultElement>) -> (out: (Vec<Face>, Vec<String>))
    ensures
        face_lists(out.0@) == faces_of(records_view(records@)),
        out.1.deep_view() == unread_of(records_view(records@)),
{
    let mut faces: Vec<Face> = Vec::new();
    let mut unread: Vec<String> = Vec::new();
    let ghost per_record = |record: RecordView| Face::unread(record.keys, record.values);
    proof {
        assert(unread.deep_view() =~= Seq::<Seq<char>>::empty());
        assert(records_view(records@.take(0)).map_values(per_record) =~= Seq::<
            Seq<Seq<char>>,
        >::empty());
        assert(face_lists(faces@) =~= faces_of(records_view(records@.take(0))));
    }
    for i in 0..records.len()
        invariant
            per_record == |record: RecordView| Face::unread(record.keys, record.values),
            face_lists(faces@) == faces_of(records_view(records@.take(i as int))),
            unread.deep_view() == records_view(records@.take(i as int)).map_values(
                per_record,
            ).flatten(),
    {
        let (face, mut keys) = Face::from_record(&records[i]);
        let ghost before = unread.deep_view();
        let ghost added = keys.deep_view();
        proof {
            let done = records@.take(i as int);
            let next = done.push(records@[i as int]);
            records@.lemma_take_succ_push(i as int);
            assert(faces_of(records_view(next)) =~= faces_of(records_view(done)).push(face@));
            assert(face_lists(faces@.push(face)) =~= face_lists(faces@).push(face@));
            assert(records_view(next).map_values(per_record) =~= records_view(done).map_values(
                per_record,
            ).push(added));
            records_view(done).map_values(per_record).lemma_flatten_push(added);
        }
        faces.push(face);
        unread.append(&mut keys);
        assert(unread.deep_view() =~= before + added);
    }
    proof {
        assert(records@.take(records.len() as int) =~= records@);
    }
    (faces, unread)
}

/// Writes the indices of all faces one behind the other: those of the first
/// face, then those of the second, and so on.
pub fn flatten_faces(faces: &Vec<Face>) -> (flat: Vec<u32>)
    ensures
        flat@ == face_lists(faces@).flatten(),
{
    let mut flat: Vec<u32> = Vec::new();
    proof {
        assert(face_lists(faces@.take(0)) =~= Seq::<Seq<u32>>::empty());
    }
    for i in 0..faces.len()
        invariant
            flat@ == face_lists(faces@.take(i as int)).flatten(),
    {
        let face = &faces[i];
        let ghost before = flat@;
        for k in 0..face.vertex_index.len()
            invariant
                face == faces@[i as int],
                flat@ == before + face@.take(k as int),
        {
            flat.push(face.vertex_index[k]);
            assert(face@.take(k + 1) =~= face@.take(k as int).push(face@[k as int]));
        }
        proof {
            let done = faces@.take(i as int);
            assert(face@.take(face@.len() as int) =~= face@);
            faces@.lemma_take_succ_push(i as int);
            assert(face_lists(done.push(faces@[i as int])) =~= face_lists(done).push(face@));
            face_lists(done).lemma_flatten_push(face@);
        }
    }
    proof {
        assert(faces@.take(faces.len() as int) =~= faces@);
    }
    flat
}

/// Where every face is a triangle, the indices written one behind the other
/// are three times as many as there are faces.
pub proof fn lemma_triangles_flatten(lists: Seq<Seq<u32>>)
    requires
        forall|i: int| 0 <= i < lists.len() ==> (#[trigger] lists[i]).len() == 3,
    ensures
        lists.flatten().len() == 3 * lists.len(),
    decreases lists.len(),
{
    if lists.len() > 0 {
        let rest = lists.drop_last();
        assert(rest.push(lists.last()) =~= lists);
        lemma_triangles_flatten(rest);
        rest.lemma_flatten_push(lists.last());
    }
}

/// Of two floats stored under one key of a shape, the later one stays.
pub proof fn lemma_shape_last_write_wins(shape: Shape, key: Seq<char>, first: u32, second: u32)
    ensures
        shape.with_property(key, ValueView::Float(first)).with_property(
            key,
            ValueView::Float(second),
        ) == shape.with_property(key, ValueView::Float(second)),
{
    lemma_coordinate_keys_differ();
}

/// Of two lists stored under one key of a face, the later one stays.
pub proof fn lemma_face_last_write_wins(
    indices: Seq<u32>,
    key: Seq<char>,
    first: Seq<u32>,
    second: Seq<u32>,
)
    ensures
        Face::with_property(
            Face::with_property(indices, key, ValueView::ListUInt(first)),
            key,
            ValueView::ListUInt(second),
        ) == Face::with_property(indices, key, ValueView::ListUInt(second)),
{
}

/// A mesh without vertices in which every index names a vertex has no index.
pub proof fn lemma_no_vertices_no_indices(mesh: Mesh)
    requires
        mesh.well_formed(),
        mesh.shapes@.len() == 0,
    ensures
        mesh.indices@.len() == 0,
{
    if mesh.indices@.len() > 0 {
        assert(mesh.indices@[0] < mesh.shapes@.len());
    }
}

/// A mesh: its vertices with their normals, and the indices of its faces one
/// behind the other, three for each triangle.
#[derive(Clone, Debug, PartialEq, Eq)]
pub struct Mesh {
    pub shapes: Vec<Shape>,
    pub indices: Vec<u32>,
}

/// What a [`Mesh`] holds.
pub struct MeshView {
    pub shapes: Seq<Shape>,
    pub indices: Seq<u32>,
}

impl View for Mesh {
    type V = MeshView;

    open spec fn view(&self) -> MeshView {
        MeshView { shapes: self.shapes@, indices: self.indices@ }
    }
}

/// Whether each of `indices` names one of `vertices` vertices.
pub open spec fn indices_in_range(indices: Seq<u32>, vertices: nat) -> bool {
    forall|i: int| 0 <= i < indices.len() ==> (#[trigger] indices[i]) < vertices
}

impl Mesh {
    /// Whether every index names a vertex of the mesh.
    pub open spec fn well_formed(&self) -> bool {
        indices_in_range(self.indices@, self.shapes@.len())
    }

    /// The vertices of the mesh, in order.
    pub fn vertex_list(&self) -> (vertices: Vec<Vertex>)
        ensures
            vertices@ == self.shapes@.map_values(|shape: Shape| shape.vertex),
            vertices@.len() == self.shapes@.len(),
    {
        let mut vertices: Vec<Vertex> = Vec::new();
        for i in 0..self.shapes.len()
            invariant
                vertices@ == self.shapes@.take(i as int).map_values(|shape: Shape| shape.vertex),
        {
            proof {
                self.shapes@.lemma_take_succ_push(i as int);
                assert(self.shapes@.take(i as int).push(self.shapes@[i as int]).map_values(
                    |shape: Shape| shape.vertex,
                ) =~= vertices@.push(self.shapes@[i as int].vertex));
            }
            vertices.push(self.shapes[i].vertex);
        }
        proof {
            assert(self.shapes@.take(self.shapes.len() as int) =~= self.shapes@);
        }
        vertices
    }

    /// The normals of the mesh, one for each vertex and in the same order.
    pub fn normal_list(&self) -> (normals: Vec<Normal>)
        ensures
            normals@ == self.shapes@.map_values(|shape: Shape| shape.normali),
            normals@.len() == self.shapes@.len(),
    {
        let mut normals: Vec<Normal> = Vec::new();
        for i in 0..self.shapes.len()
            invariant
                normals@ == self.shapes@.take(i as int).map_values(|shape: Shape| shape.normali),
        {
            proof {
                self.shapes@.lemma_take_succ_push(i as int);
                assert(self.shapes@.take(i as int).push(self.shapes@[i as int]).map_values(
                    |shape: Shape| shape.normali,
                ) =~= normals@.push(self.shapes@[i as int].normali));
            }
            normals.push(self.shapes[i].normali);
        }
        proof {
            assert(self.shapes@.take(self.shapes.len() as int) =~= self.shapes@);
        }
        normals
    }

    /// Whether every index names a vertex of the mesh.
    pub fn check_indices(&self) -> (ok: bool)
        ensures
            ok == self.well_formed(),
    {
        for i in 0..self.indices.len()
            invariant
                indices_in_range(self.indices@.take(i as int), self.shapes@.len()),
        {
            if self.indices[i] as usize >= self.shapes.len() {
                return false;
            }
            assert forall|k: int| 0 <= k < i + 1 implies (#[trigger] self.indices@.take(
                i + 1,
            )[k]) < self.shapes@.len() by {
                if k < i {
                    assert(self.indices@.take(i as int)[k] == self.indices@[k]);
                }
            }
        }
        proof {
            assert(self.indices@.take(self.indices.len() as int) =~= self.indices@);
        }
        true
    }
}

} // verus!
