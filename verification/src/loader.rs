//! Loading a mesh from the bytes of a PLY file.
//!
//! A PLY file is a header that declares elements, each with a name, a number
//! of records and the properties of a record, and behind it the records of
//! each element in the order of the header. A mesh is made of two elements:
//! `vertex`, whose records are read as shapes, and `face`, whose records are
//! read as faces and written one behind the other as the indices of the mesh.

use crate::header::{check_numbers, numbers_fit};
use crate::mesh::{
    faces_of, flatten_faces, indices_in_range, lemma_triangles_flatten, read_faces, read_shapes,
    shapes_of, unread_of, Face, Mesh, MeshView,
};
use crate::ply::{
    parsed_header, parsed_payload, read_header, read_payload, records_view, RecordView,
};
use crate::text::same_text;
use vstd::prelude::*;

verus! {

/// Why a file gives no mesh.
#[derive(Clone, Debug, PartialEq, Eq)]
pub enum MeshError {
    /// The header or the records of an element cannot be decoded.
    Parse,
    /// The header declares an element, named here, that is neither `vertex`
    /// nor `face`.
    UnexpectedElement(String),
    /// A face names a vertex that the mesh does not have.
    IndexOutOfRange,
}

/// What a [`MeshError`] holds.
pub enum MeshErrorView {
    Parse,
    UnexpectedElement(Seq<char>),
    IndexOutOfRange,
}

impl View for MeshError {
    type V = MeshErrorView;

    open spec fn view(&self) -> MeshErrorView {
        match self {
            MeshError::Parse => MeshErrorView::Parse,
            MeshError::UnexpectedElement(name) => MeshErrorView::UnexpectedElement(name@),
            MeshError::IndexOutOfRange => MeshErrorView::IndexOutOfRange,
        }
    }
}

/// The elements that a mesh is made of.
#[derive(Clone, Copy, Debug, PartialEq, Eq, Structural)]
pub enum ElementKind {
    Vertex,
    Face,
}

/// A mesh as a file gave it, with what the loader has to remark: the key of
/// every property of a face that it did not read, in the order of the file.
#[derive(Clone, Debug, PartialEq, Eq)]
pub struct Model {
    pub mesh: Mesh,
    pub warnings: Vec<String>,
}

/// What a [`Model`] holds.
pub struct ModelView {
    pub mesh: MeshView,
    pub warnings: Seq<Seq<char>>,
}

impl View for Model {
    type V = ModelView;

    open spec fn view(&self) -> ModelView {
        ModelView { mesh: self.mesh@, warnings: self.warnings.deep_view() }
    }
}

/// The element that `name` names, if it is one of a mesh.
pub open spec fn kind_of(name: Seq<char>) -> Option<ElementKind> {
    if name == "vertex"@ {
        Some(ElementKind::Vertex)
    } else if name == "face"@ {
        Some(ElementKind::Face)
    } else {
        None
    }
}

/// The model without vertices, faces and warnings.
pub open spec fn empty_model() -> ModelView {
    ModelView {
        mesh: MeshView { shapes: Seq::empty(), indices: Seq::empty() },
        warnings: Seq::empty(),
    }
}

/// The model after the records of an element were read: those of `vertex`
/// become the shapes of the mesh; those of `face` become its indices, and the
/// keys that the faces did not read are added to the warnings.
pub open spec fn after_records(
    model: ModelView,
    kind: ElementKind,
    records: Seq<RecordView>,
) -> ModelView {
    match kind {
        ElementKind::Vertex => ModelView {
            mesh: MeshView { shapes: shapes_of(records), ..model.mesh },
            ..model
        },
        ElementKind::Face => ModelView {
            mesh: MeshView { indices: faces_of(records).flatten(), ..model.mesh },
            warnings: model.warnings + unread_of(records),
        },
    }
}

/// The model as the loader hands it out: as it is where every index names a
/// vertex, and not at all where one does not.
pub open spec fn checked(model: ModelView) -> Result<ModelView, MeshErrorView> {
    if indices_in_range(model.mesh.indices, model.mesh.shapes.len()) {
        Ok(model)
    } else {
        Err(MeshErrorView::IndexOutOfRange)
    }
}

/// What reading the elements `elements` of the header of `input` from the
/// one at `index` on gives, for a loader that has the model `model` and
/// stands at `position`. The elements are taken in the order of the header.
/// One that is neither `vertex` nor `face` ends the reading, and so does one
/// that declares more records than there are bytes left, or whose records
/// cannot be decoded.
pub open spec fn elements_outcome(
    input: Seq<u8>,
    elements: Seq<(Seq<char>, usize)>,
    index: int,
    model: ModelView,
    position: int,
) -> Result<ModelView, MeshErrorView>
    decreases elements.len() - index,
{
    if index < 0 || index >= elements.len() {
        Ok(model)
    } else {
        let (name, count) = elements[index];
        match kind_of(name) {
            None => Err(MeshErrorView::UnexpectedElement(name)),
            Some(kind) => if count > input.len() - position {
                Err(MeshErrorView::Parse)
            } else {
                match parsed_payload(input, index, position) {
                    None => Err(MeshErrorView::Parse),
                    Some((records, next)) => elements_outcome(
                        input,
                        elements,
                        index + 1,
                        after_records(model, kind, records),
                        next as int,
                    ),
                }
            },
        }
    }
}

/// What loading the file `input` gives: its mesh, or the reason why there is
/// none. A header with a number that does not fit in 64 bits cannot be
/// decoded.
pub open spec fn load_outcome(input: Seq<u8>) -> Result<ModelView, MeshErrorView> {
    if !numbers_fit(input) {
        Err(MeshErrorView::Parse)
    } else {
        match parsed_header(input) {
            None => Err(MeshErrorView::Parse),
            Some((elements, length)) => match elements_outcome(
                input,
                elements,
                0,
                empty_model(),
                length as int,
            ) {
                Err(error) => Err(error),
                Ok(model) => checked(model),
            },
        }
    }
}

/// The view of what the loader returns.
pub open spec fn outcome_view(result: Result<Model, MeshError>) -> Result<
    ModelView,
    MeshErrorView,
> {
    match result {
        Ok(model) => Ok(model@),
        Err(error) => Err(error@),
    }
}

/// Where every record of an element `face` is a triangle, the mesh has
/// three indices for each record.
pub proof fn lemma_three_indices_per_triangle(model: ModelView, records: Seq<RecordView>)
    requires
        forall|i: int|
            0 <= i < records.len() ==> Face::of_values((#[trigger] records[i]).values).len() == 3,
    ensures
        after_records(model, ElementKind::Face, records).mesh.indices.len() == 3 * records.len(),
{
    lemma_triangles_flatten(faces_of(records));
}

/// The records of `vertex` and those of `face` are read independently of one
/// another: whichever of the two elements comes first, the model is the
/// same.
pub proof fn lemma_elements_in_either_order(
    model: ModelView,
    vertices: Seq<RecordView>,
    faces: Seq<RecordView>,
)
    ensures
        after_records(after_records(model, ElementKind::Vertex, vertices), ElementKind::Face, faces)
            == after_records(
            after_records(model, ElementKind::Face, faces),
            ElementKind::Vertex,
            vertices,
        ),
{
}

/// Every index of a mesh that a file gives names a vertex of that mesh.
pub proof fn lemma_loaded_indices_in_range(input: Seq<u8>)
    ensures
        load_outcome(input) matches Ok(model) ==> indices_in_range(
            model.mesh.indices,
            model.mesh.shapes.len(),
        ),
{
}

/// The element that `name` names, if it is one of a mesh.
pub fn element_kind(name: &str) -> (kind: Option<ElementKind>)
    ensures
        kind == kind_of(name@),
{
    if same_text(name, "vertex") {
        Some(ElementKind::Vertex)
    } else if same_text(name, "face") {
        Some(ElementKind::Face)
    } else {
        None
    }
}

impl Model {
    /// The model without vertices, faces and warnings.
    pub fn new() -> (model: Self)
        ensures
            model@ == empty_model(),
    {
        let model = Model {
            mesh: Mesh { shapes: Vec::new(), indices: Vec::new() },
            warnings: Vec::new(),
        };
        assert(model.warnings.deep_view() =~= Seq::<Seq<char>>::empty());
        model
    }

    /// Takes the records of an element of kind `kind` into the model.
    pub fn store(&mut self, kind: ElementKind, records: &Vec<ply_rs::ply::DefaultElement>)
        ensures
            final(self)@ == after_records(old(self)@, kind, records_view(records@)),
    {
        match kind {
            ElementKind::Vertex => {
                self.mesh.shapes = read_shapes(records);
            },
            ElementKind::Face => {
                let ghost before = self.warnings.deep_view();
                let (faces, mut unread) = read_faces(records);
                let ghost added = unread.deep_view();
                self.mesh.indices = flatten_faces(&faces);
                self.warnings.append(&mut unread);
                assert(self.warnings.deep_view() =~= before + added);
            },
        }
    }

    /// Hands the model out where every index names a vertex of the mesh.
    pub fn check(self) -> (result: Result<Model, MeshError>)
        ensures
            outcome_view(result) == checked(self@),
            result matches Ok(model) ==> model == self && model.mesh.well_formed(),
    {
        if self.mesh.check_indices() {
            Ok(self)
        } else {
            Err(MeshError::IndexOutOfRange)
        }
    }
}

/// Loads the mesh of the PLY file whose bytes are `input`.
///
/// The header is read first, then the records of each element in the order
/// of the header. The file gives no mesh where its header or the records of
/// an element cannot be decoded, where the header declares an element other
/// than `vertex` and `face`, which is told before the records of that element
/// are read, and where a face names a vertex that the mesh does not have. A
/// property of a face that the loader does not read is remarked in the
/// warnings of the model and is no error.
pub fn load_3d_model(input: &[u8]) -> (result: Result<Model, MeshError>)
    ensures
        outcome_view(result) == load_outcome(input@),
        result matches Ok(model) ==> model.mesh.well_formed(),
{
    if !check_numbers(input) {
        return Err(MeshError::Parse);
    }
    let (elements, length) = match read_header(input) {
        Ok(found) => found,
        Err(_) => {
            return Err(MeshError::Parse);
        },
    };
    let mut model = Model::new();
    let mut position: usize = length;
    for i in 0..elements.len()
        invariant
            numbers_fit(input@),
            parsed_header(input@) == Some((elements.deep_view(), length)),
            position <= input.len(),
            elements_outcome(input@, elements.deep_view(), i as int, model@, position as int)
                == elements_outcome(input@, elements.deep_view(), 0, empty_model(), length as int),
    {
        assert(elements.deep_view()[i as int] == (elements[i as int].0@, elements[i as int].1));
        let kind = match element_kind(elements[i].0.as_str()) {
            Some(kind) => kind,
            None => {
                return Err(MeshError::UnexpectedElement(elements[i].0.clone()));
            },
        };
        if elements[i].1 > input.len() - position {
            return Err(MeshError::Parse);
        }
        let (records, next) = match read_payload(input, i, position) {
            Ok(found) => found,
            Err(_) => {
                return Err(MeshError::Parse);
            },
        };
        model.store(kind, &records);
        position = next;
    }
    model.check()
}

} // verus!
