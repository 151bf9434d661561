use meshview::loader::{element_kind, load_3d_model, ElementKind, MeshError, Model};
use meshview::mesh::{Mesh, Normal, Shape, Vertex};

const TRIANGLE: &str = "ply\n\
format ascii 1.0\n\
comment one triangle\n\
element vertex 3\n\
property float x\n\
property float y\n\
property float z\n\
property float nx\n\
property float ny\n\
property float nz\n\
element face 1\n\
property list uchar uint vertex_indices\n\
end_header\n\
0 0 0 0 0 1\n\
1 0 0 0 0 1\n\
0 1 0.5 0 0 1\n\
3 0 1 2\n";

fn bits(x: f32) -> u32 {
    x.to_bits()
}

fn shape(p: (f32, f32, f32), n: (f32, f32, f32)) -> Shape {
    Shape {
        vertex: Vertex { position: (bits(p.0), bits(p.1), bits(p.2)), tex_coords: [0, 0] },
        normali: Normal { normal: (bits(n.0), bits(n.1), bits(n.2)) },
    }
}

fn load(text: &str) -> Result<Model, MeshError> {
    load_3d_model(text.as_bytes())
}

#[test]
fn loads_one_triangle() {
    let model = load(TRIANGLE).unwrap();
    assert_eq!(model.mesh.shapes.len(), 3);
    assert_eq!(model.mesh.vertex_list().len(), 3);
    assert_eq!(model.mesh.normal_list().len(), 3);
    assert_eq!(model.mesh.indices, vec![0, 1, 2]);
    assert!(model.warnings.is_empty());
    assert_eq!(
        model.mesh.shapes,
        vec![
            shape((0.0, 0.0, 0.0), (0.0, 0.0, 1.0)),
            shape((1.0, 0.0, 0.0), (0.0, 0.0, 1.0)),
            shape((0.0, 1.0, 0.5), (0.0, 0.0, 1.0)),
        ]
    );
}

#[test]
fn writes_three_indices_for_each_triangle() {
    let text = "ply\nformat ascii 1.0\nelement vertex 4\nproperty float x\nproperty float y\nproperty float z\n\
element face 2\nproperty list uchar uint vertex_indices\nend_header\n\
0 0 0\n1 0 0\n1 1 0\n0 1 0\n3 0 1 2\n3 2 3 0\n";
    let model = load(text).unwrap();
    assert_eq!(model.mesh.indices.len(), 3 * 2);
    assert_eq!(model.mesh.indices, vec![0, 1, 2, 2, 3, 0]);
    assert_eq!(model.mesh.shapes[2], shape((1.0, 1.0, 0.0), (0.0, 0.0, 0.0)));
}

#[test]
fn writes_every_index_of_a_face_that_is_no_triangle() {
    let text = "ply\nformat ascii 1.0\nelement vertex 4\nproperty float x\n\
element face 2\nproperty list uchar uint vertex_indices\nend_header\n\
0\n1\n2\n3\n4 0 1 2 3\n2 3 0\n";
    let model = load(text).unwrap();
    assert_eq!(model.mesh.indices, vec![0, 1, 2, 3, 3, 0]);
}

#[test]
fn rejects_an_index_without_a_vertex() {
    let text = "ply\nformat ascii 1.0\nelement vertex 3\nproperty float x\n\
element face 1\nproperty list uchar uint vertex_indices\nend_header\n\
0\n1\n2\n3 0 1 3\n";
    assert_eq!(load(text), Err(MeshError::IndexOutOfRange));
}

#[test]
fn accepts_the_last_vertex_as_an_index() {
    let text = "ply\nformat ascii 1.0\nelement vertex 3\nproperty float x\n\
element face 1\nproperty list uchar uint vertex_indices\nend_header\n\
0\n1\n2\n3 2 2 2\n";
    assert_eq!(load(text).unwrap().mesh.indices, vec![2, 2, 2]);
}

#[test]
fn rejects_an_unknown_element() {
    let text = "ply\nformat ascii 1.0\nelement vertex 1\nproperty float x\nelement edge 1\nproperty int a\nend_header\n1\n7\n";
    assert_eq!(load(text), Err(MeshError::UnexpectedElement("edge".to_string())));
}

#[test]
fn rejects_an_unknown_element_before_it_reads_a_later_one() {
    let text = "ply\nformat ascii 1.0\nelement edge 1\nproperty int a\nelement vertex 1\nproperty float x\nend_header\n7\n";
    assert_eq!(load(text), Err(MeshError::UnexpectedElement("edge".to_string())));
}

#[test]
fn reads_the_records_before_an_unknown_element() {
    let text = "ply\nformat ascii 1.0\nelement vertex 2\nproperty float x\nelement edge 1\nproperty int a\nend_header\n1\n";
    assert_eq!(load(text), Err(MeshError::Parse));
}

#[test]
fn rejects_a_file_without_the_magic_number() {
    assert_eq!(load("format ascii 1.0\nend_header\n"), Err(MeshError::Parse));
    assert_eq!(load(""), Err(MeshError::Parse));
}

#[test]
fn rejects_a_header_without_a_format() {
    assert_eq!(load("ply\nelement vertex 0\nend_header\n"), Err(MeshError::Parse));
}

#[test]
fn rejects_a_header_that_does_not_end() {
    assert_eq!(load("ply\nformat ascii 1.0\nelement vertex 0\n"), Err(MeshError::Parse));
}

#[test]
fn rejects_records_that_are_missing() {
    let text = "ply\nformat ascii 1.0\nelement vertex 3\nproperty float x\nend_header\n0\n1\n";
    assert_eq!(load(text), Err(MeshError::Parse));
}

#[test]
fn rejects_a_record_that_is_no_number() {
    let text = "ply\nformat ascii 1.0\nelement vertex 1\nproperty float x\nend_header\nabc\n";
    assert_eq!(load(text), Err(MeshError::Parse));
}

#[test]
fn rejects_a_face_with_fewer_indices_than_it_announces() {
    let text = "ply\nformat ascii 1.0\nelement vertex 3\nproperty float x\n\
element face 1\nproperty list uchar uint vertex_indices\nend_header\n0\n1\n2\n3 0 1\n";
    assert_eq!(load(text), Err(MeshError::Parse));
}

#[test]
fn rejects_a_number_too_large_for_the_header() {
    let text = "ply\nformat ascii 1.0\nelement vertex 99999999999999999999999\nproperty float x\nend_header\n";
    assert_eq!(load(text), Err(MeshError::Parse));
    let text = "ply\nformat ascii 1.99999999999999999999999\nelement vertex 0\nend_header\n";
    assert_eq!(load(text), Err(MeshError::Parse));
    let text = "element vertex 18446744073709551616\n";
    assert_eq!(load(text), Err(MeshError::Parse));
}

#[test]
fn accepts_long_numbers_where_the_header_reads_none() {
    let text = "ply\nformat ascii 1.0\ncomment 99999999999999999999999\nobj_info 99999999999999999999999\n\
element vertex 00000000000000000000000000001\nproperty float x\nend_header\n0.123456789012345678901234567890\n";
    let model = load(text).unwrap();
    assert_eq!(model.mesh.shapes, vec![shape((0.123456789012345678901234567890, 0.0, 0.0), (0.0, 0.0, 0.0))]);
}

#[test]
fn rejects_more_records_than_bytes() {
    let text = "ply\nformat ascii 1.0\nelement vertex 18446744073709551615\nend_header\n";
    assert_eq!(load(text), Err(MeshError::Parse));
    let text = "ply\nformat ascii 1.0\nelement vertex 3\nend_header\n\n\n";
    assert_eq!(load(text), Err(MeshError::Parse));
}

#[test]
fn reads_records_without_properties() {
    let text = "ply\nformat ascii 1.0\nelement vertex 2\nend_header\n\n\n";
    let model = load(text).unwrap();
    assert_eq!(model.mesh.shapes, vec![Shape::new(), Shape::new()]);
    assert!(model.mesh.indices.is_empty());
}

#[test]
fn loads_a_mesh_without_vertices() {
    let text = "ply\nformat ascii 1.0\nelement vertex 0\nproperty float x\nelement face 0\nproperty list uchar uint vertex_indices\nend_header\n";
    let model = load(text).unwrap();
    assert_eq!(model, Model { mesh: Mesh { shapes: vec![], indices: vec![] }, warnings: vec![] });
}

#[test]
fn loads_a_header_without_elements() {
    let model = load("ply\nformat ascii 1.0\nend_header\n").unwrap();
    assert!(model.mesh.shapes.is_empty());
    assert!(model.mesh.indices.is_empty());
}

#[test]
fn rejects_faces_of_a_mesh_without_vertices() {
    let text = "ply\nformat ascii 1.0\nelement vertex 0\nproperty float x\nelement face 1\nproperty list uchar uint vertex_indices\nend_header\n3 0 0 0\n";
    assert_eq!(load(text), Err(MeshError::IndexOutOfRange));
    let text = "ply\nformat ascii 1.0\nelement face 1\nproperty list uchar uint vertex_indices\nend_header\n3 0 1 2\n";
    assert_eq!(load(text), Err(MeshError::IndexOutOfRange));
}

#[test]
fn reads_faces_that_stand_before_the_vertices() {
    let text = "ply\nformat ascii 1.0\nelement face 1\nproperty list uchar uint vertex_indices\n\
element vertex 3\nproperty float x\nend_header\n3 2 1 0\n5\n6\n7\n";
    let model = load(text).unwrap();
    assert_eq!(model.mesh.indices, vec![2, 1, 0]);
    assert_eq!(model.mesh.shapes[0], shape((5.0, 0.0, 0.0), (0.0, 0.0, 0.0)));
    assert_eq!(model.mesh.shapes.len(), 3);
}

#[test]
fn ignores_properties_of_a_vertex_that_it_does_not_know() {
    let text = "ply\nformat ascii 1.0\nelement vertex 1\nproperty float x\nproperty uchar red\nproperty float s\nproperty double y\nproperty float nz\nend_header\n1.5 255 0.25 2.5 -1\n";
    let model = load(text).unwrap();
    assert_eq!(model.mesh.shapes, vec![shape((1.5, 0.0, 0.0), (0.0, 0.0, -1.0))]);
    assert!(model.warnings.is_empty());
}

#[test]
fn remarks_properties_of_a_face_that_it_does_not_read() {
    let text = "ply\nformat ascii 1.0\nelement vertex 3\nproperty float x\n\
element face 2\nproperty uchar flags\nproperty list uchar uint vertex_indices\nproperty float quality\nend_header\n\
0\n1\n2\n7 3 0 1 2 0.5\n8 3 2 1 0 0.25\n";
    let model = load(text).unwrap();
    assert_eq!(model.mesh.indices, vec![0, 1, 2, 2, 1, 0]);
    assert_eq!(model.warnings, vec!["flags", "quality", "flags", "quality"]);
}

#[test]
fn does_not_read_indices_of_another_type() {
    let text = "ply\nformat ascii 1.0\nelement vertex 3\nproperty float x\n\
element face 1\nproperty list uchar int vertex_indices\nend_header\n0\n1\n2\n3 0 1 2\n";
    let model = load(text).unwrap();
    assert!(model.mesh.indices.is_empty());
    assert_eq!(model.warnings, vec!["vertex_indices"]);
}

#[test]
fn loads_a_binary_file() {
    let mut bytes = b"ply\nformat binary_little_endian 1.0\nelement vertex 3\nproperty float x\nproperty float y\nproperty float z\n\
element face 1\nproperty list uchar uint vertex_indices\nend_header\n".to_vec();
    for v in [0.0f32, 0.0, 0.0, 1.0, 0.0, 0.0, 0.0, 1.0, -2.5] {
        bytes.extend_from_slice(&v.to_le_bytes());
    }
    bytes.push(3);
    for i in [0u32, 1, 2] {
        bytes.extend_from_slice(&i.to_le_bytes());
    }
    let model = load_3d_model(&bytes).unwrap();
    assert_eq!(model.mesh.indices, vec![0, 1, 2]);
    assert_eq!(model.mesh.shapes[2], shape((0.0, 1.0, -2.5), (0.0, 0.0, 0.0)));
    assert_eq!(model.mesh.shapes.len(), 3);
    bytes.pop();
    assert_eq!(load_3d_model(&bytes), Err(MeshError::Parse));
}

#[test]
fn loads_a_big_endian_file() {
    let mut bytes = b"ply\nformat binary_big_endian 1.0\nelement vertex 1\nproperty float nx\n\
element face 1\nproperty list uint uint vertex_indices\nend_header\n".to_vec();
    bytes.extend_from_slice(&0.75f32.to_be_bytes());
    bytes.extend_from_slice(&3u32.to_be_bytes());
    for i in [0u32, 0, 0] {
        bytes.extend_from_slice(&i.to_be_bytes());
    }
    let model = load_3d_model(&bytes).unwrap();
    assert_eq!(model.mesh.indices, vec![0, 0, 0]);
    assert_eq!(model.mesh.shapes, vec![shape((0.0, 0.0, 0.0), (0.75, 0.0, 0.0))]);
}

#[test]
fn keeps_the_bits_of_a_float_that_is_no_number() {
    let mut bytes = b"ply\nformat binary_little_endian 1.0\nelement vertex 1\nproperty float x\nend_header\n".to_vec();
    bytes.extend_from_slice(&0x7fc0_1234u32.to_le_bytes());
    let model = load_3d_model(&bytes).unwrap();
    assert_eq!(model.mesh.shapes[0].vertex.position.0, 0x7fc0_1234);
}

#[test]
fn reads_a_file_with_windows_line_ends() {
    let text = "ply\r\nformat ascii 1.0\r\nelement vertex 1\r\nproperty float x\r\nend_header\r\n4\r\n";
    assert_eq!(load(text).unwrap().mesh.shapes, vec![shape((4.0, 0.0, 0.0), (0.0, 0.0, 0.0))]);
}

#[test]
fn names_the_elements_of_a_mesh() {
    assert_eq!(element_kind("vertex"), Some(ElementKind::Vertex));
    assert_eq!(element_kind("face"), Some(ElementKind::Face));
    assert_eq!(element_kind("edge"), None);
    assert_eq!(element_kind("Vertex"), None);
    assert_eq!(element_kind(""), None);
}

#[test]
fn hands_out_a_model_whose_indices_name_vertices() {
    let good = Model {
        mesh: Mesh { shapes: vec![Shape::new(), Shape::new()], indices: vec![1, 0, 1] },
        warnings: vec!["a".to_string()],
    };
    assert_eq!(good.clone().check(), Ok(good));
    let bad = Model {
        mesh: Mesh { shapes: vec![Shape::new(), Shape::new()], indices: vec![1, 2, 1] },
        warnings: vec![],
    };
    assert_eq!(bad.check(), Err(MeshError::IndexOutOfRange));
}

#[test]
fn stores_the_records_of_an_element() {
    let mut vertex = ply_rs::ply::DefaultElement::new();
    vertex.insert("y".to_string(), ply_rs::ply::Property::Float(2.0));
    let mut face = ply_rs::ply::DefaultElement::new();
    face.insert("vertex_indices".to_string(), ply_rs::ply::Property::ListUInt(vec![0, 0, 0]));
    face.insert("area".to_string(), ply_rs::ply::Property::Double(1.0));
    let mut model = Model::new();
    assert_eq!(model, Model { mesh: Mesh { shapes: vec![], indices: vec![] }, warnings: vec![] });
    model.store(ElementKind::Face, &vec![face.clone(), face]);
    model.store(ElementKind::Vertex, &vec![vertex]);
    assert_eq!(model.mesh.shapes, vec![shape((0.0, 2.0, 0.0), (0.0, 0.0, 0.0))]);
    assert_eq!(model.mesh.indices, vec![0, 0, 0, 0, 0, 0]);
    assert_eq!(model.warnings, vec!["area", "area"]);
    model.store(ElementKind::Face, &vec![]);
    assert!(model.mesh.indices.is_empty());
    assert_eq!(model.warnings, vec!["area", "area"]);
    assert_eq!(model.mesh.shapes.len(), 1);
}
