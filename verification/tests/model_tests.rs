use rasterizer::fixed::FX_ONE;
use rasterizer::geometry::Vector3;
use rasterizer::model::{Face, Model};
use rasterizer::RenderError;

fn verts() -> Vec<Vector3> {
    vec![
        Vector3::new(0, 0, 0),
        Vector3::new(FX_ONE, 0, 0),
        Vector3::new(0, FX_ONE, 0),
    ]
}

#[test]
fn face_keeps_its_lists() {
    let f = Face::new(vec![0, 1, 2], vec![2, 1, 0]);
    assert_eq!(f.vertices, vec![0, 1, 2]);
    assert_eq!(f.texture_indices, vec![2, 1, 0]);
}

#[test]
fn model_accepts_valid_mesh() {
    let faces = vec![Face::new(vec![0, 1, 2], vec![])];
    let m = Model::new(verts(), vec![], faces).unwrap();
    assert_eq!(m.num_vertices(), 3);
    assert_eq!(m.num_faces(), 1);
    assert_eq!(*m.get_vertex(1), Vector3::new(FX_ONE, 0, 0));
}

#[test]
fn model_rejects_short_face() {
    let faces = vec![Face::new(vec![0, 1], vec![])];
    let r = Model::new(verts(), vec![], faces);
    assert!(r.err() == Some(RenderError::ParseError));
}

#[test]
fn model_rejects_extra_texture_indices() {
    let faces = vec![Face::new(vec![0, 1, 2], vec![0, 0, 0, 0])];
    let r = Model::new(verts(), vec![], faces);
    assert!(r.err() == Some(RenderError::ParseError));
}

#[test]
fn model_rejects_vertex_index_out_of_bounds() {
    let faces = vec![Face::new(vec![0, 1, 3], vec![])];
    let r = Model::new(verts(), vec![], faces);
    assert!(r.err() == Some(RenderError::IndexOutOfRange));
}

#[test]
fn model_rejects_texture_index_out_of_bounds() {
    let faces = vec![Face::new(vec![0, 1, 2], vec![0, 0, 5])];
    let tcs = vec![Vector3::new(0, 0, 0)];
    let r = Model::new(verts(), tcs, faces);
    assert!(r.err() == Some(RenderError::IndexOutOfRange));
}

#[test]
fn model_rejects_coordinate_out_of_range() {
    let vs = vec![
        Vector3::new(0, 0, 0),
        Vector3::new(i64::MAX, 0, 0),
        Vector3::new(0, FX_ONE, 0),
    ];
    let faces = vec![Face::new(vec![0, 1, 2], vec![])];
    let r = Model::new(vs, vec![], faces);
    assert!(r.err() == Some(RenderError::OutOfRange));
}

#[test]
fn texture_coordinate_lookup() {
    let tcs = vec![Vector3::new(FX_ONE / 2, FX_ONE / 4, 0)];
    let faces = vec![Face::new(vec![0, 1, 2], vec![0, 0, 0])];
    let m = Model::new(verts(), tcs, faces).unwrap();
    assert_eq!(*m.get_texture_coord(0), Vector3::new(FX_ONE / 2, FX_ONE / 4, 0));
}
