use model_viewer::fx::FX_ONE;
use model_viewer::model::{extract_triangles, parse_model, wireframe_vertices, ParseError};

fn fx(v: f64) -> i64 {
    (v * 4294967296.0).round() as i64
}

#[test]
fn parse_single_face_model() {
    let text = "v 0 0 0 0 0 1 1 0 0\nv 1 0 0 0 0 1 1 0 0\nv 0 1 0 0 0 1 1 0 0\nf 0 1 2\n";
    let (vertices, indices) = parse_model(text).unwrap();
    assert_eq!(vertices.len(), 3);
    assert_eq!(indices, vec![0, 1, 2]);
    assert_eq!(vertices[0].position.x, 0);
    assert_eq!(vertices[1].position.x, FX_ONE);
    assert_eq!(vertices[2].position.y, FX_ONE);
    assert_eq!(vertices[0].face_id, 0);
    assert_eq!(vertices[2].face_id, 0);
    assert_eq!(vertices[0].normal.z, FX_ONE);
    assert_eq!(vertices[0].color.x, FX_ONE);
}

#[test]
fn parse_expands_shared_corners_per_face() {
    let text = "v 0 0 0 0 0 1 1 0 0\n\
                v 1 0 0 0 0 1 1 0 0\n\
                v 0 1 0 0 0 1 1 0 0\n\
                v 1 1 0 0 0 1 1 0 0\n\
                f 0 1 2\nf 1 3 2\n";
    let (vertices, indices) = parse_model(text).unwrap();
    assert_eq!(vertices.len(), 6);
    assert_eq!(indices, vec![0, 1, 2, 3, 4, 5]);
    assert_eq!(vertices[3].face_id, 1);
    // the shared corner 2 is duplicated at positions 2 and 5
    assert_eq!(vertices[2].position, vertices[5].position);
}

#[test]
fn parse_accepts_keyword_aliases_and_ignores_unknown_lines() {
    let text = "# a comment\n\
                \n\
                vertex 0 0 0 0 0 1 1 0 0\n\
                vertex 1 0 0 0 0 1 1 0 0\n\
                vertex 0 1 0 0 0 1 1 0 0\n\
                o some-object\n\
                usemtl whatever\n\
                tri 0 1 2\n\
                triangle 0 1 2\n\
                face 0 1 2\n\
                f 0 1 2 trailing junk\n";
    let (vertices, indices) = parse_model(text).unwrap();
    assert_eq!(vertices.len(), 12);
    assert_eq!(indices.len(), 12);
}

#[test]
fn parse_decimal_forms() {
    let text = "v 0.5 -1.25 +2 .75 5. -0.0009765625 1023 -1023 0.123456789\nf 0 0 0\n";
    let (vertices, _) = parse_model(text).unwrap();
    let v = &vertices[0];
    assert_eq!(v.position.x, fx(0.5));
    assert_eq!(v.position.y, fx(-1.25));
    assert_eq!(v.position.z, fx(2.0));
    assert_eq!(v.normal.x, fx(0.75));
    assert_eq!(v.normal.y, fx(5.0));
    assert_eq!(v.normal.z, -4194301); // nine fraction digits carry value
    assert_eq!(v.color.x, fx(1023.0));
    assert_eq!(v.color.y, fx(-1023.0));
    // 0.123456789 truncated toward zero at 2^-32
    assert_eq!(v.color.z, 530242871);
}

#[test]
fn parse_rejects_short_vertex_line() {
    let text = "v 1 2 3 4 5 6 7 8\nf 0 0 0\n";
    assert_eq!(parse_model(text).unwrap_err(), ParseError::InvalidVertexLine { line: 1 });
}

#[test]
fn parse_rejects_short_face_line() {
    let text = "v 0 0 0 0 0 1 1 0 0\nf 0 1\n";
    assert_eq!(parse_model(text).unwrap_err(), ParseError::InvalidFaceLine { line: 2 });
}

#[test]
fn parse_rejects_bad_number() {
    let text = "v 0 0 abc 0 0 1 1 0 0\nf 0 0 0\n";
    assert_eq!(parse_model(text).unwrap_err(), ParseError::InvalidNumber { line: 1 });
    let text2 = "v 0 0 0 0 0 1 1 0 0\nf 0 x 0\n";
    assert_eq!(parse_model(text2).unwrap_err(), ParseError::InvalidNumber { line: 2 });
    // out of the supported coordinate range
    let text3 = "v 1024 0 0 0 0 1 1 0 0\nf 0 0 0\n";
    assert_eq!(parse_model(text3).unwrap_err(), ParseError::InvalidNumber { line: 1 });
    // a negative face index is not an unsigned integer
    let text4 = "v 0 0 0 0 0 1 1 0 0\nf 0 -1 0\n";
    assert_eq!(parse_model(text4).unwrap_err(), ParseError::InvalidNumber { line: 2 });
}

#[test]
fn parse_rejects_empty_models() {
    assert_eq!(parse_model("").unwrap_err(), ParseError::NoVertices);
    assert_eq!(parse_model("# nothing\n").unwrap_err(), ParseError::NoVertices);
    assert_eq!(parse_model("f 0 1 2\n").unwrap_err(), ParseError::NoVertices);
    assert_eq!(
        parse_model("v 0 0 0 0 0 1 1 0 0\n").unwrap_err(),
        ParseError::NoFaces
    );
}

#[test]
fn parse_rejects_out_of_range_index() {
    let text = "v 0 0 0 0 0 1 1 0 0\nf 0 0 0\nf 0 5 0\n";
    assert_eq!(parse_model(text).unwrap_err(), ParseError::IndexOutOfRange { face: 1 });
}

#[test]
fn extract_round_trip_keeps_declared_corners() {
    // the extracted triangle list has one triangle per source face, each
    // holding the declared corner positions in declared order
    let text = "v 0 0 0 0 0 1 1 0 0\n\
                v 1 0 0 0 0 1 1 0 0\n\
                v 0 1 0 0 0 1 1 0 0\n\
                v 0 0 1 0 0 1 1 0 0\n\
                f 0 1 2\nf 2 1 3\n";
    let (vertices, indices) = parse_model(text).unwrap();
    let tris = extract_triangles(&vertices, &indices);
    assert_eq!(tris.len(), 2);
    assert_eq!((tris[0].v0.x, tris[0].v0.y, tris[0].v0.z), (0, 0, 0));
    assert_eq!((tris[0].v1.x, tris[0].v1.y, tris[0].v1.z), (FX_ONE, 0, 0));
    assert_eq!((tris[0].v2.x, tris[0].v2.y, tris[0].v2.z), (0, FX_ONE, 0));
    assert_eq!((tris[1].v0.x, tris[1].v0.y, tris[1].v0.z), (0, FX_ONE, 0));
    assert_eq!((tris[1].v1.x, tris[1].v1.y, tris[1].v1.z), (FX_ONE, 0, 0));
    assert_eq!((tris[1].v2.x, tris[1].v2.y, tris[1].v2.z), (0, 0, FX_ONE));
}

#[test]
fn wireframe_overlay_traces_the_three_edges() {
    let text = "v 0 0 0 0 0 1 1 0 0\nv 1 0 0 0 0 1 1 0 0\nv 0 1 0 0 0 1 1 0 0\nf 0 1 2\n";
    let (vertices, indices) = parse_model(text).unwrap();
    let tris = extract_triangles(&vertices, &indices);
    let w = wireframe_vertices(&tris[0]);
    assert_eq!(w[0], tris[0].v0);
    assert_eq!(w[1], tris[0].v1);
    assert_eq!(w[2], tris[0].v1);
    assert_eq!(w[3], tris[0].v2);
    assert_eq!(w[4], tris[0].v2);
    assert_eq!(w[5], tris[0].v0);
}
