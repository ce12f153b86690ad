use wasmgame::mesh::{append_triangles, append_vertex, generate_output, generate_vertex_data, IndexTuple, MeshFile, ObjectRange};

fn corner(position: usize, normal: Option<usize>) -> IndexTuple {
    IndexTuple { position, texture: None, normal }
}

#[test]
fn vertex_takes_position_then_normal() {
    let positions = vec![[1, 2, 3], [4, 5, 6]];
    let normals = vec![[7, 8, 9]];
    let mut points = vec![];
    append_vertex(&positions, &normals, corner(1, Some(0)), 0, &mut points);
    append_vertex(&positions, &normals, corner(0, None), 0, &mut points);
    assert_eq!(points, vec![4, 5, 6, 7, 8, 9, 1, 2, 3, 0, 0, 0]);
}

#[test]
fn quad_is_fanned_into_two_triangles() {
    let positions = vec![[0, 0, 0], [1, 0, 0], [1, 1, 0], [0, 1, 0]];
    let normals: Vec<[i32; 3]> = vec![];
    let poly = vec![corner(0, None), corner(1, None), corner(2, None), corner(3, None)];
    let mut points = vec![];
    append_triangles(&positions, &normals, &poly, 0, &mut points);
    assert_eq!(points.len(), 2 * 3 * 6);
    let firsts: Vec<[i32; 3]> = points.chunks(6).map(|c| [c[0], c[1], c[2]]).collect();
    assert_eq!(firsts, vec![[0, 0, 0], [1, 0, 0], [1, 1, 0], [0, 0, 0], [1, 1, 0], [0, 1, 0]]);
}

#[test]
fn objects_lie_one_after_the_other() {
    let positions = vec![[0u8, 0, 0], [1, 0, 0], [1, 1, 0], [0, 1, 0], [2, 2, 2]];
    let normals = vec![[0u8, 0, 1]];
    let tri = vec![corner(0, Some(0)), corner(1, Some(0)), corner(2, Some(0))];
    let pent = vec![corner(0, None), corner(1, None), corner(2, None), corner(3, None), corner(4, None)];
    let objects = vec![vec![tri.clone()], vec![], vec![tri, pent]];
    let (points, ranges) = generate_vertex_data(&positions, &normals, &objects, 0);
    assert_eq!(points.len() % 6, 0);
    assert_eq!(
        ranges,
        vec![
            ObjectRange { start: 0, end: 18 },
            ObjectRange { start: 18, end: 18 },
            ObjectRange { start: 18, end: 18 + 18 + 3 * 18 },
        ]
    );
    assert_eq!(points.len(), 90);
    assert_eq!(&points[0..6], &[0, 0, 0, 0, 0, 1]);
}

#[test]
fn files_lie_one_after_the_other_in_one_buffer() {
    let tri = vec![corner(0, Some(0)), corner(1, Some(0)), corner(2, Some(0))];
    let first = MeshFile {
        positions: vec![[1u8, 1, 1], [2, 2, 2], [3, 3, 3]],
        normals: vec![[9u8, 9, 9]],
        objects: vec![vec![tri.clone()]],
    };
    let second = MeshFile {
        positions: vec![[4u8, 4, 4], [5, 5, 5], [6, 6, 6], [7, 7, 7]],
        normals: vec![[8u8, 8, 8]],
        objects: vec![vec![], vec![tri, vec![corner(3, None), corner(2, None), corner(1, None)]]],
    };
    let (one, _) = generate_vertex_data(&first.positions, &first.normals, &first.objects, 0);
    let (two, _) = generate_vertex_data(&second.positions, &second.normals, &second.objects, 0);
    let (points, ranges) = generate_output(&vec![first, second], 0);
    assert_eq!(
        ranges,
        vec![
            ObjectRange { start: 0, end: 18 },
            ObjectRange { start: 18, end: 18 },
            ObjectRange { start: 18, end: 54 },
        ]
    );
    let mut joined = one.clone();
    joined.extend(two.iter().copied());
    assert_eq!(points, joined);
    assert_eq!(&points[18..24], &[4, 4, 4, 8, 8, 8]);
    assert_eq!(&points[48..54], &[5, 5, 5, 0, 0, 0]);
    assert_eq!(points.len() % 6, 0);
}

#[test]
fn no_files_give_an_empty_buffer() {
    let files: Vec<MeshFile<u8>> = vec![];
    let (points, ranges) = generate_output(&files, 0);
    assert!(points.is_empty());
    assert!(ranges.is_empty());
}
