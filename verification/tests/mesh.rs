use egui_skia::color::Color;
use egui_skia::error::PaintError;
use egui_skia::mesh::{assemble, IndexPart, Mesh, Mesh16, Pos2, Triangle, Vertex};
use egui_skia::scalar::Scalar;
use egui_skia::texture::TextureId;

fn pos(x: f32, y: f32) -> Pos2 {
    Pos2::new(Scalar::from_bits(x.to_bits()), Scalar::from_bits(y.to_bits()))
}

fn vertex(x: f32, y: f32, u: f32, v: f32, color: Color) -> Vertex {
    Vertex { pos: pos(x, y), uv: pos(u, v), color }
}

const WHITE: Color = Color { r: 255, g: 255, b: 255, a: 255 };

/// Vertex number i of a large mesh: told apart by position and color.
fn numbered(i: usize) -> Vertex {
    vertex(i as f32, (i / 2) as f32, 0.25, 0.75, Color::new(i as u8, (i >> 8) as u8, 7, 255))
}

fn large_mesh(vertex_count: usize, indices: Vec<u32>) -> Mesh {
    Mesh {
        indices,
        vertices: (0..vertex_count).map(numbered).collect(),
        texture_id: TextureId::User(9),
    }
}

/// What an unsplit draw takes: the vertices that the indices name, finished.
fn unsplit(mesh: &Mesh) -> Vec<Vertex> {
    let mut out = Vec::new();
    for t in mesh.indices.chunks(3) {
        let tri = Triangle {
            a: mesh.vertices[t[0] as usize],
            b: mesh.vertices[t[1] as usize],
            c: mesh.vertices[t[2] as usize],
        }
        .nudge_uv();
        out.push(tri.a.finish());
        out.push(tri.b.finish());
        out.push(tri.c.finish());
    }
    out
}

#[test]
fn flat_triangle_gets_its_uvs_moved_apart() {
    let t = Triangle {
        a: vertex(1.0, 2.0, 0.0, 0.0, WHITE),
        b: vertex(3.0, 4.0, 0.0, 0.0, Color::new(1, 2, 3, 4)),
        c: vertex(5.0, 6.0, 0.0, 0.0, Color::new(5, 6, 7, 8)),
    };
    let n = t.nudge_uv();
    assert_eq!(n.a, t.a);
    assert_eq!(n.b, vertex(3.0, 4.0, 0.0, 1.0 / 65536.0, Color::new(1, 2, 3, 4)));
    assert_eq!(n.c, vertex(5.0, 6.0, 1.0 / 65536.0, 0.0, Color::new(5, 6, 7, 8)));
}

#[test]
fn negative_zero_counts_as_zero_uv() {
    let t = Triangle {
        a: vertex(1.0, 2.0, -0.0, 0.0, WHITE),
        b: vertex(3.0, 4.0, 0.0, -0.0, WHITE),
        c: vertex(5.0, 6.0, -0.0, -0.0, WHITE),
    };
    let n = t.nudge_uv();
    assert_eq!(n.a, t.a);
    assert_eq!(n.b.uv, pos(0.0, 1.0 / 65536.0));
    assert_eq!(n.c.uv, pos(1.0 / 65536.0, 0.0));
}

#[test]
fn other_triangles_keep_their_uvs() {
    let cases = [
        [(0.0, 0.0), (0.0, 0.0), (0.0, 1.0e-30)],
        [(0.5, 0.0), (0.0, 0.0), (0.0, 0.0)],
        [(0.0, 0.0), (0.0, 1.0), (0.0, 0.0)],
        [(0.25, 0.25), (0.25, 0.25), (0.25, 0.25)],
        [(f32::NAN, 0.0), (0.0, 0.0), (0.0, 0.0)],
    ];
    for uv in cases {
        let t = Triangle {
            a: vertex(1.0, 2.0, uv[0].0, uv[0].1, WHITE),
            b: vertex(3.0, 4.0, uv[1].0, uv[1].1, WHITE),
            c: vertex(5.0, 6.0, uv[2].0, uv[2].1, WHITE),
        };
        assert_eq!(t.nudge_uv(), t);
    }
}

#[test]
fn nan_position_becomes_origin() {
    let color = Color::new(10, 20, 30, 40);
    for (x, y) in [(f32::NAN, 1.0), (1.0, f32::NAN), (f32::NAN, f32::NAN), (-f32::NAN, 0.0)] {
        let v = vertex(x, y, 0.5, 0.25, color);
        let fixed = v.fix_position();
        assert_eq!(fixed.pos, pos(0.0, 0.0));
        assert_eq!(fixed.pos.x.to_bits(), 0);
        assert_eq!(fixed.pos.y.to_bits(), 0);
        assert_eq!(fixed.uv, v.uv);
        assert_eq!(fixed.color, color);
    }
}

#[test]
fn other_positions_are_kept() {
    for (x, y) in [(0.0, 0.0), (-3.5, 7.25), (f32::INFINITY, 1.0), (1.0, f32::NEG_INFINITY)] {
        let v = vertex(x, y, 0.5, 0.25, WHITE);
        assert_eq!(v.fix_position(), v);
    }
}

#[test]
fn finished_vertex_has_straight_color() {
    let v = vertex(f32::NAN, 2.0, 0.5, 0.25, Color::new(64, 128, 0, 128));
    let f = v.finish();
    assert_eq!(f.pos, pos(0.0, 0.0));
    assert_eq!(f.uv, pos(0.5, 0.25));
    assert_eq!(f.color, Color::new(127, 255, 0, 128));
    let w = vertex(1.0, 2.0, 0.5, 0.25, WHITE).finish();
    assert_eq!(w, vertex(1.0, 2.0, 0.5, 0.25, WHITE));
}

#[test]
fn nan_in_one_vertex_leaves_the_others() {
    let mesh = Mesh16 {
        indices: vec![0, 1, 2],
        vertices: vec![
            vertex(f32::NAN, 1.0, 0.1, 0.2, WHITE),
            vertex(3.0, 4.0, 0.3, 0.4, WHITE),
            vertex(5.0, 6.0, 0.5, 0.6, WHITE),
        ],
        texture_id: TextureId::Managed(0),
    };
    let buffer = mesh.vertex_buffer().unwrap();
    assert_eq!(
        buffer,
        vec![
            vertex(0.0, 0.0, 0.1, 0.2, WHITE),
            vertex(3.0, 4.0, 0.3, 0.4, WHITE),
            vertex(5.0, 6.0, 0.5, 0.6, WHITE),
        ]
    );
}

#[test]
fn vertex_buffer_lists_triangles_in_order() {
    let a = vertex(0.0, 0.0, 0.0, 0.0, WHITE);
    let b = vertex(1.0, 0.0, 1.0, 0.0, Color::new(20, 40, 60, 80));
    let c = vertex(0.0, 1.0, 0.0, 1.0, WHITE);
    let d = vertex(1.0, 1.0, 0.0, 0.0, WHITE);
    let mesh = Mesh16 {
        indices: vec![0, 1, 2, 2, 1, 3, 0, 0, 3],
        vertices: vec![a, b, c, d],
        texture_id: TextureId::Managed(0),
    };
    let straight_b = vertex(1.0, 0.0, 1.0, 0.0, Color::new(63, 127, 191, 80));
    let eps = 1.0 / 65536.0;
    assert_eq!(
        mesh.vertex_buffer(),
        Ok(vec![
            a,
            straight_b,
            c,
            c,
            straight_b,
            d,
            a,
            vertex(0.0, 0.0, 0.0, eps, WHITE),
            vertex(1.0, 1.0, eps, 0.0, WHITE),
        ])
    );
}

#[test]
fn empty_mesh_gives_an_empty_buffer() {
    let mesh = Mesh16 { indices: vec![], vertices: vec![], texture_id: TextureId::Managed(0) };
    assert_eq!(mesh.vertex_buffer(), Ok(vec![]));
}

#[test]
fn vertex_buffer_refuses_bad_indices() {
    let v = vertex(0.0, 0.0, 0.5, 0.5, WHITE);
    let short = Mesh16 { indices: vec![0, 1], vertices: vec![v, v], texture_id: TextureId::Managed(0) };
    assert_eq!(short.vertex_buffer(), Err(PaintError::MalformedMesh));
    let beyond =
        Mesh16 { indices: vec![0, 1, 2], vertices: vec![v, v], texture_id: TextureId::Managed(0) };
    assert_eq!(beyond.vertex_buffer(), Err(PaintError::MalformedMesh));
    let later = Mesh16 {
        indices: vec![0, 1, 0, 1, 0, 5],
        vertices: vec![v, v],
        texture_id: TextureId::Managed(0),
    };
    assert_eq!(later.vertex_buffer(), Err(PaintError::MalformedMesh));
}

#[test]
fn small_mesh_stays_in_one_piece() {
    let mesh = large_mesh(5, vec![0, 1, 2, 2, 3, 4, 4, 0, 1]);
    let pieces = mesh.split_to_u16().unwrap();
    assert_eq!(pieces.len(), 1);
    assert_eq!(pieces[0].indices, vec![0, 1, 2, 2, 3, 4, 4, 0, 1]);
    assert_eq!(pieces[0].vertices, mesh.vertices);
    assert_eq!(pieces[0].texture_id, TextureId::User(9));
    assert_eq!(pieces[0].vertex_buffer().unwrap(), unsplit(&mesh));
}

#[test]
fn mesh_without_anything_is_one_empty_piece() {
    let mesh = large_mesh(0, vec![]);
    let pieces = mesh.split_to_u16().unwrap();
    assert_eq!(pieces.len(), 1);
    assert!(pieces[0].indices.is_empty());
    assert!(pieces[0].vertices.is_empty());
}

#[test]
fn mesh_of_65535_vertices_stays_in_one_piece() {
    let mesh = large_mesh(65535, vec![0, 65534, 1, 65534, 65533, 0]);
    let pieces = mesh.split_to_u16().unwrap();
    assert_eq!(pieces.len(), 1);
    assert_eq!(pieces[0].indices, vec![0, 65534, 1, 65534, 65533, 0]);
    assert_eq!(pieces[0].vertices.len(), 65535);
}

#[test]
fn large_mesh_is_split_into_pieces() {
    let mesh = large_mesh(70000, vec![0, 1, 2, 69997, 69998, 69999, 69999, 69990, 69995]);
    let pieces = mesh.split_to_u16().unwrap();
    assert_eq!(pieces.len(), 2);
    assert_eq!(pieces[0].indices, vec![0, 1, 2]);
    assert_eq!(pieces[0].vertices, vec![numbered(0), numbered(1), numbered(2)]);
    assert_eq!(pieces[1].indices, vec![7, 8, 9, 9, 0, 5]);
    assert_eq!(pieces[1].vertices, (69990..70000).map(numbered).collect::<Vec<_>>());
    for piece in &pieces {
        assert!(piece.vertices.len() < 65536);
        assert_eq!(piece.texture_id, TextureId::User(9));
    }
}

#[test]
fn pieces_draw_what_the_unsplit_mesh_draws() {
    let mut indices = Vec::new();
    for t in 0..400u32 {
        let base = t * 175;
        indices.extend([base, base + 1, base + 174]);
        indices.extend([base + 150, base / 2, base / 2 + 1000]);
    }
    let mesh = large_mesh(70000, indices);
    let pieces = mesh.split_to_u16().unwrap();
    assert_eq!(pieces.len(), 2);
    let mut drawn = Vec::new();
    for piece in &pieces {
        assert!(piece.vertices.len() <= 65535);
        assert!(piece.indices.iter().all(|&i| (i as usize) < piece.vertices.len()));
        drawn.extend(piece.vertex_buffer().unwrap());
    }
    assert_eq!(drawn, unsplit(&mesh));
}

#[test]
fn mesh_that_names_every_vertex_is_cut_where_a_piece_is_full() {
    let mesh = large_mesh(65538, (0..65538).collect());
    let pieces = mesh.split_to_u16().unwrap();
    assert_eq!(pieces.len(), 2);
    assert_eq!(pieces[0].vertices.len(), 65535);
    assert_eq!(pieces[0].indices, (0..65535).map(|i| i as u16).collect::<Vec<u16>>());
    assert_eq!(pieces[1].vertices, vec![numbered(65535), numbered(65536), numbered(65537)]);
    assert_eq!(pieces[1].indices, vec![0, 1, 2]);
    let mut drawn = pieces[0].vertex_buffer().unwrap();
    drawn.extend(pieces[1].vertex_buffer().unwrap());
    assert_eq!(drawn, unsplit(&mesh));
}

#[test]
fn triangle_across_a_full_piece_is_wide_only_in_a_large_mesh() {
    let wide = large_mesh(70000, vec![69999, 0, 1000]);
    assert_eq!(wide.split_to_u16(), Err(PaintError::TriangleTooWide));
    let edge = large_mesh(65536, vec![0, 1, 65535]);
    assert_eq!(edge.split_to_u16(), Err(PaintError::TriangleTooWide));
    let whole = large_mesh(65535, vec![0, 1, 65534]);
    assert_eq!(whole.split_to_u16().unwrap().len(), 1);
}

#[test]
fn far_apart_triangles_are_split_and_drawn_whole() {
    let mut indices = Vec::new();
    for t in 0..300u32 {
        let low = t * 3;
        let high = 69000 + t * 3;
        indices.extend([low, low + 1, low + 2]);
        indices.extend([high, high + 2, high + 1]);
    }
    let mesh = large_mesh(70000, indices);
    let pieces = mesh.split_to_u16().unwrap();
    assert_eq!(pieces.len(), 600);
    let mut drawn = Vec::new();
    for piece in &pieces {
        assert!(piece.vertices.len() <= 65535);
        drawn.extend(piece.vertex_buffer().unwrap());
    }
    assert_eq!(drawn, unsplit(&mesh));
}

#[test]
fn triangle_across_too_many_vertices_cannot_be_split() {
    let mesh = large_mesh(70000, vec![0, 1, 2, 0, 1, 65535]);
    assert!(mesh.is_well_indexed());
    assert!(!mesh.has_narrow_triangles());
    assert_eq!(mesh.split_to_u16(), Err(PaintError::TriangleTooWide));
    let fits = large_mesh(70000, vec![0, 1, 2, 0, 1, 65534]);
    assert!(fits.has_narrow_triangles());
    assert_eq!(fits.split_to_u16().unwrap().len(), 1);
}

#[test]
fn wide_triangle_is_fine_in_a_small_mesh() {
    let mesh = large_mesh(65535, vec![0, 1, 65534]);
    assert_eq!(mesh.split_to_u16().unwrap().len(), 1);
}

#[test]
fn split_refuses_bad_indices() {
    assert_eq!(large_mesh(3, vec![0, 1]).split_to_u16(), Err(PaintError::MalformedMesh));
    assert_eq!(large_mesh(3, vec![0, 1, 3]).split_to_u16(), Err(PaintError::MalformedMesh));
    assert_eq!(large_mesh(0, vec![0, 0, 0]).split_to_u16(), Err(PaintError::MalformedMesh));
    assert_eq!(
        large_mesh(70000, vec![0, 1, 69999, 0, 1, 70000]).split_to_u16(),
        Err(PaintError::MalformedMesh)
    );
    assert!(!large_mesh(3, vec![0, 1, 3]).is_well_indexed());
    assert!(large_mesh(3, vec![0, 1, 2]).is_well_indexed());
}

#[test]
fn pieces_are_assembled_from_origins() {
    let vertices: Vec<Vertex> = (0..6).map(numbered).collect();
    let parts = vec![
        IndexPart { origins: vec![0, 1, 2], indices: vec![0, 1, 2, 2, 1, 0] },
        IndexPart { origins: vec![3, 4, 5], indices: vec![2, 1, 0] },
    ];
    let made = assemble(&vertices, TextureId::Managed(2), &parts).unwrap();
    assert_eq!(
        made,
        vec![
            Mesh16 {
                indices: vec![0, 1, 2, 2, 1, 0],
                vertices: vec![numbered(0), numbered(1), numbered(2)],
                texture_id: TextureId::Managed(2),
            },
            Mesh16 {
                indices: vec![2, 1, 0],
                vertices: vec![numbered(3), numbered(4), numbered(5)],
                texture_id: TextureId::Managed(2),
            },
        ]
    );
    assert_eq!(assemble(&vertices, TextureId::Managed(2), &vec![]), Some(vec![]));
}

#[test]
fn unsound_pieces_are_not_assembled() {
    let vertices: Vec<Vertex> = (0..6).map(numbered).collect();
    let id = TextureId::Managed(2);
    let origin_beyond = vec![IndexPart { origins: vec![0, 6], indices: vec![0, 1, 0] }];
    assert_eq!(assemble(&vertices, id, &origin_beyond), None);
    let index_beyond = vec![IndexPart { origins: vec![0, 1], indices: vec![0, 1, 2] }];
    assert_eq!(assemble(&vertices, id, &index_beyond), None);
    let not_in_threes = vec![IndexPart { origins: vec![0, 1], indices: vec![0, 1] }];
    assert_eq!(assemble(&vertices, id, &not_in_threes), None);
    let too_many = vec![IndexPart { origins: vec![0; 65536], indices: vec![] }];
    assert_eq!(assemble(&vertices, id, &too_many), None);
    let sound = IndexPart { origins: vec![5; 65535], indices: vec![65534, 0, 1] };
    assert!(sound.fits(6));
    assert!(!sound.fits(5));
}
