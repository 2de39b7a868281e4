use papariki::cache::{RequestOutcome, TileError};
use papariki::decode::{decode_tile, GeomType};
use papariki::geom::decode_geometry;
use papariki::globe::Globe;
use papariki::mesh::triangulate;
use papariki::tile::TileAddress;
use papariki::varint::{read_varint, zigzag};

fn zz(v: i64) -> u64 {
    ((v << 1) ^ (v >> 63)) as u64
}

fn put_varint(mut v: u64, out: &mut Vec<u8>) {
    loop {
        let b = (v & 0x7f) as u8;
        v >>= 7;
        if v == 0 {
            out.push(b);
            break;
        }
        out.push(b | 0x80);
    }
}

fn put_packed(vals: &[u64], out: &mut Vec<u8>) {
    for &v in vals {
        put_varint(v, out);
    }
}

/// Geometry command stream of a closed square covering [0, 4096]^2.
fn square_geometry() -> Vec<u64> {
    vec![
        9,
        zz(0),
        zz(0),
        26,
        zz(4096),
        zz(0),
        zz(0),
        zz(4096),
        zz(-4096),
        zz(0),
        15,
    ]
}

/// A tile payload with one layer (extent 4096) holding one polygon feature:
/// the closed square covering the full tile.
fn square_payload() -> Vec<u8> {
    let geom = square_geometry();
    let mut geom_bytes = Vec::new();
    put_packed(&geom, &mut geom_bytes);

    let mut feature = Vec::new();
    feature.push(24); // field 3 (type), varint
    put_varint(3, &mut feature); // polygon
    feature.push(34); // field 4 (geometry), length-delimited
    put_varint(geom_bytes.len() as u64, &mut feature);
    feature.extend_from_slice(&geom_bytes);

    let mut layer = Vec::new();
    layer.push(10); // field 1 (name), length-delimited
    put_varint(4, &mut layer);
    layer.extend_from_slice(b"area");
    layer.push(18); // field 2 (feature), length-delimited
    put_varint(feature.len() as u64, &mut layer);
    layer.extend_from_slice(&feature);
    layer.push(40); // field 5 (extent), varint
    put_varint(4096, &mut layer);
    layer.push(120); // field 15 (version), varint
    put_varint(2, &mut layer);

    let mut tile = Vec::new();
    tile.push(26); // field 3 (layer), length-delimited
    put_varint(layer.len() as u64, &mut tile);
    tile.extend_from_slice(&layer);
    tile
}

#[test]
fn varint_roundtrip() {
    for &v in &[0u64, 1, 127, 128, 300, 4096, u64::MAX] {
        let mut bytes = Vec::new();
        put_varint(v, &mut bytes);
        let (got, end) = read_varint(&bytes, 0).expect("varint decodes");
        assert_eq!(got, v);
        assert_eq!(end, bytes.len());
    }
}

#[test]
fn varint_truncated_fails() {
    let bytes = vec![0x80u8];
    assert!(read_varint(&bytes, 0).is_none());
}

#[test]
fn zigzag_values() {
    assert_eq!(zigzag(0), 0);
    assert_eq!(zigzag(1), -1);
    assert_eq!(zigzag(2), 1);
    assert_eq!(zigzag(8192), 4096);
    assert_eq!(zigzag(8191), -4096);
}

#[test]
fn address_validity() {
    assert!(TileAddress::new(0, 0, 0).is_valid());
    assert!(TileAddress::new(1, 1, 1).is_valid());
    assert!(!TileAddress::new(2, 0, 1).is_valid());
    assert!(!TileAddress::new(0, 2, 1).is_valid());
    assert!(!TileAddress::new(0, 0, -1).is_valid());
    assert!(!TileAddress::new(-1, 0, 3).is_valid());
    assert!(TileAddress::new(7, 7, 3).is_valid());
    assert!(!TileAddress::new(8, 7, 3).is_valid());
}

#[test]
fn negative_zoom_is_invalid_address() {
    let mut globe = Globe::new(String::new());
    for (x, y) in [(0i64, 0i64), (1, 2), (-3, 5), (1000, 1000)] {
        let (_, plan) = globe.request_tile(x, y, -1);
        assert_eq!(plan, RequestOutcome::Invalid);
    }
    // Nothing was fetched or recorded for any of them.
    assert!(globe.cache.entries.is_empty());
}

#[test]
fn single_flight_dedup() {
    let mut globe = Globe::new(String::new());
    let mut fetches = 0;
    for _ in 0..5 {
        let (_, plan) = globe.request_tile(0, 0, 1);
        match plan {
            RequestOutcome::StartFetch => fetches += 1,
            RequestOutcome::AwaitInFlight => {}
            other => panic!("unexpected plan: {:?}", other),
        }
    }
    assert_eq!(fetches, 1);
}

#[test]
fn failed_fetch_is_retried() {
    let mut globe = Globe::new(String::new());
    let (addr, plan) = globe.request_tile(0, 0, 1);
    assert_eq!(plan, RequestOutcome::StartFetch);
    globe.complete_tile(&addr, Err(TileError::Network));
    assert!(globe.cached_mesh(&addr).is_none());
    // The failure is not a cached terminal state: the next request fetches.
    let (_, plan2) = globe.request_tile(0, 0, 1);
    assert_eq!(plan2, RequestOutcome::StartFetch);
}

#[test]
fn malformed_payload_fails_then_retries() {
    let mut globe = Globe::new(String::new());
    let (addr, plan) = globe.request_tile(1, 0, 1);
    assert_eq!(plan, RequestOutcome::StartFetch);
    // A lone continuation byte is not a well-formed payload.
    globe.complete_tile(&addr, Ok(vec![0x80]));
    assert!(globe.cached_mesh(&addr).is_none());
    let (_, plan2) = globe.request_tile(1, 0, 1);
    assert_eq!(plan2, RequestOutcome::StartFetch);
}

#[test]
fn square_tile_mesh() {
    let mut globe = Globe::new(String::new());
    let (addr, plan) = globe.request_tile(0, 0, 1);
    assert_eq!(plan, RequestOutcome::StartFetch);
    globe.complete_tile(&addr, Ok(square_payload()));
    let (_, plan2) = globe.request_tile(0, 0, 1);
    assert_eq!(plan2, RequestOutcome::Ready);
    let mesh = globe.cached_mesh(&addr).expect("mesh cached");
    assert_eq!(mesh.vertices.len(), 4);
    assert_eq!(mesh.triangles.len(), 2);
    for t in mesh.triangles.iter() {
        assert!(t.a < mesh.vertices.len());
        assert!(t.b < mesh.vertices.len());
        assert!(t.c < mesh.vertices.len());
    }
    // Tile (0, 0, 1) with extent 4096: denominators are 4096 * 2^1 and the
    // corner vertices sit at the exact fractions 0 and 1/2 of the world.
    for v in mesh.vertices.iter() {
        assert_eq!(v.denom, 8192);
        assert!(v.nx == 0 || v.nx == 4096);
        assert!(v.ny == 0 || v.ny == 4096);
    }
}

#[test]
fn decoded_square_structure() {
    let payload = square_payload();
    let tile = decode_tile(&payload).expect("payload decodes");
    assert_eq!(tile.layers.len(), 1);
    let layer = &tile.layers[0];
    assert_eq!(layer.name, b"area".to_vec());
    assert_eq!(layer.extent, 4096);
    assert_eq!(layer.skipped, 0);
    assert_eq!(layer.features.len(), 1);
    let feature = &layer.features[0];
    assert_eq!(feature.geom_type, GeomType::Polygon);
    assert_eq!(feature.paths.len(), 1);
    let path = &feature.paths[0];
    assert!(path.closed);
    assert_eq!(
        path.points,
        vec![(0, 0), (4096, 0), (4096, 4096), (0, 4096)]
    );
}

#[test]
fn geometry_rejects_lineto_before_moveto() {
    let cmds = vec![26u64, 0, 0, 0, 0, 0, 0];
    assert!(decode_geometry(&cmds).is_none());
}

#[test]
fn geometry_rejects_truncated_stream() {
    let cmds = vec![9u64, 0];
    assert!(decode_geometry(&cmds).is_none());
}

#[test]
fn degenerate_rings_yield_no_triangles() {
    // Two points only.
    let two = vec![(0i64, 0i64), (10, 0)];
    assert!(triangulate(&two).is_empty());
    // Three collinear points: zero signed area.
    let flat = vec![(0i64, 0i64), (5, 0), (10, 0)];
    assert!(triangulate(&flat).is_empty());
}

#[test]
fn degenerate_feature_does_not_fail_tile() {
    // Geometry: a closed "ring" of two points; decodes fine, spans nothing.
    let geom = vec![9u64, zz(0), zz(0), 10, zz(7), zz(0), 15];
    let mut geom_bytes = Vec::new();
    put_packed(&geom, &mut geom_bytes);
    let mut feature = Vec::new();
    feature.push(24);
    put_varint(3, &mut feature);
    feature.push(34);
    put_varint(geom_bytes.len() as u64, &mut feature);
    feature.extend_from_slice(&geom_bytes);
    let mut layer = Vec::new();
    layer.push(10);
    put_varint(1, &mut layer);
    layer.extend_from_slice(b"d");
    layer.push(18);
    put_varint(feature.len() as u64, &mut layer);
    layer.extend_from_slice(&feature);
    layer.push(40);
    put_varint(4096, &mut layer);
    let mut payload = Vec::new();
    payload.push(26);
    put_varint(layer.len() as u64, &mut payload);
    payload.extend_from_slice(&layer);

    let tile = decode_tile(&payload).expect("tile decodes despite degenerate ring");
    assert_eq!(tile.layers[0].features.len(), 1);
    let mesh = tile.layers[0].features[0].to_mesh();
    assert_eq!(mesh.triangles.len(), 0);
}

#[test]
fn triangulated_square_is_two_triangles() {
    let ring = vec![(0i64, 0i64), (10, 0), (10, 10), (0, 10)];
    let tris = triangulate(&ring);
    assert_eq!(tris.len(), 2);
    for t in tris.iter() {
        assert!(t.a < 4 && t.b < 4 && t.c < 4);
    }
}

#[test]
fn clockwise_ring_still_triangulates() {
    let ring = vec![(0i64, 0i64), (0, 10), (10, 10), (10, 0)];
    let tris = triangulate(&ring);
    assert_eq!(tris.len(), 2);
}

#[test]
fn feature_with_unknown_type_is_skipped() {
    // Feature with type tag 0 (unknown) and valid geometry: skipped, counted.
    let geom = square_geometry();
    let mut geom_bytes = Vec::new();
    put_packed(&geom, &mut geom_bytes);
    let mut feature = Vec::new();
    feature.push(24);
    put_varint(0, &mut feature);
    feature.push(34);
    put_varint(geom_bytes.len() as u64, &mut feature);
    feature.extend_from_slice(&geom_bytes);
    let mut layer = Vec::new();
    layer.push(18);
    put_varint(feature.len() as u64, &mut layer);
    layer.extend_from_slice(&feature);
    let mut payload = Vec::new();
    payload.push(26);
    put_varint(layer.len() as u64, &mut payload);
    payload.extend_from_slice(&layer);

    let tile = decode_tile(&payload).expect("tile decodes");
    assert_eq!(tile.layers.len(), 1);
    assert_eq!(tile.layers[0].features.len(), 0);
    assert_eq!(tile.layers[0].skipped, 1);
    // The extent field was absent: the default applies.
    assert_eq!(tile.layers[0].extent, 4096);
}

#[test]
fn polygon_with_hole_triangulates_within_bounds() {
    // Outer square 0..12 (positive area), hole square 4..8 (negative area).
    let outer_hole = papariki::decode::Feature {
        geom_type: GeomType::Polygon,
        paths: vec![
            papariki::geom::Path {
                points: vec![(0, 0), (12, 0), (12, 12), (0, 12)],
                closed: true,
            },
            papariki::geom::Path {
                points: vec![(4, 4), (4, 8), (8, 8), (8, 4)],
                closed: true,
            },
        ],
    };
    let mesh = outer_hole.to_mesh();
    assert!(mesh.triangles.len() > 0);
    for t in mesh.triangles.iter() {
        assert!(t.a < mesh.vertices.len());
        assert!(t.b < mesh.vertices.len());
        assert!(t.c < mesh.vertices.len());
    }
    // The merged ring duplicates the two bridge endpoints.
    assert_eq!(mesh.vertices.len(), 4 + 4 + 2);
}

#[test]
fn varint_at_offset() {
    let bytes = vec![0x00u8, 0xac, 0x02];
    let (v, end) = read_varint(&bytes, 1).expect("varint at offset decodes");
    assert_eq!(v, 300);
    assert_eq!(end, 3);
}

#[test]
fn tile_with_two_layers() {
    let payload_one = square_payload();
    let mut payload = payload_one.clone();
    payload.extend_from_slice(&payload_one);
    let tile = decode_tile(&payload).expect("two-layer tile decodes");
    assert_eq!(tile.layers.len(), 2);
    assert_eq!(tile.layers[1].extent, 4096);
}

#[test]
fn empty_payload_is_empty_tile() {
    let tile = decode_tile(&Vec::new()).expect("empty payload is an empty tile");
    assert_eq!(tile.layers.len(), 0);
}

#[test]
fn flat_triangle_indices() {
    let ring = vec![(0i64, 0i64), (10, 0), (10, 10), (0, 10)];
    let tris = triangulate(&ring);
    let mesh = papariki::mesh::TileMesh {
        vertices: Vec::new(),
        triangles: tris.clone(),
    };
    let flat = mesh.triangles_flat();
    assert_eq!(flat.len(), 3 * tris.len());
    for (k, t) in tris.iter().enumerate() {
        assert_eq!(flat[3 * k], t.a);
        assert_eq!(flat[3 * k + 1], t.b);
        assert_eq!(flat[3 * k + 2], t.c);
    }
}

#[test]
fn point_and_line_features_make_no_mesh() {
    for gt in [GeomType::Point, GeomType::Line] {
        let feature = papariki::decode::Feature {
            geom_type: gt,
            paths: vec![papariki::geom::Path {
                points: vec![(0, 0), (10, 0), (10, 10)],
                closed: true,
            }],
        };
        let mesh = feature.to_mesh();
        assert_eq!(mesh.vertices.len(), 0);
        assert_eq!(mesh.triangles.len(), 0);
    }
}

#[test]
fn hole_only_feature_makes_no_triangles() {
    // A single negative-area (clockwise) ring has no outer boundary.
    let feature = papariki::decode::Feature {
        geom_type: GeomType::Polygon,
        paths: vec![papariki::geom::Path {
            points: vec![(0, 0), (0, 10), (10, 10), (10, 0)],
            closed: true,
        }],
    };
    // Per the tile convention only positive-area rings open a polygon, so
    // a hole with no enclosing outer ring contributes nothing.
    let mesh = feature.to_mesh();
    assert_eq!(mesh.triangles.len(), 0);
}
