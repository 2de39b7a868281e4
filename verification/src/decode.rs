use vstd::prelude::*;
use vstd::slice::{slice_subrange, slice_to_vec};
use crate::varint::{spec_varint, lemma_varint_advances, read_varint};
use crate::geom::{
    decode_geometry, geom_init, spec_geom, spec_paths_ok, paths_view, Path, SpecPath,
};

verus! {

/// The tile payload could not be read at the framing level.
#[derive(Clone, Copy, PartialEq, Eq, Structural, Debug)]
pub enum DecodeError {
    Malformed,
}

/// Geometry class of a feature.
#[derive(Clone, Copy, PartialEq, Eq, Structural, Debug)]
pub enum GeomType {
    Point,
    Line,
    Polygon,
}

/// One decoded feature: its geometry class and its absolute-coordinate paths.
pub struct Feature {
    pub geom_type: GeomType,
    pub paths: Vec<Path>,
}

#[verifier::ext_equal]
pub ghost struct SpecFeature {
    pub geom_type: GeomType,
    pub paths: Seq<SpecPath>,
}

impl View for Feature {
    type V = SpecFeature;

    open spec fn view(&self) -> SpecFeature {
        SpecFeature { geom_type: self.geom_type, paths: paths_view(self.paths@) }
    }
}

/// One decoded layer: its name, local coordinate extent, the features that
/// decoded, and how many malformed features were skipped.
pub struct Layer {
    pub name: Vec<u8>,
    pub extent: u64,
    pub features: Vec<Feature>,
    pub skipped: u64,
}

#[verifier::ext_equal]
pub ghost struct SpecLayer {
    pub name: Seq<u8>,
    pub extent: u64,
    pub features: Seq<SpecFeature>,
    pub skipped: nat,
}

pub open spec fn features_view(v: Seq<Feature>) -> Seq<SpecFeature> {
    v.map_values(|f: Feature| f@)
}

impl View for Layer {
    type V = SpecLayer;

    open spec fn view(&self) -> SpecLayer {
        SpecLayer {
            name: self.name@,
            extent: self.extent,
            features: features_view(self.features@),
            skipped: self.skipped as nat,
        }
    }
}

/// A decoded tile: its layers in payload order.
pub struct Tile {
    pub layers: Vec<Layer>,
}

#[verifier::ext_equal]
pub ghost struct SpecTile {
    pub layers: Seq<SpecLayer>,
}

pub open spec fn layers_view(v: Seq<Layer>) -> Seq<SpecLayer> {
    v.map_values(|l: Layer| l@)
}

impl View for Tile {
    type V = SpecTile;

    open spec fn view(&self) -> SpecTile {
        SpecTile { layers: layers_view(self.layers@) }
    }
}

/// Varint bounded by a block end, with a value that fits in a `u64`.
pub open spec fn spec_varint64(s: Seq<u8>, i: int, end: int) -> Option<(u64, int)> {
    match spec_varint(s, i) {
        None => None,
        Some((v, j)) => if v <= u64::MAX && j <= end {
            Some(((v as u64), j))
        } else {
            None
        },
    }
}

pub proof fn lemma_varint64_advances(s: Seq<u8>, i: int, end: int)
    requires
        spec_varint64(s, i, end) is Some,
    ensures
        i < spec_varint64(s, i, end)->Some_0.1 <= end,
{
    lemma_varint_advances(s, i);
}

/// Skips one field body of the given wire type, returning the next position.
pub open spec fn spec_skip(s: Seq<u8>, i: int, end: int, wt: u64) -> Option<int> {
    if wt == 0 {
        match spec_varint64(s, i, end) {
            None => None,
            Some((v, j)) => Some(j),
        }
    } else if wt == 1 {
        if i + 8 <= end {
            Some(i + 8)
        } else {
            None
        }
    } else if wt == 2 {
        match spec_varint64(s, i, end) {
            None => None,
            Some((l, j)) => if j + l <= end {
                Some(j + l)
            } else {
                None
            },
        }
    } else if wt == 5 {
        if i + 4 <= end {
            Some(i + 4)
        } else {
            None
        }
    } else {
        None
    }
}

pub proof fn lemma_skip_advances(s: Seq<u8>, i: int, end: int, wt: u64)
    requires
        spec_skip(s, i, end, wt) is Some,
    ensures
        i < spec_skip(s, i, end, wt)->Some_0 <= end,
{
    if wt == 0 || wt == 2 {
        lemma_varint64_advances(s, i, end);
    }
}

/// Packed varints of a block, appended to `acc`.
pub open spec fn spec_packed(s: Seq<u8>, i: int, end: int, acc: Seq<u64>) -> Option<Seq<u64>>
    decreases end - i,
{
    if i >= end {
        Some(acc)
    } else {
        match spec_varint64(s, i, end) {
            None => None,
            Some((v, j)) => {
                proof {
                    lemma_varint64_advances(s, i, end);
                }
                spec_packed(s, j, end, acc.push(v))
            },
        }
    }
}

/// Accumulated fields of a feature message: the raw geometry-type tag and
/// the concatenated packed geometry integers.
#[verifier::ext_equal]
pub ghost struct FeatAcc {
    pub raw_type: u64,
    pub geom: Seq<u64>,
}

/// Reads the fields of a feature message between `i` and `end`: the type tag
/// (field 3) and the packed geometry (field 4); other fields are skipped.
pub open spec fn spec_feature_fields(s: Seq<u8>, i: int, end: int, st: FeatAcc) -> Option<FeatAcc>
    decreases end - i,
{
    if i >= end {
        Some(st)
    } else {
        match spec_varint64(s, i, end) {
            None => None,
            Some((key, j)) => {
                proof {
                    lemma_varint64_advances(s, i, end);
                }
                let field = key / 8;
                let wt = key % 8;
                if field == 3 && wt == 0 {
                    match spec_varint64(s, j, end) {
                        None => None,
                        Some((v, j2)) => {
                            proof {
                                lemma_varint64_advances(s, j, end);
                            }
                            spec_feature_fields(s, j2, end, FeatAcc { raw_type: v, geom: st.geom })
                        },
                    }
                } else if field == 4 && wt == 2 {
                    match spec_varint64(s, j, end) {
                        None => None,
                        Some((l, j2)) => {
                            proof {
                                lemma_varint64_advances(s, j, end);
                            }
                            if j2 + l > end {
                                None
                            } else {
                                match spec_packed(s, j2, j2 + l, st.geom) {
                                    None => None,
                                    Some(g) => spec_feature_fields(
                                        s,
                                        j2 + l,
                                        end,
                                        FeatAcc { raw_type: st.raw_type, geom: g },
                                    ),
                                }
                            }
                        },
                    }
                } else {
                    match spec_skip(s, j, end, wt) {
                        None => None,
                        Some(j2) => {
                            proof {
                                lemma_skip_advances(s, j, end, wt);
                            }
                            spec_feature_fields(s, j2, end, st)
                        },
                    }
                }
            },
        }
    }
}

pub open spec fn feat_acc_init() -> FeatAcc {
    FeatAcc { raw_type: 0, geom: Seq::empty() }
}

pub open spec fn type_of_raw(raw: u64) -> GeomType {
    if raw == 1 {
        GeomType::Point
    } else if raw == 2 {
        GeomType::Line
    } else {
        GeomType::Polygon
    }
}

/// The feature decoded from a feature message block, or `None` when the
/// block's fields, its geometry-type tag, or its command stream are
/// malformed; such a feature is skipped, not fatal to the tile.
pub open spec fn spec_feature(s: Seq<u8>, i: int, end: int) -> Option<SpecFeature> {
    match spec_feature_fields(s, i, end, feat_acc_init()) {
        None => None,
        Some(fa) => {
            if fa.raw_type == 1 || fa.raw_type == 2 || fa.raw_type == 3 {
                match spec_geom(fa.geom, 0, geom_init()) {
                    None => None,
                    Some(paths) => Some(
                        SpecFeature { geom_type: type_of_raw(fa.raw_type), paths },
                    ),
                }
            } else {
                None
            }
        },
    }
}

pub open spec fn layer_acc_init() -> SpecLayer {
    SpecLayer { name: Seq::empty(), extent: 4096, features: Seq::empty(), skipped: 0 }
}

/// Reads the fields of a layer message: name (field 1), features (field 2),
/// extent (field 5); other fields are skipped.  A feature that fails to
/// decode only bumps the skip count.
pub open spec fn spec_layer_fields(s: Seq<u8>, i: int, end: int, st: SpecLayer) -> Option<SpecLayer>
    decreases end - i,
{
    if i >= end {
        Some(st)
    } else {
        match spec_varint64(s, i, end) {
            None => None,
            Some((key, j)) => {
                proof {
                    lemma_varint64_advances(s, i, end);
                }
                let field = key / 8;
                let wt = key % 8;
                if field == 1 && wt == 2 {
                    match spec_varint64(s, j, end) {
                        None => None,
                        Some((l, j2)) => {
                            proof {
                                lemma_varint64_advances(s, j, end);
                            }
                            if j2 + l > end {
                                None
                            } else {
                                spec_layer_fields(s, j2 + l, end, SpecLayer {
                                    name: s.subrange(j2, j2 + l),
                                    extent: st.extent,
                                    features: st.features,
                                    skipped: st.skipped,
                                })
                            }
                        },
                    }
                } else if field == 2 && wt == 2 {
                    match spec_varint64(s, j, end) {
                        None => None,
                        Some((l, j2)) => {
                            proof {
                                lemma_varint64_advances(s, j, end);
                            }
                            if j2 + l > end {
                                None
                            } else {
                                match spec_feature(s, j2, j2 + l) {
                                    None => spec_layer_fields(s, j2 + l, end, SpecLayer {
                                        name: st.name,
                                        extent: st.extent,
                                        features: st.features,
                                        skipped: st.skipped + 1,
                                    }),
                                    Some(f) => spec_layer_fields(s, j2 + l, end, SpecLayer {
                                        name: st.name,
                                        extent: st.extent,
                                        features: st.features.push(f),
                                        skipped: st.skipped,
                                    }),
                                }
                            }
                        },
                    }
                } else if field == 5 && wt == 0 {
                    match spec_varint64(s, j, end) {
                        None => None,
                        Some((v, j2)) => {
                            proof {
                                lemma_varint64_advances(s, j, end);
                            }
                            spec_layer_fields(s, j2, end, SpecLayer {
                                name: st.name,
                                extent: v,
                                features: st.features,
                                skipped: st.skipped,
                            })
                        },
                    }
                } else {
                    match spec_skip(s, j, end, wt) {
                        None => None,
                        Some(j2) => {
                            proof {
                                lemma_skip_advances(s, j, end, wt);
                            }
                            spec_layer_fields(s, j2, end, st)
                        },
                    }
                }
            },
        }
    }
}

/// Reads the fields of the top-level tile message: layers (field 3); other
/// fields are skipped.  A malformed layer fails the whole tile.
pub open spec fn spec_tile_fields(s: Seq<u8>, i: int, end: int, acc: Seq<SpecLayer>) -> Option<
    Seq<SpecLayer>,
>
    decreases end - i,
{
    if i >= end {
        Some(acc)
    } else {
        match spec_varint64(s, i, end) {
            None => None,
            Some((key, j)) => {
                proof {
                    lemma_varint64_advances(s, i, end);
                }
                let field = key / 8;
                let wt = key % 8;
                if field == 3 && wt == 2 {
                    match spec_varint64(s, j, end) {
                        None => None,
                        Some((l, j2)) => {
                            proof {
                                lemma_varint64_advances(s, j, end);
                            }
                            if j2 + l > end {
                                None
                            } else {
                                match spec_layer_fields(s, j2, j2 + l, layer_acc_init()) {
                                    None => None,
                                    Some(ly) => spec_tile_fields(s, j2 + l, end, acc.push(ly)),
                                }
                            }
                        },
                    }
                } else {
                    match spec_skip(s, j, end, wt) {
                        None => None,
                        Some(j2) => {
                            proof {
                                lemma_skip_advances(s, j, end, wt);
                            }
                            spec_tile_fields(s, j2, end, acc)
                        },
                    }
                }
            },
        }
    }
}

/// The tile decoded from a whole payload, or `None` when the payload is
/// malformed at the framing level.
pub open spec fn spec_tile(s: Seq<u8>) -> Option<SpecTile> {
    match spec_tile_fields(s, 0, s.len() as int, Seq::empty()) {
        None => None,
        Some(layers) => Some(SpecTile { layers }),
    }
}

pub open spec fn features_ok(fs: Seq<SpecFeature>) -> bool {
    forall|k: int| 0 <= k < fs.len() ==> spec_paths_ok((#[trigger] fs[k]).paths)
}

pub open spec fn layers_ok(ls: Seq<SpecLayer>) -> bool {
    forall|k: int| 0 <= k < ls.len() ==> features_ok((#[trigger] ls[k]).features)
}

/// Every point of every decoded tile stays inside the coordinate range.
pub open spec fn tile_paths_ok(t: SpecTile) -> bool {
    layers_ok(t.layers)
}

pub proof fn lemma_feature_ok(s: Seq<u8>, i: int, end: int)
    requires
        spec_feature(s, i, end) is Some,
    ensures
        spec_paths_ok(spec_feature(s, i, end)->Some_0.paths),
{
    let fa = spec_feature_fields(s, i, end, feat_acc_init())->Some_0;
    crate::geom::lemma_spec_geom_bounded(fa.geom, 0, geom_init());
}

pub proof fn lemma_layer_fields_ok(s: Seq<u8>, i: int, end: int, st: SpecLayer)
    requires
        features_ok(st.features),
        spec_layer_fields(s, i, end, st) is Some,
    ensures
        features_ok(spec_layer_fields(s, i, end, st)->Some_0.features),
    decreases end - i,
{
    if i >= end {
    } else {
        let (key, j) = spec_varint64(s, i, end)->Some_0;
        lemma_varint64_advances(s, i, end);
        let field = key / 8;
        let wt = key % 8;
        if field == 1 && wt == 2 {
            let (l, j2) = spec_varint64(s, j, end)->Some_0;
            lemma_varint64_advances(s, j, end);
            lemma_layer_fields_ok(s, j2 + l, end, SpecLayer {
                name: s.subrange(j2, j2 + l),
                extent: st.extent,
                features: st.features,
                skipped: st.skipped,
            });
        } else if field == 2 && wt == 2 {
            let (l, j2) = spec_varint64(s, j, end)->Some_0;
            lemma_varint64_advances(s, j, end);
            match spec_feature(s, j2, j2 + l) {
                None => {
                    lemma_layer_fields_ok(s, j2 + l, end, SpecLayer {
                        name: st.name,
                        extent: st.extent,
                        features: st.features,
                        skipped: st.skipped + 1,
                    });
                },
                Some(f) => {
                    lemma_feature_ok(s, j2, j2 + l);
                    assert(features_ok(st.features.push(f)));
                    lemma_layer_fields_ok(s, j2 + l, end, SpecLayer {
                        name: st.name,
                        extent: st.extent,
                        features: st.features.push(f),
                        skipped: st.skipped,
                    });
                },
            }
        } else if field == 5 && wt == 0 {
            let (v, j2) = spec_varint64(s, j, end)->Some_0;
            lemma_varint64_advances(s, j, end);
            lemma_layer_fields_ok(s, j2, end, SpecLayer {
                name: st.name,
                extent: v,
                features: st.features,
                skipped: st.skipped,
            });
        } else {
            let j2 = spec_skip(s, j, end, wt)->Some_0;
            lemma_skip_advances(s, j, end, wt);
            lemma_layer_fields_ok(s, j2, end, st);
        }
    }
}

pub proof fn lemma_tile_fields_ok(s: Seq<u8>, i: int, end: int, acc: Seq<SpecLayer>)
    requires
        layers_ok(acc),
        spec_tile_fields(s, i, end, acc) is Some,
    ensures
        layers_ok(spec_tile_fields(s, i, end, acc)->Some_0),
    decreases end - i,
{
    if i >= end {
    } else {
        let (key, j) = spec_varint64(s, i, end)->Some_0;
        lemma_varint64_advances(s, i, end);
        let field = key / 8;
        let wt = key % 8;
        if field == 3 && wt == 2 {
            let (l, j2) = spec_varint64(s, j, end)->Some_0;
            lemma_varint64_advances(s, j, end);
            let ly = spec_layer_fields(s, j2, j2 + l, layer_acc_init())->Some_0;
            lemma_layer_fields_ok(s, j2, j2 + l, layer_acc_init());
            assert(layers_ok(acc.push(ly)));
            lemma_tile_fields_ok(s, j2 + l, end, acc.push(ly));
        } else {
            let j2 = spec_skip(s, j, end, wt)->Some_0;
            lemma_skip_advances(s, j, end, wt);
            lemma_tile_fields_ok(s, j2, end, acc);
        }
    }
}

pub proof fn lemma_features_view_push(v: Seq<Feature>, e: Feature)
    ensures
        features_view(v.push(e)) == features_view(v).push(e@),
{
    assert(features_view(v.push(e)) =~= features_view(v).push(e@));
}

pub proof fn lemma_layers_view_push(v: Seq<Layer>, e: Layer)
    ensures
        layers_view(v.push(e)) == layers_view(v).push(e@),
{
    assert(layers_view(v.push(e)) =~= layers_view(v).push(e@));
}

/// Reads one varint whose end stays within `end`, mirroring `spec_varint64`.
fn read_varint64(data: &Vec<u8>, i: usize, end: usize) -> (r: Option<(u64, usize)>)
    requires
        end <= data.len(),
    ensures
        (match r {
            Some((v, j)) => spec_varint64(data@, i as int, end as int) == Some((v, j as int))
                && i < j <= end,
            None => spec_varint64(data@, i as int, end as int) is None,
        }),
{
    match read_varint(data, i) {
        None => None,
        Some((v, j)) => if j <= end {
            Some((v, j))
        } else {
            None
        },
    }
}

/// Skips one field body, mirroring `spec_skip`.
fn skip_field(data: &Vec<u8>, i: usize, end: usize, wt: u64) -> (r: Option<usize>)
    requires
        i <= end <= data.len(),
    ensures
        (match r {
            Some(j2) => spec_skip(data@, i as int, end as int, wt) == Some(j2 as int) && i < j2
                <= end,
            None => spec_skip(data@, i as int, end as int, wt) is None,
        }),
{
    if wt == 0 {
        match read_varint64(data, i, end) {
            None => None,
            Some((_v, j)) => Some(j),
        }
    } else if wt == 1 {
        if end - i >= 8 {
            Some(i + 8)
        } else {
            None
        }
    } else if wt == 2 {
        match read_varint64(data, i, end) {
            None => None,
            Some((l, j)) => if l <= (end - j) as u64 {
                Some(j + (l as usize))
            } else {
                None
            },
        }
    } else if wt == 5 {
        if end - i >= 4 {
            Some(i + 4)
        } else {
            None
        }
    } else {
        None
    }
}

/// Reads the packed varints of a block, mirroring `spec_packed`.
fn read_packed(data: &Vec<u8>, i: usize, end: usize, acc: Vec<u64>) -> (r: Option<Vec<u64>>)
    requires
        i <= end <= data.len(),
    ensures
        (match r {
            Some(vals) => spec_packed(data@, i as int, end as int, acc@) == Some(vals@),
            None => spec_packed(data@, i as int, end as int, acc@) is None,
        }),
    decreases end - i,
{
    if i >= end {
        return Some(acc);
    }
    match read_varint64(data, i, end) {
        None => None,
        Some((v, j)) => {
            let mut acc = acc;
            acc.push(v);
            read_packed(data, j, end, acc)
        },
    }
}

/// Reads a feature message's fields, mirroring `spec_feature_fields`.
fn feature_fields_rec(data: &Vec<u8>, i: usize, end: usize, raw_type: u64, geom: Vec<u64>) -> (r:
    Option<(u64, Vec<u64>)>)
    requires
        i <= end <= data.len(),
    ensures
        (match r {
            Some((rt, g)) => spec_feature_fields(
                data@,
                i as int,
                end as int,
                FeatAcc { raw_type, geom: geom@ },
            ) == Some(FeatAcc { raw_type: rt, geom: g@ }),
            None => spec_feature_fields(
                data@,
                i as int,
                end as int,
                FeatAcc { raw_type, geom: geom@ },
            ) is None,
        }),
    decreases end - i,
{
    if i >= end {
        return Some((raw_type, geom));
    }
    match read_varint64(data, i, end) {
        None => None,
        Some((key, j)) => {
            let field = key / 8;
            let wt = key % 8;
            if field == 3 && wt == 0 {
                match read_varint64(data, j, end) {
                    None => None,
                    Some((v, j2)) => feature_fields_rec(data, j2, end, v, geom),
                }
            } else if field == 4 && wt == 2 {
                match read_varint64(data, j, end) {
                    None => None,
                    Some((l, j2)) => {
                        if l > (end - j2) as u64 {
                            None
                        } else {
                            let bend = j2 + (l as usize);
                            match read_packed(data, j2, bend, geom) {
                                None => None,
                                Some(g) => feature_fields_rec(data, bend, end, raw_type, g),
                            }
                        }
                    },
                }
            } else {
                match skip_field(data, j, end, wt) {
                    None => None,
                    Some(j2) => feature_fields_rec(data, j2, end, raw_type, geom),
                }
            }
        },
    }
}

/// Decodes one feature message block, mirroring `spec_feature`.
fn decode_feature(data: &Vec<u8>, i: usize, end: usize) -> (r: Option<Feature>)
    requires
        i <= end <= data.len(),
    ensures
        (match r {
            Some(f) => spec_feature(data@, i as int, end as int) == Some(f@),
            None => spec_feature(data@, i as int, end as int) is None,
        }),
{
    let geom0: Vec<u64> = Vec::new();
    assert(FeatAcc { raw_type: 0u64, geom: geom0@ } =~~= feat_acc_init());
    match feature_fields_rec(data, i, end, 0, geom0) {
        None => None,
        Some((rt, g)) => {
            if rt == 1 || rt == 2 || rt == 3 {
                match decode_geometry(&g) {
                    None => None,
                    Some(paths) => {
                        let gt = if rt == 1 {
                            GeomType::Point
                        } else if rt == 2 {
                            GeomType::Line
                        } else {
                            GeomType::Polygon
                        };
                        Some(Feature { geom_type: gt, paths })
                    },
                }
            } else {
                None
            }
        },
    }
}

/// Reads a layer message's fields, mirroring `spec_layer_fields`.
fn layer_fields_rec(
    data: &Vec<u8>,
    i: usize,
    end: usize,
    name: Vec<u8>,
    extent: u64,
    features: Vec<Feature>,
    skipped: u64,
) -> (r: Option<Layer>)
    requires
        i <= end <= data.len(),
        skipped as int <= i as int,
    ensures
        (match r {
            Some(ly) => spec_layer_fields(
                data@,
                i as int,
                end as int,
                SpecLayer {
                    name: name@,
                    extent,
                    features: features_view(features@),
                    skipped: skipped as nat,
                },
            ) == Some(ly@),
            None => spec_layer_fields(
                data@,
                i as int,
                end as int,
                SpecLayer {
                    name: name@,
                    extent,
                    features: features_view(features@),
                    skipped: skipped as nat,
                },
            ) is None,
        }),
    decreases end - i,
{
    if i >= end {
        return Some(Layer { name, extent, features, skipped });
    }
    match read_varint64(data, i, end) {
        None => None,
        Some((key, j)) => {
            let field = key / 8;
            let wt = key % 8;
            if field == 1 && wt == 2 {
                match read_varint64(data, j, end) {
                    None => None,
                    Some((l, j2)) => {
                        if l > (end - j2) as u64 {
                            None
                        } else {
                            let bend = j2 + (l as usize);
                            let name2 = slice_to_vec(slice_subrange(data.as_slice(), j2, bend));
                            layer_fields_rec(data, bend, end, name2, extent, features, skipped)
                        }
                    },
                }
            } else if field == 2 && wt == 2 {
                match read_varint64(data, j, end) {
                    None => None,
                    Some((l, j2)) => {
                        if l > (end - j2) as u64 {
                            None
                        } else {
                            let bend = j2 + (l as usize);
                            match decode_feature(data, j2, bend) {
                                None => layer_fields_rec(
                                    data,
                                    bend,
                                    end,
                                    name,
                                    extent,
                                    features,
                                    skipped + 1,
                                ),
                                Some(f) => {
                                    let mut features = features;
                                    let ghost gf = features@;
                                    let ghost gfv = f@;
                                    features.push(f);
                                    proof {
                                        lemma_features_view_push(gf, features@[gf.len() as int]);
                                        assert(features_view(features@) =~= features_view(gf).push(
                                            gfv,
                                        ));
                                    }
                                    layer_fields_rec(data, bend, end, name, extent, features, skipped)
                                },
                            }
                        }
                    },
                }
            } else if field == 5 && wt == 0 {
                match read_varint64(data, j, end) {
                    None => None,
                    Some((v, j2)) => layer_fields_rec(data, j2, end, name, v, features, skipped),
                }
            } else {
                match skip_field(data, j, end, wt) {
                    None => None,
                    Some(j2) => layer_fields_rec(data, j2, end, name, extent, features, skipped),
                }
            }
        },
    }
}

/// Reads the top-level tile fields, mirroring `spec_tile_fields`.
fn tile_fields_rec(data: &Vec<u8>, i: usize, end: usize, layers: Vec<Layer>) -> (r: Option<
    Vec<Layer>,
>)
    requires
        i <= end <= data.len(),
    ensures
        (match r {
            Some(ls) => spec_tile_fields(data@, i as int, end as int, layers_view(layers@))
                == Some(layers_view(ls@)),
            None => spec_tile_fields(data@, i as int, end as int, layers_view(layers@)) is None,
        }),
    decreases end - i,
{
    if i >= end {
        return Some(layers);
    }
    match read_varint64(data, i, end) {
        None => None,
        Some((key, j)) => {
            let field = key / 8;
            let wt = key % 8;
            if field == 3 && wt == 2 {
                match read_varint64(data, j, end) {
                    None => None,
                    Some((l, j2)) => {
                        if l > (end - j2) as u64 {
                            None
                        } else {
                            let bend = j2 + (l as usize);
                            let name0: Vec<u8> = Vec::new();
                            let feats0: Vec<Feature> = Vec::new();
                            assert(SpecLayer {
                                name: name0@,
                                extent: 4096u64,
                                features: features_view(feats0@),
                                skipped: 0nat,
                            } =~~= layer_acc_init());
                            match layer_fields_rec(data, j2, bend, name0, 4096, feats0, 0) {
                                None => None,
                                Some(ly) => {
                                    let mut layers = layers;
                                    let ghost gl = layers@;
                                    let ghost glv = ly@;
                                    layers.push(ly);
                                    proof {
                                        lemma_layers_view_push(gl, layers@[gl.len() as int]);
                                        assert(layers_view(layers@) =~= layers_view(gl).push(glv));
                                    }
                                    tile_fields_rec(data, bend, end, layers)
                                },
                            }
                        }
                    },
                }
            } else {
                match skip_field(data, j, end, wt) {
                    None => None,
                    Some(j2) => tile_fields_rec(data, j2, end, layers),
                }
            }
        },
    }
}

/// Decodes a whole tile payload.  Succeeds exactly when the payload is
/// well-formed at the framing level, returning precisely the tile that
/// `spec_tile` assigns to the bytes; every decoded coordinate is then inside
/// the supported range.
pub fn decode_tile(data: &Vec<u8>) -> (r: Result<Tile, DecodeError>)
    ensures
        (match r {
            Ok(t) => spec_tile(data@) == Some(t@) && tile_paths_ok(t@),
            Err(e) => spec_tile(data@) is None && e == DecodeError::Malformed,
        }),
{
    let layers0: Vec<Layer> = Vec::new();
    assert(layers_view(layers0@) =~= Seq::<SpecLayer>::empty());
    match tile_fields_rec(data, 0, data.len(), layers0) {
        None => Err(DecodeError::Malformed),
        Some(ls) => {
            let t = Tile { layers: ls };
            proof {
                lemma_tile_fields_ok(data@, 0, data@.len() as int, Seq::empty());
            }
            Ok(t)
        },
    }
}

} // verus!
