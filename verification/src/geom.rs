use vstd::prelude::*;
use crate::varint::spec_zigzag;
use crate::varint::zigzag;

verus! {

/// Largest magnitude a reconstructed local coordinate may take.  Keeps all
/// later planar arithmetic (areas, cross products) well inside `i128`.
pub const COORD_LIMIT: i64 = 0x1000_0000;

/// One drawing path of a feature: the absolute local-space points visited,
/// and whether the path was closed into a ring.
pub struct Path {
    pub points: Vec<(i64, i64)>,
    pub closed: bool,
}

/// Mathematical value of a `Path`.
#[verifier::ext_equal]
pub ghost struct SpecPath {
    pub points: Seq<(i64, i64)>,
    pub closed: bool,
}

impl View for Path {
    type V = SpecPath;

    open spec fn view(&self) -> SpecPath {
        SpecPath { points: self.points@, closed: self.closed }
    }
}

pub open spec fn paths_view(v: Seq<Path>) -> Seq<SpecPath> {
    v.map_values(|p: Path| p@)
}

pub open spec fn coord_ok(v: int) -> bool {
    -COORD_LIMIT <= v <= COORD_LIMIT
}

/// State of the command-stream automaton: the cursor, the finished paths,
/// the path being built, and how many delta pairs of the current command
/// remain (`pending`), tagged with whether they belong to a MoveTo.
#[verifier::ext_equal]
pub ghost struct GeomState {
    pub cx: i64,
    pub cy: i64,
    pub done: Seq<SpecPath>,
    pub cur: Option<Seq<(i64, i64)>>,
    pub pending: nat,
    pub pending_move: bool,
}

pub open spec fn geom_init() -> GeomState {
    GeomState { cx: 0, cy: 0, done: Seq::empty(), cur: None, pending: 0, pending_move: false }
}

/// Closes out the automaton: an unfinished path is kept as an open path.
pub open spec fn geom_flush(st: GeomState) -> Seq<SpecPath> {
    match st.cur {
        None => st.done,
        Some(p) => st.done.push(SpecPath { points: p, closed: false }),
    }
}

/// The decoded paths of a geometry command stream, read from position `i`
/// in automaton state `st`, or `None` when the stream is malformed: a
/// LineTo or ClosePath before any MoveTo, a command id other than MoveTo,
/// LineTo or ClosePath, a zero count, a stream that ends mid-command, or a
/// cumulative coordinate outside the supported range.
pub open spec fn spec_geom(s: Seq<u64>, i: int, st: GeomState) -> Option<Seq<SpecPath>>
    decreases s.len() - i,
{
    if i < 0 {
        None
    } else if i >= s.len() {
        if st.pending > 0 {
            None
        } else {
            Some(geom_flush(st))
        }
    } else if st.pending > 0 {
        if i + 2 > s.len() {
            None
        } else {
            let nx = st.cx + spec_zigzag(s[i] as nat);
            let ny = st.cy + spec_zigzag(s[i + 1] as nat);
            if coord_ok(nx) && coord_ok(ny) {
                let pt = (nx as i64, ny as i64);
                if st.pending_move {
                    spec_geom(s, i + 2, GeomState {
                        cx: nx as i64,
                        cy: ny as i64,
                        done: geom_flush(st),
                        cur: Some(seq![pt]),
                        pending: (st.pending - 1) as nat,
                        pending_move: true,
                    })
                } else {
                    match st.cur {
                        None => None,
                        Some(cp) => spec_geom(s, i + 2, GeomState {
                            cx: nx as i64,
                            cy: ny as i64,
                            done: st.done,
                            cur: Some(cp.push(pt)),
                            pending: (st.pending - 1) as nat,
                            pending_move: false,
                        }),
                    }
                }
            } else {
                None
            }
        }
    } else {
        let op = s[i];
        let cmd = op % 8;
        let cnt = (op / 8) as nat;
        if cmd == 1 {
            if cnt == 0 {
                None
            } else {
                spec_geom(s, i + 1, GeomState {
                    cx: st.cx,
                    cy: st.cy,
                    done: st.done,
                    cur: st.cur,
                    pending: cnt,
                    pending_move: true,
                })
            }
        } else if cmd == 2 {
            if cnt == 0 || st.cur is None {
                None
            } else {
                spec_geom(s, i + 1, GeomState {
                    cx: st.cx,
                    cy: st.cy,
                    done: st.done,
                    cur: st.cur,
                    pending: cnt,
                    pending_move: false,
                })
            }
        } else if cmd == 7 {
            match st.cur {
                None => None,
                Some(cp) => {
                    if cnt != 1 {
                        None
                    } else {
                        spec_geom(s, i + 1, GeomState {
                            cx: st.cx,
                            cy: st.cy,
                            done: st.done.push(SpecPath { points: cp, closed: true }),
                            cur: None,
                            pending: 0,
                            pending_move: false,
                        })
                    }
                },
            }
        } else {
            None
        }
    }
}

/// All points of a point sequence stay inside the coordinate range.
pub open spec fn pts_ok(p: Seq<(i64, i64)>) -> bool {
    forall|k: int|
        0 <= k < p.len() ==> coord_ok((#[trigger] p[k]).0 as int) && coord_ok(p[k].1 as int)
}

pub open spec fn spec_paths_ok(ps: Seq<SpecPath>) -> bool {
    forall|k: int| 0 <= k < ps.len() ==> pts_ok((#[trigger] ps[k]).points)
}

pub open spec fn gstate_ok(st: GeomState) -> bool {
    &&& coord_ok(st.cx as int) && coord_ok(st.cy as int)
    &&& spec_paths_ok(st.done)
    &&& (match st.cur {
        None => true,
        Some(p) => pts_ok(p),
    })
}

/// Whatever the automaton accepts from a bounded state has every decoded
/// point inside the coordinate range.
pub proof fn lemma_spec_geom_bounded(s: Seq<u64>, i: int, st: GeomState)
    requires
        gstate_ok(st),
        spec_geom(s, i, st) is Some,
    ensures
        spec_paths_ok(spec_geom(s, i, st)->Some_0),
    decreases s.len() - i,
{
    if i < 0 {
    } else if i >= s.len() {
        match st.cur {
            None => {},
            Some(p) => {
                assert(spec_paths_ok(st.done.push(SpecPath { points: p, closed: false })));
            },
        }
    } else if st.pending > 0 {
        let nx = st.cx + spec_zigzag(s[i] as nat);
        let ny = st.cy + spec_zigzag(s[i + 1] as nat);
        let pt = (nx as i64, ny as i64);
        if st.pending_move {
            let st2 = GeomState {
                cx: nx as i64,
                cy: ny as i64,
                done: geom_flush(st),
                cur: Some(seq![pt]),
                pending: (st.pending - 1) as nat,
                pending_move: true,
            };
            assert(pts_ok(seq![pt]));
            match st.cur {
                None => {},
                Some(p) => {
                    assert(spec_paths_ok(st.done.push(SpecPath { points: p, closed: false })));
                },
            }
            lemma_spec_geom_bounded(s, i + 2, st2);
        } else {
            match st.cur {
                None => {},
                Some(cp) => {
                    let st2 = GeomState {
                        cx: nx as i64,
                        cy: ny as i64,
                        done: st.done,
                        cur: Some(cp.push(pt)),
                        pending: (st.pending - 1) as nat,
                        pending_move: false,
                    };
                    assert(pts_ok(cp.push(pt)));
                    lemma_spec_geom_bounded(s, i + 2, st2);
                },
            }
        }
    } else {
        let op = s[i];
        let cmd = op % 8;
        let cnt = (op / 8) as nat;
        if cmd == 1 {
            lemma_spec_geom_bounded(s, i + 1, GeomState {
                cx: st.cx,
                cy: st.cy,
                done: st.done,
                cur: st.cur,
                pending: cnt,
                pending_move: true,
            });
        } else if cmd == 2 {
            lemma_spec_geom_bounded(s, i + 1, GeomState {
                cx: st.cx,
                cy: st.cy,
                done: st.done,
                cur: st.cur,
                pending: cnt,
                pending_move: false,
            });
        } else if cmd == 7 {
            match st.cur {
                None => {},
                Some(cp) => {
                    let d2 = st.done.push(SpecPath { points: cp, closed: true });
                    assert(spec_paths_ok(d2));
                    lemma_spec_geom_bounded(s, i + 1, GeomState {
                        cx: st.cx,
                        cy: st.cy,
                        done: d2,
                        cur: None,
                        pending: 0,
                        pending_move: false,
                    });
                },
            }
        }
    }
}

pub open spec fn opt_pts_view(c: Option<Vec<(i64, i64)>>) -> Option<Seq<(i64, i64)>> {
    match c {
        None => None,
        Some(v) => Some(v@),
    }
}

pub open spec fn gstate(
    cx: i64,
    cy: i64,
    done: Seq<Path>,
    cur: Option<Vec<(i64, i64)>>,
    pending: u64,
    pending_move: bool,
) -> GeomState {
    GeomState {
        cx,
        cy,
        done: paths_view(done),
        cur: opt_pts_view(cur),
        pending: pending as nat,
        pending_move,
    }
}

/// Runs the command-stream automaton, mirroring `spec_geom` step by step.
fn geom_rec(
    s: &Vec<u64>,
    i: usize,
    cx: i64,
    cy: i64,
    done: Vec<Path>,
    cur: Option<Vec<(i64, i64)>>,
    pending: u64,
    pending_move: bool,
) -> (r: Option<Vec<Path>>)
    requires
        coord_ok(cx as int),
        coord_ok(cy as int),
    ensures
        (match r {
            Some(paths) => spec_geom(s@, i as int, gstate(cx, cy, done@, cur, pending, pending_move))
                == Some(paths_view(paths@)),
            None => spec_geom(s@, i as int, gstate(cx, cy, done@, cur, pending, pending_move)) is None,
        }),
    decreases s.len() - i,
{
    let ghost st = gstate(cx, cy, done@, cur, pending, pending_move);
    if i >= s.len() {
        if pending > 0 {
            return None;
        }
        let mut done = done;
        match cur {
            None => {
                assert(geom_flush(st) == paths_view(done@));
                Some(done)
            },
            Some(pts) => {
                done.push(Path { points: pts, closed: false });
                proof {
                    assert(paths_view(done@) =~= geom_flush(st));
                }
                Some(done)
            },
        }
    } else if pending > 0 {
        if i + 1 >= s.len() {
            return None;
        }
        let dx = zigzag(s[i]);
        let dy = zigzag(s[i + 1]);
        let nx128: i128 = cx as i128 + dx as i128;
        let ny128: i128 = cy as i128 + dy as i128;
        if nx128 < -(COORD_LIMIT as i128) || nx128 > COORD_LIMIT as i128 || ny128
            < -(COORD_LIMIT as i128) || ny128 > COORD_LIMIT as i128 {
            return None;
        }
        let nx = nx128 as i64;
        let ny = ny128 as i64;
        assert(nx as int == st.cx + spec_zigzag(s@[i as int] as nat));
        assert(ny as int == st.cy + spec_zigzag(s@[i as int + 1] as nat));
        if pending_move {
            let mut done = done;
            match cur {
                None => {},
                Some(pts) => {
                    done.push(Path { points: pts, closed: false });
                    proof {
                        assert(paths_view(done@) =~= geom_flush(st));
                    }
                },
            }
            assert(paths_view(done@) == geom_flush(st));
            let mut npts: Vec<(i64, i64)> = Vec::new();
            npts.push((nx, ny));
            let ghost st2 = GeomState {
                cx: nx,
                cy: ny,
                done: geom_flush(st),
                cur: Some(seq![(nx, ny)]),
                pending: (st.pending - 1) as nat,
                pending_move: true,
            };
            assert(gstate(nx, ny, done@, Some(npts), (pending - 1) as u64, true) =~~= st2);
            let r = geom_rec(s, i + 2, nx, ny, done, Some(npts), pending - 1, true);
            assert(spec_geom(s@, i as int, st) == spec_geom(s@, i as int + 2, st2));
            r
        } else {
            match cur {
                None => None,
                Some(mut pts) => {
                    let ghost gp = pts@;
                    pts.push((nx, ny));
                    let ghost st2 = GeomState {
                        cx: nx,
                        cy: ny,
                        done: st.done,
                        cur: Some(gp.push((nx, ny))),
                        pending: (st.pending - 1) as nat,
                        pending_move: false,
                    };
                    assert(gstate(nx, ny, done@, Some(pts), (pending - 1) as u64, false) =~~= st2);
                    let r = geom_rec(s, i + 2, nx, ny, done, Some(pts), pending - 1, false);
                    assert(spec_geom(s@, i as int, st) == spec_geom(s@, i as int + 2, st2));
                    r
                },
            }
        }
    } else {
        let op = s[i];
        let cmd = op % 8;
        let cnt = op / 8;
        if cmd == 1 {
            if cnt == 0 {
                return None;
            }
            let ghost st2 = GeomState { pending: cnt as nat, pending_move: true, ..st };
            assert(gstate(cx, cy, done@, cur, cnt, true) =~~= st2);
            let r = geom_rec(s, i + 1, cx, cy, done, cur, cnt, true);
            assert(spec_geom(s@, i as int, st) == spec_geom(s@, i as int + 1, st2));
            r
        } else if cmd == 2 {
            if cnt == 0 {
                return None;
            }
            match cur {
                None => None,
                Some(pts) => {
                    let ghost st2 = GeomState { pending: cnt as nat, pending_move: false, ..st };
                    assert(gstate(cx, cy, done@, Some(pts), cnt, false) =~~= st2);
                    let r = geom_rec(s, i + 1, cx, cy, done, Some(pts), cnt, false);
                    assert(spec_geom(s@, i as int, st) == spec_geom(s@, i as int + 1, st2));
                    r
                },
            }
        } else if cmd == 7 {
            match cur {
                None => None,
                Some(pts) => {
                    if cnt != 1 {
                        return None;
                    }
                    let mut done = done;
                    let ghost gd = done@;
                    let ghost gp = pts@;
                    done.push(Path { points: pts, closed: true });
                    let ghost st2 = GeomState {
                        cx: st.cx,
                        cy: st.cy,
                        done: gd.map_values(|p: Path| p@).push(SpecPath { points: gp, closed: true }),
                        cur: None,
                        pending: 0,
                        pending_move: false,
                    };
                    proof {
                        assert(paths_view(done@) =~= st2.done);
                        assert(gstate(cx, cy, done@, None, 0, false) =~~= st2);
                    }
                    let r = geom_rec(s, i + 1, cx, cy, done, None, 0, false);
                    assert(spec_geom(s@, i as int, st) == spec_geom(s@, i as int + 1, st2));
                    r
                },
            }
        } else {
            None
        }
    }
}

/// Decodes a packed geometry command stream into absolute-coordinate paths,
/// returning exactly what `spec_geom` assigns to the stream, or `None` on a
/// malformed stream.
pub fn decode_geometry(s: &Vec<u64>) -> (r: Option<Vec<Path>>)
    ensures
        (match r {
            Some(paths) => spec_geom(s@, 0, geom_init()) == Some(paths_view(paths@)),
            None => spec_geom(s@, 0, geom_init()) is None,
        }),
{
    let done: Vec<Path> = Vec::new();
    assert(gstate(0, 0, done@, None, 0, false) =~~= geom_init());
    geom_rec(s, 0, 0, 0, done, None, 0, false)
}

} // verus!
