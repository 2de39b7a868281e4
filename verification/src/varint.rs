use vstd::prelude::*;

verus! {

/// Base-128 varint starting at byte `i`: the decoded value (as an unbounded
/// natural) and the position just past its last byte, or `None` when the
/// buffer ends before a terminating byte.
pub open spec fn spec_varint(s: Seq<u8>, i: int) -> Option<(nat, int)>
    decreases s.len() - i,
{
    if i < 0 || i >= s.len() {
        None
    } else {
        let b = s[i];
        if b < 128 {
            Some(((b as nat), i + 1))
        } else {
            match spec_varint(s, i + 1) {
                None => None,
                Some((v, j)) => Some((((b - 128) as nat) + 128 * v, j)),
            }
        }
    }
}

/// A varint at `i` decodes and its value fits in a `u64`.
pub open spec fn varint_fits(s: Seq<u8>, i: int) -> bool {
    match spec_varint(s, i) {
        None => false,
        Some((v, j)) => v <= u64::MAX,
    }
}

/// A decoded varint always consumes at least one byte and stays in bounds.
pub proof fn lemma_varint_advances(s: Seq<u8>, i: int)
    requires
        spec_varint(s, i) is Some,
    ensures
        i < spec_varint(s, i)->Some_0.1 <= s.len(),
    decreases s.len() - i,
{
    if 0 <= i < s.len() && s[i] >= 128 {
        lemma_varint_advances(s, i + 1);
    }
}

/// Reads one varint, reporting exactly the value and end position that
/// `spec_varint` assigns; fails exactly when the bytes are not a varint that
/// fits in a `u64`.
pub fn read_varint(data: &Vec<u8>, i: usize) -> (r: Option<(u64, usize)>)
    ensures
        r is Some <==> varint_fits(data@, i as int),
        r matches Some((v, j)) ==> spec_varint(data@, i as int) == Some(((v as nat), j as int))
            && i < j <= data.len(),
    decreases data.len() - i,
{
    if i >= data.len() {
        return None;
    }
    let b = data[i];
    if b < 128 {
        Some((b as u64, i + 1))
    } else {
        match read_varint(data, i + 1) {
            None => None,
            Some((v, j)) => {
                let low = (b - 128) as u64;
                if v <= (u64::MAX - low) / 128 {
                    proof {
                        assert(low + 128 * v <= u64::MAX) by (nonlinear_arith)
                            requires
                                v <= (u64::MAX - low) / 128,
                                low <= 127,
                        ;
                    }
                    Some((low + 128 * v, j))
                } else {
                    proof {
                        assert(low + 128 * (v as nat) > u64::MAX) by (nonlinear_arith)
                            requires
                                v > (u64::MAX - low) / 128,
                                low <= 127,
                                v <= u64::MAX,
                        ;
                    }
                    None
                }
            },
        }
    }
}

/// Zig-zag decoding: even values are nonnegative, odd values negative.
pub open spec fn spec_zigzag(v: nat) -> int {
    if v % 2 == 0 {
        (v / 2) as int
    } else {
        -(((v + 1) / 2) as int)
    }
}

/// Maps a zig-zag-encoded `u64` to the signed value it stands for.
pub fn zigzag(v: u64) -> (r: i64)
    ensures
        r as int == spec_zigzag(v as nat),
{
    if v % 2 == 0 {
        (v / 2) as i64
    } else {
        let h = (v / 2) as i64;
        -h - 1
    }
}

} // verus!
