//! The processor-set records of the system and the set ids a processor mask
//! selects.
use vstd::prelude::*;

verus! {

/// The size of a record header: its size and its type.
pub const CPU_SET_HEADER_SIZE: usize = 8;

/// The size of a full processor-set record.
pub const CPU_SET_RECORD_SIZE: usize = 32;

/// The little-endian `u32` at `o`.
pub open spec fn u32_at(b: Seq<u8>, o: int) -> int {
    b[o] + b[o + 1] * 256 + b[o + 2] * 65536 + b[o + 3] * 16777216
}

/// The little-endian `u16` at `o`.
pub open spec fn u16_at(b: Seq<u8>, o: int) -> int {
    b[o] + b[o + 1] * 256
}

/// Whether the record at `o` is a processor set of group 0 whose logical
/// processor is selected by `mask`.
pub open spec fn record_selected(b: Seq<u8>, o: int, size: int, mask: u64) -> bool {
    &&& u32_at(b, o + 4) == 0
    &&& size >= CPU_SET_RECORD_SIZE
    &&& u16_at(b, o + 12) == 0
    &&& b[o + 14] < 64
    &&& mask & (1u64 << b[o + 14]) != 0
}

/// The ids of the selected records from offset `o` on, in buffer order; the
/// walk stops at a truncated or malformed record.
pub open spec fn record_ids(b: Seq<u8>, o: int, mask: u64) -> Seq<u32>
    decreases b.len() - o,
{
    if o < 0 || o + CPU_SET_HEADER_SIZE > b.len() {
        Seq::empty()
    } else {
        let size = u32_at(b, o);
        if size < CPU_SET_HEADER_SIZE || o + size > b.len() {
            Seq::empty()
        } else {
            let here = if record_selected(b, o, size, mask) {
                seq![u32_at(b, o + 8) as u32]
            } else {
                Seq::empty()
            };
            here + record_ids(b, o + size, mask)
        }
    }
}

pub open spec fn strictly_increasing(s: Seq<u32>) -> bool {
    forall|i: int, j: int| 0 <= i < j < s.len() ==> #[trigger] s[i] < #[trigger] s[j]
}

fn read_u32(b: &[u8], o: usize) -> (r: u32)
    requires
        o + 4 <= b@.len(),
    ensures
        r == u32_at(b@, o as int),
{
    let v: u64 = b[o] as u64 + (b[o + 1] as u64) * 256 + (b[o + 2] as u64) * 65536 + (b[o + 3] as u64)
        * 16777216;
    v as u32
}

/// Sorts ids and drops duplicates.
pub fn normalize_cpu_set_ids(ids: &mut Vec<u32>)
    ensures
        strictly_increasing(final(ids)@),
        forall|x: u32| final(ids)@.contains(x) <==> old(ids)@.contains(x),
{
    let mut out: Vec<u32> = Vec::new();
    let mut i: usize = 0;
    while i < ids.len()
        invariant
            i <= ids@.len(),
            ids@ == old(ids)@,
            strictly_increasing(out@),
            forall|x: u32| out@.contains(x) <==> ids@.subrange(0, i as int).contains(x),
        decreases ids@.len() - i,
    {
        let x = ids[i];
        let mut pos: usize = 0;
        while pos < out.len() && out[pos] < x
            invariant
                pos <= out@.len(),
                forall|j: int| 0 <= j < pos ==> out@[j] < x,
            decreases out@.len() - pos,
        {
            pos = pos + 1;
        }
        let ghost pre = ids@.subrange(0, i as int);
        let ghost cur = ids@.subrange(0, i + 1);
        assert(cur =~= pre.push(x));
        if pos < out.len() && out[pos] == x {
            assert forall|y: u32| out@.contains(y) <==> cur.contains(y) by {
                if y == x {
                    assert(out@[pos as int] == x);
                    assert(cur[i as int] == x);
                }
                if cur.contains(y) && y != x {
                    let m = choose|m: int| 0 <= m < cur.len() && cur[m] == y;
                    assert(pre[m] == y);
                }
                if pre.contains(y) {
                    let m = choose|m: int| 0 <= m < pre.len() && pre[m] == y;
                    assert(cur[m] == y);
                }
            }
        } else {
            let ghost before = out@;
            out.insert(pos, x);
            assert(out@ =~= before.insert(pos as int, x));
            assert forall|a: int, b: int| 0 <= a < b < out@.len() implies #[trigger] out@[a] < #[trigger] out@[b] by {
                if b < pos {
                } else if b == pos {
                } else if a < pos {
                    assert(before[a] < before[b - 1]);
                } else if a == pos {
                    assert(before[pos as int] > x || before[pos as int] == x);
                    if b - 1 > pos {
                        assert(before[pos as int] < before[b - 1]);
                    }
                } else {
                    assert(before[a - 1] < before[b - 1]);
                }
            }
            assert forall|y: u32| out@.contains(y) <==> cur.contains(y) by {
                if out@.contains(y) {
                    let m = choose|m: int| 0 <= m < out@.len() && out@[m] == y;
                    if m < pos {
                        assert(before[m] == y);
                        assert(before.contains(y));
                    } else if m > pos {
                        assert(before[m - 1] == y);
                        assert(before.contains(y));
                    } else {
                        assert(cur[i as int] == y);
                    }
                    if before.contains(y) {
                        let q = choose|q: int| 0 <= q < pre.len() && pre[q] == y;
                        assert(cur[q] == y);
                    }
                }
                if cur.contains(y) {
                    let m = choose|m: int| 0 <= m < cur.len() && cur[m] == y;
                    if m < i {
                        assert(pre[m] == y);
                        assert(pre.contains(y));
                        assert(before.contains(y));
                        let q = choose|q: int| 0 <= q < before.len() && before[q] == y;
                        if q < pos {
                            assert(out@[q] == y);
                        } else {
                            assert(out@[q + 1] == y);
                        }
                    } else {
                        assert(out@[pos as int] == y);
                    }
                }
            }
        }
        assert(cur == ids@.subrange(0, i + 1));
        i = i + 1;
    }
    assert(ids@.subrange(0, ids@.len() as int) =~= ids@);
    *ids = out;
}

/// The processor-set ids of group 0 whose logical processor `rule_mask`
/// selects, sorted and without duplicates, read from a system processor-set
/// buffer.
pub fn cpu_set_ids_for_mask_from_bytes(buffer: &[u8], rule_mask: u64) -> (r: Vec<u32>)
    ensures
        strictly_increasing(r@),
        forall|x: u32| r@.contains(x) <==> record_ids(buffer@, 0, rule_mask).contains(x),
{
    let mut ids: Vec<u32> = Vec::new();
    let mut offset: usize = 0;
    let len = buffer.len();
    while offset as u128 + CPU_SET_HEADER_SIZE as u128 <= len as u128
        invariant
            len == buffer@.len(),
            offset <= len,
            record_ids(buffer@, 0, rule_mask) == ids@ + record_ids(buffer@, offset as int, rule_mask),
        ensures
            record_ids(buffer@, 0, rule_mask) == ids@,
        decreases len - offset,
    {
        let size = read_u32(buffer, offset);
        if (size as u64) < CPU_SET_HEADER_SIZE as u64 || offset as u128 + size as u128 > len as u128 {
            assert(record_ids(buffer@, offset as int, rule_mask) == Seq::<u32>::empty());
            assert(ids@ + Seq::<u32>::empty() =~= ids@);
            break;
        }
        let kind = read_u32(buffer, offset + 4);
        let ghost before = ids@;
        if kind == 0 && size as u64 >= CPU_SET_RECORD_SIZE as u64 {
            let group: u32 = buffer[offset + 12] as u32 + (buffer[offset + 13] as u32) * 256;
            let lpi = buffer[offset + 14];
            if group == 0 && lpi < 64 {
                if rule_mask & (1u64 << lpi) != 0 {
                    let id = read_u32(buffer, offset + 8);
                    ids.push(id);
                }
            }
        }
        proof {
            let o = offset as int;
            let here = if record_selected(buffer@, o, size as int, rule_mask) {
                seq![u32_at(buffer@, o + 8) as u32]
            } else {
                Seq::<u32>::empty()
            };
            assert(record_ids(buffer@, o, rule_mask) == here + record_ids(buffer@, o + size, rule_mask));
            assert(ids@ =~= before + here);
            assert(before + (here + record_ids(buffer@, o + size, rule_mask)) =~= (before + here)
                + record_ids(buffer@, o + size, rule_mask));
        }
        offset = offset + size as usize;
    }
    normalize_cpu_set_ids(&mut ids);
    ids
}

} // verus!
