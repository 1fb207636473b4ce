//! Reading the FlatBuffer wire format: little-endian scalars, tables with
//! their vtables, offsets and vectors. Every read is bounds-checked; a read
//! outside the buffer gives `None`.

use vstd::prelude::*;

verus! {

/// `n` bytes from `pos` lie inside `b`.
pub open spec fn in_bounds(b: Seq<u8>, pos: int, n: int) -> bool {
    0 <= pos && pos + n <= b.len()
}

pub open spec fn le_u16(b: Seq<u8>, pos: int) -> int {
    b[pos] as int + 256 * (b[pos + 1] as int)
}

pub open spec fn le_u32(b: Seq<u8>, pos: int) -> int {
    le_u16(b, pos) + 65536 * le_u16(b, pos + 2)
}

pub open spec fn le_i32(b: Seq<u8>, pos: int) -> int {
    let u = le_u32(b, pos);
    if u >= 0x8000_0000 {
        u - 0x1_0000_0000
    } else {
        u
    }
}

pub open spec fn le_i64(b: Seq<u8>, pos: int) -> int {
    let u = le_u32(b, pos) + 0x1_0000_0000 * le_u32(b, pos + 4);
    if u >= 0x8000_0000_0000_0000 {
        u - 0x1_0000_0000_0000_0000
    } else {
        u
    }
}

/// The byte at `pos`.
pub fn read_u8(b: &[u8], pos: usize) -> (r: Option<u8>)
    ensures
        r == if in_bounds(b@, pos as int, 1) {
            Some(b@[pos as int])
        } else {
            None::<u8>
        },
{
    if pos < b.len() {
        Some(b[pos])
    } else {
        None
    }
}

/// The little-endian `u16` at `pos`.
pub fn read_u16(b: &[u8], pos: usize) -> (r: Option<u16>)
    ensures
        r == if in_bounds(b@, pos as int, 2) {
            Some(le_u16(b@, pos as int) as u16)
        } else {
            None::<u16>
        },
        r matches Some(v) ==> v == le_u16(b@, pos as int),
{
    if pos < b.len() && b.len() - pos >= 2 {
        Some(b[pos] as u16 + 256 * (b[pos + 1] as u16))
    } else {
        None
    }
}

/// The little-endian `u32` at `pos`.
pub fn read_u32(b: &[u8], pos: usize) -> (r: Option<u32>)
    ensures
        r == if in_bounds(b@, pos as int, 4) {
            Some(le_u32(b@, pos as int) as u32)
        } else {
            None::<u32>
        },
        r matches Some(v) ==> v == le_u32(b@, pos as int),
{
    if pos < b.len() && b.len() - pos >= 4 {
        let lo = b[pos] as u32 + 256 * (b[pos + 1] as u32);
        let hi = b[pos + 2] as u32 + 256 * (b[pos + 3] as u32);
        Some(lo + 65536 * hi)
    } else {
        None
    }
}

/// The little-endian `i32` at `pos`.
pub fn read_i32(b: &[u8], pos: usize) -> (r: Option<i32>)
    ensures
        r == if in_bounds(b@, pos as int, 4) {
            Some(le_i32(b@, pos as int) as i32)
        } else {
            None::<i32>
        },
        r matches Some(v) ==> v == le_i32(b@, pos as int),
{
    match read_u32(b, pos) {
        Some(u) => if u >= 0x8000_0000 {
            Some((u as i64 - 0x1_0000_0000) as i32)
        } else {
            Some(u as i32)
        },
        None => None,
    }
}

/// The little-endian `i64` at `pos`.
pub fn read_i64(b: &[u8], pos: usize) -> (r: Option<i64>)
    ensures
        r == if in_bounds(b@, pos as int, 8) {
            Some(le_i64(b@, pos as int) as i64)
        } else {
            None::<i64>
        },
        r matches Some(v) ==> v == le_i64(b@, pos as int),
{
    if pos < b.len() && b.len() - pos >= 8 {
        let lo = read_u32(b, pos).unwrap() as u64;
        let hi = read_u32(b, pos + 4).unwrap() as u64;
        let u: u64 = lo + 0x1_0000_0000 * hi;
        if u >= 0x8000_0000_0000_0000 {
            Some((u as i128 - 0x1_0000_0000_0000_0000) as i64)
        } else {
            Some(u as i64)
        }
    } else {
        None
    }
}

/// The position of field `slot` of the table at `table`, when the field is
/// present: the table starts with a signed offset back to its vtable; the
/// vtable holds its own length in bytes, the table's, then one offset per
/// field, zero for an absent field. A field beyond the address space is
/// absent.
pub open spec fn field_pos(b: Seq<u8>, table: int, slot: int) -> Option<int> {
    if !in_bounds(b, table, 4) {
        None
    } else {
        let vtable = table - le_i32(b, table);
        let entry = 4 + 2 * slot;
        if !in_bounds(b, vtable, 2) || entry + 2 > le_u16(b, vtable) || !in_bounds(
            b,
            vtable + entry,
            2,
        ) {
            None
        } else if le_u16(b, vtable + entry) == 0 || table + le_u16(b, vtable + entry) > usize::MAX {
            None
        } else {
            Some(table + le_u16(b, vtable + entry))
        }
    }
}

/// Finds field `slot` of the table at `table`.
pub fn field(b: &[u8], table: usize, slot: usize) -> (r: Option<usize>)
    requires
        slot < 1000,
    ensures
        r matches Some(p) ==> field_pos(b@, table as int, slot as int) == Some(p as int),
        r is None ==> field_pos(b@, table as int, slot as int) is None,
{
    let back = match read_i32(b, table) {
        Some(v) => v,
        None => return None,
    };
    let vtable_i: i128 = table as i128 - back as i128;
    if vtable_i < 0 || vtable_i >= b.len() as i128 {
        return None;
    }
    let vtable = vtable_i as usize;
    let vlen = match read_u16(b, vtable) {
        Some(v) => v,
        None => return None,
    };
    let entry = 4 + 2 * slot;
    if entry + 2 > vlen as usize {
        return None;
    }
    if vtable > usize::MAX - entry {
        return None;
    }
    let off = match read_u16(b, vtable + entry) {
        Some(v) => v,
        None => return None,
    };
    if off == 0 {
        return None;
    }
    if table > usize::MAX - off as usize {
        return None;
    }
    Some(table + off as usize)
}

/// Where the offset stored at `pos` leads, within the address space.
pub open spec fn follow(b: Seq<u8>, pos: int) -> Option<int> {
    if in_bounds(b, pos, 4) && pos + le_u32(b, pos) <= usize::MAX {
        Some(pos + le_u32(b, pos))
    } else {
        None
    }
}

/// Follows the offset stored at `pos`.
pub fn read_offset(b: &[u8], pos: usize) -> (r: Option<usize>)
    ensures
        r matches Some(p) ==> follow(b@, pos as int) == Some(p as int),
        r is None ==> follow(b@, pos as int) is None,
{
    match read_u32(b, pos) {
        Some(off) => if pos <= usize::MAX - off as usize {
            Some(pos + off as usize)
        } else {
            None
        },
        None => None,
    }
}

/// The position of the vector, table or string that field `slot` of the
/// table at `table` refers to.
pub open spec fn field_target(b: Seq<u8>, table: int, slot: int) -> Option<int> {
    match field_pos(b, table, slot) {
        Some(p) => follow(b, p),
        None => None,
    }
}

/// Finds what field `slot` of the table at `table` refers to.
pub fn field_target_of(b: &[u8], table: usize, slot: usize) -> (r: Option<usize>)
    requires
        slot < 1000,
    ensures
        r matches Some(p) ==> field_target(b@, table as int, slot as int) == Some(p as int),
        r is None ==> field_target(b@, table as int, slot as int) is None,
{
    let len = b.len();
    assert(b@.len() == len);
    match field(b, table, slot) {
        Some(p) => read_offset(b, p),
        None => None,
    }
}

/// The vector at `pos` holds `len` elements of `size` bytes, all inside `b`.
pub open spec fn vector_fits(b: Seq<u8>, pos: int, size: int) -> bool {
    in_bounds(b, pos, 4) && in_bounds(b, pos + 4, size * le_u32(b, pos))
}

/// Number of elements of the vector at `pos`, when all `size`-byte elements
/// lie inside the buffer.
pub fn vector_len(b: &[u8], pos: usize, size: usize) -> (r: Option<usize>)
    requires
        1 <= size <= 8,
    ensures
        r matches Some(n) ==> vector_fits(b@, pos as int, size as int) && n == le_u32(
            b@,
            pos as int,
        ),
        r is None ==> !vector_fits(b@, pos as int, size as int),
{
    let n = match read_u32(b, pos) {
        Some(n) => n,
        None => return None,
    };
    assert(n * size <= 0xFFFF_FFFF * 8) by (nonlinear_arith)
        requires
            n <= 0xFFFF_FFFF,
            size <= 8,
    ;
    assert(size * n == n * size) by (nonlinear_arith);
    let bytes: u64 = n as u64 * size as u64;
    if (b.len() - (pos + 4)) as u64 >= bytes {
        Some(n as usize)
    } else {
        None
    }
}

/// The `i`-th table of the vector of tables at `pos`.
pub open spec fn table_in(b: Seq<u8>, pos: int, i: int) -> Option<int> {
    follow(b, pos + 4 + 4 * i)
}

/// Finds the `i`-th table of the vector of tables at `pos`.
pub fn table_of(b: &[u8], pos: usize, i: usize) -> (r: Option<usize>)
    ensures
        r matches Some(p) ==> table_in(b@, pos as int, i as int) == Some(p as int),
        r is None ==> table_in(b@, pos as int, i as int) is None,
{
    if i > (usize::MAX - 4) / 4 || pos > usize::MAX - 4 - 4 * i {
        return None;
    }
    read_offset(b, pos + 4 + 4 * i)
}

/// The elements of the `i32` vector at `pos`.
pub open spec fn i32s(b: Seq<u8>, pos: int) -> Seq<int> {
    Seq::new(le_u32(b, pos) as nat, |i: int| le_i32(b, pos + 4 + 4 * i))
}

/// The elements of the `u32` vector at `pos`.
pub open spec fn u32s(b: Seq<u8>, pos: int) -> Seq<int> {
    Seq::new(le_u32(b, pos) as nat, |i: int| le_u32(b, pos + 4 + 4 * i))
}

/// The elements of the `i64` vector at `pos`.
pub open spec fn i64s(b: Seq<u8>, pos: int) -> Seq<int> {
    Seq::new(le_u32(b, pos) as nat, |i: int| le_i64(b, pos + 4 + 8 * i))
}

/// The bytes of the byte vector at `pos`.
pub open spec fn bytes_of(b: Seq<u8>, pos: int) -> Seq<u8> {
    b.subrange(pos + 4, pos + 4 + le_u32(b, pos))
}

/// Reads the `i32` vector at `pos`.
pub fn read_i32_vector(b: &[u8], pos: usize) -> (r: Option<Vec<i32>>)
    ensures
        r matches Some(v) ==> vector_fits(b@, pos as int, 4) && v@.len() == i32s(b@, pos as int).len()
            && forall|i: int| 0 <= i < v@.len() ==> v@[i] == #[trigger] i32s(b@, pos as int)[i],
        r is None ==> !vector_fits(b@, pos as int, 4),
{
    let n = match vector_len(b, pos, 4) {
        Some(n) => n,
        None => return None,
    };
    let total = b.len();
    let mut out: Vec<i32> = Vec::new();
    let mut i: usize = 0;
    let mut at: usize = pos + 4;
    while i < n
        invariant
            total == b@.len(),
            vector_fits(b@, pos as int, 4),
            n == le_u32(b@, pos as int),
            i <= n,
            at == pos + 4 + 4 * i,
            out@.len() == i,
            forall|k: int| 0 <= k < i ==> out@[k] == #[trigger] i32s(b@, pos as int)[k],
        decreases n - i,
    {
        let v = read_i32(b, at).unwrap();
        out.push(v);
        i += 1;
        at += 4;
    }
    Some(out)
}

/// Reads the `u32` vector at `pos`.
pub fn read_u32_vector(b: &[u8], pos: usize) -> (r: Option<Vec<u32>>)
    ensures
        r matches Some(v) ==> vector_fits(b@, pos as int, 4) && v@.len() == u32s(b@, pos as int).len()
            && forall|i: int| 0 <= i < v@.len() ==> v@[i] == #[trigger] u32s(b@, pos as int)[i],
        r is None ==> !vector_fits(b@, pos as int, 4),
{
    let n = match vector_len(b, pos, 4) {
        Some(n) => n,
        None => return None,
    };
    let total = b.len();
    let mut out: Vec<u32> = Vec::new();
    let mut i: usize = 0;
    let mut at: usize = pos + 4;
    while i < n
        invariant
            total == b@.len(),
            vector_fits(b@, pos as int, 4),
            n == le_u32(b@, pos as int),
            i <= n,
            at == pos + 4 + 4 * i,
            out@.len() == i,
            forall|k: int| 0 <= k < i ==> out@[k] == #[trigger] u32s(b@, pos as int)[k],
        decreases n - i,
    {
        let v = read_u32(b, at).unwrap();
        out.push(v);
        i += 1;
        at += 4;
    }
    Some(out)
}

/// Reads the `i64` vector at `pos`.
pub fn read_i64_vector(b: &[u8], pos: usize) -> (r: Option<Vec<i64>>)
    ensures
        r matches Some(v) ==> vector_fits(b@, pos as int, 8) && v@.len() == i64s(b@, pos as int).len()
            && forall|i: int| 0 <= i < v@.len() ==> v@[i] == #[trigger] i64s(b@, pos as int)[i],
        r is None ==> !vector_fits(b@, pos as int, 8),
{
    let n = match vector_len(b, pos, 8) {
        Some(n) => n,
        None => return None,
    };
    let total = b.len();
    let mut out: Vec<i64> = Vec::new();
    let mut i: usize = 0;
    let mut at: usize = pos + 4;
    while i < n
        invariant
            total == b@.len(),
            vector_fits(b@, pos as int, 8),
            n == le_u32(b@, pos as int),
            i <= n,
            at == pos + 4 + 8 * i,
            out@.len() == i,
            forall|k: int| 0 <= k < i ==> out@[k] == #[trigger] i64s(b@, pos as int)[k],
        decreases n - i,
    {
        let v = read_i64(b, at).unwrap();
        out.push(v);
        i += 1;
        at += 8;
    }
    Some(out)
}

/// Reads the byte vector at `pos`.
pub fn read_byte_vector(b: &[u8], pos: usize) -> (r: Option<Vec<u8>>)
    ensures
        r matches Some(v) ==> vector_fits(b@, pos as int, 1) && v@ == bytes_of(b@, pos as int),
        r is None ==> !vector_fits(b@, pos as int, 1),
{
    let n = match vector_len(b, pos, 1) {
        Some(n) => n,
        None => return None,
    };
    let total = b.len();
    let mut out: Vec<u8> = Vec::new();
    let mut i: usize = 0;
    while i < n
        invariant
            total == b@.len(),
            vector_fits(b@, pos as int, 1),
            n == le_u32(b@, pos as int),
            i <= n,
            out@ == b@.subrange(pos + 4, pos + 4 + i),
        decreases n - i,
    {
        out.push(b[pos + 4 + i]);
        proof {
            assert(b@.subrange(pos + 4, pos + 4 + i + 1) =~= b@.subrange(pos + 4, pos + 4 + i).push(b@[pos + 4 + i]));
        }
        i += 1;
    }
    Some(out)
}

} // verus!
