//! The particle record shared by the host and the simulation's device
//! programs, and its byte layout in the shared buffer.
//!
//! Floating-point fields are carried as their IEEE-754 bit patterns: the host
//! never computes with them here, it only moves them into and out of the
//! buffer, so the bits are what the layout is about.
use vstd::prelude::*;
use vstd::bytes::*;
use vstd::slice::slice_subrange;

verus! {

/// Size in bytes of one record in the shared buffer, padding included.
pub const RECORD_SIZE: usize = 80;

/// Bit pattern of the 32-bit float 1.0.
pub const ONE_F32_BITS: u32 = 0x3f80_0000;

/// One particle. Byte offsets in the buffer (little endian):
///
/// | field | bytes |
/// |---|---|
/// | `id` | 0..4 (4..8 zero) |
/// | `align_pad` | 8..16 |
/// | `colour_r`, `colour_g`, `colour_b` | 16..28 |
/// | `colour_pad` | 28..30 (30..32 zero) |
/// | `position_x`, `position_y` | 32..40 |
/// | `velocity_x`, `velocity_y` | 40..48 |
/// | `mass` | 48..52 |
/// | `mass_pad` | 52..54 (54..56 zero) |
/// | `target_x`, `target_y` | 56..64 |
/// | `force`, `stable` | 64..72 |
/// | `tags`, `gas` | 72..80 |
#[derive(Clone, Copy, Debug, PartialEq, Eq, Structural)]
pub struct Material {
    pub id: u32,
    pub align_pad: u64,
    pub colour_r: u32,
    pub colour_g: u32,
    pub colour_b: u32,
    pub colour_pad: u16,
    pub position_x: u32,
    pub position_y: u32,
    pub velocity_x: u32,
    pub velocity_y: u32,
    pub mass: u32,
    pub mass_pad: u16,
    pub target_x: u32,
    pub target_y: u32,
    pub force: u32,
    pub stable: u32,
    pub tags: u32,
    pub gas: u32,
}

pub open spec fn zeros(n: nat) -> Seq<u8> {
    Seq::new(n, |_i: int| 0u8)
}

/// The 80 bytes that stand for `r` in the buffer.
pub open spec fn record_bytes(r: Material) -> Seq<u8> {
    spec_u32_to_le_bytes(r.id) + zeros(4) + spec_u64_to_le_bytes(r.align_pad)
        + spec_u32_to_le_bytes(r.colour_r) + spec_u32_to_le_bytes(r.colour_g)
        + spec_u32_to_le_bytes(r.colour_b) + spec_u16_to_le_bytes(r.colour_pad) + zeros(2)
        + spec_u32_to_le_bytes(r.position_x) + spec_u32_to_le_bytes(r.position_y)
        + spec_u32_to_le_bytes(r.velocity_x) + spec_u32_to_le_bytes(r.velocity_y)
        + spec_u32_to_le_bytes(r.mass) + spec_u16_to_le_bytes(r.mass_pad) + zeros(2)
        + spec_u32_to_le_bytes(r.target_x) + spec_u32_to_le_bytes(r.target_y)
        + spec_u32_to_le_bytes(r.force) + spec_u32_to_le_bytes(r.stable)
        + spec_u32_to_le_bytes(r.tags) + spec_u32_to_le_bytes(r.gas)
}

/// The bytes of a sequence of records, one after the other.
pub open spec fn records_bytes(rs: Seq<Material>) -> Seq<u8>
    decreases rs.len(),
{
    if rs.len() == 0 {
        Seq::empty()
    } else {
        records_bytes(rs.drop_last()) + record_bytes(rs.last())
    }
}

pub open spec fn u16_at(b: Seq<u8>, o: int) -> u16 {
    spec_u16_from_le_bytes(b.subrange(o, o + 2))
}

pub open spec fn u32_at(b: Seq<u8>, o: int) -> u32 {
    spec_u32_from_le_bytes(b.subrange(o, o + 4))
}

pub open spec fn u64_at(b: Seq<u8>, o: int) -> u64 {
    spec_u64_from_le_bytes(b.subrange(o, o + 8))
}

/// The record whose bytes start at `s` in `b`; padding gaps are not read.
pub open spec fn record_at(b: Seq<u8>, s: int) -> Material {
    Material {
        id: u32_at(b, s),
        align_pad: u64_at(b, s + 8),
        colour_r: u32_at(b, s + 16),
        colour_g: u32_at(b, s + 20),
        colour_b: u32_at(b, s + 24),
        colour_pad: u16_at(b, s + 28),
        position_x: u32_at(b, s + 32),
        position_y: u32_at(b, s + 36),
        velocity_x: u32_at(b, s + 40),
        velocity_y: u32_at(b, s + 44),
        mass: u32_at(b, s + 48),
        mass_pad: u16_at(b, s + 52),
        target_x: u32_at(b, s + 56),
        target_y: u32_at(b, s + 60),
        force: u32_at(b, s + 64),
        stable: u32_at(b, s + 68),
        tags: u32_at(b, s + 72),
        gas: u32_at(b, s + 76),
    }
}

/// The records that a buffer of `b.len() / 80` whole records holds.
pub open spec fn records_from(b: Seq<u8>) -> Seq<Material> {
    Seq::new(b.len() / 80, |i: int| record_at(b, 80 * i))
}

/// The record that a fresh particle starts from: magenta, at rest at the
/// origin, with unit mass; the padding fields hold the values that the device
/// program's layout was first written with.
pub open spec fn default_record() -> Material {
    Material {
        id: 0,
        align_pad: 64,
        colour_r: ONE_F32_BITS,
        colour_g: 0,
        colour_b: ONE_F32_BITS,
        colour_pad: 16,
        position_x: 0,
        position_y: 0,
        velocity_x: 0,
        velocity_y: 0,
        mass: ONE_F32_BITS,
        mass_pad: 16,
        target_x: 0,
        target_y: 0,
        force: 0,
        stable: 0,
        tags: 0,
        gas: 0,
    }
}

impl Default for Material {
    fn default() -> (r: Material)
        ensures
            r == default_record(),
    {
        Material {
            id: 0,
            align_pad: 64,
            colour_r: ONE_F32_BITS,
            colour_g: 0,
            colour_b: ONE_F32_BITS,
            colour_pad: 16,
            position_x: 0,
            position_y: 0,
            velocity_x: 0,
            velocity_y: 0,
            mass: ONE_F32_BITS,
            mass_pad: 16,
            target_x: 0,
            target_y: 0,
            force: 0,
            stable: 0,
            tags: 0,
            gas: 0,
        }
    }
}

proof fn lemma_le_bytes()
    ensures
        forall|x: u16|
            #[trigger] spec_u16_to_le_bytes(x).len() == 2 && spec_u16_from_le_bytes(
                spec_u16_to_le_bytes(x),
            ) == x,
        forall|x: u32|
            #[trigger] spec_u32_to_le_bytes(x).len() == 4 && spec_u32_from_le_bytes(
                spec_u32_to_le_bytes(x),
            ) == x,
        forall|x: u64|
            #[trigger] spec_u64_to_le_bytes(x).len() == 8 && spec_u64_from_le_bytes(
                spec_u64_to_le_bytes(x),
            ) == x,
{
    lemma_auto_spec_u16_to_from_le_bytes();
    lemma_auto_spec_u32_to_from_le_bytes();
    lemma_auto_spec_u64_to_from_le_bytes();
}

pub proof fn lemma_record_bytes_len(r: Material)
    ensures
        record_bytes(r).len() == 80,
{
    lemma_le_bytes();
}

/// Reading a record back from its own bytes gives the record.
pub proof fn lemma_record_round_trip(r: Material)
    ensures
        record_at(record_bytes(r), 0) == r,
{
    lemma_le_bytes();
    let b = record_bytes(r);
    assert(b.subrange(0, 4) =~= spec_u32_to_le_bytes(r.id));
    assert(b.subrange(8, 16) =~= spec_u64_to_le_bytes(r.align_pad));
    assert(b.subrange(16, 20) =~= spec_u32_to_le_bytes(r.colour_r));
    assert(b.subrange(20, 24) =~= spec_u32_to_le_bytes(r.colour_g));
    assert(b.subrange(24, 28) =~= spec_u32_to_le_bytes(r.colour_b));
    assert(b.subrange(28, 30) =~= spec_u16_to_le_bytes(r.colour_pad));
    assert(b.subrange(32, 36) =~= spec_u32_to_le_bytes(r.position_x));
    assert(b.subrange(36, 40) =~= spec_u32_to_le_bytes(r.position_y));
    assert(b.subrange(40, 44) =~= spec_u32_to_le_bytes(r.velocity_x));
    assert(b.subrange(44, 48) =~= spec_u32_to_le_bytes(r.velocity_y));
    assert(b.subrange(48, 52) =~= spec_u32_to_le_bytes(r.mass));
    assert(b.subrange(52, 54) =~= spec_u16_to_le_bytes(r.mass_pad));
    assert(b.subrange(56, 60) =~= spec_u32_to_le_bytes(r.target_x));
    assert(b.subrange(60, 64) =~= spec_u32_to_le_bytes(r.target_y));
    assert(b.subrange(64, 68) =~= spec_u32_to_le_bytes(r.force));
    assert(b.subrange(68, 72) =~= spec_u32_to_le_bytes(r.stable));
    assert(b.subrange(72, 76) =~= spec_u32_to_le_bytes(r.tags));
    assert(b.subrange(76, 80) =~= spec_u32_to_le_bytes(r.gas));
}

proof fn lemma_window(b: Seq<u8>, s: int, o: int, k: int)
    requires
        0 <= s,
        s + 80 <= b.len(),
        0 <= o,
        0 <= k,
        o + k <= 80,
    ensures
        b.subrange(s + o, s + o + k) == b.subrange(s, s + 80).subrange(o, o + k),
{
    assert(b.subrange(s + o, s + o + k) =~= b.subrange(s, s + 80).subrange(o, o + k));
}

/// A record read at offset `s` is the record read from the 80 bytes there.
pub proof fn lemma_record_at_window(b: Seq<u8>, s: int)
    requires
        0 <= s,
        s + 80 <= b.len(),
    ensures
        record_at(b, s) == record_at(b.subrange(s, s + 80), 0),
{
    lemma_window(b, s, 0, 4);
    lemma_window(b, s, 8, 8);
    lemma_window(b, s, 16, 4);
    lemma_window(b, s, 20, 4);
    lemma_window(b, s, 24, 4);
    lemma_window(b, s, 28, 2);
    lemma_window(b, s, 32, 4);
    lemma_window(b, s, 36, 4);
    lemma_window(b, s, 40, 4);
    lemma_window(b, s, 44, 4);
    lemma_window(b, s, 48, 4);
    lemma_window(b, s, 52, 2);
    lemma_window(b, s, 56, 4);
    lemma_window(b, s, 60, 4);
    lemma_window(b, s, 64, 4);
    lemma_window(b, s, 68, 4);
    lemma_window(b, s, 72, 4);
    lemma_window(b, s, 76, 4);
}

/// The bytes of `rs` are `80 * rs.len()` long, and record `i` occupies bytes
/// `80 * i .. 80 * i + 80`.
pub proof fn lemma_records_bytes(rs: Seq<Material>)
    ensures
        records_bytes(rs).len() == 80 * rs.len(),
        forall|i: int|
            0 <= i < rs.len() ==> #[trigger] records_bytes(rs).subrange(80 * i, 80 * i + 80)
                == record_bytes(rs[i]),
    decreases rs.len(),
{
    if rs.len() > 0 {
        let n = rs.len() as int;
        let front = rs.drop_last();
        lemma_records_bytes(front);
        lemma_record_bytes_len(rs.last());
        let b = records_bytes(rs);
        assert forall|i: int| 0 <= i < rs.len() implies #[trigger] b.subrange(80 * i, 80 * i + 80)
            == record_bytes(rs[i]) by {
            if i < n - 1 {
                assert(80 * i + 80 <= 80 * (n - 1)) by (nonlinear_arith)
                    requires
                        i < n - 1,
                ;
                assert(front[i] == rs[i]);
                assert(records_bytes(front).subrange(80 * i, 80 * i + 80) == record_bytes(
                    front[i],
                ));
                assert(b.subrange(80 * i, 80 * i + 80) =~= records_bytes(front).subrange(
                    80 * i,
                    80 * i + 80,
                ));
            } else {
                assert(b.subrange(80 * i, 80 * i + 80) =~= record_bytes(rs.last()));
            }
        }
    }
}

/// Reading back the bytes of a sequence of records gives the same records,
/// for every length.
pub proof fn lemma_records_round_trip(rs: Seq<Material>)
    ensures
        records_bytes(rs).len() % 80 == 0,
        records_from(records_bytes(rs)) == rs,
{
    lemma_records_bytes(rs);
    let b = records_bytes(rs);
    let n = rs.len() as int;
    assert((80 * n) % 80 == 0 && (80 * n) / 80 == n) by (nonlinear_arith);
    assert forall|i: int| 0 <= i < n implies #[trigger] records_from(b)[i] == rs[i] by {
        assert(80 * i + 80 <= 80 * n) by (nonlinear_arith)
            requires
                i < n,
        ;
        assert(b.subrange(80 * i, 80 * i + 80) == record_bytes(rs[i]));
        lemma_record_at_window(b, 80 * i);
        lemma_record_round_trip(rs[i]);
    }
    assert(records_from(b) =~= rs);
}

fn push_u16(out: &mut Vec<u8>, x: u16)
    ensures
        final(out)@ == old(out)@ + spec_u16_to_le_bytes(x),
{
    let mut v = u16_to_le_bytes(x);
    out.append(&mut v);
}

fn push_u32(out: &mut Vec<u8>, x: u32)
    ensures
        final(out)@ == old(out)@ + spec_u32_to_le_bytes(x),
{
    let mut v = u32_to_le_bytes(x);
    out.append(&mut v);
}

fn push_u64(out: &mut Vec<u8>, x: u64)
    ensures
        final(out)@ == old(out)@ + spec_u64_to_le_bytes(x),
{
    let mut v = u64_to_le_bytes(x);
    out.append(&mut v);
}

fn push_zeros(out: &mut Vec<u8>, n: usize)
    ensures
        final(out)@ == old(out)@ + zeros(n as nat),
{
    let ghost start = out@;
    let mut i: usize = 0;
    while i < n
        invariant
            i <= n,
            out@ == start + zeros(i as nat),
        decreases n - i,
    {
        out.push(0u8);
        i = i + 1;
        assert(out@ =~= start + zeros(i as nat));
    }
}

/// Appends the bytes of `r` to `out`.
pub fn encode_record(r: &Material, out: &mut Vec<u8>)
    ensures
        final(out)@ == old(out)@ + record_bytes(*r),
{
    let ghost start = out@;
    push_u32(out, r.id);
    push_zeros(out, 4);
    push_u64(out, r.align_pad);
    push_u32(out, r.colour_r);
    push_u32(out, r.colour_g);
    push_u32(out, r.colour_b);
    push_u16(out, r.colour_pad);
    push_zeros(out, 2);
    push_u32(out, r.position_x);
    push_u32(out, r.position_y);
    push_u32(out, r.velocity_x);
    push_u32(out, r.velocity_y);
    push_u32(out, r.mass);
    push_u16(out, r.mass_pad);
    push_zeros(out, 2);
    push_u32(out, r.target_x);
    push_u32(out, r.target_y);
    push_u32(out, r.force);
    push_u32(out, r.stable);
    push_u32(out, r.tags);
    push_u32(out, r.gas);
    assert(out@ =~= start + record_bytes(*r));
}

/// The buffer contents for `records`, in order.
pub fn encode_records(records: &Vec<Material>) -> (out: Vec<u8>)
    ensures
        out@ == records_bytes(records@),
{
    let mut out: Vec<u8> = Vec::new();
    let mut i: usize = 0;
    while i < records.len()
        invariant
            i <= records@.len(),
            out@ == records_bytes(records@.take(i as int)),
        decreases records@.len() - i,
    {
        encode_record(&records[i], &mut out);
        assert(records@.take(i + 1).drop_last() =~= records@.take(i as int));
        i = i + 1;
    }
    assert(records@.take(i as int) =~= records@);
    out
}

fn read_u16(b: &[u8], o: usize) -> (x: u16)
    requires
        o + 2 <= b@.len(),
    ensures
        x == u16_at(b@, o as int),
{
    let _len = b.len();
    u16_from_le_bytes(slice_subrange(b, o, o + 2))
}

fn read_u32(b: &[u8], o: usize) -> (x: u32)
    requires
        o + 4 <= b@.len(),
    ensures
        x == u32_at(b@, o as int),
{
    let _len = b.len();
    u32_from_le_bytes(slice_subrange(b, o, o + 4))
}

fn read_u64(b: &[u8], o: usize) -> (x: u64)
    requires
        o + 8 <= b@.len(),
    ensures
        x == u64_at(b@, o as int),
{
    let _len = b.len();
    u64_from_le_bytes(slice_subrange(b, o, o + 8))
}

/// The record whose bytes start at `s` in `b`.
pub fn decode_record(b: &[u8], s: usize) -> (r: Material)
    requires
        s + 80 <= b@.len(),
    ensures
        r == record_at(b@, s as int),
{
    let _len = b.len();
    Material {
        id: read_u32(b, s + 0),
        align_pad: read_u64(b, s + 8),
        colour_r: read_u32(b, s + 16),
        colour_g: read_u32(b, s + 20),
        colour_b: read_u32(b, s + 24),
        colour_pad: read_u16(b, s + 28),
        position_x: read_u32(b, s + 32),
        position_y: read_u32(b, s + 36),
        velocity_x: read_u32(b, s + 40),
        velocity_y: read_u32(b, s + 44),
        mass: read_u32(b, s + 48),
        mass_pad: read_u16(b, s + 52),
        target_x: read_u32(b, s + 56),
        target_y: read_u32(b, s + 60),
        force: read_u32(b, s + 64),
        stable: read_u32(b, s + 68),
        tags: read_u32(b, s + 72),
        gas: read_u32(b, s + 76),
    }
}

/// The records that `b` holds, or `None` when its length is not a whole
/// number of records.
pub fn decode_records(b: &[u8]) -> (r: Option<Vec<Material>>)
    ensures
        r is Some <==> b@.len() % 80 == 0,
        r matches Some(v) ==> v@ == records_from(b@),
{
    let len = b.len();
    if len % RECORD_SIZE != 0 {
        return None;
    }
    let n = len / RECORD_SIZE;
    let mut out: Vec<Material> = Vec::new();
    let mut i: usize = 0;
    let mut pos: usize = 0;
    while i < n
        invariant
            len == b@.len(),
            n == b@.len() / 80,
            b@.len() % 80 == 0,
            i <= n,
            pos == 80 * i,
            out@ == records_from(b@).take(i as int),
        decreases n - i,
    {
        assert(80 * i + 80 <= 80 * n) by (nonlinear_arith)
            requires
                i < n,
        ;
        assert(80 * n == b@.len()) by (nonlinear_arith)
            requires
                n == b@.len() / 80,
                b@.len() % 80 == 0,
        ;
        let r = decode_record(b, pos);
        out.push(r);
        i = i + 1;
        pos = pos + RECORD_SIZE;
        assert(out@ =~= records_from(b@).take(i as int));
    }
    assert(out@ =~= records_from(b@));
    Some(out)
}

} // verus!
