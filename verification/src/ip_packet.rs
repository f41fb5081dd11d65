//! Raw IPv4/IPv6 + UDP egress packets, built bit-exactly: headers, payload
//! and both checksums, specified byte by byte and verified against a
//! decoder and a checksum check.

use vstd::prelude::*;

verus! {

/// Big-endian bytes of a 16-bit value.
pub open spec fn enc_u16(x: u16) -> Seq<u8> {
    seq![(x / 256) as u8, (x % 256) as u8]
}

/// Big-endian bytes of a 32-bit value.
pub open spec fn enc_u32(x: u32) -> Seq<u8> {
    enc_u16((x / 0x10000) as u16) + enc_u16((x % 0x10000) as u16)
}

/// Big-endian bytes of a 128-bit value.
pub open spec fn enc_u128(x: u128) -> Seq<u8> {
    enc_u32((x / 0x1000000000000000000000000) as u32) + enc_u32(
        ((x / 0x10000000000000000) % 0x100000000) as u32,
    ) + enc_u32(((x / 0x100000000) % 0x100000000) as u32) + enc_u32((x % 0x100000000) as u32)
}

/// The 16-bit big-endian word read at `i`.
pub open spec fn dec_u16(p: Seq<u8>, i: int) -> u16 {
    (p[i] * 256 + p[i + 1]) as u16
}

/// The 32-bit big-endian word read at `i`.
pub open spec fn dec_u32(p: Seq<u8>, i: int) -> u32 {
    (dec_u16(p, i) * 0x10000 + dec_u16(p, i + 2)) as u32
}

/// The ones-complement accumulation of `b[i..]` as 16-bit big-endian
/// words, an odd trailing byte padded with zero: the raw (uncarried) sum.
pub open spec fn sum16_from(b: Seq<u8>, i: int) -> int
    decreases b.len() - i,
    when 0 <= i
{
    if i >= b.len() {
        0
    } else if i + 1 == b.len() {
        b[i] * 256
    } else {
        b[i] * 256 + b[i + 1] + sum16_from(b, i + 2)
    }
}

/// The end-around-carry fold of a raw sum down to 16 bits.
pub open spec fn fold16(s: int) -> int
    decreases s,
    when s >= 0
{
    if s < 0x10000 {
        s
    } else {
        fold16(s % 0x10000 + s / 0x10000)
    }
}

/// The raw sum is never negative.
pub proof fn lemma_sum16_nonneg(b: Seq<u8>, i: int)
    requires
        0 <= i,
    ensures
        sum16_from(b, i) >= 0,
    decreases b.len() - i,
{
    if i < b.len() && i + 1 < b.len() {
        lemma_sum16_nonneg(b, i + 2);
    }
}

/// The fold lands in a 16-bit word and keeps both sign and positivity.
pub proof fn lemma_fold16_range(s: int)
    requires
        s >= 0,
    ensures
        0 <= fold16(s) < 0x10000,
        s > 0 ==> fold16(s) > 0,
    decreases s,
{
    if s >= 0x10000 {
        lemma_fold16_range(s % 0x10000 + s / 0x10000);
    }
}

/// The fold is congruent to the raw sum modulo 65535: end-around carry is
/// arithmetic modulo `2^16 - 1`.
pub proof fn lemma_fold16_congruent(s: int)
    requires
        s >= 0,
    ensures
        fold16(s) % 0xffff == s % 0xffff,
    decreases s,
{
    if s >= 0x10000 {
        let q = s / 0x10000;
        let r = s % 0x10000;
        assert(s == 0x10000 * q + r);
        lemma_fold16_congruent(r + q);
        assert((0x10000 * q + r) % 0xffff == (q + r) % 0xffff) by {
            assert(0x10000 * q + r == 0xffff * q + (q + r));
            vstd::arithmetic::div_mod::lemma_mod_multiples_vanish(q, q + r, 0xffff);
        }
    }
}

/// Splitting a raw sum at an even boundary splits the words.
pub proof fn lemma_sum16_append(a: Seq<u8>, b: Seq<u8>, i: int)
    requires
        0 <= i <= a.len(),
        i % 2 == 0,
        a.len() % 2 == 0,
    ensures
        sum16_from(a + b, i) == sum16_from(a, i) + sum16_from(b, 0),
    decreases a.len() - i,
{
    if i < a.len() {
        lemma_sum16_append(a, b, i + 2);
        assert((a + b)[i] == a[i]);
        assert((a + b)[i + 1] == a[i + 1]);
    } else {
        lemma_sum16_shift(a, b, 0);
    }
}

/// Words of the appended tail, read from inside the concatenation.
proof fn lemma_sum16_shift(a: Seq<u8>, b: Seq<u8>, j: int)
    requires
        0 <= j <= b.len(),
    ensures
        sum16_from(a + b, a.len() + j) == sum16_from(b, j),
    decreases b.len() - j,
{
    if j < b.len() {
        if j + 1 < b.len() {
            lemma_sum16_shift(a, b, j + 2);
            assert((a + b)[a.len() + j] == b[j]);
            assert((a + b)[a.len() + j + 1] == b[j + 1]);
        } else {
            assert((a + b)[a.len() + j] == b[j]);
        }
    }
}

/// A checksum complement makes the refolded total come out as all-ones:
/// the receiver's check of an RFC 1071 checksum.
pub proof fn lemma_checksum_complement(s0: int)
    requires
        s0 > 0,
    ensures
        fold16(s0 + if fold16(s0) == 0xffff {
            0xffff as int
        } else {
            0xffff - fold16(s0)
        }) == 0xffff,
{
    lemma_fold16_range(s0);
    lemma_fold16_congruent(s0);
    let c: int = if fold16(s0) == 0xffff {
        0xffff
    } else {
        0xffff - fold16(s0)
    };
    let t = s0 + c;
    lemma_fold16_range(t);
    lemma_fold16_congruent(t);
    assert(t % 0xffff == (s0 + c) % 0xffff);
    assert((s0 % 0xffff + c) % 0xffff == 0) by {
        vstd::arithmetic::div_mod::lemma_mod_twice(s0, 0xffff);
        vstd::arithmetic::div_mod::lemma_add_mod_noop(s0 % 0xffff, c, 0xffff);
        assert((s0 % 0xffff) % 0xffff == s0 % 0xffff);
        assert(fold16(s0) % 0xffff == s0 % 0xffff);
        if fold16(s0) == 0xffff {
            assert(s0 % 0xffff == 0xffffint % 0xffff);
        }
        assert(((s0 % 0xffff) + c) % 0xffff == ((fold16(s0) % 0xffff) + c % 0xffff) % 0xffff) by {
            vstd::arithmetic::div_mod::lemma_add_mod_noop(s0 % 0xffff, c, 0xffff);
            vstd::arithmetic::div_mod::lemma_add_mod_noop(fold16(s0) % 0xffff, c % 0xffff, 0xffff);
            vstd::arithmetic::div_mod::lemma_mod_twice(c, 0xffff);
            vstd::arithmetic::div_mod::lemma_mod_twice(fold16(s0), 0xffff);
        }
        assert((fold16(s0) + c) % 0xffff == 0) by {
            if fold16(s0) == 0xffff {
                assert(fold16(s0) + c == 2 * 0xffff);
                assert((2 * 0xffffint) % 0xffff == 0) by {
                    vstd::arithmetic::div_mod::lemma_mod_multiples_basic(2, 0xffff);
                }
            } else {
                assert(fold16(s0) + c == 0xffff);
                assert(0xffffint % 0xffff == 0) by {
                    vstd::arithmetic::div_mod::lemma_mod_multiples_basic(1, 0xffff);
                }
            }
        }
        vstd::arithmetic::div_mod::lemma_add_mod_noop(fold16(s0), c, 0xffff);
    }
    assert(t % 0xffff == 0) by {
        vstd::arithmetic::div_mod::lemma_add_mod_noop(s0, c, 0xffff);
        vstd::arithmetic::div_mod::lemma_mod_twice(c, 0xffff);
        assert((s0 % 0xffff + c % 0xffff) % 0xffff == 0) by {
            vstd::arithmetic::div_mod::lemma_add_mod_noop(s0 % 0xffff, c % 0xffff, 0xffff);
            vstd::arithmetic::div_mod::lemma_mod_twice(s0, 0xffff);
        }
    }
    assert(fold16(t) % 0xffff == 0);
    assert(0 < fold16(t) < 0x10000);
    assert(fold16(t) == 0xffff) by {
        if fold16(t) < 0xffff {
            assert(fold16(t) % 0xffff == fold16(t)) by {
                vstd::arithmetic::div_mod::lemma_small_mod(fold16(t) as nat, 0xffff as nat);
            }
        }
    }
}

/// Compute the RFC 1071 checksum complement of a byte sequence: the raw
/// 16-bit-word sum, end-around-carry folded, ones-complemented.
pub fn checksum16(data: &Vec<u8>) -> (r: u16)
    requires
        data@.len() <= 0xffff,
    ensures
        r == 0xffff - fold16(sum16_from(data@, 0)),
{
    let mut acc: u64 = 0;
    let mut i: usize = 0;
    proof {
        lemma_sum16_nonneg(data@, 0);
    }
    while i < data.len()
        invariant
            i <= data@.len(),
            data@.len() <= 0xffff,
            i % 2 == 0 || i == data@.len(),
            acc <= 0xffff * i,
            acc + sum16_from(data@, i as int) == sum16_from(data@, 0),
            sum16_from(data@, i as int) >= 0,
        decreases data@.len() - i,
    {
        let hi = data[i] as u64;
        let lo: u64 = if i + 1 < data.len() {
            data[i + 1] as u64
        } else {
            0
        };
        proof {
            lemma_sum16_nonneg(data@, i + 2);
        }
        acc = acc + hi * 256 + lo;
        if i + 1 < data.len() {
            i = i + 2;
        } else {
            i = i + 1;
        }
    }
    proof {
        lemma_sum16_nonneg(data@, 0);
    }
    let ghost total = sum16_from(data@, 0);
    while acc > 0xffff
        invariant
            acc >= 0,
            fold16(acc as int) == fold16(total),
            total >= 0,
        decreases acc,
    {
        acc = acc % 0x10000 + acc / 0x10000;
    }
    proof {
        lemma_fold16_range(total);
    }
    0xffffu16 - (acc as u16)
}

/// An IPv4 header, 20 bytes: version 4, IHL 5, total length as given,
/// identification zero, DF set, no fragment offset, hop limit 255,
/// protocol UDP, then the checksum and both addresses.
pub open spec fn spec_ipv4_header(src: u32, dst: u32, total_len: u16, ck: u16) -> Seq<u8> {
    seq![0x45u8, 0x00u8] + enc_u16(total_len) + seq![0x00u8, 0x00u8, 0x40u8, 0x00u8, 0xffu8, 0x11u8]
        + enc_u16(ck) + enc_u32(src) + enc_u32(dst)
}

/// A UDP segment: source port, destination port, length, checksum,
/// payload.
pub open spec fn spec_udp_seg(sp: u16, dp: u16, udp_len: u16, ck: u16, payload: Seq<u8>) -> Seq<
    u8,
> {
    enc_u16(sp) + enc_u16(dp) + enc_u16(udp_len) + enc_u16(ck) + payload
}

/// The IPv4 pseudo-header the UDP checksum covers.
pub open spec fn spec_pseudo_v4(src: u32, dst: u32, udp_len: u16) -> Seq<u8> {
    enc_u32(src) + enc_u32(dst) + seq![0x00u8, 17u8] + enc_u16(udp_len)
}

/// The UDP checksum for a raw sum: the ones complement of the fold, with
/// zero transmitted as all-ones.
pub open spec fn spec_udp_cksum16(s: int) -> u16 {
    if fold16(s) == 0xffff {
        0xffff
    } else {
        (0xffff - fold16(s)) as u16
    }
}

/// The complete IPv4+UDP egress packet for these arguments, checksums
/// included.
pub open spec fn spec_ipv4_udp_packet(
    src: u32,
    dst: u32,
    sp: u16,
    dp: u16,
    payload: Seq<u8>,
) -> Seq<u8> {
    let udp_len = (payload.len() + 8) as u16;
    let total = (payload.len() + 28) as u16;
    let uck = spec_udp_cksum16(
        sum16_from(spec_pseudo_v4(src, dst, udp_len) + spec_udp_seg(sp, dp, udp_len, 0, payload), 0),
    );
    let hck = (0xffff - fold16(sum16_from(spec_ipv4_header(src, dst, total, 0), 0))) as u16;
    spec_ipv4_header(src, dst, total, hck) + spec_udp_seg(sp, dp, udp_len, uck, payload)
}

/// An IPv6 header, 40 bytes: version 6, traffic class zero, the given
/// flow label (20 bits), payload length, next header UDP, hop limit 255.
pub open spec fn spec_ipv6_header(
    src: u128,
    dst: u128,
    payload_len: u16,
    flow_label: u32,
) -> Seq<u8> {
    seq![
        0x60u8,
        ((flow_label / 0x10000) % 16) as u8,
        ((flow_label / 256) % 256) as u8,
        (flow_label % 256) as u8,
    ] + enc_u16(payload_len) + seq![17u8, 0xffu8] + enc_u128(src) + enc_u128(dst)
}

/// The IPv6 pseudo-header the UDP checksum covers.
pub open spec fn spec_pseudo_v6(src: u128, dst: u128, udp_len: u16) -> Seq<u8> {
    enc_u128(src) + enc_u128(dst) + enc_u16(0) + enc_u16(udp_len) + seq![
        0x00u8,
        0x00u8,
        0x00u8,
        17u8,
    ]
}

/// The complete IPv6+UDP egress packet for these arguments.
pub open spec fn spec_ipv6_udp_packet(
    src: u128,
    dst: u128,
    sp: u16,
    dp: u16,
    flow_label: u32,
    payload: Seq<u8>,
) -> Seq<u8> {
    let udp_len = (payload.len() + 8) as u16;
    let uck = spec_udp_cksum16(
        sum16_from(spec_pseudo_v6(src, dst, udp_len) + spec_udp_seg(sp, dp, udp_len, 0, payload), 0),
    );
    spec_ipv6_header(src, dst, udp_len, flow_label % 0x100000) + spec_udp_seg(
        sp,
        dp,
        udp_len,
        uck,
        payload,
    )
}

/// Append the big-endian bytes of a 16-bit value.
pub(crate) fn push_u16(v: &mut Vec<u8>, x: u16)
    ensures
        final(v)@ == old(v)@ + enc_u16(x),
{
    v.push((x / 256) as u8);
    v.push((x % 256) as u8);
    assert(v@ =~= old(v)@ + enc_u16(x));
}

/// Append the big-endian bytes of a 32-bit value.
pub(crate) fn push_u32(v: &mut Vec<u8>, x: u32)
    ensures
        final(v)@ == old(v)@ + enc_u32(x),
{
    push_u16(v, (x / 0x10000) as u16);
    push_u16(v, (x % 0x10000) as u16);
    assert(v@ =~= old(v)@ + enc_u32(x));
}

/// Append the big-endian bytes of a 128-bit value.
pub(crate) fn push_u128(v: &mut Vec<u8>, x: u128)
    ensures
        final(v)@ == old(v)@ + enc_u128(x),
{
    push_u32(v, (x / 0x1000000000000000000000000) as u32);
    push_u32(v, ((x / 0x10000000000000000) % 0x100000000) as u32);
    push_u32(v, ((x / 0x100000000) % 0x100000000) as u32);
    push_u32(v, (x % 0x100000000) as u32);
    assert(v@ =~= old(v)@ + enc_u128(x));
}

/// Append a copy of the payload bytes.
pub(crate) fn push_bytes(v: &mut Vec<u8>, payload: &Vec<u8>)
    ensures
        final(v)@ == old(v)@ + payload@,
{
    let mut i: usize = 0;
    while i < payload.len()
        invariant
            i <= payload@.len(),
            v@ == old(v)@ + payload@.subrange(0, i as int),
        decreases payload@.len() - i,
    {
        v.push(payload[i]);
        assert(v@ =~= old(v)@ + payload@.subrange(0, i + 1));
        i = i + 1;
    }
    assert(v@ =~= old(v)@ + payload@);
}

/// Build an IPv4 header with the given checksum field.
fn build_ipv4_header(src: u32, dst: u32, total_len: u16, ck: u16) -> (h: Vec<u8>)
    ensures
        h@ == spec_ipv4_header(src, dst, total_len, ck),
        h@.len() == 20,
{
    let mut h: Vec<u8> = Vec::new();
    h.push(0x45);
    h.push(0x00);
    push_u16(&mut h, total_len);
    h.push(0x00);
    h.push(0x00);
    h.push(0x40);
    h.push(0x00);
    h.push(0xff);
    h.push(0x11);
    push_u16(&mut h, ck);
    push_u32(&mut h, src);
    push_u32(&mut h, dst);
    assert(h@ =~= spec_ipv4_header(src, dst, total_len, ck));
    h
}

/// Build the complete IPv4+UDP packet: headers, payload, both checksums.
pub fn build_ipv4_udp(src: u32, dst: u32, sp: u16, dp: u16, payload: &Vec<u8>) -> (p: Vec<u8>)
    requires
        payload@.len() <= 1452,
    ensures
        p@ == spec_ipv4_udp_packet(src, dst, sp, dp, payload@),
        p@.len() == 28 + payload@.len(),
{
    let udp_len = (payload.len() + 8) as u16;
    let total = (payload.len() + 28) as u16;
    // UDP checksum over the pseudo-header and the zero-checksum segment.
    let mut scratch: Vec<u8> = Vec::new();
    push_u32(&mut scratch, src);
    push_u32(&mut scratch, dst);
    scratch.push(0x00);
    scratch.push(17);
    push_u16(&mut scratch, udp_len);
    push_u16(&mut scratch, sp);
    push_u16(&mut scratch, dp);
    push_u16(&mut scratch, udp_len);
    push_u16(&mut scratch, 0);
    push_bytes(&mut scratch, payload);
    assert(scratch@ =~= spec_pseudo_v4(src, dst, udp_len) + spec_udp_seg(
        sp,
        dp,
        udp_len,
        0,
        payload@,
    ));
    let c = checksum16(&scratch);
    let uck: u16 = if c == 0 {
        0xffff
    } else {
        c
    };
    proof {
        lemma_sum16_nonneg(scratch@, 0);
        lemma_fold16_range(sum16_from(scratch@, 0));
        assert(uck == spec_udp_cksum16(sum16_from(scratch@, 0)));
    }
    // IPv4 header checksum over the zero-checksum header.
    let h0 = build_ipv4_header(src, dst, total, 0);
    let hck = checksum16(&h0);
    let mut p = build_ipv4_header(src, dst, total, hck);
    push_u16(&mut p, sp);
    push_u16(&mut p, dp);
    push_u16(&mut p, udp_len);
    push_u16(&mut p, uck);
    push_bytes(&mut p, payload);
    proof {
        lemma_sum16_nonneg(h0@, 0);
        lemma_fold16_range(sum16_from(h0@, 0));
        assert(p@ =~= spec_ipv4_udp_packet(src, dst, sp, dp, payload@));
    }
    p
}

/// Build the complete IPv6+UDP packet: header, payload, the UDP checksum.
#[verifier::rlimit(100)]
pub fn build_ipv6_udp(
    src: u128,
    dst: u128,
    sp: u16,
    dp: u16,
    flow_label: u32,
    payload: &Vec<u8>,
) -> (p: Vec<u8>)
    requires
        payload@.len() <= 1452,
    ensures
        p@ == spec_ipv6_udp_packet(src, dst, sp, dp, flow_label, payload@),
        p@.len() == 48 + payload@.len(),
{
    let udp_len = (payload.len() + 8) as u16;
    let mut scratch: Vec<u8> = Vec::new();
    push_u128(&mut scratch, src);
    push_u128(&mut scratch, dst);
    push_u16(&mut scratch, 0);
    push_u16(&mut scratch, udp_len);
    scratch.push(0x00);
    scratch.push(0x00);
    scratch.push(0x00);
    scratch.push(17);
    push_u16(&mut scratch, sp);
    push_u16(&mut scratch, dp);
    push_u16(&mut scratch, udp_len);
    push_u16(&mut scratch, 0);
    push_bytes(&mut scratch, payload);
    assert(scratch@ =~= spec_pseudo_v6(src, dst, udp_len) + spec_udp_seg(
        sp,
        dp,
        udp_len,
        0,
        payload@,
    ));
    let c = checksum16(&scratch);
    let uck: u16 = if c == 0 {
        0xffff
    } else {
        c
    };
    proof {
        lemma_sum16_nonneg(scratch@, 0);
        lemma_fold16_range(sum16_from(scratch@, 0));
        assert(uck == spec_udp_cksum16(sum16_from(scratch@, 0)));
    }
    let fl = flow_label % 0x100000;
    let mut p: Vec<u8> = Vec::new();
    p.push(0x60);
    p.push(((fl / 0x10000) % 16) as u8);
    p.push(((fl / 256) % 256) as u8);
    p.push((fl % 256) as u8);
    push_u16(&mut p, udp_len);
    p.push(17);
    p.push(0xff);
    push_u128(&mut p, src);
    push_u128(&mut p, dst);
    push_u16(&mut p, sp);
    push_u16(&mut p, dp);
    push_u16(&mut p, udp_len);
    push_u16(&mut p, uck);
    push_bytes(&mut p, payload);
    proof {
        assert(flow_label % 0x100000 % 0x100000 == flow_label % 0x100000);
        assert(p@.take(40) =~= spec_ipv6_header(src, dst, udp_len, flow_label % 0x100000));
        assert(p@.skip(40) =~= spec_udp_seg(sp, dp, udp_len, uck, payload@));
        assert(p@ =~= p@.take(40) + p@.skip(40));
        assert(p@ =~= spec_ipv6_udp_packet(src, dst, sp, dp, flow_label, payload@));
    }
    p
}

/// Both checksums of an IPv4+UDP packet verify: refolding the header sum
/// and the pseudo-header+segment sum, checksums included, gives all-ones.
pub open spec fn spec_ipv4_udp_checksums_ok(p: Seq<u8>) -> bool {
    &&& fold16(sum16_from(p.take(20), 0)) == 0xffff
    &&& fold16(
        sum16_from(spec_pseudo_v4(dec_u32(p, 12), dec_u32(p, 16), dec_u16(p, 24)) + p.skip(20), 0),
    ) == 0xffff
}

/// Decode an IPv4+UDP packet of the egress shape: fixed 20-byte header,
/// protocol UDP. Returns source IP, destination IP, source port,
/// destination port and the bytes behind the UDP header.
pub fn decode_ipv4_udp(p: &Vec<u8>) -> (r: Option<(u32, u32, u16, u16, Vec<u8>)>)
    ensures
        (p@.len() >= 28 && p@[0] == 0x45 && p@[9] == 17) <==> r is Some,
        r matches Some(f) ==> {
            &&& f.0 == dec_u32(p@, 12)
            &&& f.1 == dec_u32(p@, 16)
            &&& f.2 == dec_u16(p@, 20)
            &&& f.3 == dec_u16(p@, 22)
            &&& f.4@ == p@.skip(28)
        },
{
    if p.len() < 28 || p[0] != 0x45 || p[9] != 17 {
        return None;
    }
    let src = read_u32(p, 12);
    let dst = read_u32(p, 16);
    let sp = read_u16(p, 20);
    let dp = read_u16(p, 22);
    let mut payload: Vec<u8> = Vec::new();
    let mut i: usize = 28;
    while i < p.len()
        invariant
            28 <= i <= p@.len(),
            payload@ == p@.subrange(28, i as int),
        decreases p@.len() - i,
    {
        payload.push(p[i]);
        assert(payload@ =~= p@.subrange(28, i + 1));
        i = i + 1;
    }
    assert(payload@ =~= p@.skip(28));
    Some((src, dst, sp, dp, payload))
}

/// Read the 16-bit big-endian word at `i`.
pub(crate) fn read_u16(p: &Vec<u8>, i: usize) -> (r: u16)
    requires
        i + 2 <= p@.len(),
    ensures
        r == dec_u16(p@, i as int),
{
    let n = p.len();
    assert(i + 2 <= n);
    (p[i] as u16) * 256 + (p[i + 1] as u16)
}

/// Read the 32-bit big-endian word at `i`.
pub(crate) fn read_u32(p: &Vec<u8>, i: usize) -> (r: u32)
    requires
        i + 4 <= p@.len(),
    ensures
        r == dec_u32(p@, i as int),
{
    let n = p.len();
    assert(i + 4 <= n);
    (read_u16(p, i) as u32) * 0x10000 + (read_u16(p, i + 2) as u32)
}

/// Recompute and check both checksums of an IPv4+UDP packet.
pub fn ipv4_udp_checksums_ok(p: &Vec<u8>) -> (r: bool)
    requires
        28 <= p@.len() <= 0xffff,
    ensures
        r == spec_ipv4_udp_checksums_ok(p@),
{
    let mut header: Vec<u8> = Vec::new();
    let mut i: usize = 0;
    while i < 20
        invariant
            i <= 20,
            p@.len() >= 28,
            header@ == p@.subrange(0, i as int),
        decreases 20 - i,
    {
        header.push(p[i]);
        assert(header@ =~= p@.subrange(0, i + 1));
        i = i + 1;
    }
    assert(header@ =~= p@.take(20));
    proof {
        lemma_sum16_nonneg(header@, 0);
        lemma_fold16_range(sum16_from(header@, 0));
    }
    let header_ok = checksum16(&header) == 0;
    let src = read_u32(p, 12);
    let dst = read_u32(p, 16);
    let stored_len = read_u16(p, 24);
    let mut scratch: Vec<u8> = Vec::new();
    push_u32(&mut scratch, src);
    push_u32(&mut scratch, dst);
    scratch.push(0x00);
    scratch.push(17);
    push_u16(&mut scratch, stored_len);
    let mut i: usize = 20;
    let ghost pseudo = spec_pseudo_v4(dec_u32(p@, 12), dec_u32(p@, 16), dec_u16(p@, 24));
    assert(scratch@ =~= pseudo);
    while i < p.len()
        invariant
            20 <= i <= p@.len(),
            p@.len() <= 0xffff,
            scratch@ == pseudo + p@.subrange(20, i as int),
        decreases p@.len() - i,
    {
        scratch.push(p[i]);
        assert(scratch@ =~= pseudo + p@.subrange(20, i + 1));
        i = i + 1;
    }
    assert(scratch@ =~= pseudo + p@.skip(20));
    proof {
        lemma_sum16_nonneg(scratch@, 0);
        lemma_fold16_range(sum16_from(scratch@, 0));
    }
    let udp_ok = checksum16(&scratch) == 0;
    header_ok && udp_ok
}

/// Decoding a produced IPv4+UDP packet yields exactly the source IP,
/// destination IP, source port, destination port and payload it was built
/// from, and both checksums verify.
pub proof fn lemma_ipv4_udp_round_trip(src: u32, dst: u32, sp: u16, dp: u16, payload: Seq<u8>)
    requires
        payload.len() <= 1452,
    ensures
        spec_ipv4_udp_packet(src, dst, sp, dp, payload).len() == 28 + payload.len(),
        spec_ipv4_udp_packet(src, dst, sp, dp, payload)[0] == 0x45,
        spec_ipv4_udp_packet(src, dst, sp, dp, payload)[9] == 17,
        dec_u32(spec_ipv4_udp_packet(src, dst, sp, dp, payload), 12) == src,
        dec_u32(spec_ipv4_udp_packet(src, dst, sp, dp, payload), 16) == dst,
        dec_u16(spec_ipv4_udp_packet(src, dst, sp, dp, payload), 20) == sp,
        dec_u16(spec_ipv4_udp_packet(src, dst, sp, dp, payload), 22) == dp,
        dec_u16(spec_ipv4_udp_packet(src, dst, sp, dp, payload), 24) == payload.len() + 8,
        spec_ipv4_udp_packet(src, dst, sp, dp, payload).skip(28) =~= payload,
        spec_ipv4_udp_checksums_ok(spec_ipv4_udp_packet(src, dst, sp, dp, payload)),
{
    let udp_len = (payload.len() + 8) as u16;
    let total = (payload.len() + 28) as u16;
    let p = spec_ipv4_udp_packet(src, dst, sp, dp, payload);
    let header0 = spec_ipv4_header(src, dst, total, 0);
    let s0h = sum16_from(header0, 0);
    lemma_sum16_nonneg(header0, 0);
    lemma_fold16_range(s0h);
    let hck = (0xffff - fold16(s0h)) as u16;
    let header = spec_ipv4_header(src, dst, total, hck);
    let pseudo = spec_pseudo_v4(src, dst, udp_len);
    let seg0 = spec_udp_seg(sp, dp, udp_len, 0, payload);
    let s0u = sum16_from(pseudo + seg0, 0);
    lemma_sum16_nonneg(pseudo + seg0, 0);
    lemma_fold16_range(s0u);
    let uck = spec_udp_cksum16(s0u);
    let seg = spec_udp_seg(sp, dp, udp_len, uck, payload);
    assert(p =~= header + seg);
    lemma_dec_enc_u32(p, 12, src);
    lemma_dec_enc_u32(p, 16, dst);
    lemma_dec_enc_u16(p, 20, sp);
    lemma_dec_enc_u16(p, 22, dp);
    lemma_dec_enc_u16(p, 24, udp_len);
    assert(p.skip(28) =~= payload);
    // Header checksum: the stored complement refolds to all-ones.
    let ha = seq![0x45u8, 0x00u8] + enc_u16(total) + seq![
        0x00u8,
        0x00u8,
        0x40u8,
        0x00u8,
        0xffu8,
        0x11u8,
    ];
    let hb = enc_u32(src) + enc_u32(dst);
    lemma_sum16_nonneg(hb, 0);
    assert(header0 =~= ha + (enc_u16(0u16) + hb));
    assert(header =~= ha + (enc_u16(hck) + hb));
    lemma_sum16_append(ha, enc_u16(0u16) + hb, 0);
    lemma_sum16_append(ha, enc_u16(hck) + hb, 0);
    lemma_sum16_append(enc_u16(0u16), hb, 0);
    lemma_sum16_append(enc_u16(hck), hb, 0);
    lemma_sum16_enc16(hck);
    lemma_sum16_enc16(0u16);
    assert(sum16_from(header, 0) == s0h + hck);
    assert(s0h > 0) by {
        lemma_sum16_nonneg(header0, 2);
        assert(sum16_from(header0, 0) == header0[0] * 256 + header0[1] + sum16_from(header0, 2));
        assert(header0[0] == 0x45);
    }
    lemma_fold16_range(s0h);
    if fold16(s0h) == 0xffff {
        assert(hck == 0);
        assert(sum16_from(header, 0) == s0h);
    } else {
        lemma_checksum_complement(s0h);
    }
    assert(p.take(20) =~= header);
    assert(fold16(sum16_from(p.take(20), 0)) == 0xffff);
    // UDP checksum: pseudo-header plus segment, checksum included,
    // refolds to all-ones.
    let sc = seq![enc_u16(sp)[0], enc_u16(sp)[1], enc_u16(dp)[0], enc_u16(dp)[1]] + enc_u16(
        udp_len,
    );
    assert(pseudo + seg0 =~= (pseudo + sc) + (enc_u16(0u16) + payload));
    assert(pseudo + seg =~= (pseudo + sc) + (enc_u16(uck) + payload));
    lemma_sum16_nonneg(payload, 0);
    lemma_sum16_append(pseudo + sc, enc_u16(0u16) + payload, 0);
    lemma_sum16_append(pseudo + sc, enc_u16(uck) + payload, 0);
    lemma_sum16_append(enc_u16(0u16), payload, 0);
    lemma_sum16_append(enc_u16(uck), payload, 0);
    lemma_sum16_enc16(uck);
    assert(sum16_from(pseudo + seg, 0) == s0u + uck);
    assert(s0u > 0) by {
        let ps = pseudo + seg0;
        lemma_sum16_nonneg(ps, 10);
        lemma_sum16_nonneg(pseudo + sc, 0);
        assert(sum16_from(ps, 0) == sum16_from(pseudo + sc, 0) + sum16_from(
            enc_u16(0u16) + payload,
            0,
        ));
        let pc = pseudo + sc;
        lemma_sum16_nonneg(pc, 10);
        assert(sum16_from(pc, 0) == pc[0] * 256 + pc[1] + sum16_from(pc, 2));
        assert(sum16_from(pc, 2) == pc[2] * 256 + pc[3] + sum16_from(pc, 4));
        assert(sum16_from(pc, 4) == pc[4] * 256 + pc[5] + sum16_from(pc, 6));
        assert(sum16_from(pc, 6) == pc[6] * 256 + pc[7] + sum16_from(pc, 8));
        assert(sum16_from(pc, 8) == pc[8] * 256 + pc[9] + sum16_from(pc, 10));
        assert(pc[8] == 0x00 && pc[9] == 17);
        lemma_sum16_nonneg(pc, 0);
        lemma_sum16_nonneg(enc_u16(0u16) + payload, 0);
    }
    lemma_fold16_range(s0u);
    lemma_checksum_complement(s0u);
    assert(fold16(s0u + uck) == 0xffff);
    assert(dec_u32(p, 12) == src && dec_u32(p, 16) == dst && dec_u16(p, 24) == udp_len);
    assert(spec_pseudo_v4(dec_u32(p, 12), dec_u32(p, 16), dec_u16(p, 24)) =~= pseudo);
    assert(p.skip(20) =~= seg);
    assert(spec_pseudo_v4(dec_u32(p, 12), dec_u32(p, 16), dec_u16(p, 24)) + p.skip(20) =~= pseudo
        + seg);
}

/// The raw sum of one encoded 16-bit word is the word itself.
pub proof fn lemma_sum16_enc16(x: u16)
    ensures
        sum16_from(enc_u16(x), 0) == x,
{
    reveal_with_fuel(sum16_from, 3);
    assert(enc_u16(x)[0] == (x / 256) as u8);
    assert(enc_u16(x)[1] == (x % 256) as u8);
}

/// The 16-bit word written at `i` reads back as itself.
pub proof fn lemma_dec_enc_u16(p: Seq<u8>, i: int, x: u16)
    requires
        0 <= i,
        i + 2 <= p.len(),
        p[i] == (x / 256) as u8,
        p[i + 1] == (x % 256) as u8,
    ensures
        dec_u16(p, i) == x,
{
}

/// The 32-bit word written at `i` reads back as itself.
pub proof fn lemma_dec_enc_u32(p: Seq<u8>, i: int, x: u32)
    requires
        0 <= i,
        i + 4 <= p.len(),
        p.subrange(i, i + 4) =~= enc_u32(x),
    ensures
        dec_u32(p, i) == x,
{
    let a = (x / 0x10000) as u16;
    let b = (x % 0x10000) as u16;
    assert(p.subrange(i, i + 4)[0] == p[i]);
    assert(p.subrange(i, i + 4)[1] == p[i + 1]);
    assert(p.subrange(i, i + 4)[2] == p[i + 2]);
    assert(p.subrange(i, i + 4)[3] == p[i + 3]);
    assert(enc_u32(x)[0] == (a / 256) as u8);
    assert(enc_u32(x)[1] == (a % 256) as u8);
    assert(enc_u32(x)[2] == (b / 256) as u8);
    assert(enc_u32(x)[3] == (b % 256) as u8);
    assert(p[i] == (a / 256) as u8 && p[i + 1] == (a % 256) as u8);
    assert(p[i + 2] == (b / 256) as u8 && p[i + 3] == (b % 256) as u8);
    lemma_dec_enc_u16(p, i, a);
    lemma_dec_enc_u16(p, i + 2, b);
}

} // verus!
