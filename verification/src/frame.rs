use vstd::prelude::*;

verus! {

/// The `n` low-order bytes of `x`, least significant first.
pub open spec fn le_bytes(x: nat, n: nat) -> Seq<u8>
    decreases n,
{
    if n == 0 {
        Seq::empty()
    } else {
        seq![(x % 256) as u8] + le_bytes(x / 256, (n - 1) as nat)
    }
}

/// Appends the `n` low-order bytes of `x` to `out`, least significant first.
pub(crate) fn push_le_bytes(out: &mut Vec<u8>, x: u64, n: usize)
    requires
        n <= 8,
    ensures
        final(out)@ == old(out)@ + le_bytes(x as nat, n as nat),
{
    let ghost start = out@;
    let mut v: u64 = x;
    let mut k: usize = 0;
    while k < n
        invariant
            k <= n,
            n <= 8,
            out@ + le_bytes(v as nat, (n - k) as nat) == start + le_bytes(x as nat, n as nat),
        decreases n - k,
    {
        let byte: u8 = (v & 0xff) as u8;
        assert((v & 0xff) as u8 == (v as nat % 256) as u8) by (bit_vector);
        assert(v >> 8 == v / 256) by (bit_vector);
        let ghost before = out@;
        assert(le_bytes(v as nat, (n - k) as nat) == seq![(v as nat % 256) as u8] + le_bytes(
            (v / 256) as nat,
            (n - k - 1) as nat,
        ));
        out.push(byte);
        assert(out@ + le_bytes((v / 256) as nat, (n - k - 1) as nat) =~= before + le_bytes(v as nat, (n - k) as nat));
        v = v >> 8;
        k = k + 1;
    }
    assert(le_bytes(v as nat, 0) =~= Seq::<u8>::empty());
    assert(out@ + Seq::<u8>::empty() =~= out@);
}


/// Zero bytes appended after a payload of `n` bytes so that the frame body
/// ends on a four-byte boundary.
pub open spec fn padding_len(n: nat) -> nat {
    if n % 4 == 0 {
        0
    } else {
        (4 - n % 4) as nat
    }
}

/// Length of the frame body for a payload of `n` bytes: an 8-byte message id,
/// a 4-byte payload length, the payload and its padding.
pub open spec fn body_len(n: nat) -> nat {
    12 + n + padding_len(n)
}

/// `n` zero bytes.
pub open spec fn zeros(n: nat) -> Seq<u8> {
    Seq::new(n, |i: int| 0u8)
}

/// The frame body: message id 0 as 8 little-endian bytes, the payload length
/// as 4 little-endian bytes (its low 32 bits, as a 32-bit field holds it), the
/// payload, then zero padding up to a multiple of four bytes.
pub open spec fn frame_body(payload: Seq<u8>) -> Seq<u8> {
    le_bytes(0, 8) + le_bytes(payload.len(), 4) + payload + zeros(padding_len(payload.len()))
}

/// Whether the length prefix for a body of `quarters` four-byte words takes
/// the one-byte form. The word count is held in a signed 32-bit field: the
/// short form is chosen when that field reads below 0x7f, which includes the
/// negative readings of counts whose low 32 bits reach 2^31.
pub open spec fn header_is_short(quarters: nat) -> bool {
    let w = quarters % 0x1_0000_0000;
    w < 0x7f || w >= 0x8000_0000
}

/// The length prefix for a body of `quarters` four-byte words: one byte
/// holding the count, or the marker byte 0x7f followed by the low 24 bits of
/// the count, little endian.
pub open spec fn frame_header(quarters: nat) -> Seq<u8> {
    if header_is_short(quarters) {
        seq![(quarters % 256) as u8]
    } else {
        seq![0x7fu8] + le_bytes(quarters, 3)
    }
}

/// The whole frame for `payload`: length prefix, then body.
pub open spec fn frame(payload: Seq<u8>) -> Seq<u8> {
    frame_header(body_len(payload.len()) / 4) + frame_body(payload)
}

/// Appends the length prefix for a body of `quarters` words.
pub(crate) fn push_header(out: &mut Vec<u8>, quarters: u64)
    ensures
        final(out)@ == old(out)@ + frame_header(quarters as nat),
{
    let w: u64 = quarters & 0xffff_ffff;
    assert(quarters & 0xffff_ffff == quarters % 0x1_0000_0000) by (bit_vector);
    if w < 0x7f || w >= 0x8000_0000 {
        let byte: u8 = (quarters & 0xff) as u8;
        assert((quarters & 0xff) as u8 == (quarters as nat % 256) as u8) by (bit_vector);
        out.push(byte);
    } else {
        out.push(0x7f);
        push_le_bytes(out, quarters, 3);
        assert(seq![0x7fu8] + le_bytes(quarters as nat, 3) == frame_header(quarters as nat));
    }
}


/// Appends `payload` and then `pad` zero bytes.
pub(crate) fn push_padded(out: &mut Vec<u8>, payload: &[u8], pad: usize)
    ensures
        final(out)@ == old(out)@ + payload@ + zeros(pad as nat),
{
    let ghost start = out@;
    let mut i: usize = 0;
    while i < payload.len()
        invariant
            i <= payload@.len(),
            out@ == start + payload@.subrange(0, i as int),
        decreases payload@.len() - i,
    {
        out.push(payload[i]);
        assert(payload@.subrange(0, i + 1) =~= payload@.subrange(0, i as int).push(payload@[i as int]));
        i = i + 1;
    }
    assert(payload@.subrange(0, payload@.len() as int) =~= payload@);
    let ghost mid = out@;
    let mut j: usize = 0;
    while j < pad
        invariant
            j <= pad,
            out@ == mid + zeros(j as nat),
        decreases pad - j,
    {
        out.push(0u8);
        assert(zeros((j + 1) as nat) =~= zeros(j as nat).push(0u8));
        j = j + 1;
    }
    assert(out@ =~= start + payload@ + zeros(pad as nat));
}

} // verus!
