use vstd::prelude::*;
use vstd::arithmetic::div_mod::lemma_breakdown;
use vstd::arithmetic::power::pow;

use crate::frame::{body_len, frame, frame_body, frame_header, header_is_short, le_bytes, padding_len, zeros};

verus! {

/// The number that the bytes of `s` spell out, least significant first.
pub open spec fn le_value(s: Seq<u8>) -> nat
    decreases s.len(),
{
    if s.len() == 0 {
        0
    } else {
        s[0] as nat + 256 * le_value(s.drop_first())
    }
}

/// Size of the length prefix that starts with the byte `first`.
pub open spec fn prefix_len(first: u8) -> nat {
    if first == 0x7f {
        4
    } else {
        1
    }
}

/// The body length in four-byte words that the prefix of `bytes` announces.
pub open spec fn announced_words(bytes: Seq<u8>) -> Option<nat> {
    if bytes.len() == 0 {
        None
    } else if bytes[0] < 0x7f {
        Some(bytes[0] as nat)
    } else if bytes[0] == 0x7f && bytes.len() >= 4 {
        Some(le_value(bytes.subrange(1, 4)))
    } else {
        None
    }
}

/// What a receiver reads back from a frame: skip the prefix and the message id,
/// read the 4-byte payload length, and take that many bytes.
pub open spec fn unframe(bytes: Seq<u8>) -> Option<Seq<u8>> {
    if bytes.len() == 0 {
        None
    } else {
        let h = prefix_len(bytes[0]) as int;
        if bytes.len() < h + 12 {
            None
        } else {
            let n = le_value(bytes.subrange(h + 8, h + 12)) as int;
            if bytes.len() < h + 12 + n {
                None
            } else {
                Some(bytes.subrange(h + 12, h + 12 + n))
            }
        }
    }
}

proof fn lemma_le_bytes_len(x: nat, n: nat)
    ensures
        le_bytes(x, n).len() == n,
    decreases n,
{
    if n > 0 {
        lemma_le_bytes_len(x / 256, (n - 1) as nat);
    }
}

proof fn lemma_le_value_of_le_bytes(x: nat, n: nat)
    requires
        x < pow(256, n),
    ensures
        le_value(le_bytes(x, n)) == x,
    decreases n,
{
    reveal(pow);
    if n > 0 {
        let m = (n - 1) as nat;
        let b = le_bytes(x, n);
        lemma_le_bytes_len(x / 256, m);
        assert(b.drop_first() =~= le_bytes(x / 256, m));
        let p = pow(256, m);
        assert(pow(256, n) == 256 * p);
        assert(x / 256 < p) by (nonlinear_arith)
            requires
                x < 256 * p,
                0 <= x,
        ;
        lemma_le_value_of_le_bytes(x / 256, m);
        assert(le_value(b) == x % 256 + 256 * le_value(le_bytes(x / 256, m)));
    }
}

proof fn lemma_pow_positive(n: nat)
    ensures
        pow(256, n) > 0,
    decreases n,
{
    reveal(pow);
    if n > 0 {
        lemma_pow_positive((n - 1) as nat);
    }
}

proof fn lemma_le_value_mod(x: nat, n: nat)
    ensures
        le_value(le_bytes(x, n)) == x % (pow(256, n) as nat),
    decreases n,
{
    reveal(pow);
    if n == 0 {
        assert(x % 1 == 0);
    } else {
        let m = (n - 1) as nat;
        let b = le_bytes(x, n);
        lemma_le_bytes_len(x / 256, m);
        assert(b.drop_first() =~= le_bytes(x / 256, m));
        lemma_le_value_mod(x / 256, m);
        lemma_pow_positive(m);
        let p = pow(256, m);
        lemma_breakdown(x as int, 256, p);
        assert(le_value(b) == x % 256 + 256 * le_value(le_bytes(x / 256, m)));
    }
}

proof fn lemma_pow_256()
    ensures
        pow(256, 3) == 0x100_0000,
        pow(256, 4) == 0x1_0000_0000,
{
    reveal_with_fuel(pow, 5);
}

/// The frame body is whole four-byte words: it holds the 12 fixed bytes and the
/// payload, and at most three bytes of padding.
pub proof fn frame_body_is_word_aligned(payload: Seq<u8>)
    ensures
        frame_body(payload).len() == body_len(payload.len()),
        body_len(payload.len()) % 4 == 0,
        payload.len() + 12 <= body_len(payload.len()) <= payload.len() + 15,
{
    lemma_le_bytes_len(0, 8);
    lemma_le_bytes_len(payload.len(), 4);
}

/// A receiver that skips the length prefix and the message id and reads the
/// payload length field gets back exactly the payload that was framed, for
/// every payload whose length fits the 32-bit length field.
pub proof fn frame_carries_payload(payload: Seq<u8>)
    requires
        payload.len() < 0x1_0000_0000,
    ensures
        unframe(frame(payload)) == Some(payload),
{
    let n = payload.len() as int;
    let q = body_len(n as nat) / 4;
    let hd = frame_header(q);
    let body = frame_body(payload);
    let f = frame(payload);
    lemma_le_bytes_len(0, 8);
    lemma_le_bytes_len(n as nat, 4);
    lemma_le_bytes_len(q, 3);
    lemma_pow_256();
    assert(q % 0x1_0000_0000 == q);
    assert(header_is_short(q) <==> q < 0x7f);
    let h = prefix_len(f[0]) as int;
    assert(h == hd.len());
    assert(f.subrange(h + 8, h + 12) =~= le_bytes(n as nat, 4));
    lemma_le_value_of_le_bytes(n as nat, 4);
    assert(f.subrange(h + 12, h + 12 + n) =~= payload);
}

/// The length prefix announces the body length in four-byte words, and the
/// frame is the prefix followed by exactly that many words, for every frame
/// whose word count fits the 24 bits of the long prefix.
pub proof fn frame_announces_its_length(payload: Seq<u8>)
    requires
        body_len(payload.len()) < 4 * 0x100_0000,
    ensures
        announced_words(frame(payload)) == Some(body_len(payload.len()) / 4),
        frame(payload).len() == prefix_len(frame(payload)[0]) + 4 * (body_len(payload.len()) / 4),
        (body_len(payload.len()) / 4 < 0x7f) <==> prefix_len(frame(payload)[0]) == 1,
{
    let n = payload.len() as int;
    let q = body_len(n as nat) / 4;
    let f = frame(payload);
    frame_body_is_word_aligned(payload);
    lemma_le_bytes_len(q, 3);
    lemma_pow_256();
    assert(q % 0x1_0000_0000 == q);
    if !header_is_short(q) {
        assert(f.subrange(1, 4) =~= le_bytes(q, 3));
        lemma_le_value_of_le_bytes(q, 3);
    }
}

/// Read from the end, every frame is: message id 0 as eight zero bytes, the
/// payload length modulo 2^32 as four little-endian bytes, the payload, and
/// then zero bytes, fewer than four, that bring the payload to a multiple of
/// four bytes; whatever precedes the message id is the length prefix, one or
/// four bytes long.
pub proof fn frame_tail_layout(payload: Seq<u8>)
    ensures
        ({
            let f = frame(payload);
            let n = payload.len() as int;
            let k = (4 - n % 4) % 4;
            let start = f.len() - (12 + n + k);
            &&& (start == 1 || start == 4)
            &&& (n + k) % 4 == 0
            &&& forall|i: int| start <= i < start + 8 ==> f[i] == 0u8
            &&& le_value(f.subrange(start + 8, start + 12)) == n % 0x1_0000_0000
            &&& f.subrange(start + 12, start + 12 + n) == payload
            &&& forall|i: int| start + 12 + n <= i < f.len() ==> f[i] == 0u8
        }),
{
    let n = payload.len();
    let q = body_len(n) / 4;
    let f = frame(payload);
    let hd = frame_header(q);
    let start = hd.len() as int;
    let pad = padding_len(n);
    lemma_frame_pieces(payload);
    assert(pad == (4 - n as int % 4) % 4);
    assert(f.len() == start + 12 + n + pad);
    let ghost id = le_bytes(0, 8);
    let ghost lf = le_bytes(n, 4);
    assert forall|i: int| start <= i < start + 8 implies f[i] == 0u8 by {
        assert(f[i] == id[i - start]);
    }
    assert(f.subrange(start + 8, start + 12) =~= lf);
    lemma_le_value_mod(n, 4);
    lemma_pow_256();
    assert(f.subrange(start + 12, start + 12 + n) =~= payload);
    assert forall|i: int| start + 12 + n <= i < f.len() implies f[i] == 0u8 by {
        assert(f[i] == zeros(pad)[i - (start + 12 + n)]);
    }
}

proof fn lemma_prefix_matches_header(payload: Seq<u8>)
    requires
        payload.len() < 0x1_0000_0000,
    ensures
        ({
            let f = frame(payload);
            let n = payload.len() as int;
            prefix_len(f[0]) as int == f.len() - (12 + n + (4 - n % 4) % 4)
        }),
{
    let n = payload.len();
    let q = body_len(n) / 4;
    let hd = frame_header(q);
    let f = frame(payload);
    lemma_frame_pieces(payload);
    lemma_le_bytes_len(q, 3);
    assert(q % 0x1_0000_0000 == q);
    assert(f[0] == hd[0]);
    assert(prefix_len(f[0]) == hd.len());
    assert(padding_len(n) == (4 - n as int % 4) % 4);
}

proof fn lemma_le_bytes_zero(n: nat)
    ensures
        le_bytes(0, n) =~= Seq::new(n, |i: int| 0u8),
    decreases n,
{
    if n > 0 {
        lemma_le_bytes_zero((n - 1) as nat);
        lemma_le_bytes_len(0, n);
    }
}

proof fn lemma_frame_pieces(payload: Seq<u8>)
    ensures
        ({
            let n = payload.len();
            let hd = frame_header(body_len(n) / 4);
            &&& frame(payload) == hd + le_bytes(0, 8) + le_bytes(n, 4) + payload + zeros(padding_len(n))
            &&& (hd.len() == 1 || hd.len() == 4)
            &&& le_bytes(0, 8).len() == 8
            &&& le_bytes(n, 4).len() == 4
            &&& forall|i: int| 0 <= i < 8 ==> le_bytes(0, 8)[i] == 0u8
            &&& forall|i: int| 0 <= i < padding_len(n) ==> zeros(padding_len(n))[i] == 0u8
        }),
{
    let n = payload.len();
    let q = body_len(n) / 4;
    lemma_le_bytes_len(0, 8);
    lemma_le_bytes_len(n, 4);
    lemma_le_bytes_len(q, 3);
    lemma_le_bytes_zero(8);
    assert(frame(payload) =~= frame_header(q) + le_bytes(0, 8) + le_bytes(n, 4) + payload + zeros(padding_len(n)));
}

/// After the length prefix, every frame whose payload length fits the 32-bit
/// length field starts with message id 0: eight zero bytes.
pub proof fn frame_message_id_is_zero(payload: Seq<u8>)
    requires
        payload.len() < 0x1_0000_0000,
    ensures
        ({
            let f = frame(payload);
            let h = prefix_len(f[0]) as int;
            &&& f.len() >= h + 12 + payload.len()
            &&& forall|i: int| h <= i < h + 8 ==> f[i] == 0u8
        }),
{
    let n = payload.len();
    let q = body_len(n) / 4;
    let f = frame(payload);
    lemma_prefix_matches_header(payload);
    frame_tail_layout(payload);
}

/// Every byte that follows the payload in a frame is zero, and there are fewer
/// than four of them, for every payload whose length fits the 32-bit length
/// field; the frame after its prefix is whole four-byte words.
pub proof fn frame_padding_is_zero(payload: Seq<u8>)
    requires
        payload.len() < 0x1_0000_0000,
    ensures
        ({
            let f = frame(payload);
            let h = prefix_len(f[0]) as int;
            let end = h + 12 + payload.len();
            &&& end <= f.len() < end + 4
            &&& (f.len() - h) % 4 == 0
            &&& forall|i: int| end <= i < f.len() ==> f[i] == 0u8
        }),
{
    let n = payload.len();
    let q = body_len(n) / 4;
    let f = frame(payload);
    lemma_prefix_matches_header(payload);
    frame_tail_layout(payload);
}

} // verus!
