//! Binary frames of the synchronisation protocol.
//!
//! Each frame is a tag followed by a length-prefixed payload. Numbers are
//! written as unsigned LEB128 (seven bits per byte, low bits first, high bit
//! set on every byte but the last):
//!
//! | kind        | tag bytes | payload                  |
//! |-------------|-----------|--------------------------|
//! | SyncStep1   | `0 0`     | encoded state vector     |
//! | SyncStep2   | `0 1`     | update bringing peer up  |
//! | Update      | `0 2`     | document update          |
//! | Awareness   | `1`       | presence information     |
use vstd::prelude::*;

verus! {

/// Largest number of bytes accepted for one LEB128 number.
pub const MAX_VARUINT_BYTES: usize = 9;

/// The four kinds of frame exchanged between a peer and its session.
#[derive(Clone, Copy, Debug, PartialEq, Eq, Structural)]
pub enum FrameKind {
    SyncStep1,
    SyncStep2,
    Update,
    Awareness,
}

/// One decoded frame.
#[derive(Clone, Debug)]
pub struct Frame {
    pub kind: FrameKind,
    pub payload: Vec<u8>,
}

/// `128` raised to the power `n`.
pub open spec fn pow128(n: nat) -> nat
    decreases n,
{
    if n == 0 {
        1
    } else {
        128 * pow128((n - 1) as nat)
    }
}

/// Unsigned LEB128 encoding of `n`.
pub open spec fn varuint_bytes(n: nat) -> Seq<u8>
    decreases n,
{
    if n < 128 {
        seq![n as u8]
    } else {
        seq![(n % 128 + 128) as u8] + varuint_bytes(n / 128)
    }
}

/// Reads one LEB128 number at the start of `s`, using at most `budget`
/// bytes: the value and the number of bytes it took.
pub open spec fn parse_varuint(s: Seq<u8>, budget: nat) -> Option<(nat, nat)>
    decreases budget,
{
    if budget == 0 || s.len() == 0 {
        None
    } else if s[0] < 128 {
        Some((s[0] as nat, 1))
    } else {
        match parse_varuint(s.drop_first(), (budget - 1) as nat) {
            Some((v, n)) => Some((((s[0] - 128) + 128 * v) as nat, n + 1)),
            None => None,
        }
    }
}

/// The tag that opens a frame of kind `k`.
pub open spec fn tag_bytes(k: FrameKind) -> Seq<u8> {
    match k {
        FrameKind::SyncStep1 => seq![0u8, 0u8],
        FrameKind::SyncStep2 => seq![0u8, 1u8],
        FrameKind::Update => seq![0u8, 2u8],
        FrameKind::Awareness => seq![1u8],
    }
}

/// The bytes of a frame of kind `k` carrying `payload`.
pub open spec fn frame_bytes(k: FrameKind, payload: Seq<u8>) -> Seq<u8> {
    tag_bytes(k) + varuint_bytes(payload.len()) + payload
}

/// Reads the length-prefixed payload that makes up all of `rest`.
pub open spec fn parse_body(k: FrameKind, rest: Seq<u8>) -> Option<(FrameKind, Seq<u8>)> {
    match parse_varuint(rest, MAX_VARUINT_BYTES as nat) {
        Some((n, c)) => if rest.len() == c + n {
            Some((k, rest.subrange(c as int, rest.len() as int)))
        } else {
            None
        },
        None => None,
    }
}

/// The frame that `s` holds, if it holds exactly one well-formed frame.
pub open spec fn parse_frame(s: Seq<u8>) -> Option<(FrameKind, Seq<u8>)> {
    if s.len() >= 1 && s[0] == 1 {
        parse_body(FrameKind::Awareness, s.drop_first())
    } else if s.len() >= 2 && s[0] == 0 && s[1] == 0 {
        parse_body(FrameKind::SyncStep1, s.subrange(2, s.len() as int))
    } else if s.len() >= 2 && s[0] == 0 && s[1] == 1 {
        parse_body(FrameKind::SyncStep2, s.subrange(2, s.len() as int))
    } else if s.len() >= 2 && s[0] == 0 && s[1] == 2 {
        parse_body(FrameKind::Update, s.subrange(2, s.len() as int))
    } else {
        None
    }
}

pub(crate) proof fn lemma_parse_varuint_bound(s: Seq<u8>, budget: nat)
    ensures
        parse_varuint(s, budget) matches Some((v, n)) ==> v < pow128(budget) && 1 <= n <= budget
            && n <= s.len(),
    decreases budget,
{
    if budget > 0 {
        lemma_pow128_grows((budget - 1) as nat);
    }
    if budget > 0 && s.len() > 0 && s[0] >= 128 {
        lemma_parse_varuint_bound(s.drop_first(), (budget - 1) as nat);
        if let Some((v, n)) = parse_varuint(s.drop_first(), (budget - 1) as nat) {
            let p = pow128((budget - 1) as nat);
            assert((s[0] - 128) + 128 * v < 128 * p) by (nonlinear_arith)
                requires
                    v < p,
                    0 <= s[0] - 128 < 128,
            ;
        }
    }
}

proof fn lemma_pow128_grows(n: nat)
    ensures
        pow128(n) >= 1,
        n >= 2 ==> pow128(n) > 128,
    decreases n,
{
    if n > 0 {
        lemma_pow128_grows((n - 1) as nat);
    }
}

/// Reading back the LEB128 encoding of `n` yields `n`, whatever follows it.
pub proof fn lemma_varuint_round_trip(n: nat, rest: Seq<u8>, budget: nat)
    requires
        1 <= budget,
        n < pow128(budget),
    ensures
        parse_varuint(varuint_bytes(n) + rest, budget) == Some((n, varuint_bytes(n).len())),
    decreases n,
{
    let s = varuint_bytes(n) + rest;
    if n >= 128 {
        lemma_pow128_grows(budget);
        if budget < 2 {
            assert(pow128(budget) == 128) by {
                reveal_with_fuel(pow128, 2);
            }
        }
        let b1 = (budget - 1) as nat;
        assert(n / 128 < pow128(b1)) by (nonlinear_arith)
            requires
                n < 128 * pow128(b1),
        ;
        lemma_varuint_round_trip(n / 128, rest, b1);
        assert(s.drop_first() =~= varuint_bytes(n / 128) + rest);
        assert(n == (n % 128) + 128 * (n / 128)) by (nonlinear_arith);
    }
}

proof fn lemma_pow128_monotone(a: nat, b: nat)
    requires
        a <= b,
    ensures
        pow128(a) <= pow128(b),
    decreases b,
{
    if a < b {
        lemma_pow128_monotone(a, (b - 1) as nat);
        lemma_pow128_grows((b - 1) as nat);
    }
}

/// A frame of kind `k` with `payload` reads back as that frame.
pub proof fn lemma_frame_round_trip(k: FrameKind, payload: Seq<u8>)
    requires
        payload.len() < pow128(MAX_VARUINT_BYTES as nat),
    ensures
        parse_frame(frame_bytes(k, payload)) == Some((k, payload)),
{
    let s = frame_bytes(k, payload);
    let t = tag_bytes(k);
    let rest = s.subrange(t.len() as int, s.len() as int);
    assert(rest =~= varuint_bytes(payload.len()) + payload);
    lemma_varuint_round_trip(payload.len(), payload, MAX_VARUINT_BYTES as nat);
    let c = varuint_bytes(payload.len()).len();
    assert(rest.subrange(c as int, rest.len() as int) =~= payload);
    if k == FrameKind::Awareness {
        assert(s.drop_first() =~= rest);
    }
}

/// Appends the LEB128 encoding of `n` to `out`.
fn write_varuint(out: &mut Vec<u8>, n: u64)
    ensures
        final(out)@ == old(out)@ + varuint_bytes(n as nat),
{
    let mut m: u64 = n;
    while m >= 128
        invariant
            out@ + varuint_bytes(m as nat) == old(out)@ + varuint_bytes(n as nat),
        decreases m,
    {
        let ghost before = out@;
        let b: u8 = (m % 128 + 128) as u8;
        out.push(b);
        assert(before + varuint_bytes(m as nat) =~= out@ + varuint_bytes((m / 128) as nat));
        m = m / 128;
    }
    out.push(m as u8);
}

/// Appends all of `bytes` to `out`.
fn append_bytes(out: &mut Vec<u8>, bytes: &[u8])
    ensures
        final(out)@ == old(out)@ + bytes@,
{
    let mut i: usize = 0;
    while i < bytes.len()
        invariant
            i <= bytes@.len(),
            out@ == old(out)@ + bytes@.subrange(0, i as int),
        decreases bytes@.len() - i,
    {
        out.push(bytes[i]);
        i = i + 1;
        assert(out@ =~= old(out)@ + bytes@.subrange(0, i as int));
    }
    assert(bytes@.subrange(0, i as int) =~= bytes@);
}

/// Reads one LEB128 number of at most `budget` bytes starting at `pos`:
/// its value and the position just after it.
pub(crate) fn read_varuint(b: &[u8], pos: usize, budget: usize) -> (r: Option<(u64, usize)>)
    requires
        pos <= b@.len(),
        budget <= MAX_VARUINT_BYTES,
    ensures
        match parse_varuint(b@.subrange(pos as int, b@.len() as int), budget as nat) {
            Some((v, n)) => r == Some((v as u64, (pos + n) as usize)),
            None => r is None,
        },
    decreases budget,
{
    let ghost s = b@.subrange(pos as int, b@.len() as int);
    if budget == 0 || pos >= b.len() {
        return None;
    }
    let x: u8 = b[pos];
    if x < 128 {
        return Some((x as u64, pos + 1));
    }
    assert(s.drop_first() =~= b@.subrange(pos + 1, b@.len() as int));
    match read_varuint(b, pos + 1, budget - 1) {
        Some((v, e)) => {
            proof {
                lemma_parse_varuint_bound(s.drop_first(), (budget - 1) as nat);
                lemma_pow128_monotone((budget - 1) as nat, 8);
                assert(pow128(8) == 72057594037927936) by {
                    reveal_with_fuel(pow128, 9);
                }
            }
            Some(((x - 128) as u64 + 128 * v, e))
        },
        None => None,
    }
}

/// Copies `b[from..]` into a new vector.
pub(crate) fn copy_tail(b: &[u8], from: usize) -> (r: Vec<u8>)
    requires
        from <= b@.len(),
    ensures
        r@ == b@.subrange(from as int, b@.len() as int),
{
    let mut r: Vec<u8> = Vec::new();
    let mut i: usize = from;
    while i < b.len()
        invariant
            from <= i <= b@.len(),
            r@ == b@.subrange(from as int, i as int),
        decreases b@.len() - i,
    {
        r.push(b[i]);
        i = i + 1;
        assert(r@ =~= b@.subrange(from as int, i as int));
    }
    r
}

/// Encodes a frame of kind `kind` carrying `payload`.
pub fn encode_frame(kind: FrameKind, payload: &[u8]) -> (r: Vec<u8>)
    ensures
        r@ == frame_bytes(kind, payload@),
{
    let mut out: Vec<u8> = Vec::new();
    match kind {
        FrameKind::SyncStep1 => {
            out.push(0);
            out.push(0);
        },
        FrameKind::SyncStep2 => {
            out.push(0);
            out.push(1);
        },
        FrameKind::Update => {
            out.push(0);
            out.push(2);
        },
        FrameKind::Awareness => {
            out.push(1);
        },
    }
    assert(out@ =~= tag_bytes(kind));
    write_varuint(&mut out, payload.len() as u64);
    append_bytes(&mut out, payload);
    out
}

/// Decodes `bytes` as exactly one frame; `None` when they hold anything else.
pub fn decode_frame(bytes: &[u8]) -> (r: Option<Frame>)
    ensures
        match parse_frame(bytes@) {
            Some((k, p)) => r matches Some(f) && f.kind == k && f.payload@ == p,
            None => r is None,
        },
{
    let kind: FrameKind;
    let start: usize;
    if bytes.len() >= 1 && bytes[0] == 1 {
        kind = FrameKind::Awareness;
        start = 1;
        assert(bytes@.drop_first() =~= bytes@.subrange(1, bytes@.len() as int));
    } else if bytes.len() >= 2 && bytes[0] == 0 && bytes[1] <= 2 {
        kind = if bytes[1] == 0 {
            FrameKind::SyncStep1
        } else if bytes[1] == 1 {
            FrameKind::SyncStep2
        } else {
            FrameKind::Update
        };
        start = 2;
    } else {
        return None;
    }
    let ghost rest = bytes@.subrange(start as int, bytes@.len() as int);
    assert(parse_frame(bytes@) == parse_body(kind, rest));
    proof {
        lemma_parse_varuint_bound(rest, MAX_VARUINT_BYTES as nat);
        assert(pow128(9) == 0x8000_0000_0000_0000) by {
            reveal_with_fuel(pow128, 10);
        }
    }
    match read_varuint(bytes, start, MAX_VARUINT_BYTES) {
        Some((n, e)) => {
            assert(rest.subrange((e - start) as int, rest.len() as int) =~= bytes@.subrange(
                e as int,
                bytes@.len() as int,
            ));
            if (bytes.len() - e) as u64 == n {
                let payload = copy_tail(bytes, e);
                Some(Frame { kind, payload })
            } else {
                None
            }
        },
        None => None,
    }
}

} // verus!
