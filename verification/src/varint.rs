//! Variable-width integers: a signed 32-bit value in one to five bytes, seven
//! bits to a byte, the least significant first.

use vstd::prelude::*;
use crate::error::FramingError;

verus! {

/// The unsigned 32-bit pattern of a signed value (two's complement).
pub open spec fn to_unsigned(v: i32) -> nat {
    if v >= 0 {
        v as nat
    } else {
        (v + 0x1_0000_0000) as nat
    }
}

/// The signed value whose two's-complement pattern is `n % 2^32`.
pub open spec fn to_signed(n: nat) -> i32 {
    let m = n % 0x1_0000_0000;
    if m < 0x8000_0000 {
        m as i32
    } else {
        (m - 0x1_0000_0000) as i32
    }
}

/// The wire form of a non-negative number: base-128 digits, least significant
/// first, every byte but the last carrying the continuation flag `0x80`.
pub open spec fn varint_bytes(n: nat) -> Seq<u8>
    decreases n,
{
    if n < 128 {
        seq![n as u8]
    } else {
        seq![(n % 128 + 128) as u8] + varint_bytes(n / 128)
    }
}

/// The wire form of a signed 32-bit value.
pub open spec fn encode_varint_spec(v: i32) -> Seq<u8> {
    varint_bytes(to_unsigned(v))
}

/// Writes a signed 32-bit value in its wire form.
pub fn encode_varint(value: i32) -> (out: Vec<u8>)
    ensures
        out@ == encode_varint_spec(value),
        1 <= out.len() <= 5,
{
    proof {
        lemma_encode_varint_len(value);
    }
    let mut rest: u32 = #[verifier::truncate] (value as u32);
    assert(rest == if value >= 0 { value as int } else { value + 0x1_0000_0000 }) by (bit_vector)
        requires
            rest == #[verifier::truncate] (value as u32),
    ;
    let mut out: Vec<u8> = Vec::new();
    let ghost start: nat = rest as nat;
    while rest >= 128
        invariant
            varint_bytes(start) == out@ + varint_bytes(rest as nat),
        decreases rest,
    {
        let low: u8 = (rest & 0x7f) as u8 | 0x80;
        assert(low == (rest % 128 + 128) as u8 && (rest >> 7) == rest / 128) by (bit_vector)
            requires
                low == (rest & 0x7f) as u8 | 0x80,
        ;
        out.push(low);
        rest = rest >> 7;
    }
    out.push(rest as u8);
    out
}

/// The number that a run of varint bytes spells, before it is cut to 32 bits.
pub open spec fn varint_value(bytes: Seq<u8>) -> nat
    decreases bytes.len(),
{
    if bytes.len() == 0 {
        0
    } else {
        (bytes[0] % 128) as nat + 128 * varint_value(bytes.drop_first())
    }
}

/// How many bytes the varint at `at` takes, looking from its `k`-th byte on.
pub open spec fn varint_scan(buf: Seq<u8>, at: int, k: nat) -> Result<nat, FramingError>
    decreases 5 - k,
{
    if k >= 5 {
        Err(FramingError::VarintTooLong)
    } else if at + k >= buf.len() {
        Err(FramingError::ShortRead)
    } else if buf[at + k] < 128 {
        Ok(k + 1)
    } else {
        varint_scan(buf, at, k + 1)
    }
}

/// The value of the varint that starts at `at`, with the index just behind it.
pub open spec fn decode_varint_spec(buf: Seq<u8>, at: int) -> Result<(i32, int), FramingError> {
    match varint_scan(buf, at, 0) {
        Ok(n) => Ok((to_signed(varint_value(buf.subrange(at, at + n))), at + n)),
        Err(e) => Err(e),
    }
}

spec fn pow128(k: nat) -> nat
    decreases k,
{
    if k == 0 {
        1
    } else {
        128 * pow128((k - 1) as nat)
    }
}

proof fn lemma_pow128_values()
    ensures
        pow128(0) == 1,
        pow128(1) == 128,
        pow128(2) == 16384,
        pow128(3) == 2097152,
        pow128(4) == 268435456,
        pow128(5) == 34359738368,
{
    reveal_with_fuel(pow128, 6);
}

proof fn lemma_value_push(bytes: Seq<u8>, b: u8)
    ensures
        varint_value(bytes.push(b)) == varint_value(bytes) + (b % 128) * pow128(bytes.len()),
    decreases bytes.len(),
{
    let digit = (b % 128) as nat;
    let longer = bytes.push(b);
    if bytes.len() == 0 {
        assert(longer.drop_first() =~= Seq::<u8>::empty());
        assert(longer[0] == b);
        assert(varint_value(longer) == digit + 128 * varint_value(longer.drop_first()));
        assert(pow128(0) == 1);
    } else {
        let tail = bytes.drop_first();
        assert(longer.drop_first() =~= tail.push(b));
        assert(longer[0] == bytes[0]);
        lemma_value_push(tail, b);
        assert(pow128(bytes.len()) == 128 * pow128(tail.len()));
        assert(128 * (digit * pow128(tail.len())) == digit * pow128(bytes.len()))
            by (nonlinear_arith)
            requires
                pow128(bytes.len()) == 128 * pow128(tail.len()),
        ;
    }
}

proof fn lemma_value_push_short(bytes: Seq<u8>, b: u8)
    requires
        bytes.len() < 5,
    ensures
        ({
            let longer = varint_value(bytes.push(b));
            let digit = (b % 128) as nat;
            &&& bytes.len() == 0 ==> longer == varint_value(bytes) + digit
            &&& bytes.len() == 1 ==> longer == varint_value(bytes) + digit * 128
            &&& bytes.len() == 2 ==> longer == varint_value(bytes) + digit * 16384
            &&& bytes.len() == 3 ==> longer == varint_value(bytes) + digit * 2097152
            &&& bytes.len() == 4 ==> longer == varint_value(bytes) + digit * 268435456
        }),
{
    lemma_value_push(bytes, b);
    lemma_pow128_values();
    let digit = (b % 128) as nat;
    let p = pow128(bytes.len());
    assert(p == 1 ==> digit * p == digit) by (nonlinear_arith);
    assert(p == 128 ==> digit * p == digit * 128) by (nonlinear_arith);
    assert(p == 16384 ==> digit * p == digit * 16384) by (nonlinear_arith);
    assert(p == 2097152 ==> digit * p == digit * 2097152) by (nonlinear_arith);
    assert(p == 268435456 ==> digit * p == digit * 268435456) by (nonlinear_arith);
}

proof fn lemma_value_bound(bytes: Seq<u8>)
    ensures
        varint_value(bytes) < pow128(bytes.len()),
    decreases bytes.len(),
{
    if bytes.len() > 0 {
        lemma_value_bound(bytes.drop_first());
    }
}

proof fn lemma_or_adds_digit(acc: u32, b: u8, k: u32)
    by (bit_vector)
    requires
        k < 5,
        (acc as u64) < (1u64 << (7 * k)),
    ensures
        ({
            let next = (acc | (((b & 0x7f) as u32) << (7 * k))) as u64;
            let digit = (b % 128) as u64;
            &&& k == 0 ==> next == (acc as u64 + digit) % 0x1_0000_0000
            &&& k == 1 ==> next == (acc as u64 + digit * 128) % 0x1_0000_0000
            &&& k == 2 ==> next == (acc as u64 + digit * 16384) % 0x1_0000_0000
            &&& k == 3 ==> next == (acc as u64 + digit * 2097152) % 0x1_0000_0000
            &&& k == 4 ==> next == (acc as u64 + digit * 268435456) % 0x1_0000_0000
        }),
{
}

proof fn lemma_shift_is_pow(k: u32)
    by (bit_vector)
    requires
        k < 5,
    ensures
        k == 0 ==> (1u64 << (7 * k)) == 1,
        k == 1 ==> (1u64 << (7 * k)) == 128,
        k == 2 ==> (1u64 << (7 * k)) == 16384,
        k == 3 ==> (1u64 << (7 * k)) == 2097152,
        k == 4 ==> (1u64 << (7 * k)) == 268435456,
{
}

/// Reads the varint that starts at `at` in `buf`.
pub fn decode_varint(buf: &[u8], at: usize) -> (r: Result<(i32, usize), FramingError>)
    ensures
        match decode_varint_spec(buf@, at as int) {
            Ok((v, end)) => r == Ok::<(i32, usize), FramingError>((v, end as usize)) && end <= buf.len(),
            Err(e) => r == Err::<(i32, usize), FramingError>(e),
        },
{
    if at > buf.len() {
        return Err(FramingError::ShortRead);
    }
    let mut acc: u32 = 0;
    let mut k: usize = 0;
    while k < 5
        invariant
            k <= 5,
            at + k <= buf.len(),
            acc as nat == varint_value(buf@.subrange(at as int, at + k)) % 0x1_0000_0000,
            varint_scan(buf@, at as int, 0) == varint_scan(buf@, at as int, k as nat),
        decreases 5 - k,
    {
        if k >= buf.len() - at {
            return Err(FramingError::ShortRead);
        }
        let b: u8 = buf[at + k];
        let shift: u32 = 7 * (k as u32);
        let next: u32 = acc | (((b & 0x7f) as u32) << shift);
        proof {
            let run = buf@.subrange(at as int, at + k);
            assert(buf@.subrange(at as int, at + k + 1) =~= run.push(b));
            lemma_value_push_short(run, b);
            lemma_value_bound(run);
            lemma_pow128_values();
            lemma_shift_is_pow(k as u32);
            assert(acc as nat == varint_value(run));
            lemma_or_adds_digit(acc, b, k as u32);
            assert(next as nat == varint_value(run.push(b)) % 0x1_0000_0000);
        }
        acc = next;
        k = k + 1;
        if b & 0x80 == 0 {
            assert(b < 128) by (bit_vector)
                requires
                    b & 0x80 == 0,
            ;
            let v: i32 = #[verifier::truncate] (acc as i32);
            assert(v == to_signed(acc as nat)) by (bit_vector)
                requires
                    v == #[verifier::truncate] (acc as i32),
            ;
            return Ok((v, at + k));
        }
        assert(b >= 128) by (bit_vector)
            requires
                b & 0x80 != 0,
        ;
    }
    Err(FramingError::VarintTooLong)
}

/// What a [`VarintReader`] answers to one more byte.
#[derive(Clone, Copy, Debug, PartialEq, Eq, Structural)]
pub enum VarintStep {
    /// The value is not complete: hand over the next byte.
    NeedMore,
    /// The value is complete.
    Done(i32),
    /// The bytes are no varint.
    Failed(FramingError),
}

/// The step that the bytes seen so far call for.
pub open spec fn varint_step_spec(seen: Seq<u8>) -> VarintStep {
    match decode_varint_spec(seen, 0) {
        Ok((v, _)) => VarintStep::Done(v),
        Err(FramingError::ShortRead) => VarintStep::NeedMore,
        Err(e) => VarintStep::Failed(e),
    }
}

/// Decodes a varint that arrives one byte at a time, as from a socket.
pub struct VarintReader {
    seen: Vec<u8>,
}

impl View for VarintReader {
    type V = Seq<u8>;

    /// The bytes handed over so far.
    closed spec fn view(&self) -> Seq<u8> {
        self.seen@
    }
}

impl VarintReader {
    /// A reader that has seen no byte yet.
    pub fn new() -> (r: VarintReader)
        ensures
            r@ == Seq::<u8>::empty(),
    {
        VarintReader { seen: Vec::new() }
    }

    /// Takes the next byte of the stream and says whether the value is complete.
    pub fn push(&mut self, byte: u8) -> (step: VarintStep)
        ensures
            final(self)@ == old(self)@.push(byte),
            step == varint_step_spec(final(self)@),
    {
        self.seen.push(byte);
        match decode_varint(self.seen.as_slice(), 0) {
            Ok((v, _)) => VarintStep::Done(v),
            Err(FramingError::ShortRead) => VarintStep::NeedMore,
            Err(e) => VarintStep::Failed(e),
        }
    }
}

proof fn lemma_bytes_len(n: nat, j: nat)
    requires
        1 <= j,
        n < pow128(j),
    ensures
        1 <= varint_bytes(n).len() <= j,
    decreases n,
{
    if n >= 128 {
        assert(j >= 2) by {
            reveal_with_fuel(pow128, 2);
        }
        assert(pow128(j) == 128 * pow128((j - 1) as nat));
        lemma_bytes_len(n / 128, (j - 1) as nat);
    }
}

proof fn lemma_bytes_value(n: nat)
    ensures
        varint_value(varint_bytes(n)) == n,
    decreases n,
{
    let bytes = varint_bytes(n);
    if n < 128 {
        assert(bytes.drop_first() =~= Seq::<u8>::empty());
        assert(varint_value(bytes.drop_first()) == 0);
    } else {
        assert(bytes.drop_first() =~= varint_bytes(n / 128));
        lemma_bytes_value(n / 128);
    }
}

proof fn lemma_scan_encoded(buf: Seq<u8>, at: int, k: nat, n: nat)
    requires
        0 <= at,
        k + varint_bytes(n).len() <= 5,
        at + k + varint_bytes(n).len() <= buf.len(),
        buf.subrange(at + k, at + k + varint_bytes(n).len()) == varint_bytes(n),
    ensures
        varint_scan(buf, at, k) == Ok::<nat, FramingError>(k + varint_bytes(n).len()),
    decreases n,
{
    let bytes = varint_bytes(n);
    assert(buf[at + k] == bytes[0]) by {
        assert(buf.subrange(at + k, at + k + bytes.len())[0] == buf[at + k]);
    }
    if n >= 128 {
        let tail = varint_bytes(n / 128);
        assert(bytes.len() == 1 + tail.len());
        assert(buf.subrange(at + k + 1, at + k + 1 + tail.len()) =~= tail) by {
            assert forall|i: int| 0 <= i < tail.len() implies buf[at + k + 1 + i] == tail[i] by {
                assert(buf.subrange(at + k, at + k + bytes.len())[i + 1] == buf[at + k + 1 + i]);
            }
        }
        lemma_scan_encoded(buf, at, k + 1, n / 128);
    }
}

proof fn lemma_bytes_flags(n: nat, i: int)
    requires
        0 <= i < varint_bytes(n).len(),
    ensures
        i + 1 < varint_bytes(n).len() ==> varint_bytes(n)[i] >= 128,
        i + 1 == varint_bytes(n).len() ==> varint_bytes(n)[i] < 128,
    decreases n,
{
    if n >= 128 {
        let tail = varint_bytes(n / 128);
        assert(varint_bytes(n).len() == 1 + tail.len());
        if i > 0 {
            lemma_bytes_flags(n / 128, i - 1);
            assert(varint_bytes(n)[i] == tail[i - 1]);
        }
    }
}

proof fn lemma_scan_unfinished(buf: Seq<u8>, k: nat)
    requires
        buf.len() < 5,
        k <= buf.len(),
        forall|i: int| 0 <= i < buf.len() ==> buf[i] >= 128,
    ensures
        varint_scan(buf, 0, k) == Err::<nat, FramingError>(FramingError::ShortRead),
    decreases buf.len() - k,
{
    if k < buf.len() {
        lemma_scan_unfinished(buf, k + 1);
    }
}

/// A reader that is handed the wire form of a value byte by byte asks for
/// more until the last byte, and has the value then.
pub proof fn lemma_reader_reads_encoded(v: i32, k: int)
    requires
        0 < k <= encode_varint_spec(v).len(),
    ensures
        varint_step_spec(encode_varint_spec(v).take(k)) == if k < encode_varint_spec(v).len() {
            VarintStep::NeedMore
        } else {
            VarintStep::Done(v)
        },
{
    let enc = encode_varint_spec(v);
    let seen = enc.take(k);
    lemma_encode_varint_len(v);
    if k < enc.len() {
        assert forall|i: int| 0 <= i < seen.len() implies seen[i] >= 128 by {
            lemma_bytes_flags(to_unsigned(v), i);
        }
        lemma_scan_unfinished(seen, 0);
    } else {
        lemma_varint_round_trip(Seq::empty(), v, Seq::empty());
        assert(Seq::<u8>::empty() + enc + Seq::<u8>::empty() =~= seen);
    }
}

/// Five bytes that all carry the continuation flag are no varint, whatever
/// follows them.
pub proof fn lemma_overlong_varint(buf: Seq<u8>, at: int)
    requires
        0 <= at,
        at + 5 <= buf.len(),
        forall|k: int| at <= k < at + 5 ==> buf[k] >= 128,
    ensures
        decode_varint_spec(buf, at) == Err::<(i32, int), FramingError>(FramingError::VarintTooLong),
{
    reveal_with_fuel(varint_scan, 6);
}

/// Two's complement loses nothing: the pattern of a value read back is the value.
pub proof fn lemma_signed_round_trip(v: i32)
    ensures
        to_unsigned(v) < 0x1_0000_0000,
        to_signed(to_unsigned(v)) == v,
{
}

/// A number below 2^32 takes between one and five bytes on the wire.
pub proof fn lemma_varint_bytes_len(n: nat)
    requires
        n < 0x1_0000_0000,
    ensures
        1 <= varint_bytes(n).len() <= 5,
{
    lemma_pow128_values();
    lemma_bytes_len(n, 5);
}

/// Every signed 32-bit value takes between one and five bytes on the wire.
pub proof fn lemma_encode_varint_len(v: i32)
    ensures
        1 <= encode_varint_spec(v).len() <= 5,
{
    lemma_pow128_values();
    lemma_bytes_len(to_unsigned(v), 5);
}

/// Decoding reads back what encoding wrote, wherever the encoded value stands
/// in a buffer, and stops just behind it.
pub proof fn lemma_varint_round_trip(before: Seq<u8>, v: i32, after: Seq<u8>)
    ensures
        decode_varint_spec(before + encode_varint_spec(v) + after, before.len() as int) == Ok::<
            (i32, int),
            FramingError,
        >((v, (before.len() + encode_varint_spec(v).len()) as int)),
{
    let enc = encode_varint_spec(v);
    let buf = before + enc + after;
    let at = before.len() as int;
    lemma_encode_varint_len(v);
    assert(buf.subrange(at, at + enc.len()) =~= enc);
    lemma_scan_encoded(buf, at, 0, to_unsigned(v));
    lemma_bytes_value(to_unsigned(v));
    lemma_signed_round_trip(v);
}

} // verus!
