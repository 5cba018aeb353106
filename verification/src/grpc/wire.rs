//! The protobuf wire format: numbers, fixed-width words and length-delimited data.
use vstd::prelude::*;
use crate::text::{concat2, copy_str, decimal_u64};
#[allow(unused_imports)]
use crate::text::decimal;

verus! {

/// Why a call of a service failed.
#[derive(Debug, PartialEq, Eq)]
pub enum PulseError {
    Client(String),
    GrpcStatus { code: String, message: String },
}

impl PulseError {
    /// Whether this is a failure on this side, with a message.
    pub open spec fn is_client(self, message: Seq<char>) -> bool {
        self matches PulseError::Client(m) && m@ == message
    }
}

/// A failure on this side, with a message.
pub fn client_error(message: &str) -> (e: PulseError)
    ensures
        e.is_client(message@),
{
    PulseError::Client(copy_str(message))
}

/// 2^32.
pub const WORD32: u64 = 4_294_967_296;

/// 2^64.
pub const WORD64: u128 = 18_446_744_073_709_551_616;

/// The signed number that 32 bits stand for.
pub open spec fn signed32(n: nat) -> int {
    if n < 0x8000_0000 {
        n as int
    } else {
        n - WORD32
    }
}

/// The signed number that 64 bits stand for.
pub open spec fn signed64(n: nat) -> int {
    if n < 0x8000_0000_0000_0000 {
        n as int
    } else {
        n - WORD64
    }
}

/// The 32 bits that stand for a signed number.
pub open spec fn unsigned32(n: int) -> nat {
    if n < 0 {
        (n + WORD32) as nat
    } else {
        n as nat
    }
}

/// The 64 bits that stand for a signed number.
pub open spec fn unsigned64(n: int) -> nat {
    if n < 0 {
        (n + WORD64) as nat
    } else {
        n as nat
    }
}

/// The signed number that 32 bits stand for.
pub fn to_signed32(n: u32) -> (r: i32)
    ensures
        r == signed32(n as nat),
{
    if n < 0x8000_0000 {
        n as i32
    } else {
        (n as i64 - 4_294_967_296) as i32
    }
}

/// The signed number that 64 bits stand for.
pub fn to_signed64(n: u64) -> (r: i64)
    ensures
        r == signed64(n as nat),
{
    if n < 0x8000_0000_0000_0000 {
        n as i64
    } else {
        (n as i128 - 18_446_744_073_709_551_616) as i64
    }
}

/// The 32 bits that stand for a signed number.
pub fn to_unsigned32(n: i32) -> (r: u32)
    ensures
        r == unsigned32(n as int),
{
    if n < 0 {
        (n as i64 + 4_294_967_296) as u32
    } else {
        n as u32
    }
}

/// The 64 bits that stand for a signed number.
pub fn to_unsigned64(n: i64) -> (r: u64)
    ensures
        r == unsigned64(n as int),
{
    if n < 0 {
        (n as i128 + 18_446_744_073_709_551_616) as u64
    } else {
        n as u64
    }
}

/// The low 32 bits of a number.
pub fn low32(n: u64) -> (r: u32)
    ensures
        r == n as nat % (WORD32 as nat),
{
    (n % WORD32) as u32
}

/// Reading the bits of a signed number gives the number back.
pub proof fn lemma_sign_round_trip(a: i32, b: i64)
    ensures
        signed32(unsigned32(a as int)) == a,
        signed64(unsigned64(b as int)) == b,
{
}

// ---------------------------------------------------------------------------
// Zigzag numbers
// ---------------------------------------------------------------------------

/// The zigzag form of a signed number: small for numbers near zero.
pub open spec fn zigzag(n: int) -> nat {
    if n >= 0 {
        (2 * n) as nat
    } else {
        (-2 * n - 1) as nat
    }
}

/// The signed number of a zigzag form.
pub open spec fn unzigzag(m: nat) -> int {
    if m % 2 == 0 {
        (m / 2) as int
    } else {
        -((m / 2) as int) - 1
    }
}

/// Reading the zigzag form of a number gives the number back.
pub proof fn lemma_zigzag_round_trip(n: int)
    ensures
        unzigzag(zigzag(n)) == n,
{
}

/// The zigzag form of a number.
pub fn zigzag_i32(value: i32) -> (r: u64)
    ensures
        r == zigzag(value as int),
{
    if value >= 0 {
        2 * (value as u64)
    } else {
        let wide: i64 = -(value as i64);
        (2 * wide - 1) as u64
    }
}

/// The zigzag form of a number.
pub fn zigzag_i64(value: i64) -> (r: u64)
    ensures
        r == zigzag(value as int),
{
    if value >= 0 {
        2 * (value as u64)
    } else {
        let wide: i128 = -(value as i128);
        (2 * wide - 1) as u64
    }
}

/// The number of a zigzag form, of which the low 32 bits count.
pub fn unzigzag_i32(value: u64) -> (r: i32)
    ensures
        r == unzigzag(value as nat % (WORD32 as nat)),
{
    let v: u32 = low32(value);
    if v % 2 == 0 {
        (v / 2) as i32
    } else {
        (-((v / 2) as i64) - 1) as i32
    }
}

/// The number of a zigzag form.
pub fn unzigzag_i64(value: u64) -> (r: i64)
    ensures
        r == unzigzag(value as nat),
{
    if value % 2 == 0 {
        (value / 2) as i64
    } else {
        (-((value / 2) as i128) - 1) as i64
    }
}

// ---------------------------------------------------------------------------
// Varints
// ---------------------------------------------------------------------------

/// The bytes of a number in groups of seven bits, the lowest first; all but the
/// last have their highest bit set.
pub open spec fn varint(n: nat) -> Seq<u8>
    decreases n,
{
    if n < 128 {
        seq![n as u8]
    } else {
        seq![(n % 128 + 128) as u8] + varint(n / 128)
    }
}

/// Appends the bytes of a number.
pub fn write_varint(out: &mut Vec<u8>, value: u64)
    ensures
        final(out)@ == old(out)@ + varint(value as nat),
{
    let mut rest: u64 = value;
    assert(old(out)@ + varint(value as nat) == out@ + varint(rest as nat));
    while rest >= 128
        invariant
            old(out)@ + varint(value as nat) == out@ + varint(rest as nat),
        decreases rest,
    {
        let ghost before = out@;
        let ghost was = rest as nat;
        out.push((rest % 128) as u8 + 128);
        rest = rest / 128;
        assert(before + (seq![(was % 128 + 128) as u8] + varint(was / 128)) =~= out@ + varint(
            rest as nat,
        ));
    }
    let ghost before = out@;
    out.push(rest as u8);
    assert(before + varint(rest as nat) =~= out@);
}

/// The key of a field: its number and how its value is written.
pub open spec fn key_of(field_number: u32, wire_type: u8) -> nat {
    (field_number * 8 + wire_type) as nat
}

/// Appends the key of a field.
pub fn write_key(out: &mut Vec<u8>, field_number: u32, wire_type: u8)
    requires
        wire_type < 8,
    ensures
        final(out)@ == old(out)@ + varint(key_of(field_number, wire_type)),
{
    write_varint(out, field_number as u64 * 8 + wire_type as u64)
}

/// 128 to a power.
pub open spec fn pow128(k: nat) -> nat
    decreases k,
{
    if k == 0 {
        1
    } else {
        128 * pow128((k - 1) as nat)
    }
}

/// The number of which bytes hold groups of seven bits, the lowest first.
pub open spec fn groups(bytes: Seq<u8>) -> nat
    decreases bytes.len(),
{
    if bytes.len() == 0 {
        0
    } else {
        groups(bytes.drop_last()) + (bytes.last() % 128) as nat * pow128((bytes.len() - 1) as nat)
    }
}

/// How many bytes a number takes at place `i` of the bytes, of which `k` were seen;
/// ten at most.
pub open spec fn varint_len(bytes: Seq<u8>, i: int, k: nat) -> Result<nat, Seq<char>>
    decreases 10 - k,
{
    if i + k >= bytes.len() {
        Err("unexpected end of payload while reading varint"@)
    } else if bytes[i + k] < 128 {
        Ok(k + 1)
    } else if k >= 9 {
        Err("varint too long"@)
    } else {
        varint_len(bytes, i, k + 1)
    }
}

/// The number at place `i`, of which 64 bits count, and the place behind it.
pub open spec fn varint_at(bytes: Seq<u8>, i: int) -> Result<(u64, int), Seq<char>> {
    match varint_len(bytes, i, 0) {
        Err(m) => Err(m),
        Ok(n) => Ok(((groups(bytes.subrange(i, i + n)) % (WORD64 as nat)) as u64, i + n)),
    }
}

pub(crate) proof fn lemma_pow128_values()
    ensures
        pow128(0) == 1,
        pow128(9) == 0x8000_0000_0000_0000,
{
    reveal_with_fuel(pow128, 10);
}

proof fn lemma_pow128_grows(a: nat, b: nat)
    requires
        a <= b,
    ensures
        1 <= pow128(a) <= pow128(b),
    decreases b,
{
    if a < b {
        lemma_pow128_grows(a, (b - 1) as nat);
    } else if b > 0 {
        lemma_pow128_grows((b - 1) as nat, (b - 1) as nat);
    }
}

proof fn lemma_groups_bound(bytes: Seq<u8>)
    ensures
        groups(bytes) < pow128(bytes.len()),
    decreases bytes.len(),
{
    if bytes.len() > 0 {
        lemma_groups_bound(bytes.drop_last());
        let p = pow128((bytes.len() - 1) as nat);
        let d = (bytes.last() % 128) as nat;
        assert(d * p <= 127 * p) by (nonlinear_arith)
            requires
                d <= 127,
        ;
    }
}

/// Reads the number at a place.
pub fn read_varint(bytes: &[u8], idx: usize) -> (r: Result<(u64, usize), PulseError>)
    ensures
        match r {
            Ok((value, next)) => {
                &&& varint_at(bytes@, idx as int) == Ok::<_, Seq<char>>((value, next as int))
                &&& idx < next <= bytes@.len()
            },
            Err(e) => varint_at(bytes@, idx as int) matches Err(m) && e.is_client(m),
        },
{
    let mut k: usize = 0;
    let mut weight: u128 = 1;
    let mut out: u128 = 0;
    let n: usize = bytes.len();
    assert(idx <= n ==> bytes@.subrange(idx as int, idx + 0) =~= Seq::<u8>::empty());
    loop
        invariant
            n == bytes@.len(),
            k <= 9,
            k > 0 ==> idx + k <= n,
            weight == pow128(k as nat),
            idx + k <= n ==> out == groups(bytes@.subrange(idx as int, idx + k)),
            out < weight,
            varint_len(bytes@, idx as int, k as nat) == varint_len(bytes@, idx as int, 0),
        decreases 10 - k,
    {
        if idx >= n || k >= n - idx {
            return Err(client_error("unexpected end of payload while reading varint"));
        }
        let b: u8 = bytes[idx + k];
        proof {
            lemma_pow128_values();
            lemma_pow128_grows(k as nat, 9);
            let next = bytes@.subrange(idx as int, idx + k + 1);
            assert(next.drop_last() =~= bytes@.subrange(idx as int, idx + k));
            assert(next.last() == b);
            assert((b % 128) as nat * (weight as nat) <= 127 * weight) by (nonlinear_arith)
                requires
                    b % 128 <= 127,
            ;
        }
        let group: u128 = (b % 128) as u128;
        out = out + group * weight;
        if b < 128 {
            let value: u64 = (out % WORD64) as u64;
            return Ok((value, idx + k + 1));
        }
        if k >= 9 {
            return Err(client_error("varint too long"));
        }
        k = k + 1;
        weight = weight * 128;
    }
}

proof fn lemma_one_group(bytes: Seq<u8>)
    requires
        bytes.len() == 1,
    ensures
        groups(bytes) == bytes[0] % 128,
{
    assert(bytes.drop_last() =~= Seq::<u8>::empty());
    assert(groups(Seq::<u8>::empty()) == 0);
    assert(pow128(0) == 1);
    let d = (bytes.last() % 128) as nat;
    assert(d * 1 == d) by (nonlinear_arith);
}

proof fn lemma_varint_shape(n: nat)
    ensures
        varint(n).len() >= 1,
        varint(n).last() < 128,
        forall|i: int| 0 <= i < varint(n).len() - 1 ==> #[trigger] varint(n)[i] >= 128,
        groups(varint(n)) == n,
    decreases n,
{
    if n < 128 {
        lemma_one_group(varint(n));
    } else {
        lemma_varint_shape(n / 128);
        let head = (n % 128 + 128) as u8;
        let tail = varint(n / 128);
        assert(varint(n).last() == tail.last());
        assert forall|i: int| 0 <= i < varint(n).len() - 1 implies #[trigger] varint(n)[i] >= 128 by {
            if i > 0 {
                assert(varint(n)[i] == tail[i - 1]);
            }
        }
        lemma_groups_cons(head, tail);
    }
}

pub(crate) proof fn lemma_groups_cons(head: u8, tail: Seq<u8>)
    ensures
        groups(seq![head] + tail) == (head % 128) as nat + 128 * groups(tail),
    decreases tail.len(),
{
    let all = seq![head] + tail;
    if tail.len() == 0 {
        assert(all.drop_last() =~= Seq::<u8>::empty());
        lemma_one_group(all);
    } else {
        assert(all.drop_last() =~= seq![head] + tail.drop_last());
        lemma_groups_cons(head, tail.drop_last());
        let p = pow128((tail.len() - 1) as nat);
        let d = (tail.last() % 128) as nat;
        assert(pow128((all.len() - 1) as nat) == 128 * p);
        assert(d * (128 * p) == 128 * (d * p)) by (nonlinear_arith);
    }
}

pub(crate) proof fn lemma_varint_len_bound(n: nat, k: nat)
    requires
        n < pow128(k),
        k >= 1,
    ensures
        varint(n).len() <= k,
    decreases k,
{
    if n >= 128 {
        assert(k >= 2) by {
            if k == 1 {
                assert(pow128(0) == 1);
                assert(pow128(1) == 128);
            }
        }
        lemma_varint_len_bound(n / 128, (k - 1) as nat);
    }
}

/// Reading the bytes of a number, wherever they stand, gives the number back and
/// leaves off behind them.
pub proof fn lemma_varint_round_trip(before: Seq<u8>, n: u64, after: Seq<u8>)
    ensures
        varint_at(before + varint(n as nat) + after, before.len() as int) == Ok::<_, Seq<char>>(
            (n, (before.len() + varint(n as nat).len()) as int),
        ),
{
    let all = before + varint(n as nat) + after;
    let i = before.len() as int;
    let v = varint(n as nat);
    lemma_varint_shape(n as nat);
    lemma_pow128_values();
    assert(pow128(10) == 128 * pow128(9));
    lemma_varint_len_bound(n as nat, 10);
    lemma_scan(all, i, v, 0);
    assert(all.subrange(i, i + v.len()) =~= v);
}

pub(crate) proof fn lemma_scan(all: Seq<u8>, i: int, v: Seq<u8>, k: nat)
    requires
        0 <= i,
        1 <= v.len() <= 10,
        i + v.len() <= all.len(),
        forall|j: int| 0 <= j < v.len() ==> all[i + j] == #[trigger] v[j],
        v.last() < 128,
        forall|j: int| 0 <= j < v.len() - 1 ==> #[trigger] v[j] >= 128,
        k < v.len(),
    ensures
        varint_len(all, i, k) == Ok::<nat, Seq<char>>(v.len()),
    decreases v.len() - k,
{
    assert(all[i + k] == v[k as int]);
    if k < v.len() - 1 {
        lemma_scan(all, i, v, k + 1);
    }
}

// ---------------------------------------------------------------------------
// Fixed-width words
// ---------------------------------------------------------------------------

/// The lowest bytes of a number, the lowest first.
pub open spec fn little_endian(n: nat, width: nat) -> Seq<u8>
    decreases width,
{
    if width == 0 {
        Seq::empty()
    } else {
        seq![(n % 256) as u8] + little_endian(n / 256, (width - 1) as nat)
    }
}

/// The number of which bytes are the lowest first.
pub open spec fn word(bytes: Seq<u8>) -> nat
    decreases bytes.len(),
{
    if bytes.len() == 0 {
        0
    } else {
        bytes[0] as nat + 256 * word(bytes.skip(1))
    }
}

/// Reading the bytes of a word gives the word back.
pub proof fn lemma_word_round_trip(n: nat, width: nat)
    requires
        n < pow256(width),
    ensures
        little_endian(n, width).len() == width,
        word(little_endian(n, width)) == n,
    decreases width,
{
    if width > 0 {
        assert(n / 256 < pow256((width - 1) as nat)) by (nonlinear_arith)
            requires
                n < 256 * pow256((width - 1) as nat),
        ;
        lemma_word_round_trip(n / 256, (width - 1) as nat);
        assert(little_endian(n, width).skip(1) =~= little_endian(n / 256, (width - 1) as nat));
    }
}

/// 256 to a power.
pub open spec fn pow256(k: nat) -> nat
    decreases k,
{
    if k == 0 {
        1
    } else {
        256 * pow256((k - 1) as nat)
    }
}

proof fn lemma_word_bound(bytes: Seq<u8>)
    ensures
        word(bytes) < pow256(bytes.len()),
    decreases bytes.len(),
{
    if bytes.len() > 0 {
        lemma_word_bound(bytes.skip(1));
    }
}

/// Appends the lowest bytes of a number.
fn write_little_endian(out: &mut Vec<u8>, value: u64, width: usize)
    ensures
        final(out)@ == old(out)@ + little_endian(value as nat, width as nat),
{
    let mut rest: u64 = value;
    let mut left: usize = width;
    assert(old(out)@ + little_endian(value as nat, width as nat) == out@ + little_endian(
        rest as nat,
        left as nat,
    ));
    while left > 0
        invariant
            old(out)@ + little_endian(value as nat, width as nat) == out@ + little_endian(
                rest as nat,
                left as nat,
            ),
        decreases left,
    {
        let ghost before = out@;
        let ghost was = rest as nat;
        out.push((rest % 256) as u8);
        rest = rest / 256;
        left = left - 1;
        assert(before + (seq![(was % 256) as u8] + little_endian(was / 256, left as nat)) =~= out@
            + little_endian(rest as nat, left as nat));
    }
    assert(out@ + little_endian(rest as nat, 0) =~= out@);
}

/// Appends a word of 32 bits.
pub fn write_fixed32(out: &mut Vec<u8>, value: u32)
    ensures
        final(out)@ == old(out)@ + little_endian(value as nat, 4),
{
    write_little_endian(out, value as u64, 4)
}

/// Appends a word of 64 bits.
pub fn write_fixed64(out: &mut Vec<u8>, value: u64)
    ensures
        final(out)@ == old(out)@ + little_endian(value as nat, 8),
{
    write_little_endian(out, value, 8)
}

/// The word of 32 bits at a place.
pub open spec fn fixed32_at(bytes: Seq<u8>, i: int) -> Result<(u32, int), Seq<char>> {
    if i + 4 > usize::MAX {
        Err("buffer index overflow"@)
    } else if i + 4 > bytes.len() {
        Err("buffer underflow reading fixed32"@)
    } else {
        Ok((word(bytes.subrange(i, i + 4)) as u32, i + 4))
    }
}

/// The word of 64 bits at a place.
pub open spec fn fixed64_at(bytes: Seq<u8>, i: int) -> Result<(u64, int), Seq<char>> {
    if i + 8 > usize::MAX {
        Err("buffer index overflow"@)
    } else if i + 8 > bytes.len() {
        Err("buffer underflow reading fixed64"@)
    } else {
        Ok((word(bytes.subrange(i, i + 8)) as u64, i + 8))
    }
}

/// The word of the bytes from one place to another.
fn read_word(bytes: &[u8], from: usize, to: usize) -> (value: u64)
    requires
        from <= to <= bytes@.len(),
        to - from <= 8,
    ensures
        value == word(bytes@.subrange(from as int, to as int)),
    decreases to - from,
{
    if from == to {
        return 0;
    }
    let rest: u64 = read_word(bytes, from + 1, to);
    proof {
        let all = bytes@.subrange(from as int, to as int);
        assert(all.skip(1) =~= bytes@.subrange(from + 1, to as int));
        lemma_word_bound(all.skip(1));
        reveal_with_fuel(pow256, 9);
        lemma_pow256_grows(all.skip(1).len(), 7);
    }
    bytes[from] as u64 + 256 * rest
}

proof fn lemma_pow256_grows(a: nat, b: nat)
    requires
        a <= b,
    ensures
        1 <= pow256(a) <= pow256(b),
    decreases b,
{
    if a < b {
        lemma_pow256_grows(a, (b - 1) as nat);
    } else if b > 0 {
        lemma_pow256_grows((b - 1) as nat, (b - 1) as nat);
    }
}

/// Reads the word of 32 bits at a place.
pub fn read_fixed32(bytes: &[u8], idx: usize) -> (r: Result<(u32, usize), PulseError>)
    ensures
        match r {
            Ok((value, next)) => {
                &&& fixed32_at(bytes@, idx as int) == Ok::<_, Seq<char>>((value, next as int))
                &&& idx < next <= bytes@.len()
            },
            Err(e) => fixed32_at(bytes@, idx as int) matches Err(m) && e.is_client(m),
        },
{
    if idx > usize::MAX - 4 {
        return Err(client_error("buffer index overflow"));
    }
    let end: usize = idx + 4;
    if end > bytes.len() {
        return Err(client_error("buffer underflow reading fixed32"));
    }
    let value: u64 = read_word(bytes, idx, end);
    proof {
        lemma_word_bound(bytes@.subrange(idx as int, end as int));
        reveal_with_fuel(pow256, 5);
    }
    Ok((value as u32, end))
}

/// Reads the word of 64 bits at a place.
pub fn read_fixed64(bytes: &[u8], idx: usize) -> (r: Result<(u64, usize), PulseError>)
    ensures
        match r {
            Ok((value, next)) => {
                &&& fixed64_at(bytes@, idx as int) == Ok::<_, Seq<char>>((value, next as int))
                &&& idx < next <= bytes@.len()
            },
            Err(e) => fixed64_at(bytes@, idx as int) matches Err(m) && e.is_client(m),
        },
{
    if idx > usize::MAX - 8 {
        return Err(client_error("buffer index overflow"));
    }
    let end: usize = idx + 8;
    if end > bytes.len() {
        return Err(client_error("buffer underflow reading fixed64"));
    }
    let value: u64 = read_word(bytes, idx, end);
    Ok((value, end))
}

// ---------------------------------------------------------------------------
// Length-delimited data
// ---------------------------------------------------------------------------

/// The end of so many bytes from a place on.
pub open spec fn end_after(
    bytes: Seq<u8>,
    i: int,
    n: nat,
    overflow: Seq<char>,
    beyond: Seq<char>,
) -> Result<int, Seq<char>> {
    if i + n > usize::MAX {
        Err(overflow)
    } else if i + n > bytes.len() {
        Err(beyond)
    } else {
        Ok(i + n)
    }
}

/// The end of data whose length stands at a place, and where the data begins.
pub open spec fn delimited_at(
    bytes: Seq<u8>,
    i: int,
    overflow: Seq<char>,
    beyond: Seq<char>,
) -> Result<(int, int), Seq<char>> {
    match varint_at(bytes, i) {
        Err(m) => Err(m),
        Ok((n, start)) => match end_after(
            bytes,
            start,
            n as nat % (usize::MAX as nat + 1),
            overflow,
            beyond,
        ) {
            Err(m) => Err(m),
            Ok(end) => Ok((start, end)),
        },
    }
}

/// The end of so many bytes from a place on.
fn end_of(bytes: &[u8], idx: usize, n: usize, overflow: &str, beyond: &str) -> (r: Result<
    usize,
    PulseError,
>)
    ensures
        match r {
            Ok(end) => end_after(bytes@, idx as int, n as nat, overflow@, beyond@) == Ok::<
                int,
                Seq<char>,
            >(end as int) && idx <= end <= bytes@.len(),
            Err(e) => end_after(bytes@, idx as int, n as nat, overflow@, beyond@) matches Err(m)
                && e.is_client(m),
        },
{
    if idx > usize::MAX - n {
        return Err(client_error(overflow));
    }
    let end: usize = idx + n;
    if end > bytes.len() {
        return Err(client_error(beyond));
    }
    Ok(end)
}

/// Reads a length and finds the end of the data behind it.
pub fn read_delimited(bytes: &[u8], idx: usize, overflow: &str, beyond: &str) -> (r: Result<
    (usize, usize),
    PulseError,
>)
    ensures
        match r {
            Ok((start, end)) => {
                &&& delimited_at(bytes@, idx as int, overflow@, beyond@) == Ok::<_, Seq<char>>(
                    (start as int, end as int),
                )
                &&& idx < start <= end <= bytes@.len()
            },
            Err(e) => delimited_at(bytes@, idx as int, overflow@, beyond@) matches Err(m)
                && e.is_client(m),
        },
{
    let (n, start) = read_varint(bytes, idx)?;
    let length: usize = (n as u128 % (usize::MAX as u128 + 1)) as usize;
    let end: usize = end_of(bytes, start, length, overflow, beyond)?;
    Ok((start, end))
}

/// Where the data of a length-delimited field begins and ends.
pub open spec fn data_at(bytes: Seq<u8>, i: int) -> Result<(int, int), Seq<char>> {
    delimited_at(
        bytes,
        i,
        "length-delimited overflow"@,
        "length-delimited field exceeds payload"@,
    )
}

/// Finds the data of a length-delimited field.
pub fn read_length_delimited(bytes: &[u8], idx: usize) -> (r: Result<(usize, usize), PulseError>)
    ensures
        match r {
            Ok((start, end)) => {
                &&& data_at(bytes@, idx as int) == Ok::<_, Seq<char>>((start as int, end as int))
                &&& idx < start <= end <= bytes@.len()
            },
            Err(e) => data_at(bytes@, idx as int) matches Err(m) && e.is_client(m),
        },
{
    read_delimited(
        bytes,
        idx,
        "length-delimited overflow",
        "length-delimited field exceeds payload",
    )
}

/// Length-delimited data: the length, then the bytes.
pub open spec fn delimited(data: Seq<u8>) -> Seq<u8> {
    varint(data.len()) + data
}

/// Reading length-delimited data gives the data back.
pub proof fn lemma_delimited_round_trip(before: Seq<u8>, data: Seq<u8>, after: Seq<u8>)
    requires
        before.len() + delimited(data).len() + after.len() <= usize::MAX,
    ensures
        data_at(before + delimited(data) + after, before.len() as int) matches Ok((start, end))
            && (before + delimited(data) + after).subrange(start, end) == data && end
            == before.len() + delimited(data).len(),
{
    let all = before + delimited(data) + after;
    let n = data.len() as u64;
    lemma_varint_round_trip(before, n, data + after);
    assert(before + varint(n as nat) + (data + after) =~= all);
    let start = (before.len() + varint(n as nat).len()) as int;
    let limit = usize::MAX as nat + 1;
    assert(n as nat % limit == n) by (nonlinear_arith)
        requires
            n < limit,
    ;
    assert(all.subrange(start, start + data.len()) =~= data);
}

// ---------------------------------------------------------------------------
// Unknown fields
// ---------------------------------------------------------------------------

/// The place behind a value of a kind that is not known, or why it cannot be found.
pub open spec fn skipped(wire_type: u8, bytes: Seq<u8>, i: int) -> Result<int, Seq<char>> {
    let overflow = "buffer index overflow"@;
    let beyond = "buffer underflow while decoding"@;
    if wire_type == 0 {
        match varint_at(bytes, i) {
            Err(m) => Err(m),
            Ok((_, next)) => Ok(next),
        }
    } else if wire_type == 1 {
        end_after(bytes, i, 8, overflow, beyond)
    } else if wire_type == 2 {
        match delimited_at(bytes, i, overflow, beyond) {
            Err(m) => Err(m),
            Ok((_, end)) => Ok(end),
        }
    } else if wire_type == 5 {
        end_after(bytes, i, 4, overflow, beyond)
    } else {
        Err("unsupported wire type while skipping unknown field: "@ + decimal(wire_type as nat))
    }
}

/// Skips a value of a kind that is not known.
pub fn skip_wire_value(wire_type: u8, bytes: &[u8], idx: usize) -> (r: Result<usize, PulseError>)
    ensures
        match r {
            Ok(next) => {
                &&& skipped(wire_type, bytes@, idx as int) == Ok::<int, Seq<char>>(next as int)
                &&& idx <= next <= bytes@.len()
            },
            Err(e) => skipped(wire_type, bytes@, idx as int) matches Err(m) && e.is_client(m),
        },
{
    let overflow = "buffer index overflow";
    let beyond = "buffer underflow while decoding";
    match wire_type {
        0 => {
            let (_, next) = read_varint(bytes, idx)?;
            Ok(next)
        },
        1 => end_of(bytes, idx, 8, overflow, beyond),
        2 => {
            let (_, end) = read_delimited(bytes, idx, overflow, beyond)?;
            Ok(end)
        },
        5 => end_of(bytes, idx, 4, overflow, beyond),
        _ => Err(
            PulseError::Client(
                concat2(
                    "unsupported wire type while skipping unknown field: ",
                    &decimal_u64(wire_type as u64),
                ),
            ),
        ),
    }
}

} // verus!
