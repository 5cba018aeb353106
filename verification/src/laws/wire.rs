//! Numbers, words and data as bytes of the protobuf wire format, for writing and for
//! reading each by itself.
use vstd::prelude::*;
use super::settings::{letters, reads_signed};
use super::snapshot::{lemma_parsed, reads};
use super::text::{in_digits, lemma_worth};
use crate::grpc::decode::{
    decode_packable_value, decode_single_field_value, holdable, response_view, scalar_at,
    ResponseValue, ResponseView,
};
use crate::grpc::encode::{
    encode_message, encode_packable_value, encode_single_field_value, number_bytes, number_of_value,
    scalar_wire_type, wire_type_of,
};
use crate::grpc::schema::{
    map_field_kind, messages_wf, FieldKind, FieldSchema, KindView, MessageSchema, Scalar,
};
use crate::grpc::value::{text_of_value, JsonValue};
use crate::grpc::wire::{
    delimited, groups, key_of, lemma_groups_cons, lemma_scan,
    lemma_word_round_trip, little_endian, pow128, pow256, read_delimited,
    read_fixed32, read_fixed64, read_varint, unzigzag_i32, unzigzag_i64, varint, varint_at,
    varint_len, word, write_fixed32, write_fixed64, write_key, write_varint, zigzag_i32, zigzag_i64,
    PulseError, WORD64,
};
use crate::ordered::TextMap;
use crate::text::{ascii_lower, is_digit, parsed_signed};

verus! {

// ---------------------------------------------------------------------------
// Varints
// ---------------------------------------------------------------------------

/// What groups of seven bits are worth, the lowest first.
pub open spec fn sevens(v: Seq<u8>) -> int
    decreases v.len(),
{
    if v.len() == 0 {
        0
    } else {
        v[0] as int % 128 + 128 * sevens(v.skip(1))
    }
}

/// Whether bytes are a number in groups of seven bits, the lowest first: all but the last
/// have their highest bit set.
pub open spec fn is_varint(v: Seq<u8>, n: int) -> bool {
    &&& v.len() >= 1
    &&& forall|i: int| 0 <= i < v.len() - 1 ==> #[trigger] v[i] >= 128
    &&& v[v.len() - 1] < 128
    &&& sevens(v) == n
}

/// Whether bytes are those of a number without an empty group at the end.
pub open spec fn is_short_varint(v: Seq<u8>, n: int) -> bool {
    is_varint(v, n) && (v.len() > 1 ==> v[v.len() - 1] != 0)
}

proof fn lemma_sevens(v: Seq<u8>)
    ensures
        sevens(v) == groups(v),
    decreases v.len(),
{
    if v.len() > 0 {
        lemma_sevens(v.skip(1));
        lemma_groups_cons(v[0], v.skip(1));
        assert(seq![v[0]] + v.skip(1) =~= v);
    }
}

pub(crate) proof fn lemma_varint(n: nat)
    ensures
        is_short_varint(varint(n), n as int),
    decreases n,
{
    let v = varint(n);
    if n < 128 {
        assert(v.skip(1) =~= Seq::<u8>::empty());
        assert(sevens(v.skip(1)) == 0);
    } else {
        lemma_varint(n / 128);
        let tail = varint(n / 128);
        assert(v.skip(1) =~= tail);
        assert forall|i: int| 0 <= i < v.len() - 1 implies #[trigger] v[i] >= 128 by {
            if i > 0 {
                assert(v[i] == tail[i - 1]);
            }
        }
        assert(v[v.len() - 1] == tail[tail.len() - 1]);
        if tail.len() == 1 {
            assert(tail.skip(1) =~= Seq::<u8>::empty());
            assert(sevens(tail.skip(1)) == 0);
            assert(sevens(tail) == tail[0] as int % 128);
        }
    }
}

/// Whether bytes stand at a place.
pub open spec fn stands_at(bytes: Seq<u8>, i: int, v: Seq<u8>) -> bool {
    0 <= i && i + v.len() <= bytes.len() && bytes.subrange(i, i + v.len()) == v
}

pub(crate) proof fn lemma_varint_read(bytes: Seq<u8>, i: int, v: Seq<u8>, n: int)
    requires
        stands_at(bytes, i, v),
        is_varint(v, n),
        v.len() <= 10,
    ensures
        varint_at(bytes, i) == Ok::<_, Seq<char>>(
            ((n as nat % (WORD64 as nat)) as u64, i + v.len()),
        ),
        n >= 0,
{
    lemma_sevens(v);
    assert forall|j: int| 0 <= j < v.len() implies bytes[i + j] == #[trigger] v[j] by {
        assert(bytes.subrange(i, i + v.len())[j] == v[j]);
    }
    lemma_scan(bytes, i, v, 0);
}

/// A number is written in its groups of seven bits, behind what was there.
pub proof fn law_write_varint(out: &mut Vec<u8>, value: u64, r: ())
    requires
        call_ensures(write_varint, (out, value), r),
    ensures
        exists|v: Seq<u8>| #[trigger]
            is_short_varint(v, value as int) && final(out)@ == old(out)@ + v,
{
    lemma_varint(value as nat);
}

/// The key of a field is its number times eight and the way in which its value is written.
pub proof fn law_write_key(out: &mut Vec<u8>, number: u32, wire_type: u8, r: ())
    requires
        wire_type < 8,
        call_ensures(write_key, (out, number, wire_type), r),
    ensures
        exists|v: Seq<u8>| #[trigger]
            is_short_varint(v, number * 8 + wire_type) && final(out)@ == old(out)@ + v,
{
    lemma_varint(key_of(number, wire_type));
}

/// Whatever number of 64 bits stands at a place is read, with the place behind it.
pub proof fn law_read_varint(
    bytes: &[u8],
    idx: usize,
    v: Seq<u8>,
    n: int,
    r: Result<(u64, usize), PulseError>,
)
    requires
        call_ensures(read_varint, (bytes, idx), r),
        stands_at(bytes@, idx as int, v),
        is_varint(v, n),
        v.len() <= 10,
        n <= 18_446_744_073_709_551_615,
    ensures
        r matches Ok((value, next)) && value == n && next == idx + v.len(),
{
    lemma_varint_read(bytes@, idx as int, v, n);
}

proof fn lemma_scanned(bytes: Seq<u8>, i: int, k: nat)
    requires
        k <= 9,
    ensures
        match varint_len(bytes, i, k) {
            Ok(n) => {
                &&& k < n <= 10
                &&& i + n <= bytes.len()
                &&& forall|j: int| i + k <= j < i + n - 1 ==> #[trigger] bytes[j] >= 128
                &&& bytes[i + n - 1] < 128
            },
            Err(m) => {
                &&& forall|j: int|
                    i + k <= j < i + 10 && j < bytes.len() ==> #[trigger] bytes[j] >= 128
                &&& m == if bytes.len() < i + 10 {
                    "unexpected end of payload while reading varint"@
                } else {
                    "varint too long"@
                }
            },
        },
    decreases 10 - k,
{
    if i + k < bytes.len() && bytes[i + k] >= 128 && k < 9 {
        lemma_scanned(bytes, i, k + 1);
    }
}

/// No number is read but one that stands there in ten bytes at most; where none ends within
/// them, the bytes are too few or it is too long.
pub proof fn law_read_varint_is_bounded(
    bytes: &[u8],
    idx: usize,
    r: Result<(u64, usize), PulseError>,
)
    requires
        call_ensures(read_varint, (bytes, idx), r),
    ensures
        r matches Ok((value, next)) ==> {
            &&& idx < next <= bytes@.len()
            &&& next <= idx + 10
            &&& exists|n: int| #[trigger]
                is_varint(bytes@.subrange(idx as int, next as int), n) && value == n
                    % 18_446_744_073_709_551_616
        },
        r matches Err(e) ==> {
            &&& forall|j: int| idx <= j < idx + 10 && j < bytes@.len() ==> #[trigger] bytes@[j] >= 128
            &&& e matches PulseError::Client(m) && m@ == if bytes@.len() < idx + 10 {
                "unexpected end of payload while reading varint"@
            } else {
                "varint too long"@
            }
        },
{
    lemma_scanned(bytes@, idx as int, 0);
    if let Ok((value, next)) = r {
        let v = bytes@.subrange(idx as int, next as int);
        lemma_sevens(v);
        assert forall|i: int| 0 <= i < v.len() - 1 implies #[trigger] v[i] >= 128 by {
            assert(bytes@[idx + i] >= 128);
        }
        assert(is_varint(v, sevens(v)));
    }
}

/// Data are found behind their length, where they end within the bytes.
pub proof fn law_read_delimited(
    bytes: &[u8],
    idx: usize,
    overflow: &str,
    beyond: &str,
    n: Result<(u64, usize), PulseError>,
    r: Result<(usize, usize), PulseError>,
)
    requires
        call_ensures(read_varint, (bytes, idx), n),
        call_ensures(read_delimited, (bytes, idx, overflow, beyond), r),
    ensures
        n matches Ok((length, start)) ==> length <= usize::MAX ==> {
            &&& start + length <= bytes@.len() ==> (r matches Ok((from, to)) && from == start && to
                == start + length)
            &&& start + length > bytes@.len() ==> (r matches Err(PulseError::Client(m)) && m@ == if start
                + length > usize::MAX {
                overflow@
            } else {
                beyond@
            })
        },
        n matches Err(PulseError::Client(m)) ==> (r matches Err(PulseError::Client(k)) && k@ == m@),
{
    assert(bytes.len() == bytes@.len());
    if let Ok((length, start)) = n {
        if length <= usize::MAX {
            vstd::arithmetic::div_mod::lemma_small_mod(length as nat, usize::MAX as nat + 1);
        }
    }
}

// ---------------------------------------------------------------------------
// Words
// ---------------------------------------------------------------------------

/// What bytes are worth, the lowest first.
pub open spec fn eights(v: Seq<u8>) -> int
    decreases v.len(),
{
    if v.len() == 0 {
        0
    } else {
        v[0] as int + 256 * eights(v.skip(1))
    }
}

proof fn lemma_eights(v: Seq<u8>)
    ensures
        eights(v) == word(v),
    decreases v.len(),
{
    if v.len() > 0 {
        lemma_eights(v.skip(1));
    }
}

proof fn lemma_word(n: nat, width: nat)
    requires
        n < pow256(width),
    ensures
        little_endian(n, width).len() == width,
        eights(little_endian(n, width)) == n,
{
    lemma_word_round_trip(n, width);
    lemma_eights(little_endian(n, width));
}

/// Words are written in 4 or 8 bytes, the lowest first.
pub proof fn law_write_words(
    out: &mut Vec<u8>,
    value: u32,
    r: (),
    more: &mut Vec<u8>,
    long: u64,
    s: (),
)
    requires
        call_ensures(write_fixed32, (out, value), r),
        call_ensures(write_fixed64, (more, long), s),
    ensures
        exists|v: Seq<u8>|
            v.len() == 4 && #[trigger] eights(v) == value && final(out)@ == old(out)@ + v,
        exists|v: Seq<u8>|
            v.len() == 8 && #[trigger] eights(v) == long && final(more)@ == old(more)@ + v,
{
    reveal_with_fuel(pow256, 9);
    lemma_word(value as nat, 4);
    lemma_word(long as nat, 8);
    assert(eights(little_endian(value as nat, 4)) == value);
    assert(eights(little_endian(long as nat, 8)) == long);
}

/// Words are read from 4 or 8 bytes, the lowest first.
pub proof fn law_read_words(
    bytes: &[u8],
    idx: usize,
    v: Seq<u8>,
    r: Result<(u32, usize), PulseError>,
    s: Result<(u64, usize), PulseError>,
)
    requires
        call_ensures(read_fixed32, (bytes, idx), r),
        call_ensures(read_fixed64, (bytes, idx), s),
        stands_at(bytes@, idx as int, v),
        idx + v.len() <= usize::MAX,
    ensures
        v.len() == 4 ==> (r matches Ok((value, next)) && value as int % 4_294_967_296 == eights(v)
            % 4_294_967_296 && next == idx + 4),
        v.len() == 8 ==> (s matches Ok((value, next)) && value as int % 18_446_744_073_709_551_616
            == eights(v) % 18_446_744_073_709_551_616 && next == idx + 8),
        idx + 4 > bytes@.len() ==> r is Err,
        idx + 8 > bytes@.len() ==> s is Err,
{
    lemma_eights(v);
    if v.len() == 4 {
        assert(bytes@.subrange(idx as int, idx + 4) == v);
        lemma_word_size(v);
    }
    if v.len() == 8 {
        assert(bytes@.subrange(idx as int, idx + 8) == v);
        lemma_word_size(v);
    }
}

proof fn lemma_word_below(v: Seq<u8>)
    ensures
        word(v) < pow256(v.len()),
    decreases v.len(),
{
    if v.len() > 0 {
        lemma_word_below(v.skip(1));
    }
}

proof fn lemma_word_size(v: Seq<u8>)
    ensures
        v.len() == 4 ==> word(v) <= u32::MAX,
        v.len() == 8 ==> word(v) <= u64::MAX,
{
    lemma_word_below(v);
    reveal_with_fuel(pow256, 9);
}

// ---------------------------------------------------------------------------
// Scalars
// ---------------------------------------------------------------------------

/// How the values of a kind are written: 0 in groups of seven bits, 1 in 8 bytes, 5 in 4
/// bytes.
pub open spec fn way(kind: Scalar) -> int {
    match kind {
        Scalar::Double => 1,
        Scalar::Fixed64 => 1,
        Scalar::SFixed64 => 1,
        Scalar::Float => 5,
        Scalar::Fixed32 => 5,
        Scalar::SFixed32 => 5,
        Scalar::Int64 => 0,
        Scalar::UInt64 => 0,
        Scalar::Int32 => 0,
        Scalar::Bool => 0,
        Scalar::UInt32 => 0,
        Scalar::Enum => 0,
        Scalar::SInt32 => 0,
        Scalar::SInt64 => 0,
    }
}

/// Each kind is written in its way.
pub proof fn law_scalar_wire_type(kind: Scalar, w: u8)
    requires
        call_ensures(scalar_wire_type, (kind,), w),
    ensures
        w == way(kind),
{
}

/// Whether a number is one of those that a kind can hold.
pub open spec fn fits(kind: Scalar, n: int) -> bool {
    match kind {
        Scalar::Int32 => -2_147_483_648 <= n <= 2_147_483_647,
        Scalar::Enum => -2_147_483_648 <= n <= 2_147_483_647,
        Scalar::SFixed32 => -2_147_483_648 <= n <= 2_147_483_647,
        Scalar::SInt32 => -2_147_483_648 <= n <= 2_147_483_647,
        Scalar::Int64 => -9_223_372_036_854_775_808 <= n <= 9_223_372_036_854_775_807,
        Scalar::SFixed64 => -9_223_372_036_854_775_808 <= n <= 9_223_372_036_854_775_807,
        Scalar::SInt64 => -9_223_372_036_854_775_808 <= n <= 9_223_372_036_854_775_807,
        Scalar::UInt32 => 0 <= n <= 4_294_967_295,
        Scalar::Fixed32 => 0 <= n <= 4_294_967_295,
        Scalar::UInt64 => 0 <= n <= 18_446_744_073_709_551_615,
        Scalar::Fixed64 => 0 <= n <= 18_446_744_073_709_551_615,
        Scalar::Bool => 0 <= n <= 1,
        Scalar::Double => 0 <= n <= 18_446_744_073_709_551_615,
        Scalar::Float => 0 <= n <= 4_294_967_295,
    }
}

/// Whether a kind takes a number from a value: a number itself or one in digits, a flag as
/// 1 or 0, a floating-point number by its bits. What it takes fits.
pub open spec fn takes(kind: Scalar, value: JsonValue, n: int) -> bool {
    &&& fits(kind, n)
    &&& match kind {
        Scalar::Double => match value {
            JsonValue::Number { double, .. } => double matches Some(bits) && n == bits,
            JsonValue::Text { double, .. } => double matches Some(bits) && n == bits,
            _ => false,
        },
        Scalar::Float => match value {
            JsonValue::Number { single, .. } => single matches Some(bits) && n == bits,
            JsonValue::Text { single, .. } => single matches Some(bits) && n == bits,
            _ => false,
        },
        Scalar::Bool => match value {
            JsonValue::Bool(b) => n == (if b {
                1int
            } else {
                0int
            }),
            JsonValue::Text { text, .. } => {
                ||| n == 1 && letters(text@, seq!['t', 'r', 'u', 'e'])
                ||| n == 0 && letters(text@, seq!['f', 'a', 'l', 's', 'e'])
            },
            _ => false,
        },
        _ => match value {
            JsonValue::Number { whole, .. } => whole matches Some(w) && n == w,
            JsonValue::Text { text, .. } => if kind is UInt32 || kind is UInt64 || kind is Fixed32
                || kind is Fixed64 {
                reads(text@, n)
            } else {
                reads_signed(text@, n)
            },
            _ => false,
        },
    }
}

/// Whether bytes are a number as a kind writes it. A number that is not negative is
/// written as itself, but for the two kinds that fold the signs together.
pub open spec fn written(kind: Scalar, n: int, v: Seq<u8>) -> bool {
    match kind {
        Scalar::UInt32 => is_short_varint(v, n),
        Scalar::UInt64 => is_short_varint(v, n),
        Scalar::Bool => is_short_varint(v, n),
        Scalar::Int32 => is_short_varint(v, if n >= 0 {
            n
        } else {
            n + 4_294_967_296
        }),
        Scalar::Enum => is_short_varint(v, if n >= 0 {
            n
        } else {
            n + 4_294_967_296
        }),
        Scalar::Int64 => is_short_varint(v, if n >= 0 {
            n
        } else {
            n + 18_446_744_073_709_551_616
        }),
        Scalar::SInt32 => is_short_varint(v, if n >= 0 {
            2 * n
        } else {
            -2 * n - 1
        }),
        Scalar::SInt64 => is_short_varint(v, if n >= 0 {
            2 * n
        } else {
            -2 * n - 1
        }),
        Scalar::Fixed32 => v.len() == 4 && eights(v) == n,
        Scalar::Float => v.len() == 4 && eights(v) == n,
        Scalar::SFixed32 => v.len() == 4 && eights(v) == (if n >= 0 {
            n
        } else {
            n + 4_294_967_296
        }),
        Scalar::Fixed64 => v.len() == 8 && eights(v) == n,
        Scalar::Double => v.len() == 8 && eights(v) == n,
        Scalar::SFixed64 => v.len() == 8 && eights(v) == (if n >= 0 {
            n
        } else {
            n + 18_446_744_073_709_551_616
        }),
    }
}

pub(crate) proof fn lemma_number_bytes(kind: Scalar, n: int)
    requires
        fits(kind, n),
    ensures
        written(kind, n, number_bytes(kind, n)),
{
    reveal_with_fuel(pow256, 9);
    let m32 = (n + 4_294_967_296) as nat;
    let m64 = (n + 18_446_744_073_709_551_616) as nat;
    match kind {
        Scalar::Double | Scalar::Fixed64 => lemma_word(n as nat, 8),
        Scalar::Float | Scalar::Fixed32 => lemma_word(n as nat, 4),
        Scalar::SFixed32 => if n >= 0 {
            lemma_word(n as nat, 4)
        } else {
            lemma_word(m32, 4)
        },
        Scalar::SFixed64 => if n >= 0 {
            lemma_word(n as nat, 8)
        } else {
            lemma_word(m64, 8)
        },
        Scalar::SInt32 | Scalar::SInt64 => if n >= 0 {
            lemma_varint((2 * n) as nat)
        } else {
            lemma_varint((-2 * n - 1) as nat)
        },
        Scalar::Int32 | Scalar::Enum => if n >= 0 {
            lemma_varint(n as nat)
        } else {
            lemma_varint(m32)
        },
        Scalar::Int64 => if n >= 0 {
            lemma_varint(n as nat)
        } else {
            lemma_varint(m64)
        },
        _ => lemma_varint(n as nat),
    }
}

pub(crate) proof fn lemma_signed_text(text: Seq<char>, min: int, max: int)
    requires
        min <= 0 <= max,
    ensures
        forall|n: int| #[trigger]
            reads_signed(text, n) && min <= n <= max ==> parsed_signed(text, min, max) == Some(n),
        parsed_signed(text, min, max) matches Some(n) ==> reads_signed(text, n) && min <= n <= max,
{
    lemma_parsed(text, max as nat);
    if text.len() > 0 && text[0] == '-' {
        let digits = text.skip(1);
        if parsed_signed(text, min, max) is Some {
            assert forall|i: int| 0 <= i < digits.len() implies 48 <= (#[trigger] digits[i]) as int
                <= 57 by {
                assert(is_digit(digits[i]));
            }
            lemma_worth(digits);
        }
        assert forall|n: int| #[trigger] reads_signed(text, n) && min <= n
            <= max implies parsed_signed(text, min, max) == Some(n) by {
            assert(!in_digits(text)) by {
                if in_digits(text) {
                    assert(text[0] as int >= 48);
                }
            }
            lemma_worth(digits);
            assert forall|i: int| 0 <= i < digits.len() implies is_digit(#[trigger] digits[i]) by {}
        }
    } else {
        assert forall|n: int| #[trigger] reads_signed(text, n) && min <= n
            <= max implies parsed_signed(text, min, max) == Some(n) by {
            assert(reads(text, n));
        }
    }
}

proof fn lemma_flag_words(text: Seq<char>)
    ensures
        letters(text, seq!['t', 'r', 'u', 'e']) <==> ascii_lower(text) == ascii_lower("true"@),
        letters(text, seq!['f', 'a', 'l', 's', 'e']) <==> ascii_lower(text) == ascii_lower("false"@),
{
    reveal_strlit("true");
    reveal_strlit("false");
    assert(ascii_lower("true"@) =~= seq!['t', 'r', 'u', 'e']);
    assert(ascii_lower("false"@) =~= seq!['f', 'a', 'l', 's', 'e']);
    super::settings::lemma_letters(text, seq!['t', 'r', 'u', 'e']);
    super::settings::lemma_letters(text, seq!['f', 'a', 'l', 's', 'e']);
}

pub(crate) proof fn lemma_takes(kind: Scalar, value: JsonValue)
    ensures
        number_of_value(kind, value) matches Ok(n) ==> takes(kind, value, n),
        forall|n: int| #[trigger]
            takes(kind, value, n) ==> number_of_value(kind, value) == Ok::<_, Seq<char>>(n),
{
    if value is Text {
        let text = value->Text_text@;
        lemma_signed_text(text, i32::MIN as int, i32::MAX as int);
        lemma_signed_text(text, i64::MIN as int, i64::MAX as int);
        lemma_parsed(text, u32::MAX as nat);
        lemma_parsed(text, u64::MAX as nat);
        lemma_flag_words(text);
    }
}

/// Whether what a kind takes from a value was appended to bytes, as the kind writes it.
pub open spec fn value_added(
    kind: Scalar,
    value: JsonValue,
    before: Seq<u8>,
    after: Seq<u8>,
) -> bool {
    exists|n: int, v: Seq<u8>|
        #![trigger takes(kind, value, n), written(kind, n, v)]
        takes(kind, value, n) && written(kind, n, v) && after == before + v
}

/// A value is written where its kind can take a number from it, and then as the kind
/// writes that number.
pub proof fn law_encode_value(
    kind: Scalar,
    value: JsonValue,
    out: &mut Vec<u8>,
    r: Result<(), PulseError>,
)
    requires
        call_ensures(encode_packable_value, (kind, &value, out), r),
    ensures
        r is Ok <==> exists|n: int| takes(kind, value, n),
        r is Ok ==> value_added(kind, value, old(out)@, final(out)@),
{
    lemma_takes(kind, value);
    if r is Ok {
        let n = number_of_value(kind, value)->Ok_0;
        assert(takes(kind, value, n));
        lemma_number_bytes(kind, n);
        assert(written(kind, n, number_bytes(kind, n)));
    }
}

/// A number from 0 to 2^31 - 1 of an enumeration, and of every kind that is not folded, is
/// written in the groups of seven bits of the number itself.
pub proof fn law_small_numbers_are_written_as_they_are(
    kind: Scalar,
    value: JsonValue,
    n: int,
    out: &mut Vec<u8>,
    r: Result<(), PulseError>,
)
    requires
        kind is Enum || kind is Int32 || kind is Int64 || kind is UInt32 || kind is UInt64,
        value matches JsonValue::Number { whole, .. } && whole matches Some(w) && w == n,
        0 <= n <= 2_147_483_647,
        call_ensures(encode_packable_value, (kind, &value, out), r),
    ensures
        r is Ok,
        exists|v: Seq<u8>| #[trigger] is_short_varint(v, n) && final(out)@ == old(out)@ + v,
{
    lemma_takes(kind, value);
    assert(takes(kind, value, n));
    lemma_number_bytes(kind, n);
    assert(is_short_varint(number_bytes(kind, n), n));
}

/// Whether a value of a response is what a number stands for in a kind: of 32 bits or of
/// 64, signed or not, folded or not.
pub open spec fn stands_for(kind: Scalar, m: int, value: ResponseView) -> bool {
    let low = m % 4_294_967_296;
    match kind {
        Scalar::Bool => value == ResponseView::Bool(m != 0),
        Scalar::UInt32 => value matches ResponseView::UInt(n) && n == low,
        Scalar::Fixed32 => value matches ResponseView::UInt(n) && n == low,
        Scalar::UInt64 => value matches ResponseView::UInt(n) && n == m,
        Scalar::Fixed64 => value matches ResponseView::UInt(n) && n == m,
        Scalar::Enum => value matches ResponseView::Int(n) && n == (if low <= 2_147_483_647 {
            low
        } else {
            low - 4_294_967_296
        }),
        Scalar::Int32 => value matches ResponseView::Int(n) && n == (if low <= 2_147_483_647 {
            low
        } else {
            low - 4_294_967_296
        }),
        Scalar::SFixed32 => value matches ResponseView::Int(n) && n == (if low <= 2_147_483_647 {
            low
        } else {
            low - 4_294_967_296
        }),
        Scalar::Int64 => value matches ResponseView::Int(n) && n == (if m
            <= 9_223_372_036_854_775_807 {
            m
        } else {
            m - 18_446_744_073_709_551_616
        }),
        Scalar::SFixed64 => value matches ResponseView::Int(n) && n == (if m
            <= 9_223_372_036_854_775_807 {
            m
        } else {
            m - 18_446_744_073_709_551_616
        }),
        Scalar::SInt32 => value matches ResponseView::Int(n) && (if n >= 0 {
            low == 2 * n
        } else {
            low == -2 * n - 1
        }),
        Scalar::SInt64 => value matches ResponseView::Int(n) && (if n >= 0 {
            m == 2 * n
        } else {
            m == -2 * n - 1
        }),
        Scalar::Double => value matches ResponseView::Double(bits) && bits == m,
        Scalar::Float => value matches ResponseView::Single(bits) && bits == m,
    }
}

/// Whether the bytes at a place are a number of 64 bits in the way of a kind.
pub open spec fn number_at(kind: Scalar, bytes: Seq<u8>, i: int, v: Seq<u8>, m: int) -> bool {
    &&& stands_at(bytes, i, v)
    &&& 0 <= m <= 18_446_744_073_709_551_615
    &&& i + v.len() <= usize::MAX
    &&& if way(kind) == 0 {
        is_varint(v, m) && v.len() <= 10
    } else if way(kind) == 1 {
        v.len() == 8 && eights(v) == m
    } else {
        v.len() == 4 && eights(v) == m
    }
}

/// Whether bits are no floating-point number: those of an infinite or an undefined one.
pub open spec fn no_number(kind: Scalar, m: int) -> bool {
    ||| kind is Double && m / 4_503_599_627_370_496 % 2048 == 2047
    ||| kind is Float && m / 8_388_608 % 256 == 255
}

pub(crate) proof fn lemma_scalar_read(kind: Scalar, bytes: Seq<u8>, i: int, v: Seq<u8>, m: int)
    requires
        number_at(kind, bytes, i, v, m),
        !no_number(kind, m),
    ensures
        scalar_at(kind, bytes, i) matches Ok((value, next)) && stands_for(kind, m, value) && next
            == i + v.len(),
{
    if way(kind) == 0 {
        lemma_varint_read(bytes, i, v, m);
    } else {
        lemma_eights(v);
        lemma_word_size(v);
    }
}

/// Whatever number stands at a place is read for what it stands for in the kind, whoever
/// wrote it; infinite and undefined numbers are refused.
pub proof fn law_decode_value(
    kind: Scalar,
    bytes: &[u8],
    idx: usize,
    v: Seq<u8>,
    m: int,
    r: Result<(ResponseValue, usize), PulseError>,
)
    requires
        call_ensures(decode_packable_value, (kind, bytes, idx), r),
        number_at(kind, bytes@, idx as int, v, m),
    ensures
        !no_number(kind, m) ==> (r matches Ok((value, next)) && stands_for(
            kind,
            m,
            response_view(value),
        ) && next == idx + v.len()),
        no_number(kind, m) ==> r is Err,
{
    if no_number(kind, m) {
        lemma_eights(v);
        lemma_word_size(v);
        assert(bytes@.subrange(idx as int, idx + v.len()) == v);
    } else {
        lemma_scalar_read(kind, bytes@, idx as int, v, m);
    }
}

/// The number that stands at a place in the groups of seven bits is the value of an
/// enumeration, where it is not larger than 2^31 - 1.
pub proof fn law_small_numbers_are_read_as_they_are(
    kind: Scalar,
    bytes: &[u8],
    idx: usize,
    v: Seq<u8>,
    n: int,
    r: Result<(ResponseValue, usize), PulseError>,
)
    requires
        kind is Enum || kind is Int32 || kind is Int64,
        call_ensures(decode_packable_value, (kind, bytes, idx), r),
        stands_at(bytes@, idx as int, v),
        is_varint(v, n),
        v.len() <= 10,
        idx + v.len() <= usize::MAX,
        0 <= n <= 2_147_483_647,
    ensures
        r matches Ok((value, next)) && value == ResponseValue::Int(n as i64) && next == idx
            + v.len(),
{
    lemma_scalar_read(kind, bytes@, idx as int, v, n);
}

/// The folded form of a number is twice it, or where it is negative one less than twice
/// its absolute value; unfolding gives it back.
pub proof fn law_zigzag(a: i32, b: i64, x: u64, y: u64, c: i32, d: i64)
    requires
        call_ensures(zigzag_i32, (a,), x),
        call_ensures(zigzag_i64, (b,), y),
        call_ensures(unzigzag_i32, (x,), c),
        call_ensures(unzigzag_i64, (y,), d),
    ensures
        a >= 0 ==> x == 2 * a,
        a < 0 ==> x == -2 * a - 1,
        b >= 0 ==> y == 2 * b,
        b < 0 ==> y == -2 * b - 1,
        c == a,
        d == b,
{
}

// ---------------------------------------------------------------------------
// Fields
// ---------------------------------------------------------------------------

/// Whether bytes are a key: the number of a field and the way of its value.
pub open spec fn is_key(k: Seq<u8>, number: u32, w: int) -> bool {
    is_short_varint(k, number * 8 + w)
}

/// Whether bytes are data behind their length.
pub open spec fn is_data(d: Seq<u8>, data: Seq<u8>) -> bool {
    exists|l: Seq<u8>| #[trigger] is_short_varint(l, data.len() as int) && d == l + data
}

pub(crate) proof fn lemma_data(data: Seq<u8>)
    ensures
        is_data(delimited(data), data),
{
    lemma_varint(data.len());
    assert(delimited(data) == varint(data.len()) + data);
}

/// A field of one number is its key and the number as its kind writes it; its key says in
/// which way.
pub proof fn law_encode_scalar_field(
    field: FieldSchema,
    kind: Scalar,
    value: JsonValue,
    messages: TextMap<MessageSchema>,
    out: &mut Vec<u8>,
    r: Result<(), PulseError>,
)
    requires
        messages_wf(messages),
        field.kind == FieldKind::Scalar(kind),
        call_ensures(encode_single_field_value, (&field, &value, &messages, out), r),
    ensures
        r is Ok <==> exists|n: int| takes(kind, value, n),
        r is Ok ==> exists|k: Seq<u8>| #[trigger]
            is_key(k, field.number, way(kind)) && value_added(
                kind,
                value,
                old(out)@ + k,
                final(out)@,
            ),
{
    lemma_takes(kind, value);
    assert(field@.kind == KindView::Scalar(kind));
    if r is Ok {
        let n = number_of_value(kind, value)->Ok_0;
        assert(takes(kind, value, n));
        lemma_number_bytes(kind, n);
        let k = varint(key_of(field.number, wire_type_of(kind)));
        let v = number_bytes(kind, n);
        lemma_varint(key_of(field.number, wire_type_of(kind)));
        assert(written(kind, n, v));
        assert(old(out)@ + k + v =~= old(out)@ + (k + v));
        assert(is_key(k, field.number, way(kind)));
        assert(value_added(kind, value, old(out)@ + k, final(out)@));
    }
}

/// A field of one text is its key, in the way of data, and the length and the UTF-8 bytes
/// of the text; a number and a flag are texts in words, and other values are refused.
pub proof fn law_encode_text_field(
    field: FieldSchema,
    value: JsonValue,
    messages: TextMap<MessageSchema>,
    out: &mut Vec<u8>,
    r: Result<(), PulseError>,
)
    requires
        messages_wf(messages),
        field.kind is Text,
        call_ensures(encode_single_field_value, (&field, &value, &messages, out), r),
    ensures
        r is Ok <==> value is Text || value is Number || value is Bool,
        r is Ok ==> exists|text: Seq<char>, k: Seq<u8>, d: Seq<u8>|
            #![trigger in_words(value, text), is_key(k, field.number, 2), is_data(
                d,
                vstd::utf8::encode_utf8(text),
            )]
            in_words(value, text) && is_key(k, field.number, 2) && is_data(
                d,
                vstd::utf8::encode_utf8(text),
            ) && final(out)@ == old(out)@ + (k + d),
{
    assert(field@.kind == KindView::Text);
    if r is Ok {
        let text = text_of_value(value)->Ok_0;
        lemma_varint(key_of(field.number, 2));
        lemma_data(vstd::utf8::encode_utf8(text));
        assert(in_words(value, text));
        assert(is_key(varint(key_of(field.number, 2)), field.number, 2));
        assert(is_data(delimited(vstd::utf8::encode_utf8(text)), vstd::utf8::encode_utf8(text)));
    }
}

/// Whether a text is a value in words.
pub open spec fn in_words(value: JsonValue, text: Seq<char>) -> bool {
    match value {
        JsonValue::Text { text: t, .. } => text == t@,
        JsonValue::Number { text: t, .. } => text == t@,
        JsonValue::Bool(b) => text == (if b {
            seq!['t', 'r', 'u', 'e']
        } else {
            seq!['f', 'a', 'l', 's', 'e']
        }) || text == (if b {
            "true"@
        } else {
            "false"@
        }),
        _ => false,
    }
}

/// A field of one message is its key, in the way of data, and the length and the bytes of
/// the message.
pub proof fn law_encode_message_field(
    field: FieldSchema,
    value: JsonValue,
    messages: TextMap<MessageSchema>,
    name: &str,
    inner: Result<Vec<u8>, PulseError>,
    out: &mut Vec<u8>,
    r: Result<(), PulseError>,
)
    requires
        messages_wf(messages),
        field.kind matches FieldKind::Message(m) && m@ == name@,
        call_ensures(encode_message, (name, &value, &messages), inner),
        call_ensures(encode_single_field_value, (&field, &value, &messages, out), r),
    ensures
        r is Ok <==> inner is Ok,
        r is Ok ==> exists|k: Seq<u8>, d: Seq<u8>|
            #![trigger is_key(k, field.number, 2), is_data(d, inner->Ok_0@)]
            is_key(k, field.number, 2) && is_data(d, inner->Ok_0@) && final(out)@ == old(out)@ + (k
                + d),
{
    assert(field@.kind == KindView::Message(name@));
    if r is Ok {
        let bytes = inner->Ok_0@;
        lemma_varint(key_of(field.number, 2));
        lemma_data(bytes);
        assert(is_key(varint(key_of(field.number, 2)), field.number, 2));
        assert(is_data(delimited(bytes), bytes));
    }
}

/// One number of a field is read for what it stands for, whoever wrote it, where it comes
/// in the way of its kind; in every other way it is refused.
pub proof fn law_decode_scalar_field(
    field: FieldSchema,
    kind: Scalar,
    w: u8,
    bytes: &[u8],
    idx: usize,
    messages: TextMap<MessageSchema>,
    v: Seq<u8>,
    m: int,
    r: Result<(ResponseValue, usize), PulseError>,
)
    requires
        messages_wf(messages),
        holdable(bytes@),
        field.kind == FieldKind::Scalar(kind),
        call_ensures(decode_single_field_value, (&field, w, bytes, idx, &messages), r),
        number_at(kind, bytes@, idx as int, v, m),
        !no_number(kind, m),
    ensures
        w == way(kind) ==> (r matches Ok((value, next)) && stands_for(
            kind,
            m,
            response_view(value),
        ) && next == idx + v.len()),
        w != way(kind) ==> r is Err,
{
    assert(field@.kind == KindView::Scalar(kind));
    if w == way(kind) {
        lemma_scalar_read(kind, bytes@, idx as int, v, m);
        crate::grpc::decode::lemma_scalar_local(kind, bytes@, idx as int);
    }
}

/// A field has the kind that its description numbers: 1 to 8 and 13 to 18 are numbers and
/// flags, 9 is a text, 11 a message, 12 bytes; the others are none.
pub proof fn law_field_kinds(code: i32, type_ref: &str, r: Option<FieldKind>)
    requires
        call_ensures(map_field_kind, (code, type_ref), r),
    ensures
        code == 1 <==> r is Some && r->0 == FieldKind::Scalar(Scalar::Double),
        code == 2 <==> r is Some && r->0 == FieldKind::Scalar(Scalar::Float),
        code == 3 <==> r is Some && r->0 == FieldKind::Scalar(Scalar::Int64),
        code == 4 <==> r is Some && r->0 == FieldKind::Scalar(Scalar::UInt64),
        code == 5 <==> r is Some && r->0 == FieldKind::Scalar(Scalar::Int32),
        code == 6 <==> r is Some && r->0 == FieldKind::Scalar(Scalar::Fixed64),
        code == 7 <==> r is Some && r->0 == FieldKind::Scalar(Scalar::Fixed32),
        code == 8 <==> r is Some && r->0 == FieldKind::Scalar(Scalar::Bool),
        code == 9 <==> r is Some && r->0 is Text,
        code == 11 <==> r is Some && r->0 is Message,
        code == 12 <==> r is Some && r->0 is Bytes,
        code == 13 <==> r is Some && r->0 == FieldKind::Scalar(Scalar::UInt32),
        code == 14 <==> r is Some && r->0 == FieldKind::Scalar(Scalar::Enum),
        code == 15 <==> r is Some && r->0 == FieldKind::Scalar(Scalar::SFixed32),
        code == 16 <==> r is Some && r->0 == FieldKind::Scalar(Scalar::SFixed64),
        code == 17 <==> r is Some && r->0 == FieldKind::Scalar(Scalar::SInt32),
        code == 18 <==> r is Some && r->0 == FieldKind::Scalar(Scalar::SInt64),
{
    if r is Some {
        let kind = r->0;
        assert(kind@ is Scalar <==> kind is Scalar);
        assert(kind@ is Scalar ==> kind == FieldKind::Scalar(kind@->Scalar_0));
    }
}

} // verus!
