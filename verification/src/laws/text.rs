//! Numbers in digits, lists in texts, white space, letter case and order.
use vstd::prelude::*;
use crate::text::{
    blank, bytes_less, decimal, decimal_i64, decimal_u128, digits_value, eq_ignoring_ascii_case,
    is_blank, is_digit, is_white, join, joined, parse_i64, parse_u32, parse_u64, parsed_unsigned,
    split, split_on, str_less, to_ascii_lower, trim, trimmed, trimmed_end, trimmed_start, views,
    without_plus,
};

verus! {

// ---------------------------------------------------------------------------
// Digits
// ---------------------------------------------------------------------------

/// What a row of digits is worth: the last one by itself, those before it tenfold.
pub open spec fn worth(s: Seq<char>) -> int
    decreases s.len(),
{
    if s.len() == 0 {
        0
    } else {
        worth(s.drop_last()) * 10 + (s.last() as int - 48)
    }
}

/// Whether a text is a row of digits.
pub open spec fn in_digits(s: Seq<char>) -> bool {
    s.len() >= 1 && forall|i: int| 0 <= i < s.len() ==> 48 <= (#[trigger] s[i]) as int <= 57
}

pub(crate) proof fn lemma_worth(s: Seq<char>)
    requires
        forall|i: int| 0 <= i < s.len() ==> 48 <= (#[trigger] s[i]) as int <= 57,
    ensures
        worth(s) == digits_value(s),
        worth(s) >= 0,
    decreases s.len(),
{
    if s.len() > 0 {
        lemma_worth(s.drop_last());
    }
}

pub(crate) proof fn lemma_decimal_form(n: nat)
    ensures
        in_digits(decimal(n)),
        worth(decimal(n)) == n,
        decimal(n).len() > 1 ==> decimal(n)[0] as int != 48,
    decreases n,
{
    assert(worth(Seq::<char>::empty()) == 0);
    if n < 10 {
        assert(decimal(n).drop_last() =~= Seq::<char>::empty());
        assert(decimal(n).last() as int == 48 + n);
    } else {
        lemma_decimal_form(n / 10);
        assert(decimal(n).drop_last() =~= decimal(n / 10));
        assert(decimal(n).last() as int == 48 + n % 10);
        assert(decimal(n)[0] == decimal(n / 10)[0]);
        if decimal(n / 10).len() == 1 {
            assert(decimal(n / 10).drop_last() =~= Seq::<char>::empty());
            reveal_with_fuel(worth, 2);
            assert(worth(decimal(n / 10)) == decimal(n / 10)[0] as int - 48);
        }
    }
}

/// The decimal form of a number is a row of digits that is worth the number, without
/// a leading zero.
pub proof fn law_decimal(n: u128, s: String)
    requires
        call_ensures(decimal_u128, (n,), s),
    ensures
        in_digits(s@),
        worth(s@) == n,
        s@.len() > 1 ==> s@[0] != '0',
{
    lemma_decimal_form(n as nat);
}

/// Every number is written in digits of its worth, without a leading zero.
pub proof fn law_decimal_form(n: nat)
    ensures
        in_digits(decimal(n)),
        worth(decimal(n)) == n,
        decimal(n).len() > 1 ==> decimal(n)[0] != '0',
{
    lemma_decimal_form(n);
}

/// A negative number has a minus sign before the digits of its absolute value.
pub proof fn law_signed_decimal(n: i64, s: String)
    requires
        call_ensures(decimal_i64, (n,), s),
    ensures
        n < 0 <==> s@[0] == '-',
        n < 0 ==> in_digits(s@.skip(1)) && worth(s@.skip(1)) == -n,
        n >= 0 ==> in_digits(s@) && worth(s@) == n,
{
    lemma_decimal_form((-n) as nat);
    lemma_decimal_form(n as nat);
    if n < 0 {
        assert(s@.skip(1) =~= decimal((-n) as nat));
    }
}

proof fn lemma_reads(s: Seq<char>, max: nat)
    ensures
        in_digits(s) ==> parsed_unsigned(s, max) == (if worth(s) <= max {
            Some(worth(s) as nat)
        } else {
            None
        }),
        s.len() >= 1 && s[0] == '+' && in_digits(s.skip(1)) ==> parsed_unsigned(s, max) == (
        if worth(s.skip(1)) <= max {
            Some(worth(s.skip(1)) as nat)
        } else {
            None
        }),
        !in_digits(s) && !(s.len() >= 1 && s[0] == '+' && in_digits(s.skip(1)))
            ==> parsed_unsigned(s, max) is None,
        in_digits(s) ==> worth(s) >= 0,
        s.len() >= 1 && in_digits(s.skip(1)) ==> worth(s.skip(1)) >= 0,
{
    if s.len() >= 1 && in_digits(s.skip(1)) {
        lemma_worth(s.skip(1));
    }
    if in_digits(s) {
        lemma_worth(s);
        assert(s[0] as int >= 48);
        assert(without_plus(s) == s);
        assert forall|i: int| 0 <= i < s.len() implies is_digit(#[trigger] s[i]) by {}
    }
    if s.len() >= 1 && s[0] == '+' && in_digits(s.skip(1)) {
        lemma_worth(s.skip(1));
    }
}

/// A text is read as the worth of its digits, with or without a plus sign before them,
/// where that fits; no other text is read.
pub proof fn law_parse_u64(s: &str, r: Option<u64>)
    requires
        call_ensures(parse_u64, (s,), r),
    ensures
        in_digits(s@) && worth(s@) <= 18_446_744_073_709_551_615 ==> (r matches Some(n) && n
            == worth(s@)),
        in_digits(s@) && worth(s@) > 18_446_744_073_709_551_615 ==> r is None,
        r is Some ==> in_digits(s@) || (s@.len() >= 1 && s@[0] == '+' && in_digits(s@.skip(1))
            && r->0 == worth(s@.skip(1))),
{
    lemma_reads(s@, u64::MAX as nat);
}

/// The same with 32 bits.
pub proof fn law_parse_u32(s: &str, r: Option<u32>)
    requires
        call_ensures(parse_u32, (s,), r),
    ensures
        in_digits(s@) && worth(s@) <= 4_294_967_295 ==> (r matches Some(n) && n == worth(s@)),
        in_digits(s@) && worth(s@) > 4_294_967_295 ==> r is None,
        r is Some ==> in_digits(s@) || (s@.len() >= 1 && s@[0] == '+' && in_digits(s@.skip(1))
            && r->0 == worth(s@.skip(1))),
{
    lemma_reads(s@, u32::MAX as nat);
}

/// Digits behind a minus sign are read as the negative number.
pub proof fn law_parse_i64(s: &str, r: Option<i64>)
    requires
        call_ensures(parse_i64, (s,), r),
    ensures
        in_digits(s@) && worth(s@) <= 9_223_372_036_854_775_807 ==> (r matches Some(n) && n
            == worth(s@)),
        s@.len() >= 1 && s@[0] == '-' && in_digits(s@.skip(1)) && worth(s@.skip(1))
            <= 9_223_372_036_854_775_808 ==> (r matches Some(n) && n == -worth(s@.skip(1))),
        r is Some ==> in_digits(s@) || (s@.len() >= 1 && (s@[0] == '+' || s@[0] == '-')
            && in_digits(s@.skip(1))),
{
    lemma_reads(s@, i64::MAX as nat);
    if s@.len() >= 1 && s@[0] == '-' {
        if in_digits(s@.skip(1)) {
            lemma_worth(s@.skip(1));
            assert forall|i: int| 0 <= i < s@.skip(1).len() implies is_digit(
                #[trigger] s@.skip(1)[i],
            ) by {}
        }
    }
}

// ---------------------------------------------------------------------------
// Lists
// ---------------------------------------------------------------------------

/// Parts one after the other, with a separator before each but the first.
pub open spec fn glued(parts: Seq<Seq<char>>, sep: char) -> Seq<char>
    decreases parts.len(),
{
    if parts.len() == 0 {
        Seq::empty()
    } else if parts.len() == 1 {
        parts[0]
    } else {
        glued(parts.drop_last(), sep).push(sep) + parts.last()
    }
}

/// Whether no part holds the separator.
pub open spec fn apart(parts: Seq<Seq<char>>, sep: char) -> bool {
    forall|i: int| 0 <= i < parts.len() ==> !(#[trigger] parts[i]).contains(sep)
}

proof fn lemma_split_more(a: Seq<char>, b: Seq<char>, sep: char)
    requires
        !b.contains(sep),
    ensures
        split_on(a, sep).len() >= 1,
        split_on(a + b, sep) == split_on(a, sep).drop_last().push(split_on(a, sep).last() + b),
    decreases b.len(),
{
    lemma_split_some(a, sep);
    let parts = split_on(a, sep);
    if b.len() == 0 {
        assert(a + b =~= a);
        assert(parts.last() + b =~= parts.last());
        assert(parts.drop_last().push(parts.last()) =~= parts);
    } else {
        assert(b.contains(b.last()));
        assert forall|i: int| 0 <= i < b.drop_last().len() implies b.drop_last()[i] != sep by {
            assert(b.contains(b[i]));
        }
        lemma_split_more(a, b.drop_last(), sep);
        assert((a + b).drop_last() =~= a + b.drop_last());
        assert((a + b).last() == b.last());
        assert((parts.last() + b.drop_last()).push(b.last()) =~= parts.last() + b);
        let before = split_on(a + b.drop_last(), sep);
        assert(before.drop_last() =~= parts.drop_last());
    }
}

pub(crate) proof fn lemma_split_some(a: Seq<char>, sep: char)
    ensures
        split_on(a, sep).len() >= 1,
    decreases a.len(),
{
    if a.len() > 0 {
        lemma_split_some(a.drop_last(), sep);
    }
}

/// Parts that do not hold the separator are found again in the list of them.
pub(crate) proof fn lemma_split_glued(parts: Seq<Seq<char>>, sep: char)
    requires
        parts.len() >= 1,
        apart(parts, sep),
    ensures
        split_on(glued(parts, sep), sep) == parts,
    decreases parts.len(),
{
    let none = Seq::<char>::empty();
    assert(!parts.last().contains(sep));
    if parts.len() == 1 {
        lemma_split_more(none, parts[0], sep);
        assert(none + parts[0] =~= parts[0]);
        assert(split_on(none, sep) =~= seq![none]);
        assert(seq![none].drop_last().push(none + parts[0]) =~= parts);
    } else {
        let front = parts.drop_last();
        assert(apart(front, sep));
        lemma_split_glued(front, sep);
        let g = glued(front, sep);
        assert(g.push(sep).drop_last() =~= g);
        assert(split_on(g.push(sep), sep) =~= front.push(none));
        lemma_split_more(g.push(sep), parts.last(), sep);
        assert(front.push(none).drop_last() =~= front);
        assert(none + parts.last() =~= parts.last());
        assert(front.push(parts.last()) =~= parts);
    }
}

pub(crate) proof fn lemma_glued_split(s: Seq<char>, sep: char)
    ensures
        glued(split_on(s, sep), sep) == s,
        apart(split_on(s, sep), sep),
        split_on(s, sep).len() >= 1,
    decreases s.len(),
{
    if s.len() == 0 {
    } else {
        let before = split_on(s.drop_last(), sep);
        lemma_glued_split(s.drop_last(), sep);
        if s.last() == sep {
            let all = before.push(Seq::<char>::empty());
            assert(all.drop_last() =~= before);
            assert(glued(all, sep) =~= s);
            assert(apart(all, sep));
        } else {
            let all = before.drop_last().push(before.last().push(s.last()));
            assert(all.drop_last() =~= before.drop_last());
            if before.len() > 1 {
                let g = glued(before.drop_last(), sep).push(sep);
                assert(s =~= (g + before.last()).push(s.last()));
                assert(g + before.last().push(s.last()) =~= s);
            } else {
                assert(before[0].push(s.last()) =~= s);
            }
            assert(glued(all, sep) == s);
            assert forall|i: int| 0 <= i < all.len() implies !(#[trigger] all[i]).contains(sep) by {
                if i == all.len() - 1 {
                    assert(!before[before.len() - 1].contains(sep));
                    let t = before.last().push(s.last());
                    if t.contains(sep) {
                        let k = choose|k: int| 0 <= k < t.len() && t[k] == sep;
                        assert(before.last()[k] == sep);
                    }
                } else {
                    assert(!before[i].contains(sep));
                }
            }
        }
    }
}

pub(crate) proof fn lemma_joined(parts: Seq<Seq<char>>, sep: char)
    ensures
        joined(parts, seq![sep]) == glued(parts, sep),
    decreases parts.len(),
{
    if parts.len() > 1 {
        lemma_joined(parts.drop_last(), sep);
        assert(joined(parts, seq![sep]) =~= glued(parts, sep));
    }
}

/// A text is split at every separator and nowhere else: no part holds one, and the
/// parts with one separator between each two are the text.
pub proof fn law_split(s: &str, sep: char, parts: Vec<String>)
    requires
        call_ensures(split, (s, sep), parts),
    ensures
        parts@.len() >= 1,
        apart(views(parts@), sep),
        glued(views(parts@), sep) == s@,
{
    lemma_glued_split(s@, sep);
}

/// Splitting finds the parts that were joined, where none holds the separator.
pub proof fn law_joined_parts_are_split(
    parts: Vec<String>,
    sep: &str,
    all: String,
    text: &str,
    again: Vec<String>,
)
    requires
        sep@.len() == 1,
        parts@.len() >= 1,
        apart(views(parts@), sep@[0]),
        call_ensures(join, (&parts, sep), all),
        call_ensures(split, (text, sep@[0]), again),
        text@ == all@,
    ensures
        views(again@) == views(parts@),
{
    assert(sep@ =~= seq![sep@[0]]);
    lemma_joined(views(parts@), sep@[0]);
    lemma_split_glued(views(parts@), sep@[0]);
}

// ---------------------------------------------------------------------------
// White space
// ---------------------------------------------------------------------------

/// The characters that Unicode counts as white space.
pub open spec fn white(c: char) -> bool {
    seq![
        9int, 10, 11, 12, 13, 32, 133, 160, 5760, 8192, 8193, 8194, 8195, 8196, 8197, 8198, 8199,
        8200, 8201, 8202, 8232, 8233, 8239, 8287, 12288,
    ].contains(c as int)
}

proof fn lemma_white(c: char)
    ensures
        white(c) == is_white(c),
{
    let all = seq![
        9int, 10, 11, 12, 13, 32, 133, 160, 5760, 8192, 8193, 8194, 8195, 8196, 8197, 8198, 8199,
        8200, 8201, 8202, 8232, 8233, 8239, 8287, 12288,
    ];
    let u = c as int;
    assert(all[0] == 9 && all[1] == 10 && all[2] == 11 && all[3] == 12 && all[4] == 13);
    assert(all[5] == 32 && all[6] == 133 && all[7] == 160 && all[8] == 5760 && all[9] == 8192);
    assert(all[10] == 8193 && all[11] == 8194 && all[12] == 8195 && all[13] == 8196);
    assert(all[14] == 8197 && all[15] == 8198 && all[16] == 8199 && all[17] == 8200);
    assert(all[18] == 8201 && all[19] == 8202 && all[20] == 8232 && all[21] == 8233);
    assert(all[22] == 8239 && all[23] == 8287 && all[24] == 12288);
}

pub(crate) proof fn lemma_not_white(c: char)
    requires
        48 <= c as int <= 122,
    ensures
        !white(c),
{
    lemma_white(c);
}

proof fn lemma_trimmed_start(s: Seq<char>) -> (from: int)
    ensures
        0 <= from <= s.len(),
        trimmed_start(s) == s.skip(from),
        forall|i: int| 0 <= i < from ==> white(#[trigger] s[i]),
        from < s.len() ==> !white(s[from]),
    decreases s.len(),
{
    if s.len() > 0 && is_white(s[0]) {
        lemma_white(s[0]);
        let k = lemma_trimmed_start(s.skip(1));
        assert(s.skip(1).skip(k) =~= s.skip(k + 1));
        assert forall|i: int| 0 <= i < k + 1 implies white(#[trigger] s[i]) by {
            if i > 0 {
                assert(white(s.skip(1)[i - 1]));
            }
        }
        if k + 1 < s.len() {
            assert(s.skip(1)[k] == s[k + 1]);
        }
        k + 1
    } else {
        if s.len() > 0 {
            lemma_white(s[0]);
        }
        assert(s.skip(0) =~= s);
        0
    }
}

proof fn lemma_trimmed_end(s: Seq<char>) -> (to: int)
    ensures
        0 <= to <= s.len(),
        trimmed_end(s) == s.take(to),
        forall|i: int| to <= i < s.len() ==> white(#[trigger] s[i]),
        to > 0 ==> !white(s[to - 1]),
    decreases s.len(),
{
    if s.len() > 0 && is_white(s.last()) {
        lemma_white(s.last());
        let k = lemma_trimmed_end(s.drop_last());
        assert(s.drop_last().take(k) =~= s.take(k));
        assert forall|i: int| k <= i < s.len() implies white(#[trigger] s[i]) by {
            if i < s.len() - 1 {
                assert(white(s.drop_last()[i]));
            }
        }
        k
    } else {
        if s.len() > 0 {
            lemma_white(s.last());
        }
        assert(s.take(s.len() as int) =~= s);
        s.len() as int
    }
}

/// Whether `t` is what is left of `s` between two places when the white space outside
/// of them is taken away.
pub open spec fn cut_out(s: Seq<char>, t: Seq<char>, from: int, to: int) -> bool {
    &&& 0 <= from <= to <= s.len()
    &&& t == s.subrange(from, to)
    &&& forall|i: int| 0 <= i < from || to <= i < s.len() ==> white(#[trigger] s[i])
    &&& from < to ==> !white(s[from]) && !white(s[to - 1])
}

pub(crate) proof fn lemma_trimmed(s: Seq<char>)
    ensures
        exists|from: int, to: int| #[trigger] cut_out(s, trimmed(s), from, to),
        trimmed(s).len() == 0 <==> forall|i: int| 0 <= i < s.len() ==> white(#[trigger] s[i]),
{
    let from = lemma_trimmed_start(s);
    let rest = s.skip(from);
    let k = lemma_trimmed_end(rest);
    assert(rest.take(k) =~= s.subrange(from, from + k));
    assert forall|i: int| from + k <= i < s.len() implies white(#[trigger] s[i]) by {
        assert(white(rest[i - from]));
    }
    if k > 0 {
        assert(rest[k - 1] == s[from + k - 1]);
    }
    assert(cut_out(s, trimmed(s), from, from + k));
}

/// Trimming takes the white space at the two ends away and nothing else.
pub proof fn law_trim(s: &str, t: String)
    requires
        call_ensures(trim, (s,), t),
    ensures
        exists|from: int, to: int| #[trigger] cut_out(s@, t@, from, to),
{
    lemma_trimmed(s@);
}

/// A text is blank where it holds nothing but white space.
pub proof fn law_blank(s: &str, r: bool)
    requires
        call_ensures(blank, (s,), r),
    ensures
        r <==> forall|i: int| 0 <= i < s@.len() ==> white(#[trigger] s@[i]),
        r == is_blank(s@),
{
    lemma_trimmed(s@);
}

/// What the contracts call blank holds nothing but white space.
pub proof fn law_blank_texts(s: Seq<char>)
    ensures
        is_blank(s) <==> forall|i: int| 0 <= i < s.len() ==> white(#[trigger] s[i]),
{
    lemma_trimmed(s);
}

// ---------------------------------------------------------------------------
// Letter case and order
// ---------------------------------------------------------------------------

/// Whether a character is another in small letters: the capitals from A to Z are 32
/// places further, all others stay.
pub open spec fn small(c: char, d: char) -> bool {
    if 65 <= c as int && c as int <= 90 {
        d as int == c as int + 32
    } else {
        d == c
    }
}

/// Capitals become small letters, and nothing else changes.
pub proof fn law_ascii_lower(s: &str, t: String)
    requires
        call_ensures(to_ascii_lower, (s,), t),
    ensures
        t@.len() == s@.len(),
        forall|i: int| 0 <= i < s@.len() ==> small(s@[i], #[trigger] t@[i]),
{
    assert forall|i: int| 0 <= i < s@.len() implies small(s@[i], #[trigger] t@[i]) by {
        assert('A' as int == 65 && 'Z' as int == 90);
    }
}

/// Texts are the same but for the case where they are the same in small letters.
pub proof fn law_case_does_not_count(a: &str, b: &str, x: String, y: String, r: bool)
    requires
        call_ensures(to_ascii_lower, (a,), x),
        call_ensures(to_ascii_lower, (b,), y),
        call_ensures(eq_ignoring_ascii_case, (a, b), r),
    ensures
        r <==> x@ == y@,
{
}

/// Whether two rows of bytes agree before a place and the first is smaller there, or
/// ends there.
pub open spec fn smaller_at(a: Seq<u8>, b: Seq<u8>, k: int) -> bool {
    &&& 0 <= k <= a.len()
    &&& k < b.len()
    &&& forall|i: int| 0 <= i < k ==> #[trigger] a[i] == b[i]
    &&& k < a.len() ==> a[k] < b[k]
}

proof fn lemma_bytes_less(a: Seq<u8>, b: Seq<u8>)
    ensures
        bytes_less(a, b) <==> exists|k: int| smaller_at(a, b, k),
    decreases a.len(),
{
    if b.len() == 0 {
    } else if a.len() == 0 {
        assert(smaller_at(a, b, 0));
    } else if a[0] != b[0] {
        if a[0] < b[0] {
            assert(smaller_at(a, b, 0));
        }
    } else {
        lemma_bytes_less(a.skip(1), b.skip(1));
        if bytes_less(a, b) {
            let k = choose|k: int| smaller_at(a.skip(1), b.skip(1), k);
            assert forall|i: int| 0 <= i < k + 1 implies #[trigger] a[i] == b[i] by {
                if i > 0 {
                    assert(a.skip(1)[i - 1] == b.skip(1)[i - 1]);
                }
            }
            assert(smaller_at(a, b, k + 1));
        }
        if exists|k: int| smaller_at(a, b, k) {
            let k = choose|k: int| smaller_at(a, b, k);
            assert(k > 0);
            assert forall|i: int| 0 <= i < k - 1 implies #[trigger] a.skip(1)[i]
                == b.skip(1)[i] by {
                assert(a[i + 1] == b[i + 1]);
            }
            assert(smaller_at(a.skip(1), b.skip(1), k - 1));
        }
    }
}

/// Texts are ordered by the first byte in which they differ; a text comes before the
/// texts that go on behind it.
pub proof fn law_text_order(a: &str, b: &str, r: bool)
    requires
        call_ensures(str_less, (a, b), r),
    ensures
        r <==> exists|k: int|
            smaller_at(vstd::utf8::encode_utf8(a@), vstd::utf8::encode_utf8(b@), k),
{
    lemma_bytes_less(vstd::utf8::encode_utf8(a@), vstd::utf8::encode_utf8(b@));
}

} // verus!
