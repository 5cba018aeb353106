//! Settings read from environment variables.
use std::time::Duration;
use vstd::prelude::*;
use super::snapshot::{lemma_parsed, reads};
use super::text::{cut_out, in_digits, lemma_trimmed, lemma_worth, small, white, worth};
use crate::config::app::{AddressFacts, AppConfig};
use crate::config::error::ConfigError;
use crate::config::rate::Rate;
use crate::config::source::{
    file_at, flag_of, flag_problem, flag_value, is_read, ms_problem, ms_value, number_problem,
    number_value, optional_value, rate_problem, rate_value, secret_of, secret_problem, set_problem,
    signed_problem, signed_value, source_problem, text_problem, text_value, variable, ConfigSource,
    EnvValue, RawValue,
};
use crate::durations::nanos;
use crate::text::{ascii_lower, ascii_lower_char, is_digit, opt_view, trimmed};

verus! {

// ---------------------------------------------------------------------------
// Variables
// ---------------------------------------------------------------------------

/// Whether the variable at a place is the first of a name.
pub open spec fn first_at(s: ConfigSource, name: Seq<char>, k: int) -> bool {
    &&& 0 <= k < s.variables@.len()
    &&& s.variables@[k].0@ == name
    &&& forall|j: int| 0 <= j < k ==> (#[trigger] s.variables@[j]).0@ != name
}

/// Whether a variable is set to a text.
pub open spec fn given(s: ConfigSource, name: Seq<char>, text: Seq<char>) -> bool {
    exists|k: int| #[trigger]
        first_at(s, name, k) && (s.variables@[k].1 matches EnvValue::Text(t) && t@ == text)
}

/// Whether a variable is not set.
pub open spec fn unset(s: ConfigSource, name: Seq<char>) -> bool {
    forall|k: int| 0 <= k < s.variables@.len() ==> (#[trigger] s.variables@[k]).0@ != name
}

proof fn lemma_variable_found(v: Seq<(String, EnvValue)>, name: Seq<char>, k: int)
    requires
        0 <= k < v.len(),
        v[k].0@ == name,
        forall|j: int| 0 <= j < k ==> (#[trigger] v[j]).0@ != name,
    ensures
        variable(v, name) == (match v[k].1 {
            EnvValue::Text(text) => Some(RawValue::Text(text@)),
            EnvValue::NotUnicode => Some(RawValue::NotUnicode),
        }),
    decreases v.len(),
{
    if k > 0 {
        assert(v[0].0@ != name);
        assert forall|j: int| 0 <= j < k - 1 implies (#[trigger] v.skip(1)[j]).0@ != name by {
            assert(v[j + 1].0@ != name);
        }
        lemma_variable_found(v.skip(1), name, k - 1);
    }
}

proof fn lemma_variable_place(v: Seq<(String, EnvValue)>, name: Seq<char>) -> (k: int)
    ensures
        variable(v, name) is Some ==> 0 <= k < v.len() && v[k].0@ == name && forall|j: int|
            0 <= j < k ==> (#[trigger] v[j]).0@ != name,
        variable(v, name) is None ==> forall|j: int|
            0 <= j < v.len() ==> (#[trigger] v[j]).0@ != name,
    decreases v.len(),
{
    if v.len() == 0 {
        0
    } else if v[0].0@ == name {
        0
    } else {
        let k = lemma_variable_place(v.skip(1), name);
        if variable(v, name) is Some {
            assert forall|j: int| 0 <= j < k + 1 implies (#[trigger] v[j]).0@ != name by {
                if j > 0 {
                    assert(v.skip(1)[j - 1].0@ != name);
                }
            }
        } else {
            assert forall|j: int| 0 <= j < v.len() implies (#[trigger] v[j]).0@ != name by {
                if j > 0 {
                    assert(v.skip(1)[j - 1].0@ != name);
                }
            }
        }
        k + 1
    }
}

pub(crate) proof fn lemma_variable(s: ConfigSource, name: Seq<char>)
    ensures
        unset(s, name) <==> variable(s.variables@, name) is None,
        forall|text: Seq<char>| #[trigger]
            given(s, name, text) <==> variable(s.variables@, name) == Some(RawValue::Text(text)),
{
    let k = lemma_variable_place(s.variables@, name);
    if variable(s.variables@, name) is Some {
        assert(first_at(s, name, k));
        lemma_variable_found(s.variables@, name, k);
    }
    if unset(s, name) && variable(s.variables@, name) is Some {
        assert(s.variables@[k].0@ != name);
    }
    assert forall|text: Seq<char>| #[trigger] given(s, name, text) implies variable(
        s.variables@,
        name,
    ) == Some(RawValue::Text(text)) by {
        let i = choose|i: int| #[trigger]
            first_at(s, name, i) && (s.variables@[i].1 matches EnvValue::Text(t) && t@ == text);
        lemma_variable_found(s.variables@, name, i);
    }
}

/// Whether a text is another without the white space at its ends.
pub open spec fn stripped(raw: Seq<char>, text: Seq<char>) -> bool {
    exists|from: int, to: int| #[trigger] cut_out(raw, text, from, to)
}

pub(crate) proof fn lemma_stripped(raw: Seq<char>)
    ensures
        stripped(raw, trimmed(raw)),
        forall|text: Seq<char>| #[trigger] stripped(raw, text) ==> text == trimmed(raw),
{
    lemma_trimmed(raw);
    let (a, b) = choose|a: int, b: int| #[trigger] cut_out(raw, trimmed(raw), a, b);
    assert forall|text: Seq<char>| #[trigger] stripped(raw, text) implies text == trimmed(raw) by {
        let (c, d) = choose|c: int, d: int| #[trigger] cut_out(raw, text, c, d);
        if c < d && a < b {
            assert(!white(raw[c]) && !white(raw[d - 1]) && !white(raw[a]) && !white(raw[b - 1]));
            assert(a == c && b == d);
        } else if c < d {
            assert(white(raw[c]));
        } else if a < b {
            assert(white(raw[a]));
        } else {
            assert(text =~= trimmed(raw));
        }
    }
}

/// Whether a text is the value of a variable, or a default where it is not set, without
/// the white space at its ends; it is not empty.
pub open spec fn text_told(
    s: ConfigSource,
    name: Seq<char>,
    default: Seq<char>,
    text: Seq<char>,
) -> bool {
    &&& text.len() >= 1
    &&& unset(s, name) ==> stripped(default, text)
    &&& !unset(s, name) ==> exists|raw: Seq<char>| #[trigger]
        given(s, name, raw) && stripped(raw, text)
}

pub(crate) proof fn lemma_text(s: ConfigSource, name: Seq<char>, default: Seq<char>)
    requires
        text_problem(s, name, default) is None,
    ensures
        text_told(s, name, default, text_value(s, name, default)),
{
    lemma_variable(s, name);
    lemma_stripped(default);
    if !unset(s, name) {
        let raw = variable(s.variables@, name)->0->Text_0;
        lemma_stripped(raw);
        assert(given(s, name, raw));
    }
}

pub(crate) proof fn lemma_told_text(s: ConfigSource, name: Seq<char>, default: Seq<char>)
    ensures
        forall|text: Seq<char>| #[trigger]
            text_told(s, name, default, text) ==> text_problem(s, name, default) is None
                && text_value(s, name, default) == text,
{
    lemma_variable(s, name);
    assert forall|text: Seq<char>| #[trigger] text_told(s, name, default, text) implies text_problem(
        s,
        name,
        default,
    ) is None && text_value(s, name, default) == text by {
        if unset(s, name) {
            lemma_stripped(default);
        } else {
            let raw = choose|raw: Seq<char>| #[trigger] given(s, name, raw) && stripped(raw, text);
            lemma_stripped(raw);
        }
    }
}

/// Whether a number is what a variable denotes in digits, or a default where it is not
/// set.
pub open spec fn number_told(s: ConfigSource, name: Seq<char>, default: int, n: int) -> bool {
    &&& unset(s, name) ==> n == default
    &&& !unset(s, name) ==> exists|text: Seq<char>| #[trigger]
        text_told(s, name, seq![' '], text) && reads(text, n)
}

proof fn lemma_number(s: ConfigSource, name: Seq<char>, default: nat, max: nat, kind: Seq<char>)
    requires
        number_problem(s, name, max, kind) is None,
    ensures
        number_told(s, name, default as int, number_value(s, name, default, max) as int),
{
    lemma_variable(s, name);
    if !unset(s, name) {
        let text = text_value(s, name, ""@);
        lemma_text(s, name, ""@);
        assert(text_told(s, name, seq![' '], text));
        lemma_parsed(text, max);
    }
}

/// Whether a number is what a variable denotes in digits with or without a sign, or a
/// default where it is not set.
pub open spec fn integer_told(s: ConfigSource, name: Seq<char>, default: int, n: int) -> bool {
    &&& unset(s, name) ==> n == default
    &&& !unset(s, name) ==> exists|text: Seq<char>| #[trigger]
        text_told(s, name, seq![' '], text) && reads_signed(text, n)
}

/// Whether a text denotes a number, with a minus sign before the digits where it is
/// negative.
pub open spec fn reads_signed(text: Seq<char>, n: int) -> bool {
    ||| reads(text, n)
    ||| text.len() >= 1 && text[0] == '-' && in_digits(text.skip(1)) && worth(text.skip(1)) == -n
}

proof fn lemma_integer(s: ConfigSource, name: Seq<char>, default: int)
    requires
        signed_problem(s, name) is None,
    ensures
        integer_told(s, name, default, signed_value(s, name, default)),
{
    lemma_variable(s, name);
    if !unset(s, name) {
        let text = text_value(s, name, ""@);
        lemma_text(s, name, ""@);
        assert(text_told(s, name, seq![' '], text));
        lemma_parsed(text, i32::MAX as nat);
        if text[0] == '-' {
            let digits = text.skip(1);
            assert forall|i: int| 0 <= i < digits.len() implies 48 <= (#[trigger] digits[i]) as int
                <= 57 by {
                assert(is_digit(digits[i]));
            }
            lemma_worth(digits);
        }
    }
}

/// Whether a span is the milliseconds that a variable denotes, or a default where it is
/// not set; it is not empty.
pub open spec fn span_told(s: ConfigSource, name: Seq<char>, default: int, d: Duration) -> bool {
    &&& nanos(d) >= 1_000_000
    &&& nanos(d) % 1_000_000 == 0
    &&& number_told(s, name, default, nanos(d) as int / 1_000_000)
}

proof fn lemma_span(s: ConfigSource, name: Seq<char>, default: nat, d: Duration)
    requires
        ms_problem(s, name, default) is None,
        nanos(d) == ms_value(s, name, default) * 1_000_000,
    ensures
        span_told(s, name, default as int, d),
{
    lemma_number(s, name, default, u64::MAX as nat, "u64"@);
}

/// Whether a text is `true` or `1`, or `false` or `0`, in capitals or small letters.
pub open spec fn spells(text: Seq<char>, yes: bool) -> bool {
    if yes {
        letters(text, seq!['t', 'r', 'u', 'e']) || text == seq!['1']
    } else {
        letters(text, seq!['f', 'a', 'l', 's', 'e']) || text == seq!['0']
    }
}

/// Whether a text is a word, in capitals or small letters.
pub open spec fn letters(text: Seq<char>, word: Seq<char>) -> bool {
    text.len() == word.len() && forall|i: int|
        0 <= i < word.len() ==> small(#[trigger] text[i], word[i])
}

proof fn lemma_small(c: char, d: char)
    ensures
        small(c, d) <==> ascii_lower_char(c) == d,
{
    assert('A' as int == 65 && 'Z' as int == 90);
}

pub(crate) proof fn lemma_letters(text: Seq<char>, word: Seq<char>)
    ensures
        letters(text, word) <==> ascii_lower(text) == word,
{
    if letters(text, word) {
        assert forall|i: int| 0 <= i < word.len() implies ascii_lower(text)[i] == word[i] by {
            assert(small(text[i], word[i]));
            lemma_small(text[i], word[i]);
        }
        assert(ascii_lower(text) =~= word);
    }
    if ascii_lower(text) == word {
        assert(text.len() == word.len());
        assert forall|i: int| 0 <= i < word.len() implies small(#[trigger] text[i], word[i]) by {
            assert(ascii_lower(text)[i] == word[i]);
            lemma_small(text[i], word[i]);
        }
    }
}

pub(crate) proof fn lemma_spells(text: Seq<char>)
    ensures
        spells(text, true) <==> flag_of(ascii_lower(text)) == Some(true),
        spells(text, false) <==> flag_of(ascii_lower(text)) == Some(false),
        !(spells(text, true) && spells(text, false)),
{
    reveal_strlit("true");
    reveal_strlit("false");
    reveal_strlit("1");
    reveal_strlit("0");
    assert("true"@ =~= seq!['t', 'r', 'u', 'e']);
    assert("false"@ =~= seq!['f', 'a', 'l', 's', 'e']);
    assert("1"@ =~= seq!['1']);
    assert("0"@ =~= seq!['0']);
    lemma_letters(text, "true"@);
    lemma_letters(text, "false"@);
    lemma_letters(text, "1"@);
    lemma_letters(text, "0"@);
    assert("true"@.len() == 4 && "false"@.len() == 5 && "1"@.len() == 1 && "0"@.len() == 1);
    assert("1"@[0] != "0"@[0]);
    if text == seq!['1'] {
        lemma_small('1', '1');
        assert(letters(text, "1"@));
    }
    if letters(text, "1"@) {
        assert(small(text[0], '1'));
        assert(text =~= seq!['1']);
    }
    if text == seq!['0'] {
        lemma_small('0', '0');
        assert(letters(text, "0"@));
    }
    if letters(text, "0"@) {
        assert(small(text[0], '0'));
        assert(text =~= seq!['0']);
    }
}

/// Whether a flag is what a variable says, or a default where it is not set.
pub open spec fn flag_told(s: ConfigSource, name: Seq<char>, default: bool, yes: bool) -> bool {
    &&& unset(s, name) ==> yes == default
    &&& !unset(s, name) ==> exists|text: Seq<char>| #[trigger]
        text_told(s, name, seq![' '], text) && spells(text, yes) && !spells(text, !yes)
}

proof fn lemma_flag(s: ConfigSource, name: Seq<char>, default: bool)
    requires
        flag_problem(s, name) is None,
    ensures
        flag_told(s, name, default, flag_value(s, name, default)),
{
    lemma_variable(s, name);
    if !unset(s, name) {
        let text = text_value(s, name, ""@);
        lemma_text(s, name, ""@);
        assert(text_told(s, name, seq![' '], text));
        lemma_spells(text);
    }
}

/// Whether a text that may be missing is what a variable holds, where it is set.
pub open spec fn option_told(s: ConfigSource, name: Seq<char>, text: Option<String>) -> bool {
    match text {
        None => unset(s, name),
        Some(t) => !unset(s, name) && text_told(s, name, seq![' '], t@),
    }
}

pub(crate) proof fn lemma_option(s: ConfigSource, name: Seq<char>)
    requires
        set_problem(s, name) is None,
    ensures
        forall|text: Option<String>|
            opt_view(text) == optional_value(s, name) ==> #[trigger] option_told(s, name, text),
{
    lemma_variable(s, name);
    if !unset(s, name) {
        lemma_text(s, name, ""@);
        assert(text_told(s, name, seq![' '], text_value(s, name, ""@)));
    }
}

/// Whether a text is the one of the variable for the Redis URL, or what stands in the file
/// that the variable with `_FILE` names, or the local one where neither is set. Both are
/// never set at once.
pub open spec fn secret_told(s: ConfigSource, url: Seq<char>) -> bool {
    let name = "PULSE_REDIS_URL"@;
    let file = "PULSE_REDIS_URL"@ + "_FILE"@;
    &&& url.len() >= 1
    &&& unset(s, name) || unset(s, file)
    &&& unset(s, file) ==> text_told(s, name, "redis://127.0.0.1:6379"@, url)
    &&& !unset(s, file) ==> exists|path: Seq<char>, content: Seq<char>| #[trigger]
        read_from(s, path, content) && text_told(s, file, seq![' '], path) && stripped(content, url)
}

/// Whether a file was read with a content: the first of its path.
pub open spec fn read_from(s: ConfigSource, path: Seq<char>, content: Seq<char>) -> bool {
    exists|k: int|
        #![trigger s.files@[k]]
        0 <= k < s.files@.len() && s.files@[k].0@ == path && (s.files@[k].1 matches Ok(c) && c@
            == content) && forall|j: int| 0 <= j < k ==> (#[trigger] s.files@[j]).0@ != path
}

pub(crate) proof fn lemma_file_found(
    files: Seq<(String, Result<String, String>)>,
    path: Seq<char>,
    k: int,
)
    requires
        0 <= k < files.len(),
        files[k].0@ == path,
        forall|j: int| 0 <= j < k ==> (#[trigger] files[j]).0@ != path,
    ensures
        files[k].1 matches Ok(c) ==> file_at(files, path) == Ok::<_, Seq<char>>(c@),
        files[k].1 matches Err(e) ==> file_at(files, path) == Err::<Seq<char>, _>(e@),
    decreases files.len(),
{
    if k > 0 {
        assert(files[0].0@ != path);
        assert forall|j: int| 0 <= j < k - 1 implies (#[trigger] files.skip(1)[j]).0@ != path by {
            assert(files[j + 1].0@ != path);
        }
        lemma_file_found(files.skip(1), path, k - 1);
    }
}

pub(crate) proof fn lemma_file(files: Seq<(String, Result<String, String>)>, path: Seq<char>) -> (k:
    int)
    requires
        file_at(files, path) is Ok,
    ensures
        0 <= k < files.len(),
        files[k].0@ == path,
        files[k].1 matches Ok(c) && c@ == file_at(files, path)->Ok_0,
        forall|j: int| 0 <= j < k ==> (#[trigger] files[j]).0@ != path,
    decreases files.len(),
{
    if files[0].0@ == path {
        0
    } else {
        let k = lemma_file(files.skip(1), path);
        assert forall|j: int| 0 <= j < k + 1 implies (#[trigger] files[j]).0@ != path by {
            if j > 0 {
                assert(files.skip(1)[j - 1].0@ != path);
            }
        }
        k + 1
    }
}

pub(crate) proof fn lemma_secret(s: ConfigSource)
    requires
        secret_problem(s, "PULSE_REDIS_URL"@, "redis://127.0.0.1:6379"@) is None,
    ensures
        forall|url: Seq<char>|
            secret_of(s, "PULSE_REDIS_URL"@, "redis://127.0.0.1:6379"@) == Ok::<
                _,
                crate::config::source::SourceProblem,
            >(url) ==> #[trigger] secret_told(s, url),
{
    let name = "PULSE_REDIS_URL"@;
    let file = "PULSE_REDIS_URL"@ + "_FILE"@;
    let default = "redis://127.0.0.1:6379"@;
    lemma_variable(s, name);
    lemma_variable(s, file);
    if unset(s, file) {
        lemma_text(s, name, default);
    } else {
        let path = text_value(s, file, ""@);
        lemma_text(s, file, ""@);
        assert(text_told(s, file, seq![' '], path));
        let k = lemma_file(s.files@, path);
        let content = file_at(s.files@, path)->Ok_0;
        lemma_stripped(content);
        assert(s.files@[k].0@ == path);
        assert(read_from(s, path, content));
    }
}

/// Whether a rate is the number that the variable for it denotes, by its bits, or 1000
/// scenarios per second where it is not set.
pub open spec fn rate_told(s: ConfigSource, rate: Rate) -> bool {
    &&& unset(s, "PULSE_MAX_SCENARIOS_PER_SEC"@) ==> rate.bits == 0x408f_4000_0000_0000
    &&& !unset(s, "PULSE_MAX_SCENARIOS_PER_SEC"@) ==> s.rate_bits == Some(rate.bits)
}

pub(crate) proof fn lemma_rate(s: ConfigSource)
    requires
        rate_problem(s, "PULSE_MAX_SCENARIOS_PER_SEC"@) is None,
    ensures
        forall|rate: Rate|
            rate.bits == rate_value(s, "PULSE_MAX_SCENARIOS_PER_SEC"@) ==> #[trigger] rate_told(
                s,
                rate,
            ),
{
    lemma_variable(s, "PULSE_MAX_SCENARIOS_PER_SEC"@);
}

// ---------------------------------------------------------------------------
// Readers
// ---------------------------------------------------------------------------

/// A flag is read as yes from `true` and `1`, as no from `false` and `0`, in capitals or
/// small letters and with white space round them, and as the default where the variable is
/// not set; every other text is refused.
pub proof fn law_boolean(s: ConfigSource, name: &str, default: bool, r: Result<bool, ConfigError>)
    requires
        call_ensures(ConfigSource::boolean, (&s, name, default), r),
    ensures
        unset(s, name@) ==> r == Ok::<_, ConfigError>(default),
        forall|raw: Seq<char>, text: Seq<char>|
            #![trigger given(s, name@, raw), stripped(raw, text)]
            given(s, name@, raw) && stripped(raw, text) ==> {
                &&& spells(text, true) <==> r == Ok::<_, ConfigError>(true)
                &&& spells(text, false) <==> r == Ok::<_, ConfigError>(false)
                &&& !spells(text, true) && !spells(text, false) ==> r is Err
            },
{
    lemma_variable(s, name@);
    assert forall|raw: Seq<char>, text: Seq<char>|
        #![trigger given(s, name@, raw), stripped(raw, text)]
        given(s, name@, raw) && stripped(raw, text) implies {
        &&& spells(text, true) <==> r == Ok::<_, ConfigError>(true)
        &&& spells(text, false) <==> r == Ok::<_, ConfigError>(false)
        &&& !spells(text, true) && !spells(text, false) ==> r is Err
    } by {
        lemma_stripped(raw);
        lemma_spells(text);
    }
}

/// A variable set to `1` or `true` reads as yes, and one set to `0` or `false` as no,
/// whatever the default.
pub proof fn law_flags_in_words(
    s: ConfigSource,
    name: &str,
    default: bool,
    raw: Seq<char>,
    r: Result<bool, ConfigError>,
)
    requires
        call_ensures(ConfigSource::boolean, (&s, name, default), r),
        given(s, name@, raw),
    ensures
        raw == "1"@ || letters(raw, "true"@) ==> r == Ok::<_, ConfigError>(true),
        raw == "0"@ || letters(raw, "false"@) ==> r == Ok::<_, ConfigError>(false),
{
    lemma_variable(s, name@);
    reveal_strlit("true");
    reveal_strlit("false");
    reveal_strlit("1");
    reveal_strlit("0");
    assert("true"@ =~= seq!['t', 'r', 'u', 'e']);
    assert("false"@ =~= seq!['f', 'a', 'l', 's', 'e']);
    assert("1"@ =~= seq!['1']);
    assert("0"@ =~= seq!['0']);
    if raw == "1"@ || raw == "0"@ || letters(raw, "true"@) || letters(raw, "false"@) {
        assert(!white(raw[0]) && !white(raw[raw.len() - 1])) by {
            lemma_plain(raw);
        }
        assert(cut_out(raw, raw, 0, raw.len() as int)) by {
            assert(raw.subrange(0, raw.len() as int) =~= raw);
        }
        assert(stripped(raw, raw));
        lemma_stripped(raw);
        lemma_spells(raw);
    }
}

proof fn lemma_plain(raw: Seq<char>)
    requires
        spells(raw, true) || spells(raw, false),
    ensures
        raw.len() >= 1,
        !white(raw[0]),
        !white(raw[raw.len() - 1]),
{
    let n = raw.len() - 1;
    let yes = seq!['t', 'r', 'u', 'e'];
    let no = seq!['f', 'a', 'l', 's', 'e'];
    if letters(raw, yes) {
        assert(small(raw[0], yes[0]) && small(raw[n], yes[n]));
    }
    if letters(raw, no) {
        assert(small(raw[0], no[0]) && small(raw[n], no[n]));
    }
    let a = raw[0] as int;
    let b = raw[n] as int;
    assert(48 <= a <= 122 && 48 <= b <= 122);
    super::text::lemma_not_white(raw[0]);
    super::text::lemma_not_white(raw[n]);
}

/// A text is the variable without the white space at its ends, or the default; an empty
/// one is refused.
pub proof fn law_string(
    s: ConfigSource,
    name: &str,
    default: &str,
    r: Result<String, ConfigError>,
)
    requires
        call_ensures(ConfigSource::string, (&s, name, default), r),
    ensures
        r matches Ok(text) ==> text_told(s, name@, default@, text@),
        forall|text: Seq<char>| #[trigger]
            text_told(s, name@, default@, text) ==> (r matches Ok(t) && t@ == text),
{
    lemma_variable(s, name@);
    if r is Ok {
        lemma_text(s, name@, default@);
    }
    assert forall|text: Seq<char>| #[trigger] text_told(s, name@, default@, text) implies (r matches Ok(
        t,
    ) && t@ == text) by {
        if unset(s, name@) {
            lemma_stripped(default@);
        } else {
            let raw = choose|raw: Seq<char>| #[trigger] given(s, name@, raw) && stripped(raw, text);
            lemma_stripped(raw);
        }
    }
}

/// A text that may be missing is there exactly where the variable is set.
pub proof fn law_optional_string(
    s: ConfigSource,
    name: &str,
    r: Result<Option<String>, ConfigError>,
)
    requires
        call_ensures(ConfigSource::optional_string, (&s, name), r),
    ensures
        r matches Ok(text) ==> option_told(s, name@, text),
        unset(s, name@) ==> r is Ok,
{
    lemma_variable(s, name@);
    if r is Ok {
        lemma_option(s, name@);
    }
}

/// Numbers are the digits of the variable, where they fit, or the default.
pub proof fn law_numbers(
    s: ConfigSource,
    name: &str,
    a: usize,
    b: u32,
    c: u64,
    d: i32,
    size: Result<usize, ConfigError>,
    count: Result<u32, ConfigError>,
    long: Result<u64, ConfigError>,
    signed: Result<i32, ConfigError>,
)
    requires
        call_ensures(ConfigSource::parse_size, (&s, name, a), size),
        call_ensures(ConfigSource::parse_count, (&s, name, b), count),
        call_ensures(ConfigSource::parse_long, (&s, name, c), long),
        call_ensures(ConfigSource::parse_signed, (&s, name, d), signed),
    ensures
        size matches Ok(n) ==> number_told(s, name@, a as int, n as int),
        count matches Ok(n) ==> number_told(s, name@, b as int, n as int),
        long matches Ok(n) ==> number_told(s, name@, c as int, n as int),
        signed matches Ok(n) ==> integer_told(s, name@, d as int, n as int),
        unset(s, name@) ==> size is Ok && count is Ok && long is Ok && signed is Ok,
        forall|text: Seq<char>, n: int|
            #![trigger text_told(s, name@, seq![' '], text), reads(text, n)]
            text_told(s, name@, seq![' '], text) && reads(text, n) && !unset(s, name@) ==> {
                &&& n <= 18_446_744_073_709_551_615 ==> long is Ok
                &&& n <= 4_294_967_295 ==> count is Ok
            },
{
    lemma_variable(s, name@);
    if size is Ok {
        lemma_number(s, name@, a as nat, usize::MAX as nat, "usize"@);
    }
    if count is Ok {
        lemma_number(s, name@, b as nat, u32::MAX as nat, "u32"@);
    }
    if long is Ok {
        lemma_number(s, name@, c as nat, u64::MAX as nat, "u64"@);
    }
    if signed is Ok {
        lemma_integer(s, name@, d as int);
    }
    assert forall|text: Seq<char>, n: int|
        #![trigger text_told(s, name@, seq![' '], text), reads(text, n)]
        text_told(s, name@, seq![' '], text) && reads(text, n) && !unset(s, name@) implies {
        &&& n <= 18_446_744_073_709_551_615 ==> long is Ok
        &&& n <= 4_294_967_295 ==> count is Ok
    } by {
        let raw = choose|raw: Seq<char>| #[trigger] given(s, name@, raw) && stripped(raw, text);
        lemma_stripped(raw);
        lemma_parsed(text, u64::MAX as nat);
        lemma_parsed(text, u32::MAX as nat);
    }
}

/// A span is the milliseconds of the variable, or the default; an empty one is refused.
pub proof fn law_duration(
    s: ConfigSource,
    name: &str,
    default: u64,
    r: Result<Duration, ConfigError>,
)
    requires
        call_ensures(ConfigSource::duration_ms, (&s, name, default), r),
    ensures
        r matches Ok(d) ==> span_told(s, name@, default as int, d),
        unset(s, name@) && default >= 1 ==> r is Ok,
{
    lemma_variable(s, name@);
    if r is Ok {
        lemma_span(s, name@, default as nat, r->Ok_0);
    }
}

// ---------------------------------------------------------------------------
// All settings
// ---------------------------------------------------------------------------

/// The texts among the settings, each under the name of its variable and with what it is
/// where the variable is not set.
pub open spec fn texts_told(s: ConfigSource, c: AppConfig) -> bool {
    &&& text_told(s, "PULSE_KAFKA_BROKERS"@, "localhost:9092"@, c.kafka_brokers@)
    &&& text_told(s, "PULSE_KAFKA_JOBS_TOPIC"@, "pulse.scenario.jobs"@, c.kafka_jobs_topic@)
    &&& text_told(s, "PULSE_KAFKA_RESULTS_TOPIC"@, "pulse.scenario.results"@, c.kafka_results_topic@)
    &&& text_told(s, "PULSE_KAFKA_SUMMARIES_TOPIC"@, "pulse.scenario.summaries"@, c.kafka_summaries_topic@)
    &&& text_told(s, "PULSE_KAFKA_DLQ_TOPIC"@, "pulse.scenario.dlq"@, c.kafka_dlq_topic@)
    &&& text_told(s, "PULSE_KAFKA_GROUP_ID"@, "pulse-workers"@, c.kafka_group_id@)
    &&& text_told(s, "PULSE_KAFKA_AGGREGATOR_GROUP_ID"@, "pulse-aggregators"@, c.kafka_aggregator_group_id@)
    &&& text_told(s, "PULSE_REDIS_LEADER_KEY"@, "pulse:{coordination}:leader"@, c.redis_leader_key@)
    &&& text_told(s, "PULSE_REDIS_SCHEDULE_PREFIX"@, "pulse:{coordination}:schedule"@, c.redis_schedule_prefix@)
    &&& text_told(s, "PULSE_REDIS_IDEMPOTENCY_PREFIX"@, "pulse:dedupe"@, c.redis_idempotency_prefix@)
    &&& text_told(s, "PULSE_REDIS_AGGREGATION_PREFIX"@, "pulse:aggregation"@, c.redis_aggregation_prefix@)
    &&& text_told(s, "PULSE_NODE_ID"@, s.default_node_id@, c.node_id@)
    &&& text_told(s, "PULSE_ENDPOINT"@, "http://127.0.0.1:8080"@, c.pulse_endpoint@)
    &&& text_told(s, "PULSE_METRICS_BIND"@, "0.0.0.0:9090"@, c.metrics_bind@)
}

pub(crate) proof fn lemma_texts(s: ConfigSource, facts: AddressFacts, c: AppConfig)
    requires
        source_problem(s, facts) is None,
        is_read(c, s, facts),
    ensures
        texts_told(s, c),
{
    lemma_text(s, "PULSE_KAFKA_BROKERS"@, "localhost:9092"@);
    lemma_text(s, "PULSE_KAFKA_JOBS_TOPIC"@, "pulse.scenario.jobs"@);
    lemma_text(s, "PULSE_KAFKA_RESULTS_TOPIC"@, "pulse.scenario.results"@);
    lemma_text(s, "PULSE_KAFKA_SUMMARIES_TOPIC"@, "pulse.scenario.summaries"@);
    lemma_text(s, "PULSE_KAFKA_DLQ_TOPIC"@, "pulse.scenario.dlq"@);
    lemma_text(s, "PULSE_KAFKA_GROUP_ID"@, "pulse-workers"@);
    lemma_text(s, "PULSE_KAFKA_AGGREGATOR_GROUP_ID"@, "pulse-aggregators"@);
    lemma_text(s, "PULSE_REDIS_LEADER_KEY"@, "pulse:{coordination}:leader"@);
    lemma_text(s, "PULSE_REDIS_SCHEDULE_PREFIX"@, "pulse:{coordination}:schedule"@);
    lemma_text(s, "PULSE_REDIS_IDEMPOTENCY_PREFIX"@, "pulse:dedupe"@);
    lemma_text(s, "PULSE_REDIS_AGGREGATION_PREFIX"@, "pulse:aggregation"@);
    lemma_text(s, "PULSE_NODE_ID"@, s.default_node_id@);
    lemma_text(s, "PULSE_ENDPOINT"@, "http://127.0.0.1:8080"@);
    lemma_text(s, "PULSE_METRICS_BIND"@, "0.0.0.0:9090"@);
}

/// The times among the settings, each under the name of its variable and with what it is
/// where the variable is not set.
pub open spec fn spans_told(s: ConfigSource, c: AppConfig) -> bool {
    &&& span_told(s, "PULSE_KAFKA_MAX_POLL_INTERVAL_MS"@, 300_000, c.kafka_max_poll_interval)
    &&& span_told(s, "PULSE_KAFKA_SESSION_TIMEOUT_MS"@, 10_000, c.kafka_session_timeout)
    &&& span_told(s, "PULSE_KAFKA_MESSAGE_TIMEOUT_MS"@, 10_000, c.kafka_message_timeout)
    &&& span_told(s, "PULSE_KAFKA_DELIVERY_TIMEOUT_MS"@, 10_000, c.kafka_delivery_timeout)
    &&& span_told(s, "PULSE_KAFKA_REQUEST_TIMEOUT_MS"@, 5_000, c.kafka_request_timeout)
    &&& span_told(s, "PULSE_LEADER_RENEW_INTERVAL_MS"@, 3_000, c.leader_renew_interval)
    &&& span_told(s, "PULSE_SCHEDULER_TICK_INTERVAL_MS"@, 500, c.scheduler_tick_interval)
    &&& span_told(s, "PULSE_EXECUTION_LEASE_TTL_MS"@, 30_000, c.execution_lease_ttl)
    &&& span_told(s, "PULSE_EXECUTION_LEASE_RENEW_INTERVAL_MS"@, 10_000, c.execution_lease_renew_interval)
    &&& span_told(s, "PULSE_EXECUTION_TERMINAL_RETENTION_MS"@, 86_400_000, c.execution_terminal_retention)
    &&& span_told(s, "PULSE_WORKER_RETRY_BASE_DELAY_MS"@, 500, c.worker_retry_base_delay)
    &&& span_told(s, "PULSE_WORKER_RETRY_MAX_DELAY_MS"@, 30_000, c.worker_retry_max_delay)
    &&& span_told(s, "PULSE_AGGREGATION_PARTIAL_TIMEOUT_MS"@, 60_000, c.aggregation_partial_timeout)
    &&& span_told(s, "PULSE_AGGREGATION_RETENTION_MS"@, 86_400_000, c.aggregation_retention)
    &&& span_told(s, "PULSE_AGGREGATION_SCAN_INTERVAL_MS"@, 1_000, c.aggregation_scan_interval)
    &&& span_told(s, "PULSE_STARTUP_DEADLINE_MS"@, 60_000, c.startup_deadline)
    &&& span_told(s, "PULSE_SHUTDOWN_DRAIN_TIMEOUT_MS"@, 30_000, c.shutdown_drain_timeout)
    &&& span_told(s, "PULSE_GRPC_CONNECT_TIMEOUT_MS"@, 5_000, c.grpc_connect_timeout)
    &&& span_told(s, "PULSE_GRPC_REQUEST_TIMEOUT_MS"@, 5_000, c.grpc_request_timeout)
    &&& span_told(s, "PULSE_GRPC_SCENARIO_TIMEOUT_MS"@, 30_000, c.grpc_scenario_timeout)
    &&& span_told(s, "PULSE_MAX_DURATION_MS"@, 60_000, c.max_duration)
}

pub(crate) proof fn lemma_spans(s: ConfigSource, facts: AddressFacts, c: AppConfig)
    requires
        source_problem(s, facts) is None,
        is_read(c, s, facts),
    ensures
        spans_told(s, c),
{
    lemma_span(s, "PULSE_KAFKA_MAX_POLL_INTERVAL_MS"@, 300_000, c.kafka_max_poll_interval);
    lemma_span(s, "PULSE_KAFKA_SESSION_TIMEOUT_MS"@, 10_000, c.kafka_session_timeout);
    lemma_span(s, "PULSE_KAFKA_MESSAGE_TIMEOUT_MS"@, 10_000, c.kafka_message_timeout);
    lemma_span(s, "PULSE_KAFKA_DELIVERY_TIMEOUT_MS"@, 10_000, c.kafka_delivery_timeout);
    lemma_span(s, "PULSE_KAFKA_REQUEST_TIMEOUT_MS"@, 5_000, c.kafka_request_timeout);
    lemma_span(s, "PULSE_LEADER_RENEW_INTERVAL_MS"@, 3_000, c.leader_renew_interval);
    lemma_span(s, "PULSE_SCHEDULER_TICK_INTERVAL_MS"@, 500, c.scheduler_tick_interval);
    lemma_span(s, "PULSE_EXECUTION_LEASE_TTL_MS"@, 30_000, c.execution_lease_ttl);
    lemma_span(s, "PULSE_EXECUTION_LEASE_RENEW_INTERVAL_MS"@, 10_000, c.execution_lease_renew_interval);
    lemma_span(s, "PULSE_EXECUTION_TERMINAL_RETENTION_MS"@, 86_400_000, c.execution_terminal_retention);
    lemma_span(s, "PULSE_WORKER_RETRY_BASE_DELAY_MS"@, 500, c.worker_retry_base_delay);
    lemma_span(s, "PULSE_WORKER_RETRY_MAX_DELAY_MS"@, 30_000, c.worker_retry_max_delay);
    lemma_span(s, "PULSE_AGGREGATION_PARTIAL_TIMEOUT_MS"@, 60_000, c.aggregation_partial_timeout);
    lemma_span(s, "PULSE_AGGREGATION_RETENTION_MS"@, 86_400_000, c.aggregation_retention);
    lemma_span(s, "PULSE_AGGREGATION_SCAN_INTERVAL_MS"@, 1_000, c.aggregation_scan_interval);
    lemma_span(s, "PULSE_STARTUP_DEADLINE_MS"@, 60_000, c.startup_deadline);
    lemma_span(s, "PULSE_SHUTDOWN_DRAIN_TIMEOUT_MS"@, 30_000, c.shutdown_drain_timeout);
    lemma_span(s, "PULSE_GRPC_CONNECT_TIMEOUT_MS"@, 5_000, c.grpc_connect_timeout);
    lemma_span(s, "PULSE_GRPC_REQUEST_TIMEOUT_MS"@, 5_000, c.grpc_request_timeout);
    lemma_span(s, "PULSE_GRPC_SCENARIO_TIMEOUT_MS"@, 30_000, c.grpc_scenario_timeout);
    lemma_span(s, "PULSE_MAX_DURATION_MS"@, 60_000, c.max_duration);
}

/// The numbers among the settings, each under the name of its variable and with what it is
/// where the variable is not set.
pub open spec fn numbers_told(s: ConfigSource, c: AppConfig) -> bool {
    &&& number_told(s, "PULSE_KAFKA_PRODUCER_MESSAGE_MAX_BYTES"@, 1_000_000, c.kafka_producer_message_max_bytes as int)
    &&& number_told(s, "PULSE_KAFKA_PRODUCER_QUEUE_MESSAGES"@, 1_024, c.producer_queue_messages as int)
    &&& number_told(s, "PULSE_KAFKA_CONSUMER_QUEUE_KBYTES"@, 4_096, c.consumer_queue_kbytes as int)
    &&& number_told(s, "PULSE_KAFKA_CONSUMER_PARTITION_FETCH_MAX_BYTES"@, 524_288, c.consumer_partition_fetch_max_bytes as int)
    &&& number_told(s, "PULSE_KAFKA_CONSUMER_FETCH_MAX_BYTES"@, 4_194_304, c.consumer_fetch_max_bytes as int)
    &&& number_told(s, "PULSE_KAFKA_CONSUMER_RECORD_MAX_BYTES"@, 1_000_000, c.consumer_record_max_bytes as int)
    &&& number_told(s, "PULSE_LEADER_LOCK_TTL_MS"@, 10_000, c.leader_lock_ttl_ms as int)
    &&& number_told(s, "PULSE_WORKER_MAX_RETRIES"@, 2, c.worker_max_retries as int)
    &&& number_told(s, "PULSE_RETRY_QUEUE_CAPACITY"@, 1_024, c.retry_queue_capacity as int)
    &&& number_told(s, "PULSE_AGGREGATION_SCAN_BATCH"@, 128, c.aggregation_scan_batch as int)
    &&& number_told(s, "PULSE_AGGREGATION_MAX_ACTIVE_RUNS"@, 10_000, c.aggregation_max_active_runs as int)
    &&& number_told(s, "PULSE_AGGREGATION_MAX_ERROR_KINDS"@, 64, c.aggregation_max_error_kinds as int)
    &&& number_told(s, "PULSE_MAX_CONCURRENCY"@, 256, c.max_concurrency as int)
    &&& number_told(s, "PULSE_STARTUP_BURST"@, 0, c.startup_burst as int)
}

pub(crate) proof fn lemma_numbers(s: ConfigSource, facts: AddressFacts, c: AppConfig)
    requires
        source_problem(s, facts) is None,
        is_read(c, s, facts),
    ensures
        numbers_told(s, c),
{
    lemma_number(s, "PULSE_KAFKA_PRODUCER_MESSAGE_MAX_BYTES"@, 1_000_000, usize::MAX as nat, "usize"@);
    lemma_number(s, "PULSE_KAFKA_PRODUCER_QUEUE_MESSAGES"@, 1_024, usize::MAX as nat, "usize"@);
    lemma_number(s, "PULSE_KAFKA_CONSUMER_QUEUE_KBYTES"@, 4_096, usize::MAX as nat, "usize"@);
    lemma_number(s, "PULSE_KAFKA_CONSUMER_PARTITION_FETCH_MAX_BYTES"@, 524_288, usize::MAX as nat, "usize"@);
    lemma_number(s, "PULSE_KAFKA_CONSUMER_FETCH_MAX_BYTES"@, 4_194_304, usize::MAX as nat, "usize"@);
    lemma_number(s, "PULSE_KAFKA_CONSUMER_RECORD_MAX_BYTES"@, 1_000_000, usize::MAX as nat, "usize"@);
    lemma_number(s, "PULSE_LEADER_LOCK_TTL_MS"@, 10_000, u64::MAX as nat, "u64"@);
    lemma_number(s, "PULSE_WORKER_MAX_RETRIES"@, 2, u32::MAX as nat, "u32"@);
    lemma_number(s, "PULSE_RETRY_QUEUE_CAPACITY"@, 1_024, usize::MAX as nat, "usize"@);
    lemma_number(s, "PULSE_AGGREGATION_SCAN_BATCH"@, 128, usize::MAX as nat, "usize"@);
    lemma_number(s, "PULSE_AGGREGATION_MAX_ACTIVE_RUNS"@, 10_000, usize::MAX as nat, "usize"@);
    lemma_number(s, "PULSE_AGGREGATION_MAX_ERROR_KINDS"@, 64, usize::MAX as nat, "usize"@);
    lemma_number(s, "PULSE_MAX_CONCURRENCY"@, 256, usize::MAX as nat, "usize"@);
    lemma_number(s, "PULSE_STARTUP_BURST"@, 0, usize::MAX as nat, "usize"@);
}

/// The signed numbers among the settings, each under the name of its variable and with what it is
/// where the variable is not set.
pub open spec fn integers_told(s: ConfigSource, c: AppConfig) -> bool {
    &&& integer_told(s, "PULSE_KAFKA_TOPIC_PARTITIONS"@, 3, c.kafka_topic_partitions as int)
    &&& integer_told(s, "PULSE_KAFKA_TOPIC_REPLICATION_FACTOR"@, 1, c.kafka_topic_replication_factor as int)
}

pub(crate) proof fn lemma_integers(s: ConfigSource, facts: AddressFacts, c: AppConfig)
    requires
        source_problem(s, facts) is None,
        is_read(c, s, facts),
    ensures
        integers_told(s, c),
{
    lemma_integer(s, "PULSE_KAFKA_TOPIC_PARTITIONS"@, 3);
    lemma_integer(s, "PULSE_KAFKA_TOPIC_REPLICATION_FACTOR"@, 1);
}

/// The flags among the settings, each under the name of its variable and with what it is
/// where the variable is not set.
pub open spec fn flags_told(s: ConfigSource, c: AppConfig) -> bool {
    &&& flag_told(s, "PULSE_KAFKA_PRODUCER_IDEMPOTENCE"@, true, c.kafka_producer_idempotence)
    &&& flag_told(s, "PULSE_KAFKA_TOPIC_MANAGEMENT_ENABLED"@, false, c.kafka_topic_management_enabled)
    &&& flag_told(s, "PULSE_AGGREGATION_ENABLED"@, true, c.aggregation_enabled)
    &&& flag_told(s, "PULSE_DRY_RUN"@, false, c.dry_run)
    &&& flag_told(s, "PULSE_ALLOW_PARTIAL_START"@, false, c.allow_partial_start)
    &&& flag_told(s, "PULSE_ACKNOWLEDGE_NON_LOCAL_TARGETS"@, false, c.acknowledge_non_local_targets)
    &&& flag_told(s, "PULSE_METRICS_ENABLED"@, true, c.metrics_enabled)
}

pub(crate) proof fn lemma_flags(s: ConfigSource, facts: AddressFacts, c: AppConfig)
    requires
        source_problem(s, facts) is None,
        is_read(c, s, facts),
    ensures
        flags_told(s, c),
{
    lemma_flag(s, "PULSE_KAFKA_PRODUCER_IDEMPOTENCE"@, true);
    lemma_flag(s, "PULSE_KAFKA_TOPIC_MANAGEMENT_ENABLED"@, false);
    lemma_flag(s, "PULSE_AGGREGATION_ENABLED"@, true);
    lemma_flag(s, "PULSE_DRY_RUN"@, false);
    lemma_flag(s, "PULSE_ALLOW_PARTIAL_START"@, false);
    lemma_flag(s, "PULSE_ACKNOWLEDGE_NON_LOCAL_TARGETS"@, false);
    lemma_flag(s, "PULSE_METRICS_ENABLED"@, true);
}

/// The texts that may be missing among the settings, each under the name of its variable and with what it is
/// where the variable is not set.
pub open spec fn options_told(s: ConfigSource, c: AppConfig) -> bool {
    &&& option_told(s, "PULSE_SCENARIOS_FILE"@, c.scenarios_file)
    &&& option_told(s, "PULSE_GRPC_DESCRIPTOR_SET"@, c.grpc_descriptor_set)
}

pub(crate) proof fn lemma_options(s: ConfigSource, facts: AddressFacts, c: AppConfig)
    requires
        source_problem(s, facts) is None,
        is_read(c, s, facts),
    ensures
        options_told(s, c),
{
    lemma_option(s, "PULSE_SCENARIOS_FILE"@);
    lemma_option(s, "PULSE_GRPC_DESCRIPTOR_SET"@);
}

/// The settings that are read are those of the variables.
pub proof fn law_from_sources(
    s: ConfigSource,
    facts: AddressFacts,
    r: Result<AppConfig, ConfigError>,
)
    requires
        call_ensures(AppConfig::from_sources, (&s, &facts), r),
    ensures
        r matches Ok(c) ==> {
            &&& texts_told(s, c)
            &&& spans_told(s, c)
            &&& numbers_told(s, c)
            &&& integers_told(s, c)
            &&& flags_told(s, c)
            &&& options_told(s, c)
            &&& c.kafka_producer_acks@ == "all"@
            &&& secret_told(s, c.redis_url@)
            &&& rate_told(s, c.max_scenarios_per_sec)
        },
{
    if r is Ok {
        let c = r->Ok_0;
        lemma_texts(s, facts, c);
        lemma_spans(s, facts, c);
        lemma_numbers(s, facts, c);
        lemma_integers(s, facts, c);
        lemma_flags(s, facts, c);
        lemma_options(s, facts, c);
        lemma_secret(s);
        lemma_rate(s);
    }
}

} // verus!
