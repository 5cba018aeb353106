//! Texts from files, and what is said of variables that cannot be read.
use std::time::Duration;
use vstd::prelude::*;
use super::settings::{
    given, lemma_file, lemma_file_found, lemma_stripped, lemma_text, lemma_told_text,
    lemma_variable, read_from, stripped, text_told, unset,
};
use crate::config::error::ConfigError;
use crate::config::rate::Rate;
use crate::config::source::{file_at, secret_of, text_value, variable, ConfigSource, RawValue};
use crate::text::trimmed;

verus! {

/// Whether a text is that of a variable, or what stands in the file that the variable with
/// `_FILE` behind its name gives, or the default where neither is set. Both are never set
/// at once.
pub open spec fn found(
    s: ConfigSource,
    name: Seq<char>,
    default: Seq<char>,
    text: Seq<char>,
) -> bool {
    let file = name + "_FILE"@;
    &&& text.len() >= 1
    &&& unset(s, name) || unset(s, file)
    &&& unset(s, file) ==> text_told(s, name, default, text)
    &&& !unset(s, file) ==> exists|path: Seq<char>, content: Seq<char>| #[trigger]
        read_from(s, path, content) && text_told(s, file, seq![' '], path) && stripped(
            content,
            text,
        )
}

pub(crate) proof fn lemma_told_secret(s: ConfigSource, name: Seq<char>, default: Seq<char>, text: Seq<char>)
    requires
        found(s, name, default, text),
    ensures
        secret_of(s, name, default) matches Ok(t) && t == text,
{
    let file = name + "_FILE"@;
    lemma_variable(s, name);
    lemma_variable(s, file);
    if unset(s, file) {
        lemma_told_text(s, name, default);
    } else {
        let (path, content) = choose|path: Seq<char>, content: Seq<char>| #[trigger]
            read_from(s, path, content) && text_told(s, file, seq![' '], path) && stripped(
                content,
                text,
            );
        lemma_told_text(s, file, seq![' ']);
        let raw = choose|raw: Seq<char>| #[trigger] given(s, file, raw) && stripped(raw, path);
        assert(text_value(s, file, ""@) == trimmed(raw));
        assert(text_value(s, file, seq![' ']) == trimmed(raw));
        let k = choose|k: int|
            #![trigger s.files@[k]]
            0 <= k < s.files@.len() && s.files@[k].0@ == path && (s.files@[k].1 matches Ok(c) && c@
                == content) && forall|j: int| 0 <= j < k ==> (#[trigger] s.files@[j]).0@ != path;
        lemma_file_found(s.files@, path, k);
        lemma_stripped(content);
    }
}

/// A text may stand in a file, which another variable names: it is read from there without
/// the white space at its ends, wherever the two are not set at once.
pub proof fn law_string_with_file(
    s: ConfigSource,
    name: &str,
    default: &str,
    r: Result<String, ConfigError>,
)
    requires
        call_ensures(ConfigSource::string_with_file, (&s, name, default), r),
    ensures
        r matches Ok(text) ==> found(s, name@, default@, text@),
        forall|text: Seq<char>| #[trigger]
            found(s, name@, default@, text) ==> (r matches Ok(t) && t@ == text),
{
    let file = name@ + "_FILE"@;
    lemma_variable(s, name@);
    lemma_variable(s, file);
    if r is Ok {
        if unset(s, file) {
            lemma_text(s, name@, default@);
        } else {
            let path = text_value(s, file, ""@);
            lemma_text(s, file, ""@);
            assert(text_told(s, file, seq![' '], path));
            let k = lemma_file(s.files@, path);
            let content = file_at(s.files@, path)->Ok_0;
            lemma_stripped(content);
            assert(s.files@[k].0@ == path);
            assert(read_from(s, path, content));
        }
    }
    assert forall|text: Seq<char>| #[trigger] found(s, name@, default@, text) implies (r matches Ok(t)
        && t@ == text) by {
        lemma_told_secret(s, name@, default@, text);
    }
}

/// Two variables for one text are refused, and so is a file without a text or one that
/// could not be read.
pub proof fn law_files_are_blamed(
    s: ConfigSource,
    name: &str,
    default: &str,
    raw: Seq<char>,
    path: Seq<char>,
    e: ConfigError,
)
    requires
        call_ensures(
            ConfigSource::string_with_file,
            (&s, name, default),
            Err::<String, ConfigError>(e),
        ),
        given(s, name@ + "_FILE"@, raw),
        stripped(raw, path),
        path.len() >= 1,
    ensures
        forall|text: Seq<char>| #[trigger]
            given(s, name@, text) ==> (e matches ConfigError::Invalid { name: n, reason: m } && n@
                == name@ && m@ == "cannot be set together with "@ + name@ + "_FILE"@),
        unset(s, name@) ==> (e matches ConfigError::File { name: n, path: p, reason: _ } && n@
            == name@ && p@ == path),
        unset(s, name@) ==> forall|content: Seq<char>| #[trigger]
            read_from(s, path, content) ==> stripped(content, Seq::empty()) && (
            e matches ConfigError::File { name: _, path: _, reason } && reason@
                == "file is empty or whitespace-only"@),
{
    lemma_variable(s, name@);
    lemma_variable(s, name@ + "_FILE"@);
    lemma_stripped(raw);
    assert("cannot be set together with "@ + name@ + "_FILE"@ =~= "cannot be set together with "@ + (
    name@ + "_FILE"@));
    assert forall|content: Seq<char>| #[trigger] read_from(s, path, content) && unset(
        s,
        name@,
    ) implies stripped(content, Seq::empty()) && (e matches ConfigError::File {
        name: _,
        path: _,
        reason,
    } && reason@ == "file is empty or whitespace-only"@) by {
        let k = choose|k: int|
            #![trigger s.files@[k]]
            0 <= k < s.files@.len() && s.files@[k].0@ == path && (s.files@[k].1 matches Ok(c) && c@
                == content) && forall|j: int| 0 <= j < k ==> (#[trigger] s.files@[j]).0@ != path;
        lemma_file_found(s.files@, path, k);
        lemma_stripped(content);
        assert(trimmed(content) =~= Seq::empty());
    }
}

/// A rate is the number whose bits came with the sources, or 1000 where the variable is
/// not set.
pub proof fn law_parse_rate(s: ConfigSource, name: &str, r: Result<Rate, ConfigError>)
    requires
        call_ensures(ConfigSource::parse_rate, (&s, name), r),
    ensures
        unset(s, name@) ==> (r matches Ok(rate) && rate.bits == 0x408f_4000_0000_0000),
        forall|text: Seq<char>| !unset(s, name@) && #[trigger]
            text_told(s, name@, seq![' '], text) ==> match s.rate_bits {
            Some(bits) => r matches Ok(rate) && rate.bits == bits,
            None => r is Err,
        },
        r is Ok && !unset(s, name@) ==> exists|text: Seq<char>| #[trigger]
            text_told(s, name@, seq![' '], text),
{
    lemma_variable(s, name@);
    assert forall|text: Seq<char>| !unset(s, name@) && #[trigger]
        text_told(s, name@, seq![' '], text) implies match s.rate_bits {
        Some(bits) => r matches Ok(rate) && rate.bits == bits,
        None => r is Err,
    } by {
        lemma_told_text(s, name@, seq![' ']);
    }
    if r is Ok && !unset(s, name@) {
        lemma_text(s, name@, ""@);
        assert(text_told(s, name@, seq![' '], text_value(s, name@, ""@)));
    }
}

/// Whether an error says why a variable cannot be read: it holds no Unicode, or nothing but
/// white space, or something that is not what is asked for.
pub open spec fn explains(e: ConfigError, s: ConfigSource, name: Seq<char>, asked: Seq<char>) -> bool {
    match e {
        ConfigError::Environment { name: n, reason } => {
            &&& n@ == name
            &&& reason@ == "value is not valid Unicode"@
            &&& !unset(s, name)
            &&& forall|raw: Seq<char>| !#[trigger] given(s, name, raw)
        },
        ConfigError::File { .. } => false,
        ConfigError::Invalid { name: n, reason } => {
            &&& n@ == name
            &&& exists|raw: Seq<char>| #[trigger]
                given(s, name, raw) && reason@ == (if stripped(raw, Seq::empty()) {
                    "must not be empty or whitespace-only"@
                } else {
                    asked
                })
        },
    }
}

proof fn lemma_raw(s: ConfigSource, name: Seq<char>)
    ensures
        variable(s.variables@, name) == Some(RawValue::NotUnicode) ==> !unset(s, name) && forall|
            raw: Seq<char>,
        | !#[trigger] given(s, name, raw),
        variable(s.variables@, name) matches Some(RawValue::Text(raw)) ==> given(s, name, raw) && (
        stripped(raw, Seq::empty()) <==> trimmed(raw).len() == 0),
{
    lemma_variable(s, name);
    if let Some(RawValue::Text(raw)) = variable(s.variables@, name) {
        lemma_stripped(raw);
        if trimmed(raw).len() == 0 {
            assert(trimmed(raw) =~= Seq::empty());
        }
    }
}

/// A variable that cannot be read is named, with the reason.
pub proof fn law_variables_are_blamed(
    s: ConfigSource,
    name: &str,
    size: usize,
    count: u32,
    long: u64,
    signed: i32,
    flag: bool,
    a: Result<usize, ConfigError>,
    b: Result<u32, ConfigError>,
    c: Result<u64, ConfigError>,
    d: Result<i32, ConfigError>,
    f: Result<bool, ConfigError>,
    g: Result<Rate, ConfigError>,
    h: Result<Option<String>, ConfigError>,
)
    requires
        call_ensures(ConfigSource::parse_size, (&s, name, size), a),
        call_ensures(ConfigSource::parse_count, (&s, name, count), b),
        call_ensures(ConfigSource::parse_long, (&s, name, long), c),
        call_ensures(ConfigSource::parse_signed, (&s, name, signed), d),
        call_ensures(ConfigSource::boolean, (&s, name, flag), f),
        call_ensures(ConfigSource::parse_rate, (&s, name), g),
        call_ensures(ConfigSource::optional_string, (&s, name), h),
    ensures
        a matches Err(e) ==> explains(e, s, name@, "must be a valid usize"@),
        b matches Err(e) ==> explains(e, s, name@, "must be a valid u32"@),
        c matches Err(e) ==> explains(e, s, name@, "must be a valid u64"@),
        d matches Err(e) ==> explains(e, s, name@, "must be a valid i32"@),
        f matches Err(e) ==> explains(e, s, name@, "must be one of: true, false, 1, 0"@),
        g matches Err(e) ==> explains(e, s, name@, "must be a valid f64"@),
        h matches Err(e) ==> explains(e, s, name@, "must not be empty or whitespace-only"@),
{
    lemma_raw(s, name@);
    lemma_kinds();
}

proof fn lemma_kinds()
    ensures
        "must be a valid "@ + "usize"@ == "must be a valid usize"@,
        "must be a valid "@ + "u32"@ == "must be a valid u32"@,
        "must be a valid "@ + "u64"@ == "must be a valid u64"@,
        "must be a valid "@ + "i32"@ == "must be a valid i32"@,
        "must be a valid "@ + "f64"@ == "must be a valid f64"@,
{
    reveal_strlit("must be a valid ");
    reveal_strlit("usize");
    reveal_strlit("u32");
    reveal_strlit("u64");
    reveal_strlit("i32");
    reveal_strlit("f64");
    reveal_strlit("must be a valid usize");
    reveal_strlit("must be a valid u32");
    reveal_strlit("must be a valid u64");
    reveal_strlit("must be a valid i32");
    reveal_strlit("must be a valid f64");
    assert("must be a valid "@ + "usize"@ =~= "must be a valid usize"@);
    assert("must be a valid "@ + "u32"@ =~= "must be a valid u32"@);
    assert("must be a valid "@ + "u64"@ =~= "must be a valid u64"@);
    assert("must be a valid "@ + "i32"@ =~= "must be a valid i32"@);
    assert("must be a valid "@ + "f64"@ =~= "must be a valid f64"@);
}

/// A span that cannot be read is named, with the reason: it is no number, or nothing.
pub proof fn law_spans_are_blamed(
    s: ConfigSource,
    name: &str,
    default: u64,
    n: Result<u64, ConfigError>,
    d: Result<Duration, ConfigError>,
)
    requires
        call_ensures(ConfigSource::parse_long, (&s, name, default), n),
        call_ensures(ConfigSource::duration_ms, (&s, name, default), d),
    ensures
        d is Ok <==> n is Ok && n->Ok_0 > 0,
        n is Ok ==> (d matches Err(e) ==> (e matches ConfigError::Invalid { name: m, reason } && m@
            == name@ && reason@ == "must be greater than zero"@)),
        n is Err ==> (d matches Err(e) && explains(e, s, name@, "must be a valid u64"@)),
{
    lemma_raw(s, name@);
    lemma_kinds();
}

} // verus!
