//! The hosts that may be targeted.
use vstd::prelude::*;
use super::error::{reports, ConfigError};
#[allow(unused_imports)]
use super::error::Problem;
use crate::text::{
    byte_len, chars_of, copy_str, split, str_eq, str_is_empty, to_ascii_lower, trim,
};
#[allow(unused_imports)]
use crate::text::{ascii_lower, split_on, trimmed, utf8_len, views};

verus! {

/// Whether a list of texts holds a text.
pub open spec fn lists(texts: Seq<Seq<char>>, text: Seq<char>) -> bool {
    texts.contains(text)
}

/// Whether a list of texts holds a text.
pub fn listed(texts: &Vec<String>, text: &str) -> (r: bool)
    ensures
        r == lists(views(texts@), text@),
{
    let mut i: usize = 0;
    while i < texts.len()
        invariant
            i <= texts@.len(),
            forall|j: int| 0 <= j < i ==> #[trigger] views(texts@)[j] != text@,
        decreases texts@.len() - i,
    {
        assert(views(texts@)[i as int] == texts@[i as int]@);
        if str_eq(&texts[i], text) {
            return true;
        }
        i += 1;
    }
    false
}

/// Whether a character may stand in a label of a host name.
pub open spec fn is_label_char(c: char) -> bool {
    ('a' <= c && c <= 'z') || ('A' <= c && c <= 'Z') || ('0' <= c && c <= '9') || c == '-'
}

/// Whether a text is a label of a host name: 1 to 63 ASCII letters, digits and
/// hyphens, with no hyphen at either end.
pub open spec fn is_label(label: Seq<char>) -> bool {
    &&& 0 < label.len() <= 63
    &&& label[0] != '-'
    &&& label.last() != '-'
    &&& forall|i: int| 0 <= i < label.len() ==> is_label_char(#[trigger] label[i])
}

/// Whether a text is a host name of at most 253 bytes: labels with dots between.
pub open spec fn is_host_name(host: Seq<char>) -> bool {
    &&& utf8_len(host) <= 253
    &&& forall|i: int|
        0 <= i < split_on(host, '.').len() ==> is_label(#[trigger] split_on(host, '.')[i])
}

fn label_ok(label: &str) -> (r: bool)
    ensures
        r == is_label(label@),
{
    let chars = chars_of(label);
    let n: usize = chars.len();
    if n == 0 || n > 63 || chars[0] == '-' || chars[n - 1] == '-' {
        return false;
    }
    let mut i: usize = 0;
    while i < n
        invariant
            n == chars@.len(),
            i <= n,
            chars@ == label@,
            forall|j: int| 0 <= j < i ==> is_label_char(#[trigger] label@[j]),
        decreases n - i,
    {
        let c: char = chars[i];
        if !((c >= 'a' && c <= 'z') || (c >= 'A' && c <= 'Z') || (c >= '0' && c <= '9') || c == '-') {
            assert(!is_label_char(label@[i as int]));
            return false;
        }
        i += 1;
    }
    true
}

fn host_name_ok(host: &str) -> (r: bool)
    ensures
        r == is_host_name(host@),
{
    if byte_len(host) > 253 {
        return false;
    }
    let labels = split(host, '.');
    let mut i: usize = 0;
    while i < labels.len()
        invariant
            i <= labels@.len(),
            views(labels@) == split_on(host@, '.'),
            forall|j: int| 0 <= j < i ==> is_label(#[trigger] split_on(host@, '.')[j]),
        decreases labels@.len() - i,
    {
        assert(views(labels@)[i as int] == labels@[i as int]@);
        if !label_ok(&labels[i]) {
            assert(!is_label(split_on(host@, '.')[i as int]));
            return false;
        }
        i += 1;
    }
    true
}

/// What is wrong with an entry of the allowlist, where these texts are IP
/// addresses.
pub open spec fn host_problem(host: Seq<char>, addresses: Seq<Seq<char>>) -> Option<Problem> {
    if lists(addresses, host) || is_host_name(host) {
        None
    } else {
        Some(
            (
                "PULSE_TARGET_ALLOWLIST"@,
                "entries must be hostnames or IP addresses without schemes, paths, or ports"@,
            ),
        )
    }
}

/// Checks an entry of the allowlist. `addresses` holds the texts that are IP
/// addresses.
pub fn validate_allowlist_host(host: &str, addresses: &Vec<String>) -> (r: Result<(), ConfigError>)
    ensures
        reports(r, host_problem(host@, views(addresses@))),
{
    if listed(addresses, host) || host_name_ok(host) {
        return Ok(());
    }
    Err(
        ConfigError::invalid(
            "PULSE_TARGET_ALLOWLIST",
            "entries must be hostnames or IP addresses without schemes, paths, or ports",
        ),
    )
}

/// The entries of an allowlist as they are compared: trimmed and in small letters.
pub open spec fn allowlist_entries_of(raw: Seq<char>) -> Seq<Seq<char>> {
    split_on(raw, ',').map_values(|e: Seq<char>| ascii_lower(trimmed(e)))
}

/// The entries of an allowlist as they are compared.
pub fn allowlist_entries(raw: &str) -> (r: Vec<String>)
    ensures
        views(r@) == allowlist_entries_of(raw@),
{
    let parts = split(raw, ',');
    let mut r: Vec<String> = Vec::new();
    let mut i: usize = 0;
    let ghost all = allowlist_entries_of(raw@);
    assert(views(r@) =~= all.take(0));
    while i < parts.len()
        invariant
            i <= parts@.len(),
            views(parts@) == split_on(raw@, ','),
            all == allowlist_entries_of(raw@),
            views(r@) == all.take(i as int),
        decreases parts@.len() - i,
    {
        let ghost before = views(r@);
        let entry = to_ascii_lower(&trim(&parts[i]));
        proof {
            assert(views(parts@)[i as int] == parts@[i as int]@);
            assert(all[i as int] == entry@);
        }
        r.push(entry);
        assert(views(r@) =~= before.push(entry@));
        assert(all.take(i + 1) =~= all.take(i as int).push(all[i as int]));
        i += 1;
    }
    assert(all.take(i as int) =~= all);
    r
}

/// What is wrong with one entry of an allowlist.
pub open spec fn entry_problem(entry: Seq<char>, addresses: Seq<Seq<char>>) -> Option<Problem> {
    if entry.len() == 0 {
        Some(("PULSE_TARGET_ALLOWLIST"@, "must not contain empty entries"@))
    } else {
        host_problem(entry, addresses)
    }
}

/// The entries without repetitions, or what is wrong with the first bad one.
pub open spec fn distinct_hosts(entries: Seq<Seq<char>>, addresses: Seq<Seq<char>>) -> Result<
    Seq<Seq<char>>,
    Problem,
>
    decreases entries.len(),
{
    if entries.len() == 0 {
        Ok(Seq::empty())
    } else {
        match distinct_hosts(entries.drop_last(), addresses) {
            Err(p) => Err(p),
            Ok(before) => if entry_problem(entries.last(), addresses) is Some {
                Err(entry_problem(entries.last(), addresses)->0)
            } else if before.contains(entries.last()) {
                Ok(before)
            } else {
                Ok(before.push(entries.last()))
            },
        }
    }
}

proof fn lemma_distinct_fail(entries: Seq<Seq<char>>, addresses: Seq<Seq<char>>, k: int)
    requires
        0 <= k <= entries.len(),
        distinct_hosts(entries.take(k), addresses) is Err,
    ensures
        distinct_hosts(entries, addresses) == distinct_hosts(entries.take(k), addresses),
    decreases entries.len(),
{
    if k == entries.len() {
        assert(entries.take(k) == entries);
    } else {
        assert(entries.drop_last().take(k) == entries.take(k));
        lemma_distinct_fail(entries.drop_last(), addresses, k);
    }
}

/// The hosts of an allowlist, each once and in the order of their first occurrence.
pub fn parse_allowlist(raw: &str, addresses: &Vec<String>) -> (r: Result<Vec<String>, ConfigError>)
    ensures
        match r {
            Ok(hosts) => distinct_hosts(allowlist_entries_of(raw@), views(addresses@)) == Ok::<
                _,
                Problem,
            >(views(hosts@)),
            Err(e) => distinct_hosts(
                allowlist_entries_of(raw@),
                views(addresses@),
            ) matches Err(p) && e.is_invalid(p),
        },
{
    let entries = allowlist_entries(raw);
    let ghost all = views(entries@);
    let mut hosts: Vec<String> = Vec::new();
    let mut i: usize = 0;
    assert(all.take(0) == Seq::<Seq<char>>::empty());
    assert(views(hosts@) =~= Seq::<Seq<char>>::empty());
    while i < entries.len()
        invariant
            all == views(entries@),
            all == allowlist_entries_of(raw@),
            i <= entries@.len(),
            distinct_hosts(all.take(i as int), views(addresses@)) == Ok::<_, Problem>(
                views(hosts@),
            ),
        decreases entries@.len() - i,
    {
        proof {
            assert(all.take(i + 1).drop_last() == all.take(i as int));
            assert(all.take(i + 1).last() == entries@[i as int]@);
            if distinct_hosts(all.take(i + 1), views(addresses@)) is Err {
                lemma_distinct_fail(all, views(addresses@), i + 1);
            }
        }
        let host = &entries[i];
        if str_is_empty(host) {
            return Err(
                ConfigError::invalid("PULSE_TARGET_ALLOWLIST", "must not contain empty entries"),
            );
        }
        validate_allowlist_host(host, addresses)?;
        if !listed(&hosts, host) {
            let ghost before = views(hosts@);
            hosts.push(copy_str(host));
            assert(views(hosts@) =~= before.push(host@));
        }
        i += 1;
    }
    assert(all.take(i as int) == all);
    Ok(hosts)
}

} // verus!
