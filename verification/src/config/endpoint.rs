//! Addresses of services: broker lists and endpoint URLs.
use vstd::prelude::*;
use super::error::{reports, ConfigError};
#[allow(unused_imports)]
use super::error::Problem;
use crate::text::{
    blank, chars_of, concat2, contains_char, copy_str, split, str_eq, str_is_empty, string_of,
    to_ascii_lower, trim,
};
#[allow(unused_imports)]
use crate::text::{ascii_lower, is_blank, opt_view, split_on, trimmed, views};

verus! {

/// The parts of a URI that the rules speak of.
#[derive(Debug)]
pub struct UriParts {
    pub scheme: Option<String>,
    pub host: Option<String>,
    pub port: Option<u16>,
    pub path: String,
    pub query: Option<String>,
}

/// The parts of a URI: scheme, host, port, path and query.
pub type UriView = (
    Option<Seq<char>>,
    Option<Seq<char>>,
    Option<u16>,
    Seq<char>,
    Option<Seq<char>>,
);

impl View for UriParts {
    type V = UriView;

    open spec fn view(&self) -> UriView {
        (
            opt_view(self.scheme),
            opt_view(self.host),
            self.port,
            self.path@,
            opt_view(self.query),
        )
    }
}

/// What `tonic::transport::Endpoint::from_shared` makes of a text: the scheme, the
/// host, the port, the path and the query of the URI, or the error in words.
pub uninterp spec fn parsed_endpoint(text: Seq<char>) -> Result<
    (Option<Seq<char>>, Option<Seq<char>>, Option<u16>, Seq<char>, Option<Seq<char>>),
    Seq<char>,
>;

/// `tonic::transport::Endpoint::from_shared`: parses a text as the URI of an
/// endpoint. The parts are read off the URI as it stands there; which texts are
/// accepted, and how they fall into parts, is left to that function.
#[verifier::external_body]
fn parse_endpoint(text: &str) -> (r: Result<UriParts, String>)
    ensures
        match r {
            Ok(parts) => parsed_endpoint(text@) == Ok::<UriView, Seq<char>>(parts@),
            Err(m) => parsed_endpoint(text@) == Err::<UriView, Seq<char>>(m@),
        },
{
    match tonic::transport::Endpoint::from_shared(text.to_string()) {
        Ok(endpoint) => Ok(UriParts {
            scheme: endpoint.uri().scheme_str().map(str::to_string),
            host: endpoint.uri().host().map(str::to_string),
            port: endpoint.uri().port_u16(),
            path: endpoint.uri().path().to_string(),
            query: endpoint.uri().query().map(str::to_string),
        }),
        Err(error) => Err(error.to_string()),
    }
}

/// Whether a path is that of an origin.
pub open spec fn is_origin_path(path: Seq<char>) -> bool {
    path == ""@ || path == "/"@
}

fn origin_path(path: &str) -> (r: bool)
    ensures
        r == is_origin_path(path@),
{
    str_eq(path, "") || str_eq(path, "/")
}

// ---------------------------------------------------------------------------
// Brokers
// ---------------------------------------------------------------------------

/// Whether a text names a URL scheme.
pub open spec fn has_scheme_mark(s: Seq<char>) -> bool {
    exists|i: int| 0 <= i && i + 3 <= s.len() && #[trigger] s.subrange(i, i + 3) == "://"@
}

fn scheme_mark(s: &str) -> (r: bool)
    ensures
        r == has_scheme_mark(s@),
{
    proof {
        reveal_strlit("://");
    }
    let chars = chars_of(s);
    let n: usize = chars.len();
    let mut i: usize = 0;
    while i < n && n - i > 2
        invariant
            n == chars@.len(),
            i <= n,
            chars@ == s@,
            "://"@.len() == 3,
            "://"@[0] == ':',
            "://"@[1] == '/',
            "://"@[2] == '/',
            forall|j: int| 0 <= j < i ==> #[trigger] s@.subrange(j, j + 3) != "://"@,
        decreases chars@.len() - i,
    {
        let ghost part = s@.subrange(i as int, i + 3);
        assert(part.len() == 3 && part[0] == chars@[i as int] && part[1] == chars@[i + 1] && part[2]
            == chars@[i + 2]);
        if chars[i] == ':' && chars[i + 1] == '/' && chars[i + 2] == '/' {
            assert(part =~= "://"@);
            return true;
        }
        i += 1;
    }
    false
}

/// What is wrong with a broker, given what its address parses to.
pub open spec fn authority_problem(uri: Result<UriView, Seq<char>>) -> Option<Problem> {
    match uri {
        Err(_) => Some(("PULSE_KAFKA_BROKERS"@, "contains an invalid broker authority"@)),
        Ok((scheme, host, port, path, query)) => if host is None || port is None || !is_origin_path(
            path,
        ) || query is Some {
            Some(("PULSE_KAFKA_BROKERS"@, "every broker must include a host and numeric port"@))
        } else {
            None
        },
    }
}

/// What is wrong with one entry of the broker list.
pub open spec fn broker_problem(entry: Seq<char>) -> Option<Problem> {
    let broker = trimmed(entry);
    if broker.len() == 0 || has_scheme_mark(broker) {
        Some(
            (
                "PULSE_KAFKA_BROKERS"@,
                "must be a comma-separated list of host:port authorities without URL schemes"@,
            ),
        )
    } else {
        authority_problem(parsed_endpoint("http://"@ + broker))
    }
}

/// What is wrong with the first bad entry of a broker list.
pub open spec fn entries_problem(entries: Seq<Seq<char>>) -> Option<Problem>
    decreases entries.len(),
{
    if entries.len() == 0 {
        None
    } else if entries_problem(entries.drop_last()) is Some {
        entries_problem(entries.drop_last())
    } else {
        broker_problem(entries.last())
    }
}

/// What is wrong with a broker list.
pub open spec fn brokers_problem(brokers: Seq<char>) -> Option<Problem> {
    if is_blank(brokers) {
        Some(("PULSE_KAFKA_BROKERS"@, "must not be empty or whitespace-only"@))
    } else {
        entries_problem(split_on(brokers, ','))
    }
}

/// Checks what the address of a broker parses to.
pub fn check_authority(uri: Result<UriParts, String>) -> (r: Result<(), ConfigError>)
    ensures
        reports(
            r,
            authority_problem(
                match uri {
                    Ok(parts) => Ok(parts@),
                    Err(m) => Err(m@),
                },
            ),
        ),
{
    match uri {
        Err(_) => Err(
            ConfigError::invalid("PULSE_KAFKA_BROKERS", "contains an invalid broker authority"),
        ),
        Ok(parts) => {
            if parts.host.is_none() || parts.port.is_none() || !origin_path(&parts.path)
                || parts.query.is_some() {
                Err(
                    ConfigError::invalid(
                        "PULSE_KAFKA_BROKERS",
                        "every broker must include a host and numeric port",
                    ),
                )
            } else {
                Ok(())
            }
        },
    }
}

proof fn lemma_entries_stay(entries: Seq<Seq<char>>, k: int)
    requires
        0 <= k <= entries.len(),
        entries_problem(entries.take(k)) is Some,
    ensures
        entries_problem(entries) == entries_problem(entries.take(k)),
    decreases entries.len(),
{
    if k == entries.len() {
        assert(entries.take(k) == entries);
    } else {
        assert(entries.drop_last().take(k) == entries.take(k));
        lemma_entries_stay(entries.drop_last(), k);
    }
}

/// Checks a broker list.
pub fn validate_brokers(brokers: &str) -> (r: Result<(), ConfigError>)
    ensures
        reports(r, brokers_problem(brokers@)),
{
    if blank(brokers) {
        return Err(
            ConfigError::invalid("PULSE_KAFKA_BROKERS", "must not be empty or whitespace-only"),
        );
    }
    let entries = split(brokers, ',');
    let ghost all = views(entries@);
    let mut i: usize = 0;
    assert(all.take(0) == Seq::<Seq<char>>::empty());
    while i < entries.len()
        invariant
            all == views(entries@),
            all == split_on(brokers@, ','),
            !is_blank(brokers@),
            i <= entries@.len(),
            entries_problem(all.take(i as int)) is None,
        decreases entries@.len() - i,
    {
        proof {
            assert(all.take(i + 1).drop_last() == all.take(i as int));
            assert(all.take(i + 1).last() == entries@[i as int]@);
            if entries_problem(all.take(i + 1)) is Some {
                lemma_entries_stay(all, i + 1);
            }
        }
        let broker = trim(&entries[i]);
        if str_is_empty(&broker) || scheme_mark(&broker) {
            return Err(
                ConfigError::invalid(
                    "PULSE_KAFKA_BROKERS",
                    "must be a comma-separated list of host:port authorities without URL schemes",
                ),
            );
        }
        check_authority(parse_endpoint(&concat2("http://", &broker)))?;
        i += 1;
    }
    assert(all.take(i as int) == all);
    Ok(())
}

// ---------------------------------------------------------------------------
// Endpoints
// ---------------------------------------------------------------------------

/// A host without the brackets of an IPv6 address.
pub open spec fn without_brackets(host: Seq<char>) -> Seq<char> {
    if host.len() >= 2 && host[0] == '[' && host.last() == ']' {
        host.subrange(1, host.len() - 1)
    } else {
        host
    }
}

/// The host of an endpoint, given what its URL parses to, or what is wrong with it.
pub open spec fn host_of(name: Seq<char>, uri: Result<UriView, Seq<char>>) -> Result<
    Seq<char>,
    Problem,
> {
    match uri {
        Err(m) => Err((name, "invalid endpoint URL: "@ + m)),
        Ok((scheme, host, port, path, query)) => if scheme == Some("https"@) {
            Err(
                (
                    name,
                    "https endpoints are not supported because this Pulse build has no gRPC TLS transport; use http:// only on a trusted network"@,
                ),
            )
        } else if scheme != Some("http"@) {
            Err(
                (
                    name,
                    "endpoint URL scheme must be http; this Pulse build supports plaintext gRPC only"@,
                ),
            )
        } else if !is_origin_path(path) || query is Some {
            Err((name, "endpoint URL must not contain a path or query"@))
        } else {
            match host {
                Some(h) => Ok(ascii_lower(without_brackets(h))),
                None => Err((name, "endpoint URL must include a host"@)),
            }
        },
    }
}

fn strip_brackets(host: &str) -> (r: String)
    ensures
        r@ == without_brackets(host@),
{
    let chars = chars_of(host);
    let n: usize = chars.len();
    if n >= 2 && chars[0] == '[' && chars[n - 1] == ']' {
        string_of(&chars, 1, n - 1)
    } else {
        copy_str(host)
    }
}

/// The host of an endpoint, given what its URL parses to.
pub fn host_of_parts(name: &str, uri: Result<UriParts, String>) -> (r: Result<String, ConfigError>)
    ensures
        ({
            let expected = host_of(
                name@,
                match uri {
                    Ok(parts) => Ok(parts@),
                    Err(m) => Err(m@),
                },
            );
            match r {
                Ok(host) => expected == Ok::<Seq<char>, Problem>(host@),
                Err(e) => expected matches Err(p) && e.is_invalid(p),
            }
        }),
{
    proof {
        reveal_strlit("http");
        reveal_strlit("https");
        assert("http"@.len() != "https"@.len());
    }
    let parts = match uri {
        Ok(parts) => parts,
        Err(m) => {
            return Err(ConfigError::invalid(name, &concat2("invalid endpoint URL: ", &m)));
        },
    };
    let plain: bool = match &parts.scheme {
        Some(scheme) => {
            if str_eq(scheme, "https") {
                return Err(
                    ConfigError::invalid(
                        name,
                        "https endpoints are not supported because this Pulse build has no gRPC TLS transport; use http:// only on a trusted network",
                    ),
                );
            }
            str_eq(scheme, "http")
        },
        None => false,
    };
    if !plain {
        return Err(
            ConfigError::invalid(
                name,
                "endpoint URL scheme must be http; this Pulse build supports plaintext gRPC only",
            ),
        );
    }
    if !origin_path(&parts.path) || parts.query.is_some() {
        return Err(
            ConfigError::invalid(name, "endpoint URL must not contain a path or query"),
        );
    }
    match &parts.host {
        Some(host) => Ok(to_ascii_lower(&strip_brackets(host))),
        None => Err(ConfigError::invalid(name, "endpoint URL must include a host")),
    }
}

/// The host of an endpoint URL.
pub fn endpoint_host(name: &str, value: &str) -> (r: Result<String, ConfigError>)
    ensures
        match r {
            Ok(host) => host_of(name@, parsed_endpoint(value@)) == Ok::<Seq<char>, Problem>(host@),
            Err(e) => host_of(name@, parsed_endpoint(value@)) matches Err(p) && e.is_invalid(p),
        },
{
    host_of_parts(name, parse_endpoint(value))
}

} // verus!
