//! Settings read from environment variables and files.
use std::time::Duration;
use vstd::prelude::*;
use super::app::{AddressFacts, AppConfig};
#[allow(unused_imports)]
use super::app::{acks_all, config_problem};
use super::error::ConfigError;
#[allow(unused_imports)]
use super::error::Problem;
use super::hosts::{allowlist_entries, parse_allowlist};
#[allow(unused_imports)]
use super::hosts::{allowlist_entries_of, distinct_hosts};
use super::rate::{Rate, DEFAULT_RATE_BITS};
use super::rules::trimmed_non_empty;
#[allow(unused_imports)]
use super::rules::blank_problem;
#[allow(unused_imports)]
use crate::durations::nanos;
use crate::text::{
    concat2, copy_str, parse_i32, parse_u32, parse_u64, parse_usize, str_eq, to_ascii_lower,
};
#[allow(unused_imports)]
use crate::text::{
    ascii_lower, is_blank, opt_view, parsed_signed, parsed_unsigned, trimmed, views,
};

verus! {

/// What a variable holds.
#[derive(Debug)]
pub enum EnvValue {
    Text(String),
    NotUnicode,
}

/// What a variable holds.
pub enum RawValue {
    Text(Seq<char>),
    NotUnicode,
}

/// What settings are read from: the variables, the files that they name and what
/// the rate variable denotes as a number.
#[derive(Debug)]
pub struct ConfigSource {
    /// The variables by name.
    pub variables: Vec<(String, EnvValue)>,
    /// What was found in files: the content, or why it could not be read.
    pub files: Vec<(String, Result<String, String>)>,
    /// The bits of the double that the rate variable denotes; none where it denotes
    /// no number.
    pub rate_bits: Option<u64>,
    /// The name of a node that is given none.
    pub default_node_id: String,
}

/// Why a setting could not be read.
pub enum SourceProblem {
    Environment(Seq<char>, Seq<char>),
    File(Seq<char>, Seq<char>, Seq<char>),
    Invalid(Seq<char>, Seq<char>),
}

impl ConfigError {
    /// Whether this reports a problem of the sources.
    pub open spec fn is_source(self, problem: SourceProblem) -> bool {
        match problem {
            SourceProblem::Environment(name, reason) => self.is_environment(name, reason),
            SourceProblem::File(name, path, reason) => self.is_file(name, path, reason),
            SourceProblem::Invalid(name, reason) => self.is_invalid((name, reason)),
        }
    }
}

/// The first of two problems, where there is one.
pub open spec fn sooner(a: Option<SourceProblem>, b: Option<SourceProblem>) -> Option<SourceProblem> {
    if a is Some {
        a
    } else {
        b
    }
}

/// What the first variable of a name holds.
pub open spec fn variable(variables: Seq<(String, EnvValue)>, name: Seq<char>) -> Option<RawValue>
    decreases variables.len(),
{
    if variables.len() == 0 {
        None
    } else if variables[0].0@ == name {
        match variables[0].1 {
            EnvValue::Text(text) => Some(RawValue::Text(text@)),
            EnvValue::NotUnicode => Some(RawValue::NotUnicode),
        }
    } else {
        variable(variables.skip(1), name)
    }
}

/// What was found in the first file of a path.
pub open spec fn file_at(files: Seq<(String, Result<String, String>)>, path: Seq<char>) -> Result<
    Seq<char>,
    Seq<char>,
>
    decreases files.len(),
{
    if files.len() == 0 {
        Err("file was not read"@)
    } else if files[0].0@ == path {
        match files[0].1 {
            Ok(content) => Ok(content@),
            Err(reason) => Err(reason@),
        }
    } else {
        file_at(files.skip(1), path)
    }
}

/// What is wrong with a variable that is not valid Unicode.
pub open spec fn unicode_problem(name: Seq<char>) -> SourceProblem {
    SourceProblem::Environment(name, "value is not valid Unicode"@)
}

/// What is wrong with an empty value.
pub open spec fn empty_problem(name: Seq<char>) -> SourceProblem {
    SourceProblem::Invalid(name, "must not be empty or whitespace-only"@)
}

/// Whether a variable is set.
pub open spec fn is_set(s: ConfigSource, name: Seq<char>) -> bool {
    variable(s.variables@, name) is Some
}

/// The text of a variable, or the default where it is not set, without the white
/// space at its ends.
pub open spec fn text_value(s: ConfigSource, name: Seq<char>, default: Seq<char>) -> Seq<char> {
    match variable(s.variables@, name) {
        Some(RawValue::Text(text)) => trimmed(text),
        _ => trimmed(default),
    }
}

/// What is wrong with a variable that must hold a text.
pub open spec fn text_problem(s: ConfigSource, name: Seq<char>, default: Seq<char>) -> Option<
    SourceProblem,
> {
    if variable(s.variables@, name) matches Some(RawValue::NotUnicode) {
        Some(unicode_problem(name))
    } else if text_value(s, name, default).len() == 0 {
        Some(empty_problem(name))
    } else {
        None
    }
}

/// What is wrong with a variable that must hold a text where it is set.
pub open spec fn set_problem(s: ConfigSource, name: Seq<char>) -> Option<SourceProblem> {
    if is_set(s, name) {
        text_problem(s, name, ""@)
    } else {
        None
    }
}

/// The text of a variable where it is set.
pub open spec fn optional_value(s: ConfigSource, name: Seq<char>) -> Option<Seq<char>> {
    if is_set(s, name) {
        Some(text_value(s, name, ""@))
    } else {
        None
    }
}

/// What is wrong with a variable that must hold a number of at most `max`, where it
/// is set.
pub open spec fn number_problem(s: ConfigSource, name: Seq<char>, max: nat, kind: Seq<char>) -> Option<
    SourceProblem,
> {
    sooner(
        set_problem(s, name),
        if is_set(s, name) && parsed_unsigned(text_value(s, name, ""@), max) is None {
            Some(SourceProblem::Invalid(name, "must be a valid "@ + kind))
        } else {
            None
        },
    )
}

/// The number of a variable, or the default where it is not set.
pub open spec fn number_value(s: ConfigSource, name: Seq<char>, default: nat, max: nat) -> nat {
    if is_set(s, name) {
        parsed_unsigned(text_value(s, name, ""@), max)->0
    } else {
        default
    }
}

/// What is wrong with a variable that must hold a signed number of 32 bits, where it
/// is set.
pub open spec fn signed_problem(s: ConfigSource, name: Seq<char>) -> Option<SourceProblem> {
    sooner(
        set_problem(s, name),
        if is_set(s, name) && parsed_signed(
            text_value(s, name, ""@),
            i32::MIN as int,
            i32::MAX as int,
        ) is None {
            Some(SourceProblem::Invalid(name, "must be a valid "@ + "i32"@))
        } else {
            None
        },
    )
}

/// The signed number of a variable, or the default where it is not set.
pub open spec fn signed_value(s: ConfigSource, name: Seq<char>, default: int) -> int {
    if is_set(s, name) {
        parsed_signed(text_value(s, name, ""@), i32::MIN as int, i32::MAX as int)->0
    } else {
        default
    }
}

/// The milliseconds of a variable, or the default where it is not set.
pub open spec fn ms_value(s: ConfigSource, name: Seq<char>, default: nat) -> nat {
    number_value(s, name, default, u64::MAX as nat)
}

/// What is wrong with a variable that must hold milliseconds above zero.
pub open spec fn ms_problem(s: ConfigSource, name: Seq<char>, default: nat) -> Option<SourceProblem> {
    sooner(
        number_problem(s, name, u64::MAX as nat, "u64"@),
        if ms_value(s, name, default) == 0 {
            Some(SourceProblem::Invalid(name, "must be greater than zero"@))
        } else {
            None
        },
    )
}

/// Whether a text in small letters means yes, or no.
pub open spec fn flag_of(text: Seq<char>) -> Option<bool> {
    if text == "true"@ || text == "1"@ {
        Some(true)
    } else if text == "false"@ || text == "0"@ {
        Some(false)
    } else {
        None
    }
}

/// What is wrong with a variable that must hold yes or no, where it is set.
pub open spec fn flag_problem(s: ConfigSource, name: Seq<char>) -> Option<SourceProblem> {
    sooner(
        set_problem(s, name),
        if is_set(s, name) && flag_of(ascii_lower(text_value(s, name, ""@))) is None {
            Some(SourceProblem::Invalid(name, "must be one of: true, false, 1, 0"@))
        } else {
            None
        },
    )
}

/// The yes or no of a variable, or the default where it is not set.
pub open spec fn flag_value(s: ConfigSource, name: Seq<char>, default: bool) -> bool {
    if is_set(s, name) {
        flag_of(ascii_lower(text_value(s, name, ""@)))->0
    } else {
        default
    }
}

/// What is wrong with the rate variable, where it is set.
pub open spec fn rate_problem(s: ConfigSource, name: Seq<char>) -> Option<SourceProblem> {
    sooner(
        set_problem(s, name),
        if is_set(s, name) && s.rate_bits is None {
            Some(SourceProblem::Invalid(name, "must be a valid "@ + "f64"@))
        } else {
            None
        },
    )
}

/// The bits of the rate, or those of the default where it is not set.
pub open spec fn rate_value(s: ConfigSource, name: Seq<char>) -> u64 {
    if is_set(s, name) {
        s.rate_bits->0
    } else {
        DEFAULT_RATE_BITS
    }
}

/// The text of a variable, or of the file that the variable with `_FILE` behind its
/// name gives, or the default.
pub open spec fn secret_of(s: ConfigSource, name: Seq<char>, default: Seq<char>) -> Result<
    Seq<char>,
    SourceProblem,
> {
    let file_name = name + "_FILE"@;
    let direct = variable(s.variables@, name);
    let file = variable(s.variables@, file_name);
    if direct matches Some(RawValue::NotUnicode) {
        Err(unicode_problem(name))
    } else if file matches Some(RawValue::NotUnicode) {
        Err(unicode_problem(file_name))
    } else if direct is Some && file is Some {
        Err(SourceProblem::Invalid(name, "cannot be set together with "@ + file_name))
    } else if direct is Some || file is None {
        if text_value(s, name, default).len() == 0 {
            Err(empty_problem(name))
        } else {
            Ok(text_value(s, name, default))
        }
    } else {
        let path = text_value(s, file_name, ""@);
        if path.len() == 0 {
            Err(empty_problem(file_name))
        } else {
            match file_at(s.files@, path) {
                Err(reason) => Err(SourceProblem::File(name, path, reason)),
                Ok(content) => if is_blank(content) {
                    Err(SourceProblem::File(name, path, "file is empty or whitespace-only"@))
                } else {
                    Ok(trimmed(content))
                },
            }
        }
    }
}

/// What is wrong with a text that a variable or a file gives.
pub open spec fn secret_problem(s: ConfigSource, name: Seq<char>, default: Seq<char>) -> Option<
    SourceProblem,
> {
    match secret_of(s, name, default) {
        Ok(_) => None,
        Err(p) => Some(p),
    }
}

impl ConfigSource {
    fn find(&self, name: &str) -> (r: Option<&EnvValue>)
        ensures
            match r {
                Some(EnvValue::Text(text)) => variable(self.variables@, name@) == Some(
                    RawValue::Text(text@),
                ),
                Some(EnvValue::NotUnicode) => variable(self.variables@, name@) == Some(
                    RawValue::NotUnicode,
                ),
                None => variable(self.variables@, name@) is None,
            },
    {
        let mut i: usize = 0;
        assert(self.variables@.skip(0) == self.variables@);
        while i < self.variables.len()
            invariant
                i <= self.variables@.len(),
                variable(self.variables@.skip(i as int), name@) == variable(self.variables@, name@),
            decreases self.variables@.len() - i,
        {
            let ghost rest = self.variables@.skip(i as int);
            assert(rest[0] == self.variables@[i as int]);
            assert(rest.skip(1) == self.variables@.skip(i + 1));
            if str_eq(&self.variables[i].0, name) {
                return Some(&self.variables[i].1);
            }
            i += 1;
        }
        None
    }

    fn read_file(&self, path: &str) -> (r: Result<String, String>)
        ensures
            match r {
                Ok(content) => file_at(self.files@, path@) == Ok::<_, Seq<char>>(content@),
                Err(reason) => file_at(self.files@, path@) == Err::<Seq<char>, _>(reason@),
            },
    {
        let mut i: usize = 0;
        assert(self.files@.skip(0) == self.files@);
        while i < self.files.len()
            invariant
                i <= self.files@.len(),
                file_at(self.files@.skip(i as int), path@) == file_at(self.files@, path@),
            decreases self.files@.len() - i,
        {
            let ghost rest = self.files@.skip(i as int);
            assert(rest[0] == self.files@[i as int]);
            assert(rest.skip(1) == self.files@.skip(i + 1));
            if str_eq(&self.files[i].0, path) {
                return match &self.files[i].1 {
                    Ok(content) => Ok(copy_str(content)),
                    Err(reason) => Err(copy_str(reason)),
                };
            }
            i += 1;
        }
        Err(copy_str("file was not read"))
    }

    /// The text of a variable where it is set.
    fn raw(&self, name: &str) -> (r: Result<Option<&String>, ConfigError>)
        ensures
            match r {
                Ok(Some(text)) => variable(self.variables@, name@) == Some(RawValue::Text(text@)),
                Ok(None) => variable(self.variables@, name@) is None,
                Err(e) => variable(self.variables@, name@) == Some(RawValue::NotUnicode)
                    && e.is_source(unicode_problem(name@)),
            },
    {
        match self.find(name) {
            Some(EnvValue::Text(text)) => Ok(Some(text)),
            Some(EnvValue::NotUnicode) => Err(
                ConfigError::environment(name, "value is not valid Unicode"),
            ),
            None => Ok(None),
        }
    }

    /// The text of a variable, or the default.
    pub fn string(&self, name: &str, default: &str) -> (r: Result<String, ConfigError>)
        ensures
            match r {
                Ok(text) => text_problem(*self, name@, default@) is None && text@ == text_value(
                    *self,
                    name@,
                    default@,
                ),
                Err(e) => text_problem(*self, name@, default@) matches Some(p) && e.is_source(p),
            },
    {
        match self.raw(name)? {
            Some(text) => trimmed_non_empty(name, text),
            None => trimmed_non_empty(name, default),
        }
    }

    /// The text of a variable where it is set.
    pub fn optional_string(&self, name: &str) -> (r: Result<Option<String>, ConfigError>)
        ensures
            match r {
                Ok(text) => set_problem(*self, name@) is None && opt_view(text) == optional_value(
                    *self,
                    name@,
                ),
                Err(e) => set_problem(*self, name@) matches Some(p) && e.is_source(p),
            },
    {
        match self.raw(name)? {
            Some(text) => match trimmed_non_empty(name, text) {
                Ok(value) => Ok(Some(value)),
                Err(e) => Err(e),
            },
            None => Ok(None),
        }
    }

    /// The text of a variable or of the file that another variable names.
    pub fn string_with_file(&self, name: &str, default: &str) -> (r: Result<String, ConfigError>)
        ensures
            match r {
                Ok(text) => secret_of(*self, name@, default@) == Ok::<_, SourceProblem>(text@),
                Err(e) => secret_of(*self, name@, default@) matches Err(p) && e.is_source(p),
            },
    {
        let file_name = concat2(name, "_FILE");
        let direct = self.raw(name)?;
        let file_path = self.raw(&file_name)?;
        if direct.is_some() && file_path.is_some() {
            return Err(
                ConfigError::invalid(name, &concat2("cannot be set together with ", &file_name)),
            );
        }
        if let Some(value) = direct {
            return trimmed_non_empty(name, value);
        }
        if let Some(path) = file_path {
            let path = trimmed_non_empty(&file_name, path)?;
            let content = match self.read_file(&path) {
                Ok(content) => content,
                Err(reason) => {
                    return Err(ConfigError::file(name, &path, &reason));
                },
            };
            return match trimmed_non_empty(name, &content) {
                Ok(value) => Ok(value),
                Err(_) => Err(ConfigError::file(name, &path, "file is empty or whitespace-only")),
            };
        }
        trimmed_non_empty(name, default)
    }

    /// The error of a variable that holds no number.
    fn not_a(&self, name: &str, kind: &str) -> (e: ConfigError)
        ensures
            e.is_source(SourceProblem::Invalid(name@, "must be a valid "@ + kind@)),
    {
        ConfigError::invalid(name, &concat2("must be a valid ", kind))
    }

    /// The size of a variable, or the default.
    pub fn parse_size(&self, name: &str, default: usize) -> (r: Result<usize, ConfigError>)
        ensures
            match r {
                Ok(n) => number_problem(*self, name@, usize::MAX as nat, "usize"@) is None && n
                    == number_value(*self, name@, default as nat, usize::MAX as nat),
                Err(e) => number_problem(*self, name@, usize::MAX as nat, "usize"@) matches Some(p)
                    && e.is_source(p),
            },
    {
        match self.optional_string(name)? {
            None => Ok(default),
            Some(text) => match parse_usize(&text) {
                Some(n) => Ok(n),
                None => Err(self.not_a(name, "usize")),
            },
        }
    }

    /// The number of a variable, or the default.
    pub fn parse_count(&self, name: &str, default: u32) -> (r: Result<u32, ConfigError>)
        ensures
            match r {
                Ok(n) => number_problem(*self, name@, u32::MAX as nat, "u32"@) is None && n
                    == number_value(*self, name@, default as nat, u32::MAX as nat),
                Err(e) => number_problem(*self, name@, u32::MAX as nat, "u32"@) matches Some(p)
                    && e.is_source(p),
            },
    {
        match self.optional_string(name)? {
            None => Ok(default),
            Some(text) => match parse_u32(&text) {
                Some(n) => Ok(n),
                None => Err(self.not_a(name, "u32")),
            },
        }
    }

    /// The long number of a variable, or the default.
    pub fn parse_long(&self, name: &str, default: u64) -> (r: Result<u64, ConfigError>)
        ensures
            match r {
                Ok(n) => number_problem(*self, name@, u64::MAX as nat, "u64"@) is None && n
                    == number_value(*self, name@, default as nat, u64::MAX as nat),
                Err(e) => number_problem(*self, name@, u64::MAX as nat, "u64"@) matches Some(p)
                    && e.is_source(p),
            },
    {
        match self.optional_string(name)? {
            None => Ok(default),
            Some(text) => match parse_u64(&text) {
                Some(n) => Ok(n),
                None => Err(self.not_a(name, "u64")),
            },
        }
    }

    /// The signed number of a variable, or the default.
    pub fn parse_signed(&self, name: &str, default: i32) -> (r: Result<i32, ConfigError>)
        ensures
            match r {
                Ok(n) => signed_problem(*self, name@) is None && n == signed_value(
                    *self,
                    name@,
                    default as int,
                ),
                Err(e) => signed_problem(*self, name@) matches Some(p) && e.is_source(p),
            },
    {
        match self.optional_string(name)? {
            None => Ok(default),
            Some(text) => match parse_i32(&text) {
                Some(n) => Ok(n),
                None => Err(self.not_a(name, "i32")),
            },
        }
    }

    /// The rate that the rate variable denotes, or the default.
    pub fn parse_rate(&self, name: &str) -> (r: Result<Rate, ConfigError>)
        ensures
            match r {
                Ok(rate) => rate_problem(*self, name@) is None && rate.bits == rate_value(
                    *self,
                    name@,
                ),
                Err(e) => rate_problem(*self, name@) matches Some(p) && e.is_source(p),
            },
    {
        match self.optional_string(name)? {
            None => Ok(Rate { bits: DEFAULT_RATE_BITS }),
            Some(_) => match self.rate_bits {
                Some(bits) => Ok(Rate { bits }),
                None => Err(self.not_a(name, "f64")),
            },
        }
    }

    /// The milliseconds of a variable, or the default.
    pub fn duration_ms(&self, name: &str, default_ms: u64) -> (r: Result<Duration, ConfigError>)
        ensures
            match r {
                Ok(d) => ms_problem(*self, name@, default_ms as nat) is None && nanos(d)
                    == ms_value(*self, name@, default_ms as nat) * 1_000_000,
                Err(e) => ms_problem(*self, name@, default_ms as nat) matches Some(p)
                    && e.is_source(p),
            },
    {
        let ms: u64 = self.parse_long(name, default_ms)?;
        if ms == 0 {
            return Err(ConfigError::invalid(name, "must be greater than zero"));
        }
        Ok(Duration::from_millis(ms))
    }

    /// The yes or no of a variable, or the default.
    pub fn boolean(&self, name: &str, default: bool) -> (r: Result<bool, ConfigError>)
        ensures
            match r {
                Ok(b) => flag_problem(*self, name@) is None && b == flag_value(
                    *self,
                    name@,
                    default,
                ),
                Err(e) => flag_problem(*self, name@) matches Some(p) && e.is_source(p),
            },
    {
        match self.optional_string(name)? {
            None => Ok(default),
            Some(text) => {
                let value = to_ascii_lower(&text);
                if str_eq(&value, "true") || str_eq(&value, "1") {
                    Ok(true)
                } else if str_eq(&value, "false") || str_eq(&value, "0") {
                    Ok(false)
                } else {
                    Err(ConfigError::invalid(name, "must be one of: true, false, 1, 0"))
                }
            },
        }
    }
}

// ---------------------------------------------------------------------------
// Groups of settings
// ---------------------------------------------------------------------------

/// Settings: the names that Kafka knows.
pub struct KafkaNamesSettings {
    pub kafka_brokers: String,
    pub kafka_jobs_topic: String,
    pub kafka_results_topic: String,
    pub kafka_summaries_topic: String,
    pub kafka_dlq_topic: String,
    pub kafka_group_id: String,
    pub kafka_aggregator_group_id: String,
}

/// What is wrong with the names that Kafka knows.
pub open spec fn kafka_names_unread(s: ConfigSource) -> Option<SourceProblem> {
    sooner(
        text_problem(s, "PULSE_KAFKA_BROKERS"@, "localhost:9092"@),
        sooner(
            text_problem(s, "PULSE_KAFKA_JOBS_TOPIC"@, "pulse.scenario.jobs"@),
            sooner(
                text_problem(s, "PULSE_KAFKA_RESULTS_TOPIC"@, "pulse.scenario.results"@),
                sooner(
                    text_problem(s, "PULSE_KAFKA_SUMMARIES_TOPIC"@, "pulse.scenario.summaries"@),
                    sooner(
                        text_problem(s, "PULSE_KAFKA_DLQ_TOPIC"@, "pulse.scenario.dlq"@),
                        sooner(
                            text_problem(s, "PULSE_KAFKA_GROUP_ID"@, "pulse-workers"@),
                            text_problem(s, "PULSE_KAFKA_AGGREGATOR_GROUP_ID"@, "pulse-aggregators"@),
                        ),
                    ),
                ),
            ),
        ),
    )
}

impl KafkaNamesSettings {
    /// Whether these are the settings of the sources.
    pub open spec fn are_read(self, s: ConfigSource) -> bool {
        &&& self.kafka_brokers@ == text_value(s, "PULSE_KAFKA_BROKERS"@, "localhost:9092"@)
        &&& self.kafka_jobs_topic@ == text_value(s, "PULSE_KAFKA_JOBS_TOPIC"@, "pulse.scenario.jobs"@)
        &&& self.kafka_results_topic@ == text_value(s, "PULSE_KAFKA_RESULTS_TOPIC"@, "pulse.scenario.results"@)
        &&& self.kafka_summaries_topic@ == text_value(s, "PULSE_KAFKA_SUMMARIES_TOPIC"@, "pulse.scenario.summaries"@)
        &&& self.kafka_dlq_topic@ == text_value(s, "PULSE_KAFKA_DLQ_TOPIC"@, "pulse.scenario.dlq"@)
        &&& self.kafka_group_id@ == text_value(s, "PULSE_KAFKA_GROUP_ID"@, "pulse-workers"@)
        &&& self.kafka_aggregator_group_id@ == text_value(s, "PULSE_KAFKA_AGGREGATOR_GROUP_ID"@, "pulse-aggregators"@)
    }
}

fn read_kafka_names(s: &ConfigSource) -> (r: Result<KafkaNamesSettings, ConfigError>)
    ensures
        match r {
            Ok(v) => kafka_names_unread(*s) is None && v.are_read(*s),
            Err(e) => kafka_names_unread(*s) matches Some(p) && e.is_source(p),
        },
{
    let kafka_brokers = s.string("PULSE_KAFKA_BROKERS", "localhost:9092")?;
    let kafka_jobs_topic = s.string("PULSE_KAFKA_JOBS_TOPIC", "pulse.scenario.jobs")?;
    let kafka_results_topic = s.string("PULSE_KAFKA_RESULTS_TOPIC", "pulse.scenario.results")?;
    let kafka_summaries_topic = s.string("PULSE_KAFKA_SUMMARIES_TOPIC", "pulse.scenario.summaries")?;
    let kafka_dlq_topic = s.string("PULSE_KAFKA_DLQ_TOPIC", "pulse.scenario.dlq")?;
    let kafka_group_id = s.string("PULSE_KAFKA_GROUP_ID", "pulse-workers")?;
    let kafka_aggregator_group_id = s.string("PULSE_KAFKA_AGGREGATOR_GROUP_ID", "pulse-aggregators")?;
    Ok(
        KafkaNamesSettings {
            kafka_brokers,
            kafka_jobs_topic,
            kafka_results_topic,
            kafka_summaries_topic,
            kafka_dlq_topic,
            kafka_group_id,
            kafka_aggregator_group_id,
        },
    )
}

/// Settings: the times of the Kafka client.
pub struct KafkaTimesSettings {
    pub kafka_max_poll_interval: Duration,
    pub kafka_session_timeout: Duration,
    pub kafka_message_timeout: Duration,
    pub kafka_delivery_timeout: Duration,
    pub kafka_request_timeout: Duration,
}

/// What is wrong with the times of the Kafka client.
pub open spec fn kafka_times_unread(s: ConfigSource) -> Option<SourceProblem> {
    sooner(
        ms_problem(s, "PULSE_KAFKA_MAX_POLL_INTERVAL_MS"@, 300_000),
        sooner(
            ms_problem(s, "PULSE_KAFKA_SESSION_TIMEOUT_MS"@, 10_000),
            sooner(
                ms_problem(s, "PULSE_KAFKA_MESSAGE_TIMEOUT_MS"@, 10_000),
                sooner(
                    ms_problem(s, "PULSE_KAFKA_DELIVERY_TIMEOUT_MS"@, 10_000),
                    ms_problem(s, "PULSE_KAFKA_REQUEST_TIMEOUT_MS"@, 5_000),
                ),
            ),
        ),
    )
}

impl KafkaTimesSettings {
    /// Whether these are the settings of the sources.
    pub open spec fn are_read(self, s: ConfigSource) -> bool {
        &&& nanos(self.kafka_max_poll_interval) == ms_value(s, "PULSE_KAFKA_MAX_POLL_INTERVAL_MS"@, 300_000) * 1_000_000
        &&& nanos(self.kafka_session_timeout) == ms_value(s, "PULSE_KAFKA_SESSION_TIMEOUT_MS"@, 10_000) * 1_000_000
        &&& nanos(self.kafka_message_timeout) == ms_value(s, "PULSE_KAFKA_MESSAGE_TIMEOUT_MS"@, 10_000) * 1_000_000
        &&& nanos(self.kafka_delivery_timeout) == ms_value(s, "PULSE_KAFKA_DELIVERY_TIMEOUT_MS"@, 10_000) * 1_000_000
        &&& nanos(self.kafka_request_timeout) == ms_value(s, "PULSE_KAFKA_REQUEST_TIMEOUT_MS"@, 5_000) * 1_000_000
    }
}

fn read_kafka_times(s: &ConfigSource) -> (r: Result<KafkaTimesSettings, ConfigError>)
    ensures
        match r {
            Ok(v) => kafka_times_unread(*s) is None && v.are_read(*s),
            Err(e) => kafka_times_unread(*s) matches Some(p) && e.is_source(p),
        },
{
    let kafka_max_poll_interval = s.duration_ms("PULSE_KAFKA_MAX_POLL_INTERVAL_MS", 300_000)?;
    let kafka_session_timeout = s.duration_ms("PULSE_KAFKA_SESSION_TIMEOUT_MS", 10_000)?;
    let kafka_message_timeout = s.duration_ms("PULSE_KAFKA_MESSAGE_TIMEOUT_MS", 10_000)?;
    let kafka_delivery_timeout = s.duration_ms("PULSE_KAFKA_DELIVERY_TIMEOUT_MS", 10_000)?;
    let kafka_request_timeout = s.duration_ms("PULSE_KAFKA_REQUEST_TIMEOUT_MS", 5_000)?;
    Ok(
        KafkaTimesSettings {
            kafka_max_poll_interval,
            kafka_session_timeout,
            kafka_message_timeout,
            kafka_delivery_timeout,
            kafka_request_timeout,
        },
    )
}

/// Settings: the sizes of queues, topics and records.
pub struct KafkaSizesSettings {
    pub kafka_producer_idempotence: bool,
    pub kafka_producer_message_max_bytes: usize,
    pub kafka_topic_management_enabled: bool,
    pub kafka_topic_partitions: i32,
    pub kafka_topic_replication_factor: i32,
    pub producer_queue_messages: usize,
    pub consumer_queue_kbytes: usize,
    pub consumer_partition_fetch_max_bytes: usize,
    pub consumer_fetch_max_bytes: usize,
    pub consumer_record_max_bytes: usize,
}

/// What is wrong with the sizes of queues, topics and records.
pub open spec fn kafka_sizes_unread(s: ConfigSource) -> Option<SourceProblem> {
    sooner(
        flag_problem(s, "PULSE_KAFKA_PRODUCER_IDEMPOTENCE"@),
        sooner(
            number_problem(s, "PULSE_KAFKA_PRODUCER_MESSAGE_MAX_BYTES"@, usize::MAX as nat, "usize"@),
            sooner(
                flag_problem(s, "PULSE_KAFKA_TOPIC_MANAGEMENT_ENABLED"@),
                sooner(
                    signed_problem(s, "PULSE_KAFKA_TOPIC_PARTITIONS"@),
                    sooner(
                        signed_problem(s, "PULSE_KAFKA_TOPIC_REPLICATION_FACTOR"@),
                        sooner(
                            number_problem(s, "PULSE_KAFKA_PRODUCER_QUEUE_MESSAGES"@, usize::MAX as nat, "usize"@),
                            sooner(
                                number_problem(s, "PULSE_KAFKA_CONSUMER_QUEUE_KBYTES"@, usize::MAX as nat, "usize"@),
                                sooner(
                                    number_problem(s, "PULSE_KAFKA_CONSUMER_PARTITION_FETCH_MAX_BYTES"@, usize::MAX as nat, "usize"@),
                                    sooner(
                                        number_problem(s, "PULSE_KAFKA_CONSUMER_FETCH_MAX_BYTES"@, usize::MAX as nat, "usize"@),
                                        number_problem(s, "PULSE_KAFKA_CONSUMER_RECORD_MAX_BYTES"@, usize::MAX as nat, "usize"@),
                                    ),
                                ),
                            ),
                        ),
                    ),
                ),
            ),
        ),
    )
}

impl KafkaSizesSettings {
    /// Whether these are the settings of the sources.
    pub open spec fn are_read(self, s: ConfigSource) -> bool {
        &&& self.kafka_producer_idempotence == flag_value(s, "PULSE_KAFKA_PRODUCER_IDEMPOTENCE"@, true)
        &&& self.kafka_producer_message_max_bytes == number_value(s, "PULSE_KAFKA_PRODUCER_MESSAGE_MAX_BYTES"@, 1_000_000, usize::MAX as nat)
        &&& self.kafka_topic_management_enabled == flag_value(s, "PULSE_KAFKA_TOPIC_MANAGEMENT_ENABLED"@, false)
        &&& self.kafka_topic_partitions == signed_value(s, "PULSE_KAFKA_TOPIC_PARTITIONS"@, 3)
        &&& self.kafka_topic_replication_factor == signed_value(s, "PULSE_KAFKA_TOPIC_REPLICATION_FACTOR"@, 1)
        &&& self.producer_queue_messages == number_value(s, "PULSE_KAFKA_PRODUCER_QUEUE_MESSAGES"@, 1_024, usize::MAX as nat)
        &&& self.consumer_queue_kbytes == number_value(s, "PULSE_KAFKA_CONSUMER_QUEUE_KBYTES"@, 4_096, usize::MAX as nat)
        &&& self.consumer_partition_fetch_max_bytes == number_value(s, "PULSE_KAFKA_CONSUMER_PARTITION_FETCH_MAX_BYTES"@, 524_288, usize::MAX as nat)
        &&& self.consumer_fetch_max_bytes == number_value(s, "PULSE_KAFKA_CONSUMER_FETCH_MAX_BYTES"@, 4_194_304, usize::MAX as nat)
        &&& self.consumer_record_max_bytes == number_value(s, "PULSE_KAFKA_CONSUMER_RECORD_MAX_BYTES"@, 1_000_000, usize::MAX as nat)
    }
}

fn read_kafka_sizes(s: &ConfigSource) -> (r: Result<KafkaSizesSettings, ConfigError>)
    ensures
        match r {
            Ok(v) => kafka_sizes_unread(*s) is None && v.are_read(*s),
            Err(e) => kafka_sizes_unread(*s) matches Some(p) && e.is_source(p),
        },
{
    let kafka_producer_idempotence = s.boolean("PULSE_KAFKA_PRODUCER_IDEMPOTENCE", true)?;
    let kafka_producer_message_max_bytes: usize = s.parse_size("PULSE_KAFKA_PRODUCER_MESSAGE_MAX_BYTES", 1_000_000)?;
    let kafka_topic_management_enabled = s.boolean("PULSE_KAFKA_TOPIC_MANAGEMENT_ENABLED", false)?;
    let kafka_topic_partitions: i32 = s.parse_signed("PULSE_KAFKA_TOPIC_PARTITIONS", 3)?;
    let kafka_topic_replication_factor: i32 = s.parse_signed("PULSE_KAFKA_TOPIC_REPLICATION_FACTOR", 1)?;
    let producer_queue_messages: usize = s.parse_size("PULSE_KAFKA_PRODUCER_QUEUE_MESSAGES", 1_024)?;
    let consumer_queue_kbytes: usize = s.parse_size("PULSE_KAFKA_CONSUMER_QUEUE_KBYTES", 4_096)?;
    let consumer_partition_fetch_max_bytes: usize = s.parse_size("PULSE_KAFKA_CONSUMER_PARTITION_FETCH_MAX_BYTES", 524_288)?;
    let consumer_fetch_max_bytes: usize = s.parse_size("PULSE_KAFKA_CONSUMER_FETCH_MAX_BYTES", 4_194_304)?;
    let consumer_record_max_bytes: usize = s.parse_size("PULSE_KAFKA_CONSUMER_RECORD_MAX_BYTES", 1_000_000)?;
    Ok(
        KafkaSizesSettings {
            kafka_producer_idempotence,
            kafka_producer_message_max_bytes,
            kafka_topic_management_enabled,
            kafka_topic_partitions,
            kafka_topic_replication_factor,
            producer_queue_messages,
            consumer_queue_kbytes,
            consumer_partition_fetch_max_bytes,
            consumer_fetch_max_bytes,
            consumer_record_max_bytes,
        },
    )
}

/// Settings: the names that Redis knows.
pub struct RedisNamesSettings {
    pub redis_url: String,
    pub redis_leader_key: String,
    pub redis_schedule_prefix: String,
    pub redis_idempotency_prefix: String,
    pub redis_aggregation_prefix: String,
    pub node_id: String,
}

/// What is wrong with the names that Redis knows.
pub open spec fn redis_names_unread(s: ConfigSource) -> Option<SourceProblem> {
    sooner(
        secret_problem(s, "PULSE_REDIS_URL"@, "redis://127.0.0.1:6379"@),
        sooner(
            text_problem(s, "PULSE_REDIS_LEADER_KEY"@, "pulse:{coordination}:leader"@),
            sooner(
                text_problem(s, "PULSE_REDIS_SCHEDULE_PREFIX"@, "pulse:{coordination}:schedule"@),
                sooner(
                    text_problem(s, "PULSE_REDIS_IDEMPOTENCY_PREFIX"@, "pulse:dedupe"@),
                    sooner(
                        text_problem(s, "PULSE_REDIS_AGGREGATION_PREFIX"@, "pulse:aggregation"@),
                        text_problem(s, "PULSE_NODE_ID"@, s.default_node_id@),
                    ),
                ),
            ),
        ),
    )
}

impl RedisNamesSettings {
    /// Whether these are the settings of the sources.
    pub open spec fn are_read(self, s: ConfigSource) -> bool {
        &&& secret_of(s, "PULSE_REDIS_URL"@, "redis://127.0.0.1:6379"@) == Ok::<_, SourceProblem>(self.redis_url@)
        &&& self.redis_leader_key@ == text_value(s, "PULSE_REDIS_LEADER_KEY"@, "pulse:{coordination}:leader"@)
        &&& self.redis_schedule_prefix@ == text_value(s, "PULSE_REDIS_SCHEDULE_PREFIX"@, "pulse:{coordination}:schedule"@)
        &&& self.redis_idempotency_prefix@ == text_value(s, "PULSE_REDIS_IDEMPOTENCY_PREFIX"@, "pulse:dedupe"@)
        &&& self.redis_aggregation_prefix@ == text_value(s, "PULSE_REDIS_AGGREGATION_PREFIX"@, "pulse:aggregation"@)
        &&& self.node_id@ == text_value(s, "PULSE_NODE_ID"@, s.default_node_id@)
    }
}

fn read_redis_names(s: &ConfigSource) -> (r: Result<RedisNamesSettings, ConfigError>)
    ensures
        match r {
            Ok(v) => redis_names_unread(*s) is None && v.are_read(*s),
            Err(e) => redis_names_unread(*s) matches Some(p) && e.is_source(p),
        },
{
    let redis_url = s.string_with_file("PULSE_REDIS_URL", "redis://127.0.0.1:6379")?;
    let redis_leader_key = s.string("PULSE_REDIS_LEADER_KEY", "pulse:{coordination}:leader")?;
    let redis_schedule_prefix = s.string("PULSE_REDIS_SCHEDULE_PREFIX", "pulse:{coordination}:schedule")?;
    let redis_idempotency_prefix = s.string("PULSE_REDIS_IDEMPOTENCY_PREFIX", "pulse:dedupe")?;
    let redis_aggregation_prefix = s.string("PULSE_REDIS_AGGREGATION_PREFIX", "pulse:aggregation")?;
    let node_id = s.string("PULSE_NODE_ID", &s.default_node_id)?;
    Ok(
        RedisNamesSettings {
            redis_url,
            redis_leader_key,
            redis_schedule_prefix,
            redis_idempotency_prefix,
            redis_aggregation_prefix,
            node_id,
        },
    )
}

/// Settings: the leases and the retries.
pub struct LeasesSettings {
    pub leader_lock_ttl_ms: u64,
    pub leader_renew_interval: Duration,
    pub scheduler_tick_interval: Duration,
    pub execution_lease_ttl: Duration,
    pub execution_lease_renew_interval: Duration,
    pub execution_terminal_retention: Duration,
    pub worker_max_retries: u32,
    pub worker_retry_base_delay: Duration,
    pub worker_retry_max_delay: Duration,
    pub retry_queue_capacity: usize,
}

/// What is wrong with the leases and the retries.
pub open spec fn leases_unread(s: ConfigSource) -> Option<SourceProblem> {
    sooner(
        number_problem(s, "PULSE_LEADER_LOCK_TTL_MS"@, u64::MAX as nat, "u64"@),
        sooner(
            ms_problem(s, "PULSE_LEADER_RENEW_INTERVAL_MS"@, 3_000),
            sooner(
                ms_problem(s, "PULSE_SCHEDULER_TICK_INTERVAL_MS"@, 500),
                sooner(
                    ms_problem(s, "PULSE_EXECUTION_LEASE_TTL_MS"@, 30_000),
                    sooner(
                        ms_problem(s, "PULSE_EXECUTION_LEASE_RENEW_INTERVAL_MS"@, 10_000),
                        sooner(
                            ms_problem(s, "PULSE_EXECUTION_TERMINAL_RETENTION_MS"@, 86_400_000),
                            sooner(
                                number_problem(s, "PULSE_WORKER_MAX_RETRIES"@, u32::MAX as nat, "u32"@),
                                sooner(
                                    ms_problem(s, "PULSE_WORKER_RETRY_BASE_DELAY_MS"@, 500),
                                    sooner(
                                        ms_problem(s, "PULSE_WORKER_RETRY_MAX_DELAY_MS"@, 30_000),
                                        number_problem(s, "PULSE_RETRY_QUEUE_CAPACITY"@, usize::MAX as nat, "usize"@),
                                    ),
                                ),
                            ),
                        ),
                    ),
                ),
            ),
        ),
    )
}

impl LeasesSettings {
    /// Whether these are the settings of the sources.
    pub open spec fn are_read(self, s: ConfigSource) -> bool {
        &&& self.leader_lock_ttl_ms == number_value(s, "PULSE_LEADER_LOCK_TTL_MS"@, 10_000, u64::MAX as nat)
        &&& nanos(self.leader_renew_interval) == ms_value(s, "PULSE_LEADER_RENEW_INTERVAL_MS"@, 3_000) * 1_000_000
        &&& nanos(self.scheduler_tick_interval) == ms_value(s, "PULSE_SCHEDULER_TICK_INTERVAL_MS"@, 500) * 1_000_000
        &&& nanos(self.execution_lease_ttl) == ms_value(s, "PULSE_EXECUTION_LEASE_TTL_MS"@, 30_000) * 1_000_000
        &&& nanos(self.execution_lease_renew_interval) == ms_value(s, "PULSE_EXECUTION_LEASE_RENEW_INTERVAL_MS"@, 10_000) * 1_000_000
        &&& nanos(self.execution_terminal_retention) == ms_value(s, "PULSE_EXECUTION_TERMINAL_RETENTION_MS"@, 86_400_000) * 1_000_000
        &&& self.worker_max_retries == number_value(s, "PULSE_WORKER_MAX_RETRIES"@, 2, u32::MAX as nat)
        &&& nanos(self.worker_retry_base_delay) == ms_value(s, "PULSE_WORKER_RETRY_BASE_DELAY_MS"@, 500) * 1_000_000
        &&& nanos(self.worker_retry_max_delay) == ms_value(s, "PULSE_WORKER_RETRY_MAX_DELAY_MS"@, 30_000) * 1_000_000
        &&& self.retry_queue_capacity == number_value(s, "PULSE_RETRY_QUEUE_CAPACITY"@, 1_024, usize::MAX as nat)
    }
}

fn read_leases(s: &ConfigSource) -> (r: Result<LeasesSettings, ConfigError>)
    ensures
        match r {
            Ok(v) => leases_unread(*s) is None && v.are_read(*s),
            Err(e) => leases_unread(*s) matches Some(p) && e.is_source(p),
        },
{
    let leader_lock_ttl_ms: u64 = s.parse_long("PULSE_LEADER_LOCK_TTL_MS", 10_000)?;
    let leader_renew_interval = s.duration_ms("PULSE_LEADER_RENEW_INTERVAL_MS", 3_000)?;
    let scheduler_tick_interval = s.duration_ms("PULSE_SCHEDULER_TICK_INTERVAL_MS", 500)?;
    let execution_lease_ttl = s.duration_ms("PULSE_EXECUTION_LEASE_TTL_MS", 30_000)?;
    let execution_lease_renew_interval = s.duration_ms("PULSE_EXECUTION_LEASE_RENEW_INTERVAL_MS", 10_000)?;
    let execution_terminal_retention = s.duration_ms("PULSE_EXECUTION_TERMINAL_RETENTION_MS", 86_400_000)?;
    let worker_max_retries: u32 = s.parse_count("PULSE_WORKER_MAX_RETRIES", 2)?;
    let worker_retry_base_delay = s.duration_ms("PULSE_WORKER_RETRY_BASE_DELAY_MS", 500)?;
    let worker_retry_max_delay = s.duration_ms("PULSE_WORKER_RETRY_MAX_DELAY_MS", 30_000)?;
    let retry_queue_capacity: usize = s.parse_size("PULSE_RETRY_QUEUE_CAPACITY", 1_024)?;
    Ok(
        LeasesSettings {
            leader_lock_ttl_ms,
            leader_renew_interval,
            scheduler_tick_interval,
            execution_lease_ttl,
            execution_lease_renew_interval,
            execution_terminal_retention,
            worker_max_retries,
            worker_retry_base_delay,
            worker_retry_max_delay,
            retry_queue_capacity,
        },
    )
}

/// Settings: the aggregation.
pub struct AggregationSettings {
    pub aggregation_enabled: bool,
    pub aggregation_partial_timeout: Duration,
    pub aggregation_retention: Duration,
    pub aggregation_scan_interval: Duration,
    pub aggregation_scan_batch: usize,
    pub aggregation_max_active_runs: usize,
    pub aggregation_max_error_kinds: usize,
}

/// What is wrong with the aggregation.
pub open spec fn aggregation_unread(s: ConfigSource) -> Option<SourceProblem> {
    sooner(
        flag_problem(s, "PULSE_AGGREGATION_ENABLED"@),
        sooner(
            ms_problem(s, "PULSE_AGGREGATION_PARTIAL_TIMEOUT_MS"@, 60_000),
            sooner(
                ms_problem(s, "PULSE_AGGREGATION_RETENTION_MS"@, 86_400_000),
                sooner(
                    ms_problem(s, "PULSE_AGGREGATION_SCAN_INTERVAL_MS"@, 1_000),
                    sooner(
                        number_problem(s, "PULSE_AGGREGATION_SCAN_BATCH"@, usize::MAX as nat, "usize"@),
                        sooner(
                            number_problem(s, "PULSE_AGGREGATION_MAX_ACTIVE_RUNS"@, usize::MAX as nat, "usize"@),
                            number_problem(s, "PULSE_AGGREGATION_MAX_ERROR_KINDS"@, usize::MAX as nat, "usize"@),
                        ),
                    ),
                ),
            ),
        ),
    )
}

impl AggregationSettings {
    /// Whether these are the settings of the sources.
    pub open spec fn are_read(self, s: ConfigSource) -> bool {
        &&& self.aggregation_enabled == flag_value(s, "PULSE_AGGREGATION_ENABLED"@, true)
        &&& nanos(self.aggregation_partial_timeout) == ms_value(s, "PULSE_AGGREGATION_PARTIAL_TIMEOUT_MS"@, 60_000) * 1_000_000
        &&& nanos(self.aggregation_retention) == ms_value(s, "PULSE_AGGREGATION_RETENTION_MS"@, 86_400_000) * 1_000_000
        &&& nanos(self.aggregation_scan_interval) == ms_value(s, "PULSE_AGGREGATION_SCAN_INTERVAL_MS"@, 1_000) * 1_000_000
        &&& self.aggregation_scan_batch == number_value(s, "PULSE_AGGREGATION_SCAN_BATCH"@, 128, usize::MAX as nat)
        &&& self.aggregation_max_active_runs == number_value(s, "PULSE_AGGREGATION_MAX_ACTIVE_RUNS"@, 10_000, usize::MAX as nat)
        &&& self.aggregation_max_error_kinds == number_value(s, "PULSE_AGGREGATION_MAX_ERROR_KINDS"@, 64, usize::MAX as nat)
    }
}

fn read_aggregation(s: &ConfigSource) -> (r: Result<AggregationSettings, ConfigError>)
    ensures
        match r {
            Ok(v) => aggregation_unread(*s) is None && v.are_read(*s),
            Err(e) => aggregation_unread(*s) matches Some(p) && e.is_source(p),
        },
{
    let aggregation_enabled = s.boolean("PULSE_AGGREGATION_ENABLED", true)?;
    let aggregation_partial_timeout = s.duration_ms("PULSE_AGGREGATION_PARTIAL_TIMEOUT_MS", 60_000)?;
    let aggregation_retention = s.duration_ms("PULSE_AGGREGATION_RETENTION_MS", 86_400_000)?;
    let aggregation_scan_interval = s.duration_ms("PULSE_AGGREGATION_SCAN_INTERVAL_MS", 1_000)?;
    let aggregation_scan_batch: usize = s.parse_size("PULSE_AGGREGATION_SCAN_BATCH", 128)?;
    let aggregation_max_active_runs: usize = s.parse_size("PULSE_AGGREGATION_MAX_ACTIVE_RUNS", 10_000)?;
    let aggregation_max_error_kinds: usize = s.parse_size("PULSE_AGGREGATION_MAX_ERROR_KINDS", 64)?;
    Ok(
        AggregationSettings {
            aggregation_enabled,
            aggregation_partial_timeout,
            aggregation_retention,
            aggregation_scan_interval,
            aggregation_scan_batch,
            aggregation_max_active_runs,
            aggregation_max_error_kinds,
        },
    )
}

/// Settings: the start, the end and the requests.
pub struct LifecycleSettings {
    pub startup_deadline: Duration,
    pub shutdown_drain_timeout: Duration,
    pub pulse_endpoint: String,
    pub scenarios_file: Option<String>,
    pub grpc_descriptor_set: Option<String>,
    pub grpc_connect_timeout: Duration,
    pub grpc_request_timeout: Duration,
    pub grpc_scenario_timeout: Duration,
}

/// What is wrong with the start, the end and the requests.
pub open spec fn lifecycle_unread(s: ConfigSource) -> Option<SourceProblem> {
    sooner(
        ms_problem(s, "PULSE_STARTUP_DEADLINE_MS"@, 60_000),
        sooner(
            ms_problem(s, "PULSE_SHUTDOWN_DRAIN_TIMEOUT_MS"@, 30_000),
            sooner(
                text_problem(s, "PULSE_ENDPOINT"@, "http://127.0.0.1:8080"@),
                sooner(
                    set_problem(s, "PULSE_SCENARIOS_FILE"@),
                    sooner(
                        set_problem(s, "PULSE_GRPC_DESCRIPTOR_SET"@),
                        sooner(
                            ms_problem(s, "PULSE_GRPC_CONNECT_TIMEOUT_MS"@, 5_000),
                            sooner(
                                ms_problem(s, "PULSE_GRPC_REQUEST_TIMEOUT_MS"@, 5_000),
                                ms_problem(s, "PULSE_GRPC_SCENARIO_TIMEOUT_MS"@, 30_000),
                            ),
                        ),
                    ),
                ),
            ),
        ),
    )
}

impl LifecycleSettings {
    /// Whether these are the settings of the sources.
    pub open spec fn are_read(self, s: ConfigSource) -> bool {
        &&& nanos(self.startup_deadline) == ms_value(s, "PULSE_STARTUP_DEADLINE_MS"@, 60_000) * 1_000_000
        &&& nanos(self.shutdown_drain_timeout) == ms_value(s, "PULSE_SHUTDOWN_DRAIN_TIMEOUT_MS"@, 30_000) * 1_000_000
        &&& self.pulse_endpoint@ == text_value(s, "PULSE_ENDPOINT"@, "http://127.0.0.1:8080"@)
        &&& opt_view(self.scenarios_file) == optional_value(s, "PULSE_SCENARIOS_FILE"@)
        &&& opt_view(self.grpc_descriptor_set) == optional_value(s, "PULSE_GRPC_DESCRIPTOR_SET"@)
        &&& nanos(self.grpc_connect_timeout) == ms_value(s, "PULSE_GRPC_CONNECT_TIMEOUT_MS"@, 5_000) * 1_000_000
        &&& nanos(self.grpc_request_timeout) == ms_value(s, "PULSE_GRPC_REQUEST_TIMEOUT_MS"@, 5_000) * 1_000_000
        &&& nanos(self.grpc_scenario_timeout) == ms_value(s, "PULSE_GRPC_SCENARIO_TIMEOUT_MS"@, 30_000) * 1_000_000
    }
}

fn read_lifecycle(s: &ConfigSource) -> (r: Result<LifecycleSettings, ConfigError>)
    ensures
        match r {
            Ok(v) => lifecycle_unread(*s) is None && v.are_read(*s),
            Err(e) => lifecycle_unread(*s) matches Some(p) && e.is_source(p),
        },
{
    let startup_deadline = s.duration_ms("PULSE_STARTUP_DEADLINE_MS", 60_000)?;
    let shutdown_drain_timeout = s.duration_ms("PULSE_SHUTDOWN_DRAIN_TIMEOUT_MS", 30_000)?;
    let pulse_endpoint = s.string("PULSE_ENDPOINT", "http://127.0.0.1:8080")?;
    let scenarios_file = s.optional_string("PULSE_SCENARIOS_FILE")?;
    let grpc_descriptor_set = s.optional_string("PULSE_GRPC_DESCRIPTOR_SET")?;
    let grpc_connect_timeout = s.duration_ms("PULSE_GRPC_CONNECT_TIMEOUT_MS", 5_000)?;
    let grpc_request_timeout = s.duration_ms("PULSE_GRPC_REQUEST_TIMEOUT_MS", 5_000)?;
    let grpc_scenario_timeout = s.duration_ms("PULSE_GRPC_SCENARIO_TIMEOUT_MS", 30_000)?;
    Ok(
        LifecycleSettings {
            startup_deadline,
            shutdown_drain_timeout,
            pulse_endpoint,
            scenarios_file,
            grpc_descriptor_set,
            grpc_connect_timeout,
            grpc_request_timeout,
            grpc_scenario_timeout,
        },
    )
}

/// Settings: the bounds on the load and the metrics.
pub struct LoadSettings {
    pub max_duration: Duration,
    pub max_scenarios_per_sec: Rate,
    pub max_concurrency: usize,
    pub dry_run: bool,
    pub startup_burst: usize,
    pub allow_partial_start: bool,
    pub acknowledge_non_local_targets: bool,
    pub metrics_enabled: bool,
    pub metrics_bind: String,
}

/// What is wrong with the bounds on the load and the metrics.
pub open spec fn load_unread(s: ConfigSource) -> Option<SourceProblem> {
    sooner(
        ms_problem(s, "PULSE_MAX_DURATION_MS"@, 60_000),
        sooner(
            rate_problem(s, "PULSE_MAX_SCENARIOS_PER_SEC"@),
            sooner(
                number_problem(s, "PULSE_MAX_CONCURRENCY"@, usize::MAX as nat, "usize"@),
                sooner(
                    flag_problem(s, "PULSE_DRY_RUN"@),
                    sooner(
                        number_problem(s, "PULSE_STARTUP_BURST"@, usize::MAX as nat, "usize"@),
                        sooner(
                            flag_problem(s, "PULSE_ALLOW_PARTIAL_START"@),
                            sooner(
                                flag_problem(s, "PULSE_ACKNOWLEDGE_NON_LOCAL_TARGETS"@),
                                sooner(
                                    flag_problem(s, "PULSE_METRICS_ENABLED"@),
                                    text_problem(s, "PULSE_METRICS_BIND"@, "0.0.0.0:9090"@),
                                ),
                            ),
                        ),
                    ),
                ),
            ),
        ),
    )
}

impl LoadSettings {
    /// Whether these are the settings of the sources.
    pub open spec fn are_read(self, s: ConfigSource) -> bool {
        &&& nanos(self.max_duration) == ms_value(s, "PULSE_MAX_DURATION_MS"@, 60_000) * 1_000_000
        &&& self.max_scenarios_per_sec.bits == rate_value(s, "PULSE_MAX_SCENARIOS_PER_SEC"@)
        &&& self.max_concurrency == number_value(s, "PULSE_MAX_CONCURRENCY"@, 256, usize::MAX as nat)
        &&& self.dry_run == flag_value(s, "PULSE_DRY_RUN"@, false)
        &&& self.startup_burst == number_value(s, "PULSE_STARTUP_BURST"@, 0, usize::MAX as nat)
        &&& self.allow_partial_start == flag_value(s, "PULSE_ALLOW_PARTIAL_START"@, false)
        &&& self.acknowledge_non_local_targets == flag_value(s, "PULSE_ACKNOWLEDGE_NON_LOCAL_TARGETS"@, false)
        &&& self.metrics_enabled == flag_value(s, "PULSE_METRICS_ENABLED"@, true)
        &&& self.metrics_bind@ == text_value(s, "PULSE_METRICS_BIND"@, "0.0.0.0:9090"@)
    }
}

fn read_load(s: &ConfigSource) -> (r: Result<LoadSettings, ConfigError>)
    ensures
        match r {
            Ok(v) => load_unread(*s) is None && v.are_read(*s),
            Err(e) => load_unread(*s) matches Some(p) && e.is_source(p),
        },
{
    let max_duration = s.duration_ms("PULSE_MAX_DURATION_MS", 60_000)?;
    let max_scenarios_per_sec = s.parse_rate("PULSE_MAX_SCENARIOS_PER_SEC")?;
    let max_concurrency: usize = s.parse_size("PULSE_MAX_CONCURRENCY", 256)?;
    let dry_run = s.boolean("PULSE_DRY_RUN", false)?;
    let startup_burst: usize = s.parse_size("PULSE_STARTUP_BURST", 0)?;
    let allow_partial_start = s.boolean("PULSE_ALLOW_PARTIAL_START", false)?;
    let acknowledge_non_local_targets = s.boolean("PULSE_ACKNOWLEDGE_NON_LOCAL_TARGETS", false)?;
    let metrics_enabled = s.boolean("PULSE_METRICS_ENABLED", true)?;
    let metrics_bind = s.string("PULSE_METRICS_BIND", "0.0.0.0:9090")?;
    Ok(
        LoadSettings {
            max_duration,
            max_scenarios_per_sec,
            max_concurrency,
            dry_run,
            startup_burst,
            allow_partial_start,
            acknowledge_non_local_targets,
            metrics_enabled,
            metrics_bind,
        },
    )
}

// ---------------------------------------------------------------------------
// All settings
// ---------------------------------------------------------------------------

/// What is wrong with the acknowledgements that a publication waits for.
pub open spec fn acks_unread(s: ConfigSource) -> Option<SourceProblem> {
    let name = "PULSE_KAFKA_PRODUCER_ACKS"@;
    sooner(
        text_problem(s, name, "all"@),
        if acks_all(ascii_lower(text_value(s, name, "all"@))) {
            None
        } else {
            Some(
                SourceProblem::Invalid(
                    name,
                    "must be 'all' or '-1' so terminal publications are durably acknowledged"@,
                ),
            )
        },
    )
}

/// The hosts that may be targeted, or what is wrong with them.
pub open spec fn allowlist_of(s: ConfigSource, facts: AddressFacts) -> Result<
    Seq<Seq<char>>,
    Problem,
> {
    distinct_hosts(
        allowlist_entries_of(
            text_value(s, "PULSE_TARGET_ALLOWLIST"@, "localhost,127.0.0.1,::1"@),
        ),
        views(facts.ip_addresses@),
    )
}

/// What is wrong with the hosts that may be targeted.
pub open spec fn allowlist_unread(s: ConfigSource, facts: AddressFacts) -> Option<SourceProblem> {
    sooner(
        text_problem(s, "PULSE_TARGET_ALLOWLIST"@, "localhost,127.0.0.1,::1"@),
        match allowlist_of(s, facts) {
            Ok(_) => None,
            Err(p) => Some(SourceProblem::Invalid(p.0, p.1)),
        },
    )
}

/// The first setting that cannot be read.
pub open spec fn source_problem(s: ConfigSource, facts: AddressFacts) -> Option<SourceProblem> {
    sooner(
        acks_unread(s),
        sooner(
            allowlist_unread(s, facts),
            sooner(
                kafka_names_unread(s),
                sooner(
                    kafka_times_unread(s),
                    sooner(
                        kafka_sizes_unread(s),
                        sooner(
                            redis_names_unread(s),
                            sooner(
                                leases_unread(s),
                                sooner(
                                    aggregation_unread(s),
                                    sooner(lifecycle_unread(s), load_unread(s)),
                                ),
                            ),
                        ),
                    ),
                ),
            ),
        ),
    )
}

/// Whether these are the settings of the sources.
pub open spec fn is_read(c: AppConfig, s: ConfigSource, facts: AddressFacts) -> bool {
    &&& c.kafka_producer_acks@ == "all"@
    &&& allowlist_of(s, facts) == Ok::<_, Problem>(views(c.target_allowlist@))
    &&& (KafkaNamesSettings {
        kafka_brokers: c.kafka_brokers,
        kafka_jobs_topic: c.kafka_jobs_topic,
        kafka_results_topic: c.kafka_results_topic,
        kafka_summaries_topic: c.kafka_summaries_topic,
        kafka_dlq_topic: c.kafka_dlq_topic,
        kafka_group_id: c.kafka_group_id,
        kafka_aggregator_group_id: c.kafka_aggregator_group_id,
    }).are_read(s)
    &&& (KafkaTimesSettings {
        kafka_max_poll_interval: c.kafka_max_poll_interval,
        kafka_session_timeout: c.kafka_session_timeout,
        kafka_message_timeout: c.kafka_message_timeout,
        kafka_delivery_timeout: c.kafka_delivery_timeout,
        kafka_request_timeout: c.kafka_request_timeout,
    }).are_read(s)
    &&& (KafkaSizesSettings {
        kafka_producer_idempotence: c.kafka_producer_idempotence,
        kafka_producer_message_max_bytes: c.kafka_producer_message_max_bytes,
        kafka_topic_management_enabled: c.kafka_topic_management_enabled,
        kafka_topic_partitions: c.kafka_topic_partitions,
        kafka_topic_replication_factor: c.kafka_topic_replication_factor,
        producer_queue_messages: c.producer_queue_messages,
        consumer_queue_kbytes: c.consumer_queue_kbytes,
        consumer_partition_fetch_max_bytes: c.consumer_partition_fetch_max_bytes,
        consumer_fetch_max_bytes: c.consumer_fetch_max_bytes,
        consumer_record_max_bytes: c.consumer_record_max_bytes,
    }).are_read(s)
    &&& (RedisNamesSettings {
        redis_url: c.redis_url,
        redis_leader_key: c.redis_leader_key,
        redis_schedule_prefix: c.redis_schedule_prefix,
        redis_idempotency_prefix: c.redis_idempotency_prefix,
        redis_aggregation_prefix: c.redis_aggregation_prefix,
        node_id: c.node_id,
    }).are_read(s)
    &&& (LeasesSettings {
        leader_lock_ttl_ms: c.leader_lock_ttl_ms,
        leader_renew_interval: c.leader_renew_interval,
        scheduler_tick_interval: c.scheduler_tick_interval,
        execution_lease_ttl: c.execution_lease_ttl,
        execution_lease_renew_interval: c.execution_lease_renew_interval,
        execution_terminal_retention: c.execution_terminal_retention,
        worker_max_retries: c.worker_max_retries,
        worker_retry_base_delay: c.worker_retry_base_delay,
        worker_retry_max_delay: c.worker_retry_max_delay,
        retry_queue_capacity: c.retry_queue_capacity,
    }).are_read(s)
    &&& (AggregationSettings {
        aggregation_enabled: c.aggregation_enabled,
        aggregation_partial_timeout: c.aggregation_partial_timeout,
        aggregation_retention: c.aggregation_retention,
        aggregation_scan_interval: c.aggregation_scan_interval,
        aggregation_scan_batch: c.aggregation_scan_batch,
        aggregation_max_active_runs: c.aggregation_max_active_runs,
        aggregation_max_error_kinds: c.aggregation_max_error_kinds,
    }).are_read(s)
    &&& (LifecycleSettings {
        startup_deadline: c.startup_deadline,
        shutdown_drain_timeout: c.shutdown_drain_timeout,
        pulse_endpoint: c.pulse_endpoint,
        scenarios_file: c.scenarios_file,
        grpc_descriptor_set: c.grpc_descriptor_set,
        grpc_connect_timeout: c.grpc_connect_timeout,
        grpc_request_timeout: c.grpc_request_timeout,
        grpc_scenario_timeout: c.grpc_scenario_timeout,
    }).are_read(s)
    &&& (LoadSettings {
        max_duration: c.max_duration,
        max_scenarios_per_sec: c.max_scenarios_per_sec,
        max_concurrency: c.max_concurrency,
        dry_run: c.dry_run,
        startup_burst: c.startup_burst,
        allow_partial_start: c.allow_partial_start,
        acknowledge_non_local_targets: c.acknowledge_non_local_targets,
        metrics_enabled: c.metrics_enabled,
        metrics_bind: c.metrics_bind,
    }).are_read(s)
}

fn read_acks(s: &ConfigSource) -> (r: Result<String, ConfigError>)
    ensures
        match r {
            Ok(acks) => acks_unread(*s) is None && acks@ == "all"@,
            Err(e) => acks_unread(*s) matches Some(p) && e.is_source(p),
        },
{
    let acks = to_ascii_lower(&s.string("PULSE_KAFKA_PRODUCER_ACKS", "all")?);
    if str_eq(&acks, "all") || str_eq(&acks, "-1") {
        Ok(copy_str("all"))
    } else {
        Err(
            ConfigError::invalid(
                "PULSE_KAFKA_PRODUCER_ACKS",
                "must be 'all' or '-1' so terminal publications are durably acknowledged",
            ),
        )
    }
}

fn read_allowlist(s: &ConfigSource, facts: &AddressFacts) -> (r: Result<Vec<String>, ConfigError>)
    ensures
        match r {
            Ok(hosts) => allowlist_unread(*s, *facts) is None && allowlist_of(*s, *facts) == Ok::<
                _,
                Problem,
            >(views(hosts@)),
            Err(e) => allowlist_unread(*s, *facts) matches Some(p) && e.is_source(p),
        },
{
    let raw = s.string("PULSE_TARGET_ALLOWLIST", "localhost,127.0.0.1,::1")?;
    parse_allowlist(&raw, &facts.ip_addresses)
}

impl ConfigSource {
    /// The entries of the allowlist of which it must be known whether they are IP
    /// addresses.
    pub fn allowlist_hosts(&self) -> (r: Vec<String>)
        ensures
            text_problem(*self, "PULSE_TARGET_ALLOWLIST"@, "localhost,127.0.0.1,::1"@) is None
                ==> views(r@) == allowlist_entries_of(
                text_value(*self, "PULSE_TARGET_ALLOWLIST"@, "localhost,127.0.0.1,::1"@),
            ),
            text_problem(*self, "PULSE_TARGET_ALLOWLIST"@, "localhost,127.0.0.1,::1"@) is Some
                ==> r@.len() == 0,
    {
        match self.string("PULSE_TARGET_ALLOWLIST", "localhost,127.0.0.1,::1") {
            Ok(raw) => allowlist_entries(&raw),
            Err(_) => Vec::new(),
        }
    }

    /// The address for metrics, of which it must be known whether it is a socket
    /// address.
    pub fn metrics_address(&self) -> (r: Option<String>)
        ensures
            match r {
                Some(text) => text_problem(*self, "PULSE_METRICS_BIND"@, "0.0.0.0:9090"@) is None
                    && text@ == text_value(*self, "PULSE_METRICS_BIND"@, "0.0.0.0:9090"@),
                None => text_problem(*self, "PULSE_METRICS_BIND"@, "0.0.0.0:9090"@) is Some,
            },
    {
        match self.string("PULSE_METRICS_BIND", "0.0.0.0:9090") {
            Ok(text) => Some(text),
            Err(_) => None,
        }
    }

    /// The text of the rate variable, of which it must be known what number it
    /// denotes.
    pub fn rate_text(&self) -> (r: Option<String>)
        ensures
            opt_view(r) == (if set_problem(*self, "PULSE_MAX_SCENARIOS_PER_SEC"@) is None {
                optional_value(*self, "PULSE_MAX_SCENARIOS_PER_SEC"@)
            } else {
                None
            }),
    {
        match self.optional_string("PULSE_MAX_SCENARIOS_PER_SEC") {
            Ok(text) => text,
            Err(_) => None,
        }
    }

    /// The path of the file with the Redis URL, which must be read where the URL is
    /// not given itself.
    pub fn secret_path(&self) -> (r: Option<String>)
        ensures
            opt_view(r) == (if !is_set(*self, "PULSE_REDIS_URL"@) && set_problem(
                *self,
                "PULSE_REDIS_URL_FILE"@,
            ) is None {
                optional_value(*self, "PULSE_REDIS_URL_FILE"@)
            } else {
                None
            }),
    {
        match self.raw("PULSE_REDIS_URL") {
            Ok(None) => match self.optional_string("PULSE_REDIS_URL_FILE") {
                Ok(text) => text,
                Err(_) => None,
            },
            _ => None,
        }
    }
}

impl AppConfig {
    /// The settings that the sources give, where they can be read and keep the
    /// rules. `facts` tells which texts are numeric addresses.
    pub fn from_sources(s: &ConfigSource, facts: &AddressFacts) -> (r: Result<AppConfig, ConfigError>)
        ensures
            match r {
                Ok(c) => {
                    &&& source_problem(*s, *facts) is None
                    &&& is_read(c, *s, *facts)
                    &&& config_problem(c, *facts) is None
                },
                Err(e) => match source_problem(*s, *facts) {
                    Some(p) => e.is_source(p),
                    None => exists|c: AppConfig|
                        #![trigger is_read(c, *s, *facts)]
                        is_read(c, *s, *facts) && config_problem(c, *facts) is Some && e.is_invalid(
                            config_problem(c, *facts)->0,
                        ),
                },
            },
    {
        let kafka_producer_acks = read_acks(s)?;
        let target_allowlist = read_allowlist(s, facts)?;
        let kafka_names = read_kafka_names(s)?;
        let kafka_times = read_kafka_times(s)?;
        let kafka_sizes = read_kafka_sizes(s)?;
        let redis_names = read_redis_names(s)?;
        let leases = read_leases(s)?;
        let aggregation = read_aggregation(s)?;
        let lifecycle = read_lifecycle(s)?;
        let load = read_load(s)?;
        let config = AppConfig {
            kafka_producer_acks,
            target_allowlist,
            kafka_brokers: kafka_names.kafka_brokers,
            kafka_jobs_topic: kafka_names.kafka_jobs_topic,
            kafka_results_topic: kafka_names.kafka_results_topic,
            kafka_summaries_topic: kafka_names.kafka_summaries_topic,
            kafka_dlq_topic: kafka_names.kafka_dlq_topic,
            kafka_group_id: kafka_names.kafka_group_id,
            kafka_aggregator_group_id: kafka_names.kafka_aggregator_group_id,
            kafka_max_poll_interval: kafka_times.kafka_max_poll_interval,
            kafka_session_timeout: kafka_times.kafka_session_timeout,
            kafka_message_timeout: kafka_times.kafka_message_timeout,
            kafka_delivery_timeout: kafka_times.kafka_delivery_timeout,
            kafka_request_timeout: kafka_times.kafka_request_timeout,
            kafka_producer_idempotence: kafka_sizes.kafka_producer_idempotence,
            kafka_producer_message_max_bytes: kafka_sizes.kafka_producer_message_max_bytes,
            kafka_topic_management_enabled: kafka_sizes.kafka_topic_management_enabled,
            kafka_topic_partitions: kafka_sizes.kafka_topic_partitions,
            kafka_topic_replication_factor: kafka_sizes.kafka_topic_replication_factor,
            producer_queue_messages: kafka_sizes.producer_queue_messages,
            consumer_queue_kbytes: kafka_sizes.consumer_queue_kbytes,
            consumer_partition_fetch_max_bytes: kafka_sizes.consumer_partition_fetch_max_bytes,
            consumer_fetch_max_bytes: kafka_sizes.consumer_fetch_max_bytes,
            consumer_record_max_bytes: kafka_sizes.consumer_record_max_bytes,
            redis_url: redis_names.redis_url,
            redis_leader_key: redis_names.redis_leader_key,
            redis_schedule_prefix: redis_names.redis_schedule_prefix,
            redis_idempotency_prefix: redis_names.redis_idempotency_prefix,
            redis_aggregation_prefix: redis_names.redis_aggregation_prefix,
            node_id: redis_names.node_id,
            leader_lock_ttl_ms: leases.leader_lock_ttl_ms,
            leader_renew_interval: leases.leader_renew_interval,
            scheduler_tick_interval: leases.scheduler_tick_interval,
            execution_lease_ttl: leases.execution_lease_ttl,
            execution_lease_renew_interval: leases.execution_lease_renew_interval,
            execution_terminal_retention: leases.execution_terminal_retention,
            worker_max_retries: leases.worker_max_retries,
            worker_retry_base_delay: leases.worker_retry_base_delay,
            worker_retry_max_delay: leases.worker_retry_max_delay,
            retry_queue_capacity: leases.retry_queue_capacity,
            aggregation_enabled: aggregation.aggregation_enabled,
            aggregation_partial_timeout: aggregation.aggregation_partial_timeout,
            aggregation_retention: aggregation.aggregation_retention,
            aggregation_scan_interval: aggregation.aggregation_scan_interval,
            aggregation_scan_batch: aggregation.aggregation_scan_batch,
            aggregation_max_active_runs: aggregation.aggregation_max_active_runs,
            aggregation_max_error_kinds: aggregation.aggregation_max_error_kinds,
            startup_deadline: lifecycle.startup_deadline,
            shutdown_drain_timeout: lifecycle.shutdown_drain_timeout,
            pulse_endpoint: lifecycle.pulse_endpoint,
            scenarios_file: lifecycle.scenarios_file,
            grpc_descriptor_set: lifecycle.grpc_descriptor_set,
            grpc_connect_timeout: lifecycle.grpc_connect_timeout,
            grpc_request_timeout: lifecycle.grpc_request_timeout,
            grpc_scenario_timeout: lifecycle.grpc_scenario_timeout,
            max_duration: load.max_duration,
            max_scenarios_per_sec: load.max_scenarios_per_sec,
            max_concurrency: load.max_concurrency,
            dry_run: load.dry_run,
            startup_burst: load.startup_burst,
            allow_partial_start: load.allow_partial_start,
            acknowledge_non_local_targets: load.acknowledge_non_local_targets,
            metrics_enabled: load.metrics_enabled,
            metrics_bind: load.metrics_bind,
        };
        assert(is_read(config, *s, *facts));
        config.validate(facts)?;
        Ok(config)
    }
}

} // verus!
