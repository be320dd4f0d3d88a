//! Logging configuration.
//!
//! Every sink is wrapped in a redacting writer, so even if a secret ends up in a
//! log statement it is replaced by `<redacted>` before it reaches a file.
use crate::error::{fail, ErrorCode, RdtError};
use crate::redact::Redactor;
use crate::text::{concat2, concat3, texts};
use vstd::prelude::*;

verus! {

/// Logging configuration.
#[derive(Debug, Clone, PartialEq)]
pub struct LogConfig {
    /// Level for the console writer (`off`, `error`, `warn`, `info`, `debug`, `trace`).
    pub console_level: String,
    /// Level for the file writer.
    pub file_level: String,
    /// Whether to write the JSON file at all.
    pub file_enabled: bool,
    /// Maximum size of one log file before rotation, in bytes.
    pub max_bytes_per_file: usize,
    /// Number of rotated files to keep.
    pub max_files: usize,
    /// Literal secret values that must never appear in a log line.
    pub secrets: Vec<String>,
}

impl Default for LogConfig {
    fn default() -> (r: Self)
        ensures
            r.console_level@ == "info"@,
            r.file_level@ == "debug"@,
            r.file_enabled,
            r.max_bytes_per_file == 8 * 1024 * 1024,
            r.max_files == 5,
            r.secrets@ == Seq::<String>::empty(),
    {
        LogConfig {
            console_level: "info".to_owned(),
            file_level: "debug".to_owned(),
            file_enabled: true,
            max_bytes_per_file: 8 * 1024 * 1024,
            max_files: 5,
            secrets: Vec::new(),
        }
    }
}

/// The secrets that a redactor takes from a list: each once, and none that is too
/// short.
pub open spec fn collected(secrets: Seq<Seq<char>>) -> Seq<Seq<char>>
    decreases secrets.len(),
{
    if secrets.len() == 0 {
        Seq::empty()
    } else {
        let before = collected(secrets.drop_last());
        if secrets.last().len() >= 4 && !before.contains(secrets.last()) {
            before.push(secrets.last())
        } else {
            before
        }
    }
}

/// Builds the redactor from the configured secret list.
pub fn build_redactor(config: &LogConfig) -> (r: Redactor)
    ensures
        r.secrets() == collected(texts(config.secrets@)),
{
    let mut redactor = Redactor::new();
    let ghost all = texts(config.secrets@);
    let mut i: usize = 0;
    assert(all.take(0) =~= Seq::<Seq<char>>::empty());
    while i < config.secrets.len()
        invariant
            i <= config.secrets@.len(),
            all == texts(config.secrets@),
            redactor.secrets() == collected(all.take(i as int)),
        decreases config.secrets.len() - i,
    {
        assert(all.take(i + 1).drop_last() =~= all.take(i as int));
        assert(all.take(i + 1).last() == config.secrets@[i as int]@);
        redactor = redactor.with_secret(config.secrets[i].as_str());
        i = i + 1;
    }
    assert(all.take(all.len() as int) =~= all);
    redactor
}

/// The filter directive for a level, unless the environment gives one.
pub fn filter_directive(level: &str, environment: Option<&str>) -> (r: String)
    ensures
        r@ == match environment {
            Some(directive) => directive@,
            None => "rdt="@ + level@ + ",warn"@,
        },
{
    match environment {
        Some(directive) => directive.to_owned(),
        None => concat3("rdt=", level, ",warn"),
    }
}

/// The error for a subscriber that cannot be installed.
pub fn subscriber_failed(reason: &str) -> (r: RdtError)
    ensures
        r@ == fail(
            ErrorCode::Internal,
            "cannot install the logging subscriber: "@ + reason@,
        ),
{
    RdtError::new(
        ErrorCode::Internal,
        concat2("cannot install the logging subscriber: ", reason).as_str(),
    )
}

/// A configured secret that is long enough is known to the redactor.
pub proof fn configured_secrets_are_known(secrets: Seq<Seq<char>>, i: int)
    requires
        0 <= i < secrets.len(),
        secrets[i].len() >= 4,
    ensures
        collected(secrets).contains(secrets[i]),
    decreases secrets.len(),
{
    let before = collected(secrets.drop_last());
    let after = collected(secrets);
    if i == secrets.len() - 1 {
        if !before.contains(secrets.last()) {
            assert(after[before.len() as int] == secrets[i]);
        }
    } else {
        configured_secrets_are_known(secrets.drop_last(), i);
        let k = before.index_of(secrets[i]);
        assert(before[k] == secrets[i]);
        assert(after[k] == secrets[i]);
    }
}

/// Only what was configured is collected, each secret once and none that is shorter than
/// four characters.
pub proof fn only_configured_secrets_are_known(secrets: Seq<Seq<char>>, secret: Seq<char>)
    ensures
        collected(secrets).contains(secret) ==> secrets.contains(secret) && secret.len() >= 4,
        collected(secrets).no_duplicates(),
    decreases secrets.len(),
{
    if secrets.len() > 0 {
        let front = secrets.drop_last();
        only_configured_secrets_are_known(front, secret);
        let before = collected(front);
        let after = collected(secrets);
        if after.contains(secret) {
            let k = after.index_of(secret);
            if k < before.len() {
                assert(before[k] == secret);
                let n = choose|n: int| 0 <= n < front.len() && front[n] == secret;
                assert(secrets[n] == secret);
            } else {
                assert(secrets[secrets.len() - 1] == secret);
            }
        }
        assert forall|i: int, j: int|
            0 <= i < after.len() && 0 <= j < after.len() && i != j implies after[i] != after[j] by {
            if i == before.len() {
                assert(before[j] == after[j]);
            } else if j == before.len() {
                assert(before[i] == after[i]);
            }
        }
    }
}

} // verus!
