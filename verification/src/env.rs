use crate::date::{instant_text, instant_to_string};
use crate::err::{decode_text, decoded, SdResult, ShadowError};
use crate::metadata::{all_wf, views};
use crate::text::{is_identifier, trim_end, trim_line_end};
use crate::value::{text_record, ConstMessage, Record, PLACEHOLDER};
use vstd::prelude::*;

verus! {

broadcast use vstd::string::group_string_axioms;

// The keys of the environment, and the descriptions that go with them.

pub const BUILD_TIME: &'static str = "BUILD_TIME";

pub const BUILD_TARGET: &'static str = "BUILD_TARGET";

pub const BUILD_HOST: &'static str = "BUILD_HOST";

pub const RUST_VERSION: &'static str = "RUST_VERSION";

pub const BUILD_TIME_DESC: &'static str = "display the time of the build";

pub const BUILD_TARGET_DESC: &'static str = "display the platform that is built for";

pub const BUILD_HOST_DESC: &'static str = "display the platform that is built on";

pub const RUST_VERSION_DESC: &'static str = "display the version of the compiler";

/// The variable that holds the platform that is built for.
pub const TARGET_VAR: &'static str = "TARGET";

/// The variable that holds the platform that is built on.
pub const HOST_VAR: &'static str = "HOST";

/// How the message for a missing required variable begins.
pub const MISSING: &'static str = "missing required environment variable: ";

/// The facts of the build environment, as the surrounding build handed them in.
#[derive(Debug)]
pub struct SystemEnv {
    /// When the facts were collected, in seconds since the start of 1970.
    pub build_time: i64,
    /// The platform that is built for. Required.
    pub target: Option<String>,
    /// The platform that is built on. Required.
    pub host: Option<String>,
    /// What the compiler printed as its version, byte for byte; `None` where
    /// it could not be asked.
    pub rust_version: Option<Vec<u8>>,
}

/// A required fact: its text, or the message that names the variable that is
/// missing.
pub open spec fn required_fact(fact: Option<String>, variable: Seq<char>) -> Result<
    Seq<char>,
    Seq<char>,
> {
    match fact {
        Some(text) => Ok(text@),
        None => Err(MISSING@ + variable),
    }
}

/// The compiler's version: the placeholder where the compiler could not be
/// asked; else the text that its bytes encode, without the line breaks at its
/// end; or the message of the conversion error where they are no UTF-8.
pub open spec fn version_fact(printed: Option<Vec<u8>>) -> Result<Seq<char>, Seq<char>> {
    match printed {
        None => Ok(PLACEHOLDER@),
        Some(bytes) => match decoded(bytes@) {
            Ok(text) => Ok(trim_line_end(text)),
            Err(message) => Err(message),
        },
    }
}

/// The four records of the environment, given their four texts.
pub open spec fn env_records(
    time: Seq<char>,
    target: Seq<char>,
    host: Seq<char>,
    version: Seq<char>,
) -> Seq<Record> {
    seq![
        text_record(BUILD_TIME@, BUILD_TIME_DESC@, time),
        text_record(BUILD_TARGET@, BUILD_TARGET_DESC@, target),
        text_record(BUILD_HOST@, BUILD_HOST_DESC@, host),
        text_record(RUST_VERSION@, RUST_VERSION_DESC@, version),
    ]
}

/// What collecting the environment comes to: its records, or the message of
/// the error that ends the run. The target is looked at first, then the host,
/// then the compiler's version; the first that fails gives the error.
pub open spec fn env_outcome(e: SystemEnv) -> Result<Seq<Record>, Seq<char>> {
    match required_fact(e.target, TARGET_VAR@) {
        Err(message) => Err(message),
        Ok(target) => match required_fact(e.host, HOST_VAR@) {
            Err(message) => Err(message),
            Ok(host) => match version_fact(e.rust_version) {
                Err(message) => Err(message),
                Ok(version) => Ok(env_records(instant_text(e.build_time), target, host, version)),
            },
        },
    }
}

/// The keys of the environment can name constants.
pub proof fn lemma_env_keys()
    ensures
        is_identifier(BUILD_TIME@),
        is_identifier(BUILD_TARGET@),
        is_identifier(BUILD_HOST@),
        is_identifier(RUST_VERSION@),
{
    reveal_strlit("BUILD_TIME");
    reveal_strlit("BUILD_TARGET");
    reveal_strlit("BUILD_HOST");
    reveal_strlit("RUST_VERSION");
}

fn required(fact: &Option<String>, variable: &str) -> (r: SdResult<String>)
    ensures
        match required_fact(*fact, variable@) {
            Ok(text) => r matches Ok(s) && s@ == text,
            Err(message) => r matches Err(e) && e.message() == message,
        },
{
    match fact {
        Some(text) => Ok(text.clone()),
        None => {
            let mut message = MISSING.to_owned();
            message.append(variable);
            Err(ShadowError::String(message))
        },
    }
}

impl SystemEnv {
    /// The time of the build as text; the placeholder where it cannot be
    /// written as a date.
    pub fn build_time_text(&self) -> (s: String)
        ensures
            s@ == instant_text(self.build_time),
    {
        instant_to_string(self.build_time)
    }

    /// The platform that is built for; an error that names the variable where
    /// it is missing.
    pub fn target_triple(&self) -> (r: SdResult<String>)
        ensures
            match required_fact(self.target, TARGET_VAR@) {
                Ok(text) => r matches Ok(s) && s@ == text,
                Err(message) => r matches Err(e) && e.message() == message,
            },
    {
        required(&self.target, TARGET_VAR)
    }

    /// The platform that is built on; an error that names the variable where
    /// it is missing.
    pub fn host_triple(&self) -> (r: SdResult<String>)
        ensures
            match required_fact(self.host, HOST_VAR@) {
                Ok(text) => r matches Ok(s) && s@ == text,
                Err(message) => r matches Err(e) && e.message() == message,
            },
    {
        required(&self.host, HOST_VAR)
    }

    /// The compiler's version as text; the placeholder where the compiler
    /// could not be asked, and a conversion error where what it printed is no
    /// UTF-8.
    pub fn compiler_version(&self) -> (r: SdResult<String>)
        ensures
            match version_fact(self.rust_version) {
                Ok(text) => r matches Ok(s) && s@ == text,
                Err(message) => r matches Err(e) && e.message() == message,
            },
    {
        match &self.rust_version {
            None => Ok(PLACEHOLDER.to_owned()),
            Some(bytes) => match decode_text(bytes.clone()) {
                Ok(text) => Ok(trim_end(text.as_str()).to_owned()),
                Err(e) => Err(e),
            },
        }
    }

    /// The records of the environment, or the error that ends the run.
    pub fn records(&self) -> (r: SdResult<Vec<ConstMessage>>)
        ensures
            match env_outcome(*self) {
                Ok(records) => r matches Ok(v) && all_wf(v@) && views(v@) == records,
                Err(message) => r matches Err(e) && e.message() == message,
            },
    {
        proof {
            lemma_env_keys();
        }
        let target = match self.target_triple() {
            Ok(t) => t,
            Err(e) => {
                return Err(e);
            },
        };
        let host = match self.host_triple() {
            Ok(h) => h,
            Err(e) => {
                return Err(e);
            },
        };
        let version = match self.compiler_version() {
            Ok(v) => v,
            Err(e) => {
                return Err(e);
            },
        };
        let time = self.build_time_text();
        let mut v: Vec<ConstMessage> = Vec::new();
        v.push(ConstMessage::text(BUILD_TIME, BUILD_TIME_DESC, time.as_str()));
        v.push(ConstMessage::text(BUILD_TARGET, BUILD_TARGET_DESC, target.as_str()));
        v.push(ConstMessage::text(BUILD_HOST, BUILD_HOST_DESC, host.as_str()));
        v.push(ConstMessage::text(RUST_VERSION, RUST_VERSION_DESC, version.as_str()));
        assert(views(v@) =~= env_outcome(*self)->Ok_0);
        Ok(v)
    }
}

} // verus!
