use crate::err::{SdResult, ShadowError};
use crate::text::{
    check_identifier, check_literal_safe, check_one_line, escape, escape_text, flatten_line,
    is_identifier, is_literal_safe, is_one_line, to_one_line,
};
use vstd::prelude::*;

verus! {

broadcast use vstd::string::group_string_axioms;

/// The value that stands for a fact that could not be determined.
pub const PLACEHOLDER: &'static str = "None";

/// The type that a generated constant is declared with.
#[derive(Clone, Copy, Debug, PartialEq, Eq, Structural)]
pub enum ConstKind {
    /// A text: `&str`.
    Str,
    /// A truth value: `bool`.
    Bool,
}

impl ConstKind {
    /// The type's name as it is written behind the colon of a definition.
    pub open spec fn name(self) -> Seq<char> {
        match self {
            ConstKind::Str => "&str"@,
            ConstKind::Bool => "bool"@,
        }
    }

    pub fn to_string(&self) -> (s: String)
        ensures
            s@ == self.name(),
    {
        match self {
            ConstKind::Str => "&str".to_owned(),
            ConstKind::Bool => "bool".to_owned(),
        }
    }
}

/// What a record says, as plain mathematical values.
pub ghost struct Record {
    pub key: Seq<char>,
    pub description: Seq<char>,
    pub kind: ConstKind,
    pub value: Seq<char>,
}

/// The record made of the four parts.
pub open spec fn record_of(
    key: Seq<char>,
    description: Seq<char>,
    kind: ConstKind,
    value: Seq<char>,
) -> Record {
    Record { key, description, kind, value }
}

/// The text record of raw parts: line breaks in the description are spaces,
/// and the value is escaped.
pub open spec fn text_record(key: Seq<char>, description: Seq<char>, value: Seq<char>) -> Record {
    record_of(key, flatten_line(description), ConstKind::Str, escape_text(value))
}

/// The truth-value record of raw parts.
pub open spec fn flag_record(key: Seq<char>, description: Seq<char>, value: bool) -> Record {
    record_of(key, flatten_line(description), ConstKind::Bool, bool_text(value))
}

/// A record can be written out: its key can name a constant, its description
/// stays on one line and its value can stand between quotes.
pub open spec fn record_wf(r: Record) -> bool {
    &&& is_identifier(r.key)
    &&& is_one_line(r.description)
    &&& is_literal_safe(r.value)
}

/// The text of the error that `ConstMessage::new` gives for a record that
/// cannot be written out.
pub open spec fn invalid_record_message(
    key: Seq<char>,
    description: Seq<char>,
    value: Seq<char>,
) -> Seq<char> {
    if !is_identifier(key) {
        "invalid key: "@ + key
    } else if !is_one_line(description) {
        "description of more than one line: "@ + key
    } else {
        "value breaks the literal: "@ + key
    }
}

/// One generated constant: its key, a one-line description, the type it is
/// declared with and its value, already in the form that is written out.
#[derive(Debug)]
pub struct ConstMessage {
    key: String,
    description: String,
    kind: ConstKind,
    value: String,
}

impl View for ConstMessage {
    type V = Record;

    closed spec fn view(&self) -> Record {
        Record {
            key: self.key@,
            description: self.description@,
            kind: self.kind,
            value: self.value@,
        }
    }
}

impl Clone for ConstMessage {
    fn clone(&self) -> (r: Self)
        ensures
            r@ == self@,
    {
        ConstMessage {
            key: self.key.clone(),
            description: self.description.clone(),
            kind: self.kind,
            value: self.value.clone(),
        }
    }
}

impl ConstMessage {
    /// The record can be written out.
    pub open spec fn wf(&self) -> bool {
        record_wf(self@)
    }

    /// Makes a record of parts that are already fit to be written out, and
    /// refuses any other.
    pub fn new(key: &str, description: &str, kind: ConstKind, value: &str) -> (r: SdResult<
        ConstMessage,
    >)
        ensures
            r is Ok <==> record_wf(record_of(key@, description@, kind, value@)),
            r matches Ok(m) ==> m@ == record_of(key@, description@, kind, value@),
            r matches Err(e) ==> e.message() == invalid_record_message(
                key@,
                description@,
                value@,
            ),
    {
        if !check_identifier(key) {
            let mut msg = "invalid key: ".to_owned();
            msg.append(key);
            return Err(ShadowError::String(msg));
        }
        if !check_one_line(description) {
            let mut msg = "description of more than one line: ".to_owned();
            msg.append(key);
            return Err(ShadowError::String(msg));
        }
        if !check_literal_safe(value) {
            let mut msg = "value breaks the literal: ".to_owned();
            msg.append(key);
            return Err(ShadowError::String(msg));
        }
        Ok(
            ConstMessage {
                key: key.to_owned(),
                description: description.to_owned(),
                kind,
                value: value.to_owned(),
            },
        )
    }

    /// Makes a text record of raw parts: line breaks in the description become
    /// spaces, and the value is escaped.
    pub fn text(key: &str, description: &str, value: &str) -> (m: ConstMessage)
        requires
            is_identifier(key@),
        ensures
            m.wf(),
            m@ == text_record(key@, description@, value@),
    {
        ConstMessage {
            key: key.to_owned(),
            description: to_one_line(description),
            kind: ConstKind::Str,
            value: escape(value),
        }
    }

    /// Makes a truth-value record, whose value is `true` or `false`.
    pub fn flag(key: &str, description: &str, value: bool) -> (m: ConstMessage)
        requires
            is_identifier(key@),
        ensures
            m.wf(),
            m@ == flag_record(key@, description@, value),
    {
        proof {
            lemma_bool_text_safe(value);
        }
        ConstMessage {
            key: key.to_owned(),
            description: to_one_line(description),
            kind: ConstKind::Bool,
            value: if value {
                "true".to_owned()
            } else {
                "false".to_owned()
            },
        }
    }

    pub fn key(&self) -> (s: &String)
        ensures
            s@ == self@.key,
    {
        &self.key
    }

    pub fn description(&self) -> (s: &String)
        ensures
            s@ == self@.description,
    {
        &self.description
    }

    pub fn kind(&self) -> (k: ConstKind)
        ensures
            k == self@.kind,
    {
        self.kind
    }

    pub fn value(&self) -> (s: &String)
        ensures
            s@ == self@.value,
    {
        &self.value
    }
}

/// `true` or `false`, as a truth value is written.
pub open spec fn bool_text(b: bool) -> Seq<char> {
    if b {
        "true"@
    } else {
        "false"@
    }
}

/// A truth value as it is written can stand between quotes.
pub proof fn lemma_bool_text_safe(b: bool)
    ensures
        is_literal_safe(bool_text(b)),
{
    reveal_strlit("true");
    reveal_strlit("false");
    reveal_with_fuel(crate::text::literal_scan, 6);
}

} // verus!
