use crate::metadata::{all_wf, views};
use crate::text::is_identifier;
use crate::value::{text_record, ConstMessage, Record};
use vstd::prelude::*;

verus! {

broadcast use vstd::string::group_string_axioms;

// The keys of the project, and the descriptions that go with them.

pub const PROJECT_NAME: &'static str = "PROJECT_NAME";

pub const PKG_VERSION: &'static str = "PKG_VERSION";

pub const PROJECT_NAME_DESC: &'static str = "display the project's name";

pub const PKG_VERSION_DESC: &'static str = "display the project's version";

/// What the build descriptor says of the project, as far as it was set.
#[derive(Debug)]
pub struct Project {
    pub name: Option<String>,
    pub version: Option<String>,
}

/// The text of an optional field: its own, or the empty text.
pub open spec fn text_or_empty(o: Option<String>) -> Seq<char> {
    match o {
        Some(s) => s@,
        None => Seq::empty(),
    }
}

/// The records of the project: its name and its version, each empty where
/// it was not set.
pub open spec fn project_records(p: Project) -> Seq<Record> {
    seq![
        text_record(PROJECT_NAME@, PROJECT_NAME_DESC@, text_or_empty(p.name)),
        text_record(PKG_VERSION@, PKG_VERSION_DESC@, text_or_empty(p.version)),
    ]
}

/// The keys of the project can name constants.
pub proof fn lemma_project_keys()
    ensures
        is_identifier(PROJECT_NAME@),
        is_identifier(PKG_VERSION@),
{
    reveal_strlit("PROJECT_NAME");
    reveal_strlit("PKG_VERSION");
}

fn field_text(o: &Option<String>) -> (s: &str)
    ensures
        s@ == text_or_empty(*o),
{
    match o {
        Some(t) => t.as_str(),
        None => {
            proof {
                reveal_strlit("");
            }
            assert(""@ =~= Seq::<char>::empty());
            ""
        },
    }
}

impl Project {
    /// The records of the project. There are always two, and nothing fails.
    pub fn records(&self) -> (v: Vec<ConstMessage>)
        ensures
            all_wf(v@),
            views(v@) == project_records(*self),
    {
        proof {
            lemma_project_keys();
        }
        let mut v: Vec<ConstMessage> = Vec::new();
        v.push(ConstMessage::text(PROJECT_NAME, PROJECT_NAME_DESC, field_text(&self.name)));
        v.push(ConstMessage::text(PKG_VERSION, PKG_VERSION_DESC, field_text(&self.version)));
        assert(views(v@) =~= project_records(*self));
        v
    }
}

} // verus!
