use crate::date::{instant_text, instant_to_string};
use crate::metadata::{all_wf, views};
use crate::text::{is_identifier, lemma_escape_plain};
use crate::value::{flag_record, text_record, ConstMessage, Record, PLACEHOLDER};
use vstd::prelude::*;

verus! {

broadcast use vstd::string::group_string_axioms;

// The keys of source control, and the descriptions that go with them.

pub const COMMIT_HASH: &'static str = "COMMIT_HASH";

pub const SHORT_COMMIT: &'static str = "SHORT_COMMIT";

pub const BRANCH: &'static str = "BRANCH";

pub const TAG: &'static str = "TAG";

pub const COMMIT_DATE: &'static str = "COMMIT_DATE";

pub const GIT_DIRTY: &'static str = "GIT_DIRTY";

pub const COMMIT_HASH_DESC: &'static str = "display current commit hash";

pub const SHORT_COMMIT_DESC: &'static str = "display current short commit hash";

pub const BRANCH_DESC: &'static str = "display current branch";

pub const TAG_DESC: &'static str = "display latest tag reachable from the current commit";

pub const COMMIT_DATE_DESC: &'static str = "display current commit date";

pub const GIT_DIRTY_DESC: &'static str =
    "display whether tracked files differ from the current commit";

/// How many characters a full commit hash has.
pub const HASH_LEN: usize = 40;

/// How many characters a short commit hash has.
pub const SHORT_LEN: usize = 8;

// The status flags of a file, as libgit2 numbers them. Those that begin with
// INDEX compare the index with the current commit, those that begin with WT
// the working tree with the index.

pub const STATUS_INDEX_NEW: u32 = 0x0001;

pub const STATUS_INDEX_MODIFIED: u32 = 0x0002;

pub const STATUS_INDEX_DELETED: u32 = 0x0004;

pub const STATUS_INDEX_RENAMED: u32 = 0x0008;

pub const STATUS_INDEX_TYPECHANGE: u32 = 0x0010;

pub const STATUS_WT_NEW: u32 = 0x0080;

pub const STATUS_WT_MODIFIED: u32 = 0x0100;

pub const STATUS_WT_DELETED: u32 = 0x0200;

pub const STATUS_WT_TYPECHANGE: u32 = 0x0400;

pub const STATUS_WT_RENAMED: u32 = 0x0800;

pub const STATUS_WT_UNREADABLE: u32 = 0x1000;

pub const STATUS_IGNORED: u32 = 0x4000;

pub const STATUS_CONFLICTED: u32 = 0x8000;

/// The status flags of a tracked file that differs from the current commit,
/// in the index or in the working tree, or is in conflict.
pub const STATUS_TRACKED_CHANGES: u32 = 0x8f1f;

/// A file with these status flags makes the working tree dirty: it is not
/// ignored, and it is a tracked file that differs from the current commit. A
/// file that is only new in the working tree, and so untracked, does not.
pub open spec fn status_is_dirty(bits: u32) -> bool {
    bits & STATUS_IGNORED == 0 && bits & STATUS_TRACKED_CHANGES != 0
}

/// The working tree is dirty: some file's status makes it so.
pub open spec fn is_dirty(statuses: Seq<u32>) -> bool {
    exists|i: int| 0 <= i < statuses.len() && status_is_dirty(#[trigger] statuses[i])
}

pub fn status_dirty(bits: u32) -> (r: bool)
    ensures
        r == status_is_dirty(bits),
{
    bits & STATUS_IGNORED == 0 && bits & STATUS_TRACKED_CHANGES != 0
}

pub fn tree_dirty(statuses: &Vec<u32>) -> (r: bool)
    ensures
        r == is_dirty(statuses@),
{
    let mut i: usize = 0;
    while i < statuses.len()
        invariant
            i <= statuses.len(),
            forall|j: int| 0 <= j < i ==> !status_is_dirty(#[trigger] statuses@[j]),
        decreases statuses.len() - i,
    {
        if status_dirty(statuses[i]) {
            return true;
        }
        i += 1;
    }
    false
}

pub open spec fn is_hex_digit(c: char) -> bool {
    ('0' <= c && c <= '9') || ('a' <= c && c <= 'f')
}

/// A full commit hash: forty hexadecimal digits, letters in lower case.
pub open spec fn is_commit_hash(s: Seq<char>) -> bool {
    &&& s.len() == HASH_LEN
    &&& forall|i: int| 0 <= i < s.len() ==> is_hex_digit(#[trigger] s[i])
}

pub fn check_commit_hash(s: &str) -> (ok: bool)
    ensures
        ok == is_commit_hash(s@),
{
    let mut ok = true;
    let mut n: usize = 0;
    for c in it: s.chars()
        invariant
            it.seq() == s@,
            n == (if it.index() <= HASH_LEN { it.index() } else { HASH_LEN + 1 }),
            ok == forall|i: int| 0 <= i < it.index() ==> is_hex_digit(#[trigger] s@[i]),
    {
        if !(('0' <= c && c <= '9') || ('a' <= c && c <= 'f')) {
            ok = false;
        }
        if n <= HASH_LEN {
            n += 1;
        }
    }
    ok && n == HASH_LEN
}

/// What was read of a repository.
#[derive(Debug)]
pub struct RepoFacts {
    /// The hash of the current commit, in hexadecimal.
    pub commit: String,
    /// The name of the current branch; `None` where the head is detached.
    pub branch: Option<String>,
    /// The latest tag that is reachable from the current commit, if any.
    pub tag: Option<String>,
    /// When the current commit was made, in seconds since the start of 1970.
    pub commit_time: i64,
    /// The status flags of every file that the repository reports on.
    pub statuses: Vec<u32>,
}

/// The outcome of looking for a repository.
#[derive(Debug)]
pub enum Git {
    /// No repository was found, or its state could not be read.
    Unavailable,
    /// A repository was found and read.
    Collected(RepoFacts),
}

/// The text of an optional fact: its own, or the placeholder.
pub open spec fn text_or_placeholder(o: Option<String>) -> Seq<char> {
    match o {
        Some(s) => s@,
        None => PLACEHOLDER@,
    }
}

/// The records that stand for a repository that could not be read.
pub open spec fn placeholder_records() -> Seq<Record> {
    seq![
        text_record(COMMIT_HASH@, COMMIT_HASH_DESC@, PLACEHOLDER@),
        text_record(SHORT_COMMIT@, SHORT_COMMIT_DESC@, PLACEHOLDER@),
        text_record(BRANCH@, BRANCH_DESC@, PLACEHOLDER@),
        text_record(TAG@, TAG_DESC@, PLACEHOLDER@),
        text_record(COMMIT_DATE@, COMMIT_DATE_DESC@, PLACEHOLDER@),
        flag_record(GIT_DIRTY@, GIT_DIRTY_DESC@, false),
    ]
}

/// The records of a repository that was read.
pub open spec fn repo_records(f: RepoFacts) -> Seq<Record> {
    seq![
        text_record(COMMIT_HASH@, COMMIT_HASH_DESC@, f.commit@),
        text_record(SHORT_COMMIT@, SHORT_COMMIT_DESC@, f.commit@.take(SHORT_LEN as int)),
        text_record(BRANCH@, BRANCH_DESC@, text_or_placeholder(f.branch)),
        text_record(TAG@, TAG_DESC@, text_or_placeholder(f.tag)),
        text_record(COMMIT_DATE@, COMMIT_DATE_DESC@, instant_text(f.commit_time)),
        flag_record(GIT_DIRTY@, GIT_DIRTY_DESC@, is_dirty(f.statuses@)),
    ]
}

/// The records of source control: the same six keys whatever was found. A
/// repository whose commit hash is no full hash counts as unreadable.
pub open spec fn git_records(g: Git) -> Seq<Record> {
    match g {
        Git::Collected(f) => if is_commit_hash(f.commit@) {
            repo_records(f)
        } else {
            placeholder_records()
        },
        Git::Unavailable => placeholder_records(),
    }
}

/// The keys of source control can name constants.
pub proof fn lemma_git_keys()
    ensures
        is_identifier(COMMIT_HASH@),
        is_identifier(SHORT_COMMIT@),
        is_identifier(BRANCH@),
        is_identifier(TAG@),
        is_identifier(COMMIT_DATE@),
        is_identifier(GIT_DIRTY@),
{
    reveal_strlit("COMMIT_HASH");
    reveal_strlit("SHORT_COMMIT");
    reveal_strlit("BRANCH");
    reveal_strlit("TAG");
    reveal_strlit("COMMIT_DATE");
    reveal_strlit("GIT_DIRTY");
}

fn option_text(o: &Option<String>) -> (s: &str)
    ensures
        s@ == text_or_placeholder(*o),
{
    match o {
        Some(t) => t.as_str(),
        None => PLACEHOLDER,
    }
}

impl Git {
    /// What a reading of the repository comes to: its facts, or `Unavailable`
    /// where the reading failed. A failure does not end the run.
    pub fn from_result(r: Result<RepoFacts, git2::Error>) -> (g: Git)
        ensures
            g == match r {
                Ok(f) => Git::Collected(f),
                Err(_) => Git::Unavailable,
            },
    {
        match r {
            Ok(f) => Git::Collected(f),
            Err(_) => Git::Unavailable,
        }
    }

    /// The records of source control.
    pub fn records(&self) -> (v: Vec<ConstMessage>)
        ensures
            all_wf(v@),
            views(v@) == git_records(*self),
    {
        proof {
            lemma_git_keys();
        }
        let mut v: Vec<ConstMessage> = Vec::new();
        match self {
            Git::Collected(f) => {
                if check_commit_hash(f.commit.as_str()) {
                    let short = f.commit.as_str().substring_char(0, SHORT_LEN);
                    assert(short@ =~= f.commit@.take(SHORT_LEN as int));
                    let date = instant_to_string(f.commit_time);
                    v.push(ConstMessage::text(COMMIT_HASH, COMMIT_HASH_DESC, f.commit.as_str()));
                    v.push(ConstMessage::text(SHORT_COMMIT, SHORT_COMMIT_DESC, short));
                    v.push(ConstMessage::text(BRANCH, BRANCH_DESC, option_text(&f.branch)));
                    v.push(ConstMessage::text(TAG, TAG_DESC, option_text(&f.tag)));
                    v.push(ConstMessage::text(COMMIT_DATE, COMMIT_DATE_DESC, date.as_str()));
                    v.push(ConstMessage::flag(GIT_DIRTY, GIT_DIRTY_DESC, tree_dirty(&f.statuses)));
                    assert(views(v@) =~= git_records(*self));
                    return v;
                }
            },
            Git::Unavailable => {},
        }
        v.push(ConstMessage::text(COMMIT_HASH, COMMIT_HASH_DESC, PLACEHOLDER));
        v.push(ConstMessage::text(SHORT_COMMIT, SHORT_COMMIT_DESC, PLACEHOLDER));
        v.push(ConstMessage::text(BRANCH, BRANCH_DESC, PLACEHOLDER));
        v.push(ConstMessage::text(TAG, TAG_DESC, PLACEHOLDER));
        v.push(ConstMessage::text(COMMIT_DATE, COMMIT_DATE_DESC, PLACEHOLDER));
        v.push(ConstMessage::flag(GIT_DIRTY, GIT_DIRTY_DESC, false));
        assert(views(v@) =~= git_records(*self));
        v
    }
}

/// For a repository with a full commit hash, the hash record holds the forty
/// hexadecimal digits as they are, and the short-hash record holds the first
/// eight of them.
pub proof fn law_commit_hash_shape(f: RepoFacts)
    requires
        is_commit_hash(f.commit@),
    ensures
        git_records(Git::Collected(f))[0].key == COMMIT_HASH@,
        git_records(Git::Collected(f))[0].value == f.commit@,
        git_records(Git::Collected(f))[0].value.len() == 40,
        forall|i: int| 0 <= i < 40 ==> is_hex_digit(#[trigger] f.commit@[i]),
        git_records(Git::Collected(f))[1].key == SHORT_COMMIT@,
        git_records(Git::Collected(f))[1].value.len() == 8,
        git_records(Git::Collected(f))[1].value == git_records(Git::Collected(f))[0].value.take(8),
{
    let full = f.commit@;
    let short = f.commit@.take(8);
    assert forall|i: int| 0 <= i < full.len() implies #[trigger] full[i] != '\\' && full[i] != '"'
        && !crate::text::is_line_break(full[i]) by {
        assert(is_hex_digit(full[i]));
    }
    assert forall|i: int| 0 <= i < short.len() implies #[trigger] short[i] != '\\' && short[i]
        != '"' && !crate::text::is_line_break(short[i]) by {
        assert(is_hex_digit(full[i]));
    }
    lemma_escape_plain(full);
    lemma_escape_plain(short);
}

/// Whatever was found, the hash records hold either a full hash and its first
/// eight digits, or the placeholder both.
pub proof fn law_hash_records(g: Git)
    ensures
        git_records(g).len() == 6,
        git_records(g)[0].key == COMMIT_HASH@,
        git_records(g)[1].key == SHORT_COMMIT@,
        (is_commit_hash(git_records(g)[0].value) && git_records(g)[1].value == git_records(
            g,
        )[0].value.take(8)) || (git_records(g)[0].value == PLACEHOLDER@ && git_records(g)[1].value
            == PLACEHOLDER@),
{
    match g {
        Git::Collected(f) => {
            if is_commit_hash(f.commit@) {
                law_commit_hash_shape(f);
            } else {
                law_unavailable_gives_placeholders();
            }
        },
        Git::Unavailable => {
            law_unavailable_gives_placeholders();
        },
    }
}

/// A repository that could not be read gives the placeholder for every key of
/// source control, and `false` for the dirty flag.
pub proof fn law_unavailable_gives_placeholders()
    ensures
        git_records(Git::Unavailable) == placeholder_records(),
        forall|i: int| 0 <= i < 5 ==> (#[trigger] placeholder_records()[i]).value == PLACEHOLDER@,
        placeholder_records()[5].value == "false"@,
        placeholder_records().len() == 6,
{
    reveal_strlit("None");
    assert forall|i: int| 0 <= i < PLACEHOLDER@.len() implies #[trigger] PLACEHOLDER@[i] != '\\'
        && PLACEHOLDER@[i] != '"' && !crate::text::is_line_break(PLACEHOLDER@[i]) by {}
    lemma_escape_plain(PLACEHOLDER@);
}

/// The dirty flag is `true` exactly where some file that is not ignored is a
/// tracked file that differs from the current commit.
pub proof fn law_dirty_flag(f: RepoFacts)
    requires
        is_commit_hash(f.commit@),
    ensures
        git_records(Git::Collected(f))[5].key == GIT_DIRTY@,
        git_records(Git::Collected(f))[5].value == "true"@ <==> is_dirty(f.statuses@),
        git_records(Git::Collected(f))[5].value == "false"@ <==> !is_dirty(f.statuses@),
{
    reveal_strlit("true");
    reveal_strlit("false");
    assert("true"@.len() != "false"@.len());
}

/// A file that is only new in the working tree does not make the tree dirty:
/// with it or without it the flag is the same.
pub proof fn law_untracked_file_keeps_flag(statuses: Seq<u32>)
    ensures
        !status_is_dirty(STATUS_WT_NEW),
        is_dirty(statuses.push(STATUS_WT_NEW)) == is_dirty(statuses),
{
    assert(!status_is_dirty(STATUS_WT_NEW)) by (bit_vector);
    let more = statuses.push(STATUS_WT_NEW);
    if is_dirty(statuses) {
        let i = choose|i: int| 0 <= i < statuses.len() && status_is_dirty(#[trigger] statuses[i]);
        assert(status_is_dirty(more[i]));
    }
    if is_dirty(more) {
        let i = choose|i: int| 0 <= i < more.len() && status_is_dirty(#[trigger] more[i]);
        assert(i < statuses.len());
        assert(status_is_dirty(statuses[i]));
    }
}

} // verus!
