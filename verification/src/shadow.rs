use crate::env::{env_outcome, SystemEnv};
use crate::err::SdResult;
use crate::git::{git_records, Git};
use crate::metadata::{
    all_wf, last_with_key, lemma_merge_lookup, lookup, merge_spec, set_wf, views, MetadataSet,
};
use crate::project::{project_records, Project};
use crate::text::{
    ascii_upper, chars_of, ends_with, has_suffix, is_one_line, lemma_literal_safe_one_line,
    lemma_one_line_concat, lemma_upper_identifier, to_ascii_upper,
};
use crate::value::{record_wf, ConstMessage, Record};
use vstd::prelude::*;

verus! {

broadcast use vstd::string::group_string_axioms;

/// The name of the generated file.
pub const SHADOW_RS: &'static str = "shadow.rs";

/// The first line of every generated file.
pub const HEADER: &'static str = "// Code generated by shadow-rs generator. DO NOT EDIT.";

/// The header line, its line end, and the two blank lines that follow it.
pub open spec fn header_text() -> Seq<char> {
    HEADER@ + "\n\n\n"@
}

/// The comment line of a record: its description.
pub open spec fn comment_line(r: Record) -> Seq<char> {
    "// "@ + r.description + "\n"@
}

/// The definition line of a record: its key in upper case, the name of its
/// kind, and its value between quotes.
pub open spec fn definition_line(r: Record) -> Seq<char> {
    "pub const "@ + ascii_upper(r.key) + " :"@ + r.kind.name() + " = \""@ + r.value + "\";"@
        + "\n"@
}

/// What is written for one record: its comment line, its definition line, and
/// a blank line.
pub open spec fn record_text(r: Record) -> Seq<char> {
    comment_line(r) + definition_line(r) + "\n"@
}

/// A text that is one line with its line end.
pub open spec fn is_line(s: Seq<char>) -> bool {
    s.len() > 0 && s.last() == '\n' && is_one_line(s.drop_last())
}

/// What is written for a sequence of records, first to last.
pub open spec fn records_text(rs: Seq<Record>) -> Seq<char>
    decreases rs.len(),
{
    if rs.len() == 0 {
        Seq::empty()
    } else {
        records_text(rs.drop_last()) + record_text(rs.last())
    }
}

/// The whole generated file for a sequence of records.
pub open spec fn render(rs: Seq<Record>) -> Seq<char> {
    header_text() + records_text(rs)
}

/// The records of a run: those of source control, then those of the project,
/// then those of the environment, each put in over what came before.
pub open spec fn collected(git: Seq<Record>, project: Seq<Record>, env: Seq<Record>) -> Seq<
    Record,
> {
    merge_spec(merge_spec(merge_spec(Seq::empty(), git), project), env)
}

/// What a generation run comes to: the records of the three collectors,
/// merged in their fixed order, or the message of the error that ends the run.
/// Only the environment can end it.
pub open spec fn generated(git: Git, project: Project, env: SystemEnv) -> Result<
    Seq<Record>,
    Seq<char>,
> {
    match env_outcome(env) {
        Ok(records) => Ok(collected(git_records(git), project_records(project), records)),
        Err(message) => Err(message),
    }
}

/// The target names the generated file itself: its last part is the file's name.
pub open spec fn names_output_file(target: Seq<char>) -> bool {
    target == SHADOW_RS@ || ends_with(target, "/"@ + SHADOW_RS@)
}

/// Where the generated file goes. A target that ends in a separator is a
/// directory, and the file's name is put behind it; a target that names the
/// file is the place itself; any other target is a directory, and a separator
/// and the file's name are put behind it.
pub open spec fn resolved_path(target: Seq<char>) -> Seq<char> {
    if ends_with(target, "/"@) {
        target + SHADOW_RS@
    } else if names_output_file(target) {
        target
    } else {
        target + "/"@ + SHADOW_RS@
    }
}

/// One generation run: the records gathered, and the text written so far.
#[derive(Debug)]
pub struct Shadow {
    f: String,
    map: MetadataSet,
}

impl Shadow {
    /// The text written so far.
    pub closed spec fn text(&self) -> Seq<char> {
        self.f@
    }

    /// The records of the run.
    pub closed spec fn records(&self) -> Seq<Record> {
        self.map@
    }

    /// Every record of the run can be written out, and no key occurs twice.
    pub open spec fn wf(&self) -> bool {
        set_wf(self.records())
    }

    /// Runs the three collectors in their fixed order, merges their records
    /// and writes the file's text. A repository that could not be read does
    /// not end the run; a failure of the environment does.
    pub fn new(git: &Git, project: &Project, env: &SystemEnv) -> (r: SdResult<Shadow>)
        ensures
            match generated(*git, *project, *env) {
                Ok(records) => r matches Ok(s) && s.wf() && s.records() == records && s.text()
                    == render(records),
                Err(message) => r matches Err(e) && e.message() == message,
            },
    {
        let from_git = git.records();
        let from_project = project.records();
        let from_env = match env.records() {
            Ok(v) => v,
            Err(e) => {
                return Err(e);
            },
        };
        Ok(Shadow::from_records(&from_git, &from_project, &from_env))
    }

    /// Where the generated file goes, for a target that is a directory or
    /// names the file.
    pub fn output_path(target: &str) -> (path: String)
        ensures
            path@ == resolved_path(target@),
    {
        let t = chars_of(target);
        let slash = chars_of("/");
        let mut name = chars_of("/");
        let mut file = chars_of(SHADOW_RS);
        let whole = t.len() == file.len() && has_suffix(&t, &file);
        name.append(&mut file);
        proof {
            assert(name@ =~= "/"@ + SHADOW_RS@);
            if t@.len() == SHADOW_RS@.len() {
                assert(t@.skip(0) =~= t@);
            }
            assert(whole == (target@ == SHADOW_RS@));
        }
        let mut path = target.to_owned();
        if has_suffix(&t, &slash) {
            path.append(SHADOW_RS);
        } else if whole || has_suffix(&t, &name) {
        } else {
            path.append("/");
            path.append(SHADOW_RS);
        }
        path
    }

    /// Merges what the three collectors gave, in their fixed order, and writes
    /// the file's text.
    pub fn from_records(
        git: &Vec<ConstMessage>,
        project: &Vec<ConstMessage>,
        env: &Vec<ConstMessage>,
    ) -> (s: Shadow)
        requires
            all_wf(git@),
            all_wf(project@),
            all_wf(env@),
        ensures
            s.wf(),
            s.records() == collected(views(git@), views(project@), views(env@)),
            s.text() == render(s.records()),
    {
        let mut map = MetadataSet::new();
        map.merge(git);
        map.merge(project);
        map.merge(env);
        let mut shadow = Shadow { f: String::new(), map };
        shadow.gen_const();
        assert(shadow.f@ =~= render(shadow.map@));
        shadow
    }

    /// Writes the header and then every record, in the order of the set.
    pub fn gen_const(&mut self)
        ensures
            final(self).records() == old(self).records(),
            final(self).text() == old(self).text() + render(old(self).records()),
    {
        self.write_header();
        let n = self.map.len();
        let mut i: usize = 0;
        while i < n
            invariant
                i <= n,
                n == self.map@.len(),
                self.map@ == old(self).map@,
                self.f@ == old(self).f@ + header_text() + records_text(self.map@.take(i as int)),
            decreases n - i,
        {
            let m = self.map.get(i).clone();
            proof {
                let next = self.map@.take(i + 1);
                assert(next.drop_last() =~= self.map@.take(i as int));
                assert(next.last() == m@);
            }
            self.write_const(&m);
            assert(self.f@ =~= old(self).f@ + header_text() + records_text(
                self.map@.take(i + 1),
            ));
            i += 1;
        }
        assert(self.map@.take(n as int) =~= self.map@);
        assert(self.f@ =~= old(self).f@ + render(old(self).map@));
    }

    /// Writes the header line and the two blank lines behind it.
    pub fn write_header(&mut self)
        ensures
            final(self).records() == old(self).records(),
            final(self).text() == old(self).text() + header_text(),
    {
        self.f.append(HEADER);
        self.f.append("\n\n\n");
        assert(self.f@ =~= old(self).f@ + header_text());
    }

    /// Writes one record: its comment line, its definition line with the key
    /// in upper case, and a blank line.
    pub fn write_const(&mut self, m: &ConstMessage)
        ensures
            final(self).records() == old(self).records(),
            final(self).text() == old(self).text() + record_text(m@),
    {
        let name = to_ascii_upper(m.key().as_str());
        let kind = m.kind().to_string();
        self.f.append("// ");
        self.f.append(m.description().as_str());
        self.f.append("\n");
        self.f.append("pub const ");
        self.f.append(name.as_str());
        self.f.append(" :");
        self.f.append(kind.as_str());
        self.f.append(" = \"");
        self.f.append(m.value().as_str());
        self.f.append("\";");
        self.f.append("\n");
        self.f.append("\n");
        assert(self.f@ =~= old(self).f@ + record_text(m@));
    }

    /// The text written so far.
    pub fn output(&self) -> (s: &String)
        ensures
            s@ == self.text(),
    {
        &self.f
    }

    /// The records of the run.
    pub fn map(&self) -> (m: &MetadataSet)
        ensures
            m@ == self.records(),
    {
        &self.map
    }
}

/// The collision law: where several collectors give the same key, the record
/// of the later collector stands in the result. The environment comes after
/// the project, and the project after source control.
pub proof fn law_later_collector_wins(
    git: Seq<Record>,
    project: Seq<Record>,
    env: Seq<Record>,
    key: Seq<char>,
)
    ensures
        lookup(collected(git, project, env), key) == match last_with_key(env, key) {
            Some(r) => Some(r),
            None => match last_with_key(project, key) {
                Some(r) => Some(r),
                None => last_with_key(git, key),
            },
        },
{
    let none = Seq::<Record>::empty();
    lemma_merge_lookup(none, git, key);
    lemma_merge_lookup(merge_spec(none, git), project, key);
    lemma_merge_lookup(merge_spec(merge_spec(none, git), project), env, key);
}

/// What is written for two sequences of records, one after the other, is what
/// is written for the first followed by what is written for the second.
pub proof fn lemma_records_text_concat(a: Seq<Record>, b: Seq<Record>)
    ensures
        records_text(a + b) == records_text(a) + records_text(b),
    decreases b.len(),
{
    if b.len() == 0 {
        assert(a + b =~= a);
        assert(records_text(a) + records_text(b) =~= records_text(a));
    } else {
        lemma_records_text_concat(a, b.drop_last());
        assert((a + b).drop_last() =~= a + b.drop_last());
        assert((a + b).last() == b.last());
        assert(records_text(a + b) =~= records_text(a) + records_text(b));
    }
}

/// The generated text begins with the header line, which is one line. Two
/// blank lines follow it, and nothing else stands between it and the first
/// record: the comment of the first record begins right behind them, and
/// where there is no record the text ends there.
pub proof fn law_header_and_gap(rs: Seq<Record>)
    ensures
        render(rs).take(HEADER@.len() as int) == HEADER@,
        crate::text::is_one_line(HEADER@),
        render(rs).skip(HEADER@.len() as int).take(3) == seq!['\n', '\n', '\n'],
        rs.len() == 0 ==> render(rs).len() == HEADER@.len() + 3,
        rs.len() > 0 ==> render(rs).len() > HEADER@.len() + 3 && render(rs).skip(
            HEADER@.len() as int + 3,
        ).take(3) == seq!['/', '/', ' '],
{
    reveal_strlit("// Code generated by shadow-rs generator. DO NOT EDIT.");
    reveal_strlit("\n\n\n");
    reveal_strlit("// ");
    let n = HEADER@.len() as int;
    assert(render(rs).take(n) =~= HEADER@);
    assert(render(rs).skip(n).take(3) =~= seq!['\n', '\n', '\n']);
    if rs.len() > 0 {
        let first = seq![rs[0]];
        assert(first + rs.drop_first() =~= rs);
        lemma_records_text_concat(first, rs.drop_first());
        assert(first.drop_last().len() == 0);
        assert(records_text(first.drop_last()) =~= Seq::<char>::empty());
        assert(first.last() == rs[0]);
        assert(records_text(first) =~= record_text(rs[0]));
        assert(record_text(rs[0]).take(3) =~= seq!['/', '/', ' ']);
        assert(render(rs).skip(n + 3).take(3) =~= seq!['/', '/', ' ']);
    } else {
        assert(render(rs) =~= header_text());
    }
}

/// A directory resolves to the same place with and without a separator at its
/// end. (A target that names the generated file is no directory.)
pub proof fn law_trailing_separator(target: Seq<char>)
    requires
        !ends_with(target, "/"@),
        !names_output_file(target),
    ensures
        resolved_path(target + "/"@) == resolved_path(target),
{
    reveal_strlit("/");
    let with = target + "/"@;
    assert(with.skip(with.len() - 1) =~= "/"@);
}

/// The place that a target resolves to always names the generated file.
pub proof fn law_resolved_names_file(target: Seq<char>)
    ensures
        names_output_file(resolved_path(target)),
        ends_with(resolved_path(target), SHADOW_RS@),
{
    reveal_strlit("/");
    reveal_strlit("shadow.rs");
    let name = "/"@ + SHADOW_RS@;
    let path = resolved_path(target);
    if ends_with(target, "/"@) {
        assert(target.skip(target.len() - 1) == "/"@);
        assert(path.skip(path.len() - name.len()) =~= target.skip(target.len() - 1) + SHADOW_RS@);
    } else if names_output_file(target) {
    } else {
        assert(path.skip(path.len() - name.len()) =~= name);
    }
    if path == SHADOW_RS@ {
        assert(path.skip(0) =~= path);
    } else {
        assert(path.skip(path.len() - SHADOW_RS@.len()) =~= path.skip(
            path.len() - name.len(),
        ).skip(1));
        assert(name.skip(1) =~= SHADOW_RS@);
    }
}

/// A record that can be written out takes two lines, its comment and its
/// definition, and a blank line behind them. The definition names the constant
/// by an identifier.
pub proof fn law_record_lines(r: Record)
    requires
        record_wf(r),
    ensures
        is_line(comment_line(r)),
        is_line(definition_line(r)),
        record_text(r) == comment_line(r) + definition_line(r) + seq!['\n'],
        crate::text::is_identifier(ascii_upper(r.key)),
{
    reveal_strlit("// ");
    reveal_strlit("\n");
    reveal_strlit("pub const ");
    reveal_strlit(" :");
    reveal_strlit(" = \"");
    reveal_strlit("\";");
    reveal_strlit("&str");
    reveal_strlit("bool");
    lemma_upper_identifier(r.key);
    lemma_literal_safe_one_line(r.value);
    let name = ascii_upper(r.key);
    assert(is_one_line(name)) by {
        assert forall|i: int| 0 <= i < name.len() implies !crate::text::is_line_break(
            #[trigger] name[i],
        ) by {
            assert(crate::text::is_ident_char(name[i]));
        }
    }
    assert("\n"@ =~= seq!['\n']);
    let comment = "// "@ + r.description;
    lemma_one_line_concat("// "@, r.description);
    assert(comment_line(r).drop_last() =~= comment);
    let a = "pub const "@ + name;
    let b = a + " :"@;
    let c = b + r.kind.name();
    let d = c + " = \""@;
    let e = d + r.value;
    let f = e + "\";"@;
    lemma_one_line_concat("pub const "@, name);
    lemma_one_line_concat(a, " :"@);
    lemma_one_line_concat(b, r.kind.name());
    lemma_one_line_concat(c, " = \""@);
    lemma_one_line_concat(d, r.value);
    lemma_one_line_concat(e, "\";"@);
    assert(definition_line(r).drop_last() =~= f);
}

} // verus!
