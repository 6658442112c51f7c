use crate::date::instant_text;
use crate::env::{
    env_outcome, env_records, version_fact, SystemEnv, BUILD_HOST, BUILD_TARGET, BUILD_TIME,
    RUST_VERSION,
};
use crate::git::{
    git_records, placeholder_records, Git, BRANCH, COMMIT_DATE, COMMIT_HASH, GIT_DIRTY,
    SHORT_COMMIT, TAG,
};
use crate::metadata::{distinct_keys, lemma_index_of, lemma_merge_fresh, lookup, same_key};
use crate::project::{project_records, Project, PKG_VERSION, PROJECT_NAME};
use crate::shadow::{
    collected, comment_line, definition_line, generated, header_text, lemma_records_text_concat,
    record_text, records_text, render,
};
use crate::text::{ascii_upper, upper_char};
use crate::value::Record;
use vstd::prelude::*;

verus! {

broadcast use vstd::string::group_string_axioms;

/// The keys of the three collectors, in the order in which they are collected.
pub open spec fn standard_keys() -> Seq<Seq<char>> {
    seq![
        COMMIT_HASH@,
        SHORT_COMMIT@,
        BRANCH@,
        TAG@,
        COMMIT_DATE@,
        GIT_DIRTY@,
        PROJECT_NAME@,
        PKG_VERSION@,
        BUILD_TIME@,
        BUILD_TARGET@,
        BUILD_HOST@,
        RUST_VERSION@,
    ]
}

/// Keys that name the same constant have the same length, and the same
/// character at every place once upper-cased.
pub proof fn lemma_same_key_chars(a: Seq<char>, b: Seq<char>)
    requires
        same_key(a, b),
    ensures
        a.len() == b.len(),
        forall|i: int| 0 <= i < a.len() ==> upper_char(#[trigger] a[i]) == upper_char(b[i]),
{
    assert(ascii_upper(a).len() == ascii_upper(b).len());
    assert forall|i: int| 0 <= i < a.len() implies upper_char(#[trigger] a[i]) == upper_char(
        b[i],
    ) by {
        assert(ascii_upper(a)[i] == ascii_upper(b)[i]);
    }
}

/// No two of the collectors' keys name the same constant.
pub proof fn lemma_standard_keys_distinct()
    ensures
        standard_keys().len() == 12,
        forall|i: int, j: int|
            0 <= i < j < 12 ==> !same_key(#[trigger] standard_keys()[i], #[trigger] standard_keys()[j]),
{
    reveal_strlit("COMMIT_HASH");
    reveal_strlit("SHORT_COMMIT");
    reveal_strlit("BRANCH");
    reveal_strlit("TAG");
    reveal_strlit("COMMIT_DATE");
    reveal_strlit("GIT_DIRTY");
    reveal_strlit("PROJECT_NAME");
    reveal_strlit("PKG_VERSION");
    reveal_strlit("BUILD_TIME");
    reveal_strlit("BUILD_TARGET");
    reveal_strlit("BUILD_HOST");
    reveal_strlit("RUST_VERSION");
    let ks = standard_keys();
    assert forall|i: int, j: int| 0 <= i < j < 12 implies !same_key(
        #[trigger] ks[i],
        #[trigger] ks[j],
    ) by {
        if same_key(ks[i], ks[j]) {
            lemma_same_key_chars(ks[i], ks[j]);
            assert(upper_char(ks[i][0]) == upper_char(ks[j][0]));
            if ks[i].len() >= 8 {
                assert(upper_char(ks[i][6]) == upper_char(ks[j][6]));
                assert(upper_char(ks[i][7]) == upper_char(ks[j][7]));
            }
        }
    }
}

/// The records of the three collectors carry the collectors' keys, in their
/// order, and so no key twice.
pub proof fn lemma_standard_records(g: Git, p: Project, env: Seq<Record>)
    requires
        env.len() == 4,
        env[0].key == BUILD_TIME@,
        env[1].key == BUILD_TARGET@,
        env[2].key == BUILD_HOST@,
        env[3].key == RUST_VERSION@,
    ensures
        (git_records(g) + project_records(p) + env).len() == 12,
        forall|i: int|
            0 <= i < 12 ==> (#[trigger] (git_records(g) + project_records(p) + env)[i]).key
                == standard_keys()[i],
        distinct_keys(git_records(g) + project_records(p) + env),
        git_records(g).len() == 6,
        project_records(p).len() == 2,
{
    let all = git_records(g) + project_records(p) + env;
    lemma_standard_keys_distinct();
    assert forall|i: int| 0 <= i < 12 implies (#[trigger] all[i]).key == standard_keys()[i] by {}
    assert forall|i: int, j: int| 0 <= i < j < all.len() implies !same_key(
        #[trigger] all[i].key,
        #[trigger] all[j].key,
    ) by {
        assert(!same_key(standard_keys()[i], standard_keys()[j]));
    }
}

/// The records of the environment where collecting them succeeds.
pub open spec fn shown_env(e: SystemEnv) -> Seq<Record> {
    env_records(
        instant_text(e.build_time),
        e.target->Some_0@,
        e.host->Some_0@,
        version_fact(e.rust_version)->Ok_0,
    )
}

/// A run that succeeds gives twelve records: the six of source control, the
/// two of the project and the four of the environment, in this order and
/// each as its collector made it.
pub proof fn law_standard_order(g: Git, p: Project, e: SystemEnv)
    requires
        env_outcome(e) is Ok,
    ensures
        env_outcome(e) == Ok::<Seq<Record>, Seq<char>>(shown_env(e)),
        generated(g, p, e) == Ok::<Seq<Record>, Seq<char>>(
            git_records(g) + project_records(p) + shown_env(e),
        ),
        distinct_keys(generated(g, p, e)->Ok_0),
        generated(g, p, e)->Ok_0.len() == 12,
{
    let a = git_records(g);
    let b = project_records(p);
    let c = shown_env(e);
    let none = Seq::<Record>::empty();
    lemma_standard_records(g, p, c);
    let all = a + b + c;
    assert(none + a =~= a);
    assert forall|i: int, j: int| 0 <= i < j < a.len() implies !same_key(
        #[trigger] a[i].key,
        #[trigger] a[j].key,
    ) by {
        assert(!same_key(all[i].key, all[j].key));
    }
    lemma_merge_fresh(none, a);
    assert forall|i: int, j: int| 0 <= i < j < (a + b).len() implies !same_key(
        #[trigger] (a + b)[i].key,
        #[trigger] (a + b)[j].key,
    ) by {
        assert(!same_key(all[i].key, all[j].key));
    }
    lemma_merge_fresh(a, b);
    lemma_merge_fresh(a + b, c);
}

/// The keys of a run that succeeds are the same twelve, in the same order,
/// whatever the repository, the project and the environment hold.
pub proof fn law_fixed_keys(g: Git, p: Project, e: SystemEnv)
    requires
        env_outcome(e) is Ok,
    ensures
        generated(g, p, e) is Ok,
        generated(g, p, e)->Ok_0.len() == standard_keys().len(),
        forall|i: int|
            0 <= i < 12 ==> (#[trigger] generated(g, p, e)->Ok_0[i]).key == standard_keys()[i],
        git_records(g).len() == 6,
        forall|i: int| 0 <= i < 6 ==> (#[trigger] git_records(g)[i]).key == standard_keys()[i],
{
    law_standard_order(g, p, e);
    lemma_standard_records(g, p, shown_env(e));
    let all = git_records(g) + project_records(p) + shown_env(e);
    assert forall|i: int| 0 <= i < 6 implies (#[trigger] git_records(g)[i]).key
        == standard_keys()[i] by {
        assert(all[i] == git_records(g)[i]);
    }
}

/// A run for which no repository could be read succeeds exactly where the
/// environment can be collected, and then every key of source control gives
/// its placeholder record.
pub proof fn law_run_without_repository(p: Project, e: SystemEnv)
    ensures
        generated(Git::Unavailable, p, e) is Ok <==> env_outcome(e) is Ok,
        generated(Git::Unavailable, p, e) matches Ok(records) ==> forall|i: int|
            0 <= i < 6 ==> records[i] == placeholder_records()[i] && lookup(
                records,
                #[trigger] placeholder_records()[i].key,
            ) == Some(placeholder_records()[i]),
{
    if env_outcome(e) is Ok {
        law_standard_order(Git::Unavailable, p, e);
        let records = generated(Git::Unavailable, p, e)->Ok_0;
        assert forall|i: int| 0 <= i < 6 implies records[i] == placeholder_records()[i] && lookup(
            records,
            #[trigger] placeholder_records()[i].key,
        ) == Some(placeholder_records()[i]) by {
            lemma_index_of(records, placeholder_records()[i].key, i);
        }
    }
}

/// Two runs whose inputs differ in nothing but the time of the build end the
/// same way. Where they succeed, their records are the same but for the value
/// of the build-time record, and their texts are the same but for the
/// definition line of that record.
pub proof fn law_only_build_time_differs(g: Git, p: Project, a: SystemEnv, b: SystemEnv)
    requires
        a.target == b.target,
        a.host == b.host,
        a.rust_version == b.rust_version,
    ensures
        generated(g, p, a) is Err ==> generated(g, p, b) == generated(g, p, a),
        generated(g, p, a) matches Ok(first) ==> generated(g, p, b) matches Ok(second) && {
            &&& first.len() == 12
            &&& second.len() == 12
            &&& forall|i: int| 0 <= i < 12 && i != 8 ==> first[i] == second[i]
            &&& first[8].key == BUILD_TIME@
            &&& second[8].key == BUILD_TIME@
            &&& comment_line(first[8]) == comment_line(second[8])
            &&& render(first) == header_text() + records_text(first.take(8)) + comment_line(
                first[8],
            ) + definition_line(first[8]) + "\n"@ + records_text(first.skip(9))
            &&& render(second) == header_text() + records_text(first.take(8)) + comment_line(
                first[8],
            ) + definition_line(second[8]) + "\n"@ + records_text(first.skip(9))
        },
{
    if env_outcome(a) is Ok {
        law_standard_order(g, p, a);
        law_standard_order(g, p, b);
        let first = generated(g, p, a)->Ok_0;
        let second = generated(g, p, b)->Ok_0;
        assert(second.take(8) =~= first.take(8));
        assert(second.skip(9) =~= first.skip(9));
        lemma_split_at(first, 8);
        lemma_split_at(second, 8);
    }
}

/// The text of a sequence of records, cut at one of them.
pub proof fn lemma_split_at(rs: Seq<Record>, i: int)
    requires
        0 <= i < rs.len(),
    ensures
        render(rs) == header_text() + records_text(rs.take(i)) + comment_line(rs[i])
            + definition_line(rs[i]) + "\n"@ + records_text(rs.skip(i + 1)),
{
    let one = seq![rs[i]];
    assert(rs =~= rs.take(i) + one + rs.skip(i + 1));
    lemma_records_text_concat(rs.take(i) + one, rs.skip(i + 1));
    lemma_records_text_concat(rs.take(i), one);
    assert(one.drop_last().len() == 0);
    assert(records_text(one.drop_last()) =~= Seq::<char>::empty());
    assert(one.last() == rs[i]);
    assert(records_text(one) =~= record_text(rs[i]));
    assert(render(rs) =~= header_text() + records_text(rs.take(i)) + comment_line(rs[i])
        + definition_line(rs[i]) + "\n"@ + records_text(rs.skip(i + 1)));
}

} // verus!
