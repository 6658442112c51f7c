use shadow_rs::env::SystemEnv;
use shadow_rs::err::{SdResult, ShadowError};
use shadow_rs::git::{Git, RepoFacts};
use shadow_rs::metadata::MetadataSet;
use shadow_rs::project::Project;
use shadow_rs::shadow::{Shadow, HEADER, SHADOW_RS};
use shadow_rs::value::{ConstKind, ConstMessage};

const HASH: &str = "0123456789abcdef0123456789abcdef01234567";

fn facts() -> RepoFacts {
    RepoFacts {
        commit: HASH.to_string(),
        branch: Some("main".to_string()),
        tag: None,
        commit_time: 1603887296,
        statuses: vec![0x0080],
    }
}

fn project() -> Project {
    Project { name: Some("demo".to_string()), version: Some("1.2.3".to_string()) }
}

fn environment(build_time: i64) -> SystemEnv {
    SystemEnv {
        build_time,
        target: Some("x86_64-unknown-linux-gnu".to_string()),
        host: Some("aarch64-apple-darwin".to_string()),
        rust_version: Some(b"rustc 1.70.0 (90c541806 2023-05-31)\n".to_vec()),
    }
}

const FULL: &str = "// Code generated by shadow-rs generator. DO NOT EDIT.\n\
\n\
\n\
// display current commit hash\n\
pub const COMMIT_HASH :&str = \"0123456789abcdef0123456789abcdef01234567\";\n\
\n\
// display current short commit hash\n\
pub const SHORT_COMMIT :&str = \"01234567\";\n\
\n\
// display current branch\n\
pub const BRANCH :&str = \"main\";\n\
\n\
// display latest tag reachable from the current commit\n\
pub const TAG :&str = \"None\";\n\
\n\
// display current commit date\n\
pub const COMMIT_DATE :&str = \"2020-10-28T12:14:56Z\";\n\
\n\
// display whether tracked files differ from the current commit\n\
pub const GIT_DIRTY :bool = \"false\";\n\
\n\
// display the project's name\n\
pub const PROJECT_NAME :&str = \"demo\";\n\
\n\
// display the project's version\n\
pub const PKG_VERSION :&str = \"1.2.3\";\n\
\n\
// display the time of the build\n\
pub const BUILD_TIME :&str = \"1970-01-01T00:00:00Z\";\n\
\n\
// display the platform that is built for\n\
pub const BUILD_TARGET :&str = \"x86_64-unknown-linux-gnu\";\n\
\n\
// display the platform that is built on\n\
pub const BUILD_HOST :&str = \"aarch64-apple-darwin\";\n\
\n\
// display the version of the compiler\n\
pub const RUST_VERSION :&str = \"rustc 1.70.0 (90c541806 2023-05-31)\";\n\
\n";

#[test]
fn test_build() -> SdResult<()> {
    assert_eq!(Shadow::output_path("./"), "./shadow.rs");
    Shadow::new(&Git::Collected(facts()), &project(), &environment(0))?;
    Ok(())
}

#[test]
fn full_run_writes_every_record_in_order() {
    let shadow = Shadow::new(&Git::Collected(facts()), &project(), &environment(0)).unwrap();
    assert_eq!(shadow.output().as_str(), FULL);
    assert_eq!(shadow.map().len(), 12);
}

#[test]
fn run_without_repository_gives_placeholders() {
    let shadow = Shadow::new(&Git::Unavailable, &project(), &environment(0)).unwrap();
    let map = shadow.map();
    for key in ["COMMIT_HASH", "SHORT_COMMIT", "BRANCH", "TAG", "COMMIT_DATE"] {
        let record = map.lookup(key).unwrap();
        assert_eq!(record.value().as_str(), "None");
        assert_eq!(record.kind(), ConstKind::Str);
    }
    let dirty = map.lookup("GIT_DIRTY").unwrap();
    assert_eq!(dirty.value().as_str(), "false");
    assert_eq!(dirty.kind(), ConstKind::Bool);
    assert_eq!(map.len(), 12);
    assert!(shadow.output().contains("pub const COMMIT_HASH :&str = \"None\";\n"));
    assert!(shadow.output().contains("pub const GIT_DIRTY :bool = \"false\";\n"));
}

#[test]
fn failed_reading_counts_as_no_repository() {
    let failed = Git::from_result(Err(git2::Error::from_str("could not find repository")));
    assert!(matches!(failed, Git::Unavailable));
    let read = Git::from_result(Ok(facts()));
    assert!(matches!(read, Git::Collected(_)));
    let a = Shadow::new(&failed, &project(), &environment(0)).unwrap();
    let b = Shadow::new(&Git::Unavailable, &project(), &environment(0)).unwrap();
    assert_eq!(a.output(), b.output());
}

#[test]
fn two_runs_on_the_same_inputs_agree() {
    let a = Shadow::new(&Git::Collected(facts()), &project(), &environment(7)).unwrap();
    let b = Shadow::new(&Git::Collected(facts()), &project(), &environment(7)).unwrap();
    assert_eq!(a.output(), b.output());
}

#[test]
fn only_the_build_time_line_differs() {
    let a = Shadow::new(&Git::Collected(facts()), &project(), &environment(0)).unwrap();
    let b = Shadow::new(&Git::Collected(facts()), &project(), &environment(86400)).unwrap();
    let first: Vec<&str> = a.output().split('\n').collect();
    let second: Vec<&str> = b.output().split('\n').collect();
    assert_eq!(first.len(), second.len());
    let mut differing = Vec::new();
    for i in 0..first.len() {
        if first[i] != second[i] {
            differing.push(i);
        }
    }
    assert_eq!(differing.len(), 1);
    assert_eq!(first[differing[0]], "pub const BUILD_TIME :&str = \"1970-01-01T00:00:00Z\";");
    assert_eq!(second[differing[0]], "pub const BUILD_TIME :&str = \"1970-01-02T00:00:00Z\";");
}

#[test]
fn later_collector_wins_a_shared_key() {
    let git = vec![ConstMessage::text("BRANCH", "from git", "main")];
    let project = vec![
        ConstMessage::text("VERSION", "from the project", "1.0.0"),
        ConstMessage::text("NAME", "from the project", "demo"),
    ];
    let env = vec![
        ConstMessage::text("VERSION", "from the environment", "2.0.0"),
        ConstMessage::text("TARGET", "from the environment", "x"),
    ];
    let shadow = Shadow::from_records(&git, &project, &env);
    let map = shadow.map();
    assert_eq!(map.len(), 4);
    let version = map.lookup("VERSION").unwrap();
    assert_eq!(version.value().as_str(), "2.0.0");
    assert_eq!(version.description().as_str(), "from the environment");
    assert_eq!(map.get(0).key().as_str(), "BRANCH");
    assert_eq!(map.get(1).key().as_str(), "VERSION");
    assert_eq!(map.get(2).key().as_str(), "NAME");
    assert_eq!(map.get(3).key().as_str(), "TARGET");
    let expected = "// Code generated by shadow-rs generator. DO NOT EDIT.\n\n\n\
// from git\npub const BRANCH :&str = \"main\";\n\n\
// from the environment\npub const VERSION :&str = \"2.0.0\";\n\n\
// from the project\npub const NAME :&str = \"demo\";\n\n\
// from the environment\npub const TARGET :&str = \"x\";\n\n";
    assert_eq!(shadow.output().as_str(), expected);
}

#[test]
fn project_overrides_source_control() {
    let git = vec![ConstMessage::text("tag", "from git", "v1")];
    let project = vec![ConstMessage::text("TAG", "from the project", "v2")];
    let env = Vec::new();
    let shadow = Shadow::from_records(&git, &project, &env);
    assert_eq!(shadow.map().len(), 1);
    assert_eq!(shadow.map().get(0).value().as_str(), "v2");
    assert_eq!(shadow.map().get(0).key().as_str(), "TAG");
    assert_eq!(
        shadow.output().as_str(),
        format!("{}\n\n\n// from the project\npub const TAG :&str = \"v2\";\n\n", HEADER)
    );
}

#[test]
fn output_begins_with_header_and_gap() {
    let none: Vec<ConstMessage> = Vec::new();
    let empty = Shadow::from_records(&none, &none, &none);
    assert_eq!(
        empty.output().as_str(),
        "// Code generated by shadow-rs generator. DO NOT EDIT.\n\n\n"
    );
    let one = vec![ConstMessage::text("a", "first", "1")];
    let shadow = Shadow::from_records(&one, &none, &none);
    let text = shadow.output().as_str();
    assert!(text.starts_with("// Code generated by shadow-rs generator. DO NOT EDIT.\n\n\n// first\n"));
    let lines: Vec<&str> = text.split('\n').collect();
    assert_eq!(lines[0], HEADER);
    assert_eq!(lines[1], "");
    assert_eq!(lines[2], "");
    assert_eq!(lines[3], "// first");
    assert_eq!(lines[4], "pub const A :&str = \"1\";");
    assert_eq!(lines[5], "");
}

#[test]
fn trailing_separator_resolves_to_the_same_place() {
    assert_eq!(Shadow::output_path("out"), "out/shadow.rs");
    assert_eq!(Shadow::output_path("out/"), "out/shadow.rs");
    assert_eq!(Shadow::output_path("/tmp/build/out"), Shadow::output_path("/tmp/build/out/"));
    assert_eq!(Shadow::output_path("."), "./shadow.rs");
    assert_eq!(Shadow::output_path(""), "/shadow.rs");
    assert_eq!(Shadow::output_path("/"), "/shadow.rs");
}

#[test]
fn target_that_names_the_file_stays() {
    assert_eq!(Shadow::output_path("shadow.rs"), "shadow.rs");
    assert_eq!(Shadow::output_path("out/shadow.rs"), "out/shadow.rs");
    assert_eq!(Shadow::output_path("out/shadow.rs/"), "out/shadow.rs/shadow.rs");
    assert_eq!(Shadow::output_path("out/my_shadow.rs"), "out/my_shadow.rs/shadow.rs");
    assert_eq!(Shadow::output_path("hadow.rs"), "hadow.rs/shadow.rs");
    assert_eq!(SHADOW_RS, "shadow.rs");
}

#[test]
fn writing_step_by_step() {
    let none: Vec<ConstMessage> = Vec::new();
    let mut shadow = Shadow::from_records(&none, &none, &none);
    let record = ConstMessage::new("git_Dirty", "is it dirty", ConstKind::Bool, "true").unwrap();
    shadow.write_const(&record);
    shadow.write_header();
    assert_eq!(
        shadow.output().as_str(),
        format!(
            "{h}\n\n\n// is it dirty\npub const GIT_DIRTY :bool = \"true\";\n\n{h}\n\n\n",
            h = HEADER
        )
    );
    shadow.gen_const();
    assert!(shadow.output().ends_with("\";\n\n// Code generated by shadow-rs generator. DO NOT EDIT.\n\n\n// Code generated by shadow-rs generator. DO NOT EDIT.\n\n\n"));
}

#[test]
fn missing_target_ends_the_run() {
    let mut env = environment(0);
    env.target = None;
    env.host = None;
    let e = Shadow::new(&Git::Collected(facts()), &project(), &env).unwrap_err();
    assert_eq!(e.to_string(), "missing required environment variable: TARGET");
    let ShadowError::String(message) = e;
    assert_eq!(message, "missing required environment variable: TARGET");
}

#[test]
fn set_keeps_first_place_and_last_value() {
    let mut set = MetadataSet::new();
    set.insert(ConstMessage::text("a", "one", "1"));
    set.insert(ConstMessage::text("b", "two", "2"));
    set.insert(ConstMessage::text("A", "three", "3"));
    assert_eq!(set.len(), 2);
    assert_eq!(set.find("a"), Some(0));
    assert_eq!(set.find("B"), Some(1));
    assert_eq!(set.find("c"), None);
    assert!(set.lookup("c").is_none());
    assert_eq!(set.get(0).key().as_str(), "A");
    assert_eq!(set.get(0).value().as_str(), "3");
    assert_eq!(set.get(0).description().as_str(), "three");
    assert_eq!(set.get(1).value().as_str(), "2");
    set.merge(&vec![
        ConstMessage::text("c", "four", "4"),
        ConstMessage::text("b", "five", "5"),
        ConstMessage::text("C", "six", "6"),
    ]);
    assert_eq!(set.len(), 3);
    assert_eq!(set.lookup("b").unwrap().value().as_str(), "5");
    assert_eq!(set.lookup("c").unwrap().value().as_str(), "6");
    assert_eq!(set.get(2).key().as_str(), "C");
}
