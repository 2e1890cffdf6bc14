use random_rails_generator::build_app;
use random_rails_generator::fsops::{FixtureState, FsOp};
use random_rails_generator::names::{packages, random_name, sanitize_name};
use random_rails_generator::ownership::{scheme_from_byte, PackOwnership};
use random_rails_generator::Config;

fn run_config(num: usize) -> Config {
    Config {
        rails_path: String::from("/usr/bin/true"),
        base_dir: String::from("/tmp/fixture"),
        app_name: String::from("my_app"),
        num_packages: num,
        codeowners_dotslash_path: String::from("http://localhost/codeowners"),
        pks_dotslash_path: String::from("http://localhost/pks"),
    }
}

#[test]
fn build_app_plans_prelude_first() {
    let config = run_config(0);
    let mut st = FixtureState::new();
    build_app(&config, &mut st);

    assert_eq!(st.ops.len(), 3);
    match &st.ops[0] {
        FsOp::WriteFile { path, content } => {
            assert_eq!(path, "/tmp/fixture/my_app/config/code_ownership.yml");
            assert!(content.contains("owned_globs:"));
            assert!(content.contains("team_file_glob:"));
        }
        other => panic!("expected the default ownership config, got {:?}", other),
    }
    match &st.ops[1] {
        FsOp::Mkdir { path } => assert_eq!(path, "/tmp/fixture/my_app/config/teams/infra"),
        other => panic!("expected the bootstrap team directory, got {:?}", other),
    }
    match &st.ops[2] {
        FsOp::WriteFile { path, content } => {
            assert_eq!(path, "/tmp/fixture/my_app/config/teams/infra/infra-team.yml");
            assert!(content.starts_with("\nname: infra\n"));
            assert!(content.contains("team: '@infra'"));
            assert!(content.contains("owned_globs:"));
        }
        other => panic!("expected the bootstrap team descriptor, got {:?}", other),
    }
    assert_eq!(st.teams.len(), 1);
    assert_eq!(st.teams[0], "infra");
}

#[test]
fn build_app_plans_each_requested_package() {
    let config = run_config(3);
    let mut st = FixtureState::new();
    build_app(&config, &mut st);

    // one bootstrap team, plus one team per non-colliding package
    assert!(st.teams.len() >= 1 && st.teams.len() <= 4);
    assert_eq!(st.teams[0], "infra");
    for team in &st.teams[1..] {
        assert!(team.ends_with("-team"), "unexpected team name {}", team);
    }
    // a package whose team collided planned nothing; every other one planned
    // its team directory
    let built = st.teams.len() - 1;
    let team_dirs = st
        .ops
        .iter()
        .filter(|op| {
            matches!(op, FsOp::Mkdir { path }
                if path.starts_with("/tmp/fixture/my_app/config/teams/") && path.ends_with("-team"))
        })
        .count();
    assert_eq!(team_dirs, built);
}

#[test]
fn build_app_effect_count_matches_teams() {
    let config = run_config(2);
    let mut st = FixtureState::new();
    build_app(&config, &mut st);
    let built = st.teams.len() - 1;
    let extra: usize = st.ops.len() - 3;
    // each built package planned 809 or 810 effects
    assert!(extra >= built * 809 && extra <= built * 810, "effects {} for {} packages", extra, built);
}

#[test]
fn bootstrap_team_rewritten_even_if_present() {
    let config = run_config(0);
    let mut st = FixtureState::new();
    st.note_existing_team("infra");
    build_app(&config, &mut st);
    // the bootstrap team is not gated: its directory and descriptor are
    // always planned again
    assert_eq!(st.ops.len(), 3);
}

#[test]
fn random_name_is_identifier_safe() {
    let mut saw_nonempty = false;
    for _ in 0..20 {
        let name = random_name();
        for c in name.chars() {
            assert!(
                c.is_alphanumeric() || c == '_',
                "unsafe character {:?} in {}",
                c,
                name
            );
            assert!(!c.is_ascii_uppercase(), "unconverted character in {}", name);
        }
        if !name.is_empty() {
            saw_nonempty = true;
        }
    }
    assert!(saw_nonempty);
}

#[test]
fn packages_draws_requested_count() {
    let names = packages(&5);
    assert_eq!(names.len(), 5);
}

#[test]
fn sanitize_name_filters_exactly() {
    assert_eq!(sanitize_name("o'brien jr."), "obrienjr");
    assert_eq!(sanitize_name("snake_case_9"), "snake_case_9");
    assert_eq!(sanitize_name("---"), "");
}

#[test]
fn scheme_from_byte_cycles_over_variants() {
    assert_eq!(scheme_from_byte(0), PackOwnership::Directory);
    assert_eq!(scheme_from_byte(1), PackOwnership::FileAnnotation);
    assert_eq!(scheme_from_byte(2), PackOwnership::TeamConfig);
    assert_eq!(scheme_from_byte(3), PackOwnership::PackConfig);
    assert_eq!(scheme_from_byte(4), PackOwnership::Directory);
    assert_eq!(scheme_from_byte(255), PackOwnership::PackConfig);
}

#[test]
fn random_scheme_is_one_of_four() {
    for _ in 0..20 {
        let scheme = PackOwnership::random();
        assert!(matches!(
            scheme,
            PackOwnership::Directory
                | PackOwnership::FileAnnotation
                | PackOwnership::TeamConfig
                | PackOwnership::PackConfig
        ));
    }
}
