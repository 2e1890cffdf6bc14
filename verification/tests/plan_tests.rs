use random_rails_generator::fsops::{FixtureState, FsOp};
use random_rails_generator::ownership::PackOwnership;
use random_rails_generator::pack::{
    build_pack, generate_team_config, setup_team_directory, write_code_file, PackConfig,
    TeamSetupResult,
};
use random_rails_generator::Config;

fn test_config(num: usize) -> Config {
    Config {
        rails_path: String::from("/usr/bin/true"),
        base_dir: String::from("/tmp/fixture"),
        app_name: String::from("my_app"),
        num_packages: num,
        codeowners_dotslash_path: String::from("http://localhost/codeowners"),
        pks_dotslash_path: String::from("http://localhost/pks"),
    }
}

fn find_write<'a>(ops: &'a [FsOp], path: &str) -> Option<&'a str> {
    let mut found = None;
    for op in ops {
        if let FsOp::WriteFile { path: p, content } = op {
            if p.as_str() == path {
                found = Some(content.as_str());
            }
        }
    }
    found
}

fn has_mkdir(ops: &[FsOp], path: &str) -> bool {
    ops.iter().any(|op| matches!(op, FsOp::Mkdir { path: p } if p.as_str() == path))
}

fn write_paths(ops: &[FsOp]) -> Vec<&str> {
    ops.iter()
        .filter_map(|op| match op {
            FsOp::WriteFile { path, .. } => Some(path.as_str()),
            _ => None,
        })
        .collect()
}

#[test]
fn app_dir_joins_base_and_name() {
    let config = test_config(1);
    assert_eq!(config.app_dir(), "/tmp/fixture/my_app");
}

#[test]
fn directory_scheme_writes_codeowner_marker() {
    let config = test_config(1);
    let pc = PackConfig::new(&config, "river", PackOwnership::Directory);
    let mut st = FixtureState::new();
    build_pack(&pc, &mut st);

    let marker = find_write(&st.ops, "/tmp/fixture/my_app/packs/river/.codeowner");
    assert_eq!(marker, Some("river-team\n"));
    assert!(find_write(&st.ops, "/tmp/fixture/my_app/packs/river/package.yml").is_none());

    let team_cfg = find_write(
        &st.ops,
        "/tmp/fixture/my_app/config/teams/river-team/river-team-team.yml",
    )
    .expect("team config written");
    assert!(!team_cfg.contains("owned_globs"));
    assert!(team_cfg.starts_with("name: river-team\n"));
}

#[test]
fn package_config_scheme_writes_owner_field() {
    let config = test_config(1);
    let pc = PackConfig::new(&config, "river", PackOwnership::PackConfig);
    let mut st = FixtureState::new();
    build_pack(&pc, &mut st);

    let owner = find_write(&st.ops, "/tmp/fixture/my_app/packs/river/package.yml");
    assert_eq!(owner, Some("owner: river-team\n"));
    assert!(find_write(&st.ops, "/tmp/fixture/my_app/packs/river/.codeowner").is_none());
}

#[test]
fn team_config_scheme_embeds_owned_glob() {
    let config = test_config(1);
    let pc = PackConfig::new(&config, "river", PackOwnership::TeamConfig);
    let mut st = FixtureState::new();
    build_pack(&pc, &mut st);

    let team_cfg = find_write(
        &st.ops,
        "/tmp/fixture/my_app/config/teams/river-team/river-team-team.yml",
    )
    .expect("team config written");
    assert!(team_cfg.contains("\nowned_globs:\n  - \"packs/river/**\"\n"));
    assert!(find_write(&st.ops, "/tmp/fixture/my_app/packs/river/.codeowner").is_none());
    assert!(find_write(&st.ops, "/tmp/fixture/my_app/packs/river/package.yml").is_none());
}

#[test]
fn never_both_marker_and_owner_field() {
    for scheme in [
        PackOwnership::Directory,
        PackOwnership::FileAnnotation,
        PackOwnership::TeamConfig,
        PackOwnership::PackConfig,
    ] {
        let config = test_config(1);
        let pc = PackConfig::new(&config, "river", scheme);
        let mut st = FixtureState::new();
        build_pack(&pc, &mut st);
        let marker = find_write(&st.ops, "/tmp/fixture/my_app/packs/river/.codeowner");
        let owner = find_write(&st.ops, "/tmp/fixture/my_app/packs/river/package.yml");
        assert!(
            !(marker.is_some() && owner.is_some()),
            "both ownership artifacts present under {:?}",
            scheme
        );
        assert_eq!(marker.is_some(), scheme == PackOwnership::Directory);
        assert_eq!(owner.is_some(), scheme == PackOwnership::PackConfig);
    }
}

#[test]
fn file_annotation_scheme_annotates_every_file() {
    let config = test_config(1);
    let pc = PackConfig::new(&config, "river", PackOwnership::FileAnnotation);
    let mut st = FixtureState::new();
    build_pack(&pc, &mut st);

    let mut generated = 0;
    for op in &st.ops {
        if let FsOp::WriteFile { path, content } = op {
            if path.starts_with("/tmp/fixture/my_app/packs/river/app/services/") {
                assert!(path.ends_with(".rb"));
                assert!(
                    content.starts_with("# @team river-team\n"),
                    "unannotated file {}",
                    path
                );
                generated += 1;
            }
        }
    }
    assert_eq!(generated, 26 * 30);
}

#[test]
fn other_schemes_leave_files_unannotated() {
    for scheme in [
        PackOwnership::Directory,
        PackOwnership::TeamConfig,
        PackOwnership::PackConfig,
    ] {
        let config = test_config(1);
        let pc = PackConfig::new(&config, "river", scheme);
        let mut st = FixtureState::new();
        build_pack(&pc, &mut st);
        for op in &st.ops {
            if let FsOp::WriteFile { path, content } = op {
                if path.starts_with("/tmp/fixture/my_app/packs/river/app/services/") {
                    assert!(
                        !content.contains("# @team"),
                        "annotated file {} under {:?}",
                        path,
                        scheme
                    );
                }
            }
        }
    }
}

#[test]
fn fan_out_covers_all_letter_directories() {
    let config = test_config(1);
    let pc = PackConfig::new(&config, "river", PackOwnership::TeamConfig);
    let mut st = FixtureState::new();
    build_pack(&pc, &mut st);

    for letter in "abcdefghijklmnopqrstuvwxyz".chars() {
        let dir = format!("/tmp/fixture/my_app/packs/river/app/services/{}", letter);
        assert!(has_mkdir(&st.ops, &dir), "missing services directory {}", dir);
    }
    assert!(has_mkdir(&st.ops, "/tmp/fixture/my_app/packs/river"));
    assert!(has_mkdir(&st.ops, "/tmp/fixture/my_app/config/teams/river-team"));
}

#[test]
fn team_gate_created_then_already_exists() {
    let config = test_config(1);
    let pc = PackConfig::new(&config, "river", PackOwnership::Directory);
    let mut st = FixtureState::new();

    let first = setup_team_directory(&pc, "river-team", &mut st);
    assert_eq!(first, TeamSetupResult::Success);
    let ops_after_first = st.ops.len();
    let teams_after_first = st.teams.len();

    let second = setup_team_directory(&pc, "river-team", &mut st);
    assert_eq!(second, TeamSetupResult::AlreadyExists);
    assert_eq!(st.ops.len(), ops_after_first);
    assert_eq!(st.teams.len(), teams_after_first);
}

#[test]
fn preexisting_team_skips_whole_package() {
    let config = test_config(1);
    let pc = PackConfig::new(&config, "river", PackOwnership::Directory);
    let mut st = FixtureState::new();
    st.note_existing_team("river-team");

    build_pack(&pc, &mut st);
    assert_eq!(st.ops.len(), 0, "a pre-provisioned package must plan nothing");
    assert_eq!(st.teams.len(), 1);
}

#[test]
fn distinct_names_create_one_pair_each() {
    let config = test_config(2);
    let mut st = FixtureState::new();
    for name in ["river", "lake"] {
        let pc = PackConfig::new(&config, name, PackOwnership::Directory);
        build_pack(&pc, &mut st);
    }
    assert_eq!(st.teams.len(), 2);
    assert!(has_mkdir(&st.ops, "/tmp/fixture/my_app/config/teams/river-team"));
    assert!(has_mkdir(&st.ops, "/tmp/fixture/my_app/config/teams/lake-team"));
    assert!(has_mkdir(&st.ops, "/tmp/fixture/my_app/packs/river"));
    assert!(has_mkdir(&st.ops, "/tmp/fixture/my_app/packs/lake"));
}

#[test]
fn repeated_name_is_skipped_silently() {
    let config = test_config(2);
    let mut st = FixtureState::new();
    let pc = PackConfig::new(&config, "river", PackOwnership::Directory);
    build_pack(&pc, &mut st);
    let ops_after_first = st.ops.len();
    let pc2 = PackConfig::new(&config, "river", PackOwnership::TeamConfig);
    build_pack(&pc2, &mut st);
    assert_eq!(st.ops.len(), ops_after_first);
    assert_eq!(st.teams.len(), 1);
}

#[test]
fn generate_team_config_exact_base() {
    let config = test_config(1);
    let pc = PackConfig::new(&config, "river", PackOwnership::Directory);
    let text = generate_team_config(&pc, "river-team");
    assert_eq!(
        text,
        "name: river-team\ngithub:\n  team: '@river-team'\n  members:\n    - river-team member\n"
    );
}

#[test]
fn generate_team_config_exact_with_globs() {
    let config = test_config(1);
    let pc = PackConfig::new(&config, "river", PackOwnership::TeamConfig);
    let text = generate_team_config(&pc, "river-team");
    assert_eq!(
        text,
        "name: river-team\ngithub:\n  team: '@river-team'\n  members:\n    - river-team member\n\nowned_globs:\n  - \"packs/river/**\"\n"
    );
}

#[test]
fn pack_config_paths() {
    let config = test_config(1);
    let pc = PackConfig::new(&config, "river", PackOwnership::Directory);
    assert_eq!(pc.team_name(), "river-team");
    assert_eq!(pc.pack_path(), "/tmp/fixture/my_app/packs/river");
    assert_eq!(pc.relative_pack_path(), "packs/river");
}

#[test]
fn code_file_stub_shape() {
    let mut st = FixtureState::new();
    let dir = String::from("/tmp/fixture/my_app/packs/river/app/services/a");
    write_code_file(&dir, "heron", "river-team", false, &mut st);
    write_code_file(&dir, "heron", "river-team", true, &mut st);
    assert_eq!(st.ops.len(), 2);
    let paths = write_paths(&st.ops);
    assert_eq!(paths[0], "/tmp/fixture/my_app/packs/river/app/services/a/heron.rb");

    if let FsOp::WriteFile { content, .. } = &st.ops[0] {
        let expected = format!(
            "class heron\n{}\nend\n",
            random_rails_generator::content::file_contents()
        );
        assert_eq!(content, &expected);
    } else {
        panic!("expected a file write");
    }

    if let FsOp::WriteFile { content, .. } = &st.ops[1] {
        assert!(content.starts_with("# @team river-team\nclass heron\n"));
    } else {
        panic!("expected a file write");
    }
}
