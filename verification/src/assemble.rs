use vstd::prelude::*;

use crate::Config;
use crate::content::{
    default_code_ownership_yml, default_infra_team_yml, spec_default_code_ownership_yml,
    spec_default_infra_team_yml,
};
use crate::fsops::{
    FsOp, FixtureState, op_is_mkdir, op_is_write, ops_appended, ops_extend, teams_contain,
};
use crate::layout::{
    path_join, spec_join, spec_ownership_config_path, spec_team_dir, spec_team_name, team_dir_of,
};
use crate::names::{all_name_chars, packages};
use crate::ownership::PackOwnership;
use crate::pack::{PackConfig, build_pack, pack_ops_ok};

verus! {

/// The effects of installing the bootstrap team: its directory and its fixed,
/// non-randomized descriptor.
pub open spec fn infra_ops_ok(ops: Seq<FsOp>, app_dir: Seq<char>) -> bool {
    &&& ops.len() == 2
    &&& op_is_mkdir(ops[0], spec_team_dir(app_dir, "infra"@))
    &&& op_is_write(
        ops[1],
        spec_join(spec_team_dir(app_dir, "infra"@), "infra-team.yml"@),
        spec_default_infra_team_yml(),
    )
}

/// The fixed effects every run plans before any package: the default
/// ownership config, then the bootstrap team.
pub open spec fn prelude_ops_ok(ops: Seq<FsOp>, app_dir: Seq<char>) -> bool {
    &&& ops.len() == 3
    &&& op_is_write(
        ops[0],
        spec_ownership_config_path(app_dir),
        spec_default_code_ownership_yml(),
    )
    &&& infra_ops_ok(ops.subrange(1, 3), app_dir)
}

/// Installs the fixed bootstrap team, unconditionally: its directory and its
/// descriptor are always (re)written, independent of any package.
pub fn setup_infra_team(config: &Config, st: &mut FixtureState)
    ensures
        final(st).teams@.len() == old(st).teams@.len() + 1,
        final(st).teams@.subrange(0, old(st).teams@.len() as int) == old(st).teams@,
        final(st).teams@.last()@ == "infra"@,
        ops_extend(old(st).ops@, final(st).ops@),
        infra_ops_ok(ops_appended(old(st).ops@, final(st).ops@), config.spec_app_dir()),
{
    let app_dir = config.app_dir();
    let team_dir = team_dir_of(app_dir.as_str(), "infra");
    let config_path = path_join(team_dir.as_str(), "infra-team.yml");
    st.push_mkdir(team_dir);
    st.push_write(config_path, default_infra_team_yml());
    let owned = "infra".to_owned();
    st.register_team(owned);
    proof {
        assert(st.teams@.subrange(0, old(st).teams@.len() as int) =~= old(st).teams@);
        assert(st.ops@.subrange(0, old(st).ops@.len() as int) =~= old(st).ops@);
        let appended = ops_appended(old(st).ops@, st.ops@);
        assert(appended.len() == 2);
        assert(appended[0] == st.ops@[old(st).ops@.len() as int]);
        assert(appended[1] == st.ops@[old(st).ops@.len() as int + 1]);
    }
}

/// What one package build does to the run state: if the derived team already
/// exists, nothing; otherwise it registers the team and appends exactly the
/// effects `pack_ops_ok` describes.
pub open spec fn pack_step_ok(
    teams0: Seq<String>,
    ops0: Seq<FsOp>,
    teams1: Seq<String>,
    ops1: Seq<FsOp>,
    app_dir: Seq<char>,
    name: Seq<char>,
    scheme: PackOwnership,
) -> bool {
    if teams_contain(teams0, spec_team_name(name)) {
        teams1 == teams0 && ops1 == ops0
    } else {
        &&& teams1.len() == teams0.len() + 1
        &&& teams1.subrange(0, teams0.len() as int) == teams0
        &&& teams1.last()@ == spec_team_name(name)
        &&& ops_extend(ops0, ops1)
        &&& pack_ops_ok(ops_appended(ops0, ops1), app_dir, name, scheme)
    }
}

/// A whole sequence of package builds, one step per drawn name and scheme.
pub open spec fn packs_run_ok(
    teams0: Seq<String>,
    ops0: Seq<FsOp>,
    teams1: Seq<String>,
    ops1: Seq<FsOp>,
    app_dir: Seq<char>,
    names: Seq<Seq<char>>,
    schemes: Seq<PackOwnership>,
) -> bool
    decreases names.len(),
{
    if names.len() == 0 {
        teams1 == teams0 && ops1 == ops0
    } else {
        exists|teams_m: Seq<String>, ops_m: Seq<FsOp>|
            {
                &&& #[trigger] pack_step_ok(
                    teams0,
                    ops0,
                    teams_m,
                    ops_m,
                    app_dir,
                    names[0],
                    schemes[0],
                )
                &&& packs_run_ok(
                    teams_m,
                    ops_m,
                    teams1,
                    ops1,
                    app_dir,
                    names.drop_first(),
                    schemes.drop_first(),
                )
            }
    }
}

/// A run extends by one more package build at its end.
pub proof fn lemma_packs_run_snoc(
    teams0: Seq<String>,
    ops0: Seq<FsOp>,
    teams1: Seq<String>,
    ops1: Seq<FsOp>,
    teams2: Seq<String>,
    ops2: Seq<FsOp>,
    app_dir: Seq<char>,
    names: Seq<Seq<char>>,
    schemes: Seq<PackOwnership>,
    name: Seq<char>,
    scheme: PackOwnership,
)
    requires
        packs_run_ok(teams0, ops0, teams1, ops1, app_dir, names, schemes),
        pack_step_ok(teams1, ops1, teams2, ops2, app_dir, name, scheme),
        names.len() == schemes.len(),
    ensures
        packs_run_ok(
            teams0,
            ops0,
            teams2,
            ops2,
            app_dir,
            names.push(name),
            schemes.push(scheme),
        ),
    decreases names.len(),
{
    if names.len() == 0 {
        assert(teams1 == teams0 && ops1 == ops0);
        assert(pack_step_ok(teams0, ops0, teams2, ops2, app_dir, name, scheme));
        assert(names.push(name)[0] == name);
        assert(schemes.push(scheme)[0] == scheme);
        assert(names.push(name).drop_first() =~= Seq::<Seq<char>>::empty());
        assert(schemes.push(scheme).drop_first() =~= Seq::<PackOwnership>::empty());
        assert(packs_run_ok(
            teams2,
            ops2,
            teams2,
            ops2,
            app_dir,
            names.push(name).drop_first(),
            schemes.push(scheme).drop_first(),
        ));
    } else {
        let (teams_m, ops_m): (Seq<String>, Seq<FsOp>) = choose|
            teams_m: Seq<String>,
            ops_m: Seq<FsOp>,
        |
            {
                &&& #[trigger] pack_step_ok(
                    teams0,
                    ops0,
                    teams_m,
                    ops_m,
                    app_dir,
                    names[0],
                    schemes[0],
                )
                &&& packs_run_ok(
                    teams_m,
                    ops_m,
                    teams1,
                    ops1,
                    app_dir,
                    names.drop_first(),
                    schemes.drop_first(),
                )
            };
        lemma_packs_run_snoc(
            teams_m,
            ops_m,
            teams1,
            ops1,
            teams2,
            ops2,
            app_dir,
            names.drop_first(),
            schemes.drop_first(),
            name,
            scheme,
        );
        assert(names.push(name).drop_first() =~= names.drop_first().push(name));
        assert(schemes.push(scheme).drop_first() =~= schemes.drop_first().push(scheme));
        assert(names.push(name)[0] == names[0]);
        assert(schemes.push(scheme)[0] == schemes[0]);
        assert(pack_step_ok(teams0, ops0, teams_m, ops_m, app_dir, names.push(name)[0], schemes.push(scheme)[0]));
        assert(packs_run_ok(
            teams_m,
            ops_m,
            teams2,
            ops2,
            app_dir,
            names.push(name).drop_first(),
            schemes.push(scheme).drop_first(),
        ));
    }
}

/// Orchestrates a whole run's plan: the default ownership config, the
/// bootstrap team, then one package build for each of `num_packages` freshly
/// drawn names, each with an independently drawn scheme.
pub fn build_app(config: &Config, st: &mut FixtureState)
    ensures
        ops_extend(old(st).ops@, final(st).ops@),
        exists|
            teams_mid: Seq<String>,
            ops_mid: Seq<FsOp>,
            names: Seq<Seq<char>>,
            schemes: Seq<PackOwnership>,
        |
            {
                &&& teams_mid.len() == old(st).teams@.len() + 1
                &&& teams_mid.subrange(0, old(st).teams@.len() as int) == old(st).teams@
                &&& teams_mid.last()@ == "infra"@
                &&& ops_extend(old(st).ops@, ops_mid)
                &&& prelude_ops_ok(ops_appended(old(st).ops@, ops_mid), config.spec_app_dir())
                &&& names.len() == config.num_packages
                &&& schemes.len() == config.num_packages
                &&& (forall|i: int| 0 <= i < names.len() ==> all_name_chars(#[trigger] names[i]))
                &&& packs_run_ok(
                    teams_mid,
                    ops_mid,
                    final(st).teams@,
                    final(st).ops@,
                    config.spec_app_dir(),
                    names,
                    schemes,
                )
            },
{
    let app_dir = config.app_dir();
    let yml_path = path_join(app_dir.as_str(), "config/code_ownership.yml");
    st.push_write(yml_path, default_code_ownership_yml());
    let ghost ops_a = st.ops@;
    setup_infra_team(config, st);
    let ghost teams_mid = st.teams@;
    let ghost ops_mid = st.ops@;
    proof {
        let a0 = old(st).ops@.len() as int;
        assert forall|i: int| 0 <= i < ops_a.len() implies st.ops@[i] == ops_a[i] by {
            assert(st.ops@.subrange(0, ops_a.len() as int)[i] == st.ops@[i]);
        }
        assert(ops_extend(old(st).ops@, st.ops@)) by {
            assert(st.ops@.subrange(0, a0) =~= old(st).ops@);
        }
        let appended = ops_appended(old(st).ops@, st.ops@);
        assert(appended.len() == 3);
        assert(appended[0] == st.ops@[a0]);
        assert(st.ops@[a0] == ops_a[a0] && ops_a[a0] == ops_a.last());
        assert(appended.subrange(1, 3) =~= ops_appended(ops_a, st.ops@));
        assert(prelude_ops_ok(appended, config.spec_app_dir()));
        assert(ops_extend(ops_mid, st.ops@)) by {
            assert(st.ops@.subrange(0, ops_mid.len() as int) =~= ops_mid);
        }
    }

    let names_vec = packages(&config.num_packages);
    let ghost mut gnames: Seq<Seq<char>> = Seq::empty();
    let ghost mut gschemes: Seq<PackOwnership> = Seq::empty();
    let mut idx: usize = 0;
    while idx < names_vec.len()
        invariant
            names_vec@.len() == config.num_packages,
            forall|i: int| 0 <= i < names_vec@.len() ==> all_name_chars(names_vec@[i]@),
            idx <= names_vec@.len(),
            gnames.len() == idx,
            gschemes.len() == idx,
            forall|i: int| 0 <= i < gnames.len() ==> all_name_chars(#[trigger] gnames[i]),
            ops_extend(old(st).ops@, ops_mid),
            packs_run_ok(
                teams_mid,
                ops_mid,
                st.teams@,
                st.ops@,
                config.spec_app_dir(),
                gnames,
                gschemes,
            ),
            ops_extend(ops_mid, st.ops@),
            ops_extend(old(st).ops@, st.ops@),
        decreases names_vec@.len() - idx,
    {
        let ownership = PackOwnership::random();
        let pack_config = PackConfig::new(config, names_vec[idx].as_str(), ownership);
        let ghost before_teams = st.teams@;
        let ghost before_ops = st.ops@;
        build_pack(&pack_config, st);
        proof {
            assert(pack_step_ok(
                before_teams,
                before_ops,
                st.teams@,
                st.ops@,
                config.spec_app_dir(),
                names_vec@[idx as int]@,
                ownership,
            ));
            lemma_packs_run_snoc(
                teams_mid,
                ops_mid,
                before_teams,
                before_ops,
                st.teams@,
                st.ops@,
                config.spec_app_dir(),
                gnames,
                gschemes,
                names_vec@[idx as int]@,
                ownership,
            );
            gnames = gnames.push(names_vec@[idx as int]@);
            gschemes = gschemes.push(ownership);
            assert(ops_extend(ops_mid, st.ops@)) by {
                if !teams_contain(before_teams, spec_team_name(names_vec@[idx as int]@)) {
                    assert forall|i: int| 0 <= i < ops_mid.len() implies st.ops@[i] == ops_mid[i] by {
                        assert(st.ops@.subrange(0, before_ops.len() as int)[i] == st.ops@[i]);
                        assert(before_ops.subrange(0, ops_mid.len() as int)[i] == before_ops[i]);
                    }
                    assert(st.ops@.subrange(0, ops_mid.len() as int) =~= ops_mid);
                }
            }
            assert(ops_extend(old(st).ops@, st.ops@)) by {
                assert forall|i: int| 0 <= i < old(st).ops@.len() implies st.ops@[i] == old(
                    st,
                ).ops@[i] by {
                    assert(st.ops@.subrange(0, ops_mid.len() as int)[i] == st.ops@[i]);
                    assert(ops_mid.subrange(0, old(st).ops@.len() as int)[i] == ops_mid[i]);
                }
                assert(st.ops@.subrange(0, old(st).ops@.len() as int) =~= old(st).ops@);
            }
        }
        idx = idx + 1;
    }
    proof {
        assert(packs_run_ok(
            teams_mid,
            ops_mid,
            st.teams@,
            st.ops@,
            config.spec_app_dir(),
            gnames,
            gschemes,
        ));
    }
}

} // verus!
