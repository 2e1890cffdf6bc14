use vstd::prelude::*;

use crate::Config;
use crate::content::{spec_code_file_content, spec_team_config_content, code_file_content};
use crate::fsops::{
    FsOp, FixtureState, op_is_mkdir, op_is_write, ops_extend, ops_appended,
};
use crate::layout::{
    spec_join, spec_team_name, spec_team_dir, spec_team_config_path, spec_pack_path,
    spec_relative_pack_path, spec_services_dir, spec_code_file_path, path_join, team_name_of,
    team_dir_of, team_config_path_of, pack_path_of, services_dir_of, code_file_path_of,
};
use crate::names::{all_name_chars, random_name};
use crate::ownership::PackOwnership;

verus! {

/// Everything a single package build needs: the run configuration, the
/// package's generated name, and the ownership scheme drawn for it.
pub struct PackConfig<'a> {
    pub config: &'a Config,
    pub name: &'a str,
    pub ownership: PackOwnership,
}

impl<'a> PackConfig<'a> {
    pub fn new(config: &'a Config, name: &'a str, ownership: PackOwnership) -> (r: Self)
        ensures
            r.config == config,
            r.name == name,
            r.ownership == ownership,
    {
        PackConfig { config, name, ownership }
    }

    /// The team owning this package: `{name}-team`.
    pub open spec fn spec_team_name(&self) -> Seq<char> {
        spec_team_name(self.name@)
    }

    /// This package's directory: `app_dir/packs/{name}`.
    pub open spec fn spec_pack_path(&self) -> Seq<char> {
        spec_pack_path(self.config.spec_app_dir(), self.name@)
    }

    pub fn team_name(&self) -> (r: String)
        ensures
            r@ == self.spec_team_name(),
    {
        team_name_of(self.name)
    }

    pub fn pack_path(&self) -> (r: String)
        ensures
            r@ == self.spec_pack_path(),
    {
        let app_dir = self.config.app_dir();
        pack_path_of(app_dir.as_str(), self.name)
    }

    /// The package path relative to the application root: `packs/{name}`.
    pub fn relative_pack_path(&self) -> (r: String)
        ensures
            r@ == spec_relative_pack_path(self.name@),
    {
        path_join("packs", self.name)
    }
}

/// The outcome of the team-directory gate.
#[derive(Debug, PartialEq, Eq, Structural, Clone, Copy)]
pub enum TeamSetupResult {
    /// The team directory was absent and has been created.
    Success,
    /// The team directory already existed; the package counts as provisioned.
    AlreadyExists,
}

/// The outcome the team gate reports against a given registry state.
pub open spec fn gate_result(teams: Seq<String>, team: Seq<char>) -> TeamSetupResult {
    if crate::fsops::teams_contain(teams, team) {
        TeamSetupResult::AlreadyExists
    } else {
        TeamSetupResult::Success
    }
}

/// The idempotency gate: creates the team's directory if it is absent, and
/// reports which of the two outcomes happened. On `AlreadyExists` the state is
/// left exactly as it was.
pub fn setup_team_directory(
    pack_config: &PackConfig,
    team_name: &str,
    st: &mut FixtureState,
) -> (r: TeamSetupResult)
    ensures
        r == gate_result(old(st).teams@, team_name@),
        old(st).has_team(team_name@) ==> r is AlreadyExists && *final(st) == *old(st),
        !old(st).has_team(team_name@) ==> {
            &&& r is Success
            &&& final(st).teams@.len() == old(st).teams@.len() + 1
            &&& final(st).teams@.subrange(0, old(st).teams@.len() as int) == old(st).teams@
            &&& final(st).teams@.last()@ == team_name@
            &&& final(st).ops@.len() == old(st).ops@.len() + 1
            &&& ops_extend(old(st).ops@, final(st).ops@)
            &&& op_is_mkdir(
                final(st).ops@.last(),
                spec_team_dir(pack_config.config.spec_app_dir(), team_name@),
            )
        },
{
    if st.has_team_dir(team_name) {
        return TeamSetupResult::AlreadyExists;
    }
    let app_dir = pack_config.config.app_dir();
    let team_dir = team_dir_of(app_dir.as_str(), team_name);
    st.push_mkdir(team_dir);
    let owned = team_name.to_owned();
    st.register_team(owned);
    proof {
        assert(st.teams@.subrange(0, old(st).teams@.len() as int) =~= old(st).teams@);
        assert(st.ops@.subrange(0, old(st).ops@.len() as int) =~= old(st).ops@);
    }
    TeamSetupResult::Success
}

/// The text of one team's descriptor: the base part naming the team and a
/// synthetic maintainer, and the owned-globs ownership signal exactly when the
/// package's scheme is `TeamConfig`.
pub fn generate_team_config(pack_config: &PackConfig, team_name: &str) -> (r: String)
    ensures
        r@ == spec_team_config_content(
            team_name@,
            pack_config.ownership,
            spec_relative_pack_path(pack_config.name@),
        ),
{
    let mut config = String::new();
    config.append("name: ");
    config.append(team_name);
    config.append("\ngithub:\n  team: '@");
    config.append(team_name);
    config.append("'\n  members:\n    - ");
    config.append(team_name);
    config.append(" member\n");

    if pack_config.ownership == PackOwnership::TeamConfig {
        let rel = pack_config.relative_pack_path();
        config.append("\nowned_globs:\n  - \"");
        config.append(rel.as_str());
        config.append("/**\"\n");
    }
    proof {
        assert(config@ =~= spec_team_config_content(
            team_name@,
            pack_config.ownership,
            spec_relative_pack_path(pack_config.name@),
        ));
    }
    config
}

/// Writes the team's descriptor file; the descriptor embeds the owned-globs
/// ownership signal exactly when the package's scheme is `TeamConfig`.
pub fn write_team_config(pack_config: &PackConfig, team_name: &str, st: &mut FixtureState)
    ensures
        final(st).teams@ == old(st).teams@,
        final(st).ops@.len() == old(st).ops@.len() + 1,
        ops_extend(old(st).ops@, final(st).ops@),
        op_is_write(
            final(st).ops@.last(),
            spec_team_config_path(pack_config.config.spec_app_dir(), team_name@),
            spec_team_config_content(
                team_name@,
                pack_config.ownership,
                spec_relative_pack_path(pack_config.name@),
            ),
        ),
{
    let team_config = generate_team_config(pack_config, team_name);
    let app_dir = pack_config.config.app_dir();
    let config_path = team_config_path_of(app_dir.as_str(), team_name);
    st.push_write(config_path, team_config);
    proof {
        assert(st.ops@.subrange(0, old(st).ops@.len() as int) =~= old(st).ops@);
    }
}

/// Creates the package's directory.
pub fn setup_pack_directory(pack_config: &PackConfig, st: &mut FixtureState)
    ensures
        final(st).teams@ == old(st).teams@,
        final(st).ops@.len() == old(st).ops@.len() + 1,
        ops_extend(old(st).ops@, final(st).ops@),
        op_is_mkdir(final(st).ops@.last(), pack_config.spec_pack_path()),
{
    let pack_dir = pack_config.pack_path();
    st.push_mkdir(pack_dir);
    proof {
        assert(st.ops@.subrange(0, old(st).ops@.len() as int) =~= old(st).ops@);
    }
}

/// `owner: {team}`, the body of a package-level config.
pub open spec fn spec_owner_line(team: Seq<char>) -> Seq<char> {
    "owner: "@ + team + "\n"@
}

/// `{team}`, the body of a `.codeowner` marker.
pub open spec fn spec_marker_line(team: Seq<char>) -> Seq<char> {
    team + "\n"@
}

/// How many package-local ownership artifacts a scheme writes.
pub open spec fn artifact_len(scheme: PackOwnership) -> int {
    if scheme is Directory || scheme is PackConfig {
        1
    } else {
        0
    }
}

/// The package-local ownership artifact of a scheme: a `.codeowner` marker for
/// `Directory`, a `package.yml` owner field for `PackConfig`, and nothing for
/// the two schemes whose signal lives elsewhere.
pub open spec fn artifact_ops_ok(
    ops: Seq<FsOp>,
    pack: Seq<char>,
    team: Seq<char>,
    scheme: PackOwnership,
) -> bool {
    &&& ops.len() == artifact_len(scheme)
    &&& (scheme is Directory ==> op_is_write(
        ops[0],
        spec_join(pack, ".codeowner"@),
        spec_marker_line(team),
    ))
    &&& (scheme is PackConfig ==> op_is_write(
        ops[0],
        spec_join(pack, "package.yml"@),
        spec_owner_line(team),
    ))
}

/// Writes the scheme-specific package-local ownership artifact, if the scheme
/// has one.
pub fn write_ownership_files(pack_config: &PackConfig, st: &mut FixtureState)
    ensures
        final(st).teams@ == old(st).teams@,
        ops_extend(old(st).ops@, final(st).ops@),
        artifact_ops_ok(
            ops_appended(old(st).ops@, final(st).ops@),
            pack_config.spec_pack_path(),
            pack_config.spec_team_name(),
            pack_config.ownership,
        ),
{
    if pack_config.ownership == PackOwnership::PackConfig {
        let pack_path = pack_config.pack_path();
        let path = path_join(pack_path.as_str(), "package.yml");
        let mut content = String::new();
        content.append("owner: ");
        let team = pack_config.team_name();
        content.append(team.as_str());
        content.append("\n");
        proof {
            assert(content@ =~= spec_owner_line(pack_config.spec_team_name()));
        }
        st.push_write(path, content);
        proof {
            assert(ops_appended(old(st).ops@, st.ops@)[0] == st.ops@.last());
        }
    } else if pack_config.ownership == PackOwnership::Directory {
        let pack_path = pack_config.pack_path();
        let path = path_join(pack_path.as_str(), ".codeowner");
        let mut content = pack_config.team_name();
        content.append("\n");
        proof {
            assert(content@ =~= spec_marker_line(pack_config.spec_team_name()));
        }
        st.push_write(path, content);
        proof {
            assert(ops_appended(old(st).ops@, st.ops@)[0] == st.ops@.last());
        }
    }
    proof {
        assert(st.ops@.subrange(0, old(st).ops@.len() as int) =~= old(st).ops@);
        assert(ops_appended(old(st).ops@, st.ops@).len() == artifact_len(pack_config.ownership));
    }
}

/// The fixed fan-out of single-letter sub-directories every package gets.
pub open spec fn spec_code_directory(d: int) -> Seq<char> {
    if d == 0 { "a"@ }
    else if d == 1 { "b"@ }
    else if d == 2 { "c"@ }
    else if d == 3 { "d"@ }
    else if d == 4 { "e"@ }
    else if d == 5 { "f"@ }
    else if d == 6 { "g"@ }
    else if d == 7 { "h"@ }
    else if d == 8 { "i"@ }
    else if d == 9 { "j"@ }
    else if d == 10 { "k"@ }
    else if d == 11 { "l"@ }
    else if d == 12 { "m"@ }
    else if d == 13 { "n"@ }
    else if d == 14 { "o"@ }
    else if d == 15 { "p"@ }
    else if d == 16 { "q"@ }
    else if d == 17 { "r"@ }
    else if d == 18 { "s"@ }
    else if d == 19 { "t"@ }
    else if d == 20 { "u"@ }
    else if d == 21 { "v"@ }
    else if d == 22 { "w"@ }
    else if d == 23 { "x"@ }
    else if d == 24 { "y"@ }
    else { "z"@ }
}

pub fn code_directory(d: usize) -> (r: &'static str)
    requires
        d < 26,
    ensures
        r@ == spec_code_directory(d as int),
{
    match d {
        0 => "a",
        1 => "b",
        2 => "c",
        3 => "d",
        4 => "e",
        5 => "f",
        6 => "g",
        7 => "h",
        8 => "i",
        9 => "j",
        10 => "k",
        11 => "l",
        12 => "m",
        13 => "n",
        14 => "o",
        15 => "p",
        16 => "q",
        17 => "r",
        18 => "s",
        19 => "t",
        20 => "u",
        21 => "v",
        22 => "w",
        23 => "x",
        24 => "y",
        _ => "z",
    }
}

/// How many generated source files each letter directory receives.
pub open spec fn files_per_directory() -> int {
    30
}

/// `op` writes one generated source file into `dir`: a `{name}.rb` stub for
/// some identifier-safe `name`, annotated exactly when `annotate` holds.
pub open spec fn is_code_file_op(
    op: FsOp,
    dir: Seq<char>,
    team: Seq<char>,
    annotate: bool,
) -> bool {
    exists|n: Seq<char>|
        all_name_chars(n) && op_is_write(
            op,
            spec_code_file_path(dir, n),
            spec_code_file_content(n, team, annotate),
        )
}

/// Every effect in `ops` writes one generated source file into `dir`.
pub open spec fn code_files_ok(
    ops: Seq<FsOp>,
    dir: Seq<char>,
    team: Seq<char>,
    annotate: bool,
) -> bool {
    forall|t: int| 0 <= t < ops.len() ==> is_code_file_op(#[trigger] ops[t], dir, team, annotate)
}

/// One letter-directory section of the fan-out: the directory itself, then its
/// thirty generated source files.
pub open spec fn code_section_ok(
    ops: Seq<FsOp>,
    pack: Seq<char>,
    team: Seq<char>,
    annotate: bool,
    d: int,
) -> bool {
    &&& ops.len() == 1 + files_per_directory()
    &&& op_is_mkdir(ops[0], spec_services_dir(pack, spec_code_directory(d)))
    &&& code_files_ok(
        ops.subrange(1, ops.len() as int),
        spec_services_dir(pack, spec_code_directory(d)),
        team,
        annotate,
    )
}

/// The section of the fan-out belonging to the `d`-th letter directory.
pub open spec fn code_section(ops: Seq<FsOp>, d: int) -> Seq<FsOp> {
    ops.subrange(d * 31, d * 31 + 31)
}

/// The whole fan-out: twenty-six letter sections in order.
pub open spec fn code_ops_ok(
    ops: Seq<FsOp>,
    pack: Seq<char>,
    team: Seq<char>,
    annotate: bool,
) -> bool {
    &&& ops.len() == 26 * (1 + files_per_directory())
    &&& forall|d: int|
        0 <= d < 26 ==> #[trigger] code_section_ok(code_section(ops, d), pack, team, annotate, d)
}

/// Plans one generated source file: `{name}.rb` under `dir_path`, with the
/// ownership header exactly when `annotate` holds.
pub fn write_code_file(
    dir_path: &String,
    name: &str,
    team: &str,
    annotate: bool,
    st: &mut FixtureState,
)
    ensures
        final(st).teams@ == old(st).teams@,
        final(st).ops@.len() == old(st).ops@.len() + 1,
        ops_extend(old(st).ops@, final(st).ops@),
        op_is_write(
            final(st).ops@.last(),
            spec_code_file_path(dir_path@, name@),
            spec_code_file_content(name@, team@, annotate),
        ),
{
    let file_path = code_file_path_of(dir_path.as_str(), name);
    let file_contents = code_file_content(name, team, annotate);
    st.push_write(file_path, file_contents);
    proof {
        assert(st.ops@.subrange(0, old(st).ops@.len() as int) =~= old(st).ops@);
    }
}

/// Populates the fan-out: for each of the twenty-six letters, the services
/// sub-directory and thirty freshly named source files.
pub fn generate_code_files(pack_config: &PackConfig, st: &mut FixtureState)
    ensures
        final(st).teams@ == old(st).teams@,
        ops_extend(old(st).ops@, final(st).ops@),
        code_ops_ok(
            ops_appended(old(st).ops@, final(st).ops@),
            pack_config.spec_pack_path(),
            pack_config.spec_team_name(),
            pack_config.ownership is FileAnnotation,
        ),
{
    let annotate = pack_config.ownership == PackOwnership::FileAnnotation;
    let team_name = pack_config.team_name();
    let pack_path = pack_config.pack_path();
    let ghost start = st.ops@;
    let ghost pack = pack_config.spec_pack_path();
    let ghost team = pack_config.spec_team_name();
    proof {
        assert(st.ops@.subrange(0, start.len() as int) =~= start);
    }

    let mut d: usize = 0;
    while d < 26
        invariant
            team_name@ == team,
            pack_path@ == pack,
            pack == pack_config.spec_pack_path(),
            team == pack_config.spec_team_name(),
            annotate == pack_config.ownership is FileAnnotation,
            start == old(st).ops@,
            d <= 26,
            st.teams@ == old(st).teams@,
            ops_extend(start, st.ops@),
            st.ops@.len() == start.len() + d * 31,
            forall|k: int|
                0 <= k < d ==> #[trigger] code_section_ok(
                    code_section(ops_appended(start, st.ops@), k),
                    pack,
                    team,
                    annotate,
                    k,
                ),
        decreases 26 - d,
    {
        let ghost outer_ops = st.ops@;
        let letter = code_directory(d);
        let dir_path = services_dir_of(pack_path.as_str(), letter);
        st.push_mkdir(dir_path.clone());
        proof {
            assert(st.ops@.subrange(0, start.len() as int) =~= start);
            assert(st.ops@.subrange(0, outer_ops.len() as int) =~= outer_ops);
        }

        let mut j: usize = 0;
        while j < 30
            invariant
                team_name@ == team,
                dir_path@ == spec_services_dir(pack, spec_code_directory(d as int)),
                annotate == pack_config.ownership is FileAnnotation,
                start == old(st).ops@,
                outer_ops.len() == start.len() + d * 31,
                ops_extend(start, outer_ops),
                d < 26,
                j <= 30,
                st.teams@ == old(st).teams@,
                ops_extend(outer_ops, st.ops@),
                ops_extend(start, st.ops@),
                st.ops@.len() == start.len() + d * 31 + 1 + j,
                forall|k: int|
                    0 <= k < d ==> #[trigger] code_section_ok(
                        code_section(ops_appended(start, outer_ops), k),
                        pack,
                        team,
                        annotate,
                        k,
                    ),
                op_is_mkdir(
                    ops_appended(start, st.ops@)[d * 31],
                    spec_services_dir(pack, spec_code_directory(d as int)),
                ),
                code_files_ok(
                    ops_appended(start, st.ops@).subrange(
                        d * 31 + 1,
                        d * 31 + 1 + j,
                    ),
                    spec_services_dir(pack, spec_code_directory(d as int)),
                    team,
                    annotate,
                ),
            decreases 30 - j,
        {
            let name = random_name();
            let ghost before_file = st.ops@;
            write_code_file(&dir_path, name.as_str(), team_name.as_str(), annotate, st);
            proof {
                let appended = ops_appended(start, st.ops@);
                let dir = spec_services_dir(pack, spec_code_directory(d as int));
                assert forall|i: int| 0 <= i < before_file.len() implies st.ops@[i]
                    == before_file[i] by {
                    assert(st.ops@.subrange(0, before_file.len() as int)[i] == st.ops@[i]);
                }
                assert(ops_extend(outer_ops, st.ops@)) by {
                    assert(st.ops@.subrange(0, outer_ops.len() as int)
                        =~= before_file.subrange(0, outer_ops.len() as int));
                }
                assert(ops_extend(start, st.ops@)) by {
                    assert(st.ops@.subrange(0, start.len() as int) =~= before_file.subrange(
                        0,
                        start.len() as int,
                    ));
                }
                // the mkdir for this letter directory is untouched
                assert(appended[d * 31] == st.ops@[start.len() + d * 31]);
                assert(st.ops@[start.len() + d * 31] == before_file[start.len() + d * 31]);
                assert(before_file[start.len() + d * 31] == ops_appended(start, before_file)[d
                    * 31]);
                // the new write is a code-file effect
                assert(st.ops@.last() == st.ops@[start.len() + d * 31 + 1 + j]);
                assert(is_code_file_op(st.ops@[start.len() + d * 31 + 1 + j], dir, team, annotate))
                    by {
                    assert(all_name_chars(name@) && op_is_write(
                        st.ops@[start.len() + d * 31 + 1 + j],
                        spec_code_file_path(dir, name@),
                        spec_code_file_content(name@, team, annotate),
                    ));
                }
                // the already written files are untouched
                let files_before = ops_appended(start, before_file).subrange(
                    d * 31 + 1,
                    d * 31 + 1 + j,
                );
                let files_now = appended.subrange(d * 31 + 1, d * 31 + 1 + j + 1);
                assert forall|t: int| 0 <= t < j + 1 implies is_code_file_op(
                    #[trigger] files_now[t],
                    dir,
                    team,
                    annotate,
                ) by {
                    assert(files_now[t] == st.ops@[start.len() + d * 31 + 1 + t]);
                    if t < j {
                        assert(files_before[t] == before_file[start.len() + d * 31 + 1 + t]);
                        assert(is_code_file_op(files_before[t], dir, team, annotate));
                    }
                }
            }
            j = j + 1;
        }
        d = d + 1;
        proof {
            let appended = ops_appended(start, st.ops@);
            let dd = d - 1;
            // the finished letter section satisfies its predicate
            assert(code_section_ok(code_section(appended, dd), pack, team, annotate, dd)) by {
                let section = code_section(appended, dd);
                assert(section.len() == 31);
                assert(section[0] == appended[dd * 31]);
                assert(section.subrange(1, 31) =~= appended.subrange(dd * 31 + 1, dd * 31 + 31));
            }
            // the earlier sections are untouched
            assert forall|k: int| 0 <= k < dd implies #[trigger] code_section_ok(
                code_section(appended, k),
                pack,
                team,
                annotate,
                k,
            ) by {
                crate::fsops::lemma_appended_prefix_stable(
                    start,
                    outer_ops,
                    st.ops@,
                    k * 31,
                    k * 31 + 31,
                );
                assert(code_section(appended, k) == code_section(
                    ops_appended(start, outer_ops),
                    k,
                ));
            }
        }
    }
}

/// The whole planned effect of one package build that was not skipped: the
/// team directory, the team descriptor, the package directory, the scheme's
/// package-local artifact, then the fan-out of generated source files.
pub open spec fn pack_ops_ok(
    ops: Seq<FsOp>,
    app_dir: Seq<char>,
    name: Seq<char>,
    scheme: PackOwnership,
) -> bool {
    let team = spec_team_name(name);
    let pack = spec_pack_path(app_dir, name);
    let k = artifact_len(scheme);
    &&& ops.len() == 3 + k + 26 * 31
    &&& op_is_mkdir(ops[0], spec_team_dir(app_dir, team))
    &&& op_is_write(
        ops[1],
        spec_team_config_path(app_dir, team),
        spec_team_config_content(team, scheme, spec_relative_pack_path(name)),
    )
    &&& op_is_mkdir(ops[2], pack)
    &&& artifact_ops_ok(ops.subrange(3, 3 + k), pack, team, scheme)
    &&& code_ops_ok(ops.subrange(3 + k, ops.len() as int), pack, team, scheme is FileAnnotation)
}

/// Builds one package, honouring the idempotency gate: if the derived team's
/// directory already exists, nothing at all is done; otherwise the full set of
/// effects described by `pack_ops_ok` is planned and the team is registered.
pub fn build_pack(pack_config: &PackConfig, st: &mut FixtureState)
    ensures
        old(st).has_team(spec_team_name(pack_config.name@)) ==> *final(st) == *old(st),
        !old(st).has_team(spec_team_name(pack_config.name@)) ==> {
            &&& final(st).teams@.len() == old(st).teams@.len() + 1
            &&& final(st).teams@.subrange(0, old(st).teams@.len() as int) == old(st).teams@
            &&& final(st).teams@.last()@ == spec_team_name(pack_config.name@)
            &&& ops_extend(old(st).ops@, final(st).ops@)
            &&& pack_ops_ok(
                ops_appended(old(st).ops@, final(st).ops@),
                pack_config.config.spec_app_dir(),
                pack_config.name@,
                pack_config.ownership,
            )
        },
{
    let team_name = pack_config.team_name();
    match setup_team_directory(pack_config, team_name.as_str(), st) {
        TeamSetupResult::AlreadyExists => {
            return;
        },
        TeamSetupResult::Success => {},
    }
    let ghost s1 = st.ops@;
    write_team_config(pack_config, team_name.as_str(), st);
    let ghost s2 = st.ops@;
    setup_pack_directory(pack_config, st);
    let ghost s3 = st.ops@;
    write_ownership_files(pack_config, st);
    let ghost s4 = st.ops@;
    generate_code_files(pack_config, st);
    proof {
        let a0 = old(st).ops@.len() as int;
        let fin = st.ops@;
        let k = artifact_len(pack_config.ownership);
        // each step only appended, so every earlier index is preserved
        assert forall|i: int| 0 <= i < s1.len() implies s2[i] == s1[i] by {
            assert(s2.subrange(0, s1.len() as int)[i] == s2[i]);
        }
        assert forall|i: int| 0 <= i < s2.len() implies s3[i] == s2[i] by {
            assert(s3.subrange(0, s2.len() as int)[i] == s3[i]);
        }
        assert forall|i: int| 0 <= i < s3.len() implies s4[i] == s3[i] by {
            assert(s4.subrange(0, s3.len() as int)[i] == s4[i]);
        }
        assert forall|i: int| 0 <= i < s4.len() implies fin[i] == s4[i] by {
            assert(fin.subrange(0, s4.len() as int)[i] == fin[i]);
        }
        assert(s1.len() == a0 + 1 && s2.len() == a0 + 2 && s3.len() == a0 + 3);
        assert(s4.len() == a0 + 3 + k);
        assert(fin.len() == a0 + 3 + k + 26 * 31);
        assert(ops_extend(old(st).ops@, fin)) by {
            assert(fin.subrange(0, a0) =~= old(st).ops@);
        }
        let appended = ops_appended(old(st).ops@, fin);
        assert(appended[0] == fin[a0] && fin[a0] == s1[a0] && s1[a0] == s1.last());
        assert(appended[1] == fin[a0 + 1] && fin[a0 + 1] == s2[a0 + 1] && s2[a0 + 1]
            == s2.last());
        assert(appended[2] == fin[a0 + 2] && fin[a0 + 2] == s3[a0 + 2] && s3[a0 + 2]
            == s3.last());
        assert(appended.subrange(3, 3 + k) =~= ops_appended(s3, s4));
        assert(appended.subrange(3 + k, appended.len() as int) =~= ops_appended(s4, fin));
        assert(pack_ops_ok(
            appended,
            pack_config.config.spec_app_dir(),
            pack_config.name@,
            pack_config.ownership,
        ));
        assert(st.teams@.subrange(0, old(st).teams@.len() as int) == old(st).teams@);
    }
}

} // verus!
