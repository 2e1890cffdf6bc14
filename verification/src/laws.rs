use vstd::prelude::*;

use crate::assemble::{pack_step_ok, packs_run_ok};
use crate::content::{
    spec_annotation_line, spec_code_file_content, spec_owned_globs_section, spec_team_config_base,
    spec_team_config_content,
};
use crate::fsops::{FsOp, op_is_mkdir, ops_extend, teams_contain, writes_to};
use crate::layout::{
    spec_code_file_path, spec_join, spec_pack_path, spec_relative_pack_path, spec_services_dir,
    spec_team_config_path, spec_team_dir, spec_team_name,
};
use crate::names::all_name_chars;
use crate::ownership::PackOwnership;
use crate::pack::{
    artifact_len, code_section, code_section_ok, gate_result, is_code_file_op, pack_ops_ok,
    TeamSetupResult,
};

verus! {

/// `s` begins with `prefix`.
pub open spec fn starts_with(s: Seq<char>, prefix: Seq<char>) -> bool {
    prefix.len() <= s.len() && s.subrange(0, prefix.len() as int) == prefix
}

/// Two packages' derived teams coincide only when the packages do: deriving a
/// team name is injective.
pub proof fn lemma_team_name_injective(a: Seq<char>, b: Seq<char>)
    requires
        spec_team_name(a) == spec_team_name(b),
    ensures
        a == b,
{
    assert(spec_team_name(a).len() == a.len() + "-team"@.len());
    assert(spec_team_name(b).len() == b.len() + "-team"@.len());
    assert forall|i: int| 0 <= i < a.len() implies a[i] == b[i] by {
        assert(spec_team_name(a)[i] == a[i]);
        assert(spec_team_name(b)[i] == b[i]);
    }
    assert(a =~= b);
}

/// Law: the team-directory gate is idempotent. Against a registry that lacks
/// the team it reports `Success`; against any registry a `Success` invocation
/// leaves behind, the same request reports `AlreadyExists` and (by
/// `build_pack`'s contract) the second invocation plans no further effects.
pub proof fn lemma_team_gate_idempotent(teams0: Seq<String>, teams1: Seq<String>, team: Seq<char>)
    requires
        !teams_contain(teams0, team),
        teams1.len() == teams0.len() + 1,
        teams1.subrange(0, teams0.len() as int) == teams0,
        teams1.last()@ == team,
    ensures
        gate_result(teams0, team) is Success,
        gate_result(teams1, team) is AlreadyExists,
{
    assert(teams1[teams1.len() - 1]@ == team);
}

/// Law: for a `TeamConfig` package the team descriptor carries the owned-glob
/// section, whose glob is the package path relative to the application root
/// with a recursive wildcard; resolving that relative path against the
/// application root yields exactly the package's own directory. For every
/// other scheme the descriptor is the bare base: no owned-glob section.
pub proof fn lemma_team_config_glob_resolves(
    app_dir: Seq<char>,
    name: Seq<char>,
    scheme: PackOwnership,
)
    ensures
        scheme is TeamConfig ==> spec_team_config_content(
            spec_team_name(name),
            scheme,
            spec_relative_pack_path(name),
        ) == spec_team_config_base(spec_team_name(name)) + spec_owned_globs_section(
            spec_relative_pack_path(name),
        ),
        !(scheme is TeamConfig) ==> spec_team_config_content(
            spec_team_name(name),
            scheme,
            spec_relative_pack_path(name),
        ) == spec_team_config_base(spec_team_name(name)),
        spec_join(app_dir, spec_relative_pack_path(name)) == spec_pack_path(app_dir, name),
{
    assert(spec_join(app_dir, spec_relative_pack_path(name)) =~= spec_pack_path(app_dir, name));
    if !(scheme is TeamConfig) {
        assert(spec_team_config_content(spec_team_name(name), scheme, spec_relative_pack_path(name))
            =~= spec_team_config_base(spec_team_name(name)));
    }
}

/// Law: a generated source file's contents begin with the ownership header
/// exactly when the scheme annotates files.
pub proof fn lemma_annotation_prefix(name: Seq<char>, team: Seq<char>, annotate: bool)
    ensures
        annotate <==> starts_with(
            spec_code_file_content(name, team, annotate),
            spec_annotation_line(team),
        ),
{
    reveal_strlit("# @team ");
    reveal_strlit("class ");
    let content = spec_code_file_content(name, team, annotate);
    let header = spec_annotation_line(team);
    assert(header.len() >= 1);
    assert(header[0] == '#');
    if annotate {
        assert(content.subrange(0, header.len() as int) =~= header);
    } else {
        assert(content[0] == 'c');
        if starts_with(content, header) {
            assert(content.subrange(0, header.len() as int)[0] == content[0]);
            assert(false);
        }
    }
}

/// Every generated source file planned into one directory begins with the
/// ownership header exactly when the scheme annotates files.
pub proof fn lemma_code_files_annotation(
    ops: Seq<FsOp>,
    dir: Seq<char>,
    team: Seq<char>,
    annotate: bool,
)
    requires
        crate::pack::code_files_ok(ops, dir, team, annotate),
    ensures
        forall|t: int|
            0 <= t < ops.len() ==> (#[trigger] ops[t] matches FsOp::WriteFile {
                path: p,
                content: c,
            } ==> (starts_with(c@, spec_annotation_line(team)) <==> annotate)),
{
    assert forall|t: int| 0 <= t < ops.len() implies (#[trigger] ops[t] matches FsOp::WriteFile {
        path: p,
        content: c,
    } ==> (starts_with(c@, spec_annotation_line(team)) <==> annotate)) by {
        if ops[t] matches FsOp::WriteFile { .. } {
            assert(is_code_file_op(ops[t], dir, team, annotate));
            let n = choose|n: Seq<char>|
                all_name_chars(n) && crate::fsops::op_is_write(
                    ops[t],
                    spec_code_file_path(dir, n),
                    spec_code_file_content(n, team, annotate),
                );
            lemma_annotation_prefix(n, team, annotate);
        }
    }
}

/// Law: under `FileAnnotation` every generated source file a package build
/// plans begins with the ownership header naming the derived team; under the
/// other three schemes no generated source file does.
pub proof fn lemma_pack_annotation(
    ops: Seq<FsOp>,
    app_dir: Seq<char>,
    name: Seq<char>,
    scheme: PackOwnership,
)
    requires
        pack_ops_ok(ops, app_dir, name, scheme),
    ensures
        forall|i: int|
            3 + artifact_len(scheme) <= i < ops.len() ==> (#[trigger] ops[i] matches FsOp::WriteFile {
                path: p,
                content: c,
            } ==> (starts_with(c@, spec_annotation_line(spec_team_name(name))) <==> scheme
                is FileAnnotation)),
{
    let team = spec_team_name(name);
    let pack = spec_pack_path(app_dir, name);
    let k = artifact_len(scheme);
    let code_ops = ops.subrange(3 + k, ops.len() as int);
    assert forall|i: int|
        3 + k <= i < ops.len() implies (#[trigger] ops[i] matches FsOp::WriteFile {
        path: p,
        content: c,
    } ==> (starts_with(c@, spec_annotation_line(team)) <==> scheme is FileAnnotation)) by {
        if ops[i] matches FsOp::WriteFile { .. } {
            let off = i - (3 + k);
            let dd = off / 31;
            let r = off % 31;
            vstd::arithmetic::div_mod::lemma_fundamental_div_mod(off, 31);
            vstd::arithmetic::div_mod::lemma_mod_division_less_than_divisor(off, 31);
            assert(0 <= r < 31);
            assert(0 <= dd < 26) by (nonlinear_arith)
                requires
                    0 <= off < 806,
                    off == 31 * dd + r,
                    0 <= r < 31,
            ;
            assert(code_section_ok(
                code_section(code_ops, dd),
                pack,
                team,
                scheme is FileAnnotation,
                dd,
            ));
            let section = code_section(code_ops, dd);
            assert(section[r] == code_ops[dd * 31 + r]);
            assert(code_ops[off] == ops[i]);
            if r == 0 {
                assert(!(ops[i] matches FsOp::WriteFile { .. }));
            } else {
                assert(section.subrange(1, 31)[r - 1] == section[r]);
                let dir = spec_services_dir(pack, crate::pack::spec_code_directory(dd));
                assert(is_code_file_op(section[r], dir, team, scheme is FileAnnotation));
                let n = choose|n: Seq<char>|
                    all_name_chars(n) && crate::fsops::op_is_write(
                        section[r],
                        spec_code_file_path(dir, n),
                        spec_code_file_content(n, team, scheme is FileAnnotation),
                    );
                lemma_annotation_prefix(n, team, scheme is FileAnnotation);
            }
        }
    }
}

/// The first character past `app_dir/` in any path below the package
/// directory: paths under `packs` start with a `p` there.
proof fn lemma_under_packs_char(app_dir: Seq<char>, name: Seq<char>, tail: Seq<char>)
    ensures
        spec_join(spec_pack_path(app_dir, name), tail).len() > app_dir.len() + 1,
        spec_join(spec_pack_path(app_dir, name), tail)[app_dir.len() as int + 1] == 'p',
{
    reveal_strlit("/");
    reveal_strlit("packs");
    let j = app_dir.len() as int + 1;
    let p1 = app_dir + "/"@;
    let p2 = p1 + "packs"@;
    assert(p1.len() == app_dir.len() + 1);
    assert(p2[j] == "packs"@[0]);
    assert("packs"@[0] == 'p');
    let pack = spec_pack_path(app_dir, name);
    assert(pack == p2 + "/"@ + name);
    assert(pack[j] == p2[j]);
    assert(spec_join(pack, tail)[j] == pack[j]);
}

/// The first character past `app_dir/` in a team-config path: paths under
/// `config/teams` start with a `c` there.
proof fn lemma_team_config_char(app_dir: Seq<char>, team: Seq<char>)
    ensures
        spec_team_config_path(app_dir, team).len() > app_dir.len() + 1,
        spec_team_config_path(app_dir, team)[app_dir.len() as int + 1] == 'c',
{
    reveal_strlit("/");
    reveal_strlit("config/teams");
    let j = app_dir.len() as int + 1;
    let p1 = app_dir + "/"@;
    let p2 = p1 + "config/teams"@;
    assert(p1.len() == app_dir.len() + 1);
    assert(p2[j] == "config/teams"@[0]);
    assert("config/teams"@[0] == 'c');
    let td = spec_team_dir(app_dir, team);
    assert(td == p2 + "/"@ + team);
    assert(td[j] == p2[j]);
    assert(spec_team_config_path(app_dir, team)[j] == td[j]);
}

/// The first character past the package directory in a generated source file
/// path: they live under `app/services`, so an `a` stands there.
proof fn lemma_code_file_char(pack: Seq<char>, letter: Seq<char>, n: Seq<char>)
    ensures
        spec_code_file_path(spec_services_dir(pack, letter), n).len() > pack.len() + 1,
        spec_code_file_path(spec_services_dir(pack, letter), n)[pack.len() as int + 1] == 'a',
{
    reveal_strlit("/");
    reveal_strlit("app/services");
    let j = pack.len() as int + 1;
    let s1 = pack + "/"@;
    let s2 = s1 + "app/services"@;
    assert(s1.len() == pack.len() + 1);
    assert(s2[j] == "app/services"@[0]);
    assert("app/services"@[0] == 'a');
    let dir = spec_services_dir(pack, letter);
    assert(dir == s2 + "/"@ + letter);
    assert(dir[j] == s2[j]);
    assert(spec_code_file_path(dir, n)[j] == dir[j]);
}

/// The character right past the package directory in one of its two possible
/// root artifacts.
proof fn lemma_pack_root_file_char(pack: Seq<char>, tail: Seq<char>)
    requires
        tail.len() >= 1,
    ensures
        spec_join(pack, tail).len() > pack.len() + 1,
        spec_join(pack, tail)[pack.len() as int] == '/',
        spec_join(pack, tail)[pack.len() as int + 1] == tail[0],
{
    reveal_strlit("/");
    let p1 = pack + "/"@;
    assert(p1.len() == pack.len() + 1);
    assert(p1[pack.len() as int] == "/"@[0]);
    assert("/"@[0] == '/');
    assert(spec_join(pack, tail)[pack.len() as int] == p1[pack.len() as int]);
    assert(spec_join(pack, tail)[pack.len() as int + 1] == tail[0]);
}

/// Law: when the name source never repeats and no requested team is already
/// provisioned, a run over `names` registers exactly one new team per name, in
/// order, and plans a team-directory creation and a package-directory
/// creation for every requested package.
pub proof fn lemma_fresh_names_build_all(
    teams0: Seq<String>,
    ops0: Seq<FsOp>,
    teams1: Seq<String>,
    ops1: Seq<FsOp>,
    app_dir: Seq<char>,
    names: Seq<Seq<char>>,
    schemes: Seq<PackOwnership>,
)
    requires
        packs_run_ok(teams0, ops0, teams1, ops1, app_dir, names, schemes),
        forall|i: int, j: int| 0 <= i < j < names.len() ==> names[i] != names[j],
        forall|i: int|
            0 <= i < names.len() ==> !teams_contain(teams0, spec_team_name(#[trigger] names[i])),
    ensures
        teams1.len() == teams0.len() + names.len(),
        teams1.subrange(0, teams0.len() as int) == teams0,
        forall|i: int|
            0 <= i < names.len() ==> teams1[teams0.len() + i]@ == spec_team_name(
                #[trigger] names[i],
            ),
        ops_extend(ops0, ops1),
        forall|i: int|
            0 <= i < names.len() ==> exists|p: int|
                ops0.len() <= p < ops1.len() && op_is_mkdir(
                    ops1[p],
                    spec_team_dir(app_dir, spec_team_name(#[trigger] names[i])),
                ),
        forall|i: int|
            0 <= i < names.len() ==> exists|p: int|
                ops0.len() <= p < ops1.len() && op_is_mkdir(
                    ops1[p],
                    spec_pack_path(app_dir, #[trigger] names[i]),
                ),
    decreases names.len(),
{
    if names.len() == 0 {
        assert(teams1.subrange(0, teams0.len() as int) =~= teams0);
        assert(ops1.subrange(0, ops0.len() as int) =~= ops0);
    } else {
        let name0 = names[0];
        let team0 = spec_team_name(name0);
        let (teams_m, ops_m): (Seq<String>, Seq<FsOp>) = choose|
            teams_m: Seq<String>,
            ops_m: Seq<FsOp>,
        |
            {
                &&& #[trigger] pack_step_ok(
                    teams0,
                    ops0,
                    teams_m,
                    ops_m,
                    app_dir,
                    names[0],
                    schemes[0],
                )
                &&& packs_run_ok(
                    teams_m,
                    ops_m,
                    teams1,
                    ops1,
                    app_dir,
                    names.drop_first(),
                    schemes.drop_first(),
                )
            };
        assert(!teams_contain(teams0, team0));
        // the first package is built in full
        assert(teams_m.len() == teams0.len() + 1 && teams_m.last()@ == team0);
        let appended = crate::fsops::ops_appended(ops0, ops_m);
        assert(op_is_mkdir(appended[0], spec_team_dir(app_dir, team0)));
        assert(op_is_mkdir(appended[2], spec_pack_path(app_dir, name0)));
        assert(appended[0] == ops_m[ops0.len() as int]);
        assert(appended[2] == ops_m[ops0.len() as int + 2]);
        // the remaining names stay fresh against the grown registry
        assert forall|i: int| 0 <= i < names.drop_first().len() implies !teams_contain(
            teams_m,
            spec_team_name(#[trigger] names.drop_first()[i]),
        ) by {
            assert(names.drop_first()[i] == names[i + 1]);
            if teams_contain(teams_m, spec_team_name(names[i + 1])) {
                let idx = choose|idx: int|
                    0 <= idx < teams_m.len() && teams_m[idx]@ == spec_team_name(names[i + 1]);
                if idx < teams0.len() {
                    assert(teams_m.subrange(0, teams0.len() as int)[idx] == teams_m[idx]);
                    assert(teams_contain(teams0, spec_team_name(names[i + 1])));
                    assert(false);
                } else {
                    assert(teams_m[idx] == teams_m.last());
                    lemma_team_name_injective(name0, names[i + 1]);
                    assert(false);
                }
            }
        }
        assert forall|i: int, j: int|
            0 <= i < j < names.drop_first().len() implies names.drop_first()[i]
            != names.drop_first()[j] by {
            assert(names.drop_first()[i] == names[i + 1]);
            assert(names.drop_first()[j] == names[j + 1]);
        }
        lemma_fresh_names_build_all(
            teams_m,
            ops_m,
            teams1,
            ops1,
            app_dir,
            names.drop_first(),
            schemes.drop_first(),
        );
        // stitch the first step onto the rest of the run
        assert(teams1.len() == teams0.len() + names.len());
        assert(teams1.subrange(0, teams0.len() as int) =~= teams0) by {
            assert forall|i: int| 0 <= i < teams0.len() implies teams1[i] == teams0[i] by {
                assert(teams1.subrange(0, teams_m.len() as int)[i] == teams1[i]);
                assert(teams_m.subrange(0, teams0.len() as int)[i] == teams_m[i]);
            }
        }
        assert(ops_extend(ops0, ops1)) by {
            assert forall|i: int| 0 <= i < ops0.len() implies ops1[i] == ops0[i] by {
                assert(ops1.subrange(0, ops_m.len() as int)[i] == ops1[i]);
                assert(ops_m.subrange(0, ops0.len() as int)[i] == ops_m[i]);
            }
            assert(ops1.subrange(0, ops0.len() as int) =~= ops0);
        }
        assert forall|i: int| 0 <= i < names.len() implies teams1[teams0.len() + i]@
            == spec_team_name(#[trigger] names[i]) by {
            if i == 0 {
                assert(teams1.subrange(0, teams_m.len() as int)[teams0.len() as int]
                    == teams1[teams0.len() as int]);
                assert(teams_m[teams0.len() as int] == teams_m.last());
            } else {
                assert(names.drop_first()[i - 1] == names[i]);
                assert(teams1[teams_m.len() + (i - 1)]@ == spec_team_name(
                    names.drop_first()[i - 1],
                ));
            }
        }
        assert forall|i: int| 0 <= i < names.len() implies exists|p: int|
            ops0.len() <= p < ops1.len() && op_is_mkdir(
                ops1[p],
                spec_team_dir(app_dir, spec_team_name(#[trigger] names[i])),
            ) by {
            if i == 0 {
                let p = ops0.len() as int;
                assert(ops1.subrange(0, ops_m.len() as int)[p] == ops1[p]);
                assert(ops1[p] == ops_m[p]);
                assert(op_is_mkdir(ops1[p], spec_team_dir(app_dir, team0)));
            } else {
                assert(names.drop_first()[i - 1] == names[i]);
                let p = choose|p: int|
                    ops_m.len() <= p < ops1.len() && op_is_mkdir(
                        ops1[p],
                        spec_team_dir(app_dir, spec_team_name(names.drop_first()[i - 1])),
                    );
                assert(ops0.len() <= p < ops1.len() && op_is_mkdir(
                    ops1[p],
                    spec_team_dir(app_dir, spec_team_name(names[i])),
                ));
            }
        }
        assert forall|i: int| 0 <= i < names.len() implies exists|p: int|
            ops0.len() <= p < ops1.len() && op_is_mkdir(
                ops1[p],
                spec_pack_path(app_dir, #[trigger] names[i]),
            ) by {
            if i == 0 {
                let p = ops0.len() as int + 2;
                assert(ops1.subrange(0, ops_m.len() as int)[p] == ops1[p]);
                assert(ops1[p] == ops_m[p]);
                assert(op_is_mkdir(ops1[p], spec_pack_path(app_dir, name0)));
            } else {
                assert(names.drop_first()[i - 1] == names[i]);
                let p = choose|p: int|
                    ops_m.len() <= p < ops1.len() && op_is_mkdir(
                        ops1[p],
                        spec_pack_path(app_dir, names.drop_first()[i - 1]),
                    );
                assert(ops0.len() <= p < ops1.len() && op_is_mkdir(
                    ops1[p],
                    spec_pack_path(app_dir, names[i]),
                ));
            }
        }
    }
}

/// Which of the two package-root artifact paths `op` writes, if any, given
/// that `op` is one of the effects a package build plans.
///
/// Law: exactly one package-local ownership artifact exists under the
/// `Directory` and `PackConfig` schemes, and none under the other two; in
/// particular no package ever carries both a `.codeowner` marker and a
/// `package.yml` owner field.
pub proof fn lemma_ownership_exclusive(
    ops: Seq<FsOp>,
    app_dir: Seq<char>,
    name: Seq<char>,
    scheme: PackOwnership,
)
    requires
        pack_ops_ok(ops, app_dir, name, scheme),
    ensures
        (exists|i: int|
            0 <= i < ops.len() && writes_to(
                #[trigger] ops[i],
                spec_join(spec_pack_path(app_dir, name), ".codeowner"@),
            )) <==> scheme is Directory,
        (exists|i: int|
            0 <= i < ops.len() && writes_to(
                #[trigger] ops[i],
                spec_join(spec_pack_path(app_dir, name), "package.yml"@),
            )) <==> scheme is PackConfig,
        !((exists|i: int|
            0 <= i < ops.len() && writes_to(
                #[trigger] ops[i],
                spec_join(spec_pack_path(app_dir, name), ".codeowner"@),
            )) && (exists|i: int|
            0 <= i < ops.len() && writes_to(
                #[trigger] ops[i],
                spec_join(spec_pack_path(app_dir, name), "package.yml"@),
            ))),
{
    reveal_strlit(".codeowner");
    reveal_strlit("package.yml");
    reveal_strlit("app/services");
    let team = spec_team_name(name);
    let pack = spec_pack_path(app_dir, name);
    let k = artifact_len(scheme);
    let codeowner = spec_join(pack, ".codeowner"@);
    let packageyml = spec_join(pack, "package.yml"@);
    assert(".codeowner"@[0] == '.');
    assert("package.yml"@[0] == 'p');
    lemma_pack_root_file_char(pack, ".codeowner"@);
    lemma_pack_root_file_char(pack, "package.yml"@);
    assert(codeowner != packageyml) by {
        assert(codeowner[pack.len() as int + 1] == '.');
        assert(packageyml[pack.len() as int + 1] == 'p');
    }
    // the artifact effect appears exactly under its scheme
    if scheme is Directory {
        assert(ops.subrange(3, 3 + k)[0] == ops[3]);
        assert(writes_to(ops[3], codeowner));
    }
    if scheme is PackConfig {
        assert(ops.subrange(3, 3 + k)[0] == ops[3]);
        assert(writes_to(ops[3], packageyml));
    }
    // and no other effect touches either path
    assert forall|i: int|
        0 <= i < ops.len() && (writes_to(ops[i], codeowner) || writes_to(
            ops[i],
            packageyml,
        )) implies (writes_to(ops[i], codeowner) ==> scheme is Directory) && (writes_to(
        ops[i],
        packageyml,
    ) ==> scheme is PackConfig) && 3 <= i < 3 + k by {
        lemma_team_config_char(app_dir, team);
        lemma_under_packs_char(app_dir, name, ".codeowner"@);
        lemma_under_packs_char(app_dir, name, "package.yml"@);
        if i == 0 || i == 2 {
            // directory creations write nothing
            assert(!(ops[i] matches FsOp::WriteFile { .. }));
        } else if i == 1 {
            // the team descriptor lives under `config/teams`, not `packs`
            assert(spec_team_config_path(app_dir, team) != codeowner);
            assert(spec_team_config_path(app_dir, team) != packageyml);
        } else if i < 3 + k {
            // the artifact of this scheme
            assert(ops.subrange(3, 3 + k)[0] == ops[3]);
        } else {
            // a fan-out effect: a directory, or a source file under
            // `app/services`, whose path differs right past the package root
            let code_ops = ops.subrange(3 + k, ops.len() as int);
            let off = i - (3 + k);
            let dd = off / 31;
            let r = off % 31;
            vstd::arithmetic::div_mod::lemma_fundamental_div_mod(off, 31);
            vstd::arithmetic::div_mod::lemma_mod_division_less_than_divisor(off, 31);
            assert(0 <= r < 31);
            assert(0 <= dd < 26) by (nonlinear_arith)
                requires
                    0 <= off < 806,
                    off == 31 * dd + r,
                    0 <= r < 31,
            ;
            assert(code_section_ok(
                code_section(code_ops, dd),
                pack,
                team,
                scheme is FileAnnotation,
                dd,
            ));
            let section = code_section(code_ops, dd);
            assert(section[r] == code_ops[dd * 31 + r]);
            assert(code_ops[off] == ops[i]);
            if r == 0 {
                assert(op_is_mkdir(section[0], spec_services_dir(pack, crate::pack::spec_code_directory(dd))));
                assert(!(ops[i] matches FsOp::WriteFile { .. }));
            } else {
                assert(section.subrange(1, 31)[r - 1] == section[r]);
                assert(is_code_file_op(
                    section[r],
                    spec_services_dir(pack, crate::pack::spec_code_directory(dd)),
                    team,
                    scheme is FileAnnotation,
                ));
                let n = choose|n: Seq<char>|
                    all_name_chars(n) && crate::fsops::op_is_write(
                        section[r],
                        spec_code_file_path(
                            spec_services_dir(pack, crate::pack::spec_code_directory(dd)),
                            n,
                        ),
                        spec_code_file_content(n, team, scheme is FileAnnotation),
                    );
                lemma_code_file_char(pack, crate::pack::spec_code_directory(dd), n);
                assert(spec_code_file_path(
                    spec_services_dir(pack, crate::pack::spec_code_directory(dd)),
                    n,
                ) != codeowner);
                assert(spec_code_file_path(
                    spec_services_dir(pack, crate::pack::spec_code_directory(dd)),
                    n,
                ) != packageyml);
            }
        }
    }
}

} // verus!
