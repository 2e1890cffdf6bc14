use vstd::prelude::*;
use vstd::string::{StrSliceExecFns, StringExecFns};

verus! {

/// `a/b`: the one path-building primitive the generator uses.
pub open spec fn spec_join(a: Seq<char>, b: Seq<char>) -> Seq<char> {
    a + "/"@ + b
}

pub fn path_join(a: &str, b: &str) -> (r: String)
    ensures
        r@ == spec_join(a@, b@),
{
    let mut r = a.to_owned();
    r.append("/");
    r.append(b);
    r
}

/// The team derived from a package name: `{name}-team`.
pub open spec fn spec_team_name(name: Seq<char>) -> Seq<char> {
    name + "-team"@
}

/// `app_dir/config/teams/{team}`.
pub open spec fn spec_team_dir(app_dir: Seq<char>, team: Seq<char>) -> Seq<char> {
    spec_join(spec_join(app_dir, "config/teams"@), team)
}

/// `app_dir/config/teams/{team}/{team}-team.yml`.
pub open spec fn spec_team_config_path(app_dir: Seq<char>, team: Seq<char>) -> Seq<char> {
    spec_join(spec_team_dir(app_dir, team), team + "-team.yml"@)
}

/// `app_dir/packs/{name}`.
pub open spec fn spec_pack_path(app_dir: Seq<char>, name: Seq<char>) -> Seq<char> {
    spec_join(spec_join(app_dir, "packs"@), name)
}

/// The package path relative to the application root: `packs/{name}`.
pub open spec fn spec_relative_pack_path(name: Seq<char>) -> Seq<char> {
    spec_join("packs"@, name)
}

/// `{pack}/app/services/{letter}`.
pub open spec fn spec_services_dir(pack: Seq<char>, letter: Seq<char>) -> Seq<char> {
    spec_join(spec_join(pack, "app/services"@), letter)
}

/// `{dir}/{name}.rb`.
pub open spec fn spec_code_file_path(dir: Seq<char>, name: Seq<char>) -> Seq<char> {
    spec_join(dir, name + ".rb"@)
}

/// `app_dir/config/code_ownership.yml`.
pub open spec fn spec_ownership_config_path(app_dir: Seq<char>) -> Seq<char> {
    spec_join(app_dir, "config/code_ownership.yml"@)
}

pub fn team_name_of(name: &str) -> (r: String)
    ensures
        r@ == spec_team_name(name@),
{
    let mut r = name.to_owned();
    r.append("-team");
    r
}

pub fn team_dir_of(app_dir: &str, team: &str) -> (r: String)
    ensures
        r@ == spec_team_dir(app_dir@, team@),
{
    let base = path_join(app_dir, "config/teams");
    path_join(base.as_str(), team)
}

pub fn team_config_path_of(app_dir: &str, team: &str) -> (r: String)
    ensures
        r@ == spec_team_config_path(app_dir@, team@),
{
    let dir = team_dir_of(app_dir, team);
    let mut file = team.to_owned();
    file.append("-team.yml");
    path_join(dir.as_str(), file.as_str())
}

pub fn pack_path_of(app_dir: &str, name: &str) -> (r: String)
    ensures
        r@ == spec_pack_path(app_dir@, name@),
{
    let base = path_join(app_dir, "packs");
    path_join(base.as_str(), name)
}

pub fn services_dir_of(pack: &str, letter: &str) -> (r: String)
    ensures
        r@ == spec_services_dir(pack@, letter@),
{
    let base = path_join(pack, "app/services");
    path_join(base.as_str(), letter)
}

pub fn code_file_path_of(dir: &str, name: &str) -> (r: String)
    ensures
        r@ == spec_code_file_path(dir@, name@),
{
    let mut file = name.to_owned();
    file.append(".rb");
    path_join(dir, file.as_str())
}

/// Character-for-character string equality, decided over the views.
pub fn str_eq(a: &str, b: &str) -> (r: bool)
    ensures
        r == (a@ == b@),
{
    let la = a.unicode_len();
    let lb = b.unicode_len();
    if la != lb {
        return false;
    }
    let mut i: usize = 0;
    while i < la
        invariant
            la == a@.len(),
            lb == b@.len(),
            la == lb,
            i <= la,
            forall|j: int| 0 <= j < i ==> a@[j] == b@[j],
        decreases la - i,
    {
        if a.get_char(i) != b.get_char(i) {
            return false;
        }
        i = i + 1;
    }
    proof {
        assert(a@ =~= b@);
    }
    true
}

} // verus!
