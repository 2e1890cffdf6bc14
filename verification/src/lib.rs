//! Synthesizes the plan of a fake multi-package application tree, used as a
//! test fixture for code-ownership-detection tooling. Every package is
//! assigned one of four mutually exclusive ownership-declaration schemes, and
//! the planned directories, team configs and per-file annotations are proved
//! consistent with that choice. The plan is a value — an ordered list of
//! filesystem effects — which an unverified shell replays onto a real disk.

pub mod assemble;
pub mod content;
pub mod fsops;
pub mod laws;
pub mod layout;
pub mod names;
pub mod ownership;
pub mod pack;

pub use assemble::build_app;

use vstd::prelude::*;
use vstd::string::StringExecFns;

verus! {

/// Run-wide parameters for one fixture-generation run: where the tree is
/// rooted, how it is named, and how many synthetic packages to lay out.
#[derive(Debug)]
pub struct Config {
    pub rails_path: String,
    pub base_dir: String,
    pub app_name: String,
    pub num_packages: usize,
    pub codeowners_dotslash_path: String,
    pub pks_dotslash_path: String,
}

impl Config {
    /// The application root: `base_dir/app_name`.
    pub open spec fn spec_app_dir(&self) -> Seq<char> {
        self.base_dir@ + "/"@ + self.app_name@
    }

    pub fn app_dir(&self) -> (r: String)
        ensures
            r@ == self.spec_app_dir(),
    {
        let mut r = self.base_dir.clone();
        r.append("/");
        r.append(self.app_name.as_str());
        r
    }
}

} // verus!
