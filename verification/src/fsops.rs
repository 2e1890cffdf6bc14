use vstd::prelude::*;

verus! {

/// One deferred filesystem effect. The generator computes the full, ordered
/// list of effects; an unverified executor replays them onto a real disk.
#[derive(Debug)]
pub enum FsOp {
    /// Create a directory (and its parents), idempotently.
    Mkdir { path: String },
    /// Write a file with the given contents, overwriting what was there.
    WriteFile { path: String, content: String },
}

/// `op` creates the directory at `path`.
pub open spec fn op_is_mkdir(op: FsOp, path: Seq<char>) -> bool {
    op matches FsOp::Mkdir { path: p } && p@ == path
}

/// `op` writes `content` to the file at `path`.
pub open spec fn op_is_write(op: FsOp, path: Seq<char>, content: Seq<char>) -> bool {
    op matches FsOp::WriteFile { path: p, content: c } && p@ == path && c@ == content
}

/// `op` writes to the file at `path`, whatever the contents.
pub open spec fn writes_to(op: FsOp, path: Seq<char>) -> bool {
    op matches FsOp::WriteFile { path: p, .. } && p@ == path
}

/// A team directory named `t` is among `teams`.
pub open spec fn teams_contain(teams: Seq<String>, t: Seq<char>) -> bool {
    exists|i: int| 0 <= i < teams.len() && teams[i]@ == t
}

/// `after` begins with `before`: a run only ever appends effects.
pub open spec fn ops_extend(before: Seq<FsOp>, after: Seq<FsOp>) -> bool {
    before.len() <= after.len() && after.subrange(0, before.len() as int) == before
}

/// The effects that a step appended after `before`.
pub open spec fn ops_appended(before: Seq<FsOp>, after: Seq<FsOp>) -> Seq<FsOp> {
    after.subrange(before.len() as int, after.len() as int)
}

/// Later appends leave an already appended stretch untouched.
pub proof fn lemma_appended_prefix_stable(
    start: Seq<FsOp>,
    mid: Seq<FsOp>,
    fin: Seq<FsOp>,
    x: int,
    y: int,
)
    requires
        ops_extend(start, mid),
        ops_extend(mid, fin),
        0 <= x <= y <= mid.len() - start.len(),
    ensures
        ops_appended(start, fin).subrange(x, y) == ops_appended(start, mid).subrange(x, y),
{
    let a = ops_appended(start, fin).subrange(x, y);
    let b = ops_appended(start, mid).subrange(x, y);
    assert forall|i: int| 0 <= i < y - x implies a[i] == b[i] by {
        assert(a[i] == fin[start.len() + x + i]);
        assert(b[i] == mid[start.len() + x + i]);
        assert(fin.subrange(0, mid.len() as int)[start.len() + x + i] == mid[start.len() + x
            + i]);
    }
    assert(a =~= b);
}

/// The state a run threads through every step: the team directories known to
/// exist (pre-existing on disk, or created earlier in this run) and the
/// ordered filesystem effects planned so far.
pub struct FixtureState {
    pub teams: Vec<String>,
    pub ops: Vec<FsOp>,
}

impl FixtureState {
    /// A team directory by this name exists.
    pub open spec fn has_team(self, team: Seq<char>) -> bool {
        teams_contain(self.teams@, team)
    }

    pub fn new() -> (r: FixtureState)
        ensures
            r.teams@.len() == 0,
            r.ops@.len() == 0,
    {
        FixtureState { teams: Vec::new(), ops: Vec::new() }
    }

    /// Record a team directory that already existed on disk before the run.
    pub fn note_existing_team(&mut self, team: &str)
        ensures
            final(self).ops@ == old(self).ops@,
            final(self).teams@.len() == old(self).teams@.len() + 1,
            final(self).teams@.subrange(0, old(self).teams@.len() as int) == old(self).teams@,
            final(self).teams@.last()@ == team@,
    {
        let owned = team.to_owned();
        self.teams.push(owned);
        proof {
            assert(final(self).teams@.subrange(0, old(self).teams@.len() as int) =~= old(
                self,
            ).teams@);
        }
    }

    /// Whether a team directory by this name is known to exist.
    pub fn has_team_dir(&self, team: &str) -> (r: bool)
        ensures
            r == self.has_team(team@),
    {
        let mut i: usize = 0;
        while i < self.teams.len()
            invariant
                i <= self.teams@.len(),
                forall|j: int| 0 <= j < i ==> self.teams@[j]@ != team@,
            decreases self.teams@.len() - i,
        {
            if crate::layout::str_eq(self.teams[i].as_str(), team) {
                proof {
                    assert(self.teams@[i as int]@ == team@);
                }
                return true;
            }
            i = i + 1;
        }
        false
    }

    pub fn register_team(&mut self, team: String)
        ensures
            final(self).ops@ == old(self).ops@,
            final(self).teams@ == old(self).teams@.push(team),
    {
        self.teams.push(team);
    }

    pub fn push_mkdir(&mut self, path: String)
        ensures
            final(self).teams@ == old(self).teams@,
            final(self).ops@ == old(self).ops@.push(FsOp::Mkdir { path }),
    {
        self.ops.push(FsOp::Mkdir { path });
    }

    pub fn push_write(&mut self, path: String, content: String)
        ensures
            final(self).teams@ == old(self).teams@,
            final(self).ops@ == old(self).ops@.push(FsOp::WriteFile { path, content }),
    {
        self.ops.push(FsOp::WriteFile { path, content });
    }
}

} // verus!
