//! Decisions and bookkeeping for git synchronisation.
//!
//! The calls into libgit2 — opening, committing, pushing, pulling — are
//! I/O and live with the host; this module decides when they are made,
//! what signature and message they carry, and sums up a repository
//! status.
use vstd::prelude::*;

use crate::config::Config;

verus! {

/// Manages git synchronisation of the notes directory.
pub struct GitManager {
    pub repo_path: String,
    pub config: Config,
}

/// The working-tree and index state of one file, as the repository
/// reports it.
#[derive(Debug, Clone, Copy, PartialEq, Eq)]
pub struct StatusFlags {
    pub wt_modified: bool,
    pub wt_deleted: bool,
    pub wt_new: bool,
    pub index_modified: bool,
    pub index_new: bool,
    pub index_deleted: bool,
}

/// A file counts as modified when its working-tree copy changed or
/// disappeared.
pub open spec fn spec_is_modified(f: StatusFlags) -> bool {
    f.wt_modified || f.wt_deleted
}

/// A file counts as untracked when it is new in the working tree.
pub open spec fn spec_is_untracked(f: StatusFlags) -> bool {
    f.wt_new
}

/// A file counts as staged when the index holds a change for it.
pub open spec fn spec_is_staged(f: StatusFlags) -> bool {
    f.index_modified || f.index_new || f.index_deleted
}

/// How many entries count as modified.
pub open spec fn spec_count_modified(s: Seq<StatusFlags>) -> int
    decreases s.len(),
{
    if s.len() == 0 {
        0
    } else {
        spec_count_modified(s.drop_last()) + (if spec_is_modified(s.last()) {
            1int
        } else {
            0int
        })
    }
}

/// How many entries count as untracked.
pub open spec fn spec_count_untracked(s: Seq<StatusFlags>) -> int
    decreases s.len(),
{
    if s.len() == 0 {
        0
    } else {
        spec_count_untracked(s.drop_last()) + (if spec_is_untracked(s.last()) {
            1int
        } else {
            0int
        })
    }
}

/// How many entries count as staged.
pub open spec fn spec_count_staged(s: Seq<StatusFlags>) -> int
    decreases s.len(),
{
    if s.len() == 0 {
        0
    } else {
        spec_count_staged(s.drop_last()) + (if spec_is_staged(s.last()) {
            1int
        } else {
            0int
        })
    }
}

proof fn lemma_count_bounds(s: Seq<StatusFlags>)
    ensures
        0 <= spec_count_modified(s) <= s.len(),
        0 <= spec_count_untracked(s) <= s.len(),
        0 <= spec_count_staged(s) <= s.len(),
    decreases s.len(),
{
    if s.len() > 0 {
        lemma_count_bounds(s.drop_last());
    }
}

impl GitManager {
    pub fn new(config: Config) -> (m: GitManager)
        ensures
            m.repo_path@ == config.root_directory@,
            m.config == config,
    {
        GitManager { repo_path: config.root_directory.clone(), config }
    }

    /// Whether git integration is switched on at all.
    pub fn git_enabled(&self) -> (r: bool)
        ensures
            r == self.config.git_enabled,
    {
        self.config.git_enabled
    }

    /// Whether a remote repository is configured.
    pub fn has_remote_configured(&self) -> (r: bool)
        ensures
            r == (self.config.git_repository is Some),
    {
        self.config.git_repository.is_some()
    }

    /// Whether changes may be pushed to or pulled from a remote: git must
    /// be enabled and a remote configured.
    pub fn remote_sync_enabled(&self) -> (r: bool)
        ensures
            r == (self.config.git_enabled && self.config.git_repository is Some),
    {
        self.config.git_enabled && self.config.git_repository.is_some()
    }

    /// The author name for a commit: the configured user name, or a
    /// fixed stand-in where none is set.
    pub fn signature_name(&self) -> (r: String)
        ensures
            match self.config.git_username {
                Some(n) => r@ == n@,
                None => r@ == "RNotes User"@,
            },
    {
        match &self.config.git_username {
            Some(n) => n.clone(),
            None => String::from_str("RNotes User"),
        }
    }

    /// The author address for a commit: the configured address, or a
    /// fixed stand-in where none is set.
    pub fn signature_email(&self) -> (r: String)
        ensures
            match self.config.git_email {
                Some(e) => r@ == e@,
                None => r@ == "rnotes@localhost"@,
            },
    {
        match &self.config.git_email {
            Some(e) => e.clone(),
            None => String::from_str("rnotes@localhost"),
        }
    }

    /// The message of an automatic commit made at the given time.
    pub fn commit_message(timestamp: &str) -> (r: String)
        ensures
            r@ == "Manual commit from RNotes - "@ + timestamp@,
    {
        let mut r = String::from_str("Manual commit from RNotes - ");
        r.append(timestamp);
        r
    }

    /// Sum up per-file states into one repository status.
    pub fn status_from_entries(entries: &Vec<StatusFlags>, has_remote: bool) -> (st: GitStatus)
        ensures
            st.modified as int == spec_count_modified(entries@),
            st.untracked as int == spec_count_untracked(entries@),
            st.staged as int == spec_count_staged(entries@),
            st.has_remote == has_remote,
    {
        let mut modified: usize = 0;
        let mut untracked: usize = 0;
        let mut staged: usize = 0;
        let mut i: usize = 0;
        proof {
            assert(entries@.take(0) =~= Seq::<StatusFlags>::empty());
        }
        while i < entries.len()
            invariant
                i <= entries@.len(),
                modified as int == spec_count_modified(entries@.take(i as int)),
                untracked as int == spec_count_untracked(entries@.take(i as int)),
                staged as int == spec_count_staged(entries@.take(i as int)),
            decreases entries@.len() - i,
        {
            proof {
                lemma_count_bounds(entries@.take(i as int));
                assert(entries@.take(i as int + 1).drop_last() =~= entries@.take(i as int));
                assert(entries@.take(i as int + 1).last() == entries@[i as int]);
            }
            let f = entries[i];
            if f.wt_modified || f.wt_deleted {
                modified = modified + 1;
            }
            if f.wt_new {
                untracked = untracked + 1;
            }
            if f.index_modified || f.index_new || f.index_deleted {
                staged = staged + 1;
            }
            i = i + 1;
        }
        proof {
            assert(entries@.take(entries@.len() as int) =~= entries@);
        }
        GitStatus { modified, untracked, staged, has_remote }
    }
}

/// A summary of the repository: how many files are modified, untracked
/// and staged, and whether a remote is configured.
#[derive(Debug)]
pub struct GitStatus {
    pub modified: usize,
    pub untracked: usize,
    pub staged: usize,
    pub has_remote: bool,
}

impl GitStatus {
    /// Whether anything would go into a commit.
    pub fn has_changes(&self) -> (r: bool)
        ensures
            r == (self.modified > 0 || self.untracked > 0 || self.staged > 0),
    {
        self.modified > 0 || self.untracked > 0 || self.staged > 0
    }
}

impl Default for GitStatus {
    fn default() -> (st: GitStatus)
        ensures
            st.modified == 0 && st.untracked == 0 && st.staged == 0 && !st.has_remote,
    {
        GitStatus { modified: 0, untracked: 0, staged: 0, has_remote: false }
    }
}

} // verus!
