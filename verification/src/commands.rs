//! Builders for the fixed argument lists each operation hands the
//! version-control binary; their text output is the wire contract the
//! parsers depend on.

use vstd::prelude::*;
use vstd::string::StringExecFns;
use crate::parsers::{ChangeCategory, StatusRecord, StatusRecordView};

verus! {

/// A process to spawn: program, arguments, and whether the platform should
/// suppress a console window for it.
pub struct ProcessSpec {
    pub program: String,
    pub args: Vec<String>,
    pub no_window: bool,
}

pub struct ProcessSpecView {
    pub program: Seq<char>,
    pub args: Seq<Seq<char>>,
    pub no_window: bool,
}

impl View for ProcessSpec {
    type V = ProcessSpecView;

    open spec fn view(&self) -> ProcessSpecView {
        ProcessSpecView {
            program: self.program@,
            args: self.args.deep_view(),
            no_window: self.no_window,
        }
    }
}

/// Asks a command to take the platform's window-suppressing creation flags
/// when it is spawned; which flags those are is the platform glue's part.
pub trait CommandCreationFlags {
    fn set_creation_flags(&mut self) -> &mut Self;
}

impl CommandCreationFlags for ProcessSpec {
    fn set_creation_flags(&mut self) -> &mut Self {
        self.no_window = true;
        self
    }
}

fn git_spec(args: Vec<String>) -> (r: ProcessSpec)
    ensures
        r@.program == "git"@,
        r@.args == args.deep_view(),
        r@.no_window,
{
    ProcessSpec { program: String::from_str("git"), args, no_window: true }
}

pub open spec fn reset_args() -> Seq<Seq<char>> {
    seq!["reset"@]
}

/// Unstages everything (run before a status listing).
pub fn reset_command() -> (r: ProcessSpec)
    ensures
        r@.program == "git"@,
        r@.args == reset_args(),
        r@.no_window,
{
    let mut args: Vec<String> = Vec::new();
    args.push(String::from_str("reset"));
    let r = git_spec(args);
    proof {
        assert(r@.args =~~= reset_args());
    }
    r
}

pub open spec fn status_args() -> Seq<Seq<char>> {
    seq!["status"@, "-s"@, "-uall"@]
}

/// The short status listing, untracked files shown one by one.
pub fn status_command() -> (r: ProcessSpec)
    ensures
        r@.program == "git"@,
        r@.args == status_args(),
        r@.no_window,
{
    let mut args: Vec<String> = Vec::new();
    args.push(String::from_str("status"));
    args.push(String::from_str("-s"));
    args.push(String::from_str("-uall"));
    let r = git_spec(args);
    proof {
        assert(r@.args =~~= status_args());
    }
    r
}

pub open spec fn add_intent_args(file: Seq<char>) -> Seq<Seq<char>> {
    seq!["add"@, "-N"@, file]
}

/// Tracks a new file without staging content, so its diff can be taken.
pub fn add_intent_command(file: &str) -> (r: ProcessSpec)
    ensures
        r@.program == "git"@,
        r@.args == add_intent_args(file@),
        r@.no_window,
{
    let mut args: Vec<String> = Vec::new();
    args.push(String::from_str("add"));
    args.push(String::from_str("-N"));
    args.push(String::from_str(file));
    let r = git_spec(args);
    proof {
        assert(r@.args =~~= add_intent_args(file@));
    }
    r
}

pub open spec fn diff_args(file: Seq<char>) -> Seq<Seq<char>> {
    seq!["diff"@, file]
}

/// The work-tree diff of one file.
pub fn diff_command(file: &str) -> (r: ProcessSpec)
    ensures
        r@.program == "git"@,
        r@.args == diff_args(file@),
        r@.no_window,
{
    let mut args: Vec<String> = Vec::new();
    args.push(String::from_str("diff"));
    args.push(String::from_str(file));
    let r = git_spec(args);
    proof {
        assert(r@.args =~~= diff_args(file@));
    }
    r
}

/// The filenames of the given records, in order.
pub open spec fn filenames_of(rs: Seq<StatusRecordView>) -> Seq<Seq<char>> {
    rs.map_values(|r: StatusRecordView| r.filename)
}

fn push_filenames(args: &mut Vec<String>, records: &Vec<StatusRecord>)
    ensures
        final(args).deep_view() == old(args).deep_view() + filenames_of(records.deep_view()),
{
    let ghost dv0 = args.deep_view();
    let mut i: usize = 0;
    proof {
        assert(args.deep_view() =~~= dv0 + filenames_of(records.deep_view().take(0)));
    }
    while i < records.len()
        invariant
            i <= records.len(),
            args.deep_view() == dv0 + filenames_of(records.deep_view().take(i as int)),
        decreases records.len() - i,
    {
        let ghost prev = args.deep_view();
        args.push(records[i].filename.clone());
        proof {
            let rv = records.deep_view();
            assert(records@[i as int]@ == rv[i as int]);
            assert(args.deep_view() =~~= prev.push(records@[i as int].filename@));
            assert(rv.take(i + 1).drop_last() =~= rv.take(i as int));
            assert(args.deep_view() =~~= dv0 + filenames_of(rv.take(i + 1)));
        }
        i += 1;
    }
    proof {
        assert(records.deep_view().take(records@.len() as int) =~= records.deep_view());
    }
}

pub open spec fn clean_args(adds: Seq<StatusRecordView>) -> Seq<Seq<char>> {
    seq!["clean"@, "-f"@] + filenames_of(adds)
}

/// Removes the given untracked files from the work tree.
pub fn clean_command(adds: &Vec<StatusRecord>) -> (r: ProcessSpec)
    ensures
        r@.program == "git"@,
        r@.args == clean_args(adds.deep_view()),
        r@.no_window,
{
    let mut args: Vec<String> = Vec::new();
    args.push(String::from_str("clean"));
    args.push(String::from_str("-f"));
    push_filenames(&mut args, adds);
    let r = git_spec(args);
    proof {
        assert(r@.args =~~= clean_args(adds.deep_view()));
    }
    r
}

pub open spec fn checkout_files_args(others: Seq<StatusRecordView>) -> Seq<Seq<char>> {
    seq!["checkout"@, "--"@] + filenames_of(others)
}

/// Restores the given tracked files from the index.
pub fn checkout_files_command(others: &Vec<StatusRecord>) -> (r: ProcessSpec)
    ensures
        r@.program == "git"@,
        r@.args == checkout_files_args(others.deep_view()),
        r@.no_window,
{
    let mut args: Vec<String> = Vec::new();
    args.push(String::from_str("checkout"));
    args.push(String::from_str("--"));
    push_filenames(&mut args, others);
    let r = git_spec(args);
    proof {
        assert(r@.args =~~= checkout_files_args(others.deep_view()));
    }
    r
}

/// The records whose category is `Added`, in order.
pub open spec fn spec_added_of(rs: Seq<StatusRecordView>) -> Seq<StatusRecordView>
    decreases rs.len(),
{
    if rs.len() == 0 {
        Seq::empty()
    } else {
        let rest = spec_added_of(rs.drop_last());
        if rs.last().category == ChangeCategory::Added {
            rest.push(rs.last())
        } else {
            rest
        }
    }
}

/// The records whose category is not `Added`, in order.
pub open spec fn spec_others_of(rs: Seq<StatusRecordView>) -> Seq<StatusRecordView>
    decreases rs.len(),
{
    if rs.len() == 0 {
        Seq::empty()
    } else {
        let rest = spec_others_of(rs.drop_last());
        if rs.last().category == ChangeCategory::Added {
            rest
        } else {
            rest.push(rs.last())
        }
    }
}

/// Splits a discard request: newly added files get removed from the work
/// tree, every other change gets restored from the index.
pub fn partition_discards(infos: &Vec<StatusRecord>) -> (r: (Vec<StatusRecord>, Vec<StatusRecord>))
    ensures
        r.0.deep_view() == spec_added_of(infos.deep_view()),
        r.1.deep_view() == spec_others_of(infos.deep_view()),
{
    let ghost rv = infos.deep_view();
    let mut adds: Vec<StatusRecord> = Vec::new();
    let mut others: Vec<StatusRecord> = Vec::new();
    let mut i: usize = 0;
    proof {
        assert(rv.take(0) =~= Seq::<StatusRecordView>::empty());
        assert(adds.deep_view() =~~= spec_added_of(rv.take(0)));
        assert(others.deep_view() =~~= spec_others_of(rv.take(0)));
    }
    while i < infos.len()
        invariant
            infos.deep_view() == rv,
            i <= infos.len(),
            adds.deep_view() == spec_added_of(rv.take(i as int)),
            others.deep_view() == spec_others_of(rv.take(i as int)),
        decreases infos.len() - i,
    {
        let ghost adv = adds.deep_view();
        let ghost odv = others.deep_view();
        proof {
            assert(infos@[i as int]@ == rv[i as int]);
            assert(rv.take(i + 1).drop_last() =~= rv.take(i as int));
            assert(rv.take(i + 1).last() == rv[i as int]);
        }
        let rec = StatusRecord {
            category: infos[i].category,
            filename: infos[i].filename.clone(),
        };
        proof {
            assert(rec@ == rv[i as int]);
        }
        if matches!(rec.category, ChangeCategory::Added) {
            adds.push(rec);
            proof {
                assert(adds.deep_view() =~~= adv.push(rv[i as int]));
            }
        } else {
            others.push(rec);
            proof {
                assert(others.deep_view() =~~= odv.push(rv[i as int]));
            }
        }
        proof {
            assert(adds.deep_view() =~~= spec_added_of(rv.take(i + 1)));
            assert(others.deep_view() =~~= spec_others_of(rv.take(i + 1)));
        }
        i += 1;
    }
    proof {
        assert(rv.take(infos@.len() as int) =~= rv);
    }
    (adds, others)
}

pub open spec fn commit_args(files: Seq<Seq<char>>, message: Seq<char>) -> Seq<Seq<char>> {
    let base = if message.len() > 0 {
        seq!["commit"@, "-m"@, message]
    } else {
        seq!["commit"@, "--amend"@, "--no-edit"@]
    };
    base + files
}

/// Commits the given files: with a message as a new commit, without one by
/// amending the previous commit in place.
pub fn commit_command(files: &Vec<String>, message: &str) -> (r: ProcessSpec)
    ensures
        r@.program == "git"@,
        r@.args == commit_args(files.deep_view(), message@),
        r@.no_window,
{
    let mut args: Vec<String> = Vec::new();
    if !message.is_empty() {
        args.push(String::from_str("commit"));
        args.push(String::from_str("-m"));
        args.push(String::from_str(message));
    } else {
        args.push(String::from_str("commit"));
        args.push(String::from_str("--amend"));
        args.push(String::from_str("--no-edit"));
    }
    let ghost base = args.deep_view();
    let mut i: usize = 0;
    proof {
        assert(args.deep_view() =~~= base + files.deep_view().take(0));
    }
    while i < files.len()
        invariant
            i <= files.len(),
            args.deep_view() == base + files.deep_view().take(i as int),
        decreases files.len() - i,
    {
        let ghost prev = args.deep_view();
        args.push(files[i].clone());
        proof {
            assert(files@[i as int]@ == files.deep_view()[i as int]);
            assert(args.deep_view() =~~= prev.push(files@[i as int]@));
            assert(files.deep_view().take(i + 1).drop_last() =~= files.deep_view().take(i as int));
            assert(args.deep_view() =~~= base + files.deep_view().take(i + 1));
        }
        i += 1;
    }
    proof {
        assert(files.deep_view().take(files@.len() as int) =~= files.deep_view());
    }
    let r = git_spec(args);
    proof {
        assert(r@.args =~~= commit_args(files.deep_view(), message@));
    }
    r
}

pub open spec fn stage_args(files: Seq<Seq<char>>) -> Seq<Seq<char>> {
    seq!["add"@] + files
}

/// Stages the given files ahead of a commit.
pub fn stage_command(files: &Vec<String>) -> (r: ProcessSpec)
    ensures
        r@.program == "git"@,
        r@.args == stage_args(files.deep_view()),
        r@.no_window,
{
    let mut args: Vec<String> = Vec::new();
    args.push(String::from_str("add"));
    let ghost base = args.deep_view();
    let mut i: usize = 0;
    proof {
        assert(args.deep_view() =~~= base + files.deep_view().take(0));
    }
    while i < files.len()
        invariant
            i <= files.len(),
            args.deep_view() == base + files.deep_view().take(i as int),
        decreases files.len() - i,
    {
        let ghost prev = args.deep_view();
        args.push(files[i].clone());
        proof {
            assert(files@[i as int]@ == files.deep_view()[i as int]);
            assert(args.deep_view() =~~= prev.push(files@[i as int]@));
            assert(files.deep_view().take(i + 1).drop_last() =~= files.deep_view().take(i as int));
            assert(args.deep_view() =~~= base + files.deep_view().take(i + 1));
        }
        i += 1;
    }
    proof {
        assert(files.deep_view().take(files@.len() as int) =~= files.deep_view());
    }
    let r = git_spec(args);
    proof {
        assert(r@.args =~~= stage_args(files.deep_view()));
    }
    r
}

pub open spec fn push_args() -> Seq<Seq<char>> {
    seq!["push"@, "-u"@, "origin"@, "HEAD"@]
}

/// Pushes the current head to its origin branch, setting the upstream.
pub fn push_command() -> (r: ProcessSpec)
    ensures
        r@.program == "git"@,
        r@.args == push_args(),
        r@.no_window,
{
    let mut args: Vec<String> = Vec::new();
    args.push(String::from_str("push"));
    args.push(String::from_str("-u"));
    args.push(String::from_str("origin"));
    args.push(String::from_str("HEAD"));
    let r = git_spec(args);
    proof {
        assert(r@.args =~~= push_args());
    }
    r
}

pub open spec fn pull_args() -> Seq<Seq<char>> {
    seq!["pull"@, "--prune"@]
}

/// Pulls with pruning of stale remote-tracking refs.
pub fn pull_command() -> (r: ProcessSpec)
    ensures
        r@.program == "git"@,
        r@.args == pull_args(),
        r@.no_window,
{
    let mut args: Vec<String> = Vec::new();
    args.push(String::from_str("pull"));
    args.push(String::from_str("--prune"));
    let r = git_spec(args);
    proof {
        assert(r@.args =~~= pull_args());
    }
    r
}

pub open spec fn fetch_args() -> Seq<Seq<char>> {
    seq!["fetch"@, "--prune"@]
}

/// Fetches with pruning of stale remote-tracking refs.
pub fn fetch_command() -> (r: ProcessSpec)
    ensures
        r@.program == "git"@,
        r@.args == fetch_args(),
        r@.no_window,
{
    let mut args: Vec<String> = Vec::new();
    args.push(String::from_str("fetch"));
    args.push(String::from_str("--prune"));
    let r = git_spec(args);
    proof {
        assert(r@.args =~~= fetch_args());
    }
    r
}

pub open spec fn tracking_status_args() -> Seq<Seq<char>> {
    seq!["status"@, "-sb"@]
}

/// The short branch-tracking status line the ahead/behind counters come
/// from.
pub fn tracking_status_command() -> (r: ProcessSpec)
    ensures
        r@.program == "git"@,
        r@.args == tracking_status_args(),
        r@.no_window,
{
    let mut args: Vec<String> = Vec::new();
    args.push(String::from_str("status"));
    args.push(String::from_str("-sb"));
    let r = git_spec(args);
    proof {
        assert(r@.args =~~= tracking_status_args());
    }
    r
}

pub open spec fn log_base_args() -> Seq<Seq<char>> {
    seq![
        "log"@,
        "--graph"@,
        "--color"@,
        "--oneline"@,
        "--date=format:%Y/%m/%d (%a) %H:%M"@,
        "--format=___%h___%an___%s___%ad___%C(auto)%d%C(reset)"@,
    ]
}

/// The scope flags of a history request: everything, or one branch,
/// optionally first-parent only; a named branch is terminated with `--` so
/// it cannot be read as a path.
pub open spec fn log_args(show_all: bool, branch: Seq<char>, first_parent: bool) -> Seq<
    Seq<char>,
> {
    if show_all {
        log_base_args().push("--all"@)
    } else {
        let with_fp = if first_parent {
            log_base_args().push("--first-parent"@)
        } else {
            log_base_args()
        };
        if branch.len() > 0 {
            with_fp.push(branch).push("--"@)
        } else {
            with_fp
        }
    }
}

/// The decorated one-line history listing in the fixed field format the
/// log parser reads.
pub fn log_command(show_all: bool, branch: &str, first_parent: bool) -> (r: ProcessSpec)
    ensures
        r@.program == "git"@,
        r@.args == log_args(show_all, branch@, first_parent),
        r@.no_window,
{
    let mut args: Vec<String> = Vec::new();
    args.push(String::from_str("log"));
    args.push(String::from_str("--graph"));
    args.push(String::from_str("--color"));
    args.push(String::from_str("--oneline"));
    args.push(String::from_str("--date=format:%Y/%m/%d (%a) %H:%M"));
    args.push(String::from_str("--format=___%h___%an___%s___%ad___%C(auto)%d%C(reset)"));
    if show_all {
        args.push(String::from_str("--all"));
    } else {
        if first_parent {
            args.push(String::from_str("--first-parent"));
        }
        if !branch.is_empty() {
            args.push(String::from_str(branch));
            args.push(String::from_str("--"));
        }
    }
    let r = git_spec(args);
    proof {
        assert(r@.args =~~= log_args(show_all, branch@, first_parent));
    }
    r
}

pub open spec fn show_args(hash: Seq<char>) -> Seq<Seq<char>> {
    seq!["show"@, "--pretty=format:%H%n%an%n%ad%n%B"@, "--no-patch"@, hash]
}

/// One commit's header and message in the fixed line format the show
/// parser reads.
pub fn show_command(hash: &str) -> (r: ProcessSpec)
    ensures
        r@.program == "git"@,
        r@.args == show_args(hash@),
        r@.no_window,
{
    let mut args: Vec<String> = Vec::new();
    args.push(String::from_str("show"));
    args.push(String::from_str("--pretty=format:%H%n%an%n%ad%n%B"));
    args.push(String::from_str("--no-patch"));
    args.push(String::from_str(hash));
    let r = git_spec(args);
    proof {
        assert(r@.args =~~= show_args(hash@));
    }
    r
}

pub open spec fn show_files_args(hash: Seq<char>) -> Seq<Seq<char>> {
    seq!["show"@, "--pretty=format:"@, "--name-status"@, hash]
}

/// The name-status file listing of one commit.
pub fn show_files_command(hash: &str) -> (r: ProcessSpec)
    ensures
        r@.program == "git"@,
        r@.args == show_files_args(hash@),
        r@.no_window,
{
    let mut args: Vec<String> = Vec::new();
    args.push(String::from_str("show"));
    args.push(String::from_str("--pretty=format:"));
    args.push(String::from_str("--name-status"));
    args.push(String::from_str(hash));
    let r = git_spec(args);
    proof {
        assert(r@.args =~~= show_files_args(hash@));
    }
    r
}

pub open spec fn show_file_diff_args(hash: Seq<char>, file: Seq<char>) -> Seq<Seq<char>> {
    seq!["show"@, "--pretty=format:"@, hash, "--"@, file]
}

/// The diff one commit made to one file.
pub fn show_file_diff_command(hash: &str, file: &str) -> (r: ProcessSpec)
    ensures
        r@.program == "git"@,
        r@.args == show_file_diff_args(hash@, file@),
        r@.no_window,
{
    let mut args: Vec<String> = Vec::new();
    args.push(String::from_str("show"));
    args.push(String::from_str("--pretty=format:"));
    args.push(String::from_str(hash));
    args.push(String::from_str("--"));
    args.push(String::from_str(file));
    let r = git_spec(args);
    proof {
        assert(r@.args =~~= show_file_diff_args(hash@, file@));
    }
    r
}

pub open spec fn branch_list_args() -> Seq<Seq<char>> {
    seq!["branch"@, "-a"@]
}

/// The listing of all local and remote branches.
pub fn branch_list_command() -> (r: ProcessSpec)
    ensures
        r@.program == "git"@,
        r@.args == branch_list_args(),
        r@.no_window,
{
    let mut args: Vec<String> = Vec::new();
    args.push(String::from_str("branch"));
    args.push(String::from_str("-a"));
    let r = git_spec(args);
    proof {
        assert(r@.args =~~= branch_list_args());
    }
    r
}

pub open spec fn branch_create_args(name: Seq<char>) -> Seq<Seq<char>> {
    seq!["checkout"@, "-b"@, name]
}

/// Creates a branch and checks it out.
pub fn branch_create_command(name: &str) -> (r: ProcessSpec)
    ensures
        r@.program == "git"@,
        r@.args == branch_create_args(name@),
        r@.no_window,
{
    let mut args: Vec<String> = Vec::new();
    args.push(String::from_str("checkout"));
    args.push(String::from_str("-b"));
    args.push(String::from_str(name));
    let r = git_spec(args);
    proof {
        assert(r@.args =~~= branch_create_args(name@));
    }
    r
}

pub open spec fn branch_delete_args(name: Seq<char>) -> Seq<Seq<char>> {
    seq!["branch"@, "-d"@, name]
}

/// Deletes a fully merged branch.
pub fn branch_delete_command(name: &str) -> (r: ProcessSpec)
    ensures
        r@.program == "git"@,
        r@.args == branch_delete_args(name@),
        r@.no_window,
{
    let mut args: Vec<String> = Vec::new();
    args.push(String::from_str("branch"));
    args.push(String::from_str("-d"));
    args.push(String::from_str(name));
    let r = git_spec(args);
    proof {
        assert(r@.args =~~= branch_delete_args(name@));
    }
    r
}

pub open spec fn checkout_args(target: Seq<char>) -> Seq<Seq<char>> {
    seq!["checkout"@, target]
}

/// Checks out a branch or a commit hash.
pub fn checkout_command(target: &str) -> (r: ProcessSpec)
    ensures
        r@.program == "git"@,
        r@.args == checkout_args(target@),
        r@.no_window,
{
    let mut args: Vec<String> = Vec::new();
    args.push(String::from_str("checkout"));
    args.push(String::from_str(target));
    let r = git_spec(args);
    proof {
        assert(r@.args =~~= checkout_args(target@));
    }
    r
}

pub open spec fn merge_args(name: Seq<char>) -> Seq<Seq<char>> {
    seq!["merge"@, name]
}

/// Merges the named branch into the current one.
pub fn merge_command(name: &str) -> (r: ProcessSpec)
    ensures
        r@.program == "git"@,
        r@.args == merge_args(name@),
        r@.no_window,
{
    let mut args: Vec<String> = Vec::new();
    args.push(String::from_str("merge"));
    args.push(String::from_str(name));
    let r = git_spec(args);
    proof {
        assert(r@.args =~~= merge_args(name@));
    }
    r
}

pub open spec fn show_ref_args(name: Seq<char>, remote: bool) -> Seq<Seq<char>> {
    let full = if remote {
        "refs/"@ + name
    } else {
        "refs/heads/"@ + name
    };
    seq!["show-ref"@, "--verify"@, full]
}

/// Verifies that the named ref exists: remote names already carry their
/// `remotes/` path under `refs/`, local names live under `refs/heads/`.
pub fn show_ref_command(name: &str, remote: bool) -> (r: ProcessSpec)
    ensures
        r@.program == "git"@,
        r@.args == show_ref_args(name@, remote),
        r@.no_window,
{
    let mut args: Vec<String> = Vec::new();
    args.push(String::from_str("show-ref"));
    args.push(String::from_str("--verify"));
    let full = if remote {
        String::from_str("refs/").concat(name)
    } else {
        String::from_str("refs/heads/").concat(name)
    };
    args.push(full);
    let r = git_spec(args);
    proof {
        assert(r@.args =~~= show_ref_args(name@, remote));
    }
    r
}

} // verus!
