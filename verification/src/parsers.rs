//! Pure parsers turning raw command-line text into typed records. Each
//! parser is total over its input: unrecognized shapes map to an explicit
//! `Unknown` or empty-field form rather than failing.

use vstd::prelude::*;
use vstd::string::StrSliceExecFns;
use vstd::string::StringExecFns;
use crate::text::{
    spec_lines, split_lines, spec_trim, trim_str, seq_at_or_empty, is_digit_char, match_at,
    contains_pat, spec_split, split_on, is_match_at, contains_str, leading_digits, digits_value,
    digit_run_end, digits_to_u16, is_digit,
};

verus! {

/// How one path shows up in a working-tree or commit file listing.
#[derive(Clone, Copy, PartialEq, Eq, Structural, Debug)]
pub enum ChangeCategory {
    Unknown,
    Modified,
    Staged,
    Deleted,
    Added,
}

/// One entry of a status or commit file listing.
#[derive(Debug)]
pub struct StatusRecord {
    pub category: ChangeCategory,
    pub filename: String,
}

pub struct StatusRecordView {
    pub category: ChangeCategory,
    pub filename: Seq<char>,
}

impl View for StatusRecord {
    type V = StatusRecordView;

    open spec fn view(&self) -> StatusRecordView {
        StatusRecordView { category: self.category, filename: self.filename@ }
    }
}

impl DeepView for StatusRecord {
    type V = StatusRecordView;

    open spec fn deep_view(&self) -> StatusRecordView {
        self.view()
    }
}

/// The two-character index/work-tree code at the front of a status line.
pub open spec fn status_category_of(c0: char, c1: char) -> ChangeCategory {
    if c0 == ' ' && c1 == 'M' {
        ChangeCategory::Modified
    } else if c0 == 'M' && c1 == ' ' {
        ChangeCategory::Staged
    } else if c0 == ' ' && c1 == 'D' {
        ChangeCategory::Deleted
    } else if c0 == '?' && c1 == '?' {
        ChangeCategory::Added
    } else if c0 == ' ' && c1 == 'A' {
        // transient index state of a freshly tracked new file; not an error
        ChangeCategory::Added
    } else {
        ChangeCategory::Unknown
    }
}

pub open spec fn spec_status_line(l: Seq<char>) -> StatusRecordView {
    StatusRecordView {
        category: if l.len() >= 2 {
            status_category_of(l[0], l[1])
        } else {
            ChangeCategory::Unknown
        },
        filename: if l.len() >= 3 {
            spec_trim(l.subrange(3, l.len() as int))
        } else {
            Seq::empty()
        },
    }
}

/// Every line of a short-format status dump, in order.
pub open spec fn spec_status_records(s: Seq<char>) -> Seq<StatusRecordView> {
    spec_lines(s).map_values(|l: Seq<char>| spec_status_line(l))
}

fn status_line_record(l: &str) -> (r: StatusRecord)
    ensures
        r@ == spec_status_line(l@),
{
    let n = l.unicode_len();
    let category = if n >= 2 {
        let c0 = l.get_char(0);
        let c1 = l.get_char(1);
        if c0 == ' ' && c1 == 'M' {
            ChangeCategory::Modified
        } else if c0 == 'M' && c1 == ' ' {
            ChangeCategory::Staged
        } else if c0 == ' ' && c1 == 'D' {
            ChangeCategory::Deleted
        } else if c0 == '?' && c1 == '?' {
            ChangeCategory::Added
        } else if c0 == ' ' && c1 == 'A' {
            ChangeCategory::Added
        } else {
            ChangeCategory::Unknown
        }
    } else {
        ChangeCategory::Unknown
    };
    let filename = if n >= 3 {
        trim_str(l.substring_char(3, n))
    } else {
        String::new()
    };
    StatusRecord { category, filename }
}

/// Reads a short-format status dump: per line a two-character code, one
/// separator column, then the path, trimmed.
pub fn parse_status(s: &str) -> (r: Vec<StatusRecord>)
    ensures
        r.deep_view() == spec_status_records(s@),
{
    let lines = split_lines(s);
    let mut r: Vec<StatusRecord> = Vec::new();
    let mut idx: usize = 0;
    while idx < lines.len()
        invariant
            lines.deep_view() == spec_lines(s@),
            idx <= lines.len(),
            r@.len() == idx,
            forall|k: int| 0 <= k < idx ==> r@[k]@ == spec_status_line(spec_lines(s@)[k]),
        decreases lines.len() - idx,
    {
        proof {
            assert(lines@[idx as int]@ == lines.deep_view()[idx as int]);
        }
        let rec = status_line_record(lines[idx].as_str());
        r.push(rec);
        idx += 1;
    }
    proof {
        assert(r.deep_view() =~~= spec_status_records(s@));
    }
    r
}

/// The single-letter category at the front of a commit file-listing line.
pub open spec fn show_file_category_of(c0: char) -> ChangeCategory {
    if c0 == 'M' {
        ChangeCategory::Modified
    } else if c0 == 'D' {
        ChangeCategory::Deleted
    } else if c0 == 'A' {
        ChangeCategory::Added
    } else {
        ChangeCategory::Unknown
    }
}

pub open spec fn spec_show_file_line(l: Seq<char>) -> StatusRecordView {
    StatusRecordView {
        category: if l.len() >= 1 {
            show_file_category_of(l[0])
        } else {
            ChangeCategory::Unknown
        },
        filename: if l.len() >= 2 {
            spec_trim(l.subrange(2, l.len() as int))
        } else {
            Seq::empty()
        },
    }
}

/// Every line of a name-status commit file listing, in order.
pub open spec fn spec_show_file_records(s: Seq<char>) -> Seq<StatusRecordView> {
    spec_lines(s).map_values(|l: Seq<char>| spec_show_file_line(l))
}

fn show_file_line_record(l: &str) -> (r: StatusRecord)
    ensures
        r@ == spec_show_file_line(l@),
{
    let n = l.unicode_len();
    let category = if n >= 1 {
        let c0 = l.get_char(0);
        if c0 == 'M' {
            ChangeCategory::Modified
        } else if c0 == 'D' {
            ChangeCategory::Deleted
        } else if c0 == 'A' {
            ChangeCategory::Added
        } else {
            ChangeCategory::Unknown
        }
    } else {
        ChangeCategory::Unknown
    };
    let filename = if n >= 2 {
        trim_str(l.substring_char(2, n))
    } else {
        String::new()
    };
    StatusRecord { category, filename }
}

/// Reads a name-status file listing of one commit: per line a single-letter
/// category, then the path, trimmed.
pub fn parse_show_files(s: &str) -> (r: Vec<StatusRecord>)
    ensures
        r.deep_view() == spec_show_file_records(s@),
{
    let lines = split_lines(s);
    let mut r: Vec<StatusRecord> = Vec::new();
    let mut idx: usize = 0;
    while idx < lines.len()
        invariant
            lines.deep_view() == spec_lines(s@),
            idx <= lines.len(),
            r@.len() == idx,
            forall|k: int| 0 <= k < idx ==> r@[k]@ == spec_show_file_line(spec_lines(s@)[k]),
        decreases lines.len() - idx,
    {
        proof {
            assert(lines@[idx as int]@ == lines.deep_view()[idx as int]);
        }
        let rec = show_file_line_record(lines[idx].as_str());
        r.push(rec);
        idx += 1;
    }
    proof {
        assert(r.deep_view() =~~= spec_show_file_records(s@));
    }
    r
}

/// One commit shown in full: header fields, then the message body.
#[derive(Debug)]
pub struct ShowRecord {
    pub hash: String,
    pub author: String,
    pub date: String,
    pub message: String,
}

pub struct ShowRecordView {
    pub hash: Seq<char>,
    pub author: Seq<char>,
    pub date: Seq<char>,
    pub message: Seq<char>,
}

impl View for ShowRecord {
    type V = ShowRecordView;

    open spec fn view(&self) -> ShowRecordView {
        ShowRecordView {
            hash: self.hash@,
            author: self.author@,
            date: self.date@,
            message: self.message@,
        }
    }
}

/// The given lines rejoined with newlines.
pub open spec fn join_lines(ls: Seq<Seq<char>>) -> Seq<char>
    decreases ls.len(),
{
    if ls.len() == 0 {
        Seq::empty()
    } else if ls.len() == 1 {
        ls[0]
    } else {
        join_lines(ls.drop_last()) + seq!['\n'] + ls.last()
    }
}

/// First line the hash, second the author, third the date; everything after
/// that is the message body, blank lines kept.
pub open spec fn spec_show_record(s: Seq<char>) -> ShowRecordView {
    let ls = spec_lines(s);
    ShowRecordView {
        hash: seq_at_or_empty(ls, 0),
        author: seq_at_or_empty(ls, 1),
        date: seq_at_or_empty(ls, 2),
        message: if ls.len() <= 3 {
            Seq::empty()
        } else {
            join_lines(ls.subrange(3, ls.len() as int))
        },
    }
}

/// Reads the header-then-body dump of a single commit.
pub fn parse_show(s: &str) -> (r: ShowRecord)
    ensures
        r@ == spec_show_record(s@),
{
    let ghost ls = spec_lines(s@);
    let lines = split_lines(s);
    let hash = if lines.len() > 0 {
        lines[0].clone()
    } else {
        String::new()
    };
    let author = if lines.len() > 1 {
        lines[1].clone()
    } else {
        String::new()
    };
    let date = if lines.len() > 2 {
        lines[2].clone()
    } else {
        String::new()
    };
    let mut message = String::new();
    if lines.len() > 3 {
        message = lines[3].clone();
        proof {
            assert(ls.subrange(3, 4) =~= seq![ls[3]]);
            assert(join_lines(ls.subrange(3, 4)) == ls[3]);
            assert(message@ == ls[3]);
        }
        let mut k: usize = 4;
        while k < lines.len()
            invariant
                lines.deep_view() == ls,
                4 <= k <= lines.len(),
                message@ == join_lines(ls.subrange(3, k as int)),
            decreases lines.len() - k,
        {
            let ghost before = ls.subrange(3, k as int);
            message.append("\n");
            message.append(lines[k].as_str());
            proof {
                reveal_strlit("\n");
                let after = ls.subrange(3, k + 1);
                assert(after.drop_last() =~= before);
                assert(after.last() == ls[k as int]);
                assert(lines@[k as int]@ == lines.deep_view()[k as int]);
                assert("\n"@ =~= seq!['\n']);
                assert(message@ == join_lines(before) + seq!['\n'] + ls[k as int]);
                assert(join_lines(after) == join_lines(before) + seq!['\n'] + after.last());
            }
            k += 1;
        }
        proof {
            assert(ls.subrange(3, lines.len() as int) =~= ls.subrange(3, ls.len() as int));
        }
    }
    proof {
        if lines.len() > 0 {
            assert(lines@[0]@ == lines.deep_view()[0]);
        }
        if lines.len() > 1 {
            assert(lines@[1]@ == lines.deep_view()[1]);
        }
        if lines.len() > 2 {
            assert(lines@[2]@ == lines.deep_view()[2]);
        }
    }
    ShowRecord { hash, author, date, message }
}

/// One line of the decorated history graph.
#[derive(Debug)]
pub struct LogRecord {
    pub graph: String,
    pub hash: String,
    pub author: String,
    pub subject: String,
    pub date: String,
    pub refs: String,
}

pub struct LogRecordView {
    pub graph: Seq<char>,
    pub hash: Seq<char>,
    pub author: Seq<char>,
    pub subject: Seq<char>,
    pub date: Seq<char>,
    pub refs: Seq<char>,
}

impl View for LogRecord {
    type V = LogRecordView;

    open spec fn view(&self) -> LogRecordView {
        LogRecordView {
            graph: self.graph@,
            hash: self.hash@,
            author: self.author@,
            subject: self.subject@,
            date: self.date@,
            refs: self.refs@,
        }
    }
}

impl DeepView for LogRecord {
    type V = LogRecordView;

    open spec fn deep_view(&self) -> LogRecordView {
        self.view()
    }
}

/// The fixed token separating the fields of a history line.
pub open spec fn log_separator() -> Seq<char> {
    seq!['_', '_', '_']
}

/// A line with at least one separator carries six fields in a fixed order,
/// missing trailing fields read as empty; a line with no separator is a
/// graph-only connector, every other field empty.
pub open spec fn spec_log_line(l: Seq<char>) -> LogRecordView {
    let parts = spec_split(l, log_separator());
    if parts.len() > 1 {
        LogRecordView {
            graph: seq_at_or_empty(parts, 0),
            hash: seq_at_or_empty(parts, 1),
            author: seq_at_or_empty(parts, 2),
            subject: seq_at_or_empty(parts, 3),
            date: seq_at_or_empty(parts, 4),
            refs: seq_at_or_empty(parts, 5),
        }
    } else {
        LogRecordView {
            graph: seq_at_or_empty(parts, 0),
            hash: Seq::empty(),
            author: Seq::empty(),
            subject: Seq::empty(),
            date: Seq::empty(),
            refs: Seq::empty(),
        }
    }
}

pub open spec fn spec_log_records(s: Seq<char>) -> Seq<LogRecordView> {
    spec_lines(s).map_values(|l: Seq<char>| spec_log_line(l))
}

fn log_line_record(l: &str) -> (r: LogRecord)
    ensures
        r@ == spec_log_line(l@),
{
    proof {
        reveal_strlit("___");
        assert("___"@ =~= log_separator());
    }
    let parts = split_on(l, "___");
    proof {
        assert(parts.deep_view() == spec_split(l@, log_separator()));
        assert forall|k: int| 0 <= k < parts@.len() implies parts@[k]@ == parts.deep_view()[k] by {}
    }
    let graph = if parts.len() > 0 {
        parts[0].clone()
    } else {
        String::new()
    };
    let hash = if parts.len() > 1 {
        parts[1].clone()
    } else {
        String::new()
    };
    let author = if parts.len() > 2 {
        parts[2].clone()
    } else {
        String::new()
    };
    let subject = if parts.len() > 3 {
        parts[3].clone()
    } else {
        String::new()
    };
    let date = if parts.len() > 4 {
        parts[4].clone()
    } else {
        String::new()
    };
    let refs = if parts.len() > 5 {
        parts[5].clone()
    } else {
        String::new()
    };
    LogRecord { graph, hash, author, subject, date, refs }
}

/// Reads a decorated history dump line by line.
pub fn parse_log(s: &str) -> (r: Vec<LogRecord>)
    ensures
        r.deep_view() == spec_log_records(s@),
{
    let lines = split_lines(s);
    let mut r: Vec<LogRecord> = Vec::new();
    let mut idx: usize = 0;
    while idx < lines.len()
        invariant
            lines.deep_view() == spec_lines(s@),
            idx <= lines.len(),
            r@.len() == idx,
            forall|k: int| 0 <= k < idx ==> r@[k]@ == spec_log_line(spec_lines(s@)[k]),
        decreases lines.len() - idx,
    {
        proof {
            assert(lines@[idx as int]@ == lines.deep_view()[idx as int]);
        }
        let rec = log_line_record(lines[idx].as_str());
        r.push(rec);
        idx += 1;
    }
    proof {
        assert(r.deep_view() =~~= spec_log_records(s@));
    }
    r
}

/// How a listed branch relates to the working tree.
#[derive(Clone, Copy, PartialEq, Eq, Structural, Debug)]
pub enum BranchClassification {
    Default,
    Current,
    Remote,
}

/// One entry of a branch listing.
#[derive(Debug)]
pub struct BranchRecord {
    pub name: String,
    pub classification: BranchClassification,
}

pub struct BranchRecordView {
    pub name: Seq<char>,
    pub classification: BranchClassification,
}

impl View for BranchRecord {
    type V = BranchRecordView;

    open spec fn view(&self) -> BranchRecordView {
        BranchRecordView { name: self.name@, classification: self.classification }
    }
}

impl DeepView for BranchRecord {
    type V = BranchRecordView;

    open spec fn deep_view(&self) -> BranchRecordView {
        self.view()
    }
}

/// The symbolic remote-HEAD pointer entry, never a checkoutable branch.
pub open spec fn head_marker() -> Seq<char> {
    seq!['r', 'e', 'm', 'o', 't', 'e', 's', '/', 'o', 'r', 'i', 'g', 'i', 'n', '/', 'H', 'E', 'A', 'D']
}

pub open spec fn remotes_prefix() -> Seq<char> {
    seq!['r', 'e', 'm', 'o', 't', 'e', 's', '/']
}

pub open spec fn current_prefix() -> Seq<char> {
    seq!['*', ' ']
}

/// The name is everything after the two marker columns; a remote path beats
/// the current-branch marker.
pub open spec fn spec_branch_line(l: Seq<char>) -> BranchRecordView {
    let name = if l.len() >= 2 {
        l.subrange(2, l.len() as int)
    } else {
        Seq::empty()
    };
    BranchRecordView {
        name,
        classification: if match_at(name, remotes_prefix(), 0) {
            BranchClassification::Remote
        } else if match_at(l, current_prefix(), 0) {
            BranchClassification::Current
        } else {
            BranchClassification::Default
        },
    }
}

/// The records of the given lines, skipping any line that mentions the
/// symbolic remote-HEAD pointer.
pub open spec fn spec_branch_filter(ls: Seq<Seq<char>>) -> Seq<BranchRecordView>
    decreases ls.len(),
{
    if ls.len() == 0 {
        Seq::empty()
    } else {
        let rest = spec_branch_filter(ls.drop_last());
        if contains_pat(ls.last(), head_marker()) {
            rest
        } else {
            rest.push(spec_branch_line(ls.last()))
        }
    }
}

/// Every line of a branch listing except the symbolic remote-HEAD entry.
pub open spec fn spec_branch_records(s: Seq<char>) -> Seq<BranchRecordView> {
    spec_branch_filter(spec_lines(s))
}

fn branch_line_record(l: &str) -> (r: BranchRecord)
    ensures
        r@ == spec_branch_line(l@),
{
    proof {
        reveal_strlit("remotes/");
        assert("remotes/"@ =~= remotes_prefix());
        reveal_strlit("* ");
        assert("* "@ =~= current_prefix());
    }
    let n = l.unicode_len();
    let name = if n >= 2 {
        String::from_str(l.substring_char(2, n))
    } else {
        String::new()
    };
    let classification = if is_match_at(name.as_str(), "remotes/", 0) {
        BranchClassification::Remote
    } else if is_match_at(l, "* ", 0) {
        BranchClassification::Current
    } else {
        BranchClassification::Default
    };
    BranchRecord { name, classification }
}

/// Reads a full branch listing, dropping the symbolic remote-HEAD entry.
pub fn parse_branches(s: &str) -> (r: Vec<BranchRecord>)
    ensures
        r.deep_view() == spec_branch_records(s@),
{
    let ghost ls = spec_lines(s@);
    let lines = split_lines(s);
    let mut r: Vec<BranchRecord> = Vec::new();
    let mut idx: usize = 0;
    proof {
        assert(ls.take(0) =~= Seq::<Seq<char>>::empty());
        assert(r.deep_view() =~~= spec_branch_filter(ls.take(0)));
    }
    while idx < lines.len()
        invariant
            lines.deep_view() == ls,
            idx <= lines.len(),
            r.deep_view() == spec_branch_filter(ls.take(idx as int)),
        decreases lines.len() - idx,
    {
        let ghost dv0 = r.deep_view();
        proof {
            reveal_strlit("remotes/origin/HEAD");
            assert("remotes/origin/HEAD"@ =~= head_marker());
            assert(lines@[idx as int]@ == lines.deep_view()[idx as int]);
        }
        if !contains_str(lines[idx].as_str(), "remotes/origin/HEAD") {
            let rec = branch_line_record(lines[idx].as_str());
            r.push(rec);
            proof {
                assert(r.deep_view() =~~= dv0.push(rec@));
            }
        }
        proof {
            let t = ls.take(idx + 1);
            assert(t.drop_last() =~= ls.take(idx as int));
            assert(t.last() == ls[idx as int]);
            assert(r.deep_view() =~~= spec_branch_filter(ls.take(idx + 1)));
        }
        idx += 1;
    }
    proof {
        assert(ls.take(lines.len() as int) =~= ls);
        assert(r.deep_view() == spec_branch_records(s@));
    }
    r
}

/// Commits the local branch leads and trails its upstream by.
#[derive(Clone, Copy, PartialEq, Eq, Structural, Debug)]
pub struct AheadBehindCount {
    pub push: u16,
    pub pull: u16,
}

/// Output that broke a required shape.
#[derive(Clone, Copy, PartialEq, Eq, Structural, Debug)]
pub enum ParseError {
    MalformedCount,
}

pub open spec fn ahead_pat() -> Seq<char> {
    seq!['a', 'h', 'e', 'a', 'd', ' ']
}

pub open spec fn behind_pat() -> Seq<char> {
    seq!['b', 'e', 'h', 'i', 'n', 'd', ' ']
}

/// An occurrence of `pat` at `i` immediately followed by a digit.
pub open spec fn counted_match_at(s: Seq<char>, pat: Seq<char>, i: int) -> bool {
    match_at(s, pat, i) && i + pat.len() < s.len() && is_digit_char(s[i + pat.len()])
}

/// The number written directly after the occurrence of `pat` at `i`.
pub open spec fn count_at(s: Seq<char>, pat: Seq<char>, i: int) -> nat {
    let p = i + pat.len();
    digits_value(s.subrange(p, p + leading_digits(s.skip(p))))
}

/// Start of the last counted occurrence of `pat` before index `n`, or -1.
pub open spec fn last_counted_before(s: Seq<char>, pat: Seq<char>, n: int) -> int
    decreases n,
{
    if n <= 0 {
        -1
    } else if counted_match_at(s, pat, n - 1) {
        n - 1
    } else {
        last_counted_before(s, pat, n - 1)
    }
}

/// The value of the last counted occurrence of `pat` among the first `n`
/// starting positions, or 0 when there is none.
pub open spec fn counter_upto(s: Seq<char>, pat: Seq<char>, n: int) -> nat {
    let i = last_counted_before(s, pat, n);
    if i >= 0 {
        count_at(s, pat, i)
    } else {
        0
    }
}

pub open spec fn spec_counter(s: Seq<char>, pat: Seq<char>) -> nat {
    counter_upto(s, pat, s.len() as int)
}

/// Some matched counter in `s` does not fit the counter width.
pub open spec fn counter_overflows(s: Seq<char>) -> bool {
    exists|i: int|
        #![auto]
        (counted_match_at(s, ahead_pat(), i) && count_at(s, ahead_pat(), i) > u16::MAX) || (
        counted_match_at(s, behind_pat(), i) && count_at(s, behind_pat(), i) > u16::MAX)
}

/// Scans free-form tracking text for `ahead <N>` and `behind <N>`; each
/// found counter populates its side, the last occurrence winning, and a
/// counter that does not fit is a parse error. Absent counters read 0.
pub fn parse_ahead_behind(s: &str) -> (r: Result<AheadBehindCount, ParseError>)
    ensures
        r is Err <==> counter_overflows(s@),
        (r matches Ok(c) ==> c.push == spec_counter(s@, ahead_pat()) && c.pull == spec_counter(
            s@,
            behind_pat(),
        )),
{
    proof {
        reveal_strlit("ahead ");
        assert("ahead "@ =~= ahead_pat());
        reveal_strlit("behind ");
        assert("behind "@ =~= behind_pat());
    }
    let n = s.unicode_len();
    let mut a: u16 = 0;
    let mut b: u16 = 0;
    let mut i: usize = 0;
    while i < n
        invariant
            n == s@.len(),
            i <= n,
            a as nat == counter_upto(s@, ahead_pat(), i as int),
            b as nat == counter_upto(s@, behind_pat(), i as int),
            forall|j: int|
                0 <= j < i ==> !(counted_match_at(s@, ahead_pat(), j) && count_at(
                    s@,
                    ahead_pat(),
                    j,
                ) > u16::MAX),
            forall|j: int|
                0 <= j < i ==> !(counted_match_at(s@, behind_pat(), j) && count_at(
                    s@,
                    behind_pat(),
                    j,
                ) > u16::MAX),
        decreases n - i,
    {
        proof {
            reveal_strlit("ahead ");
            assert("ahead "@ =~= ahead_pat());
            reveal_strlit("behind ");
            assert("behind "@ =~= behind_pat());
        }
        if is_match_at(s, "ahead ", i) && i + 6 < n && is_digit(s.get_char(i + 6)) {
            let e = digit_run_end(s, i + 6);
            proof {
                assert(counted_match_at(s@, ahead_pat(), i as int));
                assert(count_at(s@, ahead_pat(), i as int) == digits_value(
                    s@.subrange(i + 6, e as int),
                ));
            }
            match digits_to_u16(s, i + 6, e) {
                Some(x) => {
                    a = x;
                },
                None => {
                    proof {
                        assert(counter_overflows(s@));
                    }
                    return Err(ParseError::MalformedCount);
                },
            }
        } else if is_match_at(s, "behind ", i) && i + 7 < n && is_digit(s.get_char(i + 7)) {
            let e = digit_run_end(s, i + 7);
            proof {
                assert(counted_match_at(s@, behind_pat(), i as int));
                assert(count_at(s@, behind_pat(), i as int) == digits_value(
                    s@.subrange(i + 7, e as int),
                ));
            }
            match digits_to_u16(s, i + 7, e) {
                Some(x) => {
                    b = x;
                },
                None => {
                    proof {
                        assert(counter_overflows(s@));
                    }
                    return Err(ParseError::MalformedCount);
                },
            }
        } else {
            proof {
                assert(!counted_match_at(s@, ahead_pat(), i as int));
                assert(!counted_match_at(s@, behind_pat(), i as int));
            }
        }
        i += 1;
    }
    proof {
        assert(!counter_overflows(s@)) by {
            if counter_overflows(s@) {
                let j = choose|j: int|
                    #![auto]
                    (counted_match_at(s@, ahead_pat(), j) && count_at(s@, ahead_pat(), j)
                        > u16::MAX) || (counted_match_at(s@, behind_pat(), j) && count_at(
                        s@,
                        behind_pat(),
                        j,
                    ) > u16::MAX);
                assert(0 <= j < n);
            }
        }
    }
    Ok(AheadBehindCount { push: a, pull: b })
}

} // verus!
