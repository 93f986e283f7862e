use vstd::prelude::*;
use vstd::string::*;
use crate::common::{EndlessOptError, error_message};
use crate::memory::monitor::{MemoryStatus, byte_size_text};
use crate::text::{decimal, decimal_string, string_views};

verus! {

/// Statistics of cleaning one directory.
#[derive(Debug, Clone)]
pub struct CleanStats {
    pub files_deleted: usize,
    pub directories_deleted: usize,
    pub bytes_freed: u64,
    pub errors: Vec<String>,
}

/// Statistics of cleaning all temporary directories.
#[derive(Debug, Clone)]
pub struct SystemCleanStats {
    pub directories_cleaned: usize,
    pub total_files_deleted: usize,
    pub total_directories_deleted: usize,
    pub total_bytes_freed: u64,
    pub errors: Vec<String>,
}

impl CleanStats {
    /// Statistics of a directory before any of its entries.
    pub fn new() -> (s: CleanStats)
        ensures
            s.files_deleted == 0,
            s.directories_deleted == 0,
            s.bytes_freed == 0,
            s.errors@.len() == 0,
    {
        CleanStats { files_deleted: 0, directories_deleted: 0, bytes_freed: 0, errors: Vec::new() }
    }

    /// Counts a deleted file of `size` bytes.
    pub fn record_deleted_file(&mut self, size: u64)
        requires
            old(self).files_deleted < usize::MAX,
            old(self).bytes_freed + size <= u64::MAX,
        ensures
            final(self).files_deleted == old(self).files_deleted + 1,
            final(self).bytes_freed == old(self).bytes_freed + size,
            final(self).directories_deleted == old(self).directories_deleted,
            final(self).errors@ == old(self).errors@,
    {
        self.files_deleted = self.files_deleted + 1;
        self.bytes_freed = self.bytes_freed + size;
    }

    /// Keeps an error line.
    pub fn record_error(&mut self, line: String)
        ensures
            final(self).errors@ == old(self).errors@.push(line),
            final(self).files_deleted == old(self).files_deleted,
            final(self).directories_deleted == old(self).directories_deleted,
            final(self).bytes_freed == old(self).bytes_freed,
    {
        self.errors.push(line);
    }

    /// Takes in a cleaned subdirectory: its deleted files and freed bytes are added, and
    /// the subdirectory counts as deleted if it could be removed afterwards. The
    /// subdirectory's own deleted directories and error lines are not carried over.
    pub fn absorb_subdirectory(&mut self, sub: &CleanStats, removed: bool)
        requires
            old(self).files_deleted + sub.files_deleted <= usize::MAX,
            old(self).bytes_freed + sub.bytes_freed <= u64::MAX,
            old(self).directories_deleted < usize::MAX,
        ensures
            final(self).files_deleted == old(self).files_deleted + sub.files_deleted,
            final(self).bytes_freed == old(self).bytes_freed + sub.bytes_freed,
            final(self).directories_deleted == old(self).directories_deleted + if removed {
                1int
            } else {
                0int
            },
            final(self).errors@ == old(self).errors@,
    {
        self.files_deleted = self.files_deleted + sub.files_deleted;
        self.bytes_freed = self.bytes_freed + sub.bytes_freed;
        if removed {
            self.directories_deleted = self.directories_deleted + 1;
        }
    }

    /// Keeps the error line of a file at `path` that could not be deleted, with the text
    /// of the operating system's `error`.
    pub fn record_deletion_failure(&mut self, path: &str, error: &str)
        ensures
            final(self).errors@.len() == old(self).errors@.len() + 1,
            final(self).errors@.drop_last() == old(self).errors@,
            final(self).errors@.last()@ == "Failed to delete "@ + path@ + ": "@ + error@,
            final(self).files_deleted == old(self).files_deleted,
            final(self).directories_deleted == old(self).directories_deleted,
            final(self).bytes_freed == old(self).bytes_freed,
    {
        let mut line = String::from_str("Failed to delete ");
        line.append(path);
        line.append(": ");
        line.append(error);
        let ghost before = self.errors@;
        self.errors.push(line);
        assert(self.errors@.drop_last() =~= before);
    }

    /// Keeps the error line of a subdirectory that could not be cleaned.
    pub fn record_subdirectory_failure(&mut self, path: &str)
        ensures
            final(self).errors@.len() == old(self).errors@.len() + 1,
            final(self).errors@.drop_last() == old(self).errors@,
            final(self).errors@.last()@ == "Failed to clean directory: "@ + path@,
            final(self).files_deleted == old(self).files_deleted,
            final(self).directories_deleted == old(self).directories_deleted,
            final(self).bytes_freed == old(self).bytes_freed,
    {
        let mut line = String::from_str("Failed to clean directory: ");
        line.append(path);
        let ghost before = self.errors@;
        self.errors.push(line);
        assert(self.errors@.drop_last() =~= before);
    }
}

impl Default for SystemCleanStats {
    fn default() -> (s: SystemCleanStats)
        ensures
            s.directories_cleaned == 0,
            s.total_files_deleted == 0,
            s.total_directories_deleted == 0,
            s.total_bytes_freed == 0,
            s.errors@.len() == 0,
    {
        SystemCleanStats {
            directories_cleaned: 0,
            total_files_deleted: 0,
            total_directories_deleted: 0,
            total_bytes_freed: 0,
            errors: Vec::new(),
        }
    }
}

/// The outcome of cleaning one temporary directory, named by its path.
pub type DirectoryResult = (String, Result<CleanStats, EndlessOptError>);

/// How many directories were cleaned.
pub open spec fn cleaned_count(rs: Seq<DirectoryResult>) -> nat
    decreases rs.len(),
{
    if rs.len() == 0 {
        0
    } else {
        cleaned_count(rs.drop_last()) + if rs.last().1 is Ok {
            1nat
        } else {
            0nat
        }
    }
}

/// The files deleted in all cleaned directories.
pub open spec fn files_sum(rs: Seq<DirectoryResult>) -> nat
    decreases rs.len(),
{
    if rs.len() == 0 {
        0
    } else {
        files_sum(rs.drop_last()) + match rs.last().1 {
            Ok(s) => s.files_deleted as nat,
            Err(_) => 0nat,
        }
    }
}

/// The subdirectories deleted in all cleaned directories.
pub open spec fn dirs_sum(rs: Seq<DirectoryResult>) -> nat
    decreases rs.len(),
{
    if rs.len() == 0 {
        0
    } else {
        dirs_sum(rs.drop_last()) + match rs.last().1 {
            Ok(s) => s.directories_deleted as nat,
            Err(_) => 0nat,
        }
    }
}

/// The bytes freed in all cleaned directories.
pub open spec fn bytes_sum(rs: Seq<DirectoryResult>) -> nat
    decreases rs.len(),
{
    if rs.len() == 0 {
        0
    } else {
        bytes_sum(rs.drop_last()) + match rs.last().1 {
            Ok(s) => s.bytes_freed as nat,
            Err(_) => 0nat,
        }
    }
}

/// The line reporting a directory that could not be cleaned.
pub open spec fn failure_line(dir: Seq<char>, e: EndlessOptError) -> Seq<char> {
    "Failed to clean "@ + dir + ": "@ + error_message(e@)
}

/// The error lines of all directories in order: those a cleaned directory reported, and
/// one line for each directory that could not be cleaned.
pub open spec fn error_lines(rs: Seq<DirectoryResult>) -> Seq<Seq<char>>
    decreases rs.len(),
{
    if rs.len() == 0 {
        Seq::empty()
    } else {
        error_lines(rs.drop_last()) + match rs.last().1 {
            Ok(s) => string_views(s.errors@),
            Err(e) => seq![failure_line(rs.last().0@, e)],
        }
    }
}

proof fn lemma_sums_grow(rs: Seq<DirectoryResult>, i: int)
    requires
        0 <= i <= rs.len(),
    ensures
        files_sum(rs.subrange(0, i)) <= files_sum(rs),
        dirs_sum(rs.subrange(0, i)) <= dirs_sum(rs),
        bytes_sum(rs.subrange(0, i)) <= bytes_sum(rs),
        cleaned_count(rs.subrange(0, i)) <= cleaned_count(rs),
        cleaned_count(rs) <= rs.len(),
    decreases rs.len(),
{
    if rs.len() > 0 {
        lemma_sums_grow(rs.drop_last(), 0);
        if i < rs.len() {
            assert(rs.drop_last().subrange(0, i) =~= rs.subrange(0, i));
            lemma_sums_grow(rs.drop_last(), i);
        } else {
            assert(rs.subrange(0, i) =~= rs);
        }
    } else {
        assert(rs.subrange(0, i) =~= rs);
    }
}

fn append_strings(dst: &mut Vec<String>, src: &Vec<String>)
    ensures
        string_views(final(dst)@) == string_views(old(dst)@) + string_views(src@),
{
    let ghost start = string_views(dst@);
    let mut i: usize = 0;
    while i < src.len()
        invariant
            i <= src@.len(),
            string_views(dst@) == start + string_views(src@).subrange(0, i as int),
        decreases src@.len() - i,
    {
        let ghost before = dst@;
        let item = src[i].clone();
        dst.push(item);
        assert(string_views(dst@) =~= start + string_views(src@).subrange(0, i + 1)) by {
            assert(dst@ == before.push(item));
            assert(string_views(dst@) =~= string_views(before).push(item@));
        }
        i = i + 1;
    }
    assert(string_views(src@).subrange(0, i as int) =~= string_views(src@));
}

/// Adds up the outcomes of cleaning each temporary directory: the cleaned directories are
/// counted and their files, subdirectories and bytes summed; their error lines are kept,
/// and each directory that could not be cleaned adds a line naming it and the error.
pub fn clean_temp_files(results: &Vec<DirectoryResult>) -> (total: SystemCleanStats)
    requires
        files_sum(results@) <= usize::MAX,
        dirs_sum(results@) <= usize::MAX,
        bytes_sum(results@) <= u64::MAX,
    ensures
        total.directories_cleaned == cleaned_count(results@),
        total.total_files_deleted == files_sum(results@),
        total.total_directories_deleted == dirs_sum(results@),
        total.total_bytes_freed == bytes_sum(results@),
        string_views(total.errors@) == error_lines(results@),
{
    let mut total = SystemCleanStats::default();
    assert(string_views(total.errors@) =~= Seq::<Seq<char>>::empty());
    let mut i: usize = 0;
    while i < results.len()
        invariant
            i <= results@.len(),
            files_sum(results@) <= usize::MAX,
            dirs_sum(results@) <= usize::MAX,
            bytes_sum(results@) <= u64::MAX,
            total.directories_cleaned == cleaned_count(results@.subrange(0, i as int)),
            total.total_files_deleted == files_sum(results@.subrange(0, i as int)),
            total.total_directories_deleted == dirs_sum(results@.subrange(0, i as int)),
            total.total_bytes_freed == bytes_sum(results@.subrange(0, i as int)),
            string_views(total.errors@) == error_lines(results@.subrange(0, i as int)),
        decreases results@.len() - i,
    {
        let ghost pre = results@.subrange(0, i as int);
        let ghost next = results@.subrange(0, i + 1);
        proof {
            assert(next.drop_last() =~= pre);
            assert(next.last() == results@[i as int]);
            lemma_sums_grow(results@, i + 1);
            lemma_sums_grow(results@.subrange(0, i + 1), 0);
        }
        let (dir, result) = &results[i];
        match result {
            Ok(stats) => {
                total.directories_cleaned = total.directories_cleaned + 1;
                total.total_files_deleted = total.total_files_deleted + stats.files_deleted;
                total.total_directories_deleted = total.total_directories_deleted
                    + stats.directories_deleted;
                total.total_bytes_freed = total.total_bytes_freed + stats.bytes_freed;
                append_strings(&mut total.errors, &stats.errors);
            },
            Err(e) => {
                let mut line = String::from_str("Failed to clean ");
                line.append(dir.as_str());
                line.append(": ");
                line.append(e.to_string().as_str());
                let ghost before = total.errors@;
                total.errors.push(line);
                assert(string_views(total.errors@) =~= string_views(before).push(line@));
            },
        }
        i = i + 1;
    }
    assert(results@.subrange(0, i as int) =~= results@);
    total
}

impl SystemCleanStats {
    /// Directories cleaned, files deleted, bytes freed (as `MemoryStatus::format_bytes`
    /// writes them) and the number of errors.
    pub open spec fn summary_text(self) -> Seq<char> {
        "Cleaned "@ + decimal(self.directories_cleaned as nat) + " directories | Deleted "@
            + decimal(self.total_files_deleted as nat) + " files | Freed "@ + byte_size_text(
            self.total_bytes_freed,
        ) + " | Errors: "@ + decimal(self.errors@.len())
    }

    /// The summary of this cleaning.
    pub fn summary(&self) -> (s: String)
        ensures
            s@ == self.summary_text(),
    {
        let mut s = String::from_str("Cleaned ");
        s.append(decimal_string(self.directories_cleaned as u64).as_str());
        s.append(" directories | Deleted ");
        s.append(decimal_string(self.total_files_deleted as u64).as_str());
        s.append(" files | Freed ");
        s.append(MemoryStatus::format_bytes(self.total_bytes_freed).as_str());
        s.append(" | Errors: ");
        s.append(decimal_string(self.errors.len() as u64).as_str());
        s
    }
}

/// Statistics of releasing network resources.
#[derive(Debug, Clone)]
pub struct NetworkStats {
    pub commands_executed: usize,
    pub successful: usize,
    pub errors: Vec<String>,
}

impl NetworkStats {
    /// The statistics of a DNS cache flush, given its outcome: `Ok` with whether the
    /// command succeeded once it ran, or `Err` with the text of the error that kept it from
    /// running.
    pub fn from_flush_outcome(outcome: Result<bool, String>) -> (n: NetworkStats)
        ensures
            match outcome {
                Ok(true) => n.commands_executed == 1 && n.successful == 1 && string_views(n.errors@)
                    == Seq::<Seq<char>>::empty(),
                Ok(false) => n.commands_executed == 1 && n.successful == 0 && string_views(n.errors@)
                    == seq!["Failed to flush DNS cache"@],
                Err(e) => n.commands_executed == 0 && n.successful == 0 && string_views(n.errors@)
                    == seq!["Failed to execute ipconfig: "@ + e@],
            },
    {
        let mut errors: Vec<String> = Vec::new();
        let mut commands_executed: usize = 0;
        let mut successful: usize = 0;
        match outcome {
            Ok(ok) => {
                commands_executed = 1;
                if ok {
                    successful = 1;
                } else {
                    errors.push(String::from_str("Failed to flush DNS cache"));
                }
            },
            Err(e) => {
                let mut line = String::from_str("Failed to execute ipconfig: ");
                line.append(e.as_str());
                errors.push(line);
            },
        }
        proof {
            assert(string_views(errors@) =~= match outcome {
                Ok(true) => Seq::<Seq<char>>::empty(),
                Ok(false) => seq!["Failed to flush DNS cache"@],
                Err(e) => seq!["Failed to execute ipconfig: "@ + e@],
            });
        }
        NetworkStats { commands_executed, successful, errors }
    }

    /// The successful commands when there was no error; otherwise executed, successful
    /// and error counts.
    pub open spec fn summary_text(self) -> Seq<char> {
        if self.errors@.len() == 0 {
            "Executed "@ + decimal(self.successful as nat) + " commands successfully"@
        } else {
            "Executed: "@ + decimal(self.commands_executed as nat) + " | Successful: "@
                + decimal(self.successful as nat) + " | Errors: "@ + decimal(self.errors@.len())
        }
    }

    /// The summary of this network cleanup.
    pub fn summary(&self) -> (s: String)
        ensures
            s@ == self.summary_text(),
    {
        if self.errors.len() == 0 {
            let mut s = String::from_str("Executed ");
            s.append(decimal_string(self.successful as u64).as_str());
            s.append(" commands successfully");
            s
        } else {
            let mut s = String::from_str("Executed: ");
            s.append(decimal_string(self.commands_executed as u64).as_str());
            s.append(" | Successful: ");
            s.append(decimal_string(self.successful as u64).as_str());
            s.append(" | Errors: ");
            s.append(decimal_string(self.errors.len() as u64).as_str());
            s
        }
    }
}


/// The number of cleaned directories is the number of directory results that are `Ok`,
/// whatever those results hold: with every result `Ok` it is the number of results, with
/// none `Ok` it is zero, and it adds up over the parts of a list.
pub proof fn lemma_cleaned_count_counts_ok_results(rs: Seq<DirectoryResult>)
    ensures
        cleaned_count(rs) == rs.filter(|r: DirectoryResult| r.1 is Ok).len(),
        (forall|i: int| 0 <= i < rs.len() ==> (#[trigger] rs[i]).1 is Ok) ==> cleaned_count(rs)
            == rs.len(),
        (forall|i: int| 0 <= i < rs.len() ==> (#[trigger] rs[i]).1 is Err) ==> cleaned_count(rs)
            == 0,
    decreases rs.len(),
{
    reveal(Seq::filter);
    if rs.len() > 0 {
        lemma_cleaned_count_counts_ok_results(rs.drop_last());
        if forall|i: int| 0 <= i < rs.len() ==> (#[trigger] rs[i]).1 is Ok {
            assert forall|i: int| 0 <= i < rs.drop_last().len() implies (
            #[trigger] rs.drop_last()[i]).1 is Ok by {
                assert(rs.drop_last()[i] == rs[i]);
            }
            assert(rs.last() == rs[rs.len() - 1]);
        }
        if forall|i: int| 0 <= i < rs.len() ==> (#[trigger] rs[i]).1 is Err {
            assert forall|i: int| 0 <= i < rs.drop_last().len() implies (
            #[trigger] rs.drop_last()[i]).1 is Err by {
                assert(rs.drop_last()[i] == rs[i]);
            }
            assert(rs.last() == rs[rs.len() - 1]);
        }
    }
}

} // verus!
