use vstd::prelude::*;
use vstd::string::*;
use crate::text::{
    decimal, decimal_string, eq_ignore_ascii_case, list_contains_ignore_case, matches_any, slice_contains_ignore_case,
    str_views, string_views,
};

verus! {

/// The least memory, in the units `memory / 1024` gives, that a process must use to be
/// considered for cleaning.
pub const MIN_MEMORY_THRESHOLD_MB: u64 = 50;

/// Number of processes cleaned between two short pauses.
pub const CLEAN_BATCH_SIZE: usize = 20;

/// Memory optimization strategies.
#[derive(Debug, Clone, Copy)]
pub enum OptimizationLevel {
    /// Empty the working set of large processes only.
    Basic,
    /// Empty the working set of all processes, with filtering.
    Standard,
    /// Like `Standard`, twice.
    Aggressive,
}

/// The name a level is printed with.
pub open spec fn level_name(l: OptimizationLevel) -> Seq<char> {
    match l {
        OptimizationLevel::Basic => "Basic"@,
        OptimizationLevel::Standard => "Standard"@,
        OptimizationLevel::Aggressive => "Aggressive"@,
    }
}

impl OptimizationLevel {
    /// The name this level is printed with.
    pub fn name(&self) -> (s: &'static str)
        ensures
            s@ == level_name(*self),
    {
        match self {
            OptimizationLevel::Basic => "Basic",
            OptimizationLevel::Standard => "Standard",
            OptimizationLevel::Aggressive => "Aggressive",
        }
    }
}

/// Processes whose working set is never emptied.
pub open spec fn critical_process_names() -> Seq<Seq<char>> {
    seq![
        "system"@,
        "registry"@,
        "smss.exe"@,
        "csrss.exe"@,
        "wininit.exe"@,
        "services.exe"@,
        "lsass.exe"@,
        "winlogon.exe"@,
        "svchost.exe"@,
        "lsm.exe"@,
        "dwm.exe"@,
        "audiodg.exe"@,
        "spoolsv.exe"@,
        "sched.exe"@,
        "systemsettingsbroker.exe"@,
        "sihost.exe"@,
        "taskhost.exe"@,
        "runtimebroker.exe"@,
        "dashost.exe"@,
    ]
}

/// Whether `name` is, up to ASCII case, a critical system process.
pub fn is_critical_system_process(name: &str) -> (r: bool)
    ensures
        r == matches_any(critical_process_names(), name@),
{
    let critical: [&str; 19] = [
        "system",
        "registry",
        "smss.exe",
        "csrss.exe",
        "wininit.exe",
        "services.exe",
        "lsass.exe",
        "winlogon.exe",
        "svchost.exe",
        "lsm.exe",
        "dwm.exe",
        "audiodg.exe",
        "spoolsv.exe",
        "sched.exe",
        "systemsettingsbroker.exe",
        "sihost.exe",
        "taskhost.exe",
        "runtimebroker.exe",
        "dashost.exe",
    ];
    assert(str_views(critical@) =~= critical_process_names());
    slice_contains_ignore_case(&critical, name)
}

/// What happened to one process during a cleaning pass.
#[derive(Debug, Clone, Copy, PartialEq, Eq, Structural)]
pub enum CleanEvent {
    /// The process was gone when its turn came.
    Vanished,
    /// The process is on the blacklist.
    Blacklisted,
    /// The process uses too little memory.
    BelowThreshold,
    /// The process is a critical system process.
    Critical,
    /// Its working set was emptied.
    Cleaned,
    /// It could not be opened.
    NotOpened,
    /// Emptying its working set failed.
    Failed,
}

/// Why a process is left alone, or `None` when its working set is to be emptied:
/// blacklisted names first, then processes under the memory threshold, then critical
/// system processes.
pub open spec fn clean_skip_reason(
    name: Seq<char>,
    memory: u64,
    blacklist: Seq<Seq<char>>,
) -> Option<CleanEvent> {
    if matches_any(blacklist, name) {
        Some(CleanEvent::Blacklisted)
    } else if memory / 1024 < MIN_MEMORY_THRESHOLD_MB {
        Some(CleanEvent::BelowThreshold)
    } else if matches_any(critical_process_names(), name) {
        Some(CleanEvent::Critical)
    } else {
        None
    }
}

/// Decides whether a process named `name` using `memory` is cleaned: `Some` reason
/// to leave it alone, or `None` to empty its working set.
pub fn classify_process(name: &str, memory: u64, blacklist: &Vec<String>) -> (r: Option<
    CleanEvent,
>)
    ensures
        r == clean_skip_reason(name@, memory, string_views(blacklist@)),
{
    if list_contains_ignore_case(blacklist, name) {
        Some(CleanEvent::Blacklisted)
    } else if memory / 1024 < MIN_MEMORY_THRESHOLD_MB {
        Some(CleanEvent::BelowThreshold)
    } else if is_critical_system_process(name) {
        Some(CleanEvent::Critical)
    } else {
        None
    }
}

/// The event of an attempt to empty a working set: `Ok(true)` when it was emptied,
/// `Ok(false)` when the process could not be opened, `Err` when emptying failed.
pub open spec fn attempt_event(attempt: Result<bool, ()>) -> CleanEvent {
    match attempt {
        Ok(true) => CleanEvent::Cleaned,
        Ok(false) => CleanEvent::NotOpened,
        Err(_) => CleanEvent::Failed,
    }
}

/// The event of an attempt to empty a working set (see `attempt_event`).
pub fn event_of_attempt(attempt: Result<bool, ()>) -> (e: CleanEvent)
    ensures
        e == attempt_event(attempt),
{
    match attempt {
        Ok(true) => CleanEvent::Cleaned,
        Ok(false) => CleanEvent::NotOpened,
        Err(_) => CleanEvent::Failed,
    }
}

/// Whether a pause is due before the `batch_count`-th process of a pass.
pub fn pause_due(batch_count: usize) -> (r: bool)
    ensures
        r == (batch_count % CLEAN_BATCH_SIZE == 0),
{
    batch_count % CLEAN_BATCH_SIZE == 0
}

/// Statistics of a memory cleaning pass.
#[derive(Debug, Clone)]
pub struct CleanStats {
    pub total_processed: usize,
    pub cleaned: usize,
    pub failed: usize,
    pub skipped: usize,
    pub blacklisted: usize,
    pub below_threshold: usize,
    pub critical_skipped: usize,
}

impl CleanStats {
    /// The total is the sum of the six outcome counts.
    pub open spec fn is_consistent(&self) -> bool {
        self.total_processed == self.cleaned + self.failed + self.skipped + self.blacklisted
            + self.below_threshold + self.critical_skipped
    }

    /// The count that an event `e` adds to.
    pub open spec fn event_count(self, e: CleanEvent) -> usize {
        match e {
            CleanEvent::Vanished | CleanEvent::NotOpened => self.skipped,
            CleanEvent::Blacklisted => self.blacklisted,
            CleanEvent::BelowThreshold => self.below_threshold,
            CleanEvent::Critical => self.critical_skipped,
            CleanEvent::Cleaned => self.cleaned,
            CleanEvent::Failed => self.failed,
        }
    }

    /// `self` with one more `e`.
    pub open spec fn with_event(self, e: CleanEvent) -> CleanStats {
        let s = CleanStats { total_processed: (self.total_processed + 1) as usize, ..self };
        match e {
            CleanEvent::Vanished | CleanEvent::NotOpened => CleanStats {
                skipped: (self.skipped + 1) as usize,
                ..s
            },
            CleanEvent::Blacklisted => CleanStats {
                blacklisted: (self.blacklisted + 1) as usize,
                ..s
            },
            CleanEvent::BelowThreshold => CleanStats {
                below_threshold: (self.below_threshold + 1) as usize,
                ..s
            },
            CleanEvent::Critical => CleanStats {
                critical_skipped: (self.critical_skipped + 1) as usize,
                ..s
            },
            CleanEvent::Cleaned => CleanStats { cleaned: (self.cleaned + 1) as usize, ..s },
            CleanEvent::Failed => CleanStats { failed: (self.failed + 1) as usize, ..s },
        }
    }

    /// Statistics of a pass that has not met any process yet.
    pub fn new() -> (s: CleanStats)
        ensures
            s.total_processed == 0 && s.cleaned == 0 && s.failed == 0 && s.skipped == 0
                && s.blacklisted == 0 && s.below_threshold == 0 && s.critical_skipped == 0,
            s.is_consistent(),
    {
        CleanStats {
            total_processed: 0,
            cleaned: 0,
            failed: 0,
            skipped: 0,
            blacklisted: 0,
            below_threshold: 0,
            critical_skipped: 0,
        }
    }

    /// Whether one more `e` can be counted without a count overflowing.
    pub fn can_record(&self, e: CleanEvent) -> (r: bool)
        ensures
            r == (self.total_processed < usize::MAX && self.event_count(e) < usize::MAX),
    {
        let count = match e {
            CleanEvent::Vanished | CleanEvent::NotOpened => self.skipped,
            CleanEvent::Blacklisted => self.blacklisted,
            CleanEvent::BelowThreshold => self.below_threshold,
            CleanEvent::Critical => self.critical_skipped,
            CleanEvent::Cleaned => self.cleaned,
            CleanEvent::Failed => self.failed,
        };
        self.total_processed < usize::MAX && count < usize::MAX
    }

    /// Counts one event: a vanished or unopened process is skipped; each other event
    /// has its own count. The total grows by one.
    pub fn record(&mut self, e: CleanEvent)
        requires
            old(self).total_processed < usize::MAX,
            old(self).event_count(e) < usize::MAX,
        ensures
            *final(self) == old(self).with_event(e),
            old(self).is_consistent() ==> final(self).is_consistent(),
    {
        self.total_processed = self.total_processed + 1;
        match e {
            CleanEvent::Vanished | CleanEvent::NotOpened => {
                self.skipped = self.skipped + 1;
            },
            CleanEvent::Blacklisted => {
                self.blacklisted = self.blacklisted + 1;
            },
            CleanEvent::BelowThreshold => {
                self.below_threshold = self.below_threshold + 1;
            },
            CleanEvent::Critical => {
                self.critical_skipped = self.critical_skipped + 1;
            },
            CleanEvent::Cleaned => {
                self.cleaned = self.cleaned + 1;
            },
            CleanEvent::Failed => {
                self.failed = self.failed + 1;
            },
        }
    }

    /// Counts the outcome of one attempt to empty a working set.
    pub fn record_attempt(&mut self, attempt: Result<bool, ()>)
        requires
            old(self).total_processed < usize::MAX,
            old(self).event_count(attempt_event(attempt)) < usize::MAX,
        ensures
            *final(self) == old(self).with_event(attempt_event(attempt)),
            old(self).is_consistent() ==> final(self).is_consistent(),
    {
        let e = event_of_attempt(attempt);
        self.record(e);
    }

    /// The short summary: cleaned and failed counts, then the blacklisted, small and
    /// critical counts where they are not zero.
    pub open spec fn summary_text(self) -> Seq<char> {
        "Cleaned: "@ + decimal(self.cleaned as nat) + " | Failed: "@ + decimal(self.failed as nat)
            + (if self.blacklisted > 0 {
            " | Blacklisted: "@ + decimal(self.blacklisted as nat)
        } else {
            Seq::empty()
        }) + (if self.below_threshold > 0 {
            " | Small: "@ + decimal(self.below_threshold as nat)
        } else {
            Seq::empty()
        }) + (if self.critical_skipped > 0 {
            " | Critical: "@ + decimal(self.critical_skipped as nat)
        } else {
            Seq::empty()
        })
    }

    /// The short summary of these statistics.
    pub fn summary(&self) -> (s: String)
        ensures
            s@ == self.summary_text(),
    {
        let mut s = String::from_str("Cleaned: ");
        s.append(decimal_string(self.cleaned as u64).as_str());
        s.append(" | Failed: ");
        s.append(decimal_string(self.failed as u64).as_str());
        if self.blacklisted > 0 {
            s.append(" | Blacklisted: ");
            s.append(decimal_string(self.blacklisted as u64).as_str());
        }
        if self.below_threshold > 0 {
            s.append(" | Small: ");
            s.append(decimal_string(self.below_threshold as u64).as_str());
        }
        if self.critical_skipped > 0 {
            s.append(" | Critical: ");
            s.append(decimal_string(self.critical_skipped as u64).as_str());
        }
        s
    }

    /// Every count, labelled.
    pub open spec fn detailed_text(self) -> Seq<char> {
        "Total: "@ + decimal(self.total_processed as nat) + " | Cleaned: "@ + decimal(
            self.cleaned as nat,
        ) + " | Failed: "@ + decimal(self.failed as nat) + " | Skipped: "@ + decimal(
            self.skipped as nat,
        ) + " | Blacklisted: "@ + decimal(self.blacklisted as nat) + " | Below Threshold: "@
            + decimal(self.below_threshold as nat) + " | Critical Skipped: "@ + decimal(
            self.critical_skipped as nat,
        )
    }

    /// The detailed summary of these statistics.
    pub fn detailed_summary(&self) -> (s: String)
        ensures
            s@ == self.detailed_text(),
    {
        let mut s = String::from_str("Total: ");
        s.append(decimal_string(self.total_processed as u64).as_str());
        s.append(" | Cleaned: ");
        s.append(decimal_string(self.cleaned as u64).as_str());
        s.append(" | Failed: ");
        s.append(decimal_string(self.failed as u64).as_str());
        s.append(" | Skipped: ");
        s.append(decimal_string(self.skipped as u64).as_str());
        s.append(" | Blacklisted: ");
        s.append(decimal_string(self.blacklisted as u64).as_str());
        s.append(" | Below Threshold: ");
        s.append(decimal_string(self.below_threshold as u64).as_str());
        s.append(" | Critical Skipped: ");
        s.append(decimal_string(self.critical_skipped as u64).as_str());
        s
    }
}

/// Result of a memory optimization: available memory before and after (in the units
/// `available_memory / 1024` gives), what was gained, and the processes present.
#[derive(Debug, Clone)]
pub struct OptimizationResult {
    pub level: OptimizationLevel,
    pub memory_before_mb: u64,
    pub memory_after_mb: u64,
    pub memory_gained_mb: u64,
    pub processes_optimized: usize,
}

impl OptimizationResult {
    /// The result of an optimization at `level` that measured `before` and `after`
    /// available memory with `processes` processes present; the gain is `after - before`,
    /// or 0 where memory did not grow.
    pub fn from_measurements(
        level: OptimizationLevel,
        before: u64,
        after: u64,
        processes: usize,
    ) -> (r: OptimizationResult)
        ensures
            r.level == level,
            r.memory_before_mb == before,
            r.memory_after_mb == after,
            r.memory_gained_mb == (if after > before {
                after - before
            } else {
                0
            }),
            r.processes_optimized == processes,
    {
        let gained = if after > before {
            after - before
        } else {
            0
        };
        OptimizationResult {
            level,
            memory_before_mb: before,
            memory_after_mb: after,
            memory_gained_mb: gained,
            processes_optimized: processes,
        }
    }

    /// Level, memory before, after and gained, and the process count.
    pub open spec fn summary_text(self) -> Seq<char> {
        "Level: "@ + level_name(self.level) + " | Before: "@ + decimal(
            self.memory_before_mb as nat,
        ) + " MB | After: "@ + decimal(self.memory_after_mb as nat) + " MB | Gained: "@
            + decimal(self.memory_gained_mb as nat) + " MB | Processes: "@ + decimal(
            self.processes_optimized as nat,
        )
    }

    /// The technical summary of this result.
    pub fn summary(&self) -> (s: String)
        ensures
            s@ == self.summary_text(),
    {
        let mut s = String::from_str("Level: ");
        s.append(self.level.name());
        s.append(" | Before: ");
        s.append(decimal_string(self.memory_before_mb).as_str());
        s.append(" MB | After: ");
        s.append(decimal_string(self.memory_after_mb).as_str());
        s.append(" MB | Gained: ");
        s.append(decimal_string(self.memory_gained_mb).as_str());
        s.append(" MB | Processes: ");
        s.append(decimal_string(self.processes_optimized as u64).as_str());
        s
    }

    /// The message shown to the user: what was freed, or that nothing was.
    pub open spec fn user_friendly_text(self) -> Seq<char> {
        if self.memory_gained_mb > 0 {
            "Memory optimization complete! Freed "@ + decimal(self.memory_gained_mb as nat)
                + " MB of memory. Current available: "@ + decimal(self.memory_after_mb as nat)
                + " MB"@
        } else {
            "Memory optimization complete! System already optimized. Current available: "@
                + decimal(self.memory_after_mb as nat) + " MB"@
        }
    }

    /// The summary shown to the user.
    pub fn user_friendly_summary(&self) -> (s: String)
        ensures
            s@ == self.user_friendly_text(),
    {
        let mut s;
        if self.memory_gained_mb > 0 {
            s = String::from_str("Memory optimization complete! Freed ");
            s.append(decimal_string(self.memory_gained_mb).as_str());
            s.append(" MB of memory. Current available: ");
        } else {
            s = String::from_str(
                "Memory optimization complete! System already optimized. Current available: ",
            );
        }
        s.append(decimal_string(self.memory_after_mb).as_str());
        s.append(" MB");
        s
    }
}


/// The statistics of a pass that met the events `es`, in order, starting from none.
pub open spec fn stats_after(es: Seq<CleanEvent>) -> CleanStats
    decreases es.len(),
{
    if es.len() == 0 {
        CleanStats {
            total_processed: 0,
            cleaned: 0,
            failed: 0,
            skipped: 0,
            blacklisted: 0,
            below_threshold: 0,
            critical_skipped: 0,
        }
    } else {
        stats_after(es.drop_last()).with_event(es.last())
    }
}

/// How many events of `es` satisfy `p`.
pub open spec fn tally(es: Seq<CleanEvent>, p: spec_fn(CleanEvent) -> bool) -> nat
    decreases es.len(),
{
    if es.len() == 0 {
        0
    } else {
        tally(es.drop_last(), p) + if p(es.last()) {
            1nat
        } else {
            0nat
        }
    }
}

/// Over a whole pass, starting from `CleanStats::new()` and counting each event with
/// `record`: the total is the number of processes met, every count is the number of
/// events of its kind, so each process lands in exactly one count.
pub proof fn lemma_pass_totals(es: Seq<CleanEvent>)
    requires
        es.len() <= usize::MAX,
    ensures
        stats_after(es).total_processed == es.len(),
        stats_after(es).is_consistent(),
        stats_after(es).cleaned == tally(es, |e: CleanEvent| e is Cleaned),
        stats_after(es).failed == tally(es, |e: CleanEvent| e is Failed),
        stats_after(es).skipped == tally(es, |e: CleanEvent| e is Vanished || e is NotOpened),
        stats_after(es).blacklisted == tally(es, |e: CleanEvent| e is Blacklisted),
        stats_after(es).below_threshold == tally(es, |e: CleanEvent| e is BelowThreshold),
        stats_after(es).critical_skipped == tally(es, |e: CleanEvent| e is Critical),
    decreases es.len(),
{
    if es.len() > 0 {
        lemma_pass_totals(es.drop_last());
    }
}


/// A process that is not blacklisted and uses at least 50 MB is cleaned unless its name
/// is, up to ASCII case, one of the critical system processes listed here; a process is
/// left alone as critical only when its name is one of them.
pub proof fn lemma_cleaning_decision(name: Seq<char>, memory: u64, blacklist: Seq<Seq<char>>)
    ensures
        ({
            let critical = seq![
                "system"@, "registry"@, "smss.exe"@, "csrss.exe"@, "wininit.exe"@,
                "services.exe"@, "lsass.exe"@, "winlogon.exe"@, "svchost.exe"@, "lsm.exe"@,
                "dwm.exe"@, "audiodg.exe"@, "spoolsv.exe"@, "sched.exe"@,
                "systemsettingsbroker.exe"@, "sihost.exe"@, "taskhost.exe"@,
                "runtimebroker.exe"@, "dashost.exe"@,
            ];
            &&& (!matches_any(blacklist, name) && memory / 1024 >= 50 && (forall|k: int|
                0 <= k < critical.len() ==> !eq_ignore_ascii_case(#[trigger] critical[k], name)))
                ==> clean_skip_reason(name, memory, blacklist) is None
            &&& clean_skip_reason(name, memory, blacklist) == Some(CleanEvent::Critical) ==> exists|
                k: int,
            | 0 <= k < critical.len() && eq_ignore_ascii_case(#[trigger] critical[k], name)
        }),
{
}

} // verus!
