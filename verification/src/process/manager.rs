use vstd::prelude::*;
use vstd::string::*;
use crate::common::{EndlessOptError, ErrorView, PriorityClass, result_view};
use crate::memory::optimizer::critical_process_names;
use crate::text::{
    decimal, decimal_string, eq_ignore_ascii_case, lemma_name_le_reflexive,
    lemma_name_le_total, lemma_name_le_transitive, list_contains_ignore_case, matches_any,
    name_le, slice_contains_ignore_case, str_name_le, str_views, string_views,
};

verus! {

/// Processes that are never killed: core Windows processes, system services, UI
/// components, system apps, security processes and the optimizer itself.
pub open spec fn protected_process_names() -> Seq<Seq<char>> {
    seq![
        "system"@,
        "system idle process"@,
        "registry"@,
        "smss.exe"@,
        "csrss.exe"@,
        "wininit.exe"@,
        "services.exe"@,
        "lsass.exe"@,
        "winlogon.exe"@,
        "svchost.exe"@,
        "lsm.exe"@,
        "explorer.exe"@,
        "dwm.exe"@,
        "audiodg.exe"@,
        "spoolsv.exe"@,
        "sched.exe"@,
        "systemsettingsbroker.exe"@,
        "sihost.exe"@,
        "taskhost.exe"@,
        "runtimebroker.exe"@,
        "dashost.exe"@,
        "msmpeng.exe"@,
        "securityhealthservice.exe"@,
        "wdffilevalidator.exe"@,
        "endlessopt.exe"@,
    ]
}

/// Whether `name` is, up to ASCII case, a protected process that must not be killed.
pub fn is_protected_process(name: &str) -> (r: bool)
    ensures
        r == matches_any(protected_process_names(), name@),
{
    let protected: [&str; 25] = [
        "system",
        "system idle process",
        "registry",
        "smss.exe",
        "csrss.exe",
        "wininit.exe",
        "services.exe",
        "lsass.exe",
        "winlogon.exe",
        "svchost.exe",
        "lsm.exe",
        "explorer.exe",
        "dwm.exe",
        "audiodg.exe",
        "spoolsv.exe",
        "sched.exe",
        "systemsettingsbroker.exe",
        "sihost.exe",
        "taskhost.exe",
        "runtimebroker.exe",
        "dashost.exe",
        "msmpeng.exe",
        "securityhealthservice.exe",
        "wdffilevalidator.exe",
        "endlessopt.exe",
    ];
    assert(str_views(protected@) =~= protected_process_names());
    slice_contains_ignore_case(&protected, name)
}

/// Every critical system process, whose memory is never cleaned, is also protected
/// from being killed.
pub proof fn lemma_critical_processes_are_protected(name: Seq<char>)
    ensures
        matches_any(critical_process_names(), name) ==> matches_any(
            protected_process_names(),
            name,
        ),
{
    if matches_any(critical_process_names(), name) {
        let c = critical_process_names();
        let p = protected_process_names();
        let i = choose|i: int| 0 <= i < c.len() && eq_ignore_ascii_case(#[trigger] c[i], name);
        let j = if i == 0 {
            0
        } else if i <= 9 {
            i + 1
        } else {
            i + 2
        };
        assert(p[j] == c[i]);
        assert(eq_ignore_ascii_case(p[j], name));
    }
}

/// The error of a kill request for `pid`, given the name of the process found under that
/// id (`None` when there is none), or `Ok` when the process may be killed.
pub open spec fn kill_check(pid: u32, found: Option<Seq<char>>) -> Result<(), ErrorView> {
    match found {
        None => Err(
            ErrorView::Process {
                pid,
                name: None,
                operation: "kill"@,
                details: "Process not found"@,
            },
        ),
        Some(n) => if matches_any(protected_process_names(), n) {
            Err(
                ErrorView::ProtectedProcess(
                    "Cannot kill protected process: "@ + n + " (PID: "@ + decimal(pid as nat)
                        + ")"@,
                ),
            )
        } else {
            Ok(())
        },
    }
}

/// Decides a kill request for `pid`, given the name of the process found under that id:
/// a missing process or a protected one is refused with the error the request gets.
pub fn check_kill(pid: u32, found: Option<&str>) -> (r: Result<(), EndlessOptError>)
    ensures
        result_view(r) == kill_check(
            pid,
            match found {
                Some(n) => Some(n@),
                None => None,
            },
        ),
{
    match found {
        None => Err(
            EndlessOptError::Process {
                pid,
                name: None,
                operation: String::from_str("kill"),
                details: String::from_str("Process not found"),
            },
        ),
        Some(n) => {
            if is_protected_process(n) {
                let mut msg = String::from_str("Cannot kill protected process: ");
                msg.append(n);
                msg.append(" (PID: ");
                msg.append(decimal_string(pid as u64).as_str());
                msg.append(")");
                Err(EndlessOptError::ProtectedProcess(msg))
            } else {
                Ok(())
            }
        },
    }
}

/// The priority a process named `name` is given when processes are optimized: none for a
/// blacklisted one, `game_priority` for a game, `bg_priority` for any other.
pub open spec fn optimization_target(
    name: Seq<char>,
    game_processes: Seq<Seq<char>>,
    blacklist: Seq<Seq<char>>,
    game_priority: PriorityClass,
    bg_priority: PriorityClass,
) -> Option<PriorityClass> {
    if matches_any(blacklist, name) {
        None
    } else if matches_any(game_processes, name) {
        Some(game_priority)
    } else {
        Some(bg_priority)
    }
}

/// Statistics of a process optimization.
#[derive(Debug, Clone)]
pub struct OptimizeStats {
    pub total_processed: usize,
    pub game_processes_optimized: usize,
    pub background_processes_optimized: usize,
    pub skipped: usize,
    pub failed: usize,
}

impl OptimizeStats {
    /// Every processed process is either a game or a background process.
    pub open spec fn is_consistent(&self) -> bool {
        self.total_processed == self.game_processes_optimized
            + self.background_processes_optimized
    }

    /// Statistics before any process.
    pub fn new() -> (s: OptimizeStats)
        ensures
            s.total_processed == 0 && s.game_processes_optimized == 0
                && s.background_processes_optimized == 0 && s.skipped == 0 && s.failed == 0,
            s.is_consistent(),
    {
        OptimizeStats {
            total_processed: 0,
            game_processes_optimized: 0,
            background_processes_optimized: 0,
            skipped: 0,
            failed: 0,
        }
    }

    /// Decides the priority of one process and counts it: a blacklisted process is
    /// skipped; any other is processed, as a game or as a background process.
    pub fn plan_process(
        &mut self,
        name: &str,
        game_processes: &Vec<String>,
        blacklist: &Vec<String>,
        game_priority: PriorityClass,
        bg_priority: PriorityClass,
    ) -> (r: Option<PriorityClass>)
        requires
            old(self).total_processed < usize::MAX,
            old(self).skipped < usize::MAX,
            old(self).game_processes_optimized < usize::MAX,
            old(self).background_processes_optimized < usize::MAX,
        ensures
            r == optimization_target(
                name@,
                string_views(game_processes@),
                string_views(blacklist@),
                game_priority,
                bg_priority,
            ),
            final(self).failed == old(self).failed,
            r is None ==> final(self).skipped == old(self).skipped + 1
                && final(self).total_processed == old(self).total_processed
                && final(self).game_processes_optimized == old(self).game_processes_optimized
                && final(self).background_processes_optimized
                == old(self).background_processes_optimized,
            r is Some ==> final(self).skipped == old(self).skipped
                && final(self).total_processed == old(self).total_processed + 1,
            r is Some && matches_any(string_views(game_processes@), name@) ==> {
                &&& final(self).game_processes_optimized == old(self).game_processes_optimized + 1
                &&& final(self).background_processes_optimized == old(self).background_processes_optimized
            },
            r is Some && !matches_any(string_views(game_processes@), name@) ==> {
                &&& final(self).game_processes_optimized == old(self).game_processes_optimized
                &&& final(self).background_processes_optimized == old(self).background_processes_optimized + 1
            },
            old(self).is_consistent() ==> final(self).is_consistent(),
    {
        if list_contains_ignore_case(blacklist, name) {
            self.skipped = self.skipped + 1;
            return None;
        }
        self.total_processed = self.total_processed + 1;
        if list_contains_ignore_case(game_processes, name) {
            self.game_processes_optimized = self.game_processes_optimized + 1;
            Some(game_priority)
        } else {
            self.background_processes_optimized = self.background_processes_optimized + 1;
            Some(bg_priority)
        }
    }

    /// Counts a process whose priority could not be set.
    pub fn record_failure(&mut self)
        requires
            old(self).failed < usize::MAX,
        ensures
            *final(self) == (OptimizeStats { failed: (old(self).failed + 1) as usize, ..*old(self) }),
    {
        self.failed = self.failed + 1;
    }

    /// Every count, labelled.
    pub open spec fn summary_text(self) -> Seq<char> {
        "Total: "@ + decimal(self.total_processed as nat) + " | Games: "@ + decimal(
            self.game_processes_optimized as nat,
        ) + " | Background: "@ + decimal(self.background_processes_optimized as nat)
            + " | Skipped: "@ + decimal(self.skipped as nat) + " | Failed: "@ + decimal(
            self.failed as nat,
        )
    }

    /// The summary of these statistics.
    pub fn summary(&self) -> (s: String)
        ensures
            s@ == self.summary_text(),
    {
        let mut s = String::from_str("Total: ");
        s.append(decimal_string(self.total_processed as u64).as_str());
        s.append(" | Games: ");
        s.append(decimal_string(self.game_processes_optimized as u64).as_str());
        s.append(" | Background: ");
        s.append(decimal_string(self.background_processes_optimized as u64).as_str());
        s.append(" | Skipped: ");
        s.append(decimal_string(self.skipped as u64).as_str());
        s.append(" | Failed: ");
        s.append(decimal_string(self.failed as u64).as_str());
        s
    }
}


/// The outcome of a kill request that passed `check_kill`, given whether the process
/// `pid`, named `name`, was terminated.
pub open spec fn kill_result(pid: u32, name: Seq<char>, killed: bool) -> Result<bool, ErrorView> {
    if killed {
        Ok(true)
    } else {
        Err(
            ErrorView::Process {
                pid,
                name: Some(name),
                operation: "kill"@,
                details: "Termination failed"@,
            },
        )
    }
}

/// Answers a kill request that passed `check_kill`, given whether terminating the
/// process `pid`, named `name`, succeeded: `Ok(true)`, or the error of a failed kill.
pub fn kill_outcome(pid: u32, name: &str, killed: bool) -> (r: Result<bool, EndlessOptError>)
    ensures
        result_view(r) == kill_result(pid, name@, killed),
{
    if killed {
        Ok(true)
    } else {
        Err(
            EndlessOptError::Process {
                pid,
                name: Some(name.to_string()),
                operation: String::from_str("kill"),
                details: String::from_str("Termination failed"),
            },
        )
    }
}

/// Whether `perm` lists each index below `n` exactly once.
pub open spec fn is_index_permutation(perm: Seq<usize>, n: nat) -> bool {
    &&& perm.len() == n
    &&& forall|i: int| 0 <= i < perm.len() ==> #[trigger] perm[i] < n
    &&& forall|i: int, j: int| 0 <= i < j < perm.len() ==> #[trigger] perm[i] != #[trigger] perm[j]
}

/// Whether `perm` lists `names` in the order of `name_le`, equal names in the order
/// they come in `names`.
pub open spec fn orders_names(names: Seq<Seq<char>>, perm: Seq<usize>) -> bool {
    &&& forall|i: int, j: int|
        #![trigger perm[i], perm[j]]
        0 <= i < j < perm.len() ==> name_le(names[perm[i] as int], names[perm[j] as int])
    &&& forall|i: int, j: int|
        #![trigger perm[i], perm[j]]
        0 <= i < j < perm.len() && names[perm[i] as int] == names[perm[j] as int] ==> perm[i]
            < perm[j]
}

/// The order in which processes are listed: the indices of `names`, sorted by name
/// (as `str`'s `Ord` orders them), processes of the same name in the order given.
pub fn process_name_order(names: &Vec<String>) -> (perm: Vec<usize>)
    ensures
        is_index_permutation(perm@, names@.len()),
        orders_names(string_views(names@), perm@),
{
    let ghost ns = string_views(names@);
    let mut perm: Vec<usize> = Vec::new();
    let mut k: usize = 0;
    while k < names.len()
        invariant
            ns == string_views(names@),
            k <= names@.len(),
            is_index_permutation(perm@, k as nat),
            orders_names(ns, perm@),
        decreases names@.len() - k,
    {
        let ghost key = ns[k as int];
        assert(names@[k as int]@ == key);
        let mut p: usize = 0;
        while p < perm.len() && str_name_le(names[perm[p]].as_str(), names[k].as_str())
            invariant
                ns == string_views(names@),
                k < names@.len(),
                key == ns[k as int],
                is_index_permutation(perm@, k as nat),
                p <= perm@.len(),
                forall|q: int| 0 <= q < p ==> name_le(ns[#[trigger] perm@[q] as int], key),
            decreases perm@.len() - p,
        {
            assert(names@[perm@[p as int] as int]@ == ns[perm@[p as int] as int]);
            p = p + 1;
        }
        proof {
            if p < perm@.len() {
                assert(names@[perm@[p as int] as int]@ == ns[perm@[p as int] as int]);
            }
            assert forall|q: int| p <= q < perm@.len() implies name_le(
                key,
                ns[#[trigger] perm@[q] as int],
            ) && ns[perm@[q] as int] != key by {
                let x = ns[perm@[p as int] as int];
                let y = ns[perm@[q] as int];
                if q > p {
                    assert(name_le(x, y));
                }
                if name_le(y, key) {
                    if q > p {
                        lemma_name_le_transitive(x, y, key);
                    }
                    assert(false);
                }
                lemma_name_le_total(y, key);
                if y == key {
                    lemma_name_le_reflexive(key);
                }
            }
        }
        let ghost old_perm = perm@;
        perm.insert(p, k);
        proof {
            old_perm.insert_ensures(p as int, k);
            let np = perm@;
            assert forall|i: int| 0 <= i < np.len() implies #[trigger] np[i] < k + 1 by {
                if i > p {
                    assert(np[i] == old_perm[i - 1]);
                }
            }
            assert forall|i: int, j: int| 0 <= i < j < np.len() implies #[trigger] np[i]
                != #[trigger] np[j] by {
                if j > p {
                    assert(np[j] == old_perm[j - 1]);
                }
                if i > p {
                    assert(np[i] == old_perm[i - 1]);
                }
            }
            assert forall|i: int, j: int|
                #![trigger np[i], np[j]]
                0 <= i < j < np.len() implies name_le(ns[np[i] as int], ns[np[j] as int]) && (
                ns[np[i] as int] == ns[np[j] as int] ==> np[i] < np[j]) by {
                if j > p {
                    assert(np[j] == old_perm[j - 1]);
                }
                if i > p {
                    assert(np[i] == old_perm[i - 1]);
                }
                if i < p && j > p {
                    assert(old_perm[i] == np[i]);
                    lemma_name_le_transitive(ns[np[i] as int], key, ns[np[j] as int]);
                }
            }
        }
        k = k + 1;
    }
    perm
}


/// A kill request for a process whose name is, up to ASCII case, one of the protected
/// processes listed here (the names for which `is_protected_process` is true) is refused
/// with a protected-process error; one for any other process that was found is allowed;
/// one for a process that was not found is refused.
pub proof fn lemma_kill_protection(pid: u32, name: Seq<char>)
    ensures
        ({
            let protected = seq!["system"@, "system idle process"@, "registry"@, "smss.exe"@, "csrss.exe"@, "wininit.exe"@, "services.exe"@, "lsass.exe"@, "winlogon.exe"@, "svchost.exe"@, "lsm.exe"@, "explorer.exe"@, "dwm.exe"@, "audiodg.exe"@, "spoolsv.exe"@, "sched.exe"@, "systemsettingsbroker.exe"@, "sihost.exe"@, "taskhost.exe"@, "runtimebroker.exe"@, "dashost.exe"@, "msmpeng.exe"@, "securityhealthservice.exe"@, "wdffilevalidator.exe"@, "endlessopt.exe"@];
            &&& (exists|k: int| 0 <= k < protected.len() && eq_ignore_ascii_case(
                #[trigger] protected[k],
                name,
            )) ==> (kill_check(pid, Some(name)) matches Err(ErrorView::ProtectedProcess(_)))
            &&& (forall|k: int| 0 <= k < protected.len() ==> !eq_ignore_ascii_case(
                #[trigger] protected[k],
                name,
            )) ==> kill_check(pid, Some(name)) is Ok
        }),
        matches_any(protected_process_names(), name) ==> kill_check(pid, Some(name)) matches Err(
            ErrorView::ProtectedProcess(_),
        ),
        kill_check(pid, None) is Err,
{
}

} // verus!
