use vstd::prelude::*;
use vstd::string::*;
use crate::common::{EndlessOptError, PriorityClass};
use crate::memory::optimizer::CleanStats;
use crate::process::manager::protected_process_names;
use vstd::utf8::is_ascii_chars;
use crate::text::{
    ascii_lowercase, decimal, decimal_string, ends_with, eq_ignore_ascii_case, is_unicode_whitespace,
    lemma_names_differ_at, list_contains_ignore_case, matches_any, string_views,
};
use crate::validation::{
    executable_extensions, has_executable_extension, is_plain_name_char,
    lemma_plain_name_is_valid, process_name_check,
};

verus! {

/// Game mode state and configuration.
#[derive(Debug, Clone)]
pub struct GameMode {
    pub active: bool,
    pub game_processes: Vec<String>,
    pub game_priority: PriorityClass,
    pub bg_priority: PriorityClass,
    pub clean_memory: bool,
    pub optimize_network: bool,
}

/// A process seen by game mode: its id and name.
pub open spec fn entry_view(e: (u32, String)) -> (u32, Seq<char>) {
    (e.0, e.1@)
}

/// The views of a list of processes.
pub open spec fn entry_views(ps: Seq<(u32, String)>) -> Seq<(u32, Seq<char>)> {
    ps.map_values(|e: (u32, String)| entry_view(e))
}

/// The games among `ps`, in order.
pub open spec fn games_among(games: Seq<Seq<char>>, ps: Seq<(u32, Seq<char>)>) -> Seq<
    (u32, Seq<char>),
>
    decreases ps.len(),
{
    if ps.len() == 0 {
        Seq::empty()
    } else if matches_any(games, ps.last().1) {
        games_among(games, ps.drop_last()).push(ps.last())
    } else {
        games_among(games, ps.drop_last())
    }
}

/// The processes of `ps` that are not games, in order.
pub open spec fn others_among(games: Seq<Seq<char>>, ps: Seq<(u32, Seq<char>)>) -> Seq<
    (u32, Seq<char>),
>
    decreases ps.len(),
{
    if ps.len() == 0 {
        Seq::empty()
    } else if matches_any(games, ps.last().1) {
        others_among(games, ps.drop_last())
    } else {
        others_among(games, ps.drop_last()).push(ps.last())
    }
}

/// Each process of `ps` paired with the priority `p`.
pub open spec fn assign(ps: Seq<(u32, Seq<char>)>, p: PriorityClass) -> Seq<(u32, PriorityClass)> {
    ps.map_values(|e: (u32, Seq<char>)| (e.0, p))
}

/// How many entries of `s` are `false`.
pub open spec fn count_false(s: Seq<bool>) -> nat
    decreases s.len(),
{
    if s.len() == 0 {
        0
    } else {
        count_false(s.drop_last()) + if s.last() {
            0nat
        } else {
            1nat
        }
    }
}

/// How many entries of `s` are `true`.
pub open spec fn count_true(s: Seq<bool>) -> nat
    decreases s.len(),
{
    if s.len() == 0 {
        0
    } else {
        count_true(s.drop_last()) + if s.last() {
            1nat
        } else {
            0nat
        }
    }
}

proof fn lemma_counts(s: Seq<bool>)
    ensures
        count_true(s) + count_false(s) == s.len(),
        count_false(s) <= s.len(),
    decreases s.len(),
{
    if s.len() > 0 {
        lemma_counts(s.drop_last());
    }
}

fn count_failures(outcomes: &Vec<bool>) -> (n: usize)
    ensures
        n == count_false(outcomes@),
{
    let mut n: usize = 0;
    let mut i: usize = 0;
    while i < outcomes.len()
        invariant
            i <= outcomes@.len(),
            n == count_false(outcomes@.subrange(0, i as int)),
            n <= i,
        decreases outcomes@.len() - i,
    {
        assert(outcomes@.subrange(0, i + 1).drop_last() =~= outcomes@.subrange(0, i as int));
        if !outcomes[i] {
            n = n + 1;
        }
        i = i + 1;
    }
    assert(outcomes@.subrange(0, i as int) =~= outcomes@);
    n
}

fn count_successes(outcomes: &Vec<bool>) -> (n: usize)
    ensures
        n == count_true(outcomes@),
{
    let mut n: usize = 0;
    let mut i: usize = 0;
    while i < outcomes.len()
        invariant
            i <= outcomes@.len(),
            n == count_true(outcomes@.subrange(0, i as int)),
            n <= i,
        decreases outcomes@.len() - i,
    {
        assert(outcomes@.subrange(0, i + 1).drop_last() =~= outcomes@.subrange(0, i as int));
        if outcomes[i] {
            n = n + 1;
        }
        i = i + 1;
    }
    assert(outcomes@.subrange(0, i as int) =~= outcomes@);
    n
}

impl GameMode {
    /// A game mode configuration, not yet active.
    pub fn new(
        game_processes: Vec<String>,
        game_priority: PriorityClass,
        bg_priority: PriorityClass,
        clean_memory: bool,
        optimize_network: bool,
    ) -> (g: GameMode)
        ensures
            !g.active,
            g.game_processes@ == game_processes@,
            g.game_priority == game_priority,
            g.bg_priority == bg_priority,
            g.clean_memory == clean_memory,
            g.optimize_network == optimize_network,
    {
        GameMode {
            active: false,
            game_processes,
            game_priority,
            bg_priority,
            clean_memory,
            optimize_network,
        }
    }

    /// The names of this mode's games.
    pub open spec fn games(&self) -> Seq<Seq<char>> {
        string_views(self.game_processes@)
    }

    /// Whether `name` is, up to ASCII case, one of this mode's games.
    pub fn is_game_process(&self, name: &str) -> (r: bool)
        ensures
            r == matches_any(self.games(), name@),
    {
        list_contains_ignore_case(&self.game_processes, name)
    }

    /// Whether one of the `running` process names is a game.
    pub fn are_games_running(&self, running: &Vec<String>) -> (r: bool)
        ensures
            r == exists|i: int|
                0 <= i < running@.len() && matches_any(self.games(), #[trigger] running@[i]@),
    {
        let mut i: usize = 0;
        while i < running.len()
            invariant
                i <= running@.len(),
                forall|k: int| 0 <= k < i ==> !matches_any(self.games(), #[trigger] running@[k]@),
            decreases running@.len() - i,
        {
            if self.is_game_process(running[i].as_str()) {
                return true;
            }
            i = i + 1;
        }
        false
    }

    /// The priorities game mode gives the `processes` present: each game gets the game
    /// priority, then each other process gets the background priority, in the order of
    /// `processes`.
    pub open spec fn activation_plan_of(&self, ps: Seq<(u32, Seq<char>)>) -> Seq<
        (u32, PriorityClass),
    > {
        assign(games_among(self.games(), ps), self.game_priority) + assign(
            others_among(self.games(), ps),
            self.bg_priority,
        )
    }

    /// The priority changes that activating game mode makes to `processes`.
    pub fn activation_plan(&self, processes: &Vec<(u32, String)>) -> (plan: Vec<
        (u32, PriorityClass),
    >)
        ensures
            plan@ == self.activation_plan_of(entry_views(processes@)),
            plan@.len() == processes@.len(),
    {
        let ghost ps = entry_views(processes@);
        let mut games: Vec<(u32, PriorityClass)> = Vec::new();
        let mut others: Vec<(u32, PriorityClass)> = Vec::new();
        let mut i: usize = 0;
        while i < processes.len()
            invariant
                ps == entry_views(processes@),
                i <= processes@.len(),
                games@ == assign(games_among(self.games(), ps.subrange(0, i as int)), self.game_priority),
                others@ == assign(others_among(self.games(), ps.subrange(0, i as int)), self.bg_priority),
                games@.len() + others@.len() == i,
            decreases processes@.len() - i,
        {
            let ghost pre = ps.subrange(0, i as int);
            let ghost next = ps.subrange(0, i + 1);
            assert(next.drop_last() =~= pre);
            assert(next.last() == ps[i as int]);
            let pid = processes[i].0;
            if self.is_game_process(processes[i].1.as_str()) {
                games.push((pid, self.game_priority));
                assert(games@ =~= assign(games_among(self.games(), next), self.game_priority));
                assert(others_among(self.games(), next) == others_among(self.games(), pre));
            } else {
                others.push((pid, self.bg_priority));
                assert(others@ =~= assign(others_among(self.games(), next), self.bg_priority));
                assert(games_among(self.games(), next) == games_among(self.games(), pre));
            }
            i = i + 1;
        }
        assert(ps.subrange(0, i as int) =~= ps);
        let mut plan = games;
        let mut rest = others;
        plan.append(&mut rest);
        plan
    }

    /// Whether activating this mode cleans memory once the priorities are set.
    pub fn memory_cleaning_due(&self) -> (r: bool)
        ensures
            r == self.clean_memory,
    {
        self.clean_memory
    }

    /// Ends an activation: records the mode as active and builds its result from the
    /// `processes` present, the success of each change of the plan (`outcomes`), and the
    /// statistics of the memory cleaning, which ran exactly where the mode asks for it.
    pub fn finish_activation(
        &mut self,
        processes: &Vec<(u32, String)>,
        outcomes: &Vec<bool>,
        memory_cleaned: Option<CleanStats>,
    ) -> (r: ActivationResult)
        requires
            outcomes@.len() == processes@.len(),
            memory_cleaned is Some <==> old(self).clean_memory,
        ensures
            final(self).active,
            final(self).game_processes@ == old(self).game_processes@,
            final(self).game_priority == old(self).game_priority,
            final(self).bg_priority == old(self).bg_priority,
            final(self).clean_memory == old(self).clean_memory,
            final(self).optimize_network == old(self).optimize_network,
            entry_views(r.games_detected@) == games_among(old(self).games(), entry_views(processes@)),
            r.game_count == games_among(old(self).games(), entry_views(processes@)).len(),
            r.background_processes_optimized == others_among(
                old(self).games(),
                entry_views(processes@),
            ).len(),
            r.failed_count == count_false(outcomes@),
            r.failed_count <= processes@.len(),
            r.memory_cleaned == memory_cleaned,
            r.memory_cleaned is Some <==> old(self).clean_memory,
    {
        proof {
            lemma_counts(outcomes@);
        }
        let ghost ps = entry_views(processes@);
        let mut detected: Vec<(u32, String)> = Vec::new();
        let mut bg: usize = 0;
        let mut i: usize = 0;
        while i < processes.len()
            invariant
                ps == entry_views(processes@),
                i <= processes@.len(),
                entry_views(detected@) == games_among(self.games(), ps.subrange(0, i as int)),
                bg == others_among(self.games(), ps.subrange(0, i as int)).len(),
                detected@.len() + bg == i,
            decreases processes@.len() - i,
        {
            let ghost pre = ps.subrange(0, i as int);
            let ghost next = ps.subrange(0, i + 1);
            assert(next.drop_last() =~= pre);
            assert(next.last() == ps[i as int]);
            if self.is_game_process(processes[i].1.as_str()) {
                let ghost before = detected@;
                let name = processes[i].1.clone();
                detected.push((processes[i].0, name));
                assert(entry_views(detected@) =~= entry_views(before).push(ps[i as int]));
            } else {
                bg = bg + 1;
            }
            i = i + 1;
        }
        assert(ps.subrange(0, i as int) =~= ps);
        let failed = count_failures(outcomes);
        self.active = true;
        let game_count = detected.len();
        ActivationResult {
            games_detected: detected,
            game_count,
            background_processes_optimized: bg,
            failed_count: failed,
            memory_cleaned,
        }
    }

    /// Ends an activation given the outcome of the memory cleaning (`None` where the mode
    /// asks for none): where the cleaning failed, its error is returned and the mode is
    /// left as it was; otherwise the activation is finished as `finish_activation` does.
    pub fn complete_activation(
        &mut self,
        processes: &Vec<(u32, String)>,
        outcomes: &Vec<bool>,
        memory: Option<Result<CleanStats, EndlessOptError>>,
    ) -> (r: Result<ActivationResult, EndlessOptError>)
        requires
            outcomes@.len() == processes@.len(),
            memory is Some <==> old(self).clean_memory,
        ensures
            match memory {
                Some(Err(e)) => r == Err::<ActivationResult, EndlessOptError>(e) && *final(self)
                    == *old(self),
                _ => r is Ok,
            },
            r is Ok ==> {
                let a = r->Ok_0;
                &&& final(self).active
                &&& final(self).game_processes@ == old(self).game_processes@
                &&& final(self).game_priority == old(self).game_priority
                &&& final(self).bg_priority == old(self).bg_priority
                &&& final(self).clean_memory == old(self).clean_memory
                &&& final(self).optimize_network == old(self).optimize_network
                &&& entry_views(a.games_detected@) == games_among(
                    old(self).games(),
                    entry_views(processes@),
                )
                &&& a.game_count == games_among(old(self).games(), entry_views(processes@)).len()
                &&& a.background_processes_optimized == others_among(
                    old(self).games(),
                    entry_views(processes@),
                ).len()
                &&& a.failed_count == count_false(outcomes@)
                &&& a.memory_cleaned == (match memory {
                    Some(Ok(m)) => Some(m),
                    _ => None::<CleanStats>,
                })
            },
    {
        let memory_cleaned = match memory {
            Some(Err(e)) => {
                return Err(e);
            },
            Some(Ok(m)) => Some(m),
            None => None,
        };
        Ok(self.finish_activation(processes, outcomes, memory_cleaned))
    }

    /// Ends a deactivation: records the mode as inactive and counts the processes whose
    /// normal priority was restored and those where restoring failed.
    pub fn finish_deactivation(&mut self, outcomes: &Vec<bool>) -> (r: DeactivationResult)
        ensures
            !final(self).active,
            final(self).game_processes@ == old(self).game_processes@,
            final(self).game_priority == old(self).game_priority,
            final(self).bg_priority == old(self).bg_priority,
            final(self).clean_memory == old(self).clean_memory,
            final(self).optimize_network == old(self).optimize_network,
            r.processes_restored == count_true(outcomes@),
            r.failed_count == count_false(outcomes@),
    {
        let restored = count_successes(outcomes);
        let failed = count_failures(outcomes);
        self.active = false;
        DeactivationResult { processes_restored: restored, failed_count: failed }
    }
}

/// The priority every process is restored to when game mode ends.
pub fn restore_priority() -> (p: PriorityClass)
    ensures
        p == PriorityClass::Normal,
{
    PriorityClass::Normal
}

/// Result of a game mode activation.
#[derive(Debug)]
pub struct ActivationResult {
    /// Ids and names of the games found.
    pub games_detected: Vec<(u32, String)>,
    pub game_count: usize,
    pub background_processes_optimized: usize,
    pub failed_count: usize,
    pub memory_cleaned: Option<CleanStats>,
}

impl ActivationResult {
    /// Games and background processes, the memory summary where memory was cleaned, and
    /// the failures where there were any.
    pub open spec fn summary_text(self) -> Seq<char> {
        "Games detected: "@ + decimal(self.game_count as nat) + " | Background optimized: "@
            + decimal(self.background_processes_optimized as nat) + (match self.memory_cleaned {
            Some(m) => " | Memory: "@ + m.summary_text(),
            None => Seq::empty(),
        }) + (if self.failed_count > 0 {
            " | Failed: "@ + decimal(self.failed_count as nat)
        } else {
            Seq::empty()
        })
    }

    /// The summary of this activation.
    pub fn summary(&self) -> (s: String)
        ensures
            s@ == self.summary_text(),
    {
        let mut s = String::from_str("Games detected: ");
        s.append(decimal_string(self.game_count as u64).as_str());
        s.append(" | Background optimized: ");
        s.append(decimal_string(self.background_processes_optimized as u64).as_str());
        match &self.memory_cleaned {
            Some(m) => {
                s.append(" | Memory: ");
                s.append(m.summary().as_str());
            },
            None => {},
        }
        if self.failed_count > 0 {
            s.append(" | Failed: ");
            s.append(decimal_string(self.failed_count as u64).as_str());
        }
        s
    }
}

/// Result of a game mode deactivation.
#[derive(Debug, Clone)]
pub struct DeactivationResult {
    pub processes_restored: usize,
    pub failed_count: usize,
}

impl DeactivationResult {
    /// Restored and failed counts.
    pub open spec fn summary_text(self) -> Seq<char> {
        "Processes restored: "@ + decimal(self.processes_restored as nat) + " | Failed: "@
            + decimal(self.failed_count as nat)
    }

    /// The summary of this deactivation.
    pub fn summary(&self) -> (s: String)
        ensures
            s@ == self.summary_text(),
    {
        let mut s = String::from_str("Processes restored: ");
        s.append(decimal_string(self.processes_restored as u64).as_str());
        s.append(" | Failed: ");
        s.append(decimal_string(self.failed_count as u64).as_str());
        s
    }
}

/// Common game launchers and game executables.
pub open spec fn common_game_names() -> Seq<Seq<char>> {
    seq![
        "minecraft.exe"@,
        "minecraftlauncher.exe"@,
        "javaw.exe"@,
        "steam.exe"@,
        "epicgameslauncher.exe"@,
        "battle.net.exe"@,
        "upc.exe"@,
        "valorant.exe"@,
        "league of legends.exe"@,
        "cs2.exe"@,
        "dota2.exe"@,
        "fortnitegame.exe"@,
        "overwatch.exe"@,
        "apex.exe"@,
        "r5apex.exe"@,
        "gta5.exe"@,
        "skyrim.exe"@,
        "skyrimse.exe"@,
    ]
}

/// The process names of common game launchers and games.
pub fn detect_common_games() -> (v: Vec<String>)
    ensures
        string_views(v@) == common_game_names(),
{
    let v = vec![
        String::from_str("minecraft.exe"),
        String::from_str("minecraftlauncher.exe"),
        String::from_str("javaw.exe"),
        String::from_str("steam.exe"),
        String::from_str("epicgameslauncher.exe"),
        String::from_str("battle.net.exe"),
        String::from_str("upc.exe"),
        String::from_str("valorant.exe"),
        String::from_str("league of legends.exe"),
        String::from_str("cs2.exe"),
        String::from_str("dota2.exe"),
        String::from_str("fortnitegame.exe"),
        String::from_str("overwatch.exe"),
        String::from_str("apex.exe"),
        String::from_str("r5apex.exe"),
        String::from_str("gta5.exe"),
        String::from_str("skyrim.exe"),
        String::from_str("skyrimse.exe"),
    ];
    assert(string_views(v@) =~= common_game_names());
    v
}


/// Whether `s` holds no ASCII uppercase letter.
pub open spec fn has_no_ascii_uppercase(s: Seq<char>) -> bool {
    forall|i: int| 0 <= i < s.len() ==> !('A' <= #[trigger] s[i] <= 'Z')
}

proof fn lemma_exe_name_facts(s: Seq<char>)
    requires
        5 <= s.len() <= 260,
        s[s.len() - 4] == '.',
        s[s.len() - 3] == 'e',
        s[s.len() - 2] == 'x',
        s[s.len() - 1] == 'e',
        !is_unicode_whitespace(s[0]),
        forall|i: int| 0 <= i < s.len() ==> is_plain_name_char(#[trigger] s[i]),
    ensures
        has_no_ascii_uppercase(s),
        is_ascii_chars(s),
        ascii_lowercase(s) == s,
        ends_with(s, ".exe"@),
        process_name_check(s) is Ok,
        has_executable_extension(s),
{
    reveal_strlit(".exe");
    assert(ascii_lowercase(s) =~= s);
    assert(s.subrange(s.len() - 4, s.len() as int) =~= ".exe"@);
    lemma_plain_name_is_valid(s);
    assert(executable_extensions()[0] == ".exe"@);
    assert(ends_with(s, executable_extensions()[0]));
}

/// Every common game name is ASCII and lowercase, ends with `.exe`, is a valid process
/// name with an executable extension (so `is_valid_executable_name` accepts it) and is
/// not a protected process; no two of them are equal up to ASCII case.
pub proof fn lemma_common_games_are_well_formed()
    ensures
        forall|i: int|
            0 <= i < common_game_names().len() ==> {
                let g = #[trigger] common_game_names()[i];
                &&& has_no_ascii_uppercase(g)
                &&& is_ascii_chars(g)
                &&& ascii_lowercase(g) == g
                &&& ends_with(g, ".exe"@)
                &&& process_name_check(g) is Ok
                &&& has_executable_extension(g)
                &&& !matches_any(protected_process_names(), g)
            },
        forall|i: int, j: int|
            0 <= i < j < common_game_names().len() ==> !eq_ignore_ascii_case(
                #[trigger] common_game_names()[i],
                #[trigger] common_game_names()[j],
            ),
{
    reveal_strlit("minecraft.exe");
    reveal_strlit("minecraftlauncher.exe");
    reveal_strlit("javaw.exe");
    reveal_strlit("steam.exe");
    reveal_strlit("epicgameslauncher.exe");
    reveal_strlit("battle.net.exe");
    reveal_strlit("upc.exe");
    reveal_strlit("valorant.exe");
    reveal_strlit("league of legends.exe");
    reveal_strlit("cs2.exe");
    reveal_strlit("dota2.exe");
    reveal_strlit("fortnitegame.exe");
    reveal_strlit("overwatch.exe");
    reveal_strlit("apex.exe");
    reveal_strlit("r5apex.exe");
    reveal_strlit("gta5.exe");
    reveal_strlit("skyrim.exe");
    reveal_strlit("skyrimse.exe");
    let games = common_game_names();
    assert forall|i: int| 0 <= i < games.len() implies {
        &&& has_no_ascii_uppercase(#[trigger] games[i])
        &&& is_ascii_chars(games[i])
        &&& ascii_lowercase(games[i]) == games[i]
        &&& ends_with(games[i], ".exe"@)
        &&& process_name_check(games[i]) is Ok
        &&& has_executable_extension(games[i])
    } by {
        lemma_exe_name_facts(games[i]);
    }
    assert forall|i: int, j: int| 0 <= i < j < games.len() implies !eq_ignore_ascii_case(
        #[trigger] games[i],
        #[trigger] games[j],
    ) by {
        lemma_names_differ_at(games[i], games[j], 0);
    }
    lemma_common_games_not_protected();
}


proof fn lemma_common_games_not_protected()
    ensures
        forall|i: int|
            0 <= i < common_game_names().len() ==> !matches_any(
                protected_process_names(),
                #[trigger] common_game_names()[i],
            ),
{
    reveal_strlit("minecraft.exe");
    reveal_strlit("minecraftlauncher.exe");
    reveal_strlit("javaw.exe");
    reveal_strlit("steam.exe");
    reveal_strlit("epicgameslauncher.exe");
    reveal_strlit("battle.net.exe");
    reveal_strlit("upc.exe");
    reveal_strlit("valorant.exe");
    reveal_strlit("league of legends.exe");
    reveal_strlit("cs2.exe");
    reveal_strlit("dota2.exe");
    reveal_strlit("fortnitegame.exe");
    reveal_strlit("overwatch.exe");
    reveal_strlit("apex.exe");
    reveal_strlit("r5apex.exe");
    reveal_strlit("gta5.exe");
    reveal_strlit("skyrim.exe");
    reveal_strlit("skyrimse.exe");
    reveal_strlit("system");
    reveal_strlit("system idle process");
    reveal_strlit("registry");
    reveal_strlit("smss.exe");
    reveal_strlit("csrss.exe");
    reveal_strlit("wininit.exe");
    reveal_strlit("services.exe");
    reveal_strlit("lsass.exe");
    reveal_strlit("winlogon.exe");
    reveal_strlit("svchost.exe");
    reveal_strlit("lsm.exe");
    reveal_strlit("explorer.exe");
    reveal_strlit("dwm.exe");
    reveal_strlit("audiodg.exe");
    reveal_strlit("spoolsv.exe");
    reveal_strlit("sched.exe");
    reveal_strlit("systemsettingsbroker.exe");
    reveal_strlit("sihost.exe");
    reveal_strlit("taskhost.exe");
    reveal_strlit("runtimebroker.exe");
    reveal_strlit("dashost.exe");
    reveal_strlit("msmpeng.exe");
    reveal_strlit("securityhealthservice.exe");
    reveal_strlit("wdffilevalidator.exe");
    reveal_strlit("endlessopt.exe");
    let games = common_game_names();
    let protected = protected_process_names();
    assert forall|i: int, q: int| 0 <= i < games.len() && 0 <= q < protected.len() implies !eq_ignore_ascii_case(
        #[trigger] protected[q],
        #[trigger] games[i],
    ) by {
        let k: int = if protected[q].len() == games[i].len() && protected[q][0] == games[i][0] {
            1
        } else {
            0
        };
        lemma_names_differ_at(protected[q], games[i], k);
    }
}

} // verus!
