use vstd::prelude::*;
use vstd::string::*;
use crate::common::PriorityClass;
use crate::process::gamemode::common_game_names;
use crate::text::{
    eq_ignore_ascii_case, lemma_names_differ_at, list_contains_ignore_case, matches_any,
    string_views,
};
use crate::validation::{
    config_check, first_name_error, first_overlap, lemma_plain_name_is_valid, process_name_check,
};

verus! {

/// Color themes of the user interface.
#[derive(Debug, Clone, Copy, PartialEq, Eq, Structural)]
pub enum Theme {
    Light,
    Dark,
    System,
}

/// The optimizer's settings.
#[derive(Debug, Clone)]
pub struct Config {
    pub auto_optimize: bool,
    pub auto_interval: u64,
    pub auto_game_mode: bool,
    pub game_priority: PriorityClass,
    pub bg_priority: PriorityClass,
    pub mem_clean: bool,
    pub net_optimize: bool,
    pub game_processes: Vec<String>,
    pub blacklisted_processes: Vec<String>,
    pub theme: Theme,
}

/// The game processes of the default configuration.
pub open spec fn default_game_names() -> Seq<Seq<char>> {
    seq!["minecraft.exe"@, "steam.exe"@, "javaw.exe"@]
}

/// The blacklisted processes of the default configuration.
pub open spec fn default_blacklisted_names() -> Seq<Seq<char>> {
    seq!["system"@, "svchost.exe"@, "explorer.exe"@]
}

impl Default for Config {
    fn default() -> (c: Config)
        ensures
            !c.auto_optimize,
            c.auto_interval == 30,
            !c.auto_game_mode,
            c.game_priority == PriorityClass::High,
            c.bg_priority == PriorityClass::BelowNormal,
            c.mem_clean,
            c.net_optimize,
            string_views(c.game_processes@) == default_game_names(),
            string_views(c.blacklisted_processes@) == default_blacklisted_names(),
            c.theme == Theme::Dark,
    {
        let game_processes = vec![
            String::from_str("minecraft.exe"),
            String::from_str("steam.exe"),
            String::from_str("javaw.exe"),
        ];
        let blacklisted_processes = vec![
            String::from_str("system"),
            String::from_str("svchost.exe"),
            String::from_str("explorer.exe"),
        ];
        assert(string_views(game_processes@) =~= default_game_names());
        assert(string_views(blacklisted_processes@) =~= default_blacklisted_names());
        Config {
            auto_optimize: false,
            auto_interval: 30,
            auto_game_mode: false,
            game_priority: PriorityClass::High,
            bg_priority: PriorityClass::BelowNormal,
            mem_clean: true,
            net_optimize: true,
            game_processes,
            blacklisted_processes,
            theme: Theme::Dark,
        }
    }
}

impl Config {
    /// Whether `name` is, up to ASCII case, a blacklisted process.
    pub fn is_process_blacklisted(&self, name: &str) -> (r: bool)
        ensures
            r == matches_any(string_views(self.blacklisted_processes@), name@),
    {
        list_contains_ignore_case(&self.blacklisted_processes, name)
    }

    /// Whether a full optimization ends with the network cleanup (the DNS cache flush).
    pub fn network_cleanup_due(&self) -> (r: bool)
        ensures
            r == self.net_optimize,
    {
        self.net_optimize
    }

    /// Whether `name` is, up to ASCII case, a game process.
    pub fn is_game_process(&self, name: &str) -> (r: bool)
        ensures
            r == matches_any(string_views(self.game_processes@), name@),
    {
        list_contains_ignore_case(&self.game_processes, name)
    }
}

proof fn lemma_all_names_valid(names: Seq<Seq<char>>)
    requires
        forall|i: int| 0 <= i < names.len() ==> process_name_check(#[trigger] names[i]) is Ok,
    ensures
        first_name_error(names) is None,
    decreases names.len(),
{
    if names.len() > 0 {
        assert(process_name_check(names[0]) is Ok);
        let rest = names.drop_first();
        assert forall|i: int| 0 <= i < rest.len() implies process_name_check(
            #[trigger] rest[i],
        ) is Ok by {
            assert(rest[i] == names[i + 1]);
        }
        lemma_all_names_valid(rest);
    }
}

proof fn lemma_no_overlap(games: Seq<Seq<char>>, blacklist: Seq<Seq<char>>)
    requires
        forall|i: int| 0 <= i < games.len() ==> !matches_any(blacklist, #[trigger] games[i]),
    ensures
        first_overlap(games, blacklist) is None,
    decreases games.len(),
{
    if games.len() > 0 {
        assert(!matches_any(blacklist, games[0]));
        let rest = games.drop_first();
        assert forall|i: int| 0 <= i < rest.len() implies !matches_any(
            blacklist,
            #[trigger] rest[i],
        ) by {
            assert(rest[i] == games[i + 1]);
        }
        lemma_no_overlap(rest, blacklist);
    }
}

/// The default configuration passes `validate_config`: its names are valid process
/// names, its interval lies between 1 and 1440 minutes, and no game is blacklisted.
pub proof fn lemma_default_config_is_valid()
    ensures
        config_check(default_game_names(), default_blacklisted_names(), 30) is Ok,
{
    reveal_strlit("minecraft.exe");
    reveal_strlit("steam.exe");
    reveal_strlit("javaw.exe");
    reveal_strlit("system");
    reveal_strlit("svchost.exe");
    reveal_strlit("explorer.exe");
    let games = default_game_names();
    let black = default_blacklisted_names();
    assert forall|i: int| 0 <= i < games.len() implies process_name_check(#[trigger] games[i]) is Ok by {
        lemma_plain_name_is_valid(games[i]);
    }
    assert forall|i: int| 0 <= i < black.len() implies process_name_check(#[trigger] black[i]) is Ok by {
        lemma_plain_name_is_valid(black[i]);
    }
    lemma_all_names_valid(games);
    lemma_all_names_valid(black);
    assert forall|k: int| 0 <= k < games.len() implies !matches_any(black, #[trigger] games[k]) by {
        assert forall|i: int| 0 <= i < black.len() implies !eq_ignore_ascii_case(
            #[trigger] black[i],
            games[k],
        ) by {
            lemma_names_differ_at(black[i], games[k], 0);
        }
    }
    lemma_no_overlap(games, black);
}

/// Every game of the default configuration is one of the common games that
/// `detect_common_games` lists.
pub proof fn lemma_default_games_are_common_games()
    ensures
        forall|i: int|
            0 <= i < default_game_names().len() ==> common_game_names().contains(
                #[trigger] default_game_names()[i],
            ),
{
    let c = common_game_names();
    assert(c[0] == "minecraft.exe"@);
    assert(c[3] == "steam.exe"@);
    assert(c[2] == "javaw.exe"@);
}


/// The components of the configuration file's path, joined in order: under the user
/// profile where one is set, else under the home directory, the file
/// `.endlessopt/config.json`; with neither, `config.json` in the working directory.
pub open spec fn config_path_parts_of(user_profile: Option<Seq<char>>, home: Option<Seq<char>>) -> Seq<
    Seq<char>,
> {
    match (if user_profile is Some { user_profile } else { home }) {
        Some(base) => seq![base, ".endlessopt"@, "config.json"@],
        None => seq!["config.json"@],
    }
}

/// The components of the configuration file's path, given the values of the user
/// profile and home variables (`None` where unset).
pub fn config_path_parts(user_profile: Option<String>, home: Option<String>) -> (r: Vec<String>)
    ensures
        string_views(r@) == config_path_parts_of(
            match user_profile {
                Some(p) => Some(p@),
                None => None,
            },
            match home {
                Some(h) => Some(h@),
                None => None,
            },
        ),
{
    let base = match user_profile {
        Some(p) => Some(p),
        None => home,
    };
    match base {
        Some(b) => {
            let r = vec![b, String::from_str(".endlessopt"), String::from_str("config.json")];
            assert(string_views(r@) =~= seq![r@[0]@, ".endlessopt"@, "config.json"@]);
            r
        },
        None => {
            let r = vec![String::from_str("config.json")];
            assert(string_views(r@) =~= seq!["config.json"@]);
            r
        },
    }
}

} // verus!
