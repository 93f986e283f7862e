use vstd::prelude::*;
use vstd::string::*;
use crate::config::Theme;
use vstd::utf8::is_ascii_chars;
use crate::text::{
    ascii_lowercase,
    chars_of, is_unicode_whitespace, string_views, to_lowercase_string, trim, trim_end,
    trim_start, trim_str, unicode_lowercase,
};
use crate::validation::is_piece_of;
use crate::memory::optimizer::OptimizationResult;
use crate::process::manager::OptimizeStats;
use crate::utils::cleaner::{NetworkStats, SystemCleanStats};

verus! {

/// Seconds between two monitoring updates.
pub const MONITORING_INTERVAL_SECS: u64 = 1;

/// Seconds that must pass before the process list is refreshed.
pub const PROCESS_REFRESH_INTERVAL_SECS: u64 = 5;

/// The tabs of the main window.
#[derive(Debug, Clone, Copy, PartialEq, Eq, Structural)]
pub enum Tab {
    Dashboard,
    Optimize,
    Processes,
    Settings,
}

/// What a monitoring tick does while `tab` is shown, `since_update` seconds after the last
/// update of the figures and `since_refresh` seconds after the last refresh of the process
/// list: whether the figures are updated, and whether the process list is refreshed.
pub open spec fn monitoring_plan(tab: Tab, since_update: u64, since_refresh: u64) -> (bool, bool) {
    let update = since_update >= MONITORING_INTERVAL_SECS;
    (update, update && tab == Tab::Processes && since_refresh >= PROCESS_REFRESH_INTERVAL_SECS)
}

/// Decides a monitoring tick: the figures are updated once a second has passed since their
/// last update, and on such a tick the process list is refreshed too when the Processes
/// tab is shown and five seconds have passed since its last refresh.
pub fn plan_monitoring(tab: Tab, since_update: u64, since_refresh: u64) -> (r: (bool, bool))
    ensures
        r == monitoring_plan(tab, since_update, since_refresh),
{
    let update = since_update >= MONITORING_INTERVAL_SECS;
    let refresh = update && tab == Tab::Processes && since_refresh >= PROCESS_REFRESH_INTERVAL_SECS;
    (update, refresh)
}

/// The confirmation asked before a process is killed: whether it is shown, and the
/// process (id and name) it asks about.
#[derive(Debug, Clone)]
pub struct KillConfirmation {
    pub shown: bool,
    pub target: Option<(u32, String)>,
}

/// A process to kill, its name taken by its characters.
pub open spec fn target_view(t: Option<(u32, String)>) -> Option<(u32, Seq<char>)> {
    match t {
        Some((pid, name)) => Some((pid, name@)),
        None => None,
    }
}

impl KillConfirmation {
    /// No confirmation is asked.
    pub fn closed() -> (k: KillConfirmation)
        ensures
            !k.shown,
            k.target is None,
    {
        KillConfirmation { shown: false, target: None }
    }

    /// Asks to confirm killing the process `pid` named `name`.
    pub fn request(&mut self, pid: u32, name: String)
        ensures
            final(self).shown,
            final(self).target == Some((pid, name)),
    {
        self.shown = true;
        self.target = Some((pid, name));
    }

    /// The process the confirmation asks about, when it is shown with one.
    pub fn pending(&self) -> (r: Option<(u32, String)>)
        ensures
            target_view(r) == (if self.shown { target_view(self.target) } else { None }),
    {
        if self.shown {
            match &self.target {
                Some((pid, name)) => Some((*pid, name.clone())),
                None => None,
            }
        } else {
            None
        }
    }

    /// Cancels: the confirmation closes and nothing is killed.
    pub fn cancel(&mut self)
        ensures
            !final(self).shown,
            final(self).target is None,
    {
        self.shown = false;
        self.target = None;
    }

    /// Confirms: the confirmation closes and the process it asked about, when it was shown
    /// with one, is the one to kill.
    pub fn confirm(&mut self) -> (r: Option<(u32, String)>)
        ensures
            r == (if old(self).shown { old(self).target } else { None }),
            !final(self).shown,
            final(self).target is None,
    {
        let r = if self.shown {
            self.target.take()
        } else {
            None
        };
        self.shown = false;
        self.target = None;
        r
    }
}

impl Theme {
    /// Whether the interface is dark under this theme, where `system_prefers_dark` is the
    /// system's own preference.
    pub fn uses_dark_mode(&self, system_prefers_dark: bool) -> (r: bool)
        ensures
            r == match self {
                Theme::Dark => true,
                Theme::Light => false,
                Theme::System => system_prefers_dark,
            },
    {
        match self {
            Theme::Dark => true,
            Theme::Light => false,
            Theme::System => system_prefers_dark,
        }
    }
}

/// The pieces of `s` between commas, as `str::split(',')` gives them (always at least
/// one piece).
pub open spec fn split_commas(s: Seq<char>) -> Seq<Seq<char>>
    decreases s.len(),
{
    if s.len() == 0 {
        seq![Seq::empty()]
    } else {
        let p = split_commas(s.drop_last());
        if s.last() == ',' {
            p.push(Seq::empty())
        } else {
            p.update(p.len() - 1, p.last().push(s.last()))
        }
    }
}

/// The entries of `ps` that are not empty, in order.
pub open spec fn non_empty(ps: Seq<Seq<char>>) -> Seq<Seq<char>>
    decreases ps.len(),
{
    if ps.len() == 0 {
        Seq::empty()
    } else if ps.last().len() == 0 {
        non_empty(ps.drop_last())
    } else {
        non_empty(ps.drop_last()).push(ps.last())
    }
}

/// Each entry of `ps` trimmed.
pub open spec fn trim_all(ps: Seq<Seq<char>>) -> Seq<Seq<char>> {
    ps.map_values(|p: Seq<char>| trim(p))
}

/// The names of a comma-separated list: the pieces between commas, trimmed, without the
/// empty ones.
pub open spec fn parse_list(text: Seq<char>) -> Seq<Seq<char>> {
    non_empty(trim_all(split_commas(text)))
}

proof fn lemma_split_step(s: Seq<char>, i: int)
    requires
        0 <= i < s.len(),
    ensures
        s.subrange(0, i + 1).drop_last() == s.subrange(0, i),
        s.subrange(0, i + 1).last() == s[i],
{
    assert(s.subrange(0, i + 1).drop_last() =~= s.subrange(0, i));
}

/// Splits a comma-separated list of process names, as the settings page reads it: the
/// pieces between commas, trimmed, keeping the non-empty ones.
pub fn parse_process_list(text: &str) -> (names: Vec<String>)
    ensures
        string_views(names@) == parse_list(text@),
{
    let chars = chars_of(text);
    let n = chars.len();
    let ghost s = text@;
    let mut names: Vec<String> = Vec::new();
    let mut start: usize = 0;
    let mut i: usize = 0;
    let ghost mut done: Seq<Seq<char>> = Seq::empty();
    assert(s.subrange(0, 0) =~= Seq::<char>::empty());
    assert(split_commas(s.subrange(0, 0)) =~= done.push(s.subrange(0, 0)));
    while i < n
        invariant
            chars@ == s,
            s == text@,
            n == s.len(),
            start <= i <= n,
            split_commas(s.subrange(0, i as int)) == done.push(s.subrange(start as int, i as int)),
            string_views(names@) == non_empty(trim_all(done)),
        decreases n - i,
    {
        proof {
            lemma_split_step(s, i as int);
        }
        if chars[i] == ',' {
            let piece = text.substring_char(start, i);
            let t = trim_str(piece);
            let ghost old_done = done;
            proof {
                done = done.push(s.subrange(start as int, i as int));
                assert(done.drop_last() =~= old_done);
                assert(trim_all(done).drop_last() =~= trim_all(old_done));
                assert(trim_all(done).last() == t@);
            }
            if t.as_str().unicode_len() > 0 {
                let ghost before = names@;
                names.push(t);
                assert(string_views(names@) =~= string_views(before).push(t@));
            }
            start = i + 1;
            assert(s.subrange(start as int, i + 1) =~= Seq::<char>::empty());
            assert(split_commas(s.subrange(0, i + 1)) =~= done.push(s.subrange(start as int, i + 1)));
        } else {
            assert(s.subrange(start as int, i + 1) =~= s.subrange(start as int, i as int).push(s[i as int]));
            assert(split_commas(s.subrange(0, i + 1)) =~= done.push(s.subrange(start as int, i + 1)));
        }
        i = i + 1;
    }
    let piece = text.substring_char(start, n);
    let t = trim_str(piece);
    let ghost old_done = done;
    proof {
        done = done.push(s.subrange(start as int, n as int));
        assert(done.drop_last() =~= old_done);
        assert(trim_all(done).drop_last() =~= trim_all(old_done));
        assert(trim_all(done).last() == t@);
        assert(s.subrange(0, n as int) =~= s);
    }
    if t.as_str().unicode_len() > 0 {
        let ghost before = names@;
        names.push(t);
        assert(string_views(names@) =~= string_views(before).push(t@));
    }
    names
}

/// The entries of `ps` joined with `sep` between each two.
pub open spec fn join(ps: Seq<Seq<char>>, sep: Seq<char>) -> Seq<char>
    decreases ps.len(),
{
    if ps.len() == 0 {
        Seq::empty()
    } else if ps.len() == 1 {
        ps[0]
    } else {
        join(ps.drop_last(), sep) + sep + ps.last()
    }
}

/// The strings of `list` joined with `sep` between each two (`[String]::join`).
pub fn join_strings(list: &Vec<String>, sep: &str) -> (text: String)
    ensures
        text@ == join(string_views(list@), sep@),
{
    let ghost views = string_views(list@);
    let mut text = String::new();
    let mut i: usize = 0;
    while i < list.len()
        invariant
            views == string_views(list@),
            i <= list@.len(),
            text@ == join(views.subrange(0, i as int), sep@),
        decreases list@.len() - i,
    {
        let ghost pre = views.subrange(0, i as int);
        let ghost next = views.subrange(0, i + 1);
        assert(next.drop_last() =~= pre);
        if i > 0 {
            text.append(sep);
        } else {
            assert(text@ =~= Seq::<char>::empty());
        }
        text.append(list[i].as_str());
        assert(text@ =~= join(next, sep@));
        i = i + 1;
    }
    assert(views.subrange(0, i as int) =~= views);
    text
}

/// The process names joined with `", "`, as the settings page shows them.
pub fn join_process_list(names: &Vec<String>) -> (text: String)
    ensures
        text@ == join(string_views(names@), ", "@),
{
    join_strings(names, ", ")
}

/// The report lines of a full optimization, in order: memory, processes, temporary
/// files and network, each where that step produced a result.
pub open spec fn report_lines(
    memory: Option<OptimizationResult>,
    processes: Option<OptimizeStats>,
    temp_files: Option<SystemCleanStats>,
    network: Option<NetworkStats>,
) -> Seq<Seq<char>> {
    (match memory {
        Some(m) => seq!["Memory: "@ + m.summary_text()],
        None => Seq::empty(),
    }) + (match processes {
        Some(p) => seq!["Processes: "@ + p.summary_text()],
        None => Seq::empty(),
    }) + (match temp_files {
        Some(t) => seq!["Temp Files: "@ + t.summary_text()],
        None => Seq::empty(),
    }) + (match network {
        Some(n) => seq!["Network: "@ + n.summary_text()],
        None => Seq::empty(),
    })
}

fn push_line(lines: &mut Vec<String>, label: &str, summary: String)
    ensures
        string_views(final(lines)@) == string_views(old(lines)@).push(label@ + summary@),
{
    let mut line = String::from_str(label);
    line.append(summary.as_str());
    let ghost before = lines@;
    lines.push(line);
    assert(string_views(lines@) =~= string_views(before).push(label@ + summary@));
}

/// The report of a full optimization: one line for each step that produced a result,
/// joined with line breaks.
pub fn optimization_report(
    memory: &Option<OptimizationResult>,
    processes: &Option<OptimizeStats>,
    temp_files: &Option<SystemCleanStats>,
    network: &Option<NetworkStats>,
) -> (text: String)
    ensures
        text@ == join(report_lines(*memory, *processes, *temp_files, *network), "\n"@),
{
    let mut lines: Vec<String> = Vec::new();
    let ghost l0 = string_views(lines@);
    assert(l0 =~= Seq::<Seq<char>>::empty());
    match memory {
        Some(m) => push_line(&mut lines, "Memory: ", m.summary()),
        None => {},
    }
    let ghost l1 = string_views(lines@);
    match processes {
        Some(p) => push_line(&mut lines, "Processes: ", p.summary()),
        None => {},
    }
    let ghost l2 = string_views(lines@);
    match temp_files {
        Some(t) => push_line(&mut lines, "Temp Files: ", t.summary()),
        None => {},
    }
    let ghost l3 = string_views(lines@);
    match network {
        Some(n) => push_line(&mut lines, "Network: ", n.summary()),
        None => {},
    }
    assert(string_views(lines@) =~= report_lines(*memory, *processes, *temp_files, *network));
    join_strings(&lines, "\n")
}

/// Whether `needle` occurs in `hay` (`str::contains` with a string pattern).
pub fn str_contains(hay: &str, needle: &str) -> (r: bool)
    ensures
        r == is_piece_of(needle@, hay@),
{
    let h = chars_of(hay);
    let nd = chars_of(needle);
    let hn = h.len();
    let nn = nd.len();
    if nn > hn {
        return false;
    }
    if nn == 0 {
        assert(hay@.subrange(0, 0 + needle@.len() as int) =~= needle@);
        return true;
    }
    let mut i: usize = 0;
    while i <= hn - nn
        invariant
            h@ == hay@,
            nd@ == needle@,
            hn == hay@.len(),
            nn == needle@.len(),
            0 < nn <= hn,
            i <= hn - nn + 1,
            forall|k: int| 0 <= k < i ==> #[trigger] hay@.subrange(k, k + nn) != needle@,
        decreases hn - nn + 1 - i,
    {
        let mut j: usize = 0;
        let mut same = true;
        while j < nn
            invariant
                h@ == hay@,
                nd@ == needle@,
                hn == hay@.len(),
                nn == needle@.len(),
                i + nn <= hn,
                j <= nn,
                same ==> forall|k: int| 0 <= k < j ==> hay@[i + k] == needle@[k],
                !same ==> hay@.subrange(i as int, i + nn) != needle@,
            decreases nn - j,
        {
            if h[i + j] != nd[j] {
                assert(hay@.subrange(i as int, i + nn)[j as int] != needle@[j as int]);
                same = false;
            }
            j = j + 1;
        }
        if same {
            assert(hay@.subrange(i as int, i + needle@.len()) =~= needle@);
            return true;
        }
        i = i + 1;
    }
    assert forall|k: int| 0 <= k && k + needle@.len() <= hay@.len() implies #[trigger] hay@.subrange(
        k,
        k + needle@.len(),
    ) != needle@ by {
        assert(k < i);
    }
    false
}

/// Whether a process row is shown: a filter, when there is one, must occur in the
/// lowercase name (given as `lowered_name` and `lowered_filter`, the lowercase forms),
/// and a blacklisted process is shown only when blacklisted processes are.
pub open spec fn row_visible(
    lowered_name: Seq<char>,
    filter: Seq<char>,
    lowered_filter: Seq<char>,
    is_blacklisted: bool,
    show_blacklisted: bool,
) -> bool {
    (filter.len() == 0 || is_piece_of(lowered_filter, lowered_name)) && (!is_blacklisted
        || show_blacklisted)
}

/// Whether the process list shows a process named `name`, under the filter text `filter`.
pub fn process_row_visible(
    name: &str,
    filter: &str,
    is_blacklisted: bool,
    show_blacklisted: bool,
) -> (r: bool)
    ensures
        r == row_visible(
            unicode_lowercase(name@),
            filter@,
            unicode_lowercase(filter@),
            is_blacklisted,
            show_blacklisted,
        ),
        is_ascii_chars(name@) && is_ascii_chars(filter@) ==> r == row_visible(
            ascii_lowercase(name@),
            filter@,
            ascii_lowercase(filter@),
            is_blacklisted,
            show_blacklisted,
        ),
{
    if !filter.is_empty() {
        let lowered_name = to_lowercase_string(name);
        let lowered_filter = to_lowercase_string(filter);
        if !str_contains(lowered_name.as_str(), lowered_filter.as_str()) {
            return false;
        }
    }
    !is_blacklisted || show_blacklisted
}

proof fn lemma_split_len(s: Seq<char>)
    ensures
        split_commas(s).len() >= 1,
    decreases s.len(),
{
    if s.len() > 0 {
        lemma_split_len(s.drop_last());
    }
}

proof fn lemma_split_append(x: Seq<char>, y: Seq<char>)
    requires
        !y.contains(','),
    ensures
        split_commas(x + y) == split_commas(x).update(
            split_commas(x).len() - 1,
            split_commas(x).last() + y,
        ),
    decreases y.len(),
{
    lemma_split_len(x);
    let px = split_commas(x);
    if y.len() == 0 {
        assert(x + y =~= x);
        assert(px.last() + y =~= px.last());
        assert(px.update(px.len() - 1, px.last() + y) =~= px);
    } else {
        let y2 = y.drop_last();
        assert(!y2.contains(',')) by {
            if y2.contains(',') {
                let k = choose|k: int| 0 <= k < y2.len() && y2[k] == ',';
                assert(y[k] == ',');
            }
        }
        lemma_split_append(x, y2);
        assert((x + y).drop_last() =~= x + y2);
        assert((x + y).last() == y.last());
        assert(y.last() != ',') by {
            assert(y[y.len() - 1] == y.last());
        }
        assert((px.last() + y2).push(y.last()) =~= px.last() + y);
        assert(split_commas(x + y) =~= px.update(px.len() - 1, px.last() + y));
    }
}

proof fn lemma_trim_start_shorter(s: Seq<char>)
    ensures
        trim_start(s).len() <= s.len(),
        s.len() > 0 && is_unicode_whitespace(s[0]) ==> trim_start(s).len() < s.len(),
    decreases s.len(),
{
    if s.len() > 0 && is_unicode_whitespace(s[0]) {
        lemma_trim_start_shorter(s.drop_first());
    }
}

proof fn lemma_trim_end_shorter(s: Seq<char>)
    ensures
        trim_end(s).len() <= s.len(),
    decreases s.len(),
{
    if s.len() > 0 && is_unicode_whitespace(s.last()) {
        lemma_trim_end_shorter(s.drop_last());
    }
}

proof fn lemma_trim_after_space(e: Seq<char>)
    requires
        e.len() > 0,
        trim(e) == e,
    ensures
        trim(" "@ + e) == e,
{
    reveal_strlit(" ");
    lemma_trim_start_shorter(e);
    lemma_trim_end_shorter(trim_start(e));
    assert(!is_unicode_whitespace(e[0]));
    let t = " "@ + e;
    assert(t.drop_first() =~= e);
    assert(t[0] == ' ');
    assert(trim_start(t) == trim_start(e));
    assert(trim_start(e) == e);
}

/// A list of names written with `join_process_list` reads back as the same list with
/// `parse_process_list`, provided each name is non-empty, has no surrounding white
/// space and holds no comma.
pub proof fn lemma_process_list_round_trip(names: Seq<Seq<char>>)
    requires
        forall|i: int|
            0 <= i < names.len() ==> (#[trigger] names[i]).len() > 0 && trim(names[i]) == names[i]
                && !names[i].contains(','),
    ensures
        parse_list(join(names, ", "@)) == names,
    decreases names.len(),
{
    reveal_strlit(", ");
    reveal_strlit(" ");
    reveal_strlit(",");
    if names.len() == 0 {
        assert(split_commas(join(names, ", "@)) =~= seq![Seq::<char>::empty()]);
        assert(trim_all(seq![Seq::<char>::empty()]) =~= seq![trim(Seq::<char>::empty())]);
        assert(trim(Seq::<char>::empty()) =~= Seq::<char>::empty());
        let ps = trim_all(seq![Seq::<char>::empty()]);
        assert(ps.last().len() == 0);
        assert(ps.drop_last() =~= Seq::<Seq<char>>::empty());
        assert(non_empty(ps) == non_empty(ps.drop_last()));
        assert(non_empty(Seq::<Seq<char>>::empty()) == Seq::<Seq<char>>::empty());
        assert(non_empty(ps) =~= names);
    } else if names.len() == 1 {
        let e = names[0];
        assert(!e.contains(','));
        lemma_split_append(Seq::empty(), e);
        assert(Seq::<char>::empty() + e =~= e);
        assert(split_commas(Seq::<char>::empty()) =~= seq![Seq::<char>::empty()]);
        assert(split_commas(e) =~= seq![e]);
        assert(join(names, ", "@) == e);
        let ps = trim_all(seq![e]);
        assert(ps =~= seq![e]);
        assert(ps.last().len() > 0);
        assert(ps.drop_last() =~= Seq::<Seq<char>>::empty());
        assert(non_empty(ps) == non_empty(ps.drop_last()).push(e));
        assert(non_empty(Seq::<Seq<char>>::empty()) == Seq::<Seq<char>>::empty());
        assert(non_empty(ps) =~= names);
    } else {
        let rest = names.drop_last();
        let e = names.last();
        assert forall|i: int| 0 <= i < rest.len() implies (#[trigger] rest[i]).len() > 0 && trim(
            rest[i],
        ) == rest[i] && !rest[i].contains(',') by {
            assert(rest[i] == names[i]);
        }
        lemma_process_list_round_trip(rest);
        assert(e == names[names.len() - 1]);
        let head = join(rest, ", "@);
        let tail = " "@ + e;
        assert(join(names, ", "@) =~= (head + ","@) + tail);
        assert(!tail.contains(',')) by {
            if tail.contains(',') {
                let k = choose|k: int| 0 <= k < tail.len() && tail[k] == ',';
                assert(k > 0);
                assert(e[k - 1] == ',');
            }
        }
        lemma_split_append(head + ","@, tail);
        assert((head + ","@).drop_last() =~= head);
        assert((head + ","@).last() == ',');
        let ph = split_commas(head);
        assert(split_commas(head + ","@) == ph.push(Seq::empty()));
        assert(Seq::<char>::empty() + tail =~= tail);
        assert(split_commas(join(names, ", "@)) =~= ph.push(tail));
        lemma_trim_after_space(e);
        assert(trim_all(ph.push(tail)) =~= trim_all(ph).push(e));
        assert(trim_all(ph).push(e).drop_last() =~= trim_all(ph));
        assert(non_empty(trim_all(ph).push(e)) == non_empty(trim_all(ph)).push(e));
        assert(non_empty(trim_all(ph)).push(e) =~= names);
    }
}


/// With a non-empty filter, a row is shown only if the lowercase filter occurs in the
/// lowercase name, whether blacklisted rows are shown or not; a blacklisted row is shown
/// only when blacklisted rows are; with no filter, a row that is not hidden as
/// blacklisted is shown.
pub proof fn lemma_row_visibility(
    lowered_name: Seq<char>,
    filter: Seq<char>,
    lowered_filter: Seq<char>,
    is_blacklisted: bool,
    show_blacklisted: bool,
)
    ensures
        filter.len() > 0 && row_visible(
            lowered_name,
            filter,
            lowered_filter,
            is_blacklisted,
            show_blacklisted,
        ) ==> exists|i: int|
            0 <= i && i + lowered_filter.len() <= lowered_name.len() && #[trigger] lowered_name.subrange(
                i,
                i + lowered_filter.len(),
            ) == lowered_filter,
        row_visible(lowered_name, filter, lowered_filter, is_blacklisted, show_blacklisted) ==> (
        !is_blacklisted || show_blacklisted),
        filter.len() == 0 && (!is_blacklisted || show_blacklisted) ==> row_visible(
            lowered_name,
            filter,
            lowered_filter,
            is_blacklisted,
            show_blacklisted,
        ),
{
}

} // verus!
