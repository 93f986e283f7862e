use vstd::prelude::*;
use vstd::string::*;
use crate::common::{EndlessOptError, ErrorView, result_view};
use crate::text::{
    chars_of, concat_str, decimal, decimal_string, ends_with, list_contains_ignore_case,
    matches_any, str_ends_with, str_views, string_views, to_lowercase_string, trim, trim_str,
    unicode_lowercase, contains_char, is_unicode_whitespace, trim_end, trim_start,
    ascii_lowercase, lemma_trim_shape,
};
use vstd::utf8::is_ascii_chars;

verus! {

/// Characters that a process or file name may not hold.
pub open spec fn is_invalid_name_char(c: char) -> bool {
    c == '<' || c == '>' || c == ':' || c == '"' || c == '|' || c == '?' || c == '*'
}

/// Whether `s` holds a character that a name may not hold.
pub open spec fn has_invalid_char(s: Seq<char>) -> bool {
    exists|i: int| 0 <= i < s.len() && is_invalid_name_char(#[trigger] s[i])
}

/// The longest process name accepted, in characters (Windows `MAX_PATH`).
pub const MAX_PROCESS_NAME_CHARS: usize = 260;

/// The outcome of validating a process name: the first rule that the name breaks,
/// or `Ok`.
pub open spec fn process_name_check(name: Seq<char>) -> Result<(), ErrorView> {
    if trim(name).len() == 0 {
        Err(ErrorView::InvalidInput("Process name cannot be empty"@))
    } else if name.len() > 260 {
        Err(
            ErrorView::InvalidInput(
                "Process name too long: "@ + decimal(name.len())
                    + " characters (max 260)"@,
            ),
        )
    } else if name.contains('/') || name.contains('\\') {
        Err(ErrorView::InvalidInput("Process name cannot contain path separators"@))
    } else if has_invalid_char(name) {
        Err(ErrorView::InvalidInput("Process name contains invalid characters: "@ + name))
    } else {
        Ok(())
    }
}

/// Whether `s` holds a character that a name may not hold.
fn contains_invalid_char(s: &str) -> (r: bool)
    ensures
        r == has_invalid_char(s@),
{
    let chars = chars_of(s);
    let mut i: usize = 0;
    while i < chars.len()
        invariant
            chars@ == s@,
            i <= chars@.len(),
            forall|k: int| 0 <= k < i ==> !is_invalid_name_char(#[trigger] s@[k]),
        decreases chars@.len() - i,
    {
        let c = chars[i];
        if c == '<' || c == '>' || c == ':' || c == '"' || c == '|' || c == '?' || c == '*' {
            assert(is_invalid_name_char(s@[i as int]));
            return true;
        }
        i = i + 1;
    }
    false
}

fn invalid_input(msg: String) -> (e: EndlessOptError)
    ensures
        e@ == ErrorView::InvalidInput(msg@),
{
    EndlessOptError::InvalidInput(msg)
}

/// Validates a process name: it must not be blank, must be at most 260 characters long,
/// must hold no path separator and none of `<>:"|?*`.
pub fn validate_process_name(name: &str) -> (r: Result<(), EndlessOptError>)
    ensures
        result_view(r) == process_name_check(name@),
{
    let trimmed = trim_str(name);
    if trimmed.as_str().is_empty() {
        return Err(invalid_input(String::from_str("Process name cannot be empty")));
    }
    let len = name.unicode_len();
    if len > MAX_PROCESS_NAME_CHARS {
        let mut msg = String::from_str("Process name too long: ");
        let digits = decimal_string(len as u64);
        msg.append(digits.as_str());
        msg.append(" characters (max 260)");
        return Err(invalid_input(msg));
    }
    if contains_char(name, '/') || contains_char(name, '\\') {
        return Err(invalid_input(String::from_str("Process name cannot contain path separators")));
    }
    if contains_invalid_char(name) {
        let msg = concat_str(String::from_str("Process name contains invalid characters: "), name);
        return Err(invalid_input(msg));
    }
    Ok(())
}

/// Whether `piece` occurs in `s` as a contiguous run of characters.
pub open spec fn is_piece_of(piece: Seq<char>, s: Seq<char>) -> bool {
    exists|i: int|
        0 <= i && i + piece.len() <= s.len() && #[trigger] s.subrange(i, i + piece.len()) == piece
}

/// Whether `s` is a path of one plain component on every platform: not empty, holding no
/// `/`, `\\` or `:` (so no separator, root or Windows prefix), and neither `.` nor `..`.
pub open spec fn is_single_component(s: Seq<char>) -> bool {
    &&& s.len() > 0
    &&& !s.contains('/')
    &&& !s.contains('\\')
    &&& !s.contains(':')
    &&& s != seq!['.']
    &&& s != seq!['.', '.']
}

/// Calls `Path::new(path).file_name()` and converts the name to a `String`. The file
/// name is the final component of the path, where there is one; which component that is
/// depends on the platform's path syntax (on Windows a verbatim path such as
/// `\\?\C:\dir\a/b.txt` does not split at `/`). The contract claims that a name
/// returned is a run of the characters of `path`, and that a path of one plain component
/// is its own file name; for other paths, which run it is, and when there is none, is not
/// stated.
#[verifier::external_body]
fn path_file_name(path: &str) -> (r: Option<String>)
    ensures
        r matches Some(n) ==> is_piece_of(n@, path@),
        is_single_component(path@) ==> opt_string_view(r) == Some(path@),
{
    match std::path::Path::new(path).file_name() {
        Some(n) => match n.to_str() {
            Some(t) => Some(t.to_string()),
            None => None,
        },
        None => None,
    }
}

/// The outcome of checking the file name of a path, given that file name.
pub open spec fn file_name_check(file_name: Option<Seq<char>>) -> Result<(), ErrorView> {
    match file_name {
        Some(n) => if has_invalid_char(n) {
            Err(ErrorView::InvalidInput("Path contains invalid characters: "@ + n))
        } else {
            Ok(())
        },
        None => Ok(()),
    }
}

/// The characters of an optional string.
pub open spec fn opt_string_view(s: Option<String>) -> Option<Seq<char>> {
    match s {
        Some(t) => Some(t@),
        None => None,
    }
}

/// Checks the file name of a path, given that file name (`None` where the path has
/// none): it must hold none of `<>:"|?*`.
pub fn validate_file_name(file_name: &Option<String>) -> (r: Result<(), EndlessOptError>)
    ensures
        result_view(r) == file_name_check(opt_string_view(*file_name)),
{
    match file_name {
        Some(n) => {
            if contains_invalid_char(n.as_str()) {
                let msg = concat_str(
                    String::from_str("Path contains invalid characters: "),
                    n.as_str(),
                );
                Err(invalid_input(msg))
            } else {
                Ok(())
            }
        },
        None => Ok(()),
    }
}

proof fn lemma_piece_has_no_invalid_char(piece: Seq<char>, s: Seq<char>)
    requires
        is_piece_of(piece, s),
        has_invalid_char(piece),
    ensures
        has_invalid_char(s),
{
    let i = choose|i: int|
        0 <= i && i + piece.len() <= s.len() && #[trigger] s.subrange(i, i + piece.len())
            == piece;
    let k = choose|k: int| 0 <= k < piece.len() && is_invalid_name_char(#[trigger] piece[k]);
    assert(s.subrange(i, i + piece.len())[k] == s[i + k]);
    assert(is_invalid_name_char(s[i + k]));
}

/// Validates a file path: it must not be blank, and its file name, where the platform's
/// path syntax finds one, must hold none of `<>:"|?*`. A path of one plain component is
/// its own file name.
pub fn validate_file_path(path: &str) -> (r: Result<(), EndlessOptError>)
    ensures
        trim(path@).len() == 0 ==> result_view(r) == Err::<(), ErrorView>(
            ErrorView::InvalidInput("File path cannot be empty"@),
        ),
        trim(path@).len() != 0 && !has_invalid_char(path@) ==> r is Ok,
        trim(path@).len() != 0 && is_single_component(path@) ==> result_view(r) == file_name_check(
            Some(path@),
        ),
        trim(path@).len() != 0 && r is Err ==> exists|n: Seq<char>|
            #![trigger is_piece_of(n, path@)]
            is_piece_of(n, path@) && has_invalid_char(n) && result_view(r) == Err::<(), ErrorView>(
                ErrorView::InvalidInput("Path contains invalid characters: "@ + n),
            ),
{
    let trimmed = trim_str(path);
    if trimmed.as_str().is_empty() {
        return Err(invalid_input(String::from_str("File path cannot be empty")));
    }
    let file_name = path_file_name(path);
    let r = validate_file_name(&file_name);
    proof {
        match file_name {
            Some(n) => {
                if has_invalid_char(n@) {
                    lemma_piece_has_no_invalid_char(n@, path@);
                }
            },
            None => {},
        }
    }
    r
}

/// The largest process id accepted.
pub const MAX_PID: u32 = 10_000_000;

/// The outcome of validating a process id.
pub open spec fn pid_check(pid: u32) -> Result<(), ErrorView> {
    if pid == 0 {
        Err(ErrorView::InvalidInput("PID cannot be 0 (System Idle Process)"@))
    } else if pid > 10_000_000 {
        Err(
            ErrorView::InvalidInput(
                "PID "@ + decimal(pid as nat) + " is unreasonably large (max ~10,000,000)"@,
            ),
        )
    } else {
        Ok(())
    }
}

/// Validates a process id: it must lie in `1..=10_000_000`.
pub fn validate_pid(pid: u32) -> (r: Result<(), EndlessOptError>)
    ensures
        result_view(r) == pid_check(pid),
        r is Ok <==> 1 <= pid <= 10_000_000,
{
    if pid == 0 {
        return Err(invalid_input(String::from_str("PID cannot be 0 (System Idle Process)")));
    }
    if pid > MAX_PID {
        let mut msg = String::from_str("PID ");
        let digits = decimal_string(pid as u64);
        msg.append(digits.as_str());
        msg.append(" is unreasonably large (max ~10,000,000)");
        return Err(invalid_input(msg));
    }
    Ok(())
}

/// The error of the first name in `names` that `process_name_check` refuses.
pub open spec fn first_name_error(names: Seq<Seq<char>>) -> Option<ErrorView>
    decreases names.len(),
{
    if names.len() == 0 {
        None
    } else {
        match process_name_check(names[0]) {
            Err(e) => Some(e),
            Ok(_) => first_name_error(names.drop_first()),
        }
    }
}

/// The first name of `games` that also stands, up to ASCII case, in `blacklist`.
pub open spec fn first_overlap(games: Seq<Seq<char>>, blacklist: Seq<Seq<char>>) -> Option<
    Seq<char>,
>
    decreases games.len(),
{
    if games.len() == 0 {
        None
    } else if matches_any(blacklist, games[0]) {
        Some(games[0])
    } else {
        first_overlap(games.drop_first(), blacklist)
    }
}

/// The outcome of validating a configuration: game names first, then blacklisted
/// names, then the interval (in minutes), then that no game is blacklisted.
pub open spec fn config_check(
    games: Seq<Seq<char>>,
    blacklist: Seq<Seq<char>>,
    auto_interval: u64,
) -> Result<(), ErrorView> {
    if first_name_error(games) is Some {
        Err(first_name_error(games)->0)
    } else if first_name_error(blacklist) is Some {
        Err(first_name_error(blacklist)->0)
    } else if auto_interval < 1 {
        Err(ErrorView::InvalidInput("Auto-optimization interval must be at least 1 minute"@))
    } else if auto_interval > 1440 {
        Err(
            ErrorView::InvalidInput(
                "Auto-optimization interval cannot exceed 1440 minutes (24 hours)"@,
            ),
        )
    } else if first_overlap(games, blacklist) is Some {
        Err(
            ErrorView::InvalidInput(
                "Process "@ + first_overlap(games, blacklist)->0
                    + " cannot be both a game and blacklisted"@,
            ),
        )
    } else {
        Ok(())
    }
}

fn validate_names(names: &[String]) -> (r: Result<(), EndlessOptError>)
    ensures
        match first_name_error(string_views(names@)) {
            Some(e) => result_view(r) == Err::<(), ErrorView>(e),
            None => r is Ok,
        },
{
    let ghost views = string_views(names@);
    let mut i: usize = 0;
    assert(views.subrange(0, views.len() as int) =~= views);
    while i < names.len()
        invariant
            views == string_views(names@),
            i <= names@.len(),
            first_name_error(views) == first_name_error(views.subrange(i as int, views.len() as int)),
        decreases names@.len() - i,
    {
        let ghost rest = views.subrange(i as int, views.len() as int);
        assert(rest[0] == names@[i as int]@);
        let r = validate_process_name(names[i].as_str());
        match r {
            Err(e) => {
                return Err(e);
            },
            Ok(_) => {},
        }
        assert(rest.drop_first() =~= views.subrange(i + 1, views.len() as int));
        i = i + 1;
    }
    assert(views.subrange(i as int, views.len() as int) =~= Seq::<Seq<char>>::empty());
    Ok(())
}

fn find_overlap(games: &[String], blacklist: &[String]) -> (r: Option<usize>)
    ensures
        match first_overlap(string_views(games@), string_views(blacklist@)) {
            Some(g) => r matches Some(i) && i < games@.len() && games@[i as int]@ == g,
            None => r is None,
        },
{
    let ghost gv = string_views(games@);
    let ghost bv = string_views(blacklist@);
    let list = slice_to_vec_of_strings(blacklist);
    let mut i: usize = 0;
    assert(gv.subrange(0, gv.len() as int) =~= gv);
    while i < games.len()
        invariant
            gv == string_views(games@),
            bv == string_views(blacklist@),
            string_views(list@) == bv,
            i <= games@.len(),
            first_overlap(gv, bv) == first_overlap(gv.subrange(i as int, gv.len() as int), bv),
        decreases games@.len() - i,
    {
        let ghost rest = gv.subrange(i as int, gv.len() as int);
        assert(rest[0] == games@[i as int]@);
        if list_contains_ignore_case(&list, games[i].as_str()) {
            return Some(i);
        }
        assert(rest.drop_first() =~= gv.subrange(i + 1, gv.len() as int));
        i = i + 1;
    }
    assert(gv.subrange(i as int, gv.len() as int) =~= Seq::<Seq<char>>::empty());
    None
}

fn slice_to_vec_of_strings(s: &[String]) -> (v: Vec<String>)
    ensures
        string_views(v@) == string_views(s@),
{
    let mut v: Vec<String> = Vec::new();
    let mut i: usize = 0;
    while i < s.len()
        invariant
            i <= s@.len(),
            v@.len() == i,
            string_views(v@) == string_views(s@).subrange(0, i as int),
        decreases s@.len() - i,
    {
        let ghost old_v = v@;
        let item = s[i].clone();
        assert(item@ == s@[i as int]@);
        v.push(item);
        assert(v@ == old_v.push(item));
        i = i + 1;
        assert forall|k: int| 0 <= k < i implies #[trigger] string_views(v@)[k] == string_views(
            s@,
        )[k] by {
            if k < i - 1 {
                assert(string_views(old_v)[k] == string_views(s@).subrange(0, i - 1)[k]);
            }
        }
        assert(string_views(v@) =~= string_views(s@).subrange(0, i as int));
    }
    assert(string_views(s@).subrange(0, i as int) =~= string_views(s@));
    v
}

/// Validates configuration values: every game and blacklisted process name, the
/// auto-optimization interval (1 to 1440 minutes), and that no process is both a game
/// and blacklisted (compared up to ASCII case).
pub fn validate_config(
    game_processes: &[String],
    blacklisted_processes: &[String],
    auto_interval: u64,
) -> (r: Result<(), EndlessOptError>)
    ensures
        result_view(r) == config_check(
            string_views(game_processes@),
            string_views(blacklisted_processes@),
            auto_interval,
        ),
{
    match validate_names(game_processes) {
        Err(e) => {
            return Err(e);
        },
        Ok(_) => {},
    }
    match validate_names(blacklisted_processes) {
        Err(e) => {
            return Err(e);
        },
        Ok(_) => {},
    }
    if auto_interval < 1 {
        return Err(
            invalid_input(String::from_str("Auto-optimization interval must be at least 1 minute")),
        );
    }
    if auto_interval > 1440 {
        return Err(
            invalid_input(
                String::from_str("Auto-optimization interval cannot exceed 1440 minutes (24 hours)"),
            ),
        );
    }
    match find_overlap(game_processes, blacklisted_processes) {
        Some(i) => {
            let mut msg = String::from_str("Process ");
            msg.append(game_processes[i].as_str());
            msg.append(" cannot be both a game and blacklisted");
            Err(invalid_input(msg))
        },
        None => Ok(()),
    }
}

/// Removes leading and trailing white space and lowercases, for comparison.
pub fn sanitize_process_name(name: &str) -> (r: String)
    ensures
        r@ == unicode_lowercase(trim(name@)),
        is_ascii_chars(name@) ==> r@ == ascii_lowercase(trim(name@)),
{
    proof {
        lemma_trim_ascii(name@);
    }
    let trimmed = trim_str(name);
    to_lowercase_string(trimmed.as_str())
}

/// The extensions that mark an executable name.
pub open spec fn executable_extensions() -> Seq<Seq<char>> {
    seq![
        ".exe"@,
        ".com"@,
        ".bat"@,
        ".cmd"@,
        ".scr"@,
        ".msi"@,
        ".app"@,
        ".appx"@,
    ]
}

/// Whether `s` ends with one of the executable extensions.
pub open spec fn has_executable_extension(s: Seq<char>) -> bool {
    exists|i: int|
        0 <= i < executable_extensions().len() && ends_with(s, #[trigger] executable_extensions()[i])
}

/// Whether `lowered` ends with an executable extension.
fn ends_with_executable_extension(lowered: &str) -> (r: bool)
    ensures
        r == has_executable_extension(lowered@),
{
    let exts: [&str; 8] = [".exe", ".com", ".bat", ".cmd", ".scr", ".msi", ".app", ".appx"];
    assert(str_views(exts@) =~= executable_extensions());
    let mut i: usize = 0;
    while i < 8
        invariant
            str_views(exts@) == executable_extensions(),
            i <= 8,
            forall|k: int| 0 <= k < i ==> !ends_with(lowered@, #[trigger] executable_extensions()[k]),
        decreases 8 - i,
    {
        assert(exts@[i as int]@ == executable_extensions()[i as int]);
        if str_ends_with(lowered, exts[i]) {
            return true;
        }
        i = i + 1;
    }
    false
}

/// Whether `name` is a valid executable name, given `lowered`, its lowercase form: it
/// ends with an executable extension and passes `validate_process_name`.
pub fn executable_name_check(name: &str, lowered: &str) -> (r: bool)
    ensures
        r == (has_executable_extension(lowered@) && process_name_check(name@) is Ok),
{
    if !ends_with_executable_extension(lowered) {
        return false;
    }
    match validate_process_name(name) {
        Ok(_) => true,
        Err(_) => false,
    }
}

/// Whether `name` looks like a Windows executable name: its lowercase form ends with
/// `.exe`, `.com`, `.bat`, `.cmd`, `.scr`, `.msi`, `.app` or `.appx`, and it passes
/// `validate_process_name`.
pub fn is_valid_executable_name(name: &str) -> (r: bool)
    ensures
        r == (has_executable_extension(unicode_lowercase(name@)) && process_name_check(name@) is Ok),
        is_ascii_chars(name@) ==> r == (has_executable_extension(ascii_lowercase(name@))
            && process_name_check(name@) is Ok),
        r ==> process_name_check(name@) is Ok,
{
    let lowered = to_lowercase_string(name);
    executable_name_check(name, lowered.as_str())
}

proof fn lemma_no_name_error(names: Seq<Seq<char>>, i: int)
    requires
        first_name_error(names) is None,
        0 <= i < names.len(),
    ensures
        process_name_check(names[i]) is Ok,
    decreases names.len(),
{
    if i > 0 {
        assert(names.drop_first()[i - 1] == names[i]);
        lemma_no_name_error(names.drop_first(), i - 1);
    }
}

proof fn lemma_no_overlap_found(games: Seq<Seq<char>>, blacklist: Seq<Seq<char>>, i: int)
    requires
        first_overlap(games, blacklist) is None,
        0 <= i < games.len(),
    ensures
        !matches_any(blacklist, games[i]),
    decreases games.len(),
{
    if i > 0 {
        assert(games.drop_first()[i - 1] == games[i]);
        lemma_no_overlap_found(games.drop_first(), blacklist, i - 1);
    }
}

/// A configuration that `validate_config` accepts has only valid process names, an
/// interval between 1 and 1440 minutes, and no game that is also blacklisted.
pub proof fn lemma_accepted_config_is_sound(
    games: Seq<Seq<char>>,
    blacklist: Seq<Seq<char>>,
    auto_interval: u64,
)
    requires
        config_check(games, blacklist, auto_interval) is Ok,
    ensures
        forall|i: int| 0 <= i < games.len() ==> process_name_check(#[trigger] games[i]) is Ok,
        forall|i: int|
            0 <= i < blacklist.len() ==> process_name_check(#[trigger] blacklist[i]) is Ok,
        1 <= auto_interval <= 1440,
        forall|i: int| 0 <= i < games.len() ==> !matches_any(blacklist, #[trigger] games[i]),
{
    assert forall|i: int| 0 <= i < games.len() implies process_name_check(
        #[trigger] games[i],
    ) is Ok by {
        lemma_no_name_error(games, i);
    }
    assert forall|i: int| 0 <= i < blacklist.len() implies process_name_check(
        #[trigger] blacklist[i],
    ) is Ok by {
        lemma_no_name_error(blacklist, i);
    }
    assert forall|i: int| 0 <= i < games.len() implies !matches_any(
        blacklist,
        #[trigger] games[i],
    ) by {
        lemma_no_overlap_found(games, blacklist, i);
    }
}


/// Whether `c` is a lowercase ASCII letter, a digit, a dot or a space.
pub open spec fn is_plain_name_char(c: char) -> bool {
    ('a' <= c <= 'z') || ('0' <= c <= '9') || c == '.' || c == ' '
}

/// A name of at most 260 lowercase ASCII letters, digits, dots and spaces, that neither
/// starts nor ends with a space, is a valid process name.
pub proof fn lemma_plain_name_is_valid(s: Seq<char>)
    requires
        0 < s.len() <= 260,
        !is_unicode_whitespace(s[0]),
        !is_unicode_whitespace(s.last()),
        forall|i: int| 0 <= i < s.len() ==> is_plain_name_char(#[trigger] s[i]),
    ensures
        process_name_check(s) is Ok,
{
    assert(trim_start(s) == s);
    assert(trim_end(s) == s);
    assert(!s.contains('/'));
    assert(!s.contains('\\'));
    assert(!has_invalid_char(s));
}


proof fn lemma_trim_ascii(s: Seq<char>)
    ensures
        is_ascii_chars(s) ==> is_ascii_chars(trim(s)),
{
    lemma_trim_shape(s);
    let t = trim(s);
    let i = choose|i: int|
        0 <= i && i + t.len() <= s.len() && #[trigger] s.subrange(i, i + t.len()) == t;
    if is_ascii_chars(s) {
        assert forall|k: int| 0 <= k < t.len() implies '\0' <= #[trigger] t[k] <= '\u{7f}' by {
            assert(t[k] == s[i + k]);
        }
    }
}


/// A process name that is not blank, has at most 260 characters and holds none of
/// `/`, `\\`, `<`, `>`, `:`, `"`, `|`, `?`, `*` is accepted; a refused name is blank, longer
/// than 260 characters, or holds one of those characters. No other character (a hyphen,
/// a digit, a letter of any script) makes a name invalid.
pub proof fn lemma_process_name_acceptance(name: Seq<char>)
    ensures
        trim(name).len() != 0 && name.len() <= 260 && (forall|i: int|
            0 <= i < name.len() ==> {
                let c = #[trigger] name[i];
                c != '/' && c != '\\' && c != '<' && c != '>' && c != ':' && c != '"' && c != '|'
                    && c != '?' && c != '*'
            }) ==> process_name_check(name) is Ok,
        process_name_check(name) is Err ==> trim(name).len() == 0 || name.len() > 260 || exists|
            i: int,
        |
            0 <= i < name.len() && {
                let c = #[trigger] name[i];
                c == '/' || c == '\\' || c == '<' || c == '>' || c == ':' || c == '"' || c == '|'
                    || c == '?' || c == '*'
            },
{
    if process_name_check(name) is Err && trim(name).len() != 0 && name.len() <= 260 {
        if name.contains('/') {
            let i = choose|i: int| 0 <= i < name.len() && name[i] == '/';
            assert(name[i] == '/');
        } else if name.contains('\\') {
            let i = choose|i: int| 0 <= i < name.len() && name[i] == '\\';
            assert(name[i] == '\\');
        } else {
            let i = choose|i: int| 0 <= i < name.len() && is_invalid_name_char(#[trigger] name[i]);
            assert(is_invalid_name_char(name[i]));
        }
    }
}

} // verus!
