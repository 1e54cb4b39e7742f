//! Launcher shortcuts on Linux: short commands that stand for shell commands.
//!
//! - `steam:APPID` launches a Steam game through `xdg-open`
//! - `epic:GAME` launches an Epic game through the Heroic launcher
//! - `exe:PATH` launches a program
//! - `url:URL` opens a protocol URL through `xdg-open`
//! - `close:NAME` and `kill:NAME` terminate a process

use crate::commands::launcher;
use crate::commands::launcher::{
    around, is_free_of_shell_chars, is_numeric, is_safe_identifier, is_safe_url, parse_shortcut,
    trimmed,
};
use crate::text;
use crate::text::{is_text, string_of, sub_chars, trim_end_text};
use vstd::prelude::*;
use vstd::string::*;

verus! {

/// `s` is a path without shell characters. Quotes are allowed.
pub open spec fn safe_path(s: Seq<char>) -> bool {
    s.len() > 0 && launcher::no_shell_chars(s)
}

/// Whether `s` is a path without shell characters.
pub fn is_safe_path(s: &[char]) -> (r: bool)
    ensures
        r == safe_path(s@),
{
    s.len() > 0 && is_free_of_shell_chars(s)
}

/// Path and arguments split at the first space.
pub open spec fn split_at_space(arg: Seq<char>) -> (Seq<char>, Option<Seq<char>>) {
    match text::split_once_spec(arg, ' ') {
        Some((path, rest)) => (path, launcher::some_trimmed(rest)),
        None => (arg, None),
    }
}

/// Path and arguments of a program: a path in quotes ends at the closing quote,
/// any other at the first space.
pub open spec fn exe_and_args(arg: Seq<char>) -> (Seq<char>, Option<Seq<char>>) {
    if arg.len() > 0 && (arg[0] == '\'' || arg[0] == '"') {
        match text::split_once_spec(arg.skip(1), arg[0]) {
            Some((path, rest)) => (path, launcher::some_trimmed(rest)),
            None => split_at_space(arg),
        }
    } else {
        split_at_space(arg)
    }
}

/// Splits a program from its arguments.
pub fn split_exe_args(arg: &[char]) -> (r: (Vec<char>, Option<Vec<char>>))
    ensures
        exe_and_args(arg@) == (
            r.0@,
            match r.1 {
                Some(a) => Some(a@),
                None => None,
            },
        ),
{
    if arg.len() > 0 && (arg[0] == '\'' || arg[0] == '"') {
        let inner = sub_chars(arg, 1, arg.len());
        proof {
            assert(inner@ =~= arg@.skip(1));
        }
        if let Some((path, rest)) = text::split_once(&inner, arg[0]) {
            return (path, trimmed(&rest));
        }
    }
    match text::split_once(arg, ' ') {
        Some((path, rest)) => (path, trimmed(&rest)),
        None => {
            let whole = sub_chars(arg, 0, arg.len());
            proof {
                assert(whole@ =~= arg@);
            }
            (whole, None)
        },
    }
}

/// The shell command that a shortcut stands for. A shortcut file (`lnk:`) exists
/// on Windows only.
pub open spec fn expanded(cmd: Seq<char>) -> Option<Seq<char>> {
    match launcher::shortcut(cmd) {
        Some((name, arg)) => {
            if name == "steam"@ {
                if launcher::numeric_id(arg) {
                    Some("xdg-open 'steam://rungameid/"@ + arg + "'"@)
                } else {
                    None
                }
            } else if name == "epic"@ {
                if launcher::safe_identifier(arg) {
                    Some("xdg-open 'heroic://launch/"@ + arg + "'"@)
                } else {
                    None
                }
            } else if name == "exe"@ {
                if safe_path(arg) {
                    let (path, args) = exe_and_args(arg);
                    match args {
                        Some(a) => Some("'"@ + path + "' "@ + a),
                        None => Some("'"@ + path + "'"@),
                    }
                } else {
                    None
                }
            } else if name == "url"@ {
                if launcher::safe_url(arg) {
                    Some("xdg-open '"@ + arg + "'"@)
                } else {
                    None
                }
            } else if name == "close"@ || name == "kill"@ {
                let process = text::strip_suffixes(arg, ".exe"@);
                if launcher::safe_identifier(process) {
                    Some("pkill -f '"@ + process + "'"@)
                } else {
                    None
                }
            } else {
                None
            }
        },
        None => None,
    }
}

/// Expands a launcher shortcut to a shell command. Returns `None` where the text
/// is no shortcut or its argument is not acceptable.
pub fn expand_launcher_shortcut(cmd: &str) -> (r: Option<String>)
    ensures
        text::opt(r) == expanded(cmd@),
{
    let (name, arg) = match parse_shortcut(cmd) {
        Some(parts) => parts,
        None => {
            return None;
        },
    };
    if is_text(&name, "steam") {
        if !is_numeric(&arg) {
            return None;
        }
        return Some(around("xdg-open 'steam://rungameid/", &arg, "'"));
    }
    if is_text(&name, "epic") {
        if !is_safe_identifier(&arg) {
            return None;
        }
        return Some(around("xdg-open 'heroic://launch/", &arg, "'"));
    }
    if is_text(&name, "exe") {
        if !is_safe_path(&arg) {
            return None;
        }
        let (path, args) = split_exe_args(&arg);
        return match args {
            Some(a) => {
                let mut s = around("'", &path, "' ");
                s.append(&string_of(&a));
                Some(s)
            },
            None => Some(around("'", &path, "'")),
        };
    }
    if is_text(&name, "url") {
        if !is_safe_url(&arg) {
            return None;
        }
        return Some(around("xdg-open '", &arg, "'"));
    }
    if is_text(&name, "close") || is_text(&name, "kill") {
        let process = trim_end_text(&arg, ".exe");
        if !is_safe_identifier(&process) {
            return None;
        }
        return Some(around("pkill -f '", &process, "'"));
    }
    None
}

/// A shortcut is expanded only if the text that goes into the command is not
/// empty and holds no character that the shell gives a meaning to.
pub proof fn law_expanded_argument_has_no_shell_chars(cmd: Seq<char>)
    requires
        expanded(cmd) is Some,
    ensures
        launcher::embedded(cmd).len() > 0,
        launcher::no_shell_chars(launcher::embedded(cmd)),
{
    launcher::lemma_safe_texts(launcher::embedded(cmd));
    launcher::lemma_launcher_names_differ();
}

/// A shortcut file is never launched on Linux.
pub proof fn law_shortcut_files_are_refused(cmd: Seq<char>)
    requires
        launcher::shortcut(cmd) matches Some((name, _)) && name == "lnk"@,
    ensures
        expanded(cmd) is None,
{
    launcher::lemma_launcher_names_differ();
    reveal_strlit("lnk");
    reveal_strlit("steam");
    reveal_strlit("epic");
    reveal_strlit("exe");
    reveal_strlit("url");
    assert("lnk"@[0] != "exe"@[0] && "lnk"@[0] != "url"@[0]);
    assert("lnk"@.len() == 3 && "steam"@.len() == 5 && "epic"@.len() == 4);
}

// ---------------------------------------------------------------------------
// What each shortcut stands for
// ---------------------------------------------------------------------------

/// A Steam game is launched by its number, and by nothing else.
pub proof fn law_steam_games(arg: Seq<char>)
    requires
        launcher::is_trimmed(arg),
    ensures
        expanded("steam:"@ + arg) == (if forall|i: int|
            0 <= i < arg.len() ==> '0' <= (#[trigger] arg[i]) <= '9' {
            Some("xdg-open 'steam://rungameid/"@ + arg + "'"@)
        } else {
            None
        }),
{
    launcher::lemma_shortcuts(arg);
    launcher::lemma_launchers();
    assert(text::all_digits(arg) <==> forall|i: int|
        0 <= i < arg.len() ==> '0' <= (#[trigger] arg[i]) <= '9');
}

/// An Epic game is launched by its name, which is made of ASCII letters, digits, dots,
/// dashes and underscores.
pub proof fn law_epic_games(arg: Seq<char>)
    requires
        launcher::is_trimmed(arg),
    ensures
        expanded("epic:"@ + arg) == (if forall|i: int|
            0 <= i < arg.len() ==> '0' <= (#[trigger] arg[i]) <= '9' || 'a' <= arg[i] <= 'z' || 'A'
                <= arg[i] <= 'Z' || arg[i] == '.' || arg[i] == '-' || arg[i] == '_' {
            Some("xdg-open 'heroic://launch/"@ + arg + "'"@)
        } else {
            None
        }),
{
    launcher::lemma_shortcuts(arg);
    launcher::lemma_launchers();
    launcher::lemma_identifier(arg);
}

/// A process is closed by its name with or without `.exe`, and only where that is made of
/// ASCII letters, digits, dots, dashes and underscores.
pub proof fn law_processes_are_closed(process: Seq<char>)
    requires
        launcher::is_trimmed(process),
        !text::has_suffix(process, ".exe"@),
    ensures
        ({
            let command = if forall|i: int|
                0 <= i < process.len() ==> '0' <= (#[trigger] process[i]) <= '9' || 'a'
                    <= process[i] <= 'z' || 'A' <= process[i] <= 'Z' || process[i] == '.'
                    || process[i] == '-' || process[i] == '_' {
                Some("pkill -f '"@ + process + "'"@)
            } else {
                None
            };
            &&& expanded("close:"@ + process) == command
            &&& expanded("kill:"@ + process) == command
            &&& expanded("close:"@ + (process + ".exe"@)) == command
            &&& expanded("kill:"@ + (process + ".exe"@)) == command
        }),
{
    reveal_strlit(".exe");
    launcher::lemma_shortcuts(process);
    launcher::lemma_shortcuts(process + ".exe"@);
    launcher::lemma_launchers();
    launcher::lemma_identifier(process);
    text::law_suffixes_are_taken_off(process, ".exe"@);
}

/// A character that the shell gives a meaning to refuses the argument of every launcher.
pub proof fn law_shell_characters_are_refused(arg: Seq<char>, i: int)
    requires
        launcher::is_trimmed(arg),
        0 <= i < arg.len(),
        arg[i] == ';' || arg[i] == '|' || arg[i] == '&' || arg[i] == '$' || arg[i] == '`' || arg[i]
            == '\n' || arg[i] == '\r',
    ensures
        expanded("steam:"@ + arg) is None,
        expanded("epic:"@ + arg) is None,
        expanded("exe:"@ + arg) is None,
        expanded("lnk:"@ + arg) is None,
        expanded("url:"@ + arg) is None,
        expanded("close:"@ + arg) is None,
        expanded("kill:"@ + arg) is None,
{
    launcher::lemma_shortcuts(arg);
    launcher::lemma_launchers();
    assert(!text::is_digit(arg[i]));
    assert(!launcher::identifier_char(arg[i]));
    assert(launcher::shell_char(arg[i]));
    launcher::lemma_stripped_keeps(arg, i);
}

/// A URL is opened as it is where a scheme stands in front of its first `://`, and where
/// it holds no character that the shell gives a meaning to and no single quote.
pub proof fn law_urls_are_opened(scheme: Seq<char>, rest: Seq<char>)
    requires
        scheme.len() > 0,
        forall|i: int|
            0 <= i < scheme.len() ==> '0' <= (#[trigger] scheme[i]) <= '9' || 'a' <= scheme[i]
                <= 'z' || 'A' <= scheme[i] <= 'Z' || scheme[i] == '.' || scheme[i] == '-'
                || scheme[i] == '+',
        rest.len() > 0 ==> !text::white_space(rest.last()),
        forall|i: int|
            0 <= i < rest.len() ==> (#[trigger] rest[i]) != ';' && rest[i] != '|' && rest[i] != '&'
                && rest[i] != '$' && rest[i] != '`' && rest[i] != '\n' && rest[i] != '\r' && rest[i]
                != '\'',
    ensures
        expanded("url:"@ + (scheme + "://"@ + rest)) == Some(
            "xdg-open '"@ + (scheme + "://"@ + rest) + "'"@,
        ),
{
    reveal_strlit("://");
    let arg = scheme + "://"@ + rest;
    assert(arg[0] == scheme[0]);
    assert(!text::white_space(arg[0]));
    assert(arg.last() == if rest.len() > 0 {
        rest.last()
    } else {
        '/'
    });
    launcher::lemma_shortcuts(arg);
    launcher::lemma_launchers();
    launcher::lemma_url(scheme, rest);
}

/// A quote refuses a URL, which would end the quotes that it is put into.
pub proof fn law_quotes_refuse_a_url(arg: Seq<char>)
    requires
        launcher::is_trimmed(arg),
        arg.contains('\''),
    ensures
        expanded("url:"@ + arg) is None,
{
    launcher::lemma_shortcuts(arg);
    launcher::lemma_launchers();
}

/// A program is started with all of its arguments: its path, which stands in quotes in
/// the command, ends at the first space, and what follows goes to the program as it is.
/// Without a space all of the argument is the path.
pub proof fn law_programs_get_their_arguments(path: Seq<char>, args: Seq<char>)
    requires
        launcher::is_trimmed(path),
        !path.contains(' '),
        path[0] != '\'' && path[0] != '"',
        launcher::is_trimmed(args),
        forall|i: int|
            {
                let c = #[trigger] (path + " "@ + args)[i];
                0 <= i < path.len() + 1 + args.len() ==> c != ';' && c != '|' && c != '&' && c
                    != '$' && c != '`' && c != '\n' && c != '\r'
            },
    ensures
        expanded("exe:"@ + (path + " "@ + args)) == Some("'"@ + path + "' "@ + args),
        expanded("exe:"@ + path) == Some("'"@ + path + "'"@),
{
    reveal_strlit(" ");
    let arg = path + " "@ + args;
    assert(" "@ =~= seq![' ']);
    assert(arg[0] == path[0] && arg.last() == args.last());
    launcher::lemma_shortcuts(arg);
    launcher::lemma_shortcuts(path);
    launcher::lemma_launchers();
    assert forall|i: int| 0 <= i < arg.len() implies !launcher::shell_char(#[trigger] arg[i]) by {
        assert((path + " "@ + args)[i] == arg[i]);
    }
    assert forall|i: int| 0 <= i < path.len() implies !launcher::shell_char(
        #[trigger] path[i],
    ) by {
        assert((path + " "@ + args)[i] == path[i]);
    }
    text::law_split_at_the_first(path, ' ', args);
    let none = Seq::<char>::empty();
    text::law_trim(none, args, none);
    assert(none + args + none =~= args);
}

/// A path in quotes may hold spaces: it ends at the closing quote, and what follows goes
/// to the program as it is.
pub proof fn law_quoted_paths(quote: char, path: Seq<char>, args: Seq<char>)
    requires
        quote == '\'' || quote == '"',
        !path.contains(quote),
        launcher::is_trimmed(args),
        forall|i: int|
            0 <= i < path.len() ==> (#[trigger] path[i]) != ';' && path[i] != '|' && path[i] != '&'
                && path[i] != '$' && path[i] != '`' && path[i] != '\n' && path[i] != '\r',
        forall|i: int|
            0 <= i < args.len() ==> (#[trigger] args[i]) != ';' && args[i] != '|' && args[i] != '&'
                && args[i] != '$' && args[i] != '`' && args[i] != '\n' && args[i] != '\r',
    ensures
        expanded("exe:"@ + (seq![quote] + path + seq![quote] + seq![' '] + args)) == Some(
            "'"@ + path + "' "@ + args,
        ),
        expanded("exe:"@ + (seq![quote] + path + seq![quote])) == Some("'"@ + path + "'"@),
{
    let bare = seq![quote] + path + seq![quote];
    let arg = seq![quote] + path + seq![quote] + seq![' '] + args;
    assert(arg[0] == quote && arg.last() == args.last());
    assert(bare[0] == quote && bare.last() == quote);
    text::law_white_space(quote);
    launcher::lemma_shortcuts(arg);
    launcher::lemma_shortcuts(bare);
    launcher::lemma_launchers();
    assert forall|i: int| 0 <= i < arg.len() implies !launcher::shell_char(#[trigger] arg[i]) by {
        if 0 < i <= path.len() {
            assert(arg[i] == path[i - 1]);
        } else if i > path.len() + 2 {
            assert(arg[i] == args[i - path.len() - 3]);
        }
    }
    assert forall|i: int| 0 <= i < bare.len() implies !launcher::shell_char(
        #[trigger] bare[i],
    ) by {
        if 0 < i <= path.len() {
            assert(bare[i] == path[i - 1]);
        }
    }
    let none = Seq::<char>::empty();
    let spaced = seq![' '] + args;
    text::law_split_at_the_first(path, quote, spaced);
    text::law_split_at_the_first(path, quote, none);
    assert(arg.skip(1) =~= path + seq![quote] + spaced);
    assert(bare.skip(1) =~= path + seq![quote] + none);
    text::law_trim(seq![' '], args, none);
    assert(seq![' '] + args + none =~= spaced);
    text::law_trim(none, none, none);
    assert(none + none + none =~= none);
}

} // verus!
