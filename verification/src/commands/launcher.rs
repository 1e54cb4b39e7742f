//! Launcher shortcuts on Windows: short commands that stand for PowerShell
//! commands.
//!
//! - `steam:APPID` launches a Steam game
//! - `epic:GAME` launches an Epic game
//! - `exe:PATH` and `lnk:PATH` launch a program or a shortcut
//! - `url:URL` opens a protocol URL
//! - `close:NAME` and `kill:NAME` close a process

use crate::text;
use crate::text::{
    ascii_alnum, chars_of, contains_char, find_text, is_text, split_once, string_of, sub_chars,
    to_ascii_lower, trim_chars, trim_end_text,
};
use vstd::prelude::*;
use vstd::string::*;

verus! {

// ---------------------------------------------------------------------------
// What an argument may hold
// ---------------------------------------------------------------------------

/// `s` is a number: one or more decimal digits.
pub open spec fn numeric_id(s: Seq<char>) -> bool {
    s.len() > 0 && text::all_digits(s)
}

/// A character of an identifier.
pub open spec fn identifier_char(c: char) -> bool {
    text::is_ascii_alnum(c) || c == '.' || c == '-' || c == '_'
}

/// `s` is an identifier: not empty, and of ASCII letters, digits, dots, dashes
/// and underscores.
pub open spec fn safe_identifier(s: Seq<char>) -> bool {
    s.len() > 0 && forall|i: int| 0 <= i < s.len() ==> identifier_char(#[trigger] s[i])
}

/// A character that the shell gives a meaning to.
pub open spec fn shell_char(c: char) -> bool {
    c == ';' || c == '|' || c == '&' || c == '$' || c == '`' || c == '\n' || c == '\r'
}

/// `s` holds no character that the shell gives a meaning to.
pub open spec fn no_shell_chars(s: Seq<char>) -> bool {
    forall|i: int| 0 <= i < s.len() ==> !shell_char(#[trigger] s[i])
}

/// `s` is a path that PowerShell takes literally: not empty, without shell
/// characters and without quotes.
pub open spec fn safe_path(s: Seq<char>) -> bool {
    s.len() > 0 && no_shell_chars(s) && !s.contains('"') && !s.contains('\'')
}

/// A character of a URL scheme.
pub open spec fn scheme_char(c: char) -> bool {
    text::is_ascii_alnum(c) || c == '.' || c == '-' || c == '+'
}

/// `s` is a URL with a scheme: what precedes the first `://` is a scheme, and
/// there is no shell character and no single quote.
pub open spec fn safe_url(s: Seq<char>) -> bool {
    match text::before_first(s, "://"@) {
        Some(scheme) => {
            &&& scheme.len() > 0
            &&& forall|i: int| 0 <= i < scheme.len() ==> scheme_char(#[trigger] scheme[i])
            &&& no_shell_chars(s)
            &&& !s.contains('\'')
        },
        None => false,
    }
}

/// Whether `s` is a number.
pub fn is_numeric(s: &[char]) -> (r: bool)
    ensures
        r == numeric_id(s@),
{
    let mut i: usize = 0;
    while i < s.len()
        invariant
            i <= s.len(),
            forall|j: int| 0 <= j < i ==> text::is_digit(#[trigger] s@[j]),
        decreases s.len() - i,
    {
        if !('0' <= s[i] && s[i] <= '9') {
            proof {
                assert(!text::is_digit(s@[i as int]));
            }
            return false;
        }
        i += 1;
    }
    s.len() > 0
}

/// Whether `s` is an identifier.
pub fn is_safe_identifier(s: &[char]) -> (r: bool)
    ensures
        r == safe_identifier(s@),
{
    let mut i: usize = 0;
    while i < s.len()
        invariant
            i <= s.len(),
            forall|j: int| 0 <= j < i ==> identifier_char(#[trigger] s@[j]),
        decreases s.len() - i,
    {
        let c = s[i];
        if !(ascii_alnum(c) || c == '.' || c == '-' || c == '_') {
            proof {
                assert(!identifier_char(s@[i as int]));
            }
            return false;
        }
        i += 1;
    }
    s.len() > 0
}

/// Whether `s` holds no character that the shell gives a meaning to.
pub fn is_free_of_shell_chars(s: &[char]) -> (r: bool)
    ensures
        r == no_shell_chars(s@),
{
    let mut i: usize = 0;
    while i < s.len()
        invariant
            i <= s.len(),
            forall|j: int| 0 <= j < i ==> !shell_char(#[trigger] s@[j]),
        decreases s.len() - i,
    {
        let c = s[i];
        if c == ';' || c == '|' || c == '&' || c == '$' || c == '`' || c == '\n' || c == '\r' {
            proof {
                assert(shell_char(s@[i as int]));
            }
            return false;
        }
        i += 1;
    }
    true
}

/// Whether `s` is a path that PowerShell takes literally.
pub fn is_safe_path(s: &[char]) -> (r: bool)
    ensures
        r == safe_path(s@),
{
    s.len() > 0 && is_free_of_shell_chars(s) && !contains_char(s, '"') && !contains_char(s, '\'')
}

/// Whether `s` is a URL with a scheme and without shell characters.
pub fn is_safe_url(s: &[char]) -> (r: bool)
    ensures
        r == safe_url(s@),
{
    let n: usize = match find_text(s, "://") {
        Some(i) => i,
        None => {
            return false;
        },
    };
    let scheme = sub_chars(s, 0, n);
    proof {
        assert(scheme@ =~= s@.take(n as int));
    }
    let mut i: usize = 0;
    while i < scheme.len()
        invariant
            i <= scheme.len(),
            text::before_first(s@, "://"@) == Some(scheme@),
            forall|j: int| 0 <= j < i ==> scheme_char(#[trigger] scheme@[j]),
        decreases scheme.len() - i,
    {
        let c = scheme[i];
        if !(ascii_alnum(c) || c == '.' || c == '-' || c == '+') {
            proof {
                assert(!scheme_char(scheme@[i as int]));
            }
            return false;
        }
        i += 1;
    }
    scheme.len() > 0 && is_free_of_shell_chars(s) && !contains_char(s, '\'')
}

// ---------------------------------------------------------------------------
// Shortcuts
// ---------------------------------------------------------------------------

/// A shortcut: the launcher, trimmed and in lower case, and the trimmed argument,
/// which is not empty.
pub open spec fn shortcut(cmd: Seq<char>) -> Option<(Seq<char>, Seq<char>)> {
    match text::split_once_spec(cmd, ':') {
        Some((launcher, arg)) => if text::trim(arg).len() == 0 {
            None
        } else {
            Some((text::lowercase(text::trim(launcher)), text::trim(arg)))
        },
        None => None,
    }
}

/// Splits a shortcut into launcher and argument.
pub fn parse_shortcut(cmd: &str) -> (r: Option<(Vec<char>, Vec<char>)>)
    ensures
        match r {
            Some((launcher, arg)) => shortcut(cmd@) == Some((launcher@, arg@)),
            None => shortcut(cmd@) is None,
        },
{
    match split_once(&chars_of(cmd), ':') {
        Some((launcher, arg)) => {
            let arg = trim_chars(&arg);
            if arg.len() == 0 {
                return None;
            }
            let name = string_of(&trim_chars(&launcher));
            Some((chars_of(&name.to_lowercase()), arg))
        },
        None => None,
    }
}

/// The trimmed text, unless nothing is left.
pub open spec fn some_trimmed(s: Seq<char>) -> Option<Seq<char>> {
    if text::trim(s).len() > 0 {
        Some(text::trim(s))
    } else {
        None
    }
}

/// The trimmed text, unless nothing is left.
pub fn trimmed(s: &[char]) -> (r: Option<Vec<char>>)
    ensures
        match r {
            Some(t) => some_trimmed(s@) == Some(t@),
            None => some_trimmed(s@) is None,
        },
{
    let t = trim_chars(s);
    if t.len() > 0 {
        Some(t)
    } else {
        None
    }
}

/// Path and arguments when `ext`, which ends in a space, occurs: the path ends
/// with the extension, what follows the space is trimmed.
pub open spec fn split_after(
    arg: Seq<char>,
    ext: Seq<char>,
) -> Option<(Seq<char>, Option<Seq<char>>)> {
    match text::before_first(text::ascii_lower_all(arg), ext) {
        Some(t) => {
            let end = t.len() + ext.len();
            Some((arg.take(end - 1), some_trimmed(arg.skip(end as int))))
        },
        None => None,
    }
}

/// Path and arguments of a program: the path ends at the first `.exe` that a
/// space follows, or else at the first such `.lnk`, in any letter case.
pub open spec fn exe_and_args(arg: Seq<char>) -> (Seq<char>, Option<Seq<char>>) {
    match split_after(arg, ".exe "@) {
        Some(r) => r,
        None => match split_after(arg, ".lnk "@) {
            Some(r) => r,
            None => (arg, None),
        },
    }
}

fn split_after_ext(arg: &[char], ext: &str) -> (r: Option<(Vec<char>, Option<Vec<char>>)>)
    requires
        ext@.len() > 0,
    ensures
        match r {
            Some((path, args)) => split_after(arg@, ext@) == Some(
                (
                    path@,
                    match args {
                        Some(a) => Some(a@),
                        None => None,
                    },
                ),
            ),
            None => split_after(arg@, ext@) is None,
        },
{
    let lower = to_ascii_lower(arg);
    match find_text(&lower, ext) {
        Some(i) => {
            let n: usize = chars_of(ext).len();
            let total: usize = arg.len();
            proof {
                assert(lower@.len() == arg@.len());
                assert(i + n <= total);
            }
            let path = sub_chars(arg, 0, i + n - 1);
            let rest = sub_chars(arg, i + n, total);
            proof {
                assert(path@ =~= arg@.take(i + n - 1));
                assert(rest@ =~= arg@.skip(i + n));
                assert(lower@.take(i as int).len() == i);
            }
            Some((path, trimmed(&rest)))
        },
        None => None,
    }
}

/// Splits a program from its arguments.
pub fn split_exe_args(arg: &[char]) -> (r: (Vec<char>, Option<Vec<char>>))
    ensures
        exe_and_args(arg@) == (
            r.0@,
            match r.1 {
                Some(a) => Some(a@),
                None => None,
            },
        ),
{
    proof {
        reveal_strlit(".exe ");
        reveal_strlit(".lnk ");
    }
    match split_after_ext(arg, ".exe ") {
        Some(r) => r,
        None => match split_after_ext(arg, ".lnk ") {
            Some(r) => r,
            None => {
                let whole = sub_chars(arg, 0, arg.len());
                proof {
                    assert(whole@ =~= arg@);
                }
                (whole, None)
            },
        },
    }
}

/// The path in double quotes where it holds a space and does not begin with a
/// quote already.
pub open spec fn quoted_path(path: Seq<char>) -> Seq<char> {
    if path.contains(' ') && !text::has_prefix(path, "\""@) {
        "\""@ + path + "\""@
    } else {
        path
    }
}

/// The PowerShell command that a shortcut stands for.
pub open spec fn expanded(cmd: Seq<char>) -> Option<Seq<char>> {
    match shortcut(cmd) {
        Some((launcher, arg)) => {
            if launcher == "steam"@ {
                if numeric_id(arg) {
                    Some("Start-Process \"steam://rungameid/"@ + arg + "\""@)
                } else {
                    None
                }
            } else if launcher == "epic"@ {
                if safe_identifier(arg) {
                    Some(
                        "Start-Process \"com.epicgames.launcher://apps/"@ + arg
                            + "?action=launch&silent=true\""@,
                    )
                } else {
                    None
                }
            } else if launcher == "exe"@ || launcher == "lnk"@ {
                if safe_path(arg) {
                    let (path, args) = exe_and_args(arg);
                    match args {
                        Some(a) => Some(
                            "Start-Process "@ + quoted_path(path) + " -ArgumentList '"@ + a + "'"@,
                        ),
                        None => Some("Start-Process "@ + quoted_path(path)),
                    }
                } else {
                    None
                }
            } else if launcher == "url"@ {
                if safe_url(arg) {
                    Some("Start-Process \""@ + arg + "\""@)
                } else {
                    None
                }
            } else if launcher == "close"@ || launcher == "kill"@ {
                let process = text::strip_suffixes(arg, ".exe"@);
                if safe_identifier(process) {
                    Some(
                        "Get-Process | Where-Object { $_.ProcessName -eq '"@ + process
                            + "' } | ForEach-Object { $_.CloseMainWindow() }"@,
                    )
                } else {
                    None
                }
            } else {
                None
            }
        },
        None => None,
    }
}

/// The argument between two texts.
pub fn around(a: &str, arg: &[char], b: &str) -> (r: String)
    ensures
        r@ == a@ + arg@ + b@,
{
    let mut s = a.to_string();
    s.append(&string_of(arg));
    s.append(b);
    s
}

fn quote_path(path: &[char]) -> (r: String)
    ensures
        r@ == quoted_path(path@),
{
    if contains_char(path, ' ') && !text::starts_with(path, "\"") {
        around("\"", path, "\"")
    } else {
        string_of(path)
    }
}

/// Expands a launcher shortcut to a PowerShell command. Returns `None` where the
/// text is no shortcut or its argument is not acceptable.
pub fn expand_launcher_shortcut(cmd: &str) -> (r: Option<String>)
    ensures
        text::opt(r) == expanded(cmd@),
{
    let (launcher, arg) = match parse_shortcut(cmd) {
        Some(parts) => parts,
        None => {
            return None;
        },
    };
    if is_text(&launcher, "steam") {
        if !is_numeric(&arg) {
            return None;
        }
        return Some(around("Start-Process \"steam://rungameid/", &arg, "\""));
    }
    if is_text(&launcher, "epic") {
        if !is_safe_identifier(&arg) {
            return None;
        }
        return Some(
            around(
                "Start-Process \"com.epicgames.launcher://apps/",
                &arg,
                "?action=launch&silent=true\"",
            ),
        );
    }
    if is_text(&launcher, "exe") || is_text(&launcher, "lnk") {
        if !is_safe_path(&arg) {
            return None;
        }
        let (path, args) = split_exe_args(&arg);
        let mut s = "Start-Process ".to_string();
        s.append(&quote_path(&path));
        if let Some(a) = args {
            s.append(" -ArgumentList '");
            s.append(&string_of(&a));
            s.append("'");
        }
        return Some(s);
    }
    if is_text(&launcher, "url") {
        if !is_safe_url(&arg) {
            return None;
        }
        return Some(around("Start-Process \"", &arg, "\""));
    }
    if is_text(&launcher, "close") || is_text(&launcher, "kill") {
        let process = trim_end_text(&arg, ".exe");
        if !is_safe_identifier(&process) {
            return None;
        }
        return Some(
            around(
                "Get-Process | Where-Object { $_.ProcessName -eq '",
                &process,
                "' } | ForEach-Object { $_.CloseMainWindow() }",
            ),
        );
    }
    None
}

// ---------------------------------------------------------------------------
// Laws
// ---------------------------------------------------------------------------

/// The text of a shortcut that goes into the expanded command.
pub open spec fn embedded(cmd: Seq<char>) -> Seq<char> {
    match shortcut(cmd) {
        Some((launcher, arg)) => if launcher == "close"@ || launcher == "kill"@ {
            text::strip_suffixes(arg, ".exe"@)
        } else {
            arg
        },
        None => seq![],
    }
}

/// A shortcut is expanded only if the text that goes
/// into the command is not empty and holds no character that the shell gives a
/// meaning to.
pub proof fn law_expanded_argument_has_no_shell_chars(cmd: Seq<char>)
    requires
        expanded(cmd) is Some,
    ensures
        embedded(cmd).len() > 0,
        no_shell_chars(embedded(cmd)),
{
    let (launcher, arg) = shortcut(cmd)->0;
    lemma_safe_texts(embedded(cmd));
    lemma_launcher_names_differ();
}

/// Numbers and identifiers hold no shell characters.
pub proof fn lemma_safe_texts(s: Seq<char>)
    ensures
        numeric_id(s) ==> no_shell_chars(s),
        safe_identifier(s) ==> no_shell_chars(s),
{
    if numeric_id(s) {
        assert forall|i: int| 0 <= i < s.len() implies !shell_char(#[trigger] s[i]) by {
            assert(text::is_digit(s[i]));
        }
    }
    if safe_identifier(s) {
        assert forall|i: int| 0 <= i < s.len() implies !shell_char(#[trigger] s[i]) by {
            assert(identifier_char(s[i]));
        }
    }
}

/// The names of the launchers differ.
pub proof fn lemma_launcher_names_differ()
    ensures
        "close"@ != "steam"@,
        "kill"@ != "steam"@,
        "close"@ != "epic"@,
        "kill"@ != "epic"@,
        "close"@ != "exe"@,
        "kill"@ != "exe"@,
        "close"@ != "lnk"@,
        "kill"@ != "lnk"@,
        "close"@ != "url"@,
        "kill"@ != "url"@,
{
    reveal_strlit("steam");
    reveal_strlit("epic");
    reveal_strlit("exe");
    reveal_strlit("lnk");
    reveal_strlit("url");
    reveal_strlit("close");
    reveal_strlit("kill");
    assert("close"@[0] != "steam"@[0]);
    assert("kill"@[0] != "epic"@[0]);
    assert("close"@.len() == 5 && "kill"@.len() == 4);
    assert("steam"@.len() == 5 && "epic"@.len() == 4);
    assert("exe"@.len() == 3 && "lnk"@.len() == 3 && "url"@.len() == 3);
}

// ---------------------------------------------------------------------------
// What each shortcut stands for
// ---------------------------------------------------------------------------

/// The text is not empty and has no white space around it.
pub open spec fn is_trimmed(s: Seq<char>) -> bool {
    s.len() > 0 && !text::white_space(s[0]) && !text::white_space(s.last())
}

/// A launcher in small letters and a trimmed argument are read from a shortcut as they
/// are.
pub proof fn lemma_shortcut_of(name: Seq<char>, arg: Seq<char>)
    requires
        name.len() > 0,
        forall|i: int| 0 <= i < name.len() ==> 'a' <= (#[trigger] name[i]) <= 'z',
        is_trimmed(arg),
    ensures
        shortcut(name + seq![':'] + arg) == Some((name, arg)),
{
    if name.contains(':') {
        let i = choose|i: int| 0 <= i < name.len() && name[i] == ':';
        assert('a' <= name[i]);
    }
    text::law_split_at_the_first(name, ':', arg);
    let none = Seq::<char>::empty();
    text::law_trim(none, name, none);
    text::law_trim(none, arg, none);
    assert(none + name + none =~= name);
    assert(none + arg + none =~= arg);
    text::law_lower_case_text_stays(name);
}

/// The launchers in front of a trimmed argument.
pub proof fn lemma_shortcuts(arg: Seq<char>)
    requires
        is_trimmed(arg),
    ensures
        shortcut("steam:"@ + arg) == Some(("steam"@, arg)),
        shortcut("epic:"@ + arg) == Some(("epic"@, arg)),
        shortcut("exe:"@ + arg) == Some(("exe"@, arg)),
        shortcut("lnk:"@ + arg) == Some(("lnk"@, arg)),
        shortcut("url:"@ + arg) == Some(("url"@, arg)),
        shortcut("close:"@ + arg) == Some(("close"@, arg)),
        shortcut("kill:"@ + arg) == Some(("kill"@, arg)),
{
    reveal_strlit("steam");
    reveal_strlit("steam:");
    assert("steam"@ + seq![':'] + arg =~= "steam:"@ + arg);
    lemma_shortcut_of("steam"@, arg);
    reveal_strlit("epic");
    reveal_strlit("epic:");
    assert("epic"@ + seq![':'] + arg =~= "epic:"@ + arg);
    lemma_shortcut_of("epic"@, arg);
    reveal_strlit("exe");
    reveal_strlit("exe:");
    assert("exe"@ + seq![':'] + arg =~= "exe:"@ + arg);
    lemma_shortcut_of("exe"@, arg);
    reveal_strlit("lnk");
    reveal_strlit("lnk:");
    assert("lnk"@ + seq![':'] + arg =~= "lnk:"@ + arg);
    lemma_shortcut_of("lnk"@, arg);
    reveal_strlit("url");
    reveal_strlit("url:");
    assert("url"@ + seq![':'] + arg =~= "url:"@ + arg);
    lemma_shortcut_of("url"@, arg);
    reveal_strlit("close");
    reveal_strlit("close:");
    assert("close"@ + seq![':'] + arg =~= "close:"@ + arg);
    lemma_shortcut_of("close"@, arg);
    reveal_strlit("kill");
    reveal_strlit("kill:");
    assert("kill"@ + seq![':'] + arg =~= "kill:"@ + arg);
    lemma_shortcut_of("kill"@, arg);
}

/// The names of the launchers that are opened in different ways differ.
pub proof fn lemma_launchers()
    ensures
        "steam"@ != "epic"@,
        "steam"@ != "exe"@,
        "steam"@ != "lnk"@,
        "steam"@ != "url"@,
        "steam"@ != "close"@,
        "steam"@ != "kill"@,
        "epic"@ != "exe"@,
        "epic"@ != "lnk"@,
        "epic"@ != "url"@,
        "epic"@ != "close"@,
        "epic"@ != "kill"@,
        "exe"@ != "lnk"@,
        "exe"@ != "url"@,
        "exe"@ != "close"@,
        "exe"@ != "kill"@,
        "lnk"@ != "url"@,
        "lnk"@ != "close"@,
        "lnk"@ != "kill"@,
        "url"@ != "close"@,
        "url"@ != "kill"@,
        "close"@ != "kill"@,
{
    reveal_strlit("steam");
    reveal_strlit("epic");
    reveal_strlit("exe");
    reveal_strlit("lnk");
    reveal_strlit("url");
    reveal_strlit("close");
    reveal_strlit("kill");
    assert("steam"@.len() != "epic"@.len());
    assert("steam"@.len() != "exe"@.len());
    assert("steam"@.len() != "lnk"@.len());
    assert("steam"@.len() != "url"@.len());
    assert("steam"@[0] != "close"@[0]);
    assert("steam"@.len() != "kill"@.len());
    assert("epic"@.len() != "exe"@.len());
    assert("epic"@.len() != "lnk"@.len());
    assert("epic"@.len() != "url"@.len());
    assert("epic"@.len() != "close"@.len());
    assert("epic"@[0] != "kill"@[0]);
    assert("exe"@[0] != "lnk"@[0]);
    assert("exe"@[0] != "url"@[0]);
    assert("exe"@.len() != "close"@.len());
    assert("exe"@.len() != "kill"@.len());
    assert("lnk"@[0] != "url"@[0]);
    assert("lnk"@.len() != "close"@.len());
    assert("lnk"@.len() != "kill"@.len());
    assert("url"@.len() != "close"@.len());
    assert("url"@.len() != "kill"@.len());
    assert("close"@.len() != "kill"@.len());
}

/// The launcher may be written in capitals, and white space around it and around the
/// argument makes no difference.
pub proof fn law_shortcuts_are_read_leniently(
    a: Seq<char>,
    name: Seq<char>,
    b: Seq<char>,
    d: Seq<char>,
    arg: Seq<char>,
    e: Seq<char>,
)
    requires
        forall|i: int| 0 <= i < a.len() ==> text::white_space(#[trigger] a[i]) && a[i] != ':',
        forall|i: int| 0 <= i < b.len() ==> text::white_space(#[trigger] b[i]) && b[i] != ':',
        forall|i: int| 0 <= i < d.len() ==> text::white_space(#[trigger] d[i]),
        forall|i: int| 0 <= i < e.len() ==> text::white_space(#[trigger] e[i]),
        name.len() > 0,
        forall|i: int|
            0 <= i < name.len() ==> 'a' <= (#[trigger] name[i]) <= 'z' || 'A' <= name[i] <= 'Z',
        is_trimmed(arg),
    ensures
        expanded(a + name + b + seq![':'] + (d + arg + e)) == expanded(
            text::ascii_lower_all(name) + seq![':'] + arg,
        ),
{
    let front = a + name + b;
    assert(!front.contains(':')) by {
        if front.contains(':') {
            let i = choose|i: int| 0 <= i < front.len() && front[i] == ':';
            if i < a.len() {
                assert(front[i] == a[i]);
            } else if i < a.len() + name.len() {
                assert(front[i] == name[i - a.len()]);
            } else {
                assert(front[i] == b[i - a.len() - name.len()]);
            }
        }
    }
    text::law_split_at_the_first(front, ':', d + arg + e);
    text::law_trim(a, name, b);
    text::law_trim(d, arg, e);
    let lower = text::ascii_lower_all(name);
    assert forall|i: int| 0 <= i < lower.len() implies 'a' <= (#[trigger] lower[i]) <= 'z' by {
        assert(lower[i] == text::ascii_lower(name[i]));
    }
    assert(vstd::utf8::is_ascii_chars(name));
    lemma_shortcut_of(lower, arg);
}

/// What is no shortcut is not expanded: a text without a colon, one with nothing behind
/// it, and one in front of which no launcher stands.
pub proof fn law_other_texts_are_no_shortcuts(cmd: Seq<char>)
    ensures
        !cmd.contains(':') ==> expanded(cmd) is None,
        shortcut(cmd) is None ==> expanded(cmd) is None,
        shortcut(cmd) matches Some((name, _)) ==> name != "steam"@ && name != "epic"@ && name != "exe"@ && name != "lnk"@ && name != "url"@ && name != "close"@ && name != "kill"@
            ==> expanded(cmd) is None,
{
    if !cmd.contains(':') {
        text::law_split_at_the_first(cmd, ':', cmd);
    }
}

/// A Steam game is launched by its number, and by nothing else.
pub proof fn law_steam_games(arg: Seq<char>)
    requires
        is_trimmed(arg),
    ensures
        expanded("steam:"@ + arg) == (if forall|i: int|
            0 <= i < arg.len() ==> '0' <= (#[trigger] arg[i]) <= '9' {
            Some("Start-Process \"steam://rungameid/"@ + arg + "\""@)
        } else {
            None
        }),
{
    lemma_shortcuts(arg);
    lemma_launchers();
    assert(text::all_digits(arg) <==> forall|i: int|
        0 <= i < arg.len() ==> '0' <= (#[trigger] arg[i]) <= '9');
}

/// An Epic game is launched by its name, which is made of ASCII letters, digits, dots,
/// dashes and underscores.
pub proof fn law_epic_games(arg: Seq<char>)
    requires
        is_trimmed(arg),
    ensures
        expanded("epic:"@ + arg) == (if forall|i: int|
            0 <= i < arg.len() ==> '0' <= (#[trigger] arg[i]) <= '9' || 'a' <= arg[i] <= 'z' || 'A'
                <= arg[i] <= 'Z' || arg[i] == '.' || arg[i] == '-' || arg[i] == '_' {
            Some(
                "Start-Process \"com.epicgames.launcher://apps/"@ + arg
                    + "?action=launch&silent=true\""@,
            )
        } else {
            None
        }),
{
    lemma_shortcuts(arg);
    lemma_launchers();
    lemma_identifier(arg);
}

/// An identifier is made of ASCII letters, digits, dots, dashes and underscores.
pub proof fn lemma_identifier(s: Seq<char>)
    requires
        s.len() > 0,
    ensures
        safe_identifier(s) <==> forall|i: int|
            0 <= i < s.len() ==> '0' <= (#[trigger] s[i]) <= '9' || 'a' <= s[i] <= 'z' || 'A'
                <= s[i] <= 'Z' || s[i] == '.' || s[i] == '-' || s[i] == '_',
{
    if safe_identifier(s) {
        assert forall|i: int| 0 <= i < s.len() implies '0' <= (#[trigger] s[i]) <= '9' || 'a'
            <= s[i] <= 'z' || 'A' <= s[i] <= 'Z' || s[i] == '.' || s[i] == '-' || s[i] == '_' by {
            assert(identifier_char(s[i]));
        }
    } else {
        let i = choose|i: int| 0 <= i < s.len() && !identifier_char(#[trigger] s[i]);
        assert(!('0' <= s[i] <= '9'));
    }
}

/// A process is closed by its name with or without `.exe`, and only where that is made of
/// ASCII letters, digits, dots, dashes and underscores.
pub proof fn law_processes_are_closed(process: Seq<char>)
    requires
        is_trimmed(process),
        !text::has_suffix(process, ".exe"@),
    ensures
        ({
            let command = if forall|i: int|
                0 <= i < process.len() ==> '0' <= (#[trigger] process[i]) <= '9' || 'a'
                    <= process[i] <= 'z' || 'A' <= process[i] <= 'Z' || process[i] == '.'
                    || process[i] == '-' || process[i] == '_' {
                Some(
                    "Get-Process | Where-Object { $_.ProcessName -eq '"@ + process
                        + "' } | ForEach-Object { $_.CloseMainWindow() }"@,
                )
            } else {
                None
            };
            &&& expanded("close:"@ + process) == command
            &&& expanded("kill:"@ + process) == command
            &&& expanded("close:"@ + (process + ".exe"@)) == command
            &&& expanded("kill:"@ + (process + ".exe"@)) == command
        }),
{
    reveal_strlit(".exe");
    lemma_shortcuts(process);
    lemma_shortcuts(process + ".exe"@);
    lemma_launchers();
    lemma_identifier(process);
    text::law_suffixes_are_taken_off(process, ".exe"@);
}

/// A character that PowerShell gives a meaning to refuses the argument of every launcher.
pub proof fn law_shell_characters_are_refused(arg: Seq<char>, i: int)
    requires
        is_trimmed(arg),
        0 <= i < arg.len(),
        arg[i] == ';' || arg[i] == '|' || arg[i] == '&' || arg[i] == '$' || arg[i] == '`' || arg[i]
            == '\n' || arg[i] == '\r',
    ensures
        expanded("steam:"@ + arg) is None,
        expanded("epic:"@ + arg) is None,
        expanded("exe:"@ + arg) is None,
        expanded("lnk:"@ + arg) is None,
        expanded("url:"@ + arg) is None,
        expanded("close:"@ + arg) is None,
        expanded("kill:"@ + arg) is None,
{
    lemma_shortcuts(arg);
    lemma_launchers();
    assert(!text::is_digit(arg[i]));
    assert(!identifier_char(arg[i]));
    assert(shell_char(arg[i]));
    lemma_stripped_keeps(arg, i);
}

/// A character that is none of those of `.exe` survives when `.exe` is taken off.
pub proof fn lemma_stripped_keeps(arg: Seq<char>, i: int)
    requires
        0 <= i < arg.len(),
        arg[i] != '.' && arg[i] != 'e' && arg[i] != 'x',
    ensures
        i < text::strip_suffixes(arg, ".exe"@).len(),
        text::strip_suffixes(arg, ".exe"@)[i] == arg[i],
    decreases arg.len(),
{
    reveal_strlit(".exe");
    if text::has_suffix(arg, ".exe"@) {
        let n = arg.len() - 4;
        if i >= n {
            assert(arg.skip(n)[i - n] == arg[i]);
        }
        assert(arg.take(n)[i] == arg[i]);
        lemma_stripped_keeps(arg.take(n), i);
    }
}

/// A quote refuses the path of a program.
pub proof fn law_quotes_refuse_a_path(arg: Seq<char>, i: int)
    requires
        is_trimmed(arg),
        0 <= i < arg.len(),
        arg[i] == '"' || arg[i] == '\'',
    ensures
        expanded("exe:"@ + arg) is None,
        expanded("lnk:"@ + arg) is None,
        arg[i] == '\'' ==> expanded("url:"@ + arg) is None,
{
    lemma_shortcuts(arg);
    lemma_launchers();
    assert(arg.contains(arg[i]));
}

proof fn lemma_safe_path(arg: Seq<char>)
    requires
        arg.len() > 0,
        forall|i: int|
            0 <= i < arg.len() ==> (#[trigger] arg[i]) != ';' && arg[i] != '|' && arg[i] != '&'
                && arg[i] != '$' && arg[i] != '`' && arg[i] != '\n' && arg[i] != '\r' && arg[i]
                != '"' && arg[i] != '\'',
    ensures
        safe_path(arg),
{
    assert forall|i: int| 0 <= i < arg.len() implies !shell_char(#[trigger] arg[i]) by {}
}

proof fn lemma_extension_at(arg: Seq<char>, ext: Seq<char>, j: int)
    requires
        0 <= j,
        j + ext.len() <= arg.len(),
        text::ascii_lower_all(ext) == ext,
    ensures
        text::occurs_at(text::ascii_lower_all(arg), ext, j) <==> text::same_ignoring_case(
            arg.subrange(j, j + ext.len()),
            ext,
        ),
{
    assert(text::ascii_lower_all(arg).subrange(j, j + ext.len()) =~= text::ascii_lower_all(
        arg.subrange(j, j + ext.len()),
    ));
}

/// A program is started with all of its arguments: its path ends at the first `.exe` that
/// a space follows, in any letter case, and what follows the space goes to the program as
/// it is. A path with a space stands in quotes.
pub proof fn law_programs_get_their_arguments(path: Seq<char>, args: Seq<char>)
    requires
        path.len() >= 4,
        text::same_ignoring_case(path.skip(path.len() - 4), ".exe"@),
        !text::white_space(path[0]),
        is_trimmed(args),
        forall|j: int|
            0 <= j < path.len() - 4 ==> !text::same_ignoring_case(
                #[trigger] (path + " "@ + args).subrange(j, j + 5),
                ".exe "@,
            ),
        forall|i: int|
            {
                let c = #[trigger] (path + " "@ + args)[i];
                0 <= i < path.len() + 1 + args.len() ==> c != ';' && c != '|' && c != '&' && c
                    != '$' && c != '`' && c != '\n' && c != '\r' && c != '"' && c != '\''
            },
    ensures
        ({
            let program = if path.contains(' ') {
                "\""@ + path + "\""@
            } else {
                path
            };
            let command = "Start-Process "@ + program + " -ArgumentList '"@ + args + "'"@;
            &&& expanded("exe:"@ + (path + " "@ + args)) == Some(command)
            &&& expanded("lnk:"@ + (path + " "@ + args)) == Some(command)
        }),
{
    reveal_strlit(" ");
    reveal_strlit("\"");
    reveal_strlit(".exe");
    reveal_strlit(".exe ");
    let arg = path + " "@ + args;
    let lower = text::ascii_lower_all(arg);
    let at = path.len() - 4;
    assert(arg[0] == path[0] && arg.last() == args.last());
    lemma_shortcuts(arg);
    lemma_launchers();
    assert forall|i: int| 0 <= i < arg.len() implies (#[trigger] arg[i]) != ';' && arg[i] != '|'
        && arg[i] != '&' && arg[i] != '$' && arg[i] != '`' && arg[i] != '\n' && arg[i] != '\r'
        && arg[i] != '"' && arg[i] != '\'' by {
        assert((path + " "@ + args)[i] == arg[i]);
    }
    lemma_safe_path(arg);
    assert(text::ascii_lower_all(".exe "@) =~= ".exe "@);
    assert forall|j: int| 0 <= j < at implies !text::occurs_at(lower, ".exe "@, j) by {
        lemma_extension_at(arg, ".exe "@, j);
        assert((path + " "@ + args).subrange(j, j + 5) == arg.subrange(j, j + 5));
    }
    let here = arg.subrange(at, at + 5);
    let tail = path.skip(at);
    assert(here =~= tail + " "@);
    assert(text::ascii_lower_all(here) =~= ".exe "@) by {
        assert(text::ascii_lower_all(tail) == text::ascii_lower_all(".exe"@));
        assert(text::ascii_lower_all(".exe"@) =~= ".exe"@);
        assert(text::ascii_lower_all(here) =~= text::ascii_lower_all(tail) + " "@);
        assert(".exe"@ + " "@ =~= ".exe "@);
    }
    lemma_extension_at(arg, ".exe "@, at);
    text::lemma_before_first_is(lower, ".exe "@, at);
    assert(lower.take(at).len() == at);
    assert(arg.take(at + 4) =~= path);
    assert(arg.skip(at + 5) =~= args);
    let none = Seq::<char>::empty();
    text::law_trim(none, args, none);
    assert(none + args + none =~= args);
    if path.contains(' ') && text::has_prefix(path, "\""@) {
        assert(path.take(1)[0] == path[0]);
        assert(arg[0] == '"');
    }
}

/// A path in which neither `.exe` nor `.lnk` is followed by a space is the whole argument.
pub proof fn law_programs_without_arguments(arg: Seq<char>)
    requires
        is_trimmed(arg),
        forall|j: int|
            0 <= j && j + 5 <= arg.len() ==> !text::same_ignoring_case(
                #[trigger] arg.subrange(j, j + 5),
                ".exe "@,
            ) && !text::same_ignoring_case(arg.subrange(j, j + 5), ".lnk "@),
        forall|i: int|
            0 <= i < arg.len() ==> (#[trigger] arg[i]) != ';' && arg[i] != '|' && arg[i] != '&'
                && arg[i] != '$' && arg[i] != '`' && arg[i] != '\n' && arg[i] != '\r' && arg[i]
                != '"' && arg[i] != '\'',
    ensures
        ({
            let program = if arg.contains(' ') {
                "\""@ + arg + "\""@
            } else {
                arg
            };
            &&& expanded("exe:"@ + arg) == Some("Start-Process "@ + program)
            &&& expanded("lnk:"@ + arg) == Some("Start-Process "@ + program)
        }),
{
    reveal_strlit("\"");
    reveal_strlit(".exe ");
    reveal_strlit(".lnk ");
    let lower = text::ascii_lower_all(arg);
    lemma_shortcuts(arg);
    lemma_launchers();
    lemma_safe_path(arg);
    assert(text::ascii_lower_all(".exe "@) =~= ".exe "@);
    assert(text::ascii_lower_all(".lnk "@) =~= ".lnk "@);
    text::lemma_before_first(lower, ".exe "@);
    text::lemma_before_first(lower, ".lnk "@);
    assert forall|j: int|
        !text::occurs_at(lower, ".exe "@, j) && !text::occurs_at(lower, ".lnk "@, j) by {
        if 0 <= j && j + 5 <= arg.len() {
            lemma_extension_at(arg, ".exe "@, j);
            lemma_extension_at(arg, ".lnk "@, j);
            assert(arg.subrange(j, j + 5) == arg.subrange(j, j + 5));
        }
    }
    if text::has_prefix(arg, "\""@) {
        assert(arg.take(1)[0] == arg[0]);
    }
}

/// A shortcut file is started with all of its arguments, as a program is, where no `.exe`
/// is followed by a space.
pub proof fn law_shortcut_files_get_their_arguments(path: Seq<char>, args: Seq<char>)
    requires
        path.len() >= 4,
        text::same_ignoring_case(path.skip(path.len() - 4), ".lnk"@),
        !text::white_space(path[0]),
        is_trimmed(args),
        forall|j: int|
            0 <= j && j + 5 <= path.len() + 1 + args.len() ==> !text::same_ignoring_case(
                #[trigger] (path + " "@ + args).subrange(j, j + 5),
                ".exe "@,
            ) && (j < path.len() - 4 ==> !text::same_ignoring_case(
                (path + " "@ + args).subrange(j, j + 5),
                ".lnk "@,
            )),
        forall|i: int|
            {
                let c = #[trigger] (path + " "@ + args)[i];
                0 <= i < path.len() + 1 + args.len() ==> c != ';' && c != '|' && c != '&' && c
                    != '$' && c != '`' && c != '\n' && c != '\r' && c != '"' && c != '\''
            },
    ensures
        ({
            let program = if path.contains(' ') {
                "\""@ + path + "\""@
            } else {
                path
            };
            let command = "Start-Process "@ + program + " -ArgumentList '"@ + args + "'"@;
            &&& expanded("exe:"@ + (path + " "@ + args)) == Some(command)
            &&& expanded("lnk:"@ + (path + " "@ + args)) == Some(command)
        }),
{
    reveal_strlit(" ");
    reveal_strlit("\"");
    reveal_strlit(".exe ");
    reveal_strlit(".lnk");
    reveal_strlit(".lnk ");
    let arg = path + " "@ + args;
    let lower = text::ascii_lower_all(arg);
    let at = path.len() - 4;
    assert(" "@.len() == 1);
    assert(arg[0] == path[0] && arg.last() == args.last());
    lemma_shortcuts(arg);
    lemma_launchers();
    assert forall|i: int| 0 <= i < arg.len() implies (#[trigger] arg[i]) != ';' && arg[i] != '|'
        && arg[i] != '&' && arg[i] != '$' && arg[i] != '`' && arg[i] != '\n' && arg[i] != '\r'
        && arg[i] != '"' && arg[i] != '\'' by {
        assert((path + " "@ + args)[i] == arg[i]);
    }
    lemma_safe_path(arg);
    assert(text::ascii_lower_all(".exe "@) =~= ".exe "@);
    assert(text::ascii_lower_all(".lnk "@) =~= ".lnk "@);
    text::lemma_before_first(lower, ".exe "@);
    assert forall|j: int| !text::occurs_at(lower, ".exe "@, j) by {
        if 0 <= j && j + 5 <= arg.len() {
            lemma_extension_at(arg, ".exe "@, j);
            assert((path + " "@ + args).subrange(j, j + 5) == arg.subrange(j, j + 5));
        }
    }
    assert forall|j: int| 0 <= j < at implies !text::occurs_at(lower, ".lnk "@, j) by {
        lemma_extension_at(arg, ".lnk "@, j);
        assert((path + " "@ + args).subrange(j, j + 5) == arg.subrange(j, j + 5));
    }
    let here = arg.subrange(at, at + 5);
    let tail = path.skip(at);
    assert(here =~= tail + " "@);
    assert(text::ascii_lower_all(here) =~= ".lnk "@) by {
        assert(text::ascii_lower_all(tail) == text::ascii_lower_all(".lnk"@));
        assert(text::ascii_lower_all(".lnk"@) =~= ".lnk"@);
        assert(text::ascii_lower_all(here) =~= text::ascii_lower_all(tail) + " "@);
        assert(".lnk"@ + " "@ =~= ".lnk "@);
    }
    lemma_extension_at(arg, ".lnk "@, at);
    text::lemma_before_first_is(lower, ".lnk "@, at);
    assert(lower.take(at).len() == at);
    assert(arg.take(at + 4) =~= path);
    assert(arg.skip(at + 5) =~= args);
    let none = Seq::<char>::empty();
    text::law_trim(none, args, none);
    assert(none + args + none =~= args);
    if path.contains(' ') && text::has_prefix(path, "\""@) {
        assert(path.take(1)[0] == path[0]);
        assert(arg[0] == '"');
    }
}

/// A URL is opened as it is where a scheme of ASCII letters, digits, dots, dashes and plus
/// signs stands in front of its first `://`, and where it holds no character that the
/// shell gives a meaning to and no single quote.
pub proof fn law_urls_are_opened(scheme: Seq<char>, rest: Seq<char>)
    requires
        scheme.len() > 0,
        forall|i: int|
            0 <= i < scheme.len() ==> '0' <= (#[trigger] scheme[i]) <= '9' || 'a' <= scheme[i]
                <= 'z' || 'A' <= scheme[i] <= 'Z' || scheme[i] == '.' || scheme[i] == '-'
                || scheme[i] == '+',
        rest.len() > 0 ==> !text::white_space(rest.last()),
        forall|i: int|
            0 <= i < rest.len() ==> (#[trigger] rest[i]) != ';' && rest[i] != '|' && rest[i] != '&'
                && rest[i] != '$' && rest[i] != '`' && rest[i] != '\n' && rest[i] != '\r' && rest[i]
                != '\'',
    ensures
        expanded("url:"@ + (scheme + "://"@ + rest)) == Some(
            "Start-Process \""@ + (scheme + "://"@ + rest) + "\""@,
        ),
{
    reveal_strlit("://");
    let arg = scheme + "://"@ + rest;
    assert(arg[0] == scheme[0]);
    assert(!text::white_space(arg[0]));
    assert(arg.last() == if rest.len() > 0 {
        rest.last()
    } else {
        '/'
    });
    lemma_shortcuts(arg);
    lemma_launchers();
    lemma_url(scheme, rest);
}

/// A text without `://`, or with another character in front of it, is no URL.
pub proof fn law_urls_need_a_scheme(arg: Seq<char>, n: int)
    requires
        is_trimmed(arg),
        forall|j: int|
            0 <= j < n && j + 3 <= arg.len() ==> #[trigger] arg.subrange(j, j + 3) != "://"@,
        n + 3 > arg.len() || n == 0 || exists|i: int|
            0 <= i < n && !('0' <= (#[trigger] arg[i]) <= '9' || 'a' <= arg[i] <= 'z' || 'A'
                <= arg[i] <= 'Z' || arg[i] == '.' || arg[i] == '-' || arg[i] == '+'),
        0 <= n,
        n + 3 <= arg.len() ==> arg.subrange(n, n + 3) == "://"@,
    ensures
        expanded("url:"@ + arg) is None,
{
    reveal_strlit("://");
    lemma_shortcuts(arg);
    lemma_launchers();
    if n + 3 > arg.len() {
        text::lemma_before_first(arg, "://"@);
        assert forall|j: int| !text::occurs_at(arg, "://"@, j) by {
            if 0 <= j && j + 3 <= arg.len() {
                assert(arg.subrange(j, j + 3) != "://"@);
            }
        }
    } else {
        assert forall|j: int| 0 <= j < n implies !text::occurs_at(arg, "://"@, j) by {
            assert(arg.subrange(j, j + 3) != "://"@);
        }
        text::lemma_before_first_is(arg, "://"@, n);
        let scheme = arg.take(n);
        if n > 0 {
            let i = choose|i: int|
                0 <= i < n && !('0' <= (#[trigger] arg[i]) <= '9' || 'a' <= arg[i] <= 'z' || 'A'
                    <= arg[i] <= 'Z' || arg[i] == '.' || arg[i] == '-' || arg[i] == '+');
            assert(!scheme_char(scheme[i]));
        }
    }
}

/// Such a text is a URL.
pub proof fn lemma_url(scheme: Seq<char>, rest: Seq<char>)
    requires
        scheme.len() > 0,
        forall|i: int|
            0 <= i < scheme.len() ==> '0' <= (#[trigger] scheme[i]) <= '9' || 'a' <= scheme[i]
                <= 'z' || 'A' <= scheme[i] <= 'Z' || scheme[i] == '.' || scheme[i] == '-'
                || scheme[i] == '+',
        forall|i: int|
            0 <= i < rest.len() ==> (#[trigger] rest[i]) != ';' && rest[i] != '|' && rest[i] != '&'
                && rest[i] != '$' && rest[i] != '`' && rest[i] != '\n' && rest[i] != '\r' && rest[i]
                != '\'',
    ensures
        safe_url(scheme + "://"@ + rest),
{
    reveal_strlit("://");
    let arg = scheme + "://"@ + rest;
    let n = scheme.len() as int;
    assert(arg.subrange(n, n + 3) =~= "://"@);
    assert forall|j: int| 0 <= j < n implies !text::occurs_at(arg, "://"@, j) by {
        if text::occurs_at(arg, "://"@, j) {
            assert(arg.subrange(j, j + 3)[0] == arg[j]);
            assert(arg[j] == scheme[j]);
        }
    }
    text::lemma_before_first_is(arg, "://"@, n);
    assert(arg.take(n) =~= scheme);
    assert forall|i: int| 0 <= i < scheme.len() implies scheme_char(#[trigger] scheme[i]) by {}
    assert forall|i: int|
        0 <= i < arg.len() implies !shell_char(#[trigger] arg[i]) && arg[i] != '\'' by {
        if i < n {
            assert(arg[i] == scheme[i]);
        } else if i < n + 3 {
            assert(arg[i] == "://"@[i - n]);
        } else {
            assert(arg[i] == rest[i - n - 3]);
        }
    }
}

} // verus!
