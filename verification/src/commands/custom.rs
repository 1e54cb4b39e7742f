//! Custom commands: which one a name stands for, whether it may run, and the
//! process that it starts on each platform.

use crate::config::{Config, CustomCommand, CustomCommandType};
use crate::text;
use crate::text::{chars_of, clone_strings, join_strings};
use vstd::prelude::*;
use vstd::string::*;

verus! {

/// The platform that a command runs on.
#[derive(Debug, Clone, Copy, PartialEq, Eq, Structural)]
pub enum Platform {
    Windows,
    Unix,
}

/// A process to start.
#[derive(Debug, Clone)]
pub struct Invocation {
    pub program: String,
    pub args: Vec<String>,
}

/// A process to start, as plain values.
pub struct InvocationView {
    pub program: Seq<char>,
    pub args: Seq<Seq<char>>,
}

impl View for Invocation {
    type V = InvocationView;

    open spec fn view(&self) -> InvocationView {
        InvocationView { program: self.program@, args: text::views(self.args@) }
    }
}

/// `s` with each single quote doubled, as a PowerShell string literal needs it.
pub open spec fn escaped(s: Seq<char>) -> Seq<char>
    decreases s.len(),
{
    if s.len() == 0 {
        seq![]
    } else if s.last() == '\'' {
        escaped(s.drop_last()).push('\'').push('\'')
    } else {
        escaped(s.drop_last()).push(s.last())
    }
}

/// Doubles each single quote.
pub fn escape_quotes(s: &str) -> (r: String)
    ensures
        r@ == escaped(s@),
{
    let cs = chars_of(s);
    let mut out = String::new();
    let mut i: usize = 0;
    while i < cs.len()
        invariant
            i <= cs.len(),
            out@ == escaped(cs@.take(i as int)),
        decreases cs.len() - i,
    {
        proof {
            assert(cs@.take(i + 1).drop_last() =~= cs@.take(i as int));
            assert(cs@.take(i + 1).last() == cs@[i as int]);
        }
        if cs[i] == '\'' {
            out.push('\'');
            out.push('\'');
        } else {
            out.push(cs[i]);
        }
        i += 1;
    }
    proof {
        assert(cs@.take(cs@.len() as int) =~= cs@);
    }
    out
}

/// PowerShell runs `command`.
pub open spec fn powershell(command: Seq<char>) -> InvocationView {
    InvocationView {
        program: "powershell"@,
        args: seq!["-NoProfile"@, "-Command"@, command],
    }
}

/// The arguments of an executable command.
pub open spec fn given_args(args: Option<Vec<String>>) -> Seq<Seq<char>> {
    match args {
        Some(a) => text::views(a@),
        None => seq![],
    }
}

/// The process that a custom command starts, or what it lacks. On Windows an
/// administrator command goes through `Start-Process -Verb RunAs`, on Unix
/// through `sudo`.
pub open spec fn custom_invocation(
    c: CustomCommand,
    platform: Platform,
) -> Result<InvocationView, Seq<char>> {
    match (c.command_type, platform) {
        (CustomCommandType::Powershell, Platform::Windows) => match c.script {
            None => Err("No script for powershell command"@),
            Some(script) => if c.admin {
                Ok(
                    powershell(
                        "Start-Process powershell -Verb RunAs -ArgumentList '-NoProfile -Command \""@
                            + escaped(script@) + "\"'"@,
                    ),
                )
            } else {
                Ok(powershell(script@))
            },
        },
        (CustomCommandType::Powershell, Platform::Unix) => Err(
            "PowerShell not available on this platform"@,
        ),
        (CustomCommandType::Executable, Platform::Windows) => match c.path {
            None => Err("No path for executable command"@),
            Some(path) => if c.admin {
                Ok(
                    powershell(
                        "Start-Process '"@ + path@ + "' -Verb RunAs -ArgumentList '"@ + text::join(
                            given_args(c.args),
                            " "@,
                        ) + "'"@,
                    ),
                )
            } else {
                Ok(InvocationView { program: path@, args: given_args(c.args) })
            },
        },
        (CustomCommandType::Executable, Platform::Unix) => match c.path {
            None => Err("No path for executable command"@),
            Some(path) => if c.admin {
                Ok(InvocationView { program: "sudo"@, args: seq![path@] + given_args(c.args) })
            } else {
                Ok(InvocationView { program: path@, args: given_args(c.args) })
            },
        },
        (CustomCommandType::Shell, Platform::Windows) => match c.command {
            None => Err("No command for shell command"@),
            Some(command) => if c.admin {
                Ok(
                    powershell(
                        "Start-Process cmd -Verb RunAs -ArgumentList '/c "@ + escaped(command@)
                            + "'"@,
                    ),
                )
            } else {
                Ok(InvocationView { program: "cmd"@, args: seq!["/c"@, command@] })
            },
        },
        (CustomCommandType::Shell, Platform::Unix) => match c.command {
            None => Err("No command for shell command"@),
            Some(command) => if c.admin {
                Ok(InvocationView { program: "sudo"@, args: seq!["sh"@, "-c"@, command@] })
            } else {
                Ok(InvocationView { program: "sh"@, args: seq!["-c"@, command@] })
            },
        },
    }
}

fn run_powershell(command: String) -> (r: Invocation)
    ensures
        r@ == powershell(command@),
{
    let r = Invocation {
        program: "powershell".to_string(),
        args: vec!["-NoProfile".to_string(), "-Command".to_string(), command],
    };
    proof {
        assert(text::views(r.args@) =~= seq!["-NoProfile"@, "-Command"@, command@]);
    }
    r
}

fn three(a: &str, b: &str, c: &str) -> (r: String)
    ensures
        r@ == a@ + b@ + c@,
{
    let mut s = a.to_string();
    s.append(b);
    s.append(c);
    s
}

fn args_or_none(args: &Option<Vec<String>>) -> (r: Vec<String>)
    ensures
        text::views(r@) == given_args(*args),
{
    match args {
        Some(a) => clone_strings(a),
        None => {
            let r: Vec<String> = Vec::new();
            proof {
                assert(text::views(r@) =~= Seq::<Seq<char>>::empty());
            }
            r
        },
    }
}

fn execute_powershell(c: &CustomCommand, platform: Platform) -> (r: Result<Invocation, String>)
    requires
        c.command_type == CustomCommandType::Powershell,
    ensures
        match r {
            Ok(i) => custom_invocation(*c, platform) == Ok::<InvocationView, Seq<char>>(i@),
            Err(m) => custom_invocation(*c, platform) == Err::<InvocationView, Seq<char>>(m@),
        },
{
    if platform == Platform::Unix {
        return Err("PowerShell not available on this platform".to_string());
    }
    match &c.script {
        None => Err("No script for powershell command".to_string()),
        Some(script) => if c.admin {
            Ok(
                run_powershell(
                    three(
                        "Start-Process powershell -Verb RunAs -ArgumentList '-NoProfile -Command \"",
                        &escape_quotes(script),
                        "\"'",
                    ),
                ),
            )
        } else {
            Ok(run_powershell(script.clone()))
        },
    }
}

fn execute_executable(c: &CustomCommand, platform: Platform) -> (r: Result<Invocation, String>)
    requires
        c.command_type == CustomCommandType::Executable,
    ensures
        match r {
            Ok(i) => custom_invocation(*c, platform) == Ok::<InvocationView, Seq<char>>(i@),
            Err(m) => custom_invocation(*c, platform) == Err::<InvocationView, Seq<char>>(m@),
        },
{
    match &c.path {
        None => Err("No path for executable command".to_string()),
        Some(path) => {
            let args = args_or_none(&c.args);
            if !c.admin {
                return Ok(Invocation { program: path.clone(), args });
            }
            if platform == Platform::Windows {
                let mut s = three("Start-Process '", path, "' -Verb RunAs -ArgumentList '");
                s.append(&join_strings(&args, " "));
                s.append("'");
                return Ok(run_powershell(s));
            }
            let mut all: Vec<String> = vec![path.clone()];
            let ghost head = seq![path@];
            proof {
                assert(text::views(all@) =~= head);
                assert(head + text::views(args@).take(0) =~= head);
            }
            let mut i: usize = 0;
            while i < args.len()
                invariant
                    i <= args.len(),
                    text::views(all@) == head + text::views(args@).take(i as int),
                decreases args.len() - i,
            {
                let ghost before = all@;
                all.push(args[i].clone());
                proof {
                    let a = text::views(args@);
                    assert(a.take(i + 1) =~= a.take(i as int).push(a[i as int]));
                    assert(text::views(all@) =~= text::views(before).push(a[i as int]));
                    assert(text::views(all@) =~= head + a.take(i + 1));
                }
                i += 1;
            }
            proof {
                assert(text::views(args@).take(args@.len() as int) =~= text::views(args@));
            }
            Ok(Invocation { program: "sudo".to_string(), args: all })
        },
    }
}

fn execute_shell(c: &CustomCommand, platform: Platform) -> (r: Result<Invocation, String>)
    requires
        c.command_type == CustomCommandType::Shell,
    ensures
        match r {
            Ok(i) => custom_invocation(*c, platform) == Ok::<InvocationView, Seq<char>>(i@),
            Err(m) => custom_invocation(*c, platform) == Err::<InvocationView, Seq<char>>(m@),
        },
{
    match &c.command {
        None => Err("No command for shell command".to_string()),
        Some(command) => {
            if platform == Platform::Windows && c.admin {
                return Ok(
                    run_powershell(
                        three(
                            "Start-Process cmd -Verb RunAs -ArgumentList '/c ",
                            &escape_quotes(command),
                            "'",
                        ),
                    ),
                );
            }
            let (program, args): (&str, Vec<String>) = if platform == Platform::Windows {
                ("cmd", vec!["/c".to_string(), command.clone()])
            } else if c.admin {
                ("sudo", vec!["sh".to_string(), "-c".to_string(), command.clone()])
            } else {
                ("sh", vec!["-c".to_string(), command.clone()])
            };
            proof {
                if platform == Platform::Windows {
                    assert(text::views(args@) =~= seq!["/c"@, command@]);
                } else if c.admin {
                    assert(text::views(args@) =~= seq!["sh"@, "-c"@, command@]);
                } else {
                    assert(text::views(args@) =~= seq!["-c"@, command@]);
                }
            }
            Ok(Invocation { program: program.to_string(), args })
        },
    }
}

/// The process that a custom command starts, or what it lacks.
pub fn invocation(c: &CustomCommand, platform: Platform) -> (r: Result<Invocation, String>)
    ensures
        match r {
            Ok(i) => custom_invocation(*c, platform) == Ok::<InvocationView, Seq<char>>(i@),
            Err(m) => custom_invocation(*c, platform) == Err::<InvocationView, Seq<char>>(m@),
        },
{
    match c.command_type {
        CustomCommandType::Powershell => execute_powershell(c, platform),
        CustomCommandType::Executable => execute_executable(c, platform),
        CustomCommandType::Shell => execute_shell(c, platform),
    }
}

// ---------------------------------------------------------------------------
// By name
// ---------------------------------------------------------------------------

/// The first command with the name, if there is one.
pub open spec fn command_named(cmds: Seq<CustomCommand>, name: Seq<char>) -> Option<CustomCommand>
    decreases cmds.len(),
{
    if cmds.len() == 0 {
        None
    } else if cmds[0].name@ == name {
        Some(cmds[0])
    } else {
        command_named(cmds.skip(1), name)
    }
}

/// What a name leads to: nothing where custom commands are off or none has the
/// name, an error where it needs privileges that are not allowed or lacks a
/// field, and else a process.
pub open spec fn custom_outcome(
    c: Config,
    name: Seq<char>,
    platform: Platform,
) -> Result<Option<InvocationView>, Seq<char>> {
    if !c.custom_commands_enabled {
        Ok(None)
    } else {
        match command_named(c.custom_commands@, name) {
            None => Ok(None),
            Some(cmd) => if cmd.admin && !c.custom_command_privileges_allowed {
                Err("Admin command blocked - custom_command_privileges_allowed is false"@)
            } else {
                match custom_invocation(cmd, platform) {
                    Ok(i) => Ok(Some(i)),
                    Err(m) => Err(m),
                }
            },
        }
    }
}

fn find_command(cmds: &Vec<CustomCommand>, name: &str) -> (r: Option<usize>)
    ensures
        match r {
            Some(i) => i < cmds@.len() && command_named(cmds@, name@) == Some(cmds@[i as int]),
            None => command_named(cmds@, name@) is None,
        },
{
    let mut i: usize = 0;
    proof {
        assert(cmds@.skip(0) =~= cmds@);
    }
    while i < cmds.len()
        invariant
            i <= cmds.len(),
            command_named(cmds@, name@) == command_named(cmds@.skip(i as int), name@),
        decreases cmds.len() - i,
    {
        proof {
            assert(cmds@.skip(i as int)[0] == cmds@[i as int]);
            assert(cmds@.skip(i as int).skip(1) =~= cmds@.skip(i + 1));
        }
        if cmds[i].name.as_str().eq(name) {
            return Some(i);
        }
        i += 1;
    }
    None
}

/// What a command name leads to among the custom commands. `Ok(None)` means that
/// it is none of them.
pub fn execute_custom_command(config: &Config, name: &str, platform: Platform) -> (r: Result<
    Option<Invocation>,
    String,
>)
    ensures
        match r {
            Ok(None) => custom_outcome(*config, name@, platform) == Ok::<
                Option<InvocationView>,
                Seq<char>,
            >(None),
            Ok(Some(i)) => custom_outcome(*config, name@, platform) == Ok::<
                Option<InvocationView>,
                Seq<char>,
            >(Some(i@)),
            Err(m) => custom_outcome(*config, name@, platform) == Err::<
                Option<InvocationView>,
                Seq<char>,
            >(m@),
        },
{
    if !config.custom_commands_enabled {
        return Ok(None);
    }
    match find_command(&config.custom_commands, name) {
        None => Ok(None),
        Some(k) => {
            let cmd = &config.custom_commands[k];
            if cmd.admin && !config.custom_command_privileges_allowed {
                return Err(
                    "Admin command blocked - custom_command_privileges_allowed is false".to_string(),
                );
            }
            match invocation(cmd, platform) {
                Ok(i) => Ok(Some(i)),
                Err(m) => Err(m),
            }
        },
    }
}

/// Without the permission no administrator command ever starts a process, and
/// with custom commands off none does.
pub proof fn law_nothing_runs_without_permission(c: Config, name: Seq<char>, platform: Platform)
    ensures
        !c.custom_commands_enabled ==> custom_outcome(c, name, platform) == Ok::<
            Option<InvocationView>,
            Seq<char>,
        >(None),
        !c.custom_command_privileges_allowed && (command_named(c.custom_commands@, name) matches Some(
            cmd,
        ) && cmd.admin) ==> !(custom_outcome(c, name, platform) matches Ok(Some(_))),
{
}

proof fn lemma_first_named(cmds: Seq<CustomCommand>, name: Seq<char>, k: int)
    requires
        0 <= k <= cmds.len(),
        k < cmds.len() ==> cmds[k].name@ == name,
        forall|j: int| 0 <= j < k ==> (#[trigger] cmds[j]).name@ != name,
    ensures
        command_named(cmds, name) == (if k < cmds.len() {
            Some(cmds[k])
        } else {
            None
        }),
    decreases k,
{
    if k > 0 {
        let rest = cmds.skip(1);
        assert(cmds[0].name@ != name);
        assert forall|j: int| 0 <= j < k - 1 implies (#[trigger] rest[j]).name@ != name by {
            assert(rest[j] == cmds[j + 1]);
        }
        if k < cmds.len() {
            assert(rest[k - 1] == cmds[k]);
        }
        lemma_first_named(rest, name, k - 1);
    }
}

/// A name runs the first custom command that has it, wherever that stands in the
/// configuration: its process, or why there is none. An administrator command needs the
/// permission for it.
pub proof fn law_the_named_command_runs(c: Config, name: Seq<char>, platform: Platform, k: int)
    requires
        c.custom_commands_enabled,
        0 <= k < c.custom_commands@.len(),
        c.custom_commands@[k].name@ == name,
        forall|j: int| 0 <= j < k ==> (#[trigger] c.custom_commands@[j]).name@ != name,
    ensures
        c.custom_commands@[k].admin && !c.custom_command_privileges_allowed ==> custom_outcome(
            c,
            name,
            platform,
        ) == Err::<Option<InvocationView>, Seq<char>>(
            "Admin command blocked - custom_command_privileges_allowed is false"@,
        ),
        !c.custom_commands@[k].admin || c.custom_command_privileges_allowed ==> match (
            custom_outcome(c, name, platform),
            custom_invocation(c.custom_commands@[k], platform),
        ) {
            (Ok(Some(run)), Ok(wanted)) => run == wanted,
            (Err(said), Err(wanted)) => said == wanted,
            _ => false,
        },
{
    lemma_first_named(c.custom_commands@, name, k);
}

/// A name is none of the custom commands exactly where these are off or none has it.
pub proof fn law_other_names_are_left_alone(c: Config, name: Seq<char>, platform: Platform)
    ensures
        custom_outcome(c, name, platform) == Ok::<Option<InvocationView>, Seq<char>>(None)
            <==> !c.custom_commands_enabled || forall|j: int|
            0 <= j < c.custom_commands@.len() ==> (#[trigger] c.custom_commands@[j]).name@ != name,
{
    let cmds = c.custom_commands@;
    if forall|j: int| 0 <= j < cmds.len() ==> (#[trigger] cmds[j]).name@ != name {
        lemma_first_named(cmds, name, cmds.len() as int);
    } else {
        let j = choose|j: int| 0 <= j < cmds.len() && (#[trigger] cmds[j]).name@ == name;
        lemma_some_named(cmds, name, j);
    }
}

proof fn lemma_some_named(cmds: Seq<CustomCommand>, name: Seq<char>, j: int)
    requires
        0 <= j < cmds.len(),
        cmds[j].name@ == name,
    ensures
        command_named(cmds, name) is Some,
    decreases cmds.len(),
{
    if cmds[0].name@ != name {
        assert(cmds.skip(1)[j - 1] == cmds[j]);
        lemma_some_named(cmds.skip(1), name, j - 1);
    }
}

/// The process that a command without administrator rights starts: a script goes to
/// PowerShell, a program is started with its own arguments, and a shell command goes to
/// the shell of the platform. What a command lacks, or that there is no PowerShell, is
/// said.
pub proof fn law_plain_commands(cmd: CustomCommand)
    requires
        !cmd.admin,
    ensures
        cmd.command_type == CustomCommandType::Powershell ==> {
            &&& cmd.script matches Some(script) ==> custom_invocation(cmd, Platform::Windows)
                == Ok::<InvocationView, Seq<char>>(
                InvocationView {
                    program: "powershell"@,
                    args: seq!["-NoProfile"@, "-Command"@, script@],
                },
            )
        },
        cmd.command_type == CustomCommandType::Executable ==> forall|platform: Platform|
            {
                let r = #[trigger] custom_invocation(cmd, platform);
                cmd.path matches Some(path) ==> r matches Ok(i) && i.program == path@ && {
                    &&& cmd.args is None ==> i.args.len() == 0
                    &&& cmd.args matches Some(args) ==> {
                        &&& i.args.len() == args@.len()
                        &&& forall|q: int|
                            0 <= q < args@.len() ==> (#[trigger] i.args[q]) == args@[q]@
                    }
                }
            },
        cmd.command_type == CustomCommandType::Shell ==> {
            &&& cmd.command matches Some(command) ==> {
                &&& custom_invocation(cmd, Platform::Windows) == Ok::<InvocationView, Seq<char>>(
                    InvocationView { program: "cmd"@, args: seq!["/c"@, command@] },
                )
                &&& custom_invocation(cmd, Platform::Unix) == Ok::<InvocationView, Seq<char>>(
                    InvocationView { program: "sh"@, args: seq!["-c"@, command@] },
                )
            }
        },
{
}

/// The process that an administrator command starts: on Unix the same as without these
/// rights behind `sudo`, on Windows PowerShell, which starts it elevated.
pub proof fn law_administrator_commands(cmd: CustomCommand)
    requires
        cmd.admin,
    ensures
        cmd.command_type == CustomCommandType::Powershell ==> {
            &&& cmd.script matches Some(script) ==> custom_invocation(cmd, Platform::Windows)
                == Ok::<InvocationView, Seq<char>>(
                InvocationView {
                    program: "powershell"@,
                    args: seq![
                        "-NoProfile"@,
                        "-Command"@,
                        "Start-Process powershell -Verb RunAs -ArgumentList '-NoProfile -Command \""@
                            + escaped(script@) + "\"'"@,
                    ],
                },
            )
        },
        cmd.command_type == CustomCommandType::Executable ==> {
            &&& cmd.path matches Some(path) ==> {
                &&& custom_invocation(cmd, Platform::Unix) matches Ok(i) && i.program == "sudo"@
                    && i.args[0] == path@ && {
                    &&& cmd.args is None ==> i.args.len() == 1
                    &&& cmd.args matches Some(args) ==> {
                        &&& i.args.len() == args@.len() + 1
                        &&& forall|q: int|
                            0 <= q < args@.len() ==> i.args[q + 1] == (#[trigger] args@[q])@
                    }
                }
                &&& custom_invocation(cmd, Platform::Windows) matches Ok(i) && i.program
                    == "powershell"@ && i.args.len() == 3 && i.args[0] == "-NoProfile"@
                    && i.args[1] == "-Command"@ && {
                    &&& cmd.args is None ==> i.args[2] == "Start-Process '"@ + path@
                        + "' -Verb RunAs -ArgumentList '"@ + "'"@
                    &&& cmd.args matches Some(args) ==> i.args[2] == "Start-Process '"@ + path@
                        + "' -Verb RunAs -ArgumentList '"@ + text::join(
                        text::views(args@),
                        " "@,
                    ) + "'"@
                }
            }
        },
        cmd.command_type == CustomCommandType::Shell ==> {
            &&& cmd.command matches Some(command) ==> {
                &&& custom_invocation(cmd, Platform::Windows) == Ok::<InvocationView, Seq<char>>(
                    InvocationView {
                        program: "powershell"@,
                        args: seq![
                            "-NoProfile"@,
                            "-Command"@,
                            "Start-Process cmd -Verb RunAs -ArgumentList '/c "@ + escaped(command@)
                                + "'"@,
                        ],
                    },
                )
                &&& custom_invocation(cmd, Platform::Unix) == Ok::<InvocationView, Seq<char>>(
                    InvocationView { program: "sudo"@, args: seq!["sh"@, "-c"@, command@] },
                )
            }
        },
{
    if cmd.command_type == CustomCommandType::Executable && cmd.path is Some && cmd.args is None {
        let head = "Start-Process '"@ + cmd.path->0@ + "' -Verb RunAs -ArgumentList '"@;
        assert(head + Seq::<char>::empty() + "'"@ =~= head + "'"@);
    }
}

/// What a command lacks is said, with or without administrator rights.
pub proof fn law_incomplete_commands(cmd: CustomCommand, platform: Platform)
    ensures
        cmd.command_type == CustomCommandType::Powershell && platform == Platform::Unix
            ==> custom_invocation(cmd, platform) == Err::<InvocationView, Seq<char>>(
            "PowerShell not available on this platform"@,
        ),
        cmd.command_type == CustomCommandType::Powershell && platform == Platform::Windows
            && cmd.script is None ==> custom_invocation(cmd, platform) == Err::<
            InvocationView,
            Seq<char>,
        >("No script for powershell command"@),
        cmd.command_type == CustomCommandType::Executable && cmd.path is None
            ==> custom_invocation(cmd, platform) == Err::<InvocationView, Seq<char>>(
            "No path for executable command"@,
        ),
        cmd.command_type == CustomCommandType::Shell && cmd.command is None ==> custom_invocation(
            cmd,
            platform,
        ) == Err::<InvocationView, Seq<char>>("No command for shell command"@),
{
}

/// Escaping doubles every single quote and leaves all else as it is.
pub proof fn law_every_quote_is_doubled(before: Seq<char>, after: Seq<char>)
    ensures
        !before.contains('\'') ==> escaped(before) == before,
        escaped(before + seq!['\''] + after) == escaped(before) + seq!['\'', '\''] + escaped(after),
{
    if !before.contains('\'') {
        lemma_nothing_to_escape(before);
    }
    let quoted = before + seq!['\''];
    assert(quoted.drop_last() =~= before);
    assert(escaped(quoted) =~= escaped(before) + seq!['\'', '\'']);
    lemma_escaped_parts(quoted, after);
}

proof fn lemma_nothing_to_escape(s: Seq<char>)
    requires
        !s.contains('\''),
    ensures
        escaped(s) == s,
    decreases s.len(),
{
    if s.len() > 0 {
        let r = s.drop_last();
        assert(s[s.len() - 1] != '\'');
        if r.contains('\'') {
            let i = choose|i: int| 0 <= i < r.len() && r[i] == '\'';
            assert(s[i] == '\'');
        }
        lemma_nothing_to_escape(r);
        assert(r.push(s.last()) =~= s);
    }
}

proof fn lemma_escaped_parts(a: Seq<char>, b: Seq<char>)
    ensures
        escaped(a + b) == escaped(a) + escaped(b),
    decreases b.len(),
{
    if b.len() == 0 {
        assert(a + b =~= a);
        assert(escaped(a) + escaped(b) =~= escaped(a));
    } else {
        lemma_escaped_parts(a, b.drop_last());
        assert((a + b).drop_last() =~= a + b.drop_last());
        assert(escaped(a + b) =~= escaped(a) + escaped(b));
    }
}

} // verus!
