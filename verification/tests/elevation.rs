//! Arguments on a Windows command line.

use pc_bridge::elevation::{append_arg, command_line, encode_utf16};

fn render(arg: &str) -> String {
    let mut buf = Vec::new();
    append_arg(&mut buf, arg);
    String::from_utf16(&buf).unwrap()
}

#[test]
fn plain_arg_unquoted() {
    assert_eq!(render("hello"), "hello");
}

#[test]
fn arg_with_space_is_quoted() {
    assert_eq!(render("hello world"), "\"hello world\"");
}

#[test]
fn empty_arg_is_quoted() {
    assert_eq!(render(""), "\"\"");
}

#[test]
fn embedded_quote_is_escaped() {
    assert_eq!(render("a\"b"), "\"a\\\"b\"");
}

#[test]
fn trailing_backslashes_doubled_when_quoted() {
    assert_eq!(render("a b\\\\"), "\"a b\\\\\\\\\"");
}

#[test]
fn backslashes_without_quote_untouched() {
    assert_eq!(render("c:\\path\\file"), "c:\\path\\file");
}

#[test]
fn command_line_ends_in_a_nul() {
    let line = command_line("powershell.exe", &["-Command", "a b", "say \"hi\""]);
    let (nul, text) = line.split_last().unwrap();
    assert_eq!(*nul, 0);
    assert_eq!(
        String::from_utf16(text).unwrap(),
        "powershell.exe -Command \"a b\" \"say \\\"hi\\\"\""
    );
}

#[test]
fn backslashes_before_a_quote_are_doubled() {
    assert_eq!(render("a\\\"b"), "\"a\\\\\\\"b\"");
}

#[test]
fn characters_beyond_the_basic_plane_take_two_units() {
    assert_eq!(encode_utf16("a\u{1F600}\u{20AC}"), vec![0x61, 0xD83D, 0xDE00, 0x20AC]);
}

/// Reads an argument back by the rules that a process reads its command line by.
fn read_back(units: &[u16]) -> Vec<u16> {
    let mut got = Vec::new();
    let mut slashes = 0;
    for &x in units {
        if x == 0x5C {
            slashes += 1;
        } else if x == 0x22 {
            got.extend(std::iter::repeat(0x5C).take(slashes / 2));
            if slashes % 2 == 1 {
                got.push(0x22);
            }
            slashes = 0;
        } else {
            got.extend(std::iter::repeat(0x5C).take(slashes));
            got.push(x);
            slashes = 0;
        }
    }
    got.extend(std::iter::repeat(0x5C).take(slashes));
    got
}

#[test]
fn arguments_are_read_back() {
    for arg in ["", "plain", "two words", "tab\there", "q\"q", "end\\\\", "a b\\\\", "\\\"", "\u{1F600} x"] {
        let mut buf = Vec::new();
        append_arg(&mut buf, arg);
        assert_eq!(read_back(&buf), encode_utf16(arg), "{arg:?}");
    }
}

/// Splits a line as a process does: the program first, then its arguments.
fn split_command(line: &[u16]) -> (Vec<u16>, Vec<Vec<u16>>) {
    let (quote, slash) = (u16::from(b'"'), u16::from(b'\\'));
    let blank = |x: u16| x == u16::from(b' ') || x == u16::from(b'\t');
    let end = line.iter().position(|&x| x == 0).unwrap();
    let mut rest = &line[..end];
    let program: Vec<u16>;
    if rest.first() == Some(&quote) {
        let n = rest[1..].iter().position(|&x| x == quote).unwrap();
        program = rest[1..1 + n].to_vec();
        rest = &rest[n + 2..];
    } else {
        let n = rest.iter().position(|&x| blank(x)).unwrap_or(rest.len());
        program = rest[..n].to_vec();
        rest = &rest[n..];
    }
    let mut args = Vec::new();
    let mut current: Option<Vec<u16>> = None;
    let (mut pending, mut quoted) = (0usize, false);
    for &x in rest {
        if current.is_none() && blank(x) {
            continue;
        }
        let arg = current.get_or_insert_with(Vec::new);
        if x == slash {
            pending += 1;
        } else if x == quote {
            arg.extend(std::iter::repeat(slash).take(pending / 2));
            if pending % 2 == 1 {
                arg.push(quote);
            } else {
                quoted = !quoted;
            }
            pending = 0;
        } else {
            arg.extend(std::iter::repeat(slash).take(pending));
            pending = 0;
            if blank(x) && !quoted {
                args.push(current.take().unwrap());
            } else {
                arg.push(x);
            }
        }
    }
    if let Some(mut arg) = current {
        arg.extend(std::iter::repeat(slash).take(pending));
        args.push(arg);
    }
    (program, args)
}

#[test]
fn a_whole_line_is_read_back() {
    let args = ["", "a", "", "b c\\", "say \"hi\"", "\\\\srv\\x y\\\\", "\\\"", "\t", "d\\", "\u{1F600} z"];
    for program in ["powershell.exe", "C:\\Program Files\\x.exe"] {
        let (first, read) = split_command(&command_line(program, &args));
        assert_eq!(first, encode_utf16(program));
        let wanted: Vec<Vec<u16>> = args.iter().map(|a| encode_utf16(a)).collect();
        assert_eq!(read, wanted);
    }
    assert!(split_command(&command_line("x", &[])).1.is_empty());
}
