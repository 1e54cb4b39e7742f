//! The command line of a Windows process: arguments quoted so that the process
//! reads them back.

use crate::text::{self, chars_of, contains_char};
use vstd::prelude::*;
use vstd::string::*;

verus! {

/// The UTF-16 units of a character.
pub open spec fn char_units(c: char) -> Seq<u16> {
    let n = c as u32;
    if n < 0x1_0000 {
        seq![n as u16]
    } else {
        seq![(0xD800 + (n - 0x1_0000) / 0x400) as u16, (0xDC00 + (n - 0x1_0000) % 0x400) as u16]
    }
}

/// The UTF-16 units of a text.
pub open spec fn units_of(s: Seq<char>) -> Seq<u16>
    decreases s.len(),
{
    if s.len() == 0 {
        seq![]
    } else {
        units_of(s.drop_last()) + char_units(s.last())
    }
}

/// The UTF-16 units of a text.
pub fn encode_utf16(s: &str) -> (r: Vec<u16>)
    ensures
        r@ == units_of(s@),
{
    let cs = chars_of(s);
    let mut out: Vec<u16> = Vec::new();
    let mut i: usize = 0;
    proof {
        assert(cs@.take(0) =~= Seq::<char>::empty());
    }
    while i < cs.len()
        invariant
            i <= cs.len(),
            out@ == units_of(cs@.take(i as int)),
        decreases cs.len() - i,
    {
        let ghost before = out@;
        let n: u32 = cs[i] as u32;
        if n < 0x1_0000 {
            out.push(n as u16);
        } else {
            let m: u32 = n - 0x1_0000;
            out.push((0xD800 + m / 0x400) as u16);
            out.push((0xDC00 + m % 0x400) as u16);
        }
        proof {
            assert(cs@.take(i + 1).drop_last() =~= cs@.take(i as int));
            assert(cs@.take(i + 1).last() == cs@[i as int]);
            assert(out@ =~= before + char_units(cs@[i as int]));
        }
        i += 1;
    }
    proof {
        assert(cs@.take(cs@.len() as int) =~= cs@);
    }
    out
}

/// A character is read back from its units, whatever follows them.
proof fn lemma_char_reads_back(rest: Seq<u16>, c: char)
    ensures
        text::lossy_utf16(char_units(c) + rest) == seq![c] + text::lossy_utf16(rest),
{
    let n = c as u32;
    let all = char_units(c) + rest;
    vstd::utf8::char_is_scalar(c);
    vstd::utf8::char_u32_cast(c, n);
    if n < 0x1_0000 {
        assert(all.skip(1) =~= rest);
        assert(all[0] == n as u16);
    } else {
        assert(n <= 0x10_FFFF);
        let m = (n - 0x1_0000) as int;
        assert(0 <= m / 0x400 < 0x400 && 0 <= m % 0x400 < 0x400);
        assert(all[0] == (0xD800 + m / 0x400) as u16);
        assert(all[1] == (0xDC00 + m % 0x400) as u16);
        assert(all.skip(2) =~= rest);
        assert(text::paired(all[0], all[1]) == c);
    }
}

proof fn lemma_units_read_back(s: Seq<char>, rest: Seq<u16>)
    ensures
        text::lossy_utf16(units_of(s) + rest) == s + text::lossy_utf16(rest),
    decreases s.len(),
{
    if s.len() == 0 {
        assert(units_of(s) + rest =~= rest);
        assert(s + text::lossy_utf16(rest) =~= text::lossy_utf16(rest));
    } else {
        let p = s.drop_last();
        let c = s.last();
        assert(units_of(s) + rest =~= units_of(p) + (char_units(c) + rest));
        lemma_units_read_back(p, char_units(c) + rest);
        lemma_char_reads_back(rest, c);
        assert(p + (seq![c] + text::lossy_utf16(rest)) =~= s + text::lossy_utf16(rest));
    }
}

/// What was encoded in UTF-16 is decoded as it was.
pub proof fn law_utf16_reads_back(s: Seq<char>)
    ensures
        text::lossy_utf16(units_of(s)) == s,
{
    lemma_units_read_back(s, seq![]);
    assert(units_of(s) + Seq::<u16>::empty() =~= units_of(s));
    assert(s + Seq::<char>::empty() =~= s);
}

/// So many backslashes.
pub open spec fn slashes(n: nat) -> Seq<u16> {
    Seq::new(n, |i: int| 0x5Cu16)
}

/// How many backslashes are at the end.
pub open spec fn trailing(u: Seq<u16>) -> nat
    decreases u.len(),
{
    if u.len() == 0 || u.last() != 0x5C {
        0
    } else {
        trailing(u.drop_last()) + 1
    }
}

/// The argument with each quote escaped: the backslashes in front of a quote are
/// doubled, and one more stands directly before it.
pub open spec fn escaped(u: Seq<u16>) -> Seq<u16>
    decreases u.len(),
{
    if u.len() == 0 {
        seq![]
    } else if u.last() == 0x22 {
        (escaped(u.drop_last()) + slashes(trailing(u.drop_last()) + 1)).push(0x22)
    } else {
        escaped(u.drop_last()).push(u.last())
    }
}

/// The argument has to stand in quotes.
pub open spec fn needs_quotes(arg: Seq<char>) -> bool {
    arg.len() == 0 || arg.contains(' ') || arg.contains('\t') || arg.contains('"')
}

/// The argument in quotes: escaped, with the backslashes at its end doubled.
pub open spec fn in_quotes(u: Seq<u16>) -> Seq<u16> {
    (seq![0x22u16] + escaped(u) + slashes(trailing(u))).push(0x22)
}

/// The argument as it stands on the command line.
pub open spec fn argument(arg: Seq<char>) -> Seq<u16> {
    if needs_quotes(arg) {
        in_quotes(units_of(arg))
    } else {
        escaped(units_of(arg))
    }
}

fn push_slashes(cmd: &mut Vec<u16>, n: usize)
    ensures
        final(cmd)@ == old(cmd)@ + slashes(n as nat),
{
    let ghost before = cmd@;
    let mut i: usize = 0;
    proof {
        assert(before + slashes(0) =~= before);
    }
    while i < n
        invariant
            i <= n,
            cmd@ == before + slashes(i as nat),
        decreases n - i,
    {
        cmd.push(0x5C);
        proof {
            assert(cmd@ =~= before + slashes((i + 1) as nat));
        }
        i += 1;
    }
}

/// Appends one argument to a command line, quoted and escaped as far as it needs
/// to be.
pub fn append_arg(cmd: &mut Vec<u16>, arg: &str)
    ensures
        final(cmd)@ == old(cmd)@ + argument(arg@),
{
    let cs = chars_of(arg);
    let quote = cs.len() == 0 || contains_char(&cs, ' ') || contains_char(&cs, '\t')
        || contains_char(&cs, '"');
    let units = encode_utf16(arg);
    let ghost u = units@;
    let ghost before = cmd@;
    if quote {
        cmd.push(0x22);
    }
    let ghost head = cmd@;
    let mut backslashes: usize = 0;
    let mut i: usize = 0;
    proof {
        assert(u.take(0) =~= Seq::<u16>::empty());
        assert(head + escaped(u.take(0)) =~= head);
    }
    while i < units.len()
        invariant
            i <= units.len(),
            units@ == u,
            cmd@ == head + escaped(u.take(i as int)),
            backslashes as nat == trailing(u.take(i as int)),
            backslashes <= i,
        decreases units.len() - i,
    {
        let x: u16 = units[i];
        let ghost mid = cmd@;
        let ghost front = u.take(i as int);
        proof {
            assert(u.take(i + 1).drop_last() =~= front);
            assert(u.take(i + 1).last() == x);
        }
        if x == 0x5C {
            backslashes += 1;
        } else {
            if x == 0x22 {
                push_slashes(cmd, backslashes);
                cmd.push(0x5C);
                proof {
                    assert(cmd@ =~= mid + slashes((backslashes + 1) as nat));
                }
            }
            backslashes = 0;
        }
        cmd.push(x);
        proof {
            assert(cmd@ =~= head + escaped(u.take(i + 1)));
        }
        i += 1;
    }
    proof {
        assert(u.take(u.len() as int) =~= u);
    }
    if quote {
        push_slashes(cmd, backslashes);
        cmd.push(0x22);
        proof {
            assert(cmd@ =~= before + in_quotes(u));
        }
    } else {
        proof {
            assert(cmd@ =~= before + escaped(u));
        }
    }
}

/// The arguments, each behind a space.
pub open spec fn arguments(args: Seq<&str>) -> Seq<u16>
    decreases args.len(),
{
    if args.len() == 0 {
        seq![]
    } else {
        arguments(args.drop_last()).push(0x20) + argument(args.last()@)
    }
}

/// The command line that launches a program: the program, its arguments, and a
/// NUL.
pub fn command_line(program: &str, args: &[&str]) -> (r: Vec<u16>)
    ensures
        r@ == (argument(program@) + arguments(args@)).push(0),
{
    let mut cmd: Vec<u16> = Vec::new();
    append_arg(&mut cmd, program);
    let ghost head = argument(program@);
    let mut i: usize = 0;
    proof {
        assert(args@.take(0) =~= Seq::<&str>::empty());
        assert(cmd@ =~= head + arguments(args@.take(0)));
    }
    while i < args.len()
        invariant
            i <= args@.len(),
            cmd@ == head + arguments(args@.take(i as int)),
        decreases args@.len() - i,
    {
        cmd.push(0x20);
        append_arg(&mut cmd, args[i]);
        proof {
            assert(args@.take(i + 1).drop_last() =~= args@.take(i as int));
            assert(args@.take(i + 1).last() == args@[i as int]);
            assert(cmd@ =~= head + arguments(args@.take(i + 1)));
        }
        i += 1;
    }
    proof {
        assert(args@.take(args@.len() as int) =~= args@);
    }
    cmd.push(0);
    cmd
}

// ---------------------------------------------------------------------------
// Reading an argument back
// ---------------------------------------------------------------------------

/// How far a process has read an argument: what it has of it, how many backslashes
/// it has seen since, whether it is inside quotes, and whether it met a blank
/// outside quotes, where the argument ends.
#[verifier::ext_equal]
pub struct ArgReader {
    pub got: Seq<u16>,
    pub pending: nat,
    pub quoted: bool,
    pub ended: bool,
}

/// One more unit: backslashes count up to the next unit. In front of a quote each
/// two of them stand for one, and one that is left makes the quote a part of the
/// argument; else the quote begins or ends a quoted part. In front of anything
/// else they stand for themselves.
pub open spec fn read_unit(r: ArgReader, x: u16) -> ArgReader {
    if x == 0x5C {
        ArgReader { pending: r.pending + 1, ..r }
    } else if x == 0x22 {
        if r.pending % 2 == 1 {
            ArgReader {
                got: (r.got + slashes((r.pending / 2) as nat)).push(0x22),
                pending: 0,
                ..r
            }
        } else {
            ArgReader {
                got: r.got + slashes((r.pending / 2) as nat),
                pending: 0,
                quoted: !r.quoted,
                ended: r.ended,
            }
        }
    } else {
        ArgReader {
            got: (r.got + slashes(r.pending)).push(x),
            pending: 0,
            quoted: r.quoted,
            ended: r.ended || (!r.quoted && (x == 0x20 || x == 0x09)),
        }
    }
}

/// The reader after all units.
pub open spec fn read_units(u: Seq<u16>) -> ArgReader
    decreases u.len(),
{
    if u.len() == 0 {
        ArgReader { got: seq![], pending: 0, quoted: false, ended: false }
    } else {
        read_unit(read_units(u.drop_last()), u.last())
    }
}

/// The argument that a process reads: what it has, and the backslashes that are
/// left.
pub open spec fn read_back(u: Seq<u16>) -> Seq<u16> {
    read_units(u).got + slashes(read_units(u).pending)
}

proof fn lemma_read_slashes(u: Seq<u16>, n: nat)
    ensures
        read_units(u + slashes(n)) == (ArgReader {
            pending: read_units(u).pending + n,
            ..read_units(u)
        }),
    decreases n,
{
    if n == 0 {
        assert(u + slashes(0) =~= u);
    } else {
        lemma_read_slashes(u, (n - 1) as nat);
        let v = u + slashes(n);
        assert(v.drop_last() =~= u + slashes((n - 1) as nat));
        assert(v.last() == 0x5C);
    }
}

proof fn lemma_slashes_sum(m: nat, n: nat)
    ensures
        slashes(m) + slashes(n) == slashes(m + n),
{
    assert(slashes(m) + slashes(n) =~= slashes(m + n));
}

/// Inside quotes the escaped argument is read as the argument.
proof fn lemma_read_escaped(u: Seq<u16>)
    ensures
        ({
            let r = read_units(seq![0x22u16] + escaped(u));
            &&& r.quoted
            &&& !r.ended
            &&& r.pending == trailing(u)
            &&& r.got + slashes(r.pending) == u
        }),
    decreases u.len(),
{
    let q = seq![0x22u16];
    if u.len() == 0 {
        assert(q + escaped(u) =~= q);
        assert(q.drop_last() =~= Seq::<u16>::empty());
        assert(read_units(q.drop_last()).got + slashes(0) =~= Seq::<u16>::empty());
        assert(read_units(q).got + slashes(0) =~= u);
    } else {
        let p = u.drop_last();
        let x = u.last();
        lemma_read_escaped(p);
        let e = q + escaped(p);
        let r = read_units(e);
        let k = trailing(p);
        assert(u =~= p.push(x));
        if x == 0x22 {
            let f = e + slashes(k + 1);
            assert(q + escaped(u) =~= f.push(0x22));
            assert(f.push(0x22).drop_last() =~= f);
            lemma_read_slashes(e, k + 1);
            assert(read_units(f).pending == 2 * k + 1);
            assert((2 * k + 1) / 2 == k && (2 * k + 1) % 2 == 1);
            let s = read_units(q + escaped(u));
            assert(s.got == (r.got + slashes(k)).push(0x22));
            assert(s.got + slashes(0) =~= u);
        } else {
            assert(q + escaped(u) =~= e.push(x));
            assert(e.push(x).drop_last() =~= e);
            if x == 0x5C {
                lemma_slashes_sum(k, 1);
                assert(r.got + slashes(k + 1) =~= (r.got + slashes(k)).push(0x5C));
            } else {
                assert((r.got + slashes(k)).push(x) + slashes(0) =~= u);
            }
        }
    }
}

/// An argument in quotes is read back as it was, and as one argument: no blank is
/// met outside quotes, and the quotes are closed.
pub proof fn law_quoted_argument_reads_back(u: Seq<u16>)
    ensures
        read_back(in_quotes(u)) == u,
        !read_units(in_quotes(u)).ended,
        !read_units(in_quotes(u)).quoted,
{
    lemma_read_escaped(u);
    let e = seq![0x22u16] + escaped(u);
    let k = trailing(u);
    let r = read_units(e);
    lemma_read_slashes(e, k);
    let f = e + slashes(k);
    assert(in_quotes(u).drop_last() =~= f);
    assert(in_quotes(u).last() == 0x22);
    assert(read_units(f).pending == 2 * k);
    assert((2 * k) / 2 == k && (2 * k) % 2 == 0);
    assert(read_units(in_quotes(u)).got == r.got + slashes(k));
    assert(read_back(in_quotes(u)) =~= u);
}

/// An argument without blanks and quotes is read back as it was, and stands on the
/// command line as it is.
pub proof fn law_plain_argument_reads_back(u: Seq<u16>)
    requires
        forall|i: int| 0 <= i < u.len() ==> u[i] != 0x20 && u[i] != 0x09 && u[i] != 0x22,
    ensures
        escaped(u) == u,
        read_back(escaped(u)) == u,
        !read_units(escaped(u)).ended,
        !read_units(escaped(u)).quoted,
    decreases u.len(),
{
    if u.len() == 0 {
        assert(read_back(escaped(u)) =~= u);
    } else {
        let p = u.drop_last();
        assert forall|i: int| 0 <= i < p.len() implies p[i] != 0x20 && p[i] != 0x09 && p[i] != 0x22 by {
            assert(p[i] == u[i]);
        }
        law_plain_argument_reads_back(p);
        assert(u =~= p.push(u.last()));
        assert(u[u.len() - 1] == u.last());
        let r = read_units(p);
        if u.last() == 0x5C {
            assert(r.got + slashes(r.pending + 1) =~= (r.got + slashes(r.pending)).push(0x5C));
        } else {
            assert((r.got + slashes(r.pending)).push(u.last()) + slashes(0) =~= u);
        }
    }
}

/// A text without a character has no unit that stands for it.
proof fn lemma_units_without(s: Seq<char>, x: char)
    requires
        !s.contains(x),
        (x as u32) < 128,
    ensures
        forall|i: int| 0 <= i < units_of(s).len() ==> (#[trigger] units_of(s)[i]) != x as u32,
    decreases s.len(),
{
    if s.len() > 0 {
        let p = s.drop_last();
        let c = s.last();
        assert(s[s.len() - 1] == c);
        assert(c != x);
        if p.contains(x) {
            let i = choose|i: int| 0 <= i < p.len() && p[i] == x;
            assert(s[i] == x);
        }
        lemma_units_without(p, x);
        let a = units_of(p);
        let b = char_units(c);
        let n = c as u32;
        vstd::utf8::char_is_scalar(c);
        vstd::utf8::char_u32_cast(c, n);
        assert(n != x as u32);
        if n < 0x1_0000 {
            assert(b =~= seq![n as u16]);
        } else {
            assert(n <= 0x10_FFFF);
            let m = (n - 0x1_0000) as int;
            assert(0 <= m / 0x400 < 0x400 && 0 <= m % 0x400 < 0x400);
            assert(b =~= seq![(0xD800 + m / 0x400) as u16, (0xDC00 + m % 0x400) as u16]);
        }
        assert forall|i: int| 0 <= i < units_of(s).len() implies (#[trigger] units_of(s)[i])
            != x as u32 by {
            if i < a.len() {
                assert(units_of(s)[i] == a[i]);
            } else {
                assert(units_of(s)[i] == b[i - a.len()]);
            }
        }
    }
}

proof fn lemma_units_plain(s: Seq<char>)
    requires
        !s.contains(' ') && !s.contains('\t') && !s.contains('"'),
    ensures
        forall|i: int|
            0 <= i < units_of(s).len() ==> (#[trigger] units_of(s)[i]) != 0x20 && units_of(s)[i]
                != 0x09 && units_of(s)[i] != 0x22,
{
    lemma_units_without(s, ' ');
    lemma_units_without(s, '\t');
    lemma_units_without(s, '"');
}

/// Every argument is read back from the command line as it was, and as one
/// argument.
pub proof fn law_argument_reads_back(arg: Seq<char>)
    ensures
        read_back(argument(arg)) == units_of(arg),
        !read_units(argument(arg)).ended,
        !read_units(argument(arg)).quoted,
{
    if needs_quotes(arg) {
        law_quoted_argument_reads_back(units_of(arg));
    } else {
        lemma_units_plain(arg);
        law_plain_argument_reads_back(units_of(arg));
    }
}

// ---------------------------------------------------------------------------
// Reading a line back
// ---------------------------------------------------------------------------

/// How far a process has read the arguments of a line: those that it has, and where
/// it stands in the next one.
#[verifier::ext_equal]
pub struct LineReader {
    pub args: Seq<Seq<u16>>,
    pub inside: bool,
    pub arg: ArgReader,
}

/// A blank separates arguments.
pub open spec fn is_blank(x: u16) -> bool {
    x == 0x20 || x == 0x09
}

/// One more unit of a line: a blank outside quotes ends an argument, further blanks
/// are passed over, and anything else belongs to an argument.
pub open spec fn read_line_unit(r: LineReader, x: u16) -> LineReader {
    if !r.inside && is_blank(x) {
        r
    } else if r.inside && !r.arg.quoted && is_blank(x) {
        LineReader { args: r.args.push(r.arg.got + slashes(r.arg.pending)), inside: false, ..r }
    } else {
        LineReader {
            args: r.args,
            inside: true,
            arg: read_unit(
                if r.inside {
                    r.arg
                } else {
                    read_units(seq![])
                },
                x,
            ),
        }
    }
}

/// The reader after more units.
pub open spec fn read_line_from(r: LineReader, u: Seq<u16>) -> LineReader
    decreases u.len(),
{
    if u.len() == 0 {
        r
    } else {
        read_line_unit(read_line_from(r, u.drop_last()), u.last())
    }
}

/// Before the first unit.
pub open spec fn line_start() -> LineReader {
    LineReader { args: seq![], inside: false, arg: read_units(seq![]) }
}

/// The arguments that a process reads from a line.
pub open spec fn split_line(u: Seq<u16>) -> Seq<Seq<u16>> {
    let r = read_line_from(line_start(), u);
    if r.inside {
        r.args.push(r.arg.got + slashes(r.arg.pending))
    } else {
        r.args
    }
}

/// The units in front of the first one that is `x`, or all of them.
pub open spec fn until(u: Seq<u16>, x: u16) -> Seq<u16>
    decreases u.len(),
{
    if u.len() == 0 || u[0] == x {
        seq![]
    } else {
        seq![u[0]] + until(u.skip(1), x)
    }
}

/// The units in front of the first blank, or all of them.
pub open spec fn until_blank(u: Seq<u16>) -> Seq<u16>
    decreases u.len(),
{
    if u.len() == 0 || is_blank(u[0]) {
        seq![]
    } else {
        seq![u[0]] + until_blank(u.skip(1))
    }
}

/// What `CommandLineToArgvW` makes of a line: the program, which is what stands
/// between the first two quotes, or in front of the first blank where the line begins
/// with no quote; and the arguments that follow.
pub open spec fn read_command(line: Seq<u16>) -> (Seq<u16>, Seq<Seq<u16>>) {
    if line.len() > 0 && line[0] == 0x22 {
        let program = until(line.skip(1), 0x22);
        (program, split_line(line.skip(program.len() as int + 2)))
    } else {
        let program = until_blank(line);
        (program, split_line(line.skip(program.len() as int)))
    }
}

proof fn lemma_read_line_sum(r: LineReader, u: Seq<u16>, v: Seq<u16>)
    ensures
        read_line_from(r, u + v) == read_line_from(read_line_from(r, u), v),
    decreases v.len(),
{
    if v.len() == 0 {
        assert(u + v =~= u);
    } else {
        lemma_read_line_sum(r, u, v.drop_last());
        assert((u + v).drop_last() =~= u + v.drop_last());
        assert((u + v).last() == v.last());
    }
}

/// Inside one argument the line is read as the argument is.
proof fn lemma_line_follows(r: LineReader, u: Seq<u16>)
    requires
        !r.inside,
        u.len() > 0,
        !read_units(u).ended,
    ensures
        read_line_from(r, u) == (LineReader { args: r.args, inside: true, arg: read_units(u) }),
    decreases u.len(),
{
    let p = u.drop_last();
    let x = u.last();
    if p.len() == 0 {
        assert(p =~= Seq::<u16>::empty());
        assert(read_line_from(r, p) == r);
        assert(!is_blank(x));
    } else {
        assert(!read_units(p).ended);
        lemma_line_follows(r, p);
    }
}

proof fn lemma_units_some(s: Seq<char>)
    ensures
        units_of(s).len() >= s.len(),
    decreases s.len(),
{
    if s.len() > 0 {
        lemma_units_some(s.drop_last());
    }
}

proof fn lemma_argument_some(arg: Seq<char>)
    ensures
        argument(arg).len() > 0,
{
    if !needs_quotes(arg) {
        lemma_units_some(arg);
        lemma_units_plain(arg);
        law_plain_argument_reads_back(units_of(arg));
    }
}

/// The units of texts.
pub open spec fn all_units(args: Seq<&str>) -> Seq<Seq<u16>> {
    args.map_values(|a: &str| units_of(a@))
}

proof fn lemma_arguments_read(args: Seq<&str>)
    ensures
        split_line(arguments(args)) == all_units(args),
        read_line_from(line_start(), arguments(args)).inside ==> !read_line_from(
            line_start(),
            arguments(args),
        ).arg.quoted,
    decreases args.len(),
{
    if args.len() == 0 {
        assert(split_line(arguments(args)) =~= all_units(args));
    } else {
        let before = args.drop_last();
        let a = argument(args.last()@);
        lemma_arguments_read(before);
        let front = arguments(before);
        let r = read_line_from(line_start(), front);
        let gap = seq![0x20u16];
        assert(front.push(0x20) =~= front + gap);
        lemma_read_line_sum(line_start(), front, gap);
        assert(gap.drop_last() =~= Seq::<u16>::empty());
        assert(read_line_from(r, gap.drop_last()) == r);
        let s = read_line_from(line_start(), front.push(0x20));
        assert(s == read_line_unit(r, 0x20));
        assert(!s.inside);
        assert(s.args == all_units(before));
        law_argument_reads_back(args.last()@);
        lemma_argument_some(args.last()@);
        lemma_read_line_sum(line_start(), front.push(0x20), a);
        lemma_line_follows(s, a);
        assert(split_line(arguments(args)) =~= all_units(before).push(units_of(args.last()@)));
        assert(all_units(args) =~= all_units(before).push(units_of(args.last()@)));
    }
}

proof fn lemma_until(u: Seq<u16>, v: Seq<u16>, x: u16)
    requires
        forall|i: int| 0 <= i < u.len() ==> u[i] != x,
        v.len() > 0 ==> v[0] == x,
    ensures
        until(u + v, x) == u,
    decreases u.len(),
{
    let all = u + v;
    if u.len() == 0 {
        assert(all =~= v);
    } else {
        let t = u.skip(1);
        assert forall|i: int| 0 <= i < t.len() implies t[i] != x by {
            assert(t[i] == u[i + 1]);
        }
        lemma_until(t, v, x);
        assert(all.skip(1) =~= t + v);
        assert(all[0] == u[0]);
        assert(seq![u[0]] + t =~= u);
    }
}

proof fn lemma_until_blank(u: Seq<u16>, v: Seq<u16>)
    requires
        forall|i: int| 0 <= i < u.len() ==> !is_blank(#[trigger] u[i]),
        v.len() > 0 ==> is_blank(v[0]),
    ensures
        until_blank(u + v) == u,
    decreases u.len(),
{
    let all = u + v;
    if u.len() == 0 {
        assert(all =~= v);
    } else {
        let t = u.skip(1);
        assert forall|i: int| 0 <= i < t.len() implies !is_blank(#[trigger] t[i]) by {
            assert(t[i] == u[i + 1]);
        }
        lemma_until_blank(t, v);
        assert(all.skip(1) =~= t + v);
        assert(all[0] == u[0]);
        assert(!is_blank(u[0]));
        assert(seq![u[0]] + t =~= u);
    }
}

proof fn lemma_arguments_begin(args: Seq<&str>)
    ensures
        args.len() > 0 ==> arguments(args).len() > 0 && arguments(args)[0] == 0x20,
    decreases args.len(),
{
    if args.len() > 0 {
        let before = arguments(args.drop_last());
        lemma_arguments_begin(args.drop_last());
        if args.len() == 1 {
            assert(args.drop_last().len() == 0);
            assert(before.len() == 0);
        }
        assert(arguments(args)[0] == before.push(0x20)[0]);
    }
}

/// Without quotes nothing is escaped.
proof fn lemma_escaped_plain(u: Seq<u16>)
    requires
        forall|i: int| 0 <= i < u.len() ==> u[i] != 0x22,
    ensures
        escaped(u) == u,
    decreases u.len(),
{
    if u.len() > 0 {
        let p = u.drop_last();
        assert forall|i: int| 0 <= i < p.len() implies p[i] != 0x22 by {
            assert(p[i] == u[i]);
        }
        lemma_escaped_plain(p);
        assert(u[u.len() - 1] == u.last());
        assert(p.push(u.last()) =~= u);
    }
}

/// A process reads back from the line exactly the arguments that it was made of: none
/// is split, merged or altered, and empty ones are there too. The program must hold no
/// quote, which no path does. It is read back as well, unless it needs quotes and ends
/// in a backslash.
pub proof fn law_command_line_reads_back(program: Seq<char>, args: Seq<&str>)
    requires
        !program.contains('"'),
    ensures
        read_command(argument(program) + arguments(args)).1 == all_units(args),
        !needs_quotes(program) || trailing(units_of(program)) == 0 ==> read_command(
            argument(program) + arguments(args),
        ).0 == units_of(program),
{
    let a = argument(program);
    let rest = arguments(args);
    let u = units_of(program);
    let line = a + rest;
    lemma_arguments_read(args);
    lemma_arguments_begin(args);
    lemma_units_without(program, '"');
    lemma_escaped_plain(u);
    if needs_quotes(program) {
        let name = u + slashes(trailing(u));
        let tail = seq![0x22u16] + rest;
        assert(line.skip(1) =~= name + tail);
        assert(line[0] == 0x22);
        lemma_until(name, tail, 0x22);
        assert(line.skip(name.len() as int + 2) =~= rest);
        if trailing(u) == 0 {
            assert(name =~= u);
        }
    } else {
        lemma_units_plain(program);
        lemma_units_some(program);
        assert(a == u);
        assert forall|i: int| 0 <= i < u.len() implies !is_blank(#[trigger] u[i]) by {
        }
        assert(line[0] == u[0]);
        lemma_until_blank(u, rest);
        assert(line.skip(u.len() as int) =~= rest);
    }
}

/// No unit is a certain one.
pub open spec fn without_unit(u: Seq<u16>, x: u16) -> bool {
    forall|i: int| 0 <= i < u.len() ==> #[trigger] u[i] != x
}

proof fn lemma_escaped_without_nul(u: Seq<u16>)
    requires
        without_unit(u, 0),
    ensures
        without_unit(escaped(u), 0),
    decreases u.len(),
{
    if u.len() > 0 {
        let p = u.drop_last();
        assert forall|i: int| 0 <= i < p.len() implies #[trigger] p[i] != 0 by {
            assert(p[i] == u[i]);
        }
        lemma_escaped_without_nul(p);
        assert(u[u.len() - 1] == u.last());
        let k = slashes(trailing(p) + 1);
        let e = escaped(p);
        assert forall|i: int| 0 <= i < escaped(u).len() implies #[trigger] escaped(u)[i] != 0 by {
            if i < e.len() {
                assert(escaped(u)[i] == e[i]);
            } else if u.last() == 0x22 && i < e.len() + k.len() {
                assert(escaped(u)[i] == k[i - e.len()]);
            }
        }
    }
}

proof fn lemma_argument_without_nul(arg: Seq<char>)
    requires
        !arg.contains('\0'),
    ensures
        without_unit(argument(arg), 0),
{
    let u = units_of(arg);
    lemma_units_without(arg, '\0');
    lemma_escaped_without_nul(u);
    if needs_quotes(arg) {
        let e = seq![0x22u16] + escaped(u);
        let k = slashes(trailing(u));
        let q = in_quotes(u);
        assert forall|i: int| 0 <= i < q.len() implies #[trigger] q[i] != 0 by {
            if 1 <= i < e.len() {
                assert(q[i] == escaped(u)[i - 1]);
            } else if e.len() <= i < e.len() + k.len() {
                assert(q[i] == k[i - e.len()]);
            }
        }
    }
}

proof fn lemma_arguments_without_nul(args: Seq<&str>)
    requires
        forall|i: int| 0 <= i < args.len() ==> !(#[trigger] args[i])@.contains('\0'),
    ensures
        without_unit(arguments(args), 0),
    decreases args.len(),
{
    if args.len() > 0 {
        let before = args.drop_last();
        assert forall|i: int| 0 <= i < before.len() implies !(#[trigger] before[i])@.contains(
            '\0',
        ) by {
            assert(before[i] == args[i]);
        }
        lemma_arguments_without_nul(before);
        assert(args[args.len() - 1] == args.last());
        lemma_argument_without_nul(args.last()@);
        let front = arguments(before).push(0x20);
        let a = argument(args.last()@);
        assert forall|i: int| 0 <= i < arguments(args).len() implies #[trigger] arguments(args)[i]
            != 0 by {
            if i < arguments(before).len() {
                assert(arguments(args)[i] == arguments(before)[i]);
            } else if i >= front.len() {
                assert(arguments(args)[i] == a[i - front.len()]);
            }
        }
    }
}

/// The line ends at its NUL and not before, where no text holds a NUL: the process sees
/// all of it.
pub proof fn law_command_line_ends_at_its_nul(program: Seq<char>, args: Seq<&str>)
    requires
        !program.contains('\0'),
        forall|i: int| 0 <= i < args.len() ==> !(#[trigger] args[i])@.contains('\0'),
    ensures
        until((argument(program) + arguments(args)).push(0), 0) == argument(program) + arguments(
            args,
        ),
{
    lemma_argument_without_nul(program);
    lemma_arguments_without_nul(args);
    let a = argument(program);
    let rest = arguments(args);
    let line = a + rest;
    assert forall|i: int| 0 <= i < line.len() implies line[i] != 0 by {
        if i < a.len() {
            assert(line[i] == a[i]);
        } else {
            assert(line[i] == rest[i - a.len()]);
        }
    }
    assert(line.push(0) =~= line + seq![0u16]);
    lemma_until(line, seq![0u16], 0);
}

} // verus!
