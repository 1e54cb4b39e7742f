//! Windows-style environment variables: `%NAME%` in a command stands for the
//! value of the variable `NAME`.

use crate::text;
use crate::text::{chars_of, find_char, string_of, sub_chars, sub_string};
use vstd::prelude::*;
use vstd::string::*;

verus! {

/// The variables that `s` refers to, in order: the texts between the first and
/// the second percent sign, between the third and the fourth, and so on.
pub open spec fn references(s: Seq<char>) -> Seq<Seq<char>>
    decreases s.len(),
{
    let i = text::first_index(s, '%');
    if 0 <= i < s.len() {
        let rest = s.skip(i + 1);
        let j = text::first_index(rest, '%');
        if 0 <= j < rest.len() {
            seq![rest.take(j)] + references(rest.skip(j + 1))
        } else {
            seq![]
        }
    } else {
        seq![]
    }
}

/// The value of one reference: empty where the variable is not set.
pub open spec fn value_text(v: Option<String>) -> Seq<char> {
    match v {
        Some(s) => s@,
        None => seq![],
    }
}

/// `s` with each reference replaced by the value in its place. A percent sign
/// without a partner stays as it is, and so does what follows it.
pub open spec fn substituted(s: Seq<char>, values: Seq<Option<String>>) -> Seq<char>
    decreases s.len(),
{
    let i = text::first_index(s, '%');
    if 0 <= i < s.len() {
        let rest = s.skip(i + 1);
        let j = text::first_index(rest, '%');
        if 0 <= j < rest.len() {
            if values.len() > 0 {
                s.take(i) + value_text(values[0]) + substituted(rest.skip(j + 1), values.skip(1))
            } else {
                s.take(i) + substituted(rest.skip(j + 1), values)
            }
        } else {
            s
        }
    } else {
        s
    }
}

proof fn lemma_index_bounds(s: Seq<char>, c: char)
    ensures
        0 <= text::first_index(s, c) <= s.len(),
{
    text::lemma_first_index(s, c);
}

/// The variables that `s` refers to, in order.
pub fn referenced_variables(s: &str) -> (r: Vec<String>)
    ensures
        text::views(r@) == references(s@),
{
    let cs = chars_of(s);
    let mut out: Vec<String> = Vec::new();
    let mut rest: Vec<char> = sub_chars(&cs, 0, cs.len());
    proof {
        assert(rest@ =~= cs@);
        assert(text::views(out@) =~= Seq::<Seq<char>>::empty());
        assert(text::views(out@) + references(rest@) =~= references(s@));
    }
    loop
        invariant_except_break
            text::views(out@) + references(rest@) == references(s@),
        ensures
            text::views(out@) == references(s@),
        decreases rest.len(),
    {
        let i: usize = find_char(&rest, '%');
        proof {
            lemma_index_bounds(rest@, '%');
        }
        if i >= rest.len() {
            proof {
                assert(text::views(out@) + references(rest@) =~= text::views(out@));
            }
            break;
        }
        let tail = sub_chars(&rest, i + 1, rest.len());
        let j: usize = find_char(&tail, '%');
        proof {
            assert(tail@ =~= rest@.skip(i + 1));
            lemma_index_bounds(tail@, '%');
        }
        if j >= tail.len() {
            proof {
                assert(text::views(out@) + references(rest@) =~= text::views(out@));
            }
            break;
        }
        let ghost before = out@;
        let ghost whole = rest@;
        out.push(sub_string(&tail, 0, j));
        rest = sub_chars(&tail, j + 1, tail.len());
        proof {
            assert(rest@ =~= tail@.skip(j + 1));
            let name = tail@.take(j as int);
            assert(text::views(out@) =~= text::views(before).push(name));
            assert(references(whole) == seq![name] + references(rest@));
            assert(text::views(out@) + references(rest@) =~= text::views(before) + references(whole));
        }
    }
    out
}

/// Replaces each reference to a variable by its value. `values` holds, in the
/// order in which `referenced_variables` names them, the values of the variables;
/// one that is not set is replaced by nothing.
pub fn expand_env_vars(s: &str, values: &Vec<Option<String>>) -> (r: String)
    ensures
        r@ == substituted(s@, values@),
{
    let cs = chars_of(s);
    let mut out = String::new();
    let mut rest: Vec<char> = sub_chars(&cs, 0, cs.len());
    let mut used: usize = 0;
    proof {
        assert(rest@ =~= cs@);
        assert(values@.skip(0) =~= values@);
        assert(out@ + substituted(rest@, values@) =~= substituted(s@, values@));
    }
    loop
        invariant_except_break
            used <= values.len(),
            out@ + substituted(rest@, values@.skip(used as int)) == substituted(s@, values@),
        ensures
            out@ == substituted(s@, values@),
        decreases rest.len(),
    {
        let i: usize = find_char(&rest, '%');
        proof {
            lemma_index_bounds(rest@, '%');
        }
        if i >= rest.len() {
            let last = string_of(&rest);
            out.append(&last);
            break;
        }
        let tail = sub_chars(&rest, i + 1, rest.len());
        let j: usize = find_char(&tail, '%');
        proof {
            assert(tail@ =~= rest@.skip(i + 1));
            lemma_index_bounds(tail@, '%');
        }
        if j >= tail.len() {
            let last = string_of(&rest);
            out.append(&last);
            break;
        }
        let ghost before = out@;
        let ghost whole = rest@;
        let ghost vals = values@.skip(used as int);
        let head = sub_string(&rest, 0, i);
        out.append(&head);
        if used < values.len() {
            proof {
                assert(vals[0] == values@[used as int]);
                assert(vals.skip(1) =~= values@.skip(used + 1));
            }
            match &values[used] {
                Some(v) => {
                    out.append(v);
                },
                None => {},
            }
            used += 1;
        }
        rest = sub_chars(&tail, j + 1, tail.len());
        proof {
            assert(rest@ =~= tail@.skip(j + 1));
            assert(out@ + substituted(rest@, values@.skip(used as int)) =~= before + substituted(
                whole,
                vals,
            ));
        }
    }
    out
}

/// A text without a percent sign refers to no variable and stays as it is.
pub proof fn law_plain_text_is_kept(s: Seq<char>, values: Seq<Option<String>>)
    requires
        !s.contains('%'),
    ensures
        references(s) == Seq::<Seq<char>>::empty(),
        substituted(s, values) == s,
{
    text::lemma_first_index(s, '%');
}

/// A name between two percent signs is a reference, and is replaced by the value in its
/// place or by nothing where the variable is not set. What stands before and after stays.
pub proof fn law_references_are_replaced(
    before: Seq<char>,
    name: Seq<char>,
    after: Seq<char>,
    values: Seq<Option<String>>,
)
    requires
        !before.contains('%'),
        !name.contains('%'),
        values.len() > 0,
    ensures
        ({
            let s = before + seq!['%'] + (name + seq!['%'] + after);
            let value = match values[0] {
                Some(v) => v@,
                None => Seq::<char>::empty(),
            };
            &&& references(s) == seq![name] + references(after)
            &&& substituted(s, values) == before + value + substituted(after, values.skip(1))
        }),
{
    let tail = name + seq!['%'] + after;
    let s = before + seq!['%'] + tail;
    lemma_first_at(before, '%', tail);
    lemma_first_at(name, '%', after);
    assert(s.skip(before.len() as int + 1) =~= tail);
    assert(s.take(before.len() as int) =~= before);
    assert(tail.skip(name.len() as int + 1) =~= after);
    assert(tail.take(name.len() as int) =~= name);
}

/// A percent sign without a partner, and what follows it, stays as it is.
pub proof fn law_a_single_percent_sign_stays(
    before: Seq<char>,
    after: Seq<char>,
    values: Seq<Option<String>>,
)
    requires
        !before.contains('%'),
        !after.contains('%'),
    ensures
        references(before + seq!['%'] + after).len() == 0,
        substituted(before + seq!['%'] + after, values) == before + seq!['%'] + after,
{
    let s = before + seq!['%'] + after;
    lemma_first_at(before, '%', after);
    assert(s.skip(before.len() as int + 1) =~= after);
    text::lemma_first_index(after, '%');
}

proof fn lemma_first_at(before: Seq<char>, c: char, after: Seq<char>)
    requires
        !before.contains(c),
    ensures
        text::first_index(before + seq![c] + after, c) == before.len(),
{
    let s = before + seq![c] + after;
    assert forall|j: int| 0 <= j < before.len() implies s[j] != c by {
        assert(s[j] == before[j]);
    }
    text::lemma_first_index_is(s, c, before.len() as int);
}

} // verus!
