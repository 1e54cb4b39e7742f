//! Character sequences: the vocabulary that the other modules state their
//! contracts in, and the loops that compute it.

use vstd::prelude::*;
use vstd::string::*;

verus! {

// ---------------------------------------------------------------------------
// What the standard library is trusted for
// ---------------------------------------------------------------------------

/// `String::push` appends one character.
pub assume_specification[ String::push ](s: &mut String, c: char)
    ensures
        final(s)@ == old(s)@.push(c),
;

/// `==` on string slices compares their characters.
pub assume_specification[ <str as PartialEq>::eq ](a: &str, b: &str) -> (r: bool)
    ensures
        r == (a@ == b@),
;

/// Whether `c` has the Unicode property White_Space.
pub uninterp spec fn unicode_white_space(c: char) -> bool;

/// `char::is_whitespace` tests the property White_Space, which among the ASCII
/// characters the space and U+0009 to U+000D have.
pub assume_specification[ char::is_whitespace ](c: char) -> (r: bool)
    ensures
        r == unicode_white_space(c),
        (c as u32) < 128 ==> r == (c == ' ' || 9 <= c as u32 <= 13),
;

/// Whether `c` is a number by its Unicode general category.
pub uninterp spec fn unicode_numeric(c: char) -> bool;

/// `char::is_numeric` tests the general categories of numbers, to which of the
/// ASCII characters the ten digits belong.
#[verifier::external_body]
pub(crate) fn is_number(c: char) -> (r: bool)
    ensures
        r == unicode_numeric(c),
        (c as u32) < 128 ==> r == is_digit(c),
{
    c.is_numeric()
}

/// The upper-case mapping of `c`, one or more characters.
pub uninterp spec fn unicode_uppercase(c: char) -> Seq<char>;

/// `char::to_uppercase` maps a character by the Unicode tables; an ASCII
/// character is mapped to its ASCII capital or to itself.
#[verifier::external_body]
fn upper_of(c: char) -> (r: String)
    ensures
        r@ == unicode_uppercase(c),
        (c as u32) < 128 ==> r@ == seq![ascii_upper(c)],
{
    c.to_uppercase().to_string()
}

/// The lower-case mapping of `s`.
pub uninterp spec fn unicode_lowercase(s: Seq<char>) -> Seq<char>;

/// `str::to_lowercase` maps a string by the Unicode tables; an ASCII string is
/// mapped letter by letter.
pub assume_specification[ str::to_lowercase ](s: &str) -> (r: String)
    ensures
        r@ == unicode_lowercase(s@),
        vstd::utf8::is_ascii_chars(s@) ==> r@ == ascii_lower_all(s@),
;

/// `c` is white space.
pub open spec fn white_space(c: char) -> bool {
    if (c as u32) < 128 {
        c == ' ' || 9 <= c as u32 <= 13
    } else {
        unicode_white_space(c)
    }
}

/// `c` is a number.
pub open spec fn numeric(c: char) -> bool {
    if (c as u32) < 128 {
        is_digit(c)
    } else {
        unicode_numeric(c)
    }
}

/// `c` in upper case, one or more characters.
pub open spec fn uppercase(c: char) -> Seq<char> {
    if (c as u32) < 128 {
        seq![ascii_upper(c)]
    } else {
        unicode_uppercase(c)
    }
}

/// `s` in lower case.
pub open spec fn lowercase(s: Seq<char>) -> Seq<char> {
    if vstd::utf8::is_ascii_chars(s) {
        ascii_lower_all(s)
    } else {
        unicode_lowercase(s)
    }
}

/// What bytes that are no UTF-8 spell once each ill-formed sequence is replaced by
/// U+FFFD.
pub uninterp spec fn replaced_utf8(bytes: Seq<u8>) -> Seq<char>;

/// `String::from_utf8_lossy` decodes well-formed UTF-8 exactly and replaces the
/// rest by U+FFFD.
#[verifier::external_body]
pub(crate) fn from_utf8_lossy(bytes: &[u8]) -> (r: String)
    ensures
        if vstd::utf8::valid_utf8(bytes@) {
            r@ == vstd::utf8::decode_utf8(bytes@)
        } else {
            r@ == replaced_utf8(bytes@)
        },
{
    String::from_utf8_lossy(bytes).into_owned()
}

/// What `bytes` spell in UTF-8, ill-formed sequences replaced by U+FFFD.
pub open spec fn lossy_text(bytes: Seq<u8>) -> Seq<char> {
    if vstd::utf8::valid_utf8(bytes) {
        vstd::utf8::decode_utf8(bytes)
    } else {
        replaced_utf8(bytes)
    }
}

/// A unit that begins a pair of surrogates.
pub open spec fn high_surrogate(unit: u16) -> bool {
    0xD800 <= unit <= 0xDBFF
}

/// A unit that ends a pair of surrogates.
pub open spec fn low_surrogate(unit: u16) -> bool {
    0xDC00 <= unit <= 0xDFFF
}

/// The character that a pair of surrogates stands for.
pub open spec fn paired(high: u16, low: u16) -> char {
    (0x1_0000 + (high - 0xD800) * 0x400 + (low - 0xDC00)) as char
}

/// What `units` spell in UTF-16, each unpaired surrogate replaced by U+FFFD.
pub open spec fn lossy_utf16(units: Seq<u16>) -> Seq<char>
    decreases units.len(),
{
    if units.len() == 0 {
        seq![]
    } else if units.len() > 1 && high_surrogate(units[0]) && low_surrogate(units[1]) {
        seq![paired(units[0], units[1])] + lossy_utf16(units.skip(2))
    } else if high_surrogate(units[0]) || low_surrogate(units[0]) {
        seq!['\u{FFFD}'] + lossy_utf16(units.skip(1))
    } else {
        seq![units[0] as char] + lossy_utf16(units.skip(1))
    }
}

/// `String::from_utf16_lossy` decodes UTF-16: a pair of surrogates stands for one
/// character, each unpaired surrogate is replaced by U+FFFD, and any other unit
/// stands for the character with its number.
#[verifier::external_body]
pub(crate) fn from_utf16_lossy(units: &[u16]) -> (r: String)
    ensures
        r@ == lossy_utf16(units@),
{
    String::from_utf16_lossy(units)
}

// ---------------------------------------------------------------------------
// Conversions
// ---------------------------------------------------------------------------

/// The characters of an optional string.
pub open spec fn opt(s: Option<String>) -> Option<Seq<char>> {
    match s {
        Some(t) => Some(t@),
        None => None,
    }
}

/// The characters of each string.
pub open spec fn views(v: Seq<String>) -> Seq<Seq<char>> {
    v.map_values(|s: String| s@)
}

/// A copy of an optional string.
pub fn clone_opt(s: &Option<String>) -> (r: Option<String>)
    ensures
        opt(r) == opt(*s),
{
    match s {
        Some(t) => Some(t.clone()),
        None => None,
    }
}

/// A copy of the strings.
pub fn clone_strings(v: &Vec<String>) -> (r: Vec<String>)
    ensures
        views(r@) == views(v@),
{
    let mut out: Vec<String> = Vec::new();
    let mut i: usize = 0;
    while i < v.len()
        invariant
            i <= v.len(),
            out@.len() == i,
            forall|k: int| 0 <= k < i ==> (#[trigger] out@[k])@ == v@[k]@,
        decreases v.len() - i,
    {
        out.push(v[i].clone());
        i += 1;
    }
    proof {
        assert(views(out@) =~= views(v@));
    }
    out
}

/// The string `s`, if there is one.
pub fn own_opt(s: Option<&str>) -> (r: Option<String>)
    ensures
        match s {
            Some(t) => opt(r) == Some(t@),
            None => r is None,
        },
{
    match s {
        Some(t) => Some(t.to_string()),
        None => None,
    }
}

/// The characters of `s`.
pub fn chars_of(s: &str) -> (r: Vec<char>)
    ensures
        r@ == s@,
{
    let mut v: Vec<char> = Vec::new();
    for c in it: s.chars()
        invariant
            v@ == s@.take(it.index() as int),
            it.seq() == s@,
    {
        v.push(c);
    }
    v
}

/// The string that `cs` spells.
pub fn string_of(cs: &[char]) -> (r: String)
    ensures
        r@ == cs@,
{
    let mut s = String::new();
    let mut i: usize = 0;
    while i < cs.len()
        invariant
            i <= cs.len(),
            s@ == cs@.take(i as int),
        decreases cs.len() - i,
    {
        s.push(cs[i]);
        i += 1;
    }
    s
}

/// A copy of `cs[from..to]`.
pub fn sub_chars(cs: &[char], from: usize, to: usize) -> (r: Vec<char>)
    requires
        from <= to <= cs.len(),
    ensures
        r@ == cs@.subrange(from as int, to as int),
{
    let mut v: Vec<char> = Vec::new();
    let mut i: usize = from;
    while i < to
        invariant
            from <= i <= to <= cs.len(),
            v@ == cs@.subrange(from as int, i as int),
        decreases to - i,
    {
        v.push(cs[i]);
        i += 1;
    }
    v
}

/// The string that `cs[from..to]` spells.
pub fn sub_string(cs: &[char], from: usize, to: usize) -> (r: String)
    requires
        from <= to <= cs.len(),
    ensures
        r@ == cs@.subrange(from as int, to as int),
{
    let mut s = String::new();
    let mut i: usize = from;
    while i < to
        invariant
            from <= i <= to <= cs.len(),
            s@ == cs@.subrange(from as int, i as int),
        decreases to - i,
    {
        s.push(cs[i]);
        i += 1;
    }
    s
}

// ---------------------------------------------------------------------------
// Prefixes, suffixes and substrings
// ---------------------------------------------------------------------------

/// `s` begins with `p`.
pub open spec fn has_prefix(s: Seq<char>, p: Seq<char>) -> bool {
    p.len() <= s.len() && s.take(p.len() as int) == p
}

/// `s` ends with `p`.
pub open spec fn has_suffix(s: Seq<char>, p: Seq<char>) -> bool {
    p.len() <= s.len() && s.skip(s.len() - p.len()) == p
}

/// `p` occurs in `s` at `i`.
pub open spec fn occurs_at(s: Seq<char>, p: Seq<char>, i: int) -> bool {
    0 <= i && i + p.len() <= s.len() && s.subrange(i, i + p.len()) == p
}

/// `p` occurs somewhere in `s`.
pub open spec fn contains_text(s: Seq<char>, p: Seq<char>) -> bool {
    exists|i: int| occurs_at(s, p, i)
}

/// Whether `p` occurs in `s` at `i`.
pub fn matches_at(s: &[char], p: &[char], i: usize) -> (r: bool)
    ensures
        r == occurs_at(s@, p@, i as int),
{
    if i > s.len() || p.len() > s.len() - i {
        return false;
    }
    let mut k: usize = 0;
    while k < p.len()
        invariant
            i + p.len() <= s.len(),
            k <= p.len(),
            forall|j: int| 0 <= j < k ==> s@[i + j] == p@[j],
        decreases p.len() - k,
    {
        if s[i + k] != p[k] {
            proof {
                assert(s@.subrange(i as int, i + p.len())[k as int] != p@[k as int]);
            }
            return false;
        }
        k += 1;
    }
    proof {
        assert(s@.subrange(i as int, i + p.len()) =~= p@);
    }
    true
}

/// Whether `s` begins with `p`.
pub fn starts_with(s: &[char], p: &str) -> (r: bool)
    ensures
        r == has_prefix(s@, p@),
{
    let pc = chars_of(p);
    let r = matches_at(s, &pc, 0);
    proof {
        if p@.len() <= s@.len() {
            assert(s@.subrange(0, p@.len() as int) =~= s@.take(p@.len() as int));
        }
    }
    r
}

/// Whether `s` ends with `p`.
pub fn ends_with(s: &[char], p: &str) -> (r: bool)
    ensures
        r == has_suffix(s@, p@),
{
    let pc = chars_of(p);
    if pc.len() > s.len() {
        return false;
    }
    let r = matches_at(s, &pc, s.len() - pc.len());
    proof {
        assert(s@.subrange(s@.len() - p@.len(), s@.len() as int) =~= s@.skip(
            s@.len() - p@.len(),
        ));
    }
    r
}

/// What follows the prefix `p`, when `s` begins with it.
pub open spec fn strip_prefix_spec(s: Seq<char>, p: Seq<char>) -> Option<Seq<char>> {
    if has_prefix(s, p) {
        Some(s.skip(p.len() as int))
    } else {
        None
    }
}

/// What follows the prefix `p`, when `s` begins with it.
pub fn strip_prefix(s: &[char], p: &str) -> (r: Option<Vec<char>>)
    ensures
        match r {
            Some(rest) => strip_prefix_spec(s@, p@) == Some(rest@),
            None => strip_prefix_spec(s@, p@) is None,
        },
{
    if starts_with(s, p) {
        let n: usize = chars_of(p).len();
        let rest = sub_chars(s, n, s.len());
        proof {
            assert(s@.subrange(n as int, s@.len() as int) =~= s@.skip(n as int));
        }
        Some(rest)
    } else {
        None
    }
}

/// What precedes the suffix `p`, when `s` ends with it.
pub open spec fn strip_suffix_spec(s: Seq<char>, p: Seq<char>) -> Option<Seq<char>> {
    if has_suffix(s, p) {
        Some(s.take(s.len() - p.len()))
    } else {
        None
    }
}

/// What precedes the suffix `p`, when `s` ends with it.
pub fn strip_suffix(s: &[char], p: &str) -> (r: Option<Vec<char>>)
    ensures
        match r {
            Some(rest) => strip_suffix_spec(s@, p@) == Some(rest@),
            None => strip_suffix_spec(s@, p@) is None,
        },
{
    if ends_with(s, p) {
        let n: usize = chars_of(p).len();
        let rest = sub_chars(s, 0, s.len() - n);
        proof {
            assert(s@.subrange(0, s@.len() - n) =~= s@.take(s@.len() - n));
        }
        Some(rest)
    } else {
        None
    }
}

/// Whether `p` occurs in `s`.
pub fn contains(s: &[char], p: &str) -> (r: bool)
    ensures
        r == contains_text(s@, p@),
{
    let pc = chars_of(p);
    let mut i: usize = 0;
    while i < s.len()
        invariant
            pc@ == p@,
            i <= s.len(),
            forall|j: int| 0 <= j < i ==> !occurs_at(s@, p@, j),
        decreases s.len() - i,
    {
        if matches_at(s, &pc, i) {
            return true;
        }
        i += 1;
    }
    matches_at(s, &pc, i)
}

/// Whether the character `c` occurs in `s`.
pub fn contains_char(s: &[char], c: char) -> (r: bool)
    ensures
        r == s@.contains(c),
{
    let mut i: usize = 0;
    while i < s.len()
        invariant
            i <= s.len(),
            forall|j: int| 0 <= j < i ==> s@[j] != c,
        decreases s.len() - i,
    {
        if s[i] == c {
            return true;
        }
        i += 1;
    }
    false
}

// ---------------------------------------------------------------------------
// Splitting
// ---------------------------------------------------------------------------

/// The position of the first `c` in `s`, or `s.len()` when there is none.
pub open spec fn first_index(s: Seq<char>, c: char) -> int
    decreases s.len(),
{
    if s.len() == 0 || s[0] == c {
        0
    } else {
        1 + first_index(s.skip(1), c)
    }
}

/// `first_index` is the first position that holds `c`.
pub proof fn lemma_first_index(s: Seq<char>, c: char)
    ensures
        0 <= first_index(s, c) <= s.len(),
        forall|j: int| 0 <= j < first_index(s, c) ==> s[j] != c,
        first_index(s, c) < s.len() ==> s[first_index(s, c)] == c,
    decreases s.len(),
{
    if s.len() == 0 || s[0] == c {
    } else {
        lemma_first_index(s.skip(1), c);
        assert forall|j: int| 0 <= j < first_index(s, c) implies s[j] != c by {
            if j > 0 {
                assert(s.skip(1)[j - 1] == s[j]);
            }
        }
    }
}

/// A position that holds `c` after none before it does is `first_index`.
pub proof fn lemma_first_index_is(s: Seq<char>, c: char, k: int)
    requires
        0 <= k <= s.len(),
        forall|j: int| 0 <= j < k ==> s[j] != c,
        k < s.len() ==> s[k] == c,
    ensures
        first_index(s, c) == k,
{
    lemma_first_index(s, c);
    let f = first_index(s, c);
    if f < k {
        assert(s[f] != c);
    } else if k < f {
        assert(s[k] != c);
    }
}

/// The position of the first `c` in `s`, or `s.len()` when there is none.
pub fn find_char(s: &[char], c: char) -> (r: usize)
    ensures
        r == first_index(s@, c),
        r <= s.len(),
{
    let mut i: usize = 0;
    while i < s.len() && s[i] != c
        invariant
            i <= s.len(),
            forall|j: int| 0 <= j < i ==> s@[j] != c,
        decreases s.len() - i,
    {
        i += 1;
    }
    proof {
        lemma_first_index_is(s@, c, i as int);
    }
    i
}

/// The pieces of `s` between the occurrences of `c`: one more than there are
/// occurrences.
pub open spec fn split_on(s: Seq<char>, c: char) -> Seq<Seq<char>>
    decreases s.len(),
{
    let i = first_index(s, c);
    if 0 <= i < s.len() {
        seq![s.take(i)] + split_on(s.skip(i + 1), c)
    } else {
        seq![s]
    }
}

/// The pieces of `s` between the occurrences of `c`.
pub fn split_char(s: &[char], c: char) -> (r: Vec<Vec<char>>)
    ensures
        r@.len() == split_on(s@, c).len(),
        r@.len() >= 1,
        forall|i: int| 0 <= i < r@.len() ==> (#[trigger] r@[i])@ == split_on(s@, c)[i],
{
    let mut out: Vec<Vec<char>> = Vec::new();
    let mut start: usize = 0;
    proof {
        assert(s@.skip(0) =~= s@);
    }
    loop
        invariant_except_break
            start <= s.len(),
            split_on(s@, c).len() == out@.len() + split_on(s@.skip(start as int), c).len(),
            forall|i: int| 0 <= i < out@.len() ==> (#[trigger] out@[i])@ == split_on(s@, c)[i],
            forall|i: int|
                0 <= i < split_on(s@.skip(start as int), c).len() ==> split_on(s@, c)[out@.len()
                    + i] == #[trigger] split_on(s@.skip(start as int), c)[i],
        ensures
            out@.len() >= 1,
            out@.len() == split_on(s@, c).len(),
            forall|i: int| 0 <= i < out@.len() ==> (#[trigger] out@[i])@ == split_on(s@, c)[i],
        decreases s.len() - start,
    {
        let mut i: usize = start;
        while i < s.len() && s[i] != c
            invariant
                start <= i <= s.len(),
                forall|j: int| start <= j < i ==> s@[j] != c,
            decreases s.len() - i,
        {
            i += 1;
        }
        let ghost rest = s@.skip(start as int);
        let piece = sub_chars(s, start, i);
        proof {
            assert forall|j: int| 0 <= j < i - start implies rest[j] != c by {
                assert(rest[j] == s@[start + j]);
            }
            lemma_first_index_is(rest, c, i - start);
            assert(piece@ =~= rest.take(i - start));
        }
        if i == s.len() {
            proof {
                assert(rest.take(i - start) =~= rest);
                assert(split_on(rest, c) =~= seq![rest]);
                assert(split_on(s@, c)[out@.len() as int] == split_on(rest, c)[0]);
            }
            out.push(piece);
            break;
        }
        proof {
            let tail = rest.skip(i - start + 1);
            assert(tail =~= s@.skip(i + 1));
            assert(split_on(rest, c) =~= seq![rest.take(i - start)] + split_on(tail, c));
            assert(split_on(s@, c)[out@.len() as int] == split_on(rest, c)[0]);
            assert forall|k: int| 0 <= k < split_on(tail, c).len() implies split_on(s@, c)[out@.len()
                + 1 + k] == #[trigger] split_on(tail, c)[k] by {
                assert(split_on(rest, c)[k + 1] == split_on(tail, c)[k]);
                assert(split_on(s@, c)[out@.len() + (k + 1)] == split_on(rest, c)[k + 1]);
            }
        }
        out.push(piece);
        start = i + 1;
    }
    out
}

/// The parts of `s` before and after the first `c`, when there is one.
pub open spec fn split_once_spec(s: Seq<char>, c: char) -> Option<(Seq<char>, Seq<char>)> {
    let i = first_index(s, c);
    if i < s.len() {
        Some((s.take(i), s.skip(i + 1)))
    } else {
        None
    }
}

/// The parts of `s` before and after the first `c`, when there is one.
pub fn split_once(s: &[char], c: char) -> (r: Option<(Vec<char>, Vec<char>)>)
    ensures
        match r {
            Some((a, b)) => split_once_spec(s@, c) == Some((a@, b@)),
            None => split_once_spec(s@, c) is None,
        },
{
    let i: usize = find_char(s, c);
    if i < s.len() {
        let a = sub_chars(s, 0, i);
        let b = sub_chars(s, i + 1, s.len());
        proof {
            lemma_first_index(s@, c);
            assert(a@ =~= s@.take(i as int));
            assert(b@ =~= s@.skip(i + 1));
        }
        Some((a, b))
    } else {
        None
    }
}

/// What precedes the first occurrence of `p` in `s`, when there is one.
pub open spec fn before_first(s: Seq<char>, p: Seq<char>) -> Option<Seq<char>>
    decreases s.len(),
{
    if has_prefix(s, p) {
        Some(seq![])
    } else if s.len() == 0 {
        None
    } else {
        match before_first(s.skip(1), p) {
            Some(t) => Some(seq![s[0]] + t),
            None => None,
        }
    }
}

/// An occurrence of `p` in the tail of `s` is one in `s`.
proof fn lemma_occurs_in_tail(s: Seq<char>, p: Seq<char>, i: int)
    requires
        s.len() > 0,
        i > 0,
    ensures
        occurs_at(s.skip(1), p, i - 1) == occurs_at(s, p, i),
{
    if i + p.len() <= s.len() {
        assert(s.skip(1).subrange(i - 1, i - 1 + p.len()) =~= s.subrange(i, i + p.len()));
    }
}

/// `before_first` ends where `p` occurs for the first time.
pub proof fn lemma_before_first(s: Seq<char>, p: Seq<char>)
    ensures
        match before_first(s, p) {
            Some(t) => occurs_at(s, p, t.len() as int) && t == s.take(t.len() as int) && forall|j: int|
                0 <= j < t.len() ==> !occurs_at(s, p, j),
            None => forall|j: int| !occurs_at(s, p, j),
        },
    decreases s.len(),
{
    if has_prefix(s, p) {
        assert(s.subrange(0, p.len() as int) =~= s.take(p.len() as int));
        assert(s.take(0) =~= seq![]);
    } else {
        if occurs_at(s, p, 0) {
            assert(s.subrange(0, p.len() as int) =~= s.take(p.len() as int));
        }
        if s.len() > 0 {
            lemma_before_first(s.skip(1), p);
            match before_first(s.skip(1), p) {
                Some(t) => {
                    let u = seq![s[0]] + t;
                    lemma_occurs_in_tail(s, p, u.len() as int);
                    assert(u =~= s.take(u.len() as int));
                    assert forall|j: int| 0 <= j < u.len() implies !occurs_at(s, p, j) by {
                        if j > 0 {
                            lemma_occurs_in_tail(s, p, j);
                        }
                    }
                },
                None => {
                    assert forall|j: int| !occurs_at(s, p, j) by {
                        if j > 0 {
                            lemma_occurs_in_tail(s, p, j);
                        }
                    }
                },
            }
        }
    }
}

/// The position of the first occurrence of `p` in `s`.
pub fn find_text(s: &[char], p: &str) -> (r: Option<usize>)
    ensures
        match r {
            Some(i) => before_first(s@, p@) == Some(s@.take(i as int)) && occurs_at(
                s@,
                p@,
                i as int,
            ),
            None => before_first(s@, p@) is None,
        },
{
    let pc = chars_of(p);
    let mut i: usize = 0;
    while i < s.len()
        invariant
            pc@ == p@,
            i <= s.len(),
            forall|j: int| 0 <= j < i ==> !occurs_at(s@, p@, j),
        decreases s.len() - i,
    {
        if matches_at(s, &pc, i) {
            proof {
                lemma_before_first_is(s@, p@, i as int);
            }
            return Some(i);
        }
        i += 1;
    }
    if matches_at(s, &pc, i) {
        proof {
            lemma_before_first_is(s@, p@, i as int);
        }
        Some(i)
    } else {
        proof {
            lemma_before_first(s@, p@);
        }
        None
    }
}

/// The first place where `p` occurs is where `before_first` ends.
pub proof fn lemma_before_first_is(s: Seq<char>, p: Seq<char>, i: int)
    requires
        occurs_at(s, p, i),
        forall|j: int| 0 <= j < i ==> !occurs_at(s, p, j),
    ensures
        before_first(s, p) == Some(s.take(i)),
{
    lemma_before_first(s, p);
    match before_first(s, p) {
        Some(t) => {
            if t.len() < i {
                assert(!occurs_at(s, p, t.len() as int));
            } else if i < t.len() {
                assert(!occurs_at(s, p, i));
            }
        },
        None => {},
    }
}

/// The pieces joined with `sep` between them.
pub open spec fn join(pieces: Seq<Seq<char>>, sep: Seq<char>) -> Seq<char>
    decreases pieces.len(),
{
    if pieces.len() == 0 {
        seq![]
    } else if pieces.len() == 1 {
        pieces[0]
    } else {
        join(pieces.drop_last(), sep) + sep + pieces.last()
    }
}

/// Joins the strings with `sep` between them.
pub fn join_strings(pieces: &Vec<String>, sep: &str) -> (r: String)
    ensures
        r@ == join(views(pieces@), sep@),
{
    let mut s = String::new();
    let ghost all = views(pieces@);
    let mut i: usize = 0;
    while i < pieces.len()
        invariant
            i <= pieces.len(),
            all == views(pieces@),
            s@ == join(all.take(i as int), sep@),
        decreases pieces.len() - i,
    {
        proof {
            let next = all.take(i + 1);
            assert(next.drop_last() =~= all.take(i as int));
            assert(next.last() == pieces@[i as int]@);
            if i == 0 {
                assert(seq![] + pieces@[0]@ =~= next[0]);
            }
        }
        if i > 0 {
            s.append(sep);
        }
        s.append(&pieces[i]);
        i += 1;
    }
    proof {
        assert(all.take(all.len() as int) =~= all);
    }
    s
}

// ---------------------------------------------------------------------------
// White space
// ---------------------------------------------------------------------------

/// `s` without its leading white space.
pub open spec fn trim_start(s: Seq<char>) -> Seq<char>
    decreases s.len(),
{
    if s.len() > 0 && white_space(s[0]) {
        trim_start(s.skip(1))
    } else {
        s
    }
}

/// `s` without its trailing white space.
pub open spec fn trim_end(s: Seq<char>) -> Seq<char>
    decreases s.len(),
{
    if s.len() > 0 && white_space(s.last()) {
        trim_end(s.drop_last())
    } else {
        s
    }
}

/// `s` without its leading and trailing white space.
pub open spec fn trim(s: Seq<char>) -> Seq<char> {
    trim_end(trim_start(s))
}

/// Leading characters that are all white space do not survive `trim_start`.
proof fn lemma_trim_start(s: Seq<char>, k: int)
    requires
        0 <= k <= s.len(),
        forall|j: int| 0 <= j < k ==> white_space(#[trigger] s[j]),
        k < s.len() ==> !white_space(s[k]),
    ensures
        trim_start(s) == s.skip(k),
    decreases k,
{
    if k == 0 {
        assert(s.skip(0) =~= s);
    } else {
        assert(white_space(s[0]));
        let t = s.skip(1);
        assert forall|j: int| 0 <= j < k - 1 implies white_space(#[trigger] t[j]) by {
            assert(t[j] == s[j + 1]);
        }
        if k - 1 < t.len() {
            assert(t[k - 1] == s[k]);
        }
        lemma_trim_start(t, k - 1);
        assert(t.skip(k - 1) =~= s.skip(k));
    }
}

/// Trailing characters that are all white space do not survive `trim_end`.
proof fn lemma_trim_end(s: Seq<char>, k: int)
    requires
        0 <= k <= s.len(),
        forall|j: int| k <= j < s.len() ==> white_space(#[trigger] s[j]),
        k > 0 ==> !white_space(s[k - 1]),
    ensures
        trim_end(s) == s.take(k),
    decreases s.len() - k,
{
    if k == s.len() {
        assert(s.take(k) =~= s);
    } else {
        assert(white_space(s[s.len() - 1]));
        let t = s.drop_last();
        assert forall|j: int| k <= j < t.len() implies white_space(#[trigger] t[j]) by {
            assert(t[j] == s[j]);
        }
        lemma_trim_end(t, k);
        assert(t.take(k) =~= s.take(k));
    }
}

/// `s` without its leading white space.
pub fn trim_start_chars(s: &[char]) -> (r: Vec<char>)
    ensures
        r@ == trim_start(s@),
{
    let mut from: usize = 0;
    while from < s.len() && s[from].is_whitespace()
        invariant
            from <= s.len(),
            forall|j: int| 0 <= j < from ==> white_space(#[trigger] s@[j]),
        decreases s.len() - from,
    {
        from += 1;
    }
    proof {
        lemma_trim_start(s@, from as int);
        assert(s@.subrange(from as int, s@.len() as int) =~= s@.skip(from as int));
    }
    sub_chars(s, from, s.len())
}

/// `s` without its trailing white space.
pub fn trim_end_chars(s: &[char]) -> (r: Vec<char>)
    ensures
        r@ == trim_end(s@),
{
    let mut to: usize = s.len();
    while to > 0 && s[to - 1].is_whitespace()
        invariant
            to <= s.len(),
            forall|j: int| to <= j < s.len() ==> white_space(#[trigger] s@[j]),
        decreases to,
    {
        to -= 1;
    }
    proof {
        lemma_trim_end(s@, to as int);
        assert(s@.subrange(0, to as int) =~= s@.take(to as int));
    }
    sub_chars(s, 0, to)
}

/// `s` without its leading and trailing white space.
pub fn trim_chars(s: &[char]) -> (r: Vec<char>)
    ensures
        r@ == trim(s@),
{
    let t = trim_start_chars(s);
    trim_end_chars(&t)
}

/// How many characters `s` begins with that are no white space.
pub open spec fn word_len(s: Seq<char>) -> int
    decreases s.len(),
{
    if s.len() == 0 || white_space(s[0]) {
        0
    } else {
        1 + word_len(s.skip(1))
    }
}

proof fn lemma_word_len(s: Seq<char>, k: int)
    requires
        0 <= k <= s.len(),
        forall|j: int| 0 <= j < k ==> !white_space(#[trigger] s[j]),
        k < s.len() ==> white_space(s[k]),
    ensures
        word_len(s) == k,
    decreases k,
{
    if k > 0 {
        assert(!white_space(s[0]));
        let t = s.skip(1);
        assert forall|j: int| 0 <= j < k - 1 implies !white_space(#[trigger] t[j]) by {
            assert(t[j] == s[j + 1]);
        }
        if k - 1 < t.len() {
            assert(t[k - 1] == s[k]);
        }
        lemma_word_len(t, k - 1);
    }
}

/// The words of `s`: its longest runs of characters that are no white space.
pub open spec fn words(s: Seq<char>) -> Seq<Seq<char>>
    decreases s.len(),
{
    if s.len() == 0 {
        seq![]
    } else if white_space(s[0]) {
        words(s.skip(1))
    } else if 0 < word_len(s) <= s.len() {
        seq![s.take(word_len(s))] + words(s.skip(word_len(s)))
    } else {
        seq![]
    }
}

/// The words of `s`.
pub fn split_whitespace(s: &[char]) -> (r: Vec<Vec<char>>)
    ensures
        r@.len() == words(s@).len(),
        forall|i: int|
            0 <= i < r@.len() ==> (#[trigger] r@[i])@ == words(s@)[i] && r@[i]@.len() > 0,
{
    let mut out: Vec<Vec<char>> = Vec::new();
    let mut i: usize = 0;
    proof {
        assert(s@.skip(0) =~= s@);
    }
    while i < s.len()
        invariant
            i <= s.len(),
            words(s@).len() == out@.len() + words(s@.skip(i as int)).len(),
            forall|k: int|
                0 <= k < out@.len() ==> (#[trigger] out@[k])@ == words(s@)[k] && out@[k]@.len() > 0,
            forall|k: int|
                0 <= k < words(s@.skip(i as int)).len() ==> words(s@)[out@.len() + k]
                    == #[trigger] words(s@.skip(i as int))[k],
        decreases s.len() - i,
    {
        let ghost rest = s@.skip(i as int);
        proof {
            assert(rest[0] == s@[i as int]);
        }
        if s[i].is_whitespace() {
            proof {
                assert(rest.skip(1) =~= s@.skip(i + 1));
            }
            i += 1;
        } else {
            let mut end: usize = i;
            while end < s.len() && !s[end].is_whitespace()
                invariant
                    i <= end <= s.len(),
                    forall|j: int| i <= j < end ==> !white_space(#[trigger] s@[j]),
                ensures
                    i <= end <= s.len(),
                    forall|j: int| i <= j < end ==> !white_space(#[trigger] s@[j]),
                    end < s.len() ==> white_space(s@[end as int]),
                decreases s.len() - end,
            {
                end += 1;
            }
            let word = sub_chars(s, i, end);
            proof {
                let k = end - i;
                assert forall|j: int| 0 <= j < k implies !white_space(#[trigger] rest[j]) by {
                    assert(rest[j] == s@[i + j]);
                }
                if k < rest.len() {
                    assert(rest[k] == s@[end as int]);
                }
                lemma_word_len(rest, k);
                if k == 0 {
                    assert(white_space(rest[0]));
                }
                assert(word@ =~= rest.take(k));
                assert(rest.skip(k) =~= s@.skip(end as int));
                let tail = s@.skip(end as int);
                assert(words(rest) =~= seq![rest.take(k)] + words(tail));
                assert(words(s@)[out@.len() as int] == words(rest)[0]);
                assert forall|m: int| 0 <= m < words(tail).len() implies words(s@)[out@.len() + 1
                    + m] == #[trigger] words(tail)[m] by {
                    assert(words(rest)[m + 1] == words(tail)[m]);
                    assert(words(s@)[out@.len() + (m + 1)] == words(rest)[m + 1]);
                }
            }
            out.push(word);
            i = end;
        }
    }
    out
}

/// `s` holds a white-space character.
pub open spec fn has_white_space(s: Seq<char>) -> bool {
    exists|i: int| 0 <= i < s.len() && white_space(#[trigger] s[i])
}

/// Whether `s` holds a white-space character.
pub fn contains_whitespace(s: &[char]) -> (r: bool)
    ensures
        r == has_white_space(s@),
{
    let mut i: usize = 0;
    while i < s.len()
        invariant
            i <= s.len(),
            forall|j: int| 0 <= j < i ==> !white_space(#[trigger] s@[j]),
        decreases s.len() - i,
    {
        if s[i].is_whitespace() {
            assert(white_space(s@[i as int]));
            return true;
        }
        i += 1;
    }
    false
}

// ---------------------------------------------------------------------------
// Letter case and character classes
// ---------------------------------------------------------------------------

/// The ASCII lower-case form of `c`.
pub open spec fn ascii_lower(c: char) -> char {
    if 'A' <= c && c <= 'Z' {
        (c as u32 + 32) as char
    } else {
        c
    }
}

/// The ASCII upper-case form of `c`.
pub open spec fn ascii_upper(c: char) -> char {
    if 'a' <= c && c <= 'z' {
        (c as u32 - 32) as char
    } else {
        c
    }
}

/// `s` with its ASCII capitals in lower case.
pub open spec fn ascii_lower_all(s: Seq<char>) -> Seq<char> {
    s.map_values(|c: char| ascii_lower(c))
}

/// `s` with its small ASCII letters in upper case.
pub open spec fn ascii_upper_all(s: Seq<char>) -> Seq<char> {
    s.map_values(|c: char| ascii_upper(c))
}

/// The ASCII lower-case form of `c`.
pub fn lower_char(c: char) -> (r: char)
    ensures
        r == ascii_lower(c),
{
    if 'A' <= c && c <= 'Z' {
        (c as u8 + 32) as char
    } else {
        c
    }
}

/// The ASCII upper-case form of `c`.
pub fn upper_char(c: char) -> (r: char)
    ensures
        r == ascii_upper(c),
{
    if 'a' <= c && c <= 'z' {
        (c as u8 - 32) as char
    } else {
        c
    }
}

/// `s` with its ASCII capitals in lower case.
pub fn to_ascii_lower(s: &[char]) -> (r: Vec<char>)
    ensures
        r@ == ascii_lower_all(s@),
{
    let mut v: Vec<char> = Vec::new();
    let mut i: usize = 0;
    while i < s.len()
        invariant
            i <= s.len(),
            v@ == ascii_lower_all(s@.take(i as int)),
        decreases s.len() - i,
    {
        v.push(lower_char(s[i]));
        i += 1;
        proof {
            assert(v@ =~= ascii_lower_all(s@.take(i as int)));
        }
    }
    proof {
        assert(s@.take(s@.len() as int) =~= s@);
    }
    v
}

/// `s` with its small ASCII letters in upper case.
pub fn to_ascii_upper(s: &[char]) -> (r: Vec<char>)
    ensures
        r@ == ascii_upper_all(s@),
{
    let mut v: Vec<char> = Vec::new();
    let mut i: usize = 0;
    while i < s.len()
        invariant
            i <= s.len(),
            v@ == ascii_upper_all(s@.take(i as int)),
        decreases s.len() - i,
    {
        v.push(upper_char(s[i]));
        i += 1;
        proof {
            assert(v@ =~= ascii_upper_all(s@.take(i as int)));
        }
    }
    proof {
        assert(s@.take(s@.len() as int) =~= s@);
    }
    v
}

/// `a` and `b` differ at most in the case of ASCII letters.
pub open spec fn same_ignoring_case(a: Seq<char>, b: Seq<char>) -> bool {
    ascii_lower_all(a) == ascii_lower_all(b)
}

/// Whether `a` and `b` differ at most in the case of ASCII letters.
pub fn eq_ignore_case(a: &[char], b: &str) -> (r: bool)
    ensures
        r == same_ignoring_case(a@, b@),
{
    let la = to_ascii_lower(a);
    let bc = chars_of(b);
    let lb = to_ascii_lower(&bc);
    same_chars(&la, &lb)
}

/// Whether `a` and `b` hold the same characters.
pub fn same_chars(a: &[char], b: &[char]) -> (r: bool)
    ensures
        r == (a@ == b@),
{
    if a.len() != b.len() {
        return false;
    }
    let r = matches_at(a, b, 0);
    proof {
        assert(a@.subrange(0, a@.len() as int) =~= a@);
    }
    r
}

/// Whether the characters `a` spell `b`.
pub fn is_text(a: &[char], b: &str) -> (r: bool)
    ensures
        r == (a@ == b@),
{
    let bc = chars_of(b);
    same_chars(a, &bc)
}

/// `c` is an ASCII letter or digit.
pub open spec fn is_ascii_alnum(c: char) -> bool {
    is_digit(c) || ('a' <= c && c <= 'z') || ('A' <= c && c <= 'Z')
}

/// Whether `c` is an ASCII letter or digit.
pub fn ascii_alnum(c: char) -> (r: bool)
    ensures
        r == is_ascii_alnum(c),
{
    ('0' <= c && c <= '9') || ('a' <= c && c <= 'z') || ('A' <= c && c <= 'Z')
}

/// `s` with each `from` replaced by `to`.
pub open spec fn replace_char_spec(s: Seq<char>, from: char, to: char) -> Seq<char> {
    s.map_values(
        |c: char|
            if c == from {
                to
            } else {
                c
            },
    )
}

/// `s` with each `from` replaced by `to`.
pub fn replace_char(s: &[char], from: char, to: char) -> (r: Vec<char>)
    ensures
        r@ == replace_char_spec(s@, from, to),
{
    let mut v: Vec<char> = Vec::new();
    let mut i: usize = 0;
    while i < s.len()
        invariant
            i <= s.len(),
            v@ == replace_char_spec(s@.take(i as int), from, to),
        decreases s.len() - i,
    {
        let c = s[i];
        v.push(
            if c == from {
                to
            } else {
                c
            },
        );
        i += 1;
        proof {
            assert(v@ =~= replace_char_spec(s@.take(i as int), from, to));
        }
    }
    proof {
        assert(s@.take(s@.len() as int) =~= s@);
    }
    v
}

/// `s` after its suffix `p` has been taken off as often as it is there.
pub open spec fn strip_suffixes(s: Seq<char>, p: Seq<char>) -> Seq<char>
    decreases s.len(),
{
    if p.len() > 0 && has_suffix(s, p) {
        strip_suffixes(s.take(s.len() - p.len()), p)
    } else {
        s
    }
}

/// `s` after its suffix `p` has been taken off as often as it is there.
pub fn trim_end_text(s: &[char], p: &str) -> (r: Vec<char>)
    ensures
        r@ == strip_suffixes(s@, p@),
{
    let mut v = sub_chars(s, 0, s.len());
    proof {
        assert(v@ =~= s@);
    }
    if p.is_empty() {
        return v;
    }
    while ends_with(&v, p)
        invariant
            p@.len() > 0,
            strip_suffixes(v@, p@) == strip_suffixes(s@, p@),
        decreases v.len(),
    {
        let n: usize = chars_of(p).len();
        let t = sub_chars(&v, 0, v.len() - n);
        proof {
            assert(t@ =~= v@.take(v@.len() - p@.len()));
        }
        v = t;
    }
    v
}

/// The word with its first character in upper case.
pub open spec fn capitalized(w: Seq<char>) -> Seq<char> {
    uppercase(w[0]) + w.skip(1)
}

/// The word with its first character in upper case.
pub fn capitalize(w: &[char]) -> (r: String)
    requires
        w.len() > 0,
    ensures
        r@ == capitalized(w@),
{
    let mut s = upper_of(w[0]);
    let rest = sub_string(w, 1, w.len());
    proof {
        assert(rest@ =~= w@.skip(1));
    }
    s.append(&rest);
    s
}

// ---------------------------------------------------------------------------
// Numbers
// ---------------------------------------------------------------------------

/// The decimal digit that stands for `d`.
pub open spec fn digit_char(d: nat) -> char {
    (('0' as u32) + d) as char
}

/// `n` in decimal, without leading zeros.
pub open spec fn decimal(n: nat) -> Seq<char>
    decreases n,
{
    if n < 10 {
        seq![digit_char(n)]
    } else {
        decimal(n / 10).push(digit_char(n % 10))
    }
}

/// `c` is an ASCII decimal digit.
pub open spec fn is_digit(c: char) -> bool {
    '0' <= c && c <= '9'
}

/// The number that the digits `s` denote.
pub open spec fn digits_value(s: Seq<char>) -> nat
    decreases s.len(),
{
    if s.len() == 0 {
        0
    } else {
        digits_value(s.drop_last()) * 10 + (s.last() as u32 - '0' as u32) as nat
    }
}

/// All characters of `s` are decimal digits.
pub open spec fn all_digits(s: Seq<char>) -> bool {
    forall|i: int| 0 <= i < s.len() ==> is_digit(#[trigger] s[i])
}

/// An unsigned decimal number up to `max`: an optional `+`, then at least one
/// digit and nothing else.
pub open spec fn parse_unsigned(s: Seq<char>, max: nat) -> Option<nat> {
    let d = if s.len() > 0 && s[0] == '+' {
        s.skip(1)
    } else {
        s
    };
    if d.len() > 0 && all_digits(d) && digits_value(d) <= max {
        Some(digits_value(d))
    } else {
        None
    }
}

/// Dropping trailing digits cannot make a number larger.
proof fn lemma_digits_monotonic(s: Seq<char>, k: int)
    requires
        all_digits(s),
        0 <= k <= s.len(),
    ensures
        digits_value(s.take(k)) <= digits_value(s),
    decreases s.len() - k,
{
    if k < s.len() {
        lemma_digits_monotonic(s, k + 1);
        assert(s.take(k + 1).drop_last() =~= s.take(k));
        assert(is_digit(s[k]));
        assert(s.take(k + 1).last() == s[k]);
    } else {
        assert(s.take(k) =~= s);
    }
}

/// Reads an unsigned decimal number up to `max`.
pub fn read_unsigned(s: &[char], max: u64) -> (r: Option<u64>)
    ensures
        match r {
            Some(n) => parse_unsigned(s@, max as nat) == Some(n as nat),
            None => parse_unsigned(s@, max as nat) is None,
        },
{
    let from: usize = if s.len() > 0 && s[0] == '+' {
        1
    } else {
        0
    };
    let ghost d = s@.skip(from as int);
    proof {
        assert(from == 0 ==> d =~= s@);
    }
    if from == s.len() {
        return None;
    }
    let mut value: u64 = 0;
    let mut i: usize = from;
    while i < s.len()
        invariant
            from <= i <= s.len(),
            d == s@.skip(from as int),
            value <= max,
            forall|j: int| from <= j < i ==> is_digit(s@[j]),
            value == digits_value(d.take(i - from)),
            d == (if s@.len() > 0 && s@[0] == '+' {
                s@.skip(1)
            } else {
                s@
            }),
        decreases s.len() - i,
    {
        let c = s[i];
        proof {
            assert(d[i - from] == s@[i as int]);
        }
        if !('0' <= c && c <= '9') {
            proof {
                assert(!is_digit(d[i - from]));
            }
            return None;
        }
        let digit: u64 = c as u64 - '0' as u64;
        proof {
            assert(d.take(i - from + 1).drop_last() =~= d.take(i - from));
            assert(d.take(i - from + 1).last() == c);
            assert(digits_value(d.take(i - from + 1)) == value * 10 + digit);
        }
        if value > (u64::MAX - digit) / 10 || value * 10 + digit > max {
            proof {
                assert(digits_value(d.take(i - from + 1)) > max);
                if all_digits(d) {
                    lemma_digits_monotonic(d, i - from + 1);
                }
            }
            return None;
        }
        value = value * 10 + digit;
        i += 1;
    }
    proof {
        assert(d.take(s.len() - from) =~= d);
        assert forall|j: int| 0 <= j < d.len() implies is_digit(#[trigger] d[j]) by {
            assert(d[j] == s@[from + j]);
        }
    }
    Some(value)
}

/// Appends `n` in decimal.
pub fn push_decimal(s: &mut String, n: u64)
    ensures
        final(s)@ == old(s)@ + decimal(n as nat),
    decreases n,
{
    if n >= 10 {
        push_decimal(s, n / 10);
    }
    let d: u8 = (n % 10) as u8 + 48;
    s.push(d as char);
    proof {
        assert(n < 10 ==> old(s)@.push(digit_char(n as nat)) =~= old(s)@ + decimal(n as nat));
        assert(n >= 10 ==> (old(s)@ + decimal((n / 10) as nat)).push(digit_char((n % 10) as nat))
            =~= old(s)@ + decimal(n as nat));
    }
}

/// `n` in decimal.
pub fn decimal_string(n: u64) -> (r: String)
    ensures
        r@ == decimal(n as nat),
{
    let mut s = String::new();
    push_decimal(&mut s, n);
    proof {
        assert(Seq::<char>::empty() + decimal(n as nat) =~= decimal(n as nat));
    }
    s
}

/// The lower-case hexadecimal digit that stands for `d`.
pub open spec fn hex_char(d: nat) -> char {
    if d < 10 {
        digit_char(d)
    } else {
        (('a' as u32) + (d - 10)) as char
    }
}

/// `n` in lower-case hexadecimal with the prefix `0x` and no leading zeros.
pub open spec fn hex_byte(n: u8) -> Seq<char> {
    if n < 16 {
        seq!['0', 'x', hex_char(n as nat)]
    } else {
        seq!['0', 'x', hex_char((n / 16) as nat), hex_char((n % 16) as nat)]
    }
}

fn hex_digit(d: u8) -> (c: char)
    requires
        d < 16,
    ensures
        c == hex_char(d as nat),
{
    if d < 10 {
        (d + 48) as char
    } else {
        (d - 10 + 97) as char
    }
}

/// Appends `n` in hexadecimal with the prefix `0x`.
pub fn push_hex_byte(s: &mut String, n: u8)
    ensures
        final(s)@ == old(s)@ + hex_byte(n),
{
    s.push('0');
    s.push('x');
    if n >= 16 {
        s.push(hex_digit(n / 16));
    }
    s.push(hex_digit(n % 16));
    proof {
        assert(s@ =~= old(s)@ + hex_byte(n));
    }
}

// ---------------------------------------------------------------------------
// Laws
// ---------------------------------------------------------------------------

/// A text is split at the first separator into what stands before and after it, and not
/// at all where there is none.
pub proof fn law_split_at_the_first(before: Seq<char>, c: char, after: Seq<char>)
    requires
        !before.contains(c),
    ensures
        split_once_spec(before + seq![c] + after, c) == Some((before, after)),
        split_once_spec(before, c) is None,
{
    let all = before + seq![c] + after;
    assert forall|j: int| 0 <= j < before.len() implies all[j] != c by {
        assert(all[j] == before[j]);
        assert(before.contains(before[j]));
    }
    lemma_first_index_is(all, c, before.len() as int);
    assert(all.take(before.len() as int) =~= before);
    assert(all.skip(before.len() as int + 1) =~= after);
    assert forall|j: int| 0 <= j < before.len() implies before[j] != c by {
        assert(before.contains(before[j]));
    }
    lemma_first_index_is(before, c, before.len() as int);
}

/// Trimming takes off the white space around a text and nothing of the text.
pub proof fn law_trim(front: Seq<char>, text: Seq<char>, back: Seq<char>)
    requires
        forall|i: int| 0 <= i < front.len() ==> white_space(#[trigger] front[i]),
        forall|i: int| 0 <= i < back.len() ==> white_space(#[trigger] back[i]),
        text.len() > 0 ==> !white_space(text[0]) && !white_space(text.last()),
    ensures
        trim(front + text + back) == text,
{
    let all = front + text + back;
    if text.len() > 0 {
        assert forall|j: int| 0 <= j < front.len() implies white_space(#[trigger] all[j]) by {
            assert(all[j] == front[j]);
        }
        assert(all[front.len() as int] == text[0]);
        lemma_trim_start(all, front.len() as int);
        let rest = all.skip(front.len() as int);
        assert(rest =~= text + back);
        assert forall|j: int| text.len() <= j < rest.len() implies white_space(
            #[trigger] rest[j],
        ) by {
            assert(rest[j] == back[j - text.len()]);
        }
        assert(rest[text.len() - 1] == text.last());
        lemma_trim_end(rest, text.len() as int);
        assert(rest.take(text.len() as int) =~= text);
    } else {
        assert forall|j: int| 0 <= j < all.len() implies white_space(#[trigger] all[j]) by {
            if j < front.len() {
                assert(all[j] == front[j]);
            } else {
                assert(all[j] == back[j - front.len()]);
            }
        }
        lemma_trim_start(all, all.len() as int);
        assert(all.skip(all.len() as int) =~= text);
    }
}

/// Among the ASCII characters the space, the tab and the line breaks are white space, and
/// nothing that is seen is.
pub proof fn law_white_space(c: char)
    ensures
        c == ' ' || c == '\t' || c == '\n' || c == '\r' ==> white_space(c),
        '!' <= c && c <= '~' ==> !white_space(c),
{
}

/// Letters of the two cases correspond, and nothing else changes.
pub proof fn law_ascii_cases(c: char)
    ensures
        'A' <= c && c <= 'Z' ==> ascii_lower(c) as u32 == c as u32 + 32 && ascii_upper(
            ascii_lower(c),
        ) == c,
        'a' <= c && c <= 'z' ==> ascii_upper(c) as u32 == c as u32 - 32 && ascii_lower(
            ascii_upper(c),
        ) == c,
        !('A' <= c && c <= 'Z') ==> ascii_lower(c) == c,
        !('a' <= c && c <= 'z') ==> ascii_upper(c) == c,
{
}

/// An ASCII text without capitals is its own lower-case form.
pub proof fn law_lower_case_text_stays(s: Seq<char>)
    requires
        forall|i: int|
            0 <= i < s.len() ==> '\0' <= (#[trigger] s[i]) <= '\u{7f}' && !('A' <= s[i] && s[i]
                <= 'Z'),
    ensures
        lowercase(s) == s,
        ascii_lower_all(s) == s,
{
    assert(vstd::utf8::is_ascii_chars(s));
    assert(ascii_lower_all(s) =~= s);
}

/// A suffix is taken off as often as it is there, and only it.
pub proof fn law_suffixes_are_taken_off(s: Seq<char>, p: Seq<char>)
    requires
        p.len() > 0,
    ensures
        strip_suffixes(s + p, p) == strip_suffixes(s, p),
        !has_suffix(s, p) ==> strip_suffixes(s, p) == s,
        !has_suffix(strip_suffixes(s, p), p),
        has_prefix(p + s, p),
        has_suffix(s + p, p),
    decreases s.len(),
{
    let all = s + p;
    assert(all.skip(all.len() - p.len()) =~= p);
    assert(all.take(all.len() - p.len()) =~= s);
    assert((p + s).take(p.len() as int) =~= p);
    if has_suffix(s, p) {
        law_suffixes_are_taken_off(s.take(s.len() - p.len()), p);
    }
}

/// Joining puts the separator between the pieces, and nowhere else.
pub proof fn law_join(pieces: Seq<Seq<char>>, last: Seq<char>, sep: Seq<char>)
    ensures
        join(Seq::<Seq<char>>::empty(), sep) == Seq::<char>::empty(),
        join(seq![last], sep) == last,
        pieces.len() > 0 ==> join(pieces.push(last), sep) == join(pieces, sep) + sep + last,
{
    assert(pieces.push(last).drop_last() =~= pieces);
}

/// A number that was written is read back, in decimal digits without a leading zero.
pub proof fn law_decimal_reads_back(n: nat, max: nat)
    requires
        n <= max,
    ensures
        parse_unsigned(decimal(n), max) == Some(n),
        decimal(n).len() > 0,
        decimal(n).len() > 1 ==> decimal(n)[0] != '0',
        forall|i: int| 0 <= i < decimal(n).len() ==> '0' <= #[trigger] decimal(n)[i] <= '9',
{
    lemma_decimal(n);
}

proof fn lemma_decimal(n: nat)
    ensures
        all_digits(decimal(n)),
        digits_value(decimal(n)) == n,
        decimal(n).len() > 0,
        n > 0 ==> decimal(n)[0] != '0',
    decreases n,
{
    let d = decimal(n);
    if n < 10 {
        assert(d.drop_last() =~= Seq::<char>::empty());
        assert(digits_value(d.drop_last()) == 0);
    } else {
        lemma_decimal(n / 10);
        assert(d.drop_last() =~= decimal(n / 10));
    }
}

/// What is no number is not read: a text that is empty, holds a character that is no
/// digit, or denotes more than is allowed.
pub proof fn law_only_numbers_are_read(s: Seq<char>, max: nat, i: int)
    ensures
        s.len() == 0 ==> parse_unsigned(s, max) is None,
        0 <= i < s.len() && !('0' <= s[i] <= '9') && (i > 0 || s[0] != '+') ==> parse_unsigned(
            s,
            max,
        ) is None,
        parse_unsigned(s, max) matches Some(n) ==> n <= max,
{
    if 0 < i < s.len() && s[0] == '+' {
        assert(s.skip(1)[i - 1] == s[i]);
    }
}

/// Splitting at a separator and joining with it undo each other.
pub proof fn law_split_and_join(s: Seq<char>, c: char)
    ensures
        join(split_on(s, c), seq![c]) == s,
        split_on(s, c).len() > 0,
        forall|i: int| 0 <= i < split_on(s, c).len() ==> !(#[trigger] split_on(s, c)[i]).contains(c),
    decreases s.len(),
{
    let i = first_index(s, c);
    lemma_first_index(s, c);
    if 0 <= i < s.len() {
        let rest = s.skip(i + 1);
        law_split_and_join(rest, c);
        let tail = split_on(rest, c);
        lemma_join_front(s.take(i), tail, seq![c]);
        assert(s.take(i) + seq![c] + rest =~= s);
        let all = split_on(s, c);
        assert forall|k: int| 0 <= k < all.len() implies !(#[trigger] all[k]).contains(c) by {
            if k > 0 {
                assert(all[k] == tail[k - 1]);
            }
        }
    }
}

/// Joining begins with the first piece.
pub proof fn lemma_join_front(first: Seq<char>, tail: Seq<Seq<char>>, sep: Seq<char>)
    requires
        tail.len() > 0,
    ensures
        join(seq![first] + tail, sep) == first + sep + join(tail, sep),
    decreases tail.len(),
{
    let all = seq![first] + tail;
    if tail.len() == 1 {
        assert(all.drop_last() =~= seq![first]);
        assert(all.last() == tail[0]);
        assert(join(seq![first], sep) == first);
    } else {
        lemma_join_front(first, tail.drop_last(), sep);
        assert(all.drop_last() =~= seq![first] + tail.drop_last());
        assert(all.last() == tail.last());
        assert(join(all, sep) =~= first + sep + join(tail, sep));
    }
}

/// Replacing a character changes each of its occurrences and nothing else.
pub proof fn law_replace(s: Seq<char>, from: char, to: char, i: int)
    requires
        0 <= i < s.len(),
    ensures
        replace_char_spec(s, from, to).len() == s.len(),
        s[i] == from ==> replace_char_spec(s, from, to)[i] == to,
        s[i] != from ==> replace_char_spec(s, from, to)[i] == s[i],
{
}

/// The words of a text are what white space separates: the first word of a text that
/// begins with one, then those of the rest. White space in front makes no difference.
pub proof fn law_words(word: Seq<char>, space: char, rest: Seq<char>)
    requires
        word.len() > 0,
        forall|i: int| 0 <= i < word.len() ==> !white_space(#[trigger] word[i]),
        white_space(space),
    ensures
        words(word) == seq![word],
        words(word + seq![space] + rest) == seq![word] + words(rest),
        words(seq![space] + rest) == words(rest),
        words(Seq::<char>::empty()).len() == 0,
{
    lemma_word_len(word, word.len() as int);
    assert(word.take(word.len() as int) =~= word);
    assert(word.skip(word.len() as int) =~= Seq::<char>::empty());
    assert(words(Seq::<char>::empty()) =~= Seq::<Seq<char>>::empty());
    assert(seq![word] + Seq::<Seq<char>>::empty() =~= seq![word]);
    let all = word + seq![space] + rest;
    assert forall|j: int| 0 <= j < word.len() implies !white_space(#[trigger] all[j]) by {
        assert(all[j] == word[j]);
    }
    assert(all[word.len() as int] == space);
    lemma_word_len(all, word.len() as int);
    assert(all.take(word.len() as int) =~= word);
    let t = seq![space] + rest;
    assert(all.skip(word.len() as int) =~= t);
    assert(t.skip(1) =~= rest);
    assert(t[0] == space);
    assert(words(t) == words(rest));
    assert(words(all) == seq![all.take(word_len(all))] + words(all.skip(word_len(all))));
}

/// Of the ASCII characters the digits are numbers, and upper case changes the small letters
/// alone; a word begins with its first character in upper case and goes on as it is.
pub proof fn law_ascii_numbers_and_capitals(c: char, rest: Seq<char>)
    requires
        c <= '\u{7f}',
    ensures
        numeric(c) <==> '0' <= c && c <= '9',
        'a' <= c && c <= 'z' ==> uppercase(c) == seq![(c as u32 - 32) as char],
        !('a' <= c && c <= 'z') ==> uppercase(c) == seq![c],
        'a' <= c && c <= 'z' ==> capitalized(seq![c] + rest) == seq![(c as u32 - 32) as char]
            + rest,
        !('a' <= c && c <= 'z') ==> capitalized(seq![c] + rest) == seq![c] + rest,
{
    let w = seq![c] + rest;
    assert(w[0] == c);
    assert(w.skip(1) =~= rest);
}

/// A text is read back from its UTF-8 form.
pub proof fn law_utf8_reads_back(s: Seq<char>)
    ensures
        lossy_text(vstd::utf8::encode_utf8(s)) == s,
{
    vstd::utf8::encode_utf8_valid_utf8(s);
    vstd::utf8::encode_utf8_decode_utf8(s);
}

/// UTF-16 is read unit by unit: a unit that is no surrogate is the character with its
/// number, two surrogates in order make one character of the higher planes, and a surrogate
/// without its partner is replaced.
pub proof fn law_utf16_units(a: u16, b: u16, rest: Seq<u16>)
    ensures
        lossy_utf16(Seq::<u16>::empty()) == Seq::<char>::empty(),
        a < 0xD800 || 0xDFFF < a ==> lossy_utf16(seq![a] + rest) == seq![a as char] + lossy_utf16(
            rest,
        ),
        0xD800 <= a && a <= 0xDBFF && 0xDC00 <= b && b <= 0xDFFF ==> lossy_utf16(
            seq![a, b] + rest,
        ) == seq![(0x1_0000 + (a - 0xD800) * 0x400 + (b - 0xDC00)) as char] + lossy_utf16(rest),
        0xD800 <= a && a <= 0xDBFF && !(0xDC00 <= b && b <= 0xDFFF) ==> lossy_utf16(
            seq![a, b] + rest,
        ) == seq!['\u{FFFD}'] + lossy_utf16(seq![b] + rest),
        0xD800 <= a && a <= 0xDBFF ==> lossy_utf16(seq![a]) == seq!['\u{FFFD}'],
        0xDC00 <= a && a <= 0xDFFF ==> lossy_utf16(seq![a] + rest) == seq!['\u{FFFD}']
            + lossy_utf16(rest),
{
    let one = seq![a] + rest;
    let two = seq![a, b] + rest;
    assert(one[0] == a);
    assert(one.skip(1) =~= rest);
    assert(two[0] == a);
    assert(two[1] == b);
    assert(two.skip(2) =~= rest);
    assert(two.skip(1) =~= seq![b] + rest);
    assert(seq![a].skip(1) =~= Seq::<u16>::empty());
    assert(lossy_utf16(seq![a].skip(1)) =~= Seq::<char>::empty());
    if 0xD800 <= a && a <= 0xDBFF {
        assert(lossy_utf16(seq![a]) =~= seq!['\u{FFFD}']);
    }
}

/// A prefix is taken off exactly where the text begins with its characters, and what follows
/// it is left; so at the end with a suffix.
pub proof fn law_prefixes_and_suffixes(s: Seq<char>, p: Seq<char>)
    ensures
        has_prefix(s, p) <==> p.len() <= s.len() && forall|i: int|
            0 <= i < p.len() ==> s[i] == #[trigger] p[i],
        has_suffix(s, p) <==> p.len() <= s.len() && forall|i: int|
            0 <= i < p.len() ==> s[s.len() - p.len() + i] == #[trigger] p[i],
        strip_prefix_spec(p + s, p) == Some(s),
        strip_suffix_spec(s + p, p) == Some(s),
        strip_prefix_spec(s, p) matches Some(rest) ==> s == p + rest,
        strip_suffix_spec(s, p) matches Some(rest) ==> s == rest + p,
        strip_prefix_spec(s, p) is None <==> !has_prefix(s, p),
        strip_suffix_spec(s, p) is None <==> !has_suffix(s, p),
{
    assert((p + s).take(p.len() as int) =~= p);
    assert((p + s).skip(p.len() as int) =~= s);
    assert((s + p).skip(s.len() as int) =~= p);
    assert((s + p).take(s.len() as int) =~= s);
    if p.len() <= s.len() {
        let head = s.take(p.len() as int);
        let tail = s.skip(s.len() - p.len());
        assert(s =~= head + s.skip(p.len() as int));
        assert(s =~= s.take(s.len() - p.len()) + tail);
        if forall|i: int| 0 <= i < p.len() ==> s[i] == #[trigger] p[i] {
            assert(head =~= p);
        }
        if head == p {
            assert forall|i: int| 0 <= i < p.len() implies s[i] == #[trigger] p[i] by {
                assert(head[i] == p[i]);
            }
        }
        if forall|i: int| 0 <= i < p.len() ==> s[s.len() - p.len() + i] == #[trigger] p[i] {
            assert(tail =~= p);
        }
        if tail == p {
            assert forall|i: int| 0 <= i < p.len() implies s[s.len() - p.len() + i]
                == #[trigger] p[i] by {
                assert(tail[i] == p[i]);
            }
        }
    }
}

} // verus!
