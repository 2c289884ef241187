//! Text as sequences of characters: the string operations the runtime needs,
//! each with an exact contract over `Seq<char>`.

use vstd::prelude::*;
use vstd::string::*;

verus! {

/// `String::push` appends one character and changes nothing else.
pub assume_specification[ std::string::String::push ](s: &mut std::string::String, c: char)
    ensures
        final(s)@ == old(s)@.push(c),
;

/// The characters of `s`, in order.
pub fn chars_of(s: &str) -> (r: Vec<char>)
    ensures
        r@ == s@,
{
    let mut out: Vec<char> = Vec::new();
    for c in it: s.chars()
        invariant
            out@ == it.seq().take(it.index() as int),
            it.seq() == s@,
    {
        out.push(c);
    }
    assert(s@.take(s@.len() as int) =~= s@);
    out
}

/// The text of `chars[from..to]`.
pub fn text_of(chars: &Vec<char>, from: usize, to: usize) -> (r: String)
    requires
        from <= to <= chars@.len(),
    ensures
        r@ == chars@.subrange(from as int, to as int),
{
    let mut out = String::new();
    let mut i: usize = from;
    while i < to
        invariant
            from <= i <= to <= chars@.len(),
            out@ == chars@.subrange(from as int, i as int),
        decreases to - i,
    {
        out.push(chars[i]);
        i = i + 1;
        assert(chars@.subrange(from as int, i as int) =~= chars@.subrange(
            from as int,
            i - 1,
        ).push(chars@[i - 1]));
    }
    out
}

/// Whether two texts hold the same characters.
pub fn same_text(a: &str, b: &str) -> (r: bool)
    ensures
        r == (a@ == b@),
{
    let x = a.to_owned();
    let y = b.to_owned();
    x == y
}

/// `a` followed by `b`.
pub fn concat2(a: &str, b: &str) -> (r: String)
    ensures
        r@ == a@ + b@,
{
    let mut out = a.to_owned();
    out.append(b);
    out
}

/// `a`, `b` and `c` in a row.
pub fn concat3(a: &str, b: &str, c: &str) -> (r: String)
    ensures
        r@ == a@ + b@ + c@,
{
    let mut out = a.to_owned();
    out.append(b);
    out.append(c);
    out
}

/// `a`, `b`, `c` and `d` in a row.
pub fn concat4(a: &str, b: &str, c: &str, d: &str) -> (r: String)
    ensures
        r@ == a@ + b@ + c@ + d@,
{
    let mut out = concat3(a, b, c);
    out.append(d);
    out
}

/// `a`, `b`, `c`, `d` and `e` in a row.
pub fn concat5(a: &str, b: &str, c: &str, d: &str, e: &str) -> (r: String)
    ensures
        r@ == a@ + b@ + c@ + d@ + e@,
{
    let mut out = concat4(a, b, c, d);
    out.append(e);
    out
}

/// A copy of an optional text.
pub fn copy_text(s: &Option<String>) -> (r: Option<String>)
    ensures
        r == *s,
{
    match s {
        Some(t) => Some(t.clone()),
        None => None,
    }
}

/// Copies of the texts of a list, in order.
pub fn copy_texts(list: &Vec<String>) -> (r: Vec<String>)
    ensures
        r@ == list@,
{
    let mut out: Vec<String> = Vec::new();
    let mut i: usize = 0;
    while i < list.len()
        invariant
            i <= list@.len(),
            out@ == list@.take(i as int),
        decreases list@.len() - i,
    {
        out.push(list[i].clone());
        i = i + 1;
        assert(list@.take(i as int) =~= list@.take(i - 1).push(list@[i - 1]));
    }
    assert(list@.take(i as int) =~= list@);
    out
}

/// The contents of a list of texts.
pub open spec fn texts(list: Seq<String>) -> Seq<Seq<char>> {
    list.map_values(|s: String| s@)
}

/// Whether `name` is one of the texts of `list`.
pub open spec fn has_text(list: Seq<String>, name: Seq<char>) -> bool {
    exists|i: int| 0 <= i < list.len() && (#[trigger] list[i])@ == name
}

/// Whether `name` occurs in `list`.
pub fn contains_text(list: &Vec<String>, name: &str) -> (r: bool)
    ensures
        r == has_text(list@, name@),
{
    let mut i: usize = 0;
    while i < list.len()
        invariant
            i <= list@.len(),
            forall|j: int| 0 <= j < i ==> (#[trigger] list@[j])@ != name@,
        decreases list@.len() - i,
    {
        if same_text(list[i].as_str(), name) {
            return true;
        }
        i = i + 1;
    }
    false
}

// ---------------------------------------------------------------------
// Characters
// ---------------------------------------------------------------------

/// The ASCII lower-case form of a character; every other character is
/// itself.
pub open spec fn lower(c: char) -> char {
    if 'A' <= c && c <= 'Z' {
        ((c as u32 + 32) as u32) as char
    } else {
        c
    }
}

/// A character whose lower-case form is no letter is that form itself.
pub proof fn lower_keeps_others(c: char)
    ensures
        !('a' <= lower(c) && lower(c) <= 'z') ==> lower(c) == c,
{
    if 'A' <= c && c <= 'Z' {
        let n: u32 = (c as u32 + 32) as u32;
        assert(97 <= n <= 122);
        assert((n as char) as u32 == n);
    }
}

/// A text with its ASCII letters in lower case.
pub open spec fn lower_text(s: Seq<char>) -> Seq<char> {
    s.map_values(|c: char| lower(c))
}

pub fn lower_char(c: char) -> (r: char)
    ensures
        r == lower(c),
{
    if 'A' <= c && c <= 'Z' {
        ((c as u8) + 32u8) as char
    } else {
        c
    }
}

/// `s` with its ASCII letters in lower case.
pub fn to_lower(s: &str) -> (r: String)
    ensures
        r@ == lower_text(s@),
{
    let chars = chars_of(s);
    let mut out = String::new();
    let mut i: usize = 0;
    while i < chars.len()
        invariant
            i <= chars@.len(),
            chars@ == s@,
            out@ == lower_text(s@.take(i as int)),
        decreases chars@.len() - i,
    {
        out.push(lower_char(chars[i]));
        i = i + 1;
        assert(lower_text(s@.take(i as int)) =~= lower_text(s@.take(i - 1)).push(lower(s@[i - 1])));
    }
    assert(s@.take(i as int) =~= s@);
    out
}

/// Whether two texts differ at most in the case of ASCII letters.
pub open spec fn same_ignoring_case(a: Seq<char>, b: Seq<char>) -> bool {
    lower_text(a) == lower_text(b)
}

pub fn eq_ignore_case(a: &str, b: &str) -> (r: bool)
    ensures
        r == same_ignoring_case(a@, b@),
{
    let x = to_lower(a);
    let y = to_lower(b);
    x == y
}

pub open spec fn is_digit(c: char) -> bool {
    '0' <= c && c <= '9'
}

pub open spec fn is_alpha(c: char) -> bool {
    ('a' <= c && c <= 'z') || ('A' <= c && c <= 'Z')
}

pub open spec fn is_alnum(c: char) -> bool {
    is_alpha(c) || is_digit(c)
}

pub fn digit_char(c: char) -> (r: bool)
    ensures
        r == is_digit(c),
{
    '0' <= c && c <= '9'
}

pub fn alpha_char(c: char) -> (r: bool)
    ensures
        r == is_alpha(c),
{
    ('a' <= c && c <= 'z') || ('A' <= c && c <= 'Z')
}

/// The characters with the Unicode property `White_Space`.
pub open spec fn is_space(c: char) -> bool {
    ||| ('\u{9}' <= c && c <= '\u{d}')
    ||| c == ' '
    ||| c == '\u{85}'
    ||| c == '\u{a0}'
    ||| c == '\u{1680}'
    ||| ('\u{2000}' <= c && c <= '\u{200a}')
    ||| c == '\u{2028}'
    ||| c == '\u{2029}'
    ||| c == '\u{202f}'
    ||| c == '\u{205f}'
    ||| c == '\u{3000}'
}

pub fn space_char(c: char) -> (r: bool)
    ensures
        r == is_space(c),
{
    ('\u{9}' <= c && c <= '\u{d}') || c == ' ' || c == '\u{85}' || c == '\u{a0}' || c == '\u{1680}'
        || ('\u{2000}' <= c && c <= '\u{200a}') || c == '\u{2028}' || c == '\u{2029}' || c
        == '\u{202f}' || c == '\u{205f}' || c == '\u{3000}'
}

// ---------------------------------------------------------------------
// Searching
// ---------------------------------------------------------------------

/// The first position at or after `from` that holds a character of `set`;
/// the length of `s` when there is none.
pub open spec fn first_of(s: Seq<char>, from: int, set: Seq<char>) -> int
    decreases s.len() - from,
{
    if from >= s.len() {
        s.len() as int
    } else if set.contains(s[from]) {
        from
    } else {
        first_of(s, from + 1, set)
    }
}

/// What [`first_of`] returns is the least position with a character of the
/// set.
pub proof fn first_of_is_least(s: Seq<char>, from: int, set: Seq<char>)
    requires
        0 <= from <= s.len(),
    ensures
        from <= first_of(s, from, set) <= s.len(),
        first_of(s, from, set) < s.len() ==> set.contains(s[first_of(s, from, set)]),
        forall|i: int| from <= i < first_of(s, from, set) ==> !set.contains(#[trigger] s[i]),
    decreases s.len() - from,
{
    if from < s.len() && !set.contains(s[from]) {
        first_of_is_least(s, from + 1, set);
    }
}

/// Whether `set` holds `c`.
pub fn char_in(c: char, set: &str) -> (r: bool)
    ensures
        r == set@.contains(c),
{
    let chars = chars_of(set);
    let mut i: usize = 0;
    while i < chars.len()
        invariant
            i <= chars@.len(),
            chars@ == set@,
            forall|j: int| 0 <= j < i ==> set@[j] != c,
        decreases chars@.len() - i,
    {
        if chars[i] == c {
            return true;
        }
        i = i + 1;
    }
    false
}

/// The first position at or after `from` with a character of `set`.
pub fn find_any(chars: &Vec<char>, from: usize, set: &str) -> (r: usize)
    requires
        from <= chars@.len(),
    ensures
        r == first_of(chars@, from as int, set@),
        from <= r <= chars@.len(),
{
    let mut i: usize = from;
    while i < chars.len()
        invariant
            from <= i <= chars@.len(),
            first_of(chars@, from as int, set@) == first_of(chars@, i as int, set@),
        decreases chars@.len() - i,
    {
        if char_in(chars[i], set) {
            return i;
        }
        i = i + 1;
    }
    i
}

/// Whether `part` stands in `s` at position `at`.
pub open spec fn stands_at(s: Seq<char>, at: int, part: Seq<char>) -> bool {
    0 <= at && at + part.len() <= s.len() && s.subrange(at, at + part.len()) == part
}

/// Whether `part` occurs somewhere in `s`.
pub open spec fn occurs_in(s: Seq<char>, part: Seq<char>) -> bool {
    exists|at: int| #[trigger] stands_at(s, at, part)
}

pub fn stands_here(chars: &Vec<char>, at: usize, part: &Vec<char>) -> (r: bool)
    ensures
        r == stands_at(chars@, at as int, part@),
{
    if at > chars.len() || part.len() > chars.len() - at {
        return false;
    }
    let end: usize = at + part.len();
    let mut i: usize = 0;
    while i < part.len()
        invariant
            i <= part@.len(),
            end == at + part@.len(),
            end <= chars@.len(),
            forall|j: int| 0 <= j < i ==> chars@[at + j] == part@[j],
        decreases part@.len() - i,
    {
        if chars[at + i] != part[i] {
            assert(chars@.subrange(at as int, at + part@.len())[i as int] != part@[i as int]);
            return false;
        }
        i = i + 1;
    }
    assert(chars@.subrange(at as int, at + part@.len()) =~= part@);
    true
}

/// Whether `s` begins with `prefix`.
pub fn starts_with(s: &str, prefix: &str) -> (r: bool)
    ensures
        r == stands_at(s@, 0, prefix@),
{
    stands_here(&chars_of(s), 0, &chars_of(prefix))
}

/// Whether `s` ends with `suffix`.
pub fn ends_with(s: &str, suffix: &str) -> (r: bool)
    ensures
        r == stands_at(s@, s@.len() - suffix@.len(), suffix@),
{
    let a = chars_of(s);
    let b = chars_of(suffix);
    if b.len() > a.len() {
        return false;
    }
    stands_here(&a, a.len() - b.len(), &b)
}

/// Whether `part` occurs in `s`.
pub fn contains_part(s: &str, part: &str) -> (r: bool)
    ensures
        r == occurs_in(s@, part@),
{
    let a = chars_of(s);
    let b = chars_of(part);
    let mut i: usize = 0;
    loop
        invariant
            i <= a@.len(),
            a@ == s@,
            b@ == part@,
            forall|j: int| 0 <= j < i ==> !(#[trigger] stands_at(s@, j, part@)),
        decreases a@.len() - i,
    {
        if stands_here(&a, i, &b) {
            return true;
        }
        if i == a.len() {
            assert(forall|j: int| !(#[trigger] stands_at(s@, j, part@)));
            return false;
        }
        i = i + 1;
    }
}

// ---------------------------------------------------------------------
// Cutting
// ---------------------------------------------------------------------

/// The pieces of `s` between the occurrences of `sep`.
pub open spec fn split_on(s: Seq<char>, sep: char) -> Seq<Seq<char>>
    decreases s.len(),
{
    let i = first_of(s, 0, seq![sep]);
    if 0 <= i < s.len() {
        seq![s.take(i)] + split_on(s.skip(i + 1), sep)
    } else {
        seq![s]
    }
}

/// The first position at or after `from` that holds `c`.
pub fn find_char(chars: &Vec<char>, from: usize, c: char) -> (r: usize)
    requires
        from <= chars@.len(),
    ensures
        r == first_of(chars@, from as int, seq![c]),
        from <= r <= chars@.len(),
        r < chars@.len() ==> chars@[r as int] == c,
        forall|j: int| from <= j < r ==> chars@[j] != c,
{
    let mut i: usize = from;
    while i < chars.len()
        invariant
            from <= i <= chars@.len(),
            first_of(chars@, from as int, seq![c]) == first_of(chars@, i as int, seq![c]),
            forall|j: int| from <= j < i ==> chars@[j] != c,
        decreases chars@.len() - i,
    {
        assert(seq![c].contains(chars@[i as int]) <==> chars@[i as int] == c) by {
            assert(seq![c][0] == c);
        }
        if chars[i] == c {
            return i;
        }
        i = i + 1;
    }
    i
}

/// Searching behind a prefix is searching the rest.
pub proof fn first_of_skip(s: Seq<char>, k: int, from: int, set: Seq<char>)
    requires
        0 <= k <= s.len(),
        0 <= from,
    ensures
        first_of(s.skip(k), from, set) + k == first_of(s, from + k, set),
    decreases s.len() - k - from,
{
    if from < s.len() - k {
        assert(s.skip(k)[from] == s[from + k]);
        if !set.contains(s[from + k]) {
            first_of_skip(s, k, from + 1, set);
        }
    }
}

/// The pieces of `s` between the occurrences of `sep`, in order.
pub fn split_text(s: &str, sep: char) -> (r: Vec<String>)
    ensures
        texts(r@) == split_on(s@, sep),
        r@.len() > 0,
{
    let chars = chars_of(s);
    let mut out: Vec<String> = Vec::new();
    let mut start: usize = 0;
    assert(s@.skip(0) =~= s@);
    assert(texts(out@) =~= Seq::<Seq<char>>::empty());
    assert(texts(out@) + split_on(s@, sep) =~= split_on(s@, sep));
    loop
        invariant
            chars@ == s@,
            start <= chars@.len(),
            texts(out@) + split_on(s@.skip(start as int), sep) == split_on(s@, sep),
        decreases chars@.len() - start,
    {
        let i = find_char(&chars, start, sep);
        let piece = text_of(&chars, start, i);
        proof {
            first_of_skip(s@, start as int, 0, seq![sep]);
            assert(s@.skip(start as int).take(i - start) =~= piece@);
        }
        let ghost before = texts(out@);
        out.push(piece);
        assert(texts(out@) =~= before.push(piece@));
        if i == chars.len() {
            assert(s@.skip(start as int) =~= piece@);
            assert(texts(out@) =~= before + seq![piece@]);
            return out;
        }
        assert(s@.skip(start as int).skip(i - start + 1) =~= s@.skip(i + 1));
        assert(texts(out@) + split_on(s@.skip(i + 1), sep) =~= before + (seq![piece@] + split_on(
            s@.skip(i + 1),
            sep,
        )));
        start = i + 1;
    }
}

/// The texts of `list` with `sep` between every two of them.
pub open spec fn joined(list: Seq<Seq<char>>, sep: Seq<char>) -> Seq<char>
    decreases list.len(),
{
    if list.len() == 0 {
        Seq::empty()
    } else if list.len() == 1 {
        list[0]
    } else {
        joined(list.drop_last(), sep) + sep + list.last()
    }
}

/// Splitting a joined list gives the list back, where no text of it holds the
/// separator.
pub proof fn split_undoes_join(list: Seq<Seq<char>>, sep: char)
    requires
        list.len() > 0,
        forall|i: int, j: int|
            0 <= i < list.len() && 0 <= j < list[i].len() ==> (#[trigger] list[i][j]) != sep,
    ensures
        split_on(joined(list, seq![sep]), sep) == list,
    decreases list.len(),
{
    if list.len() == 1 {
        let s = list[0];
        no_separator(s, 0, sep);
        assert(split_on(s, sep) =~= list);
    } else {
        let front = list.drop_last();
        let last = list.last();
        assert forall|i: int, j: int|
            0 <= i < front.len() && 0 <= j < front[i].len() implies (#[trigger] front[i][j]) != sep by {
            assert(list[i][j] != sep);
        }
        assert forall|j: int| 0 <= j < last.len() implies last[j] != sep by {
            assert(list[list.len() - 1][j] != sep);
        }
        split_undoes_join(front, sep);
        split_appended(joined(front, seq![sep]), last, sep);
        assert(front.push(last) =~= list);
    }
}

proof fn no_separator(s: Seq<char>, from: int, sep: char)
    requires
        0 <= from <= s.len(),
        forall|j: int| from <= j < s.len() ==> s[j] != sep,
    ensures
        first_of(s, from, seq![sep]) == s.len(),
    decreases s.len() - from,
{
    if from < s.len() {
        assert(!seq![sep].contains(s[from])) by {
            assert(seq![sep].len() == 1 && seq![sep][0] == sep);
        }
        no_separator(s, from + 1, sep);
    }
}

proof fn first_of_prefix(s: Seq<char>, t: Seq<char>, from: int, set: Seq<char>)
    requires
        0 <= from <= s.len(),
        first_of(s, from, set) < s.len(),
    ensures
        first_of(s + t, from, set) == first_of(s, from, set),
    decreases s.len() - from,
{
    if from < s.len() {
        assert((s + t)[from] == s[from]);
        if !set.contains(s[from]) {
            first_of_prefix(s, t, from + 1, set);
        }
    }
}

proof fn first_of_beyond(s: Seq<char>, t: Seq<char>, from: int, set: Seq<char>)
    requires
        0 <= from <= s.len(),
        first_of(s, from, set) == s.len(),
    ensures
        first_of(s + t, from, set) == first_of(s + t, s.len() as int, set),
    decreases s.len() - from,
{
    if from < s.len() {
        assert((s + t)[from] == s[from]);
        first_of_is_least(s, from, set);
        first_of_beyond(s, t, from + 1, set);
    }
}

proof fn split_appended(s: Seq<char>, last: Seq<char>, sep: char)
    requires
        forall|j: int| 0 <= j < last.len() ==> last[j] != sep,
    ensures
        split_on(s + seq![sep] + last, sep) == split_on(s, sep).push(last),
    decreases s.len(),
{
    let tail = seq![sep] + last;
    let all = s + seq![sep] + last;
    assert(all =~= s + tail);
    let i = first_of(s, 0, seq![sep]);
    first_of_is_least(s, 0, seq![sep]);
    if i < s.len() {
        first_of_prefix(s, tail, 0, seq![sep]);
        let rest = s.skip(i + 1);
        assert(all.skip(i + 1) =~= rest + seq![sep] + last);
        assert(all.take(i) =~= s.take(i));
        split_appended(rest, last, sep);
        assert(split_on(all, sep) =~= split_on(s, sep).push(last));
    } else {
        first_of_beyond(s, tail, 0, seq![sep]);
        assert(all[s.len() as int] == sep);
        assert(seq![sep].contains(sep)) by {
            assert(seq![sep][0] == sep);
        }
        assert(first_of(all, s.len() as int, seq![sep]) == s.len());
        assert(all.skip(s.len() as int + 1) =~= last);
        assert(all.take(s.len() as int) =~= s);
        no_separator(last, 0, sep);
        assert(split_on(last, sep) =~= seq![last]);
        assert(split_on(all, sep) =~= seq![s].push(last));
    }
}

/// No piece of a split text holds the separator.
pub proof fn pieces_hold_no_separator(s: Seq<char>, sep: char)
    ensures
        split_on(s, sep).len() > 0,
        forall|i: int, j: int|
            0 <= i < split_on(s, sep).len() && 0 <= j < split_on(s, sep)[i].len() ==> (
            #[trigger] split_on(s, sep)[i][j]) != sep,
    decreases s.len(),
{
    first_of_is_least(s, 0, seq![sep]);
    let k = first_of(s, 0, seq![sep]);
    assert(seq![sep].contains(sep)) by {
        assert(seq![sep][0] == sep);
    }
    if k < s.len() {
        let rest = split_on(s.skip(k + 1), sep);
        pieces_hold_no_separator(s.skip(k + 1), sep);
        assert(split_on(s, sep) =~= seq![s.take(k)] + rest);
        assert forall|i: int, j: int|
            0 <= i < split_on(s, sep).len() && 0 <= j < split_on(s, sep)[i].len() implies (
        #[trigger] split_on(s, sep)[i][j]) != sep by {
            if i == 0 {
                assert(s.take(k)[j] == s[j]);
            } else {
                assert(split_on(s, sep)[i] == rest[i - 1]);
                assert(rest[i - 1][j] != sep);
            }
        }
    } else {
        assert forall|j: int| 0 <= j < s.len() implies s[j] != sep by {
            assert(!seq![sep].contains(s[j]));
        }
    }
}

/// The texts of `list` with `sep` between every two of them.
pub fn join_texts(list: &Vec<String>, sep: &str) -> (r: String)
    ensures
        r@ == joined(texts(list@), sep@),
{
    let mut out = String::new();
    let mut i: usize = 0;
    while i < list.len()
        invariant
            i <= list@.len(),
            out@ == joined(texts(list@).take(i as int), sep@),
        decreases list@.len() - i,
    {
        let ghost before = texts(list@).take(i as int);
        if i > 0 {
            out.append(sep);
        }
        out.append(list[i].as_str());
        i = i + 1;
        proof {
            let now = texts(list@).take(i as int);
            assert(now.drop_last() =~= before);
            assert(now.last() == list@[i - 1]@);
            if i == 1 {
                assert(out@ =~= now[0]);
            }
        }
    }
    assert(texts(list@).take(i as int) =~= texts(list@));
    out
}

/// The position of the first character at or after `from` that is no white
/// space; the length of `s` when there is none.
pub open spec fn space_end(s: Seq<char>, from: int) -> int
    decreases s.len() - from,
{
    if from >= s.len() {
        s.len() as int
    } else if is_space(s[from]) {
        space_end(s, from + 1)
    } else {
        from
    }
}

/// The position behind the last character before `to` that is no white
/// space.
pub open spec fn space_start(s: Seq<char>, to: int) -> int
    decreases to,
{
    if to <= 0 {
        0
    } else if is_space(s[to - 1]) {
        space_start(s, to - 1)
    } else {
        to
    }
}

/// `s` without the white space at its two ends.
pub open spec fn trimmed(s: Seq<char>) -> Seq<char> {
    let a = space_end(s, 0);
    let b = space_start(s, s.len() as int);
    if a < b {
        s.subrange(a, b)
    } else {
        Seq::empty()
    }
}

/// `s` without the white space at its two ends.
pub fn trim_text(s: &str) -> (r: String)
    ensures
        r@ == trimmed(s@),
{
    let chars = chars_of(s);
    let mut a: usize = 0;
    while a < chars.len() && space_char(chars[a])
        invariant
            a <= chars@.len(),
            chars@ == s@,
            space_end(s@, 0) == space_end(s@, a as int),
        decreases chars@.len() - a,
    {
        a = a + 1;
    }
    let mut b: usize = chars.len();
    while b > 0 && space_char(chars[b - 1])
        invariant
            b <= chars@.len(),
            chars@ == s@,
            space_start(s@, s@.len() as int) == space_start(s@, b as int),
        decreases b,
    {
        b = b - 1;
    }
    if a < b {
        text_of(&chars, a, b)
    } else {
        String::new()
    }
}

/// Whether `s` is empty or holds white space only.
pub open spec fn is_blank(s: Seq<char>) -> bool {
    trimmed(s).len() == 0
}

pub fn blank_text(s: &str) -> (r: bool)
    ensures
        r == is_blank(s@),
{
    trim_text(s).as_str().is_empty()
}

// ---------------------------------------------------------------------
// Numbers
// ---------------------------------------------------------------------

/// The decimal digit that stands for `n`, below ten.
pub open spec fn digit_of(n: nat) -> char {
    ((48 + n) as u32) as char
}

/// The decimal text of `n`.
pub open spec fn decimal(n: nat) -> Seq<char>
    decreases n,
{
    if n < 10 {
        seq![digit_of(n)]
    } else {
        decimal(n / 10).push(digit_of(n % 10))
    }
}

/// The decimal text of `n`.
pub fn decimal_text(n: u64) -> (r: String)
    ensures
        r@ == decimal(n as nat),
    decreases n,
{
    let digit: char = ((n % 10) as u8 + 48u8) as char;
    if n < 10 {
        let mut out = String::new();
        out.push(digit);
        assert(out@ =~= seq![digit_of(n as nat)]);
        out
    } else {
        let mut out = decimal_text(n / 10);
        out.push(digit);
        out
    }
}

// ---------------------------------------------------------------------
// Order
// ---------------------------------------------------------------------

/// Whether `a` comes before `b` in the order by code points.
pub open spec fn text_before(a: Seq<char>, b: Seq<char>) -> bool
    decreases a.len(),
{
    if b.len() == 0 {
        false
    } else if a.len() == 0 {
        true
    } else if a[0] == b[0] {
        text_before(a.skip(1), b.skip(1))
    } else {
        a[0] < b[0]
    }
}

// ---------------------------------------------------------------------
// Replacing and trimming
// ---------------------------------------------------------------------

/// The text from `at` on, with every occurrence of `from` replaced, each
/// looked for behind the one before it.
pub open spec fn replaced_from(s: Seq<char>, at: int, from: Seq<char>, to: Seq<char>) -> Seq<char>
    decreases s.len() - at,
{
    if at < 0 || at >= s.len() || from.len() == 0 {
        Seq::empty()
    } else if stands_at(s, at, from) {
        to + replaced_from(s, at + from.len(), from, to)
    } else {
        seq![s[at]] + replaced_from(s, at + 1, from, to)
    }
}

/// A text with every occurrence of another, which is not empty, replaced.
pub fn replace_text(s: &str, from: &str, to: &str) -> (r: String)
    requires
        from@.len() > 0,
    ensures
        r@ == replaced_from(s@, 0, from@, to@),
{
    let chars = chars_of(s);
    let part = chars_of(from);
    let mut out = String::new();
    let mut at: usize = 0;
    assert(out@ + replaced_from(s@, 0, from@, to@) =~= replaced_from(s@, 0, from@, to@));
    while at < chars.len()
        invariant
            at <= chars@.len(),
            chars@ == s@,
            part@ == from@,
            part@.len() > 0,
            replaced_from(s@, 0, from@, to@) == out@ + replaced_from(s@, at as int, from@, to@),
        decreases chars@.len() - at,
    {
        let ghost before = out@;
        if stands_here(&chars, at, &part) {
            out.append(to);
            assert(before + (to@ + replaced_from(s@, at + from@.len(), from@, to@)) =~= out@
                + replaced_from(s@, at + from@.len(), from@, to@));
            at = at + part.len();
        } else {
            out.push(chars[at]);
            assert(before + (seq![s@[at as int]] + replaced_from(s@, at + 1, from@, to@)) =~= out@
                + replaced_from(s@, at + 1, from@, to@));
            at = at + 1;
        }
    }
    assert(out@ + Seq::<char>::empty() =~= out@);
    out
}

/// A text without the characters `c` at its end.
pub open spec fn end_stripped(s: Seq<char>, c: char) -> Seq<char>
    decreases s.len(),
{
    if s.len() > 0 && s.last() == c {
        end_stripped(s.drop_last(), c)
    } else {
        s
    }
}

/// A text without the characters `c` at its end.
pub fn strip_end(s: &str, c: char) -> (r: String)
    ensures
        r@ == end_stripped(s@, c),
{
    let chars = chars_of(s);
    let mut end: usize = chars.len();
    assert(s@.take(end as int) =~= s@);
    while end > 0 && chars[end - 1] == c
        invariant
            end <= chars@.len(),
            chars@ == s@,
            end_stripped(s@, c) == end_stripped(s@.take(end as int), c),
        decreases end,
    {
        assert(s@.take(end as int).drop_last() =~= s@.take(end - 1));
        end = end - 1;
    }
    let r = text_of(&chars, 0, end);
    assert(r@ =~= s@.take(end as int));
    r
}

} // verus!
