//! What holds of texts that are encoded or cut short.

use crate::outcome::{fitting, lossy, result_error, shortened, utf8_size, Response, StepResult};
use crate::documents::identity;
use crate::error::RuntimeErrorKind;
use crate::json_text::integer_text;
use crate::text::{
    end_stripped, first_of, first_of_is_least, is_space, joined, lower_text, occurs_in, split_on, stands_at,
};
use crate::web_url::{is_relative_reference, url_parsed, url_without_fragment};
use crate::url_path::{cookie_encoded, encoded_byte, encoded_bytes, segment_encoded, upper_hex};
use vstd::prelude::*;
use vstd::string::*;
use vstd::utf8::{decode_utf8, encode_utf8, valid_utf8};

verus! {

// ---------------------------------------------------------------------
// Percent-encoding
// ---------------------------------------------------------------------

/// The number that an upper-case hexadecimal digit stands for.
pub open spec fn hex_number(c: char) -> int {
    if '0' <= c && c <= '9' {
        c as u32 - 48
    } else if 'A' <= c && c <= 'F' {
        c as u32 - 55
    } else {
        -1
    }
}

proof fn hex_reads_back(n: int)
    requires
        0 <= n < 16,
    ensures
        hex_number(upper_hex(n)) == n,
{
    let c: u32 = if n < 10 {
        (48 + n) as u32
    } else {
        (55 + n) as u32
    };
    assert((c as char) as u32 == c);
}

/// A segment is encoded byte by byte.
pub proof fn segment_encodings_join(a: Seq<u8>, b: Seq<u8>)
    ensures
        encoded_bytes(a + b) == encoded_bytes(a) + encoded_bytes(b),
    decreases b.len(),
{
    if b.len() == 0 {
        assert(a + b =~= a);
        assert(encoded_bytes(a) + encoded_bytes(b) =~= encoded_bytes(a));
    } else {
        segment_encodings_join(a, b.drop_last());
        assert((a + b).drop_last() =~= a + b.drop_last());
        assert(encoded_bytes(a + b) =~= encoded_bytes(a) + encoded_bytes(b));
    }
}

/// Letters, digits and the marks that a segment may hold stay as they are.
/// Every byte that would end a segment, begin a query or a fragment, or that is
/// no plain ASCII is written as a percent sign and its two digits, which read
/// back as the byte.
pub proof fn bytes_of_a_segment_read_back(b: u8)
    ensures
        (0x30 <= b && b <= 0x39) || (0x41 <= b && b <= 0x5a) || (0x61 <= b && b <= 0x7a) || b == 0x2d
            || b == 0x2e || b == 0x5f || b == 0x7e ==> encoded_bytes(seq![b]) == seq![b as char],
        b == 0x2f || b == 0x3f || b == 0x23 || b == 0x25 || b == 0x20 || b == 0x7b || b == 0x7d || b
            >= 0x80 || b < 0x20 ==> encoded_bytes(seq![b]).len() == 3,
        encoded_bytes(seq![b]) == seq![b as char] || {
            let e = encoded_bytes(seq![b]);
            &&& e.len() == 3
            &&& e[0] == '%'
            &&& 0 <= hex_number(e[1]) < 16
            &&& 0 <= hex_number(e[2]) < 16
            &&& hex_number(e[1]) * 16 + hex_number(e[2]) == b
        },
{
    reveal_with_fuel(encoded_bytes, 2);
    assert(seq![b].drop_last() =~= Seq::<u8>::empty());
    assert(encoded_bytes(seq![b]) =~= encoded_byte(b));
    hex_reads_back(b as int / 16);
    hex_reads_back(b as int % 16);
}

/// A character that would end a cookie is written as a percent sign and the two
/// digits of its code, and every other one stays.
pub proof fn characters_of_a_cookie_read_back(c: char)
    ensures
        c == ';' || c == ',' || c == ' ' || c == '=' || c == '"' || c == '\\' ==> {
            let e = cookie_encoded(seq![c]);
            &&& e.len() == 3
            &&& e[0] == '%'
            &&& hex_number(e[1]) * 16 + hex_number(e[2]) == c as u32
        },
        !(c == ';' || c == ',' || c == ' ' || c == '=' || c == '"' || c == '\\') ==> cookie_encoded(
            seq![c],
        ) == seq![c],
{
    reveal_with_fuel(cookie_encoded, 2);
    assert(seq![c].drop_last() =~= Seq::<char>::empty());
    let e = crate::url_path::cookie_char(c);
    assert(cookie_encoded(seq![c]) =~= e);
    reveal_strlit("%3B");
    reveal_strlit("%2C");
    reveal_strlit("%20");
    reveal_strlit("%3D");
    reveal_strlit("%22");
    reveal_strlit("%5C");
}

// ---------------------------------------------------------------------
// Short texts
// ---------------------------------------------------------------------

/// The bytes of a text add up: one for each ASCII character, and up to four for
/// the others.
pub proof fn sizes_add_up(a: Seq<char>, b: Seq<char>, c: char)
    ensures
        utf8_size(a + b) == utf8_size(a) + utf8_size(b),
        c as u32 <= 0x7f ==> utf8_size(seq![c]) == 1,
        0x80 <= c as u32 <= 0x7ff ==> utf8_size(seq![c]) == 2,
        0x800 <= c as u32 <= 0xffff ==> utf8_size(seq![c]) == 3,
        c as u32 >= 0x10000 ==> utf8_size(seq![c]) == 4,
    decreases b.len(),
{
    reveal_with_fuel(utf8_size, 2);
    assert(seq![c].drop_last() =~= Seq::<char>::empty());
    if b.len() == 0 {
        assert(a + b =~= a);
    } else {
        sizes_add_up(a, b.drop_last(), c);
        assert((a + b).drop_last() =~= a + b.drop_last());
    }
}

proof fn fits(s: Seq<char>, limit: nat)
    ensures
        fitting(s, limit) <= s.len(),
        utf8_size(s.take(fitting(s, limit) as int)) <= limit,
        fitting(s, limit) < s.len() ==> utf8_size(s.take(fitting(s, limit) as int + 1)) > limit,
    decreases s.len(),
{
    if s.len() == 0 {
        assert(s.take(0) =~= s);
    } else if utf8_size(s) <= limit {
        assert(s.take(s.len() as int) =~= s);
    } else {
        let t = s.drop_last();
        fits(t, limit);
        let k = fitting(t, limit) as int;
        assert(t.take(k) =~= s.take(k));
        if k < t.len() {
            assert(t.take(k + 1) =~= s.take(k + 1));
        } else {
            assert(s.take(k + 1) =~= s);
        }
    }
}

/// A text that fits stays whole. Of any other as much is left as fits, not cut
/// inside a character, with three dots behind it; `k` is where it is cut.
pub proof fn long_texts_are_cut_where_they_fit(s: Seq<char>, limit: nat, k: int)
    ensures
        utf8_size(s) <= limit ==> shortened(s, limit) == s,
        utf8_size(s) > limit && 0 <= k < s.len() && utf8_size(s.take(k)) <= limit && utf8_size(
            s.take(k + 1),
        ) > limit ==> shortened(s, limit) == s.take(k) + "..."@,
{
    if utf8_size(s) > limit && 0 <= k < s.len() && utf8_size(s.take(k)) <= limit && utf8_size(
        s.take(k + 1),
    ) > limit {
        fits(s, limit);
        let f = fitting(s, limit) as int;
        assert(s.take(s.len() as int) =~= s);
        if f < k {
            longer_is_larger(s, f + 1, k);
        }
        if k < f {
            longer_is_larger(s, k + 1, f);
        }
    }
}

proof fn longer_is_larger(s: Seq<char>, a: int, b: int)
    requires
        0 <= a <= b <= s.len(),
    ensures
        utf8_size(s.take(a)) <= utf8_size(s.take(b)),
    decreases b - a,
{
    if a < b {
        longer_is_larger(s, a, b - 1);
        assert(s.take(b).drop_last() =~= s.take(b - 1));
    }
}

/// The error of a step whose criteria are not met says which step, and the
/// status of the response and the start of its body.
pub proof fn unmet_criteria_are_explained(step_id: Seq<char>, result: StepResult, r: Response)
    requires
        result.err is None,
        result.response == Some(r),
    ensures
        ({
            let e = result_error(step_id, result);
            &&& e.kind == RuntimeErrorKind::SuccessCriteriaFailed
            &&& occurs_in(e.message, step_id)
            &&& occurs_in(e.message, integer_text(r.status_code as int))
            &&& occurs_in(e.message, shortened(crate::outcome::lossy(r.body@), 500))
        }),
{
    let m = result_error(step_id, result).message;
    let n = integer_text(r.status_code as int);
    let b = shortened(crate::outcome::lossy(r.body@), 500);
    let p0 = "step "@.len() as int;
    let p1 = p0 + step_id.len() + ": success criteria not met (status="@.len();
    let p2 = p1 + n.len() + ", body="@.len();
    assert(m.subrange(p0, p0 + step_id.len()) =~= step_id);
    assert(stands_at(m, p0, step_id));
    assert(m.subrange(p1, p1 + n.len()) =~= n);
    assert(stands_at(m, p1, n));
    assert(m.subrange(p2, p2 + b.len()) =~= b);
    assert(stands_at(m, p2, b));
}

// ---------------------------------------------------------------------
// Splitting
// ---------------------------------------------------------------------

/// The pieces of a text between separators, put together again, are the text.
pub proof fn joining_undoes_splitting(s: Seq<char>, sep: char)
    ensures
        joined(split_on(s, sep), seq![sep]) == s,
        split_on(s, sep).len() > 0,
    decreases s.len(),
{
    first_of_is_least(s, 0, seq![sep]);
    let i = first_of(s, 0, seq![sep]);
    if i < s.len() {
        let rest = s.skip(i + 1);
        joining_undoes_splitting(rest, sep);
        let pieces = split_on(rest, sep);
        assert(split_on(s, sep) == seq![s.take(i)] + pieces);
        joined_in_front(s.take(i), pieces, seq![sep]);
        assert(seq![sep].contains(s[i]));
        assert(s[i] == sep);
        assert(s =~= s.take(i) + seq![sep] + rest);
    } else {
        assert(joined(seq![s], seq![sep]) == s);
    }
}

/// Texts are joined in order, with the separator between every two.
pub proof fn joined_in_front(first: Seq<char>, list: Seq<Seq<char>>, sep: Seq<char>)
    requires
        list.len() > 0,
    ensures
        joined(seq![first] + list, sep) == first + sep + joined(list, sep),
        joined(seq![first], sep) == first,
        joined(Seq::empty(), sep) == Seq::<char>::empty(),
    decreases list.len(),
{
    let all = seq![first] + list;
    assert(all.drop_last() =~= seq![first] + list.drop_last());
    assert(all.last() == list.last());
    if list.len() == 1 {
        assert(all.drop_last() =~= seq![first]);
        assert(joined(seq![first], sep) == first);
        assert(joined(all, sep) =~= first + sep + list[0]);
    } else {
        joined_in_front(first, list.drop_last(), sep);
        assert(joined(all, sep) =~= first + sep + joined(list, sep));
    }
}

// ---------------------------------------------------------------------
// Parts of texts
// ---------------------------------------------------------------------

/// A part stands in a text where the text has its characters, and nowhere else.
pub proof fn a_part_stands_where_its_characters_are(s: Seq<char>, at: int, part: Seq<char>)
    ensures
        stands_at(s, at, part) == (0 <= at && at + part.len() <= s.len() && forall|k: int|
            0 <= k < part.len() ==> s[at + k] == #[trigger] part[k]),
        stands_at(s, at, part) ==> occurs_in(s, part),
{
    if 0 <= at && at + part.len() <= s.len() {
        let cut = s.subrange(at, at + part.len());
        if forall|k: int| 0 <= k < part.len() ==> s[at + k] == #[trigger] part[k] {
            assert(cut =~= part);
        }
        if cut == part {
            assert forall|k: int| 0 <= k < part.len() implies s[at + k] == #[trigger] part[k] by {
                assert(cut[k] == part[k]);
            }
        }
    }
}

/// Stripping a text of a character at its end takes away every one that stands
/// there, and nothing else.
pub proof fn ends_are_stripped_of_every_one(s: Seq<char>, c: char)
    ensures
        ({
            let r = end_stripped(s, c);
            &&& r.len() <= s.len()
            &&& s.take(r.len() as int) == r
            &&& r.len() > 0 ==> r.last() != c
            &&& forall|k: int| r.len() <= k < s.len() ==> s[k] == c
        }),
    decreases s.len(),
{
    if s.len() > 0 && s.last() == c {
        let t = s.drop_last();
        ends_are_stripped_of_every_one(t, c);
        let r = end_stripped(s, c);
        assert(s.take(r.len() as int) =~= t.take(r.len() as int));
        assert forall|k: int| r.len() <= k < s.len() implies s[k] == c by {
            if k < t.len() {
                assert(t[k] == c);
            }
        }
    } else {
        assert(s.take(s.len() as int) =~= s);
    }
}

/// Lower case changes the capital letters of ASCII into the small ones, and
/// nothing else.
pub proof fn only_capitals_are_lowered(s: Seq<char>, i: int)
    ensures
        lower_text(s).len() == s.len(),
        0 <= i < s.len() && 'A' <= s[i] && s[i] <= 'Z' ==> lower_text(s)[i] as u32 == s[i] as u32
            + 32,
        0 <= i < s.len() && !('A' <= s[i] && s[i] <= 'Z') ==> lower_text(s)[i] == s[i],
{
    if 0 <= i < s.len() && 'A' <= s[i] && s[i] <= 'Z' {
        let n: u32 = (s[i] as u32 + 32) as u32;
        assert(97 <= n <= 122);
        assert((n as char) as u32 == n);
    }
}

/// White space is what separates words; what expressions, paths and names are
/// made of is none.
pub proof fn white_space_is_no_text(c: char)
    ensures
        c == ' ' || c == '\t' || c == '\n' || c == '\r' || c == '\u{a0}' || c == '\u{3000}' ==> is_space(c),
        '!' <= c && c <= '~' ==> !is_space(c),
{
}

/// A value in a path is encoded by its bytes.
pub proof fn path_values_are_encoded_by_their_bytes(value: Seq<char>)
    ensures
        segment_encoded(value) == encoded_bytes(encode_utf8(value)),
{
}

/// Bytes that are a text are read as that text.
pub proof fn texts_are_read_from_their_bytes(bytes: Seq<u8>, uri: Seq<char>)
    ensures
        valid_utf8(bytes) ==> lossy(bytes) == decode_utf8(bytes),
        identity(uri) == url_without_fragment(uri),
        is_relative_reference(uri) == (url_parsed(uri) matches Err(e) && e.0),
{
}

} // verus!
