//! Path parameters in URLs: filling templates in, and refusing values that
//! would turn a path segment into `.` or `..`.

use crate::text::{
    alpha_char, chars_of, contains_text, digit_char, find_any, find_char, first_of, has_text,
    is_alnum, is_alpha, lower_char, lower_text, stands_at, stands_here, text_of, texts,
};
use crate::text_map::TextMap;
use crate::trace::text_map_view;
use vstd::prelude::*;
use vstd::string::*;
use vstd::utf8::encode_utf8;

verus! {

// ---------------------------------------------------------------------
// Percent-encoding
// ---------------------------------------------------------------------

/// The upper-case hexadecimal digit of `n`, below sixteen.
pub open spec fn upper_hex(n: int) -> char {
    if n < 10 {
        ((48 + n) as u32) as char
    } else {
        ((55 + n) as u32) as char
    }
}

/// Whether a byte stands for itself in a path segment: a letter, a digit, or
/// one of the other characters that RFC 3986 allows in a segment. Bytes that
/// are not ASCII, controls and delimiters do not.
pub open spec fn segment_safe(b: u8) -> bool {
    &&& 0x20 < b < 0x7f
    &&& b != 0x22 && b != 0x23 && b != 0x25 && b != 0x2f
    &&& b != 0x3c && b != 0x3e && b != 0x3f
    &&& b != 0x5b && b != 0x5c && b != 0x5d && b != 0x5e
    &&& b != 0x60 && b != 0x7b && b != 0x7c && b != 0x7d
}

/// One byte of a path segment: itself, or `%` and its two digits.
pub open spec fn encoded_byte(b: u8) -> Seq<char> {
    if segment_safe(b) {
        seq![b as char]
    } else {
        seq!['%', upper_hex(b as int / 16), upper_hex(b as int % 16)]
    }
}

/// The bytes of a path segment, encoded.
pub open spec fn encoded_bytes(bytes: Seq<u8>) -> Seq<char>
    decreases bytes.len(),
{
    if bytes.len() == 0 {
        Seq::empty()
    } else {
        encoded_bytes(bytes.drop_last()) + encoded_byte(bytes.last())
    }
}

/// A value as one path segment.
pub open spec fn segment_encoded(value: Seq<char>) -> Seq<char> {
    encoded_bytes(encode_utf8(value))
}

fn hex_char(n: u8) -> (r: char)
    requires
        n < 16,
    ensures
        r == upper_hex(n as int),
{
    if n < 10 {
        (n + 48) as char
    } else {
        (n + 55) as char
    }
}

fn safe_byte(b: u8) -> (r: bool)
    ensures
        r == segment_safe(b),
{
    0x20 < b && b < 0x7f && b != 0x22 && b != 0x23 && b != 0x25 && b != 0x2f && b != 0x3c && b
        != 0x3e && b != 0x3f && b != 0x5b && b != 0x5c && b != 0x5d && b != 0x5e && b != 0x60 && b
        != 0x7b && b != 0x7c && b != 0x7d
}

/// A value as one path segment.
pub fn encode_segment(value: &str) -> (r: String)
    ensures
        r@ == segment_encoded(value@),
{
    let bytes = value.as_bytes();
    let mut out = String::new();
    let mut i: usize = 0;
    while i < bytes.len()
        invariant
            i <= bytes@.len(),
            bytes@ == encode_utf8(value@),
            out@ == encoded_bytes(bytes@.take(i as int)),
        decreases bytes@.len() - i,
    {
        let b: u8 = bytes[i];
        let ghost before = out@;
        if safe_byte(b) {
            out.push(b as char);
        } else {
            out.push('%');
            out.push(hex_char(b / 16));
            out.push(hex_char(b % 16));
        }
        i = i + 1;
        assert(bytes@.take(i as int).drop_last() =~= bytes@.take(i - 1));
        assert(out@ =~= before + encoded_byte(b));
    }
    assert(bytes@.take(i as int) =~= bytes@);
    out
}

/// Whether a character delimits path segments, the query or the fragment, or
/// begins an encoded byte.
pub open spec fn url_delimiter(c: char) -> bool {
    c == '/' || c == '\\' || c == '?' || c == '#' || c == '{' || c == '}'
}

proof fn encoded_bytes_plain(bytes: Seq<u8>, i: int)
    requires
        0 <= i < encoded_bytes(bytes).len(),
    ensures
        !url_delimiter(encoded_bytes(bytes)[i]),
        encoded_bytes(bytes)[i] as u32 > 0x20,
        encoded_bytes(bytes)[i] as u32 <= 0x7f,
    decreases bytes.len(),
{
    let before = encoded_bytes(bytes.drop_last());
    if i < before.len() {
        encoded_bytes_plain(bytes.drop_last(), i);
    } else {
        let b = bytes.last();
        let e = encoded_byte(b);
        assert(encoded_bytes(bytes)[i] == e[i - before.len()]);
    }
}

/// A value that is filled in brings no delimiter of a URL with it, no control
/// character and nothing that is not ASCII.
pub proof fn filled_in_values_are_plain(value: Seq<char>)
    ensures
        forall|i: int|
            0 <= i < segment_encoded(value).len() ==> !url_delimiter(
                #[trigger] segment_encoded(value)[i],
            ) && 0x20 < segment_encoded(value)[i] as u32 <= 0x7f,
{
    assert forall|i: int| 0 <= i < segment_encoded(value).len() implies !url_delimiter(
        #[trigger] segment_encoded(value)[i],
    ) && 0x20 < segment_encoded(value)[i] as u32 <= 0x7f by {
        encoded_bytes_plain(encode_utf8(value), i);
    }
}

// ---------------------------------------------------------------------
// Templates
// ---------------------------------------------------------------------

/// A template in a path: from its opening brace to behind its closing one.
pub struct Template {
    pub start: usize,
    pub end: usize,
}

/// The templates of `path` at or after `from`: a brace opens one, and the
/// first closing brace behind it closes it.
pub open spec fn templates_from(path: Seq<char>, from: int) -> Seq<(int, int)>
    decreases path.len() - from,
    via templates_shrink
{
    let open = first_of(path, from, seq!['{']);
    if 0 <= from <= open < path.len() {
        let close = first_of(path, open + 1, seq!['}']);
        if open < close < path.len() {
            seq![(open, close + 1)] + templates_from(path, close + 1)
        } else {
            Seq::empty()
        }
    } else {
        Seq::empty()
    }
}

#[via_fn]
proof fn templates_shrink(path: Seq<char>, from: int) {
}

/// The places of a list of templates.
pub open spec fn template_places(list: Seq<Template>) -> Seq<(int, int)> {
    list.map_values(|t: Template| (t.start as int, t.end as int))
}

/// Whether places are in order, apart from each other, and hold a brace on
/// either side.
pub open spec fn places_ok(path: Seq<char>, from: int, places: Seq<(int, int)>) -> bool {
    &&& forall|i: int|
        0 <= i < places.len() ==> from <= (#[trigger] places[i]).0 && places[i].0 + 2
            <= places[i].1 <= path.len()
    &&& forall|i: int, j: int|
        0 <= i < j < places.len() ==> (#[trigger] places[i]).1 <= (#[trigger] places[j]).0
}

pub(crate) proof fn templates_ok(path: Seq<char>, from: int)
    requires
        0 <= from <= path.len(),
    ensures
        places_ok(path, from, templates_from(path, from)),
    decreases path.len() - from,
{
    crate::text::first_of_is_least(path, from, seq!['{']);
    let open = first_of(path, from, seq!['{']);
    if open < path.len() {
        crate::text::first_of_is_least(path, open + 1, seq!['}']);
        let close = first_of(path, open + 1, seq!['}']);
        if close < path.len() {
            templates_ok(path, close + 1);
            let rest = templates_from(path, close + 1);
            let all = templates_from(path, from);
            assert(all =~= seq![(open, close + 1)] + rest);
            assert forall|i: int| 0 <= i < all.len() implies from <= (#[trigger] all[i]).0
                && all[i].0 + 2 <= all[i].1 <= path.len() by {
                if i > 0 {
                    assert(all[i] == rest[i - 1]);
                }
            }
            assert forall|i: int, j: int| 0 <= i < j < all.len() implies (#[trigger] all[i]).1 <= (
            #[trigger] all[j]).0 by {
                assert(all[j] == rest[j - 1]);
                if i > 0 {
                    assert(all[i] == rest[i - 1]);
                }
            }
        }
    }
}

/// The templates of a path.
pub fn find_templates(path: &Vec<char>) -> (r: Vec<Template>)
    ensures
        template_places(r@) == templates_from(path@, 0),
        places_ok(path@, 0, template_places(r@)),
{
    let mut out: Vec<Template> = Vec::new();
    let mut from: usize = 0;
    assert(template_places(out@) + templates_from(path@, 0) =~= templates_from(path@, 0));
    loop
        invariant
            from <= path@.len(),
            template_places(out@) + templates_from(path@, from as int) == templates_from(
                path@,
                0,
            ),
        ensures
            templates_from(path@, from as int) == Seq::<(int, int)>::empty(),
        decreases path@.len() - from,
    {
        let open = find_char(path, from, '{');
        if open == path.len() {
            break ;
        }
        let close = find_char(path, open + 1, '}');
        if close == path.len() {
            break ;
        }
        let ghost done = template_places(out@);
        out.push(Template { start: open, end: close + 1 });
        proof {
            let here = (open as int, close + 1);
            let rest = templates_from(path@, close + 1);
            assert(template_places(out@) =~= done.push(here));
            assert(done + (seq![here] + rest) =~= done.push(here) + rest);
        }
        from = close + 1;
    }
    assert(template_places(out@) + Seq::<(int, int)>::empty() =~= template_places(out@));
    proof {
        templates_ok(path@, 0);
    }
    out
}

/// A value that was filled in: where it stands in the result, and the
/// parameter it came from.
#[verifier::ext_equal]
pub struct PartView {
    pub start: int,
    pub end: int,
    pub name: Seq<char>,
}

/// The name between the braces of a template.
pub open spec fn template_key(path: Seq<char>, place: (int, int)) -> Seq<char> {
    path.subrange(place.0 + 1, place.1 - 1)
}

/// Where the template before template `n` ends.
pub open spec fn literal_start(places: Seq<(int, int)>, n: int) -> int {
    if n <= 0 {
        0
    } else {
        places[n - 1].1
    }
}

/// What a template is replaced with: the value of its parameter as one path
/// segment, or, without one, itself.
pub open spec fn template_text(
    path: Seq<char>,
    place: (int, int),
    params: Map<Seq<char>, Seq<char>>,
) -> Seq<char> {
    let key = template_key(path, place);
    if params.contains_key(key) {
        segment_encoded(params[key])
    } else {
        path.subrange(place.0, place.1)
    }
}

/// The path up to behind its first `n` templates, with their values filled
/// in.
pub open spec fn filled_upto(
    path: Seq<char>,
    places: Seq<(int, int)>,
    params: Map<Seq<char>, Seq<char>>,
    n: int,
) -> Seq<char>
    decreases n,
{
    if n <= 0 {
        Seq::empty()
    } else {
        filled_upto(path, places, params, n - 1) + path.subrange(
            literal_start(places, n - 1),
            places[n - 1].0,
        ) + template_text(path, places[n - 1], params)
    }
}

/// The path with its templates filled in.
pub open spec fn filled(path: Seq<char>, params: Map<Seq<char>, Seq<char>>) -> Seq<char> {
    let places = templates_from(path, 0);
    filled_upto(path, places, params, places.len() as int) + path.subrange(
        literal_start(places, places.len() as int),
        path.len() as int,
    )
}

/// The values that the first `n` templates were filled with.
pub open spec fn parts_upto(
    path: Seq<char>,
    places: Seq<(int, int)>,
    params: Map<Seq<char>, Seq<char>>,
    n: int,
) -> Seq<PartView>
    decreases n,
{
    if n <= 0 {
        Seq::empty()
    } else {
        let before = parts_upto(path, places, params, n - 1);
        let key = template_key(path, places[n - 1]);
        let end = filled_upto(path, places, params, n).len() as int;
        if params.contains_key(key) {
            before.push(
                PartView { start: end - segment_encoded(params[key]).len(), end, name: key },
            )
        } else {
            before
        }
    }
}

/// The values that were filled into a path.
pub open spec fn filled_parts(path: Seq<char>, params: Map<Seq<char>, Seq<char>>) -> Seq<PartView> {
    let places = templates_from(path, 0);
    parts_upto(path, places, params, places.len() as int)
}

#[derive(Debug)]
struct SubstitutedPart {
    start: usize,
    end: usize,
    parameter_name: String,
}

impl View for SubstitutedPart {
    type V = PartView;

    closed spec fn view(&self) -> PartView {
        PartView { start: self.start as int, end: self.end as int, name: self.parameter_name@ }
    }
}

/// Where values were filled into a URL, to judge its segments by once its
/// query is assembled.
#[derive(Debug)]
pub struct PathParameterValidation {
    parts: Vec<SubstitutedPart>,
}

impl PathParameterValidation {
    #[verifier::type_invariant]
    spec fn inv(self) -> bool {
        forall|i: int|
            0 <= i < self.parts@.len() ==> (#[trigger] self.parts@[i]).start <= self.parts@[i].end
    }

    /// The values that were filled in.
    pub closed spec fn parts(self) -> Seq<PartView> {
        self.parts@.map_values(|p: SubstitutedPart| p@)
    }
}

/// The parameters whose values would make a segment `.` or `..`.
#[derive(Debug, PartialEq, Eq)]
pub struct PathParameterExpansionError {
    pub parameter_names: Vec<String>,
}

/// Fills the templates of a path in, and keeps where.
pub fn replace_path_params(path: &str, params: &TextMap<String>) -> (r: (
    String,
    PathParameterValidation,
))
    ensures
        r.0@ == filled(path@, text_map_view(*params)),
        r.1.parts() == filled_parts(path@, text_map_view(*params)),
{
    let chars = chars_of(path);
    let templates = find_templates(&chars);
    let ghost places = template_places(templates@);
    let ghost map = text_map_view(*params);
    let count: usize = chars.len();
    let mut out: Vec<char> = Vec::new();
    let mut parts: Vec<SubstitutedPart> = Vec::new();
    let mut cursor: usize = 0;
    let mut i: usize = 0;
    assert(parts@.map_values(|p: SubstitutedPart| p@) =~= Seq::<PartView>::empty());
    while i < templates.len()
        invariant
            chars@ == path@,
            count == chars@.len(),
            i <= templates@.len(),
            places == template_places(templates@),
            places == templates_from(path@, 0),
            places_ok(path@, 0, places),
            map == text_map_view(*params),
            cursor == literal_start(places, i as int),
            out@ == filled_upto(path@, places, map, i as int),
            parts@.map_values(|p: SubstitutedPart| p@) == parts_upto(path@, places, map, i as int),
            forall|k: int| 0 <= k < parts@.len() ==> (#[trigger] parts@[k]).start <= parts@[k].end,
        decreases templates@.len() - i,
    {
        let start: usize = templates[i].start;
        let end: usize = templates[i].end;
        assert(places[i as int] == (start as int, end as int));
        assert(cursor <= start && start + 2 <= end && end <= count) by {
            if i > 0 {
                assert(places[i - 1].1 <= places[i as int].0);
            }
        }
        let ghost before = out@;
        push_range(&mut out, &chars, cursor, start);
        let key = text_of(&chars, start + 1, end - 1);
        assert(key@ == template_key(path@, places[i as int]));
        let ghost listed = parts@.map_values(|p: SubstitutedPart| p@);
        let ghost literal = out@;
        match params.get(key.as_str()) {
            Some(value) => {
                let encoded = encode_segment(value.as_str());
                assert(map.contains_key(key@) && map[key@] == value@);
                let from: usize = out.len();
                let encoded_chars = chars_of(encoded.as_str());
                push_range(&mut out, &encoded_chars, 0, encoded_chars.len());
                assert(encoded_chars@.subrange(0, encoded_chars@.len() as int)
                    =~= encoded_chars@);
                let to: usize = out.len();
                let part = SubstitutedPart { start: from, end: to, parameter_name: key };
                parts.push(part);
                assert(out@ == filled_upto(path@, places, map, i + 1));
                assert(parts@.map_values(|p: SubstitutedPart| p@) =~= listed.push(part@));
            },
            None => {
                assert(!map.contains_key(key@));
                push_range(&mut out, &chars, start, end);
                assert(out@ == filled_upto(path@, places, map, i + 1));
            },
        }
        cursor = end;
        i = i + 1;
    }
    assert(cursor <= count) by {
        if i > 0 {
            assert(places[i - 1].1 <= path@.len());
        }
    }
    push_range(&mut out, &chars, cursor, count);
    let text = text_of(&out, 0, out.len());
    assert(out@.subrange(0, out@.len() as int) =~= out@);
    (text, PathParameterValidation { parts })
}

fn push_range(out: &mut Vec<char>, chars: &Vec<char>, from: usize, to: usize)
    requires
        from <= to <= chars@.len(),
    ensures
        final(out)@ == old(out)@ + chars@.subrange(from as int, to as int),
{
    let ghost before = out@;
    let mut i: usize = from;
    assert(out@ =~= before + chars@.subrange(from as int, from as int));
    while i < to
        invariant
            from <= i <= to <= chars@.len(),
            out@ == before + chars@.subrange(from as int, i as int),
        decreases to - i,
    {
        out.push(chars[i]);
        i = i + 1;
        assert(chars@.subrange(from as int, i as int) =~= chars@.subrange(from as int, i - 1).push(
            chars@[i - 1],
        ));
        assert(out@ =~= before + chars@.subrange(from as int, i as int));
    }
}

// ---------------------------------------------------------------------
// The path of a URL
// ---------------------------------------------------------------------

/// Whether `s` is a URL scheme: a letter, then letters, digits, `+`, `-` and
/// `.`.
pub open spec fn is_scheme(s: Seq<char>) -> bool {
    s.len() > 0 && is_alpha(s[0]) && forall|i: int|
        0 <= i < s.len() ==> is_alnum(#[trigger] s[i]) || s[i] == '+' || s[i] == '-' || s[i] == '.'
}

/// Where the authority of a URL begins, where it has one: behind `//` at its
/// beginning, or behind a scheme and `://`.
pub open spec fn authority_start(url: Seq<char>) -> Option<int> {
    let colon = first_of(url, 0, seq![':']);
    if stands_at(url, 0, "//"@) {
        Some(2)
    } else if colon < url.len() && is_scheme(url.take(colon)) && stands_at(url, colon, "://"@) {
        Some(colon + 3)
    } else {
        None
    }
}

/// Where the path of a URL begins: behind its authority, or at its beginning
/// where it has none.
pub open spec fn path_start(url: Seq<char>) -> int {
    match authority_start(url) {
        Some(a) => first_of(url, a, "/\\?#"@),
        None => 0,
    }
}

/// Where the path of a URL ends: at its query or its fragment.
pub open spec fn path_end(url: Seq<char>) -> int {
    first_of(url, path_start(url), "?#"@)
}

fn authority_prefix_end(url: &Vec<char>) -> (r: Option<usize>)
    ensures
        match r {
            Some(a) => authority_start(url@) == Some(a as int) && a <= url@.len(),
            None => authority_start(url@) is None,
        },
{
    proof {
        reveal_strlit("//");
        reveal_strlit("://");
    }
    if stands_here(url, 0, &chars_of("//")) {
        return Some(2);
    }
    let colon = find_char(url, 0, ':');
    if colon == url.len() || colon == 0 {
        return None;
    }
    let ghost scheme = url@.take(colon as int);
    if !alpha_char(url[0]) {
        assert(!is_alpha(scheme[0]));
        return None;
    }
    let mut i: usize = 0;
    while i < colon
        invariant
            i <= colon < url@.len(),
            colon == first_of(url@, 0, seq![':']),
            !stands_at(url@, 0, "//"@),
            scheme == url@.take(colon as int),
            forall|j: int|
                0 <= j < i ==> is_alnum(#[trigger] scheme[j]) || scheme[j] == '+' || scheme[j]
                    == '-' || scheme[j] == '.',
        decreases colon - i,
    {
        let c = url[i];
        assert(scheme[i as int] == c);
        if !(alpha_char(c) || digit_char(c) || c == '+' || c == '-' || c == '.') {
            return None;
        }
        i = i + 1;
    }
    if stands_here(url, colon, &chars_of("://")) {
        Some(colon + 3)
    } else {
        None
    }
}

/// The bounds of the path of a URL.
pub fn path_component_bounds(url: &Vec<char>) -> (r: (usize, usize))
    ensures
        r.0 == path_start(url@),
        r.1 == path_end(url@),
        r.0 <= r.1 <= url@.len(),
{
    let start: usize = match authority_prefix_end(url) {
        Some(a) => find_any(url, a, "/\\?#"),
        None => 0,
    };
    let end = find_any(url, start, "?#");
    (start, end)
}

// ---------------------------------------------------------------------
// Dot segments
// ---------------------------------------------------------------------

pub open spec fn removed_in_urls(c: char) -> bool {
    c == '\t' || c == '\n' || c == '\r'
}

/// `s` without the tabs and line breaks that a URL parser takes out.
pub open spec fn without_breaks(s: Seq<char>) -> Seq<char>
    decreases s.len(),
{
    if s.len() == 0 {
        s
    } else if removed_in_urls(s.last()) {
        without_breaks(s.drop_last())
    } else {
        without_breaks(s.drop_last()).push(s.last())
    }
}

/// A dot, plain or percent-encoded.
pub open spec fn is_dot(s: Seq<char>) -> bool {
    s == "."@ || lower_text(s) == "%2e"@
}

/// Whether a URL parser reads a segment as `.` or `..`.
pub open spec fn is_dot_segment(segment: Seq<char>) -> bool {
    let s = without_breaks(segment);
    is_dot(s) || exists|k: int|
        0 <= k <= s.len() && is_dot(#[trigger] s.take(k)) && is_dot(s.skip(k))
}

/// The length of the dot that stands in `s` at `at`; nought when there is
/// none.
fn dot_width(s: &Vec<char>, at: usize) -> (r: usize)
    requires
        at <= s@.len(),
    ensures
        r == 0 || r == 1 || r == 3,
        at + r <= s@.len(),
        r > 0 ==> is_dot(s@.subrange(at as int, at + r)),
        r == 0 ==> forall|e: int| at <= e <= s@.len() ==> !is_dot(#[trigger] s@.subrange(at as int, e)),
        r > 0 ==> forall|e: int|
            at <= e <= s@.len() && is_dot(#[trigger] s@.subrange(at as int, e)) ==> e == at + r,
{
    proof {
        reveal_strlit(".");
        reveal_strlit("%2e");
        assert forall|e: int| at <= e <= s@.len() && is_dot(#[trigger] s@.subrange(at as int, e)) implies (
        e == at + 1 && s@[at as int] == '.') || (e == at + 3 && s@[at as int] == '%') by {
            let t = s@.subrange(at as int, e);
            assert(t.len() == e - at);
            if t == "."@ {
                assert(t.len() == 1 && t[0] == '.');
                assert(t[0] == s@[at as int]);
            } else {
                assert(lower_text(t).len() == 3 && lower_text(t)[0] == '%');
                assert(lower_text(t).len() == t.len());
                assert(lower_text(t)[0] == crate::text::lower(t[0]));
                crate::text::lower_keeps_others(t[0]);
                assert(t[0] == s@[at as int]);
            }
        }
    }
    if at < s.len() && s[at] == '.' {
        assert(s@.subrange(at as int, at + 1) =~= "."@);
        return 1;
    }
    if s.len() - at >= 3 && s[at] == '%' && s[at + 1] == '2' && lower_char(s[at + 2]) == 'e' {
        assert(lower_text(s@.subrange(at as int, at + 3)) =~= "%2e"@);
        return 3;
    }
    assert forall|e: int| at <= e <= s@.len() implies !is_dot(#[trigger] s@.subrange(at as int, e)) by {
        let t = s@.subrange(at as int, e);
        if is_dot(t) {
            assert(t[0] == s@[at as int]);
            if e == at + 3 {
                let l = lower_text(t);
                assert(l[1] == crate::text::lower(t[1]));
                assert(l[2] == crate::text::lower(t[2]));
                assert(t[1] == s@[at + 1] && t[2] == s@[at + 2]);
                crate::text::lower_keeps_others(t[1]);
            }
        }
    }
    0
}

/// Whether a URL parser reads a segment as `.` or `..`.
pub fn is_whatwg_dot_segment(segment: &str) -> (r: bool)
    ensures
        r == is_dot_segment(segment@),
{
    let chars = chars_of(segment);
    let mut s: Vec<char> = Vec::new();
    let mut i: usize = 0;
    while i < chars.len()
        invariant
            i <= chars@.len(),
            chars@ == segment@,
            s@ == without_breaks(segment@.take(i as int)),
        decreases chars@.len() - i,
    {
        let c = chars[i];
        assert(segment@.take(i + 1).drop_last() =~= segment@.take(i as int));
        if !(c == '\t' || c == '\n' || c == '\r') {
            s.push(c);
        }
        i = i + 1;
    }
    assert(segment@.take(i as int) =~= segment@);
    let first = dot_width(&s, 0);
    assert forall|k: int| 0 <= k <= s@.len() implies #[trigger] s@.take(k) == s@.subrange(0, k) by {}
    if first == 0 {
        assert(!is_dot(s@)) by {
            assert(s@.subrange(0, s@.len() as int) =~= s@);
        }
        return false;
    }
    if first == s.len() {
        assert(s@.subrange(0, s@.len() as int) =~= s@);
        return true;
    }
    let second = dot_width(&s, first);
    assert(!is_dot(s@)) by {
        assert(s@.subrange(0, s@.len() as int) =~= s@);
    }
    assert(s@.skip(first as int) =~= s@.subrange(first as int, s@.len() as int));
    if second > 0 && first + second == s.len() {
        assert(is_dot(s@.take(first as int)));
        true
    } else {
        assert forall|k: int| 0 <= k <= s@.len() && is_dot(#[trigger] s@.take(k)) implies !is_dot(
            s@.skip(k),
        ) by {
            assert(s@.take(k) == s@.subrange(0, k));
            assert(k == first);
        }
        false
    }
}

// ---------------------------------------------------------------------
// Judging the segments
// ---------------------------------------------------------------------

/// Whether a value that was filled in lies in the path of a URL.
pub open spec fn in_path(url: Seq<char>, start: int, end: int) -> bool {
    &&& end <= url.len()
    &&& if start == end {
        path_start(url) <= start <= path_end(url)
    } else {
        path_start(url) <= start && end <= path_end(url)
    }
}

/// Whether a position lies within a value that was filled into the path.
pub open spec fn filled_at(url: Seq<char>, parts: Seq<PartView>, at: int) -> bool {
    exists|i: int|
        0 <= i < parts.len() && in_path(url, (#[trigger] parts[i]).start, parts[i].end)
            && parts[i].start <= at
            < parts[i].end
}

/// Whether a position of the path separates two segments.
pub open spec fn separates(url: Seq<char>, parts: Seq<PartView>, at: int) -> bool {
    &&& path_start(url) <= at < path_end(url)
    &&& url[at] == '/' || url[at] == '\\'
    &&& !filled_at(url, parts, at)
}

/// Where the segment that `at` lies in begins.
pub open spec fn segment_start(url: Seq<char>, parts: Seq<PartView>, at: int) -> int
    decreases at - path_start(url),
{
    if at <= path_start(url) {
        path_start(url)
    } else if separates(url, parts, at - 1) {
        at
    } else {
        segment_start(url, parts, at - 1)
    }
}

/// Where the segment that `at` lies in ends.
pub open spec fn segment_end(url: Seq<char>, parts: Seq<PartView>, at: int) -> int
    decreases path_end(url) - at,
{
    if at >= path_end(url) {
        path_end(url)
    } else if separates(url, parts, at) {
        at
    } else {
        segment_end(url, parts, at + 1)
    }
}

/// `s` without the spaces and controls at its end.
pub open spec fn end_trimmed(s: Seq<char>) -> Seq<char>
    decreases s.len(),
{
    if s.len() > 0 && s.last() <= ' ' {
        end_trimmed(s.drop_last())
    } else {
        s
    }
}

/// The segment that a value lies in, as a URL parser reads it: at the end of
/// the URL without the spaces and controls that end it.
pub open spec fn segment_of(url: Seq<char>, parts: Seq<PartView>, p: PartView) -> Seq<char> {
    let a = segment_start(url, parts, p.start);
    let b = segment_end(url, parts, p.end);
    let text = url.subrange(a, b);
    if b == path_end(url) && b == url.len() {
        end_trimmed(text)
    } else {
        text
    }
}

/// Whether a value lies in a segment that a URL parser reads as `.` or `..`.
pub open spec fn unsafe_part(url: Seq<char>, parts: Seq<PartView>, p: PartView) -> bool {
    in_path(url, p.start, p.end) && is_dot_segment(segment_of(url, parts, p))
}

/// The parameters of the first `n` values that lie in such a segment, each
/// once, in the order of the values.
pub open spec fn unsafe_names(url: Seq<char>, parts: Seq<PartView>, n: int) -> Seq<Seq<char>>
    decreases n,
{
    if n <= 0 {
        Seq::empty()
    } else {
        let before = unsafe_names(url, parts, n - 1);
        let p = parts[n - 1];
        if unsafe_part(url, parts, p) && !before.contains(p.name) {
            before.push(p.name)
        } else {
            before
        }
    }
}

impl PathParameterValidation {
    fn is_filled(&self, url: &Vec<char>, bounds: (usize, usize), at: usize) -> (r: bool)
        requires
            bounds.0 == path_start(url@),
            bounds.1 == path_end(url@),
        ensures
            r == filled_at(url@, self.parts(), at as int),
    {
        let mut i: usize = 0;
        while i < self.parts.len()
            invariant
                i <= self.parts@.len(),
                bounds.0 == path_start(url@),
                bounds.1 == path_end(url@),
                forall|j: int|
                    0 <= j < i ==> !(in_path(
                        url@,
                        (#[trigger] self.parts()[j]).start,
                        self.parts()[j].end,
                    )
                        && self.parts()[j].start <= at < self.parts()[j].end),
            decreases self.parts@.len() - i,
        {
            let p = &self.parts[i];
            assert(self.parts()[i as int] == p@);
            if in_path_exec(url, bounds, p.start, p.end) && p.start <= at && at < p.end {
                return true;
            }
            i = i + 1;
        }
        assert(!filled_at(url@, self.parts(), at as int));
        false
    }

    fn is_separator(&self, url: &Vec<char>, bounds: (usize, usize), at: usize) -> (r: bool)
        requires
            bounds.0 == path_start(url@),
            bounds.1 == path_end(url@),
            bounds.1 <= url@.len(),
        ensures
            r == separates(url@, self.parts(), at as int),
    {
        if at < bounds.0 || at >= bounds.1 {
            return false;
        }
        (url[at] == '/' || url[at] == '\\') && !self.is_filled(url, bounds, at)
    }

    fn part_is_unsafe(&self, url: &Vec<char>, bounds: (usize, usize), i: usize) -> (r: bool)
        requires
            bounds.0 == path_start(url@),
            bounds.1 == path_end(url@),
            bounds.0 <= bounds.1 <= url@.len(),
            i < self.parts@.len(),
        ensures
            r == unsafe_part(url@, self.parts(), self.parts()[i as int]),
    {
        proof {
            use_type_invariant(self);
        }
        let start: usize = self.parts[i].start;
        let end: usize = self.parts[i].end;
        let ghost p = self.parts()[i as int];
        assert(p.start == start && p.end == end);
        if !in_path_exec(url, bounds, start, end) {
            return false;
        }
        let ghost u = url@;
        let ghost parts = self.parts();
        let mut a: usize = start;
        while a > bounds.0 && !self.is_separator(url, bounds, a - 1)
            invariant
                bounds.0 == path_start(u),
                bounds.1 == path_end(u),
                bounds.1 <= u.len(),
                u == url@,
                parts == self.parts(),
                bounds.0 <= a <= start,
                segment_start(u, parts, start as int) == segment_start(u, parts, a as int),
            decreases a,
        {
            a = a - 1;
        }
        let mut b: usize = end;
        while b < bounds.1 && !self.is_separator(url, bounds, b)
            invariant
                bounds.0 == path_start(u),
                bounds.1 == path_end(u),
                bounds.1 <= u.len(),
                u == url@,
                parts == self.parts(),
                end <= b <= bounds.1,
                segment_end(u, parts, end as int) == segment_end(u, parts, b as int),
            decreases bounds.1 - b,
        {
            b = b + 1;
        }
        assert(a == segment_start(u, parts, start as int));
        assert(b == segment_end(u, parts, end as int));
        let mut stop: usize = b;
        if b == bounds.1 && b == url.len() {
            assert(u.subrange(a as int, stop as int) =~= u.subrange(a as int, b as int));
            while a < stop && url[stop - 1] <= ' '
                invariant
                    a <= stop <= b <= u.len(),
                    u == url@,
                    end_trimmed(u.subrange(a as int, b as int)) == end_trimmed(
                        u.subrange(a as int, stop as int),
                    ),
                decreases stop,
            {
                assert(u.subrange(a as int, stop as int).drop_last() =~= u.subrange(
                    a as int,
                    stop - 1,
                ));
                stop = stop - 1;
            }
        }
        let text = text_of(url, a, stop);
        assert(text@ == segment_of(u, parts, p));
        is_whatwg_dot_segment(text.as_str())
    }

    /// Refuses a URL in which a value that was filled in helps to make a path
    /// segment `.` or `..`, and names the parameters.
    pub fn validate(&self, url: &str) -> (r: Result<(), PathParameterExpansionError>)
        ensures
            ({
                let names = unsafe_names(url@, self.parts(), self.parts().len() as int);
                match r {
                    Ok(_) => names.len() == 0,
                    Err(e) => names.len() > 0 && texts(e.parameter_names@) == names,
                }
            }),
    {
        let chars = chars_of(url);
        let bounds = path_component_bounds(&chars);
        let mut names: Vec<String> = Vec::new();
        let mut i: usize = 0;
        assert(texts(names@) =~= unsafe_names(url@, self.parts(), 0));
        while i < self.parts.len()
            invariant
                i <= self.parts@.len(),
                chars@ == url@,
                bounds.0 == path_start(url@),
                bounds.1 == path_end(url@),
                bounds.0 <= bounds.1 <= url@.len(),
                texts(names@) == unsafe_names(url@, self.parts(), i as int),
            decreases self.parts@.len() - i,
        {
            let ghost before = texts(names@);
            let name = &self.parts[i].parameter_name;
            assert(self.parts()[i as int].name == name@);
            assert(before.contains(name@) == has_text(names@, name@)) by {
                if before.contains(name@) {
                    let j = before.index_of(name@);
                    assert(names@[j]@ == name@);
                }
                if has_text(names@, name@) {
                    let j = choose|j: int| 0 <= j < names@.len() && (#[trigger] names@[j])@ == name@;
                    assert(before[j] == name@);
                }
            }
            if self.part_is_unsafe(&chars, bounds, i) && !contains_text(&names, name.as_str()) {
                names.push(name.clone());
                assert(texts(names@) =~= before.push(name@));
            }
            i = i + 1;
        }
        assert(texts(names@).len() == names@.len());
        if names.len() == 0 {
            Ok(())
        } else {
            Err(PathParameterExpansionError { parameter_names: names })
        }
    }
}

fn in_path_exec(url: &Vec<char>, bounds: (usize, usize), start: usize, end: usize) -> (r: bool)
    requires
        bounds.0 == path_start(url@),
        bounds.1 == path_end(url@),
    ensures
        r == in_path(url@, start as int, end as int),
{
    end <= url.len() && (if start == end {
        bounds.0 <= start && start <= bounds.1
    } else {
        bounds.0 <= start && end <= bounds.1
    })
}

// ---------------------------------------------------------------------
// Cookies
// ---------------------------------------------------------------------

/// One character of a cookie value: itself, or its percent-encoding where it
/// would end the value.
pub open spec fn cookie_char(c: char) -> Seq<char> {
    if c == ';' {
        "%3B"@
    } else if c == ',' {
        "%2C"@
    } else if c == ' ' {
        "%20"@
    } else if c == '=' {
        "%3D"@
    } else if c == '"' {
        "%22"@
    } else if c == '\\' {
        "%5C"@
    } else {
        seq![c]
    }
}

/// A cookie value, encoded.
pub open spec fn cookie_encoded(s: Seq<char>) -> Seq<char>
    decreases s.len(),
{
    if s.len() == 0 {
        s
    } else {
        cookie_encoded(s.drop_last()) + cookie_char(s.last())
    }
}

/// Whether a character ends a cookie value.
pub open spec fn ends_cookie(c: char) -> bool {
    c == ';' || c == ',' || c == ' ' || c == '=' || c == '"' || c == '\\'
}

/// Encodes the characters of a cookie value that would end it.
pub fn encode_cookie_value(raw: &str) -> (r: String)
    ensures
        r@ == cookie_encoded(raw@),
{
    let chars = chars_of(raw);
    let mut out = String::new();
    let mut i: usize = 0;
    while i < chars.len()
        invariant
            i <= chars@.len(),
            chars@ == raw@,
            out@ == cookie_encoded(raw@.take(i as int)),
        decreases chars@.len() - i,
    {
        let c = chars[i];
        let ghost before = out@;
        assert(raw@.take(i + 1).drop_last() =~= raw@.take(i as int));
        if c == ';' {
            out.append("%3B");
        } else if c == ',' {
            out.append("%2C");
        } else if c == ' ' {
            out.append("%20");
        } else if c == '=' {
            out.append("%3D");
        } else if c == '"' {
            out.append("%22");
        } else if c == '\\' {
            out.append("%5C");
        } else {
            out.push(c);
            assert(out@ =~= before + seq![c]);
        }
        i = i + 1;
    }
    assert(raw@.take(i as int) =~= raw@);
    out
}

/// An encoded cookie value is one value: no character in it ends it.
pub proof fn encoded_cookie_is_one_value(s: Seq<char>, i: int)
    requires
        0 <= i < cookie_encoded(s).len(),
    ensures
        !ends_cookie(cookie_encoded(s)[i]),
    decreases s.len(),
{
    let before = cookie_encoded(s.drop_last());
    if i < before.len() {
        encoded_cookie_is_one_value(s.drop_last(), i);
    } else {
        reveal_strlit("%3B");
        reveal_strlit("%2C");
        reveal_strlit("%20");
        reveal_strlit("%3D");
        reveal_strlit("%22");
        reveal_strlit("%5C");
        assert(cookie_encoded(s)[i] == cookie_char(s.last())[i - before.len()]);
    }
}

/// A cookie value is encoded character by character: the encoding of two texts
/// in a row is their encodings in a row.
pub proof fn cookie_encodings_join(a: Seq<char>, b: Seq<char>)
    ensures
        cookie_encoded(a + b) == cookie_encoded(a) + cookie_encoded(b),
    decreases b.len(),
{
    if b.len() == 0 {
        assert(a + b =~= a);
        assert(cookie_encoded(a) + cookie_encoded(b) =~= cookie_encoded(a));
    } else {
        cookie_encodings_join(a, b.drop_last());
        assert((a + b).drop_last() =~= a + b.drop_last());
        assert(cookie_encoded(a + b) =~= cookie_encoded(a) + cookie_encoded(b));
    }
}

} // verus!
