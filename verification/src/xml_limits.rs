//! Which XML texts can be read: those whose declarations nest and refer to one
//! another only so far.

use crate::text::{
    chars_of, contains_part, find_any, find_char, first_of, occurs_in, stands_at, stands_here,
    text_of,
};
use vstd::prelude::*;
use vstd::string::*;

verus! {

/// How many entities a text may declare.
pub const MAX_ENTITIES: usize = 1024;

/// How many of them may refer to others. Each may refer to the next.
pub const MAX_REFERRING: usize = 32;

/// How many elements may begin in a text whose entities hold markup, which is
/// read inside the elements around it.
pub const MAX_ELEMENTS: usize = 32;

/// How many brackets one declaration of an element may open.
pub const MAX_BRACKETS: usize = 256;

/// What is said of a text that cannot be read.
pub const LARGE_DECLARATIONS: &'static str =
    "its document type declares too many entities, too much markup in them, or elements that nest too deep";

/// How many entities are declared from `from` on: how often their declaration
/// begins there, in markup or not.
pub open spec fn entities_from(s: Seq<char>, from: int) -> nat
    decreases s.len() - from,
{
    if from < 0 || from >= s.len() {
        0
    } else if stands_at(s, from, "<!ENTITY"@) {
        entities_from(s, from + 1) + 1
    } else {
        entities_from(s, from + 1)
    }
}

/// The value of an entity whose declaration begins at `at`: what stands
/// between the first quote and the next of its kind.
pub open spec fn declared_value(s: Seq<char>, at: int) -> Seq<char> {
    let open = first_of(s, at, "\"'"@);
    if open < s.len() {
        s.subrange(open + 1, first_of(s, open + 1, seq![s[open]]))
    } else {
        Seq::empty()
    }
}

/// Whether the value of an entity may stand for markup: it holds a `<`, or a
/// reference that may be one.
pub open spec fn may_be_markup(value: Seq<char>) -> bool {
    ||| occurs_in(value, "<"@)
    ||| occurs_in(value, "&#60;"@)
    ||| occurs_in(value, "&#x3c;"@)
    ||| occurs_in(value, "&#x3C;"@)
    ||| occurs_in(value, "&#0"@)
    ||| occurs_in(value, "&#x0"@)
    ||| occurs_in(value, "&#+"@)
    ||| occurs_in(value, "&#x+"@)
}

/// Whether there is an entity reference at `at`: an ampersand that begins no
/// reference to a character.
pub open spec fn reference_at(value: Seq<char>, at: int) -> bool {
    0 <= at < value.len() && value[at] == '&' && !(at + 1 < value.len() && value[at + 1] == '#')
}

/// Whether the value of an entity may refer to another: it holds an ampersand
/// that begins no reference to a character, or a reference that is one.
pub open spec fn may_refer(value: Seq<char>) -> bool {
    ||| exists|at: int| #[trigger] reference_at(value, at)
    ||| occurs_in(value, "&#38;"@)
    ||| occurs_in(value, "&#x26;"@)
}

/// How many entities that may refer to others are declared from `from` on.
pub open spec fn referring_from(s: Seq<char>, from: int) -> nat
    decreases s.len() - from,
{
    if from < 0 || from >= s.len() {
        0
    } else if stands_at(s, from, "<!ENTITY"@) && may_refer(declared_value(s, from)) {
        referring_from(s, from + 1) + 1
    } else {
        referring_from(s, from + 1)
    }
}

/// How many brackets are opened from `from` up to the next `>`.
pub open spec fn brackets_from(s: Seq<char>, from: int) -> nat
    decreases s.len() - from,
{
    if from < 0 || from >= s.len() || s[from] == '>' {
        0
    } else if s[from] == '(' {
        brackets_from(s, from + 1) + 1
    } else {
        brackets_from(s, from + 1)
    }
}

/// Whether the declaration of an element at `at`, if there is one, opens only
/// so many brackets.
pub open spec fn element_is_flat(s: Seq<char>, at: int) -> bool {
    stands_at(s, at, "<!ELEMENT"@) ==> brackets_from(s, at) <= MAX_BRACKETS
}

/// Whether the entity that is declared at `at`, if there is one, stands for
/// text alone.
pub open spec fn entity_is_plain(s: Seq<char>, at: int) -> bool {
    stands_at(s, at, "<!ENTITY"@) ==> !may_be_markup(declared_value(s, at))
}

/// Whether all entities stand for text alone.
pub open spec fn entities_are_plain(s: Seq<char>, from: int) -> bool {
    forall|at: int| from <= at < s.len() ==> #[trigger] entity_is_plain(s, at)
}

/// Whether an element may begin at `at`.
pub open spec fn element_at(s: Seq<char>, at: int) -> bool {
    s[at] == '<' && !(at + 1 < s.len() && (s[at + 1] == '/' || s[at + 1] == '!' || s[at + 1]
        == '?'))
}

/// How many elements begin from `from` on, at most.
pub open spec fn elements_from(s: Seq<char>, from: int) -> nat
    decreases s.len() - from,
{
    if from < 0 || from >= s.len() {
        0
    } else if element_at(s, from) {
        elements_from(s, from + 1) + 1
    } else {
        elements_from(s, from + 1)
    }
}

/// Whether a text can be read, as XML or as something that is none.
pub open spec fn document_returns(xml: Seq<char>) -> bool {
    &&& entities_from(xml, 0) <= MAX_ENTITIES
    &&& referring_from(xml, 0) <= MAX_REFERRING
    &&& entities_are_plain(xml, 0) || elements_from(xml, 0) <= MAX_ELEMENTS
    &&& forall|at: int| 0 <= at < xml.len() ==> #[trigger] element_is_flat(xml, at)
}

proof fn entities_add_up(s: Seq<char>, from: int, to: int)
    requires
        0 <= from <= to <= s.len(),
    ensures
        entities_from(s, to) <= entities_from(s, from),
        referring_from(s, to) <= referring_from(s, from),
    decreases to - from,
{
    if from < to {
        entities_add_up(s, from + 1, to);
    }
}

/// Reads the value of the entity that is declared at `at`.
fn read_value(chars: &Vec<char>, at: usize) -> (r: String)
    requires
        at < chars@.len(),
    ensures
        r@ == declared_value(chars@, at as int),
{
    let count: usize = chars.len();
    let open = find_any(chars, at, "\"'");
    let value = if open < count {
        let close = find_char(chars, open + 1, chars[open]);
        text_of(chars, open + 1, close)
    } else {
        text_of(chars, 0, 0)
    };
    assert(value@ =~= declared_value(chars@, at as int));
    value
}

fn refers(value: &str) -> (r: bool)
    ensures
        r == may_refer(value@),
{
    let chars = chars_of(value);
    let count: usize = chars.len();
    let mut i: usize = 0;
    while i < count
        invariant
            i <= count,
            count == chars@.len(),
            chars@ == value@,
            forall|at: int| at < i ==> !(#[trigger] reference_at(value@, at)),
        decreases count - i,
    {
        if chars[i] == '&' && !(i < count - 1 && chars[i + 1] == '#') {
            assert(reference_at(value@, i as int));
            return true;
        }
        i = i + 1;
    }
    contains_part(value, "&#38;") || contains_part(value, "&#x26;")
}

fn is_plain(value: &str) -> (r: bool)
    ensures
        r == !may_be_markup(value@),
{
    !(contains_part(value, "<") || contains_part(value, "&#60;") || contains_part(value, "&#x3c;")
        || contains_part(value, "&#x3C;") || contains_part(value, "&#0") || contains_part(
        value,
        "&#x0",
    ) || contains_part(value, "&#+") || contains_part(value, "&#x+"))
}

/// Whether a text can be read.
pub fn can_be_read(xml: &str) -> (r: bool)
    ensures
        r == document_returns(xml@),
{
    let chars = chars_of(xml);
    let entity = chars_of("<!ENTITY");
    let element = chars_of("<!ELEMENT");
    let count: usize = chars.len();
    let mut at: usize = count;
    let mut entities: usize = 0;
    let mut referring: usize = 0;
    let mut brackets: usize = 0;
    let mut elements: usize = 0;
    let mut plain = true;
    while at > 0
        invariant
            at <= count,
            count == chars@.len(),
            chars@ == xml@,
            entity@ == "<!ENTITY"@,
            element@ == "<!ELEMENT"@,
            entities == entities_from(xml@, at as int),
            entities <= MAX_ENTITIES,
            referring == referring_from(xml@, at as int),
            referring <= MAX_REFERRING,
            brackets == brackets_from(xml@, at as int),
            brackets <= count - at,
            elements == elements_from(xml@, at as int),
            elements <= count - at,
            plain == entities_are_plain(xml@, at as int),
            forall|k: int| at <= k < xml@.len() ==> #[trigger] element_is_flat(xml@, k),
        decreases at,
    {
        let ghost behind = at as int;
        at = at - 1;
        if stands_here(&chars, at, &entity) {
            entities = entities + 1;
            if entities > MAX_ENTITIES {
                proof {
                    entities_add_up(xml@, 0, at as int);
                }
                return false;
            }
            let value = read_value(&chars, at);
            if !is_plain(value.as_str()) {
                assert(!entity_is_plain(xml@, at as int));
                plain = false;
            }
            if refers(value.as_str()) {
                referring = referring + 1;
                if referring > MAX_REFERRING {
                    proof {
                        entities_add_up(xml@, 0, at as int);
                    }
                    return false;
                }
            }
        }
        if chars[at] == '>' {
            brackets = 0;
        } else if chars[at] == '(' {
            brackets = brackets + 1;
        }
        if brackets > MAX_BRACKETS && stands_here(&chars, at, &element) {
            assert(!element_is_flat(xml@, at as int));
            return false;
        }
        if chars[at] == '<' && !(at < count - 1 && (chars[at + 1] == '/' || chars[at + 1] == '!'
            || chars[at + 1] == '?')) {
            elements = elements + 1;
        }
        assert(element_is_flat(xml@, at as int));
        assert forall|k: int| at <= k < xml@.len() implies #[trigger] element_is_flat(xml@, k) by {
            if k > at {
                assert(behind <= k);
            }
        }
        assert(plain == entities_are_plain(xml@, at as int)) by {
            if plain {
                assert(entity_is_plain(xml@, at as int));
                assert forall|k: int| at <= k < xml@.len() implies #[trigger] entity_is_plain(
                    xml@,
                    k,
                ) by {
                    if k > at {
                        assert(behind <= k);
                    }
                }
            }
        }
    }
    plain || elements <= MAX_ELEMENTS
}

// ---------------------------------------------------------------------
// Laws
// ---------------------------------------------------------------------

/// A text that declares no entities and no elements can be read, whatever else
/// it holds.
pub proof fn texts_without_declarations_can_be_read(xml: Seq<char>)
    requires
        !occurs_in(xml, "<!ENTITY"@),
        !occurs_in(xml, "<!ELEMENT"@),
    ensures
        document_returns(xml),
{
    no_entities(xml, 0);
    assert forall|at: int| 0 <= at < xml.len() implies #[trigger] entity_is_plain(xml, at) by {
        assert(!stands_at(xml, at, "<!ENTITY"@));
    }
    assert forall|at: int| 0 <= at < xml.len() implies #[trigger] element_is_flat(xml, at) by {
        assert(!stands_at(xml, at, "<!ELEMENT"@));
    }
}

proof fn no_entities(xml: Seq<char>, from: int)
    requires
        0 <= from,
        !occurs_in(xml, "<!ENTITY"@),
    ensures
        entities_from(xml, from) == 0,
        referring_from(xml, from) == 0,
    decreases xml.len() - from,
{
    if from < xml.len() {
        assert(!stands_at(xml, from, "<!ENTITY"@));
        no_entities(xml, from + 1);
    }
}

} // verus!
