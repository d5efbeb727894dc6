//! Identifier case conversion.
//!
//! Schema identifiers arrive in WIT's kebab style (`lower-words-1`).
//! Nominal type names are rendered in upper camel case and member names
//! (fields, cases, parameters, functions) in lower camel case. The
//! conversion itself is done by the `convert_case` crate; its result is
//! named by the uninterpreted functions [`upper_camel_of`] and
//! [`camel_of`], and pinned exactly on the identifier shapes the schema
//! actually produces by [`upper_camel_spec`] and [`camel_spec`].

use vstd::prelude::*;
use convert_case::Casing;

verus! {

/// An ASCII lowercase letter.
pub open spec fn is_ascii_lower(c: char) -> bool {
    97 <= c as u32 <= 122
}

/// An ASCII uppercase letter.
pub open spec fn is_ascii_upper(c: char) -> bool {
    65 <= c as u32 <= 90
}

/// An ASCII decimal digit.
pub open spec fn is_ascii_digit(c: char) -> bool {
    48 <= c as u32 <= 57
}

/// An ASCII letter of either case.
pub open spec fn is_ascii_letter(c: char) -> bool {
    is_ascii_lower(c) || is_ascii_upper(c)
}

/// The uppercase form of an ASCII lowercase letter; other characters are
/// unchanged.
pub open spec fn upper_char(c: char) -> char {
    match c {
        'a' => 'A',
        'b' => 'B',
        'c' => 'C',
        'd' => 'D',
        'e' => 'E',
        'f' => 'F',
        'g' => 'G',
        'h' => 'H',
        'i' => 'I',
        'j' => 'J',
        'k' => 'K',
        'l' => 'L',
        'm' => 'M',
        'n' => 'N',
        'o' => 'O',
        'p' => 'P',
        'q' => 'Q',
        'r' => 'R',
        's' => 'S',
        't' => 'T',
        'u' => 'U',
        'v' => 'V',
        'w' => 'W',
        'x' => 'X',
        'y' => 'Y',
        'z' => 'Z',
        _ => c,
    }
}

/// A character that may occur in a kebab-style WIT identifier.
pub open spec fn is_wit_ident_char(c: char) -> bool {
    is_ascii_lower(c) || is_ascii_digit(c) || c == '-'
}

/// A kebab-style WIT identifier: nonempty, starts with a lowercase
/// letter, made of lowercase letters, digits and single interior hyphens.
pub open spec fn is_wit_ident(s: Seq<char>) -> bool {
    &&& s.len() > 0
    &&& is_ascii_lower(s[0])
    &&& forall|i: int| 0 <= i < s.len() ==> is_wit_ident_char(#[trigger] s[i])
    &&& s[s.len() - 1] != '-'
    &&& forall|i: int| 0 <= i < s.len() - 1 ==> !(#[trigger] s[i] == '-' && s[i + 1] == '-')
}

/// A text already in upper camel shape: nonempty, ASCII letters only,
/// leading uppercase, and no two adjacent uppercase letters.
pub open spec fn is_upper_camel_text(s: Seq<char>) -> bool {
    &&& s.len() > 0
    &&& is_ascii_upper(s[0])
    &&& forall|i: int| 0 <= i < s.len() ==> is_ascii_letter(#[trigger] s[i])
    &&& forall|i: int|
        0 <= i < s.len() - 1 ==> !(is_ascii_upper(#[trigger] s[i]) && is_ascii_upper(s[i + 1]))
}

/// A text already in lower camel shape: nonempty, ASCII letters only,
/// leading lowercase, and no two adjacent uppercase letters.
pub open spec fn is_camel_text(s: Seq<char>) -> bool {
    &&& s.len() > 0
    &&& is_ascii_lower(s[0])
    &&& forall|i: int| 0 <= i < s.len() ==> is_ascii_letter(#[trigger] s[i])
    &&& forall|i: int|
        0 <= i < s.len() - 1 ==> !(is_ascii_upper(#[trigger] s[i]) && is_ascii_upper(s[i + 1]))
}

/// Camel-cases a kebab identifier character by character: hyphens are
/// dropped, and a letter is capitalised when `cap` asks for it — at a
/// piece start, that is after a hyphen or a digit (and, for the upper
/// variant, at the very beginning).
pub open spec fn camel_convert(s: Seq<char>, cap: bool) -> Seq<char>
    decreases s.len(),
{
    if s.len() == 0 {
        Seq::empty()
    } else {
        let c = s[0];
        if c == '-' {
            camel_convert(s.drop_first(), true)
        } else if is_ascii_digit(c) {
            seq![c] + camel_convert(s.drop_first(), true)
        } else if cap {
            seq![upper_char(c)] + camel_convert(s.drop_first(), false)
        } else {
            seq![c] + camel_convert(s.drop_first(), false)
        }
    }
}

/// The upper camel form of a kebab identifier.
pub open spec fn upper_camel_spec(s: Seq<char>) -> Seq<char> {
    camel_convert(s, true)
}

/// The lower camel form of a kebab identifier.
pub open spec fn camel_spec(s: Seq<char>) -> Seq<char> {
    camel_convert(s, false)
}

/// A kebab identifier of letters-only words where only the last word
/// may be a single letter: the shapes on which case conversion is
/// idempotent.
pub open spec fn is_plain_kebab(s: Seq<char>) -> bool {
    &&& is_wit_ident(s)
    &&& forall|i: int| 0 <= i < s.len() ==> (is_ascii_lower(#[trigger] s[i]) || s[i] == '-')
    &&& (s.len() > 1 ==> s[1] != '-')
    &&& forall|i: int| 0 <= i && i + 2 < s.len() ==> !(#[trigger] s[i] == '-' && s[i + 2] == '-')
}

/// Uppercasing a lowercase ASCII letter yields an uppercase one;
/// every other character is left alone.
pub proof fn lemma_upper_char(c: char)
    ensures
        is_ascii_lower(c) ==> is_ascii_upper(upper_char(c)),
        !is_ascii_lower(c) ==> upper_char(c) == c,
{
}

/// The shape of a camel conversion of a letters-and-hyphens identifier:
/// nonempty, all letters, the first character capitalised exactly when
/// asked, and never two adjacent uppercase letters — provided no
/// interior word is a single letter, and, when capitalising, neither is
/// the first.
proof fn lemma_convert_shape(s: Seq<char>, cap: bool)
    requires
        forall|i: int| 0 <= i < s.len() ==> (is_ascii_lower(#[trigger] s[i]) || s[i] == '-'),
        s.len() > 0 ==> is_ascii_lower(s[0]),
        s.len() > 0 ==> s[s.len() - 1] != '-',
        forall|i: int| 0 <= i < s.len() - 1 ==> !(#[trigger] s[i] == '-' && s[i + 1] == '-'),
        cap ==> (s.len() > 1 ==> s[1] != '-'),
        forall|i: int| 0 <= i && i + 2 < s.len() ==> !(#[trigger] s[i] == '-' && s[i + 2] == '-'),
    ensures
        camel_convert(s, cap).len() > 0 <==> s.len() > 0,
        forall|i: int|
            0 <= i < camel_convert(s, cap).len() ==> is_ascii_letter(
                #[trigger] camel_convert(s, cap)[i],
            ),
        s.len() > 0 ==> camel_convert(s, cap)[0] == (if cap {
            upper_char(s[0])
        } else {
            s[0]
        }),
        forall|i: int|
            0 <= i < camel_convert(s, cap).len() - 1 ==> !(is_ascii_upper(
                #[trigger] camel_convert(s, cap)[i],
            ) && is_ascii_upper(camel_convert(s, cap)[i + 1])),
    decreases s.len(),
{
    if s.len() == 0 {
        return ;
    }
    let c = s[0];
    lemma_upper_char(c);
    let c0 = if cap {
        upper_char(c)
    } else {
        c
    };
    assert('-' as u32 == 45);
    assert(c != '-');
    assert(!is_ascii_digit(c));
    let tail = s.drop_first();
    let out = camel_convert(s, cap);
    if tail.len() == 0 {
        assert(camel_convert(tail, false) =~= Seq::<char>::empty());
        assert(camel_convert(tail, true) =~= Seq::<char>::empty());
        assert(out =~= seq![c0]);
        return ;
    }
    if tail[0] == '-' {
        let tail2 = tail.drop_first();
        assert(tail2.len() > 0);
        assert(is_ascii_lower(tail2[0])) by {
            assert(!(s[1] == '-' && s[2] == '-'));
        }
        assert(forall|i: int|
            0 <= i < tail2.len() ==> (is_ascii_lower(#[trigger] tail2[i]) || tail2[i] == '-'));
        assert(tail2[tail2.len() - 1] != '-');
        assert(forall|i: int|
            0 <= i < tail2.len() - 1 ==> !(#[trigger] tail2[i] == '-' && tail2[i + 1] == '-'));
        assert(tail2.len() > 1 ==> tail2[1] != '-') by {
            if tail2.len() > 1 && tail2[1] == '-' {
                assert(s[1] == '-' && s[3] == '-');
            }
        }
        assert(forall|i: int|
            0 <= i && i + 2 < tail2.len() ==> !(#[trigger] tail2[i] == '-' && tail2[i + 2]
                == '-'));
        lemma_convert_shape(tail2, true);
        let out_tail = camel_convert(tail2, true);
        assert(camel_convert(tail, false) == out_tail);
        assert(out == seq![c0] + out_tail);
        assert(!cap) by {
            if cap {
                assert(s[1] == '-');
            }
        }
        assert(!is_ascii_upper(c0));
    } else {
        assert(is_ascii_lower(tail[0]));
        lemma_convert_shape(tail, false);
        let out_tail = camel_convert(tail, false);
        assert(out == seq![c0] + out_tail);
        assert(out_tail[0] == tail[0]);
        assert(!is_ascii_upper(out_tail[0]));
    }
}

/// The upper-camel conversion of a plain kebab identifier lands in
/// upper camel shape — so converting an already-converted name again
/// is a no-op, as the contracts of the name builders state for texts
/// of that shape.
pub proof fn lemma_upper_camel_shape(s: Seq<char>)
    requires
        is_plain_kebab(s),
    ensures
        is_upper_camel_text(upper_camel_spec(s)),
{
    lemma_convert_shape(s, true);
    lemma_upper_char(s[0]);
}

/// The lower-camel conversion of a plain kebab identifier lands in
/// lower camel shape — so converting an already-converted member name
/// again is a no-op, as the contracts of the name builders state for
/// texts of that shape.
pub proof fn lemma_camel_shape(s: Seq<char>)
    requires
        is_plain_kebab(s),
    ensures
        is_camel_text(camel_spec(s)),
{
    lemma_convert_shape(s, false);
}

/// What `convert_case` returns for an arbitrary text converted to upper
/// camel case: a function of the characters alone.
pub uninterp spec fn upper_camel_of(s: Seq<char>) -> Seq<char>;

/// What `convert_case` returns for an arbitrary text converted to lower
/// camel case: a function of the characters alone.
pub uninterp spec fn camel_of(s: Seq<char>) -> Seq<char>;

/// Relies on convert_case's `Casing::to_case` with `Case::UpperCamel`
/// (split on the default boundaries — hyphen, underscore, space, digit
/// transitions, lower-to-upper — then capitalise each word and join):
/// the result depends on the characters alone; on a kebab WIT identifier
/// it equals [`upper_camel_spec`]; and a text that is already a
/// concatenation of capitalised words, with no two adjacent uppercase
/// letters, splits back into those words and is returned unchanged.
#[verifier::external_body]
pub(crate) fn to_upper_camel(s: &str) -> (r: String)
    ensures
        r@ == upper_camel_of(s@),
        is_wit_ident(s@) ==> r@ == upper_camel_spec(s@),
        is_upper_camel_text(s@) ==> r@ == s@,
{
    s.to_case(convert_case::Case::UpperCamel)
}

/// Relies on convert_case's `Casing::to_case` with `Case::Camel` (as for
/// upper camel, but the first word is lowercased instead of
/// capitalised): the result depends on the characters alone; on a kebab
/// WIT identifier it equals [`camel_spec`]; and a text already in lower
/// camel shape is returned unchanged.
#[verifier::external_body]
pub(crate) fn to_camel(s: &str) -> (r: String)
    ensures
        r@ == camel_of(s@),
        is_wit_ident(s@) ==> r@ == camel_spec(s@),
        is_camel_text(s@) ==> r@ == s@,
{
    s.to_case(convert_case::Case::Camel)
}

} // verus!
