//! Character classes and string utilities for the matching engine.
//!
//! The engine works on sequences of characters.  Three character classes
//! drive the matching strategies: whitespace (delimits words), word
//! characters (letters, digits and underscore, the characters a camel-case
//! fragment may run over), and ASCII capitals (which open the segments of a
//! camel-case query).  Case-insensitive comparison folds the ASCII letters
//! only; other characters always stand for themselves.

use vstd::prelude::*;
use vstd::string::StrSliceExecFns;

verus! {

/// Whitespace for the purposes of word splitting: space, tab, line feed,
/// vertical tab, form feed, carriage return.
pub open spec fn is_ws_char(c: char) -> bool {
    c == ' ' || c == '\t' || c == '\n' || c == '\u{b}' || c == '\u{c}' || c == '\r'
}

/// Word characters: ASCII letters, digits, and underscore.
pub open spec fn is_word_char(c: char) -> bool {
    ('a' <= c && c <= 'z') || ('A' <= c && c <= 'Z') || ('0' <= c && c <= '9') || c == '_'
}

/// ASCII capital letters open the segments of a camel-case query.
pub open spec fn is_upper_char(c: char) -> bool {
    'A' <= c && c <= 'Z'
}

/// Lower-case folding of an ASCII letter; every other character is kept.
pub open spec fn lower_char(c: char) -> char {
    if 'A' <= c && c <= 'Z' {
        ((c as u32) + 32) as char
    } else {
        c
    }
}

/// Upper-case folding of an ASCII letter; every other character is kept.
pub open spec fn upper_char(c: char) -> char {
    if 'a' <= c && c <= 'z' {
        ((c as u32) - 32) as char
    } else {
        c
    }
}

/// A sequence folded to lower case, character by character.
pub open spec fn lower_seq(s: Seq<char>) -> Seq<char> {
    s.map_values(|c: char| lower_char(c))
}

/// A sequence folded to upper case, character by character.
pub open spec fn upper_seq(s: Seq<char>) -> Seq<char> {
    s.map_values(|c: char| upper_char(c))
}

/// A sequence with every whitespace character removed.
pub open spec fn strip_ws(s: Seq<char>) -> Seq<char>
    decreases s.len(),
{
    if s.len() == 0 {
        Seq::empty()
    } else if is_ws_char(s[0]) {
        strip_ws(s.drop_first())
    } else {
        seq![s[0]] + strip_ws(s.drop_first())
    }
}

/// The first characters of the whitespace-delimited words of `s`, in order.
/// `in_word` says whether the character before `s` was part of a word.
pub open spec fn initials_from(s: Seq<char>, in_word: bool) -> Seq<char>
    decreases s.len(),
{
    if s.len() == 0 {
        Seq::empty()
    } else if is_ws_char(s[0]) {
        initials_from(s.drop_first(), false)
    } else if in_word {
        initials_from(s.drop_first(), true)
    } else {
        seq![s[0]] + initials_from(s.drop_first(), true)
    }
}

/// The first characters of the whitespace-delimited words of `s`, in order.
pub open spec fn initials(s: Seq<char>) -> Seq<char> {
    initials_from(s, false)
}

/// Exec test for [`is_ws_char`].
pub fn is_ws(c: char) -> (r: bool)
    ensures
        r == is_ws_char(c),
{
    c == ' ' || c == '\t' || c == '\n' || c == '\u{b}' || c == '\u{c}' || c == '\r'
}

/// Exec test for [`is_word_char`].
pub fn is_word(c: char) -> (r: bool)
    ensures
        r == is_word_char(c),
{
    ('a' <= c && c <= 'z') || ('A' <= c && c <= 'Z') || ('0' <= c && c <= '9') || c == '_'
}

/// Exec test for [`is_upper_char`].
pub fn is_upper(c: char) -> (r: bool)
    ensures
        r == is_upper_char(c),
{
    'A' <= c && c <= 'Z'
}

/// Exec counterpart of [`lower_char`].
pub fn lower(c: char) -> (r: char)
    ensures
        r == lower_char(c),
{
    if 'A' <= c && c <= 'Z' {
        (((c as u32) + 32) as u8) as char
    } else {
        c
    }
}

/// Exec counterpart of [`upper_char`].
pub fn upper(c: char) -> (r: char)
    ensures
        r == upper_char(c),
{
    if 'a' <= c && c <= 'z' {
        (((c as u32) - 32) as u8) as char
    } else {
        c
    }
}

/// The characters of a string slice, as a vector.
pub fn chars_of(s: &str) -> (r: Vec<char>)
    ensures
        r@ == s@,
{
    let n = s.unicode_len();
    let mut r: Vec<char> = Vec::new();
    let mut i: usize = 0;
    while i < n
        invariant
            n == s@.len(),
            i <= n,
            r@ == s@.take(i as int),
        decreases n - i,
    {
        r.push(s.get_char(i));
        i = i + 1;
        proof {
            assert(r@ =~= s@.take(i as int));
        }
    }
    proof {
        assert(s@.take(n as int) =~= s@);
    }
    r
}

/// A vector folded to lower case.
pub fn lower_vec(v: &Vec<char>) -> (r: Vec<char>)
    ensures
        r@ == lower_seq(v@),
{
    let mut r: Vec<char> = Vec::new();
    let mut i: usize = 0;
    while i < v.len()
        invariant
            i <= v@.len(),
            r@ == lower_seq(v@.take(i as int)),
        decreases v@.len() - i,
    {
        r.push(lower(v[i]));
        i = i + 1;
        proof {
            assert(r@ =~= lower_seq(v@.take(i as int)));
        }
    }
    proof {
        assert(v@.take(v@.len() as int) =~= v@);
    }
    r
}

/// A vector folded to upper case.
pub fn upper_vec(v: &Vec<char>) -> (r: Vec<char>)
    ensures
        r@ == upper_seq(v@),
{
    let mut r: Vec<char> = Vec::new();
    let mut i: usize = 0;
    while i < v.len()
        invariant
            i <= v@.len(),
            r@ == upper_seq(v@.take(i as int)),
        decreases v@.len() - i,
    {
        r.push(upper(v[i]));
        i = i + 1;
        proof {
            assert(r@ =~= upper_seq(v@.take(i as int)));
        }
    }
    proof {
        assert(v@.take(v@.len() as int) =~= v@);
    }
    r
}

/// Unfolding step for [`strip_ws`] over a growing prefix.
proof fn lemma_strip_ws_step(s: Seq<char>, i: int)
    requires
        0 <= i < s.len(),
    ensures
        strip_ws(s.skip(i)) == if is_ws_char(s[i]) {
            strip_ws(s.skip(i + 1))
        } else {
            seq![s[i]] + strip_ws(s.skip(i + 1))
        },
{
    assert(s.skip(i).len() > 0);
    assert(s.skip(i)[0] == s[i]);
    assert(s.skip(i).drop_first() =~= s.skip(i + 1));
}

/// A vector with every whitespace character removed.
pub fn strip_ws_vec(v: &Vec<char>) -> (r: Vec<char>)
    ensures
        r@ == strip_ws(v@),
{
    let mut r: Vec<char> = Vec::new();
    let mut i: usize = 0;
    proof {
        assert(v@.skip(0) =~= v@);
        assert(r@ + strip_ws(v@) =~= strip_ws(v@));
    }
    while i < v.len()
        invariant
            i <= v@.len(),
            strip_ws(v@) == r@ + strip_ws(v@.skip(i as int)),
        decreases v@.len() - i,
    {
        proof {
            lemma_strip_ws_step(v@, i as int);
        }
        if !is_ws(v[i]) {
            r.push(v[i]);
            proof {
                assert(strip_ws(v@) =~= r@ + strip_ws(v@.skip(i + 1)));
            }
        }
        i = i + 1;
    }
    proof {
        assert(v@.skip(v@.len() as int) =~= Seq::<char>::empty());
        assert(strip_ws(v@) =~= r@);
    }
    r
}

/// Unfolding step for [`initials_from`] over a growing prefix.
proof fn lemma_initials_step(s: Seq<char>, i: int, in_word: bool)
    requires
        0 <= i < s.len(),
    ensures
        initials_from(s.skip(i), in_word) == if is_ws_char(s[i]) {
            initials_from(s.skip(i + 1), false)
        } else if in_word {
            initials_from(s.skip(i + 1), true)
        } else {
            seq![s[i]] + initials_from(s.skip(i + 1), true)
        },
{
    assert(s.skip(i).len() > 0);
    assert(s.skip(i)[0] == s[i]);
    assert(s.skip(i).drop_first() =~= s.skip(i + 1));
}

/// The first characters of the whitespace-delimited words of `v`, in order.
pub fn initials_vec(v: &Vec<char>) -> (r: Vec<char>)
    ensures
        r@ == initials(v@),
{
    let mut r: Vec<char> = Vec::new();
    let mut in_word = false;
    let mut i: usize = 0;
    proof {
        assert(v@.skip(0) =~= v@);
        assert(r@ + initials_from(v@, false) =~= initials_from(v@, false));
    }
    while i < v.len()
        invariant
            i <= v@.len(),
            initials(v@) == r@ + initials_from(v@.skip(i as int), in_word),
        decreases v@.len() - i,
    {
        proof {
            lemma_initials_step(v@, i as int, in_word);
        }
        if is_ws(v[i]) {
            in_word = false;
        } else {
            if !in_word {
                r.push(v[i]);
                proof {
                    assert(initials(v@) =~= r@ + initials_from(v@.skip(i + 1), true));
                }
            }
            in_word = true;
        }
        i = i + 1;
    }
    proof {
        assert(v@.skip(v@.len() as int) =~= Seq::<char>::empty());
        assert(initials(v@) =~= r@);
    }
    r
}

/// Character-wise equality of two vectors.
pub fn seq_eq(a: &Vec<char>, b: &Vec<char>) -> (r: bool)
    ensures
        r == (a@ == b@),
{
    if a.len() != b.len() {
        return false;
    }
    let mut i: usize = 0;
    while i < a.len()
        invariant
            a@.len() == b@.len(),
            i <= a@.len(),
            forall|k: int| 0 <= k < i ==> a@[k] == b@[k],
        decreases a@.len() - i,
    {
        if a[i] != b[i] {
            return false;
        }
        i = i + 1;
    }
    proof {
        assert(a@ =~= b@);
    }
    true
}

} // verus!
