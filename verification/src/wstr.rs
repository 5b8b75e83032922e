//! Wide-string conversion: text as the UTF-16 code units that the platform
//! interfaces expect.
//!
//! A scalar value below `0x10000` is one code unit; anything above is a
//! surrogate pair.  A borrowed string converts to its bare code units; an
//! owned string gains the terminating zero unit that the foreign interfaces
//! want.

use vstd::prelude::*;

verus! {

/// The UTF-16 code units of one character.
pub open spec fn utf16_units(c: char) -> Seq<u16> {
    let v = c as int;
    if v < 0x10000 {
        seq![v as u16]
    } else {
        seq![
            (0xD800 + (v - 0x10000) / 0x400) as u16,
            (0xDC00 + (v - 0x10000) % 0x400) as u16,
        ]
    }
}

/// The UTF-16 code units of a character sequence, in order.
pub open spec fn utf16_of(s: Seq<char>) -> Seq<u16>
    decreases s.len(),
{
    if s.len() == 0 {
        Seq::empty()
    } else {
        utf16_units(s[0]) + utf16_of(s.drop_first())
    }
}

/// Conversion to a wide (UTF-16) string.
pub trait ToCWStr {
    /// What the conversion yields.
    spec fn wstr_spec(&self) -> Seq<u16>;

    /// The wide form of this text.
    fn to_c_wstr(&self) -> (r: Vec<u16>)
        ensures
            r@ == self.wstr_spec(),
    ;
}

/// Unfolding step for [`utf16_of`] over a growing prefix.
proof fn lemma_utf16_step(s: Seq<char>, i: int)
    requires
        0 <= i < s.len(),
    ensures
        utf16_of(s.skip(i)) == utf16_units(s[i]) + utf16_of(s.skip(i + 1)),
{
    assert(s.skip(i).len() > 0);
    assert(s.skip(i)[0] == s[i]);
    assert(s.skip(i).drop_first() =~= s.skip(i + 1));
}

/// Appends the code units of one character.
fn push_units(out: &mut Vec<u16>, c: char)
    ensures
        final(out)@ == old(out)@ + utf16_units(c),
{
    let v = c as u32;
    if v < 0x10000 {
        out.push(v as u16);
        proof {
            assert(final(out)@ =~= old(out)@ + utf16_units(c));
        }
    } else {
        let rest = v - 0x10000;
        out.push((0xD800 + (rest / 0x400)) as u16);
        out.push((0xDC00 + (rest % 0x400)) as u16);
        proof {
            assert((c as int) < 0x110000);
            assert(final(out)@ =~= old(out)@ + utf16_units(c));
        }
    }
}

/// The code units of a character vector, in order.
fn utf16_vec(v: &Vec<char>) -> (r: Vec<u16>)
    ensures
        r@ == utf16_of(v@),
{
    let mut r: Vec<u16> = Vec::new();
    let mut i: usize = 0;
    proof {
        assert(v@.skip(0) =~= v@);
        assert(r@ + utf16_of(v@) =~= utf16_of(v@));
    }
    while i < v.len()
        invariant
            i <= v@.len(),
            utf16_of(v@) == r@ + utf16_of(v@.skip(i as int)),
        decreases v@.len() - i,
    {
        proof {
            lemma_utf16_step(v@, i as int);
        }
        push_units(&mut r, v[i]);
        i = i + 1;
        proof {
            assert(utf16_of(v@) =~= r@ + utf16_of(v@.skip(i as int)));
        }
    }
    proof {
        assert(v@.skip(v@.len() as int) =~= Seq::<char>::empty());
        assert(utf16_of(v@) =~= r@);
    }
    r
}

/// The wide form of a string with the terminating zero unit, as the
/// window-class and caption arguments of the platform interfaces want it.
pub fn to_wide_chars(s: &str) -> (r: Vec<u16>)
    ensures
        r@ == utf16_of(s@) + seq![0u16],
{
    let chars = crate::text::chars_of(s);
    let mut r = utf16_vec(&chars);
    r.push(0);
    proof {
        assert(r@ =~= utf16_of(s@) + seq![0u16]);
    }
    r
}

impl ToCWStr for str {
    /// A borrowed string converts to its bare code units.
    open spec fn wstr_spec(&self) -> Seq<u16> {
        utf16_of(self@)
    }

    fn to_c_wstr(&self) -> (r: Vec<u16>) {
        let chars = crate::text::chars_of(self);
        utf16_vec(&chars)
    }
}

impl ToCWStr for String {
    /// An owned string converts to its code units with a terminating zero.
    open spec fn wstr_spec(&self) -> Seq<u16> {
        utf16_of(self@) + seq![0u16]
    }

    fn to_c_wstr(&self) -> (r: Vec<u16>) {
        let chars = crate::text::chars_of(self.as_str());
        let mut r = utf16_vec(&chars);
        r.push(0);
        proof {
            assert(r@ =~= utf16_of(self@) + seq![0u16]);
        }
        r
    }
}

} // verus!
