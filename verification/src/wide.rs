//! UTF-16 encoding of counter-path text.
//!
//! The native counter subsystem takes nul-terminated wide (UTF-16) strings.
//! [`wide_of`] is the mathematical encoding; [`encode_wide`] produces it at
//! run time through the `widestring` crate, rejecting text with an embedded
//! NUL, which cannot be carried in a nul-terminated string.

use vstd::prelude::*;

verus! {

/// The UTF-16 code units of one character: a single unit for a scalar below
/// 0x10000, otherwise a surrogate pair.
pub open spec fn wide_units_of_char(c: char) -> Seq<u16> {
    let s = c as u32;
    if s < 0x10000 {
        seq![s as u16]
    } else {
        seq![
            (0xD800 + ((s - 0x10000) / 0x400)) as u16,
            (0xDC00 + ((s - 0x10000) % 0x400)) as u16,
        ]
    }
}

/// The UTF-16 code units of a character sequence.
pub open spec fn wide_of(s: Seq<char>) -> Seq<u16>
    decreases s.len(),
{
    if s.len() == 0 {
        Seq::empty()
    } else {
        wide_units_of_char(s[0]) + wide_of(s.drop_first())
    }
}

/// Whether the text holds an embedded NUL character.
pub open spec fn has_nul(s: Seq<char>) -> bool {
    s.contains('\0')
}

pub proof fn lemma_wide_of_concat(a: Seq<char>, b: Seq<char>)
    ensures
        wide_of(a + b) == wide_of(a) + wide_of(b),
    decreases a.len(),
{
    if a.len() == 0 {
        assert(a + b =~= b);
        assert(wide_of(a) + wide_of(b) =~= wide_of(b));
    } else {
        assert((a + b).drop_first() =~= a.drop_first() + b);
        lemma_wide_of_concat(a.drop_first(), b);
        assert((a + b)[0] == a[0]);
        assert(wide_of(a + b) =~= wide_units_of_char(a[0]) + (wide_of(a.drop_first()) + wide_of(
            b,
        )));
        assert(wide_units_of_char(a[0]) + (wide_of(a.drop_first()) + wide_of(b)) =~= (
        wide_units_of_char(a[0]) + wide_of(a.drop_first())) + wide_of(b));
    }
}

pub proof fn lemma_wide_of_singleton(c: char)
    ensures
        wide_of(seq![c]) == wide_units_of_char(c),
{
    let s = seq![c];
    assert(s.len() == 1 && s[0] == c);
    assert(s.drop_first() =~= Seq::<char>::empty());
    assert(wide_of(Seq::<char>::empty()) =~= Seq::<u16>::empty());
    assert(wide_of(s) == wide_units_of_char(c) + wide_of(s.drop_first()));
    assert(wide_units_of_char(c) + Seq::<u16>::empty() =~= wide_units_of_char(c));
}

pub proof fn lemma_wide_of_push(s: Seq<char>, c: char)
    ensures
        wide_of(s.push(c)) == wide_of(s) + wide_units_of_char(c),
{
    assert(s.push(c) =~= s + seq![c]);
    lemma_wide_of_concat(s, seq![c]);
    lemma_wide_of_singleton(c);
}

/// Relies on widestring::U16CString::from_str, which encodes the text as
/// UTF-16 (`str::encode_utf16`) and fails exactly when the text holds an
/// embedded NUL; `into_vec` hands back the code units without a terminator.
#[verifier::external_body]
pub(crate) fn encode_wide(s: &str) -> (r: Option<Vec<u16>>)
    ensures
        match r {
            Some(v) => !has_nul(s@) && v@ == wide_of(s@),
            None => has_nul(s@),
        },
{
    widestring::U16CString::from_str(s).map(|w| w.into_vec()).ok()
}

} // verus!
