//! Construction of the canonical counter path.
//!
//! The canonical path of a counter follows this grammar, here given at the
//! character level and encoded as UTF-16 by [`path_units`]:
//!
//! ```text
//! "\" Object "\" Counter                                    (no instance)
//! "\" Object "(" Instance ")" "\" Counter                   (instance, no index)
//! "\" Object "(" Parent "/" Instance "#" Index ")" "\" Counter   (full form)
//! ```
//!
//! with a `"\\" Machine` prefix when a machine is named.  The instance
//! segment appears exactly when one of the instance fields is present; the
//! index defaults to 0 when unset, and an index of 0 is not written.
//!
//! The native formatter uses a two-phase protocol: a sizing call states the
//! required buffer length, then a fill call writes a buffer of that length
//! plus one (room for the terminator).  [`pdh_get_counter_path_buff_size`]
//! and [`fill_counter_path`] are the two phases; [`pdh_make_counter_path`]
//! runs both.

use vstd::prelude::*;

use crate::element::PdhCounterPathElement;
use crate::error::ERROR_BAD_ARGUMENTS;
use crate::error::PDH_MORE_DATA;
use crate::error::PdhCollectError;
use crate::wide::encode_wide;
use crate::wide::has_nul;
use crate::wide::lemma_wide_of_concat;
use crate::wide::lemma_wide_of_push;
use crate::wide::lemma_wide_of_singleton;
use crate::wide::wide_of;
use crate::wide::wide_units_of_char;

verus! {

/// Whether the element names an instance in any way, which decides whether
/// the parenthesised instance segment is emitted.
pub open spec fn has_instance_part(e: PdhCounterPathElement) -> bool {
    ||| e.options.instance_name is Some
    ||| e.options.parent_instance is Some
    ||| e.options.instance_index is Some
}

/// The instance index, defaulting to 0 when unset.
pub open spec fn effective_index(e: PdhCounterPathElement) -> u32 {
    match e.options.instance_index {
        Some(i) => i,
        None => 0,
    }
}

/// The decimal digit `d` as a character.
pub open spec fn digit_char(d: int) -> char {
    (48 + d) as char
}

/// The decimal digits of `n`, most significant first.
pub open spec fn dec_chars(n: nat) -> Seq<char>
    decreases n,
{
    if n < 10 {
        seq![digit_char(n as int)]
    } else {
        dec_chars(n / 10).push(digit_char((n % 10) as int))
    }
}

/// The instance segment, empty when no instance field is present.
pub open spec fn instance_part_chars(e: PdhCounterPathElement) -> Seq<char> {
    if has_instance_part(e) {
        seq!['('] + (match e.options.parent_instance {
            Some(p) => p@ + seq!['/'],
            None => Seq::empty(),
        }) + (match e.options.instance_name {
            Some(n) => n@,
            None => Seq::empty(),
        }) + (if effective_index(e) != 0 {
            seq!['#'] + dec_chars(effective_index(e) as nat)
        } else {
            Seq::empty()
        }) + seq![')']
    } else {
        Seq::empty()
    }
}

/// The `\\Machine` prefix, empty when no machine is named.
pub open spec fn machine_prefix_chars(e: PdhCounterPathElement) -> Seq<char> {
    match e.options.machine_name {
        Some(m) => seq!['\\', '\\'] + m@,
        None => Seq::empty(),
    }
}

/// The canonical path of the element, as characters.
pub open spec fn path_chars(e: PdhCounterPathElement) -> Seq<char> {
    machine_prefix_chars(e) + seq!['\\'] + e.object_name@ + instance_part_chars(e) + seq!['\\']
        + e.counter_name@
}

/// The canonical path of the element, as UTF-16 code units (no terminator).
pub open spec fn path_units(e: PdhCounterPathElement) -> Seq<u16> {
    wide_of(path_chars(e))
}

pub open spec fn opt_has_nul(o: Option<String>) -> bool {
    match o {
        Some(s) => has_nul(s@),
        None => false,
    }
}

/// Every present text field is free of embedded NUL: the condition under
/// which the path can be encoded as a nul-terminated wide string.
pub open spec fn element_encodable(e: PdhCounterPathElement) -> bool {
    &&& !has_nul(e.object_name@)
    &&& !has_nul(e.counter_name@)
    &&& !opt_has_nul(e.options.machine_name)
    &&& !opt_has_nul(e.options.parent_instance)
    &&& !opt_has_nul(e.options.instance_name)
}

/// Whether the canonical path can be built at all: every present text field
/// is encodable and the path leaves room for its terminator within the
/// native size type.
pub open spec fn path_buildable(e: PdhCounterPathElement) -> bool {
    element_encodable(e) && path_units(e).len() < u32::MAX
}

/// Appends the wide encoding of `s`, or reports its embedded NUL.
fn append_encoded(buf: &mut Vec<u16>, s: &str) -> (r: Result<(), PdhCollectError>)
    ensures
        match r {
            Ok(()) => !has_nul(s@) && final(buf)@ == old(buf)@ + wide_of(s@),
            Err(err) => {
                &&& has_nul(s@)
                &&& final(buf)@ == old(buf)@
                &&& err == PdhCollectError::WinError(ERROR_BAD_ARGUMENTS)
            },
        },
{
    match encode_wide(s) {
        Some(mut v) => {
            buf.append(&mut v);
            Ok(())
        },
        None => Err(PdhCollectError::WinError(ERROR_BAD_ARGUMENTS)),
    }
}

/// Appends the decimal digits of `n` as wide characters.
fn push_index_digits(buf: &mut Vec<u16>, n: u32)
    ensures
        final(buf)@ == old(buf)@ + wide_of(dec_chars(n as nat)),
    decreases n,
{
    if n >= 10 {
        push_index_digits(buf, n / 10);
    }
    let d: u16 = (n % 10) as u16 + 48;
    buf.push(d);
    proof {
        let dd = (n % 10) as int;
        assert(digit_char(dd) as u32 == 48 + dd);
        assert(wide_units_of_char(digit_char(dd)) =~= seq![d]);
        if n < 10 {
            lemma_wide_of_singleton(digit_char(n as int));
        } else {
            lemma_wide_of_push(dec_chars((n / 10) as nat), digit_char(dd));
            assert(dec_chars(n as nat) == dec_chars((n / 10) as nat).push(digit_char(dd)));
        }
    }
}

/// Appends the single-unit wide character `c`, whose code unit is `u`.
fn push_ascii(buf: &mut Vec<u16>, u: u16, Ghost(c): Ghost<char>)
    requires
        wide_units_of_char(c) == seq![u],
    ensures
        final(buf)@ == old(buf)@ + wide_of(seq![c]),
{
    buf.push(u);
    proof {
        lemma_wide_of_singleton(c);
    }
}

/// Appends the `\\Machine` prefix, nothing when no machine is named.
fn append_machine_prefix(buf: &mut Vec<u16>, e: &PdhCounterPathElement) -> (r: Result<
    (),
    PdhCollectError,
>)
    ensures
        match r {
            Ok(()) => {
                &&& !opt_has_nul(e.options.machine_name)
                &&& final(buf)@ == old(buf)@ + wide_of(machine_prefix_chars(*e))
            },
            Err(err) => {
                &&& opt_has_nul(e.options.machine_name)
                &&& err == PdhCollectError::WinError(ERROR_BAD_ARGUMENTS)
            },
        },
{
    match &e.options.machine_name {
        Some(m) => {
            proof {
                assert(wide_units_of_char('\\') =~= seq![92u16]);
            }
            push_ascii(buf, 92, Ghost('\\'));
            push_ascii(buf, 92, Ghost('\\'));
            match append_encoded(buf, m.as_str()) {
                Ok(()) => {
                    proof {
                        lemma_wide_of_concat(seq!['\\'], seq!['\\']);
                        lemma_wide_of_concat(seq!['\\'] + seq!['\\'], m@);
                        assert(seq!['\\', '\\'] =~= seq!['\\'] + seq!['\\']);
                        assert(final(buf)@ =~= old(buf)@ + wide_of(machine_prefix_chars(*e)));
                    }
                    Ok(())
                },
                Err(err) => Err(err),
            }
        },
        None => {
            proof {
                assert(wide_of(machine_prefix_chars(*e)) =~= Seq::<u16>::empty());
                assert(final(buf)@ =~= old(buf)@ + wide_of(machine_prefix_chars(*e)));
            }
            Ok(())
        },
    }
}

/// Appends the instance segment, nothing when no instance field is present.
#[verifier::rlimit(30)]
fn append_instance_part(buf: &mut Vec<u16>, e: &PdhCounterPathElement) -> (r: Result<
    (),
    PdhCollectError,
>)
    ensures
        match r {
            Ok(()) => {
                &&& !opt_has_nul(e.options.parent_instance)
                &&& !opt_has_nul(e.options.instance_name)
                &&& final(buf)@ == old(buf)@ + wide_of(instance_part_chars(*e))
            },
            Err(err) => {
                &&& opt_has_nul(e.options.parent_instance) || opt_has_nul(
                    e.options.instance_name,
                )
                &&& err == PdhCollectError::WinError(ERROR_BAD_ARGUMENTS)
            },
        },
{
    let emit = e.options.instance_name.is_some() || e.options.parent_instance.is_some()
        || e.options.instance_index.is_some();
    if !emit {
        proof {
            assert(wide_of(instance_part_chars(*e)) =~= Seq::<u16>::empty());
            assert(final(buf)@ =~= old(buf)@ + wide_of(instance_part_chars(*e)));
        }
        return Ok(());
    }
    let ghost mut done: Seq<char> = Seq::empty();
    proof {
        assert(wide_of(done) =~= Seq::<u16>::empty());
        assert(wide_units_of_char('(') =~= seq![40u16]);
    }
    push_ascii(buf, 40, Ghost('('));
    proof {
        lemma_wide_of_concat(done, seq!['(']);
        done = done + seq!['('];
    }
    match &e.options.parent_instance {
        Some(p) => {
            match append_encoded(buf, p.as_str()) {
                Ok(()) => proof {
                    lemma_wide_of_concat(done, p@);
                    done = done + p@;
                },
                Err(err) => {
                    return Err(err);
                },
            }
            proof {
                assert(wide_units_of_char('/') =~= seq![47u16]);
            }
            push_ascii(buf, 47, Ghost('/'));
            proof {
                lemma_wide_of_concat(done, seq!['/']);
                done = done + seq!['/'];
            }
        },
        None => {},
    }
    match &e.options.instance_name {
        Some(n) => {
            match append_encoded(buf, n.as_str()) {
                Ok(()) => proof {
                    lemma_wide_of_concat(done, n@);
                    done = done + n@;
                },
                Err(err) => {
                    return Err(err);
                },
            }
        },
        None => {},
    }
    let index = match &e.options.instance_index {
        Some(i) => *i,
        None => 0,
    };
    if index != 0 {
        proof {
            assert(wide_units_of_char('#') =~= seq![35u16]);
        }
        push_ascii(buf, 35, Ghost('#'));
        push_index_digits(buf, index);
        proof {
            lemma_wide_of_concat(done, seq!['#']);
            lemma_wide_of_concat(done + seq!['#'], dec_chars(index as nat));
            done = done + seq!['#'] + dec_chars(index as nat);
        }
    }
    proof {
        assert(wide_units_of_char(')') =~= seq![41u16]);
    }
    push_ascii(buf, 41, Ghost(')'));
    proof {
        lemma_wide_of_concat(done, seq![')']);
        done = done + seq![')'];
        assert(done =~= instance_part_chars(*e));
    }
    Ok(())
}

/// Builds the wide code units of the canonical path, without a terminator.
#[verifier::rlimit(30)]
fn build_path_units(e: &PdhCounterPathElement) -> (r: Result<Vec<u16>, PdhCollectError>)
    ensures
        match r {
            Ok(v) => element_encodable(*e) && v@ == path_units(*e),
            Err(err) => {
                &&& !element_encodable(*e)
                &&& err == PdhCollectError::WinError(ERROR_BAD_ARGUMENTS)
            },
        },
{
    let mut buf: Vec<u16> = Vec::new();
    append_machine_prefix(&mut buf, e)?;
    proof {
        assert(wide_units_of_char('\\') =~= seq![92u16]);
    }
    push_ascii(&mut buf, 92, Ghost('\\'));
    append_encoded(&mut buf, e.object_name.as_str())?;
    append_instance_part(&mut buf, e)?;
    push_ascii(&mut buf, 92, Ghost('\\'));
    append_encoded(&mut buf, e.counter_name.as_str())?;
    proof {
        let m = machine_prefix_chars(*e);
        let o = e.object_name@;
        let i = instance_part_chars(*e);
        let c = e.counter_name@;
        lemma_wide_of_concat(m, seq!['\\']);
        lemma_wide_of_concat(m + seq!['\\'], o);
        lemma_wide_of_concat(m + seq!['\\'] + o, i);
        lemma_wide_of_concat(m + seq!['\\'] + o + i, seq!['\\']);
        lemma_wide_of_concat(m + seq!['\\'] + o + i + seq!['\\'], c);
        assert(buf@ =~= path_units(*e));
    }
    Ok(buf)
}

/// First phase of the two-phase protocol: the number of wide characters the
/// path needs, not counting the terminator.  The count must leave room for
/// the terminator below the size type's maximum.
pub fn pdh_get_counter_path_buff_size(element: &PdhCounterPathElement) -> (r: Result<
    u32,
    PdhCollectError,
>)
    ensures
        match r {
            Ok(sz) => {
                &&& element_encodable(*element)
                &&& path_units(*element).len() < u32::MAX
                &&& sz == path_units(*element).len()
            },
            Err(err) => if !element_encodable(*element) {
                err == PdhCollectError::WinError(ERROR_BAD_ARGUMENTS)
            } else {
                &&& path_units(*element).len() >= u32::MAX
                &&& err == PdhCollectError::PdhStatus(PDH_MORE_DATA)
            },
        },
{
    let units = build_path_units(element)?;
    if units.len() < u32::MAX as usize {
        Ok(units.len() as u32)
    } else {
        Err(PdhCollectError::PdhStatus(PDH_MORE_DATA))
    }
}

/// Second phase: writes the path and its terminator into the front of the
/// provided buffer.  A buffer without room for both gets the
/// insufficient-buffer sentinel status and stays untouched.
pub fn fill_counter_path(element: &PdhCounterPathElement, buff: &mut Vec<u16>) -> (r: Result<
    (),
    PdhCollectError,
>)
    ensures
        match r {
            Ok(()) => {
                &&& element_encodable(*element)
                &&& old(buff)@.len() > path_units(*element).len()
                &&& final(buff)@ == path_units(*element) + seq![0u16] + old(buff)@.skip(
                    path_units(*element).len() + 1 as int,
                )
            },
            Err(err) => {
                &&& final(buff)@ == old(buff)@
                &&& if !element_encodable(*element) {
                    err == PdhCollectError::WinError(ERROR_BAD_ARGUMENTS)
                } else {
                    &&& old(buff)@.len() <= path_units(*element).len()
                    &&& err == PdhCollectError::PdhStatus(PDH_MORE_DATA)
                }
            },
        },
{
    let units = build_path_units(element)?;
    if buff.len() <= units.len() {
        return Err(PdhCollectError::PdhStatus(PDH_MORE_DATA));
    }
    let mut i: usize = 0;
    while i < units.len()
        invariant
            i <= units@.len() < buff@.len(),
            buff@.len() == old(buff)@.len(),
            buff@ == units@.take(i as int) + old(buff)@.skip(i as int),
        decreases units@.len() - i,
    {
        buff.set(i, units[i]);
        proof {
            assert(buff@ =~= units@.take(i + 1) + old(buff)@.skip(i + 1));
        }
        i = i + 1;
    }
    buff.set(units.len(), 0);
    proof {
        assert(units@.take(units@.len() as int) =~= units@);
        assert(buff@ =~= units@ + seq![0u16] + old(buff)@.skip(units@.len() + 1 as int));
    }
    Ok(())
}

/// Builds the canonical wide path of the element: sizes it, allocates the
/// stated size plus one, and fills it.  The result carries the path's code
/// units followed by the nul terminator.
pub fn pdh_make_counter_path(element: &PdhCounterPathElement) -> (r: Result<
    Vec<u16>,
    PdhCollectError,
>)
    ensures
        match r {
            Ok(v) => {
                &&& element_encodable(*element)
                &&& path_units(*element).len() < u32::MAX
                &&& v@ == path_units(*element).push(0u16)
            },
            Err(err) => if !element_encodable(*element) {
                err == PdhCollectError::WinError(ERROR_BAD_ARGUMENTS)
            } else {
                &&& path_units(*element).len() >= u32::MAX
                &&& err == PdhCollectError::PdhStatus(PDH_MORE_DATA)
            },
        },
{
    let buff_size = pdh_get_counter_path_buff_size(element)?;
    let mut buff: Vec<u16> = Vec::new();
    let mut j: u32 = 0;
    while j < buff_size + 1
        invariant
            buff_size < u32::MAX,
            j <= buff_size + 1,
            buff@ =~= Seq::new(j as nat, |k: int| 0u16),
        decreases buff_size + 1 - j,
    {
        buff.push(0);
        proof {
            assert(buff@ =~= Seq::new((j + 1) as nat, |k: int| 0u16));
        }
        j = j + 1;
    }
    match fill_counter_path(element, &mut buff) {
        Ok(()) => {
            proof {
                assert(buff@ =~= path_units(*element).push(0u16));
            }
            Ok(buff)
        },
        Err(err) => Err(err),
    }
}

} // verus!
