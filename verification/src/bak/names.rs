//! The names of the backups of a file, and the backups that a list of
//! directory entries holds.

use crate::text::{
    all_digits, chars_eq, decimal, digits_value, from_chars, is_canonical_decimal,
    lemma_canonical_is_decimal, lemma_decimal_value, parse_digits, push_decimal, push_str,
    slice_chars, starts_with, to_chars,
};
use vstd::prelude::*;
use vstd::string::*;

verus! {

/// The place of a backup among the backups of a file: the plain backup
/// `name.bak`, or the numbered backup `name.bak.N`.
#[derive(Clone, Copy, Debug, PartialEq, Eq, Structural)]
pub enum BakSlot {
    Plain,
    Numbered(u64),
}

/// What stands behind the name of a file in the name of its plain backup.
pub open spec fn bak_suffix() -> Seq<char> {
    ".bak"@
}

/// What stands behind the name of a file in front of the number of a
/// numbered backup.
pub open spec fn bak_n_prefix() -> Seq<char> {
    ".bak."@
}

/// The name of the backup of the file `source` at `slot`.
pub open spec fn spec_bak_name(source: Seq<char>, slot: BakSlot) -> Seq<char> {
    match slot {
        BakSlot::Plain => source + bak_suffix(),
        BakSlot::Numbered(n) => source + bak_n_prefix() + decimal(n as nat),
    }
}

/// The number of the numbered backup of `source` that `entry` names: `N`
/// where `entry` is `source`, `.bak.` and the numeral of `N` without sign
/// or leading zeros, `N` below 2^32.
pub open spec fn spec_bak_index(source: Seq<char>, entry: Seq<char>) -> Option<u64> {
    let head = source + bak_n_prefix();
    let tail = entry.skip(head.len() as int);
    if head.is_prefix_of(entry) && is_canonical_decimal(tail) && digits_value(tail) <= u32::MAX {
        Some(digits_value(tail) as u64)
    } else {
        None
    }
}

/// The name of the backup of the file `source_filename` at `slot`.
pub fn bak_file_name(source_filename: &str, slot: BakSlot) -> (r: String)
    ensures
        r@ == spec_bak_name(source_filename@, slot),
{
    let mut out: Vec<char> = Vec::new();
    push_str(&mut out, source_filename);
    match slot {
        BakSlot::Plain => {
            push_str(&mut out, ".bak");
        },
        BakSlot::Numbered(n) => {
            push_str(&mut out, ".bak.");
            push_decimal64(&mut out, n);
        },
    }
    assert(out@ =~= spec_bak_name(source_filename@, slot));
    from_chars(&out)
}

/// Appends the decimal numeral of `n` to `out`.
pub fn push_decimal64(out: &mut Vec<char>, n: u64)
    ensures
        final(out)@ == old(out)@ + decimal(n as nat),
    decreases n,
{
    if n >= 10 {
        push_decimal64(out, n / 10);
    }
    out.push(crate::text::digit_to_char((n % 10) as u8));
    assert(out@ =~= old(out)@ + decimal(n as nat));
}

/// The number of the numbered backup of `source_filename` that `entry`
/// names, if it names one.
pub fn bak_index(source_filename: &str, entry: &str) -> (r: Option<u64>)
    ensures
        r == spec_bak_index(source_filename@, entry@),
{
    let mut head: Vec<char> = Vec::new();
    push_str(&mut head, source_filename);
    push_str(&mut head, ".bak.");
    let chars = to_chars(entry);
    assert(head@ =~= source_filename@ + bak_n_prefix());
    if !starts_with(&chars, &head) {
        return None;
    }
    let from = head.len();
    let ghost tail = chars@.skip(from as int);
    assert(chars@.subrange(from as int, chars@.len() as int) =~= tail);
    if chars.len() == from {
        return None;
    }
    if chars.len() - from > 1 && chars[from] == '0' {
        assert(tail[0] == '0');
        return None;
    }
    assert(tail.len() > 1 ==> tail[0] == chars@[from as int]);
    match parse_digits(&chars, from, chars.len()) {
        Some(n) => Some(n as u64),
        None => None,
    }
}

/// Reading the name of a numbered backup gives its number.
pub proof fn lemma_bak_index_of_name(source: Seq<char>, n: u64)
    requires
        n <= u32::MAX,
    ensures
        spec_bak_index(source, spec_bak_name(source, BakSlot::Numbered(n))) == Some(n),
{
    let head = source + bak_n_prefix();
    let entry = spec_bak_name(source, BakSlot::Numbered(n));
    lemma_decimal_value(n as nat);
    assert(entry.skip(head.len() as int) =~= decimal(n as nat));
    assert(entry.subrange(0, head.len() as int) =~= head);
}

/// A name that is read as a numbered backup is the name of that backup.
pub proof fn lemma_name_of_bak_index(source: Seq<char>, entry: Seq<char>)
    requires
        spec_bak_index(source, entry) is Some,
    ensures
        spec_bak_name(source, BakSlot::Numbered(spec_bak_index(source, entry)->0)) == entry,
        spec_bak_index(source, entry)->0 <= u32::MAX,
{
    let head = source + bak_n_prefix();
    let tail = entry.skip(head.len() as int);
    lemma_canonical_is_decimal(tail);
    assert(entry =~= head + tail);
}

} // verus!
