//! The rotation option: what it asks for, and what the orientation recorded
//! in a photograph's EXIF data asks for.

use vstd::prelude::*;
use vstd::utf8::encode_utf8;
use crate::exif::{exif_entries, exif_listing, listing_of};
use crate::number::{parse_i32, parse_u32, i32_of, u32_of};
use crate::rotation::{
    rotation_for_degrees, rotation_for_orientation, turn_of_degrees, turn_of_orientation, Rotation,
};
use crate::text::{chars_of, contains_folded, is_white_space, mentions, space_run, white_space};

verus! {

/// What the rotation option asks for.
#[derive(Clone, Copy, Debug, PartialEq, Eq)]
pub enum RotationSpec {
    /// Nothing: the option is missing or says nothing that can be read.
    Absent,
    /// The rotation that the orientation in the file's EXIF data asks for.
    Auto,
    /// A rotation by this many degrees.
    Degrees(i32),
}

/// The characters of `auto`.
pub open spec fn auto_word() -> Seq<char> {
    seq!['a', 'u', 't', 'o']
}

/// What the value of the rotation option asks for: `auto` as it stands, or
/// a whole number of degrees.
pub open spec fn rotation_spec_of(option: Option<String>) -> RotationSpec {
    match option {
        None => RotationSpec::Absent,
        Some(s) => if s@ == auto_word() {
            RotationSpec::Auto
        } else {
            match i32_of(s@) {
                Some(d) => RotationSpec::Degrees(d),
                None => RotationSpec::Absent,
            }
        },
    }
}

/// Reads the rotation option.
pub fn parse_rotation(option: &Option<String>) -> (r: RotationSpec)
    ensures
        r == rotation_spec_of(*option),
{
    match option {
        None => RotationSpec::Absent,
        Some(s) => {
            let chars = chars_of(s.as_str());
            if chars.len() == 4 && chars[0] == 'a' && chars[1] == 'u' && chars[2] == 't'
                && chars[3] == 'o' {
                assert(chars@ =~= auto_word());
                RotationSpec::Auto
            } else {
                assert(chars@ != auto_word()) by {
                    if chars@ == auto_word() {
                        assert(auto_word()[0] == 'a' && auto_word()[1] == 'u' && auto_word()[2]
                            == 't' && auto_word()[3] == 'o');
                    }
                }
                match parse_i32(&chars) {
                    Some(d) => RotationSpec::Degrees(d),
                    None => RotationSpec::Absent,
                }
            }
        },
    }
}

/// The bytes of `orientation`.
pub open spec fn orientation_word() -> Seq<u8> {
    seq![
        0x6fu8,
        0x72u8,
        0x69u8,
        0x65u8,
        0x6eu8,
        0x74u8,
        0x61u8,
        0x74u8,
        0x69u8,
        0x6fu8,
        0x6eu8,
    ]
}

/// Number of characters in a row from index `from` on that are no
/// whitespace.
pub open spec fn word_run(s: Seq<char>, from: int) -> int
    decreases s.len() - from,
{
    if 0 <= from < s.len() && !is_white_space(s[from]) {
        1 + word_run(s, from + 1)
    } else {
        0
    }
}

/// The first run of characters of `s` that are no whitespace; empty where
/// `s` has none.
pub open spec fn first_word(s: Seq<char>) -> Seq<char> {
    let from = space_run(s, 0);
    s.subrange(from, from + word_run(s, from))
}

/// The first run of characters of `v` that are no whitespace.
pub fn first_token(v: &Vec<char>) -> (r: Vec<char>)
    ensures
        r@ == first_word(v@),
{
    let n = v.len();
    let mut from: usize = 0;
    while from < n && white_space(v[from])
        invariant
            n == v@.len(),
            0 <= from <= n,
            space_run(v@, 0) == from + space_run(v@, from as int),
        decreases n - from,
    {
        from += 1;
    }
    let mut r: Vec<char> = Vec::new();
    let mut to: usize = from;
    while to < n && !white_space(v[to])
        invariant
            n == v@.len(),
            from <= to <= n,
            word_run(v@, from as int) == (to - from) + word_run(v@, to as int),
            r@ == v@.subrange(from as int, to as int),
        decreases n - to,
    {
        r.push(v[to]);
        to += 1;
    }
    r
}

/// Index of the first entry at or after `from` whose tag is named
/// `orientation`, in any mix of cases and with anything around the word; the
/// number of entries if there is none.
pub open spec fn first_orientation(entries: Seq<(Seq<char>, Seq<char>)>, from: int) -> int
    decreases entries.len() - from,
{
    if 0 <= from < entries.len() {
        if mentions(encode_utf8(entries[from].0), orientation_word()) {
            from
        } else {
            first_orientation(entries, from + 1)
        }
    } else {
        entries.len() as int
    }
}

/// The rotation that the entries of a file ask for: the first entry whose
/// tag is named `orientation` decides. The first word of its value, read as
/// an unsigned whole number, is the orientation code. Without such an
/// entry, or where its value starts with no such number, nothing is asked.
pub open spec fn turn_of_listing(entries: Seq<(Seq<char>, Seq<char>)>) -> Rotation {
    let i = first_orientation(entries, 0);
    if i < entries.len() {
        match u32_of(first_word(entries[i].1)) {
            Some(code) => turn_of_orientation(code),
            None => Rotation::Keep,
        }
    } else {
        Rotation::Keep
    }
}

/// The rotation that the EXIF data of a file asks for; none where the file
/// has no EXIF data that can be read.
pub open spec fn auto_turn(original: Seq<u8>) -> Rotation {
    match exif_listing(original) {
        Some(entries) => turn_of_listing(entries),
        None => Rotation::Keep,
    }
}

/// The rotation that the entries of a file ask for.
pub fn rotation_from_entries(entries: &Vec<(String, String)>) -> (r: Rotation)
    ensures
        r == turn_of_listing(listing_of(entries@)),
{
    let word: Vec<u8> = vec![
        0x6fu8,
        0x72u8,
        0x69u8,
        0x65u8,
        0x6eu8,
        0x74u8,
        0x61u8,
        0x74u8,
        0x69u8,
        0x6fu8,
        0x6eu8,
    ];
    assert(word@ =~= orientation_word());
    let ghost listing = listing_of(entries@);
    let mut i: usize = 0;
    while i < entries.len()
        invariant
            0 <= i <= entries@.len(),
            word@ == orientation_word(),
            listing == listing_of(entries@),
            first_orientation(listing, 0) == first_orientation(listing, i as int),
        decreases entries@.len() - i,
    {
        let name = entries[i].0.as_str();
        assert(listing[i as int].0 == entries@[i as int].0@);
        assert(listing[i as int].1 == entries@[i as int].1@);
        if contains_folded(name.as_bytes(), word.as_slice()) {
            let value = chars_of(entries[i].1.as_str());
            let token = first_token(&value);
            return match parse_u32(&token) {
                Some(code) => rotation_for_orientation(code),
                None => Rotation::Keep,
            };
        }
        i += 1;
    }
    Rotation::Keep
}

/// The rotation that the EXIF data of the original file asks for.
pub fn auto_rotation(original: &[u8]) -> (r: Rotation)
    ensures
        r == auto_turn(original@),
{
    match exif_entries(original) {
        Some(entries) => rotation_from_entries(&entries),
        None => Rotation::Keep,
    }
}

/// The rotation to apply for a rotation option and the bytes of the
/// original file.
pub open spec fn turn_for(spec: RotationSpec, original: Seq<u8>) -> Rotation {
    match spec {
        RotationSpec::Absent => Rotation::Keep,
        RotationSpec::Auto => auto_turn(original),
        RotationSpec::Degrees(d) => turn_of_degrees(d as int),
    }
}

/// Decides the rotation to apply. The orientation is read from the bytes of
/// the original file, not from the decoded image.
pub fn resolve_rotation(spec: RotationSpec, original: &[u8]) -> (r: Rotation)
    ensures
        r == turn_for(spec, original@),
{
    match spec {
        RotationSpec::Absent => Rotation::Keep,
        RotationSpec::Auto => auto_rotation(original),
        RotationSpec::Degrees(d) => rotation_for_degrees(d),
    }
}

} // verus!
