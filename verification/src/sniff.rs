//! The check that a file is a Nikon RAW image, made on the first bytes of
//! the file before any decoding.

use vstd::prelude::*;
use vstd::slice::slice_subrange;
use vstd::utf8::encode_utf8;
use crate::exif::{exif_entries, exif_listing, listing_of};
use crate::text::{contains_folded, mentions};

verus! {

/// Number of bytes from the start of a file that the check looks at.
pub const SNIFF_WINDOW: usize = 131_072;

/// The bytes of `nikon`.
pub open spec fn maker_token() -> Seq<u8> {
    seq![0x6eu8, 0x69u8, 0x6bu8, 0x6fu8, 0x6eu8]
}

/// Whether the bytes begin like a TIFF file: `II*\0` or `MM\0*`.
pub open spec fn has_tiff_magic(b: Seq<u8>) -> bool {
    &&& b.len() >= 4
    &&& (b[0] == 0x49 && b[1] == 0x49 && b[2] == 0x2a && b[3] == 0x00) || (b[0] == 0x4d && b[1]
        == 0x4d && b[2] == 0x00 && b[3] == 0x2a)
}

/// Whether the value of some entry mentions the maker, in any mix of cases.
pub open spec fn listing_names_maker(entries: Seq<(Seq<char>, Seq<char>)>) -> bool {
    exists|i: int|
        0 <= i < entries.len() && mentions(encode_utf8(#[trigger] entries[i].1), maker_token())
}

/// The verdict on the first bytes of a file and their EXIF entries: the
/// bytes begin like a TIFF file, and the maker is mentioned in the bytes
/// themselves or in the value of an entry.
pub open spec fn verdict(window: Seq<u8>, exif: Option<Seq<(Seq<char>, Seq<char>)>>) -> bool {
    has_tiff_magic(window) && (mentions(window, maker_token()) || match exif {
        Some(entries) => listing_names_maker(entries),
        None => false,
    })
}

/// The part of a file that the check looks at.
pub open spec fn window_of(head: Seq<u8>) -> Seq<u8> {
    if head.len() > SNIFF_WINDOW {
        head.take(SNIFF_WINDOW as int)
    } else {
        head
    }
}

/// Whether a file with these first bytes passes for a Nikon RAW image.
pub open spec fn looks_like_nef(head: Seq<u8>) -> bool {
    verdict(window_of(head), exif_listing(window_of(head)))
}

/// Whether the bytes begin like a TIFF file.
pub fn tiff_magic(b: &[u8]) -> (r: bool)
    ensures
        r == has_tiff_magic(b@),
{
    if b.len() < 4 {
        return false;
    }
    (b[0] == 0x49 && b[1] == 0x49 && b[2] == 0x2a && b[3] == 0x00) || (b[0] == 0x4d && b[1] == 0x4d
        && b[2] == 0x00 && b[3] == 0x2a)
}

/// Whether the value of some entry mentions the maker.
pub fn names_maker(entries: &Vec<(String, String)>) -> (r: bool)
    ensures
        r == listing_names_maker(listing_of(entries@)),
{
    let word: Vec<u8> = vec![0x6eu8, 0x69u8, 0x6bu8, 0x6fu8, 0x6eu8];
    assert(word@ =~= maker_token());
    let ghost listing = listing_of(entries@);
    let mut i: usize = 0;
    while i < entries.len()
        invariant
            0 <= i <= entries@.len(),
            word@ == maker_token(),
            listing == listing_of(entries@),
            forall|j: int|
                0 <= j < i ==> !mentions(encode_utf8(#[trigger] listing[j].1), maker_token()),
        decreases entries@.len() - i,
    {
        let value = entries[i].1.as_str();
        assert(listing[i as int].1 == entries@[i as int].1@);
        if contains_folded(value.as_bytes(), word.as_slice()) {
            return true;
        }
        i += 1;
    }
    false
}

/// Gives the verdict on the first bytes of a file and on what reading their
/// EXIF data gave.
pub fn judge_header(window: &[u8], exif: &Option<Vec<(String, String)>>) -> (r: bool)
    ensures
        r == verdict(
            window@,
            match *exif {
                Some(entries) => Some(listing_of(entries@)),
                None => None,
            },
        ),
{
    if !tiff_magic(window) {
        return false;
    }
    let word: Vec<u8> = vec![0x6eu8, 0x69u8, 0x6bu8, 0x6fu8, 0x6eu8];
    assert(word@ =~= maker_token());
    if contains_folded(window, word.as_slice()) {
        return true;
    }
    match exif {
        Some(entries) => names_maker(entries),
        None => false,
    }
}

/// Whether a file passes for a Nikon RAW image, judged by its first bytes
/// (at most `SNIFF_WINDOW` of them are looked at): they begin like a TIFF
/// file, and the maker is mentioned in them or in a value of their EXIF
/// entries.
pub fn is_nef_file(head: &[u8]) -> (r: bool)
    ensures
        r == looks_like_nef(head@),
{
    let window: &[u8] = if head.len() > SNIFF_WINDOW {
        slice_subrange(head, 0, SNIFF_WINDOW)
    } else {
        head
    };
    assert(window@ =~= window_of(head@));
    if !tiff_magic(window) {
        return false;
    }
    let word: Vec<u8> = vec![0x6eu8, 0x69u8, 0x6bu8, 0x6fu8, 0x6eu8];
    assert(word@ =~= maker_token());
    if contains_folded(window, word.as_slice()) {
        return true;
    }
    match exif_entries(window) {
        Some(entries) => names_maker(&entries),
        None => false,
    }
}

} // verus!
