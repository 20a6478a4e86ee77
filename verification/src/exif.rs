//! The EXIF entries of a file, read by the `rexif` crate.

use vstd::prelude::*;

verus! {

/// What `rexif::parse_buffer_quiet` makes of a file's bytes: for each entry,
/// in the order of the parser, the text of its tag and the text of its
/// value; nothing where the parser fails.
pub uninterp spec fn exif_listing(bytes: Seq<u8>) -> Option<Seq<(Seq<char>, Seq<char>)>>;

/// The entries as sequences of characters.
pub open spec fn listing_of(entries: Seq<(String, String)>) -> Seq<(Seq<char>, Seq<char>)> {
    entries.map_values(|e: (String, String)| (e.0@, e.1@))
}

/// Calls `rexif::parse_buffer_quiet` on `bytes` and hands out each entry of
/// the result as the pair of what its tag and its value display; `None`
/// where the parser returns an error. The parser reads nothing but the
/// bytes, so the result is named after them; nothing else is claimed.
#[verifier::external_body]
fn read_exif(bytes: &[u8]) -> (r: Option<Vec<(String, String)>>)
    ensures
        exif_listing(bytes@) == match r {
            Some(entries) => Some(listing_of(entries@)),
            None => None,
        },
{
    let parsed = rexif::parse_buffer_quiet(bytes).0.ok()?;
    Some(parsed.entries.iter().map(|e| (e.tag.to_string(), e.value.to_string())).collect())
}

/// The EXIF entries of a TIFF or JPEG file held in memory, each as the name
/// of its tag and the text of its value; `None` where the bytes hold no
/// EXIF data that can be read.
pub fn exif_entries(bytes: &[u8]) -> (r: Option<Vec<(String, String)>>)
    ensures
        exif_listing(bytes@) == match r {
            Some(entries) => Some(listing_of(entries@)),
            None => None,
        },
{
    read_exif(bytes)
}

} // verus!
