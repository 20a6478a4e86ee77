//! The input files of a run and the order in which they are converted.
//! What is known of each file is handed in; no file is looked at here.

use vstd::prelude::*;
use vstd::utf8::encode_utf8;
use crate::ordering::{
    bytes_before, is_sorted_order, key_before, key_order, key_same, keys_of, numeric_key,
    numeric_key_of, sort_rows, KeyOrder, Row, RowKey,
};
use crate::text::{chars_of, spells, spells_text};

verus! {

/// What is known of an input file when the files are put in order.
#[derive(Clone, Debug, PartialEq, Eq)]
pub struct InputFile {
    /// The path as it was given.
    pub path: String,
    /// The last part of the path, if it has one.
    pub name: Option<String>,
    /// The name without its extension, if there is a name and it is text.
    pub stem: Option<String>,
    /// The size of the file in bytes; 0 where it is not known.
    pub size: u64,
    /// The seconds since the file was last changed, if they are known.
    pub age: Option<u64>,
}

/// By what the input files are put in order.
#[derive(Clone, Copy, Debug, PartialEq, Eq)]
pub enum SortMethod {
    /// By the name of the file.
    Name,
    /// By the number that the digits of its name write.
    Numeric,
    /// By its size, the smallest first.
    Size,
    /// By the time since it was last changed, the latest change first.
    Age,
}

/// The method that a word names, in any mix of cases: `name`, `numeric`,
/// `size`, and `mtime`, `time` or `date` for the age.
pub open spec fn method_named(word: Seq<char>) -> Option<SortMethod> {
    if spells(word, "name"@) {
        Some(SortMethod::Name)
    } else if spells(word, "numeric"@) {
        Some(SortMethod::Numeric)
    } else if spells(word, "size"@) {
        Some(SortMethod::Size)
    } else if spells(word, "mtime"@) || spells(word, "time"@) || spells(word, "date"@) {
        Some(SortMethod::Age)
    } else {
        None
    }
}

/// The method that a word names, if it names one.
pub fn parse_method(word: &str) -> (r: Option<SortMethod>)
    ensures
        r == method_named(word@),
{
    let chars = chars_of(word);
    if spells_text(&chars, "name") {
        Some(SortMethod::Name)
    } else if spells_text(&chars, "numeric") {
        Some(SortMethod::Numeric)
    } else if spells_text(&chars, "size") {
        Some(SortMethod::Size)
    } else if spells_text(&chars, "mtime") || spells_text(&chars, "time") || spells_text(
        &chars,
        "date",
    ) {
        Some(SortMethod::Age)
    } else {
        None
    }
}

/// The key of a file that is ordered by an optional number: files with a
/// number come first, ordered by it; files without one follow, ordered by
/// the text of their paths.
pub open spec fn keyed(number: Option<u64>, path: Seq<char>) -> RowKey {
    match number {
        Some(n) => RowKey { class: 0, number: n as nat, first: Seq::empty(), second: Seq::empty() },
        None => RowKey { class: 1, number: 0, first: encode_utf8(path), second: Seq::empty() },
    }
}

/// Two files that are ordered by an optional number stand as their
/// numbers say: the smaller number first, a number before none, and of two
/// files without a number the one whose path comes first as a text. Files
/// with the same number, or without a number and with the same path, have
/// the same key.
pub proof fn lemma_keyed_files_follow_their_numbers(
    a: Option<u64>,
    path_a: Seq<char>,
    b: Option<u64>,
    path_b: Seq<char>,
)
    ensures
        key_before(keyed(a, path_a), keyed(b, path_b)) <==> match key_order(a, b) {
            KeyOrder::Less => true,
            KeyOrder::Unkeyed => bytes_before(encode_utf8(path_a), encode_utf8(path_b), 0),
            _ => false,
        },
        key_same(keyed(a, path_a), keyed(b, path_b)) <==> match key_order(a, b) {
            KeyOrder::Equal => true,
            KeyOrder::Unkeyed => encode_utf8(path_a) == encode_utf8(path_b),
            _ => false,
        },
{
    let none = Seq::<u8>::empty();
    assert(!bytes_before(none, none, 0));
    crate::ordering::lemma_bytes_order_is_total(encode_utf8(path_a), encode_utf8(path_b), 0);
    if encode_utf8(path_a) == encode_utf8(path_b) {
        assert(crate::ordering::bytes_same(encode_utf8(path_a), encode_utf8(path_b), 0));
    }
}

/// The number that the digits in the stem of a file write, if it has a stem
/// with digits.
pub open spec fn stem_number(file: InputFile) -> Option<u64> {
    match file.stem {
        Some(stem) => numeric_key_of(stem@),
        None => None,
    }
}

/// The key by which a file is ordered under a method. By name: a path
/// without a name first, then the names as texts. By number and by age: see
/// `keyed`. By size: the size alone.
pub open spec fn input_key(method: SortMethod, file: InputFile) -> RowKey {
    match method {
        SortMethod::Name => match file.name {
            Some(name) => RowKey {
                class: 1,
                number: 0,
                first: encode_utf8(name@),
                second: Seq::empty(),
            },
            None => RowKey { class: 0, number: 0, first: Seq::empty(), second: Seq::empty() },
        },
        SortMethod::Numeric => keyed(stem_number(file), file.path@),
        SortMethod::Size => RowKey {
            class: 0,
            number: file.size as nat,
            first: Seq::empty(),
            second: Seq::empty(),
        },
        SortMethod::Age => keyed(file.age, file.path@),
    }
}

/// Whether `order` is the order in which the files are converted, as
/// indices into `files`: sorted by the key of the method that `word` names,
/// files of the same key in the order in which they were given; and just
/// as they were given where `word` names no method.
pub open spec fn is_input_order(word: Seq<char>, files: Seq<InputFile>, order: Seq<usize>) -> bool {
    match method_named(word) {
        Some(method) => is_sorted_order(
            files.map_values(|f: InputFile| input_key(method, f)),
            order,
        ),
        None => order.len() == files.len() && forall|i: int|
            0 <= i < order.len() ==> order[i] == i,
    }
}

/// The row that stands for a file when the files are sorted.
fn input_row(method: SortMethod, file: &InputFile) -> (row: Row)
    ensures
        row@ == input_key(method, *file),
{
    proof {
        assert(encode_utf8(Seq::<char>::empty()) =~= Seq::<u8>::empty()) by {
            reveal_with_fuel(encode_utf8, 1);
        }
    }
    let number: Option<u64> = match method {
        SortMethod::Name => None,
        SortMethod::Numeric => match &file.stem {
            Some(stem) => numeric_key(stem.as_str()),
            None => None,
        },
        SortMethod::Size => Some(file.size),
        SortMethod::Age => file.age,
    };
    match method {
        SortMethod::Name => match &file.name {
            Some(name) => Row {
                class: 1,
                number: 0,
                first: name.clone(),
                second: String::new(),
            },
            None => Row { class: 0, number: 0, first: String::new(), second: String::new() },
        },
        _ => match number {
            Some(n) => Row { class: 0, number: n, first: String::new(), second: String::new() },
            None => Row { class: 1, number: 0, first: file.path.clone(), second: String::new() },
        },
    }
}

/// Puts the input files in order by the method that `word` names, and
/// returns their indices in that order. An unknown word leaves them as they
/// were given.
pub fn sort_inputs(word: &str, files: &Vec<InputFile>) -> (order: Vec<usize>)
    ensures
        is_input_order(word@, files@, order@),
{
    match parse_method(word) {
        Some(method) => {
            let mut rows: Vec<Row> = Vec::new();
            let mut i: usize = 0;
            while i < files.len()
                invariant
                    0 <= i <= files@.len(),
                    rows@.len() == i,
                    forall|j: int|
                        0 <= j < i ==> (#[trigger] rows@[j])@ == input_key(method, files@[j]),
                decreases files@.len() - i,
            {
                rows.push(input_row(method, &files[i]));
                i += 1;
            }
            assert(keys_of(rows@) =~= files@.map_values(|f: InputFile| input_key(method, f)));
            sort_rows(&rows)
        },
        None => {
            let mut order: Vec<usize> = Vec::new();
            let mut i: usize = 0;
            while i < files.len()
                invariant
                    0 <= i <= files@.len(),
                    order@.len() == i,
                    forall|j: int| 0 <= j < i ==> order@[j] == j,
                decreases files@.len() - i,
            {
                order.push(i);
                i += 1;
            }
            order
        },
    }
}

} // verus!
