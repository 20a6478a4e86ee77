//! Characters and bytes of option strings and file headers: whitespace,
//! ASCII case, trimming and search.

use vstd::prelude::*;
use vstd::std_specs::iter::IteratorSpec;

verus! {

/// The characters of `s`, in order.
pub fn chars_of(s: &str) -> (v: Vec<char>)
    ensures
        v@ == s@,
{
    broadcast use vstd::string::group_string_axioms;

    let mut v: Vec<char> = Vec::new();
    let chars = s.chars();
    for c in it: chars
        invariant
            it.seq() == s@,
            v@ == it.seq().take(it.index() as int),
    {
        v.push(c);
    }
    v
}

/// Whether `c` has the Unicode property White_Space.
pub open spec fn is_white_space(c: char) -> bool {
    let u = c as u32;
    ||| 0x09 <= u <= 0x0d
    ||| u == 0x20
    ||| u == 0x85
    ||| u == 0xa0
    ||| u == 0x1680
    ||| 0x2000 <= u <= 0x200a
    ||| u == 0x2028
    ||| u == 0x2029
    ||| u == 0x202f
    ||| u == 0x205f
    ||| u == 0x3000
}

/// Whether `c` has the Unicode property White_Space.
pub fn white_space(c: char) -> (b: bool)
    ensures
        b == is_white_space(c),
{
    let u: u32 = c as u32;
    (0x09 <= u && u <= 0x0d) || u == 0x20 || u == 0x85 || u == 0xa0 || u == 0x1680 || (0x2000 <= u
        && u <= 0x200a) || u == 0x2028 || u == 0x2029 || u == 0x202f || u == 0x205f || u
        == 0x3000
}

/// Number of whitespace characters in a row from index `from` on.
pub open spec fn space_run(s: Seq<char>, from: int) -> int
    decreases s.len() - from,
{
    if 0 <= from < s.len() && is_white_space(s[from]) {
        1 + space_run(s, from + 1)
    } else {
        0
    }
}

/// Number of whitespace characters in a row up to index `to`, `to` excluded.
pub open spec fn space_run_back(s: Seq<char>, to: int) -> int
    decreases to,
{
    if 0 < to <= s.len() && is_white_space(s[to - 1]) {
        1 + space_run_back(s, to - 1)
    } else {
        0
    }
}

/// `s` without its leading and trailing whitespace.
pub open spec fn trimmed(s: Seq<char>) -> Seq<char> {
    let start = space_run(s, 0);
    let end = s.len() - space_run_back(s, s.len() as int);
    if start >= end {
        Seq::empty()
    } else {
        s.subrange(start, end)
    }
}

/// Removes leading and trailing whitespace.
pub fn trim(v: &Vec<char>) -> (r: Vec<char>)
    ensures
        r@ == trimmed(v@),
{
    let n = v.len();
    let mut start: usize = 0;
    while start < n && white_space(v[start])
        invariant
            n == v@.len(),
            0 <= start <= n,
            space_run(v@, 0) == start + space_run(v@, start as int),
        decreases n - start,
    {
        start += 1;
    }
    let mut end: usize = n;
    while end > 0 && white_space(v[end - 1])
        invariant
            n == v@.len(),
            0 <= end <= n,
            space_run_back(v@, n as int) == (n - end) + space_run_back(v@, end as int),
        decreases end,
    {
        end -= 1;
    }
    let mut r: Vec<char> = Vec::new();
    if start < end {
        let mut i: usize = start;
        while i < end
            invariant
                start <= i <= end <= n,
                n == v@.len(),
                r@ == v@.subrange(start as int, i as int),
            decreases end - i,
        {
            r.push(v[i]);
            i += 1;
        }
    }
    r
}

/// Whether `c` is `letter`, a lower-case ASCII letter, in either case.
pub open spec fn is_letter(c: char, letter: char) -> bool {
    c == letter || (c as u32) + 32 == letter as u32
}

/// Whether `s` spells `word`, a word of lower-case ASCII letters, in any
/// mix of cases.
pub open spec fn spells(s: Seq<char>, word: Seq<char>) -> bool {
    s.len() == word.len() && forall|i: int| 0 <= i < s.len() ==> is_letter(s[i], word[i])
}

/// Whether `v` spells the four-letter word `a b c d` in any mix of cases.
pub fn spells_word(v: &Vec<char>, a: char, b: char, c: char, d: char) -> (r: bool)
    ensures
        r == spells(v@, seq![a, b, c, d]),
{
    let ghost word = seq![a, b, c, d];
    if v.len() != 4 {
        return false;
    }
    let r = same_letter(v[0], a) && same_letter(v[1], b) && same_letter(v[2], c) && same_letter(
        v[3],
        d,
    );
    proof {
        if r {
            assert forall|i: int| 0 <= i < v@.len() implies is_letter(v@[i], word[i]) by {
                if i == 0 {
                } else if i == 1 {
                } else if i == 2 {
                } else {
                }
            }
        } else {
            if !is_letter(v@[0], a) {
                assert(!is_letter(v@[0], word[0]));
            } else if !is_letter(v@[1], b) {
                assert(!is_letter(v@[1], word[1]));
            } else if !is_letter(v@[2], c) {
                assert(!is_letter(v@[2], word[2]));
            } else {
                assert(!is_letter(v@[3], word[3]));
            }
        }
    }
    r
}

/// Whether `v` spells `word`, a word of lower-case ASCII letters, in any
/// mix of cases.
pub fn spells_text(v: &Vec<char>, word: &str) -> (r: bool)
    ensures
        r == spells(v@, word@),
{
    let letters = chars_of(word);
    if v.len() != letters.len() {
        return false;
    }
    let mut i: usize = 0;
    while i < v.len()
        invariant
            v@.len() == letters@.len(),
            letters@ == word@,
            0 <= i <= v@.len(),
            forall|j: int| 0 <= j < i ==> is_letter(v@[j], letters@[j]),
        decreases v@.len() - i,
    {
        if !same_letter(v[i], letters[i]) {
            return false;
        }
        i += 1;
    }
    true
}

/// Whether `c` is `letter` in either case.
pub fn same_letter(c: char, letter: char) -> (r: bool)
    ensures
        r == is_letter(c, letter),
{
    c == letter || (c as u32) + 32 == letter as u32
}

/// The lower-case form of an ASCII capital; any other byte as it is.
pub open spec fn folded(b: u8) -> u8 {
    if 0x41 <= b <= 0x5a {
        (b + 32) as u8
    } else {
        b
    }
}

/// The lower-case form of an ASCII capital; any other byte as it is.
pub fn fold(b: u8) -> (r: u8)
    ensures
        r == folded(b),
{
    if 0x41 <= b && b <= 0x5a {
        b + 32
    } else {
        b
    }
}

/// Whether `word` stands in `hay` at index `at`, capitals in `hay` read as
/// lower case.
pub open spec fn occurs_at(hay: Seq<u8>, word: Seq<u8>, at: int) -> bool {
    &&& 0 <= at
    &&& at + word.len() <= hay.len()
    &&& forall|j: int| 0 <= j < word.len() ==> folded(#[trigger] hay[at + j]) == word[j]
}

/// Whether `word` stands somewhere in `hay`, capitals in `hay` read as lower
/// case.
pub open spec fn mentions(hay: Seq<u8>, word: Seq<u8>) -> bool {
    exists|at: int| occurs_at(hay, word, at)
}

/// Whether `word` stands in `hay` at index `at`.
fn stands_at(hay: &[u8], word: &[u8], at: usize) -> (r: bool)
    requires
        at + word@.len() <= hay@.len(),
    ensures
        r == occurs_at(hay@, word@, at as int),
{
    let n = hay.len();
    let mut j: usize = 0;
    while j < word.len()
        invariant
            0 <= j <= word@.len(),
            at + word@.len() <= hay@.len() == n,
            forall|k: int| 0 <= k < j ==> folded(#[trigger] hay@[at + k]) == word@[k],
        decreases word@.len() - j,
    {
        if fold(hay[at + j]) != word[j] {
            return false;
        }
        j += 1;
    }
    true
}

/// Searches `hay` for `word`, reading capitals in `hay` as lower case.
pub fn contains_folded(hay: &[u8], word: &[u8]) -> (r: bool)
    ensures
        r == mentions(hay@, word@),
{
    if word.len() > hay.len() {
        return false;
    }
    let last: usize = hay.len() - word.len();
    let mut at: usize = 0;
    loop
        invariant
            last == hay@.len() - word@.len(),
            0 <= at <= last,
            forall|k: int| 0 <= k < at ==> !occurs_at(hay@, word@, k),
        decreases last - at,
    {
        if stands_at(hay, word, at) {
            return true;
        }
        if at == last {
            return false;
        }
        at += 1;
    }
}

} // verus!
