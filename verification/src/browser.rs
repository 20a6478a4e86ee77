//! The metadata browser without its terminal: the table of entries, which of
//! them are shown for a query and in which order, the window that scrolling
//! shows, and what each key does.

use vstd::prelude::*;
use vstd::utf8::encode_utf8;
use crate::ordering::{is_sorted_order, keys_of, sort_rows, Row, RowKey};
use crate::progress::string_of;
use crate::text::{chars_of, contains_folded, fold, folded, is_white_space, mentions, white_space};

verus! {

/// One line of the table: the group of a tag, the tag, and its value.
#[derive(Clone, Debug, PartialEq, Eq)]
pub struct Entry {
    pub group: String,
    pub tag: String,
    pub value: String,
}

/// An entry as plain values.
pub struct EntryView {
    pub group: Seq<char>,
    pub tag: Seq<char>,
    pub value: Seq<char>,
}

impl View for Entry {
    type V = EntryView;

    open spec fn view(&self) -> EntryView {
        EntryView { group: self.group@, tag: self.tag@, value: self.value@ }
    }
}

/// Index of the first colon at or after `from`; the length of `s` if there
/// is none.
pub open spec fn colon_at(s: Seq<char>, from: int) -> int
    decreases s.len() - from,
{
    if 0 <= from < s.len() {
        if s[from] == ':' {
            from
        } else {
            colon_at(s, from + 1)
        }
    } else {
        s.len() as int
    }
}

/// The group that a key names: what stands before its first colon; nothing
/// for a key without a colon.
pub open spec fn group_of(key: Seq<char>) -> Seq<char> {
    let at = colon_at(key, 0);
    if at < key.len() {
        key.take(at)
    } else {
        Seq::empty()
    }
}

/// The tag that a key names: what stands behind its first colon; the whole
/// key if it has no colon.
pub open spec fn tag_of(key: Seq<char>) -> Seq<char> {
    let at = colon_at(key, 0);
    if at < key.len() {
        key.skip(at + 1)
    } else {
        key
    }
}

/// Parts a key into its group and its tag at the first colon.
pub fn split_key(key: &str) -> (r: (String, String))
    ensures
        r.0@ == group_of(key@),
        r.1@ == tag_of(key@),
{
    let chars = chars_of(key);
    let n = chars.len();
    let mut at: usize = 0;
    while at < n && chars[at] != ':'
        invariant
            n == chars@.len(),
            0 <= at <= n,
            colon_at(chars@, 0) == colon_at(chars@, at as int),
        decreases n - at,
    {
        at += 1;
    }
    if at == n {
        return (String::new(), string_of(&chars));
    }
    let mut group: Vec<char> = Vec::new();
    let mut i: usize = 0;
    while i < at
        invariant
            0 <= i <= at < n,
            n == chars@.len(),
            group@ == chars@.take(i as int),
        decreases at - i,
    {
        group.push(chars[i]);
        assert(chars@.take(i + 1) =~= chars@.take(i as int).push(chars@[i as int]));
        i += 1;
    }
    let mut tag: Vec<char> = Vec::new();
    let mut j: usize = at + 1;
    while j < n
        invariant
            at + 1 <= j <= n,
            n == chars@.len(),
            tag@ == chars@.subrange(at + 1, j as int),
        decreases n - j,
    {
        tag.push(chars[j]);
        assert(chars@.subrange(at + 1, j + 1) =~= chars@.subrange(at + 1, j as int).push(
            chars@[j as int],
        ));
        j += 1;
    }
    assert(chars@.subrange(at + 1, n as int) =~= chars@.skip(at + 1));
    (string_of(&group), string_of(&tag))
}

/// The entry that a key and its value make.
pub fn entry_for(key: &str, value: String) -> (e: Entry)
    ensures
        e.group@ == group_of(key@),
        e.tag@ == tag_of(key@),
        e.value == value,
{
    let (group, tag) = split_key(key);
    Entry { group, tag, value }
}

/// The key by which the table is sorted: the group, then the tag.
pub open spec fn table_key(e: Entry) -> RowKey {
    RowKey { class: 0, number: 0, first: encode_utf8(e.group@), second: encode_utf8(e.tag@) }
}

/// The order of the table: the entries sorted by group, then by tag, as
/// indices into `entries`.
pub fn table_order(entries: &Vec<Entry>) -> (order: Vec<usize>)
    ensures
        is_sorted_order(entries@.map_values(|e: Entry| table_key(e)), order@),
{
    let mut rows: Vec<Row> = Vec::new();
    let mut i: usize = 0;
    while i < entries.len()
        invariant
            0 <= i <= entries@.len(),
            rows@.len() == i,
            forall|j: int| 0 <= j < i ==> (#[trigger] rows@[j])@ == table_key(entries@[j]),
        decreases entries@.len() - i,
    {
        rows.push(
            Row { class: 0, number: 0, first: entries[i].group.clone(), second: entries[i].tag.clone() },
        );
        i += 1;
    }
    assert(keys_of(rows@) =~= entries@.map_values(|e: Entry| table_key(e)));
    sort_rows(&rows)
}

/// The code of a character with ASCII capitals read as lower case.
pub open spec fn fold_code(c: char) -> u32 {
    if 0x41 <= c as u32 <= 0x5a {
        (c as u32 + 32) as u32
    } else {
        c as u32
    }
}

/// Whether two texts are the same but for the case of ASCII letters.
pub open spec fn same_folded(a: Seq<char>, b: Seq<char>) -> bool {
    a.len() == b.len() && forall|i: int| 0 <= i < a.len() ==> fold_code(a[i]) == fold_code(b[i])
}

/// Whether two texts are the same but for the case of ASCII letters.
pub fn equal_folded(a: &Vec<char>, b: &Vec<char>) -> (r: bool)
    ensures
        r == same_folded(a@, b@),
{
    if a.len() != b.len() {
        return false;
    }
    let mut i: usize = 0;
    while i < a.len()
        invariant
            a@.len() == b@.len(),
            0 <= i <= a@.len(),
            forall|j: int| 0 <= j < i ==> fold_code(a@[j]) == fold_code(b@[j]),
        decreases a@.len() - i,
    {
        let x: u32 = a[i] as u32;
        let y: u32 = b[i] as u32;
        let fx: u32 = if 0x41 <= x && x <= 0x5a {
            x + 32
        } else {
            x
        };
        let fy: u32 = if 0x41 <= y && y <= 0x5a {
            y + 32
        } else {
            y
        };
        if fx != fy {
            return false;
        }
        i += 1;
    }
    true
}

/// The full name of an entry: its tag, behind its group and a colon if it
/// has a group.
pub open spec fn full_name(e: Entry) -> Seq<char> {
    if e.group@.len() == 0 {
        e.tag@
    } else {
        e.group@ + seq![':'] + e.tag@
    }
}

/// The names of the entries that are shown first when nothing is searched
/// for, in the order in which they are shown.
pub open spec fn default_names() -> Seq<Seq<char>> {
    seq![
        "IFD0:Model"@,
        "IFD0:Make"@,
        "ExifIFD:SerialNumber"@,
        "ExifIFD:LensModel"@,
        "ExifIFD:FocalLength"@,
        "ExifIFD:FNumber"@,
        "ExifIFD:ExposureTime"@,
        "Composite:ShutterSpeed"@,
        "Nikon:ISO"@,
        "ExifIFD:ExposureCompensation"@,
        "ExifIFD:ExposureMode"@,
        "ExifIFD:MeteringMode"@,
        "Nikon:FocusMode"@,
        "Composite:AutoFocus"@,
        "Nikon:AFAreaMode"@,
        "Nikon:WhiteBalance"@,
        "Nikon:PictureControlName"@,
        "Nikon:Contrast"@,
        "Nikon:Sharpness"@,
        "System:FileCreateDate"@,
        "Composite:ImageSize"@,
    ]
}

/// The groups whose entries are shown next, each sorted by tag.
pub open spec fn favoured_groups() -> Seq<Seq<char>> {
    seq!["nikon"@, "composite"@, "exifidf"@]
}

/// Index of the first of `names` at or after `from` that is `name` but for
/// case; the number of names if there is none.
pub open spec fn position_folded(names: Seq<Seq<char>>, name: Seq<char>, from: int) -> int
    decreases names.len() - from,
{
    if 0 <= from < names.len() {
        if same_folded(name, names[from]) {
            from
        } else {
            position_folded(names, name, from + 1)
        }
    } else {
        names.len() as int
    }
}

/// The class of an entry when nothing is searched for: the place of its
/// name among the default names; behind those the place of its group among
/// the favoured groups; behind those all other entries.
pub open spec fn class_of(e: Entry) -> nat {
    let named = position_folded(default_names(), full_name(e), 0);
    if named < default_names().len() {
        named as nat
    } else {
        let favoured = position_folded(favoured_groups(), e.group@, 0);
        (default_names().len() + favoured) as nat
    }
}

/// The class of the entries that are neither named nor favoured.
pub open spec fn last_class() -> nat {
    default_names().len() + favoured_groups().len()
}

/// The key by which the entries are shown when nothing is searched for:
/// named entries in the order of their names, entries of a favoured group by
/// tag, all others by group and tag.
pub open spec fn view_key(e: Entry) -> RowKey {
    let class = class_of(e);
    RowKey {
        class,
        number: 0,
        first: if class == last_class() {
            encode_utf8(e.group@)
        } else {
            Seq::empty()
        },
        second: if class >= default_names().len() {
            encode_utf8(e.tag@)
        } else {
            Seq::empty()
        },
    }
}

/// Index of the first of `names` that is `name` but for case.
fn find_folded(names: &Vec<Vec<char>>, name: &Vec<char>) -> (r: usize)
    ensures
        r == position_folded(names@.map_values(|n: Vec<char>| n@), name@, 0),
        r <= names@.len(),
{
    let ghost views = names@.map_values(|n: Vec<char>| n@);
    let mut i: usize = 0;
    while i < names.len()
        invariant
            0 <= i <= names@.len(),
            views == names@.map_values(|n: Vec<char>| n@),
            position_folded(views, name@, 0) == position_folded(views, name@, i as int),
        decreases names@.len() - i,
    {
        assert(views[i as int] == names@[i as int]@);
        if equal_folded(name, &names[i]) {
            return i;
        }
        i += 1;
    }
    i
}

/// The default names as characters.
fn default_name_list() -> (v: Vec<Vec<char>>)
    ensures
        v@.map_values(|n: Vec<char>| n@) == default_names(),
{
    let v = vec![
        chars_of("IFD0:Model"),
        chars_of("IFD0:Make"),
        chars_of("ExifIFD:SerialNumber"),
        chars_of("ExifIFD:LensModel"),
        chars_of("ExifIFD:FocalLength"),
        chars_of("ExifIFD:FNumber"),
        chars_of("ExifIFD:ExposureTime"),
        chars_of("Composite:ShutterSpeed"),
        chars_of("Nikon:ISO"),
        chars_of("ExifIFD:ExposureCompensation"),
        chars_of("ExifIFD:ExposureMode"),
        chars_of("ExifIFD:MeteringMode"),
        chars_of("Nikon:FocusMode"),
        chars_of("Composite:AutoFocus"),
        chars_of("Nikon:AFAreaMode"),
        chars_of("Nikon:WhiteBalance"),
        chars_of("Nikon:PictureControlName"),
        chars_of("Nikon:Contrast"),
        chars_of("Nikon:Sharpness"),
        chars_of("System:FileCreateDate"),
        chars_of("Composite:ImageSize"),
    ];
    assert(v@.map_values(|n: Vec<char>| n@) =~= default_names());
    v
}

/// The favoured groups as characters.
fn favoured_group_list() -> (v: Vec<Vec<char>>)
    ensures
        v@.map_values(|n: Vec<char>| n@) == favoured_groups(),
{
    let v = vec![chars_of("nikon"), chars_of("composite"), chars_of("exifidf")];
    assert(v@.map_values(|n: Vec<char>| n@) =~= favoured_groups());
    v
}

/// The row by which an entry is sorted when nothing is searched for.
fn view_row(e: &Entry, names: &Vec<Vec<char>>, groups: &Vec<Vec<char>>) -> (row: Row)
    requires
        names@.map_values(|n: Vec<char>| n@) == default_names(),
        groups@.map_values(|n: Vec<char>| n@) == favoured_groups(),
    ensures
        row@ == view_key(*e),
{
    assert(default_names().len() == 21);
    assert(favoured_groups().len() == 3);
    assert(names@.len() == 21) by {
        assert(names@.map_values(|n: Vec<char>| n@).len() == names@.len());
    }
    assert(groups@.len() == 3) by {
        assert(groups@.map_values(|n: Vec<char>| n@).len() == groups@.len());
    }
    let group = chars_of(e.group.as_str());
    let tag = chars_of(e.tag.as_str());
    let mut full: Vec<char> = Vec::new();
    if group.len() > 0 {
        let mut i: usize = 0;
        while i < group.len()
            invariant
                0 <= i <= group@.len(),
                full@ == group@.take(i as int),
            decreases group@.len() - i,
        {
            full.push(group[i]);
            assert(group@.take(i + 1) =~= group@.take(i as int).push(group@[i as int]));
            i += 1;
        }
        assert(group@.take(group@.len() as int) =~= group@);
        full.push(':');
    }
    let mut j: usize = 0;
    let ghost head = full@;
    while j < tag.len()
        invariant
            0 <= j <= tag@.len(),
            full@ == head + tag@.take(j as int),
        decreases tag@.len() - j,
    {
        full.push(tag[j]);
        assert(tag@.take(j + 1) =~= tag@.take(j as int).push(tag@[j as int]));
        j += 1;
    }
    assert(tag@.take(tag@.len() as int) =~= tag@);
    assert(full@ =~= full_name(*e));
    let named = find_folded(names, &full);
    proof {
        assert(encode_utf8(Seq::<char>::empty()) =~= Seq::<u8>::empty()) by {
            reveal_with_fuel(encode_utf8, 1);
        }
    }
    if named < 21 {
        Row { class: named, number: 0, first: String::new(), second: String::new() }
    } else {
        let favoured = find_folded(groups, &group);
        if favoured < 3 {
            Row { class: 21 + favoured, number: 0, first: String::new(), second: e.tag.clone() }
        } else {
            Row { class: 24, number: 0, first: e.group.clone(), second: e.tag.clone() }
        }
    }
}

/// Whether nothing is searched for: the query holds whitespace only.
pub open spec fn is_blank(query: Seq<char>) -> bool {
    forall|i: int| 0 <= i < query.len() ==> is_white_space(query[i])
}

/// The bytes of a text with ASCII capitals turned to lower case.
pub open spec fn folded_bytes(b: Seq<u8>) -> Seq<u8> {
    b.map_values(|x: u8| folded(x))
}

/// Whether an entry is shown for a query: its tag or its value holds the
/// query, the case of ASCII letters set aside.
pub open spec fn answers_query(e: Entry, query: Seq<char>) -> bool {
    let q = folded_bytes(encode_utf8(query));
    mentions(encode_utf8(e.tag@), q) || mentions(encode_utf8(e.value@), q)
}

/// The indices of the first `upto` entries that are shown for a query, in
/// their order.
pub open spec fn answering(entries: Seq<Entry>, query: Seq<char>, upto: int) -> Seq<usize>
    decreases upto,
{
    if upto <= 0 {
        Seq::empty()
    } else if answers_query(entries[upto - 1], query) {
        answering(entries, query, upto - 1).push((upto - 1) as usize)
    } else {
        answering(entries, query, upto - 1)
    }
}

/// Whether `shown` lists what the browser shows of `entries` for `query`:
/// for a blank query all entries, sorted by their view keys; else the
/// entries that answer the query, in the order of the table.
pub open spec fn is_view(entries: Seq<Entry>, query: Seq<char>, shown: Seq<usize>) -> bool {
    if is_blank(query) {
        is_sorted_order(entries.map_values(|e: Entry| view_key(e)), shown)
    } else {
        shown == answering(entries, query, entries.len() as int)
    }
}

/// Whether a query holds whitespace only.
pub fn blank(query: &str) -> (r: bool)
    ensures
        r == is_blank(query@),
{
    let chars = chars_of(query);
    let mut i: usize = 0;
    while i < chars.len()
        invariant
            chars@ == query@,
            0 <= i <= chars@.len(),
            forall|j: int| 0 <= j < i ==> is_white_space(chars@[j]),
        decreases chars@.len() - i,
    {
        if !white_space(chars[i]) {
            return false;
        }
        i += 1;
    }
    true
}

/// The entries that the browser shows for a query, as indices into the
/// table.
pub fn visible(entries: &Vec<Entry>, query: &str) -> (shown: Vec<usize>)
    ensures
        is_view(entries@, query@, shown@),
{
    if blank(query) {
        let names = default_name_list();
        let groups = favoured_group_list();
        let mut rows: Vec<Row> = Vec::new();
        let mut i: usize = 0;
        while i < entries.len()
            invariant
                names@.map_values(|n: Vec<char>| n@) == default_names(),
                groups@.map_values(|n: Vec<char>| n@) == favoured_groups(),
                0 <= i <= entries@.len(),
                rows@.len() == i,
                forall|j: int| 0 <= j < i ==> (#[trigger] rows@[j])@ == view_key(entries@[j]),
            decreases entries@.len() - i,
        {
            rows.push(view_row(&entries[i], &names, &groups));
            i += 1;
        }
        assert(keys_of(rows@) =~= entries@.map_values(|e: Entry| view_key(e)));
        sort_rows(&rows)
    } else {
        let bytes = query.as_bytes();
        let mut q: Vec<u8> = Vec::new();
        let mut k: usize = 0;
        while k < bytes.len()
            invariant
                0 <= k <= bytes@.len(),
                q@ == folded_bytes(bytes@.take(k as int)),
            decreases bytes@.len() - k,
        {
            q.push(fold(bytes[k]));
            assert(folded_bytes(bytes@.take(k + 1)) =~= folded_bytes(bytes@.take(k as int)).push(
                folded(bytes@[k as int]),
            ));
            k += 1;
        }
        assert(bytes@.take(bytes@.len() as int) =~= bytes@);
        let mut shown: Vec<usize> = Vec::new();
        let mut i: usize = 0;
        while i < entries.len()
            invariant
                0 <= i <= entries@.len(),
                q@ == folded_bytes(encode_utf8(query@)),
                shown@ == answering(entries@, query@, i as int),
            decreases entries@.len() - i,
        {
            let e = &entries[i];
            if contains_folded(e.tag.as_str().as_bytes(), q.as_slice()) || contains_folded(
                e.value.as_str().as_bytes(),
                q.as_slice(),
            ) {
                shown.push(i);
            }
            i += 1;
        }
        shown
    }
}

/// The part of a list of `len` lines that is shown when the list is
/// scrolled down by `offset` lines and `height` lines fit: it starts at the
/// offset, or at the end of the list if the offset is beyond it, and ends
/// where the room or the list ends.
pub open spec fn window_of(offset: int, height: int, len: int) -> (int, int) {
    let start = if offset < len {
        offset
    } else {
        len
    };
    let end = if start + height < len {
        start + height
    } else {
        len
    };
    (start, end)
}

/// The part of the list that is shown.
pub fn window(offset: usize, height: usize, len: usize) -> (r: (usize, usize))
    ensures
        (r.0 as int, r.1 as int) == window_of(offset as int, height as int, len as int),
        r.0 <= r.1 <= len,
{
    let start = if offset < len {
        offset
    } else {
        len
    };
    let end = if height < len - start {
        start + height
    } else {
        len
    };
    (start, end)
}

/// Number of colours that groups are shown in.
pub const PALETTE_SIZE: usize = 6;

/// Index of the first of `groups` at or after `from` that is `group`; the
/// number of groups if there is none.
pub open spec fn place_of(groups: Seq<Seq<char>>, group: Seq<char>, from: int) -> int
    decreases groups.len() - from,
{
    if 0 <= from < groups.len() {
        if groups[from] == group {
            from
        } else {
            place_of(groups, group, from + 1)
        }
    } else {
        groups.len() as int
    }
}

/// The groups of the first `upto` entries, each once, in the order in which
/// they come first.
pub open spec fn groups_seen(entries: Seq<Entry>, upto: int) -> Seq<Seq<char>>
    decreases upto,
{
    if upto <= 0 {
        Seq::empty()
    } else {
        let before = groups_seen(entries, upto - 1);
        let group = entries[upto - 1].group@;
        if place_of(before, group, 0) < before.len() {
            before
        } else {
            before.push(group)
        }
    }
}

/// The colour in which entry `i` is shown, as an index into the palette:
/// the groups take the colours in the order in which they come first, and
/// start again with the first colour when all are taken.
pub open spec fn slot_of(entries: Seq<Entry>, i: int) -> int {
    place_of(groups_seen(entries, entries.len() as int), entries[i].group@, 0) % (
    PALETTE_SIZE as int)
}

/// A search for a group ends at the group or behind the last group.
pub proof fn lemma_place_of(groups: Seq<Seq<char>>, group: Seq<char>, from: int)
    requires
        0 <= from <= groups.len(),
    ensures
        from <= place_of(groups, group, from) <= groups.len(),
        place_of(groups, group, from) < groups.len() ==> groups[place_of(groups, group, from)]
            == group,
        forall|i: int| from <= i < place_of(groups, group, from) ==> groups[i] != group,
    decreases groups.len() - from,
{
    if from < groups.len() && groups[from] != group {
        lemma_place_of(groups, group, from + 1);
    }
}

/// A group that is found keeps its place when another group is added.
pub proof fn lemma_place_is_kept(groups: Seq<Seq<char>>, group: Seq<char>, added: Seq<char>, from: int)
    requires
        0 <= from <= groups.len(),
        place_of(groups, group, from) < groups.len(),
    ensures
        place_of(groups.push(added), group, from) == place_of(groups, group, from),
    decreases groups.len() - from,
{
    if from < groups.len() && groups[from] != group {
        lemma_place_is_kept(groups, group, added, from + 1);
    }
}

/// A group that is added where it was not found stands at the end.
pub proof fn lemma_place_of_added(groups: Seq<Seq<char>>, group: Seq<char>, from: int)
    requires
        0 <= from <= groups.len(),
        place_of(groups, group, from) == groups.len(),
    ensures
        place_of(groups.push(group), group, from) == groups.len(),
    decreases groups.len() - from,
{
    if from < groups.len() {
        lemma_place_of_added(groups, group, from + 1);
    }
}

/// The colours of the entries, as indices into the palette.
pub fn color_slots(entries: &Vec<Entry>) -> (slots: Vec<usize>)
    ensures
        slots@.len() == entries@.len(),
        forall|i: int| 0 <= i < slots@.len() ==> #[trigger] slots@[i] == slot_of(entries@, i),
{
    let mut seen: Vec<String> = Vec::new();
    let mut places: Vec<usize> = Vec::new();
    let mut i: usize = 0;
    while i < entries.len()
        invariant
            0 <= i <= entries@.len(),
            places@.len() == i,
            seen@.map_values(|g: String| g@) == groups_seen(entries@, i as int),
            forall|j: int|
                0 <= j < i ==> #[trigger] places@[j] == place_of(
                    groups_seen(entries@, i as int),
                    entries@[j].group@,
                    0,
                ) && places@[j] < seen@.len(),
        decreases entries@.len() - i,
    {
        let ghost before = groups_seen(entries@, i as int);
        let ghost group = entries@[i as int].group@;
        let mut at: usize = 0;
        while at < seen.len() && !(seen[at] == entries[i].group)
            invariant
                0 <= at <= seen@.len(),
                i < entries@.len(),
                group == entries@[i as int].group@,
                before == seen@.map_values(|g: String| g@),
                place_of(before, group, 0) == place_of(before, group, at as int),
            decreases seen@.len() - at,
        {
            assert(before[at as int] == seen@[at as int]@);
            at += 1;
        }
        proof {
            if at < seen@.len() {
                assert(before[at as int] == seen@[at as int]@);
            }
            lemma_place_of(before, group, 0);
        }
        if at == seen.len() {
            proof {
                lemma_place_of_added(before, group, 0);
                assert forall|j: int| 0 <= j < i implies place_of(
                    before.push(group),
                    entries@[j].group@,
                    0,
                ) == #[trigger] places@[j] by {
                    assert(places@[j] < seen@.len());
                    lemma_place_is_kept(before, entries@[j].group@, group, 0);
                }
            }
            seen.push(entries[i].group.clone());
            assert(seen@.map_values(|g: String| g@) =~= before.push(group));
        }
        places.push(at);
        i += 1;
    }
    let mut slots: Vec<usize> = Vec::new();
    let mut k: usize = 0;
    while k < places.len()
        invariant
            0 <= k <= places@.len(),
            places@.len() == entries@.len(),
            slots@.len() == k,
            forall|j: int|
                0 <= j < places@.len() ==> #[trigger] places@[j] == place_of(
                    groups_seen(entries@, entries@.len() as int),
                    entries@[j].group@,
                    0,
                ),
            forall|j: int| 0 <= j < k ==> #[trigger] slots@[j] == slot_of(entries@, j),
        decreases places@.len() - k,
    {
        slots.push(places[k] % PALETTE_SIZE);
        k += 1;
    }
    slots
}

/// A key of the keyboard as the browser reads it.
#[derive(Clone, Copy, Debug, PartialEq, Eq)]
pub enum Key {
    /// A character is typed.
    Char(char),
    Backspace,
    Delete,
    Up,
    Down,
    Escape,
    /// Control and `c`.
    Interrupt,
    /// Any other key.
    Other,
}

/// Milliseconds within which the same key counts once.
pub const BOUNCE_MS: u64 = 40;

/// The state of the browser between two keys.
#[derive(Clone, Debug, PartialEq, Eq)]
pub struct Browser {
    /// What is searched for.
    pub query: String,
    /// Number of lines that the table is scrolled down by.
    pub offset: usize,
    /// The last key that changed the query, and when it came, in
    /// milliseconds.
    pub last: Option<(Key, u64)>,
}

/// The browser as plain values.
pub struct BrowserView {
    pub query: Seq<char>,
    pub offset: nat,
    pub last: Option<(Key, u64)>,
}

impl View for Browser {
    type V = BrowserView;

    open spec fn view(&self) -> BrowserView {
        BrowserView { query: self.query@, offset: self.offset as nat, last: self.last }
    }
}

/// Whether a key that edits the query counts: not if the same key came
/// less than `BOUNCE_MS` milliseconds before.
pub open spec fn counts(last: Option<(Key, u64)>, key: Key, now_ms: u64) -> bool {
    match last {
        Some((before, at)) => !(before == key && (if now_ms >= at {
            now_ms - at
        } else {
            0
        }) < BOUNCE_MS),
        None => true,
    }
}

impl BrowserView {
    /// Whether the key ends the browser.
    pub open spec fn ends(self, key: Key) -> bool {
        key is Escape || key is Interrupt
    }

    /// The browser after a key. A character is added to the query,
    /// backspace takes the last one away, delete empties the query; each of
    /// these scrolls back to the top, and none counts twice within the
    /// bounce time. Up and down scroll by one line.
    pub open spec fn after(self, key: Key, now_ms: u64) -> BrowserView {
        match key {
            Key::Char(c) => if counts(self.last, key, now_ms) {
                BrowserView { query: self.query.push(c), offset: 0, last: Some((key, now_ms)) }
            } else {
                self
            },
            Key::Backspace => if counts(self.last, key, now_ms) {
                BrowserView {
                    query: if self.query.len() > 0 {
                        self.query.drop_last()
                    } else {
                        self.query
                    },
                    offset: 0,
                    last: Some((key, now_ms)),
                }
            } else {
                self
            },
            Key::Delete => if counts(self.last, key, now_ms) {
                BrowserView { query: Seq::empty(), offset: 0, last: Some((key, now_ms)) }
            } else {
                self
            },
            Key::Up => BrowserView {
                offset: if self.offset > 0 {
                    (self.offset - 1) as nat
                } else {
                    0
                },
                ..self
            },
            Key::Down => BrowserView {
                offset: if self.offset < usize::MAX {
                    self.offset + 1
                } else {
                    self.offset
                },
                ..self
            },
            _ => self,
        }
    }
}

/// Whether two keys are the same.
fn same_key(a: Key, b: Key) -> (r: bool)
    ensures
        r == (a == b),
{
    match (a, b) {
        (Key::Char(x), Key::Char(y)) => x == y,
        (Key::Backspace, Key::Backspace) => true,
        (Key::Delete, Key::Delete) => true,
        (Key::Up, Key::Up) => true,
        (Key::Down, Key::Down) => true,
        (Key::Escape, Key::Escape) => true,
        (Key::Interrupt, Key::Interrupt) => true,
        (Key::Other, Key::Other) => true,
        _ => false,
    }
}

impl Browser {
    /// A browser with an empty query at the top of the table.
    pub fn new() -> (b: Browser)
        ensures
            b@ == (BrowserView { query: Seq::empty(), offset: 0, last: None }),
    {
        Browser { query: String::new(), offset: 0, last: None }
    }

    /// Whether a key that edits the query counts now.
    pub fn accepts(&self, key: Key, now_ms: u64) -> (r: bool)
        ensures
            r == counts(self.last, key, now_ms),
    {
        match self.last {
            Some((before, at)) => {
                let elapsed: u64 = if now_ms >= at {
                    now_ms - at
                } else {
                    0
                };
                !(same_key(before, key) && elapsed < BOUNCE_MS)
            },
            None => true,
        }
    }

    /// Takes a key that came at `now_ms` milliseconds. Returns whether the
    /// browser goes on: escape and the interrupt end it.
    pub fn press(&mut self, key: Key, now_ms: u64) -> (goes_on: bool)
        ensures
            goes_on == !old(self)@.ends(key),
            final(self)@ == old(self)@.after(key, now_ms),
    {
        match key {
            Key::Escape => false,
            Key::Interrupt => false,
            Key::Char(c) => {
                if self.accepts(key, now_ms) {
                    self.query.push(c);
                    self.offset = 0;
                    self.last = Some((key, now_ms));
                }
                true
            },
            Key::Backspace => {
                if self.accepts(key, now_ms) {
                    let chars = chars_of(self.query.as_str());
                    if chars.len() > 0 {
                        let mut kept = chars;
                        kept.pop();
                        self.query = string_of(&kept);
                    }
                    self.offset = 0;
                    self.last = Some((key, now_ms));
                }
                true
            },
            Key::Delete => {
                if self.accepts(key, now_ms) {
                    self.query = String::new();
                    self.offset = 0;
                    self.last = Some((key, now_ms));
                }
                true
            },
            Key::Up => {
                if self.offset > 0 {
                    self.offset = self.offset - 1;
                }
                true
            },
            Key::Down => {
                if self.offset < usize::MAX {
                    self.offset = self.offset + 1;
                }
                true
            },
            Key::Other => true,
        }
    }
}

} // verus!
