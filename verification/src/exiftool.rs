//! The external metadata tool: what its version is, what its report
//! holds, and what is said when it cannot be run. Running the tool is the
//! caller's part.

use vstd::prelude::*;
use vstd::string::StringExecFns;
use vstd::utf8::encode_utf8;
use crate::browser::{entry_for, group_of, tag_of, Entry, EntryView};
use crate::native::{install_command, is_command, InstallCommand, InstallHint, Platform};
use crate::ordering::{bytes_before, lemma_bytes_order_is_total};
use crate::progress::string_of;
use crate::text::{chars_of, trim, trimmed};

verus! {

/// How running the tool ended.
#[derive(Clone, Debug, PartialEq, Eq)]
pub enum ToolRun {
    /// The tool ran: whether it reported success, its exit code if it has
    /// one, and what it wrote.
    Exited { success: bool, code: Option<i32>, stdout: String, stderr: String },
    /// The tool could not be started, for this reason.
    NotStarted(String),
}

/// Why the version of the tool is not known.
#[derive(Clone, Debug, PartialEq, Eq)]
pub enum VersionError {
    /// The tool failed: its exit code, -1 if it has none, and what it wrote
    /// to its error stream.
    Failed { code: i32, stderr: String },
    /// The tool could not be started.
    Unavailable(InstallHint),
}

/// Whether `hint` is what is said of a metadata tool that could not be
/// started on `platform` for `reason`.
pub open spec fn is_tool_hint(hint: InstallHint, platform: Platform, reason: Seq<char>) -> bool {
    &&& hint.headline@ == "Failed to execute exiftool:"@
    &&& hint.reason@ == reason
    &&& match platform {
        Platform::Linux => {
            &&& hint.advice@ == "Please install it using your package manager:"@
            &&& hint.commands@.len() == 3
            &&& is_command(hint.commands@[0], true, "apt"@, "install exiftool"@, "Ubuntu/Debian"@)
            &&& is_command(
                hint.commands@[1],
                true,
                "dnf"@,
                "install perl-image-exiftool"@,
                "Fedora"@,
            )
            &&& is_command(hint.commands@[2], true, "pacman"@, "-S exiftool"@, "Arch Linux"@)
        },
        Platform::MacOs => {
            &&& hint.advice@ == "Please install it using Homebrew:"@
            &&& hint.commands@.len() == 1
            &&& is_command(hint.commands@[0], false, "brew"@, "install exiftool"@, ""@)
        },
        _ => {
            &&& hint.advice@ == ""@
            &&& hint.commands@.len() == 0
        },
    }
}

/// What is said when the metadata tool cannot be started: on Linux the
/// commands of three package managers, on macOS the one of Homebrew.
pub fn linux_macos_install_hint(platform: Platform, reason: String) -> (hint: InstallHint)
    ensures
        is_tool_hint(hint, platform, reason@),
{
    let headline = String::from_str("Failed to execute exiftool:");
    match platform {
        Platform::Linux => {
            let mut commands: Vec<InstallCommand> = Vec::new();
            commands.push(install_command(true, "apt", "install exiftool", "Ubuntu/Debian"));
            commands.push(install_command(true, "dnf", "install perl-image-exiftool", "Fedora"));
            commands.push(install_command(true, "pacman", "-S exiftool", "Arch Linux"));
            InstallHint {
                headline,
                reason,
                advice: String::from_str("Please install it using your package manager:"),
                commands,
            }
        },
        Platform::MacOs => {
            let mut commands: Vec<InstallCommand> = Vec::new();
            commands.push(install_command(false, "brew", "install exiftool", ""));
            InstallHint {
                headline,
                reason,
                advice: String::from_str("Please install it using Homebrew:"),
                commands,
            }
        },
        _ => InstallHint { headline, reason, advice: String::from_str(""), commands: Vec::new() },
    }
}

/// The version of the tool that the program brings along on Windows.
pub fn bundled_version() -> (v: &'static str)
    ensures
        v@ == "13.40"@,
{
    "13.40"
}

/// Whether `r` is the answer to the question for the tool's version. On
/// Windows the program brings the tool along and knows its version. On
/// any other platform the tool is asked: what it wrote, without the
/// whitespace around it, is the version if it reported success; else the
/// failure is handed on.
pub open spec fn is_version_answer(
    platform: Platform,
    run: ToolRun,
    r: Result<String, VersionError>,
) -> bool {
    if platform is Windows {
        r matches Ok(v) && v@ == "13.40"@
    } else {
        match run {
            ToolRun::Exited { success, code, stdout, stderr } => if success {
                r matches Ok(v) && v@ == trimmed(stdout@)
            } else {
                r matches Err(VersionError::Failed { code: c, stderr: e }) && e == stderr && c
                    == match code {
                    Some(n) => n,
                    None => -1i32,
                }
            },
            ToolRun::NotStarted(reason) => r matches Err(VersionError::Unavailable(hint))
                && is_tool_hint(hint, platform, reason@),
        }
    }
}

/// The version of the metadata tool, from how running it with `-ver`
/// ended.
pub fn get_exiftool_version(platform: Platform, run: ToolRun) -> (r: Result<String, VersionError>)
    ensures
        is_version_answer(platform, run, r),
{
    match platform {
        Platform::Windows => Ok(String::from_str(bundled_version())),
        _ => match run {
            ToolRun::Exited { success, code, stdout, stderr } => {
                if success {
                    let chars = chars_of(stdout.as_str());
                    Ok(string_of(&trim(&chars)))
                } else {
                    Err(
                        VersionError::Failed {
                            code: match code {
                                Some(n) => n,
                                None => -1,
                            },
                            stderr,
                        },
                    )
                }
            },
            ToolRun::NotStarted(reason) => Err(
                VersionError::Unavailable(linux_macos_install_hint(platform, reason)),
            ),
        },
    }
}

/// The value of a member of a JSON object, as `serde_json` holds it.
#[verifier::external_type_specification]
#[verifier::external_body]
pub struct ExJsonValue(serde_json::Value);

/// A JSON object as `serde_json` holds it: its members by their names.
#[verifier::external_type_specification]
#[verifier::external_body]
#[verifier::reject_recursive_types(K)]
#[verifier::reject_recursive_types(V)]
pub struct ExJsonObject<K, V>(serde_json::Map<K, V>);

/// A JSON object with members of any kind.
pub type JsonObject = serde_json::Map<String, serde_json::Value>;

/// What is known of an object: for the name of each member the text of its
/// value.
pub type Held = Map<Seq<char>, Seq<char>>;

/// What a JSON object holds: for the name of each of its members the text
/// of the member's value, a string as it is and any other value as
/// `serde_json` writes it.
pub uninterp spec fn members_held(object: serde_json::Map<String, serde_json::Value>) -> Map<
    Seq<char>,
    Seq<char>,
>;

/// What `serde_json::from_slice` makes of the tool's report, read as an
/// array of values: for each value that is an object what it holds, nothing
/// for a value that is no object. Where the report is no array, the text of
/// the parser's error.
pub uninterp spec fn json_objects(report: Seq<u8>) -> Result<
    Seq<Option<Map<Seq<char>, Seq<char>>>>,
    Seq<char>,
>;

/// What each of the objects holds.
pub open spec fn held_by(objects: Seq<Option<JsonObject>>) -> Seq<Option<Held>> {
    objects.map_values(
        |o: Option<JsonObject>|
            match o {
                Some(object) => Some(members_held(object)),
                None => None,
            },
    )
}

/// Calls `serde_json::from_slice` on the report for a vector of values, and
/// hands out each value that is an object, through `Value::as_object`. The
/// parser reads nothing but the bytes, so the result is named after them;
/// nothing else is claimed.
#[verifier::external_body]
fn read_objects(report: &[u8]) -> (r: Result<Vec<Option<JsonObject>>, String>)
    ensures
        json_objects(report@) == match r {
            Ok(objects) => Ok::<Seq<Option<Held>>, Seq<char>>(held_by(objects@)),
            Err(why) => Err(why@),
        },
{
    let values: Vec<serde_json::Value> = serde_json::from_slice(report).map_err(|e| e.to_string())?;
    Ok(values.iter().map(|v| v.as_object().cloned()).collect())
}

/// Calls `serde_json::Map::new`: an object without members.
#[verifier::external_body]
fn empty_object() -> (r: JsonObject)
    ensures
        members_held(r) == Held::empty(),
{
    serde_json::Map::new()
}

/// Calls `extend` of `serde_json::Map` with the members of `from`: each is
/// inserted under its name, and takes the place of a member that `into`
/// had under that name. The other members of `into` stay.
#[verifier::external_body]
fn absorb(into: &mut JsonObject, from: &JsonObject)
    ensures
        members_held(*final(into)) == members_held(*old(into)).union_prefer_right(
            members_held(*from),
        ),
{
    into.extend(from.clone())
}

/// Whether `list` lists what an object holds as its map hands the members
/// out: every member once, in the order of the bytes of the names.
pub open spec fn is_listing(held: Held, list: Seq<(Seq<char>, Seq<char>)>) -> bool {
    &&& forall|i: int|
        0 <= i < list.len() ==> held.contains_key(#[trigger] list[i].0) && held[list[i].0]
            == list[i].1
    &&& forall|name: Seq<char>| #[trigger]
        held.contains_key(name) ==> exists|i: int| 0 <= i < list.len() && list[i].0 == name
    &&& forall|i: int, j: int|
        0 <= i < j < list.len() ==> bytes_before(
            encode_utf8(#[trigger] list[i].0),
            encode_utf8(#[trigger] list[j].0),
            0,
        )
}

/// The members of a list as sequences of characters.
pub open spec fn members_of(members: Seq<(String, String)>) -> Seq<(Seq<char>, Seq<char>)> {
    members.map_values(|m: (String, String)| (m.0@, m.1@))
}

/// Calls `serde_json::Map::iter` and hands out each member as its name and
/// the text of its value: a string by its content, any other value through
/// its `to_string`. The map is a `BTreeMap` with strings as keys, which
/// hands out every member once, in the order of the keys; strings are
/// ordered by their bytes.
#[verifier::external_body]
fn list_members(object: &JsonObject) -> (r: Vec<(String, String)>)
    ensures
        is_listing(members_held(*object), members_of(r@)),
{
    let text = |v: &serde_json::Value| match v {
        serde_json::Value::String(s) => s.clone(),
        other => other.to_string(),
    };
    object.iter().map(|(k, v)| (k.clone(), text(v))).collect()
}

/// What the first `upto` objects of a report hold together: for each name
/// the value of the last object that has a member of that name.
pub open spec fn merged(objects: Seq<Option<Held>>, upto: int) -> Held
    decreases upto,
{
    if upto <= 0 {
        Map::empty()
    } else {
        match objects[upto - 1] {
            Some(held) => merged(objects, upto - 1).union_prefer_right(held),
            None => merged(objects, upto - 1),
        }
    }
}

/// Reads the report that the tool writes for a file, an array of objects,
/// and merges the objects into one. Values that are no objects are passed
/// over.
pub fn merge_json_output(report: &[u8]) -> (r: Result<JsonObject, String>)
    ensures
        match json_objects(report@) {
            Ok(objects) => r matches Ok(all) && members_held(all) == merged(
                objects,
                objects.len() as int,
            ),
            Err(why) => r matches Err(text) && text@ == why,
        },
{
    match read_objects(report) {
        Ok(objects) => {
            let ghost held = held_by(objects@);
            let mut all = empty_object();
            let mut i: usize = 0;
            while i < objects.len()
                invariant
                    0 <= i <= objects@.len(),
                    held == held_by(objects@),
                    members_held(all) == merged(held, i as int),
                decreases objects@.len() - i,
            {
                match &objects[i] {
                    Some(object) => {
                        assert(held[i as int] == Some(members_held(*object)));
                        absorb(&mut all, object);
                    },
                    None => {
                        assert(held[i as int] == None::<Held>);
                    },
                }
                i += 1;
            }
            Ok(all)
        },
        Err(why) => Err(why),
    }
}

/// The entry that a member makes: its name parted into group and tag.
pub open spec fn entry_of(member: (Seq<char>, Seq<char>)) -> EntryView {
    EntryView { group: group_of(member.0), tag: tag_of(member.0), value: member.1 }
}

/// Whether `table` is the table of what an object holds: one entry for each
/// member, in the order of the bytes of the members' names.
pub open spec fn is_table_of(held: Held, table: Seq<EntryView>) -> bool {
    exists|list: Seq<(Seq<char>, Seq<char>)>| #[trigger]
        is_listing(held, list) && table == list.map_values(
            |m: (Seq<char>, Seq<char>)| entry_of(m),
        )
}

/// Makes the table of an object: an entry for each of its members.
pub fn parse_exiftool_json(object: &JsonObject) -> (table: Vec<Entry>)
    ensures
        is_table_of(members_held(*object), table@.map_values(|e: Entry| e@)),
{
    let members = list_members(object);
    let mut table: Vec<Entry> = Vec::new();
    let mut k: usize = 0;
    while k < members.len()
        invariant
            0 <= k <= members@.len(),
            table@.len() == k,
            forall|j: int|
                0 <= j < k ==> (#[trigger] table@[j])@ == entry_of(
                    (members@[j].0@, members@[j].1@),
                ),
        decreases members@.len() - k,
    {
        table.push(entry_for(members[k].0.as_str(), members[k].1.clone()));
        k += 1;
    }
    assert(table@.map_values(|e: Entry| e@) =~= members_of(members@).map_values(
        |m: (Seq<char>, Seq<char>)| entry_of(m),
    ));
    assert(is_listing(members_held(*object), members_of(members@)));
    table
}

/// An object has one listing only.
pub proof fn lemma_listing_is_unique(
    held: Held,
    a: Seq<(Seq<char>, Seq<char>)>,
    b: Seq<(Seq<char>, Seq<char>)>,
)
    requires
        is_listing(held, a),
        is_listing(held, b),
    ensures
        a == b,
{
    lemma_listings_agree(held, a, b, a.len() as int);
    lemma_listings_agree(held, b, a, b.len() as int);
    assert(a =~= b);
}

/// Two listings of an object agree at every place of the first: the second
/// is as long, and holds the same member there.
proof fn lemma_listings_agree(
    held: Held,
    a: Seq<(Seq<char>, Seq<char>)>,
    b: Seq<(Seq<char>, Seq<char>)>,
    upto: int,
)
    requires
        is_listing(held, a),
        is_listing(held, b),
        0 <= upto <= a.len(),
    ensures
        upto <= b.len(),
        forall|i: int| 0 <= i < upto ==> a[i] == b[i],
    decreases upto,
{
    if upto > 0 {
        lemma_listings_agree(held, a, b, upto - 1);
        let at = upto - 1;
        let name = a[at].0;
        assert(held.contains_key(name));
        let q = choose|q: int| 0 <= q < b.len() && b[q].0 == name;
        lemma_bytes_order_is_total(encode_utf8(name), encode_utf8(name), 0);
        if q < at {
            // The name stands earlier in both, and once more in the first.
            assert(a[q] == b[q]);
            assert(bytes_before(encode_utf8(a[q].0), encode_utf8(a[at].0), 0));
        } else if q > at {
            // The second has another name at this place, which the first
            // can hold neither before nor behind it.
            let other = b[at].0;
            assert(held.contains_key(other));
            let p = choose|p: int| 0 <= p < a.len() && a[p].0 == other;
            lemma_bytes_order_is_total(encode_utf8(other), encode_utf8(other), 0);
            lemma_bytes_order_is_total(encode_utf8(name), encode_utf8(other), 0);
            assert(bytes_before(encode_utf8(b[at].0), encode_utf8(b[q].0), 0));
            if p < at {
                assert(a[p] == b[p]);
                assert(bytes_before(encode_utf8(b[p].0), encode_utf8(b[at].0), 0));
            } else if p > at {
                assert(bytes_before(encode_utf8(a[at].0), encode_utf8(a[p].0), 0));
            }
        }
        assert(b[at].0 == name);
        assert(a[at].1 == held[name] && b[at].1 == held[name]);
    }
}

/// An object has one table only.
pub proof fn lemma_table_is_unique(held: Held, a: Seq<EntryView>, b: Seq<EntryView>)
    requires
        is_table_of(held, a),
        is_table_of(held, b),
    ensures
        a == b,
{
    let first = choose|list: Seq<(Seq<char>, Seq<char>)>| #[trigger]
        is_listing(held, list) && a == list.map_values(|m: (Seq<char>, Seq<char>)| entry_of(m));
    let second = choose|list: Seq<(Seq<char>, Seq<char>)>| #[trigger]
        is_listing(held, list) && b == list.map_values(|m: (Seq<char>, Seq<char>)| entry_of(m));
    lemma_listing_is_unique(held, first, second);
}

/// A member of the last object of a report stands in the merged object
/// with the value it has there, and a name that the last object lacks
/// keeps what the objects before it gave.
pub proof fn lemma_last_object_wins(objects: Seq<Option<Held>>, name: Seq<char>)
    requires
        objects.len() > 0,
    ensures
        match objects.last() {
            Some(held) => if held.contains_key(name) {
                merged(objects, objects.len() as int).contains_key(name) && merged(
                    objects,
                    objects.len() as int,
                )[name] == held[name]
            } else {
                merged(objects, objects.len() as int).contains_key(name) == merged(
                    objects,
                    objects.len() - 1,
                ).contains_key(name) && (merged(objects, objects.len() - 1).contains_key(name)
                    ==> merged(objects, objects.len() as int)[name] == merged(
                    objects,
                    objects.len() - 1,
                )[name])
            },
            None => merged(objects, objects.len() as int) == merged(objects, objects.len() - 1),
        },
{
}

/// Why the tool gave no table for a file.
#[derive(Debug, PartialEq, Eq)]
pub enum ToolError {
    /// The report of the tool could not be read, for this reason.
    Report(String),
    /// The tool failed: what it wrote to its error stream.
    Failed(String),
    /// The tool could not be started.
    Unavailable(InstallHint),
}

/// How asking the tool for the metadata of a file ended: whether the tool
/// reported success, with what it wrote to its output and to its error
/// stream; or why it could not be started.
pub type ReportRun = Result<(bool, Vec<u8>, String), String>;

/// Whether `r` is the answer to the question for the metadata of a file.
/// Where the tool reported success, the table of its report, or why the
/// report could not be read; where it failed, what it wrote to its error
/// stream; where it could not be started, the hint for the platform.
pub open spec fn is_tool_answer(
    platform: Platform,
    run: ReportRun,
    r: Result<Vec<Entry>, ToolError>,
) -> bool {
    match run {
        Ok((true, report, _)) => match json_objects(report@) {
            Ok(objects) => r matches Ok(table) && is_table_of(
                merged(objects, objects.len() as int),
                table@.map_values(|e: Entry| e@),
            ),
            Err(why) => r matches Err(ToolError::Report(text)) && text@ == why,
        },
        Ok((false, _, stderr)) => r matches Err(ToolError::Failed(text)) && text == stderr,
        Err(reason) => r matches Err(ToolError::Unavailable(hint)) && is_tool_hint(
            hint,
            platform,
            reason@,
        ),
    }
}

/// The metadata of a file, from how running the tool on it ended.
pub fn call_exiftool(platform: Platform, run: ReportRun) -> (r: Result<Vec<Entry>, ToolError>)
    ensures
        is_tool_answer(platform, run, r),
{
    match run {
        Ok((true, report, _)) => match merge_json_output(report.as_slice()) {
            Ok(object) => Ok(parse_exiftool_json(&object)),
            Err(why) => Err(ToolError::Report(why)),
        },
        Ok((false, _, stderr)) => Err(ToolError::Failed(stderr)),
        Err(reason) => Err(ToolError::Unavailable(linux_macos_install_hint(platform, reason))),
    }
}

} // verus!
