//! The native decoding library as the rest of the program sees it: where it
//! is looked for, which entry points it must have, what is said when it
//! cannot be loaded, and the handle that remembers the one attempt to load
//! it.

use vstd::prelude::*;
use vstd::string::StringExecFns;
use crate::session::Action;

verus! {

/// The kind of system that the program runs on.
#[derive(Clone, Copy, Debug, PartialEq, Eq)]
pub enum Platform {
    Windows,
    Linux,
    MacOs,
    Other,
}

/// One command that installs what is missing.
#[derive(Clone, Debug, PartialEq, Eq)]
pub struct InstallCommand {
    /// Whether the command is run with `sudo`.
    pub sudo: bool,
    /// The package manager.
    pub manager: String,
    /// What the package manager is told.
    pub arguments: String,
    /// The systems that the command is for.
    pub note: String,
}

/// What to tell the user when a tool or a library is missing.
#[derive(Clone, Debug, PartialEq, Eq)]
pub struct InstallHint {
    /// What failed.
    pub headline: String,
    /// The failure as the system reported it.
    pub reason: String,
    /// What to do about it; empty where there is no advice.
    pub advice: String,
    /// The commands that the advice speaks of.
    pub commands: Vec<InstallCommand>,
}

/// Why the native library cannot be used.
#[derive(Clone, Debug, PartialEq, Eq)]
pub enum LoadError {
    /// The library could not be loaded.
    Library(InstallHint),
    /// The library lacks an entry point: its name and the loader's reason.
    Symbol(EntryPoint, String),
}

/// An entry point of the native library.
#[derive(Clone, Copy, Debug, PartialEq, Eq)]
pub enum EntryPoint {
    Init,
    OpenBuffer,
    Unpack,
    DcrawProcess,
    DcrawMakeMemImage,
    DcrawClearMem,
    Close,
    Strerror,
    SetOutputBps,
    SetOutputColor,
    SetNoAutoBright,
}

/// Number of entry points that the program needs.
pub const ENTRY_POINTS: usize = 11;

/// The entry points in the order in which they are looked up.
pub open spec fn required() -> Seq<EntryPoint> {
    seq![
        EntryPoint::Init,
        EntryPoint::OpenBuffer,
        EntryPoint::Unpack,
        EntryPoint::DcrawProcess,
        EntryPoint::DcrawMakeMemImage,
        EntryPoint::DcrawClearMem,
        EntryPoint::Close,
        EntryPoint::Strerror,
        EntryPoint::SetOutputBps,
        EntryPoint::SetOutputColor,
        EntryPoint::SetNoAutoBright,
    ]
}

/// The name under which an entry point is exported.
pub open spec fn symbol_text(entry: EntryPoint) -> Seq<char> {
    match entry {
        EntryPoint::Init => "libraw_init"@,
        EntryPoint::OpenBuffer => "libraw_open_buffer"@,
        EntryPoint::Unpack => "libraw_unpack"@,
        EntryPoint::DcrawProcess => "libraw_dcraw_process"@,
        EntryPoint::DcrawMakeMemImage => "libraw_dcraw_make_mem_image"@,
        EntryPoint::DcrawClearMem => "libraw_dcraw_clear_mem"@,
        EntryPoint::Close => "libraw_close"@,
        EntryPoint::Strerror => "libraw_strerror"@,
        EntryPoint::SetOutputBps => "libraw_set_output_bps"@,
        EntryPoint::SetOutputColor => "libraw_set_output_color"@,
        EntryPoint::SetNoAutoBright => "libraw_set_no_auto_bright"@,
    }
}

/// The name under which an entry point is exported.
pub fn symbol_name(entry: EntryPoint) -> (name: &'static str)
    ensures
        name@ == symbol_text(entry),
{
    match entry {
        EntryPoint::Init => "libraw_init",
        EntryPoint::OpenBuffer => "libraw_open_buffer",
        EntryPoint::Unpack => "libraw_unpack",
        EntryPoint::DcrawProcess => "libraw_dcraw_process",
        EntryPoint::DcrawMakeMemImage => "libraw_dcraw_make_mem_image",
        EntryPoint::DcrawClearMem => "libraw_dcraw_clear_mem",
        EntryPoint::Close => "libraw_close",
        EntryPoint::Strerror => "libraw_strerror",
        EntryPoint::SetOutputBps => "libraw_set_output_bps",
        EntryPoint::SetOutputColor => "libraw_set_output_color",
        EntryPoint::SetNoAutoBright => "libraw_set_no_auto_bright",
    }
}

/// The entry point that a call of a decoder session goes to; none for the
/// copying of bytes and for the end of the session, which call nothing.
pub open spec fn entry_of(action: Action) -> Option<EntryPoint> {
    match action {
        Action::Init => Some(EntryPoint::Init),
        Action::OpenBuffer => Some(EntryPoint::OpenBuffer),
        Action::Unpack => Some(EntryPoint::Unpack),
        Action::SetOutputBps(_) => Some(EntryPoint::SetOutputBps),
        Action::SetOutputColor(_) => Some(EntryPoint::SetOutputColor),
        Action::SetNoAutoBright(_) => Some(EntryPoint::SetNoAutoBright),
        Action::MakeMemImage => Some(EntryPoint::DcrawMakeMemImage),
        Action::ErrorText(_) => Some(EntryPoint::Strerror),
        Action::Process => Some(EntryPoint::DcrawProcess),
        Action::CopyBytes(_) => None,
        Action::FreeImage => Some(EntryPoint::DcrawClearMem),
        Action::Close => Some(EntryPoint::Close),
        Action::Finish => None,
    }
}

/// The entry point that a call of a decoder session goes to.
pub fn entry_point_for(action: Action) -> (r: Option<EntryPoint>)
    ensures
        r == entry_of(action),
{
    match action {
        Action::Init => Some(EntryPoint::Init),
        Action::OpenBuffer => Some(EntryPoint::OpenBuffer),
        Action::Unpack => Some(EntryPoint::Unpack),
        Action::SetOutputBps(_) => Some(EntryPoint::SetOutputBps),
        Action::SetOutputColor(_) => Some(EntryPoint::SetOutputColor),
        Action::SetNoAutoBright(_) => Some(EntryPoint::SetNoAutoBright),
        Action::MakeMemImage => Some(EntryPoint::DcrawMakeMemImage),
        Action::ErrorText(_) => Some(EntryPoint::Strerror),
        Action::Process => Some(EntryPoint::DcrawProcess),
        Action::CopyBytes(_) => None,
        Action::FreeImage => Some(EntryPoint::DcrawClearMem),
        Action::Close => Some(EntryPoint::Close),
        Action::Finish => None,
    }
}

/// The entry points of the native library, all of them resolved.
#[derive(Clone, Debug, PartialEq, Eq)]
pub struct LibRawApi {
    pub entry_points: Vec<EntryPoint>,
}

impl LibRawApi {
    /// All the entry points are there, in their order.
    pub open spec fn wf(&self) -> bool {
        self.entry_points@ == required()
    }

    /// The entry points that the program needs, in the order in which they
    /// are looked up.
    pub fn required_entry_points() -> (v: Vec<EntryPoint>)
        ensures
            v@ == required(),
    {
        let v = vec![
            EntryPoint::Init,
            EntryPoint::OpenBuffer,
            EntryPoint::Unpack,
            EntryPoint::DcrawProcess,
            EntryPoint::DcrawMakeMemImage,
            EntryPoint::DcrawClearMem,
            EntryPoint::Close,
            EntryPoint::Strerror,
            EntryPoint::SetOutputBps,
            EntryPoint::SetOutputColor,
            EntryPoint::SetNoAutoBright,
        ];
        assert(v@ =~= required());
        v
    }
}

/// The name of the file that holds the native library: the system's
/// library on Linux and macOS, the library that the program brings along on
/// Windows, and elsewhere the configured path or, without one, the name
/// used on Linux.
pub open spec fn library_file(platform: Platform, configured: Option<String>) -> Seq<char> {
    match platform {
        Platform::Windows => "libraw_c.dll"@,
        Platform::Linux => "libraw.so"@,
        Platform::MacOs => "libraw.dylib"@,
        Platform::Other => match configured {
            Some(path) => path@,
            None => "libraw.so"@,
        },
    }
}

/// Name of the directory under the system's directory for temporary files
/// in which the library that the program brings along is put on Windows.
pub fn staging_directory() -> (name: &'static str)
    ensures
        name@ == "fempeg_libraw"@,
{
    "fempeg_libraw"
}

/// The name of the file that holds the native library.
pub fn init_libraw(platform: Platform, configured: Option<String>) -> (path: String)
    ensures
        path@ == library_file(platform, configured),
{
    match platform {
        Platform::Windows => String::from_str("libraw_c.dll"),
        Platform::Linux => String::from_str("libraw.so"),
        Platform::MacOs => String::from_str("libraw.dylib"),
        Platform::Other => match configured {
            Some(path) => path,
            None => String::from_str("libraw.so"),
        },
    }
}

/// An install command from its parts.
pub fn install_command(sudo: bool, manager: &str, arguments: &str, note: &str) -> (c:
    InstallCommand)
    ensures
        c.sudo == sudo,
        c.manager@ == manager@,
        c.arguments@ == arguments@,
        c.note@ == note@,
{
    InstallCommand {
        sudo,
        manager: String::from_str(manager),
        arguments: String::from_str(arguments),
        note: String::from_str(note),
    }
}

/// Whether `c` is the command with these parts.
pub open spec fn is_command(
    c: InstallCommand,
    sudo: bool,
    manager: Seq<char>,
    arguments: Seq<char>,
    note: Seq<char>,
) -> bool {
    c.sudo == sudo && c.manager@ == manager && c.arguments@ == arguments && c.note@ == note
}

/// Whether `hint` is what is said of a native library that did not load on
/// `platform` for `reason`.
pub open spec fn is_library_hint(hint: InstallHint, platform: Platform, reason: Seq<char>) -> bool {
    &&& hint.reason@ == reason
    &&& match platform {
        Platform::Windows => {
            &&& hint.headline@ == "Failed to load internal libraw DLL:"@
            &&& hint.advice@ == ""@
            &&& hint.commands@.len() == 0
        },
        Platform::Linux => {
            &&& hint.headline@ == "Failed to load system libraw:"@
            &&& hint.advice@ == "Please install it using your package manager:"@
            &&& hint.commands@.len() == 3
            &&& is_command(
                hint.commands@[0],
                true,
                "apt"@,
                "install libraw-dev"@,
                "Ubuntu/Debian"@,
            )
            &&& is_command(hint.commands@[1], true, "dnf"@, "install libraw"@, "Fedora"@)
            &&& is_command(hint.commands@[2], true, "pacman"@, "-S libraw"@, "Arch Linux"@)
        },
        Platform::MacOs => {
            &&& hint.headline@ == "Failed to load system libraw:"@
            &&& hint.advice@ == "Please install it using Homebrew:"@
            &&& hint.commands@.len() == 1
            &&& is_command(hint.commands@[0], false, "brew"@, "install libraw"@, ""@)
        },
        Platform::Other => {
            &&& hint.headline@ == "Failed to load system libraw:"@
            &&& hint.advice@ == ""@
            &&& hint.commands@.len() == 0
        },
    }
}

/// What is said of a native library that did not load.
pub fn library_hint(platform: Platform, reason: String) -> (hint: InstallHint)
    ensures
        is_library_hint(hint, platform, reason@),
{
    match platform {
        Platform::Windows => InstallHint {
            headline: String::from_str("Failed to load internal libraw DLL:"),
            reason,
            advice: String::from_str(""),
            commands: Vec::new(),
        },
        Platform::Linux => {
            let mut commands: Vec<InstallCommand> = Vec::new();
            commands.push(install_command(true, "apt", "install libraw-dev", "Ubuntu/Debian"));
            commands.push(install_command(true, "dnf", "install libraw", "Fedora"));
            commands.push(install_command(true, "pacman", "-S libraw", "Arch Linux"));
            InstallHint {
                headline: String::from_str("Failed to load system libraw:"),
                reason,
                advice: String::from_str("Please install it using your package manager:"),
                commands,
            }
        },
        Platform::MacOs => {
            let mut commands: Vec<InstallCommand> = Vec::new();
            commands.push(install_command(false, "brew", "install libraw", ""));
            InstallHint {
                headline: String::from_str("Failed to load system libraw:"),
                reason,
                advice: String::from_str("Please install it using Homebrew:"),
                commands,
            }
        },
        Platform::Other => InstallHint {
            headline: String::from_str("Failed to load system libraw:"),
            reason,
            advice: String::from_str(""),
            commands: Vec::new(),
        },
    }
}

/// Turns the loader's answer into what the handle remembers: a library that
/// loaded is accepted, one that did not is refused with the hint for the
/// platform and the loader's reason.
pub fn get_lib(platform: Platform, loaded: Result<(), String>) -> (r: Result<(), LoadError>)
    ensures
        loaded is Ok ==> r is Ok,
        loaded matches Err(reason) ==> r matches Err(LoadError::Library(hint)) && is_library_hint(
            hint,
            platform,
            reason@,
        ),
{
    match loaded {
        Ok(()) => Ok(()),
        Err(reason) => Err(LoadError::Library(library_hint(platform, reason))),
    }
}

/// Index of the first lookup that failed; the number of lookups if none
/// did.
pub open spec fn first_failure(lookups: Seq<Result<(), String>>, from: int) -> int
    decreases lookups.len() - from,
{
    if 0 <= from < lookups.len() {
        if lookups[from] is Err {
            from
        } else {
            first_failure(lookups, from + 1)
        }
    } else {
        lookups.len() as int
    }
}

/// Whether `r` is the outcome of resolving the entry points. `library` is
/// how loading the library went, and `lookups` holds, for the entry points
/// in their order, how looking each up went. A library that did not load
/// gives its own error. Else the first entry point that was not found, or
/// not looked up, gives the error; with all of them found the outcome is the
/// table.
pub open spec fn is_api_outcome(
    library: Result<(), LoadError>,
    lookups: Seq<Result<(), String>>,
    r: Result<LibRawApi, LoadError>,
) -> bool {
    match library {
        Err(e) => r == Err::<LibRawApi, LoadError>(e),
        Ok(()) => {
            let i = first_failure(lookups, 0);
            if i >= ENTRY_POINTS {
                r matches Ok(api) && api.wf()
            } else {
                r matches Err(LoadError::Symbol(entry, reason)) && entry == required()[i]
                    && reason@ == if i < lookups.len() {
                    lookups[i]->Err_0@
                } else {
                    "not looked up"@
                }
            }
        },
    }
}

/// A search for a failure starts no earlier than it is asked to, and ends
/// at a failure or behind the last lookup.
pub proof fn lemma_first_failure(lookups: Seq<Result<(), String>>, from: int)
    requires
        0 <= from <= lookups.len(),
    ensures
        from <= first_failure(lookups, from) <= lookups.len(),
        first_failure(lookups, from) < lookups.len() ==> lookups[first_failure(lookups, from)]
            is Err,
    decreases lookups.len() - from,
{
    if from < lookups.len() && !(lookups[from] is Err) {
        lemma_first_failure(lookups, from + 1);
    }
}

/// Decides the outcome of resolving the entry points of the library.
pub fn get_api(library: Result<(), LoadError>, lookups: &Vec<Result<(), String>>) -> (r: Result<
    LibRawApi,
    LoadError,
>)
    ensures
        is_api_outcome(library, lookups@, r),
{
    match library {
        Err(e) => Err(e),
        Ok(()) => {
            let entries = LibRawApi::required_entry_points();
            let mut i: usize = 0;
            while i < ENTRY_POINTS
                invariant
                    library is Ok,
                    entries@ == required(),
                    0 <= i <= ENTRY_POINTS,
                    i <= lookups@.len(),
                    first_failure(lookups@, 0) == first_failure(lookups@, i as int),
                decreases ENTRY_POINTS - i,
            {
                if i >= lookups.len() {
                    return Err(
                        LoadError::Symbol(entries[i], String::from_str("not looked up")),
                    );
                }
                match &lookups[i] {
                    Err(reason) => {
                        return Err(LoadError::Symbol(entries[i], reason.clone()));
                    },
                    Ok(()) => {},
                }
                i += 1;
            }
            proof {
                lemma_first_failure(lookups@, i as int);
            }
            Ok(LibRawApi { entry_points: entries })
        },
    }
}

/// What the handle knows of the native library.
#[derive(Clone, Debug, PartialEq, Eq)]
pub enum NativeLibraryHandle {
    /// No attempt to load the library was made.
    Unresolved,
    /// The library is loaded and all its entry points are resolved.
    Loaded,
    /// The one attempt failed, for this reason.
    Failed(LoadError),
}

/// What a caller that asks for the library gets.
#[derive(Clone, Debug, PartialEq, Eq)]
pub enum Resolution {
    /// The library has to be loaded now, and the outcome recorded.
    MustLoad,
    /// The library is there.
    Ready,
    /// The library is not there, for this reason.
    Unavailable(LoadError),
}

impl NativeLibraryHandle {
    /// What a caller gets.
    pub open spec fn resolution(self) -> Resolution {
        match self {
            NativeLibraryHandle::Unresolved => Resolution::MustLoad,
            NativeLibraryHandle::Loaded => Resolution::Ready,
            NativeLibraryHandle::Failed(e) => Resolution::Unavailable(e),
        }
    }

    /// The handle after the outcome of an attempt to load was recorded: the
    /// first outcome stays, any later one is dropped.
    pub open spec fn recorded(self, outcome: Result<(), LoadError>) -> NativeLibraryHandle {
        match self {
            NativeLibraryHandle::Unresolved => match outcome {
                Ok(()) => NativeLibraryHandle::Loaded,
                Err(e) => NativeLibraryHandle::Failed(e),
            },
            _ => self,
        }
    }

    /// A handle that knows nothing yet.
    pub fn new() -> (h: NativeLibraryHandle)
        ensures
            h == NativeLibraryHandle::Unresolved,
    {
        NativeLibraryHandle::Unresolved
    }

    /// Whether the library has to be loaded now.
    pub fn must_load(&self) -> (b: bool)
        ensures
            b == (self.resolution() is MustLoad),
    {
        match self {
            NativeLibraryHandle::Unresolved => true,
            _ => false,
        }
    }

    /// Whether the library is there.
    pub fn is_ready(&self) -> (b: bool)
        ensures
            b == (self.resolution() is Ready),
    {
        match self {
            NativeLibraryHandle::Loaded => true,
            _ => false,
        }
    }

    /// What a caller gets: the library, the stored failure, or the task to
    /// load the library.
    pub fn resolve(self) -> (r: Resolution)
        ensures
            r == self.resolution(),
    {
        match self {
            NativeLibraryHandle::Unresolved => Resolution::MustLoad,
            NativeLibraryHandle::Loaded => Resolution::Ready,
            NativeLibraryHandle::Failed(e) => Resolution::Unavailable(e),
        }
    }

    /// Records the outcome of an attempt to load the library. Only the
    /// first outcome is kept.
    pub fn record(self, outcome: Result<(), LoadError>) -> (h: NativeLibraryHandle)
        ensures
            h == self.recorded(outcome),
    {
        match self {
            NativeLibraryHandle::Unresolved => match outcome {
                Ok(()) => NativeLibraryHandle::Loaded,
                Err(e) => NativeLibraryHandle::Failed(e),
            },
            other => other,
        }
    }
}

/// The handle after a sequence of recorded outcomes.
pub open spec fn after_outcomes(
    start: NativeLibraryHandle,
    outcomes: Seq<Result<(), LoadError>>,
) -> NativeLibraryHandle
    decreases outcomes.len(),
{
    if outcomes.len() == 0 {
        start
    } else {
        after_outcomes(start, outcomes.drop_last()).recorded(outcomes.last())
    }
}

/// Resolving is idempotent: once an outcome is recorded, the handle never
/// asks for the library to be loaded again, and every later caller gets the
/// outcome that was recorded first, whatever is recorded after it.
pub proof fn lemma_first_outcome_stays(
    first: Result<(), LoadError>,
    later: Seq<Result<(), LoadError>>,
)
    ensures
        ({
            let once = NativeLibraryHandle::Unresolved.recorded(first);
            let end = after_outcomes(once, later);
            &&& !(once.resolution() is MustLoad)
            &&& end == once
            &&& end.resolution() == match first {
                Ok(()) => Resolution::Ready,
                Err(e) => Resolution::Unavailable(e),
            }
        }),
    decreases later.len(),
{
    if later.len() > 0 {
        lemma_first_outcome_stays(first, later.drop_last());
    }
}

} // verus!
