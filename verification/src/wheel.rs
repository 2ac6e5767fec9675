//! Installed wheels, and packing them: where in a wheel each of its installed files goes.

use std::path::PathBuf;

use vstd::prelude::*;

use crate::bytes;
use crate::file_path::{is_text_path, name_path, FilePath, PathView};
use crate::install::InstallPaths;
use crate::outside;
use crate::script;
use crate::script::{DetectError, PythonScript, RewriteError};

verus! {

/// What the metadata of an installed wheel says.
#[derive(Debug, PartialEq, Eq)]
pub struct InstalledWheel {
    /// The name of the project.
    pub project_name: String,
    /// The path that the name of the project is.
    pub project_path: FilePath,
    /// The version of the project.
    pub version: String,
    /// The paths of the installed files, as they are recorded.
    pub record: Vec<FilePath>,
    /// The directory of the metadata, as seen from the directory that the wheel is installed in.
    pub dist_info_dir: FilePath,
    /// The directory of a wheel for the files that are not installed below its root.
    pub data_dir: FilePath,
    /// The root of the wheel is installed with the modules that run on every platform.
    pub root_is_purelib: bool,
    /// The names of the scripts that installers make from entry points.
    pub scripts: Vec<String>,
}

/// A wheel whose metadata directory lies in no directory.
#[derive(Clone, Copy, Debug, PartialEq, Eq, Structural)]
pub enum LoadError {
    /// The path of the metadata directory has no parent.
    NoParent,
}

/// A file of the metadata that installers write and that no wheel holds or that is made anew.
pub open spec fn is_ignored_metadata(name: Seq<u8>) -> bool {
    ||| name == bytes::ascii_bytes("RECORD"@)
    ||| name == bytes::ascii_bytes("INSTALLER"@)
    ||| name == bytes::ascii_bytes("REQUESTED"@)
}

/// The extension of a file that Python compiles.
pub open spec fn is_compiled_extension(extension: Seq<u8>) -> bool {
    ||| extension == bytes::ascii_bytes("pyc"@)
    ||| extension == bytes::ascii_bytes("pyo"@)
    ||| extension == bytes::ascii_bytes("pyd"@)
}

/// What to do with a recorded file, as far as its recorded path says.
pub enum Plan {
    /// The file is not packed.
    Ignore,
    /// The file goes to its recorded path.
    Keep,
    /// Where the file goes depends on where this path leads.
    Resolve(PathView),
}

/// Where in a wheel an installed file goes.
pub enum Placement {
    /// The file is not packed.
    Ignore,
    /// The file goes to `dst`, and if it is in the directory for scripts, it may be one.
    At { dst: PathView, is_script: bool },
    /// The file is in none of the directories that a wheel's files go to.
    Nowhere,
}

/// A part of the data directory of a wheel.
pub enum Scheme {
    Scripts,
    Headers,
    Platlib,
    Purelib,
    Data,
}

impl Scheme {
    /// The name of the part.
    pub open spec fn name(self) -> Seq<char> {
        match self {
            Scheme::Scripts => "scripts"@,
            Scheme::Headers => "headers"@,
            Scheme::Platlib => "platlib"@,
            Scheme::Purelib => "purelib"@,
            Scheme::Data => "data"@,
        }
    }
}

impl InstalledWheel {
    /// The directory that the files of a part are installed in.
    pub open spec fn scheme_dir(self, paths: InstallPaths, scheme: Scheme) -> PathView {
        match scheme {
            Scheme::Scripts => paths.scripts@,
            Scheme::Headers => paths.headers_base@.join(self.project_path@),
            Scheme::Platlib => paths.platlib@,
            Scheme::Purelib => paths.purelib@,
            Scheme::Data => paths.data@,
        }
    }

    /// The part for the first of the directories that `path` is below: those for scripts, headers,
    /// platform specific modules, other modules and data.
    pub open spec fn scheme_of(self, paths: InstallPaths, path: PathView) -> Option<Scheme> {
        if path.starts_with(self.scheme_dir(paths, Scheme::Scripts)) {
            Some(Scheme::Scripts)
        } else if path.starts_with(self.scheme_dir(paths, Scheme::Headers)) {
            Some(Scheme::Headers)
        } else if path.starts_with(self.scheme_dir(paths, Scheme::Platlib)) {
            Some(Scheme::Platlib)
        } else if path.starts_with(self.scheme_dir(paths, Scheme::Purelib)) {
            Some(Scheme::Purelib)
        } else if path.starts_with(self.scheme_dir(paths, Scheme::Data)) {
            Some(Scheme::Data)
        } else {
            None
        }
    }

    /// The name is that of a script made from an entry point.
    pub open spec fn makes_script(self, name: Seq<u8>) -> bool {
        &&& vstd::utf8::valid_utf8(name)
        &&& exists|i: int|
            0 <= i < self.scripts@.len() && #[trigger] self.scripts@[i]@
                == vstd::utf8::decode_utf8(name)
    }

    /// The directory that the root of the wheel is installed in.
    pub open spec fn root(self, paths: InstallPaths) -> PathView {
        if self.root_is_purelib {
            paths.purelib@
        } else {
            paths.platlib@
        }
    }

    /// The recorded path is that of a file that is made anew with every installation: of the
    /// metadata, or a compiled one.
    pub open spec fn is_ignored(self, entry: PathView) -> bool {
        ||| {
            &&& entry.starts_with(self.dist_info_dir@)
            &&& entry.components.len() == 2
            &&& entry.file_name() matches Some(name)
            &&& is_ignored_metadata(name)
        }
        ||| {
            &&& entry.extension() matches Some(extension)
            &&& is_compiled_extension(extension)
        }
    }

    /// What to do with the file of that recorded path.
    pub open spec fn plan(self, paths: InstallPaths, entry: PathView) -> Plan {
        if self.is_ignored(entry) {
            Plan::Ignore
        } else if !entry.is_absolute && entry.is_plain() {
            Plan::Keep
        } else if !entry.is_absolute {
            Plan::Resolve(self.root(paths).join(entry))
        } else {
            Plan::Resolve(entry)
        }
    }

    /// The place of a file in a part of the wheel, below which it is at `rest`.
    pub open spec fn spread(self, scheme: Scheme, rest: PathView) -> PathView {
        self.data_dir@.join(name_path(bytes::ascii_bytes(scheme.name()))).join(rest)
    }

    /// The file at `rest` below the directory for scripts is made from an entry point.
    pub open spec fn is_entry_point(self, rest: PathView) -> bool {
        &&& !(rest.parent() matches Some(parent) && parent.components.len() > 0)
        &&& rest.file_stem() matches Some(stem)
        &&& self.makes_script(stem)
    }

    /// Where in the wheel the file at `path` goes: to the part for the directory that it is below,
    /// unless it is a script made from an entry point.
    pub open spec fn placement(self, paths: InstallPaths, path: PathView) -> Placement {
        match self.scheme_of(paths, path) {
            None => Placement::Nowhere,
            Some(scheme) => {
                let rest = path.strip_prefix(self.scheme_dir(paths, scheme))->0;
                if scheme is Scripts && self.is_entry_point(rest) {
                    Placement::Ignore
                } else {
                    Placement::At { dst: self.spread(scheme, rest), is_script: scheme is Scripts }
                }
            },
        }
    }

    /// The index of the first recorded file from `from` on that is not ignored, or the number of
    /// recorded files.
    pub open spec fn next_packed(self, from: int) -> int
        decreases self.record@.len() - from,
    {
        if from >= self.record@.len() {
            self.record@.len() as int
        } else if !self.is_ignored(self.record@[from]@) {
            from
        } else {
            self.next_packed(from + 1)
        }
    }
}

/// What came of a recorded file.
#[derive(Debug)]
pub enum Report {
    /// The file with that index in the record goes to `dst` as it is.
    Copy { entry: usize, dst: FilePath },
    /// The file is a script and gets its placeholder shebang.
    Rewrite { original: Original, re_written: String },
}

/// A script before it got its placeholder shebang.
#[derive(Debug)]
pub enum Original {
    /// The text of a text file.
    Text(String),
    /// The path of an executable.
    File(PathBuf),
}

/// Why packing stops.
#[derive(Debug)]
pub enum PackError {
    /// The recorded file with that index is in none of the directories that a wheel's files go to.
    UnexpectedPath(usize),
    /// A file cannot be told to be a script or not.
    Detect(DetectError),
    /// A script cannot be given its placeholder shebang.
    Rewrite(RewriteError),
    /// The text of a script is not UTF-8.
    OriginalNotUtf8,
    /// A script is not UTF-8 once it has its placeholder shebang.
    ReWrittenNotUtf8,
}

/// How far packing has come.
#[derive(Debug)]
pub enum PackState {
    /// The recorded files before that index are done.
    Next(usize),
    /// The path of the recorded file with that index is being resolved.
    Resolving(usize),
    /// The recorded file with that index goes to `dst` and is being read, since it may be a script.
    Reading { entry: usize, dst: FilePath },
    /// All is done, or packing has stopped.
    Finished,
}

/// What packing goes on with.
#[derive(Debug)]
pub enum PackEvent {
    /// The last report was taken, or there was none.
    Continue,
    /// Where the path that was asked for leads.
    Resolved(FilePath),
    /// What the file that was asked for holds.
    Read { path: PathBuf, contents: Vec<u8>, is_executable: bool },
}

/// What packing asks for.
#[derive(Debug)]
pub enum PackAction {
    /// Resolve the path.
    Resolve(FilePath),
    /// Read the file.
    Read(FilePath),
    /// Take the report.
    Report(Report),
    /// All is done.
    Finish,
    /// Packing stops.
    Fail(PackError),
}

/// `PackAction` with sequences for paths and texts.
pub enum ActionView {
    Resolve(PathView),
    Read(PathView),
    Copy { entry: int, dst: PathView },
    RewriteText { original: Seq<char>, re_written: Seq<char> },
    RewriteFile { path: PathBuf, re_written: Seq<char> },
    Finish,
    UnexpectedPath(int),
    DetectFailed(DetectError),
    BadArchive,
    Unreadable,
    OriginalNotUtf8,
    ReWrittenNotUtf8,
}

impl View for PackAction {
    type V = ActionView;

    open spec fn view(&self) -> ActionView {
        match *self {
            PackAction::Resolve(path) => ActionView::Resolve(path@),
            PackAction::Read(path) => ActionView::Read(path@),
            PackAction::Report(Report::Copy { entry, dst }) => ActionView::Copy {
                entry: entry as int,
                dst: dst@,
            },
            PackAction::Report(
                Report::Rewrite { original: Original::Text(text), re_written },
            ) => ActionView::RewriteText { original: text@, re_written: re_written@ },
            PackAction::Report(
                Report::Rewrite { original: Original::File(path), re_written },
            ) => ActionView::RewriteFile { path, re_written: re_written@ },
            PackAction::Finish => ActionView::Finish,
            PackAction::Fail(PackError::UnexpectedPath(entry)) => ActionView::UnexpectedPath(
                entry as int,
            ),
            PackAction::Fail(PackError::Detect(e)) => ActionView::DetectFailed(e),
            PackAction::Fail(PackError::Rewrite(RewriteError::BadArchive(_))) =>
                ActionView::BadArchive,
            PackAction::Fail(PackError::Rewrite(RewriteError::Unreadable)) =>
                ActionView::Unreadable,
            PackAction::Fail(PackError::OriginalNotUtf8) => ActionView::OriginalNotUtf8,
            PackAction::Fail(PackError::ReWrittenNotUtf8) => ActionView::ReWrittenNotUtf8,
        }
    }
}

/// `PackState` with sequences for paths.
pub enum StateView {
    Next(int),
    Resolving(int),
    Reading { entry: int, dst: PathView },
    Finished,
}

impl View for PackState {
    type V = StateView;

    open spec fn view(&self) -> StateView {
        match *self {
            PackState::Next(next) => StateView::Next(next as int),
            PackState::Resolving(entry) => StateView::Resolving(entry as int),
            PackState::Reading { entry, dst } => StateView::Reading {
                entry: entry as int,
                dst: dst@,
            },
            PackState::Finished => StateView::Finished,
        }
    }
}

impl ActionView {
    /// The action reports an error.
    pub open spec fn is_failure(self) -> bool {
        ||| self is UnexpectedPath
        ||| self is DetectFailed
        ||| self is BadArchive
        ||| self is Unreadable
        ||| self is OriginalNotUtf8
        ||| self is ReWrittenNotUtf8
    }
}

/// `PackEvent` with sequences for paths and contents.
pub enum EventView {
    Continue,
    Resolved(PathView),
    Read { path: PathBuf, contents: Seq<u8>, is_executable: bool },
}

impl View for PackEvent {
    type V = EventView;

    open spec fn view(&self) -> EventView {
        match *self {
            PackEvent::Continue => EventView::Continue,
            PackEvent::Resolved(path) => EventView::Resolved(path@),
            PackEvent::Read { path, contents, is_executable } => EventView::Read {
                path,
                contents: contents@,
                is_executable,
            },
        }
    }
}

impl StateView {
    /// The state speaks of files that are recorded.
    pub open spec fn wf(self, wheel: InstalledWheel) -> bool {
        match self {
            StateView::Next(next) => 0 <= next <= wheel.record@.len(),
            StateView::Resolving(entry) => 0 <= entry < wheel.record@.len(),
            StateView::Reading { entry, .. } => 0 <= entry < wheel.record@.len(),
            StateView::Finished => true,
        }
    }

    /// The event is the one that the state waits for.
    pub open spec fn awaits(self, event: EventView) -> bool {
        match self {
            StateView::Next(_) => event is Continue,
            StateView::Resolving(_) => event is Resolved,
            StateView::Reading { .. } => event is Read,
            StateView::Finished => event is Continue,
        }
    }
}

/// What comes of a script whose file holds `contents`. It gets its placeholder shebang; then it is
/// reported with its original, and both have to be text but for the original of an executable.
pub open spec fn rewrite_action(script: PythonScript, contents: Seq<u8>) -> ActionView {
    match script.re_written(contents) {
        None => ActionView::BadArchive,
        Some(written) => {
            if script is Posix && !vstd::utf8::valid_utf8(contents) {
                ActionView::OriginalNotUtf8
            } else if !vstd::utf8::valid_utf8(written) {
                ActionView::ReWrittenNotUtf8
            } else {
                let re_written = vstd::utf8::decode_utf8(written);
                match script {
                    PythonScript::Posix { .. } => ActionView::RewriteText {
                        original: vstd::utf8::decode_utf8(contents),
                        re_written,
                    },
                    PythonScript::Windows { path, .. } => ActionView::RewriteFile {
                        path,
                        re_written,
                    },
                }
            }
        },
    }
}

/// What comes of the file with index `entry` in the record, which goes to `dst` and holds
/// `contents`, given whether it is a script.
pub open spec fn script_action(
    found: Result<Option<PythonScript>, DetectError>,
    entry: int,
    dst: PathView,
    contents: Seq<u8>,
) -> ActionView {
    match found {
        Err(e) => ActionView::DetectFailed(e),
        Ok(None) => ActionView::Copy { entry, dst },
        Ok(Some(script)) => rewrite_action(script, contents),
    }
}

/// The state after the file with index `entry` in the record is done with.
pub open spec fn state_after(entry: int, action: ActionView) -> StateView {
    if action.is_failure() {
        StateView::Finished
    } else {
        StateView::Next(entry + 1)
    }
}

impl InstalledWheel {
    /// The next step from the recorded file with index `next` on.
    pub open spec fn plan_step(self, paths: InstallPaths, next: int) -> (StateView, ActionView) {
        let entry = self.next_packed(next);
        if entry >= self.record@.len() {
            (StateView::Finished, ActionView::Finish)
        } else {
            match self.plan(paths, self.record@[entry]@) {
                Plan::Resolve(path) => (StateView::Resolving(entry), ActionView::Resolve(path)),
                _ => (
                    StateView::Next(entry + 1),
                    ActionView::Copy { entry, dst: self.record@[entry]@ },
                ),
            }
        }
    }

    /// The step for the recorded file with index `entry`, whose path leads to `path`.
    pub open spec fn place_step(self, paths: InstallPaths, entry: int, path: PathView) -> (
        StateView,
        ActionView,
    ) {
        match self.placement(paths, path) {
            Placement::Ignore => self.plan_step(paths, entry + 1),
            Placement::At { dst, is_script: true } => (
                StateView::Reading { entry, dst },
                ActionView::Read(path),
            ),
            Placement::At { dst, is_script: false } => (
                StateView::Next(entry + 1),
                ActionView::Copy { entry, dst },
            ),
            Placement::Nowhere => (StateView::Finished, ActionView::UnexpectedPath(entry)),
        }
    }

    /// The next state and what packing asks for, from `state` on with `event`.
    pub open spec fn pack_step(self, paths: InstallPaths, state: StateView, event: EventView) -> (
        StateView,
        ActionView,
    ) {
        match (state, event) {
            (StateView::Next(next), _) => self.plan_step(paths, next),
            (StateView::Resolving(entry), EventView::Resolved(path)) => self.place_step(
                paths,
                entry,
                path,
            ),
            (
                StateView::Reading { entry, dst },
                EventView::Read { path, contents, is_executable },
            ) => {
                let found = script::detection(path, contents, paths.python_version, is_executable);
                let action = script_action(found, entry, dst, contents);
                (state_after(entry, action), action)
            },
            _ => (StateView::Finished, ActionView::Finish),
        }
    }
}

/// What the files in a metadata directory say, each read on its own.
#[derive(Debug, PartialEq, Eq)]
pub struct WheelParts {
    /// The name of the project.
    pub project_name: String,
    /// The version of the project.
    pub version: String,
    /// The paths of the installed files, as they are recorded.
    pub record: Vec<FilePath>,
    /// The directory of the metadata, as seen from the directory that the wheel is installed in.
    pub dist_info_dir: FilePath,
    /// The directory of a wheel for the files that are not installed below its root.
    pub data_dir: FilePath,
    /// The root of the wheel is installed with the modules that run on every platform.
    pub root_is_purelib: bool,
    /// The names of the scripts made from entry points, where the wheel has a file of them.
    pub scripts: Option<Vec<String>>,
}

/// The directory that a wheel is installed in, given its metadata directory.
pub fn installed_wheel_dir(dist_info_dir: &FilePath) -> (dir: Result<FilePath, LoadError>)
    ensures
        match dist_info_dir@.parent() {
            Some(parent) => dir matches Ok(d) && d@ == parent,
            None => dir matches Err(e) && e == LoadError::NoParent,
        },
{
    match dist_info_dir.parent() {
        Some(parent) => Ok(parent),
        None => Err(LoadError::NoParent),
    }
}

/// Whether a byte string is an ASCII text.
fn is_literal(name: &[u8], text: &str) -> (r: bool)
    requires
        text.is_ascii(),
    ensures
        r == (name@ == bytes::ascii_bytes(text@)),
{
    bytes::same(name, bytes::literal(text))
}

/// What to do with a recorded file.
#[derive(Debug)]
pub enum EntryPlan {
    /// The file is not packed.
    Ignore,
    /// The file goes to its recorded path.
    Keep,
    /// Where the file goes depends on where this path leads.
    Resolve(FilePath),
}

impl View for EntryPlan {
    type V = Plan;

    open spec fn view(&self) -> Plan {
        match *self {
            EntryPlan::Ignore => Plan::Ignore,
            EntryPlan::Keep => Plan::Keep,
            EntryPlan::Resolve(path) => Plan::Resolve(path@),
        }
    }
}

/// Where in a wheel an installed file goes.
#[derive(Debug)]
pub enum FilePlacement {
    /// The file is not packed.
    Ignore,
    /// The file goes to `dst`, and if it is in the directory for scripts, it may be one.
    At { dst: FilePath, is_script: bool },
    /// The file is in none of the directories that a wheel's files go to.
    Nowhere,
}

impl View for FilePlacement {
    type V = Placement;

    open spec fn view(&self) -> Placement {
        match *self {
            FilePlacement::Ignore => Placement::Ignore,
            FilePlacement::At { dst, is_script } => Placement::At { dst: dst@, is_script },
            FilePlacement::Nowhere => Placement::Nowhere,
        }
    }
}

impl InstalledWheel {
    /// The installed wheel whose metadata directory says that.
    pub fn load(dist_info_dir: &FilePath, parts: WheelParts) -> (wheel: Result<
        InstalledWheel,
        LoadError,
    >)
        ensures
            match dist_info_dir@.parent() {
                None => wheel matches Err(e) && e == LoadError::NoParent,
                Some(_) => {
                    &&& wheel matches Ok(w)
                    &&& w.project_name == parts.project_name
                    &&& is_text_path(
                        w.project_path@,
                        vstd::utf8::encode_utf8(parts.project_name@),
                    )
                    &&& w.version == parts.version
                    &&& w.record == parts.record
                    &&& w.dist_info_dir == parts.dist_info_dir
                    &&& w.data_dir == parts.data_dir
                    &&& w.root_is_purelib == parts.root_is_purelib
                    &&& match parts.scripts {
                        Some(scripts) => w.scripts == scripts,
                        None => w.scripts@ == Seq::<String>::empty(),
                    }
                },
            },
    {
        match installed_wheel_dir(dist_info_dir) {
            Err(e) => Err(e),
            Ok(_) => {
                let scripts: Vec<String> = match parts.scripts {
                    Some(scripts) => scripts,
                    None => Vec::new(),
                };
                Ok(
                    InstalledWheel {
                        project_path: FilePath::of_text(parts.project_name.as_str()),
                        project_name: parts.project_name,
                        version: parts.version,
                        record: parts.record,
                        dist_info_dir: parts.dist_info_dir,
                        data_dir: parts.data_dir,
                        root_is_purelib: parts.root_is_purelib,
                        scripts,
                    },
                )
            },
        }
    }

    /// Whether a name is that of a script made from an entry point.
    fn is_script_name(&self, name: &[u8]) -> (r: bool)
        ensures
            r == self.makes_script(name@),
    {
        match outside::utf8_text(name) {
            None => false,
            Some(text) => {
                let mut i: usize = 0;
                while i < self.scripts.len()
                    invariant
                        i <= self.scripts@.len(),
                        vstd::utf8::valid_utf8(name@),
                        text@ == vstd::utf8::decode_utf8(name@),
                        forall|j: int| 0 <= j < i ==> #[trigger] self.scripts@[j]@ != text@,
                    decreases self.scripts@.len() - i,
                {
                    if bytes::same_text(self.scripts[i].as_str(), text) {
                        return true;
                    }
                    i += 1;
                }
                false
            },
        }
    }

    /// Whether the recorded path is that of a file that is made anew with every installation.
    fn ignores(&self, entry: &FilePath) -> (r: bool)
        ensures
            r == self.is_ignored(entry@),
    {
        proof {
            reveal_strlit("RECORD");
            reveal_strlit("INSTALLER");
            reveal_strlit("REQUESTED");
            reveal_strlit("pyc");
            reveal_strlit("pyo");
            reveal_strlit("pyd");
        }
        if entry.starts_with(&self.dist_info_dir) && entry.components.len() == 2 {
            if let Some(name) = entry.file_name() {
                if is_literal(name, "RECORD") || is_literal(name, "INSTALLER") || is_literal(
                    name,
                    "REQUESTED",
                ) {
                    return true;
                }
            }
        }
        match entry.extension() {
            None => false,
            Some(extension) => is_literal(extension, "pyc") || is_literal(extension, "pyo")
                || is_literal(extension, "pyd"),
        }
    }

    /// What to do with the file of that recorded path.
    pub fn plan_entry(&self, install_paths: &InstallPaths, entry: &FilePath) -> (plan: EntryPlan)
        ensures
            plan@ == self.plan(*install_paths, entry@),
    {
        if self.ignores(entry) {
            return EntryPlan::Ignore;
        }
        if entry.is_absolute {
            EntryPlan::Resolve(entry.copy())
        } else if entry.is_plain() {
            EntryPlan::Keep
        } else if self.root_is_purelib {
            EntryPlan::Resolve(install_paths.purelib.join(entry))
        } else {
            EntryPlan::Resolve(install_paths.platlib.join(entry))
        }
    }

    /// The place of a file in the part of the wheel with that name.
    fn spread_to(&self, name: &str, rest: &FilePath) -> (dst: FilePath)
        requires
            name.is_ascii(),
        ensures
            forall|scheme: Scheme|
                #[trigger] scheme.name() == name@ ==> dst@ == self.spread(scheme, rest@),
    {
        self.data_dir.join(&FilePath::of_name(bytes::literal(name))).join(rest)
    }

    /// Whether the file at `rest` below the directory for scripts is made from an entry point.
    fn comes_from_entry_point(&self, rest: &FilePath) -> (r: bool)
        ensures
            r == self.is_entry_point(rest@),
    {
        let has_parent = match rest.parent() {
            Some(parent) => {
                assert(parent@.components.len() == parent.components@.len());
                parent.components.len() > 0
            },
            None => false,
        };
        if has_parent {
            return false;
        }
        match rest.file_stem() {
            None => false,
            Some(stem) => self.is_script_name(stem),
        }
    }

    /// Where in the wheel the installed file at `path` goes.
    pub fn place_file(&self, install_paths: &InstallPaths, path: &FilePath) -> (placement:
        FilePlacement)
        ensures
            placement@ == self.placement(*install_paths, path@),
    {
        proof {
            reveal_strlit("scripts");
            reveal_strlit("headers");
            reveal_strlit("platlib");
            reveal_strlit("purelib");
            reveal_strlit("data");
            assert(Scheme::Scripts.name() == "scripts"@);
            assert(Scheme::Headers.name() == "headers"@);
            assert(Scheme::Platlib.name() == "platlib"@);
            assert(Scheme::Purelib.name() == "purelib"@);
            assert(Scheme::Data.name() == "data"@);
        }
        if let Some(rest) = path.strip_prefix(install_paths.scripts) {
            if self.comes_from_entry_point(&rest) {
                return FilePlacement::Ignore;
            }
            return FilePlacement::At { dst: self.spread_to("scripts", &rest), is_script: true };
        }
        let headers: FilePath = install_paths.headers_at(&self.project_path);
        if let Some(rest) = path.strip_prefix(&headers) {
            return FilePlacement::At { dst: self.spread_to("headers", &rest), is_script: false };
        }
        if let Some(rest) = path.strip_prefix(install_paths.platlib) {
            return FilePlacement::At { dst: self.spread_to("platlib", &rest), is_script: false };
        }
        if let Some(rest) = path.strip_prefix(install_paths.purelib) {
            return FilePlacement::At { dst: self.spread_to("purelib", &rest), is_script: false };
        }
        if let Some(rest) = path.strip_prefix(install_paths.data) {
            return FilePlacement::At { dst: self.spread_to("data", &rest), is_script: false };
        }
        FilePlacement::Nowhere
    }

    /// The next step from the recorded file with index `next` on.
    fn step_from(&self, install_paths: &InstallPaths, next: usize) -> (step: (
        PackState,
        PackAction,
    ))
        requires
            next <= self.record@.len(),
        ensures
            (step.0@, step.1@) == self.plan_step(*install_paths, next as int),
            step.0@.wf(*self),
    {
        let mut entry: usize = next;
        while entry < self.record.len()
            invariant
                entry <= self.record@.len(),
                self.next_packed(next as int) == self.next_packed(entry as int),
            decreases self.record@.len() - entry,
        {
            match self.plan_entry(install_paths, &self.record[entry]) {
                EntryPlan::Ignore => {},
                EntryPlan::Keep => {
                    return (
                        PackState::Next(entry + 1),
                        PackAction::Report(
                            Report::Copy { entry, dst: self.record[entry].copy() },
                        ),
                    );
                },
                EntryPlan::Resolve(path) => {
                    return (PackState::Resolving(entry), PackAction::Resolve(path));
                },
            }
            entry += 1;
        }
        (PackState::Finished, PackAction::Finish)
    }

    /// One step of packing the wheel: from a state and what came of the last action to the next state
    /// and action. Packing starts with no recorded file done. Whoever runs it performs each action
    /// and hands back what came of it, and stops where that cannot be done.
    pub fn pack(&self, install_paths: &InstallPaths, state: PackState, event: PackEvent) -> (step: (
        PackState,
        PackAction,
    ))
        requires
            state@.wf(*self),
            state@.awaits(event@),
        ensures
            (step.0@, step.1@) == self.pack_step(*install_paths, state@, event@),
            step.0@.wf(*self),
            step.1@ is BadArchive ==> step.1 matches PackAction::Fail(
                PackError::Rewrite(RewriteError::BadArchive(_)),
            ),
    {
        assert(self.record@.len() == self.record.len());
        match (state, event) {
            (PackState::Next(next), _) => self.step_from(install_paths, next),
            (PackState::Resolving(entry), PackEvent::Resolved(path)) => {
                match self.place_file(install_paths, &path) {
                    FilePlacement::Ignore => self.step_from(install_paths, entry + 1),
                    FilePlacement::At { dst, is_script } => {
                        if is_script {
                            (PackState::Reading { entry, dst }, PackAction::Read(path))
                        } else {
                            (
                                PackState::Next(entry + 1),
                                PackAction::Report(Report::Copy { entry, dst }),
                            )
                        }
                    },
                    FilePlacement::Nowhere => (
                        PackState::Finished,
                        PackAction::Fail(PackError::UnexpectedPath(entry)),
                    ),
                }
            },
            (
                PackState::Reading { entry, dst },
                PackEvent::Read { path, contents, is_executable },
            ) => {
                let found = PythonScript::detect(
                    path,
                    contents.as_slice(),
                    install_paths.python_version,
                    is_executable,
                );
                let action = report_script(found, entry, dst, contents.as_slice());
                match action {
                    PackAction::Fail(_) => (PackState::Finished, action),
                    _ => (PackState::Next(entry + 1), action),
                }
            },
            _ => (PackState::Finished, PackAction::Finish),
        }
    }
}

/// What comes of a script whose file holds `contents`.
pub fn report_rewrite(script: PythonScript, contents: &[u8]) -> (action: PackAction)
    requires
        script.wf(),
    ensures
        action@ == rewrite_action(script, contents@),
        script.re_written(contents@) is None ==> action matches PackAction::Fail(
            PackError::Rewrite(RewriteError::BadArchive(_)),
        ),
{
    let mut written: Vec<u8> = Vec::new();
    match script.re_write(Some(contents), &mut written) {
        Err(e) => {
            return PackAction::Fail(PackError::Rewrite(e));
        },
        Ok(()) => {},
    }
    assert(script.re_written(contents@) matches Some(w) && written@ =~= w);
    let original: Original = match script {
        PythonScript::Posix { .. } => match outside::utf8_text(contents) {
            None => {
                return PackAction::Fail(PackError::OriginalNotUtf8);
            },
            Some(text) => Original::Text(text.to_owned()),
        },
        PythonScript::Windows { path, .. } => Original::File(path),
    };
    match outside::utf8_text(written.as_slice()) {
        None => PackAction::Fail(PackError::ReWrittenNotUtf8),
        Some(text) => PackAction::Report(
            Report::Rewrite { original, re_written: text.to_owned() },
        ),
    }
}

/// What comes of the file with index `entry` in the record, which goes to `dst` and holds
/// `contents`, given whether it is a script.
pub fn report_script(
    found: Result<Option<PythonScript>, DetectError>,
    entry: usize,
    dst: FilePath,
    contents: &[u8],
) -> (action: PackAction)
    requires
        script::is_wf_result(found),
    ensures
        action@ == script_action(found, entry as int, dst@, contents@),
        found matches Ok(Some(script)) ==> script.re_written(contents@) is None ==> action matches
            PackAction::Fail(PackError::Rewrite(RewriteError::BadArchive(_))),
{
    match found {
        Err(e) => PackAction::Fail(PackError::Detect(e)),
        Ok(None) => PackAction::Report(Report::Copy { entry, dst }),
        Ok(Some(script)) => report_rewrite(script, contents),
    }
}

} // verus!
