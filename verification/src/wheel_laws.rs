//! What holds of loading and packing wheels: which files are left out, where the others go, and what
//! each step of packing does.

use std::path::PathBuf;

use vstd::prelude::*;

use crate::byte_laws::{lemma_spells, lemma_spells_at};
use crate::bytes;
use crate::file_path;
use crate::file_path::{ComponentView, FilePath, PathView};
use crate::install::InstallPaths;
use crate::install_laws::named_in;
use crate::path_laws::{
    is_plain_text, is_plain_text_path, lemma_below, lemma_last_dot, lemma_plain_text, lemma_rest,
    lemma_stem, starts_verbatim,
};
use crate::script::{DetectError, PythonScript, RewriteError};
use crate::terms::{has_name, is_below, is_rest, spells, spells_at, stem_ends};
use crate::wheel;
use crate::wheel::{
    EntryPlan, FilePlacement, InstalledWheel, LoadError, Original, PackAction, PackError, PackEvent,
    PackState, Report, WheelParts,
};

verus! {

/// The recorded path is that of a file that installers write themselves: `RECORD`, `INSTALLER` or
/// `REQUESTED` directly in the metadata directory, or a file whose name ends with `.pyc`, `.pyo` or
/// `.pyd` and has something before that.
pub open spec fn is_left_out(dist_info_dir: PathView, entry: PathView) -> bool {
    &&& entry.components.len() > 0
    &&& entry.components[entry.components.len() - 1] matches ComponentView::Normal(name)
    &&& {
        ||| {
            &&& entry.components.len() == 2
            &&& is_below(entry, dist_info_dir)
            &&& spells(name, "RECORD"@) || spells(name, "INSTALLER"@) || spells(
                name,
                "REQUESTED"@,
            )
        }
        ||| {
            &&& name.len() >= 5
            &&& spells_at(name, name.len() - 4, ".pyc"@) || spells_at(
                name,
                name.len() - 4,
                ".pyo"@,
            ) || spells_at(name, name.len() - 4, ".pyd"@)
        }
    }
}

/// The extension of three letters, in terms of the bytes of the name.
proof fn lemma_extension(name: Seq<u8>, extension: Seq<char>, ending: Seq<char>)
    requires
        extension.len() == 3,
        ending.len() == 4,
        ending[0] as u8 == 0x2e,
        forall|i: int| 0 <= i < 3 ==> #[trigger] extension[i] == ending[i + 1],
        forall|i: int| 0 <= i < 3 ==> #[trigger] extension[i] as u8 != 0x2e,
    ensures
        file_path::name_extension(name) == Some(bytes::ascii_bytes(extension)) <==> name.len() >= 5
            && spells_at(name, name.len() - 4, ending),
{
    let n = name.len() as int;
    lemma_last_dot(name);
    let dot = file_path::last_dot(name);
    if file_path::name_extension(name) == Some(bytes::ascii_bytes(extension)) {
        let e = name.subrange(dot + 1, n);
        assert(e.len() == 3);
        assert(dot == n - 4);
        assert forall|i: int| 0 <= i < 4 implies #[trigger] name[n - 4 + i] == ending[i] as u8 by {
            if i > 0 {
                assert(e[i - 1] == name[n - 4 + i]);
                assert(extension[i - 1] == ending[i]);
            }
        }
    }
    if n >= 5 && spells_at(name, n - 4, ending) {
        assert(name[n - 4 + 0] == 0x2e);
        assert forall|i: int| n - 4 < i < n implies #[trigger] name[i] != 0x2e by {
            assert(name[n - 4 + (i - n + 4)] == ending[i - n + 4] as u8);
            assert(extension[i - n + 3] == ending[i - n + 4]);
        }
        assert(stem_ends(name, n - 4));
        lemma_stem(name, n - 4);
        let e = name.subrange(n - 3, n);
        assert forall|i: int| 0 <= i < 3 implies e[i] == bytes::ascii_bytes(extension)[i] by {
            assert(name[n - 4 + (i + 1)] == ending[i + 1] as u8);
            assert(extension[i] == ending[i + 1]);
        }
        assert(e =~= bytes::ascii_bytes(extension));
    }
}

/// Which files are left out, in terms of the bytes of their names.
pub proof fn lemma_left_out(wheel: InstalledWheel, entry: PathView)
    ensures
        wheel.is_ignored(entry) <==> is_left_out(wheel.dist_info_dir@, entry),
{
    reveal_strlit("pyc");
    reveal_strlit("pyo");
    reveal_strlit("pyd");
    reveal_strlit(".pyc");
    reveal_strlit(".pyo");
    reveal_strlit(".pyd");
    lemma_below(entry, wheel.dist_info_dir@);
    if entry.components.len() > 0 && entry.components.last() is Normal {
        let name = entry.components.last()->Normal_0;
        lemma_spells(name, "RECORD"@);
        lemma_spells(name, "INSTALLER"@);
        lemma_spells(name, "REQUESTED"@);
        lemma_extension(name, "pyc"@, ".pyc"@);
        lemma_extension(name, "pyo"@, ".pyo"@);
        lemma_extension(name, "pyd"@, ".pyd"@);
    }
}

/// What becomes of a recorded file. It is left out only if installers write it themselves. Else it
/// stays where it is recorded, if that is below the root of the wheel, which is so if the path is
/// relative and has names and `.` only; and all others are looked up, a relative path from where the
/// root of the wheel is installed.
pub proof fn law_recorded_files(
    wheel: &InstalledWheel,
    paths: &InstallPaths,
    entry: &FilePath,
    plan: EntryPlan,
    from_root: FilePath,
)
    requires
        call_ensures(InstalledWheel::plan_entry, (wheel, paths, entry), plan),
        wheel.root_is_purelib ==> call_ensures(
            FilePath::join,
            (paths.purelib, entry),
            from_root,
        ),
        !wheel.root_is_purelib ==> call_ensures(
            FilePath::join,
            (paths.platlib, entry),
            from_root,
        ),
    ensures
        plan is Ignore <==> is_left_out(wheel.dist_info_dir@, entry@),
        plan is Keep <==> {
            &&& !is_left_out(wheel.dist_info_dir@, entry@)
            &&& !entry@.is_absolute
            &&& forall|i: int|
                0 <= i < entry@.components.len() ==> (#[trigger] entry@.components[i] is Normal
                    || entry@.components[i] is CurDir)
        },
        plan matches EntryPlan::Resolve(path) ==> path@ == if entry@.is_absolute {
            entry@
        } else {
            from_root@
        },
{
    lemma_left_out(*wheel, entry@);
}

/// A recorded file with a name that ends otherwise is packed.
pub proof fn law_other_names_are_packed(
    wheel: &InstalledWheel,
    paths: &InstallPaths,
    entry: &FilePath,
    plan: EntryPlan,
    name: Seq<u8>,
)
    requires
        call_ensures(InstalledWheel::plan_entry, (wheel, paths, entry), plan),
        has_name(entry@, name),
        !spells(name, "RECORD"@),
        !spells(name, "INSTALLER"@),
        !spells(name, "REQUESTED"@),
        name.len() < 4 || !(name[name.len() - 4] == 0x2e && name[name.len() - 3] == 0x70
            && name[name.len() - 2] == 0x79 && (name[name.len() - 1] == 0x63 || name[name.len() - 1]
            == 0x6f || name[name.len() - 1] == 0x64)),
    ensures
        !(plan is Ignore),
{
    lemma_left_out(*wheel, entry@);
    reveal_strlit(".pyc");
    reveal_strlit(".pyo");
    reveal_strlit(".pyd");
    let n = name.len() as int;
    if n >= 5 {
        assert(spells_at(name, n - 4, ".pyc"@) ==> name[n - 4 + 0] == 0x2e && name[n - 4 + 1] == 0x70
            && name[n - 4 + 2] == 0x79 && name[n - 4 + 3] == 0x63);
        assert(spells_at(name, n - 4, ".pyo"@) ==> name[n - 4 + 0] == 0x2e && name[n - 4 + 1] == 0x70
            && name[n - 4 + 2] == 0x79 && name[n - 4 + 3] == 0x6f);
        assert(spells_at(name, n - 4, ".pyd"@) ==> name[n - 4 + 0] == 0x2e && name[n - 4 + 1] == 0x70
            && name[n - 4 + 2] == 0x79 && name[n - 4 + 3] == 0x64);
    }
}

/// `rest` is a file directly in a directory, whose name up to the last dot is that of a script that
/// installers make from an entry point.
pub open spec fn is_made_script(wheel: InstalledWheel, rest: PathView) -> bool {
    &&& rest.components.len() == 1
    &&& rest.components[0] matches ComponentView::Normal(name)
    &&& exists|end: int, k: int|
        {
            &&& #[trigger] stem_ends(name, end)
            &&& vstd::utf8::valid_utf8(name.subrange(0, end))
            &&& 0 <= k < wheel.scripts@.len()
            &&& #[trigger] wheel.scripts@[k]@ == vstd::utf8::decode_utf8(name.subrange(0, end))
        }
}

/// Every name has a stem.
proof fn lemma_has_stem(name: Seq<u8>) -> (end: int)
    ensures
        stem_ends(name, end),
        0 <= end <= name.len(),
{
    lemma_last_dot(name);
    let dot = file_path::last_dot(name);
    if dot > 0 {
        dot
    } else {
        name.len() as int
    }
}

/// Which files among the scripts are made from entry points.
proof fn lemma_made_script(wheel: InstalledWheel, rest: PathView)
    ensures
        wheel.is_entry_point(rest) <==> is_made_script(wheel, rest),
{
    if rest.components.len() > 0 && rest.components.last() is Normal {
        let name = rest.components.last()->Normal_0;
        let end = lemma_has_stem(name);
        lemma_stem(name, end);
        if wheel.is_entry_point(rest) {
            let k = choose|k: int|
                0 <= k < wheel.scripts@.len() && #[trigger] wheel.scripts@[k]@
                    == vstd::utf8::decode_utf8(file_path::name_stem(name));
            assert(rest.parent() is Some);
            assert(rest.components.len() == 1);
            assert(stem_ends(name, end));
            assert(wheel.scripts@[k]@ == vstd::utf8::decode_utf8(name.subrange(0, end)));
        }
        if is_made_script(wheel, rest) {
            let (e, k) = choose|e: int, k: int|
                {
                    &&& #[trigger] stem_ends(name, e)
                    &&& vstd::utf8::valid_utf8(name.subrange(0, e))
                    &&& 0 <= k < wheel.scripts@.len()
                    &&& #[trigger] wheel.scripts@[k]@ == vstd::utf8::decode_utf8(
                        name.subrange(0, e),
                    )
                };
            lemma_stem(name, e);
            assert(wheel.makes_script(file_path::name_stem(name)));
        }
    }
}

/// The file goes to the part `part` of the data directory of the wheel, there to `rest`.
pub open spec fn goes_to(
    placement: FilePlacement,
    wheel: InstalledWheel,
    part: Seq<char>,
    rest: PathView,
    script: bool,
) -> bool {
    &&& placement matches FilePlacement::At { dst, is_script }
    &&& is_script == script
    &&& exists|name: Seq<u8>| #[trigger] spells(name, part) && dst@ == named_in(
        wheel.data_dir@,
        name,
    ).join(rest)
}

/// Where an installed file goes. Each part of a wheel takes every file below its directory, however
/// far, that is below no directory of an earlier part; the parts are the scripts, the headers of the
/// project, the platform specific modules, the other modules and the data, in that order. In its part
/// the file keeps its path below that directory. Only the scripts that installers make from entry
/// points are left out, and only files in none of these directories have no place.
pub proof fn law_placement(
    wheel: &InstalledWheel,
    paths: &InstallPaths,
    path: &FilePath,
    placement: FilePlacement,
    headers: FilePath,
    rest: PathView,
)
    requires
        call_ensures(InstalledWheel::place_file, (wheel, paths, path), placement),
        call_ensures(InstallPaths::headers_at, (paths, &wheel.project_path), headers),
    ensures
        ({
            let scripts = paths.scripts@;
            let platlib = paths.platlib@;
            let purelib = paths.purelib@;
            let data = paths.data@;
            if is_below(path@, scripts) {
                is_rest(rest, path@, scripts.components.len() as int) ==> if is_made_script(
                    *wheel,
                    rest,
                ) {
                    placement is Ignore
                } else {
                    goes_to(placement, *wheel, "scripts"@, rest, true)
                }
            } else if is_below(path@, headers@) {
                is_rest(rest, path@, headers@.components.len() as int) ==> goes_to(
                    placement,
                    *wheel,
                    "headers"@,
                    rest,
                    false,
                )
            } else if is_below(path@, platlib) {
                is_rest(rest, path@, platlib.components.len() as int) ==> goes_to(
                    placement,
                    *wheel,
                    "platlib"@,
                    rest,
                    false,
                )
            } else if is_below(path@, purelib) {
                is_rest(rest, path@, purelib.components.len() as int) ==> goes_to(
                    placement,
                    *wheel,
                    "purelib"@,
                    rest,
                    false,
                )
            } else if is_below(path@, data) {
                is_rest(rest, path@, data.components.len() as int) ==> goes_to(
                    placement,
                    *wheel,
                    "data"@,
                    rest,
                    false,
                )
            } else {
                placement is Nowhere
            }
        }),
{
    lemma_below(path@, paths.scripts@);
    lemma_below(path@, headers@);
    lemma_below(path@, paths.platlib@);
    lemma_below(path@, paths.purelib@);
    lemma_below(path@, paths.data@);
    lemma_part_name("scripts"@);
    lemma_part_name("headers"@);
    lemma_part_name("platlib"@);
    lemma_part_name("purelib"@);
    lemma_part_name("data"@);
    lemma_made_script(*wheel, rest);
    assert forall|dir: PathView|
        #[trigger] is_below(path@, dir) && is_rest(rest, path@, dir.components.len() as int) implies
        path@.strip_prefix(dir) == Some(rest) by {
        lemma_rest(path@, dir, rest);
    }
}

/// The bytes of a part's name spell it.
proof fn lemma_part_name(part: Seq<char>)
    ensures
        spells(bytes::ascii_bytes(part), part),
{
    lemma_spells(bytes::ascii_bytes(part), part);
}

/// Where a file goes to below a data directory that is a name, in terms of the components: the data
/// directory, the name of the part, and then all components of the path below that part, as many as
/// there are.
pub proof fn law_places_keep_the_path_below(
    wheel: InstalledWheel,
    placement: FilePlacement,
    part: Seq<char>,
    rest: PathView,
    script: bool,
)
    requires
        goes_to(placement, wheel, part, rest, script),
        !starts_verbatim(wheel.data_dir@),
        !rest.is_absolute,
        rest.components.len() > 0 ==> rest.components[0] is Normal || rest.components[0] is ParentDir,
    ensures
        placement matches FilePlacement::At { dst, .. } && {
            let n = wheel.data_dir@.components.len() as int;
            &&& dst@.is_absolute == wheel.data_dir@.is_absolute
            &&& dst@.components.len() == n + 1 + rest.components.len()
            &&& forall|i: int|
                0 <= i < n ==> #[trigger] dst@.components[i] == wheel.data_dir@.components[i]
            &&& dst@.components[n] matches ComponentView::Normal(name)
            &&& spells(name, part)
            &&& forall|i: int|
                0 <= i < rest.components.len() ==> dst@.components[n + 1 + i]
                    == #[trigger] rest.components[i]
        },
{
    let dst = placement->dst;
    let name = choose|name: Seq<u8>| #[trigger] spells(name, part) && dst@ == named_in(
        wheel.data_dir@,
        name,
    ).join(rest);
    let dir = named_in(wheel.data_dir@, name);
    let n = wheel.data_dir@.components.len() as int;
    assert(dir.components =~= wheel.data_dir@.components.push(ComponentView::Normal(name)));
    if n > 0 {
        assert(dir.components[0] == wheel.data_dir@.components[0]);
    }
    assert(dst@.components =~= dir.components + rest.components);
}

/// A wheel is loaded if and only if its metadata directory has a parent, and holds what the parts of
/// its metadata say; without a file of entry points there are no scripts of them. The path of the
/// project is the one that its name is.
pub proof fn law_load(
    dist_info_dir: &FilePath,
    parts: WheelParts,
    wheel: Result<InstalledWheel, LoadError>,
    name: Seq<u8>,
)
    requires
        call_ensures(InstalledWheel::load, (dist_info_dir, parts), wheel),
        name == vstd::utf8::encode_utf8(parts.project_name@),
    ensures
        ({
            let n = dist_info_dir@.components.len();
            wheel is Err <==> n == 0 || dist_info_dir@.components[n - 1] is RootDir
                || dist_info_dir@.components[n - 1] is Prefix
        }),
        wheel matches Ok(w) ==> {
            &&& w.project_name@ == parts.project_name@
            &&& is_plain_text(name) ==> is_plain_text_path(w.project_path@, name)
            &&& w.version@ == parts.version@
            &&& w.record@ == parts.record@
            &&& w.dist_info_dir@ == parts.dist_info_dir@
            &&& w.data_dir@ == parts.data_dir@
            &&& w.root_is_purelib == parts.root_is_purelib
            &&& match parts.scripts {
                Some(scripts) => w.scripts@ == scripts@,
                None => w.scripts@.len() == 0,
            }
        },
{
    if is_plain_text(name) {
        if let Ok(w) = wheel {
            lemma_plain_text(w.project_path@, name);
        }
    }
}

/// The directory that a wheel is installed in is that of its metadata less the last component.
pub proof fn law_installed_wheel_dir(dist_info_dir: &FilePath, dir: Result<FilePath, LoadError>)
    requires
        call_ensures(wheel::installed_wheel_dir, (dist_info_dir,), dir),
    ensures
        ({
            let n = dist_info_dir@.components.len();
            dir is Err <==> n == 0 || dist_info_dir@.components[n - 1] is RootDir
                || dist_info_dir@.components[n - 1] is Prefix
        }),
        dir matches Ok(d) ==> {
            &&& d@.is_absolute == dist_info_dir@.is_absolute
            &&& d@.components.len() == dist_info_dir@.components.len() - 1
            &&& forall|i: int|
                0 <= i < d@.components.len() ==> #[trigger] d@.components[i]
                    == dist_info_dir@.components[i]
        },
{
}

/// The files before index `i` from `next` on are left out, and the one at `i` is not or there is
/// none.
pub open spec fn is_next(wheel: InstalledWheel, next: int, i: int) -> bool {
    &&& next <= i <= wheel.record@.len()
    &&& forall|j: int|
        next <= j < i ==> is_left_out(wheel.dist_info_dir@, (#[trigger] wheel.record@[j])@)
    &&& i < wheel.record@.len() ==> !is_left_out(wheel.dist_info_dir@, wheel.record@[i]@)
}

/// The next file that is packed.
proof fn lemma_next(wheel: InstalledWheel, next: int, i: int)
    requires
        0 <= next,
        is_next(wheel, next, i),
    ensures
        wheel.next_packed(next) == i,
    decreases i - next,
{
    if next < i {
        assert(is_left_out(wheel.dist_info_dir@, wheel.record@[next]@));
        lemma_left_out(wheel, wheel.record@[next]@);
        lemma_next(wheel, next + 1, i);
    } else if i < wheel.record@.len() {
        lemma_left_out(wheel, wheel.record@[i]@);
    }
}

/// A step from a file on: all files up to the next that is not left out are passed over. That one is
/// reported with its recorded path, or its path is asked for, as is planned for it. Behind the last
/// file packing is at its end.
pub proof fn law_step_to_the_next_file(
    wheel: &InstalledWheel,
    paths: &InstallPaths,
    next: usize,
    step: (PackState, PackAction),
    i: int,
    plan: EntryPlan,
)
    requires
        call_ensures(
            InstalledWheel::pack,
            (wheel, paths, PackState::Next(next), PackEvent::Continue),
            step,
        ),
        is_next(*wheel, next as int, i),
        i < wheel.record@.len() ==> call_ensures(
            InstalledWheel::plan_entry,
            (wheel, paths, &wheel.record@[i]),
            plan,
        ),
    ensures
        i == wheel.record@.len() ==> step.0 is Finished && step.1 is Finish,
        i < wheel.record@.len() ==> match plan {
            EntryPlan::Ignore => false,
            EntryPlan::Keep => {
                &&& step.0 matches PackState::Next(n)
                &&& n == i + 1
                &&& step.1 matches PackAction::Report(Report::Copy { entry, dst })
                &&& entry == i
                &&& dst@ == wheel.record@[i]@
            },
            EntryPlan::Resolve(path) => {
                &&& step.0 matches PackState::Resolving(entry)
                &&& entry == i
                &&& step.1 matches PackAction::Resolve(asked)
                &&& asked@ == path@
            },
        },
{
    lemma_next(*wheel, next as int, i);
    if i < wheel.record@.len() {
        lemma_left_out(*wheel, wheel.record@[i]@);
    }
}

/// A step with what the path of a file leads to: the file is reported with its place, read where it
/// may be a script, or passed over where it is made from an entry point; packing stops where it has
/// no place.
pub proof fn law_step_with_a_resolved_path(
    wheel: &InstalledWheel,
    paths: &InstallPaths,
    entry: usize,
    path: FilePath,
    step: (PackState, PackAction),
    placement: FilePlacement,
    next_step: (PackState, PackAction),
)
    requires
        call_ensures(
            InstalledWheel::pack,
            (wheel, paths, PackState::Resolving(entry), PackEvent::Resolved(path)),
            step,
        ),
        call_ensures(InstalledWheel::place_file, (wheel, paths, &path), placement),
        entry < wheel.record@.len(),
        entry < usize::MAX,
        call_ensures(
            InstalledWheel::pack,
            (wheel, paths, PackState::Next((entry + 1) as usize), PackEvent::Continue),
            next_step,
        ),
    ensures
        match placement {
            FilePlacement::Ignore => step.0@ == next_step.0@ && step.1@ == next_step.1@,
            FilePlacement::At { dst, is_script: true } => {
                &&& step.0 matches PackState::Reading { entry: e, dst: d }
                &&& e == entry
                &&& d@ == dst@
                &&& step.1 matches PackAction::Read(asked)
                &&& asked@ == path@
            },
            FilePlacement::At { dst, is_script: false } => {
                &&& step.0 matches PackState::Next(n)
                &&& n == entry + 1
                &&& step.1 matches PackAction::Report(Report::Copy { entry: e, dst: d })
                &&& e == entry
                &&& d@ == dst@
            },
            FilePlacement::Nowhere => {
                &&& step.0 is Finished
                &&& step.1 matches PackAction::Fail(PackError::UnexpectedPath(e))
                &&& e == entry
            },
        },
{
}

/// What becomes of a script: it is reported with its original, which is the text of a text file and
/// the path of an executable, and with what it is once it has its placeholder shebang; it has to be
/// text in both cases, as far as it is shown.
pub open spec fn is_script_report(
    action: PackAction,
    found: PythonScript,
    contents: Seq<u8>,
) -> bool {
    match found.re_written(contents) {
        None => action matches PackAction::Fail(PackError::Rewrite(RewriteError::BadArchive(_))),
        Some(written) => match found {
            PythonScript::Posix { .. } => if !vstd::utf8::valid_utf8(contents) {
                action matches PackAction::Fail(PackError::OriginalNotUtf8)
            } else if !vstd::utf8::valid_utf8(written) {
                action matches PackAction::Fail(PackError::ReWrittenNotUtf8)
            } else {
                &&& action matches PackAction::Report(
                    Report::Rewrite { original: Original::Text(text), re_written },
                )
                &&& vstd::utf8::encode_utf8(text@) == contents
                &&& vstd::utf8::encode_utf8(re_written@) == written
            },
            PythonScript::Windows { path, .. } => if !vstd::utf8::valid_utf8(written) {
                action matches PackAction::Fail(PackError::ReWrittenNotUtf8)
            } else {
                &&& action matches PackAction::Report(
                    Report::Rewrite { original: Original::File(p), re_written },
                )
                &&& p == path
                &&& vstd::utf8::encode_utf8(re_written@) == written
            },
        },
    }
}

/// What is reported of a script.
proof fn lemma_script_report(action: PackAction, found: PythonScript, contents: Seq<u8>)
    requires
        action@ == wheel::rewrite_action(found, contents),
    ensures
        is_script_report(action, found, contents),
{
    if vstd::utf8::valid_utf8(contents) {
        vstd::utf8::decode_utf8_encode_utf8(contents);
    }
    if let Some(written) = found.re_written(contents) {
        if vstd::utf8::valid_utf8(written) {
            vstd::utf8::decode_utf8_encode_utf8(written);
        }
    }
}

/// What is reported of a script, given what its file holds.
pub proof fn law_report_rewrite(script: PythonScript, contents: &[u8], action: PackAction)
    requires
        call_ensures(wheel::report_rewrite, (script, contents), action),
    ensures
        is_script_report(action, script, contents@),
{
    lemma_script_report(action, script, contents@);
}

/// What is reported of a file that was looked at as a script: what became of it as one, or its place
/// where it is none, or why that cannot be told.
pub proof fn law_report_script(
    found: Result<Option<PythonScript>, DetectError>,
    entry: usize,
    dst: FilePath,
    contents: &[u8],
    action: PackAction,
)
    requires
        call_ensures(wheel::report_script, (found, entry, dst, contents), action),
    ensures
        match found {
            Err(why) => action matches PackAction::Fail(PackError::Detect(e)) && e == why,
            Ok(None) => {
                &&& action matches PackAction::Report(Report::Copy { entry: e, dst: d })
                &&& e == entry
                &&& d@ == dst@
            },
            Ok(Some(script)) => is_script_report(action, script, contents@),
        },
{
    if let Ok(Some(script)) = found {
        lemma_script_report(action, script, contents@);
    }
}

/// A step with what a file among the scripts holds: what is reported is what is reported of it as the
/// script that it is, and packing goes on with the next file unless that is an error.
pub proof fn law_step_with_a_file(
    wheel: &InstalledWheel,
    paths: &InstallPaths,
    entry: usize,
    dst: FilePath,
    path: PathBuf,
    contents: Vec<u8>,
    is_executable: bool,
    step: (PackState, PackAction),
    held: &[u8],
    found: Result<Option<PythonScript>, DetectError>,
)
    requires
        call_ensures(
            InstalledWheel::pack,
            (
                wheel,
                paths,
                PackState::Reading { entry, dst },
                PackEvent::Read { path, contents, is_executable },
            ),
            step,
        ),
        entry < wheel.record@.len(),
        held@ == contents@,
        call_ensures(
            PythonScript::detect,
            (path, held, paths.python_version, is_executable),
            found,
        ),
    ensures
        match found {
            Err(why) => step.1 matches PackAction::Fail(PackError::Detect(e)) && e == why,
            Ok(None) => {
                &&& step.1 matches PackAction::Report(Report::Copy { entry: e, dst: d })
                &&& e == entry
                &&& d@ == dst@
            },
            Ok(Some(script)) => is_script_report(step.1, script, contents@),
        },
        if step.1 is Fail {
            step.0 is Finished
        } else {
            step.0 matches PackState::Next(n) && n == entry + 1
        },
{
    if let Ok(Some(script)) = found {
        lemma_script_report(step.1, script, contents@);
    }
}

/// Packing that is at its end stays there.
pub proof fn law_packing_stays_finished(
    wheel: &InstalledWheel,
    paths: &InstallPaths,
    step: (PackState, PackAction),
)
    requires
        call_ensures(
            InstalledWheel::pack,
            (wheel, paths, PackState::Finished, PackEvent::Continue),
            step,
        ),
    ensures
        step.0 is Finished,
        step.1 is Finish,
{
}

/// Packing can be started on every wheel, and it can go on from the state that each step leads to,
/// with whatever comes of what the step asked for.
pub proof fn law_packing_can_go_on(
    wheel: &InstalledWheel,
    paths: &InstallPaths,
    state: PackState,
    event: PackEvent,
    step: (PackState, PackAction),
    next_event: PackEvent,
)
    requires
        call_ensures(InstalledWheel::pack, (wheel, paths, state, event), step),
        match step.0 {
            PackState::Next(_) => next_event is Continue,
            PackState::Resolving(_) => next_event is Resolved,
            PackState::Reading { .. } => next_event is Read,
            PackState::Finished => next_event is Continue,
        },
    ensures
        call_requires(
            InstalledWheel::pack,
            (wheel, paths, PackState::Next(0), PackEvent::Continue),
        ),
        call_requires(InstalledWheel::pack, (wheel, paths, step.0, next_event)),
{
}

/// Each step asks for what the state that it leads to waits for: a path to be resolved, a file to be
/// read, or nothing but that its report was taken.
pub proof fn law_steps_ask_for_what_comes_next(
    wheel: &InstalledWheel,
    paths: &InstallPaths,
    state: PackState,
    event: PackEvent,
    step: (PackState, PackAction),
)
    requires
        call_ensures(InstalledWheel::pack, (wheel, paths, state, event), step),
        match state {
            PackState::Next(_) => event is Continue,
            PackState::Resolving(_) => event is Resolved,
            PackState::Reading { .. } => event is Read,
            PackState::Finished => event is Continue,
        },
    ensures
        step.0 is Next <==> step.1 is Report,
        step.0 is Resolving <==> step.1 is Resolve,
        step.0 is Reading <==> step.1 is Read,
        step.0 is Finished <==> step.1 is Finish || step.1 is Fail,
{
}

/// Every wheel and every path can be planned and placed, and what is reported of a file can be
/// worked out for everything that it may be told to be.
pub proof fn law_every_file_can_be_packed(
    wheel: &InstalledWheel,
    paths: &InstallPaths,
    entry: &FilePath,
    path: PathBuf,
    contents: &[u8],
    is_executable: bool,
    found: Result<Option<PythonScript>, DetectError>,
    i: usize,
    dst: FilePath,
    parts: WheelParts,
)
    requires
        call_ensures(
            PythonScript::detect,
            (path, contents, paths.python_version, is_executable),
            found,
        ),
    ensures
        call_requires(InstalledWheel::plan_entry, (wheel, paths, entry)),
        call_requires(InstalledWheel::place_file, (wheel, paths, entry)),
        call_requires(InstalledWheel::load, (entry, parts)),
        call_requires(wheel::report_script, (found, i, dst, contents)),
        found matches Ok(Some(script)) ==> call_requires(
            wheel::report_rewrite,
            (script, contents),
        ),
{
}

} // verus!
