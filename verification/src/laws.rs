//! What holds of scripts, of packing and of paths as a whole.

use std::path::PathBuf;

use vstd::prelude::*;

use crate::bytes;
use crate::file_path;
use crate::file_path::{name_path, ComponentView, PathView};
use crate::install;
use crate::install::{InstallPaths, SysconfigPath, Virtualenv};
use crate::script;
use crate::script::{DetectError, PythonScript, Shebang};
use crate::version::PythonVersion;
use crate::wheel::{
    ActionView, EventView, InstalledWheel, Placement, Scheme, StateView,
};

verus! {

/// The placeholder shebang is a shebang, and its interpreter's name is a placeholder.
proof fn lemma_placeholder(contents: Seq<u8>, is_windowed: bool, version: PythonVersion)
    requires
        ({
            let p = script::placeholder(is_windowed);
            &&& p.len() <= contents.len()
            &&& contents.subrange(0, p.len() as int) == p
            &&& p.len() < contents.len() ==> bytes::is_whitespace(contents[p.len() as int])
        }),
    ensures
        script::shebang(contents, version) == Ok::<Option<Shebang>, DetectError>(
            Some(
                Shebang {
                    end: script::placeholder(is_windowed).len() as int,
                    windowed: is_windowed,
                    extra: None,
                },
            ),
        ),
{
    let p = script::placeholder(is_windowed);
    reveal_strlit("#!");
    reveal_strlit("#!python");
    reveal_strlit("#!pythonw");
    reveal_strlit("python");
    reveal_strlit("pythonw");
    assert forall|i: int| 0 <= i < p.len() implies contents[i] == p[i] by {
        assert(contents.subrange(0, p.len() as int)[i] == contents[i]);
    }
    assert forall|i: int| 2 <= i < p.len() implies !bytes::is_whitespace(#[trigger] contents[i]) by {
        assert(contents[i] == p[i]);
    }
    bytes::lemma_whitespace_from_is(contents, 2, p.len() as int);
    assert(contents.subrange(0, 2) =~= bytes::ascii_bytes("#!"@));
    let name = if is_windowed {
        bytes::ascii_bytes("pythonw"@)
    } else {
        bytes::ascii_bytes("python"@)
    };
    assert(script::interpreter(contents) =~= name);
    assert(bytes::ascii_bytes("pythonw"@).len() != bytes::ascii_bytes("python"@).len());
}

/// What giving a script its placeholder shebang makes of a file with that shebang.
proof fn lemma_re_written(
    path: PathBuf,
    contents: Seq<u8>,
    version: PythonVersion,
    found: Shebang,
)
    requires
        contents.len() <= usize::MAX,
        script::shebang(contents, version) == Ok::<Option<Shebang>, DetectError>(Some(found)),
    ensures
        script::posix_script(path, found).re_written(contents) == Some(
            script::posix_re_written(contents, found.windowed, found.end, found.extra),
        ),
{
    script::lemma_shebang(contents, version);
}

/// A script that was given its placeholder shebang is a script again, of every Python: one with that
/// placeholder, without a console window if and only if it was so before, and with nothing else in
/// its shebang. To give it its placeholder once more changes nothing. This needs the placeholder to
/// be followed by white space, which it is unless the part that starts the interpreter follows the
/// shebang line at once and that line goes on behind the interpreter's name.
pub proof fn law_re_written_is_a_script(
    path: PathBuf,
    contents: Seq<u8>,
    version: PythonVersion,
    other_version: PythonVersion,
    found: PythonScript,
    written: Seq<u8>,
)
    requires
        contents.len() <= usize::MAX,
        script::posix_detection(path, contents, version) == Ok::<
            Option<PythonScript>,
            DetectError,
        >(Some(found)),
        found.re_written(contents) == Some(written),
        found matches PythonScript::Posix {
            shebang_end,
            extra_shebang_content: Some(range),
            ..
        } ==> range.start == shebang_end ==> bytes::is_whitespace(contents[range.end as int]),
    ensures
        ({
            let again = PythonScript::Posix {
                path,
                shebang_end: script::placeholder(found.windowed()).len() as usize,
                is_windowed: found.windowed(),
                extra_shebang_content: None,
            };
            &&& script::posix_detection(path, written, other_version) == Ok::<
                Option<PythonScript>,
                DetectError,
            >(Some(again))
            &&& again.re_written(written) == Some(written)
        }),
{
    let s = script::shebang(contents, version)->Ok_0->0;
    lemma_re_written(path, contents, version, s);
    let p = script::placeholder(s.windowed);
    reveal_strlit("#!python");
    reveal_strlit("#!pythonw");
    script::lemma_shebang(contents, version);
    if 2 <= contents.len() {
        script::lemma_redirector(contents);
    }
    assert(written.subrange(0, p.len() as int) =~= p);
    if p.len() < written.len() {
        match s.extra {
            None => {
                assert(written[p.len() as int] == contents[s.end]);
            },
            Some((from, to)) => {
                if from == s.end {
                    assert(written[p.len() as int] == contents[to]);
                } else {
                    assert(written[p.len() as int] == contents[s.end]);
                }
            },
        }
    }
    lemma_placeholder(written, s.windowed, other_version);
    assert(script::posix_re_written(written, s.windowed, p.len() as int, None) =~= written);
}

/// Of a script whose shebang is one line, all that follows the interpreter's name stays: its
/// arguments and the script.
pub proof fn law_arguments_and_body_stay(
    path: PathBuf,
    contents: Seq<u8>,
    version: PythonVersion,
    found: Shebang,
)
    requires
        contents.len() <= usize::MAX,
        script::shebang(contents, version) == Ok::<Option<Shebang>, DetectError>(Some(found)),
        found.extra is None,
    ensures
        script::posix_script(path, found).re_written(contents) == Some(
            script::placeholder(found.windowed) + contents.subrange(
                found.end,
                contents.len() as int,
            ),
        ),
{
    lemma_re_written(path, contents, version, found);
    script::lemma_shebang(contents, version);
    assert(script::tail(contents, found.end) =~= contents.subrange(
        found.end,
        contents.len() as int,
    ));
}

/// Of a script that `/bin/sh` hands on to Python, just the lines that start the interpreter go where
/// nothing but a line feed follows `/bin/sh` in its line: an encoding declared behind that line and
/// the script stay, and the placeholder is followed by white space. Where more follows `/bin/sh`, what
/// goes lies as many bytes before those lines as follow, and it comes to the same only where the bytes
/// in between are the same as those at the end of the lines.
pub proof fn law_redirector_lines_go(
    path: PathBuf,
    contents: Seq<u8>,
    version: PythonVersion,
    found: Shebang,
    opening: int,
    closing: int,
)
    requires
        contents.len() <= usize::MAX,
        script::shebang(contents, version) == Ok::<Option<Shebang>, DetectError>(Some(found)),
        found.extra is Some,
        script::redirector_lines(contents) == Ok::<Option<(int, int)>, DetectError>(
            Some((opening, closing)),
        ),
    ensures
        ({
            let back = script::rest_of_line(contents);
            let only_the_lines_go = script::posix_script(path, found).re_written(contents) == Some(
                script::placeholder(found.windowed) + contents.subrange(found.end, opening)
                    + contents.subrange(closing, contents.len() as int),
            );
            &&& back == 1 ==> only_the_lines_go
            &&& back == 1 ==> (found.extra matches Some((_, to)) && bytes::is_whitespace(
                contents[to],
            ))
            &&& only_the_lines_go <==> contents.subrange(opening - back, opening)
                == contents.subrange(closing - back, closing)
        }),
{
    lemma_re_written(path, contents, version, found);
    script::lemma_shebang(contents, version);
    script::lemma_redirector(contents);
    script::lemma_interpreter_end(contents);
    let back = script::rest_of_line(contents);
    assert(found.extra == Some((opening - back, closing - back)));
    let p = script::placeholder(found.windowed);
    let written = script::posix_re_written(contents, found.windowed, found.end, found.extra);
    let expected = p + contents.subrange(found.end, opening) + contents.subrange(
        closing,
        contents.len() as int,
    );
    let moved = contents.subrange(opening - back, opening);
    let ending = contents.subrange(closing - back, closing);
    assert(written =~= p + contents.subrange(found.end, opening - back) + ending
        + contents.subrange(closing, contents.len() as int));
    assert(expected =~= p + contents.subrange(found.end, opening - back) + moved
        + contents.subrange(closing, contents.len() as int));
    if written == expected {
        let at = (p + contents.subrange(found.end, opening - back)).len() as int;
        assert(written.subrange(at, at + back) =~= ending);
        assert(expected.subrange(at, at + back) =~= moved);
    }
    if back == 1 {
        assert(moved =~= ending);
    }
}

/// Whether a script with a placeholder shebang or with `/bin/sh` is one of Python does not depend on
/// the version of the Python.
pub proof fn law_version_is_for_named_pythons(
    contents: Seq<u8>,
    one: PythonVersion,
    other: PythonVersion,
)
    requires
        script::interpreter(contents) == bytes::ascii_bytes("python"@) || script::interpreter(
            contents,
        ) == bytes::ascii_bytes("pythonw"@) || script::interpreter(contents) == bytes::ascii_bytes(
            "/bin/sh"@,
        ),
    ensures
        script::shebang(contents, one) == script::shebang(contents, other),
{
}

/// Names are added to a path with a verbatim prefix as they are.
proof fn lemma_verbatim_names(components: Seq<ComponentView>, names: Seq<ComponentView>)
    requires
        forall|i: int| 0 <= i < names.len() ==> #[trigger] names[i] is Normal,
    ensures
        file_path::verbatim_join(components, names) == components + names,
    decreases names.len(),
{
    if names.len() == 0 {
        assert(components + names =~= components);
    } else {
        let before = names.drop_last();
        assert forall|i: int| 0 <= i < before.len() implies #[trigger] before[i] is Normal by {
            assert(before[i] == names[i]);
        }
        lemma_verbatim_names(components, before);
        assert(names[names.len() - 1] is Normal);
        assert((components + before).push(names.last()) =~= components + names);
    }
}

/// Names that are joined to a path are added to its components.
proof fn lemma_join_names(base: PathView, rest: PathView)
    requires
        base.grows_by_names(),
        rest.is_names(),
    ensures
        base.join(rest) == (PathView {
            is_absolute: base.is_absolute,
            components: base.components + rest.components,
        }),
{
    assert(rest.components.len() > 0 ==> rest.components[0] is Normal);
    assert(base.components + rest.components =~= base.components || rest.components.len() > 0);
    if base.is_verbatim() {
        lemma_verbatim_names(base.components, rest.components);
        assert((base.components + rest.components)[1] == base.components[1]);
    }
}

/// What follows a rooted directory in a canonical path is names only, and it leads from that
/// directory to the path again.
pub proof fn law_strip_then_join(path: PathView, base: PathView, rest: PathView)
    requires
        path.is_canonical(),
        base.is_rooted(),
        path.strip_prefix(base) == Some(rest),
    ensures
        rest.is_names(),
        base.join(rest) == path,
{
    let n = base.components.len() as int;
    assert forall|i: int| 0 <= i < n implies base.components[i] == path.components[i] by {
        assert(path.components.subrange(0, n)[i] == path.components[i]);
    }
    assert forall|i: int| 0 <= i < rest.components.len() implies #[trigger]
        rest.components[i] is Normal by {
        assert(rest.components[i] == path.components[n + i]);
        assert(base.components[0] == path.components[0]);
    }
    lemma_join_names(base, rest);
    assert(base.join(rest).components =~= path.components);
}

/// A path that goes down from a directory by names is below it by those names.
pub proof fn law_join_then_strip(base: PathView, rest: PathView)
    requires
        rest.is_names(),
        base.grows_by_names(),
        base.is_absolute ==> base.components.len() > 0,
    ensures
        base.join(rest).strip_prefix(base) == Some(rest),
{
    let joined = base.join(rest);
    let n = base.components.len() as int;
    lemma_join_names(base, rest);
    assert(joined.components.subrange(0, n) =~= base.components);
    assert(joined.components.subrange(n, joined.components.len() as int) =~= rest.components);
}

/// The place of a file whose path below its part is names only.
proof fn lemma_spread(wheel: InstalledWheel, scheme: Scheme, rest: PathView)
    requires
        rest.is_names(),
        wheel.data_dir@.grows_by_names(),
    ensures
        wheel.spread(scheme, rest).is_absolute == wheel.data_dir@.is_absolute,
        wheel.spread(scheme, rest).components == wheel.data_dir@.components.push(
            ComponentView::Normal(bytes::ascii_bytes(scheme.name())),
        ) + rest.components,
{
    let part = name_path(bytes::ascii_bytes(scheme.name()));
    assert(part.components[0] is Normal);
    lemma_join_names(wheel.data_dir@, part);
    let dir = wheel.data_dir@.join(part);
    assert(dir.components =~= wheel.data_dir@.components.push(
        ComponentView::Normal(bytes::ascii_bytes(scheme.name())),
    ));
    if wheel.data_dir@.components.len() > 0 {
        assert(dir.components[0] == wheel.data_dir@.components[0]);
    }
    if wheel.data_dir@.components.len() > 1 {
        assert(dir.components[1] == wheel.data_dir@.components[1]);
    }
    lemma_join_names(dir, rest);
}

/// The directories that a wheel's files are installed in start at a root.
pub open spec fn are_rooted(wheel: InstalledWheel, paths: InstallPaths) -> bool {
    forall|scheme: Scheme| #[trigger] wheel.scheme_dir(paths, scheme).is_rooted()
}

/// A file that is packed goes below the data directory of the wheel, to the part for the directory
/// that it is installed in, and its path below that part is the one that leads from the directory
/// to the installed file.
pub proof fn law_placed_by_the_path_it_is_installed_at(
    wheel: InstalledWheel,
    paths: InstallPaths,
    path: PathView,
    dst: PathView,
    is_script: bool,
)
    requires
        path.is_canonical(),
        are_rooted(wheel, paths),
        wheel.data_dir@.grows_by_names(),
        wheel.placement(paths, path) == (Placement::At { dst, is_script }),
    ensures
        dst.starts_with(wheel.data_dir@),
        dst.is_absolute == wheel.data_dir@.is_absolute,
        wheel.scheme_of(paths, path) matches Some(scheme) && {
            &&& path.strip_prefix(wheel.scheme_dir(paths, scheme)) matches Some(rest)
            &&& rest.is_names()
            &&& wheel.scheme_dir(paths, scheme).join(rest) == path
            &&& dst == wheel.spread(scheme, rest)
            &&& is_script == (scheme is Scripts)
        },
{
    let scheme = wheel.scheme_of(paths, path)->0;
    let base = wheel.scheme_dir(paths, scheme);
    assert(base.is_rooted());
    let rest = path.strip_prefix(base)->0;
    law_strip_then_join(path, base, rest);
    lemma_spread(wheel, scheme, rest);
    assert(dst.components.subrange(0, wheel.data_dir@.components.len() as int)
        =~= wheel.data_dir@.components);
}

/// The names of two parts differ.
proof fn lemma_scheme_names(one: Scheme, other: Scheme)
    requires
        bytes::ascii_bytes(one.name()) == bytes::ascii_bytes(other.name()),
    ensures
        one == other,
{
    reveal_strlit("scripts");
    reveal_strlit("headers");
    reveal_strlit("platlib");
    reveal_strlit("purelib");
    reveal_strlit("data");
    let a = bytes::ascii_bytes(one.name());
    let b = bytes::ascii_bytes(other.name());
    assert(a.len() == b.len());
    assert(a[0] == b[0] && a[1] == b[1]);
}

/// No two installed files that are placed by where they lie go to the same place.
pub proof fn law_no_two_files_in_one_place(
    wheel: InstalledWheel,
    paths: InstallPaths,
    one: PathView,
    other: PathView,
    dst: PathView,
    one_is_script: bool,
    other_is_script: bool,
)
    requires
        one.is_canonical(),
        other.is_canonical(),
        are_rooted(wheel, paths),
        wheel.data_dir@.grows_by_names(),
        wheel.placement(paths, one) == (Placement::At { dst, is_script: one_is_script }),
        wheel.placement(paths, other) == (Placement::At { dst, is_script: other_is_script }),
    ensures
        one == other,
{
    law_placed_by_the_path_it_is_installed_at(wheel, paths, one, dst, one_is_script);
    law_placed_by_the_path_it_is_installed_at(wheel, paths, other, dst, other_is_script);
    let s1 = wheel.scheme_of(paths, one)->0;
    let s2 = wheel.scheme_of(paths, other)->0;
    let r1 = one.strip_prefix(wheel.scheme_dir(paths, s1))->0;
    let r2 = other.strip_prefix(wheel.scheme_dir(paths, s2))->0;
    lemma_spread(wheel, s1, r1);
    lemma_spread(wheel, s2, r2);
    let n = wheel.data_dir@.components.len() as int;
    assert(dst.components[n] == ComponentView::Normal(bytes::ascii_bytes(s1.name())));
    assert(dst.components[n] == ComponentView::Normal(bytes::ascii_bytes(s2.name())));
    lemma_scheme_names(s1, s2);
    assert(dst.components.subrange(n + 1, dst.components.len() as int) =~= r1.components);
    assert(dst.components.subrange(n + 1, dst.components.len() as int) =~= r2.components);
    assert(r1 == r2);
}

/// The files between one that packing is at and the next that is packed are ignored.
pub proof fn law_only_ignored_files_are_passed_over(wheel: InstalledWheel, from: int)
    requires
        0 <= from <= wheel.record@.len(),
    ensures
        from <= wheel.next_packed(from) <= wheel.record@.len(),
        wheel.next_packed(from) < wheel.record@.len() ==> !wheel.is_ignored(
            wheel.record@[wheel.next_packed(from)]@,
        ),
        forall|i: int|
            from <= i < wheel.next_packed(from) ==> wheel.is_ignored(#[trigger] wheel.record@[i]@),
    decreases wheel.record@.len() - from,
{
    if from < wheel.record@.len() && wheel.is_ignored(wheel.record@[from]@) {
        law_only_ignored_files_are_passed_over(wheel, from + 1);
    }
}

/// How many recorded files are done in a state of packing.
pub open spec fn files_done(wheel: InstalledWheel, state: StateView) -> int {
    match state {
        StateView::Next(next) => next,
        StateView::Resolving(entry) => entry,
        StateView::Reading { entry, .. } => entry,
        StateView::Finished => wheel.record@.len() as int,
    }
}

/// How many steps of packing are left at most.
pub open spec fn steps_left(wheel: InstalledWheel, state: StateView) -> int {
    let files = wheel.record@.len() - files_done(wheel, state);
    match state {
        StateView::Next(_) => 3 * files + 1,
        StateView::Resolving(_) => 3 * files,
        StateView::Reading { .. } => 3 * files - 1,
        StateView::Finished => 0,
    }
}

/// Packing comes to an end: each step leaves fewer steps.
pub proof fn law_packing_comes_to_an_end(
    wheel: InstalledWheel,
    paths: InstallPaths,
    state: StateView,
    event: EventView,
)
    requires
        state.wf(wheel),
        state.awaits(event),
        !(state is Finished),
    ensures
        0 <= steps_left(wheel, wheel.pack_step(paths, state, event).0) < steps_left(wheel, state),
{
    let from = files_done(wheel, state);
    law_only_ignored_files_are_passed_over(wheel, from);
    if from < wheel.record@.len() {
        law_only_ignored_files_are_passed_over(wheel, from + 1);
    }
}

/// A step of packing: where it starts, with what, where it leads and what it asks for.
pub struct PackStep {
    pub before: StateView,
    pub event: EventView,
    pub after: StateView,
    pub action: ActionView,
}

impl PackStep {
    /// The step is one of packing the wheel, and does not stop it with an error.
    pub open spec fn is_taken(self, wheel: InstalledWheel, paths: InstallPaths) -> bool {
        &&& self.before.awaits(self.event)
        &&& (self.after, self.action) == wheel.pack_step(paths, self.before, self.event)
        &&& !self.action.is_failure()
    }

    /// The index in the record of the file that the step reports.
    pub open spec fn reported(self) -> Option<int> {
        match (self.action, self.before) {
            (ActionView::Copy { entry, .. }, _) => Some(entry),
            (ActionView::RewriteText { .. }, StateView::Reading { entry, .. }) => Some(entry),
            (ActionView::RewriteFile { .. }, StateView::Reading { entry, .. }) => Some(entry),
            _ => None,
        }
    }

    /// The step finds the recorded file with index `i` to be a script made from an entry point.
    pub open spec fn drops(self, wheel: InstalledWheel, paths: InstallPaths, i: int) -> bool {
        &&& self.before == StateView::Resolving(i)
        &&& self.event matches EventView::Resolved(path)
        &&& wheel.placement(paths, path) is Ignore
    }
}

/// The steps are those of packing the wheel from the start on, one after the other, with whatever
/// comes of the actions.
pub open spec fn is_packing(wheel: InstalledWheel, paths: InstallPaths, steps: Seq<PackStep>) -> bool {
    &&& steps.len() > 0 ==> steps[0].before == StateView::Next(0)
    &&& forall|k: int| 0 <= k < steps.len() ==> (#[trigger] steps[k]).is_taken(wheel, paths)
    &&& forall|j: int, k: int|
        #![trigger steps[j], steps[k]]
        0 <= j && k == j + 1 && k < steps.len() ==> steps[k].before == steps[j].after
}

/// The indices in the record of the files that the steps report, in the order of the reports.
pub open spec fn reports(steps: Seq<PackStep>) -> Seq<int>
    decreases steps.len(),
{
    if steps.len() == 0 {
        Seq::empty()
    } else {
        match steps.last().reported() {
            None => reports(steps.drop_last()),
            Some(entry) => reports(steps.drop_last()).push(entry),
        }
    }
}

/// One of the steps finds the recorded file with index `i` to be a script made from an entry point.
pub open spec fn is_dropped(
    wheel: InstalledWheel,
    paths: InstallPaths,
    steps: Seq<PackStep>,
    i: int,
) -> bool {
    exists|k: int| 0 <= k < steps.len() && (#[trigger] steps[k]).drops(wheel, paths, i)
}

/// The file that a state of packing is at is not one to ignore.
spec fn is_at_packed_file(wheel: InstalledWheel, state: StateView) -> bool {
    match state {
        StateView::Resolving(entry) => !wheel.is_ignored(wheel.record@[entry]@),
        StateView::Reading { entry, .. } => !wheel.is_ignored(wheel.record@[entry]@),
        _ => true,
    }
}

/// The state that steps of packing lead to.
spec fn state_behind(steps: Seq<PackStep>) -> StateView {
    if steps.len() == 0 {
        StateView::Next(0)
    } else {
        steps.last().after
    }
}

/// Of the files that a step is done with, it reports just those that are neither ignored nor made
/// from an entry point.
proof fn lemma_step(wheel: InstalledWheel, paths: InstallPaths, step: PackStep)
    requires
        step.before.wf(wheel),
        is_at_packed_file(wheel, step.before),
        step.is_taken(wheel, paths),
    ensures
        step.after.wf(wheel),
        is_at_packed_file(wheel, step.after),
        0 <= files_done(wheel, step.before) <= files_done(wheel, step.after) <= wheel.record@.len(),
        step.reported() matches Some(i) ==> files_done(wheel, step.before) <= i < files_done(
            wheel,
            step.after,
        ),
        forall|i: int| #[trigger]
            step.drops(wheel, paths, i) ==> files_done(wheel, step.before) <= i < files_done(
                wheel,
                step.after,
            ),
        forall|i: int|
            files_done(wheel, step.before) <= i < files_done(wheel, step.after) ==> (
            step.reported() == Some(i) <==> !wheel.is_ignored((#[trigger] wheel.record@[i])@)
                && !step.drops(wheel, paths, i)),
{
    let from = files_done(wheel, step.before);
    law_only_ignored_files_are_passed_over(wheel, from);
    if from < wheel.record@.len() {
        law_only_ignored_files_are_passed_over(wheel, from + 1);
    }
}

/// What `law_each_file_is_packed_once` says, as far as the steps have come.
proof fn lemma_packing(wheel: InstalledWheel, paths: InstallPaths, steps: Seq<PackStep>)
    requires
        is_packing(wheel, paths, steps),
    ensures
        state_behind(steps).wf(wheel),
        is_at_packed_file(wheel, state_behind(steps)),
        0 <= files_done(wheel, state_behind(steps)) <= wheel.record@.len(),
        forall|a: int, b: int|
            0 <= a < b < reports(steps).len() ==> reports(steps)[a] < reports(steps)[b],
        forall|a: int|
            0 <= a < reports(steps).len() ==> 0 <= #[trigger] reports(steps)[a] < files_done(
                wheel,
                state_behind(steps),
            ),
        forall|i: int| #[trigger]
            is_dropped(wheel, paths, steps, i) ==> 0 <= i < files_done(wheel, state_behind(steps)),
        forall|i: int|
            0 <= i < files_done(wheel, state_behind(steps)) ==> (#[trigger] reports(steps).contains(i)
                <==> !wheel.is_ignored(wheel.record@[i]@) && !is_dropped(wheel, paths, steps, i)),
    decreases steps.len(),
{
    if steps.len() > 0 {
        let before = steps.drop_last();
        let step = steps.last();
        assert(forall|k: int| 0 <= k < before.len() ==> before[k] == steps[k]);
        lemma_packing(wheel, paths, before);
        assert(steps[steps.len() - 1] == step);
        if before.len() > 0 {
            assert(before.last() == steps[steps.len() - 2]);
            assert(steps[steps.len() - 1].before == steps[steps.len() - 2].after);
        }
        assert(step.before == state_behind(before));
        lemma_step(wheel, paths, step);
        let done = files_done(wheel, step.before);
        assert forall|a: int| 0 <= a < reports(steps).len() implies (a < reports(before).len()
            && #[trigger] reports(steps)[a] == reports(before)[a]) || step.reported() == Some(
            reports(steps)[a],
        ) by {}
        assert forall|a: int, b: int| 0 <= a < b < reports(steps).len() implies reports(steps)[a]
            < reports(steps)[b] by {
            assert(reports(steps)[a] == reports(before)[a]);
            if b < reports(before).len() {
                assert(reports(steps)[b] == reports(before)[b]);
            }
        }
        assert forall|i: int|
            is_dropped(wheel, paths, steps, i) <==> is_dropped(wheel, paths, before, i)
                || step.drops(wheel, paths, i) by {
            if is_dropped(wheel, paths, steps, i) {
                let k = choose|k: int|
                    0 <= k < steps.len() && (#[trigger] steps[k]).drops(wheel, paths, i);
                if k < before.len() {
                    assert(before[k].drops(wheel, paths, i));
                }
            }
            if is_dropped(wheel, paths, before, i) {
                let k = choose|k: int|
                    0 <= k < before.len() && (#[trigger] before[k]).drops(wheel, paths, i);
                assert(steps[k].drops(wheel, paths, i));
            }
            if step.drops(wheel, paths, i) {
                assert(steps[steps.len() - 1].drops(wheel, paths, i));
            }
        }
        assert forall|i: int| 0 <= i < files_done(wheel, step.after) implies (
        #[trigger] reports(steps).contains(i) <==> !wheel.is_ignored(wheel.record@[i]@)
            && !is_dropped(wheel, paths, steps, i)) by {
            let old_reports = reports(before);
            match step.reported() {
                None => {},
                Some(entry) => {
                    assert(reports(steps) == old_reports.push(entry));
                    assert(reports(steps)[old_reports.len() as int] == entry);
                    if old_reports.contains(i) {
                        let a = old_reports.index_of(i);
                        assert(reports(steps)[a] == i);
                    }
                    if reports(steps).contains(i) && i != entry {
                        let a = reports(steps).index_of(i);
                        assert(old_reports[a] == i);
                    }
                },
            }
            assert(reports(steps).contains(i) <==> old_reports.contains(i) || step.reported()
                == Some(i));
            if i < done {
                assert(old_reports.contains(i) <==> !wheel.is_ignored(wheel.record@[i]@)
                    && !is_dropped(wheel, paths, before, i));
            } else {
                assert(!old_reports.contains(i));
                assert(!is_dropped(wheel, paths, before, i));
                assert(wheel.record@[i] == wheel.record@[i]);
            }
        }
    }
}

/// Packing that comes to its end without an error reports the files that are packed in the order of
/// the record and once each, and these are all that are recorded but for those to ignore and the
/// scripts made from entry points.
pub proof fn law_each_file_is_packed_once(
    wheel: InstalledWheel,
    paths: InstallPaths,
    steps: Seq<PackStep>,
)
    requires
        is_packing(wheel, paths, steps),
        steps.len() > 0,
        steps.last().action is Finish,
    ensures
        forall|a: int, b: int|
            0 <= a < b < reports(steps).len() ==> reports(steps)[a] < reports(steps)[b],
        forall|i: int| #[trigger]
            reports(steps).contains(i) <==> 0 <= i < wheel.record@.len() && !wheel.is_ignored(
                wheel.record@[i]@,
            ) && !is_dropped(wheel, paths, steps, i),
{
    lemma_packing(wheel, paths, steps);
    lemma_packing(wheel, paths, steps.drop_last());
    assert(steps[steps.len() - 1].is_taken(wheel, paths));
    assert forall|i: int| #[trigger] reports(steps).contains(i) implies 0 <= i
        < wheel.record@.len() by {
        let a = reports(steps).index_of(i);
        assert(reports(steps)[a] == i);
    }
}

/// A file is told to be a script as a text file first: what it is as one it is, and so is the error
/// where that cannot be told. Only where it is no such script it is what it is as an executable.
pub proof fn law_text_comes_before_executable(
    path: PathBuf,
    contents: Seq<u8>,
    version: PythonVersion,
    is_executable: bool,
)
    ensures
        ({
            let found = script::detection(path, contents, version, is_executable);
            match script::posix_detection(path, contents, version) {
                Ok(Some(s)) => found == Ok::<Option<PythonScript>, DetectError>(Some(s)),
                Err(e) => found == Err::<Option<PythonScript>, DetectError>(e),
                Ok(None) => found == script::windows_detection(path, is_executable, contents),
            }
        }),
        !is_executable ==> script::detection(path, contents, version, is_executable)
            == script::posix_detection(path, contents, version),
{
}

/// Each named path of an interpreter is found by its name.
pub proof fn law_each_path_is_found_by_its_name(venv: Virtualenv, i: int)
    requires
        venv.wf(),
        0 <= i < venv.paths@.len(),
    ensures
        install::path_named(venv.paths@, venv.paths@[i].name@) == Some(venv.paths@[i].path@),
{
    lemma_path_named(venv.paths@, i);
}

/// The path at index `i` is the one of its name where no path before it has the same.
proof fn lemma_path_named(paths: Seq<SysconfigPath>, i: int)
    requires
        0 <= i < paths.len(),
        forall|j: int| 0 <= j < i ==> #[trigger] paths[j].name@ != paths[i].name@,
    ensures
        install::path_named(paths, paths[i].name@) == Some(paths[i].path@),
    decreases i,
{
    if i > 0 {
        let rest = paths.drop_first();
        assert(rest[i - 1] == paths[i]);
        assert forall|j: int| 0 <= j < i - 1 implies #[trigger] rest[j].name@ != rest[i - 1].name@ by {
            assert(rest[j] == paths[j + 1]);
        }
        lemma_path_named(rest, i - 1);
    }
}

} // verus!
