//! What holds of the paths of an environment and of the wheels in it.

use vstd::prelude::*;

use crate::byte_laws::{lemma_is_minor_name, lemma_spells, lemma_spells_at};
use crate::file_path::{is_text_path, ComponentView, FilePath, PathView};
use crate::install;
use crate::install::{DirEntry, InstallPaths, MissingPath, SysconfigPath, Virtualenv};
use crate::path_laws::{is_plain_text, is_plain_text_path, lemma_plain_text};
use crate::terms::{is_major_minor, spells, spells_at};

verus! {

/// The path of that name in a directory.
pub open spec fn named_in(dir: PathView, name: Seq<u8>) -> PathView {
    dir.join(PathView { is_absolute: false, components: seq![ComponentView::Normal(name)] })
}

/// The path at index `i` is the first of that name.
pub open spec fn is_first_named(paths: Seq<SysconfigPath>, name: Seq<char>, i: int) -> bool {
    &&& 0 <= i < paths.len()
    &&& paths[i].name@ == name
    &&& forall|j: int| 0 <= j < i ==> #[trigger] paths[j].name@ != name
}

/// The path is the first of that name.
pub open spec fn is_path_of(path: PathView, paths: Seq<SysconfigPath>, name: Seq<char>) -> bool {
    exists|i: int| #[trigger] is_first_named(paths, name, i) && paths[i].path@ == path
}

/// No path has that name.
pub open spec fn is_missing(paths: Seq<SysconfigPath>, name: Seq<char>) -> bool {
    forall|i: int| 0 <= i < paths.len() ==> #[trigger] paths[i].name@ != name
}

/// What is found by a name.
proof fn lemma_path_named(paths: Seq<SysconfigPath>, name: Seq<char>)
    ensures
        match install::path_named(paths, name) {
            Some(path) => is_path_of(path, paths, name) && !is_missing(paths, name),
            None => is_missing(paths, name),
        },
    decreases paths.len(),
{
    if paths.len() > 0 {
        if paths[0].name@ == name {
            assert(is_first_named(paths, name, 0));
        } else {
            let rest = paths.drop_first();
            lemma_path_named(rest, name);
            match install::path_named(rest, name) {
                Some(path) => {
                    let i = choose|i: int| #[trigger]
                        is_first_named(rest, name, i) && rest[i].path@ == path;
                    assert forall|j: int| 0 <= j < i + 1 implies #[trigger] paths[j].name@ != name by {
                        if j > 0 {
                            assert(rest[j - 1].name@ != name);
                        }
                    }
                    assert(paths[i + 1] == rest[i]);
                    assert(is_first_named(paths, name, i + 1));
                },
                None => {
                    assert forall|j: int| 0 <= j < paths.len() implies #[trigger] paths[j].name@
                        != name by {
                        if j > 0 {
                            assert(rest[j - 1].name@ != name);
                        }
                    }
                },
            }
        }
    }
}

/// The paths of an environment are the first of their names that its interpreter has, and the
/// headers go below `include/site/pythonX.Y` in the environment. Where one of them is missing, the
/// first such of `data`, `platlib`, `purelib` and `scripts` is named.
pub proof fn law_install_paths<'a>(
    venv: &'a Virtualenv,
    paths: Result<InstallPaths<'a>, MissingPath>,
    outer: Seq<u8>,
    site: Seq<u8>,
    python: Seq<u8>,
)
    requires
        call_ensures(InstallPaths::<'a>::for_venv, (venv,), paths),
        spells(outer, "include"@),
        spells(site, "site"@),
        spells_at(python, 0, "python"@),
        is_major_minor(python, 6, python.len() as int, venv.version),
    ensures
        ({
            let all = venv.paths@;
            match paths {
                Ok(found) => {
                    &&& found.python_version == venv.version
                    &&& is_path_of(found.data@, all, "data"@)
                    &&& is_path_of(found.platlib@, all, "platlib"@)
                    &&& is_path_of(found.purelib@, all, "purelib"@)
                    &&& is_path_of(found.scripts@, all, "scripts"@)
                    &&& found.headers_base@ == named_in(
                        named_in(named_in(venv.prefix@, outer), site),
                        python,
                    )
                },
                Err(missing) => {
                    &&& is_missing(all, missing.name@)
                    &&& {
                        ||| missing.name@ == "data"@
                        ||| missing.name@ == "platlib"@ && !is_missing(all, "data"@)
                        ||| missing.name@ == "purelib"@ && !is_missing(all, "data"@)
                            && !is_missing(all, "platlib"@)
                        ||| missing.name@ == "scripts"@ && !is_missing(all, "data"@)
                            && !is_missing(all, "platlib"@) && !is_missing(all, "purelib"@)
                    }
                },
            }
        }),
{
    let all = venv.paths@;
    lemma_path_named(all, "data"@);
    lemma_path_named(all, "platlib"@);
    lemma_path_named(all, "purelib"@);
    lemma_path_named(all, "scripts"@);
    lemma_spells(outer, "include"@);
    lemma_spells(site, "site"@);
    reveal_strlit("python");
    lemma_is_minor_name(python, venv.version, "python"@);
}

/// The bytes are a file name: some, with no slash, backslash or colon among them, and not `.` or `..`.
pub open spec fn is_plain_name(name: Seq<u8>) -> bool {
    &&& name.len() > 0
    &&& is_plain_text(name)
    &&& !(name.len() == 1 && name[0] == 0x2e)
    &&& !(name.len() == 2 && name[0] == 0x2e && name[1] == 0x2e)
}

/// The headers of a project go to where its name leads from the directory for all headers, which for
/// a file name is the directory of that name.
pub proof fn law_headers(paths: &InstallPaths, project_name: &str, dir: FilePath, name: Seq<u8>)
    requires
        call_ensures(InstallPaths::headers, (paths, project_name), dir),
        name == vstd::utf8::encode_utf8(project_name@),
        is_plain_text(name),
    ensures
        exists|path: PathView| #[trigger]
            is_plain_text_path(path, name) && dir@ == paths.headers_base@.join(path),
        is_plain_name(name) ==> dir@ == named_in(paths.headers_base@, name),
{
    let path = choose|path: PathView| #[trigger]
        is_text_path(path, name) && dir@ == paths.headers_base@.join(path);
    lemma_plain_text(path, name);
    assert(is_plain_text_path(path, name));
    if is_plain_name(name) {
        assert(path.components =~= seq![ComponentView::Normal(name)]);
    }
}

/// The headers of a project whose name is a path go to where that leads from the directory for all
/// headers.
pub proof fn law_headers_at(
    paths: &InstallPaths,
    project_path: &FilePath,
    dir: FilePath,
    joined: FilePath,
)
    requires
        call_ensures(InstallPaths::headers_at, (paths, project_path), dir),
        call_ensures(FilePath::join, (&paths.headers_base, project_path), joined),
    ensures
        dir@ == joined@,
{
}

/// Packages are installed where the relative path leads from the environment.
pub proof fn law_site_packages(venv: &Virtualenv, dir: FilePath, joined: FilePath)
    requires
        call_ensures(Virtualenv::site_packages_dir, (venv,), dir),
        call_ensures(
            FilePath::join,
            (&venv.prefix, &venv.site_packages_relpath),
            joined,
        ),
    ensures
        dir@ == joined@,
{
}

/// The message on a missing path names the environment and the path, in that order.
pub proof fn law_missing_path_message(missing: &MissingPath, venv: &str, text: String)
    requires
        call_ensures(MissingPath::message, (missing, venv), text),
    ensures
        text@ == "The venv at "@ + venv@ + " unexpectedly has no sysconfig path for '"@
            + missing.name@ + "'"@,
{
}

/// The entry is a directory whose name ends with `.dist-info`.
pub open spec fn is_wheel_dir(entry: Option<DirEntry>) -> bool {
    &&& entry matches Some(e)
    &&& e.is_dir == Some(true)
    &&& spells_at(e.file_name@, e.file_name@.len() - 10, ".dist-info"@)
}

/// `dirs` are the wheels among the entries, those with the indices `picked`: all that are directories
/// whose names end with `.dist-info` and no others, in the order of the entries, each by its name in
/// the directory `site`.
pub open spec fn are_the_wheels(
    picked: Seq<int>,
    site: PathView,
    entries: Seq<Option<DirEntry>>,
    dirs: Seq<PathView>,
) -> bool {
    &&& picked.len() == dirs.len()
    &&& forall|a: int, b: int| 0 <= a < b < picked.len() ==> picked[a] < picked[b]
    &&& forall|k: int|
        0 <= k < picked.len() ==> {
            &&& 0 <= #[trigger] picked[k] < entries.len()
            &&& is_wheel_dir(entries[picked[k]])
            &&& dirs[k] == named_in(site, entries[picked[k]]->0.file_name@)
        }
    &&& forall|i: int|
        0 <= i < entries.len() && is_wheel_dir(#[trigger] entries[i]) ==> exists|k: int|
            0 <= k < picked.len() && #[trigger] picked[k] == i
}

/// A directory of a wheel, in terms of the bytes of its name.
proof fn lemma_wheel_dir(entry: Option<DirEntry>)
    ensures
        install::is_dist_info(entry) <==> is_wheel_dir(entry),
{
    reveal_strlit(".dist-info");
    if entry is Some {
        let name = entry->0.file_name@;
        if name.len() >= 10 {
            lemma_spells_at(name, name.len() - 10, ".dist-info"@);
        }
    }
}

/// Which entries are wheels.
proof fn lemma_wheels(site: PathView, entries: Seq<Option<DirEntry>>) -> (picked: Seq<int>)
    ensures
        are_the_wheels(picked, site, entries, install::dist_info_dirs(site, entries)),
    decreases entries.len(),
{
    if entries.len() == 0 {
        Seq::empty()
    } else {
        let before = entries.drop_last();
        let n = entries.len() - 1;
        let so_far = lemma_wheels(site, before);
        let dirs = install::dist_info_dirs(site, entries);
        lemma_wheel_dir(entries[n]);
        assert(forall|i: int| 0 <= i < n ==> #[trigger] before[i] == entries[i]);
        if is_wheel_dir(entries[n]) {
            let picked = so_far.push(n);
            assert(dirs.last() == named_in(site, entries[n]->0.file_name@));
            assert forall|k: int| 0 <= k < picked.len() implies {
                &&& 0 <= #[trigger] picked[k] < entries.len()
                &&& is_wheel_dir(entries[picked[k]])
                &&& dirs[k] == named_in(site, entries[picked[k]]->0.file_name@)
            } by {
                if k < so_far.len() {
                    assert(picked[k] == so_far[k]);
                    assert(before[so_far[k]] == entries[so_far[k]]);
                }
            }
            assert forall|i: int|
                0 <= i < entries.len() && is_wheel_dir(#[trigger] entries[i]) implies exists|k: int|
                0 <= k < picked.len() && #[trigger] picked[k] == i by {
                if i < n {
                    assert(is_wheel_dir(before[i]));
                    let k = choose|k: int| 0 <= k < so_far.len() && #[trigger] so_far[k] == i;
                    assert(picked[k] == i);
                } else {
                    assert(picked[so_far.len() as int] == i);
                }
            }
            picked
        } else {
            assert forall|k: int| 0 <= k < so_far.len() implies {
                &&& 0 <= #[trigger] so_far[k] < entries.len()
                &&& is_wheel_dir(entries[so_far[k]])
                &&& dirs[k] == named_in(site, entries[so_far[k]]->0.file_name@)
            } by {
                assert(before[so_far[k]] == entries[so_far[k]]);
            }
            assert forall|i: int|
                0 <= i < entries.len() && is_wheel_dir(#[trigger] entries[i]) implies exists|k: int|
                0 <= k < so_far.len() && #[trigger] so_far[k] == i by {
                assert(is_wheel_dir(before[i]));
            }
            so_far
        }
    }
}

/// The wheels of an environment are all directories whose names end with `.dist-info` in the one that
/// packages are installed in, and nothing else, in the order in which they are listed.
pub proof fn law_collected_wheels(
    venv: &Virtualenv,
    entries: &Vec<Option<DirEntry>>,
    dirs: Vec<FilePath>,
    site: FilePath,
)
    requires
        call_ensures(install::collect_installed_wheels, (venv, entries), dirs),
        call_ensures(FilePath::join, (&venv.prefix, &venv.site_packages_relpath), site),
    ensures
        exists|picked: Seq<int>, views: Seq<PathView>|
            {
                &&& #[trigger] are_the_wheels(picked, site@, entries@, views)
                &&& views.len() == dirs@.len()
                &&& forall|k: int| 0 <= k < dirs@.len() ==> #[trigger] views[k] == dirs@[k]@
            },
{
    let picked = lemma_wheels(site@, entries@);
    let views = dirs@.map_values(|d: FilePath| d@);
    assert(are_the_wheels(picked, site@, entries@, views));
}

/// Every environment has its paths and its wheels worked out.
pub proof fn law_every_environment_is_taken<'a>(
    venv: &'a Virtualenv,
    entries: &Vec<Option<DirEntry>>,
    paths: &InstallPaths,
    project_name: &str,
    project_path: &FilePath,
)
    ensures
        call_requires(InstallPaths::<'a>::for_venv, (venv,)),
        call_requires(InstallPaths::headers, (paths, project_name)),
        call_requires(InstallPaths::headers_at, (paths, project_path)),
        call_requires(install::collect_installed_wheels, (venv, entries)),
{
}

} // verus!
