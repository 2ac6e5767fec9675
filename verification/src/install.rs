//! Where a virtual environment installs the files of a wheel, and which wheels it holds.

use vstd::prelude::*;

use crate::bytes;
use crate::file_path::{is_name, is_text_path, lemma_name_path, name_path, FilePath, PathView};
use crate::version::PythonVersion;

verus! {

/// A path that the interpreter's `sysconfig` module gives a name to.
#[derive(Debug, PartialEq, Eq)]
pub struct SysconfigPath {
    /// The name, such as `purelib`.
    pub name: String,
    /// The path.
    pub path: FilePath,
}

/// A virtual environment.
#[derive(Debug, PartialEq, Eq)]
pub struct Virtualenv {
    /// The directory of the environment.
    pub prefix: FilePath,
    /// The directory that packages are installed in, as seen from `prefix`.
    pub site_packages_relpath: FilePath,
    /// The version of the interpreter.
    pub version: PythonVersion,
    /// The named paths of the interpreter.
    pub paths: Vec<SysconfigPath>,
}

/// The path of that name among `paths`: the first, if there is one.
pub open spec fn path_named(paths: Seq<SysconfigPath>, name: Seq<char>) -> Option<PathView>
    decreases paths.len(),
{
    if paths.len() == 0 {
        None
    } else if paths[0].name@ == name {
        Some(paths[0].path@)
    } else {
        path_named(paths.drop_first(), name)
    }
}

impl Virtualenv {
    /// No two paths have the same name.
    pub open spec fn wf(self) -> bool {
        forall|i: int, j: int|
            0 <= i < j < self.paths@.len() ==> #[trigger] self.paths@[i].name@
                != #[trigger] self.paths@[j].name@
    }

    /// The directory below which the headers of packages are installed.
    pub open spec fn headers_base(self) -> PathView {
        self.prefix@.join(name_path(bytes::ascii_bytes("include"@))).join(
            name_path(bytes::ascii_bytes("site"@)),
        ).join(name_path(self.version.minor_name("python"@)))
    }

    /// The name of the first path that is missing of those that a wheel's files go to.
    pub open spec fn first_missing(self) -> Option<Seq<char>> {
        if path_named(self.paths@, "data"@) is None {
            Some("data"@)
        } else if path_named(self.paths@, "platlib"@) is None {
            Some("platlib"@)
        } else if path_named(self.paths@, "purelib"@) is None {
            Some("purelib"@)
        } else if path_named(self.paths@, "scripts"@) is None {
            Some("scripts"@)
        } else {
            None
        }
    }

    /// The path of that name.
    fn sysconfig_path(&self, name: &str) -> (path: Result<&FilePath, MissingPath>)
        ensures
            match path_named(self.paths@, name@) {
                Some(expected) => path matches Ok(found) && found@ == expected,
                None => path matches Err(missing) && missing.name@ == name@,
            },
    {
        let mut i: usize = 0;
        assert(self.paths@.skip(0) =~= self.paths@);
        while i < self.paths.len()
            invariant
                i <= self.paths@.len(),
                path_named(self.paths@, name@) == path_named(self.paths@.skip(i as int), name@),
            decreases self.paths@.len() - i,
        {
            assert(self.paths@.skip(i as int).drop_first() =~= self.paths@.skip(i + 1));
            if bytes::same_text(self.paths[i].name.as_str(), name) {
                return Ok(&self.paths[i].path);
            }
            i += 1;
        }
        Err(MissingPath { name: name.to_owned() })
    }
}

/// An interpreter that has no path of a name that it should have.
#[derive(Debug, PartialEq, Eq)]
pub struct MissingPath {
    /// The name.
    pub name: String,
}

impl MissingPath {
    /// What went wrong, for the environment that is displayed as `venv`.
    pub fn message(&self, venv: &str) -> (text: String)
        ensures
            text@ == "The venv at "@ + venv@ + " unexpectedly has no sysconfig path for '"@
                + self.name@ + "'"@,
    {
        let mut text: String = String::new();
        text.append("The venv at ");
        text.append(venv);
        text.append(" unexpectedly has no sysconfig path for '");
        text.append(self.name.as_str());
        text.append("'");
        assert(text@ =~= "The venv at "@ + venv@ + " unexpectedly has no sysconfig path for '"@
            + self.name@ + "'"@);
        text
    }
}

/// Where the files of a wheel go.
#[derive(Debug)]
pub struct InstallPaths<'a> {
    /// The version of the interpreter.
    pub python_version: PythonVersion,
    /// The directory for data files.
    pub data: &'a FilePath,
    /// The directory that holds a directory of header files for each project.
    pub headers_base: FilePath,
    /// The directory for platform specific modules.
    pub platlib: &'a FilePath,
    /// The directory for modules that run on every platform.
    pub purelib: &'a FilePath,
    /// The directory for scripts.
    pub scripts: &'a FilePath,
}

impl<'a> InstallPaths<'a> {
    /// The paths of an environment.
    pub fn for_venv(venv: &'a Virtualenv) -> (paths: Result<InstallPaths<'a>, MissingPath>)
        ensures
            match venv.first_missing() {
                Some(name) => paths matches Err(missing) && missing.name@ == name,
                None => {
                    &&& paths matches Ok(found)
                    &&& found.python_version == venv.version
                    &&& path_named(venv.paths@, "data"@) == Some(found.data@)
                    &&& found.headers_base@ == venv.headers_base()
                    &&& path_named(venv.paths@, "platlib"@) == Some(found.platlib@)
                    &&& path_named(venv.paths@, "purelib"@) == Some(found.purelib@)
                    &&& path_named(venv.paths@, "scripts"@) == Some(found.scripts@)
                },
            },
    {
        let data = match venv.sysconfig_path("data") {
            Ok(path) => path,
            Err(e) => {
                return Err(e);
            },
        };
        proof {
            reveal_strlit("include");
            reveal_strlit("site");
            reveal_strlit("python");
        }
        let python: Vec<u8> = venv.version.with_minor("python");
        let headers_base = venv.prefix.join(&FilePath::of_name(bytes::literal("include"))).join(
            &FilePath::of_name(bytes::literal("site")),
        ).join(&FilePath::of_name(python.as_slice()));
        let platlib = match venv.sysconfig_path("platlib") {
            Ok(path) => path,
            Err(e) => {
                return Err(e);
            },
        };
        let purelib = match venv.sysconfig_path("purelib") {
            Ok(path) => path,
            Err(e) => {
                return Err(e);
            },
        };
        let scripts = match venv.sysconfig_path("scripts") {
            Ok(path) => path,
            Err(e) => {
                return Err(e);
            },
        };
        Ok(
            InstallPaths {
                python_version: venv.version,
                data,
                headers_base,
                platlib,
                purelib,
                scripts,
            },
        )
    }

    /// The directory for the header files of a project, whose name is given as text.
    pub fn headers(&self, project_name: &str) -> (dir: FilePath)
        ensures
            exists|path: PathView| #[trigger]
                is_text_path(path, vstd::utf8::encode_utf8(project_name@)) && dir@
                    == self.headers_base@.join(path),
            is_name(vstd::utf8::encode_utf8(project_name@)) ==> dir@ == self.headers_base@.join(
                name_path(vstd::utf8::encode_utf8(project_name@)),
            ),
    {
        let path = FilePath::of_text(project_name);
        proof {
            if is_name(vstd::utf8::encode_utf8(project_name@)) {
                lemma_name_path(path@, vstd::utf8::encode_utf8(project_name@));
            }
        }
        self.headers_at(&path)
    }

    /// The directory for the header files of a project, whose name is given as a path.
    pub fn headers_at(&self, project_path: &FilePath) -> (dir: FilePath)
        ensures
            dir@ == self.headers_base@.join(project_path@),
    {
        self.headers_base.join(project_path)
    }
}

/// An entry of a directory.
#[derive(Debug, PartialEq, Eq)]
pub struct DirEntry {
    /// The name of the entry.
    pub file_name: Vec<u8>,
    /// Whether the entry is a directory, where that could be found out.
    pub is_dir: Option<bool>,
}

/// The entry is the directory in which the metadata of an installed wheel lies. An entry that could
/// not be read is none.
pub open spec fn is_dist_info(entry: Option<DirEntry>) -> bool {
    &&& entry matches Some(e)
    &&& e.is_dir == Some(true)
    &&& bytes::has_suffix(e.file_name@, bytes::ascii_bytes(".dist-info"@))
}

/// The metadata directories among `entries`, which are those of the directory `dir`.
pub open spec fn dist_info_dirs(dir: PathView, entries: Seq<Option<DirEntry>>) -> Seq<PathView>
    decreases entries.len(),
{
    if entries.len() == 0 {
        Seq::empty()
    } else {
        let before = dist_info_dirs(dir, entries.drop_last());
        if is_dist_info(entries.last()) {
            before.push(dir.join(name_path(entries.last()->0.file_name@)))
        } else {
            before
        }
    }
}

impl Virtualenv {
    /// The directory that packages are installed in.
    pub open spec fn site_packages(self) -> PathView {
        self.prefix@.join(self.site_packages_relpath@)
    }

    /// The directory that packages are installed in.
    pub fn site_packages_dir(&self) -> (dir: FilePath)
        ensures
            dir@ == self.site_packages(),
    {
        self.prefix.join(&self.site_packages_relpath)
    }
}

/// The metadata directories of the wheels installed in an environment, in the order of `entries`,
/// which are those of the directory that packages are installed in. One that could not be read is
/// left out.
pub fn collect_installed_wheels(venv: &Virtualenv, entries: &Vec<Option<DirEntry>>) -> (dirs: Vec<
    FilePath,
>)
    ensures
        dirs@.map_values(|d: FilePath| d@) == dist_info_dirs(venv.site_packages(), entries@),
{
    let site_packages: FilePath = venv.site_packages_dir();
    let mut dirs: Vec<FilePath> = Vec::new();
    let ghost view = |d: FilePath| d@;
    let mut i: usize = 0;
    assert(entries@.subrange(0, 0) =~= Seq::<Option<DirEntry>>::empty());
    assert(dirs@.map_values(view) =~= Seq::<PathView>::empty());
    while i < entries.len()
        invariant
            i <= entries@.len(),
            view == (|d: FilePath| d@),
            site_packages@ == venv.site_packages(),
            dirs@.map_values(view) == dist_info_dirs(
                venv.site_packages(),
                entries@.subrange(0, i as int),
            ),
        decreases entries@.len() - i,
    {
        let ghost so_far = dirs@;
        let ghost upto = entries@.subrange(0, i + 1);
        assert(upto.drop_last() =~= entries@.subrange(0, i as int));
        assert(upto.last() == entries@[i as int]);
        proof {
            reveal_strlit(".dist-info");
        }
        if let Some(entry) = &entries[i] {
            if let Some(is_dir) = entry.is_dir {
                if is_dir && bytes::ends_with(
                    entry.file_name.as_slice(),
                    bytes::literal(".dist-info"),
                ) {
                    dirs.push(site_packages.join(&FilePath::of_name(entry.file_name.as_slice())));
                    assert(dirs@.map_values(view) =~= so_far.map_values(view).push(
                        dirs@.last()@,
                    ));
                }
            }
        }
        i += 1;
    }
    assert(entries@.subrange(0, i as int) =~= entries@);
    dirs
}

} // verus!
