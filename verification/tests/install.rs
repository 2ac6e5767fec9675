use venv::file_path::{FilePath, PathComponent};
use venv::install::{
    collect_installed_wheels, DirEntry, InstallPaths, SysconfigPath, Virtualenv,
};
use venv::version::PythonVersion;

/// A POSIX path.
fn path(text: &str) -> FilePath {
    let mut components = Vec::new();
    if text.starts_with('/') {
        components.push(PathComponent::RootDir);
    }
    for (i, part) in text.split('/').enumerate() {
        match part {
            "" => {}
            "." if i > 0 => {}
            "." => components.push(PathComponent::CurDir),
            ".." => components.push(PathComponent::ParentDir),
            name => components.push(PathComponent::Normal(name.as_bytes().to_vec())),
        }
    }
    FilePath {
        is_absolute: text.starts_with('/'),
        components,
    }
}

fn drive(text: &str, rest: &str) -> FilePath {
    let rest = path(rest);
    let mut components = vec![PathComponent::Prefix(text.as_bytes().to_vec())];
    components.extend(rest.components);
    FilePath {
        is_absolute: rest.is_absolute,
        components,
    }
}

fn venv(names: &[&str]) -> Virtualenv {
    Virtualenv {
        prefix: path("/venv"),
        site_packages_relpath: path("lib/python3.14/site-packages"),
        version: PythonVersion {
            major: 3,
            minor: 14,
        },
        paths: names
            .iter()
            .map(|name| SysconfigPath {
                name: name.to_string(),
                path: path(&format!("/venv/{name}")),
            })
            .collect(),
    }
}

fn entry(name: &str, is_dir: Option<bool>) -> Option<DirEntry> {
    Some(DirEntry {
        file_name: name.as_bytes().to_vec(),
        is_dir,
    })
}

#[test]
fn install_paths_are_those_of_the_interpreter() {
    let venv = venv(&["purelib", "stdlib", "platlib", "scripts", "data"]);
    let paths = InstallPaths::for_venv(&venv).unwrap();
    assert_eq!(venv.version, paths.python_version);
    assert_eq!(&path("/venv/data"), paths.data);
    assert_eq!(&path("/venv/platlib"), paths.platlib);
    assert_eq!(&path("/venv/purelib"), paths.purelib);
    assert_eq!(&path("/venv/scripts"), paths.scripts);
    assert_eq!(path("/venv/include/site/python3.14"), paths.headers_base);
    assert_eq!(
        path("/venv/include/site/python3.14/greenlet"),
        paths.headers("greenlet")
    );
}

#[test]
fn project_names_are_paths() {
    let venv = venv(&["purelib", "platlib", "scripts", "data"]);
    let paths = InstallPaths::for_venv(&venv).unwrap();
    let base = std::path::Path::new("/venv/include/site/python3.14");
    let names = [
        "greenlet", "", ".", "..", "a/b", "./a", "a/./b", "a//b/", "../a/..", "/", "/a/./b", "...",
    ];
    for name in names {
        assert_eq!(
            path(base.join(name).to_str().unwrap()),
            paths.headers(name)
        );
        assert_eq!(path(name), FilePath::of_text(name));
        assert_eq!(paths.headers(name), paths.headers_at(&path(name)));
    }
    let mut parent = path("/venv/include/site/python3.14");
    parent.components.push(PathComponent::ParentDir);
    assert_eq!(parent, paths.headers(".."));
}

#[test]
fn the_first_missing_path_is_named() {
    let missing = |names: &[&str]| InstallPaths::for_venv(&venv(names)).unwrap_err().name;
    assert_eq!("data", missing(&[]));
    assert_eq!("platlib", missing(&["data", "scripts"]));
    assert_eq!("purelib", missing(&["data", "platlib", "scripts"]));
    assert_eq!("scripts", missing(&["data", "platlib", "purelib", "script"]));
    let venv = venv(&["data"]);
    assert_eq!(
        "The venv at /venv unexpectedly has no sysconfig path for 'platlib'",
        InstallPaths::for_venv(&venv).unwrap_err().message("/venv")
    );
}

#[test]
fn test_collect_installed_wheels_empty() {
    assert!(collect_installed_wheels(&venv(&[]), &vec![]).is_empty());
    let entries = vec![
        None,
        entry("_virtualenv.py", Some(false)),
        entry("cowsay", Some(true)),
        entry("cowsay.dist-info", Some(false)),
        entry("dill.dist-info", None),
        entry("dist-info", Some(true)),
    ];
    assert!(collect_installed_wheels(&venv(&[]), &entries).is_empty());
}

#[test]
fn metadata_directories_are_collected_in_order() {
    let entries = vec![
        entry("greenlet-3.2.4.dist-info", Some(true)),
        None,
        entry("greenlet", Some(true)),
        entry("cowsay-6.1.dist-info", Some(true)),
        entry(".dist-info", Some(true)),
    ];
    assert_eq!(
        vec![
            path("/venv/lib/python3.14/site-packages/greenlet-3.2.4.dist-info"),
            path("/venv/lib/python3.14/site-packages/cowsay-6.1.dist-info"),
            path("/venv/lib/python3.14/site-packages/.dist-info"),
        ],
        collect_installed_wheels(&venv(&[]), &entries)
    );
}

#[test]
fn names_are_taken_apart_at_the_last_dot() {
    let stem = |text: &str| path(text).file_stem().map(|s| s.to_vec());
    let extension = |text: &str| path(text).extension().map(|s| s.to_vec());
    assert_eq!(Some(b"a.tar".to_vec()), stem("x/a.tar.gz"));
    assert_eq!(Some(b"gz".to_vec()), extension("x/a.tar.gz"));
    assert_eq!(Some(b".bashrc".to_vec()), stem(".bashrc"));
    assert_eq!(None, extension(".bashrc"));
    assert_eq!(Some(b"a".to_vec()), stem("a."));
    assert_eq!(Some(b"".to_vec()), extension("a."));
    assert_eq!(Some(b"a".to_vec()), stem("a"));
    assert_eq!(None, extension("a"));
    assert_eq!(None, stem("a/.."));
    assert_eq!(None, path("/").file_name());
}

#[test]
fn paths_behave_like_those_of_std() {
    let texts = [
        "", "/", ".", "..", "a", "./a", "../a", "a/b", "/a", "/a/b", "a/../b", "/a/b.c/d.e",
    ];
    for one in texts {
        let std_one = std::path::Path::new(one);
        assert_eq!(
            std_one.parent().map(|p| path(p.to_str().unwrap())),
            path(one).parent()
        );
        assert_eq!(
            std_one.file_name().map(|s| s.as_encoded_bytes().to_vec()),
            path(one).file_name().map(|s| s.to_vec())
        );
        assert_eq!(
            std_one.file_stem().map(|s| s.as_encoded_bytes().to_vec()),
            path(one).file_stem().map(|s| s.to_vec())
        );
        for other in texts {
            let joined = std_one.join(other);
            assert_eq!(
                path(joined.to_str().unwrap()),
                path(one).join(&path(other))
            );
            assert_eq!(std_one.starts_with(other), path(one).starts_with(&path(other)));
            assert_eq!(
                std_one
                    .strip_prefix(other)
                    .ok()
                    .map(|p| path(p.to_str().unwrap())),
                path(one).strip_prefix(&path(other))
            );
        }
    }
}

#[test]
fn drives_are_kept_by_paths_with_a_root() {
    let rooted = FilePath {
        is_absolute: false,
        components: path("/b").components,
    };
    assert_eq!(drive("C:", "/b"), drive("C:", "/a").join(&rooted));
    assert_eq!(drive("D:", "b"), drive("C:", "/a").join(&drive("D:", "b")));
    assert_eq!(drive("C:", "/a/b"), drive("C:", "/a").join(&path("./b")));
    assert_eq!(drive("C:", "./b"), drive("C:", "").join(&path("./b")));
    assert_eq!(None, drive("C:", "/").parent());
}

#[test]
fn a_stripped_path_leads_back() {
    let base = path("/venv/bin");
    let rest = path("/venv/bin/a/b").strip_prefix(&base).unwrap();
    assert_eq!(path("a/b"), rest);
    assert_eq!(path("/venv/bin/a/b"), base.join(&rest));
    assert_eq!(Some(rest), path("/venv/bin/a/b").strip_prefix(&base));
}

/// A path behind a verbatim prefix.
fn verbatim(rest: &str) -> FilePath {
    let mut path = drive(r"\\?\C:", rest);
    path.is_absolute = true;
    path
}

#[test]
fn dots_are_not_joined_to_verbatim_paths() {
    assert_eq!(verbatim("/a/b"), verbatim("/a").join(&path("./b")));
    assert_eq!(verbatim("/b/c"), verbatim("/a").join(&path("../b/c")));
    assert_eq!(verbatim("/b"), verbatim("/").join(&path("../../b")));
    assert_eq!(verbatim("/a"), verbatim("/a").join(&path("b/..")));
    let rooted = FilePath {
        is_absolute: false,
        components: path("/b/../c").components,
    };
    assert_eq!(verbatim("/c"), verbatim("/a").join(&rooted));
    assert_eq!(verbatim("/a"), verbatim("").join(&path("a")));
    assert_eq!(verbatim(""), verbatim("").join(&path("..")));
    assert_eq!(verbatim("/"), verbatim("").join(&path("")));
    assert_eq!(verbatim("/a"), verbatim("/a").join(&path("")));
    assert_eq!(path("/b"), verbatim("/a").join(&path("/b")));
    let rest = path("b/c");
    assert_eq!(
        Some(rest),
        verbatim("/a").join(&path("b/c")).strip_prefix(&verbatim("/a"))
    );
}
