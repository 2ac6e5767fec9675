use std::io::{Cursor, Write};
use std::path::PathBuf;

use venv::file_path::{FilePath, PathComponent};
use venv::install::{
    collect_installed_wheels, DirEntry, InstallPaths, SysconfigPath, Virtualenv,
};
use venv::script::{DetectError, PythonScript, RewriteError};
use venv::version::PythonVersion;
use venv::wheel::{
    installed_wheel_dir, report_script, EntryPlan, FilePlacement, InstalledWheel, LoadError,
    Original, PackAction, PackError, PackEvent, PackState, Report, WheelParts,
};

/// A POSIX path without `.`.
fn path(text: &str) -> FilePath {
    let mut components = Vec::new();
    if text.starts_with('/') {
        components.push(PathComponent::RootDir);
    }
    for part in text.split('/') {
        match part {
            "" => {}
            ".." => components.push(PathComponent::ParentDir),
            name => components.push(PathComponent::Normal(name.as_bytes().to_vec())),
        }
    }
    FilePath {
        is_absolute: text.starts_with('/'),
        components,
    }
}

fn text(path: &FilePath) -> String {
    let names: Vec<&str> = path
        .components
        .iter()
        .map(|component| match component {
            PathComponent::RootDir => "",
            PathComponent::ParentDir => "..",
            PathComponent::Normal(name) => std::str::from_utf8(name).unwrap(),
            other => panic!("{other:?}"),
        })
        .collect();
    names.join("/")
}

fn venv() -> Virtualenv {
    let paths = [
        ("data", "/venv"),
        ("platlib", "/venv/lib64/site-packages"),
        ("purelib", "/venv/lib/site-packages"),
        ("scripts", "/venv/bin"),
    ];
    Virtualenv {
        prefix: path("/venv"),
        site_packages_relpath: path("lib/site-packages"),
        version: PythonVersion {
            major: 3,
            minor: 14,
        },
        paths: paths
            .iter()
            .map(|(name, at)| SysconfigPath {
                name: name.to_string(),
                path: path(at),
            })
            .collect(),
    }
}

fn parts(record: &[&str]) -> WheelParts {
    WheelParts {
        project_name: "p".to_string(),
        version: "1.0".to_string(),
        record: record.iter().map(|entry| path(entry)).collect(),
        dist_info_dir: path("p-1.0.dist-info"),
        data_dir: path("p-1.0.data"),
        root_is_purelib: true,
        scripts: Some(vec!["made".to_string(), "made.too".to_string()]),
    }
}

fn wheel(record: &[&str]) -> InstalledWheel {
    InstalledWheel::load(&path("/venv/lib/site-packages/p-1.0.dist-info"), parts(record)).unwrap()
}

fn placed(at: &str) -> Option<(String, bool)> {
    let venv = venv();
    let paths = InstallPaths::for_venv(&venv).unwrap();
    match wheel(&[]).place_file(&paths, &path(at)) {
        FilePlacement::At { dst, is_script } => Some((text(&dst), is_script)),
        FilePlacement::Ignore => None,
        FilePlacement::Nowhere => panic!("nowhere"),
    }
}

/// Packs a wheel whose paths lead to where `..` says and whose files hold `contents`.
fn pack(wheel: &InstalledWheel, contents: &[u8]) -> Vec<String> {
    let venv = venv();
    let paths = InstallPaths::for_venv(&venv).unwrap();
    let mut lines = Vec::new();
    let mut state = PackState::Next(0);
    let mut event = PackEvent::Continue;
    loop {
        let (next, action) = wheel.pack(&paths, state, event);
        state = next;
        event = PackEvent::Continue;
        match action {
            PackAction::Resolve(at) => {
                lines.push(format!("resolve {}", text(&at)));
                let mut resolved = FilePath {
                    is_absolute: at.is_absolute,
                    components: Vec::new(),
                };
                for component in at.components {
                    if component == PathComponent::ParentDir {
                        resolved.components.pop();
                    } else {
                        resolved.components.push(component);
                    }
                }
                event = PackEvent::Resolved(resolved);
            }
            PackAction::Read(at) => {
                lines.push(format!("read {}", text(&at)));
                event = PackEvent::Read {
                    path: PathBuf::from(text(&at)),
                    contents: contents.to_vec(),
                    is_executable: true,
                };
            }
            PackAction::Report(Report::Copy { entry, dst }) => {
                lines.push(format!("copy {entry} {}", text(&dst)));
            }
            PackAction::Report(Report::Rewrite {
                original,
                re_written,
            }) => {
                let original = match original {
                    Original::Text(text) => text,
                    Original::File(path) => path.to_str().unwrap().to_string(),
                };
                lines.push(format!("rewrite {original:?} {re_written:?}"));
            }
            PackAction::Finish => {
                lines.push("finish".to_string());
                assert!(matches!(state, PackState::Finished));
                return lines;
            }
            PackAction::Fail(error) => {
                lines.push(format!("fail {error:?}"));
                assert!(matches!(state, PackState::Finished));
                return lines;
            }
        }
    }
}

#[test]
fn wheels_are_loaded_from_their_parts() {
    let wheel = wheel(&["p.py"]);
    assert_eq!("p", wheel.project_name);
    assert_eq!(path("p"), wheel.project_path);
    assert_eq!("1.0", wheel.version);
    assert_eq!(vec![path("p.py")], wheel.record);
    assert_eq!(path("p-1.0.dist-info"), wheel.dist_info_dir);
    assert_eq!(path("p-1.0.data"), wheel.data_dir);
    assert!(wheel.root_is_purelib);
    assert_eq!(vec!["made", "made.too"], wheel.scripts);
    let mut no_entry_points = parts(&[]);
    no_entry_points.scripts = None;
    let wheel = InstalledWheel::load(&path("/a/b"), no_entry_points).unwrap();
    assert!(wheel.scripts.is_empty());
}

#[test]
fn metadata_directories_have_a_parent() {
    assert_eq!(Ok(path("/a")), installed_wheel_dir(&path("/a/b")));
    assert_eq!(Err(LoadError::NoParent), installed_wheel_dir(&path("/")));
    assert_eq!(
        Err(LoadError::NoParent),
        InstalledWheel::load(&path(""), parts(&[]))
    );
}

#[test]
fn metadata_and_compiled_files_are_ignored() {
    let venv = venv();
    let paths = InstallPaths::for_venv(&venv).unwrap();
    let wheel = wheel(&[]);
    for ignored in [
        "p-1.0.dist-info/RECORD",
        "p-1.0.dist-info/INSTALLER",
        "p-1.0.dist-info/REQUESTED",
        "p/__pycache__/a.cpython-314.pyc",
        "p/a.pyo",
        "p/a.pyd",
        "/elsewhere/a.pyc",
        "../a.pyc",
    ] {
        let plan = wheel.plan_entry(&paths, &path(ignored));
        assert!(matches!(plan, EntryPlan::Ignore));
    }
    for kept in [
        "p-1.0.dist-info/METADATA",
        "p-1.0.dist-info/licenses/RECORD",
        "q-1.0.dist-info/RECORD",
        "p/RECORD",
        "p/a.py",
        "p/.pyc",
        "p/pyc",
        "p/a.PYC",
    ] {
        let plan = wheel.plan_entry(&paths, &path(kept));
        assert!(matches!(plan, EntryPlan::Keep));
    }
}

#[test]
fn other_paths_are_resolved_from_the_root_of_the_wheel() {
    let venv = venv();
    let paths = InstallPaths::for_venv(&venv).unwrap();
    let mut wheel = wheel(&[]);
    let resolved = |wheel: &InstalledWheel, entry| match wheel.plan_entry(&paths, &path(entry)) {
        EntryPlan::Resolve(at) => text(&at),
        _ => panic!("not resolved"),
    };
    let entry = "../../bin/x";
    assert_eq!("/venv/lib/site-packages/../../bin/x", resolved(&wheel, entry));
    assert_eq!("/venv/bin/x", resolved(&wheel, "/venv/bin/x"));
    wheel.root_is_purelib = false;
    assert_eq!("/venv/lib64/site-packages/../../bin/x", resolved(&wheel, entry));
}

#[test]
fn files_are_placed_by_where_they_lie() {
    let at = |text: &str, is_script| Some((text.to_string(), is_script));
    assert_eq!(at("p-1.0.data/scripts/x", true), placed("/venv/bin/x"));
    assert_eq!(
        at("p-1.0.data/headers/p.h", false),
        placed("/venv/include/site/python3.14/p/p.h")
    );
    assert_eq!(
        at("p-1.0.data/platlib/p.so", false),
        placed("/venv/lib64/site-packages/p.so")
    );
    assert_eq!(
        at("p-1.0.data/purelib/p.py", false),
        placed("/venv/lib/site-packages/p.py")
    );
    assert_eq!(
        at("p-1.0.data/data/share/man/p.1", false),
        placed("/venv/share/man/p.1")
    );
    // The headers of another project are data.
    assert_eq!(
        at("p-1.0.data/data/include/site/python3.14/q/q.h", false),
        placed("/venv/include/site/python3.14/q/q.h")
    );
}

#[test]
fn scripts_of_entry_points_are_ignored() {
    assert_eq!(None, placed("/venv/bin/made"));
    assert_eq!(None, placed("/venv/bin/made.exe"));
    assert_eq!(None, placed("/venv/bin/made.too.exe"));
    assert!(placed("/venv/bin/sub/made").is_some());
    assert!(placed("/venv/bin/made.other.exe").is_some());
    assert!(placed("/venv/bin").is_some());
    let venv = venv();
    let paths = InstallPaths::for_venv(&venv).unwrap();
    let not_text = FilePath {
        is_absolute: true,
        components: vec![
            PathComponent::RootDir,
            PathComponent::Normal(b"venv".to_vec()),
            PathComponent::Normal(b"bin".to_vec()),
            PathComponent::Normal(b"made\xff".to_vec()),
        ],
    };
    assert!(matches!(
        wheel(&[]).place_file(&paths, &not_text),
        FilePlacement::At {
            is_script: true,
            ..
        }
    ));
}

#[test]
fn every_recorded_file_is_packed_in_turn() {
    let wheel = wheel(&[
        "p-1.0.dist-info/RECORD",
        "p/a.py",
        "p/a.pyc",
        "../../bin/made",
        "../../bin/x",
        "/venv/share/p.1",
        "p-1.0.dist-info/INSTALLER",
    ]);
    assert_eq!(
        vec![
            "copy 1 p/a.py",
            "resolve /venv/lib/site-packages/../../bin/made",
            "resolve /venv/lib/site-packages/../../bin/x",
            "read /venv/bin/x",
            "rewrite \"#!/venv/bin/python\\npass\" \"#!python\\npass\"",
            "resolve /venv/share/p.1",
            "copy 5 p-1.0.data/data/share/p.1",
            "finish",
        ],
        pack(&wheel, b"#!/venv/bin/python\npass")
    );
}

#[test]
fn other_files_among_the_scripts_are_copied() {
    assert_eq!(
        vec![
            "resolve /venv/bin/x",
            "read /venv/bin/x",
            "copy 0 p-1.0.data/scripts/x",
            "finish",
        ],
        pack(&wheel(&["/venv/bin/x"]), b"#!/bin/bash\n")
    );
}

#[test]
fn packing_stops_with_the_first_error() {
    assert_eq!(
        vec!["resolve /usr/x", "fail UnexpectedPath(0)"],
        pack(&wheel(&["/usr/x", "p/a.py"]), b"")
    );
    assert_eq!(
        vec![
            "copy 0 p/a.py",
            "resolve /venv/bin/x",
            "read /venv/bin/x",
            "fail Detect(UnexpectedEof)",
        ],
        pack(&wheel(&["p/a.py", "/venv/bin/x", "p/b.py"]), b"")
    );
    assert_eq!(
        vec!["resolve /venv/bin/x", "read /venv/bin/x", "fail OriginalNotUtf8"],
        pack(&wheel(&["/venv/bin/x"]), b"#!python\n\xff")
    );
}

fn archive(member: &[u8]) -> Vec<u8> {
    let mut writer = zip::ZipWriter::new(Cursor::new(Vec::new()));
    writer
        .start_file("__main__.py", zip::write::SimpleFileOptions::default())
        .unwrap();
    writer.write_all(member).unwrap();
    writer.finish().unwrap().into_inner()
}

fn report(
    found: Result<Option<PythonScript>, DetectError>,
    contents: &[u8],
) -> PackAction {
    report_script(found, 7, path("dst"), contents)
}

fn windows() -> Result<Option<PythonScript>, DetectError> {
    Ok(Some(PythonScript::Windows {
        path: PathBuf::from("x.exe"),
        is_windowed: true,
    }))
}

#[test]
fn reports_go_by_what_was_found() {
    assert!(matches!(
        report(Ok(None), b""),
        PackAction::Report(Report::Copy { entry: 7, .. })
    ));
    assert!(matches!(
        report(Err(DetectError::Unterminated), b""),
        PackAction::Fail(PackError::Detect(DetectError::Unterminated))
    ));
    match report(windows(), &archive(b"\nprint()\n")) {
        PackAction::Report(Report::Rewrite {
            original: Original::File(path),
            re_written,
        }) => {
            assert_eq!(PathBuf::from("x.exe"), path);
            assert_eq!("#!pythonw\nprint()\n", re_written);
        }
        other => panic!("{other:?}"),
    }
    assert!(matches!(
        report(windows(), &archive(b"\xff")),
        PackAction::Fail(PackError::ReWrittenNotUtf8)
    ));
    assert!(matches!(
        report(windows(), b"no archive"),
        PackAction::Fail(PackError::Rewrite(RewriteError::BadArchive(_)))
    ));
}

/// What the metadata of a wheel says that `uv` installed.
fn uv_parts(name: &str, version: &str) -> WheelParts {
    let (root_is_purelib, scripts, record): (bool, Option<&str>, &[&str]) = match name {
        "cowsay" => (
            true,
            Some("cowsay"),
            &[
                "../../bin/cowsay",
                "cowsay-6.1.dist-info/INSTALLER",
                "cowsay-6.1.dist-info/METADATA",
                "cowsay-6.1.dist-info/RECORD",
                "cowsay-6.1.dist-info/REQUESTED",
                "cowsay/__init__.py",
            ],
        ),
        "dill" => (
            true,
            None,
            &[
                "../../bin/get_objgraph",
                "../../bin/undill",
                "dill-0.4.0.dist-info/RECORD",
                "dill-0.4.0.dist-info/WHEEL",
                "dill/__init__.py",
            ],
        ),
        "greenlet" => (
            false,
            None,
            &[
                "../../include/site/python3.14/greenlet/greenlet.h",
                "greenlet-3.2.4.dist-info/RECORD",
                "greenlet/__init__.py",
                "greenlet/_greenlet.so",
            ],
        ),
        other => panic!("{other}"),
    };
    WheelParts {
        project_name: name.to_string(),
        version: version.to_string(),
        record: record.iter().map(|entry| path(entry)).collect(),
        dist_info_dir: path(&format!("{name}-{version}.dist-info")),
        data_dir: path(&format!("{name}-{version}.data")),
        root_is_purelib,
        scripts: scripts.map(|script| vec![script.to_string()]),
    }
}

#[test]
fn test_collect_installed_wheels_uv() {
    let venv = venv();
    let entries: Vec<Option<DirEntry>> = [
        ("greenlet-3.2.4.dist-info", true),
        ("greenlet", true),
        ("_virtualenv.py", false),
        ("dill-0.4.0.dist-info", true),
        ("dill", true),
        ("cowsay-6.1.dist-info", true),
        ("cowsay", true),
    ]
    .iter()
    .map(|(name, is_dir)| {
        Some(DirEntry {
            file_name: name.as_bytes().to_vec(),
            is_dir: Some(*is_dir),
        })
    })
    .collect();
    let mut packed = Vec::new();
    for dir in collect_installed_wheels(&venv, &entries) {
        let at = text(&dir);
        let name = at
            .strip_prefix("/venv/lib/site-packages/")
            .and_then(|name| name.strip_suffix(".dist-info"))
            .unwrap();
        let (name, version) = name.split_once('-').unwrap();
        let wheel = InstalledWheel::load(&dir, uv_parts(name, version)).unwrap();
        packed.extend(pack(&wheel, b"#!/venv/bin/python\npass"));
    }
    assert_eq!(
        vec![
            "resolve /venv/lib64/site-packages/../../include/site/python3.14/greenlet/greenlet.h",
            "copy 0 greenlet-3.2.4.data/headers/greenlet.h",
            "copy 2 greenlet/__init__.py",
            "copy 3 greenlet/_greenlet.so",
            "finish",
            "resolve /venv/lib/site-packages/../../bin/get_objgraph",
            "read /venv/bin/get_objgraph",
            "rewrite \"#!/venv/bin/python\\npass\" \"#!python\\npass\"",
            "resolve /venv/lib/site-packages/../../bin/undill",
            "read /venv/bin/undill",
            "rewrite \"#!/venv/bin/python\\npass\" \"#!python\\npass\"",
            "copy 3 dill-0.4.0.dist-info/WHEEL",
            "copy 4 dill/__init__.py",
            "finish",
            "resolve /venv/lib/site-packages/../../bin/cowsay",
            "copy 2 cowsay-6.1.dist-info/METADATA",
            "copy 5 cowsay/__init__.py",
            "finish",
        ],
        packed
    );
}
