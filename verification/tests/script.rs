use std::io::{Cursor, Write};
use std::ops::Range;
use std::path::PathBuf;

use venv::outside::{PeError, ZipProbe};
use venv::script::{
    find_executable_image, windows_script, DetectError, PythonScript, RewriteError, WINDOWS_GUI,
};
use venv::version::PythonVersion;

const VERSION: PythonVersion = PythonVersion {
    major: 3,
    minor: 14,
};

fn detect_python_script(contents: &str) -> Option<PythonScript> {
    PythonScript::detect(PathBuf::from("script"), contents.as_bytes(), VERSION, false).unwrap()
}

fn posix(
    shebang_end: usize,
    is_windowed: bool,
    extra_shebang_content: Option<Range<usize>>,
) -> Option<PythonScript> {
    Some(PythonScript::Posix {
        path: PathBuf::from("script"),
        shebang_end,
        is_windowed,
        extra_shebang_content,
    })
}

fn re_write(script: &PythonScript, contents: &[u8]) -> Vec<u8> {
    let mut written = Vec::new();
    script.re_write(Some(contents), &mut written).unwrap();
    written
}

fn re_written(script: Option<PythonScript>, contents: &str) -> String {
    String::from_utf8(re_write(&script.unwrap(), contents.as_bytes())).unwrap()
}

#[test]
fn test_detect_posix_script_placeholder_shebang() {
    let python_script = detect_python_script("#!python");
    assert_eq!(posix(8, false, None), python_script);
    assert_eq!("#!python", re_written(python_script, "#!python"));

    let python_script = detect_python_script("#!python\n");
    assert_eq!(posix(8, false, None), python_script);
    assert_eq!("#!python\n", re_written(python_script, "#!python\n"));

    let python_script = detect_python_script("#!pythonw");
    assert_eq!(posix(9, true, None), python_script);
    assert_eq!("#!pythonw", re_written(python_script, "#!pythonw"));

    let python_script = detect_python_script("#!pythonw\n");
    assert_eq!(posix(9, true, None), python_script);
    assert_eq!("#!pythonw\n", re_written(python_script, "#!pythonw\n"));
}

#[test]
fn test_detect_posix_script_shebang() {
    let contents = "#!/usr/bin/python\npass";
    let python_script = detect_python_script(contents);
    assert_eq!(posix(17, false, None), python_script);
    assert_eq!("#!python\npass", re_written(python_script, contents));

    let contents = "#!/usr/bin/python3\npass";
    let python_script = detect_python_script(contents);
    assert_eq!(posix(18, false, None), python_script);
    assert_eq!("#!python\npass", re_written(python_script, contents));

    let contents = "#!/usr/bin/python3.14\npass";
    let python_script = detect_python_script(contents);
    assert_eq!(posix(21, false, None), python_script);
    assert_eq!("#!python\npass", re_written(python_script, contents));

    assert!(detect_python_script("#!/usr/bin/perl\npass").is_none());
}

#[test]
fn test_detect_posix_script_shebang_with_args() {
    let contents = "#!/usr/bin/python -I\npass";
    let python_script = detect_python_script(contents);
    assert_eq!(posix(17, false, None), python_script);
    assert_eq!("#!python -I\npass", re_written(python_script, contents));

    let contents = "#!/usr/bin/python3 -I\npass";
    let python_script = detect_python_script(contents);
    assert_eq!(posix(18, false, None), python_script);
    assert_eq!("#!python -I\npass", re_written(python_script, contents));

    let contents = "#!/usr/bin/python3.14 -I\npass";
    let python_script = detect_python_script(contents);
    assert_eq!(posix(21, false, None), python_script);
    assert_eq!("#!python -I\npass", re_written(python_script, contents));

    assert!(detect_python_script("#!/usr/bin/perl -n\npass").is_none());
}

#[test]
fn test_detect_bin_sh_redirector_script_shebang() {
    let contents = "#!/bin/sh\n\
        '''exec' /the/venv/bin/python \"$0\" \"$@\"\n\
        '''\n\
        pass";
    let python_script = detect_python_script(contents);
    assert_eq!(posix(9, false, Some(9..53)), python_script);
    assert_eq!("#!python\npass", re_written(python_script, contents));

    let contents = "#!/bin/sh\n\
        # coding=utf-8\n\
        '''exec' /the/venv/bin/python \"$0\" \"$@\"\n\
        '''\n\
        pass";
    let python_script = detect_python_script(contents);
    assert_eq!(posix(9, false, Some(24..68)), python_script);
    assert_eq!(
        "#!python\n# coding=utf-8\npass",
        re_written(python_script, contents)
    );

    let contents = "#!/bin/sh\n\
        '''': pshprs\n\
        /the/venv/bin/python \"$0\" \"$@\"\n\
        '''\n\
        pass";
    let python_script = detect_python_script(contents);
    assert_eq!(posix(9, false, Some(9..57)), python_script);
    assert_eq!("#!python\npass", re_written(python_script, contents));

    let contents = "#!/bin/sh\n\
        # -*- coding: windows-1252 -*-\n\
        '''': pshprs\n\
        /the/venv/bin/python \"$0\" \"$@\"\n\
        '''\n\
        pass";
    let python_script = detect_python_script(contents);
    assert_eq!(posix(9, false, Some(40..88)), python_script);
    assert_eq!(
        "#!python\n# -*- coding: windows-1252 -*-\npass",
        re_written(python_script, contents)
    );
}

#[test]
fn interpreter_names_are_compared_in_lower_case() {
    assert_eq!(posix(8, false, None), detect_python_script("#!PYTHON\n"));
    assert_eq!(posix(9, true, None), detect_python_script("#!PythonW x\n"));
    assert_eq!(
        posix(17, false, None),
        detect_python_script("#!/USR/BIN/PYTHON\r\npass")
    );
}

#[test]
fn pythons_of_another_version_are_not_taken() {
    assert!(detect_python_script("#!/usr/bin/python2\n").is_none());
    assert!(detect_python_script("#!/usr/bin/python3.13\n").is_none());
    assert!(detect_python_script("#!python3\n").is_none());
    assert_eq!(posix(15, false, None), detect_python_script("#!/usr/bin/pypy"));
    assert_eq!(posix(8, false, None), detect_python_script("#!mypypy"));
    assert_eq!(posix(16, false, None), detect_python_script("#!/usr/bin/pypy3"));
    assert_eq!(
        posix(19, false, None),
        detect_python_script("#!/usr/bin/pypy3.14")
    );
    let older = PythonVersion { major: 2, minor: 7 };
    let found = PythonScript::detect_posix(PathBuf::from("s"), b"#!/bin/python2.7\n", older);
    assert_eq!(
        Ok(Some(PythonScript::Posix {
            path: PathBuf::from("s"),
            shebang_end: 16,
            is_windowed: false,
            extra_shebang_content: None,
        })),
        found
    );
}

#[test]
fn files_without_a_shebang_are_not_scripts() {
    assert!(detect_python_script("pass\n").is_none());
    assert!(detect_python_script("##").is_none());
    assert!(detect_python_script("#!").is_none());
    assert!(detect_python_script("#! python\n").is_none());
}

#[test]
fn too_short_a_file_is_an_error() {
    for contents in [&b""[..], &b"#"[..]] {
        assert_eq!(
            Err(DetectError::UnexpectedEof),
            PythonScript::detect(PathBuf::from("script"), contents, VERSION, false)
        );
    }
}

#[test]
fn other_bin_sh_scripts_are_not_taken() {
    assert!(detect_python_script("#!/bin/sh").is_none());
    assert!(detect_python_script("#!/bin/sh\necho hi\n").is_none());
    assert!(detect_python_script("#!/bin/sh\n# coding: utf-8\necho hi\n").is_none());
    assert!(detect_python_script("#!/bin/sh\n'''exec' /bin/perl\n'''\n").is_none());
    assert!(detect_python_script("#!/bin/sh\n '''exec' /bin/python\n'''\n").is_none());
    assert!(detect_python_script("#!/bin/sh\n# coding utf-8\n'''exec' python\n'''\n").is_none());
    assert!(detect_python_script("#!/bin/sh\n'''': pshprs \n'''\n").is_none());
}

#[test]
fn pypy_and_indented_coding_lines_are_taken() {
    let contents = "#!/bin/sh\n \t\x0c# vim: set fileencoding=utf-8 :\n'''exec' pypy\n'''\nx";
    let python_script = detect_python_script(contents);
    assert_eq!(
        "#!python\n \t\x0c# vim: set fileencoding=utf-8 :\nx",
        re_written(python_script, contents)
    );
}

#[test]
fn a_part_without_a_closing_line_is_an_error() {
    let contents = b"#!/bin/sh\n'''exec' /bin/python\n''' \n'''";
    assert_eq!(
        Err(DetectError::Unterminated),
        PythonScript::detect(PathBuf::from("script"), contents, VERSION, false)
    );
}

#[test]
fn lines_that_are_not_text_are_an_error() {
    let lines: [&[u8]; 3] = [
        b"#!/bin/sh\n\xff\n",
        b"#!/bin/sh\n# coding=latin-1\n\xff\n",
        b"#!/bin/sh\n'''exec' /bin/python\n\xff\n'''\n",
    ];
    for contents in lines {
        assert_eq!(
            Err(DetectError::InvalidUtf8),
            PythonScript::detect(PathBuf::from("script"), contents, VERSION, false)
        );
    }
    // Only the lines that are looked at have to be text.
    let contents = b"#!python\n\xff\n";
    let script = PythonScript::detect(PathBuf::from("script"), contents, VERSION, false);
    assert_eq!(
        contents.to_vec(),
        re_write(&script.unwrap().unwrap(), contents)
    );
}

#[test]
fn what_follows_bin_sh_moves_what_is_cut() {
    let contents = "#!/bin/sh -e\n'''exec' /bin/python\n'''\npass";
    let python_script = detect_python_script(contents);
    assert_eq!(posix(9, false, Some(9..34)), python_script);
    assert_eq!("#!python'''\npass", re_written(python_script, contents));

    let contents = "#!/bin/sh\r\n# coding=utf-8\n'''exec' /bin/python\n'''\npass";
    let python_script = detect_python_script(contents);
    assert_eq!(posix(9, false, Some(24..49)), python_script);
    assert_eq!(
        "#!python\r\n# coding=utf-'\npass",
        re_written(python_script, contents)
    );
}

#[test]
fn re_writing_twice_changes_nothing_more() {
    for contents in [
        "#!/usr/bin/python -I\npass",
        "#!pythonw",
        "#!/bin/sh\n# coding=utf-8\n'''exec' /bin/python\n'''\npass",
    ] {
        let once = re_written(detect_python_script(contents), contents);
        let again = detect_python_script(&once);
        assert_eq!(once, re_written(again, &once));
    }
}

#[test]
fn positions_past_the_end_give_nothing() {
    let script = PythonScript::Posix {
        path: PathBuf::from("script"),
        shebang_end: 4,
        is_windowed: true,
        extra_shebang_content: Some(6..20),
    };
    assert_eq!(b"#!pythonw45".to_vec(), re_write(&script, b"01234567"));
    assert_eq!(b"#!pythonw4".to_vec(), re_write(&script, b"01234"));
    assert_eq!(b"#!pythonw".to_vec(), re_write(&script, b"01"));
}

/// An archive behind `before` with one stored member.
fn archive(before: &[u8], name: &str, member: &[u8]) -> Vec<u8> {
    let mut writer = zip::ZipWriter::new(Cursor::new(Vec::new()));
    let options = zip::write::SimpleFileOptions::default()
        .compression_method(zip::CompressionMethod::Stored);
    writer.start_file(name, options).unwrap();
    writer.write_all(member).unwrap();
    let mut contents = before.to_vec();
    contents.extend(writer.finish().unwrap().into_inner());
    contents
}

/// A PE image with that subsystem whose headers of that form start at that index.
fn image_of(subsystem: u16, magic: u16, headers: u8) -> Vec<u8> {
    let at = headers as usize;
    let mut image = vec![0; at + 0x88];
    image[0x00..0x02].copy_from_slice(b"MZ");
    image[0x3c] = headers;
    image[at..at + 0x04].copy_from_slice(b"PE\0\0");
    image[at + 0x18..at + 0x1a].copy_from_slice(&magic.to_le_bytes());
    image[at + 0x5c..at + 0x5e].copy_from_slice(&subsystem.to_le_bytes());
    image
}

/// A 64-bit PE image with that subsystem.
fn image(subsystem: u16) -> Vec<u8> {
    image_of(subsystem, 0x20b, 0x40)
}

fn windows(is_windowed: bool) -> Result<Option<PythonScript>, DetectError> {
    Ok(Some(PythonScript::Windows {
        path: PathBuf::from("script.exe"),
        is_windowed,
    }))
}

fn detect_exe(contents: &[u8], is_executable: bool) -> Result<Option<PythonScript>, DetectError> {
    PythonScript::detect(PathBuf::from("script.exe"), contents, VERSION, is_executable)
}

#[test]
fn executables_are_told_by_their_subsystem() {
    for (subsystem, is_windowed) in [(2, true), (3, false)] {
        let contents = archive(b"MZ stub", "__main__.py", &image(subsystem));
        assert_eq!(windows(is_windowed), detect_exe(&contents, true));
        assert_eq!(Ok(None), detect_exe(&contents, false));
        assert_eq!(
            windows(is_windowed),
            PythonScript::detect_windows(PathBuf::from("script.exe"), true, &contents)
        );
    }
}

#[test]
fn headers_are_read_wherever_they_start() {
    for magic in [0x20b, 0x10b] {
        for headers in [0x40, 0x44, 0x48, 0x4c, 0x80, 0xfc] {
            for (subsystem, is_windowed) in [(2, true), (3, false)] {
                let member = image_of(subsystem, magic, headers);
                let contents = archive(b"MZ stub", "__main__.py", &member);
                assert_eq!(windows(is_windowed), detect_exe(&contents, true));
            }
        }
    }
}

#[test]
fn the_windowed_subsystem_is_that_of_the_format() {
    assert_eq!(pelite::image::IMAGE_SUBSYSTEM_WINDOWS_GUI, WINDOWS_GUI);
    assert_eq!(
        windows(true),
        windows_script(PathBuf::from("script.exe"), Ok(WINDOWS_GUI))
    );
}

#[test]
fn executables_without_the_script_are_not_taken() {
    assert_eq!(Ok(None), detect_exe(b"MZ stub", true));
    let contents = archive(b"MZ stub", "main.py", &image(2));
    assert_eq!(Ok(None), detect_exe(&contents, true));
}

#[test]
fn bad_executables_are_an_error() {
    let found = |member: &[u8]| detect_exe(&archive(b"MZ stub", "__main__.py", member), true);
    let bad = |error| Err(DetectError::BadExecutable(error));
    assert_eq!(bad(PeError::BadMagic), found(b"print('no image')"));
    assert_eq!(bad(PeError::Misaligned), found(&image_of(2, 0x20b, 0x42)));
    assert_eq!(bad(PeError::BadMagic), found(&image_of(2, 0x107, 0x44)));
    let mut too_far = image(2);
    too_far[0x3d] = 0xff;
    assert_eq!(bad(PeError::Bounds), found(&too_far));
    too_far[0x3f] = 0xff;
    assert_eq!(bad(PeError::Insanity), found(&too_far));
    assert_eq!(
        bad(PeError::Other),
        windows_script(PathBuf::from("script.exe"), Err(PeError::Other))
    );
}

#[test]
fn a_shebang_goes_before_an_archive() {
    let contents = archive(b"#!/usr/bin/python\n", "__main__.py", &image(2));
    let found = detect_exe(&contents, true).unwrap().unwrap();
    assert!(matches!(
        found,
        PythonScript::Posix {
            shebang_end: 17,
            ..
        }
    ));
}

#[test]
fn executable_images_start_where_the_reader_stands() {
    let contents = b"0123456789";
    let probe = |offset, position| ZipProbe { offset, position };
    assert_eq!(b"2345678", find_executable_image(contents, probe(3, 2)));
    assert_eq!(b"456789", find_executable_image(contents, probe(3, 4)));
    assert_eq!(b"012", find_executable_image(contents, probe(7, 0)));
    assert_eq!(b"", find_executable_image(contents, probe(3, 10)));
    assert_eq!(b"", find_executable_image(contents, probe(3, u64::MAX)));
}

#[test]
fn windows_scripts_are_re_written_from_their_archive() {
    let contents = archive(b"MZ stub", "__main__.py", b"\nimport main\n");
    let script = |is_windowed| PythonScript::Windows {
        path: PathBuf::from("script.exe"),
        is_windowed,
    };
    assert_eq!(
        b"#!python\nimport main\n".to_vec(),
        re_write(&script(false), &contents)
    );
    assert_eq!(
        b"#!pythonw\nimport main\n".to_vec(),
        re_write(&script(true), &contents)
    );
}

#[test]
fn the_placeholder_is_written_before_a_script_fails() {
    let script = |is_windowed| PythonScript::Windows {
        path: PathBuf::from("script.exe"),
        is_windowed,
    };
    let other = archive(b"", "main.py", b"");
    for contents in [&b"no archive"[..], &other] {
        let mut sink = b"before ".to_vec();
        assert!(matches!(
            script(true).re_write(Some(contents), &mut sink),
            Err(RewriteError::BadArchive(_))
        ));
        assert_eq!(b"before #!pythonw".to_vec(), sink);
    }
    let mut broken = archive(b"MZ stub", "__main__.py", b"\nimport main\n");
    let at = broken.windows(6).position(|part| part == b"import").unwrap();
    broken[at] = b'I';
    let mut sink = b"before ".to_vec();
    assert!(matches!(
        script(false).re_write(Some(&broken), &mut sink),
        Err(RewriteError::BadArchive(_))
    ));
    assert_eq!(b"before #!python\nImport main\n".to_vec(), sink);
    let posix = posix(8, false, None).unwrap();
    let scripts: [(&PythonScript, &[u8]); 2] =
        [(&script(true), b"#!pythonw"), (&posix, b"#!python")];
    for (script, placeholder) in scripts {
        let mut sink = Vec::new();
        assert!(matches!(
            script.re_write(None, &mut sink),
            Err(RewriteError::Unreadable)
        ));
        assert_eq!(placeholder.to_vec(), sink);
    }
}
