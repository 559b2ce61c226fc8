use std::io::Write;

use tool_fetch::{
    install, Application, Archive, ArchiveFault, EntryName, Extracted, Installation, Os, ToolError,
};
use tool_fetch::archive::{content_or_fault, find_entry, locate_entry, refuse_unsafe};
use tool_fetch::entry_path::path_stays_inside;

fn tar_gz(entries: &[(&str, &[u8], u32)]) -> Vec<u8> {
    let mut builder = tar::Builder::new(Vec::new());
    for (path, data, mode) in entries {
        let mut header = tar::Header::new_gnu();
        header.set_size(data.len() as u64);
        header.set_mode(*mode);
        header.set_entry_type(tar::EntryType::Regular);
        builder.append_data(&mut header, path, *data).unwrap();
    }
    let tar = builder.into_inner().unwrap();
    let mut encoder = flate2::write::GzEncoder::new(Vec::new(), flate2::Compression::default());
    encoder.write_all(&tar).unwrap();
    encoder.finish().unwrap()
}

fn zip_file(entries: &[(&str, &[u8], Option<u32>)]) -> Vec<u8> {
    let mut writer = zip::ZipWriter::new(std::io::Cursor::new(Vec::new()));
    for (path, data, mode) in entries {
        let mut options = zip::write::FileOptions::default()
            .compression_method(zip::CompressionMethod::Deflated);
        if let Some(mode) = mode {
            options = options.unix_permissions(*mode);
        }
        writer.start_file(*path, options).unwrap();
        writer.write_all(data).unwrap();
    }
    writer.finish().unwrap().into_inner()
}

fn io_failure(fault: ArchiveFault) -> ToolError {
    ToolError::IoFailure { fault }
}

fn sass_release() -> Vec<u8> {
    tar_gz(&[
        ("dart-sass/sass", b"#!/bin/sh\n", 0o755),
        ("dart-sass/src/dart", b"\x7fELF dart", 0o755),
        ("dart-sass/src/sass.snapshot", b"snapshot", 0o644),
    ])
}

#[test]
fn tar_gz_entry_is_found_below_its_top_directory() {
    let mut archive = Archive::new_tar_gz(sass_release());
    let file = archive.extract_file("src/dart").unwrap();
    assert_eq!(file.data, b"\x7fELF dart".to_vec());
    assert_eq!(file.mode, Some(0o755));
}

#[test]
fn tar_gz_records_the_mode_of_each_entry() {
    let mut archive = Archive::new_tar_gz(sass_release());
    let file = archive.extract_file("src/sass.snapshot").unwrap();
    assert_eq!(file, Extracted { data: b"snapshot".to_vec(), mode: Some(0o644) });
}

#[test]
fn tar_gz_must_be_reset_between_extractions() {
    let mut archive = Archive::new_tar_gz(sass_release());
    assert!(archive.extract_file("sass").is_ok());
    assert_eq!(archive.extract_file("src/dart"), Err(io_failure(ArchiveFault::NotReset)));
    assert_eq!(archive.extract_file("sass"), Err(io_failure(ArchiveFault::NotReset)));
    let mut archive = archive.reset().unwrap();
    let file = archive.extract_file("src/dart").unwrap();
    assert_eq!(file.data, b"\x7fELF dart".to_vec());
}

#[test]
fn tar_gz_is_spent_by_a_failed_search_too() {
    let mut archive = Archive::new_tar_gz(sass_release());
    assert_eq!(
        archive.extract_file("missing"),
        Err(ToolError::ArchiveEntryNotFound { path: "missing".to_string() })
    );
    assert_eq!(archive.extract_file("sass"), Err(io_failure(ArchiveFault::NotReset)));
    assert_eq!(archive, Archive::TarGz { bytes: sass_release(), spent: true });
}

#[test]
fn reset_keeps_the_bytes() {
    let bytes = sass_release();
    let mut archive = Archive::new_tar_gz(bytes.clone());
    assert_eq!(archive, Archive::TarGz { bytes: bytes.clone(), spent: false });
    let _ = archive.extract_file("sass");
    assert_eq!(archive.reset(), Ok(Archive::TarGz { bytes, spent: false }));
}

#[test]
fn zip_needs_no_reset() {
    let bytes = zip_file(&[
        ("dart-sass/sass.bat", b"@echo off", Some(0o755)),
        ("dart-sass/src/dart.exe", b"MZ dart", None),
    ]);
    let mut archive = Archive::new_zip(bytes.clone()).unwrap();
    let first = archive.extract_file("sass.bat").unwrap();
    assert_eq!(first.data, b"@echo off".to_vec());
    assert_eq!(first.mode.map(|mode| mode & 0o777), Some(0o755));
    let second = archive.extract_file("src/dart.exe").unwrap();
    assert_eq!(second.data, b"MZ dart".to_vec());
    let again = archive.extract_file("sass.bat").unwrap();
    assert_eq!(again, first);
    assert_eq!(archive, Archive::Zip { bytes: bytes.clone() });
    assert_eq!(archive.reset(), Ok(Archive::Zip { bytes }));
}

#[test]
fn exactly_one_leading_component_is_dropped() {
    let bytes = tar_gz(&[
        ("sass", b"bare", 0o755),
        ("a/b/sass", b"deep", 0o755),
        ("top/sass", b"wrapped", 0o755),
    ]);
    let mut archive = Archive::new_tar_gz(bytes);
    assert_eq!(archive.extract_file("sass").unwrap().data, b"wrapped".to_vec());
    let mut archive = archive.reset().unwrap();
    assert_eq!(archive.extract_file("b/sass").unwrap().data, b"deep".to_vec());

    let bytes = zip_file(&[
        ("sass", b"bare", None),
        ("a/b/sass", b"deep", None),
        ("top/sass", b"wrapped", None),
    ]);
    let mut archive = Archive::new_zip(bytes).unwrap();
    assert_eq!(archive.extract_file("sass").unwrap().data, b"wrapped".to_vec());
    assert_eq!(archive.extract_file("b/sass").unwrap().data, b"deep".to_vec());
    assert_eq!(
        archive.extract_file("a/b/sass"),
        Err(ToolError::ArchiveEntryNotFound { path: "a/b/sass".to_string() })
    );
}

#[test]
fn first_matching_entry_wins() {
    let bytes = tar_gz(&[("one/tool", b"first", 0o700), ("two/tool", b"second", 0o755)]);
    let mut archive = Archive::new_tar_gz(bytes);
    assert_eq!(
        archive.extract_file("tool"),
        Ok(Extracted { data: b"first".to_vec(), mode: Some(0o700) })
    );
}

#[test]
fn bytes_that_are_no_gzip_stream_are_unreadable() {
    let mut archive = Archive::new_tar_gz(b"certainly not gzip".to_vec());
    assert_eq!(archive.extract_file("sass"), Err(io_failure(ArchiveFault::Entry)));
}

#[test]
fn empty_tar_gz_holds_nothing() {
    let mut archive = Archive::new_tar_gz(tar_gz(&[]));
    assert_eq!(
        archive.extract_file("sass"),
        Err(ToolError::ArchiveEntryNotFound { path: "sass".to_string() })
    );
}

#[test]
fn damage_behind_the_wanted_entry_does_no_harm() {
    let mut builder = tar::Builder::new(Vec::new());
    let mut header = tar::Header::new_gnu();
    header.set_size(4);
    header.set_mode(0o755);
    builder.append_data(&mut header, "top/tool", &b"tool"[..]).unwrap();
    let mut tar = builder.into_inner().unwrap();
    tar.truncate(1024);
    tar.extend_from_slice(&[0x55u8; 512]);
    let mut encoder = flate2::write::GzEncoder::new(Vec::new(), flate2::Compression::default());
    encoder.write_all(&tar).unwrap();
    let bytes = encoder.finish().unwrap();

    let mut archive = Archive::new_tar_gz(bytes.clone());
    assert_eq!(archive.extract_file("tool").unwrap().data, b"tool".to_vec());
    let mut archive = Archive::new_tar_gz(bytes);
    assert_eq!(archive.extract_file("other"), Err(io_failure(ArchiveFault::Entry)));
}

#[test]
fn bytes_that_are_no_zip_file_are_refused() {
    assert_eq!(Archive::new_zip(b"PK but not really".to_vec()), Err(io_failure(ArchiveFault::Open)));
    assert_eq!(Archive::new_zip(sass_release()), Err(io_failure(ArchiveFault::Open)));
    let mut archive = Archive::Zip { bytes: Vec::new() };
    assert_eq!(archive.extract_file("sass.bat"), Err(io_failure(ArchiveFault::Open)));
}

#[test]
fn zip_entry_that_leaves_the_directory_stops_the_search() {
    let bytes = zip_file(&[("../escape", b"x", None), ("top/tool", b"tool", None)]);
    let mut archive = Archive::new_zip(bytes).unwrap();
    assert_eq!(archive.extract_file("tool"), Err(io_failure(ArchiveFault::EntryPath)));

    let bytes = zip_file(&[("top/tool", b"tool", None), ("../escape", b"x", None)]);
    let mut archive = Archive::new_zip(bytes).unwrap();
    assert_eq!(archive.extract_file("tool").unwrap().data, b"tool".to_vec());
}

#[test]
fn zip_reports_the_mode_it_records() {
    let bytes = zip_file(&[("top/tool", b"tool", Some(0o750)), ("top/data", b"data", Some(0o600))]);
    let mut archive = Archive::new_zip(bytes).unwrap();
    let file = archive.extract_file("tool").unwrap();
    assert_eq!(file.data, b"tool".to_vec());
    assert_eq!(file.mode, Some(0o100750));
    let file = archive.extract_file("data").unwrap();
    assert_eq!(file.mode, Some(0o100600));
}

#[test]
fn stored_zip_entries_are_read_too() {
    let mut writer = zip::ZipWriter::new(std::io::Cursor::new(Vec::new()));
    let options = zip::write::FileOptions::default()
        .compression_method(zip::CompressionMethod::Stored);
    writer.start_file("top/tool", options).unwrap();
    writer.write_all(b"plain bytes").unwrap();
    let bytes = writer.finish().unwrap().into_inner();
    let mut archive = Archive::new_zip(bytes).unwrap();
    assert_eq!(archive.extract_file("tool").unwrap().data, b"plain bytes".to_vec());
}

fn named(path: &str) -> EntryName {
    EntryName::Named(path.as_bytes().to_vec())
}

#[test]
fn search_stops_at_the_first_fault_or_match() {
    let names = vec![named("top/a"), EntryName::Unreadable, named("top/b")];
    assert_eq!(find_entry(&names, b"a"), Ok(Some(0)));
    assert_eq!(find_entry(&names, b"b"), Err(ArchiveFault::Entry));
    let names = vec![named("top/a"), EntryName::Unsafe, named("top/b")];
    assert_eq!(find_entry(&names, b"a"), Ok(Some(0)));
    assert_eq!(find_entry(&names, b"b"), Err(ArchiveFault::EntryPath));
    let names = vec![named("top/a"), named("top/b")];
    assert_eq!(find_entry(&names, b"b"), Ok(Some(1)));
    assert_eq!(find_entry(&names, b"c"), Ok(None));
    assert_eq!(find_entry(&[].to_vec(), b"c"), Ok(None));
}

#[test]
fn entry_paths_are_compared_by_components() {
    let names = vec![named("top//bin/./tool/")];
    assert_eq!(find_entry(&names, b"bin/tool"), Ok(Some(0)));
    assert_eq!(find_entry(&names, b"bin//tool"), Ok(Some(0)));
    assert_eq!(find_entry(&names, b"./bin/tool"), Ok(None));
    assert_eq!(find_entry(&names, b"/bin/tool"), Ok(None));
    assert_eq!(find_entry(&names, b"bin/tool/.."), Ok(None));
    let names = vec![named("./tool"), named("/tool"), named("top/../tool")];
    assert_eq!(find_entry(&names, b"tool"), Ok(Some(0)));
    assert_eq!(find_entry(&names[1..].to_vec(), b"tool"), Ok(Some(0)));
    assert_eq!(find_entry(&names[2..].to_vec(), b"tool"), Ok(None));
    assert_eq!(find_entry(&names[2..].to_vec(), b"../tool"), Ok(Some(0)));
    let names = vec![named(""), named("top"), named(".")];
    assert_eq!(find_entry(&names, b""), Ok(Some(0)));
    assert_eq!(find_entry(&names, b"."), Ok(None));
    assert_eq!(find_entry(&names, b"x"), Ok(None));
}

#[test]
fn entry_paths_agree_with_std_paths() {
    let entries = [
        "top/a", "top/a/", "top//a", "./a", "/a", "a", "", ".", "..", "top/./a", "top/../a",
        "top/a/.", "top/.a", "top/a.", "//a", "./", ".//a", "top/a/b", "a/b", "./a/b", "t/.../a",
    ];
    let files = ["a", "a/b", "./a", "/a", "", ".", "..", "../a", "a/", "a//b", ".a", "a.", ".../a"];
    for entry in entries {
        for file in files {
            let mut rest = std::path::Path::new(entry).components();
            rest.next();
            let expected = rest.as_path() == std::path::Path::new(file);
            let found = find_entry(&vec![named(entry)], file.as_bytes());
            assert_eq!(found, Ok(if expected { Some(0) } else { None }), "{:?} {:?}", entry, file);
        }
    }
}

#[test]
fn entry_to_read_is_the_first_that_is_taken_for_the_file() {
    let names = vec![named("top/a"), named("top/b"), named("other/b")];
    assert_eq!(locate_entry(&names, "a"), Ok(0));
    assert_eq!(locate_entry(&names, "b"), Ok(1));
    assert_eq!(
        locate_entry(&names, "c"),
        Err(ToolError::ArchiveEntryNotFound { path: "c".to_string() })
    );
    assert_eq!(
        locate_entry(&Vec::new(), "bin/wasm-opt"),
        Err(ToolError::ArchiveEntryNotFound { path: "bin/wasm-opt".to_string() })
    );
}

#[test]
fn faults_before_the_wanted_entry_end_the_search() {
    let names = vec![named("top/a"), EntryName::Unsafe, named("top/b"), EntryName::Unreadable];
    assert_eq!(locate_entry(&names, "a"), Ok(0));
    assert_eq!(locate_entry(&names, "b"), Err(io_failure(ArchiveFault::EntryPath)));
    let names = vec![named("top/a"), EntryName::Unreadable, EntryName::Unsafe];
    assert_eq!(locate_entry(&names, "b"), Err(io_failure(ArchiveFault::Entry)));
    let names = vec![named("top/a"), named("/etc/b"), named("top/b")];
    assert_eq!(locate_entry(&names, "b"), Ok(2));
    assert_eq!(locate_entry(&names, "etc/b"), Ok(1));
}

#[test]
fn zip_names_that_leave_the_directory_are_refused() {
    for name in ["../tool", "/tool", "top/../../tool", "a/b/../../../c"] {
        let bytes = zip_file(&[(name, b"x", None), ("top/tool", b"tool", None)]);
        let mut archive = Archive::new_zip(bytes).unwrap();
        assert_eq!(archive.extract_file("tool"), Err(io_failure(ArchiveFault::EntryPath)), "{:?}", name);
    }
    for name in ["a/../tool", "./tool", "x/y/../z", "..tool", "a//b"] {
        let bytes = zip_file(&[(name, b"x", None), ("top/tool", b"tool", None)]);
        let mut archive = Archive::new_zip(bytes).unwrap();
        assert_eq!(archive.extract_file("missing").is_err(), true);
        assert_ne!(archive.extract_file("missing"), Err(io_failure(ArchiveFault::EntryPath)), "{:?}", name);
    }
}

#[test]
fn names_beyond_ascii_are_compared_by_their_bytes() {
    let names = vec![named("top/caf\u{e9}"), named("top/cafe\u{301}")];
    assert_eq!(locate_entry(&names, "caf\u{e9}"), Ok(0));
    assert_eq!(locate_entry(&names, "cafe\u{301}"), Ok(1));
    let names = vec![EntryName::Named(vec![0xff, b'/', b'a']), EntryName::Named(vec![b't', b'/', 0xff])];
    assert_eq!(locate_entry(&names, "a"), Ok(0));
    assert_eq!(
        locate_entry(&names[1..].to_vec(), "a"),
        Err(ToolError::ArchiveEntryNotFound { path: "a".to_string() })
    );
}

#[test]
fn unread_content_is_a_fault() {
    let found = Extracted { data: vec![1, 2, 3], mode: Some(0o644) };
    assert_eq!(content_or_fault(Some(found.clone())), Ok(found));
    assert_eq!(content_or_fault(None), Err(io_failure(ArchiveFault::Content)));
}

#[test]
fn content_that_cannot_be_decoded_is_a_fault() {
    let mut state: u32 = 12345;
    let mut noise = Vec::new();
    for _ in 0..65536 {
        state = state.wrapping_mul(1664525).wrapping_add(1013904223);
        noise.push((state >> 24) as u8);
    }
    let mut bytes = tar_gz(&[("top/tool", &noise, 0o755)]);
    bytes.truncate(bytes.len() / 2);

    let mut archive = Archive::new_tar_gz(bytes);
    assert_eq!(archive.extract_file("tool"), Err(io_failure(ArchiveFault::Content)));
}

#[test]
fn zip_content_that_fails_its_checksum_is_a_fault() {
    let mut writer = zip::ZipWriter::new(std::io::Cursor::new(Vec::new()));
    let options = zip::write::FileOptions::default()
        .compression_method(zip::CompressionMethod::Stored);
    writer.start_file("top/tool", options).unwrap();
    writer.write_all(b"0123456789abcdef").unwrap();
    let mut bytes = writer.finish().unwrap().into_inner();
    let at = bytes.windows(16).position(|w| w == b"0123456789abcdef").unwrap();
    bytes[at] = b'X';

    let mut archive = Archive::new_zip(bytes).unwrap();
    assert_eq!(archive.extract_file("tool"), Err(io_failure(ArchiveFault::Content)));
    assert_eq!(
        archive.extract_file("other"),
        Err(ToolError::ArchiveEntryNotFound { path: "other".to_string() })
    );
}

fn le16(value: u16) -> [u8; 2] {
    value.to_le_bytes()
}

fn le32(value: u32) -> [u8; 4] {
    value.to_le_bytes()
}

/// A zip file with one stored entry whose index record carries `extra` and
/// the given flags and compression method.
fn zip_with_record(name: &[u8], data: &[u8], flags: u16, method: u16, extra: &[u8]) -> Vec<u8> {
    let mut bytes = Vec::new();
    bytes.extend_from_slice(&[0x50, 0x4b, 0x03, 0x04]);
    bytes.extend_from_slice(&le16(20));
    bytes.extend_from_slice(&le16(flags));
    bytes.extend_from_slice(&le16(0));
    bytes.extend_from_slice(&le32(0));
    bytes.extend_from_slice(&le32(0));
    bytes.extend_from_slice(&le32(data.len() as u32));
    bytes.extend_from_slice(&le32(data.len() as u32));
    bytes.extend_from_slice(&le16(name.len() as u16));
    bytes.extend_from_slice(&le16(0));
    bytes.extend_from_slice(name);
    bytes.extend_from_slice(data);

    let directory_at = bytes.len() as u32;
    bytes.extend_from_slice(&[0x50, 0x4b, 0x01, 0x02]);
    bytes.extend_from_slice(&le16(0x031e));
    bytes.extend_from_slice(&le16(20));
    bytes.extend_from_slice(&le16(flags));
    bytes.extend_from_slice(&le16(method));
    bytes.extend_from_slice(&le32(0));
    bytes.extend_from_slice(&le32(0));
    bytes.extend_from_slice(&le32(data.len() as u32));
    bytes.extend_from_slice(&le32(data.len() as u32));
    bytes.extend_from_slice(&le16(name.len() as u16));
    bytes.extend_from_slice(&le16(extra.len() as u16));
    bytes.extend_from_slice(&le16(0));
    bytes.extend_from_slice(&le16(0));
    bytes.extend_from_slice(&le16(0));
    bytes.extend_from_slice(&le32(0o100755 << 16));
    bytes.extend_from_slice(&le32(0));
    bytes.extend_from_slice(name);
    bytes.extend_from_slice(extra);
    let directory_len = bytes.len() as u32 - directory_at;

    bytes.extend_from_slice(&[0x50, 0x4b, 0x05, 0x06]);
    bytes.extend_from_slice(&le16(0));
    bytes.extend_from_slice(&le16(0));
    bytes.extend_from_slice(&le16(1));
    bytes.extend_from_slice(&le16(1));
    bytes.extend_from_slice(&le32(directory_len));
    bytes.extend_from_slice(&le32(directory_at));
    bytes.extend_from_slice(&le16(0));
    bytes
}

const AES_MARKER: [u8; 11] = [0x01, 0x99, 0x07, 0x00, 0x02, 0x00, 0x41, 0x45, 0x03, 0x00, 0x00];

#[test]
fn hand_built_zip_is_read() {
    let bytes = zip_with_record(b"top/tool", b"", 0, 0, &[]);
    let mut archive = Archive::new_zip(bytes).unwrap();
    assert_eq!(
        archive.extract_file("tool"),
        Ok(Extracted { data: Vec::new(), mode: Some(0o100755) })
    );
}

#[test]
fn zip_entry_marked_as_encrypted_without_the_flag_is_unreadable() {
    let bytes = zip_with_record(b"top/tool", b"", 0, 99, &AES_MARKER);
    let mut archive = Archive::new_zip(bytes.clone()).unwrap();
    assert_eq!(archive.extract_file("tool"), Err(io_failure(ArchiveFault::Entry)));
    assert_eq!(archive.extract_file("other"), Err(io_failure(ArchiveFault::Entry)));
    assert_eq!(
        install(Application::Sass, bytes, Os::Windows),
        Installation { files: vec![], error: Some(io_failure(ArchiveFault::Entry)) }
    );
}

#[test]
fn zip_entry_that_needs_a_password_is_unreadable() {
    let bytes = zip_with_record(b"top/tool", b"0123456789abcdef", 1, 0, &[]);
    let mut archive = Archive::new_zip(bytes).unwrap();
    assert_eq!(archive.extract_file("tool"), Err(io_failure(ArchiveFault::Entry)));
    let bytes = zip_with_record(b"top/tool", b"0123456789abcdef", 1, 99, &AES_MARKER);
    let mut archive = Archive::new_zip(bytes).unwrap();
    assert_eq!(archive.extract_file("tool"), Err(io_failure(ArchiveFault::Entry)));
}

#[test]
fn paths_that_stay_inside_their_directory() {
    for path in ["", "a", "a/b", "./a", "a/..", "a/../b", "a/b/../../c", ".", "a//b/", "..a", "a..", "..."] {
        assert!(path_stays_inside(path.as_bytes()), "{:?}", path);
    }
    for path in ["/", "/a", "//a", "..", "../a", "a/../..", "a/../../b", "./..", "a/b/../../../c", "a\0", "\0"] {
        assert!(!path_stays_inside(path.as_bytes()), "{:?}", path);
    }
}

#[test]
fn backslash_and_colon_are_part_of_a_name() {
    for path in ["top\\..\\..\\x", "C:\\x", "..\\x", "a\\..\\..\\b", "C:", "C:x", "\\\\server\\share\\x", "\\x"] {
        assert!(path_stays_inside(path.as_bytes()), "{:?}", path);
    }
    assert!(!path_stays_inside(b"C:/../.."));
    assert!(!path_stays_inside(b"top\\x/../.."));
}

#[test]
fn refusal_agrees_with_the_zip_crate_on_recorded_paths() {
    let paths = [
        "a", "a/b", "./a", "a/..", "a/../b", "a/b/../../c", ".", "a//b/", "..a", "a..", "...",
        "/", "/a", "//a", "..", "../a", "a/../..", "a/../../b", "./..", "a/b/../../../c",
        "top/tool", "top/./tool", "top/../../tool", "./../tool", ".../..", "a/./../b",
    ];
    for path in paths {
        let bytes = zip_file(&[(path, b"x", None)]);
        let mut archive = zip::ZipArchive::new(std::io::Cursor::new(bytes)).unwrap();
        let accepted = archive.by_index(0).unwrap().enclosed_name().is_some();
        assert_eq!(path_stays_inside(path.as_bytes()), accepted, "{:?}", path);
    }
}

#[test]
fn only_names_that_lead_outside_are_marked() {
    let names = vec![
        named("top/a"),
        named("../a"),
        EntryName::Unreadable,
        named("/a"),
        EntryName::Unsafe,
        named("a/../../b"),
        named("a/../b"),
        named("top\\..\\..\\x"),
        named("C:\\x"),
    ];
    assert_eq!(
        refuse_unsafe(names),
        vec![
            named("top/a"),
            EntryName::Unsafe,
            EntryName::Unreadable,
            EntryName::Unsafe,
            EntryName::Unsafe,
            EntryName::Unsafe,
            named("a/../b"),
            named("top\\..\\..\\x"),
            named("C:\\x"),
        ]
    );
    assert_eq!(refuse_unsafe(Vec::new()), Vec::new());
}

#[test]
fn zip_entries_with_backslash_or_colon_are_read_the_same_on_every_host() {
    let bytes = zip_file(&[
        ("top\\..\\..\\x", b"one", None),
        ("C:\\x", b"two", None),
        ("top\\tool", b"three", None),
        ("top/tool", b"tool", None),
        ("../x", b"four", None),
    ]);
    let mut archive = Archive::new_zip(bytes).unwrap();
    assert_eq!(archive.extract_file("tool").unwrap().data, b"tool".to_vec());
    assert_eq!(archive.extract_file("x"), Err(io_failure(ArchiveFault::EntryPath)));
    assert_eq!(archive.extract_file("..\\..\\x"), Err(io_failure(ArchiveFault::EntryPath)));
    let bytes = zip_file(&[("top/C:\\x", b"two", None), ("top/a\\b", b"three", None)]);
    let mut archive = Archive::new_zip(bytes).unwrap();
    assert_eq!(archive.extract_file("C:\\x").unwrap().data, b"two".to_vec());
    assert_eq!(archive.extract_file("a\\b").unwrap().data, b"three".to_vec());
    assert_eq!(
        archive.extract_file("b"),
        Err(ToolError::ArchiveEntryNotFound { path: "b".to_string() })
    );
}

#[test]
fn tar_entries_are_not_refused_for_their_names() {
    let names = vec![named("../x"), named("/etc/x"), named("top/x")];
    assert_eq!(locate_entry(&names, "x"), Ok(0));
    assert_eq!(locate_entry(&names, "etc/x"), Ok(1));
    assert_eq!(locate_entry(&refuse_unsafe(names), "etc/x"), Err(io_failure(ArchiveFault::EntryPath)));
}
