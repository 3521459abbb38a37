use noalbsgui::archive::{file_name_of, locate_binary, locate_in_tar, locate_in_zip, ArchiveMember};
use noalbsgui::error::AppError;
use std::io::Write;

fn tar_bytes(entries: &[(&str, &[u8])]) -> Vec<u8> {
    let mut tar_buf = Vec::new();
    {
        let mut builder = tar::Builder::new(&mut tar_buf);
        for (name, content) in entries {
            let mut header = tar::Header::new_gnu();
            header.set_path(name).unwrap();
            header.set_size(content.len() as u64);
            header.set_mode(0o755);
            header.set_cksum();
            builder.append(&header, *content).unwrap();
        }
        builder.finish().unwrap();
    }
    tar_buf
}

fn gzip(bytes: &[u8]) -> Vec<u8> {
    let mut gz = flate2::write::GzEncoder::new(Vec::new(), flate2::Compression::default());
    gz.write_all(bytes).unwrap();
    gz.finish().unwrap()
}

fn make_tar_gz(name: &str, content: &[u8]) -> Vec<u8> {
    gzip(&tar_bytes(&[("README.md", b"hi"), (name, content)]))
}

/// A tarball whose readable entries are `entries`, followed by a damaged header.
fn damaged_tar_gz(entries: &[(&str, &[u8])]) -> Vec<u8> {
    let mut t = tar_bytes(entries);
    t.truncate(t.len() - 1024);
    t.extend(std::iter::repeat(b'A').take(512));
    t.extend(std::iter::repeat(0u8).take(1024));
    gzip(&t)
}

fn make_zip(name: &str, content: &[u8]) -> Vec<u8> {
    let mut buf = std::io::Cursor::new(Vec::new());
    {
        let mut zip = zip::ZipWriter::new(&mut buf);
        let opts = zip::write::SimpleFileOptions::default()
            .compression_method(zip::CompressionMethod::Deflated);
        zip.start_file("notes.txt", opts).unwrap();
        zip.write_all(b"notes").unwrap();
        zip.start_file(name, opts).unwrap();
        zip.write_all(content).unwrap();
        zip.finish().unwrap();
    }
    buf.into_inner()
}

#[test]
fn locates_binary_in_tar_gz() {
    let archive = make_tar_gz("pkg/noalbs", b"#!/bin/sh\necho noalbs\n");
    let r = locate_binary(&archive, "noalbs-v2.17.0-x86_64-unknown-linux-musl.tar.gz", "noalbs", false);
    assert_eq!(r.unwrap(), ArchiveMember::TarEntry(1));
}

#[test]
fn locates_binary_in_zip() {
    let archive = make_zip("noalbs-v2.17.0/noalbs.exe", b"MZ fake exe");
    let r = locate_binary(&archive, "noalbs-v2.17.0-x86_64-pc-windows-msvc.zip", "noalbs.exe", true);
    assert_eq!(r.unwrap(), ArchiveMember::ZipFile(1));
}

#[test]
fn archive_without_binary_is_no_matching_asset() {
    let archive = make_tar_gz("pkg/other", b"x");
    let err = locate_binary(&archive, "a.tar.gz", "noalbs", false).unwrap_err();
    assert!(matches!(err, AppError::NoMatchingAsset));
    let archive = make_zip("other.txt", b"x");
    let err = locate_binary(&archive, "a.zip", "noalbs.exe", true).unwrap_err();
    assert!(matches!(err, AppError::NoMatchingAsset));
}

#[test]
fn broken_archives_are_errors() {
    let err = locate_binary(b"not a zip", "a.zip", "noalbs.exe", true).unwrap_err();
    assert!(matches!(err, AppError::Zip(_)));
    let err = locate_binary(b"not gzip", "a.tar.gz", "noalbs", false).unwrap_err();
    assert!(matches!(err, AppError::Io(_)));
}

#[test]
fn damage_after_the_binary_does_not_matter() {
    let archive = damaged_tar_gz(&[("README.md", b"hi"), ("pkg/noalbs", b"bin")]);
    let r = locate_binary(&archive, "a.tar.gz", "noalbs", false);
    assert_eq!(r.unwrap(), ArchiveMember::TarEntry(1));
    let archive = damaged_tar_gz(&[("README.md", b"hi")]);
    let err = locate_binary(&archive, "a.tar.gz", "noalbs", false).unwrap_err();
    assert!(matches!(err, AppError::Io(_)));
}

#[test]
fn tar_asset_name_decides_the_reader() {
    // a zip archive under a tarball's name is read as a tarball, and fails
    let archive = make_zip("noalbs", b"x");
    assert!(locate_binary(&archive, "noalbs.tar.gz", "noalbs", false).is_err());
}

#[test]
fn zip_search_takes_first_name_ending_with_binary() {
    let names: Vec<String> =
        vec!["README.md".into(), "dir/noalbs".into(), "noalbs".into()];
    assert_eq!(locate_in_zip(&names, None, "noalbs").unwrap(), 1);
    let names: Vec<String> = vec!["xnoalbs".into()];
    assert_eq!(locate_in_zip(&names, None, "noalbs").unwrap(), 0);
    let names: Vec<String> = vec!["noalbs.md".into()];
    assert!(matches!(locate_in_zip(&names, None, "noalbs"), Err(AppError::NoMatchingAsset)));
}

#[test]
fn search_hands_back_the_listing_error() {
    let names: Vec<String> = vec!["README.md".into()];
    let err = locate_in_zip(&names, Some(AppError::Other("cut".into())), "noalbs").unwrap_err();
    assert!(matches!(err, AppError::Other(m) if m == "cut"));
    let names: Vec<String> = vec!["noalbs".into()];
    assert_eq!(locate_in_zip(&names, Some(AppError::Other("cut".into())), "noalbs").unwrap(), 0);
    let paths: Vec<Vec<u8>> = vec![b"a/b".to_vec()];
    let err = locate_in_tar(&paths, Some(AppError::Other("cut".into())), "noalbs", false).unwrap_err();
    assert!(matches!(err, AppError::Other(m) if m == "cut"));
}

#[test]
fn tar_search_compares_file_names() {
    let paths: Vec<Vec<u8>> =
        vec![b"docs/noalbs.md".to_vec(), b"pkg/xnoalbs".to_vec(), b"bin/noalbs/".to_vec(), b"noalbs".to_vec()];
    assert_eq!(locate_in_tar(&paths, None, "noalbs", false).unwrap(), 2);
    let paths: Vec<Vec<u8>> = vec![b"pkg/noalbs/..".to_vec(), b"pkg/noalbs/.".to_vec()];
    assert_eq!(locate_in_tar(&paths, None, "noalbs", false).unwrap(), 1);
    let paths: Vec<Vec<u8>> = vec![b"pkg\\noalbs.exe".to_vec()];
    assert!(matches!(locate_in_tar(&paths, None, "noalbs.exe", false), Err(AppError::NoMatchingAsset)));
    assert_eq!(locate_in_tar(&paths, None, "noalbs.exe", true).unwrap(), 0);
}

#[test]
fn tar_paths_that_are_not_utf8() {
    // elsewhere only the file name has to be UTF-8
    let paths: Vec<Vec<u8>> = vec![vec![0xff, b'/', b'n', b'o', b'a', b'l', b'b', b's']];
    assert_eq!(locate_in_tar(&paths, None, "noalbs", false).unwrap(), 0);
    let paths: Vec<Vec<u8>> = vec![vec![b'd', b'/', 0xff], b"noalbs".to_vec()];
    assert_eq!(locate_in_tar(&paths, None, "noalbs", false).unwrap(), 1);
    // on Windows such a path cannot be read at all
    let paths: Vec<Vec<u8>> = vec![vec![b'd', b'/', 0xff], b"noalbs.exe".to_vec()];
    assert!(matches!(locate_in_tar(&paths, None, "noalbs.exe", true), Err(AppError::Io(_))));
    let paths: Vec<Vec<u8>> = vec![b"noalbs.exe".to_vec(), vec![0xff]];
    assert_eq!(locate_in_tar(&paths, None, "noalbs.exe", true).unwrap(), 0);
}

#[test]
fn file_names_of_paths() {
    let f = |p: &str, w: bool| file_name_of(p.as_bytes(), w).map(|v| String::from_utf8(v).unwrap());
    assert_eq!(f("/usr/bin/", false).as_deref(), Some("bin"));
    assert_eq!(f("tmp/foo.txt", false).as_deref(), Some("foo.txt"));
    assert_eq!(f("foo.txt/.", false).as_deref(), Some("foo.txt"));
    assert_eq!(f("foo.txt/.//", false).as_deref(), Some("foo.txt"));
    assert_eq!(f("a//b", false).as_deref(), Some("b"));
    assert_eq!(f("./a", false).as_deref(), Some("a"));
    assert_eq!(f("a/.b", false).as_deref(), Some(".b"));
    assert_eq!(f("a/...", false).as_deref(), Some("..."));
    assert_eq!(f("foo.txt/..", false), None);
    assert_eq!(f("/", false), None);
    assert_eq!(f(".", false), None);
    assert_eq!(f("", false), None);
    assert_eq!(f("..", false), None);
    assert_eq!(f("C:noalbs.exe", true).as_deref(), Some("noalbs.exe"));
    assert_eq!(f("C:noalbs.exe", false).as_deref(), Some("C:noalbs.exe"));
    assert_eq!(f("C:\\", true), None);
    assert_eq!(f("C:", true), None);
    assert_eq!(f("1:x", true).as_deref(), Some("1:x"));
    assert_eq!(f("dir\\noalbs.exe", true).as_deref(), Some("noalbs.exe"));
    assert_eq!(f("dir\\noalbs.exe", false).as_deref(), Some("dir\\noalbs.exe"));
}

#[test]
fn windows_prefixes_are_not_file_names() {
    let f = |p: &str| file_name_of(p.as_bytes(), true).map(|v| String::from_utf8(v).unwrap());
    assert_eq!(f(r"\\server\noalbs.exe"), None);
    assert_eq!(f(r"\\server\share\noalbs.exe").as_deref(), Some("noalbs.exe"));
    assert_eq!(f("//server/share/noalbs.exe").as_deref(), Some("noalbs.exe"));
    assert_eq!(f(r"\\\noalbs.exe").as_deref(), Some("noalbs.exe"));
    assert_eq!(f(r"\\.\COM1"), None);
    assert_eq!(f(r"\\.\pipe\x").as_deref(), Some("x"));
    assert_eq!(f(r"\\?\C:\a/b").as_deref(), Some("a/b"));
    assert_eq!(f(r"\\?\C:\dir\."), None);
    assert_eq!(f(r"\\?\C:"), None);
    assert_eq!(f(r"\\?\UNC\srv\share"), None);
    assert_eq!(f(r"\\?\UNC\srv\share\f").as_deref(), Some("f"));
    assert_eq!(f(r"\\?\pfx"), None);
    assert_eq!(f(r"\\?\pfx\f/g").as_deref(), Some("f/g"));
    // elsewhere these are plain names
    assert_eq!(file_name_of(br"\\server\noalbs.exe", false), Some(br"\\server\noalbs.exe".to_vec()));
    let paths: Vec<Vec<u8>> = vec![br"\\server\noalbs.exe".to_vec(), br"\\server\share\noalbs.exe".to_vec()];
    assert_eq!(locate_in_tar(&paths, None, "noalbs.exe", true).unwrap(), 1);
}

#[test]
fn non_utf8_path_error_names_the_path() {
    let paths: Vec<Vec<u8>> = vec![vec![b'd', 0xff]];
    match locate_in_tar(&paths, None, "noalbs.exe", true) {
        Err(AppError::Io(e)) => {
            assert_eq!(e.kind(), std::io::ErrorKind::Other);
            assert_eq!(e.to_string(), "only Unicode paths are supported on Windows: d\u{fffd}");
        }
        _ => panic!("expected an I/O error"),
    }
}
