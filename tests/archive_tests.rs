use fluxforge::archive::{
    create, create_zip, error_of_fault, extract, extract_zip, format_for_extension, format_of_path,
    name_problem, plan_entries, ArchiveFormat, ExtractStep, SourceFile,
};
use fluxforge::config::{AppConfig, CalendarDate};
use fluxforge::paths::is_within;
use fluxforge::result::{ArchiveOptions, ConvertError};
use fluxforge::zip_io::ZipFault;
use std::io::Write;

fn config(base: &str) -> AppConfig {
    AppConfig {
        export_folder: base.to_string(),
        export_folder_name: "FluxForge".to_string(),
        theme: "dark".to_string(),
        default_pdf_dpi: 150,
        auto_create_date_folders: true,
        cloud_sync_folder: None,
    }
}

fn day() -> CalendarDate {
    CalendarDate { year: 2024, month: 3, day: 7 }
}

fn zip_of(entries: &[(&str, &[u8])]) -> Vec<u8> {
    let mut w = zip::ZipWriter::new(std::io::Cursor::new(Vec::new()));
    let opts = zip::write::SimpleFileOptions::default();
    for (name, data) in entries {
        if name.ends_with('/') {
            w.add_directory(name.trim_end_matches('/'), opts).unwrap();
        } else {
            w.start_file(*name, opts).unwrap();
            w.write_all(data).unwrap();
        }
    }
    w.finish().unwrap().into_inner()
}

fn file(path: &str, content: Option<&[u8]>) -> SourceFile {
    SourceFile { path: path.to_string(), content: content.map(|c| c.to_vec()) }
}

#[test]
fn traversal_entries_are_rejected() {
    let bytes = zip_of(&[
        ("../evil.txt", b"x"),
        ("a/../../escape.txt", b"y"),
        ("ok/inner.txt", b"fine"),
        ("..", b"z"),
    ]);
    let steps = extract_zip(bytes, "/out/root", None).unwrap();
    assert_eq!(steps.len(), 4);
    assert!(matches!(&steps[0], ExtractStep::Reject(n) if n == "../evil.txt"));
    assert!(matches!(&steps[1], ExtractStep::Reject(n) if n == "a/../../escape.txt"));
    assert!(matches!(&steps[2], ExtractStep::WriteFile(p, d) if p == "/out/root/ok/inner.txt" && d == b"fine"));
    assert!(matches!(&steps[3], ExtractStep::Reject(_)));
    for s in &steps {
        match s {
            ExtractStep::CreateDir(p) | ExtractStep::WriteFile(p, _) => assert!(is_within("/out/root", p)),
            ExtractStep::Reject(_) => {}
        }
    }
}

#[test]
fn absolute_and_drive_names_are_rejected() {
    let entries = vec![
        ("/etc/passwd".to_string(), vec![1u8]),
        ("C:/x.txt".to_string(), vec![2u8]),
        ("\\share\\x".to_string(), vec![3u8]),
        ("dir/".to_string(), vec![]),
        ("..hidden/x".to_string(), vec![4u8]),
    ];
    let steps = plan_entries("root", &entries);
    assert!(matches!(&steps[0], ExtractStep::Reject(_)));
    assert!(matches!(&steps[1], ExtractStep::Reject(_)));
    assert!(matches!(&steps[2], ExtractStep::Reject(_)));
    assert!(matches!(&steps[3], ExtractStep::CreateDir(p) if p == "root/dir/"));
    assert!(matches!(&steps[4], ExtractStep::WriteFile(p, _) if p == "root/..hidden/x"));
}

#[test]
fn within_checks() {
    assert!(is_within("/a/b", "/a/b/c.txt"));
    assert!(is_within("/a/b/", "/a/b/c.txt"));
    assert!(!is_within("/a/b", "/a/bc/d"));
    assert!(!is_within("/a/b", "/a/b/../c"));
    assert!(!is_within("/a/b", "/a/b"));
    assert!(!is_within("/a/b", "/a/b/"));
    assert!(is_within("", "x/y"));
}

#[test]
fn extract_then_create_then_extract_keeps_contents() {
    let original = zip_of(&[("a.txt", b"alpha"), ("dir/", b""), ("dir/b.bin", &[0u8, 1, 2, 255])]);
    let steps = extract_zip(original, "/x", None).unwrap();
    let mut sources = Vec::new();
    for s in &steps {
        if let ExtractStep::WriteFile(p, d) = s {
            sources.push(file(p, Some(d)));
        }
    }
    assert_eq!(sources.len(), 2);
    let opts = ArchiveOptions { format: "zip".to_string(), password: None };
    let plan = create(&config("/base"), &sources, "again", &opts, day()).unwrap();
    let again = extract_zip(plan.archive, "/y", None).unwrap();
    let written: Vec<(String, Vec<u8>)> = again
        .iter()
        .filter_map(|s| match s {
            ExtractStep::WriteFile(p, d) => Some((p.clone(), d.clone())),
            _ => None,
        })
        .collect();
    assert_eq!(written, vec![
        ("/y/a.txt".to_string(), b"alpha".to_vec()),
        ("/y/b.bin".to_string(), vec![0u8, 1, 2, 255]),
    ]);
}

#[test]
fn create_skips_missing_paths() {
    let sources = vec![
        file("/missing/nothing.txt", None),
        file("/data/one.txt", Some(b"1")),
        file("C:\\data\\two.txt", Some(b"22")),
    ];
    let opts = ArchiveOptions { format: "zip".to_string(), password: None };
    let plan = create(&config("/base"), &sources, "bundle", &opts, day()).unwrap();
    assert_eq!(plan.output_path, "/base/FluxForge/Archives/2024-03-07/bundle.zip");
    assert!(plan.result.success);
    assert_eq!(plan.result.output_files, vec![plan.output_path.clone()]);
    assert_eq!(plan.result.output_folder, "/base/FluxForge/Archives/2024-03-07");
    assert_eq!(plan.result.message, "Compressed 2 file(s)");
    let steps = extract_zip(plan.archive, "r", None).unwrap();
    assert_eq!(steps.len(), 2);
    assert!(matches!(&steps[0], ExtractStep::WriteFile(p, d) if p == "r/one.txt" && d == b"1"));
    assert!(matches!(&steps[1], ExtractStep::WriteFile(p, d) if p == "r/two.txt" && d == b"22"));
}

#[test]
fn create_keeps_existing_extension_and_notes_password() {
    let sources = vec![file("x.txt", Some(b"x"))];
    let opts = ArchiveOptions { format: "zip".to_string(), password: Some("pw".to_string()) };
    let mut c = config("/b");
    c.auto_create_date_folders = false;
    let plan = create(&c, &sources, "named.zip", &opts, day()).unwrap();
    assert_eq!(plan.output_path, "/b/FluxForge/Archives/named.zip");
    assert_eq!(plan.result.message, "Compressed 1 file(s); not encrypted: passwords are not supported");
}

#[test]
fn create_other_formats() {
    let sources = vec![file("x.txt", Some(b"x"))];
    let seven = ArchiveOptions { format: "7z".to_string(), password: None };
    assert!(matches!(create(&config("/b"), &sources, "n", &seven, day()), Err(ConvertError::NotImplemented(_))));
    let tar = ArchiveOptions { format: "tar".to_string(), password: None };
    assert!(matches!(create(&config("/b"), &sources, "n", &tar, day()), Err(ConvertError::UnsupportedFormat(m)) if m == "Unsupported format: tar"));
}

#[test]
fn extract_dispatches_on_extension() {
    let bytes = zip_of(&[("f.txt", b"data")]);
    let plan = extract(&config("/b"), "/in/My.Archive.ZIP", None, day(), bytes).unwrap();
    assert_eq!(plan.extract_folder, "/b/FluxForge/Archives/2024-03-07/My.Archive");
    assert_eq!(plan.result.output_files, vec![plan.extract_folder.clone()]);
    assert_eq!(plan.result.output_folder, "/b/FluxForge/Archives/2024-03-07");
    assert!(matches!(&plan.steps[0], ExtractStep::WriteFile(p, _) if p == "/b/FluxForge/Archives/2024-03-07/My.Archive/f.txt"));
    assert!(matches!(extract(&config("/b"), "a.7z", None, day(), vec![]), Err(ConvertError::NotImplemented(_))));
    assert!(matches!(extract(&config("/b"), "a.RAR", None, day(), vec![]), Err(ConvertError::NotImplemented(_))));
    assert!(matches!(extract(&config("/b"), "a.tar", None, day(), vec![]), Err(ConvertError::UnsupportedFormat(m)) if m == "Unsupported archive format: tar"));
    assert!(matches!(extract(&config("/b"), "noext", None, day(), vec![]), Err(ConvertError::UnsupportedFormat(_))));
}

#[test]
fn extract_rejects_garbage_container() {
    let r = extract(&config("/b"), "bad.zip", None, day(), b"not a zip at all".to_vec());
    assert!(matches!(r, Err(ConvertError::UnsupportedFormat(_))));
}

#[test]
fn extension_formats() {
    let f = |s: &str| format_for_extension(&s.chars().collect());
    assert_eq!(f("zip"), Some(ArchiveFormat::Zip));
    assert_eq!(f("Zip"), Some(ArchiveFormat::Zip));
    assert_eq!(f("7Z"), Some(ArchiveFormat::SevenZ));
    assert_eq!(f("rar"), Some(ArchiveFormat::Rar));
    assert_eq!(f("zipx"), None);
    assert_eq!(f(""), None);
}

#[test]
fn codec_faults_map_to_errors() {
    assert!(matches!(error_of_fault(ZipFault::Io("disk".to_string())), ConvertError::IoError(m) if m == "ZIP i/o error: disk"));
    assert!(matches!(error_of_fault(ZipFault::InvalidArchive("bad".to_string())), ConvertError::UnsupportedFormat(m) if m == "invalid ZIP archive: bad"));
    assert!(matches!(error_of_fault(ZipFault::UnsupportedArchive("pw".to_string())), ConvertError::UnsupportedOrEncrypted(_)));
    assert!(matches!(error_of_fault(ZipFault::InvalidPassword), ConvertError::UnsupportedOrEncrypted(_)));
    assert!(matches!(error_of_fault(ZipFault::FileNotFound), ConvertError::IoError(_)));
}

#[test]
fn duplicate_base_names_are_refused() {
    let sources = vec![file("/a/same.txt", Some(b"1")), file("/b/same.txt", Some(b"2"))];
    assert!(matches!(create_zip(&sources, &None), Err(ConvertError::InvalidRequest(m)) if m == "duplicate entry name: same.txt"));
    let opts = ArchiveOptions { format: "zip".to_string(), password: None };
    assert!(matches!(create(&config("/b"), &sources, "n", &opts, day()), Err(ConvertError::InvalidRequest(_))));
    let long = vec![("x".repeat(65_536), vec![])];
    assert!(name_problem(&long).is_some());
    let wide = vec![("\u{e9}".repeat(32_768), vec![])];
    assert!(name_problem(&wide).is_some());
    let ok = vec![("x".repeat(65_535), vec![]), ("y".to_string(), vec![1u8])];
    assert!(name_problem(&ok).is_none());
}

#[test]
fn created_container_reads_back_in_order() {
    let sources = vec![
        file("dir/", None),
        file("/p/first.bin", Some(&[9u8; 1000])),
        file("/p/empty", Some(b"")),
    ];
    let bytes = create_zip(&sources, &None).unwrap();
    let mut a = zip::ZipArchive::new(std::io::Cursor::new(bytes)).unwrap();
    assert_eq!(a.len(), 2);
    assert_eq!(a.by_index(0).unwrap().name(), "first.bin");
    assert_eq!(a.by_index(0).unwrap().compression(), zip::CompressionMethod::Deflated);
    assert_eq!(a.by_index(1).unwrap().name(), "empty");
}

#[test]
fn path_formats() {
    assert_eq!(format_of_path("/x/y.Zip"), Some(ArchiveFormat::Zip));
    assert_eq!(format_of_path("/x/y.tar.7z"), Some(ArchiveFormat::SevenZ));
    assert_eq!(format_of_path("/x/.zip"), None);
    assert_eq!(format_of_path("/x/zip/"), None);
}

#[test]
fn colons_inside_names_are_kept() {
    let entries = vec![
        ("notes:v2.txt".to_string(), vec![1u8]),
        ("d:".to_string(), vec![2u8]),
        ("dir/a:b".to_string(), vec![3u8]),
    ];
    let steps = plan_entries("/r", &entries);
    assert!(matches!(&steps[0], ExtractStep::WriteFile(p, _) if p == "/r/notes:v2.txt"));
    assert!(matches!(&steps[1], ExtractStep::Reject(_)));
    assert!(matches!(&steps[2], ExtractStep::WriteFile(p, _) if p == "/r/dir/a:b"));
    assert!(is_within("/r", "/r/notes:b"));
    assert!(!is_within("/r", "/r/a:b"));
}

#[test]
fn refused_entries_are_counted_in_message() {
    let bytes = zip_of(&[("../x", b"1"), ("ok.txt", b"2"), ("/abs", b"3")]);
    let plan = extract(&config("/b"), "a.zip", None, day(), bytes).unwrap();
    assert_eq!(plan.result.message, "Extraction complete; refused 2 entries that would leave the extraction folder");
    let clean = zip_of(&[("ok.txt", b"2")]);
    assert_eq!(extract(&config("/b"), "a.zip", None, day(), clean).unwrap().result.message, "Extraction complete");
}

#[test]
fn encrypted_entry_is_refused() {
    let mut w = zip::ZipWriter::new(std::io::Cursor::new(Vec::new()));
    let opts = zip::unstable::write::FileOptionsExt::with_deprecated_encryption(zip::write::SimpleFileOptions::default(), b"pw");
    w.start_file("secret.txt", opts).unwrap();
    w.write_all(b"hidden").unwrap();
    let bytes = w.finish().unwrap().into_inner();
    let r = extract_zip(bytes, "/o", None);
    assert!(matches!(r, Err(ConvertError::UnsupportedOrEncrypted(m)) if m == "ZIP entry 0 is encrypted and no password can be applied"));
}
