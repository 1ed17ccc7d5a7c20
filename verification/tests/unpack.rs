use std::io::Write;

use openapi_generator_cli::archive::{
    kept_permissions, plan_entry, plan_tar_entry, plan_tar_gz, plan_zip, ArchiveEntry,
    EntryAction, PlannedEntry,
};

fn parts(p: &[&str]) -> Vec<String> {
    p.iter().map(|s| s.to_string()).collect()
}

#[test]
fn top_level_directory_is_stripped() {
    let e = ArchiveEntry { path: Some(parts(&["jdk-21.0.2+13-jre", "bin", "java"])), is_dir: false, mode: Some(0o755) };
    assert_eq!(
        plan_entry(e),
        EntryAction::WriteFile { path: parts(&["bin", "java"]), permissions: Some(0o755) }
    );
}

#[test]
fn top_level_directory_itself_is_skipped() {
    let e = ArchiveEntry { path: Some(parts(&["jdk-21.0.2+13-jre"])), is_dir: true, mode: Some(0o755) };
    assert_eq!(plan_entry(e), EntryAction::Skip);
    let e = ArchiveEntry { path: Some(Vec::new()), is_dir: false, mode: None };
    assert_eq!(plan_entry(e), EntryAction::Skip);
}

#[test]
fn entries_without_safe_path_are_skipped() {
    let e = ArchiveEntry { path: None, is_dir: false, mode: None };
    assert_eq!(plan_entry(e), EntryAction::Skip);
}

#[test]
fn directories_are_created() {
    let e = ArchiveEntry { path: Some(parts(&["jdk", "lib", "security"])), is_dir: true, mode: Some(0o755) };
    assert_eq!(plan_entry(e), EntryAction::CreateDir { path: parts(&["lib", "security"]) });
}

#[test]
fn plain_files_keep_default_permissions() {
    let e = ArchiveEntry { path: Some(parts(&["jdk", "release"])), is_dir: false, mode: Some(0o644) };
    assert_eq!(
        plan_entry(e),
        EntryAction::WriteFile { path: parts(&["release"]), permissions: None }
    );
    let e = ArchiveEntry { path: Some(parts(&["jdk", "release"])), is_dir: false, mode: None };
    assert_eq!(
        plan_entry(e),
        EntryAction::WriteFile { path: parts(&["release"]), permissions: None }
    );
}

#[test]
fn execute_bits() {
    assert_eq!(kept_permissions(Some(0o755)), Some(0o755));
    assert_eq!(kept_permissions(Some(0o100)), Some(0o100));
    assert_eq!(kept_permissions(Some(0o010)), Some(0o010));
    assert_eq!(kept_permissions(Some(0o001)), Some(0o001));
    assert_eq!(kept_permissions(Some(0o644)), None);
    assert_eq!(kept_permissions(Some(0o4666)), None);
    assert_eq!(kept_permissions(None), None);
}

fn tar_header(kind: tar::EntryType, mode: u32) -> tar::Header {
    let mut h = tar::Header::new_gnu();
    h.set_entry_type(kind);
    h.set_mode(mode);
    h
}

#[test]
fn tar_executable_file() {
    let h = tar_header(tar::EntryType::Regular, 0o755);
    assert_eq!(
        plan_tar_entry(parts(&["jdk-21+35-jre", "bin", "java"]), h.as_bytes()),
        EntryAction::WriteFile { path: parts(&["bin", "java"]), permissions: Some(0o755) }
    );
}

#[test]
fn tar_plain_file() {
    let h = tar_header(tar::EntryType::Regular, 0o644);
    assert_eq!(
        plan_tar_entry(parts(&["jdk-21+35-jre", "release"]), h.as_bytes()),
        EntryAction::WriteFile { path: parts(&["release"]), permissions: None }
    );
}

#[test]
fn tar_directory() {
    let h = tar_header(tar::EntryType::Directory, 0o755);
    assert_eq!(h.as_bytes()[156], b'5');
    assert_eq!(
        plan_tar_entry(parts(&["jdk-21+35-jre", "lib"]), h.as_bytes()),
        EntryAction::CreateDir { path: parts(&["lib"]) }
    );
    assert_eq!(plan_tar_entry(parts(&["jdk-21+35-jre"]), h.as_bytes()), EntryAction::Skip);
}

#[test]
fn tar_unreadable_mode_keeps_default_permissions() {
    let mut h = tar_header(tar::EntryType::Regular, 0o755);
    h.as_mut_bytes()[100..108].copy_from_slice(b"zz\0\0\0\0\0\0");
    assert_eq!(
        plan_tar_entry(parts(&["jdk", "bin", "java"]), h.as_bytes()),
        EntryAction::WriteFile { path: parts(&["bin", "java"]), permissions: None }
    );
}

fn tar_gz(entries: &[(&str, tar::EntryType, u32, &[u8])]) -> Vec<u8> {
    let mut builder = tar::Builder::new(Vec::new());
    for (path, kind, mode, data) in entries {
        let mut h = tar_header(*kind, *mode);
        h.set_size(data.len() as u64);
        builder.append_data(&mut h, path, *data).unwrap();
    }
    let tar = builder.into_inner().unwrap();
    let mut gz = flate2::write::GzEncoder::new(Vec::new(), flate2::Compression::default());
    gz.write_all(&tar).unwrap();
    gz.finish().unwrap()
}

#[test]
fn tar_gz_archive_is_planned_entry_by_entry() {
    let bytes = tar_gz(&[
        ("jdk-21-jre/", tar::EntryType::Directory, 0o755, b""),
        ("jdk-21-jre/bin/", tar::EntryType::Directory, 0o755, b""),
        ("jdk-21-jre/bin/java", tar::EntryType::Regular, 0o755, b"java binary"),
        ("jdk-21-jre/release", tar::EntryType::Regular, 0o644, b"JAVA_VERSION=21"),
    ]);
    let plan = plan_tar_gz(bytes).expect("archive should be readable");
    assert_eq!(
        plan,
        vec![
            PlannedEntry { action: EntryAction::Skip, contents: Vec::new() },
            PlannedEntry { action: EntryAction::CreateDir { path: parts(&["bin"]) }, contents: Vec::new() },
            PlannedEntry {
                action: EntryAction::WriteFile { path: parts(&["bin", "java"]), permissions: Some(0o755) },
                contents: b"java binary".to_vec(),
            },
            PlannedEntry {
                action: EntryAction::WriteFile { path: parts(&["release"]), permissions: None },
                contents: b"JAVA_VERSION=21".to_vec(),
            },
        ]
    );
}

#[test]
fn tar_gz_long_names_are_kept() {
    let long = format!("jdk-21-jre/legal/{}/LICENSE", "x".repeat(120));
    let bytes = tar_gz(&[(&long, tar::EntryType::Regular, 0o644, b"text")]);
    let plan = plan_tar_gz(bytes).unwrap();
    assert_eq!(
        plan,
        vec![PlannedEntry {
            action: EntryAction::WriteFile {
                path: parts(&["legal", &"x".repeat(120), "LICENSE"]),
                permissions: None
            },
            contents: b"text".to_vec(),
        }]
    );
}

#[test]
fn unreadable_tar_gz_is_refused() {
    assert_eq!(plan_tar_gz(b"not an archive".to_vec()), None);
    assert_eq!(plan_tar_gz(Vec::new()), None);
}

fn zip_bytes(entries: &[(&str, Option<&[u8]>)]) -> Vec<u8> {
    let mut w = zip::ZipWriter::new(std::io::Cursor::new(Vec::new()));
    let opts = zip::write::SimpleFileOptions::default()
        .compression_method(zip::CompressionMethod::Stored);
    for (name, data) in entries {
        match data {
            None => w.add_directory(*name, opts).unwrap(),
            Some(d) => {
                w.start_file(*name, opts).unwrap();
                w.write_all(d).unwrap();
            }
        }
    }
    w.finish().unwrap().into_inner()
}

#[test]
fn zip_archive_is_planned_entry_by_entry() {
    let bytes = zip_bytes(&[
        ("jdk-21-jre/", None),
        ("jdk-21-jre/bin/", None),
        ("jdk-21-jre/bin/java.exe", Some(b"exe")),
        ("../escape.txt", Some(b"bad")),
    ]);
    let plan = plan_zip(bytes).expect("archive should be readable");
    assert_eq!(
        plan,
        vec![
            PlannedEntry { action: EntryAction::Skip, contents: Vec::new() },
            PlannedEntry { action: EntryAction::CreateDir { path: parts(&["bin"]) }, contents: Vec::new() },
            PlannedEntry {
                action: EntryAction::WriteFile { path: parts(&["bin", "java.exe"]), permissions: None },
                contents: b"exe".to_vec(),
            },
            PlannedEntry { action: EntryAction::Skip, contents: Vec::new() },
        ]
    );
}

#[test]
fn unreadable_zip_is_refused() {
    assert_eq!(plan_zip(b"not an archive".to_vec()), None);
}
