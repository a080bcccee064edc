use jlo::extract::{extract, ArchiveFormat, ExtractError};
use std::io::{Cursor, Read, Write};

#[test]
fn dispatch_selects_tar_gz() {
    let job = extract("archive.tar.gz", "/out").unwrap();
    assert_eq!(job.format, ArchiveFormat::TarGz);
    assert_eq!(job.source, "archive.tar.gz");
    assert_eq!(job.dest, "/out");
}

#[test]
fn dispatch_selects_zip() {
    let job = extract("bundle.zip", "/out").unwrap();
    assert_eq!(job.format, ArchiveFormat::Zip);
}

#[test]
fn dispatch_rejects_unknown_extension_before_any_io() {
    let e = extract("archive.rar", "/out").unwrap_err();
    assert_eq!(
        e,
        ExtractError::UnsupportedFormat {
            path: String::from("archive.rar")
        }
    );
}

#[test]
fn dispatch_goes_by_final_extension_only() {
    // A bare `.gz` with nothing before the dot is a hidden file, not an
    // extension.
    assert!(matches!(
        extract(".gz", "/out"),
        Err(ExtractError::UnsupportedFormat { .. })
    ));
    // The extension of the final component decides, not of a directory.
    assert!(matches!(
        extract("dir.gz/file", "/out"),
        Err(ExtractError::UnsupportedFormat { .. })
    ));
    // Matching is exact, so case matters.
    assert!(matches!(
        extract("a.tar.GZ", "/out"),
        Err(ExtractError::UnsupportedFormat { .. })
    ));
    assert!(matches!(
        extract("noextension", "/out"),
        Err(ExtractError::UnsupportedFormat { .. })
    ));
    // Any `.gz`, even without `.tar`, selects the tar.gz decoder.
    assert_eq!(
        extract("plain.gz", "/out").unwrap().format,
        ArchiveFormat::TarGz
    );
}

#[test]
fn dispatch_ignores_trailing_separators() {
    // A trailing slash names the same file.
    assert_eq!(
        extract("foo.gz/", "/out").unwrap().format,
        ArchiveFormat::TarGz
    );
    assert_eq!(
        extract("dir/bundle.zip//", "/out").unwrap().format,
        ArchiveFormat::Zip
    );
    // A directory without an extension is still rejected.
    assert!(matches!(
        extract("dir/", "/out"),
        Err(ExtractError::UnsupportedFormat { .. })
    ));
}

#[test]
fn corrupt_zip_fails_at_decode_open() {
    let job = extract("c.zip", "/unused-dest").unwrap();
    let reader = Cursor::new(b"this is not a zip archive".to_vec());
    let e = jlo::extract::run_extract_job(&job, reader, 25).unwrap_err();
    match e {
        ExtractError::DecodeOpen { path, .. } => assert_eq!(path, "c.zip"),
        other => panic!("expected a decode-open failure, got {:?}", other),
    }
}

#[test]
fn tar_gz_round_trips_paths_and_contents() {
    // Build a tar.gz in memory from a known tree.
    let gz = flate2::write::GzEncoder::new(Vec::new(), flate2::Compression::default());
    let mut builder = tar::Builder::new(gz);
    let body = b"hello from b";
    let mut header = tar::Header::new_gnu();
    header.set_size(body.len() as u64);
    header.set_mode(0o644);
    header.set_cksum();
    builder
        .append_data(&mut header, "a/b.txt", &body[..])
        .unwrap();
    let bytes = builder.into_inner().unwrap().finish().unwrap();

    // Read it back through the same decoder chain the library relies on.
    let decoder = flate2::read::GzDecoder::new(Cursor::new(bytes));
    let mut archive = tar::Archive::new(decoder);
    let mut seen: Vec<(String, Vec<u8>)> = Vec::new();
    for entry in archive.entries().unwrap() {
        let mut entry = entry.unwrap();
        let path = entry.path().unwrap().to_string_lossy().into_owned();
        let mut content = Vec::new();
        entry.read_to_end(&mut content).unwrap();
        seen.push((path, content));
    }
    assert_eq!(seen, vec![(String::from("a/b.txt"), body.to_vec())]);
}

#[test]
fn zip_round_trips_paths_and_contents() {
    let mut writer = zip::ZipWriter::new(Cursor::new(Vec::new()));
    let options = zip::write::SimpleFileOptions::default();
    writer.start_file("a/b.txt", options).unwrap();
    writer.write_all(b"zipped content").unwrap();
    let cursor = writer.finish().unwrap();

    let mut archive = zip::ZipArchive::new(cursor).unwrap();
    assert_eq!(archive.len(), 1);
    let mut file = archive.by_name("a/b.txt").unwrap();
    let mut content = Vec::new();
    file.read_to_end(&mut content).unwrap();
    assert_eq!(content, b"zipped content".to_vec());
}
