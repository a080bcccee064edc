use vstd::prelude::*;
use crate::progress::ProgressTracker;

verus! {

/// The suffix of `s` after the last occurrence of `c`; all of `s` when `c`
/// does not occur.
pub open spec fn suffix_after_last(s: Seq<char>, c: char) -> Seq<char>
    decreases s.len(),
{
    if s.len() == 0 {
        s
    } else if s.last() == c {
        Seq::empty()
    } else {
        suffix_after_last(s.drop_last(), c).push(s.last())
    }
}

/// `p` with any trailing separators removed: a path ending in '/' names
/// the same file as the path without it.
pub open spec fn strip_trailing_slashes(p: Seq<char>) -> Seq<char>
    decreases p.len(),
{
    if p.len() > 0 && p.last() == '/' {
        strip_trailing_slashes(p.drop_last())
    } else {
        p
    }
}

/// The final path component: what follows the last '/', with trailing
/// separators ignored.
pub open spec fn base_name_of(path: Seq<char>) -> Seq<char> {
    suffix_after_last(strip_trailing_slashes(path), '/')
}

/// The extension: what follows the last '.' of the final component, where
/// a '.' opening the component (a hidden file) does not count.
pub open spec fn extension_of(path: Seq<char>) -> Option<Seq<char>> {
    let name = base_name_of(path);
    if exists|i: int| 1 <= i < name.len() && name[i] == '.' {
        Some(suffix_after_last(name, '.'))
    } else {
        None
    }
}

/// The two archive layouts this library unpacks.
#[derive(Clone, Copy, Debug, PartialEq, Eq, Structural)]
pub enum ArchiveFormat {
    /// A gzip-compressed tar stream; by convention any `.gz` source is
    /// treated as one.
    TarGz,
    /// A zip archive with a central directory index.
    Zip,
}

/// Which decoder a path selects: `.gz` the tar-over-gzip decoder, `.zip`
/// the zip decoder, anything else none.
pub open spec fn format_for(path: Seq<char>) -> Option<ArchiveFormat> {
    if extension_of(path) == Some("gz"@) {
        Some(ArchiveFormat::TarGz)
    } else if extension_of(path) == Some("zip"@) {
        Some(ArchiveFormat::Zip)
    } else {
        None
    }
}

/// Format dispatch is total and exclusive: every path selects the tar.gz
/// decoder, or the zip decoder, or no decoder at all — never more than one
/// and never none of the three.
pub proof fn lemma_format_dispatch_total(path: Seq<char>)
    ensures
        format_for(path) == Some(ArchiveFormat::TarGz) <==> extension_of(path) == Some("gz"@),
        format_for(path) == Some(ArchiveFormat::Zip) <==> extension_of(path) == Some("zip"@),
        format_for(path) is None <==> (extension_of(path) != Some("gz"@) && extension_of(path)
            != Some("zip"@)),
{
    reveal_strlit("gz");
    reveal_strlit("zip");
    assert("gz"@.len() == 2);
    assert("zip"@.len() == 3);
}

/// How an extraction can fail; every failure names the source path.
#[derive(Debug, PartialEq, Eq)]
pub enum ExtractError {
    /// The path selects no decoder.
    UnsupportedFormat { path: String },
    /// The source archive could not be opened.
    Open { path: String, detail: String },
    /// The source archive's size could not be read.
    Metadata { path: String, detail: String },
    /// The archive container could not be opened by its decoder.
    DecodeOpen { path: String, detail: String },
    /// Unpacking failed partway through writing entries.
    Unpack { path: String, detail: String },
}

/// A dispatched extraction: the one decoder the source selects, and where
/// its entries go.
#[derive(Debug)]
pub struct ExtractJob {
    pub format: ArchiveFormat,
    pub source: String,
    pub dest: String,
}

proof fn lemma_suffix_after_last_at(s: Seq<char>, c: char, i: int)
    requires
        0 <= i < s.len(),
        s[i] == c,
        forall|j: int| i < j < s.len() ==> s[j] != c,
    ensures
        suffix_after_last(s, c) == s.subrange(i + 1, s.len() as int),
    decreases s.len(),
{
    if i == s.len() - 1 {
        assert(s.subrange(i + 1, s.len() as int) =~= Seq::<char>::empty());
    } else {
        assert(s.last() != c);
        let t = s.drop_last();
        assert(forall|j: int| i < j < t.len() ==> #[trigger] t[j] == s[j]);
        lemma_suffix_after_last_at(t, c, i);
        assert(t.subrange(i + 1, t.len() as int).push(s.last()) =~= s.subrange(
            i + 1,
            s.len() as int,
        ));
    }
}

proof fn lemma_suffix_after_last_absent(s: Seq<char>, c: char)
    requires
        forall|j: int| 0 <= j < s.len() ==> s[j] != c,
    ensures
        suffix_after_last(s, c) == s,
    decreases s.len(),
{
    if s.len() > 0 {
        let t = s.drop_last();
        assert(forall|j: int| 0 <= j < t.len() ==> #[trigger] t[j] == s[j]);
        lemma_suffix_after_last_absent(t, c);
        assert(t.push(s.last()) =~= s);
    }
}

proof fn lemma_strip_trailing_at(p: Seq<char>, e: int)
    requires
        0 <= e <= p.len(),
        forall|k: int| e <= k < p.len() ==> #[trigger] p[k] == '/',
        e == 0 || p[e - 1] != '/',
    ensures
        strip_trailing_slashes(p) == p.take(e),
    decreases p.len(),
{
    if e == p.len() {
        assert(p.take(e) =~= p);
    } else {
        let t = p.drop_last();
        assert(forall|k: int| 0 <= k < t.len() ==> #[trigger] t[k] == p[k]);
        lemma_strip_trailing_at(t, e);
        assert(t.take(e) =~= p.take(e));
    }
}

/// The last position of `c` in `s` within `[lo, hi)`, if any.
fn rfind_in(s: &str, c: char, lo: usize, hi: usize) -> (r: Option<usize>)
    requires
        lo <= hi <= s@.len(),
    ensures
        match r {
            Some(i) => lo <= i < hi && s@[i as int] == c && forall|j: int|
                i < j < hi ==> s@[j] != c,
            None => forall|j: int| lo <= j < hi ==> s@[j] != c,
        },
{
    let mut k: usize = hi;
    while k > lo
        invariant
            lo <= k <= hi <= s@.len(),
            forall|j: int| k <= j < hi ==> s@[j] != c,
        decreases k,
    {
        k = k - 1;
        if s.get_char(k) == c {
            return Some(k);
        }
    }
    None
}

/// The extension of `path`, as `extension_of` names it.
fn path_extension(path: &str) -> (r: Option<String>)
    ensures
        match r {
            Some(e) => extension_of(path@) == Some(e@),
            None => extension_of(path@) is None,
        },
{
    let n = path.unicode_len();
    // Trailing separators name the same file; the component ends before
    // them, at pe.
    let mut pe: usize = n;
    while pe > 0 && path.get_char(pe - 1) == '/'
        invariant
            pe <= n,
            n == path@.len(),
            forall|k: int| pe <= k < n ==> #[trigger] path@[k] == '/',
        decreases pe,
    {
        pe = pe - 1;
    }
    let ghost stripped = path@.take(pe as int);
    proof {
        lemma_strip_trailing_at(path@, pe as int);
        assert(forall|k: int| 0 <= k < stripped.len() ==> #[trigger] stripped[k] == path@[k]);
    }
    let slash = rfind_in(path, '/', 0, pe);
    // The final component occupies [ns, pe).
    let ns: usize = match slash {
        Some(i) => i + 1,
        None => 0,
    };
    let ghost name = base_name_of(path@);
    proof {
        match slash {
            Some(i) => {
                lemma_suffix_after_last_at(stripped, '/', i as int);
            },
            None => {
                lemma_suffix_after_last_absent(stripped, '/');
            },
        }
        assert(name =~= path@.subrange(ns as int, pe as int));
    }
    if ns == pe {
        // Empty component: no '.' past its first character.
        return None;
    }
    let dot = rfind_in(path, '.', ns + 1, pe);
    match dot {
        Some(d) => {
            proof {
                assert(name[d - ns] == path@[d as int]);
                assert(1 <= d - ns < name.len());
                assert(forall|j: int| d - ns < j < name.len() ==> #[trigger] name[j] == path@[j + ns]);
                lemma_suffix_after_last_at(name, '.', d - ns);
                assert(name.subrange(d - ns + 1, name.len() as int) =~= path@.subrange(
                    d + 1,
                    pe as int,
                ));
            }
            let e = path.substring_char(d + 1, pe);
            Some(String::from_str(e))
        },
        None => {
            proof {
                assert(forall|i: int| 1 <= i < name.len() ==> #[trigger] name[i] == path@[i + ns]);
                assert(!(exists|i: int| 1 <= i < name.len() && name[i] == '.'));
            }
            None
        },
    }
}

/// Dispatch an extraction. The source path's final extension is the sole
/// discriminator: `.gz` and `.zip` each select exactly one decoder, and any
/// other path is rejected here, before any part of the filesystem is
/// touched. The caller opens the accepted source and runs the returned job.
pub fn extract(source: &str, dest: &str) -> (r: Result<ExtractJob, ExtractError>)
    ensures
        match format_for(source@) {
            Some(f) => r matches Ok(job) && job.format == f && job.source@ == source@
                && job.dest@ == dest@,
            None => r matches Err(e) && (e matches ExtractError::UnsupportedFormat { path }
                && path@ == source@),
        },
{
    let ext = path_extension(source);
    match ext {
        Some(e) => {
            let gz = String::from_str("gz");
            let zip = String::from_str("zip");
            if e == gz {
                Ok(
                    ExtractJob {
                        format: ArchiveFormat::TarGz,
                        source: String::from_str(source),
                        dest: String::from_str(dest),
                    },
                )
            } else if e == zip {
                Ok(
                    ExtractJob {
                        format: ArchiveFormat::Zip,
                        source: String::from_str(source),
                        dest: String::from_str(dest),
                    },
                )
            } else {
                Err(ExtractError::UnsupportedFormat { path: String::from_str(source) })
            }
        },
        None => Err(ExtractError::UnsupportedFormat { path: String::from_str(source) }),
    }
}

/// zip's archive index, declared so a verified caller can hold one between
/// opening it and extracting from it.
#[verifier::external_type_specification]
#[verifier::external_body]
#[verifier::reject_recursive_types(R)]
pub struct ExZipArchive<R>(zip::ZipArchive<R>);

/// Relies on flate2::read::GzDecoder::new, tar::Archive::new and
/// tar::Archive::unpack: reads the stream as gzip-compressed tar and
/// unpacks every entry under `dest`, preserving relative paths.
#[verifier::external_body]
fn tar_gz_unpack<R: std::io::Read>(reader: R, dest: &str) -> (r: Result<(), String>) {
    let mut archive = tar::Archive::new(flate2::read::GzDecoder::new(reader));
    match archive.unpack(dest) {
        Ok(()) => Ok(()),
        Err(e) => Err(format!("{}", e)),
    }
}

/// Relies on zip::ZipArchive::new: reads the archive's central directory.
#[verifier::external_body]
fn zip_open<R: std::io::Read + std::io::Seek>(reader: R) -> (r: Result<zip::ZipArchive<R>, String>) {
    match zip::ZipArchive::new(reader) {
        Ok(a) => Ok(a),
        Err(e) => Err(format!("{}", e)),
    }
}

/// Relies on zip::ZipArchive::extract: unpacks every entry under `dest`.
#[verifier::external_body]
fn zip_extract_all<R: std::io::Read + std::io::Seek>(
    archive: &mut zip::ZipArchive<R>,
    dest: &str,
) -> (r: Result<(), String>) {
    match archive.extract(dest) {
        Ok(()) => Ok(()),
        Err(e) => Err(format!("{}", e)),
    }
}

/// Run a dispatched job over an already-opened source stream of
/// `total_size` bytes. The stream is read through a progress display sized
/// to the source; on any failure the display is abandoned with a failure
/// message and the error names the job's source: a decode-open failure can
/// only come from the zip index, and everything past it is an unpack
/// failure. Extraction is all-or-nothing to the caller: no success is
/// reported once any stage has failed.
pub fn run_extract_job<R: std::io::Read + std::io::Seek>(job: &ExtractJob, reader: R, total_size: u64)
    -> (r: Result<(), ExtractError>)
    ensures
        match r {
            Ok(_) => true,
            Err(e) => match e {
                ExtractError::DecodeOpen { path, detail } => path@ == job.source@ && job.format
                    == ArchiveFormat::Zip,
                ExtractError::Unpack { path, detail } => path@ == job.source@,
                _ => false,
            },
        },
{
    let tracker = ProgressTracker::new(String::from_str("Extracting"), total_size);
    let wrapped = tracker.wrap_read(reader);
    let result: Result<(), ExtractError> = match job.format {
        ArchiveFormat::TarGz => {
            match tar_gz_unpack(wrapped, job.dest.as_str()) {
                Ok(()) => Ok(()),
                Err(m) => Err(ExtractError::Unpack { path: job.source.clone(), detail: m }),
            }
        },
        ArchiveFormat::Zip => {
            match zip_open(wrapped) {
                Err(m) => Err(ExtractError::DecodeOpen { path: job.source.clone(), detail: m }),
                Ok(mut archive) => {
                    match zip_extract_all(&mut archive, job.dest.as_str()) {
                        Ok(()) => Ok(()),
                        Err(m) => Err(
                            ExtractError::Unpack { path: job.source.clone(), detail: m },
                        ),
                    }
                },
            }
        },
    };
    match &result {
        Ok(_) => tracker.finish_and_clear(),
        Err(_) => tracker.abandon("Extraction failed!"),
    }
    result
}

} // verus!
