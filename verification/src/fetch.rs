use vstd::prelude::*;
use crate::digest::{
    concat_of, digest_fed, digest_finalize, digest_new, digest_update, hex_encode, hex_of,
    lemma_concat_of_push, lemma_concat_of_take_len, sha256_of, DigestAcc,
};
use crate::progress::ProgressTracker;

verus! {

/// How a fetch can fail. Every failure carries what a caller needs to
/// render a precise message.
#[derive(Debug, PartialEq, Eq)]
pub enum FetchError {
    /// A network-level failure while the body was being delivered.
    Transport { detail: String },
    /// The server reported no total size for the resource.
    MissingLength,
    /// The delivered bytes hash to something other than what was expected.
    DigestMismatch { expected: String, actual: String },
    /// A local write to the destination sink failed.
    Io { detail: String },
}

/// One streaming fetch: counts the bytes delivered, absorbs every one of
/// them into the digest, and drives the progress display. The caller reads
/// chunks from the source, writes each to its sink in full, and only then
/// hands it to `consume`.
pub struct Fetcher {
    digest: DigestAcc,
    progress: ProgressTracker,
    expected: String,
    downloaded: u64,
    total: u64,
}

impl Fetcher {
    /// The bytes consumed so far, in order.
    pub closed spec fn fed(self) -> Seq<u8> {
        digest_fed(self.digest)
    }

    /// The running byte counter.
    pub closed spec fn bytes_done(self) -> u64 {
        self.downloaded
    }

    /// The digest this fetch must end with, as lowercase hex.
    pub closed spec fn expected_digest(self) -> Seq<char> {
        self.expected@
    }

    /// The total size the server reported.
    pub closed spec fn total(self) -> u64 {
        self.total
    }

    /// The position the progress display reports.
    pub closed spec fn position(self) -> u64 {
        self.progress.position()
    }

    /// Every consumed byte is counted and reported: counter, digest stream
    /// and displayed position agree.
    pub closed spec fn wf(self) -> bool {
        &&& self.downloaded == self.fed().len()
        &&& self.progress.position() == self.downloaded
    }

    /// Start a fetch. A server that reports no content length is rejected
    /// before any byte is consumed.
    pub fn begin(name: &str, expected: String, content_length: Option<u64>) -> (r: Result<
        Fetcher,
        FetchError,
    >)
        ensures
            match content_length {
                None => r matches Err(e) && e == FetchError::MissingLength,
                Some(t) => r matches Ok(f) && f.wf() && f.fed() == Seq::<u8>::empty()
                    && f.bytes_done() == 0 && f.position() == 0
                    && f.expected_digest() == expected@ && f.total() == t,
            },
    {
        match content_length {
            None => Err(FetchError::MissingLength),
            Some(total) => {
                let label = String::from_str("Downloading ").concat(name);
                Ok(
                    Fetcher {
                        digest: digest_new(),
                        progress: ProgressTracker::new(label, total),
                        expected,
                        downloaded: 0,
                        total,
                    },
                )
            },
        }
    }

    /// Absorb one delivered chunk: the digest stream is extended by exactly
    /// this chunk, the counter grows by its length, and the reported
    /// position follows the counter without ever decreasing.
    pub fn consume(&mut self, chunk: &[u8])
        requires
            old(self).wf(),
            old(self).bytes_done() + chunk@.len() <= u64::MAX,
        ensures
            final(self).wf(),
            final(self).fed() == old(self).fed() + chunk@,
            final(self).bytes_done() == old(self).bytes_done() + chunk@.len(),
            final(self).position() == final(self).bytes_done(),
            final(self).position() >= old(self).position(),
            final(self).expected_digest() == old(self).expected_digest(),
            final(self).total() == old(self).total(),
    {
        digest_update(&mut self.digest, chunk);
        let n: usize = chunk.len();
        self.downloaded = self.downloaded + n as u64;
        self.progress.advance(n as u64);
    }

    /// End the fetch: finalize the digest over everything consumed and
    /// compare it, byte for byte, against the expected hex digest. Success
    /// is returned exactly when they agree, and then the returned count and
    /// the final reported position are the bytes consumed.
    pub fn finish(self) -> (r: Result<u64, FetchError>)
        requires
            self.wf(),
        ensures
            (r is Ok) <==> hex_of(sha256_of(self.fed())) == self.expected_digest(),
            match r {
                Ok(n) => n == self.bytes_done() && n == self.fed().len() && n == self.position(),
                Err(e) => e matches FetchError::DigestMismatch { expected, actual }
                    && expected@ == self.expected_digest()
                    && actual@ == hex_of(sha256_of(self.fed()))
                    && actual@ != expected@,
            },
    {
        self.progress.finish_and_clear();
        let raw = digest_finalize(self.digest);
        let actual = hex_encode(&raw);
        if actual == self.expected {
            Ok(self.downloaded)
        } else {
            Err(FetchError::DigestMismatch { expected: self.expected, actual })
        }
    }
}

/// Relies on std::io::Read::read: at most the buffer's length is filled and
/// the buffer keeps its length. Nothing is promised of the bytes delivered.
#[verifier::external_body]
fn read_some<R: std::io::Read>(source: &mut R, buf: &mut Vec<u8>) -> (r: Result<usize, String>)
    ensures
        final(buf)@.len() == old(buf)@.len(),
        r matches Ok(n) ==> n <= final(buf)@.len(),
{
    match source.read(buf.as_mut_slice()) {
        Ok(n) => Ok(n),
        Err(e) => Err(format!("{}", e)),
    }
}

/// Relies on std::io::Write::write_all: the whole chunk is written, or an
/// error comes back.
#[verifier::external_body]
fn write_all_bytes<W: std::io::Write>(sink: &mut W, chunk: &[u8]) -> (r: Result<(), String>) {
    match sink.write_all(chunk) {
        Ok(()) => Ok(()),
        Err(e) => Err(format!("{}", e)),
    }
}

/// One streaming fetch, end to end: read the body in 8 KiB chunks until a
/// zero-length read, writing each chunk to `sink` in full before counting
/// it, advancing the progress display to the new count, and absorbing the
/// chunk into the digest; then verify the digest. A missing content length
/// fails before any byte is read or written; a failed read is a transport
/// failure; a failed write is an I/O failure. Success is reported exactly
/// when the lowercase hex SHA-256 of the delivered bytes — every one of
/// which went through the sink — equals `expected`.
pub fn fetch<R: std::io::Read, W: std::io::Write>(
    name: &str,
    expected: &str,
    content_length: Option<u64>,
    source: &mut R,
    sink: &mut W,
) -> (r: Result<u64, FetchError>)
    ensures
        (content_length is None) <==> (r matches Err(e) && e == FetchError::MissingLength),
        match r {
            Ok(n) => exists|bytes: Seq<u8>|
                bytes.len() == n && hex_of(#[trigger] sha256_of(bytes)) == expected@,
            Err(e) => match e {
                FetchError::DigestMismatch { expected: ex, actual: ac } => ex@ == expected@ && ac@
                    != ex@ && exists|bytes: Seq<u8>| ac@ == hex_of(#[trigger] sha256_of(bytes)),
                _ => true,
            },
        },
{
    let mut f = match Fetcher::begin(name, String::from_str(expected), content_length) {
        Ok(f) => f,
        Err(e) => {
            return Err(e);
        },
    };
    let mut buf: Vec<u8> = vec![0u8; 8192];
    loop
        invariant
            content_length is Some,
            f.wf(),
            f.expected_digest() == expected@,
            buf@.len() == 8192,
        decreases u64::MAX - f.bytes_done(),
    {
        let n = match read_some(source, &mut buf) {
            Ok(n) => n,
            Err(detail) => {
                return Err(FetchError::Transport { detail });
            },
        };
        if n == 0 {
            break;
        }
        let chunk: &[u8] = vstd::slice::slice_subrange(buf.as_slice(), 0, n);
        if counter_would_overflow(&f, n) {
            return Err(
                FetchError::Transport { detail: String::from_str("stream longer than supported") },
            );
        }
        match write_all_bytes(sink, chunk) {
            Ok(()) => (),
            Err(detail) => {
                return Err(FetchError::Io { detail });
            },
        }
        f.consume(chunk);
    }
    match f.finish() {
        Ok(n) => {
            proof {
                let bytes = f.fed();
                assert(bytes.len() == n && hex_of(sha256_of(bytes)) == expected@);
            }
            Ok(n)
        },
        Err(e) => {
            proof {
                let bytes = f.fed();
                assert(hex_of(sha256_of(bytes)) != expected@);
            }
            Err(e)
        },
    }
}

/// Whether counting `n` more bytes would run the fetch counter past its
/// machine limit.
fn counter_would_overflow(f: &Fetcher, n: usize) -> (r: bool)
    ensures
        r == (f.bytes_done() + n > u64::MAX),
{
    n as u64 > u64::MAX - f.bytes_done_exec()
}

impl Fetcher {
    /// The running byte counter, read back.
    pub fn bytes_done_exec(&self) -> (n: u64)
        ensures
            n == self.bytes_done(),
    {
        self.downloaded
    }
}

/// One whole fetch over in-memory chunks, the way the streaming loop runs
/// it: each chunk is written to the returned sink in full and absorbed into
/// the digest before the next, and the digest computed chunk by chunk is
/// checked against `expected` as the digest of the whole concatenation.
pub fn fetch_bytes(name: &str, expected: &str, content_length: Option<u64>, chunks: &Vec<Vec<u8>>)
    -> (r: Result<Vec<u8>, FetchError>)
    requires
        concat_of(chunks@.map_values(|c: Vec<u8>| c@)).len() <= u64::MAX,
    ensures
        ({
            let data = concat_of(chunks@.map_values(|c: Vec<u8>| c@));
            let actual = hex_of(sha256_of(data));
            match content_length {
                None => r matches Err(e) && e == FetchError::MissingLength,
                Some(_) => if actual == expected@ {
                    r matches Ok(out) && out@ == data
                } else {
                    r matches Err(e) && e matches FetchError::DigestMismatch {
                        expected: ex,
                        actual: ac,
                    } && ex@ == expected@ && ac@ == actual
                },
            }
        }),
{
    let ghost cs = chunks@.map_values(|c: Vec<u8>| c@);
    let mut f = match Fetcher::begin(name, String::from_str(expected), content_length) {
        Ok(f) => f,
        Err(e) => {
            return Err(e);
        },
    };
    let mut sink: Vec<u8> = Vec::new();
    let mut i: usize = 0;
    while i < chunks.len()
        invariant
            0 <= i <= chunks@.len(),
            cs == chunks@.map_values(|c: Vec<u8>| c@),
            concat_of(cs).len() <= u64::MAX,
            f.wf(),
            f.fed() == concat_of(cs.take(i as int)),
            sink@ == f.fed(),
            f.expected_digest() == expected@,
        decreases chunks@.len() - i,
    {
        let chunk: &Vec<u8> = &chunks[i];
        proof {
            assert(cs[i as int] == chunk@);
            assert(cs.take(i + 1) =~= cs.take(i as int).push(cs[i as int]));
            lemma_concat_of_push(cs.take(i as int), cs[i as int]);
            lemma_concat_of_take_len(cs, i + 1);
        }
        sink.extend_from_slice(chunk.as_slice());
        f.consume(chunk.as_slice());
        i = i + 1;
    }
    proof {
        assert(cs.take(i as int) =~= cs);
    }
    match f.finish() {
        Ok(_) => Ok(sink),
        Err(e) => Err(e),
    }
}

} // verus!
