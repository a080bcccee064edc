use vstd::prelude::*;

verus! {

/// A Java major version is accepted when it parses as an unsigned 32-bit
/// integer whose value is at least this.
pub open spec fn min_supported_version() -> int {
    8
}

pub open spec fn is_digit(c: char) -> bool {
    48 <= c as u32 <= 57
}

/// The digits of a version string: an optional leading '+' is allowed,
/// as it is for Rust's unsigned decimal parser.
pub open spec fn digits_part(s: Seq<char>) -> Seq<char> {
    if s.len() > 0 && s.first() == '+' {
        s.drop_first()
    } else {
        s
    }
}

pub open spec fn all_digits(s: Seq<char>) -> bool {
    forall|i: int| 0 <= i < s.len() ==> is_digit(#[trigger] s[i])
}

/// The value of a decimal digit string.
pub open spec fn dec_val(s: Seq<char>) -> int
    decreases s.len(),
{
    if s.len() == 0 {
        0
    } else {
        dec_val(s.drop_last()) * 10 + (s.last() as u32 - 48)
    }
}

/// A version string is accepted when it is an optional '+' followed by at
/// least one decimal digit, and its value fits in a u32 and is at least 8.
pub open spec fn valid_version(s: Seq<char>) -> bool {
    let d = digits_part(s);
    d.len() > 0 && all_digits(d) && dec_val(d) <= u32::MAX && dec_val(d) >= min_supported_version()
}

proof fn lemma_dec_val_nonneg(s: Seq<char>)
    requires
        all_digits(s),
    ensures
        dec_val(s) >= 0,
    decreases s.len(),
{
    if s.len() > 0 {
        assert(all_digits(s.drop_last())) by {
            assert(forall|i: int| 0 <= i < s.len() - 1 ==> #[trigger] s.drop_last()[i] == s[i]);
        }
        lemma_dec_val_nonneg(s.drop_last());
    }
}

proof fn lemma_dec_val_prefix(s: Seq<char>, k: int)
    requires
        all_digits(s),
        0 <= k <= s.len(),
    ensures
        dec_val(s.take(k)) <= dec_val(s),
    decreases s.len() - k,
{
    if k == s.len() {
        assert(s.take(k) =~= s);
    } else {
        lemma_dec_val_prefix(s, k + 1);
        assert(s.take(k + 1).drop_last() =~= s.take(k));
        assert(all_digits(s.take(k))) by {
            assert(forall|i: int| 0 <= i < k ==> #[trigger] s.take(k)[i] == s[i]);
        }
        lemma_dec_val_nonneg(s.take(k));
        assert(dec_val(s.take(k + 1)) == dec_val(s.take(k)) * 10 + (s.take(k + 1).last() as u32 - 48));
        assert(is_digit(s[k]));
    }
}

/// Whether `version` names a supported Java major version: an unsigned
/// 32-bit decimal number of value at least 8.
pub fn is_valid_version(version: &str) -> (r: bool)
    ensures
        r == valid_version(version@),
{
    let n = version.unicode_len();
    let mut i: usize = 0;
    if n > 0 && version.get_char(0) == '+' {
        i = 1;
    }
    let ghost d = digits_part(version@);
    proof {
        assert(d =~= version@.subrange(i as int, n as int));
    }
    if i == n {
        return false;
    }
    let mut val: u64 = 0;
    let mut j: usize = i;
    while j < n
        invariant
            i <= j <= n,
            n == version@.len(),
            d == digits_part(version@),
            d == version@.subrange(i as int, n as int),
            d.len() == n - i,
            all_digits(d.take(j - i)),
            val == dec_val(d.take(j - i)),
            val <= u32::MAX,
        decreases n - j,
    {
        let c = version.get_char(j);
        let u = c as u32;
        proof {
            assert(d[j - i] == version@[j as int]);
        }
        if u < 48 || u > 57 {
            proof {
                assert(!is_digit(d[j - i]));
            }
            return false;
        }
        proof {
            assert(d.take(j - i + 1).drop_last() =~= d.take(j - i));
            assert(d.take(j - i + 1).last() == d[j - i]);
        }
        val = val * 10 + (u - 48) as u64;
        proof {
            assert(all_digits(d.take(j - i + 1))) by {
                assert(forall|k: int| 0 <= k < j - i ==> #[trigger] d.take(j - i + 1)[k] == d.take(j - i)[k]);
            }
        }
        if val > 0xffff_ffffu64 {
            proof {
                if all_digits(d) {
                    lemma_dec_val_prefix(d, j - i + 1);
                }
            }
            return false;
        }
        j = j + 1;
    }
    proof {
        assert(d.take(j - i) =~= d);
    }
    val >= 8
}

/// Characters the config parser strips from line ends: the Unicode
/// White_Space set, exactly what Rust's `str::trim` removes.
pub open spec fn is_config_space(c: char) -> bool {
    let u = c as u32;
    u == 0x09 || u == 0x0A || u == 0x0B || u == 0x0C || u == 0x0D || u == 0x20 || u == 0x85
        || u == 0xA0 || u == 0x1680 || (0x2000 <= u && u <= 0x200A) || u == 0x2028 || u == 0x2029
        || u == 0x202F || u == 0x205F || u == 0x3000
}

pub open spec fn trim_start_spec(s: Seq<char>) -> Seq<char>
    decreases s.len(),
{
    if s.len() > 0 && is_config_space(s.first()) {
        trim_start_spec(s.drop_first())
    } else {
        s
    }
}

pub open spec fn trim_end_spec(s: Seq<char>) -> Seq<char>
    decreases s.len(),
{
    if s.len() > 0 && is_config_space(s.last()) {
        trim_end_spec(s.drop_last())
    } else {
        s
    }
}

/// A line stripped of leading and trailing white space.
pub open spec fn trim_spec(s: Seq<char>) -> Seq<char> {
    trim_end_spec(trim_start_spec(s))
}

/// How far the first line of `s` runs: to the first '\n', or to the end.
pub open spec fn line_len(s: Seq<char>) -> int
    decreases s.len(),
{
    if s.len() == 0 {
        0
    } else if s.first() == '\n' {
        0
    } else {
        1 + line_len(s.drop_first())
    }
}

pub proof fn lemma_line_len_le(s: Seq<char>)
    ensures
        0 <= line_len(s) <= s.len(),
    decreases s.len(),
{
    if s.len() > 0 && s.first() != '\n' {
        lemma_line_len_le(s.drop_first());
    }
}

/// The version line of a config text: the first line that, trimmed, is
/// neither empty nor a '#' comment.
pub open spec fn first_config_line(s: Seq<char>) -> Option<Seq<char>>
    decreases s.len(),
    via first_config_line_decreases
{
    let l = line_len(s);
    let line = trim_spec(s.take(l));
    if line.len() > 0 && line.first() != '#' {
        Some(line)
    } else if l == s.len() {
        None
    } else {
        first_config_line(s.skip(l + 1))
    }
}

#[via_fn]
proof fn first_config_line_decreases(s: Seq<char>) {
    lemma_line_len_le(s);
}

/// How loading a config can fail.
#[derive(Debug, PartialEq, Eq)]
pub enum ConfigError {
    /// A config file exists but could not be read.
    ReadFailed { detail: String },
    /// Neither the project config nor the default config exists.
    NoConfigFile,
    /// The config text holds no version line.
    NoVersionLine,
    /// The version line does not name a supported version.
    InvalidVersion { version: String },
}

/// What reading one config file produced, as the reading caller saw it.
#[derive(Debug, PartialEq, Eq)]
pub enum ReadOutcome {
    /// The file was read; its whole text follows.
    Content { text: String },
    /// No file stands at the path.
    NotFound,
    /// The file exists but reading it failed.
    Failed { detail: String },
}

/// How a parse result must relate to the content it came from: the first
/// config line is returned exactly when it is a supported version, and each
/// failure names its cause.
pub open spec fn parse_reflects(content: Seq<char>, r: Result<String, ConfigError>) -> bool {
    match first_config_line(content) {
        None => r matches Err(e) && e == ConfigError::NoVersionLine,
        Some(line) => if valid_version(line) {
            r matches Ok(v) && v@ == line
        } else {
            r matches Err(e) && (e matches ConfigError::InvalidVersion { version } && version@
                == line)
        },
    }
}

proof fn lemma_trim_start_at(s: Seq<char>, p: int)
    requires
        0 <= p <= s.len(),
        forall|k: int| 0 <= k < p ==> is_config_space(#[trigger] s[k]),
        p == s.len() || !is_config_space(s[p]),
    ensures
        trim_start_spec(s) == s.skip(p),
    decreases p,
{
    if p == 0 {
        assert(s.skip(0) =~= s);
    } else {
        let t = s.drop_first();
        assert(forall|k: int| 0 <= k < t.len() ==> #[trigger] t[k] == s[k + 1]);
        lemma_trim_start_at(t, p - 1);
        assert(t.skip(p - 1) =~= s.skip(p));
    }
}

proof fn lemma_trim_end_at(s: Seq<char>, q: int)
    requires
        0 <= q <= s.len(),
        forall|k: int| q <= k < s.len() ==> is_config_space(#[trigger] s[k]),
        q == 0 || !is_config_space(s[q - 1]),
    ensures
        trim_end_spec(s) == s.take(q),
    decreases s.len(),
{
    if q == s.len() {
        assert(s.take(q) =~= s);
    } else {
        let t = s.drop_last();
        assert(forall|k: int| 0 <= k < t.len() ==> #[trigger] t[k] == s[k]);
        lemma_trim_end_at(t, q);
        assert(t.take(q) =~= s.take(q));
    }
}

proof fn lemma_line_len_at(s: Seq<char>, e: int)
    requires
        0 <= e <= s.len(),
        forall|k: int| 0 <= k < e ==> #[trigger] s[k] != '\n',
        e == s.len() || s[e] == '\n',
    ensures
        line_len(s) == e,
    decreases s.len(),
{
    if e > 0 {
        let t = s.drop_first();
        assert(forall|k: int| 0 <= k < t.len() ==> #[trigger] t[k] == s[k + 1]);
        lemma_line_len_at(t, e - 1);
    }
}

fn is_space(c: char) -> (r: bool)
    ensures
        r == is_config_space(c),
{
    let u = c as u32;
    u == 0x09 || u == 0x0A || u == 0x0B || u == 0x0C || u == 0x0D || u == 0x20 || u == 0x85
        || u == 0xA0 || u == 0x1680 || (0x2000 <= u && u <= 0x200A) || u == 0x2028 || u == 0x2029
        || u == 0x202F || u == 0x205F || u == 0x3000
}

/// Parse a config text: find the first line that, trimmed, is neither
/// empty nor a '#' comment, and accept it exactly when it names a
/// supported version.
pub fn parse_config_content(content: &str) -> (r: Result<String, ConfigError>)
    ensures
        parse_reflects(content@, r),
{
    let n = content.unicode_len();
    let mut start: usize = 0;
    proof {
        assert(content@.skip(0) =~= content@);
    }
    loop
        invariant
            start <= n,
            n == content@.len(),
            first_config_line(content@) == first_config_line(content@.skip(start as int)),
        decreases n - start,
    {
        let ghost t = content@.skip(start as int);
        proof {
            assert(forall|k: int| 0 <= k < t.len() ==> #[trigger] t[k] == content@[k + start]);
        }
        let mut end: usize = start;
        while end < n && content.get_char(end) != '\n'
            invariant
                start <= end <= n,
                n == content@.len(),
                forall|k: int| start <= k < end ==> #[trigger] content@[k] != '\n',
            decreases n - end,
        {
            end = end + 1;
        }
        proof {
            lemma_line_len_at(t, end - start);
        }
        let mut a: usize = start;
        while a < end && is_space(content.get_char(a))
            invariant
                start <= a <= end <= n,
                n == content@.len(),
                forall|k: int| start <= k < a ==> is_config_space(#[trigger] content@[k]),
            decreases end - a,
        {
            a = a + 1;
        }
        let mut b: usize = end;
        while b > a && is_space(content.get_char(b - 1))
            invariant
                start <= a <= b <= end <= n,
                n == content@.len(),
                forall|k: int| b <= k < end ==> is_config_space(#[trigger] content@[k]),
            decreases b,
        {
            b = b - 1;
        }
        let ghost u = t.take(end - start);
        let ghost w = u.skip(a - start);
        proof {
            assert(u =~= content@.subrange(start as int, end as int));
            lemma_trim_start_at(u, a - start);
            assert(w =~= content@.subrange(a as int, end as int));
            lemma_trim_end_at(w, b - a);
            assert(w.take(b - a) =~= content@.subrange(a as int, b as int));
            assert(trim_spec(u) == content@.subrange(a as int, b as int));
        }
        if b > a && content.get_char(a) != '#' {
            let line = content.substring_char(a, b);
            let version = String::from_str(line);
            proof {
                assert(first_config_line(t) == Some(content@.subrange(a as int, b as int)));
            }
            if is_valid_version(line) {
                return Ok(version);
            } else {
                return Err(ConfigError::InvalidVersion { version });
            }
        }
        if end == n {
            proof {
                assert(first_config_line(t) is None);
            }
            return Err(ConfigError::NoVersionLine);
        }
        proof {
            assert(t.skip(end - start + 1) =~= content@.skip(end + 1));
            assert(first_config_line(t) == first_config_line(content@.skip(end + 1)));
        }
        start = end + 1;
    }
}

/// Resolve the configured version the way the two config paths are
/// consulted: the project config first; only when it is absent, the
/// default config; and a read failure on either is surfaced as such.
pub fn load_config_java_version(project: &ReadOutcome, fallback: &ReadOutcome) -> (r: Result<
    String,
    ConfigError,
>)
    ensures
        match *project {
            ReadOutcome::Content { text } => parse_reflects(text@, r),
            ReadOutcome::Failed { detail } => r matches Err(e) && (e
                matches ConfigError::ReadFailed { detail: d } && d@ == detail@),
            ReadOutcome::NotFound => match *fallback {
                ReadOutcome::Content { text } => parse_reflects(text@, r),
                ReadOutcome::NotFound => r matches Err(e) && e == ConfigError::NoConfigFile,
                ReadOutcome::Failed { detail } => r matches Err(e) && (e
                    matches ConfigError::ReadFailed { detail: d } && d@ == detail@),
            },
        },
{
    match project {
        ReadOutcome::Content { text } => parse_config_content(text.as_str()),
        ReadOutcome::Failed { detail } => Err(ConfigError::ReadFailed { detail: detail.clone() }),
        ReadOutcome::NotFound => match fallback {
            ReadOutcome::Content { text } => parse_config_content(text.as_str()),
            ReadOutcome::NotFound => Err(ConfigError::NoConfigFile),
            ReadOutcome::Failed { detail } => Err(
                ConfigError::ReadFailed { detail: detail.clone() },
            ),
        },
    }
}

/// The text written to a fresh config file: a comment header, then the
/// version on a line of its own.
pub fn config_file_content(java_version: &str) -> (r: String)
    ensures
        r@ == "# Java version configured by J'Lo - https://github.com/java-loader/jlo\n"@
            + java_version@ + "\n"@,
{
    let mut s = String::from_str(
        "# Java version configured by J'Lo - https://github.com/java-loader/jlo\n",
    );
    s.append(java_version);
    s.append("\n");
    s
}

} // verus!
