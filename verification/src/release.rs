use vstd::prelude::*;

use crate::decimal::{
    all_digits, decimal_digits, decimal_u32, is_digit, lemma_decimal_round_trip,
    lemma_decimal_u32_round_trip, parse_decimal_u32,
};
use crate::decimal::push_decimal;
use crate::text::{chars_of, find, find_chars, lemma_find, lemma_find_is, occurs_at, str_equal};

verus! {

// ---------------------------------------------------------------------------
// The latest generator version, from Maven Central's metadata document
// ---------------------------------------------------------------------------

/// Why no version could be read from a Maven metadata document.
#[derive(Debug, Clone, Copy, PartialEq, Eq, Structural)]
pub enum MetadataError {
    /// The document holds no `<latest>`.
    MissingOpenTag,
    /// The document holds no `</latest>`.
    MissingCloseTag,
    /// The first `</latest>` comes before the end of the first `<latest>`.
    TagsOutOfOrder,
}

pub open spec fn latest_open_tag() -> Seq<char> {
    "<latest>"@
}

pub open spec fn latest_close_tag() -> Seq<char> {
    "</latest>"@
}

/// The version that a metadata document names: the text between the first
/// `<latest>` and the first `</latest>`.
pub open spec fn spec_latest_version(body: Seq<char>) -> Result<Seq<char>, MetadataError> {
    match find(body, latest_open_tag()) {
        None => Err(MetadataError::MissingOpenTag),
        Some(start) => match find(body, latest_close_tag()) {
            None => Err(MetadataError::MissingCloseTag),
            Some(end) => if end < start + latest_open_tag().len() {
                Err(MetadataError::TagsOutOfOrder)
            } else {
                Ok(body.subrange((start + latest_open_tag().len()) as int, end as int))
            },
        },
    }
}

/// Reads the latest version from the body of `maven-metadata.xml`.
pub fn latest_version(body: &str) -> (res: Result<String, MetadataError>)
    ensures
        match res {
            Ok(v) => spec_latest_version(body@) == Ok::<Seq<char>, MetadataError>(v@),
            Err(e) => spec_latest_version(body@) == Err::<Seq<char>, MetadataError>(e),
        },
{
    proof {
        reveal_strlit("<latest>");
        reveal_strlit("</latest>");
    }
    let chars = chars_of(body);
    let open = chars_of("<latest>");
    let close = chars_of("</latest>");
    let start = match find_chars(&chars, &open) {
        None => return Err(MetadataError::MissingOpenTag),
        Some(i) => i,
    };
    let end = match find_chars(&chars, &close) {
        None => return Err(MetadataError::MissingCloseTag),
        Some(i) => i,
    };
    proof {
        lemma_find(chars@, open@);
        lemma_find(chars@, close@);
        assert(occurs_at(chars@, open@, start as int));
    }
    let n = chars.len();
    assert(start + open.len() <= n);
    if end < start + open.len() {
        return Err(MetadataError::TagsOutOfOrder);
    }
    let version = body.substring_char(start + open.len(), end);
    Ok(String::from_str(version))
}

/// Law: a metadata document of the form `p<latest>v</latest>q`, where
/// neither `p` nor the version `v` holds a `<`, names the version `v`.
pub proof fn law_latest_version_between_tags(p: Seq<char>, v: Seq<char>, q: Seq<char>)
    requires
        forall|i: int| 0 <= i < p.len() ==> p[i] != '<',
        forall|i: int| 0 <= i < v.len() ==> v[i] != '<',
    ensures
        spec_latest_version(p + latest_open_tag() + v + latest_close_tag() + q) == Ok::<
            Seq<char>,
            MetadataError,
        >(v),
{
    reveal_strlit("<latest>");
    reveal_strlit("</latest>");
    let open = latest_open_tag();
    let close = latest_close_tag();
    let body = p + open + v + close + q;
    let a = p.len() as int;
    let b = a + open.len() + v.len();
    assert(body.subrange(a, a + open.len()) =~= open);
    assert forall|j: int| 0 <= j < a implies !occurs_at(body, open, j) by {
        if occurs_at(body, open, j) {
            assert(body.subrange(j, j + open.len())[0] == body[j]);
        }
    }
    lemma_find_is(body, open, a);
    assert(body.subrange(b, b + close.len()) =~= close);
    assert forall|j: int| 0 <= j < b implies !occurs_at(body, close, j) by {
        if occurs_at(body, close, j) {
            assert(body.subrange(j, j + close.len())[0] == body[j]);
            assert(body.subrange(j, j + close.len())[1] == body[j + 1]);
            if j < a {
                assert(body[j] == p[j]);
            } else if j < a + open.len() {
                assert(body[j] == open[j - a]);
                assert(body[j + 1] == (open + v + close + q)[j + 1 - a]);
            } else {
                assert(body[j] == v[j - a - open.len()]);
            }
        }
    }
    lemma_find_is(body, close, b);
    assert(body.subrange(a + open.len(), b) =~= v);
}

/// Law: a metadata document `p<latest>v</latest>q` names the version `v`,
/// whatever its length, wherever the text `p` before it holds neither
/// `<latest>` nor `</latest>` (it may hold other tags, such as an XML prolog)
/// and `v` holds no `<`.
pub proof fn law_latest_version_after_other_tags(p: Seq<char>, v: Seq<char>, q: Seq<char>)
    requires
        forall|j: int| !occurs_at(p, latest_open_tag(), j),
        forall|j: int| !occurs_at(p, latest_close_tag(), j),
        forall|i: int| 0 <= i < v.len() ==> v[i] != '<',
    ensures
        spec_latest_version(p + latest_open_tag() + v + latest_close_tag() + q) == Ok::<
            Seq<char>,
            MetadataError,
        >(v),
{
    reveal_strlit("<latest>");
    reveal_strlit("</latest>");
    let open = latest_open_tag();
    let close = latest_close_tag();
    let body = p + open + v + close + q;
    let a = p.len() as int;
    let b = a + open.len() + v.len();
    assert(body.subrange(a, a + open.len()) =~= open);
    assert forall|j: int| 0 <= j < a implies !occurs_at(body, open, j) by {
        if occurs_at(body, open, j) {
            if j + open.len() <= a {
                assert(p.subrange(j, j + open.len()) =~= body.subrange(j, j + open.len()));
                assert(occurs_at(p, open, j));
            } else {
                assert(body.subrange(j, j + open.len())[a - j] == body[a]);
                assert(body[a] == open[0]);
                assert(open[a - j] == '<');
            }
        }
    }
    lemma_find_is(body, open, a);
    assert(body.subrange(b, b + close.len()) =~= close);
    assert forall|j: int| 0 <= j < b implies !occurs_at(body, close, j) by {
        if occurs_at(body, close, j) {
            assert(body.subrange(j, j + close.len())[0] == body[j]);
            assert(body.subrange(j, j + close.len())[1] == body[j + 1]);
            if j + close.len() <= a {
                assert(p.subrange(j, j + close.len()) =~= body.subrange(j, j + close.len()));
                assert(occurs_at(p, close, j));
            } else if j < a {
                assert(body.subrange(j, j + close.len())[a - j] == body[a]);
                assert(body[a] == open[0]);
                assert(close[a - j] == '<');
            } else if j < a + open.len() {
                assert(body[j] == open[j - a]);
                assert(body[j + 1] == (open + v + close + q)[j + 1 - a]);
            } else {
                assert(body[j] == v[j - a - open.len()]);
            }
        }
    }
    lemma_find_is(body, close, b);
    assert(body.subrange(a + open.len(), b) =~= v);
}

/// Law: a metadata document is refused for want of `<latest>` exactly when
/// `<latest>` occurs nowhere in it.
pub proof fn law_missing_open_tag(body: Seq<char>)
    ensures
        spec_latest_version(body) == Err::<Seq<char>, MetadataError>(MetadataError::MissingOpenTag)
            <==> forall|j: int| !occurs_at(body, latest_open_tag(), j),
{
    lemma_find(body, latest_open_tag());
    lemma_find(body, latest_close_tag());
}

// ---------------------------------------------------------------------------
// The most recent Java feature release, from Adoptium's release list
// ---------------------------------------------------------------------------

/// Why no feature release could be read from Adoptium's release list.
#[derive(Debug, Clone, Copy, PartialEq, Eq, Structural)]
pub enum ReleaseListError {
    /// The list holds no `"most_recent_feature_release":`.
    MissingKey,
    /// The key is not followed by a number that fits in a `u32`.
    InvalidNumber,
}

pub open spec fn release_key() -> Seq<char> {
    "\"most_recent_feature_release\":"@
}

/// The characters that `char::is_ascii_whitespace` accepts.
pub open spec fn is_ascii_whitespace(c: char) -> bool {
    c == ' ' || c == '\t' || c == '\n' || c == '\x0C' || c == '\r'
}

/// `s` without its leading ASCII whitespace.
pub open spec fn skip_whitespace(s: Seq<char>) -> Seq<char>
    decreases s.len(),
{
    if s.len() > 0 && is_ascii_whitespace(s[0]) {
        skip_whitespace(s.drop_first())
    } else {
        s
    }
}

/// The digits with which `s` begins.
pub open spec fn take_digits(s: Seq<char>) -> Seq<char>
    decreases s.len(),
{
    if s.len() > 0 && is_digit(s[0]) {
        seq![s[0]] + take_digits(s.drop_first())
    } else {
        Seq::empty()
    }
}

/// The feature release that a release list names: the number written,
/// after optional whitespace, behind the first `"most_recent_feature_release":`.
pub open spec fn spec_feature_release(body: Seq<char>) -> Result<u32, ReleaseListError> {
    match find(body, release_key()) {
        None => Err(ReleaseListError::MissingKey),
        Some(p) => match decimal_u32(
            take_digits(skip_whitespace(body.skip((p + release_key().len()) as int))),
        ) {
            Some(v) => Ok(v),
            None => Err(ReleaseListError::InvalidNumber),
        },
    }
}

/// Whether `c` is ASCII whitespace.
pub fn is_whitespace_char(c: char) -> (res: bool)
    ensures
        res == is_ascii_whitespace(c),
{
    c == ' ' || c == '\t' || c == '\n' || c == '\x0C' || c == '\r'
}

/// Whether `c` is a digit.
pub fn is_digit_char(c: char) -> (res: bool)
    ensures
        res == is_digit(c),
{
    '0' <= c && c <= '9'
}

/// Reads the most recent feature release from the body of Adoptium's
/// `available_releases` answer.
pub fn most_recent_feature_release(body: &str) -> (res: Result<u32, ReleaseListError>)
    ensures
        res == spec_feature_release(body@),
{
    proof {
        reveal_strlit("\"most_recent_feature_release\":");
    }
    let chars = chars_of(body);
    let key = chars_of("\"most_recent_feature_release\":");
    let p = match find_chars(&chars, &key) {
        None => return Err(ReleaseListError::MissingKey),
        Some(i) => i,
    };
    proof {
        lemma_find(chars@, key@);
        assert(occurs_at(chars@, key@, p as int));
    }
    let n = chars.len();
    assert(p + key.len() <= n);
    let ghost s = chars@;
    let ghost after = s.skip((p + key@.len()) as int);
    let mut j: usize = p + key.len();
    assert(s.skip(j as int) =~= after);
    while j < chars.len() && is_whitespace_char(chars[j])
        invariant
            p + key@.len() <= j <= chars.len(),
            s == chars@,
            skip_whitespace(after) == skip_whitespace(s.skip(j as int)),
        decreases chars.len() - j,
    {
        assert(s.skip(j as int).drop_first() =~= s.skip(j + 1));
        j = j + 1;
    }
    assert(skip_whitespace(s.skip(j as int)) == s.skip(j as int));
    let mut k: usize = j;
    while k < chars.len() && is_digit_char(chars[k])
        invariant
            j <= k <= chars.len(),
            s == chars@,
            all_digits(s.subrange(j as int, k as int)),
            take_digits(s.skip(j as int)) == s.subrange(j as int, k as int) + take_digits(
                s.skip(k as int),
            ),
        decreases chars.len() - k,
    {
        assert(s.skip(k as int).drop_first() =~= s.skip(k + 1));
        assert(s.subrange(j as int, k + 1) =~= s.subrange(j as int, k as int) + seq![s[k as int]]);
        k = k + 1;
    }
    assert(take_digits(s.skip(k as int)) =~= Seq::<char>::empty());
    assert(take_digits(s.skip(j as int)) =~= s.subrange(j as int, k as int));
    match parse_decimal_u32(&chars, j, k) {
        Some(v) => Ok(v),
        None => Err(ReleaseListError::InvalidNumber),
    }
}

/// Leading whitespace is skipped up to the first character that is not.
pub proof fn lemma_skip_whitespace(ws: Seq<char>, rest: Seq<char>)
    requires
        forall|i: int| 0 <= i < ws.len() ==> is_ascii_whitespace(ws[i]),
        rest.len() > 0 ==> !is_ascii_whitespace(rest[0]),
    ensures
        skip_whitespace(ws + rest) == rest,
    decreases ws.len(),
{
    if ws.len() == 0 {
        assert(ws + rest =~= rest);
    } else {
        assert((ws + rest).drop_first() =~= ws.drop_first() + rest);
        lemma_skip_whitespace(ws.drop_first(), rest);
    }
}

/// A run of digits is taken up to the first character that is not one.
pub proof fn lemma_take_digits(d: Seq<char>, rest: Seq<char>)
    requires
        all_digits(d),
        rest.len() > 0 ==> !is_digit(rest[0]),
    ensures
        take_digits(d + rest) == d,
    decreases d.len(),
{
    if d.len() == 0 {
        assert(d + rest =~= rest);
    } else {
        assert((d + rest).drop_first() =~= d.drop_first() + rest);
        lemma_take_digits(d.drop_first(), rest);
        assert(d =~= seq![d[0]] + d.drop_first());
    }
}

/// Law: a release list of the form `p"most_recent_feature_release":wn q`,
/// where `p` holds no `"`, `w` is ASCII whitespace, `n` is written in
/// decimal and `q` does not go on with a digit, names the release `n`.
pub proof fn law_feature_release_after_key(p: Seq<char>, w: Seq<char>, n: u32, q: Seq<char>)
    requires
        forall|i: int| 0 <= i < p.len() ==> p[i] != '"',
        forall|i: int| 0 <= i < w.len() ==> is_ascii_whitespace(w[i]),
        q.len() > 0 ==> !is_digit(q[0]),
    ensures
        spec_feature_release(p + release_key() + w + decimal_digits(n as nat) + q) == Ok::<
            u32,
            ReleaseListError,
        >(n),
{
    reveal_strlit("\"most_recent_feature_release\":");
    let key = release_key();
    let d = decimal_digits(n as nat);
    let body = p + key + w + d + q;
    let a = p.len() as int;
    assert(body.subrange(a, a + key.len()) =~= key);
    assert forall|j: int| 0 <= j < a implies !occurs_at(body, key, j) by {
        if occurs_at(body, key, j) {
            assert(body.subrange(j, j + key.len())[0] == body[j]);
        }
    }
    lemma_find_is(body, key, a);
    assert(body.skip(a + key.len()) =~= w + (d + q));
    lemma_decimal_round_trip(n as nat);
    assert(is_digit(d[0]));
    assert((d + q)[0] == d[0]);
    lemma_skip_whitespace(w, d + q);
    lemma_take_digits(d, q);
}

/// Law: a release list `p"most_recent_feature_release":wnq`, where the text
/// `p` before the key does not hold the key (it may hold other quoted keys
/// and values), `w` is ASCII whitespace, `n` is written in decimal and `q`
/// does not go on with a digit, names the release `n`, whatever other keys
/// `p` or `q` hold.
pub proof fn law_feature_release_after_other_keys(p: Seq<char>, w: Seq<char>, n: u32, q: Seq<char>)
    requires
        forall|j: int| !occurs_at(p, release_key(), j),
        forall|i: int| 0 <= i < w.len() ==> is_ascii_whitespace(w[i]),
        q.len() > 0 ==> !is_digit(q[0]),
    ensures
        spec_feature_release(p + release_key() + w + decimal_digits(n as nat) + q) == Ok::<
            u32,
            ReleaseListError,
        >(n),
{
    reveal_strlit("\"most_recent_feature_release\":");
    let key = release_key();
    let d = decimal_digits(n as nat);
    let body = p + key + w + d + q;
    let a = p.len() as int;
    assert(body.subrange(a, a + key.len()) =~= key);
    assert forall|j: int| 0 <= j < a implies !occurs_at(body, key, j) by {
        if occurs_at(body, key, j) {
            let win = body.subrange(j, j + key.len());
            if j + key.len() <= a {
                assert(p.subrange(j, j + key.len()) =~= win);
                assert(occurs_at(p, key, j));
            } else {
                assert(win[a - j] == body[a]);
                assert(body[a] == key[0]);
                assert(key[a - j] == '"');
                assert(a - j == 28);
                assert(win[29] == body[a + 1]);
                assert(body[a + 1] == key[1]);
            }
        }
    }
    lemma_find_is(body, key, a);
    assert(body.skip(a + key.len()) =~= w + (d + q));
    lemma_decimal_round_trip(n as nat);
    assert(is_digit(d[0]));
    assert((d + q)[0] == d[0]);
    lemma_skip_whitespace(w, d + q);
    lemma_take_digits(d, q);
}

/// Law: a release list is refused for want of the key exactly when
/// `"most_recent_feature_release":` occurs nowhere in it.
pub proof fn law_missing_key(body: Seq<char>)
    ensures
        spec_feature_release(body) == Err::<u32, ReleaseListError>(ReleaseListError::MissingKey)
            <==> forall|j: int| !occurs_at(body, release_key(), j),
{
    lemma_find(body, release_key());
}

// ---------------------------------------------------------------------------
// Where the generator JAR is fetched from
// ---------------------------------------------------------------------------

/// The Maven Central directory of the `openapi-generator-cli` artifact.
pub open spec fn maven_artifact_dir() -> Seq<char> {
    "https://repo1.maven.org/maven2/org/openapitools/openapi-generator-cli/"@
}

/// The address of the artifact's `maven-metadata.xml`.
pub fn metadata_url() -> (url: &'static str)
    ensures
        url@ == maven_artifact_dir() + "maven-metadata.xml"@,
{
    proof {
        reveal_strlit("https://repo1.maven.org/maven2/org/openapitools/openapi-generator-cli/");
        reveal_strlit("maven-metadata.xml");
        reveal_strlit(
            "https://repo1.maven.org/maven2/org/openapitools/openapi-generator-cli/maven-metadata.xml",
        );
        assert("https://repo1.maven.org/maven2/org/openapitools/openapi-generator-cli/maven-metadata.xml"@
            =~= maven_artifact_dir() + "maven-metadata.xml"@);
    }
    "https://repo1.maven.org/maven2/org/openapitools/openapi-generator-cli/maven-metadata.xml"
}

/// The file name of the JAR of a given version.
pub open spec fn spec_jar_file_name(version: Seq<char>) -> Seq<char> {
    "openapi-generator-cli-"@ + version + ".jar"@
}

/// `openapi-generator-cli-{version}.jar`.
pub fn jar_file_name(version: &str) -> (name: String)
    ensures
        name@ == spec_jar_file_name(version@),
{
    let mut name = String::from_str("openapi-generator-cli-");
    name.append(version);
    name.append(".jar");
    name
}

/// The address of the JAR of a given version.
pub open spec fn spec_jar_url(version: Seq<char>) -> Seq<char> {
    maven_artifact_dir() + version + "/"@ + spec_jar_file_name(version)
}

/// `{artifact directory}{version}/openapi-generator-cli-{version}.jar`.
pub fn jar_url(version: &str) -> (url: String)
    ensures
        url@ == spec_jar_url(version@),
{
    let mut url = String::from_str(
        "https://repo1.maven.org/maven2/org/openapitools/openapi-generator-cli/",
    );
    url.append(version);
    url.append("/");
    let name = jar_file_name(version);
    url.append(name.as_str());
    assert(url@ =~= spec_jar_url(version@));
    url
}

// ---------------------------------------------------------------------------
// Where the Java runtime is fetched from
// ---------------------------------------------------------------------------

/// The address of Adoptium's list of available releases.
pub fn releases_url() -> (url: &'static str)
    ensures
        url@ == "https://api.adoptium.net/v3/info/available_releases"@,
{
    "https://api.adoptium.net/v3/info/available_releases"
}

/// No Java runtime is published for this operating system and architecture.
#[derive(Debug, Clone, Copy, PartialEq, Eq, Structural)]
pub struct UnsupportedPlatform;

/// The names that Adoptium's API gives an operating system and an
/// architecture, as Rust names them in `std::env::consts`.
pub open spec fn adoptium_platform(os: Seq<char>, arch: Seq<char>) -> Option<
    (Seq<char>, Seq<char>),
> {
    if os == "linux"@ && arch == "x86_64"@ {
        Some(("linux"@, "x64"@))
    } else if os == "linux"@ && arch == "aarch64"@ {
        Some(("linux"@, "aarch64"@))
    } else if os == "macos"@ && arch == "x86_64"@ {
        Some(("mac"@, "x64"@))
    } else if os == "macos"@ && arch == "aarch64"@ {
        Some(("mac"@, "aarch64"@))
    } else if os == "windows"@ && arch == "x86_64"@ {
        Some(("windows"@, "x64"@))
    } else if os == "windows"@ && arch == "aarch64"@ {
        Some(("windows"@, "aarch64"@))
    } else {
        None
    }
}

/// Maps Rust's operating system and architecture names to Adoptium's.
pub fn detect_platform(os: &str, arch: &str) -> (res: Result<(&'static str, &'static str), UnsupportedPlatform>)
    ensures
        match res {
            Ok((o, a)) => adoptium_platform(os@, arch@) == Some((o@, a@)),
            Err(_) => adoptium_platform(os@, arch@) is None,
        },
{
    let linux = str_equal(os, "linux");
    let macos = str_equal(os, "macos");
    let windows = str_equal(os, "windows");
    let x86_64 = str_equal(arch, "x86_64");
    let aarch64 = str_equal(arch, "aarch64");
    if linux && x86_64 {
        Ok(("linux", "x64"))
    } else if linux && aarch64 {
        Ok(("linux", "aarch64"))
    } else if macos && x86_64 {
        Ok(("mac", "x64"))
    } else if macos && aarch64 {
        Ok(("mac", "aarch64"))
    } else if windows && x86_64 {
        Ok(("windows", "x64"))
    } else if windows && aarch64 {
        Ok(("windows", "aarch64"))
    } else {
        Err(UnsupportedPlatform)
    }
}

/// The archive format in which Adoptium serves a runtime: `zip` for
/// Windows, `tar.gz` for every other system.
pub open spec fn spec_archive_extension(adopt_os: Seq<char>) -> Seq<char> {
    if adopt_os == "windows"@ {
        "zip"@
    } else {
        "tar.gz"@
    }
}

/// `zip` for Windows, `tar.gz` otherwise.
pub fn archive_extension(adopt_os: &str) -> (ext: &'static str)
    ensures
        ext@ == spec_archive_extension(adopt_os@),
{
    if str_equal(adopt_os, "windows") {
        "zip"
    } else {
        "tar.gz"
    }
}

/// `jre.{extension}`, the file the runtime archive is saved as.
pub fn jre_archive_file_name(adopt_os: &str) -> (name: String)
    ensures
        name@ == "jre."@ + spec_archive_extension(adopt_os@),
{
    let mut name = String::from_str("jre.");
    name.append(archive_extension(adopt_os));
    name
}

/// The address of the latest general-availability runtime of a feature
/// release for an Adoptium platform.
pub open spec fn spec_jre_url(version: u32, adopt_os: Seq<char>, adopt_arch: Seq<char>) -> Seq<
    char,
> {
    "https://api.adoptium.net/v3/binary/latest/"@ + decimal_digits(version as nat) + "/ga/"@
        + adopt_os + "/"@ + adopt_arch + "/jre/hotspot/normal/eclipse"@
}

/// Law: in the runtime address, the segment after `/ga/` is the operating
/// system and the next one the architecture, for every system; before them
/// stands the feature release, which reads back as the number asked for.
pub proof fn law_jre_url_segments(version: u32, adopt_os: Seq<char>, adopt_arch: Seq<char>)
    ensures
        ({
            let url = spec_jre_url(version, adopt_os, adopt_arch);
            let pre = "https://api.adoptium.net/v3/binary/latest/"@;
            let d = decimal_digits(version as nat);
            let s: int = pre.len() as int;
            let k: int = s + d.len() + 4;
            let o: int = k + adopt_os.len();
            let e: int = o + 1 + adopt_arch.len();
            &&& url.take(s) == pre
            &&& decimal_u32(url.subrange(s, s + d.len())) == Some(version)
            &&& url.subrange(s + d.len(), k) == "/ga/"@
            &&& url.subrange(k, o) == adopt_os
            &&& url[o] == '/'
            &&& url.subrange(o + 1, e) == adopt_arch
            &&& url.skip(e) == "/jre/hotspot/normal/eclipse"@
        }),
{
    reveal_strlit("/ga/");
    reveal_strlit("/");
    let url = spec_jre_url(version, adopt_os, adopt_arch);
    let pre = "https://api.adoptium.net/v3/binary/latest/"@;
    let d = decimal_digits(version as nat);
    let s: int = pre.len() as int;
    let k: int = s + d.len() + 4;
    let o: int = k + adopt_os.len();
    let e: int = o + 1 + adopt_arch.len();
    lemma_decimal_u32_round_trip(version);
    assert(url.take(s) =~= pre);
    assert(url.subrange(s, s + d.len()) =~= d);
    assert(url.subrange(s + d.len(), k) =~= "/ga/"@);
    assert(url.subrange(k, o) =~= adopt_os);
    assert(url.subrange(o + 1, e) =~= adopt_arch);
    assert(url.skip(e) =~= "/jre/hotspot/normal/eclipse"@);
}

/// `https://api.adoptium.net/v3/binary/latest/{version}/ga/{os}/{arch}/jre/hotspot/normal/eclipse`.
pub fn jre_url(version: u32, adopt_os: &str, adopt_arch: &str) -> (url: String)
    ensures
        url@ == spec_jre_url(version, adopt_os@, adopt_arch@),
{
    let mut url = String::from_str("https://api.adoptium.net/v3/binary/latest/");
    push_decimal(&mut url, version);
    url.append("/ga/");
    url.append(adopt_os);
    url.append("/");
    url.append(adopt_arch);
    url.append("/jre/hotspot/normal/eclipse");
    url
}

} // verus!
