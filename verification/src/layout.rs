use vstd::prelude::*;

use crate::decimal::push_char;
use crate::text::chars_of;

verus! {

/// What a build provides: where it put the generator JAR (never an empty
/// path), and the home of the Java runtime that it bundles, where it bundles
/// one (without one, `java` is looked up on `PATH`).
pub struct BuildOutputs {
    generator_jar: String,
    jre_home: Option<String>,
}

impl BuildOutputs {
    #[verifier::type_invariant]
    spec fn jar_named(self) -> bool {
        self.generator_jar@.len() > 0
    }

    /// The path of the generator JAR, as characters.
    pub closed spec fn jar(self) -> Seq<char> {
        self.generator_jar@
    }

    /// The home of the bundled Java runtime, as characters, if any.
    pub closed spec fn home(self) -> Option<Seq<char>> {
        match self.jre_home {
            Some(h) => Some(h@),
            None => None,
        }
    }

    /// What a build provides, from the JAR it fetched and the home of the
    /// runtime it bundles; `None` where the JAR path is empty.
    pub fn new(generator_jar: String, jre_home: Option<String>) -> (res: Option<BuildOutputs>)
        ensures
            res is Some <==> generator_jar@.len() > 0,
            res matches Some(b) ==> b.jar() == generator_jar@ && b.home() == match jre_home {
                Some(h) => Some(h@),
                None => None::<Seq<char>>,
            },
    {
        if generator_jar.as_str().is_empty() {
            None
        } else {
            Some(BuildOutputs { generator_jar, jre_home })
        }
    }
}

/// `c` separates path components where `sep` is the platform's main
/// separator: `/` everywhere, and `\` too where that is the main one.
pub open spec fn is_separator_for(c: char, sep: char) -> bool {
    c == '/' || c == sep
}

/// `base` is a drive with nothing after it, such as `C:`.
pub open spec fn is_drive_only(base: Seq<char>) -> bool {
    &&& base.len() == 2
    &&& base[1] == ':'
    &&& ('a' <= base[0] <= 'z' || 'A' <= base[0] <= 'Z')
}

/// `base` is a Windows verbatim path, beginning with `\\?\`.
pub open spec fn is_verbatim(base: Seq<char>) -> bool {
    &&& base.len() >= 4
    &&& base[0] == '\\'
    &&& base[1] == '\\'
    &&& base[2] == '?'
    &&& base[3] == '\\'
}

/// `rel` appended to `base` on a platform whose main separator is `sep`:
/// with `sep` between them, unless `base` is empty, already ends in a
/// separator, or (where `sep` is `\`) is a bare drive such as `C:`.
pub open spec fn joined(base: Seq<char>, rel: Seq<char>, sep: char) -> Seq<char> {
    if base.len() == 0 {
        rel
    } else if is_separator_for(base.last(), sep) || (sep == '\\' && is_drive_only(base)) {
        base + rel
    } else {
        base + seq![sep] + rel
    }
}

/// Law: where `base` is not empty, does not already end in `/` or in the
/// platform's separator `sep`, and is not a bare drive such as `C:` on a
/// platform whose separator is `\`, joining puts exactly one `sep` between
/// `base` and `rel`, whatever `base` ends in otherwise.
pub proof fn law_join_inserts_separator(base: Seq<char>, rel: Seq<char>, sep: char)
    requires
        base.len() > 0,
        base.last() != '/',
        base.last() != sep,
        !(sep == '\\' && base.len() == 2 && base[1] == ':' && ('a' <= base[0] <= 'z' || 'A'
            <= base[0] <= 'Z')),
    ensures
        joined(base, rel, sep) == base + seq![sep] + rel,
        joined(base, rel, sep).take(base.len() as int) == base,
        joined(base, rel, sep)[base.len() as int] == sep,
        joined(base, rel, sep).skip(base.len() + 1int) == rel,
{
    let j = joined(base, rel, sep);
    assert(j.take(base.len() as int) =~= base);
    assert(j.skip(base.len() + 1int) =~= rel);
}

/// Law: where `base` already ends in `/` or in the platform's separator,
/// joining adds no second separator; an empty `base` leaves `rel` alone.
pub proof fn law_join_after_separator(base: Seq<char>, rel: Seq<char>, sep: char)
    ensures
        base.len() > 0 && (base.last() == '/' || base.last() == sep) ==> joined(base, rel, sep)
            == base + rel,
        base.len() == 0 ==> joined(base, rel, sep) == rel,
{
}

/// Law: the `java` of a runtime home that is not a Windows verbatim path is
/// the home, the platform's separator unless the home already ends in a
/// separator (or is a bare drive), and `bin/java`.
pub proof fn law_java_in_home(home: Seq<char>, sep: char, path: Seq<char>)
    requires
        sep == '/' || sep == '\\',
        !(sep == '\\' && is_verbatim(home)),
        java_in(home, sep, path),
        home.len() > 0,
        home.last() != '/',
        home.last() != sep,
        !(sep == '\\' && home.len() == 2 && home[1] == ':' && ('a' <= home[0] <= 'z' || 'A'
            <= home[0] <= 'Z')),
    ensures
        path == home + seq![sep] + "bin/java"@,
{
    law_join_inserts_separator(home, "bin/java"@, sep);
}

/// Whether `c` is an ASCII letter.
fn is_ascii_letter(c: char) -> (res: bool)
    ensures
        res == ('a' <= c <= 'z' || 'A' <= c <= 'Z'),
{
    ('a' <= c && c <= 'z') || ('A' <= c && c <= 'Z')
}

/// `base` joined with the relative path `rel` on a platform whose main
/// separator is `sep`.
pub fn join_path(base: &str, rel: &str, sep: char) -> (path: String)
    ensures
        path@ == joined(base@, rel@, sep),
{
    let chars = chars_of(base);
    let n = chars.len();
    if n == 0 {
        return String::from_str(rel);
    }
    let last = chars[n - 1];
    let drive_only = n == 2 && chars[1] == ':' && is_ascii_letter(chars[0]);
    let mut path = String::from_str(base);
    if !(last == '/' || last == sep || (sep == '\\' && drive_only)) {
        push_char(&mut path, sep);
    }
    path.append(rel);
    path
}

/// `std::path::MAIN_SEPARATOR`: `\` on Windows, `/` elsewhere.
#[verifier::external_body]
fn main_separator() -> (sep: char)
    ensures
        sep == '/' || sep == '\\',
{
    std::path::MAIN_SEPARATOR
}

/// `std::path::Path::join`, with the result taken as text. Nothing is
/// stated of it: it is used for Windows verbatim paths, whose components it
/// normalizes.
#[verifier::external_body]
fn std_path_join(base: &str, rel: &str) -> String {
    std::path::Path::new(base).join(rel).to_string_lossy().into_owned()
}

/// Whether `base` begins with `\\?\`.
fn starts_verbatim(base: &str) -> (res: bool)
    ensures
        res == is_verbatim(base@),
{
    let chars = chars_of(base);
    chars.len() >= 4 && chars[0] == '\\' && chars[1] == '\\' && chars[2] == '?' && chars[3]
        == '\\'
}

/// `java` inside the runtime home `home`, on a platform whose main separator
/// is `sep`: `bin/java` joined to it. A Windows verbatim home is joined by
/// std, which normalizes it; of that result nothing is stated.
pub open spec fn java_in(home: Seq<char>, sep: char, path: Seq<char>) -> bool {
    if sep == '\\' && is_verbatim(home) {
        true
    } else {
        path == joined(home, "bin/java"@, sep)
    }
}

/// Returns the path to the OpenAPI Generator CLI JAR that the build fetched.
pub fn openapi_generator_jar_path(build: &BuildOutputs) -> (path: &str)
    ensures
        path@ == build.jar(),
        path@.len() > 0,
{
    proof {
        use_type_invariant(build);
    }
    build.generator_jar.as_str()
}

/// Returns the path to a `java` binary. If the build bundles a Java runtime
/// this points to the bundled runtime's `java`, `bin/java` joined to its home
/// by the platform's rules; otherwise it is `"java"` (expecting it on
/// `PATH`).
pub fn java_path(build: &BuildOutputs) -> (path: String)
    ensures
        match build.home() {
            Some(home) => java_in(home, '/', path@) || java_in(home, '\\', path@),
            None => path@ == "java"@,
        },
{
    match &build.jre_home {
        Some(home) => {
            let sep = main_separator();
            if sep == '\\' && starts_verbatim(home.as_str()) {
                std_path_join(home.as_str(), "bin/java")
            } else {
                join_path(home.as_str(), "bin/java", sep)
            }
        },
        None => String::from_str("java"),
    }
}

/// Returns the path to the bundled Java runtime, if the build bundles one.
pub fn bundled_jre_path(build: &BuildOutputs) -> (path: Option<&str>)
    ensures
        match path {
            Some(p) => build.home() == Some(p@),
            None => build.home() is None,
        },
{
    match &build.jre_home {
        Some(home) => Some(home.as_str()),
        None => None,
    }
}

/// Law: `java_path` and `bundled_jre_path` agree. Where a runtime home is
/// named, the `java` that is run lies inside it, at `bin/java`, on either
/// kind of platform.
pub proof fn law_java_path_matches_bundled_jre(home: Seq<char>, sep: char)
    requires
        sep == '/' || sep == '\\',
    ensures
        joined(home, "bin/java"@, sep).take(home.len() as int) == home,
        joined(home, "bin/java"@, sep).skip(
            joined(home, "bin/java"@, sep).len() - "bin/java"@.len(),
        ) == "bin/java"@,
{
    reveal_strlit("bin/java");
    let j = joined(home, "bin/java"@, sep);
    assert(j.take(home.len() as int) =~= home);
    assert(j.skip(j.len() - "bin/java"@.len()) =~= "bin/java"@);
}

// ---------------------------------------------------------------------------
// Where this program installs what it fetches
// ---------------------------------------------------------------------------

/// The directory, relative to the working directory, that holds the
/// fetched generator JAR and the unpacked Java runtime.
pub open spec fn install_dir() -> Seq<char> {
    "./oas-gen"@
}

/// Where the generator JAR is installed under a fixed name for launching.
pub open spec fn installed_jar_location() -> Seq<char> {
    joined(install_dir(), "openapi-generator-cli.jar"@, '/')
}

/// Where a bundled Java runtime is unpacked.
pub open spec fn bundled_jre_home() -> Seq<char> {
    joined(install_dir(), "jre"@, '/')
}

/// The `java` binary inside the unpacked Java runtime.
pub open spec fn bundled_java_location() -> Seq<char> {
    joined(bundled_jre_home(), "bin/java"@, '/')
}

/// The install directory, `./oas-gen`.
pub fn install_directory() -> (dir: &'static str)
    ensures
        dir@ == install_dir(),
{
    "./oas-gen"
}

/// `./oas-gen/openapi-generator-cli.jar`, the JAR that is launched.
pub fn installed_jar_path() -> (path: &'static str)
    ensures
        path@ == installed_jar_location(),
{
    proof {
        reveal_strlit("./oas-gen");
        reveal_strlit("openapi-generator-cli.jar");
        reveal_strlit("./oas-gen/openapi-generator-cli.jar");
        assert("./oas-gen/openapi-generator-cli.jar"@ =~= installed_jar_location());
    }
    "./oas-gen/openapi-generator-cli.jar"
}

/// `./oas-gen/jre`, the directory the Java runtime is unpacked into.
pub fn bundled_jre_directory() -> (dir: &'static str)
    ensures
        dir@ == bundled_jre_home(),
{
    proof {
        reveal_strlit("./oas-gen");
        reveal_strlit("jre");
        reveal_strlit("./oas-gen/jre");
        assert("./oas-gen/jre"@ =~= bundled_jre_home());
    }
    "./oas-gen/jre"
}

/// `./oas-gen/jre/bin/java`, the `java` of the unpacked runtime.
pub fn bundled_java_binary() -> (path: &'static str)
    ensures
        path@ == bundled_java_location(),
{
    proof {
        reveal_strlit("./oas-gen");
        reveal_strlit("jre");
        reveal_strlit("bin/java");
        reveal_strlit("./oas-gen/jre");
        reveal_strlit("./oas-gen/jre/bin/java");
        assert("./oas-gen/jre"@ =~= bundled_jre_home());
        assert("./oas-gen/jre/bin/java"@ =~= bundled_java_location());
    }
    "./oas-gen/jre/bin/java"
}

/// Law: on a platform whose separator is `/`, a build whose runtime is
/// unpacked by this program runs the `java` that the unpacking leaves behind.
pub proof fn law_unpacked_runtime_is_run(path: Seq<char>)
    requires
        java_in(bundled_jre_home(), '/', path),
    ensures
        path == bundled_java_location(),
{
}

/// Law: the installed JAR and the bundled runtime both lie inside the
/// install directory.
pub proof fn law_everything_under_install_dir()
    ensures
        installed_jar_location().take(install_dir().len() as int) == install_dir(),
        bundled_jre_home().take(install_dir().len() as int) == install_dir(),
        bundled_java_location().take(install_dir().len() as int) == install_dir(),
{
    reveal_strlit("./oas-gen");
    reveal_strlit("jre");
    reveal_strlit("bin/java");
    reveal_strlit("openapi-generator-cli.jar");
    assert(installed_jar_location().take(install_dir().len() as int) =~= install_dir());
    assert(bundled_jre_home().take(install_dir().len() as int) =~= install_dir());
    assert(bundled_java_location().take(install_dir().len() as int) =~= install_dir());
}

} // verus!
