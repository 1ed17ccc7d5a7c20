use openapi_generator_cli::release::{
    archive_extension, detect_platform, jar_file_name, jar_url, jre_archive_file_name, jre_url,
    latest_version, metadata_url, most_recent_feature_release, releases_url, MetadataError,
    ReleaseListError, UnsupportedPlatform,
};

const METADATA: &str = "<?xml version=\"1.0\" encoding=\"UTF-8\"?>\n<metadata>\n  <groupId>org.openapitools</groupId>\n  <artifactId>openapi-generator-cli</artifactId>\n  <versioning>\n    <latest>7.14.0</latest>\n    <release>7.14.0</release>\n    <versions>\n      <version>7.13.0</version>\n      <version>7.14.0</version>\n    </versions>\n  </versioning>\n</metadata>\n";

#[test]
fn latest_version_from_metadata() {
    assert_eq!(latest_version(METADATA), Ok("7.14.0".to_string()));
}

#[test]
fn latest_version_between_tags_only() {
    assert_eq!(latest_version("x<latest>1.2.3</latest>y"), Ok("1.2.3".to_string()));
    assert_eq!(latest_version("<latest></latest>"), Ok(String::new()));
    assert_eq!(
        latest_version("<latest>a</latest><latest>b</latest>"),
        Ok("a".to_string())
    );
}

#[test]
fn latest_version_errors() {
    assert_eq!(latest_version(""), Err(MetadataError::MissingOpenTag));
    assert_eq!(latest_version("<release>1</release>"), Err(MetadataError::MissingOpenTag));
    assert_eq!(latest_version("<latest>1.0"), Err(MetadataError::MissingCloseTag));
    assert_eq!(latest_version("</latest><latest>1.0"), Err(MetadataError::TagsOutOfOrder));
}

#[test]
fn latest_version_keeps_non_ascii_text() {
    assert_eq!(latest_version("é<latest>ü1</latest>"), Ok("ü1".to_string()));
}

const RELEASES: &str = "{\n  \"available_lts_releases\" : [ 8, 11, 17, 21 ],\n  \"available_releases\" : [ 8, 11, 17, 21, 22, 23, 24 ],\n  \"most_recent_feature_release\" : 24,\n  \"most_recent_feature_version\" : 25,\n  \"most_recent_lts\" : 21,\n  \"tip_version\" : 26\n}";

#[test]
fn feature_release_from_compact_list() {
    let body = "{\"available_releases\":[8,11,17,21],\"most_recent_feature_release\":21,\"most_recent_lts\":21}";
    assert_eq!(most_recent_feature_release(body), Ok(21));
}

#[test]
fn feature_release_skips_whitespace_after_key() {
    assert_eq!(
        most_recent_feature_release("\"most_recent_feature_release\": \t\n\r 24,"),
        Ok(24)
    );
    assert_eq!(most_recent_feature_release("\"most_recent_feature_release\":007"), Ok(7));
}

#[test]
fn feature_release_errors() {
    assert_eq!(most_recent_feature_release(RELEASES), Err(ReleaseListError::MissingKey));
    assert_eq!(most_recent_feature_release("{}"), Err(ReleaseListError::MissingKey));
    assert_eq!(
        most_recent_feature_release("\"most_recent_feature_release\":null"),
        Err(ReleaseListError::InvalidNumber)
    );
    assert_eq!(
        most_recent_feature_release("\"most_recent_feature_release\":"),
        Err(ReleaseListError::InvalidNumber)
    );
    assert_eq!(
        most_recent_feature_release("\"most_recent_feature_release\":4294967296"),
        Err(ReleaseListError::InvalidNumber)
    );
    assert_eq!(
        most_recent_feature_release("\"most_recent_feature_release\":4294967295"),
        Ok(u32::MAX)
    );
}

#[test]
fn feature_release_written_and_read_back() {
    for n in [0u32, 7, 10, 21, 99, 100, 12345, u32::MAX] {
        let body = format!("{{\"most_recent_feature_release\":{n},\"x\":1}}");
        assert_eq!(most_recent_feature_release(&body), Ok(n));
        let url = jre_url(n, "linux", "x64");
        assert_eq!(
            url,
            format!("https://api.adoptium.net/v3/binary/latest/{n}/ga/linux/x64/jre/hotspot/normal/eclipse")
        );
    }
}

#[test]
fn maven_addresses() {
    assert_eq!(
        metadata_url(),
        "https://repo1.maven.org/maven2/org/openapitools/openapi-generator-cli/maven-metadata.xml"
    );
    assert_eq!(jar_file_name("7.14.0"), "openapi-generator-cli-7.14.0.jar");
    assert_eq!(
        jar_url("7.14.0"),
        "https://repo1.maven.org/maven2/org/openapitools/openapi-generator-cli/7.14.0/openapi-generator-cli-7.14.0.jar"
    );
}

#[test]
fn adoptium_addresses() {
    assert_eq!(releases_url(), "https://api.adoptium.net/v3/info/available_releases");
    assert_eq!(
        jre_url(21, "mac", "aarch64"),
        "https://api.adoptium.net/v3/binary/latest/21/ga/mac/aarch64/jre/hotspot/normal/eclipse"
    );
}

#[test]
fn platforms() {
    assert_eq!(detect_platform("linux", "x86_64"), Ok(("linux", "x64")));
    assert_eq!(detect_platform("linux", "aarch64"), Ok(("linux", "aarch64")));
    assert_eq!(detect_platform("macos", "x86_64"), Ok(("mac", "x64")));
    assert_eq!(detect_platform("macos", "aarch64"), Ok(("mac", "aarch64")));
    assert_eq!(detect_platform("windows", "x86_64"), Ok(("windows", "x64")));
    assert_eq!(detect_platform("windows", "aarch64"), Ok(("windows", "aarch64")));
    assert_eq!(detect_platform("freebsd", "x86_64"), Err(UnsupportedPlatform));
    assert_eq!(detect_platform("linux", "riscv64"), Err(UnsupportedPlatform));
    assert_eq!(detect_platform("", ""), Err(UnsupportedPlatform));
}

#[test]
fn archive_formats() {
    assert_eq!(archive_extension("windows"), "zip");
    assert_eq!(archive_extension("linux"), "tar.gz");
    assert_eq!(archive_extension("mac"), "tar.gz");
    assert_eq!(jre_archive_file_name("windows"), "jre.zip");
    assert_eq!(jre_archive_file_name("linux"), "jre.tar.gz");
}
