use openapi_generator_cli::layout::{
    bundled_java_binary, bundled_jre_directory, bundled_jre_path, install_directory,
    installed_jar_path, java_path, join_path, openapi_generator_jar_path, BuildOutputs,
};

const JAR: &str = "./oas-gen/openapi-generator-cli-7.14.0.jar";

fn unbundled() -> BuildOutputs {
    BuildOutputs::new(JAR.to_string(), None).unwrap()
}

fn bundled(home: &str) -> BuildOutputs {
    BuildOutputs::new(JAR.to_string(), Some(home.to_string())).unwrap()
}

#[test]
fn jar_path_is_non_empty() {
    for build in [unbundled(), bundled("./oas-gen/jre")] {
        let path = openapi_generator_jar_path(&build);
        assert!(!path.is_empty(), "JAR path should not be empty");
        println!("JAR path: {path}");
    }
}

#[test]
fn jar_path_is_the_fetched_jar() {
    let build = BuildOutputs::new("/build/out/openapi-generator-cli-7.14.0.jar".to_string(), None).unwrap();
    assert_eq!(openapi_generator_jar_path(&build), "/build/out/openapi-generator-cli-7.14.0.jar");
}

#[test]
fn build_without_jar_is_refused() {
    assert!(BuildOutputs::new(String::new(), None).is_none());
    assert!(BuildOutputs::new(String::new(), Some("./oas-gen/jre".to_string())).is_none());
}

#[test]
fn bundled_jre_path_is_set_when_feature_enabled() {
    let build = bundled("./oas-gen/jre");
    let path = bundled_jre_path(&build)
        .expect("JRE path should be Some when bundled-jre is enabled");
    println!("JRE path: {path}");
    assert_eq!(path, "./oas-gen/jre");
    assert!(bundled_jre_path(&unbundled()).is_none());
}

#[test]
fn java_path_points_to_bundled_jre_when_feature_enabled() {
    let sep = std::path::MAIN_SEPARATOR;
    assert_eq!(java_path(&unbundled()), "java");
    assert_eq!(java_path(&bundled("/opt/jre")), format!("/opt/jre{sep}bin/java"));
    assert_eq!(java_path(&bundled("/opt/jre/")), "/opt/jre/bin/java");
    assert_eq!(java_path(&bundled("")), "bin/java");
}

#[test]
fn java_path_agrees_with_std_join() {
    for home in ["/opt/jre", "/opt/jre/", "./oas-gen/jre", "jre", "a\\b", "C:", "C:\\jre", "C:\\jre\\"] {
        let expected = std::path::Path::new(home).join("bin/java").to_string_lossy().into_owned();
        assert_eq!(java_path(&bundled(home)), expected, "home {home}");
    }
}

#[test]
fn java_path_is_inside_bundled_jre_path() {
    let build = bundled("./oas-gen/jre");
    let home = bundled_jre_path(&build).unwrap();
    assert!(java_path(&build).starts_with(home));
    assert!(java_path(&build).ends_with("bin/java"));
    if std::path::MAIN_SEPARATOR == '/' {
        assert_eq!(java_path(&build), bundled_java_binary());
    }
}

#[test]
fn join_paths_by_platform() {
    assert_eq!(join_path("a", "b", '/'), "a/b");
    assert_eq!(join_path("a/", "b", '/'), "a/b");
    assert_eq!(join_path("a\\", "b", '/'), "a\\/b");
    assert_eq!(join_path("", "b", '/'), "b");
    assert_eq!(join_path("/", "bin/java", '/'), "/bin/java");
    assert_eq!(join_path("C:\\jre", "bin/java", '\\'), "C:\\jre\\bin/java");
    assert_eq!(join_path("C:\\jre\\", "bin/java", '\\'), "C:\\jre\\bin/java");
    assert_eq!(join_path("C:\\jre/", "bin/java", '\\'), "C:\\jre/bin/java");
    assert_eq!(join_path("C:", "bin/java", '\\'), "C:bin/java");
    assert_eq!(join_path("C:", "bin/java", '/'), "C:/bin/java");
}

#[test]
fn install_layout() {
    assert_eq!(install_directory(), "./oas-gen");
    assert_eq!(installed_jar_path(), "./oas-gen/openapi-generator-cli.jar");
    assert_eq!(bundled_jre_directory(), "./oas-gen/jre");
    assert_eq!(bundled_java_binary(), "./oas-gen/jre/bin/java");
    assert!(installed_jar_path().starts_with(install_directory()));
}
