# openapi-generator-cli

A command-line wrapper around [OpenAPI Generator](https://openapi-generator.tech/):
it installs the generator JAR under `./oas-gen/` and runs
`java -jar openapi-generator-cli.jar <your args>`, forwarding every argument.

Layout:

- `src/` — the verified library (Verus):
  - `layout` — what a build provides (`BuildOutputs`: the fetched JAR and, where a Java
    runtime is bundled, its home) and the paths derived from it (`openapi_generator_jar_path`,
    `java_path`, `bundled_jre_path`), plus where this program installs what it fetches;
  - `release` — reading the latest generator version from Maven Central's
    `maven-metadata.xml`, the latest Java feature release from Adoptium's release list,
    Adoptium's platform names, and the download addresses;
  - `archive` — reading a Java runtime archive (`tar.gz` through `flate2` and `tar`, or
    `zip`) and deciding what becomes of each entry when it is unpacked;
  - `launch` — the generator's command line and this program's exit code;
  - `text`, `decimal` — character search and decimal numbers, with their proofs.
- `app/` — the program itself: it runs `curl`, writes the planned files and starts Java.
- `tests/` — tests of the library.

The program's `BUNDLED_JRE` (on, as by default) selects whether a Java runtime is
downloaded and unpacked under `./oas-gen/jre`; without it, `java` is taken from `PATH`.
