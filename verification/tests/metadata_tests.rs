use huak::dependency::Dependency;
use huak::error::Error;
use huak::metadata::Metadata;
use huak::workspace::{FileSystem, GitHook, LocalMetadata};

fn empty_fs() -> FileSystem {
    FileSystem { pyproject: None, git: GitHook::Works, git_initialized: false }
}

#[test]
fn test_template_then_set_name_serializes_to_reference() {
    let mut lm = LocalMetadata::template(String::from("/w/mock-project/pyproject.toml"));
    lm.metadata.set_project_name(String::from("mock-project"));
    assert_eq!(
        lm.to_string_pretty(),
        "[build-system]\nrequires = [\"hatchling\"]\nbuild-backend = \"hatchling.build\"\n\n\
         [project]\nname = \"mock-project\"\nversion = \"0.0.1\"\ndescription = \"\"\n\
         dependencies = []\n"
    );
}

#[test]
fn test_serialize_parse_serialize_round_trip() {
    let mut lm = LocalMetadata::template(String::from("/w/demo/pyproject.toml"));
    lm.metadata.set_project_name(String::from("demo"));
    lm.metadata.description = String::from("a demo project");
    lm.metadata.dependencies.push(Dependency::from_str("requests==2.28.1").unwrap());
    lm.metadata.dependencies.push(Dependency::from_str("uvicorn[standard]>=0.20").unwrap());
    lm.metadata.dependencies.push(Dependency::from_str("x[a,b,c]~=1.0.0").unwrap());
    lm.metadata.add_script("demo", "demo.main:main");
    lm.metadata.add_script("demo-cli", "demo.cli:run");

    let mut fs = empty_fs();
    lm.write_file(&mut fs).unwrap();
    let original = fs.pyproject.clone().unwrap();

    let reloaded = LocalMetadata::from_file(String::from("/w/demo/pyproject.toml"), &fs).unwrap();
    assert_eq!(reloaded.to_string_pretty(), original);
}

#[test]
fn test_from_file_absent_is_not_found() {
    let fs = empty_fs();
    let r = LocalMetadata::from_file(String::from("/w/p/pyproject.toml"), &fs);
    assert!(matches!(r, Err(Error::MetadataNotFound)));
}

#[test]
fn test_from_str_rejects_malformed_documents() {
    assert!(matches!(Metadata::from_str(""), Err(Error::MetadataParseError)));
    assert!(matches!(Metadata::from_str("garbage\n"), Err(Error::MetadataParseError)));
    // no trailing newline on the last line
    assert!(matches!(
        Metadata::from_str("[build-system]\nrequires = [\"hatchling\"]"),
        Err(Error::MetadataParseError)
    ));
    // a dependency entry that is no valid specifier
    assert!(matches!(
        Metadata::from_str(
            "[build-system]\nrequires = [\"hatchling\"]\n\
             build-backend = \"hatchling.build\"\n\n[project]\nname = \"p\"\n\
             version = \"0.0.1\"\ndescription = \"\"\ndependencies = [\"9bad\"]\n"
        ),
        Err(Error::MetadataParseError)
    ));
}

#[test]
fn test_from_str_tolerates_missing_name() {
    let m = Metadata::from_str(
        "[build-system]\nrequires = [\"hatchling\"]\nbuild-backend = \"hatchling.build\"\n\n\
         [project]\nversion = \"0.0.1\"\ndescription = \"\"\ndependencies = []\n",
    )
    .unwrap();
    assert_eq!(m.name, "");
    assert_eq!(m.version, "0.0.1");
}

#[test]
fn test_from_str_reads_dependencies_and_scripts() {
    let m = Metadata::from_str(
        "[build-system]\nrequires = [\"hatchling\"]\nbuild-backend = \"hatchling.build\"\n\n\
         [project]\nname = \"demo\"\nversion = \"1.2.3\"\ndescription = \"x\"\n\
         dependencies = [\"a\", \"b>=2\"]\n\n[project.scripts]\ndemo = \"demo.main:main\"\n",
    )
    .unwrap();
    assert_eq!(m.dependencies.len(), 2);
    assert_eq!(m.dependencies[0].raw, "a");
    assert_eq!(m.dependencies[1].raw, "b>=2");
    assert_eq!(m.scripts.len(), 1);
    assert_eq!(m.scripts[0].name, "demo");
    assert_eq!(m.scripts[0].entrypoint, "demo.main:main");
}

#[test]
fn test_add_script_last_write_wins() {
    let mut m = Metadata::template();
    m.add_script("run", "pkg.main:main");
    m.add_script("run", "pkg.other:entry");
    assert_eq!(m.scripts.len(), 1);
    assert_eq!(m.scripts[0].name, "run");
    assert_eq!(m.scripts[0].entrypoint, "pkg.other:entry");
}

#[test]
fn test_set_project_name_touches_nothing_else() {
    let mut m = Metadata::template();
    m.add_script("run", "pkg.main:main");
    m.set_project_name(String::from("pkg"));
    assert_eq!(m.name, "pkg");
    assert_eq!(m.version, "0.0.1");
    assert_eq!(m.scripts.len(), 1);
    assert!(m.dependencies.is_empty());
}
