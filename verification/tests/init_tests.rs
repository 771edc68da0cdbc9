use huak::error::Error;
use huak::metadata::default_pyproject_toml_contents;
use huak::ops::{init_app_project, init_lib_project};
use huak::workspace::{Config, FileSystem, GitHook, Verbosity, WorkspaceOptions};

fn test_config(root: &str) -> Config {
    Config::new(String::from(root), String::from(root), Verbosity::Quiet)
}

fn empty_fs() -> FileSystem {
    FileSystem { pyproject: None, git: GitHook::Works, git_initialized: false }
}

#[test]
fn test_init_lib_project() {
    let config = test_config("/tmp/sandbox/mock-project");
    let options = WorkspaceOptions { uses_git: false };
    let mut fs = empty_fs();
    init_lib_project(&config, &options, &mut fs).unwrap();

    let ws = config.workspace();
    let metadata = ws.current_local_metadata(&fs).unwrap();

    assert_eq!(
        metadata.to_string_pretty(),
        default_pyproject_toml_contents("mock-project")
    );
}

#[test]
fn test_init_app_project() {
    let config = test_config("/tmp/sandbox/mock-project");
    let options = WorkspaceOptions { uses_git: false };
    let mut fs = empty_fs();

    init_app_project(&config, &options, &mut fs).unwrap();

    let ws = config.workspace();
    let metadata = ws.current_local_metadata(&fs).unwrap();

    assert_eq!(
        metadata.to_string_pretty(),
        "[build-system]\nrequires = [\"hatchling\"]\nbuild-backend = \"hatchling.build\"\n\n\
         [project]\nname = \"mock-project\"\nversion = \"0.0.1\"\ndescription = \"\"\n\
         dependencies = []\n\n[project.scripts]\nmock-project = \"mock_project.main:main\"\n"
    );
}

#[test]
fn test_app_init_adds_exactly_one_script() {
    let config = test_config("/w/mock-project");
    let options = WorkspaceOptions { uses_git: false };
    let mut fs = empty_fs();
    init_app_project(&config, &options, &mut fs).unwrap();

    let metadata = config.workspace().current_local_metadata(&fs).unwrap().metadata;
    assert_eq!(metadata.scripts.len(), 1);
    assert_eq!(metadata.scripts[0].name, "mock-project");
    assert_eq!(metadata.scripts[0].entrypoint, "mock_project.main:main");
    assert!(metadata.dependencies.is_empty());
}

#[test]
fn test_existence_guard_second_init_fails() {
    let config = test_config("/w/mock-project");
    let options = WorkspaceOptions { uses_git: false };
    let mut fs = empty_fs();
    init_lib_project(&config, &options, &mut fs).unwrap();
    let first = fs.pyproject.clone().unwrap();

    let second = init_lib_project(&config, &options, &mut fs);
    assert!(matches!(second, Err(Error::MetadataFileFound)));
    assert_eq!(fs.pyproject.clone().unwrap(), first);
}

#[test]
fn test_git_failure_leaves_no_file() {
    let config = test_config("/w/mock-project");
    let options = WorkspaceOptions { uses_git: true };
    let mut fs = FileSystem { pyproject: None, git: GitHook::Fails, git_initialized: false };
    let r = init_lib_project(&config, &options, &mut fs);
    assert!(matches!(r, Err(Error::GitError(_))));
    assert!(fs.pyproject.is_none());
    assert!(!fs.git_initialized);
}

#[test]
fn test_git_init_runs_on_creation() {
    let config = test_config("/w/mock-project");
    let options = WorkspaceOptions { uses_git: true };
    let mut fs = empty_fs();
    init_lib_project(&config, &options, &mut fs).unwrap();
    assert!(fs.git_initialized);
}

#[test]
fn test_init_root_without_component_fails() {
    let config = test_config("///");
    let options = WorkspaceOptions { uses_git: false };
    let mut fs = empty_fs();
    let r = init_lib_project(&config, &options, &mut fs);
    assert!(matches!(r, Err(Error::InternalError(_))));
    assert!(fs.pyproject.is_none());
}

#[test]
fn test_app_init_rejects_unparseable_name() {
    // a root whose final component is no valid dependency specifier
    let config = test_config("/w/9lives");
    let options = WorkspaceOptions { uses_git: false };
    let mut fs = empty_fs();
    let r = init_app_project(&config, &options, &mut fs);
    assert!(matches!(r, Err(Error::DependencyParseError(_))));
    // the library-init step stays in place: no rollback
    assert_eq!(
        fs.pyproject.unwrap(),
        default_pyproject_toml_contents("9lives")
    );
}
