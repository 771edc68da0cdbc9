use huak::cli;
use huak::error::Error;

#[test]
fn test_domain_error_messages() {
    assert_eq!(
        Error::MetadataFileFound.message(),
        "a project description file already exists"
    );
    assert_eq!(
        Error::IOError(String::from("disk full")).message(),
        "io error: disk full"
    );
    assert_eq!(
        Error::DependencyParseError(String::from("9bad")).message(),
        "malformed dependency specifier: 9bad"
    );
    assert_eq!(
        Error::EnvVarError(String::from("HOME unset")).message(),
        "environment variable error: HOME unset"
    );
    assert_eq!(
        Error::ArgumentError(String::from("unknown flag")).message(),
        "argument error: unknown flag"
    );
}

#[test]
fn test_cli_error_message_names_code_and_cause() {
    let e = cli::Error::new(Error::MetadataFileFound, 1);
    assert_eq!(
        e.message(),
        "huak exited with code 1: a project description file already exists"
    );
    let e = cli::Error::new(Error::InternalError(String::from("boom")), 101);
    assert_eq!(e.message(), "huak exited with code 101: internal error: boom");
    let e = cli::Error::new(Error::MetadataNotFound, 42);
    assert_eq!(
        e.message(),
        "huak exited with code 42: no project description file was found"
    );
}

#[test]
fn test_cli_error_from_wraps_with_failure_code() {
    let e = cli::Error::from(Error::MetadataNotFound);
    assert_eq!(e.exit_code, cli::EXIT_FAILURE);
    assert!(matches!(e.error, Error::MetadataNotFound));
}
