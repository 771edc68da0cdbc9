use huak::dependency::{Dependency, VersionOp};
use huak::error::Error;
use huak::name::{default_entrypoint_string, importable_package_name, last_path_component};

#[test]
fn test_parse_valid_specifiers_round_trip_raw() {
    let corpus = [
        "requests",
        "a",
        "pkg_name",
        "pkg-name.ext",
        "requests==2.28.1",
        "uvicorn[standard]>=0.20",
        "x[a,b,c]~=1.0.0",
        "torch<2",
        "flask!=1.0",
        "numpy<=1.26",
        "pandas>1",
        "z[one]==0.1.*",
    ];
    for raw in corpus {
        let dep = Dependency::from_str(raw).unwrap();
        assert_eq!(dep.raw, raw);
    }
}

#[test]
fn test_parse_structures_the_specifier() {
    let dep = Dependency::from_str("uvicorn[standard,dotenv]>=0.20").unwrap();
    assert_eq!(dep.name, "uvicorn");
    assert_eq!(dep.extras, vec![String::from("standard"), String::from("dotenv")]);
    let version = dep.version.unwrap();
    assert!(matches!(version.op, VersionOp::GreaterEq));
    assert_eq!(version.value, "0.20");

    let bare = Dependency::from_str("requests").unwrap();
    assert_eq!(bare.name, "requests");
    assert!(bare.extras.is_empty());
    assert!(bare.version.is_none());
}

#[test]
fn test_parse_invalid_specifiers_fail() {
    let corpus = ["", "9lives", "-dash", "foo[", "foo[]", "foo[a", "foo[a,", "foo==", "foo bar", "foo=1"];
    for raw in corpus {
        let r = Dependency::from_str(raw);
        assert!(matches!(r, Err(Error::DependencyParseError(_))), "accepted: {raw}");
    }
}

#[test]
fn test_last_path_component() {
    assert_eq!(last_path_component("/a/b/mock-project").unwrap(), "mock-project");
    assert_eq!(last_path_component("/x/mock-project").unwrap(), "mock-project");
    assert_eq!(last_path_component("relative/dir/").unwrap(), "dir");
    assert_eq!(last_path_component("plain").unwrap(), "plain");
    assert!(matches!(last_path_component(""), Err(Error::InternalError(_))));
    assert!(matches!(last_path_component("///"), Err(Error::InternalError(_))));
}

#[test]
fn test_importable_package_name() {
    assert_eq!(importable_package_name("mock-project").unwrap(), "mock_project");
    assert_eq!(importable_package_name("a.b-c_d").unwrap(), "a_b_c_d");
    assert_eq!(importable_package_name("plain").unwrap(), "plain");
    assert!(matches!(importable_package_name(""), Err(Error::InternalError(_))));
    assert!(matches!(importable_package_name("9lives"), Err(Error::InternalError(_))));
    assert!(matches!(importable_package_name("has space"), Err(Error::InternalError(_))));
}

#[test]
fn test_default_entrypoint_string() {
    assert_eq!(default_entrypoint_string("mock_project"), "mock_project.main:main");
}
