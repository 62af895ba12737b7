use typst_html::package::{
    PackageError, PackageInfo, PackageManifest, PackageSpec, PackageVersion, TemplateInfo,
    VersionBound, VersionPart, VersionlessPackageSpec,
};

#[test]
fn version_version_match() {
    let v1_1_1 = PackageVersion::from_str("1.1.1").unwrap();

    assert!(v1_1_1.matches_eq(&VersionBound::from_str("1").unwrap()));
    assert!(v1_1_1.matches_eq(&VersionBound::from_str("1.1").unwrap()));
    assert!(!v1_1_1.matches_eq(&VersionBound::from_str("1.2").unwrap()));

    assert!(!v1_1_1.matches_gt(&VersionBound::from_str("1").unwrap()));
    assert!(v1_1_1.matches_gt(&VersionBound::from_str("1.0").unwrap()));
    assert!(!v1_1_1.matches_gt(&VersionBound::from_str("1.1").unwrap()));

    assert!(!v1_1_1.matches_lt(&VersionBound::from_str("1").unwrap()));
    assert!(!v1_1_1.matches_lt(&VersionBound::from_str("1.1").unwrap()));
    assert!(v1_1_1.matches_lt(&VersionBound::from_str("1.2").unwrap()));
}

#[test]
fn version_parse_ok() {
    let v = PackageVersion::from_str("0.13.1").unwrap();
    assert_eq!(v, PackageVersion { major: 0, minor: 13, patch: 1 });
    // Leading zeros are accepted.
    let v = PackageVersion::from_str("01.002.3").unwrap();
    assert_eq!(v, PackageVersion { major: 1, minor: 2, patch: 3 });
    let v = PackageVersion::from_str("4294967295.0.0").unwrap();
    assert_eq!(v.major, u32::MAX);
}

#[test]
fn version_parse_errors() {
    assert_eq!(
        PackageVersion::from_str(""),
        Err(PackageError::MissingVersionPart(VersionPart::Major))
    );
    assert_eq!(
        PackageVersion::from_str("1"),
        Err(PackageError::MissingVersionPart(VersionPart::Minor))
    );
    assert_eq!(
        PackageVersion::from_str("1.2"),
        Err(PackageError::MissingVersionPart(VersionPart::Patch))
    );
    assert_eq!(
        PackageVersion::from_str("1..2"),
        Err(PackageError::MissingVersionPart(VersionPart::Minor))
    );
    assert_eq!(
        PackageVersion::from_str("1.2.x"),
        Err(PackageError::InvalidVersionPart(VersionPart::Patch))
    );
    // A part that does not fit the version type is invalid.
    assert_eq!(
        PackageVersion::from_str("4294967296.0.0"),
        Err(PackageError::InvalidVersionPart(VersionPart::Major))
    );
    assert_eq!(
        PackageVersion::from_str("1.2.3.4"),
        Err(PackageError::ExtraVersionComponent)
    );
}

#[test]
fn bound_parse() {
    let b = VersionBound::from_str("1").unwrap();
    assert_eq!(b, VersionBound { major: 1, minor: None, patch: None });
    let b = VersionBound::from_str("1.2").unwrap();
    assert_eq!(b, VersionBound { major: 1, minor: Some(2), patch: None });
    let b = VersionBound::from_str("1.2.3").unwrap();
    assert_eq!(b, VersionBound { major: 1, minor: Some(2), patch: Some(3) });
    assert_eq!(
        VersionBound::from_str(""),
        Err(PackageError::InvalidVersionPart(VersionPart::Major))
    );
    assert_eq!(
        VersionBound::from_str("1."),
        Err(PackageError::InvalidVersionPart(VersionPart::Minor))
    );
    assert_eq!(
        VersionBound::from_str("1.2.3.4"),
        Err(PackageError::ExtraVersionComponent)
    );
}

#[test]
fn version_repr_round_trip() {
    let v = PackageVersion::from_str("1.20.3").unwrap();
    assert_eq!(v.repr(), "1.20.3");
    assert_eq!(PackageVersion::from_str(&v.repr()).unwrap(), v);
    assert_eq!(VersionBound::from_str("1.2").unwrap().repr(), "1.2");
    assert_eq!(VersionBound::from_str("7").unwrap().repr(), "7");
}

#[test]
fn spec_parse() {
    let s = PackageSpec::from_str("@preview/example:0.1.0").unwrap();
    assert_eq!(s.namespace, "preview");
    assert_eq!(s.name, "example");
    assert_eq!(s.version, PackageVersion { major: 0, minor: 1, patch: 0 });
    assert_eq!(s.repr(), "@preview/example:0.1.0");

    assert_eq!(
        PackageSpec::from_str("preview/example:0.1.0"),
        Err(PackageError::MissingAtSign)
    );
    assert_eq!(
        PackageSpec::from_str("@/example:0.1.0"),
        Err(PackageError::MissingNamespace)
    );
    assert_eq!(
        PackageSpec::from_str("@pre view/example:0.1.0"),
        Err(PackageError::InvalidNamespace)
    );
    assert_eq!(
        PackageSpec::from_str("@preview/:0.1.0"),
        Err(PackageError::MissingName)
    );
    assert_eq!(
        PackageSpec::from_str("@preview/exa mple:0.1.0"),
        Err(PackageError::InvalidName)
    );
    assert_eq!(
        PackageSpec::from_str("@preview/example"),
        Err(PackageError::MissingVersion)
    );
    assert_eq!(
        PackageSpec::from_str("@preview/example:0.1"),
        Err(PackageError::MissingVersionPart(VersionPart::Patch))
    );
}

#[test]
fn versionless_parse_and_at() {
    let v = VersionlessPackageSpec::from_str("@preview/example").unwrap();
    assert_eq!(v.namespace, "preview");
    assert_eq!(v.name, "example");
    assert_eq!(v.repr(), "@preview/example");
    let full = v.at(PackageVersion { major: 1, minor: 2, patch: 3 });
    assert_eq!(full.repr(), "@preview/example:1.2.3");
    assert_eq!(full.versionless().repr(), "@preview/example");

    assert_eq!(
        VersionlessPackageSpec::from_str("@preview/example:1.0.0"),
        Err(PackageError::UnexpectedVersion)
    );
}

fn manifest(name: &str, version: &str, compiler: Option<&str>) -> PackageManifest {
    PackageManifest {
        package: PackageInfo {
            name: name.to_owned(),
            version: PackageVersion::from_str(version).unwrap(),
            entrypoint: "lib.typ".to_owned(),
            compiler: compiler.map(|c| VersionBound::from_str(c).unwrap()),
        },
        template: None,
    }
}

#[test]
fn manifest_validate() {
    let spec = PackageSpec::from_str("@preview/example:0.1.0").unwrap();
    assert_eq!(manifest("example", "0.1.0", None).validate(&spec), Ok(()));
    assert_eq!(
        manifest("other", "0.1.0", None).validate(&spec),
        Err(PackageError::MismatchedName)
    );
    assert_eq!(
        manifest("example", "0.2.0", None).validate(&spec),
        Err(PackageError::MismatchedVersion)
    );
    // The current compiler satisfies an old enough bound ...
    assert_eq!(manifest("example", "0.1.0", Some("0.13")).validate(&spec), Ok(()));
    // ... but not one newer than itself.
    assert_eq!(
        manifest("example", "0.1.0", Some("99")).validate(&spec),
        Err(PackageError::IncompatibleCompiler)
    );
}

#[test]
fn manifest_template() {
    let m = PackageManifest {
        package: PackageInfo {
            name: "example".to_owned(),
            version: PackageVersion { major: 0, minor: 1, patch: 0 },
            entrypoint: "lib.typ".to_owned(),
            compiler: None,
        },
        template: Some(TemplateInfo {
            path: "template".to_owned(),
            entrypoint: "main.typ".to_owned(),
        }),
    };
    assert_eq!(m.template.as_ref().unwrap().path, "template");
}

#[test]
fn compiler_version() {
    let current = PackageVersion::compiler();
    assert_eq!(current, PackageVersion { major: 0, minor: 13, patch: 1 });
    assert!(current.matches_ge(&VersionBound::from_str("0.13").unwrap()));
    assert!(current.matches_le(&VersionBound::from_str("0.13").unwrap()));
}
