use gravedigger::npm::{extract_npm_deps, NpmDep, NpmLock, NpmPkg};

#[test]
fn test_extract_npm_deps_v3_format() {
    let lock = NpmLock {
        packages: Some(vec![
            (
                "node_modules/foo".into(),
                NpmPkg {
                    version: Some("1.0.0".into()),
                },
            ),
            (
                "node_modules/bar".into(),
                NpmPkg {
                    version: Some("2.0.0".into()),
                },
            ),
            (
                "".into(),
                NpmPkg {
                    version: Some("1.0.0".into()),
                },
            ), // root = skip
        ]),
        dependencies: None,
    };
    let deps = extract_npm_deps(&lock);
    assert_eq!(deps.len(), 2);
    assert!(deps.contains(&("foo".into(), "1.0.0".into())));
    assert!(deps.contains(&("bar".into(), "2.0.0".into())));
}

#[test]
fn test_extract_npm_deps_v1_format() {
    let lock = NpmLock {
        packages: None,
        dependencies: Some(vec![
            (
                "foo".into(),
                NpmDep {
                    version: "1.0.0".into(),
                },
            ),
            (
                "bar".into(),
                NpmDep {
                    version: "2.0.0".into(),
                },
            ),
        ]),
    };
    let deps = extract_npm_deps(&lock);
    assert_eq!(deps.len(), 2);
    assert!(deps.contains(&("foo".into(), "1.0.0".into())));
    assert!(deps.contains(&("bar".into(), "2.0.0".into())));
}

#[test]
fn test_extract_npm_deps_empty() {
    let lock = NpmLock {
        packages: Some(vec![]),
        dependencies: None,
    };
    let deps = extract_npm_deps(&lock);
    assert!(deps.is_empty());
}

#[test]
fn test_extract_npm_deps_nested_not_deduped() {
    let lock = NpmLock {
        packages: Some(vec![
            (
                "node_modules/foo".into(),
                NpmPkg {
                    version: Some("1.0.0".into()),
                },
            ),
            (
                "node_modules/other/node_modules/foo".into(),
                NpmPkg {
                    version: Some("2.0.0".into()),
                },
            ),
        ]),
        dependencies: None,
    };
    // Nested node_modules are different versions, keep both
    let deps = extract_npm_deps(&lock);
    assert_eq!(deps.len(), 2);
}
