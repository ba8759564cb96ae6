use lockscan::licenses::{collect_licenses, LicenseTable, MetadataRow};
use lockscan::sbom::{
    bom_reference, build_component, generate_sbom_from_lockfile, package_url, parse_license_expression,
    resolve_dependencies, License, LicenseChoice,
};
use lockscan::snapshot::{LockSnapshot, Package};

fn package(name: &str, version: &str, dependencies: &[&str]) -> Package {
    Package::new(
        name.to_string(),
        version.to_string(),
        dependencies.iter().map(|d| d.to_string()).collect(),
    )
}

fn expression(text: &str) -> Vec<License> {
    vec![License { license: None, expression: Some(text.to_string()) }]
}

fn single(text: &str) -> Vec<License> {
    vec![License { license: Some(LicenseChoice { id: Some(text.to_string()), name: None }), expression: None }]
}

fn row(name: Option<&str>, version: Option<&str>, license: Option<&str>) -> MetadataRow {
    MetadataRow {
        name: name.map(|s| s.to_string()),
        version: version.map(|s| s.to_string()),
        license: license.map(|s| s.to_string()),
    }
}

#[test]
fn compound_license_is_an_expression() {
    assert_eq!(parse_license_expression("MIT OR Apache-2.0"), expression("MIT OR Apache-2.0"));
    assert_eq!(parse_license_expression("MIT AND Zlib"), expression("MIT AND Zlib"));
    assert_eq!(parse_license_expression("MIT/Apache-2.0"), expression("MIT/Apache-2.0"));
    assert_eq!(parse_license_expression("(MIT OR Apache-2.0) AND BSD-3-Clause"), expression("(MIT OR Apache-2.0) AND BSD-3-Clause"));
    assert_eq!(parse_license_expression("/"), expression("/"));
}

#[test]
fn single_license_is_an_identifier() {
    assert_eq!(parse_license_expression("MIT"), single("MIT"));
    assert_eq!(parse_license_expression("Apache-2.0"), single("Apache-2.0"));
    assert_eq!(parse_license_expression(""), single(""));
}

#[test]
fn operators_count_only_as_whole_words() {
    assert_eq!(parse_license_expression("ORANGE"), single("ORANGE"));
    assert_eq!(parse_license_expression("MIT or Apache-2.0"), single("MIT or Apache-2.0"));
    assert_eq!(parse_license_expression("BRAND-1.0"), single("BRAND-1.0"));
    assert_eq!(parse_license_expression("MIT WITH exception"), single("MIT WITH exception"));
    assert_eq!(parse_license_expression("MITOR Apache-2.0"), single("MITOR Apache-2.0"));
    assert_eq!(parse_license_expression("MIT ORApache-2.0"), single("MIT ORApache-2.0"));
    assert_eq!(parse_license_expression("XAND Y"), single("XAND Y"));
    assert_eq!(parse_license_expression("MIT AND-Zlib"), single("MIT AND-Zlib"));
}

#[test]
fn operator_is_a_word_at_an_end_of_the_text() {
    assert_eq!(parse_license_expression("MIT OR"), expression("MIT OR"));
    assert_eq!(parse_license_expression("OR MIT"), expression("OR MIT"));
    assert_eq!(parse_license_expression("MIT AND"), expression("MIT AND"));
    assert_eq!(parse_license_expression("AND MIT"), expression("AND MIT"));
    assert_eq!(parse_license_expression("OR"), expression("OR"));
    assert_eq!(parse_license_expression("AND"), expression("AND"));
}

#[test]
fn operator_is_a_word_between_any_white_space() {
    assert_eq!(
        parse_license_expression("MIT\tOR\tApache-2.0"),
        expression("MIT\tOR\tApache-2.0")
    );
    assert_eq!(parse_license_expression("MIT\nAND\nZlib"), expression("MIT\nAND\nZlib"));
    assert_eq!(parse_license_expression("MIT OR\tZlib"), expression("MIT OR\tZlib"));
    assert_eq!(
        parse_license_expression("MIT\u{a0}OR\u{2003}Zlib"),
        expression("MIT\u{a0}OR\u{2003}Zlib")
    );
    assert_eq!(parse_license_expression("ORB OR"), expression("ORB OR"));
}

#[test]
fn bracket_does_not_end_a_word() {
    assert_eq!(parse_license_expression("(MIT)OR(Zlib)"), single("(MIT)OR(Zlib)"));
    assert_eq!(parse_license_expression("(OR)"), single("(OR)"));
    assert_eq!(parse_license_expression("(MIT OR Zlib)"), expression("(MIT OR Zlib)"));
}

#[test]
fn identifiers_are_written_from_name_and_version() {
    assert_eq!(package_url("serde", "1.0.219"), "pkg:cargo/serde@1.0.219");
    assert_eq!(bom_reference("serde", "1.0.219"), "serde@1.0.219");
    assert_eq!(package_url("", ""), "pkg:cargo/@");
    assert_eq!(bom_reference("", ""), "@");
    assert_eq!(package_url("tokio-util", "0.7.0-rc.1+x"), "pkg:cargo/tokio-util@0.7.0-rc.1+x");
}

#[test]
fn one_component_per_package_with_fixed_identifiers() {
    let lockfile = LockSnapshot::new(vec![
        package("A", "1.0.0", &["B"]),
        package("B", "2.0.0", &[]),
        package("B", "3.0.0", &[]),
    ]);
    let licenses = LicenseTable::new();
    let first = generate_sbom_from_lockfile(&lockfile, &licenses, "2024-01-01T00:00:00+00:00".to_string());
    let second = generate_sbom_from_lockfile(&lockfile, &licenses, "2025-06-30T12:00:00+00:00".to_string());
    assert_eq!(first.components.len(), lockfile.package_count());
    assert_eq!(first.dependencies.len(), 3);
    assert_eq!(first.components, second.components);
    assert_eq!(first.dependencies, second.dependencies);
    assert_eq!(first.components[0].purl, Some("pkg:cargo/A@1.0.0".to_string()));
    assert_eq!(first.components[0].bom_ref, Some("A@1.0.0".to_string()));
    assert_eq!(first.components[2].purl, Some("pkg:cargo/B@3.0.0".to_string()));
    assert_eq!(first.components[2].bom_ref, Some("B@3.0.0".to_string()));
    assert_eq!(first.components[1].component_type, "library");
    assert_eq!(first.components[1].name, "B");
    assert_eq!(first.components[1].version, "2.0.0");
    assert_eq!(first.components[1].licenses, None);
}

#[test]
fn end_to_end_two_components_one_edge() {
    let lockfile = LockSnapshot::new(vec![package("A", "1.0.0", &["B"]), package("B", "2.0.0", &[])]);
    let bom = generate_sbom_from_lockfile(&lockfile, &LicenseTable::new(), "now".to_string());
    assert_eq!(bom.components.len(), 2);
    assert_eq!(bom.dependencies.len(), 2);
    assert_eq!(bom.dependencies[0].reference, "A@1.0.0");
    assert_eq!(bom.dependencies[0].depends_on, Some(vec!["B@2.0.0".to_string()]));
    assert_eq!(bom.dependencies[1].reference, "B@2.0.0");
    assert_eq!(bom.dependencies[1].depends_on, None);
}

#[test]
fn document_header_is_fixed() {
    let bom = generate_sbom_from_lockfile(
        &LockSnapshot::new(Vec::new()),
        &LicenseTable::new(),
        "2024-05-06T07:08:09+00:00".to_string(),
    );
    assert_eq!(bom.bom_format, "CycloneDX");
    assert_eq!(bom.spec_version, "1.4");
    assert_eq!(bom.version, 1);
    assert_eq!(bom.metadata.timestamp, "2024-05-06T07:08:09+00:00");
    assert_eq!(bom.metadata.tools.len(), 1);
    assert_eq!(bom.metadata.tools[0].vendor, "Custom");
    assert_eq!(bom.metadata.tools[0].name, "cargo-sbom-generator");
    assert_eq!(bom.metadata.tools[0].version, "1.0.0");
    assert!(bom.components.is_empty());
    assert!(bom.dependencies.is_empty());
}

#[test]
fn dependency_absent_from_the_snapshot_is_dropped() {
    let lockfile = LockSnapshot::new(vec![
        package("A", "1.0.0", &["ghost", "B", "phantom"]),
        package("B", "2.0.0", &["ghost"]),
    ]);
    let a = resolve_dependencies(&lockfile, &lockfile.packages[0]);
    assert_eq!(a.reference, "A@1.0.0");
    assert_eq!(a.depends_on, Some(vec!["B@2.0.0".to_string()]));
    let b = resolve_dependencies(&lockfile, &lockfile.packages[1]);
    assert_eq!(b.reference, "B@2.0.0");
    assert_eq!(b.depends_on, None);
}

#[test]
fn edges_name_components_of_the_same_document() {
    let lockfile = LockSnapshot::new(vec![
        package("A", "1.0.0", &["B", "C", "missing"]),
        package("B", "2.0.0", &["C"]),
        package("C", "0.1.0", &["A"]),
    ]);
    let bom = generate_sbom_from_lockfile(&lockfile, &LicenseTable::new(), "t".to_string());
    let known: Vec<String> = bom.components.iter().map(|c| c.bom_ref.clone().unwrap()).collect();
    for record in &bom.dependencies {
        assert!(known.contains(&record.reference));
        if let Some(targets) = &record.depends_on {
            assert!(!targets.is_empty());
            for target in targets {
                assert!(known.contains(target));
            }
        }
    }
    assert_eq!(bom.dependencies[0].depends_on, Some(vec!["B@2.0.0".to_string(), "C@0.1.0".to_string()]));
}

#[test]
fn dependency_resolves_to_the_first_version_of_a_name() {
    let lockfile = LockSnapshot::new(vec![
        package("A", "1.0.0", &["B", "B"]),
        package("B", "2.0.0", &[]),
        package("B", "1.0.0", &[]),
    ]);
    assert_eq!(lockfile.find_by_name("B"), Some(1));
    let record = resolve_dependencies(&lockfile, &lockfile.packages[0]);
    assert_eq!(record.depends_on, Some(vec!["B@2.0.0".to_string(), "B@2.0.0".to_string()]));
}

#[test]
fn licenses_come_from_the_table() {
    let mut licenses = LicenseTable::new();
    licenses.insert("A".to_string(), "1.0.0".to_string(), "MIT".to_string());
    licenses.insert("B".to_string(), "2.0.0".to_string(), "MIT OR Apache-2.0".to_string());
    licenses.insert("B".to_string(), "9.9.9".to_string(), "GPL-3.0".to_string());
    let lockfile = LockSnapshot::new(vec![
        package("A", "1.0.0", &[]),
        package("B", "2.0.0", &[]),
        package("C", "3.0.0", &[]),
        package("A", "1.0.1", &[]),
    ]);
    let bom = generate_sbom_from_lockfile(&lockfile, &licenses, "t".to_string());
    assert_eq!(bom.components[0].licenses, Some(single("MIT")));
    assert_eq!(bom.components[1].licenses, Some(expression("MIT OR Apache-2.0")));
    assert_eq!(bom.components[2].licenses, None);
    assert_eq!(bom.components[3].licenses, None);
    let component = build_component(&lockfile.packages[1], &licenses);
    assert_eq!(component, bom.components[1]);
}

#[test]
fn later_license_entry_replaces_earlier() {
    let mut licenses = LicenseTable::new();
    assert_eq!(licenses.get("A", "1.0.0"), None);
    licenses.insert("A".to_string(), "1.0.0".to_string(), "MIT".to_string());
    licenses.insert("A".to_string(), "2.0.0".to_string(), "ISC".to_string());
    licenses.insert("A".to_string(), "1.0.0".to_string(), "Apache-2.0".to_string());
    assert_eq!(licenses.get("A", "1.0.0"), Some(&"Apache-2.0".to_string()));
    assert_eq!(licenses.get("A", "2.0.0"), Some(&"ISC".to_string()));
    assert_eq!(licenses.get("A", "3.0.0"), None);
    assert_eq!(licenses.get("1.0.0", "A"), None);
}

#[test]
fn incomplete_metadata_rows_are_passed_over() {
    let rows = vec![
        row(Some("A"), Some("1.0.0"), Some("MIT")),
        row(Some("B"), Some("1.0.0"), None),
        row(Some("C"), None, Some("MIT")),
        row(None, Some("1.0.0"), Some("MIT")),
        row(Some("D"), Some("0.1.0"), Some("MIT/Apache-2.0")),
        row(Some("A"), Some("1.0.0"), Some("BSD-2-Clause")),
        row(None, None, None),
    ];
    let licenses = collect_licenses(&rows);
    assert_eq!(licenses.get("A", "1.0.0"), Some(&"BSD-2-Clause".to_string()));
    assert_eq!(licenses.get("B", "1.0.0"), None);
    assert_eq!(licenses.get("C", ""), None);
    assert_eq!(licenses.get("D", "0.1.0"), Some(&"MIT/Apache-2.0".to_string()));
    let empty = collect_licenses(&Vec::new());
    assert_eq!(empty.get("A", "1.0.0"), None);
}
