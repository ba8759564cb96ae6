//! The bill of materials: one component per package of a snapshot and the
//! dependency edges between the components, in the shape of a CycloneDX
//! document.

use crate::licenses::{LicenseMap, LicenseTable};
use crate::seqs::lemma_first_at_or_after;
use crate::snapshot::{first_named, names_of, LockSnapshot, LockSnapshotModel, Package, PackageModel};
use crate::text::{contains_text, contains_word, has_word, is_substring};
use vstd::prelude::*;
use vstd::string::*;

verus! {

/// A license named by its SPDX identifier or by a free name.
#[derive(Debug, Clone, PartialEq, Eq)]
pub struct LicenseChoice {
    pub id: Option<String>,
    pub name: Option<String>,
}

/// One license of a component: either a single license or an SPDX
/// expression.
#[derive(Debug, Clone, PartialEq, Eq)]
pub struct License {
    pub license: Option<LicenseChoice>,
    pub expression: Option<String>,
}

/// One component of the bill of materials.
#[derive(Debug, Clone, PartialEq, Eq)]
pub struct Component {
    pub component_type: String,
    pub name: String,
    pub version: String,
    pub purl: Option<String>,
    pub bom_ref: Option<String>,
    pub licenses: Option<Vec<License>>,
}

/// The direct dependencies of one component, by reference. `depends_on` is
/// absent where there is none, never present and empty.
#[derive(Debug, Clone, PartialEq, Eq)]
pub struct Dependency {
    pub reference: String,
    pub depends_on: Option<Vec<String>>,
}

/// A tool that took part in writing the document.
#[derive(Debug, Clone, PartialEq, Eq)]
pub struct Tool {
    pub vendor: String,
    pub name: String,
    pub version: String,
}

/// When and by what the document was written.
#[derive(Debug, Clone, PartialEq, Eq)]
pub struct Metadata {
    pub timestamp: String,
    pub tools: Vec<Tool>,
}

/// The bill of materials as a whole.
#[derive(Debug, Clone, PartialEq, Eq)]
pub struct CycloneDxBom {
    pub bom_format: String,
    pub spec_version: String,
    pub version: u32,
    pub metadata: Metadata,
    pub components: Vec<Component>,
    pub dependencies: Vec<Dependency>,
}

/// What a `LicenseChoice` holds, as mathematical values.
#[verifier::ext_equal]
pub struct LicenseChoiceModel {
    pub id: Option<Seq<char>>,
    pub name: Option<Seq<char>>,
}

/// What a `License` holds, as mathematical values.
#[verifier::ext_equal]
pub struct LicenseModel {
    pub license: Option<LicenseChoiceModel>,
    pub expression: Option<Seq<char>>,
}

/// What a `Component` holds, as mathematical values.
#[verifier::ext_equal]
pub struct ComponentModel {
    pub component_type: Seq<char>,
    pub name: Seq<char>,
    pub version: Seq<char>,
    pub purl: Option<Seq<char>>,
    pub bom_ref: Option<Seq<char>>,
    pub licenses: Option<Seq<LicenseModel>>,
}

/// What a `Dependency` holds, as mathematical values.
#[verifier::ext_equal]
pub struct DependencyModel {
    pub reference: Seq<char>,
    pub depends_on: Option<Seq<Seq<char>>>,
}

/// What a `Tool` holds, as mathematical values.
#[verifier::ext_equal]
pub struct ToolModel {
    pub vendor: Seq<char>,
    pub name: Seq<char>,
    pub version: Seq<char>,
}

/// What a `Metadata` holds, as mathematical values.
#[verifier::ext_equal]
pub struct MetadataModel {
    pub timestamp: Seq<char>,
    pub tools: Seq<ToolModel>,
}

/// What a `CycloneDxBom` holds, as mathematical values.
#[verifier::ext_equal]
pub struct BomModel {
    pub bom_format: Seq<char>,
    pub spec_version: Seq<char>,
    pub version: u32,
    pub metadata: MetadataModel,
    pub components: Seq<ComponentModel>,
    pub dependencies: Seq<DependencyModel>,
}

impl View for LicenseChoice {
    type V = LicenseChoiceModel;

    open spec fn view(&self) -> LicenseChoiceModel {
        LicenseChoiceModel { id: self.id.deep_view(), name: self.name.deep_view() }
    }
}

impl DeepView for LicenseChoice {
    type V = LicenseChoiceModel;

    open spec fn deep_view(&self) -> LicenseChoiceModel {
        self@
    }
}

impl View for License {
    type V = LicenseModel;

    open spec fn view(&self) -> LicenseModel {
        LicenseModel { license: self.license.deep_view(), expression: self.expression.deep_view() }
    }
}

impl DeepView for License {
    type V = LicenseModel;

    open spec fn deep_view(&self) -> LicenseModel {
        self@
    }
}

impl View for Component {
    type V = ComponentModel;

    open spec fn view(&self) -> ComponentModel {
        ComponentModel {
            component_type: self.component_type@,
            name: self.name@,
            version: self.version@,
            purl: self.purl.deep_view(),
            bom_ref: self.bom_ref.deep_view(),
            licenses: self.licenses.deep_view(),
        }
    }
}

impl DeepView for Component {
    type V = ComponentModel;

    open spec fn deep_view(&self) -> ComponentModel {
        self@
    }
}

impl View for Dependency {
    type V = DependencyModel;

    open spec fn view(&self) -> DependencyModel {
        DependencyModel { reference: self.reference@, depends_on: self.depends_on.deep_view() }
    }
}

impl DeepView for Dependency {
    type V = DependencyModel;

    open spec fn deep_view(&self) -> DependencyModel {
        self@
    }
}

impl View for Tool {
    type V = ToolModel;

    open spec fn view(&self) -> ToolModel {
        ToolModel { vendor: self.vendor@, name: self.name@, version: self.version@ }
    }
}

impl DeepView for Tool {
    type V = ToolModel;

    open spec fn deep_view(&self) -> ToolModel {
        self@
    }
}

impl View for Metadata {
    type V = MetadataModel;

    open spec fn view(&self) -> MetadataModel {
        MetadataModel { timestamp: self.timestamp@, tools: self.tools.deep_view() }
    }
}

impl DeepView for Metadata {
    type V = MetadataModel;

    open spec fn deep_view(&self) -> MetadataModel {
        self@
    }
}

impl View for CycloneDxBom {
    type V = BomModel;

    open spec fn view(&self) -> BomModel {
        BomModel {
            bom_format: self.bom_format@,
            spec_version: self.spec_version@,
            version: self.version,
            metadata: self.metadata@,
            components: self.components.deep_view(),
            dependencies: self.dependencies.deep_view(),
        }
    }
}

impl DeepView for CycloneDxBom {
    type V = BomModel;

    open spec fn deep_view(&self) -> BomModel {
        self@
    }
}

/// The package URL of a crate: a function of name and version alone.
pub open spec fn purl_of(name: Seq<char>, version: Seq<char>) -> Seq<char> {
    "pkg:cargo/"@ + name + "@"@ + version
}

/// The reference by which the document names a component: a function of
/// name and version alone.
pub open spec fn bom_ref_of(name: Seq<char>, version: Seq<char>) -> Seq<char> {
    name + "@"@ + version
}

/// A license text counts as an expression where it holds `OR` or `AND` as a
/// word of its own, with white space or an end of the text on either side,
/// or where it holds a `/`. A bracket does not end a word. Known limit: this
/// tells a compound from a single license by its look; it does not parse
/// SPDX.
pub open spec fn is_compound(license: Seq<char>) -> bool {
    has_word("OR"@, license) || has_word("AND"@, license) || is_substring("/"@, license)
}

/// The licenses of a component whose license text is `license`: an
/// expression kept as it stands, or a single license by identifier.
pub open spec fn licenses_of(license: Seq<char>) -> Seq<LicenseModel> {
    if is_compound(license) {
        seq![LicenseModel { license: None, expression: Some(license) }]
    } else {
        seq![
            LicenseModel {
                license: Some(LicenseChoiceModel { id: Some(license), name: None }),
                expression: None,
            },
        ]
    }
}

/// The component of a package. A package without an entry in the license
/// table gets no licenses.
pub open spec fn component_of(package: PackageModel, licenses: LicenseMap) -> ComponentModel {
    ComponentModel {
        component_type: "library"@,
        name: package.name,
        version: package.version,
        purl: Some(purl_of(package.name, package.version)),
        bom_ref: Some(bom_ref_of(package.name, package.version)),
        licenses: if licenses.contains_key((package.name, package.version)) {
            Some(licenses_of(licenses[(package.name, package.version)]))
        } else {
            None
        },
    }
}

/// The reference of the dependency named `name`: that of the first package
/// of the snapshot that bears the name, or none where no package bears it.
pub open spec fn reference_to(packages: Seq<PackageModel>, name: Seq<char>) -> Option<Seq<char>> {
    match first_named(packages, name) {
        Some(at) => Some(bom_ref_of(name, packages[at].version)),
        None => None,
    }
}

/// The references of the dependencies named in `names`, in that order,
/// without the names that no package of the snapshot bears. Known limit:
/// where the snapshot holds several versions of a dependency, the edge may
/// name another version than the one that was resolved for the dependent.
pub open spec fn resolved(packages: Seq<PackageModel>, names: Seq<Seq<char>>) -> Seq<Seq<char>> {
    names.filter_map(|name: Seq<char>| reference_to(packages, name))
}

/// The dependency edges of a package.
pub open spec fn edges_of(packages: Seq<PackageModel>, package: PackageModel) -> DependencyModel {
    let targets = resolved(packages, package.dependencies);
    DependencyModel {
        reference: bom_ref_of(package.name, package.version),
        depends_on: if targets.len() == 0 {
            None
        } else {
            Some(targets)
        },
    }
}

/// The components of a snapshot: one per package, in the order of the
/// packages.
pub open spec fn components_of(packages: Seq<PackageModel>, licenses: LicenseMap) -> Seq<ComponentModel> {
    packages.map_values(|package: PackageModel| component_of(package, licenses))
}

/// The dependency records of a snapshot: one per package, in the order of
/// the packages.
pub open spec fn dependencies_of(packages: Seq<PackageModel>) -> Seq<DependencyModel> {
    packages.map_values(|package: PackageModel| edges_of(packages, package))
}

/// The document for a snapshot.
pub open spec fn bom_of(snapshot: LockSnapshotModel, licenses: LicenseMap, timestamp: Seq<char>) -> BomModel {
    BomModel {
        bom_format: "CycloneDX"@,
        spec_version: "1.4"@,
        version: 1,
        metadata: MetadataModel {
            timestamp,
            tools: seq![
                ToolModel { vendor: "Custom"@, name: "cargo-sbom-generator"@, version: "1.0.0"@ },
            ],
        },
        components: components_of(snapshot.packages, licenses),
        dependencies: dependencies_of(snapshot.packages),
    }
}

/// The package URL of a crate.
pub fn package_url(name: &str, version: &str) -> (purl: String)
    ensures
        purl@ == purl_of(name@, version@),
{
    let mut purl = String::from_str("pkg:cargo/");
    purl.append(name);
    purl.append("@");
    purl.append(version);
    purl
}

/// The reference by which the document names a component.
pub fn bom_reference(name: &str, version: &str) -> (reference: String)
    ensures
        reference@ == bom_ref_of(name@, version@),
{
    let mut reference = String::from_str(name);
    reference.append("@");
    reference.append(version);
    reference
}

/// Sorts a license text into an SPDX expression or a single license.
pub fn parse_license_expression(license_str: &str) -> (licenses: Vec<License>)
    ensures
        licenses.deep_view() == licenses_of(license_str@),
{
    let mut licenses: Vec<License> = Vec::new();
    if contains_word(license_str, "OR") || contains_word(license_str, "AND") || contains_text(
        license_str,
        "/",
    ) {
        licenses.push(License { license: None, expression: Some(String::from_str(license_str)) });
    } else {
        licenses.push(
            License {
                license: Some(LicenseChoice { id: Some(String::from_str(license_str)), name: None }),
                expression: None,
            },
        );
    }
    licenses
}

/// The component of a package, with the licenses that the table holds for
/// its name and version.
pub fn build_component(package: &Package, licenses: &LicenseTable) -> (component: Component)
    ensures
        component@ == component_of(package@, licenses@),
{
    let found = match licenses.get(package.name.as_str(), package.version.as_str()) {
        Some(license) => Some(parse_license_expression(license.as_str())),
        None => None,
    };
    Component {
        component_type: String::from_str("library"),
        name: package.name.clone(),
        version: package.version.clone(),
        purl: Some(package_url(package.name.as_str(), package.version.as_str())),
        bom_ref: Some(bom_reference(package.name.as_str(), package.version.as_str())),
        licenses: found,
    }
}

/// The dependency record of a package within its snapshot.
pub fn resolve_dependencies(lockfile: &LockSnapshot, package: &Package) -> (record: Dependency)
    ensures
        record@ == edges_of(lockfile@.packages, package@),
{
    let ghost packages = lockfile@.packages;
    let ghost names = package.dependencies.deep_view();
    let ghost target_of = |name: Seq<char>| reference_to(packages, name);
    let mut depends_on: Vec<String> = Vec::new();
    let mut k: usize = 0;
    while k < package.dependencies.len()
        invariant
            k <= package.dependencies.len(),
            packages == lockfile@.packages,
            names == package.dependencies.deep_view(),
            target_of == |name: Seq<char>| reference_to(packages, name),
            depends_on.deep_view() == names.take(k as int).filter_map(target_of),
        decreases package.dependencies.len() - k,
    {
        let name = &package.dependencies[k];
        proof {
            names.lemma_filter_map_take_succ(target_of, k as int);
        }
        match lockfile.find_by_name(name.as_str()) {
            Some(at) => {
                proof {
                    lemma_first_at_or_after(names_of(packages), name@, 0);
                }
                let target = bom_reference(name.as_str(), lockfile.packages[at].version.as_str());
                depends_on.push(target);
            },
            None => {},
        }
        k += 1;
    }
    assert(names.take(package.dependencies.len() as int) =~= names);
    let reference = bom_reference(package.name.as_str(), package.version.as_str());
    if depends_on.len() == 0 {
        Dependency { reference, depends_on: None }
    } else {
        Dependency { reference, depends_on: Some(depends_on) }
    }
}

/// Writes the bill of materials of a snapshot: its components with the
/// licenses that the table holds for them, and their dependency edges.
/// `timestamp` is the time of writing as the caller read it from the clock.
pub fn generate_sbom_from_lockfile(
    lockfile: &LockSnapshot,
    licenses: &LicenseTable,
    timestamp: String,
) -> (bom: CycloneDxBom)
    ensures
        bom@ == bom_of(lockfile@, licenses@, timestamp@),
{
    let ghost packages = lockfile@.packages;
    let mut components: Vec<Component> = Vec::new();
    let mut dependencies: Vec<Dependency> = Vec::new();
    let mut i: usize = 0;
    while i < lockfile.packages.len()
        invariant
            i <= lockfile.packages.len(),
            packages == lockfile@.packages,
            components.len() == i,
            dependencies.len() == i,
            forall|j: int| 0 <= j < i ==> (#[trigger] components[j])@ == component_of(packages[j], licenses@),
            forall|j: int| 0 <= j < i ==> (#[trigger] dependencies[j])@ == edges_of(packages, packages[j]),
        decreases lockfile.packages.len() - i,
    {
        let package = &lockfile.packages[i];
        components.push(build_component(package, licenses));
        dependencies.push(resolve_dependencies(lockfile, package));
        i += 1;
    }
    let mut tools: Vec<Tool> = Vec::new();
    tools.push(
        Tool {
            vendor: String::from_str("Custom"),
            name: String::from_str("cargo-sbom-generator"),
            version: String::from_str("1.0.0"),
        },
    );
    CycloneDxBom {
        bom_format: String::from_str("CycloneDX"),
        spec_version: String::from_str("1.4"),
        version: 1,
        metadata: Metadata { timestamp, tools },
        components,
        dependencies,
    }
}

/// The bill of materials has one component per package, and the package
/// URL and the reference of a component are fixed by the name and the
/// version of its package.
pub proof fn lemma_one_component_per_package(packages: Seq<PackageModel>, licenses: LicenseMap)
    ensures
        components_of(packages, licenses).len() == packages.len(),
        dependencies_of(packages).len() == packages.len(),
        forall|i: int|
            0 <= i < packages.len() ==> {
                &&& (#[trigger] components_of(packages, licenses)[i]).name == packages[i].name
                &&& components_of(packages, licenses)[i].version == packages[i].version
                &&& components_of(packages, licenses)[i].purl == Some(
                    purl_of(packages[i].name, packages[i].version),
                )
                &&& components_of(packages, licenses)[i].bom_ref == Some(
                    bom_ref_of(packages[i].name, packages[i].version),
                )
            },
{
}

/// Two packages with the same name and version get the same package URL and
/// the same reference, in whatever snapshot and with whatever licenses.
pub proof fn lemma_identifiers_are_reproducible(
    a: PackageModel,
    b: PackageModel,
    licenses_a: LicenseMap,
    licenses_b: LicenseMap,
)
    requires
        a.name == b.name,
        a.version == b.version,
    ensures
        component_of(a, licenses_a).purl == component_of(b, licenses_b).purl,
        component_of(a, licenses_a).bom_ref == component_of(b, licenses_b).bom_ref,
{
}

/// Every resolved reference is the reference of a package of the snapshot,
/// and there are no more of them than names.
pub proof fn lemma_resolved_inside(packages: Seq<PackageModel>, names: Seq<Seq<char>>)
    ensures
        resolved(packages, names).len() <= names.len(),
        forall|k: int|
            0 <= k < resolved(packages, names).len() ==> exists|j: int|
                0 <= j < packages.len() && #[trigger] resolved(packages, names)[k] == bom_ref_of(
                    (#[trigger] packages[j]).name,
                    packages[j].version,
                ),
    decreases names.len(),
{
    if names.len() > 0 {
        lemma_resolved_inside(packages, names.drop_last());
        lemma_first_at_or_after(names_of(packages), names.last(), 0);
    }
}

/// A name that no package of the snapshot bears adds no reference.
pub proof fn lemma_unresolved_is_dropped(
    packages: Seq<PackageModel>,
    names: Seq<Seq<char>>,
    name: Seq<char>,
)
    requires
        forall|j: int| 0 <= j < packages.len() ==> (#[trigger] packages[j]).name != name,
    ensures
        resolved(packages, names.push(name)) == resolved(packages, names),
{
    lemma_first_at_or_after(names_of(packages), name, 0);
    assert(names.push(name).drop_last() =~= names);
}

/// Dependency edges stay inside the document: every reference that a
/// dependency record lists is the reference of a component of the same bill
/// of materials.
pub proof fn lemma_edges_stay_inside(packages: Seq<PackageModel>, licenses: LicenseMap, i: int, k: int)
    requires
        0 <= i < packages.len(),
        dependencies_of(packages)[i].depends_on is Some,
        0 <= k < dependencies_of(packages)[i].depends_on->0.len(),
    ensures
        exists|j: int|
            0 <= j < packages.len() && (#[trigger] components_of(packages, licenses)[j]).bom_ref
                == Some(dependencies_of(packages)[i].depends_on->0[k]),
{
    lemma_resolved_inside(packages, packages[i].dependencies);
    let targets = resolved(packages, packages[i].dependencies);
    let j = choose|j: int|
        0 <= j < packages.len() && #[trigger] targets[k] == bom_ref_of(
            (#[trigger] packages[j]).name,
            packages[j].version,
        );
    assert(components_of(packages, licenses)[j].bom_ref == Some(targets[k]));
}

} // verus!
