//! CycloneDX 1.6 SBOM output for scan results.
//!
//! Each scanned package becomes a `component`, and any CVEs become
//! `vulnerabilities`.

use crate::clock::{now, rfc3339_text, timestamp, Moment};
use crate::sbom_diff::{
    component_of, resolved, resolved_from, ComponentRawView, ComponentView, Property,
};
use crate::text::{same, Text};
use crate::types::{PackageResult, PackageView, VulnInfo, VulnView};
use vstd::prelude::*;

verus! {

// ── Structs ──────────────────────────────────────────────────────────

/// A bill of materials.
#[derive(Debug)]
pub struct Sbom {
    pub bom_format: String,
    pub spec_version: String,
    pub version: u32,
    pub serial_number: String,
    pub timestamp: String,
    pub tool: Tool,
    pub components: Vec<SbomComponent>,
    pub vulnerabilities: Vec<SbomVuln>,
}

/// The tool that made a bill of materials.
#[derive(Debug)]
pub struct Tool {
    pub vendor: String,
    pub name: String,
    pub version: String,
}

/// A component in a bill of materials.
#[derive(Debug)]
pub struct SbomComponent {
    pub kind: String,
    pub bom_ref: String,
    pub name: String,
    pub version: String,
    pub description: String,
    pub purl: String,
    pub properties: Vec<Property>,
}

/// A vulnerability in a bill of materials, with its severity and the
/// reference of the component that it affects.
#[derive(Debug)]
pub struct SbomVuln {
    pub id: String,
    pub description: String,
    pub severity: String,
    pub affects_ref: String,
}

/// What a `Sbom` holds.
pub struct SbomView {
    pub bom_format: Text,
    pub spec_version: Text,
    pub version: u32,
    pub serial_number: Text,
    pub timestamp: Text,
    pub tool: (Text, Text, Text),
    pub components: Seq<SbomComponentView>,
    pub vulnerabilities: Seq<SbomVulnView>,
}

/// What a `SbomComponent` holds.
pub struct SbomComponentView {
    pub kind: Text,
    pub bom_ref: Text,
    pub name: Text,
    pub version: Text,
    pub description: Text,
    pub purl: Text,
    pub properties: Seq<(Text, Text)>,
}

/// What a `SbomVuln` holds.
pub struct SbomVulnView {
    pub id: Text,
    pub description: Text,
    pub severity: Text,
    pub affects_ref: Text,
}

impl DeepView for SbomComponent {
    type V = SbomComponentView;

    open spec fn deep_view(&self) -> SbomComponentView {
        SbomComponentView {
            kind: self.kind@,
            bom_ref: self.bom_ref@,
            name: self.name@,
            version: self.version@,
            description: self.description@,
            purl: self.purl@,
            properties: self.properties.deep_view(),
        }
    }
}

impl DeepView for SbomVuln {
    type V = SbomVulnView;

    open spec fn deep_view(&self) -> SbomVulnView {
        SbomVulnView {
            id: self.id@,
            description: self.description@,
            severity: self.severity@,
            affects_ref: self.affects_ref@,
        }
    }
}

impl DeepView for Sbom {
    type V = SbomView;

    open spec fn deep_view(&self) -> SbomView {
        SbomView {
            bom_format: self.bom_format@,
            spec_version: self.spec_version@,
            version: self.version,
            serial_number: self.serial_number@,
            timestamp: self.timestamp@,
            tool: (self.tool.vendor@, self.tool.name@, self.tool.version@),
            components: self.components.deep_view(),
            vulnerabilities: self.vulnerabilities.deep_view(),
        }
    }
}

// ── Trusted: uuid ────────────────────────────────────────────────────

/// A lower-case hexadecimal digit.
pub open spec fn lower_hex(c: char) -> bool {
    '0' <= c <= '9' || 'a' <= c <= 'f'
}

/// A random (version 4) UUID in its hyphenated form.
pub open spec fn is_random_uuid(t: Text) -> bool {
    &&& t.len() == 36
    &&& forall|i: int|
        0 <= i < 36 ==> if i == 8 || i == 13 || i == 18 || i == 23 {
            (#[trigger] t[i]) == '-'
        } else {
            lower_hex(t[i])
        }
    &&& t[14] == '4'
    &&& t[19] == '8' || t[19] == '9' || t[19] == 'a' || t[19] == 'b'
}

/// Calls `uuid::Uuid::new_v4` and writes the UUID out as it displays itself.
/// Claimed: the text is the hyphenated lower-case form of a UUID of version 4
/// and of the variant of RFC 4122. That two such texts differ is left to
/// chance, and not claimed.
#[verifier::external_body]
fn random_uuid() -> (r: String)
    ensures
        is_random_uuid(r@),
{
    uuid::Uuid::new_v4().to_string()
}

// ── Contents ─────────────────────────────────────────────────────────

/// The name of an ecosystem in a package URL.
pub open spec fn purl_type(ecosystem: Text) -> Text {
    if ecosystem == "cargo"@ {
        "cargo"@
    } else if ecosystem == "npm"@ {
        "npm"@
    } else if ecosystem == "pypi"@ {
        "pypi"@
    } else if ecosystem == "go"@ {
        "golang"@
    } else {
        "generic"@
    }
}

/// The package URL of a package; nothing in it is escaped.
pub open spec fn purl(ecosystem: Text, name: Text, version: Text) -> Text {
    "pkg:"@ + purl_type(ecosystem) + "/"@ + name + "@"@ + version
}

/// `text`, empty where there is none.
pub open spec fn or_empty(text: Option<Text>) -> Text {
    match text {
        Some(t) => t,
        None => ""@,
    }
}

/// The component of a package.
pub open spec fn sbom_component(
    ecosystem: Text,
    p: PackageView,
    bom_ref: Text,
) -> SbomComponentView {
    SbomComponentView {
        kind: "library"@,
        bom_ref,
        name: p.name,
        version: p.version,
        description: or_empty(p.description),
        purl: purl(ecosystem, p.name, p.version),
        properties: seq![
            ("gravedigger:health"@, p.health),
            ("gravedigger:stale_reason"@, or_empty(p.stale_reason)),
        ],
    }
}

/// The components of the packages, each under its reference.
pub open spec fn sbom_components(
    ecosystem: Text,
    packages: Seq<PackageView>,
    refs: Seq<Text>,
) -> Seq<SbomComponentView> {
    Seq::new(packages.len(), |i: int| sbom_component(ecosystem, packages[i], refs[i]))
}

/// The reference of the first component with the given name and version, from
/// position `i` on; empty where there is none.
pub open spec fn ref_from(
    components: Seq<SbomComponentView>,
    name: Text,
    version: Text,
    i: int,
) -> Text
    decreases components.len() - i,
{
    if 0 <= i < components.len() {
        if components[i].name == name && components[i].version == version {
            components[i].bom_ref
        } else {
            ref_from(components, name, version, i + 1)
        }
    } else {
        ""@
    }
}

/// A vulnerability of the component with the given reference.
pub open spec fn sbom_vuln(v: VulnView, affects_ref: Text) -> SbomVulnView {
    SbomVulnView {
        id: v.id,
        description: or_empty(v.summary),
        severity: match v.severity {
            Some(s) => s,
            None => "UNKNOWN"@,
        },
        affects_ref,
    }
}

/// The vulnerabilities of the packages, package by package.
pub open spec fn sbom_vulns(
    packages: Seq<PackageView>,
    components: Seq<SbomComponentView>,
) -> Seq<SbomVulnView>
    decreases packages.len(),
{
    if packages.len() == 0 {
        Seq::empty()
    } else {
        let p = packages.last();
        sbom_vulns(packages.drop_last(), components) + p.vulns.map_values(
            |v: VulnView| sbom_vuln(v, ref_from(components, p.name, p.version, 0)),
        )
    }
}

/// The bill of materials of the packages, with the given UUID as its serial
/// number, the given time, and the given references of the components.
pub open spec fn sbom_of(
    ecosystem: Text,
    packages: Seq<PackageView>,
    serial: Text,
    time: Text,
    refs: Seq<Text>,
) -> SbomView {
    let components = sbom_components(ecosystem, packages, refs);
    SbomView {
        bom_format: "CycloneDX"@,
        spec_version: "1.6"@,
        version: 1,
        serial_number: "urn:uuid:"@ + serial,
        timestamp: time,
        tool: ("gravedigger"@, "gravedigger"@, "0.2.0"@),
        components,
        vulnerabilities: sbom_vulns(packages, components),
    }
}

/// Build a Package-URL (purl) for the given ecosystem / name / version.
pub fn purl_for(ecosystem: &str, name: &str, version: &str) -> (r: String)
    ensures
        r@ == purl(ecosystem@, name@, version@),
{
    let eco = if same(ecosystem, "cargo") {
        "cargo"
    } else if same(ecosystem, "npm") {
        "npm"
    } else if same(ecosystem, "pypi") {
        "pypi"
    } else if same(ecosystem, "go") {
        "golang"
    } else {
        "generic"
    };
    let mut text = "pkg:".to_owned();
    text.append(eco);
    text.append("/");
    text.append(name);
    text.append("@");
    text.append(version);
    text
}

/// `text`, empty where there is none.
fn text_or_empty(text: &Option<String>) -> (r: String)
    ensures
        r@ == or_empty(text.deep_view()),
{
    match text {
        Some(t) => t.clone(),
        None => "".to_owned(),
    }
}

/// The component of a package.
fn build_component(ecosystem: &str, p: &PackageResult, bom_ref: &String) -> (r: SbomComponent)
    ensures
        r.deep_view() == sbom_component(ecosystem@, p.deep_view(), bom_ref@),
{
    let mut properties: Vec<Property> = Vec::new();
    properties.push(Property { name: "gravedigger:health".to_owned(), value: p.health.clone() });
    properties.push(
        Property {
            name: "gravedigger:stale_reason".to_owned(),
            value: text_or_empty(&p.stale_reason),
        },
    );
    assert(properties.deep_view() =~= seq![
        ("gravedigger:health"@, p.health@),
        ("gravedigger:stale_reason"@, or_empty(p.stale_reason.deep_view())),
    ]);
    SbomComponent {
        kind: "library".to_owned(),
        bom_ref: bom_ref.clone(),
        name: p.name.clone(),
        version: p.version.clone(),
        description: text_or_empty(&p.description),
        purl: purl_for(ecosystem, p.name.as_str(), p.version.as_str()),
        properties,
    }
}

/// The reference of the first component with the given name and version.
fn find_ref(components: &Vec<SbomComponent>, name: &str, version: &str) -> (r: String)
    ensures
        r@ == ref_from(components.deep_view(), name@, version@, 0),
{
    let mut i: usize = 0;
    while i < components.len()
        invariant
            i <= components.len(),
            ref_from(components.deep_view(), name@, version@, 0) == ref_from(
                components.deep_view(),
                name@,
                version@,
                i as int,
            ),
        decreases components.len() - i,
    {
        assert(components.deep_view()[i as int] == components[i as int].deep_view());
        if same(components[i].name.as_str(), name) && same(
            components[i].version.as_str(),
            version,
        ) {
            return components[i].bom_ref.clone();
        }
        i = i + 1;
    }
    "".to_owned()
}

/// The vulnerability of a component.
fn build_vuln(v: &VulnInfo, affects_ref: &String) -> (r: SbomVuln)
    ensures
        r.deep_view() == sbom_vuln(v.deep_view(), affects_ref@),
{
    SbomVuln {
        id: v.id.clone(),
        description: text_or_empty(&v.summary),
        severity: match &v.severity {
            Some(s) => s.clone(),
            None => "UNKNOWN".to_owned(),
        },
        affects_ref: affects_ref.clone(),
    }
}

/// Adds the vulnerabilities of a package.
fn add_vulns(out: &mut Vec<SbomVuln>, p: &PackageResult, affects_ref: &String)
    ensures
        final(out).deep_view() == old(out).deep_view() + p.deep_view().vulns.map_values(
            |v: VulnView| sbom_vuln(v, affects_ref@),
        ),
{
    let ghost start = out.deep_view();
    let ghost view = p.deep_view().vulns;
    let ghost f = |v: VulnView| sbom_vuln(v, affects_ref@);
    let mut i: usize = 0;
    assert(out.deep_view() =~= start + view.take(0).map_values(f));
    while i < p.vulns.len()
        invariant
            i <= p.vulns.len(),
            view == p.vulns.deep_view(),
            f == (|v: VulnView| sbom_vuln(v, affects_ref@)),
            out.deep_view() == start + view.take(i as int).map_values(f),
        decreases p.vulns.len() - i,
    {
        let ghost before = out.deep_view();
        out.push(build_vuln(&p.vulns[i], affects_ref));
        proof {
            assert(view[i as int] == p.vulns[i as int].deep_view());
            assert(out.deep_view() =~= before.push(f(view[i as int])));
            assert(out.deep_view() =~= start + view.take(i + 1).map_values(f));
        }
        i = i + 1;
    }
    assert(view.take(p.vulns.len() as int) =~= view);
}

/// The bill of materials of the packages, with the given UUID as its serial
/// number, the given time, and the given references of the components.
pub fn build_sbom(
    ecosystem: &str,
    packages: &[PackageResult],
    serial: &str,
    time: String,
    refs: &Vec<String>,
) -> (r: Sbom)
    requires
        refs.len() == packages.len(),
    ensures
        r.deep_view() == sbom_of(
            ecosystem@,
            packages.deep_view(),
            serial@,
            time@,
            refs.deep_view(),
        ),
{
    let ghost all = packages.deep_view();
    let mut components: Vec<SbomComponent> = Vec::new();
    let mut i: usize = 0;
    while i < packages.len()
        invariant
            i <= packages.len(),
            refs.len() == packages.len(),
            all == packages.deep_view(),
            components.deep_view() == sbom_components(ecosystem@, all, refs.deep_view()).take(
                i as int,
            ),
        decreases packages.len() - i,
    {
        let ghost before = components.deep_view();
        components.push(build_component(ecosystem, &packages[i], &refs[i]));
        proof {
            assert(all[i as int] == packages[i as int].deep_view());
            assert(refs.deep_view()[i as int] == refs[i as int]@);
            let whole = sbom_components(ecosystem@, all, refs.deep_view());
            assert(components.deep_view() =~= before.push(whole[i as int]));
            assert(whole.take(i + 1) =~= whole.take(i as int).push(whole[i as int]));
        }
        i = i + 1;
    }
    let ghost whole = sbom_components(ecosystem@, all, refs.deep_view());
    assert(whole.take(packages.len() as int) =~= whole);
    let mut vulnerabilities: Vec<SbomVuln> = Vec::new();
    i = 0;
    assert(all.take(0) =~= Seq::empty());
    assert(vulnerabilities.deep_view() =~= Seq::empty());
    while i < packages.len()
        invariant
            i <= packages.len(),
            all == packages.deep_view(),
            whole == components.deep_view(),
            vulnerabilities.deep_view() == sbom_vulns(all.take(i as int), whole),
        decreases packages.len() - i,
    {
        let p = &packages[i];
        proof {
            assert(all.take(i + 1).drop_last() =~= all.take(i as int));
            assert(all.take(i + 1).last() == p.deep_view());
        }
        let affected = find_ref(&components, p.name.as_str(), p.version.as_str());
        add_vulns(&mut vulnerabilities, p, &affected);
        i = i + 1;
    }
    assert(all.take(packages.len() as int) =~= all);
    let mut serial_number = "urn:uuid:".to_owned();
    serial_number.append(serial);
    Sbom {
        bom_format: "CycloneDX".to_owned(),
        spec_version: "1.6".to_owned(),
        version: 1,
        serial_number,
        timestamp: time,
        tool: Tool {
            vendor: "gravedigger".to_owned(),
            name: "gravedigger".to_owned(),
            version: "0.2.0".to_owned(),
        },
        components,
        vulnerabilities,
    }
}

/// Every one of the texts is a random UUID.
pub open spec fn all_uuids(refs: Seq<Text>) -> bool {
    forall|i: int| 0 <= i < refs.len() ==> is_random_uuid(#[trigger] refs[i])
}

/// As many random UUIDs as asked for.
fn random_uuids(n: usize) -> (r: Vec<String>)
    ensures
        r.deep_view().len() == n,
        all_uuids(r.deep_view()),
{
    let mut out: Vec<String> = Vec::new();
    let mut i: usize = 0;
    while i < n
        invariant
            i <= n,
            out.deep_view().len() == i,
            all_uuids(out.deep_view()),
        decreases n - i,
    {
        let ghost before = out.deep_view();
        let id = random_uuid();
        let ghost view = id@;
        out.push(id);
        assert(out.deep_view() =~= before.push(view));
        i = i + 1;
    }
    out
}

/// Render a CycloneDX 1.6 SBOM from scan results: the serial number and the
/// references of the components are random UUIDs, the time is the current
/// one.
///
/// `ecosystem` is one of `"cargo"`, `"npm"`, `"pypi"`, or `"go"`.
pub fn render(ecosystem: &str, packages: &[PackageResult]) -> (r: Sbom)
    ensures
        exists|serial: Text, at: Moment, refs: Seq<Text>|
            #![trigger is_random_uuid(serial), at.wf(), all_uuids(refs)]
            is_random_uuid(serial) && at.wf() && refs.len() == packages.deep_view().len()
                && all_uuids(refs) && r.deep_view() == sbom_of(
                ecosystem@,
                packages.deep_view(),
                serial,
                rfc3339_text(at.secs, at.nanos),
                refs,
            ),
{
    let serial = random_uuid();
    let at = now();
    let time = timestamp(at);
    let refs = random_uuids(packages.len());
    assert(refs.deep_view().len() == refs.len());
    build_sbom(ecosystem, packages, serial.as_str(), time, &refs)
}

// ── Laws ─────────────────────────────────────────────────────────────

/// Every package becomes a component, in its place, with its package URL, its
/// health and its reason.
pub proof fn law_every_package_is_a_component(
    ecosystem: Text,
    packages: Seq<PackageView>,
    serial: Text,
    time: Text,
    refs: Seq<Text>,
    i: int,
)
    requires
        0 <= i < packages.len(),
    ensures
        ({
            let s = sbom_of(ecosystem, packages, serial, time, refs);
            let c = s.components[i];
            &&& s.components.len() == packages.len()
            &&& c.name == packages[i].name
            &&& c.version == packages[i].version
            &&& c.purl == purl(ecosystem, packages[i].name, packages[i].version)
            &&& c.properties[0].1 == packages[i].health
            &&& c.properties[1].1 == or_empty(packages[i].stale_reason)
        }),
{
}

proof fn lemma_ref_from(
    ecosystem: Text,
    packages: Seq<PackageView>,
    refs: Seq<Text>,
    i: int,
    k: int,
)
    requires
        0 <= k <= i < packages.len(),
    ensures
        ({
            let components = sbom_components(ecosystem, packages, refs);
            exists|j: int|
                k <= j < components.len() && (#[trigger] components[j]).name == packages[i].name
                    && components[j].version == packages[i].version && components[j].bom_ref
                    == ref_from(components, packages[i].name, packages[i].version, k)
        }),
    decreases i - k,
{
    let components = sbom_components(ecosystem, packages, refs);
    let p = packages[i];
    if components[k].name == p.name && components[k].version == p.version {
        assert(components[k].bom_ref == ref_from(components, p.name, p.version, k));
    } else {
        assert(components[i].name == p.name);
        lemma_ref_from(ecosystem, packages, refs, i, k + 1);
        let j = choose|j: int|
            k + 1 <= j < components.len() && (#[trigger] components[j]).name == p.name
                && components[j].version == p.version && components[j].bom_ref == ref_from(
                components,
                p.name,
                p.version,
                k + 1,
            );
        assert(components[j].bom_ref == ref_from(components, p.name, p.version, k));
    }
}

/// What a vulnerability affects is the component of a package with the name
/// and the version of the package that it was found in.
pub proof fn law_affected_component_exists(
    ecosystem: Text,
    packages: Seq<PackageView>,
    refs: Seq<Text>,
    i: int,
)
    requires
        0 <= i < packages.len(),
    ensures
        ({
            let components = sbom_components(ecosystem, packages, refs);
            exists|j: int|
                0 <= j < components.len() && (#[trigger] components[j]).name == packages[i].name
                    && components[j].version == packages[i].version && components[j].bom_ref
                    == ref_from(components, packages[i].name, packages[i].version, 0)
        }),
{
    lemma_ref_from(ecosystem, packages, refs, i, 0);
}

/// A component as it is read back from a bill of materials.
pub open spec fn read_back(c: SbomComponentView) -> ComponentRawView {
    ComponentRawView {
        bom_ref: c.bom_ref,
        name: c.name,
        version: c.version,
        purl: c.purl,
        properties: c.properties,
    }
}

proof fn lemma_resolved(all: Seq<ComponentRawView>, j: int, k: int)
    requires
        0 <= k <= j < all.len(),
        forall|a: int, b: int| 0 <= a < b < all.len() ==> all[a].bom_ref != all[b].bom_ref,
    ensures
        resolved_from(all[j].bom_ref, all, k) == all[j].purl,
    decreases j - k,
{
    if k < j {
        assert(all[k].bom_ref != all[j].bom_ref);
        lemma_resolved(all, j, k + 1);
    }
}

/// Read back, the reference of a vulnerability leads to the package URL of
/// the package that it was found in, where no two components have the same
/// reference and none is empty.
pub proof fn law_affected_reference_leads_to_package(
    ecosystem: Text,
    packages: Seq<PackageView>,
    refs: Seq<Text>,
    i: int,
)
    requires
        0 <= i < packages.len(),
        refs.len() == packages.len(),
        refs.no_duplicates(),
        forall|k: int| 0 <= k < refs.len() ==> (#[trigger] refs[k]).len() > 0,
    ensures
        ({
            let components = sbom_components(ecosystem, packages, refs);
            resolved(
                ref_from(components, packages[i].name, packages[i].version, 0),
                components.map_values(|c: SbomComponentView| read_back(c)),
            ) == purl(ecosystem, packages[i].name, packages[i].version)
        }),
{
    let components = sbom_components(ecosystem, packages, refs);
    let all = components.map_values(|c: SbomComponentView| read_back(c));
    let p = packages[i];
    lemma_ref_from(ecosystem, packages, refs, i, 0);
    let j = choose|j: int|
        0 <= j < components.len() && (#[trigger] components[j]).name == p.name
            && components[j].version == p.version && components[j].bom_ref == ref_from(
            components,
            p.name,
            p.version,
            0,
        );
    assert forall|a: int, b: int| 0 <= a < b < all.len() implies all[a].bom_ref
        != all[b].bom_ref by {
        assert(all[a].bom_ref == refs[a] && all[b].bom_ref == refs[b]);
    }
    assert(all[j].bom_ref == refs[j]);
    lemma_resolved(all, j, 0);
}

/// No packages make a bill of materials without components and
/// vulnerabilities.
pub proof fn law_no_packages_empty_bill(ecosystem: Text, serial: Text, time: Text)
    ensures
        sbom_of(ecosystem, Seq::empty(), serial, time, Seq::empty()).components.len() == 0,
        sbom_of(ecosystem, Seq::empty(), serial, time, Seq::empty()).vulnerabilities.len() == 0,
{
}

/// The health of a package survives being written to a bill of materials and
/// read back.
pub proof fn law_health_survives(ecosystem: Text, p: PackageView, bom_ref: Text)
    requires
        p.health.len() > 0,
    ensures
        component_of(read_back(sbom_component(ecosystem, p, bom_ref))) == (ComponentView {
            name: p.name,
            version: p.version,
            purl: purl(ecosystem, p.name, p.version),
            health: p.health,
        }),
{
    let c = read_back(sbom_component(ecosystem, p, bom_ref));
    assert(c.properties[0] == ("gravedigger:health"@, p.health));
}

} // verus!
