//! Compare two CycloneDX 1.6 SBOM JSON files and show the delta.

use crate::display::{GRAY, GREEN, RED, RESET, YELLOW};
use crate::render::{add_line, add_lines, decimal, number};
use crate::table::{
    law_put_keeps_keys_unique, lemma_value_of, lemma_value_of_entry, put, unique, value_of, Table,
};
use crate::text::{byte_len, cut, cut_off, longer_than, same, Text};
use crate::types::{health_of_word, of_word, Health};
use vstd::prelude::*;

verus! {

/// How many entries of a list are shown.
pub const MAX_LIST_ITEMS: usize = 10;

// ── What a file holds ────────────────────────────────────────────────

/// A bill of materials.
#[derive(Debug)]
pub struct SbomRoot {
    pub components: Vec<ComponentRaw>,
    pub vulnerabilities: Vec<VulnRaw>,
}

/// A component in a bill of materials.
#[derive(Debug)]
pub struct ComponentRaw {
    pub bom_ref: String,
    pub name: String,
    pub version: String,
    pub purl: String,
    pub properties: Vec<Property>,
}

/// A property of a component.
#[derive(Debug)]
pub struct Property {
    pub name: String,
    pub value: String,
}

/// A vulnerability in a bill of materials.
#[derive(Debug)]
pub struct VulnRaw {
    pub id: String,
    pub description: String,
    pub ratings: Vec<Rating>,
    pub affects: Vec<Affect>,
}

#[derive(Debug)]
pub struct Rating {
    pub severity: String,
}

#[derive(Debug)]
pub struct Affect {
    pub affects_ref: String,
}

impl DeepView for Property {
    type V = (Text, Text);

    open spec fn deep_view(&self) -> (Text, Text) {
        (self.name@, self.value@)
    }
}

/// What a `ComponentRaw` holds.
pub struct ComponentRawView {
    pub bom_ref: Text,
    pub name: Text,
    pub version: Text,
    pub purl: Text,
    pub properties: Seq<(Text, Text)>,
}

impl DeepView for ComponentRaw {
    type V = ComponentRawView;

    open spec fn deep_view(&self) -> ComponentRawView {
        ComponentRawView {
            bom_ref: self.bom_ref@,
            name: self.name@,
            version: self.version@,
            purl: self.purl@,
            properties: self.properties.deep_view(),
        }
    }
}

impl DeepView for Rating {
    type V = Text;

    open spec fn deep_view(&self) -> Text {
        self.severity@
    }
}

impl DeepView for Affect {
    type V = Text;

    open spec fn deep_view(&self) -> Text {
        self.affects_ref@
    }
}

/// What a `VulnRaw` holds.
pub struct VulnRawView {
    pub id: Text,
    pub description: Text,
    pub ratings: Seq<Text>,
    pub affects: Seq<Text>,
}

impl DeepView for VulnRaw {
    type V = VulnRawView;

    open spec fn deep_view(&self) -> VulnRawView {
        VulnRawView {
            id: self.id@,
            description: self.description@,
            ratings: self.ratings.deep_view(),
            affects: self.affects.deep_view(),
        }
    }
}

// ── Parsed representation ────────────────────────────────────────────

/// A component, with its health.
#[derive(Debug, PartialEq)]
pub struct Component {
    pub name: String,
    pub version: String,
    pub purl: String,
    pub health: String,
}

/// What a `Component` holds.
pub struct ComponentView {
    pub name: Text,
    pub version: Text,
    pub purl: Text,
    pub health: Text,
}

impl DeepView for Component {
    type V = ComponentView;

    open spec fn deep_view(&self) -> ComponentView {
        ComponentView {
            name: self.name@,
            version: self.version@,
            purl: self.purl@,
            health: self.health@,
        }
    }
}

impl Clone for Component {
    fn clone(&self) -> (r: Self)
        ensures
            r.deep_view() == self.deep_view(),
    {
        Component {
            name: self.name.clone(),
            version: self.version.clone(),
            purl: self.purl.clone(),
            health: self.health.clone(),
        }
    }
}

/// A vulnerability, with the component that it affects.
#[derive(Debug, PartialEq)]
pub struct Vuln {
    pub id: String,
    pub description: String,
    pub severity: String,
    pub purl: String,
}

/// What a `Vuln` holds.
pub struct VulnEntryView {
    pub id: Text,
    pub description: Text,
    pub severity: Text,
    pub purl: Text,
}

impl DeepView for Vuln {
    type V = VulnEntryView;

    open spec fn deep_view(&self) -> VulnEntryView {
        VulnEntryView {
            id: self.id@,
            description: self.description@,
            severity: self.severity@,
            purl: self.purl@,
        }
    }
}

impl Clone for Vuln {
    fn clone(&self) -> (r: Self)
        ensures
            r.deep_view() == self.deep_view(),
    {
        Vuln {
            id: self.id.clone(),
            description: self.description.clone(),
            severity: self.severity.clone(),
            purl: self.purl.clone(),
        }
    }
}

// ── Delta types ──────────────────────────────────────────────────────

/// What became of a component.
#[derive(Debug, PartialEq)]
pub enum ComponentDelta {
    Added(Component),
    Changed { old: Component, new: Component },
    Removed(Component),
}

/// What a `ComponentDelta` holds.
pub enum ComponentDeltaView {
    Added(ComponentView),
    Changed(ComponentView, ComponentView),
    Removed(ComponentView),
}

impl DeepView for ComponentDelta {
    type V = ComponentDeltaView;

    open spec fn deep_view(&self) -> ComponentDeltaView {
        match self {
            ComponentDelta::Added(c) => ComponentDeltaView::Added(c.deep_view()),
            ComponentDelta::Changed { old: a, new: b } => ComponentDeltaView::Changed(
                a.deep_view(),
                b.deep_view(),
            ),
            ComponentDelta::Removed(c) => ComponentDeltaView::Removed(c.deep_view()),
        }
    }
}

/// What became of a vulnerability.
#[derive(Debug, PartialEq)]
pub enum VulnDelta {
    New(Vuln),
    Resolved(Vuln),
    Unchanged(Vuln),
}

/// What a `VulnDelta` holds.
pub enum VulnDeltaView {
    New(VulnEntryView),
    Resolved(VulnEntryView),
    Unchanged(VulnEntryView),
}

impl DeepView for VulnDelta {
    type V = VulnDeltaView;

    open spec fn deep_view(&self) -> VulnDeltaView {
        match self {
            VulnDelta::New(v) => VulnDeltaView::New(v.deep_view()),
            VulnDelta::Resolved(v) => VulnDeltaView::Resolved(v.deep_view()),
            VulnDelta::Unchanged(v) => VulnDeltaView::Unchanged(v.deep_view()),
        }
    }
}

// ── Parsing ──────────────────────────────────────────────────────────

/// The value of the first property with the given name, from position `i` on;
/// nothing where there is none.
pub open spec fn property_from(props: Seq<(Text, Text)>, name: Text, i: int) -> Text
    decreases props.len() - i,
{
    if 0 <= i < props.len() {
        if props[i].0 == name {
            props[i].1
        } else {
            property_from(props, name, i + 1)
        }
    } else {
        ""@
    }
}

/// The value of the first property with the given name; empty where there is
/// none.
pub fn extract_property(props: &[Property], name: &str) -> (r: String)
    ensures
        r@ == property_from(props.deep_view(), name@, 0),
{
    let mut i: usize = 0;
    while i < props.len()
        invariant
            i <= props.len(),
            property_from(props.deep_view(), name@, 0) == property_from(
                props.deep_view(),
                name@,
                i as int,
            ),
        decreases props.len() - i,
    {
        assert(props.deep_view()[i as int] == props[i as int].deep_view());
        if same(props[i].name.as_str(), name) {
            return props[i].value.clone();
        }
        i = i + 1;
    }
    "".to_owned()
}

/// The health of a component; unknown where it names none.
pub open spec fn health_in(c: ComponentRawView) -> Text {
    let health = property_from(c.properties, "gravedigger:health"@, 0);
    if health.len() == 0 {
        "unknown"@
    } else {
        health
    }
}

/// What is kept of a component.
pub open spec fn component_of(c: ComponentRawView) -> ComponentView {
    ComponentView { name: c.name, version: c.version, purl: c.purl, health: health_in(c) }
}

/// The components under their package URLs; of several under the same, the
/// last counts.
pub open spec fn component_index(all: Seq<ComponentRawView>) -> Seq<(Text, ComponentView)>
    decreases all.len(),
{
    if all.len() == 0 {
        Seq::empty()
    } else {
        put(component_index(all.drop_last()), all.last().purl, component_of(all.last()))
    }
}

/// The package URL of the first component, from position `i` on, that the
/// reference names; the reference itself where it names none.
pub open spec fn resolved_from(bom_ref: Text, all: Seq<ComponentRawView>, i: int) -> Text
    decreases all.len() - i,
{
    if 0 <= i < all.len() {
        if all[i].bom_ref == bom_ref {
            all[i].purl
        } else {
            resolved_from(bom_ref, all, i + 1)
        }
    } else {
        bom_ref
    }
}

/// The package URL of the component that a reference names; nothing for an
/// empty reference.
pub open spec fn resolved(bom_ref: Text, all: Seq<ComponentRawView>) -> Text {
    if bom_ref.len() == 0 {
        ""@
    } else {
        resolved_from(bom_ref, all, 0)
    }
}

/// The first of several texts; nothing where there is none.
pub open spec fn first_or_empty(all: Seq<Text>) -> Text {
    if all.len() > 0 {
        all[0]
    } else {
        ""@
    }
}

/// What is kept of a vulnerability.
pub open spec fn vuln_entry(v: VulnRawView, components: Seq<ComponentRawView>) -> VulnEntryView {
    VulnEntryView {
        id: v.id,
        description: v.description,
        severity: first_or_empty(v.ratings),
        purl: resolved(first_or_empty(v.affects), components),
    }
}

/// The vulnerabilities under their ids; of several under the same, the last
/// counts.
pub open spec fn vuln_index(
    all: Seq<VulnRawView>,
    components: Seq<ComponentRawView>,
) -> Seq<(Text, VulnEntryView)>
    decreases all.len(),
{
    if all.len() == 0 {
        Seq::empty()
    } else {
        put(
            vuln_index(all.drop_last(), components),
            all.last().id,
            vuln_entry(all.last(), components),
        )
    }
}

/// Resolve a `bom-ref` to its PURL, falling back to the raw ref if not found.
pub fn resolve_affects_ref(bom_ref: &str, components: &[ComponentRaw]) -> (r: String)
    ensures
        r@ == resolved(bom_ref@, components.deep_view()),
{
    if bom_ref.is_empty() {
        return "".to_owned();
    }
    let mut i: usize = 0;
    while i < components.len()
        invariant
            i <= components.len(),
            bom_ref@.len() > 0,
            resolved_from(bom_ref@, components.deep_view(), 0) == resolved_from(
                bom_ref@,
                components.deep_view(),
                i as int,
            ),
        decreases components.len() - i,
    {
        assert(components.deep_view()[i as int] == components[i as int].deep_view());
        if same(components[i].bom_ref.as_str(), bom_ref) {
            return components[i].purl.clone();
        }
        i = i + 1;
    }
    bom_ref.to_owned()
}

/// The components of a bill of materials under their package URLs.
fn index_components(all: &Vec<ComponentRaw>) -> (r: Table<Component>)
    ensures
        r.deep_view() == component_index(all.deep_view()),
        r.wf(),
{
    let mut out: Table<Component> = Table::new();
    let mut i: usize = 0;
    let ghost seen = all.deep_view();
    assert(seen.take(0) =~= Seq::empty());
    while i < all.len()
        invariant
            i <= all.len(),
            seen == all.deep_view(),
            out.wf(),
            out.deep_view() == component_index(seen.take(i as int)),
        decreases all.len() - i,
    {
        let c = &all[i];
        proof {
            assert(seen.take(i + 1).drop_last() =~= seen.take(i as int));
            assert(seen.take(i + 1).last() == c.deep_view());
        }
        let mut health = extract_property(c.properties.as_slice(), "gravedigger:health");
        if health.as_str().is_empty() {
            health = "unknown".to_owned();
        }
        out.insert(
            c.purl.clone(),
            Component {
                name: c.name.clone(),
                version: c.version.clone(),
                purl: c.purl.clone(),
                health,
            },
        );
        i = i + 1;
    }
    assert(seen.take(all.len() as int) =~= seen);
    out
}

/// The vulnerabilities of a bill of materials under their ids.
fn index_vulns(all: &Vec<VulnRaw>, components: &Vec<ComponentRaw>) -> (r: Table<Vuln>)
    ensures
        r.deep_view() == vuln_index(all.deep_view(), components.deep_view()),
        r.wf(),
{
    let mut out: Table<Vuln> = Table::new();
    let mut i: usize = 0;
    let ghost seen = all.deep_view();
    assert(seen.take(0) =~= Seq::empty());
    while i < all.len()
        invariant
            i <= all.len(),
            seen == all.deep_view(),
            out.wf(),
            out.deep_view() == vuln_index(seen.take(i as int), components.deep_view()),
        decreases all.len() - i,
    {
        let v = &all[i];
        proof {
            assert(seen.take(i + 1).drop_last() =~= seen.take(i as int));
            assert(seen.take(i + 1).last() == v.deep_view());
        }
        let severity = if v.ratings.len() > 0 {
            assert(v.ratings.deep_view()[0] == v.ratings[0].severity@);
            v.ratings[0].severity.clone()
        } else {
            "".to_owned()
        };
        let affected = if v.affects.len() > 0 {
            assert(v.affects.deep_view()[0] == v.affects[0].affects_ref@);
            v.affects[0].affects_ref.clone()
        } else {
            "".to_owned()
        };
        out.insert(
            v.id.clone(),
            Vuln {
                id: v.id.clone(),
                description: v.description.clone(),
                severity,
                purl: resolve_affects_ref(affected.as_str(), components.as_slice()),
            },
        );
        i = i + 1;
    }
    assert(seen.take(all.len() as int) =~= seen);
    out
}

/// The components and vulnerabilities of the bill of materials in the file
/// `path`. `file` is what the file holds, or what is wrong with that, or why
/// it could not be read.
pub fn parse_file(path: &str, file: &Result<Result<SbomRoot, String>, String>) -> (r: Result<
    (Table<Component>, Table<Vuln>),
    String,
>)
    ensures
        match file {
            Ok(Ok(root)) => r matches Ok(both) && both.0.deep_view() == component_index(
                root.components.deep_view(),
            ) && both.1.deep_view() == vuln_index(
                root.vulnerabilities.deep_view(),
                root.components.deep_view(),
            ) && both.0.wf() && both.1.wf(),
            Ok(Err(e)) => r matches Err(m) && m@ == "❌ Invalid JSON in "@ + path@ + ": "@ + e@,
            Err(e) => r matches Err(m) && m@ == "❌ Failed to read "@ + path@ + ": "@ + e@,
        },
{
    match file {
        Ok(Ok(root)) => Ok(
            (
                index_components(&root.components),
                index_vulns(&root.vulnerabilities, &root.components),
            ),
        ),
        Ok(Err(e)) => {
            let mut text = "❌ Invalid JSON in ".to_owned();
            text.append(path);
            text.append(": ");
            text.append(e.as_str());
            Err(text)
        },
        Err(e) => {
            let mut text = "❌ Failed to read ".to_owned();
            text.append(path);
            text.append(": ");
            text.append(e.as_str());
            Err(text)
        },
    }
}

// ── Diff computation ─────────────────────────────────────────────────

/// The components that are new or have another version, in the order of
/// `new`.
pub open spec fn component_changes(
    old: Seq<(Text, ComponentView)>,
    new: Seq<(Text, ComponentView)>,
) -> Seq<ComponentDeltaView>
    decreases new.len(),
{
    if new.len() == 0 {
        Seq::empty()
    } else {
        let rest = component_changes(old, new.drop_last());
        let c = new.last().1;
        match value_of(old, new.last().0) {
            None => rest.push(ComponentDeltaView::Added(c)),
            Some(o) => if o.version != c.version {
                rest.push(ComponentDeltaView::Changed(o, c))
            } else {
                rest
            },
        }
    }
}

/// The components that are gone, in the order of `old`.
pub open spec fn component_removals(
    old: Seq<(Text, ComponentView)>,
    new: Seq<(Text, ComponentView)>,
) -> Seq<ComponentDeltaView>
    decreases old.len(),
{
    if old.len() == 0 {
        Seq::empty()
    } else {
        let rest = component_removals(old.drop_last(), new);
        if value_of(new, old.last().0) is None {
            rest.push(ComponentDeltaView::Removed(old.last().1))
        } else {
            rest
        }
    }
}

/// What became of the components.
pub open spec fn component_deltas(
    old: Seq<(Text, ComponentView)>,
    new: Seq<(Text, ComponentView)>,
) -> Seq<ComponentDeltaView> {
    component_changes(old, new) + component_removals(old, new)
}

/// The vulnerabilities that are new or were there already, in the order of
/// `new`.
pub open spec fn vulns_present(
    old: Seq<(Text, VulnEntryView)>,
    new: Seq<(Text, VulnEntryView)>,
) -> Seq<VulnDeltaView>
    decreases new.len(),
{
    if new.len() == 0 {
        Seq::empty()
    } else {
        vulns_present(old, new.drop_last()).push(
            if value_of(old, new.last().0) is None {
                VulnDeltaView::New(new.last().1)
            } else {
                VulnDeltaView::Unchanged(new.last().1)
            },
        )
    }
}

/// The vulnerabilities that are gone, in the order of `old`.
pub open spec fn vulns_resolved(
    old: Seq<(Text, VulnEntryView)>,
    new: Seq<(Text, VulnEntryView)>,
) -> Seq<VulnDeltaView>
    decreases old.len(),
{
    if old.len() == 0 {
        Seq::empty()
    } else {
        let rest = vulns_resolved(old.drop_last(), new);
        if value_of(new, old.last().0) is None {
            rest.push(VulnDeltaView::Resolved(old.last().1))
        } else {
            rest
        }
    }
}

/// What became of the vulnerabilities.
pub open spec fn vuln_deltas(
    old: Seq<(Text, VulnEntryView)>,
    new: Seq<(Text, VulnEntryView)>,
) -> Seq<VulnDeltaView> {
    vulns_present(old, new) + vulns_resolved(old, new)
}

/// What became of the components.
fn diff_components(before: &Table<Component>, after: &Table<Component>) -> (r: Vec<ComponentDelta>)
    ensures
        r.deep_view() == component_deltas(before.deep_view(), after.deep_view()),
{
    let mut out: Vec<ComponentDelta> = Vec::new();
    let ghost a = before.deep_view();
    let ghost b = after.deep_view();
    let mut i: usize = 0;
    assert(b.take(0) =~= Seq::empty());
    assert(out.deep_view() =~= Seq::empty());
    while i < after.len()
        invariant
            i <= b.len(),
            a == before.deep_view(),
            b == after.deep_view(),
            out.deep_view() == component_changes(a, b.take(i as int)),
        decreases b.len() - i,
    {
        let c = after.value(i);
        let ghost here = out.deep_view();
        proof {
            assert(b.take(i + 1).drop_last() =~= b.take(i as int));
            assert(b.take(i + 1).last() == b[i as int]);
        }
        match before.get(after.key(i)) {
            None => {
                let d = ComponentDelta::Added(c.clone());
                out.push(d);
                assert(out.deep_view() =~= here.push(d.deep_view()));
            },
            Some(o) => {
                if !same(o.version.as_str(), c.version.as_str()) {
                    let d = ComponentDelta::Changed { old: o.clone(), new: c.clone() };
                    out.push(d);
                    assert(out.deep_view() =~= here.push(d.deep_view()));
                }
            },
        }
        i = i + 1;
    }
    assert(b.take(b.len() as int) =~= b);
    let ghost first = out.deep_view();
    i = 0;
    assert(a.take(0) =~= Seq::empty());
    assert(out.deep_view() =~= first + component_removals(a.take(0), b));
    while i < before.len()
        invariant
            i <= a.len(),
            a == before.deep_view(),
            b == after.deep_view(),
            out.deep_view() == first + component_removals(a.take(i as int), b),
        decreases a.len() - i,
    {
        let ghost here = out.deep_view();
        proof {
            assert(a.take(i + 1).drop_last() =~= a.take(i as int));
            assert(a.take(i + 1).last() == a[i as int]);
        }
        if !after.contains_key(before.key(i)) {
            let d = ComponentDelta::Removed(before.value(i).clone());
            out.push(d);
            assert(out.deep_view() =~= here.push(d.deep_view()));
            assert(out.deep_view() =~= first + component_removals(a.take(i + 1), b));
        }
        i = i + 1;
    }
    assert(a.take(a.len() as int) =~= a);
    out
}

/// What became of the vulnerabilities.
fn diff_vulns(before: &Table<Vuln>, after: &Table<Vuln>) -> (r: Vec<VulnDelta>)
    ensures
        r.deep_view() == vuln_deltas(before.deep_view(), after.deep_view()),
{
    let mut out: Vec<VulnDelta> = Vec::new();
    let ghost a = before.deep_view();
    let ghost b = after.deep_view();
    let mut i: usize = 0;
    assert(b.take(0) =~= Seq::empty());
    assert(out.deep_view() =~= Seq::empty());
    while i < after.len()
        invariant
            i <= b.len(),
            a == before.deep_view(),
            b == after.deep_view(),
            out.deep_view() == vulns_present(a, b.take(i as int)),
        decreases b.len() - i,
    {
        let v = after.value(i);
        let ghost here = out.deep_view();
        proof {
            assert(b.take(i + 1).drop_last() =~= b.take(i as int));
            assert(b.take(i + 1).last() == b[i as int]);
        }
        let d = if before.contains_key(after.key(i)) {
            VulnDelta::Unchanged(v.clone())
        } else {
            VulnDelta::New(v.clone())
        };
        out.push(d);
        assert(out.deep_view() =~= here.push(d.deep_view()));
        i = i + 1;
    }
    assert(b.take(b.len() as int) =~= b);
    let ghost first = out.deep_view();
    i = 0;
    assert(a.take(0) =~= Seq::empty());
    assert(out.deep_view() =~= first + vulns_resolved(a.take(0), b));
    while i < before.len()
        invariant
            i <= a.len(),
            a == before.deep_view(),
            b == after.deep_view(),
            out.deep_view() == first + vulns_resolved(a.take(i as int), b),
        decreases a.len() - i,
    {
        let ghost here = out.deep_view();
        proof {
            assert(a.take(i + 1).drop_last() =~= a.take(i as int));
            assert(a.take(i + 1).last() == a[i as int]);
        }
        if !after.contains_key(before.key(i)) {
            let d = VulnDelta::Resolved(before.value(i).clone());
            out.push(d);
            assert(out.deep_view() =~= here.push(d.deep_view()));
            assert(out.deep_view() =~= first + vulns_resolved(a.take(i + 1), b));
        }
        i = i + 1;
    }
    assert(a.take(a.len() as int) =~= a);
    out
}

/// What became of the components and of the vulnerabilities between two bills
/// of materials.
pub fn compute_diff(
    old_components: &Table<Component>,
    new_components: &Table<Component>,
    old_vulns: &Table<Vuln>,
    new_vulns: &Table<Vuln>,
) -> (r: (Vec<ComponentDelta>, Vec<VulnDelta>))
    ensures
        r.0.deep_view() == component_deltas(old_components.deep_view(), new_components.deep_view()),
        r.1.deep_view() == vuln_deltas(old_vulns.deep_view(), new_vulns.deep_view()),
{
    (diff_components(old_components, new_components), diff_vulns(old_vulns, new_vulns))
}

// ── Display ──────────────────────────────────────────────────────────

/// The color in which a health is shown.
pub open spec fn word_color(health: Text) -> Text {
    match of_word(health) {
        Health::Healthy => GREEN@,
        Health::Warning => YELLOW@,
        Health::Hijack => YELLOW@,
        Health::Inactive => RED@,
        Health::Dead => RED@,
        Health::Unknown => GRAY@,
    }
}

/// The color in which a severity is shown.
pub open spec fn color_of_severity(severity: Text) -> Text {
    if severity == "CRITICAL"@ || severity == "HIGH"@ {
        RED@
    } else if severity == "MEDIUM"@ || severity == "MODERATE"@ {
        YELLOW@
    } else {
        GRAY@
    }
}

/// The sign of a health.
pub fn health_emoji(health: &str) -> (r: &'static str)
    ensures
        r@ == of_word(health@).emoji(),
{
    health_of_word(health).sign()
}

/// The color in which a health is shown.
pub fn health_color(health: &str) -> (r: &'static str)
    ensures
        r@ == word_color(health@),
{
    match health_of_word(health) {
        Health::Healthy => GREEN,
        Health::Warning => YELLOW,
        Health::Hijack => YELLOW,
        Health::Inactive => RED,
        Health::Dead => RED,
        Health::Unknown => GRAY,
    }
}

/// The color in which a severity is shown.
pub fn severity_color(severity: &str) -> (r: &'static str)
    ensures
        r@ == color_of_severity(severity@),
{
    if same(severity, "CRITICAL") || same(severity, "HIGH") {
        RED
    } else if same(severity, "MEDIUM") || same(severity, "MODERATE") {
        YELLOW
    } else {
        GRAY
    }
}

/// What is said where a list of `count` entries is cut off.
pub open spec fn more_lines(count: nat) -> Seq<Text> {
    if count > MAX_LIST_ITEMS {
        seq![
            "  "@ + GRAY@ + "… and "@ + decimal((count - MAX_LIST_ITEMS) as nat) + " more"@
                + RESET@,
        ]
    } else {
        Seq::empty()
    }
}

/// A line for `count` things, such as are shown after it.
pub open spec fn count_line(color: Text, label: Text, count: nat) -> Text {
    "  "@ + color + label + decimal(count)
}

/// Adds what is said where a list of `count` entries is cut off.
fn print_more(out: &mut Vec<String>, count: usize)
    ensures
        final(out).deep_view() == old(out).deep_view() + more_lines(count as nat),
{
    if count > MAX_LIST_ITEMS {
        let mut line = "  ".to_owned();
        line.append(GRAY);
        line.append("… and ");
        line.append(number((count - MAX_LIST_ITEMS) as u64).as_str());
        line.append(" more");
        line.append(RESET);
        let ghost shown = line@;
        add_line(out, line);
        assert(out.deep_view() =~= old(out).deep_view() + seq![shown]);
    } else {
        assert(out.deep_view() =~= old(out).deep_view() + Seq::<Text>::empty());
    }
}

/// A line for `count` things.
fn count_text(color: &str, label: &str, count: usize) -> (r: String)
    ensures
        r@ == count_line(color@, label@, count as nat),
{
    let mut line = "  ".to_owned();
    line.append(color);
    line.append(label);
    line.append(number(count as u64).as_str());
    line
}

/// The entries of a list that are shown.
pub open spec fn first_items<T>(all: Seq<T>) -> Seq<T> {
    all.take(
        if all.len() < MAX_LIST_ITEMS {
            all.len() as int
        } else {
            MAX_LIST_ITEMS as int
        },
    )
}

/// What is shown of a list of `count` entries: under its title the given
/// blocks of lines, and how many more entries there are; nothing where there
/// are none.
pub open spec fn listing(title: Text, blocks: Seq<Seq<Text>>, count: nat) -> Seq<Text> {
    if count == 0 {
        Seq::empty()
    } else {
        seq![""@, title] + blocks.flatten() + more_lines(count)
    }
}

/// Adds what is shown of a list.
fn add_listing(out: &mut Vec<String>, title: &str, blocks: Vec<Vec<String>>, count: usize)
    ensures
        final(out).deep_view() == old(out).deep_view() + listing(
            title@,
            blocks.deep_view(),
            count as nat,
        ),
{
    let ghost start = out.deep_view();
    if count == 0 {
        assert(out.deep_view() =~= start + Seq::<Text>::empty());
        return;
    }
    let ghost all = blocks.deep_view();
    add_line(out, "".to_owned());
    add_line(out, title.to_owned());
    let ghost head = seq![""@, title@];
    let mut i: usize = 0;
    proof {
        assert(all.take(0) =~= Seq::empty());
        assert(all.take(0).flatten() =~= Seq::<Text>::empty());
        assert(out.deep_view() =~= start + (head + all.take(0).flatten()));
    }
    while i < blocks.len()
        invariant
            i <= blocks.len(),
            all == blocks.deep_view(),
            out.deep_view() == start + (head + all.take(i as int).flatten()),
        decreases blocks.len() - i,
    {
        proof {
            assert(all[i as int] == blocks[i as int].deep_view());
            assert(all.take(i + 1) =~= all.take(i as int).push(all[i as int]));
            all.take(i as int).lemma_flatten_push(all[i as int]);
        }
        add_lines(out, crate::types::copy_texts(&blocks[i]));
        assert(out.deep_view() =~= start + (head + all.take(i + 1).flatten()));
        i = i + 1;
    }
    assert(all.take(blocks.len() as int) =~= all);
    print_more(out, count);
    assert(out.deep_view() =~= start + listing(title@, all, count as nat));
}

// Components

/// The added components.
pub open spec fn added_in(deltas: Seq<ComponentDeltaView>) -> Seq<ComponentView>
    decreases deltas.len(),
{
    if deltas.len() == 0 {
        Seq::empty()
    } else {
        match deltas.last() {
            ComponentDeltaView::Added(c) => added_in(deltas.drop_last()).push(c),
            _ => added_in(deltas.drop_last()),
        }
    }
}

/// The changed components, each before and after.
pub open spec fn changed_in(deltas: Seq<ComponentDeltaView>) -> Seq<(ComponentView, ComponentView)>
    decreases deltas.len(),
{
    if deltas.len() == 0 {
        Seq::empty()
    } else {
        match deltas.last() {
            ComponentDeltaView::Changed(a, b) => changed_in(deltas.drop_last()).push((a, b)),
            _ => changed_in(deltas.drop_last()),
        }
    }
}

/// The removed components.
pub open spec fn removed_in(deltas: Seq<ComponentDeltaView>) -> Seq<ComponentView>
    decreases deltas.len(),
{
    if deltas.len() == 0 {
        Seq::empty()
    } else {
        match deltas.last() {
            ComponentDeltaView::Removed(c) => removed_in(deltas.drop_last()).push(c),
            _ => removed_in(deltas.drop_last()),
        }
    }
}

/// The line of a component, in the given color.
pub open spec fn component_line(color: Text, c: ComponentView) -> Text {
    "  "@ + color + of_word(c.health).emoji() + " "@ + c.name + " v"@ + c.version + " — "@ + c.purl
        + RESET@
}

/// The line of a changed component.
pub open spec fn changed_line(a: ComponentView, b: ComponentView) -> Text {
    "  "@ + YELLOW@ + "⚠️ "@ + a.name + " v"@ + a.version + " "@ + RESET@ + "→"@ + YELLOW@ + " v"@
        + b.version + " — "@ + b.purl + RESET@
}

/// What is shown of the components.
pub open spec fn component_lines(deltas: Seq<ComponentDeltaView>) -> Seq<Text> {
    let added = added_in(deltas);
    let changed = changed_in(deltas);
    let removed = removed_in(deltas);
    seq![
        ""@,
        "Components"@,
        count_line(GREEN@, "🆕 Added:   "@, added.len()),
        count_line(YELLOW@, "🔄 Changed: "@, changed.len()),
        count_line(RED@, "🗑  Removed: "@, removed.len()),
        RESET@,
    ] + listing(
        "── Added ──────────────────────────────"@,
        first_items(added).map_values(
            |c: ComponentView| seq![component_line(word_color(c.health), c)],
        ),
        added.len(),
    ) + listing(
        "── Changed ────────────────────────────"@,
        first_items(changed).map_values(
            |p: (ComponentView, ComponentView)| seq![changed_line(p.0, p.1)],
        ),
        changed.len(),
    ) + listing(
        "── Removed ────────────────────────────"@,
        first_items(removed).map_values(|c: ComponentView| seq![component_line(RED@, c)]),
        removed.len(),
    )
}

/// A block of one line.
fn one_line(line: String) -> (r: Vec<String>)
    ensures
        r.deep_view() == seq![line@],
{
    let mut out: Vec<String> = Vec::new();
    let ghost shown = line@;
    add_line(&mut out, line);
    assert(out.deep_view() =~= seq![shown]);
    out
}

/// The line of a component, in the given color.
fn component_text(color: &str, c: &Component) -> (r: String)
    ensures
        r@ == component_line(color@, c.deep_view()),
{
    let mut line = "  ".to_owned();
    line.append(color);
    line.append(health_emoji(c.health.as_str()));
    line.append(" ");
    line.append(c.name.as_str());
    line.append(" v");
    line.append(c.version.as_str());
    line.append(" — ");
    line.append(c.purl.as_str());
    line.append(RESET);
    line
}

/// The line of a changed component.
fn changed_text(a: &Component, b: &Component) -> (r: String)
    ensures
        r@ == changed_line(a.deep_view(), b.deep_view()),
{
    let mut line = "  ".to_owned();
    line.append(YELLOW);
    line.append("⚠️ ");
    line.append(a.name.as_str());
    line.append(" v");
    line.append(a.version.as_str());
    line.append(" ");
    line.append(RESET);
    line.append("→");
    line.append(YELLOW);
    line.append(" v");
    line.append(b.version.as_str());
    line.append(" — ");
    line.append(b.purl.as_str());
    line.append(RESET);
    line
}

/// The added, the changed and the removed components.
fn grouped(deltas: &Vec<ComponentDelta>) -> (r: (
    Vec<&Component>,
    Vec<(&Component, &Component)>,
    Vec<&Component>,
))
    ensures
        r.0.deep_view() == added_in(deltas.deep_view()),
        r.1.deep_view() == changed_in(deltas.deep_view()),
        r.2.deep_view() == removed_in(deltas.deep_view()),
{
    let mut added: Vec<&Component> = Vec::new();
    let mut changed: Vec<(&Component, &Component)> = Vec::new();
    let mut removed: Vec<&Component> = Vec::new();
    let ghost all = deltas.deep_view();
    let mut i: usize = 0;
    assert(all.take(0) =~= Seq::empty());
    assert(added.deep_view() =~= Seq::empty());
    assert(changed.deep_view() =~= Seq::empty());
    assert(removed.deep_view() =~= Seq::empty());
    while i < deltas.len()
        invariant
            i <= deltas.len(),
            all == deltas.deep_view(),
            added.deep_view() == added_in(all.take(i as int)),
            changed.deep_view() == changed_in(all.take(i as int)),
            removed.deep_view() == removed_in(all.take(i as int)),
        decreases deltas.len() - i,
    {
        proof {
            assert(all.take(i + 1).drop_last() =~= all.take(i as int));
            assert(all.take(i + 1).last() == deltas[i as int].deep_view());
        }
        match &deltas[i] {
            ComponentDelta::Added(c) => {
                let ghost before = added.deep_view();
                added.push(c);
                assert(added.deep_view() =~= before.push(c.deep_view()));
            },
            ComponentDelta::Changed { old: a, new: b } => {
                let ghost before = changed.deep_view();
                changed.push((a, b));
                assert(changed.deep_view() =~= before.push((a.deep_view(), b.deep_view())));
            },
            ComponentDelta::Removed(c) => {
                let ghost before = removed.deep_view();
                removed.push(c);
                assert(removed.deep_view() =~= before.push(c.deep_view()));
            },
        }
        i = i + 1;
    }
    assert(all.take(deltas.len() as int) =~= all);
    (added, changed, removed)
}

/// The blocks of the first of some added components.
fn added_blocks(all: &Vec<&Component>) -> (r: Vec<Vec<String>>)
    ensures
        r.deep_view() == first_items(all.deep_view()).map_values(
            |c: ComponentView| seq![component_line(word_color(c.health), c)],
        ),
{
    let mut out: Vec<Vec<String>> = Vec::new();
    let ghost f = |c: ComponentView| seq![component_line(word_color(c.health), c)];
    let ghost view = all.deep_view();
    let mut i: usize = 0;
    assert(out.deep_view() =~= view.take(0).map_values(f));
    while i < all.len() && i < MAX_LIST_ITEMS
        invariant
            i <= all.len(),
            i <= MAX_LIST_ITEMS,
            view == all.deep_view(),
            f == (|c: ComponentView| seq![component_line(word_color(c.health), c)]),
            out.deep_view() == view.take(i as int).map_values(f),
        decreases all.len() - i,
    {
        let ghost before = out.deep_view();
        let block = one_line(component_text(health_color(all[i].health.as_str()), all[i]));
        out.push(block);
        proof {
            assert(view[i as int] == all[i as int].deep_view());
            assert(out.deep_view() =~= before.push(f(view[i as int])));
            assert(out.deep_view() =~= view.take(i + 1).map_values(f));
        }
        i = i + 1;
    }
    out
}

/// The blocks of the first of some changed components.
fn changed_blocks(all: &Vec<(&Component, &Component)>) -> (r: Vec<Vec<String>>)
    ensures
        r.deep_view() == first_items(all.deep_view()).map_values(
            |p: (ComponentView, ComponentView)| seq![changed_line(p.0, p.1)],
        ),
{
    let mut out: Vec<Vec<String>> = Vec::new();
    let ghost f = |p: (ComponentView, ComponentView)| seq![changed_line(p.0, p.1)];
    let ghost view = all.deep_view();
    let mut i: usize = 0;
    assert(out.deep_view() =~= view.take(0).map_values(f));
    while i < all.len() && i < MAX_LIST_ITEMS
        invariant
            i <= all.len(),
            i <= MAX_LIST_ITEMS,
            view == all.deep_view(),
            f == (|p: (ComponentView, ComponentView)| seq![changed_line(p.0, p.1)]),
            out.deep_view() == view.take(i as int).map_values(f),
        decreases all.len() - i,
    {
        let ghost before = out.deep_view();
        let block = one_line(changed_text(all[i].0, all[i].1));
        out.push(block);
        proof {
            assert(view[i as int] == all[i as int].deep_view());
            assert(out.deep_view() =~= before.push(f(view[i as int])));
            assert(out.deep_view() =~= view.take(i + 1).map_values(f));
        }
        i = i + 1;
    }
    out
}

/// The blocks of the first of some removed components.
fn removed_blocks(all: &Vec<&Component>) -> (r: Vec<Vec<String>>)
    ensures
        r.deep_view() == first_items(all.deep_view()).map_values(
            |c: ComponentView| seq![component_line(RED@, c)],
        ),
{
    let mut out: Vec<Vec<String>> = Vec::new();
    let ghost f = |c: ComponentView| seq![component_line(RED@, c)];
    let ghost view = all.deep_view();
    let mut i: usize = 0;
    assert(out.deep_view() =~= view.take(0).map_values(f));
    while i < all.len() && i < MAX_LIST_ITEMS
        invariant
            i <= all.len(),
            i <= MAX_LIST_ITEMS,
            view == all.deep_view(),
            f == (|c: ComponentView| seq![component_line(RED@, c)]),
            out.deep_view() == view.take(i as int).map_values(f),
        decreases all.len() - i,
    {
        let ghost before = out.deep_view();
        let block = one_line(component_text(RED, all[i]));
        out.push(block);
        proof {
            assert(view[i as int] == all[i as int].deep_view());
            assert(out.deep_view() =~= before.push(f(view[i as int])));
            assert(out.deep_view() =~= view.take(i + 1).map_values(f));
        }
        i = i + 1;
    }
    out
}

/// What is shown of the components.
pub fn print_component_delta(deltas: &Vec<ComponentDelta>) -> (r: Vec<String>)
    ensures
        r.deep_view() == component_lines(deltas.deep_view()),
{
    let (added, changed, removed) = grouped(deltas);
    assert(added.deep_view().len() == added.len());
    assert(changed.deep_view().len() == changed.len());
    assert(removed.deep_view().len() == removed.len());
    let mut out: Vec<String> = Vec::new();
    add_line(&mut out, "".to_owned());
    add_line(&mut out, "Components".to_owned());
    add_line(&mut out, count_text(GREEN, "🆕 Added:   ", added.len()));
    add_line(&mut out, count_text(YELLOW, "🔄 Changed: ", changed.len()));
    add_line(&mut out, count_text(RED, "🗑  Removed: ", removed.len()));
    add_line(&mut out, RESET.to_owned());
    assert(out.deep_view() =~= seq![
        ""@,
        "Components"@,
        count_line(GREEN@, "🆕 Added:   "@, added_in(deltas.deep_view()).len()),
        count_line(YELLOW@, "🔄 Changed: "@, changed_in(deltas.deep_view()).len()),
        count_line(RED@, "🗑  Removed: "@, removed_in(deltas.deep_view()).len()),
        RESET@,
    ]);
    add_listing(
        &mut out,
        "── Added ──────────────────────────────",
        added_blocks(&added),
        added.len(),
    );
    add_listing(
        &mut out,
        "── Changed ────────────────────────────",
        changed_blocks(&changed),
        changed.len(),
    );
    add_listing(
        &mut out,
        "── Removed ────────────────────────────",
        removed_blocks(&removed),
        removed.len(),
    );
    out
}

// Vulnerabilities

/// The new vulnerabilities.
pub open spec fn new_in(deltas: Seq<VulnDeltaView>) -> Seq<VulnEntryView>
    decreases deltas.len(),
{
    if deltas.len() == 0 {
        Seq::empty()
    } else {
        match deltas.last() {
            VulnDeltaView::New(v) => new_in(deltas.drop_last()).push(v),
            _ => new_in(deltas.drop_last()),
        }
    }
}

/// The vulnerabilities that are gone.
pub open spec fn resolved_in(deltas: Seq<VulnDeltaView>) -> Seq<VulnEntryView>
    decreases deltas.len(),
{
    if deltas.len() == 0 {
        Seq::empty()
    } else {
        match deltas.last() {
            VulnDeltaView::Resolved(v) => resolved_in(deltas.drop_last()).push(v),
            _ => resolved_in(deltas.drop_last()),
        }
    }
}

/// How many vulnerabilities were there already.
pub open spec fn unchanged_in(deltas: Seq<VulnDeltaView>) -> nat
    decreases deltas.len(),
{
    if deltas.len() == 0 {
        0
    } else {
        unchanged_in(deltas.drop_last()) + if deltas.last() is Unchanged {
            1nat
        } else {
            0
        }
    }
}

/// A description, one of more than 60 bytes cut off after the last character
/// that ends within the first 57.
pub open spec fn short(description: Text) -> Text {
    if byte_len(description) > 60 {
        cut_off(description, 57) + "…"@
    } else {
        description
    }
}

/// What is shown of a new vulnerability.
pub open spec fn new_vuln_lines(v: VulnEntryView) -> Seq<Text> {
    seq![
        "  "@ + color_of_severity(v.severity) + "🚨 "@ + v.id + " ["@ + (if v.severity.len() == 0 {
            "UNKNOWN"@
        } else {
            v.severity
        }) + "] "@ + short(v.description) + RESET@,
    ] + if v.purl.len() == 0 {
        Seq::empty()
    } else {
        seq!["     affects: "@ + v.purl]
    }
}

/// What is shown of a vulnerability that is gone.
pub open spec fn resolved_line(v: VulnEntryView) -> Text {
    "  "@ + GREEN@ + "✅ "@ + v.id + " — No longer present"@ + RESET@
}

/// What is shown of the vulnerabilities.
pub open spec fn vuln_lines(deltas: Seq<VulnDeltaView>) -> Seq<Text> {
    seq![
        ""@,
        "Vulnerabilities"@,
        count_line(RED@, "🚨 New:      "@, new_in(deltas).len()),
        count_line(GREEN@, "✅ Resolved: "@, resolved_in(deltas).len()),
        count_line(GRAY@, "➖ Unchanged: "@, unchanged_in(deltas)),
        RESET@,
    ] + listing(
        "── New CVEs ───────────────────────────"@,
        first_items(new_in(deltas)).map_values(|v: VulnEntryView| new_vuln_lines(v)),
        new_in(deltas).len(),
    ) + listing(
        "── Resolved CVEs ──────────────────────"@,
        first_items(resolved_in(deltas)).map_values(|v: VulnEntryView| seq![resolved_line(v)]),
        resolved_in(deltas).len(),
    )
}

/// A description, one of more than 60 bytes cut off after the last character
/// that ends within the first 57.
fn short_text(description: &str) -> (r: String)
    ensures
        r@ == short(description@),
{
    if longer_than(description, 60) {
        let mut text = cut(description, 57).to_owned();
        text.append("…");
        text
    } else {
        description.to_owned()
    }
}

/// What is shown of a new vulnerability.
fn new_vuln_block(v: &Vuln) -> (r: Vec<String>)
    ensures
        r.deep_view() == new_vuln_lines(v.deep_view()),
{
    let mut line = "  ".to_owned();
    line.append(severity_color(v.severity.as_str()));
    line.append("🚨 ");
    line.append(v.id.as_str());
    line.append(" [");
    line.append(
        if v.severity.as_str().is_empty() {
            "UNKNOWN"
        } else {
            v.severity.as_str()
        },
    );
    line.append("] ");
    line.append(short_text(v.description.as_str()).as_str());
    line.append(RESET);
    let mut out = one_line(line);
    let ghost head = out.deep_view();
    if v.purl.as_str().is_empty() {
        assert(head + Seq::<Text>::empty() =~= head);
    } else {
        let mut affects = "     affects: ".to_owned();
        affects.append(v.purl.as_str());
        let ghost shown = affects@;
        add_line(&mut out, affects);
        assert(out.deep_view() =~= head + seq![shown]);
    }
    out
}

/// What is shown of a vulnerability that is gone.
fn resolved_block(v: &Vuln) -> (r: Vec<String>)
    ensures
        r.deep_view() == seq![resolved_line(v.deep_view())],
{
    let mut line = "  ".to_owned();
    line.append(GREEN);
    line.append("✅ ");
    line.append(v.id.as_str());
    line.append(" — No longer present");
    line.append(RESET);
    one_line(line)
}

/// The new vulnerabilities.
fn new_vulns(deltas: &Vec<VulnDelta>) -> (r: Vec<&Vuln>)
    ensures
        r.deep_view() == new_in(deltas.deep_view()),
{
    let mut out: Vec<&Vuln> = Vec::new();
    let ghost all = deltas.deep_view();
    let mut i: usize = 0;
    assert(all.take(0) =~= Seq::empty());
    assert(out.deep_view() =~= Seq::empty());
    while i < deltas.len()
        invariant
            i <= deltas.len(),
            all == deltas.deep_view(),
            out.deep_view() == new_in(all.take(i as int)),
        decreases deltas.len() - i,
    {
        proof {
            assert(all.take(i + 1).drop_last() =~= all.take(i as int));
            assert(all.take(i + 1).last() == deltas[i as int].deep_view());
        }
        if let VulnDelta::New(v) = &deltas[i] {
            let ghost before = out.deep_view();
            out.push(v);
            assert(out.deep_view() =~= before.push(v.deep_view()));
        }
        i = i + 1;
    }
    assert(all.take(deltas.len() as int) =~= all);
    out
}

/// The vulnerabilities that are gone.
fn resolved_vulns(deltas: &Vec<VulnDelta>) -> (r: Vec<&Vuln>)
    ensures
        r.deep_view() == resolved_in(deltas.deep_view()),
{
    let mut out: Vec<&Vuln> = Vec::new();
    let ghost all = deltas.deep_view();
    let mut i: usize = 0;
    assert(all.take(0) =~= Seq::empty());
    assert(out.deep_view() =~= Seq::empty());
    while i < deltas.len()
        invariant
            i <= deltas.len(),
            all == deltas.deep_view(),
            out.deep_view() == resolved_in(all.take(i as int)),
        decreases deltas.len() - i,
    {
        proof {
            assert(all.take(i + 1).drop_last() =~= all.take(i as int));
            assert(all.take(i + 1).last() == deltas[i as int].deep_view());
        }
        if let VulnDelta::Resolved(v) = &deltas[i] {
            let ghost before = out.deep_view();
            out.push(v);
            assert(out.deep_view() =~= before.push(v.deep_view()));
        }
        i = i + 1;
    }
    assert(all.take(deltas.len() as int) =~= all);
    out
}

/// How many vulnerabilities were there already.
fn count_unchanged(deltas: &Vec<VulnDelta>) -> (r: usize)
    ensures
        r == unchanged_in(deltas.deep_view()),
{
    let mut n: usize = 0;
    let ghost all = deltas.deep_view();
    let mut i: usize = 0;
    assert(all.take(0) =~= Seq::empty());
    while i < deltas.len()
        invariant
            i <= deltas.len(),
            n <= i,
            all == deltas.deep_view(),
            n == unchanged_in(all.take(i as int)),
        decreases deltas.len() - i,
    {
        proof {
            assert(all.take(i + 1).drop_last() =~= all.take(i as int));
            assert(all.take(i + 1).last() == deltas[i as int].deep_view());
        }
        if let VulnDelta::Unchanged(_) = &deltas[i] {
            n = n + 1;
        }
        i = i + 1;
    }
    assert(all.take(deltas.len() as int) =~= all);
    n
}

/// The blocks of the first of some new vulnerabilities.
fn new_vuln_blocks(all: &Vec<&Vuln>) -> (r: Vec<Vec<String>>)
    ensures
        r.deep_view() == first_items(all.deep_view()).map_values(
            |v: VulnEntryView| new_vuln_lines(v),
        ),
{
    let mut out: Vec<Vec<String>> = Vec::new();
    let ghost f = |v: VulnEntryView| new_vuln_lines(v);
    let ghost view = all.deep_view();
    let mut i: usize = 0;
    assert(out.deep_view() =~= view.take(0).map_values(f));
    while i < all.len() && i < MAX_LIST_ITEMS
        invariant
            i <= all.len(),
            i <= MAX_LIST_ITEMS,
            view == all.deep_view(),
            f == (|v: VulnEntryView| new_vuln_lines(v)),
            out.deep_view() == view.take(i as int).map_values(f),
        decreases all.len() - i,
    {
        assert(view[i as int] == all[i as int].deep_view());
        let ghost before = out.deep_view();
        let block = new_vuln_block(all[i]);
        out.push(block);
        proof {
            assert(out.deep_view() =~= before.push(f(view[i as int])));
            assert(out.deep_view() =~= view.take(i + 1).map_values(f));
        }
        i = i + 1;
    }
    out
}

/// The blocks of the first of some vulnerabilities that are gone.
fn resolved_blocks(all: &Vec<&Vuln>) -> (r: Vec<Vec<String>>)
    ensures
        r.deep_view() == first_items(all.deep_view()).map_values(
            |v: VulnEntryView| seq![resolved_line(v)],
        ),
{
    let mut out: Vec<Vec<String>> = Vec::new();
    let ghost f = |v: VulnEntryView| seq![resolved_line(v)];
    let ghost view = all.deep_view();
    let mut i: usize = 0;
    assert(out.deep_view() =~= view.take(0).map_values(f));
    while i < all.len() && i < MAX_LIST_ITEMS
        invariant
            i <= all.len(),
            i <= MAX_LIST_ITEMS,
            view == all.deep_view(),
            f == (|v: VulnEntryView| seq![resolved_line(v)]),
            out.deep_view() == view.take(i as int).map_values(f),
        decreases all.len() - i,
    {
        let ghost before = out.deep_view();
        let block = resolved_block(all[i]);
        out.push(block);
        proof {
            assert(view[i as int] == all[i as int].deep_view());
            assert(out.deep_view() =~= before.push(f(view[i as int])));
            assert(out.deep_view() =~= view.take(i + 1).map_values(f));
        }
        i = i + 1;
    }
    out
}

/// What is shown of the vulnerabilities.
pub fn print_vuln_delta(deltas: &Vec<VulnDelta>) -> (r: Vec<String>)
    ensures
        r.deep_view() == vuln_lines(deltas.deep_view()),
{
    let fresh = new_vulns(deltas);
    let gone = resolved_vulns(deltas);
    let unchanged = count_unchanged(deltas);
    assert(fresh.deep_view().len() == fresh.len());
    assert(gone.deep_view().len() == gone.len());
    let mut out: Vec<String> = Vec::new();
    add_line(&mut out, "".to_owned());
    add_line(&mut out, "Vulnerabilities".to_owned());
    add_line(&mut out, count_text(RED, "🚨 New:      ", fresh.len()));
    add_line(&mut out, count_text(GREEN, "✅ Resolved: ", gone.len()));
    add_line(&mut out, count_text(GRAY, "➖ Unchanged: ", unchanged));
    add_line(&mut out, RESET.to_owned());
    assert(out.deep_view() =~= seq![
        ""@,
        "Vulnerabilities"@,
        count_line(RED@, "🚨 New:      "@, new_in(deltas.deep_view()).len()),
        count_line(GREEN@, "✅ Resolved: "@, resolved_in(deltas.deep_view()).len()),
        count_line(GRAY@, "➖ Unchanged: "@, unchanged_in(deltas.deep_view())),
        RESET@,
    ]);
    add_listing(
        &mut out,
        "── New CVEs ───────────────────────────",
        new_vuln_blocks(&fresh),
        fresh.len(),
    );
    add_listing(
        &mut out,
        "── Resolved CVEs ──────────────────────",
        resolved_blocks(&gone),
        gone.len(),
    );
    out
}

// ── Entry point ──────────────────────────────────────────────────────

/// The components and vulnerabilities of a bill of materials, or why there
/// are none.
pub type Parsed = Result<(Table<Component>, Table<Vuln>), String>;

/// Every vulnerability is unchanged.
pub open spec fn all_unchanged(deltas: Seq<VulnDeltaView>) -> bool {
    forall|i: int| 0 <= i < deltas.len() ==> (#[trigger] deltas[i]) is Unchanged
}

/// What is shown of the difference between two bills of materials.
pub open spec fn difference(
    old_path: Text,
    new_path: Text,
    components: Seq<ComponentDeltaView>,
    vulns: Seq<VulnDeltaView>,
) -> Seq<Text> {
    if components.len() == 0 && all_unchanged(vulns) {
        seq!["✅ No differences found between the two SBOMs"@]
    } else {
        seq!["📊 SBOM Diff — "@ + old_path + " → "@ + new_path, ""@] + (if components.len() == 0 {
            Seq::empty()
        } else {
            component_lines(components)
        }) + (if vulns.len() == 0 {
            Seq::empty()
        } else {
            vuln_lines(vulns)
        }) + seq![
            GRAY@ + "──────────────────────────────────────────────────"@ + RESET@,
            ""@,
        ]
    }
}

/// Whether every vulnerability is unchanged.
fn only_unchanged(deltas: &Vec<VulnDelta>) -> (r: bool)
    ensures
        r == all_unchanged(deltas.deep_view()),
{
    let mut i: usize = 0;
    while i < deltas.len()
        invariant
            i <= deltas.len(),
            forall|k: int| 0 <= k < i ==> (#[trigger] deltas.deep_view()[k]) is Unchanged,
        decreases deltas.len() - i,
    {
        assert(deltas.deep_view()[i as int] == deltas[i as int].deep_view());
        if let VulnDelta::Unchanged(_) = &deltas[i] {
            i = i + 1;
        } else {
            return false;
        }
    }
    true
}

/// What is shown of the difference between two bills of materials.
pub fn show_difference(
    old_path: &str,
    new_path: &str,
    components: &Vec<ComponentDelta>,
    vulns: &Vec<VulnDelta>,
) -> (r: Vec<String>)
    ensures
        r.deep_view() == difference(
            old_path@,
            new_path@,
            components.deep_view(),
            vulns.deep_view(),
        ),
{
    assert(components.deep_view().len() == components.len());
    assert(vulns.deep_view().len() == vulns.len());
    if components.len() == 0 && only_unchanged(vulns) {
        return one_line("✅ No differences found between the two SBOMs".to_owned());
    }
    let mut title = "📊 SBOM Diff — ".to_owned();
    title.append(old_path);
    title.append(" → ");
    title.append(new_path);
    let ghost shown = title@;
    let mut out = one_line(title);
    add_line(&mut out, "".to_owned());
    assert(out.deep_view() =~= seq![shown, ""@]);
    let ghost head = out.deep_view();
    if components.len() > 0 {
        add_lines(&mut out, print_component_delta(components));
    } else {
        assert(head + Seq::<Text>::empty() =~= head);
    }
    let ghost middle = out.deep_view();
    if vulns.len() > 0 {
        add_lines(&mut out, print_vuln_delta(vulns));
    } else {
        assert(middle + Seq::<Text>::empty() =~= middle);
    }
    let ghost body = out.deep_view();
    let mut footer = GRAY.to_owned();
    footer.append("──────────────────────────────────────────────────");
    footer.append(RESET);
    let ghost rule = footer@;
    add_line(&mut out, footer);
    add_line(&mut out, "".to_owned());
    assert(out.deep_view() =~= body + seq![rule, ""@]);
    out
}

/// Compare two SBOM JSON files: what is shown of their difference, or why
/// one of them could not be read.
pub fn run(old_path: &str, new_path: &str, before: &Parsed, after: &Parsed) -> (r: Result<
    Vec<String>,
    String,
>)
    ensures
        match (*before, *after) {
            (Err(e), _) => r matches Err(m) && m@ == e@,
            (Ok(_), Err(e)) => r matches Err(m) && m@ == e@,
            (Ok(a), Ok(b)) => r matches Ok(lines) && lines.deep_view() == difference(
                old_path@,
                new_path@,
                component_deltas(a.0.deep_view(), b.0.deep_view()),
                vuln_deltas(a.1.deep_view(), b.1.deep_view()),
            ),
        },
{
    match before {
        Err(e) => Err(e.clone()),
        Ok(a) => match after {
            Err(e) => Err(e.clone()),
            Ok(b) => {
                let (components, vulns) = compute_diff(&a.0, &b.0, &a.1, &b.1);
                Ok(show_difference(old_path, new_path, &components, &vulns))
            },
        },
    }
}

// ── Laws ─────────────────────────────────────────────────────────────

/// However often a package URL or an id occurs in a file, it is one entry of
/// what is read from it.
pub proof fn law_read_entries_are_unique(
    components: Seq<ComponentRawView>,
    vulns: Seq<VulnRawView>,
)
    ensures
        unique(component_index(components)),
        unique(vuln_index(vulns, components)),
{
    lemma_component_index_unique(components);
    lemma_vuln_index_unique(vulns, components);
}

proof fn lemma_component_index_unique(all: Seq<ComponentRawView>)
    ensures
        unique(component_index(all)),
    decreases all.len(),
{
    if all.len() > 0 {
        lemma_component_index_unique(all.drop_last());
        law_put_keeps_keys_unique(
            component_index(all.drop_last()),
            all.last().purl,
            component_of(all.last()),
        );
    }
}

proof fn lemma_vuln_index_unique(all: Seq<VulnRawView>, components: Seq<ComponentRawView>)
    ensures
        unique(vuln_index(all, components)),
    decreases all.len(),
{
    if all.len() > 0 {
        lemma_vuln_index_unique(all.drop_last(), components);
        law_put_keeps_keys_unique(
            vuln_index(all.drop_last(), components),
            all.last().id,
            vuln_entry(all.last(), components),
        );
    }
}

/// What became of the component under a key.
pub open spec fn component_change(
    old: Option<ComponentView>,
    new: Option<ComponentView>,
) -> Option<ComponentDeltaView> {
    match (old, new) {
        (None, Some(c)) => Some(ComponentDeltaView::Added(c)),
        (Some(a), Some(b)) => if a.version != b.version {
            Some(ComponentDeltaView::Changed(a, b))
        } else {
            None
        },
        (Some(c), None) => Some(ComponentDeltaView::Removed(c)),
        (None, None) => None,
    }
}

proof fn lemma_component_changes(
    old: Seq<(Text, ComponentView)>,
    new: Seq<(Text, ComponentView)>,
    d: ComponentDeltaView,
)
    ensures
        component_changes(old, new).contains(d) <==> exists|i: int|
            0 <= i < new.len() && component_change(
                value_of(old, (#[trigger] new[i]).0),
                Some(new[i].1),
            ) == Some(d),
    decreases new.len(),
{
    if new.len() > 0 {
        let init = new.drop_last();
        lemma_component_changes(old, init, d);
        let here = component_changes(old, new);
        let rest = component_changes(old, init);
        let n = new.len() - 1;
        assert(new[n] == new.last());
        if here.contains(d) {
            let k = choose|k: int| 0 <= k < here.len() && here[k] == d;
            if k < rest.len() {
                assert(rest[k] == d);
                let i = choose|i: int|
                    0 <= i < init.len() && component_change(
                        value_of(old, (#[trigger] init[i]).0),
                        Some(init[i].1),
                    ) == Some(d);
                assert(new[i] == init[i]);
            }
        }
        if exists|i: int|
            0 <= i < new.len() && component_change(
                value_of(old, (#[trigger] new[i]).0),
                Some(new[i].1),
            ) == Some(d) {
            let i = choose|i: int|
                0 <= i < new.len() && component_change(
                    value_of(old, (#[trigger] new[i]).0),
                    Some(new[i].1),
                ) == Some(d);
            if i < n {
                assert(init[i] == new[i]);
                let k = choose|k: int| 0 <= k < rest.len() && rest[k] == d;
                assert(here[k] == d);
            } else {
                assert(here[here.len() - 1] == d);
            }
        }
    }
}

proof fn lemma_component_removals(
    old: Seq<(Text, ComponentView)>,
    new: Seq<(Text, ComponentView)>,
    d: ComponentDeltaView,
)
    ensures
        component_removals(old, new).contains(d) <==> exists|i: int|
            0 <= i < old.len() && value_of(new, (#[trigger] old[i]).0) is None && d
                == ComponentDeltaView::Removed(old[i].1),
    decreases old.len(),
{
    if old.len() > 0 {
        let init = old.drop_last();
        lemma_component_removals(init, new, d);
        let here = component_removals(old, new);
        let rest = component_removals(init, new);
        let n = old.len() - 1;
        assert(old[n] == old.last());
        if here.contains(d) {
            let k = choose|k: int| 0 <= k < here.len() && here[k] == d;
            if k < rest.len() {
                assert(rest[k] == d);
                let i = choose|i: int|
                    0 <= i < init.len() && value_of(new, (#[trigger] init[i]).0) is None && d
                        == ComponentDeltaView::Removed(init[i].1);
                assert(old[i] == init[i]);
            }
        }
        if exists|i: int|
            0 <= i < old.len() && value_of(new, (#[trigger] old[i]).0) is None && d
                == ComponentDeltaView::Removed(old[i].1) {
            let i = choose|i: int|
                0 <= i < old.len() && value_of(new, (#[trigger] old[i]).0) is None && d
                    == ComponentDeltaView::Removed(old[i].1);
            if i < n {
                assert(init[i] == old[i]);
                let k = choose|k: int| 0 <= k < rest.len() && rest[k] == d;
                assert(here[k] == d);
            } else {
                assert(here[here.len() - 1] == d);
            }
        }
    }
}

/// The deltas of the components are exactly what became of them, package URL
/// by package URL: what only the new bill has was added, what only the old one
/// has was removed, and what both have in different versions was changed.
pub proof fn law_component_deltas(
    old: Seq<(Text, ComponentView)>,
    new: Seq<(Text, ComponentView)>,
    d: ComponentDeltaView,
)
    requires
        unique(old),
        unique(new),
    ensures
        component_deltas(old, new).contains(d) <==> exists|key: Text| #[trigger]
            component_change(value_of(old, key), value_of(new, key)) == Some(d),
{
    let first = component_changes(old, new);
    let second = component_removals(old, new);
    let all = component_deltas(old, new);
    lemma_component_changes(old, new, d);
    lemma_component_removals(old, new, d);
    if all.contains(d) {
        let k = choose|k: int| 0 <= k < all.len() && all[k] == d;
        if k < first.len() {
            assert(first[k] == d);
            let i = choose|i: int|
                0 <= i < new.len() && component_change(
                    value_of(old, (#[trigger] new[i]).0),
                    Some(new[i].1),
                ) == Some(d);
            lemma_value_of_entry(new, i);
            assert(component_change(value_of(old, new[i].0), value_of(new, new[i].0)) == Some(d));
        } else {
            assert(second[k - first.len()] == d);
            let i = choose|i: int|
                0 <= i < old.len() && value_of(new, (#[trigger] old[i]).0) is None && d
                    == ComponentDeltaView::Removed(old[i].1);
            lemma_value_of_entry(old, i);
            assert(component_change(value_of(old, old[i].0), value_of(new, old[i].0)) == Some(d));
        }
    }
    if exists|key: Text| #[trigger]
        component_change(value_of(old, key), value_of(new, key)) == Some(d) {
        let key = choose|key: Text| #[trigger]
            component_change(value_of(old, key), value_of(new, key)) == Some(d);
        lemma_value_of(new, key);
        lemma_value_of(old, key);
        if value_of(new, key) is Some {
            let w = value_of(new, key)->0;
            let i = choose|i: int| 0 <= i < new.len() && #[trigger] new[i] == (key, w);
            assert(component_change(value_of(old, new[i].0), Some(new[i].1)) == Some(d));
            assert(first.contains(d));
            let k = choose|k: int| 0 <= k < first.len() && first[k] == d;
            assert(all[k] == d);
        } else {
            let w = value_of(old, key)->0;
            let i = choose|i: int| 0 <= i < old.len() && #[trigger] old[i] == (key, w);
            assert(value_of(new, old[i].0) is None);
            assert(second.contains(d));
            let k = choose|k: int| 0 <= k < second.len() && second[k] == d;
            assert(all[first.len() + k] == d);
        }
    }
}

/// With the two bills exchanged, added components are removed ones and the
/// other way round.
pub proof fn law_exchange_swaps_added_and_removed(
    old: Seq<(Text, ComponentView)>,
    new: Seq<(Text, ComponentView)>,
    c: ComponentView,
)
    requires
        unique(old),
        unique(new),
    ensures
        component_deltas(old, new).contains(ComponentDeltaView::Added(c)) <==> component_deltas(
            new,
            old,
        ).contains(ComponentDeltaView::Removed(c)),
{
    let added = ComponentDeltaView::Added(c);
    let removed = ComponentDeltaView::Removed(c);
    law_component_deltas(old, new, added);
    law_component_deltas(new, old, removed);
    if component_deltas(old, new).contains(added) {
        let key = choose|key: Text| #[trigger]
            component_change(value_of(old, key), value_of(new, key)) == Some(added);
        assert(component_change(value_of(new, key), value_of(old, key)) == Some(removed));
    }
    if component_deltas(new, old).contains(removed) {
        let key = choose|key: Text| #[trigger]
            component_change(value_of(new, key), value_of(old, key)) == Some(removed);
        assert(component_change(value_of(old, key), value_of(new, key)) == Some(added));
    }
}

proof fn lemma_vulns_split(a: Seq<VulnDeltaView>, b: Seq<VulnDeltaView>)
    ensures
        new_in(a + b).len() == new_in(a).len() + new_in(b).len(),
        resolved_in(a + b).len() == resolved_in(a).len() + resolved_in(b).len(),
        unchanged_in(a + b) == unchanged_in(a) + unchanged_in(b),
    decreases b.len(),
{
    if b.len() == 0 {
        assert(a + b =~= a);
    } else {
        assert((a + b).drop_last() =~= a + b.drop_last());
        lemma_vulns_split(a, b.drop_last());
    }
}

proof fn lemma_vulns_present(
    old: Seq<(Text, VulnEntryView)>,
    new: Seq<(Text, VulnEntryView)>,
)
    ensures
        vulns_present(old, new).len() == new.len(),
        new_in(vulns_present(old, new)).len() + unchanged_in(vulns_present(old, new)) == new.len(),
        resolved_in(vulns_present(old, new)).len() == 0,
        forall|i: int|
            0 <= i < new.len() ==> #[trigger] vulns_present(old, new)[i] == if value_of(
                old,
                new[i].0,
            ) is None {
                VulnDeltaView::New(new[i].1)
            } else {
                VulnDeltaView::Unchanged(new[i].1)
            },
    decreases new.len(),
{
    if new.len() > 0 {
        let init = new.drop_last();
        lemma_vulns_present(old, init);
        let here = vulns_present(old, new);
        assert(here.drop_last() =~= vulns_present(old, init));
        assert forall|i: int| 0 <= i < new.len() implies #[trigger] here[i] == if value_of(
            old,
            new[i].0,
        ) is None {
            VulnDeltaView::New(new[i].1)
        } else {
            VulnDeltaView::Unchanged(new[i].1)
        } by {
            if i < init.len() {
                assert(here[i] == vulns_present(old, init)[i]);
                assert(init[i] == new[i]);
            }
        }
    }
}

proof fn lemma_vulns_resolved(
    old: Seq<(Text, VulnEntryView)>,
    new: Seq<(Text, VulnEntryView)>,
)
    ensures
        new_in(vulns_resolved(old, new)).len() == 0,
        unchanged_in(vulns_resolved(old, new)) == 0,
        resolved_in(vulns_resolved(old, new)).len() == vulns_resolved(old, new).len(),
    decreases old.len(),
{
    if old.len() > 0 {
        let init = old.drop_last();
        lemma_vulns_resolved(init, new);
        let here = vulns_resolved(old, new);
        if value_of(new, old.last().0) is None {
            assert(here.drop_last() =~= vulns_resolved(init, new));
        }
    }
}

/// Every vulnerability of the new bill counts as new or as unchanged, and
/// those of the old one that are in neither count as resolved: nothing is
/// counted twice.
pub proof fn law_vulnerabilities_add_up(
    old: Seq<(Text, VulnEntryView)>,
    new: Seq<(Text, VulnEntryView)>,
)
    ensures
        new_in(vuln_deltas(old, new)).len() + unchanged_in(vuln_deltas(old, new)) == new.len(),
        resolved_in(vuln_deltas(old, new)).len() == vulns_resolved(old, new).len(),
{
    lemma_vulns_split(vulns_present(old, new), vulns_resolved(old, new));
    lemma_vulns_present(old, new);
    lemma_vulns_resolved(old, new);
}

proof fn lemma_all_there<W>(old: Seq<(Text, W)>, new: Seq<(Text, W)>)
    requires
        unique(new),
        old == new,
    ensures
        forall|i: int|
            0 <= i < new.len() ==> value_of(old, (#[trigger] new[i]).0) == Some(new[i].1),
{
    assert forall|i: int| 0 <= i < new.len() implies value_of(old, (#[trigger] new[i]).0) == Some(
        new[i].1,
    ) by {
        lemma_value_of_entry(new, i);
    }
}

proof fn lemma_no_component_changes(
    old: Seq<(Text, ComponentView)>,
    new: Seq<(Text, ComponentView)>,
)
    requires
        forall|i: int|
            0 <= i < new.len() ==> value_of(old, (#[trigger] new[i]).0) == Some(new[i].1),
    ensures
        component_changes(old, new).len() == 0,
{
    if component_changes(old, new).len() > 0 {
        let d = component_changes(old, new)[0];
        assert(component_changes(old, new).contains(d));
        lemma_component_changes(old, new, d);
    }
}

proof fn lemma_no_component_removals(
    old: Seq<(Text, ComponentView)>,
    new: Seq<(Text, ComponentView)>,
)
    requires
        forall|i: int| 0 <= i < old.len() ==> value_of(new, (#[trigger] old[i]).0) is Some,
    ensures
        component_removals(old, new).len() == 0,
{
    if component_removals(old, new).len() > 0 {
        let d = component_removals(old, new)[0];
        assert(component_removals(old, new).contains(d));
        lemma_component_removals(old, new, d);
    }
}

proof fn lemma_none_resolved(
    old: Seq<(Text, VulnEntryView)>,
    new: Seq<(Text, VulnEntryView)>,
)
    requires
        forall|i: int| 0 <= i < old.len() ==> value_of(new, (#[trigger] old[i]).0) is Some,
    ensures
        vulns_resolved(old, new).len() == 0,
    decreases old.len(),
{
    if old.len() > 0 {
        let init = old.drop_last();
        assert forall|i: int| 0 <= i < init.len() implies value_of(
            new,
            (#[trigger] init[i]).0,
        ) is Some by {
            assert(init[i] == old[i]);
        }
        lemma_none_resolved(init, new);
        assert(old[old.len() - 1] == old.last());
    }
}

/// A bill of materials compared with itself shows no differences.
pub proof fn law_same_bill_no_differences(
    old_path: Text,
    new_path: Text,
    components: Seq<(Text, ComponentView)>,
    vulns: Seq<(Text, VulnEntryView)>,
)
    requires
        unique(components),
        unique(vulns),
    ensures
        component_deltas(components, components).len() == 0,
        all_unchanged(vuln_deltas(vulns, vulns)),
        difference(
            old_path,
            new_path,
            component_deltas(components, components),
            vuln_deltas(vulns, vulns),
        ) == seq!["✅ No differences found between the two SBOMs"@],
{
    lemma_all_there(components, components);
    lemma_no_component_changes(components, components);
    lemma_no_component_removals(components, components);
    lemma_all_there(vulns, vulns);
    lemma_vulns_present(vulns, vulns);
    lemma_none_resolved(vulns, vulns);
    let deltas = vuln_deltas(vulns, vulns);
    assert forall|i: int| 0 <= i < deltas.len() implies (#[trigger] deltas[i]) is Unchanged by {
        assert(deltas[i] == vulns_present(vulns, vulns)[i]);
        assert(value_of(vulns, vulns[i].0) == Some(vulns[i].1));
    }
}

/// What became of the vulnerability under an id.
pub open spec fn vuln_change(
    old: Option<VulnEntryView>,
    new: Option<VulnEntryView>,
) -> Option<VulnDeltaView> {
    match (old, new) {
        (None, Some(v)) => Some(VulnDeltaView::New(v)),
        (Some(_), Some(v)) => Some(VulnDeltaView::Unchanged(v)),
        (Some(v), None) => Some(VulnDeltaView::Resolved(v)),
        (None, None) => None,
    }
}

proof fn lemma_vulns_resolved_contains(
    old: Seq<(Text, VulnEntryView)>,
    new: Seq<(Text, VulnEntryView)>,
    d: VulnDeltaView,
)
    ensures
        vulns_resolved(old, new).contains(d) <==> exists|i: int|
            0 <= i < old.len() && value_of(new, (#[trigger] old[i]).0) is None && d
                == VulnDeltaView::Resolved(old[i].1),
    decreases old.len(),
{
    if old.len() > 0 {
        let init = old.drop_last();
        lemma_vulns_resolved_contains(init, new, d);
        let here = vulns_resolved(old, new);
        let rest = vulns_resolved(init, new);
        let n = old.len() - 1;
        assert(old[n] == old.last());
        if here.contains(d) {
            let k = choose|k: int| 0 <= k < here.len() && here[k] == d;
            if k < rest.len() {
                assert(rest[k] == d);
                let i = choose|i: int|
                    0 <= i < init.len() && value_of(new, (#[trigger] init[i]).0) is None && d
                        == VulnDeltaView::Resolved(init[i].1);
                assert(old[i] == init[i]);
            }
        }
        if exists|i: int|
            0 <= i < old.len() && value_of(new, (#[trigger] old[i]).0) is None && d
                == VulnDeltaView::Resolved(old[i].1) {
            let i = choose|i: int|
                0 <= i < old.len() && value_of(new, (#[trigger] old[i]).0) is None && d
                    == VulnDeltaView::Resolved(old[i].1);
            if i < n {
                assert(init[i] == old[i]);
                let k = choose|k: int| 0 <= k < rest.len() && rest[k] == d;
                assert(here[k] == d);
            } else {
                assert(here[here.len() - 1] == d);
            }
        }
    }
}

/// The deltas of the vulnerabilities are exactly what became of them, id by
/// id: what only the new bill has is new, what only the old one has is
/// resolved, and what both have is unchanged.
pub proof fn law_vuln_deltas(
    old: Seq<(Text, VulnEntryView)>,
    new: Seq<(Text, VulnEntryView)>,
    d: VulnDeltaView,
)
    requires
        unique(old),
        unique(new),
    ensures
        vuln_deltas(old, new).contains(d) <==> exists|id: Text| #[trigger]
            vuln_change(value_of(old, id), value_of(new, id)) == Some(d),
{
    let first = vulns_present(old, new);
    let second = vulns_resolved(old, new);
    let all = vuln_deltas(old, new);
    lemma_vulns_present(old, new);
    lemma_vulns_resolved_contains(old, new, d);
    if all.contains(d) {
        let k = choose|k: int| 0 <= k < all.len() && all[k] == d;
        if k < first.len() {
            assert(first[k] == d);
            lemma_value_of_entry(new, k);
            assert(vuln_change(value_of(old, new[k].0), value_of(new, new[k].0)) == Some(d));
        } else {
            assert(second[k - first.len()] == d);
            let i = choose|i: int|
                0 <= i < old.len() && value_of(new, (#[trigger] old[i]).0) is None && d
                    == VulnDeltaView::Resolved(old[i].1);
            lemma_value_of_entry(old, i);
            assert(vuln_change(value_of(old, old[i].0), value_of(new, old[i].0)) == Some(d));
        }
    }
    if exists|id: Text| #[trigger] vuln_change(value_of(old, id), value_of(new, id)) == Some(d) {
        let id = choose|id: Text| #[trigger]
            vuln_change(value_of(old, id), value_of(new, id)) == Some(d);
        lemma_value_of(new, id);
        lemma_value_of(old, id);
        if value_of(new, id) is Some {
            let w = value_of(new, id)->0;
            let i = choose|i: int| 0 <= i < new.len() && #[trigger] new[i] == (id, w);
            assert(first[i] == d);
            assert(all[i] == d);
        } else {
            let w = value_of(old, id)->0;
            let i = choose|i: int| 0 <= i < old.len() && #[trigger] old[i] == (id, w);
            assert(value_of(new, old[i].0) is None);
            assert(second.contains(d));
            let k = choose|k: int| 0 <= k < second.len() && second[k] == d;
            assert(all[first.len() + k] == d);
        }
    }
}

/// With the two bills exchanged, new vulnerabilities are resolved ones and the
/// other way round.
pub proof fn law_exchange_swaps_new_and_resolved(
    old: Seq<(Text, VulnEntryView)>,
    new: Seq<(Text, VulnEntryView)>,
    v: VulnEntryView,
)
    requires
        unique(old),
        unique(new),
    ensures
        vuln_deltas(old, new).contains(VulnDeltaView::New(v)) <==> vuln_deltas(new, old).contains(
            VulnDeltaView::Resolved(v),
        ),
{
    let fresh = VulnDeltaView::New(v);
    let gone = VulnDeltaView::Resolved(v);
    law_vuln_deltas(old, new, fresh);
    law_vuln_deltas(new, old, gone);
    if vuln_deltas(old, new).contains(fresh) {
        let id = choose|id: Text| #[trigger]
            vuln_change(value_of(old, id), value_of(new, id)) == Some(fresh);
        assert(vuln_change(value_of(new, id), value_of(old, id)) == Some(gone));
    }
    if vuln_deltas(new, old).contains(gone) {
        let id = choose|id: Text| #[trigger]
            vuln_change(value_of(new, id), value_of(old, id)) == Some(gone);
        assert(vuln_change(value_of(old, id), value_of(new, id)) == Some(fresh));
    }
}

} // verus!
