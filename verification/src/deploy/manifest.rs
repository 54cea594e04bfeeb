//! The alternative patch: the image mapping merged into the environment of
//! the lifecycle container as the operator's higher-level manifest, a
//! schema-less document, describes it.

use vstd::prelude::*;
use crate::deploy::operator::lifecycle_container;
use crate::document::{
    insert_member, inserted, lemma_list_view, lemma_object_view, list_view, members_view,
    path_view, remove_member, removed, Document, DocumentView, Member, PathStep, StepView,
};
use crate::text::{find_key, first_index, lemma_first_index, lookup, pairs_view, str_eq};

verus! {

/// Why a manifest could not be patched.
#[derive(Debug, Clone, Copy, PartialEq, Eq, Structural)]
pub enum CsvPatchError {
    /// The manifest lists no deployments.
    NoDeployments,
    /// No deployment of the manifest has the name that was asked for.
    DeploymentNotFound,
    /// The deployment lists no containers.
    NoContainers,
    /// No container is the operator's lifecycle container.
    ContainerNotFound,
    /// The lifecycle container has no environment to replace.
    EnvPathMissing,
}

impl CsvPatchError {
    /// The message of the error.
    pub fn message(&self) -> (r: String)
        ensures
            r@ == match self {
                CsvPatchError::NoDeployments =>
                    "CSV has no deployments in spec.install.spec.deployments"@,
                CsvPatchError::DeploymentNotFound => "Deployment not found in CSV"@,
                CsvPatchError::NoContainers => "No containers in deployment spec"@,
                CsvPatchError::ContainerNotFound =>
                    "Container 'openshift-pipelines-operator-lifecycle' not found in CSV"@,
                CsvPatchError::EnvPathMissing => "Could not find env path in CSV"@,
            },
    {
        match self {
            CsvPatchError::NoDeployments =>
                "CSV has no deployments in spec.install.spec.deployments".to_owned(),
            CsvPatchError::DeploymentNotFound => "Deployment not found in CSV".to_owned(),
            CsvPatchError::NoContainers => "No containers in deployment spec".to_owned(),
            CsvPatchError::ContainerNotFound =>
                "Container 'openshift-pipelines-operator-lifecycle' not found in CSV".to_owned(),
            CsvPatchError::EnvPathMissing => "Could not find env path in CSV".to_owned(),
        }
    }
}

/// The path from a manifest to its deployments.
pub open spec fn deployments_path() -> Seq<StepView> {
    seq![
        StepView::Key("spec"@),
        StepView::Key("install"@),
        StepView::Key("spec"@),
        StepView::Key("deployments"@),
    ]
}

/// The path from a deployment to its containers.
pub open spec fn containers_path() -> Seq<StepView> {
    seq![
        StepView::Key("spec"@),
        StepView::Key("template"@),
        StepView::Key("spec"@),
        StepView::Key("containers"@),
    ]
}

/// The path from a manifest to the environment of the container at
/// position `container` of the deployment at position `deployment`.
pub open spec fn env_path(deployment: int, container: int) -> Seq<StepView> {
    deployments_path() + seq![StepView::Index(deployment)] + containers_path() + seq![
        StepView::Index(container),
        StepView::Key("env"@),
    ]
}

/// What each of `items` holds under "name".
pub open spec fn item_names(items: Seq<DocumentView>) -> Seq<Option<DocumentView>> {
    Seq::new(items.len(), |i: int| items[i].member("name"@))
}

/// The position of the first of `items` that is named `name`, or the
/// number of items where none is.
pub open spec fn named_index(items: Seq<DocumentView>, name: Seq<char>) -> int {
    first_index(item_names(items), Some(DocumentView::Text(name)))
}

/// An entry of an environment after the patch: where it is an object named
/// by a key of the mapping, it takes the mapped value and loses its value
/// source; else it stays as it is.
pub open spec fn patched_entry(
    entry: DocumentView,
    mappings: Seq<(Seq<char>, Seq<char>)>,
) -> DocumentView {
    match (entry, entry.member("name"@)) {
        (DocumentView::Object(m), Some(DocumentView::Text(n))) => match lookup(mappings, n) {
            Some(v) => DocumentView::Object(
                removed(inserted(m, "value"@, DocumentView::Text(v)), "valueFrom"@),
            ),
            None => entry,
        },
        _ => entry,
    }
}

/// The entry that a mapping entry adds.
pub open spec fn fresh_entry(key: Seq<char>, value: Seq<char>) -> DocumentView {
    DocumentView::Object(
        seq![("name"@, DocumentView::Text(key)), ("value"@, DocumentView::Text(value))],
    )
}

/// The environment `env` with an entry added for each key of the mapping
/// that no entry, old or added, is named by.
pub open spec fn with_added(env: Seq<DocumentView>, mappings: Seq<(Seq<char>, Seq<char>)>) -> Seq<
    DocumentView,
>
    decreases mappings.len(),
{
    if mappings.len() == 0 {
        env
    } else {
        let before = with_added(env, mappings.drop_last());
        let (key, value) = mappings.last();
        if named_index(before, key) < before.len() {
            before
        } else {
            before.push(fresh_entry(key, value))
        }
    }
}

/// The environment after the patch.
pub open spec fn merged_entries(
    existing: Seq<DocumentView>,
    mappings: Seq<(Seq<char>, Seq<char>)>,
) -> Seq<DocumentView> {
    with_added(Seq::new(existing.len(), |i: int| patched_entry(existing[i], mappings)), mappings)
}

/// The environment that a container has: the list under "env", or none.
pub open spec fn entries_of(container: DocumentView) -> Seq<DocumentView> {
    match container.member("env"@) {
        Some(DocumentView::List(e)) => e,
        _ => seq![],
    }
}

/// The manifest after the patch, or why it cannot be patched.
pub open spec fn patched_manifest(
    csv: DocumentView,
    deployment: Seq<char>,
    mappings: Seq<(Seq<char>, Seq<char>)>,
) -> Result<DocumentView, CsvPatchError> {
    match csv.at(deployments_path()) {
        Some(DocumentView::List(deps)) => {
            let di = named_index(deps, deployment);
            if di >= deps.len() {
                Err(CsvPatchError::DeploymentNotFound)
            } else {
                match deps[di].at(containers_path()) {
                    Some(DocumentView::List(cs)) => {
                        let ci = named_index(cs, lifecycle_container());
                        if ci >= cs.len() {
                            Err(CsvPatchError::ContainerNotFound)
                        } else {
                            match csv.replaced(
                                env_path(di, ci),
                                DocumentView::List(merged_entries(entries_of(cs[ci]), mappings)),
                            ) {
                                Some(d) => Ok(d),
                                None => Err(CsvPatchError::EnvPathMissing),
                            }
                        }
                    },
                    _ => Err(CsvPatchError::NoContainers),
                }
            }
        },
        _ => Err(CsvPatchError::NoDeployments),
    }
}

/// Whether `doc` is named `name`.
pub fn is_named(doc: &Document, name: &str) -> (r: bool)
    ensures
        r == (doc@.member("name"@) == Some(DocumentView::Text(name@))),
{
    match doc.get("name") {
        Some(Document::Text(n)) => str_eq(n.as_str(), name),
        _ => false,
    }
}

/// The position of the first of `items` that is named `name`, or the
/// number of items.
pub fn find_named(items: &Vec<Document>, name: &str) -> (r: usize)
    ensures
        r == named_index(list_view(items@), name@),
        r <= items.len(),
{
    let ghost names = item_names(list_view(items@));
    let mut i: usize = 0;
    while i < items.len()
        invariant
            i <= items.len(),
            names == item_names(list_view(items@)),
            forall|j: int| 0 <= j < i ==> names[j] != Some(DocumentView::Text(name@)),
        decreases items.len() - i,
    {
        if is_named(&items[i], name) {
            proof {
                lemma_first_index(names, Some(DocumentView::Text(name@)), i as int);
            }
            return i;
        }
        i = i + 1;
    }
    proof {
        lemma_first_index(names, Some(DocumentView::Text(name@)), i as int);
    }
    i
}

/// An entry of an environment after the patch.
pub fn patch_entry(entry: &Document, mappings: &Vec<(String, String)>) -> (r: Document)
    ensures
        r@ == patched_entry(entry@, pairs_view(mappings@)),
{
    let name: &String = match entry.get("name") {
        Some(Document::Text(n)) => n,
        _ => {
            return entry.copy();
        },
    };
    match entry {
        Document::Object(members) => {
            proof {
                lemma_object_view(*members);
            }
            match find_key(mappings, name.as_str()) {
                None => entry.copy(),
                Some(at) => {
                    let copied = entry.copy();
                    match copied {
                        Document::Object(mut own) => {
                            proof {
                                lemma_object_view(own);
                            }
                            insert_member(
                                &mut own,
                                "value".to_owned(),
                                Document::Text(mappings[at].1.clone()),
                            );
                            remove_member(&mut own, "valueFrom");
                            proof {
                                lemma_object_view(own);
                            }
                            Document::Object(own)
                        },
                        other => other,
                    }
                },
            }
        },
        _ => entry.copy(),
    }
}

/// The entry that a mapping entry adds.
pub fn new_entry(key: &str, value: &str) -> (r: Document)
    ensures
        r@ == fresh_entry(key@, value@),
{
    let mut members: Vec<Member> = Vec::new();
    members.push(Member { key: "name".to_owned(), value: Document::Text(key.to_owned()) });
    members.push(Member { key: "value".to_owned(), value: Document::Text(value.to_owned()) });
    proof {
        lemma_object_view(members);
        assert(members_view(members@) =~= seq![
            ("name"@, DocumentView::Text(key@)),
            ("value"@, DocumentView::Text(value@)),
        ]);
    }
    Document::Object(members)
}

/// Merges an image mapping into an environment given as documents.
pub fn merge_entries(existing: &Vec<Document>, mappings: &Vec<(String, String)>) -> (r: Vec<
    Document,
>)
    ensures
        list_view(r@) == merged_entries(list_view(existing@), pairs_view(mappings@)),
{
    let ghost ev = list_view(existing@);
    let ghost mv = pairs_view(mappings@);
    let ghost patched = Seq::new(ev.len(), |i: int| patched_entry(ev[i], mv));
    let mut out: Vec<Document> = Vec::new();
    let mut i: usize = 0;
    while i < existing.len()
        invariant
            i <= existing.len(),
            ev == list_view(existing@),
            mv == pairs_view(mappings@),
            out.len() == i,
            forall|j: int| 0 <= j < i ==> (#[trigger] out@[j])@ == patched_entry(ev[j], mv),
        decreases existing.len() - i,
    {
        out.push(patch_entry(&existing[i], mappings));
        i = i + 1;
    }
    assert(list_view(out@) =~= patched);
    let mut j: usize = 0;
    assert(mv.take(0) == Seq::<(Seq<char>, Seq<char>)>::empty());
    while j < mappings.len()
        invariant
            j <= mappings.len(),
            mv == pairs_view(mappings@),
            list_view(out@) == with_added(patched, mv.take(j as int)),
        decreases mappings.len() - j,
    {
        proof {
            assert(mv.take(j + 1).drop_last() == mv.take(j as int));
            assert(mv.take(j + 1).last() == mv[j as int]);
        }
        let at = find_named(&out, mappings[j].0.as_str());
        if at >= out.len() {
            let ghost before = list_view(out@);
            let entry = new_entry(mappings[j].0.as_str(), mappings[j].1.as_str());
            out.push(entry);
            assert(list_view(out@) =~= before.push(fresh_entry(mv[j as int].0, mv[j as int].1)));
        }
        j = j + 1;
    }
    assert(mv.take(mappings.len() as int) == mv);
    out
}

/// The steps of the path to a manifest's deployments.
fn deployments_steps() -> (r: Vec<PathStep>)
    ensures
        path_view(r@) == deployments_path(),
{
    let mut r: Vec<PathStep> = Vec::new();
    r.push(PathStep::Key("spec".to_owned()));
    r.push(PathStep::Key("install".to_owned()));
    r.push(PathStep::Key("spec".to_owned()));
    r.push(PathStep::Key("deployments".to_owned()));
    assert(path_view(r@) =~= deployments_path());
    r
}

/// The steps of the path to a deployment's containers.
fn containers_steps() -> (r: Vec<PathStep>)
    ensures
        path_view(r@) == containers_path(),
{
    let mut r: Vec<PathStep> = Vec::new();
    r.push(PathStep::Key("spec".to_owned()));
    r.push(PathStep::Key("template".to_owned()));
    r.push(PathStep::Key("spec".to_owned()));
    r.push(PathStep::Key("containers".to_owned()));
    assert(path_view(r@) =~= containers_path());
    r
}

/// The steps of the path to the environment of a container.
fn env_steps(deployment: usize, container: usize) -> (r: Vec<PathStep>)
    ensures
        path_view(r@) == env_path(deployment as int, container as int),
{
    let mut r: Vec<PathStep> = Vec::new();
    r.push(PathStep::Key("spec".to_owned()));
    r.push(PathStep::Key("install".to_owned()));
    r.push(PathStep::Key("spec".to_owned()));
    r.push(PathStep::Key("deployments".to_owned()));
    r.push(PathStep::Index(deployment));
    r.push(PathStep::Key("spec".to_owned()));
    r.push(PathStep::Key("template".to_owned()));
    r.push(PathStep::Key("spec".to_owned()));
    r.push(PathStep::Key("containers".to_owned()));
    r.push(PathStep::Index(container));
    r.push(PathStep::Key("env".to_owned()));
    assert(path_view(r@) =~= env_path(deployment as int, container as int));
    r
}

/// The environment that a container has, patched.
fn patched_env_of(container: &Document, mappings: &Vec<(String, String)>) -> (r: Vec<Document>)
    ensures
        list_view(r@) == merged_entries(entries_of(container@), pairs_view(mappings@)),
{
    match container.get("env") {
        Some(Document::List(entries)) => {
            proof {
                lemma_list_view(*entries);
            }
            merge_entries(entries, mappings)
        },
        _ => {
            let none: Vec<Document> = Vec::new();
            assert(list_view(none@) =~= Seq::<DocumentView>::empty());
            merge_entries(&none, mappings)
        },
    }
}

/// Patches the operator's higher-level manifest: the image mapping is
/// merged into the environment of the lifecycle container of the
/// deployment named `deployment_name`, and the rest of the manifest stays
/// as it is. It fails where the manifest does not hold that deployment,
/// that container, or an environment for it.
pub fn patch_operator_images(
    csv: Document,
    deployment_name: &str,
    mappings: &Vec<(String, String)>,
) -> (r: Result<Document, CsvPatchError>)
    ensures
        match (r, patched_manifest(csv@, deployment_name@, pairs_view(mappings@))) {
            (Ok(d), Ok(m)) => d@ == m,
            (Err(e), Err(m)) => e == m,
            _ => false,
        },
{
    let (di, ci, env) = {
        let deployments: &Vec<Document> = match csv.get_path(&deployments_steps()) {
            Some(Document::List(deps)) => {
                proof {
                    lemma_list_view(*deps);
                }
                deps
            },
            _ => {
                return Err(CsvPatchError::NoDeployments);
            },
        };
        let di = find_named(deployments, deployment_name);
        if di >= deployments.len() {
            return Err(CsvPatchError::DeploymentNotFound);
        }
        let containers: &Vec<Document> = match deployments[di].get_path(&containers_steps()) {
            Some(Document::List(cs)) => {
                proof {
                    lemma_list_view(*cs);
                }
                cs
            },
            _ => {
                return Err(CsvPatchError::NoContainers);
            },
        };
        let ci = find_named(containers, "openshift-pipelines-operator-lifecycle");
        if ci >= containers.len() {
            return Err(CsvPatchError::ContainerNotFound);
        }
        (di, ci, patched_env_of(&containers[ci], mappings))
    };
    proof {
        lemma_list_view(env);
    }
    match csv.set_path(&env_steps(di, ci), Document::List(env)) {
        Some(d) => Ok(d),
        None => Err(CsvPatchError::EnvPathMissing),
    }
}

} // verus!
