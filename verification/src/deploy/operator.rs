//! The operator's live workload: where to find it, how its environment is
//! patched without touching what the patch does not name, and which derived
//! objects to delete so that the patch takes effect.

use vstd::prelude::*;
use crate::text::{
    concat2, concat3, contains, contains_sub, first_index, find_key, keys_of,
    lemma_first_index_bounds, lookup, opt_text, pairs_view, seq_view, starts_with, str_eq,
    string_views, to_chars,
};

verus! {

/// An environment variable of a container: its name, its literal value, and
/// the source it takes its value from where it has no literal one, kept as
/// the text that describes it.
#[derive(Debug, Clone)]
pub struct EnvVar {
    pub name: String,
    pub value: Option<String>,
    pub value_from: Option<String>,
}

/// What an `EnvVar` holds, as plain sequences.
pub struct EnvVarView {
    pub name: Seq<char>,
    pub value: Option<Seq<char>>,
    pub value_from: Option<Seq<char>>,
}

impl View for EnvVar {
    type V = EnvVarView;

    open spec fn view(&self) -> EnvVarView {
        EnvVarView {
            name: self.name@,
            value: opt_text(self.value),
            value_from: opt_text(self.value_from),
        }
    }
}

/// The names of the variables `env`, in order.
pub open spec fn env_names(env: Seq<EnvVarView>) -> Seq<Seq<char>> {
    Seq::new(env.len(), |i: int| env[i].name)
}

/// The variable `var` after the patch: where the mapping holds its name, it
/// takes the value of the first such entry and loses its value source; else
/// it stays as it is.
pub open spec fn overwritten(var: EnvVarView, mappings: Seq<(Seq<char>, Seq<char>)>) -> EnvVarView {
    match lookup(mappings, var.name) {
        Some(v) => EnvVarView { name: var.name, value: Some(v), value_from: None },
        None => var,
    }
}

/// The variables `existing` after the patch, each in its place.
pub open spec fn updated(
    existing: Seq<EnvVarView>,
    mappings: Seq<(Seq<char>, Seq<char>)>,
) -> Seq<EnvVarView> {
    Seq::new(existing.len(), |i: int| overwritten(existing[i], mappings))
}

/// The variable that a mapping entry adds.
pub open spec fn fresh(entry: (Seq<char>, Seq<char>)) -> EnvVarView {
    EnvVarView { name: entry.0, value: Some(entry.1), value_from: None }
}

/// The variables that the patch adds: one for each entry of the mapping
/// whose key is not among `names`, in the order of the mapping.
pub open spec fn added(names: Seq<Seq<char>>, mappings: Seq<(Seq<char>, Seq<char>)>) -> Seq<
    EnvVarView,
>
    decreases mappings.len(),
{
    if mappings.len() == 0 {
        seq![]
    } else {
        let rest = added(names, mappings.drop_last());
        if names.contains(mappings.last().0) {
            rest
        } else {
            rest.push(fresh(mappings.last()))
        }
    }
}

/// The environment after the patch: the existing variables, each in its
/// place and overwritten where the mapping names it, then the added ones.
pub open spec fn merged(existing: Seq<EnvVarView>, mappings: Seq<(Seq<char>, Seq<char>)>) -> Seq<
    EnvVarView,
> {
    updated(existing, mappings) + added(env_names(existing), mappings)
}

/// Whether a variable named `name` is among `env`.
pub fn has_variable(env: &Vec<EnvVar>, name: &str) -> (r: bool)
    ensures
        r == env_names(seq_view(env@)).contains(name@),
{
    let ghost names = env_names(seq_view(env@));
    let mut i: usize = 0;
    while i < env.len()
        invariant
            i <= env.len(),
            names == env_names(seq_view(env@)),
            forall|j: int| 0 <= j < i ==> names[j] != name@,
        decreases env.len() - i,
    {
        if str_eq(env[i].name.as_str(), name) {
            assert(names[i as int] == name@);
            return true;
        }
        i = i + 1;
    }
    false
}

/// Merges an image mapping into the environment of a container: a variable
/// that the mapping names takes the mapped value and loses its value source,
/// a key without a variable is appended, and every other variable is left
/// as it is, in its place.
pub fn merge_env(existing: &Vec<EnvVar>, mappings: &Vec<(String, String)>) -> (r: Vec<EnvVar>)
    ensures
        seq_view(r@) == merged(seq_view(existing@), pairs_view(mappings@)),
        r.len() >= existing.len(),
        forall|i: int|
            0 <= i < existing.len() && !keys_of(pairs_view(mappings@)).contains(
                (#[trigger] existing@[i])@.name,
            ) ==> r@[i]@ == existing@[i]@,
{
    let ghost ev = seq_view(existing@);
    let ghost mv = pairs_view(mappings@);
    let mut out: Vec<EnvVar> = Vec::new();
    let mut i: usize = 0;
    while i < existing.len()
        invariant
            i <= existing.len(),
            ev == seq_view(existing@),
            mv == pairs_view(mappings@),
            out.len() == i,
            forall|j: int| 0 <= j < i ==> (#[trigger] out@[j])@ == overwritten(ev[j], mv),
        decreases existing.len() - i,
    {
        let var = &existing[i];
        assert(ev[i as int] == var@);
        let patched = match find_key(mappings, var.name.as_str()) {
            Some(at) => EnvVar {
                name: var.name.clone(),
                value: Some(mappings[at].1.clone()),
                value_from: None,
            },
            None => EnvVar {
                name: var.name.clone(),
                value: var.value.clone(),
                value_from: var.value_from.clone(),
            },
        };
        out.push(patched);
        i = i + 1;
    }
    assert(seq_view(out@) == updated(ev, mv));
    proof {
        assert forall|i: int|
            0 <= i < existing.len() && !keys_of(mv).contains(
                (#[trigger] existing@[i])@.name,
            ) implies out@[i]@ == existing@[i]@ by {
            lemma_first_index_bounds(keys_of(mv), ev[i].name);
            let k = first_index(keys_of(mv), ev[i].name);
            if k < mv.len() {
                assert(keys_of(mv)[k] == ev[i].name);
            }
        }
    }
    let ghost head = seq_view(out@);
    let mut j: usize = 0;
    assert(mv.take(0) == Seq::<(Seq<char>, Seq<char>)>::empty());
    assert(seq_view(out@) == head + added(env_names(ev), mv.take(0)));
    while j < mappings.len()
        invariant
            j <= mappings.len(),
            ev == seq_view(existing@),
            mv == pairs_view(mappings@),
            head == updated(ev, mv),
            out.len() >= existing.len(),
            forall|i: int| 0 <= i < existing.len() ==> (#[trigger] out@[i])@ == head[i],
            seq_view(out@) == head + added(env_names(ev), mv.take(j as int)),
        decreases mappings.len() - j,
    {
        let entry = &mappings[j];
        proof {
            assert(mv.take(j + 1).drop_last() == mv.take(j as int));
            assert(mv.take(j + 1).last() == mv[j as int]);
        }
        if !has_variable(existing, entry.0.as_str()) {
            let ghost before = seq_view(out@);
            let var = EnvVar {
                name: entry.0.clone(),
                value: Some(entry.1.clone()),
                value_from: None,
            };
            out.push(var);
            assert(seq_view(out@) == before.push(fresh(mv[j as int])));
            assert(seq_view(out@) == head + added(env_names(ev), mv.take(j + 1)));
        }
        j = j + 1;
    }
    assert(mv.take(mappings.len() as int) == mv);
    out
}

/// Patch non-destructiveness: a variable whose name the mapping does not
/// hold is after the patch what it was before, in the same place.
pub proof fn lemma_patch_keeps_other_variables(
    existing: Seq<EnvVarView>,
    mappings: Seq<(Seq<char>, Seq<char>)>,
    i: int,
)
    requires
        0 <= i < existing.len(),
        !keys_of(mappings).contains(existing[i].name),
    ensures
        merged(existing, mappings).len() >= existing.len(),
        merged(existing, mappings)[i] == existing[i],
{
    lemma_first_index_bounds(keys_of(mappings), existing[i].name);
    let k = first_index(keys_of(mappings), existing[i].name);
    if k < mappings.len() {
        assert(keys_of(mappings)[k] == existing[i].name);
    }
}

/// What the patch adds: each added variable is the fresh variable of an
/// entry whose key is not among `names`, and each such entry's key is the
/// name of an added variable.
pub proof fn lemma_added(names: Seq<Seq<char>>, mappings: Seq<(Seq<char>, Seq<char>)>)
    ensures
        forall|a: int|
            0 <= a < added(names, mappings).len() ==> exists|j: int|
                0 <= j < mappings.len() && !names.contains(mappings[j].0) && (#[trigger] added(
                    names,
                    mappings,
                )[a]) == fresh(mappings[j]),
        forall|j: int|
            0 <= j < mappings.len() && !names.contains((#[trigger] mappings[j]).0) ==> env_names(
                added(names, mappings),
            ).contains(mappings[j].0),
    decreases mappings.len(),
{
    if mappings.len() > 0 {
        let front = mappings.drop_last();
        lemma_added(names, front);
        let rest = added(names, front);
        let all = added(names, mappings);
        assert forall|a: int| 0 <= a < all.len() implies exists|j: int|
            0 <= j < mappings.len() && !names.contains(mappings[j].0) && (#[trigger] all[a])
                == fresh(mappings[j]) by {
            if a < rest.len() {
                assert(all[a] == rest[a]);
                let j = choose|j: int|
                    0 <= j < front.len() && !names.contains(front[j].0) && rest[a] == fresh(
                        front[j],
                    );
                assert(front[j] == mappings[j]);
            } else {
                let j = mappings.len() - 1;
                assert(all[a] == fresh(mappings[j]));
            }
        }
        assert forall|j: int|
            0 <= j < mappings.len() && !names.contains(
                (#[trigger] mappings[j]).0,
            ) implies env_names(all).contains(mappings[j].0) by {
            if j < front.len() {
                assert(front[j] == mappings[j]);
                let a = choose|a: int|
                    0 <= a < env_names(rest).len() && env_names(rest)[a] == front[j].0;
                assert(env_names(all)[a] == mappings[j].0);
            } else {
                assert(env_names(all)[all.len() - 1] == mappings[j].0);
            }
        }
    }
}

/// Where every key of the mapping is among `names`, the patch adds nothing.
pub proof fn lemma_added_nothing(names: Seq<Seq<char>>, mappings: Seq<(Seq<char>, Seq<char>)>)
    requires
        forall|j: int| 0 <= j < mappings.len() ==> names.contains((#[trigger] mappings[j]).0),
    ensures
        added(names, mappings) == Seq::<EnvVarView>::empty(),
    decreases mappings.len(),
{
    if mappings.len() > 0 {
        let front = mappings.drop_last();
        assert forall|j: int| 0 <= j < front.len() implies names.contains(
            (#[trigger] front[j]).0,
        ) by {
            assert(front[j] == mappings[j]);
        }
        lemma_added_nothing(names, front);
        assert(names.contains(mappings[mappings.len() - 1].0));
    }
}

/// Whether the mapping gives each key that `existing` lacks one value only.
pub open spec fn new_keys_agree(
    existing: Seq<EnvVarView>,
    mappings: Seq<(Seq<char>, Seq<char>)>,
) -> bool {
    forall|i: int, j: int|
        0 <= i < mappings.len() && 0 <= j < mappings.len() && (#[trigger] mappings[i]).0 == (
        #[trigger] mappings[j]).0 && !env_names(existing).contains(mappings[i].0)
            ==> mappings[i].1 == mappings[j].1
}

/// Patch idempotence: the same mapping applied a second time changes
/// nothing, where it gives each key that the environment lacked one value
/// only.
pub proof fn lemma_patch_idempotent(
    existing: Seq<EnvVarView>,
    mappings: Seq<(Seq<char>, Seq<char>)>,
)
    requires
        new_keys_agree(existing, mappings),
    ensures
        merged(merged(existing, mappings), mappings) == merged(existing, mappings),
{
    let names = env_names(existing);
    let u = updated(existing, mappings);
    let a = added(names, mappings);
    let once = merged(existing, mappings);
    let keys = keys_of(mappings);
    lemma_added(names, mappings);
    assert forall|i: int| 0 <= i < once.len() implies overwritten(#[trigger] once[i], mappings)
        == once[i] by {
        if i < u.len() {
            assert(once[i] == overwritten(existing[i], mappings));
        } else {
            let x = i - u.len();
            assert(once[i] == a[x]);
            let j = choose|j: int|
                0 <= j < mappings.len() && !names.contains(mappings[j].0) && a[x] == fresh(
                    mappings[j],
                );
            lemma_first_index_bounds(keys, mappings[j].0);
            let f = first_index(keys, mappings[j].0);
            assert(keys[j] == mappings[j].0);
            assert(f <= j);
            assert(keys[f] == mappings[f].0);
            assert(mappings[f].1 == mappings[j].1);
        }
    }
    assert(updated(once, mappings) == once);
    assert forall|j: int| 0 <= j < mappings.len() implies env_names(once).contains(
        (#[trigger] mappings[j]).0,
    ) by {
        if names.contains(mappings[j].0) {
            let p = choose|p: int| 0 <= p < names.len() && names[p] == mappings[j].0;
            assert(env_names(once)[p] == mappings[j].0);
        } else {
            let q = choose|q: int|
                0 <= q < env_names(a).len() && env_names(a)[q] == mappings[j].0;
            assert(env_names(once)[u.len() + q] == mappings[j].0);
        }
    }
    lemma_added_nothing(env_names(once), mappings);
    assert(once + Seq::<EnvVarView>::empty() == once);
}

/// Whether no two items of `names` are the same.
pub open spec fn distinct(names: Seq<Seq<char>>) -> bool {
    forall|i: int, j: int| 0 <= i < j < names.len() ==> names[i] != names[j]
}

/// The names of what the patch adds are keys of the mapping that are not
/// among `names`; they are distinct where the keys of the mapping are.
pub proof fn lemma_added_names(names: Seq<Seq<char>>, mappings: Seq<(Seq<char>, Seq<char>)>)
    requires
        distinct(keys_of(mappings)),
    ensures
        distinct(env_names(added(names, mappings))),
        forall|a: int|
            0 <= a < added(names, mappings).len() ==> !names.contains(
                #[trigger] env_names(added(names, mappings))[a],
            ) && keys_of(mappings).contains(env_names(added(names, mappings))[a]),
    decreases mappings.len(),
{
    if mappings.len() > 0 {
        let front = mappings.drop_last();
        let last = mappings.last();
        assert forall|i: int, j: int| 0 <= i < j < front.len() implies keys_of(front)[i]
            != keys_of(front)[j] by {
            assert(keys_of(mappings)[i] != keys_of(mappings)[j]);
        }
        lemma_added_names(names, front);
        let rest = env_names(added(names, front));
        let all = env_names(added(names, mappings));
        assert forall|a: int| 0 <= a < all.len() implies !names.contains(#[trigger] all[a])
            && keys_of(mappings).contains(all[a]) by {
            if a < rest.len() {
                assert(all[a] == rest[a]);
                let q = choose|q: int| 0 <= q < front.len() && keys_of(front)[q] == rest[a];
                assert(keys_of(mappings)[q] == rest[a]);
            } else {
                assert(all[a] == last.0);
                assert(keys_of(mappings)[mappings.len() - 1] == last.0);
            }
        }
        assert forall|i: int, j: int| 0 <= i < j < all.len() implies all[i] != all[j] by {
            if j < rest.len() {
                assert(rest[i] != rest[j]);
            } else {
                assert(all[j] == last.0);
                assert(all[i] == rest[i]);
                let q = choose|q: int| 0 <= q < front.len() && keys_of(front)[q] == rest[i];
                assert(keys_of(mappings)[q] != keys_of(mappings)[mappings.len() - 1]);
            }
        }
    }
}

/// The patch makes no duplicates: where no two variables of the
/// environment and no two entries of the mapping share a name, no two
/// variables of the patched environment do.
pub proof fn lemma_patch_keeps_names_distinct(
    existing: Seq<EnvVarView>,
    mappings: Seq<(Seq<char>, Seq<char>)>,
)
    requires
        distinct(env_names(existing)),
        distinct(keys_of(mappings)),
    ensures
        distinct(env_names(merged(existing, mappings))),
{
    let names = env_names(existing);
    let u = updated(existing, mappings);
    let a = added(names, mappings);
    let all = env_names(merged(existing, mappings));
    lemma_added_names(names, mappings);
    assert forall|i: int, j: int| 0 <= i < j < all.len() implies all[i] != all[j] by {
        if j < u.len() {
            assert(all[i] == names[i] && all[j] == names[j]);
        } else if i < u.len() {
            assert(all[i] == names[i]);
            assert(all[j] == env_names(a)[j - u.len()]);
            assert(!names.contains(env_names(a)[j - u.len()]));
        } else {
            assert(all[i] == env_names(a)[i - u.len()]);
            assert(all[j] == env_names(a)[j - u.len()]);
        }
    }
}

/// A container of the workload, as far as the patch reads it.
#[derive(Debug, Clone)]
pub struct WorkloadContainer {
    pub name: String,
    pub env: Option<Vec<EnvVar>>,
}

/// The environment of a container; a container without one has none.
pub open spec fn container_env(c: WorkloadContainer) -> Seq<EnvVarView> {
    match c.env {
        Some(env) => seq_view(env@),
        None => seq![],
    }
}

/// The names of `containers`, in order.
pub open spec fn container_names(containers: Seq<WorkloadContainer>) -> Seq<Seq<char>> {
    Seq::new(containers.len(), |i: int| containers[i].name@)
}

/// The name of the container that manages the operator's lifecycle.
pub open spec fn lifecycle_container() -> Seq<char> {
    "openshift-pipelines-operator-lifecycle"@
}

/// Why a workload could not be patched.
#[derive(Debug, Clone, Copy, PartialEq, Eq, Structural)]
pub enum PatchError {
    /// The workload has no list of containers.
    NoContainers,
    /// No container is the operator's lifecycle container.
    ContainerNotFound,
}

impl PatchError {
    /// The message of the error.
    pub fn message(&self) -> (r: String)
        ensures
            r@ == match self {
                PatchError::NoContainers =>
                    "Deployment has no containers in spec.template.spec.containers"@,
                PatchError::ContainerNotFound =>
                    "Container 'openshift-pipelines-operator-lifecycle' not found in Deployment"@,
            },
    {
        match self {
            PatchError::NoContainers =>
                "Deployment has no containers in spec.template.spec.containers".to_owned(),
            PatchError::ContainerNotFound =>
                "Container 'openshift-pipelines-operator-lifecycle' not found in Deployment".to_owned(),
        }
    }
}

/// The new environment of one container of a workload.
#[derive(Debug, Clone)]
pub struct EnvPatch {
    /// The position of the container among those of the workload.
    pub container_index: usize,
    /// The environment to write back, whole.
    pub env: Vec<EnvVar>,
}

/// The position of the first container named `name`.
pub fn find_container(containers: &Vec<WorkloadContainer>, name: &str) -> (r: Option<usize>)
    ensures
        match r {
            Some(i) => i < containers.len() && i == first_index(
                container_names(containers@),
                name@,
            ),
            None => first_index(container_names(containers@), name@) == containers.len(),
        },
{
    let ghost names = container_names(containers@);
    let mut i: usize = 0;
    while i < containers.len()
        invariant
            i <= containers.len(),
            names == container_names(containers@),
            forall|j: int| 0 <= j < i ==> names[j] != name@,
        decreases containers.len() - i,
    {
        if str_eq(containers[i].name.as_str(), name) {
            proof {
                crate::text::lemma_first_index(names, name@, i as int);
            }
            return Some(i);
        }
        i = i + 1;
    }
    proof {
        crate::text::lemma_first_index(names, name@, i as int);
    }
    None
}

/// Computes the patch of the operator's workload from what was read of it:
/// the environment of its lifecycle container with the mapping merged in.
/// It fails where the workload lists no containers, or none of them is the
/// lifecycle container.
pub fn patch_operator_deployment_env(
    containers: &Option<Vec<WorkloadContainer>>,
    mappings: &Vec<(String, String)>,
) -> (r: Result<EnvPatch, PatchError>)
    ensures
        match *containers {
            None => r == Err::<EnvPatch, PatchError>(PatchError::NoContainers),
            Some(cs) => {
                let at = first_index(container_names(cs@), lifecycle_container());
                if at < cs.len() {
                    &&& r is Ok
                    &&& r->Ok_0.container_index == at
                    &&& seq_view(r->Ok_0.env@) == merged(
                        container_env(cs@[at]),
                        pairs_view(mappings@),
                    )
                } else {
                    r == Err::<EnvPatch, PatchError>(PatchError::ContainerNotFound)
                }
            },
        },
{
    match containers {
        None => Err(PatchError::NoContainers),
        Some(cs) => match find_container(cs, "openshift-pipelines-operator-lifecycle") {
            None => Err(PatchError::ContainerNotFound),
            Some(at) => {
                let env = match &cs[at].env {
                    Some(existing) => merge_env(existing, mappings),
                    None => {
                        let empty: Vec<EnvVar> = Vec::new();
                        assert(seq_view(empty@) == Seq::<EnvVarView>::empty());
                        merge_env(&empty, mappings)
                    },
                };
                Ok(EnvPatch { container_index: at, env })
            },
        },
    }
}

/// The prefixes of the names of a component's installer sets.
pub open spec fn prefixes_model(slug: Seq<char>) -> Seq<Seq<char>> {
    seq![
        slug + "-main-deployment-"@,
        slug + "-main-static-"@,
        slug + "-post-"@,
        slug + "-pre-"@,
    ]
}

/// The slug under which a component's installer sets are named: the override
/// where there is one, else the component's name.
pub open spec fn slug_model(component: Seq<char>, prefix_override: Option<Seq<char>>) -> Seq<char> {
    match prefix_override {
        Some(p) => p,
        None => component,
    }
}

/// The prefixes of the names of a component's installer sets.
pub fn installer_set_prefixes(component: &str, prefix_override: Option<&str>) -> (r: Vec<String>)
    ensures
        string_views(r@) == prefixes_model(
            slug_model(
                component@,
                match prefix_override {
                    Some(p) => Some(p@),
                    None => None,
                },
            ),
        ),
{
    let slug = match prefix_override {
        Some(p) => p,
        None => component,
    };
    let mut r: Vec<String> = Vec::new();
    r.push(concat2(slug, "-main-deployment-"));
    r.push(concat2(slug, "-main-static-"));
    r.push(concat2(slug, "-post-"));
    r.push(concat2(slug, "-pre-"));
    assert(string_views(r@) == prefixes_model(slug@));
    r
}

/// Whether `name` begins with one of `prefixes`.
pub open spec fn has_one_prefix(name: Seq<char>, prefixes: Seq<Seq<char>>) -> bool {
    exists|i: int| 0 <= i < prefixes.len() && (#[trigger] prefixes[i]).is_prefix_of(name)
}

/// Whether an installer set named `name` is one of those that `prefixes`
/// select.
pub fn matches_installer_set(name: &str, prefixes: &Vec<String>) -> (r: bool)
    ensures
        r == has_one_prefix(name@, string_views(prefixes@)),
{
    let n = to_chars(name);
    let mut i: usize = 0;
    while i < prefixes.len()
        invariant
            i <= prefixes.len(),
            n@ == name@,
            forall|j: int| 0 <= j < i ==> !(#[trigger] string_views(prefixes@)[j]).is_prefix_of(name@),
        decreases prefixes.len() - i,
    {
        let p = to_chars(prefixes[i].as_str());
        assert(string_views(prefixes@)[i as int] == p@);
        if starts_with(&n, &p) {
            return true;
        }
        i = i + 1;
    }
    false
}

/// The names of `names` that begin with one of `prefixes`, in order.
pub open spec fn selected_sets(names: Seq<Seq<char>>, prefixes: Seq<Seq<char>>) -> Seq<Seq<char>> {
    names.filter(|n: Seq<char>| has_one_prefix(n, prefixes))
}

/// The installer sets to delete, of those named `names`: each one whose name
/// begins with one of the component's prefixes, in order.
pub fn delete_installer_sets(
    names: &Vec<String>,
    component: &str,
    prefix_override: Option<&str>,
) -> (r: Vec<String>)
    ensures
        string_views(r@) == selected_sets(
            string_views(names@),
            prefixes_model(
                slug_model(
                    component@,
                    match prefix_override {
                        Some(p) => Some(p@),
                        None => None,
                    },
                ),
            ),
        ),
{
    let prefixes = installer_set_prefixes(component, prefix_override);
    let ghost all = string_views(names@);
    let ghost pm = string_views(prefixes@);
    let ghost selected = |n: Seq<char>| has_one_prefix(n, pm);
    let mut out: Vec<String> = Vec::new();
    let mut i: usize = 0;
    assert(all.take(0) == Seq::<Seq<char>>::empty());
    assert(string_views(out@) == Seq::<Seq<char>>::empty());
    while i < names.len()
        invariant
            i <= names.len(),
            all == string_views(names@),
            pm == string_views(prefixes@),
            selected == |n: Seq<char>| has_one_prefix(n, pm),
            string_views(out@) == all.take(i as int).filter(selected),
        decreases names.len() - i,
    {
        proof {
            assert(all.take(i + 1) == all.take(i as int).push(all[i as int]));
            crate::text::lemma_filter_push(all.take(i as int), all[i as int], selected);
        }
        if matches_installer_set(names[i].as_str(), &prefixes) {
            let ghost before = string_views(out@);
            out.push(names[i].clone());
            assert(string_views(out@) == before.push(names@[i as int]@));
        }
        i = i + 1;
    }
    assert(all.take(names.len() as int) == all);
    assert(string_views(out@) == selected_sets(all, pm));
    out
}

/// How many of `results` are true.
pub open spec fn count_true(results: Seq<bool>) -> nat
    decreases results.len(),
{
    if results.len() == 0 {
        0
    } else {
        count_true(results.drop_last()) + if results.last() {
            1nat
        } else {
            0nat
        }
    }
}

/// The number of installer sets deleted, given for each deletion that was
/// tried whether it went through: a failed one is passed over and stops
/// nothing.
pub fn count_deleted(results: &Vec<bool>) -> (r: u32)
    requires
        results.len() <= u32::MAX,
    ensures
        r == count_true(results@),
{
    let mut n: u32 = 0;
    let mut i: usize = 0;
    assert(results@.take(0) == Seq::<bool>::empty());
    while i < results.len()
        invariant
            i <= results.len(),
            results.len() <= u32::MAX,
            n == count_true(results@.take(i as int)),
            n <= i,
        decreases results.len() - i,
    {
        assert(results@.take(i + 1).drop_last() == results@.take(i as int));
        if results[i] {
            n = n + 1;
        }
        i = i + 1;
    }
    assert(results@.take(results.len() as int) == results@);
    n
}

/// The live workload to patch: found once per run.
#[derive(Debug, Clone)]
pub struct PatchTarget {
    pub namespace: String,
    pub name: String,
}

/// What a `PatchTarget` holds, as plain sequences.
pub struct PatchTargetView {
    pub namespace: Seq<char>,
    pub name: Seq<char>,
}

impl View for PatchTarget {
    type V = PatchTargetView;

    open spec fn view(&self) -> PatchTargetView {
        PatchTargetView { namespace: self.namespace@, name: self.name@ }
    }
}

/// One place to look for the operator's workload.
#[derive(Debug, Clone)]
pub enum Probe {
    /// A workload of this name in this namespace.
    ByName { namespace: String, name: String },
    /// The first workload with this label in this namespace.
    BySelector { namespace: String, selector: String },
}

/// What a `Probe` holds, as plain sequences.
pub enum ProbeView {
    ByName { namespace: Seq<char>, name: Seq<char> },
    BySelector { namespace: Seq<char>, selector: Seq<char> },
}

impl View for Probe {
    type V = ProbeView;

    open spec fn view(&self) -> ProbeView {
        match self {
            Probe::ByName { namespace, name } => ProbeView::ByName {
                namespace: namespace@,
                name: name@,
            },
            Probe::BySelector { namespace, selector } => ProbeView::BySelector {
                namespace: namespace@,
                selector: selector@,
            },
        }
    }
}

impl ProbeView {
    /// The namespace in which the probe looks.
    pub open spec fn namespace(self) -> Seq<char> {
        match self {
            ProbeView::ByName { namespace, .. } => namespace,
            ProbeView::BySelector { namespace, .. } => namespace,
        }
    }
}

/// The namespaces in which the operator's workload may live, by priority.
pub open spec fn operator_namespaces() -> Seq<Seq<char>> {
    seq!["openshift-pipelines"@, "openshift-operators"@, "tekton-pipelines"@]
}

/// The names that the operator's workload may have, by priority.
pub open spec fn operator_deployment_names() -> Seq<Seq<char>> {
    seq!["openshift-pipelines-operator"@, "tekton-operator"@]
}

/// The labels that select the operator's workload, by priority.
pub open spec fn operator_label_selectors() -> Seq<Seq<char>> {
    seq!["app.kubernetes.io/name=openshift-pipelines-operator"@, "app=tekton-operator"@]
}

/// The places to look for the operator's workload, in the order in which
/// they are tried: each name in each namespace, namespace by namespace, then
/// each label in each namespace.
pub open spec fn candidates_model() -> Seq<ProbeView> {
    Seq::new(
        12,
        |i: int|
            if i < 6 {
                ProbeView::ByName {
                    namespace: operator_namespaces()[i / 2],
                    name: operator_deployment_names()[i % 2],
                }
            } else {
                ProbeView::BySelector {
                    namespace: operator_namespaces()[(i - 6) / 2],
                    selector: operator_label_selectors()[i % 2],
                }
            },
    )
}

/// The namespaces in which the operator's workload may live, by priority.
pub fn known_namespaces() -> (r: Vec<String>)
    ensures
        string_views(r@) == operator_namespaces(),
        r.len() == 3,
{
    let mut r: Vec<String> = Vec::new();
    r.push("openshift-pipelines".to_owned());
    r.push("openshift-operators".to_owned());
    r.push("tekton-pipelines".to_owned());
    assert(string_views(r@) == operator_namespaces());
    r
}

/// The names that the operator's workload may have, by priority.
pub fn known_deployment_names() -> (r: Vec<String>)
    ensures
        string_views(r@) == operator_deployment_names(),
        r.len() == 2,
{
    let mut r: Vec<String> = Vec::new();
    r.push("openshift-pipelines-operator".to_owned());
    r.push("tekton-operator".to_owned());
    assert(string_views(r@) == operator_deployment_names());
    r
}

/// The places to look for the operator's workload, in the order in which
/// they are tried.
pub fn locate_candidates() -> (r: Vec<Probe>)
    ensures
        seq_view(r@) == candidates_model(),
{
    let namespaces = known_namespaces();
    let mut r: Vec<Probe> = Vec::new();
    let mut i: usize = 0;
    while i < 3
        invariant
            i <= 3,
            namespaces.len() == 3,
            string_views(namespaces@) == operator_namespaces(),
            r.len() == 2 * i,
            forall|j: int| 0 <= j < 2 * i ==> (#[trigger] r@[j])@ == candidates_model()[j],
        decreases 3 - i,
    {
        assert(string_views(namespaces@)[i as int] == namespaces@[i as int]@);
        r.push(
            Probe::ByName {
                namespace: namespaces[i].clone(),
                name: "openshift-pipelines-operator".to_owned(),
            },
        );
        r.push(
            Probe::ByName {
                namespace: namespaces[i].clone(),
                name: "tekton-operator".to_owned(),
            },
        );
        i = i + 1;
    }
    let mut k: usize = 0;
    while k < 3
        invariant
            k <= 3,
            namespaces.len() == 3,
            string_views(namespaces@) == operator_namespaces(),
            r.len() == 6 + 2 * k,
            forall|j: int| 0 <= j < 6 + 2 * k ==> (#[trigger] r@[j])@ == candidates_model()[j],
        decreases 3 - k,
    {
        assert(string_views(namespaces@)[k as int] == namespaces@[k as int]@);
        r.push(
            Probe::BySelector {
                namespace: namespaces[k].clone(),
                selector: "app.kubernetes.io/name=openshift-pipelines-operator".to_owned(),
            },
        );
        r.push(
            Probe::BySelector {
                namespace: namespaces[k].clone(),
                selector: "app=tekton-operator".to_owned(),
            },
        );
        k = k + 1;
    }
    assert(seq_view(r@) == candidates_model());
    r
}

/// What the cluster answered to one probe.
#[derive(Debug, Clone)]
pub enum ProbeAnswer {
    /// A workload was found; this is its name.
    Found(String),
    /// There is none, or none with a name.
    Absent,
    /// The cluster could not be asked.
    Failed(String),
}

/// What a `ProbeAnswer` holds, as plain sequences.
pub enum ProbeAnswerView {
    Found(Seq<char>),
    Absent,
    Failed(Seq<char>),
}

impl View for ProbeAnswer {
    type V = ProbeAnswerView;

    open spec fn view(&self) -> ProbeAnswerView {
        match self {
            ProbeAnswer::Found(n) => ProbeAnswerView::Found(n@),
            ProbeAnswer::Absent => ProbeAnswerView::Absent,
            ProbeAnswer::Failed(e) => ProbeAnswerView::Failed(e@),
        }
    }
}

/// What follows from the answer to one probe.
#[derive(Debug, Clone)]
pub enum LocateStep {
    /// The workload is found: stop.
    Found(PatchTarget),
    /// Go on with the next probe.
    Next,
    /// Stop with this error.
    Abort(String),
}

/// What a `LocateStep` holds, as plain sequences.
pub enum LocateStepView {
    Found(PatchTargetView),
    Next,
    Abort(Seq<char>),
}

impl View for LocateStep {
    type V = LocateStepView;

    open spec fn view(&self) -> LocateStepView {
        match self {
            LocateStep::Found(t) => LocateStepView::Found(t@),
            LocateStep::Next => LocateStepView::Next,
            LocateStep::Abort(e) => LocateStepView::Abort(e@),
        }
    }
}

/// What follows from the answer to one probe: a workload that was found
/// ends the search; a probe by name that failed counts as one that found
/// nothing; a probe by label that failed ends the search with an error.
pub open spec fn locate_step_model(probe: ProbeView, answer: ProbeAnswerView) -> LocateStepView {
    match answer {
        ProbeAnswerView::Found(name) => LocateStepView::Found(
            PatchTargetView { namespace: probe.namespace(), name },
        ),
        ProbeAnswerView::Absent => LocateStepView::Next,
        ProbeAnswerView::Failed(e) => match probe {
            ProbeView::ByName { .. } => LocateStepView::Next,
            ProbeView::BySelector { namespace, .. } => LocateStepView::Abort(
                "Failed to list deployments in namespace "@ + namespace + ": "@ + e,
            ),
        },
    }
}

/// Decides what follows from the answer to one probe.
pub fn locate_step(probe: &Probe, answer: &ProbeAnswer) -> (r: LocateStep)
    ensures
        r@ == locate_step_model(probe@, answer@),
{
    match answer {
        ProbeAnswer::Found(name) => {
            let namespace = match probe {
                Probe::ByName { namespace, .. } => namespace.clone(),
                Probe::BySelector { namespace, .. } => namespace.clone(),
            };
            LocateStep::Found(PatchTarget { namespace, name: name.clone() })
        },
        ProbeAnswer::Absent => LocateStep::Next,
        ProbeAnswer::Failed(e) => match probe {
            Probe::ByName { .. } => LocateStep::Next,
            Probe::BySelector { namespace, .. } => {
                let head = concat3(
                    "Failed to list deployments in namespace ",
                    namespace.as_str(),
                    ": ",
                );
                LocateStep::Abort(concat2(head.as_str(), e.as_str()))
            },
        },
    }
}

/// The diagnostic of a search that found nothing: every namespace, name and
/// label that was tried.
pub open spec fn not_found_message() -> Seq<char> {
    "Operator controller deployment not found.\nChecked namespaces: openshift-pipelines, openshift-operators, tekton-pipelines\nChecked names: openshift-pipelines-operator, tekton-operator\nChecked labels: app.kubernetes.io/name=openshift-pipelines-operator, app=tekton-operator"@
}

/// The result of a search, given the answers to the first probes: that of
/// the first probe whose answer ends the search; where none does, and all
/// places were tried, the diagnostic.
pub open spec fn located_model(probes: Seq<ProbeView>, answers: Seq<ProbeAnswerView>) -> Result<
    PatchTargetView,
    Seq<char>,
>
    decreases probes.len(),
{
    if probes.len() == 0 || answers.len() == 0 {
        Err(not_found_message())
    } else {
        match locate_step_model(probes[0], answers[0]) {
            LocateStepView::Found(t) => Ok(t),
            LocateStepView::Abort(e) => Err(e),
            LocateStepView::Next => located_model(probes.drop_first(), answers.drop_first()),
        }
    }
}

/// Finds the operator's workload from the answers to the probes, taken in
/// the order of the candidates: the first match wins, and a search without
/// one fails with the diagnostic that lists all that was tried.
pub fn find_operator_deployment(answers: &Vec<ProbeAnswer>) -> (r: Result<PatchTarget, String>)
    ensures
        match (r, located_model(candidates_model(), seq_view(answers@))) {
            (Ok(t), Ok(m)) => t@ == m,
            (Err(e), Err(m)) => e@ == m,
            _ => false,
        },
{
    let probes = locate_candidates();
    let ghost pv = seq_view(probes@);
    let ghost av = seq_view(answers@);
    let mut i: usize = 0;
    assert(pv.skip(0) == pv);
    assert(av.skip(0) == av);
    while i < probes.len() && i < answers.len()
        invariant
            i <= probes.len(),
            i <= answers.len(),
            pv == seq_view(probes@),
            av == seq_view(answers@),
            pv == candidates_model(),
            located_model(pv, av) == located_model(pv.skip(i as int), av.skip(i as int)),
        decreases probes.len() - i,
    {
        proof {
            assert(pv.skip(i as int)[0] == probes@[i as int]@);
            assert(av.skip(i as int)[0] == answers@[i as int]@);
            assert(pv.skip(i as int).drop_first() == pv.skip(i + 1));
            assert(av.skip(i as int).drop_first() == av.skip(i + 1));
        }
        match locate_step(&probes[i], &answers[i]) {
            LocateStep::Found(t) => {
                return Ok(t);
            },
            LocateStep::Abort(e) => {
                return Err(e);
            },
            LocateStep::Next => {},
        }
        i = i + 1;
    }
    Err(
        "Operator controller deployment not found.\nChecked namespaces: openshift-pipelines, openshift-operators, tekton-pipelines\nChecked names: openshift-pipelines-operator, tekton-operator\nChecked labels: app.kubernetes.io/name=openshift-pipelines-operator, app=tekton-operator".to_owned(),
    )
}

/// A failed call of the cluster API: the status code of the API's answer,
/// where there was one, and the error's text.
#[derive(Debug, Clone)]
pub struct ApiFailure {
    pub code: Option<u16>,
    pub message: String,
}

/// The message for a failed read of the operator's configuration resource.
pub open spec fn verify_failure_message(code: Option<u16>, message: Seq<char>) -> Seq<char> {
    if code == Some(404u16) {
        "OpenShift Pipelines operator not found. TektonConfig CR 'config' does not exist.\nIs the operator installed?"@
    } else if code == Some(403u16) {
        "Insufficient permissions to read TektonConfig CR.\nEnsure you have cluster-admin or appropriate RBAC."@
    } else {
        "Failed to verify operator installation: "@ + message
    }
}

/// Judges the read of the operator's configuration resource: the operator
/// is installed where the read went through; else the error says whether
/// the resource is missing, the caller may not read it, or the read failed.
pub fn verify_operator(read: &Result<(), ApiFailure>) -> (r: Result<(), String>)
    ensures
        match *read {
            Ok(_) => r is Ok,
            Err(f) => r is Err && r->Err_0@ == verify_failure_message(f.code, f.message@),
        },
{
    match read {
        Ok(_) => Ok(()),
        Err(f) => {
            match f.code {
                Some(404) => Err(
                    "OpenShift Pipelines operator not found. TektonConfig CR 'config' does not exist.\nIs the operator installed?".to_owned(),
                ),
                Some(403) => Err(
                    "Insufficient permissions to read TektonConfig CR.\nEnsure you have cluster-admin or appropriate RBAC.".to_owned(),
                ),
                _ => Err(concat2("Failed to verify operator installation: ", f.message.as_str())),
            }
        },
    }
}

/// The part of its name by which the operator's cluster service version is
/// known.
pub open spec fn csv_marker() -> Seq<char> {
    "openshift-pipelines-operator"@
}

/// The first of `names` that holds the operator's marker, or the length of
/// `names`.
pub open spec fn first_csv(names: Seq<Seq<char>>) -> int
    decreases names.len(),
{
    if names.len() == 0 || contains_sub(names[0], csv_marker()) {
        0
    } else {
        1 + first_csv(names.drop_first())
    }
}

/// The message for a namespace without the operator's cluster service
/// version.
pub open spec fn csv_not_found_message(namespace: Seq<char>) -> Seq<char> {
    "OpenShift Pipelines CSV not found in namespace "@ + namespace
}

/// Picks the operator's cluster service version among the names of those in
/// a namespace: the first whose name holds the operator's marker.
pub fn find_operator_csv(names: &Vec<String>, namespace: &str) -> (r: Result<String, String>)
    ensures
        0 <= first_csv(string_views(names@)) <= names.len(),
        match r {
            Ok(name) => first_csv(string_views(names@)) < names.len() && name@ == names@[first_csv(
                string_views(names@),
            )]@,
            Err(e) => first_csv(string_views(names@)) == names.len() && e@
                == csv_not_found_message(namespace@),
        },
{
    let marker = to_chars("openshift-pipelines-operator");
    let ghost all = string_views(names@);
    let mut i: usize = 0;
    assert(all.skip(0) == all);
    while i < names.len()
        invariant
            i <= names.len(),
            marker@ == csv_marker(),
            all == string_views(names@),
            first_csv(all) == i + first_csv(all.skip(i as int)),
        decreases names.len() - i,
    {
        let n = to_chars(names[i].as_str());
        assert(all.skip(i as int)[0] == n@);
        if contains(&n, &marker) {
            return Ok(names[i].clone());
        }
        assert(all.skip(i as int).drop_first() == all.skip(i + 1));
        i = i + 1;
    }
    Err(concat2("OpenShift Pipelines CSV not found in namespace ", namespace))
}

/// The search returns the first match: where the probes before position
/// `k` found nothing and the probe at `k` found a workload, that workload
/// is the result, in the namespace of that probe, whatever the later
/// probes found.
pub proof fn lemma_first_match_wins(probes: Seq<ProbeView>, answers: Seq<ProbeAnswerView>, k: int)
    requires
        0 <= k < probes.len(),
        k < answers.len(),
        forall|i: int| 0 <= i < k ==> answers[i] is Absent,
        answers[k] is Found,
    ensures
        located_model(probes, answers) == Ok::<PatchTargetView, Seq<char>>(
            PatchTargetView { namespace: probes[k].namespace(), name: answers[k]->Found_0 },
        ),
    decreases k,
{
    if k > 0 {
        assert(answers[0] is Absent);
        let rest_probes = probes.drop_first();
        let rest_answers = answers.drop_first();
        assert forall|i: int| 0 <= i < k - 1 implies rest_answers[i] is Absent by {
            assert(rest_answers[i] == answers[i + 1]);
        }
        assert(rest_answers[k - 1] == answers[k]);
        assert(rest_probes[k - 1] == probes[k]);
        lemma_first_match_wins(rest_probes, rest_answers, k - 1);
    }
}

/// A role binding, as far as this tool writes one: one role for one subject.
#[derive(Debug, Clone)]
pub struct RoleBinding {
    pub name: String,
    pub namespace: String,
    pub role_api_group: String,
    pub role_kind: String,
    pub role_name: String,
    pub subject_api_group: String,
    pub subject_kind: String,
    pub subject_name: String,
}

/// What a `RoleBinding` holds, as plain sequences.
pub struct RoleBindingView {
    pub name: Seq<char>,
    pub namespace: Seq<char>,
    pub role_api_group: Seq<char>,
    pub role_kind: Seq<char>,
    pub role_name: Seq<char>,
    pub subject_api_group: Seq<char>,
    pub subject_kind: Seq<char>,
    pub subject_name: Seq<char>,
}

impl View for RoleBinding {
    type V = RoleBindingView;

    open spec fn view(&self) -> RoleBindingView {
        RoleBindingView {
            name: self.name@,
            namespace: self.namespace@,
            role_api_group: self.role_api_group@,
            role_kind: self.role_kind@,
            role_name: self.role_name@,
            subject_api_group: self.subject_api_group@,
            subject_kind: self.subject_kind@,
            subject_name: self.subject_name@,
        }
    }
}

/// The binding that lets every authenticated user pull images from
/// `namespace`.
pub open spec fn image_puller_model(namespace: Seq<char>) -> RoleBindingView {
    RoleBindingView {
        name: "image-puller-all-authenticated"@,
        namespace,
        role_api_group: "rbac.authorization.k8s.io"@,
        role_kind: "ClusterRole"@,
        role_name: "system:image-puller"@,
        subject_api_group: "rbac.authorization.k8s.io"@,
        subject_kind: "Group"@,
        subject_name: "system:authenticated"@,
    }
}

/// The name of the binding that grants the right to pull images.
pub fn image_puller_binding_name() -> (r: String)
    ensures
        r@ == "image-puller-all-authenticated"@,
{
    "image-puller-all-authenticated".to_owned()
}

/// The binding to create so that every authenticated user can pull images
/// from `namespace`; none where it exists already.
pub fn ensure_image_pull_rbac(exists: bool, namespace: &str) -> (r: Option<RoleBinding>)
    ensures
        exists ==> r is None,
        !exists ==> r is Some && r->Some_0@ == image_puller_model(namespace@),
{
    if exists {
        None
    } else {
        Some(
            RoleBinding {
                name: image_puller_binding_name(),
                namespace: namespace.to_owned(),
                role_api_group: "rbac.authorization.k8s.io".to_owned(),
                role_kind: "ClusterRole".to_owned(),
                role_name: "system:image-puller".to_owned(),
                subject_api_group: "rbac.authorization.k8s.io".to_owned(),
                subject_kind: "Group".to_owned(),
                subject_name: "system:authenticated".to_owned(),
            },
        )
    }
}

/// The two ways to bring an image mapping to the operator.
#[derive(Debug, Clone, Copy, PartialEq, Eq, Structural)]
pub enum PatchStrategy {
    /// The environment of the live workload is patched: its owner is known
    /// to leave such edits alone.
    Workload,
    /// The manifest that the workload is generated from is patched: for
    /// platforms that carry such edits over to the workload.
    Manifest,
}

/// The strategy that is followed where none is asked for: the live
/// workload is patched.
pub fn default_patch_strategy() -> (r: PatchStrategy)
    ensures
        r == PatchStrategy::Workload,
{
    PatchStrategy::Workload
}

} // verus!
