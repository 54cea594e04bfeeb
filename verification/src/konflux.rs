//! Pipeline runs on the release pipeline service.

use vstd::prelude::*;
use crate::deploy::manifest::{find_named, named_index};
use crate::document::{
    compact_document, key_path, lemma_list_view, list_of, list_view, members_view, object_of,
    parse_document, parse_yaml, parsed_document, parsed_yaml, render_compact, render_yaml,
    rendered_yaml, set_key, with_key, Document, DocumentView, Member, StepView,
};
use crate::text::{
    append_chars, concat2, concat3, contains, contains_sub, find_char_from, find_first,
    find_first_of, first_index, from_chars, lemma_filter_push, replace_all, replaced, str_eq,
    sub_vec, to_chars,
};

verus! {

/// How a pipeline run ended.
#[derive(Debug, Clone, Copy, PartialEq, Eq, Structural)]
pub enum PipelineRunStatus {
    Succeeded,
    Failed,
    Timeout,
}

/// The result of a pipeline run that has ended.
#[derive(Debug, Clone)]
pub struct PipelineRunResult {
    pub name: String,
    pub status: PipelineRunStatus,
    pub duration_secs: u64,
    pub reason: String,
}

/// How a pipeline run stands, by the reason of its first condition: it
/// succeeded, it failed, or it has not ended yet.
pub open spec fn run_status_model(reason: Seq<char>) -> Option<PipelineRunStatus> {
    if reason == "Succeeded"@ {
        Some(PipelineRunStatus::Succeeded)
    } else if reason == "Failed"@ || reason == "PipelineRunTimeout"@ || reason
        == "CouldntGetPipeline"@ {
        Some(PipelineRunStatus::Failed)
    } else {
        None
    }
}

/// How a pipeline run stands, by the reason of its first condition.
pub fn pipeline_run_status(reason: &str) -> (r: Option<PipelineRunStatus>)
    ensures
        r == run_status_model(reason@),
{
    if str_eq(reason, "Succeeded") {
        Some(PipelineRunStatus::Succeeded)
    } else if str_eq(reason, "Failed") || str_eq(reason, "PipelineRunTimeout") || str_eq(
        reason,
        "CouldntGetPipeline",
    ) {
        Some(PipelineRunStatus::Failed)
    } else {
        None
    }
}

/// The name of the pod that runs a task of a pipeline run.
pub fn task_pod_name(pipelinerun_name: &str, task_name: &str) -> (r: String)
    ensures
        r@ == pipelinerun_name@ + "-"@ + task_name@ + "-pod"@,
{
    let head = concat3(pipelinerun_name, "-", task_name);
    crate::text::concat2(head.as_str(), "-pod")
}

/// The text under `key` of `doc`, where there is one.
pub open spec fn text_member(doc: DocumentView, key: Seq<char>) -> Option<Seq<char>> {
    match doc.member(key) {
        Some(DocumentView::Text(t)) => Some(t),
        _ => None,
    }
}

/// Whether a component of a snapshot is the index: its name says so, and it
/// names an image.
pub open spec fn is_index_component(component: DocumentView) -> bool {
    let name = match text_member(component, "name"@) {
        Some(n) => n,
        None => Seq::<char>::empty(),
    };
    (contains_sub(name, "fbc"@) || contains_sub(name, "index"@)) && text_member(
        component,
        "containerImage"@,
    ) is Some
}

/// The position of the first index component among `components`, or their
/// number where there is none.
pub open spec fn first_index_component(components: Seq<DocumentView>) -> int
    decreases components.len(),
{
    if components.len() == 0 || is_index_component(components[0]) {
        0
    } else {
        1 + first_index_component(components.drop_first())
    }
}

/// The index image that a snapshot names: that of the first component
/// whose name marks it as the index; else that of the last component.
pub open spec fn index_image_model(snapshot: DocumentView) -> Result<Seq<char>, Seq<char>> {
    match snapshot.member("components"@) {
        Some(DocumentView::List(components)) => {
            let at = first_index_component(components);
            if at < components.len() {
                Ok(text_member(components[at], "containerImage"@)->Some_0)
            } else if components.len() > 0 && text_member(
                components.last(),
                "containerImage"@,
            ) is Some {
                Ok(text_member(components.last(), "containerImage"@)->Some_0)
            } else {
                Err("No FBC index image found in SNAPSHOT components"@)
            }
        },
        _ => Err("SNAPSHOT JSON missing 'components' array"@),
    }
}

/// The text under `key` of `doc`, where there is one.
fn text_of<'a>(doc: &'a Document, key: &str) -> (r: Option<&'a String>)
    ensures
        match r {
            Some(t) => text_member(doc@, key@) == Some(t@),
            None => text_member(doc@, key@) is None,
        },
{
    match doc.get(key) {
        Some(Document::Text(t)) => Some(t),
        _ => None,
    }
}

/// Whether a component of a snapshot is the index.
fn names_index(component: &Document) -> (r: bool)
    ensures
        r == is_index_component(component@),
{
    let marked = match text_of(component, "name") {
        Some(n) => {
            let name = to_chars(n.as_str());
            contains(&name, &to_chars("fbc")) || contains(&name, &to_chars("index"))
        },
        None => {
            let none: Vec<char> = Vec::new();
            contains(&none, &to_chars("fbc")) || contains(&none, &to_chars("index"))
        },
    };
    marked && text_of(component, "containerImage").is_some()
}

/// Finds the index image in a snapshot.
pub fn extract_index_image(snapshot: &Document) -> (r: Result<String, String>)
    ensures
        match (r, index_image_model(snapshot@)) {
            (Ok(image), Ok(m)) => image@ == m,
            (Err(e), Err(m)) => e@ == m,
            _ => false,
        },
{
    let components: &Vec<Document> = match snapshot.get("components") {
        Some(Document::List(items)) => {
            proof {
                lemma_list_view(*items);
            }
            items
        },
        _ => {
            return Err("SNAPSHOT JSON missing 'components' array".to_owned());
        },
    };
    let ghost all = list_view(components@);
    let mut i: usize = 0;
    assert(all.skip(0) == all);
    while i < components.len()
        invariant
            i <= components.len(),
            all == list_view(components@),
            snapshot@.member("components"@) == Some(DocumentView::List(all)),
            first_index_component(all) == i + first_index_component(all.skip(i as int)),
        decreases components.len() - i,
    {
        assert(all.skip(i as int)[0] == components@[i as int]@);
        if names_index(&components[i]) {
            match text_of(&components[i], "containerImage") {
                Some(image) => {
                    return Ok(image.clone());
                },
                None => {},
            }
        }
        assert(all.skip(i as int).drop_first() == all.skip(i + 1));
        i = i + 1;
    }
    if components.len() > 0 {
        match text_of(&components[components.len() - 1], "containerImage") {
            Some(image) => {
                return Ok(image.clone());
            },
            None => {},
        }
    }
    Err("No FBC index image found in SNAPSHOT components".to_owned())
}

/// The tasks that provision a cluster of their own, which a pipeline that
/// runs on the current cluster does without.
pub open spec fn provisioning_tasks() -> Seq<Seq<char>> {
    seq![
        "provision-eaas-space"@,
        "provision-cluster"@,
        "eaas-provision-space"@,
        "eaas-provision-cluster"@,
    ]
}

/// Whether a name holds the name of a provisioning task.
pub open spec fn names_provisioning(name: Seq<char>) -> bool {
    exists|i: int|
        0 <= i < provisioning_tasks().len() && contains_sub(name, #[trigger] provisioning_tasks()[i])
}

/// The provisioning tasks.
fn provisioning_task_names() -> (r: Vec<Vec<char>>)
    ensures
        crate::text::views(r@) == provisioning_tasks(),
        r.len() == 4,
{
    let mut r: Vec<Vec<char>> = Vec::new();
    r.push(to_chars("provision-eaas-space"));
    r.push(to_chars("provision-cluster"));
    r.push(to_chars("eaas-provision-space"));
    r.push(to_chars("eaas-provision-cluster"));
    assert(crate::text::views(r@) =~= provisioning_tasks());
    r
}

/// Whether a name holds the name of a provisioning task.
pub fn is_provisioning(name: &Vec<char>) -> (r: bool)
    ensures
        r == names_provisioning(name@),
{
    let tasks = provisioning_task_names();
    let mut i: usize = 0;
    while i < tasks.len()
        invariant
            i <= tasks.len(),
            crate::text::views(tasks@) == provisioning_tasks(),
            forall|j: int| 0 <= j < i ==> !contains_sub(name@, #[trigger] provisioning_tasks()[j]),
        decreases tasks.len() - i,
    {
        assert(crate::text::views(tasks@)[i as int] == tasks@[i as int]@);
        if contains(name, &tasks[i]) {
            return true;
        }
        i = i + 1;
    }
    false
}

/// How a reference to a result of `task` begins.
pub open spec fn result_pattern(task: Seq<char>) -> Seq<char> {
    "$(tasks."@ + task + ".results."@
}

/// `s` without the references that begin with `pattern`: as long as one
/// stands in `s` and is closed by a bracket, it is taken out wherever it
/// stands; at most `fuel` times.
pub open spec fn without_references(s: Seq<char>, pattern: Seq<char>, fuel: nat) -> Seq<char>
    decreases fuel,
{
    let start = find_first(s, pattern);
    if fuel == 0 || start < 0 || s.len() < start {
        s
    } else {
        let end = first_index(s.skip(start), ')');
        if end >= s.len() - start {
            s
        } else {
            without_references(
                replaced(s, s.subrange(start, start + end + 1), Seq::<char>::empty()),
                pattern,
                (fuel - 1) as nat,
            )
        }
    }
}

/// The text of a task without its references to the results of the
/// provisioning task `task`: the cluster's name becomes a fixed one, the
/// reference to the secret goes, and so does every other reference.
pub open spec fn rewritten_for(s: Seq<char>, task: Seq<char>) -> Seq<char> {
    let pattern = result_pattern(task);
    let a = replaced(s, pattern + "clusterName)"@, "standalone-cluster"@);
    let b = replaced(a, pattern + "secretRef)"@, Seq::<char>::empty());
    without_references(b, pattern, b.len())
}

/// The text of a task without its references to the results of the first
/// `n` provisioning tasks.
pub open spec fn rewritten_text(s: Seq<char>, n: int) -> Seq<char>
    decreases n,
{
    if n <= 0 {
        s
    } else {
        rewritten_for(rewritten_text(s, n - 1), provisioning_tasks()[n - 1])
    }
}

/// Takes the references that begin with `pattern` out of `text`.
fn strip_references(text: &Vec<char>, pattern: &Vec<char>) -> (r: Vec<char>)
    ensures
        r@ == without_references(text@, pattern@, text@.len()),
{
    let mut s = sub_vec(text, 0, text.len());
    let mut fuel: usize = s.len();
    assert(s@ == text@);
    loop
        invariant
            without_references(text@, pattern@, text@.len()) == without_references(
                s@,
                pattern@,
                fuel as nat,
            ),
        decreases fuel,
    {
        if fuel == 0 {
            return s;
        }
        let start = match find_first_of(&s, pattern) {
            Some(i) => i,
            None => {
                return s;
            },
        };
        let end = find_char_from(&s, ')', start);
        if end >= s.len() {
            return s;
        }
        let full = sub_vec(&s, start, end + 1);
        let none: Vec<char> = Vec::new();
        let next = replace_all(&s, &full, &none);
        s = next;
        fuel = fuel - 1;
    }
}

/// Takes the references to the results of one provisioning task out of the
/// text of a task.
fn rewrite_for(text: Vec<char>, task: &Vec<char>) -> (r: Vec<char>)
    ensures
        r@ == rewritten_for(text@, task@),
{
    let mut pattern = to_chars("$(tasks.");
    append_chars(&mut pattern, task);
    append_chars(&mut pattern, &to_chars(".results."));
    let mut cluster = sub_vec(&pattern, 0, pattern.len());
    append_chars(&mut cluster, &to_chars("clusterName)"));
    let mut secret = sub_vec(&pattern, 0, pattern.len());
    append_chars(&mut secret, &to_chars("secretRef)"));
    assert(pattern@.subrange(0, pattern.len() as int) == pattern@);
    let a = replace_all(&text, &cluster, &to_chars("standalone-cluster"));
    let none: Vec<char> = Vec::new();
    let b = replace_all(&a, &secret, &none);
    strip_references(&b, &pattern)
}

/// Takes the references to the results of the provisioning tasks out of
/// the text of a task.
pub fn rewrite_references(text: &str) -> (r: String)
    ensures
        r@ == rewritten_text(text@, 4),
{
    let tasks = provisioning_task_names();
    let mut s = to_chars(text);
    let mut i: usize = 0;
    while i < tasks.len()
        invariant
            i <= tasks.len(),
            tasks.len() == 4,
            crate::text::views(tasks@) == provisioning_tasks(),
            s@ == rewritten_text(text@, i as int),
        decreases tasks.len() - i,
    {
        assert(crate::text::views(tasks@)[i as int] == tasks@[i as int]@);
        s = rewrite_for(s, &tasks[i]);
        i = i + 1;
    }
    from_chars(&s)
}

/// A task without its references to the results of the provisioning
/// tasks: its text is rewritten and read again; a task whose text does not
/// change, or does not read any more, stays as it is.
pub open spec fn rewritten_task(task: DocumentView) -> DocumentView {
    let text = compact_document(task);
    let new = rewritten_text(text, 4);
    if new == text {
        task
    } else {
        match parsed_document(new) {
            Some(d) => d,
            None => task,
        }
    }
}

/// Takes the references to the results of the provisioning tasks out of a
/// task.
pub fn replace_eaas_references(task: Document) -> (r: Document)
    ensures
        r@ == rewritten_task(task@),
{
    let text = render_compact(&task);
    let new = rewrite_references(text.as_str());
    if str_eq(new.as_str(), text.as_str()) {
        task
    } else {
        match parse_document(new.as_str()) {
            Some(d) => d,
            None => task,
        }
    }
}

/// The name under which a document goes: the text under "name", or the
/// empty text.
pub open spec fn name_of(doc: DocumentView) -> Seq<char> {
    match text_member(doc, "name"@) {
        Some(n) => n,
        None => Seq::<char>::empty(),
    }
}

/// The text that a document is, or the empty text.
pub open spec fn text_or_empty(doc: DocumentView) -> Seq<char> {
    match doc {
        DocumentView::Text(t) => t,
        _ => Seq::<char>::empty(),
    }
}

/// A task without the provisioning tasks among those it runs after.
pub open spec fn without_run_after(task: DocumentView) -> DocumentView {
    match task.member("runAfter"@) {
        Some(DocumentView::List(after)) => with_key(
            task,
            "runAfter"@,
            DocumentView::List(
                after.filter(|v: DocumentView| !names_provisioning(text_or_empty(v))),
            ),
        ),
        _ => task,
    }
}

/// Takes the provisioning tasks out of what a task runs after.
pub fn remove_run_after(task: Document) -> (r: Document)
    ensures
        r@ == without_run_after(task@),
{
    let kept: Vec<Document> = match task.get("runAfter") {
        Some(Document::List(after)) => {
            proof {
                lemma_list_view(*after);
            }
            let ghost all = list_view(after@);
            let ghost keep = |v: DocumentView| !names_provisioning(text_or_empty(v));
            let mut out: Vec<Document> = Vec::new();
            let mut i: usize = 0;
            assert(all.take(0) == Seq::<DocumentView>::empty());
            assert(list_view(out@) =~= all.take(0).filter(keep));
            while i < after.len()
                invariant
                    i <= after.len(),
                    all == list_view(after@),
                    keep == |v: DocumentView| !names_provisioning(text_or_empty(v)),
                    list_view(out@) == all.take(i as int).filter(keep),
                decreases after.len() - i,
            {
                proof {
                    assert(all.take(i + 1) == all.take(i as int).push(all[i as int]));
                    lemma_filter_push(all.take(i as int), all[i as int], keep);
                }
                let name: Vec<char> = match &after[i] {
                    Document::Text(t) => to_chars(t.as_str()),
                    _ => Vec::new(),
                };
                if !is_provisioning(&name) {
                    let ghost before = list_view(out@);
                    out.push(after[i].copy());
                    assert(list_view(out@) =~= before.push(all[i as int]));
                }
                i = i + 1;
            }
            assert(all.take(after.len() as int) == all);
            out
        },
        _ => {
            return task;
        },
    };
    set_key(task, "runAfter", list_of(kept))
}

/// The tasks of a section for a pipeline that runs on the current cluster:
/// the provisioning tasks are left out, and every other task loses its
/// references to their results and no longer runs after them.
pub open spec fn cleaned_tasks(tasks: Seq<DocumentView>) -> Seq<DocumentView>
    decreases tasks.len(),
{
    if tasks.len() == 0 {
        seq![]
    } else {
        let rest = cleaned_tasks(tasks.drop_last());
        if names_provisioning(name_of(tasks.last())) {
            rest
        } else {
            rest.push(without_run_after(rewritten_task(tasks.last())))
        }
    }
}

/// A pipeline with the tasks of one of its sections cleaned; a pipeline
/// without a list of tasks in that section stays as it is.
pub open spec fn with_cleaned_section(doc: DocumentView, section: Seq<char>) -> DocumentView {
    let path = seq![StepView::Key("spec"@), StepView::Key(section)];
    match doc.at(path) {
        Some(DocumentView::List(tasks)) => doc.put(path, DocumentView::List(cleaned_tasks(tasks))),
        _ => doc,
    }
}

/// Cleans the tasks of one section of a pipeline.
pub fn clean_section(doc: Document, section: &str) -> (r: Document)
    ensures
        r@ == with_cleaned_section(doc@, section@),
{
    let path = key_path("spec", section);
    let cleaned: Vec<Document> = match doc.get_path(&path) {
        Some(Document::List(tasks)) => {
            proof {
                lemma_list_view(*tasks);
            }
            let ghost all = list_view(tasks@);
            let mut out: Vec<Document> = Vec::new();
            let mut i: usize = 0;
            assert(all.take(0) == Seq::<DocumentView>::empty());
            assert(list_view(out@) =~= cleaned_tasks(all.take(0)));
            while i < tasks.len()
                invariant
                    i <= tasks.len(),
                    all == list_view(tasks@),
                    list_view(out@) == cleaned_tasks(all.take(i as int)),
                decreases tasks.len() - i,
            {
                proof {
                    assert(all.take(i + 1).drop_last() == all.take(i as int));
                    assert(all.take(i + 1).last() == tasks@[i as int]@);
                }
                let name: Vec<char> = match text_of(&tasks[i], "name") {
                    Some(n) => to_chars(n.as_str()),
                    None => Vec::new(),
                };
                if !is_provisioning(&name) {
                    let ghost before = list_view(out@);
                    let task = remove_run_after(replace_eaas_references(tasks[i].copy()));
                    out.push(task);
                    assert(list_view(out@) =~= before.push(
                        without_run_after(rewritten_task(all[i as int])),
                    ));
                }
                i = i + 1;
            }
            assert(all.take(tasks.len() as int) == all);
            out
        },
        _ => {
            return doc;
        },
    };
    doc.put_path(&path, list_of(cleaned))
}

/// The parameter that names the index image.
pub open spec fn index_image_param() -> DocumentView {
    DocumentView::Object(
        seq![
            ("name"@, DocumentView::Text("INDEX_IMAGE"@)),
            ("type"@, DocumentView::Text("string"@)),
            (
                "description"@,
                DocumentView::Text("FBC index image containing the operator bundle"@),
            ),
        ],
    )
}

/// A pipeline with the parameter for the index image; a pipeline without a
/// list of parameters, or with that parameter, stays as it is.
pub open spec fn with_index_param(doc: DocumentView) -> DocumentView {
    let path = seq![StepView::Key("spec"@), StepView::Key("params"@)];
    match doc.at(path) {
        Some(DocumentView::List(params)) => if named_index(params, "INDEX_IMAGE"@) < params.len() {
            doc
        } else {
            doc.put(path, DocumentView::List(params.push(index_image_param())))
        },
        _ => doc,
    }
}

/// Gives a pipeline the parameter for the index image.
pub fn add_index_param(doc: Document) -> (r: Document)
    ensures
        r@ == with_index_param(doc@),
{
    let path = key_path("spec", "params");
    let params: Vec<Document> = match doc.get_path(&path) {
        Some(Document::List(params)) => {
            proof {
                lemma_list_view(*params);
            }
            if find_named(params, "INDEX_IMAGE") < params.len() {
                return doc;
            }
            let mut all: Vec<Document> = Vec::new();
            let mut i: usize = 0;
            while i < params.len()
                invariant
                    i <= params.len(),
                    all.len() == i,
                    forall|j: int| 0 <= j < i ==> (#[trigger] all@[j])@ == params@[j]@,
                decreases params.len() - i,
            {
                all.push(params[i].copy());
                i = i + 1;
            }
            let mut members: Vec<Member> = Vec::new();
            members.push(
                Member { key: "name".to_owned(), value: Document::Text("INDEX_IMAGE".to_owned()) },
            );
            members.push(
                Member { key: "type".to_owned(), value: Document::Text("string".to_owned()) },
            );
            members.push(
                Member {
                    key: "description".to_owned(),
                    value: Document::Text(
                        "FBC index image containing the operator bundle".to_owned(),
                    ),
                },
            );
            assert(members_view(members@) =~= index_image_param()->Object_0);
            let param = object_of(members);
            all.push(param);
            assert(list_view(all@) =~= list_view(params@).push(index_image_param()));
            all
        },
        _ => {
            return doc;
        },
    };
    doc.put_path(&path, list_of(params))
}

/// A pipeline under the name of its standalone variant; a pipeline without
/// a name stays as it is.
pub open spec fn renamed(doc: DocumentView) -> DocumentView {
    let path = seq![StepView::Key("metadata"@), StepView::Key("name"@)];
    match doc.at(path) {
        Some(name) => doc.put(
            path,
            DocumentView::Text(
                match name {
                    DocumentView::Text(t) => t,
                    _ => "release-test-pipeline"@,
                } + "-standalone"@,
            ),
        ),
        None => doc,
    }
}

/// Gives a pipeline the name of its standalone variant.
pub fn rename_pipeline(doc: Document) -> (r: Document)
    ensures
        r@ == renamed(doc@),
{
    let path = key_path("metadata", "name");
    let name = match doc.get_path(&path) {
        Some(Document::Text(t)) => concat2(t.as_str(), "-standalone"),
        Some(_) => concat2("release-test-pipeline", "-standalone"),
        None => {
            return doc;
        },
    };
    doc.put_path(&path, Document::Text(name))
}

/// The variant of a pipeline that runs on the current cluster.
pub open spec fn standalone(doc: DocumentView) -> DocumentView {
    with_cleaned_section(
        with_cleaned_section(with_index_param(renamed(doc)), "tasks"@),
        "finally"@,
    )
}

/// The text of the standalone variant of the pipeline that a YAML text
/// holds, or why there is none.
pub open spec fn standalone_text(yaml: Seq<char>) -> Result<Seq<char>, Seq<char>> {
    match parsed_yaml(yaml) {
        None => Err("Failed to parse pipeline YAML"@),
        Some(doc) => match rendered_yaml(standalone(doc)) {
            Some(text) => Ok(text),
            None => Err("Failed to serialize standalone pipeline YAML"@),
        },
    }
}

/// Turns the release pipeline into a variant that runs on the current
/// cluster: under a name of its own, with a parameter for the index image,
/// and without the tasks that provision a cluster.
pub fn create_standalone_pipeline(pipeline_yaml: &str) -> (r: Result<String, String>)
    ensures
        match (r, standalone_text(pipeline_yaml@)) {
            (Ok(text), Ok(m)) => text@ == m,
            (Err(e), Err(m)) => e@ == m,
            _ => false,
        },
{
    let doc = match parse_yaml(pipeline_yaml) {
        Some(d) => d,
        None => {
            return Err("Failed to parse pipeline YAML".to_owned());
        },
    };
    let result = clean_section(
        clean_section(add_index_param(rename_pipeline(doc)), "tasks"),
        "finally",
    );
    match render_yaml(&result) {
        Some(text) => Ok(text),
        None => Err("Failed to serialize standalone pipeline YAML".to_owned()),
    }
}

/// A text as a document.
pub open spec fn text(t: Seq<char>) -> DocumentView {
    DocumentView::Text(t)
}

/// A parameter of a pipeline run.
pub open spec fn param(name: Seq<char>, value: Seq<char>) -> DocumentView {
    DocumentView::Object(seq![("name"@, text(name)), ("value"@, text(value))])
}

/// The run of the standalone pipeline on a snapshot.
pub open spec fn pipelinerun_model(
    name: Seq<char>,
    snapshot_json: Seq<char>,
    index_image: Seq<char>,
    namespace: Seq<char>,
) -> DocumentView {
    DocumentView::Object(
        seq![
            ("apiVersion"@, text("tekton.dev/v1"@)),
            ("kind"@, text("PipelineRun"@)),
            (
                "metadata"@,
                DocumentView::Object(seq![("name"@, text(name)), ("namespace"@, text(namespace))]),
            ),
            (
                "spec"@,
                DocumentView::Object(
                    seq![
                        (
                            "pipelineRef"@,
                            DocumentView::Object(
                                seq![("name"@, text("release-test-pipeline-standalone"@))],
                            ),
                        ),
                        (
                            "params"@,
                            DocumentView::List(
                                seq![
                                    param("SNAPSHOT"@, snapshot_json),
                                    param("INDEX_IMAGE"@, index_image),
                                ],
                            ),
                        ),
                        (
                            "timeouts"@,
                            DocumentView::Object(seq![("pipeline"@, text("1h30m0s"@))]),
                        ),
                    ],
                ),
            ),
        ],
    )
}

/// An object with one member.
fn object1(k: &str, v: Document) -> (r: Document)
    ensures
        r@ == DocumentView::Object(seq![(k@, v@)]),
{
    let ghost vv = v@;
    let mut m: Vec<Member> = Vec::new();
    m.push(Member { key: k.to_owned(), value: v });
    assert(members_view(m@) =~= seq![(k@, vv)]);
    object_of(m)
}

/// An object with two members.
fn object2(k1: &str, v1: Document, k2: &str, v2: Document) -> (r: Document)
    ensures
        r@ == DocumentView::Object(seq![(k1@, v1@), (k2@, v2@)]),
{
    let ghost a = v1@;
    let ghost b = v2@;
    let mut m: Vec<Member> = Vec::new();
    m.push(Member { key: k1.to_owned(), value: v1 });
    m.push(Member { key: k2.to_owned(), value: v2 });
    assert(members_view(m@) =~= seq![(k1@, a), (k2@, b)]);
    object_of(m)
}

/// A text as a document.
fn text_doc(t: &str) -> (r: Document)
    ensures
        r@ == text(t@),
{
    Document::Text(t.to_owned())
}

/// The run of the standalone pipeline on a snapshot, as a document.
pub fn pipelinerun(name: &str, snapshot_json: &str, index_image: &str, namespace: &str) -> (r:
    Document)
    ensures
        r@ == pipelinerun_model(name@, snapshot_json@, index_image@, namespace@),
{
    let metadata = object2("name", text_doc(name), "namespace", text_doc(namespace));
    let mut params: Vec<Document> = Vec::new();
    params.push(object2("name", text_doc("SNAPSHOT"), "value", text_doc(snapshot_json)));
    params.push(object2("name", text_doc("INDEX_IMAGE"), "value", text_doc(index_image)));
    assert(list_view(params@) =~= seq![
        param("SNAPSHOT"@, snapshot_json@),
        param("INDEX_IMAGE"@, index_image@),
    ]);
    let mut spec: Vec<Member> = Vec::new();
    spec.push(
        Member {
            key: "pipelineRef".to_owned(),
            value: object1("name", text_doc("release-test-pipeline-standalone")),
        },
    );
    spec.push(Member { key: "params".to_owned(), value: list_of(params) });
    spec.push(
        Member { key: "timeouts".to_owned(), value: object1("pipeline", text_doc("1h30m0s")) },
    );
    assert(members_view(spec@) =~= seq![
        (
            "pipelineRef"@,
            DocumentView::Object(seq![("name"@, text("release-test-pipeline-standalone"@))]),
        ),
        (
            "params"@,
            DocumentView::List(
                seq![param("SNAPSHOT"@, snapshot_json@), param("INDEX_IMAGE"@, index_image@)],
            ),
        ),
        ("timeouts"@, DocumentView::Object(seq![("pipeline"@, text("1h30m0s"@))])),
    ]);
    let mut top: Vec<Member> = Vec::new();
    top.push(Member { key: "apiVersion".to_owned(), value: text_doc("tekton.dev/v1") });
    top.push(Member { key: "kind".to_owned(), value: text_doc("PipelineRun") });
    top.push(Member { key: "metadata".to_owned(), value: metadata });
    top.push(Member { key: "spec".to_owned(), value: object_of(spec) });
    assert(members_view(top@) =~= pipelinerun_model(
        name@,
        snapshot_json@,
        index_image@,
        namespace@,
    )->Object_0);
    object_of(top)
}

} // verus!
