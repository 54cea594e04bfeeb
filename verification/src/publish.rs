//! Publishing: what a run's results become on the dashboard.

use vstd::prelude::*;
use crate::document::{
    lemma_list_view, lemma_object_view, list_of, list_view, members_view, object_of, set_key,
    with_key, Document, DocumentView, Member,
};
use crate::numeral::{decimal_digits, parse_u64, parsed_u64, push_decimal};
use crate::text::{append_chars, from_chars, str_eq, sub_vec, to_chars};

verus! {

/// Whether a character of a timestamp is left out of a run's identifier.
pub open spec fn is_separator(c: char) -> bool {
    c == ':' || c == '-' || c == 'T' || c == 'Z'
}

/// The identifier of the run that was published at `timestamp`: the
/// timestamp without its separators, behind "run-".
pub open spec fn run_id_model(timestamp: Seq<char>) -> Seq<char> {
    "run-"@ + timestamp.filter(|c: char| !is_separator(c))
}

/// The identifier of the run that was published at `timestamp`.
pub fn run_id(timestamp: &str) -> (r: String)
    ensures
        r@ == run_id_model(timestamp@),
{
    let chars = to_chars(timestamp);
    let ghost kept = |c: char| !is_separator(c);
    let mut out = to_chars("run-");
    let ghost head = out@;
    let mut i: usize = 0;
    assert(chars@.take(0) == Seq::<char>::empty());
    assert(out@ =~= head + chars@.take(0).filter(kept));
    while i < chars.len()
        invariant
            i <= chars.len(),
            kept == |c: char| !is_separator(c),
            out@ == head + chars@.take(i as int).filter(kept),
        decreases chars.len() - i,
    {
        let c = chars[i];
        proof {
            assert(chars@.take(i + 1) == chars@.take(i as int).push(c));
            crate::text::lemma_filter_push(chars@.take(i as int), c, kept);
        }
        if !(c == ':' || c == '-' || c == 'T' || c == 'Z') {
            out.push(c);
        }
        i = i + 1;
    }
    assert(chars@.take(chars.len() as int) == chars@);
    from_chars(&out)
}

/// A value under a key where there is a value; else the document as it is.
pub open spec fn with_optional(doc: DocumentView, key: Seq<char>, value: Option<DocumentView>) -> DocumentView {
    match value {
        Some(v) => with_key(doc, key, v),
        None => doc,
    }
}

/// What a member of an optional document is.
pub open spec fn member_of_optional(doc: Option<DocumentView>, key: Seq<char>) -> Option<
    DocumentView,
> {
    match doc {
        Some(d) => d.member(key),
        None => None,
    }
}

/// The data of a run: its results, with the date and the refs it stood for
/// where they were noted, the performance results and resources where
/// there are any, its identifier, its timestamp, and its label where it
/// has one.
pub open spec fn run_data_model(
    results: DocumentView,
    metadata: Option<DocumentView>,
    performance: Option<DocumentView>,
    resources: Option<DocumentView>,
    id: Seq<char>,
    timestamp: Seq<char>,
    label: Option<Seq<char>>,
) -> DocumentView {
    let a = with_optional(results, "as_of_date"@, member_of_optional(metadata, "as_of_date"@));
    let b = with_optional(
        a,
        "component_refs"@,
        member_of_optional(metadata, "resolved_components"@),
    );
    let c = with_optional(b, "performance"@, performance);
    let d = with_optional(c, "performance_resources"@, resources);
    let e = with_key(d, "id"@, DocumentView::Text(id));
    let f = with_key(e, "timestamp"@, DocumentView::Text(timestamp));
    with_optional(
        f,
        "label"@,
        match label {
            Some(l) => Some(DocumentView::Text(l)),
            None => None,
        },
    )
}

/// Puts a value under a key where there is a value.
fn set_optional(doc: Document, key: &str, value: Option<Document>) -> (r: Document)
    ensures
        r@ == with_optional(
            doc@,
            key@,
            match value {
                Some(v) => Some(v@),
                None => None,
            },
        ),
{
    match value {
        Some(v) => set_key(doc, key, v),
        None => doc,
    }
}

/// A copy of a member of an optional document.
fn copied_member(doc: Option<&Document>, key: &str) -> (r: Option<Document>)
    ensures
        match r {
            Some(v) => member_of_optional(
                match doc {
                    Some(d) => Some(d@),
                    None => None,
                },
                key@,
            ) == Some(v@),
            None => member_of_optional(
                match doc {
                    Some(d) => Some(d@),
                    None => None,
                },
                key@,
            ) is None,
        },
{
    match doc {
        Some(d) => match d.get(key) {
            Some(v) => Some(v.copy()),
            None => None,
        },
        None => None,
    }
}

/// Puts the data of a run together.
pub fn assemble_run(
    results: Document,
    metadata: Option<&Document>,
    performance: Option<Document>,
    resources: Option<Document>,
    id: &str,
    timestamp: &str,
    label: Option<&str>,
) -> (r: Document)
    ensures
        r@ == run_data_model(
            results@,
            match metadata {
                Some(d) => Some(d@),
                None => None,
            },
            match performance {
                Some(d) => Some(d@),
                None => None,
            },
            match resources {
                Some(d) => Some(d@),
                None => None,
            },
            id@,
            timestamp@,
            match label {
                Some(l) => Some(l@),
                None => None,
            },
        ),
{
    let a = set_optional(results, "as_of_date", copied_member(metadata, "as_of_date"));
    let b = set_optional(a, "component_refs", copied_member(metadata, "resolved_components"));
    let c = set_optional(b, "performance", performance);
    let d = set_optional(c, "performance_resources", resources);
    let e = set_key(d, "id", Document::Text(id.to_owned()));
    let f = set_key(e, "timestamp", Document::Text(timestamp.to_owned()));
    let shown = match label {
        Some(l) => Some(Document::Text(l.to_owned())),
        None => None,
    };
    set_optional(f, "label", shown)
}

/// An error message that is cut to `max` characters, with dots behind it,
/// where it is longer.
pub open spec fn cut_message(message: Seq<char>, max: nat) -> Seq<char> {
    if message.len() > max {
        message.take(max as int) + "..."@
    } else {
        message
    }
}

/// A document with its error messages cut to `max` characters: every text
/// that stands under "error_message" in an object, at whatever depth.
pub open spec fn truncated(doc: DocumentView, max: nat) -> DocumentView
    decreases doc,
{
    match doc {
        DocumentView::Object(m) => DocumentView::Object(
            Seq::new(
                m.len(),
                |i: int|
                    if 0 <= i < m.len() {
                        (
                            m[i].0,
                            match m[i].1 {
                                DocumentView::Text(t) => if m[i].0 == "error_message"@ {
                                    DocumentView::Text(cut_message(t, max))
                                } else {
                                    DocumentView::Text(t)
                                },
                                other => truncated(other, max),
                            },
                        )
                    } else {
                        (Seq::<char>::empty(), DocumentView::Null)
                    },
            ),
        ),
        DocumentView::List(items) => DocumentView::List(
            Seq::new(
                items.len(),
                |i: int|
                    if 0 <= i < items.len() {
                        truncated(items[i], max)
                    } else {
                        DocumentView::Null
                    },
            ),
        ),
        _ => doc,
    }
}

/// Cuts an error message to `max` characters.
fn cut(message: &String, max: usize) -> (r: String)
    ensures
        r@ == cut_message(message@, max as nat),
{
    let chars = to_chars(message.as_str());
    if chars.len() > max {
        let mut out = sub_vec(&chars, 0, max);
        append_chars(&mut out, &to_chars("..."));
        from_chars(&out)
    } else {
        message.clone()
    }
}

/// Cuts the error messages of a document to `max` characters.
#[verifier::loop_isolation(false)]
pub fn truncate_error_messages(doc: &Document, max: usize) -> (r: Document)
    ensures
        r@ == truncated(doc@, max as nat),
    decreases doc,
{
    match doc {
        Document::Object(members) => {
            proof {
                lemma_object_view(*members);
            }
            let ghost want = truncated(doc@, max as nat)->Object_0;
            let mut out: Vec<Member> = Vec::new();
            let mut i: usize = 0;
            while i < members.len()
                invariant
                    i <= members.len(),
                    out.len() == i,
                    forall|j: int| 0 <= j < i ==> (#[trigger] out@[j]).key@ == want[j].0 && out@[j].value@ == want[j].1,
                decreases members.len() - i,
            {
                let m = &members[i];
                let value = match &m.value {
                    Document::Text(t) => {
                        if str_eq(m.key.as_str(), "error_message") {
                            Document::Text(cut(t, max))
                        } else {
                            Document::Text(t.clone())
                        }
                    },
                    other => truncate_error_messages(other, max),
                };
                out.push(Member { key: m.key.clone(), value });
                i = i + 1;
            }
            assert(members_view(out@) =~= want);
            object_of(out)
        },
        Document::List(items) => {
            proof {
                lemma_list_view(*items);
            }
            let ghost want = truncated(doc@, max as nat)->List_0;
            let mut out: Vec<Document> = Vec::new();
            let mut i: usize = 0;
            while i < items.len()
                invariant
                    i <= items.len(),
                    out.len() == i,
                    forall|j: int| 0 <= j < i ==> (#[trigger] out@[j])@ == want[j],
                decreases items.len() - i,
            {
                out.push(truncate_error_messages(&items[i], max));
                i = i + 1;
            }
            assert(list_view(out@) =~= want);
            list_of(out)
        },
        other => other.copy(),
    }
}

/// The count that a run names under `key`: a whole number that is not
/// negative; zero where it names none.
pub open spec fn count_model(run: DocumentView, key: Seq<char>) -> u64 {
    match run.member(key) {
        Some(DocumentView::Number(n)) => match parsed_u64(n) {
            Some(v) => v,
            None => 0,
        },
        _ => 0,
    }
}

/// The count that a run names under `key`.
pub fn count_of(run: &Document, key: &str) -> (r: u64)
    ensures
        r == count_model(run@, key@),
{
    match run.get(key) {
        Some(Document::Number(n)) => match parse_u64(&to_chars(n.as_str())) {
            Some(v) => v,
            None => 0,
        },
        _ => 0,
    }
}

/// A count as a document.
fn number_doc(n: u64) -> (r: Document)
    ensures
        r@ == DocumentView::Number(decimal_digits(n as nat)),
{
    let mut out: Vec<char> = Vec::new();
    push_decimal(&mut out, n);
    Document::Number(from_chars(&out))
}

/// The entry of a run in the list of runs.
pub open spec fn entry_model(run: DocumentView, id: Seq<char>, timestamp: Seq<char>, label: Seq<char>) -> DocumentView {
    DocumentView::Object(
        seq![
            ("id"@, DocumentView::Text(id)),
            ("timestamp"@, DocumentView::Text(timestamp)),
            ("label"@, DocumentView::Text(label)),
            ("total"@, DocumentView::Number(decimal_digits(count_model(run, "total"@) as nat))),
            ("passed"@, DocumentView::Number(decimal_digits(count_model(run, "passed"@) as nat))),
            ("failed"@, DocumentView::Number(decimal_digits(count_model(run, "failed"@) as nat))),
            ("file"@, DocumentView::Text("runs/"@ + id + ".json"@)),
        ],
    )
}

/// The entry of a run in the list of runs.
pub fn list_entry(run: &Document, id: &str, timestamp: &str, label: &str) -> (r: Document)
    ensures
        r@ == entry_model(run@, id@, timestamp@, label@),
{
    let mut members: Vec<Member> = Vec::new();
    members.push(Member { key: "id".to_owned(), value: Document::Text(id.to_owned()) });
    members.push(
        Member { key: "timestamp".to_owned(), value: Document::Text(timestamp.to_owned()) },
    );
    members.push(Member { key: "label".to_owned(), value: Document::Text(label.to_owned()) });
    members.push(Member { key: "total".to_owned(), value: number_doc(count_of(run, "total")) });
    members.push(Member { key: "passed".to_owned(), value: number_doc(count_of(run, "passed")) });
    members.push(Member { key: "failed".to_owned(), value: number_doc(count_of(run, "failed")) });
    members.push(
        Member {
            key: "file".to_owned(),
            value: Document::Text(crate::text::concat3("runs/", id, ".json")),
        },
    );
    assert(members_view(members@) =~= entry_model(run@, id@, timestamp@, label@)->Object_0);
    object_of(members)
}

/// The list of runs with one more entry at its head; a document without a
/// list under "runs" stays as it is.
pub open spec fn with_run(runs: DocumentView, entry: DocumentView) -> DocumentView {
    match runs.member("runs"@) {
        Some(DocumentView::List(items)) => with_key(
            runs,
            "runs"@,
            DocumentView::List(seq![entry] + items),
        ),
        _ => runs,
    }
}

/// Puts an entry at the head of the list of runs.
pub fn prepend_run(runs: Document, entry: Document) -> (r: Document)
    ensures
        r@ == with_run(runs@, entry@),
{
    let ghost ev = entry@;
    let listed: Vec<Document> = match runs.get("runs") {
        Some(Document::List(items)) => {
            proof {
                lemma_list_view(*items);
            }
            let mut all: Vec<Document> = Vec::new();
            all.push(entry);
            let mut i: usize = 0;
            while i < items.len()
                invariant
                    i <= items.len(),
                    all.len() == i + 1,
                    all@[0]@ == ev,
                    forall|j: int| 1 <= j <= i ==> (#[trigger] all@[j])@ == items@[j - 1]@,
                decreases items.len() - i,
            {
                all.push(items[i].copy());
                i = i + 1;
            }
            assert(list_view(all@) =~= seq![ev] + list_view(items@));
            all
        },
        _ => {
            return runs;
        },
    };
    set_key(runs, "runs", list_of(listed))
}

/// The list of runs before the first run.
pub fn empty_runs() -> (r: Document)
    ensures
        r@ == DocumentView::Object(seq![("runs"@, DocumentView::List(seq![]))]),
{
    let none: Vec<Document> = Vec::new();
    assert(list_view(none@) =~= Seq::<DocumentView>::empty());
    let mut members: Vec<Member> = Vec::new();
    let runs = list_of(none);
    members.push(Member { key: "runs".to_owned(), value: runs });
    assert(members_view(members@) =~= seq![("runs"@, DocumentView::List(seq![]))]);
    object_of(members)
}

/// The message of the commit that publishes a run.
pub fn commit_message(id: &str, total: u64, passed: u64) -> (r: String)
    ensures
        r@ == "publish: "@ + id@ + " ("@ + decimal_digits(total as nat) + " total, "@
            + decimal_digits(passed as nat) + " passed)"@,
{
    let mut out = to_chars("publish: ");
    append_chars(&mut out, &to_chars(id));
    append_chars(&mut out, &to_chars(" ("));
    push_decimal(&mut out, total);
    append_chars(&mut out, &to_chars(" total, "));
    push_decimal(&mut out, passed);
    append_chars(&mut out, &to_chars(" passed)"));
    from_chars(&out)
}

} // verus!
