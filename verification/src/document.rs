//! Schema-less documents: a parsed JSON tree, read and patched by path.

use vstd::prelude::*;
use crate::text::{first_index, lemma_first_index, lemma_first_index_bounds, opt_text, str_eq};

verus! {

/// A JSON value. A number is kept as the text that writes it; an object is
/// a list of members, and a key is looked up at its first member.
#[derive(Debug)]
pub enum Document {
    Null,
    Bool(bool),
    Number(String),
    Text(String),
    List(Vec<Document>),
    Object(Vec<Member>),
}

/// A member of an object: a key and the value under it.
#[derive(Debug)]
pub struct Member {
    pub key: String,
    pub value: Document,
}

/// What a `Document` holds, as plain sequences.
pub enum DocumentView {
    Null,
    Bool(bool),
    Number(Seq<char>),
    Text(Seq<char>),
    List(Seq<DocumentView>),
    Object(Seq<(Seq<char>, DocumentView)>),
}

/// What the document `d` holds, as plain sequences.
pub open spec fn document_view(d: Document) -> DocumentView
    decreases d,
{
    match d {
        Document::Null => DocumentView::Null,
        Document::Bool(b) => DocumentView::Bool(b),
        Document::Number(n) => DocumentView::Number(n@),
        Document::Text(t) => DocumentView::Text(t@),
        Document::List(items) => DocumentView::List(
            Seq::new(
                items.len() as nat,
                |i: int|
                    if 0 <= i < items.len() {
                        document_view(items[i])
                    } else {
                        DocumentView::Null
                    },
            ),
        ),
        Document::Object(members) => DocumentView::Object(
            Seq::new(
                members.len() as nat,
                |i: int|
                    if 0 <= i < members.len() {
                        (members[i].key@, document_view(members[i].value))
                    } else {
                        (Seq::<char>::empty(), DocumentView::Null)
                    },
            ),
        ),
    }
}

impl View for Document {
    type V = DocumentView;

    open spec fn view(&self) -> DocumentView {
        document_view(*self)
    }
}

/// The views of the documents `items`, in order.
pub open spec fn list_view(items: Seq<Document>) -> Seq<DocumentView> {
    Seq::new(items.len(), |i: int| items[i]@)
}

/// The views of the members `members`, in order.
pub open spec fn members_view(members: Seq<Member>) -> Seq<(Seq<char>, DocumentView)> {
    Seq::new(members.len(), |i: int| (members[i].key@, members[i].value@))
}

/// The view of a list is the list of its items' views.
pub proof fn lemma_list_view(items: Vec<Document>)
    ensures
        Document::List(items)@ == DocumentView::List(list_view(items@)),
{
    assert(Document::List(items)@->List_0 =~= list_view(items@));
}

/// The view of an object is the list of its members' views.
pub proof fn lemma_object_view(members: Vec<Member>)
    ensures
        Document::Object(members)@ == DocumentView::Object(members_view(members@)),
{
    let a = Document::Object(members)@->Object_0;
    let b = members_view(members@);
    assert(a.len() == b.len());
    assert forall|i: int| 0 <= i < a.len() implies a[i] == b[i] by {
        assert(a[i].0 == members[i].key@);
        assert(a[i].1 == members[i].value@);
    }
    assert(a =~= b);
}

/// The keys of the members `m`, in order.
pub open spec fn member_keys(m: Seq<(Seq<char>, DocumentView)>) -> Seq<Seq<char>> {
    Seq::new(m.len(), |i: int| m[i].0)
}

/// The value that the members `m` hold under `key`.
pub open spec fn member_of(m: Seq<(Seq<char>, DocumentView)>, key: Seq<char>) -> Option<
    DocumentView,
> {
    let i = first_index(member_keys(m), key);
    if i < m.len() {
        Some(m[i].1)
    } else {
        None
    }
}

/// The members `m` with `value` under `key`: in the place of the member
/// that had the key, or at the end where none had it.
pub open spec fn inserted(
    m: Seq<(Seq<char>, DocumentView)>,
    key: Seq<char>,
    value: DocumentView,
) -> Seq<(Seq<char>, DocumentView)> {
    let i = first_index(member_keys(m), key);
    if i < m.len() {
        m.update(i, (key, value))
    } else {
        m.push((key, value))
    }
}

/// The members `m` without the first member under `key`.
pub open spec fn removed(m: Seq<(Seq<char>, DocumentView)>, key: Seq<char>) -> Seq<
    (Seq<char>, DocumentView),
> {
    let i = first_index(member_keys(m), key);
    if i < m.len() {
        m.remove(i)
    } else {
        m
    }
}

/// One step of a path into a document.
#[derive(Debug, Clone)]
pub enum PathStep {
    /// Into the member of an object under this key.
    Key(String),
    /// Into the item of a list at this position.
    Index(usize),
}

/// What a `PathStep` holds, as plain values.
pub enum StepView {
    Key(Seq<char>),
    Index(int),
}

impl View for PathStep {
    type V = StepView;

    open spec fn view(&self) -> StepView {
        match self {
            PathStep::Key(k) => StepView::Key(k@),
            PathStep::Index(i) => StepView::Index(*i as int),
        }
    }
}

/// The views of the steps `path`, in order.
pub open spec fn path_view(path: Seq<PathStep>) -> Seq<StepView> {
    Seq::new(path.len(), |i: int| path[i]@)
}

impl DocumentView {
    /// The value under `key`, where this is an object that has one.
    pub open spec fn member(self, key: Seq<char>) -> Option<DocumentView> {
        match self {
            DocumentView::Object(m) => member_of(m, key),
            _ => None,
        }
    }

    /// The text, where this is one.
    pub open spec fn text(self) -> Option<Seq<char>> {
        match self {
            DocumentView::Text(t) => Some(t),
            _ => None,
        }
    }

    /// The items, where this is a list.
    pub open spec fn items(self) -> Option<Seq<DocumentView>> {
        match self {
            DocumentView::List(items) => Some(items),
            _ => None,
        }
    }

    /// What one step into this document reaches.
    pub open spec fn child(self, step: StepView) -> Option<DocumentView> {
        match (self, step) {
            (DocumentView::Object(m), StepView::Key(k)) => member_of(m, k),
            (DocumentView::List(items), StepView::Index(i)) => if 0 <= i < items.len() {
                Some(items[i])
            } else {
                None
            },
            _ => None,
        }
    }

    /// This document with `value` in the place that `step` reaches.
    pub open spec fn with_child(self, step: StepView, value: DocumentView) -> DocumentView {
        match (self, step) {
            (DocumentView::Object(m), StepView::Key(k)) => DocumentView::Object(
                m.update(first_index(member_keys(m), k), (m[first_index(member_keys(m), k)].0, value)),
            ),
            (DocumentView::List(items), StepView::Index(i)) => DocumentView::List(
                items.update(i, value),
            ),
            _ => self,
        }
    }

    /// What the path `path` reaches in this document.
    pub open spec fn at(self, path: Seq<StepView>) -> Option<DocumentView>
        decreases path.len(),
    {
        if path.len() == 0 {
            Some(self)
        } else {
            match self.child(path[0]) {
                Some(c) => c.at(path.drop_first()),
                None => None,
            }
        }
    }

    /// This document with `value` in the place that `path` reaches; nothing
    /// where the path reaches nothing.
    pub open spec fn replaced(self, path: Seq<StepView>, value: DocumentView) -> Option<
        DocumentView,
    >
        decreases path.len(),
    {
        if path.len() == 0 {
            Some(value)
        } else {
            match self.child(path[0]) {
                None => None,
                Some(c) => match c.replaced(path.drop_first(), value) {
                    None => None,
                    Some(n) => Some(self.with_child(path[0], n)),
                },
            }
        }
    }
}

/// The position of the first member of `members` under `key`.
pub fn find_member(members: &Vec<Member>, key: &str) -> (r: Option<usize>)
    ensures
        match r {
            Some(i) => i < members.len() && i == first_index(
                member_keys(members_view(members@)),
                key@,
            ) && members@[i as int].key@ == key@,
            None => first_index(member_keys(members_view(members@)), key@) == members.len(),
        },
{
    let ghost keys = member_keys(members_view(members@));
    let mut i: usize = 0;
    while i < members.len()
        invariant
            i <= members.len(),
            keys == member_keys(members_view(members@)),
            forall|j: int| 0 <= j < i ==> keys[j] != key@,
        decreases members.len() - i,
    {
        if str_eq(members[i].key.as_str(), key) {
            proof {
                lemma_first_index(keys, key@, i as int);
            }
            return Some(i);
        }
        i = i + 1;
    }
    proof {
        lemma_first_index(keys, key@, i as int);
    }
    None
}

impl Document {
    /// A copy of this document.
    #[verifier::loop_isolation(false)]
    pub fn copy(&self) -> (r: Document)
        ensures
            r@ == self@,
        decreases self,
    {
        match self {
            Document::Null => Document::Null,
            Document::Bool(b) => Document::Bool(*b),
            Document::Number(n) => Document::Number(n.clone()),
            Document::Text(t) => Document::Text(t.clone()),
            Document::List(items) => {
                let mut out: Vec<Document> = Vec::new();
                let mut i: usize = 0;
                while i < items.len()
                    invariant
                        i <= items.len(),
                        out.len() == i,
                        forall|j: int| 0 <= j < i ==> (#[trigger] out@[j])@ == items@[j]@,
                    decreases items.len() - i,
                {
                    out.push(items[i].copy());
                    i = i + 1;
                }
                proof {
                    lemma_list_view(out);
                    lemma_list_view(*items);
                    assert(list_view(out@) =~= list_view(items@));
                }
                Document::List(out)
            },
            Document::Object(members) => {
                let mut out: Vec<Member> = Vec::new();
                let mut i: usize = 0;
                while i < members.len()
                    invariant
                        i <= members.len(),
                        out.len() == i,
                        forall|j: int|
                            0 <= j < i ==> (#[trigger] out@[j]).key@ == members@[j].key@
                                && out@[j].value@ == members@[j].value@,
                    decreases members.len() - i,
                {
                    out.push(Member { key: members[i].key.clone(), value: members[i].value.copy() });
                    i = i + 1;
                }
                proof {
                    lemma_object_view(out);
                    lemma_object_view(*members);
                    assert(members_view(out@) =~= members_view(members@));
                }
                Document::Object(out)
            },
        }
    }

    /// The value under `key`, where this is an object that has one.
    pub fn get<'a>(&'a self, key: &str) -> (r: Option<&'a Document>)
        ensures
            match r {
                Some(d) => self@.member(key@) == Some(d@),
                None => self@.member(key@) is None,
            },
    {
        match self {
            Document::Object(members) => {
                proof {
                    lemma_object_view(*members);
                }
                match find_member(members, key) {
                    Some(i) => Some(&members[i].value),
                    None => None,
                }
            },
            _ => None,
        }
    }

    /// The items, where this is a list.
    pub fn as_list<'a>(&'a self) -> (r: Option<&'a Vec<Document>>)
        ensures
            match r {
                Some(items) => self@.items() == Some(list_view(items@)),
                None => self@.items() is None,
            },
    {
        match self {
            Document::List(items) => {
                proof {
                    lemma_list_view(*items);
                }
                Some(items)
            },
            _ => None,
        }
    }

    /// What one step into this document reaches.
    pub fn child<'a>(&'a self, step: &PathStep) -> (r: Option<&'a Document>)
        ensures
            match r {
                Some(d) => self@.child(step@) == Some(d@),
                None => self@.child(step@) is None,
            },
    {
        match self {
            Document::Object(members) => {
                proof {
                    lemma_object_view(*members);
                }
                match step {
                    PathStep::Key(k) => match find_member(members, k.as_str()) {
                        Some(i) => Some(&members[i].value),
                        None => None,
                    },
                    PathStep::Index(_) => None,
                }
            },
            Document::List(items) => {
                proof {
                    lemma_list_view(*items);
                }
                match step {
                    PathStep::Index(i) => if *i < items.len() {
                        Some(&items[*i])
                    } else {
                        None
                    },
                    PathStep::Key(_) => None,
                }
            },
            _ => None,
        }
    }

    /// What the path `path` reaches in this document.
    pub fn get_path<'a>(&'a self, path: &Vec<PathStep>) -> (r: Option<&'a Document>)
        ensures
            match r {
                Some(d) => self@.at(path_view(path@)) == Some(d@),
                None => self@.at(path_view(path@)) is None,
            },
    {
        let ghost steps = path_view(path@);
        let mut cur: &Document = self;
        let mut i: usize = 0;
        assert(steps.skip(0) == steps);
        while i < path.len()
            invariant
                i <= path.len(),
                steps == path_view(path@),
                self@.at(steps) == cur@.at(steps.skip(i as int)),
            decreases path.len() - i,
        {
            proof {
                assert(steps.skip(i as int)[0] == path@[i as int]@);
                assert(steps.skip(i as int).drop_first() == steps.skip(i + 1));
            }
            match cur.child(&path[i]) {
                Some(next) => {
                    cur = next;
                },
                None => {
                    return None;
                },
            }
            i = i + 1;
        }
        Some(cur)
    }

    /// This document with `value` in the place that the steps of `path`
    /// from position `from` on reach; nothing where they reach nothing.
    pub fn replace_at(self, path: &Vec<PathStep>, from: usize, value: Document) -> (r: Option<
        Document,
    >)
        requires
            from <= path.len(),
        ensures
            match (r, self@.replaced(path_view(path@).skip(from as int), value@)) {
                (Some(d), Some(m)) => d@ == m,
                (None, None) => true,
                _ => false,
            },
        decreases path.len() - from,
    {
        let ghost steps = path_view(path@).skip(from as int);
        if from == path.len() {
            return Some(value);
        }
        proof {
            assert(steps[0] == path@[from as int]@);
            assert(steps.drop_first() == path_view(path@).skip(from + 1));
        }
        match self {
            Document::Object(mut members) => {
                proof {
                    lemma_object_view(members);
                }
                let ghost before = members_view(members@);
                match &path[from] {
                    PathStep::Key(k) => match find_member(&members, k.as_str()) {
                        None => None,
                        Some(i) => {
                            let Member { key, value: inner } = members.remove(i);
                            match inner.replace_at(path, from + 1, value) {
                                None => None,
                                Some(n) => {
                                    let ghost nv = n@;
                                    members.insert(i, Member { key, value: n });
                                    proof {
                                        lemma_object_view(members);
                                        assert(members_view(members@) =~= before.update(
                                            i as int,
                                            (before[i as int].0, nv),
                                        ));
                                    }
                                    Some(Document::Object(members))
                                },
                            }
                        },
                    },
                    PathStep::Index(_) => None,
                }
            },
            Document::List(mut items) => {
                proof {
                    lemma_list_view(items);
                }
                let ghost before = list_view(items@);
                match &path[from] {
                    PathStep::Index(at) => {
                        let i = *at;
                        if i < items.len() {
                            let inner = items.remove(i);
                            match inner.replace_at(path, from + 1, value) {
                                None => None,
                                Some(n) => {
                                    let ghost nv = n@;
                                    items.insert(i, n);
                                    proof {
                                        lemma_list_view(items);
                                        assert(list_view(items@) =~= before.update(i as int, nv));
                                    }
                                    Some(Document::List(items))
                                },
                            }
                        } else {
                            None
                        }
                    },
                    PathStep::Key(_) => None,
                }
            },
            _ => None,
        }
    }

    /// This document with `value` in the place that `path` reaches; nothing
    /// where the path reaches nothing.
    pub fn set_path(self, path: &Vec<PathStep>, value: Document) -> (r: Option<Document>)
        ensures
            match (r, self@.replaced(path_view(path@), value@)) {
                (Some(d), Some(m)) => d@ == m,
                (None, None) => true,
                _ => false,
            },
    {
        assert(path_view(path@).skip(0) == path_view(path@));
        self.replace_at(path, 0, value)
    }
}

/// Puts `value` under `key` among `members`: in the place of the member
/// that had the key, or at the end where none had it.
pub fn insert_member(members: &mut Vec<Member>, key: String, value: Document)
    ensures
        members_view(final(members)@) == inserted(members_view(old(members)@), key@, value@),
{
    let ghost before = members_view(members@);
    let ghost kv = key@;
    let ghost vv = value@;
    match find_member(members, key.as_str()) {
        Some(i) => {
            let _ = members.remove(i);
            members.insert(i, Member { key, value });
            assert(members_view(members@) =~= before.update(i as int, (kv, vv)));
        },
        None => {
            members.push(Member { key, value });
            assert(members_view(members@) =~= before.push((kv, vv)));
        },
    }
}

/// Takes the first member under `key` out of `members`.
pub fn remove_member(members: &mut Vec<Member>, key: &str)
    ensures
        members_view(final(members)@) == removed(members_view(old(members)@), key@),
{
    let ghost before = members_view(members@);
    match find_member(members, key) {
        Some(i) => {
            let _ = members.remove(i);
            assert(members_view(members@) =~= before.remove(i as int));
        },
        None => {},
    }
}

/// `serde_json::Value`, carried through as it is: nothing is known of what
/// a value holds but through the functions below.
#[verifier::external_type_specification]
#[verifier::external_body]
pub struct ExJsonValue(serde_json::Value);

/// The value that `serde_json::from_str` reads from a text; nothing where
/// it reports an error.
pub uninterp spec fn json_value(text: Seq<char>) -> Option<serde_json::Value>;

/// The document that a `serde_json::Value` holds: its variants one for
/// one, a number as `serde_json` writes it, the members of an object in the
/// order in which its map hands them out.
pub uninterp spec fn value_document(value: serde_json::Value) -> DocumentView;

/// The `serde_json::Value` that is made of a document, variant by variant,
/// a number being read by `serde_json::from_str` from its text.
pub uninterp spec fn document_value(doc: DocumentView) -> serde_json::Value;

/// The text that `serde_json::to_string_pretty` writes for a value.
pub uninterp spec fn pretty_text(value: serde_json::Value) -> Seq<char>;

/// `serde_json::from_str` for a `serde_json::Value`: the value it reads,
/// or nothing where it reports an error.
#[verifier::external_body]
fn parse_value(text: &str) -> (r: Option<serde_json::Value>)
    ensures
        r == json_value(text@),
{
    serde_json::from_str::<serde_json::Value>(text).ok()
}

/// Takes a `serde_json::Value` apart, variant by variant; a number is kept
/// as `serde_json::Number` writes it, and the members of an object come in
/// the order of `serde_json::Map::iter`.
#[verifier::external_body]
fn from_value(value: &serde_json::Value) -> (r: Document)
    ensures
        r@ == value_document(*value),
{
    match value {
        serde_json::Value::Null => Document::Null,
        serde_json::Value::Bool(b) => Document::Bool(*b),
        serde_json::Value::Number(n) => Document::Number(n.to_string()),
        serde_json::Value::String(s) => Document::Text(s.clone()),
        serde_json::Value::Array(a) => Document::List(a.iter().map(from_value).collect()),
        serde_json::Value::Object(m) => Document::Object(
            m.iter().map(|(k, v)| Member { key: k.clone(), value: from_value(v) }).collect(),
        ),
    }
}

/// Puts a `serde_json::Value` together from a document, variant by
/// variant; the text of a number is read by `serde_json::from_str`, and the
/// members of an object are collected into a `serde_json::Map`.
#[verifier::external_body]
fn to_value(doc: &Document) -> (r: serde_json::Value)
    ensures
        r == document_value(doc@),
{
    match doc {
        Document::Null => serde_json::Value::Null,
        Document::Bool(b) => serde_json::Value::Bool(*b),
        Document::Number(n) => serde_json::from_str(n).unwrap_or(serde_json::Value::Null),
        Document::Text(t) => serde_json::Value::String(t.clone()),
        Document::List(items) => serde_json::Value::Array(items.iter().map(to_value).collect()),
        Document::Object(members) => serde_json::Value::Object(
            members.iter().map(|m| (m.key.clone(), to_value(&m.value))).collect(),
        ),
    }
}

/// `serde_json::to_string_pretty` for a `serde_json::Value`: the text it
/// writes.
#[verifier::external_body]
fn pretty(value: &serde_json::Value) -> (r: String)
    ensures
        r@ == pretty_text(*value),
{
    serde_json::to_string_pretty(value).unwrap_or_default()
}

/// The document that a JSON text holds; nothing where the text is no JSON.
pub open spec fn parsed_document(text: Seq<char>) -> Option<DocumentView> {
    match json_value(text) {
        Some(v) => Some(value_document(v)),
        None => None,
    }
}

/// Reads a JSON text.
pub fn parse_document(text: &str) -> (r: Option<Document>)
    ensures
        match r {
            Some(d) => parsed_document(text@) == Some(d@),
            None => parsed_document(text@) is None,
        },
{
    match parse_value(text) {
        Some(v) => Some(from_value(&v)),
        None => None,
    }
}

/// The JSON text of a document, indented.
pub open spec fn rendered_document(doc: DocumentView) -> Seq<char> {
    pretty_text(document_value(doc))
}

/// Writes a document as indented JSON text.
pub fn render_document(doc: &Document) -> (r: String)
    ensures
        r@ == rendered_document(doc@),
{
    let v = to_value(doc);
    pretty(&v)
}

/// What `member_of` finds after `inserted`: the new value under the key,
/// and under every other key what was there before.
pub proof fn lemma_inserted(
    m: Seq<(Seq<char>, DocumentView)>,
    key: Seq<char>,
    value: DocumentView,
    other: Seq<char>,
)
    ensures
        member_of(inserted(m, key, value), key) == Some(value),
        other != key ==> member_of(inserted(m, key, value), other) == member_of(m, other),
        inserted(m, key, value).len() >= m.len(),
{
    let keys = member_keys(m);
    let n = inserted(m, key, value);
    let nkeys = member_keys(n);
    lemma_first_index_bounds(keys, key);
    let i = first_index(keys, key);
    if i < m.len() {
        assert(keys[i] == key);
        assert(nkeys =~= keys);
        assert(n[i].1 == value);
    } else {
        assert(nkeys =~= keys.push(key));
        assert forall|j: int| 0 <= j < m.len() implies nkeys[j] != key by {
            assert(keys[j] != key);
        }
        lemma_first_index(nkeys, key, m.len() as int);
    }
    if other != key {
        lemma_first_index_bounds(keys, other);
        let o = first_index(keys, other);
        if o < m.len() {
            assert(keys[o] == other);
            assert forall|j: int| 0 <= j < o implies nkeys[j] != other by {
                assert(nkeys[j] == keys[j]);
            }
            assert(nkeys[o] == other);
            lemma_first_index(nkeys, other, o);
            assert(n[o].1 == m[o].1);
        } else {
            assert forall|j: int| 0 <= j < n.len() implies nkeys[j] != other by {
                if j < m.len() {
                    assert(nkeys[j] == keys[j]);
                }
            }
            lemma_first_index(nkeys, other, n.len() as int);
        }
    }
}

/// The object with the members `members`.
pub fn object_of(members: Vec<Member>) -> (r: Document)
    ensures
        r@ == DocumentView::Object(members_view(members@)),
{
    proof {
        lemma_object_view(members);
    }
    Document::Object(members)
}

/// The list with the items `items`.
pub fn list_of(items: Vec<Document>) -> (r: Document)
    ensures
        r@ == DocumentView::List(list_view(items@)),
{
    proof {
        lemma_list_view(items);
    }
    Document::List(items)
}

/// The document `doc` with `value` under `key`: an object takes the value
/// in the place of the member that had the key, or at its end; nothing at
/// all becomes an object with this one member; anything else stays as it
/// is.
pub open spec fn with_key(doc: DocumentView, key: Seq<char>, value: DocumentView) -> DocumentView {
    match doc {
        DocumentView::Object(m) => DocumentView::Object(inserted(m, key, value)),
        DocumentView::Null => DocumentView::Object(seq![(key, value)]),
        _ => doc,
    }
}

/// Puts `value` under `key` of `doc`.
pub fn set_key(doc: Document, key: &str, value: Document) -> (r: Document)
    ensures
        r@ == with_key(doc@, key@, value@),
{
    match doc {
        Document::Object(mut members) => {
            proof {
                lemma_object_view(members);
            }
            insert_member(&mut members, key.to_owned(), value);
            object_of(members)
        },
        Document::Null => {
            let mut members: Vec<Member> = Vec::new();
            let ghost vv = value@;
            members.push(Member { key: key.to_owned(), value });
            assert(members_view(members@) =~= seq![(key@, vv)]);
            object_of(members)
        },
        other => other,
    }
}

/// The YAML text that `serde_yaml::from_str` reads as a `serde_json::Value`;
/// nothing where it reports an error.
pub uninterp spec fn yaml_value(text: Seq<char>) -> Option<serde_json::Value>;

/// The YAML text that `serde_yaml::to_string` writes for a
/// `serde_json::Value`; nothing where it reports an error.
pub uninterp spec fn yaml_text(value: serde_json::Value) -> Option<Seq<char>>;

/// `serde_yaml::from_str` for a `serde_json::Value`: the value it reads,
/// or nothing where it reports an error.
#[verifier::external_body]
fn parse_yaml_value(text: &str) -> (r: Option<serde_json::Value>)
    ensures
        r == yaml_value(text@),
{
    serde_yaml::from_str::<serde_json::Value>(text).ok()
}

/// `serde_yaml::to_string` for a `serde_json::Value`: the text it writes,
/// or nothing where it reports an error.
#[verifier::external_body]
fn render_yaml_value(value: &serde_json::Value) -> (r: Option<String>)
    ensures
        opt_text(r) == yaml_text(*value),
{
    serde_yaml::to_string(value).ok()
}

/// The document that a YAML text holds; nothing where the text is no YAML
/// that JSON can hold.
pub open spec fn parsed_yaml(text: Seq<char>) -> Option<DocumentView> {
    match yaml_value(text) {
        Some(v) => Some(value_document(v)),
        None => None,
    }
}

/// Reads a YAML text.
pub fn parse_yaml(text: &str) -> (r: Option<Document>)
    ensures
        match r {
            Some(d) => parsed_yaml(text@) == Some(d@),
            None => parsed_yaml(text@) is None,
        },
{
    match parse_yaml_value(text) {
        Some(v) => Some(from_value(&v)),
        None => None,
    }
}

/// The YAML text of a document; nothing where it cannot be written.
pub open spec fn rendered_yaml(doc: DocumentView) -> Option<Seq<char>> {
    yaml_text(document_value(doc))
}

/// Writes a document as YAML text.
pub fn render_yaml(doc: &Document) -> (r: Option<String>)
    ensures
        opt_text(r) == rendered_yaml(doc@),
{
    let v = to_value(doc);
    render_yaml_value(&v)
}

/// The text that `serde_json::to_string` writes for a value, on one line.
pub uninterp spec fn compact_text(value: serde_json::Value) -> Seq<char>;

/// `serde_json::to_string` for a `serde_json::Value`: the text it writes.
#[verifier::external_body]
fn compact(value: &serde_json::Value) -> (r: String)
    ensures
        r@ == compact_text(*value),
{
    serde_json::to_string(value).unwrap_or_default()
}

/// The JSON text of a document, on one line.
pub open spec fn compact_document(doc: DocumentView) -> Seq<char> {
    compact_text(document_value(doc))
}

/// Writes a document as JSON text on one line.
pub fn render_compact(doc: &Document) -> (r: String)
    ensures
        r@ == compact_document(doc@),
{
    let v = to_value(doc);
    compact(&v)
}

impl DocumentView {
    /// This document with `value` in the place that `path` reaches; this
    /// document as it is where the path reaches nothing.
    pub open spec fn put(self, path: Seq<StepView>, value: DocumentView) -> DocumentView {
        match self.replaced(path, value) {
            Some(d) => d,
            None => self,
        }
    }
}

impl Document {
    /// This document with `value` in the place that the steps of `path`
    /// from position `from` on reach; this document as it is where they
    /// reach nothing.
    pub fn put_at(self, path: &Vec<PathStep>, from: usize, value: Document) -> (r: Document)
        requires
            from <= path.len(),
        ensures
            r@ == self@.put(path_view(path@).skip(from as int), value@),
        decreases path.len() - from,
    {
        let ghost steps = path_view(path@).skip(from as int);
        let ghost before_all = self@;
        if from == path.len() {
            return value;
        }
        proof {
            assert(steps[0] == path@[from as int]@);
            assert(steps.drop_first() == path_view(path@).skip(from + 1));
        }
        match self {
            Document::Object(mut members) => {
                proof {
                    lemma_object_view(members);
                }
                let ghost before = members_view(members@);
                let found = match &path[from] {
                    PathStep::Key(k) => find_member(&members, k.as_str()),
                    PathStep::Index(_) => None,
                };
                match found {
                    None => Document::Object(members),
                    Some(i) => {
                        let Member { key, value: inner } = members.remove(i);
                        let ghost iv = inner@;
                        let n = inner.put_at(path, from + 1, value);
                        let ghost nv = n@;
                        members.insert(i, Member { key, value: n });
                        proof {
                            lemma_object_view(members);
                            assert(members_view(members@) =~= before.update(
                                i as int,
                                (before[i as int].0, nv),
                            ));
                            if iv.replaced(steps.drop_first(), value@) is None {
                                assert(before.update(i as int, (before[i as int].0, iv)) =~= before);
                            }
                        }
                        Document::Object(members)
                    },
                }
            },
            Document::List(mut items) => {
                proof {
                    lemma_list_view(items);
                }
                let ghost before = list_view(items@);
                let found = match &path[from] {
                    PathStep::Index(at) => if *at < items.len() {
                        Some(*at)
                    } else {
                        None
                    },
                    PathStep::Key(_) => None,
                };
                match found {
                    None => Document::List(items),
                    Some(i) => {
                        let inner = items.remove(i);
                        let ghost iv = inner@;
                        let n = inner.put_at(path, from + 1, value);
                        let ghost nv = n@;
                        items.insert(i, n);
                        proof {
                            lemma_list_view(items);
                            assert(list_view(items@) =~= before.update(i as int, nv));
                            if iv.replaced(steps.drop_first(), value@) is None {
                                assert(before.update(i as int, iv) =~= before);
                            }
                        }
                        Document::List(items)
                    },
                }
            },
            other => other,
        }
    }

    /// This document with `value` in the place that `path` reaches; this
    /// document as it is where the path reaches nothing.
    pub fn put_path(self, path: &Vec<PathStep>, value: Document) -> (r: Document)
        ensures
            r@ == self@.put(path_view(path@), value@),
    {
        assert(path_view(path@).skip(0) == path_view(path@));
        self.put_at(path, 0, value)
    }
}

/// The path that two keys make.
pub fn key_path(first: &str, second: &str) -> (r: Vec<PathStep>)
    ensures
        path_view(r@) == seq![StepView::Key(first@), StepView::Key(second@)],
{
    let mut r: Vec<PathStep> = Vec::new();
    r.push(PathStep::Key(first.to_owned()));
    r.push(PathStep::Key(second.to_owned()));
    assert(path_view(r@) =~= seq![StepView::Key(first@), StepView::Key(second@)]);
    r
}

} // verus!
