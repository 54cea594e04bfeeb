//! The operator's bundle: its manifest with the built images written in.

use vstd::prelude::*;
use crate::document::{
    lemma_list_view, lemma_object_view, list_of, list_view, member_keys, member_of,
    members_view, object_of, parse_yaml, parsed_yaml, render_yaml, rendered_yaml, Document,
    DocumentView, Member, find_member,
};
use crate::text::{find_key, first_index, lookup, pairs_view, starts_with, to_chars};

verus! {

/// The image that the members of an object ask for: where the object is
/// named by a key of images, the image that the mapping holds for it.
pub open spec fn wanted_image(
    m: Seq<(Seq<char>, DocumentView)>,
    images: Seq<(Seq<char>, Seq<char>)>,
) -> Option<Seq<char>> {
    match member_of(m, "name"@) {
        Some(DocumentView::Text(n)) => if "IMAGE_"@.is_prefix_of(n) {
            lookup(images, n)
        } else {
            None
        },
        _ => None,
    }
}

/// A document with the images written in: in every object, at whatever
/// depth, that is named by a key of images and holds a value, the value is
/// the image that the mapping holds for the key.
pub open spec fn with_images(doc: DocumentView, images: Seq<(Seq<char>, Seq<char>)>) -> DocumentView
    decreases doc,
{
    match doc {
        DocumentView::Object(m) => DocumentView::Object(
            Seq::new(
                m.len(),
                |i: int|
                    if 0 <= i < m.len() {
                        (
                            m[i].0,
                            if wanted_image(m, images) is Some && i == first_index(
                                member_keys(m),
                                "value"@,
                            ) {
                                DocumentView::Text(wanted_image(m, images)->Some_0)
                            } else {
                                with_images(m[i].1, images)
                            },
                        )
                    } else {
                        (Seq::<char>::empty(), DocumentView::Null)
                    },
            ),
        ),
        DocumentView::List(items) => DocumentView::List(
            Seq::new(
                items.len(),
                |i: int|
                    if 0 <= i < items.len() {
                        with_images(items[i], images)
                    } else {
                        DocumentView::Null
                    },
            ),
        ),
        _ => doc,
    }
}

/// The image that the members of an object ask for.
fn image_for(members: &Vec<Member>, images: &Vec<(String, String)>) -> (r: Option<String>)
    ensures
        crate::text::opt_text(r) == wanted_image(members_view(members@), pairs_view(images@)),
{
    match find_member(members, "name") {
        Some(at) => match &members[at].value {
            Document::Text(n) => {
                if starts_with(&to_chars(n.as_str()), &to_chars("IMAGE_")) {
                    match find_key(images, n.as_str()) {
                        Some(k) => Some(images[k].1.clone()),
                        None => None,
                    }
                } else {
                    None
                }
            },
            _ => None,
        },
        None => None,
    }
}

/// Writes the images into a document.
#[verifier::loop_isolation(false)]
pub fn patch_env_vars(doc: &Document, images: &Vec<(String, String)>) -> (r: Document)
    ensures
        r@ == with_images(doc@, pairs_view(images@)),
    decreases doc,
{
    match doc {
        Document::Object(members) => {
            proof {
                lemma_object_view(*members);
            }
            let ghost want = with_images(doc@, pairs_view(images@))->Object_0;
            let wanted = image_for(members, images);
            let slot = find_member(members, "value");
            let mut out: Vec<Member> = Vec::new();
            let mut i: usize = 0;
            while i < members.len()
                invariant
                    i <= members.len(),
                    out.len() == i,
                    forall|j: int|
                        0 <= j < i ==> (#[trigger] out@[j]).key@ == want[j].0 && out@[j].value@
                            == want[j].1,
                decreases members.len() - i,
            {
                let m = &members[i];
                let at_slot = match slot {
                    Some(s) => s == i,
                    None => false,
                };
                let value = match &wanted {
                    Some(image) => {
                        if at_slot {
                            Document::Text(image.clone())
                        } else {
                            patch_env_vars(&m.value, images)
                        }
                    },
                    None => patch_env_vars(&m.value, images),
                };
                out.push(Member { key: m.key.clone(), value });
                i = i + 1;
            }
            assert(members_view(out@) =~= want);
            object_of(out)
        },
        Document::List(items) => {
            proof {
                lemma_list_view(*items);
            }
            let ghost want = with_images(doc@, pairs_view(images@))->List_0;
            let mut out: Vec<Document> = Vec::new();
            let mut i: usize = 0;
            while i < items.len()
                invariant
                    i <= items.len(),
                    out.len() == i,
                    forall|j: int| 0 <= j < i ==> (#[trigger] out@[j])@ == want[j],
                decreases items.len() - i,
            {
                out.push(patch_env_vars(&items[i], images));
                i = i + 1;
            }
            assert(list_view(out@) =~= want);
            list_of(out)
        },
        other => other.copy(),
    }
}

/// The text of the bundle's manifest with the images written in, or why
/// there is none: the manifest must read as YAML, and the patched one must
/// write as YAML.
pub open spec fn patched_csv(content: Seq<char>, images: Seq<(Seq<char>, Seq<char>)>) -> Result<
    Seq<char>,
    Seq<char>,
> {
    match parsed_yaml(content) {
        None => Err("Failed to parse CSV YAML"@),
        Some(doc) => match rendered_yaml(with_images(doc, images)) {
            Some(text) => Ok(text),
            None => Err("Failed to write CSV YAML"@),
        },
    }
}

/// Writes the built images into the text of the bundle's manifest.
pub fn patch_csv(content: &str, images: &Vec<(String, String)>) -> (r: Result<String, String>)
    ensures
        match (r, patched_csv(content@, pairs_view(images@))) {
            (Ok(text), Ok(m)) => text@ == m,
            (Err(e), Err(m)) => e@ == m,
            _ => false,
        },
{
    match parse_yaml(content) {
        None => Err("Failed to parse CSV YAML".to_owned()),
        Some(doc) => {
            let patched = patch_env_vars(&doc, images);
            match render_yaml(&patched) {
                Some(text) => Ok(text),
                None => Err("Failed to write CSV YAML".to_owned()),
            }
        },
    }
}

} // verus!
