//! The registry bridge: the registry's address, the login, the names under
//! which images are pushed on, and what a push returns.

use vstd::prelude::*;
use crate::document::{
    find_member, insert_member, inserted, lemma_inserted, lemma_object_view, member_keys,
    member_of, members_view, parse_document, parsed_document, render_document, rendered_document,
    Document, DocumentView, Member,
};
use crate::exec::ExecResult;
use crate::text::{
    concat2, concat3, find_char, first_index, from_chars, last_piece, lines, lines_of, pairs_view,
    rfind_piece_start, string_views, sub_vec, to_chars, trim, trimmed, views,
};

verus! {

/// The namespace in which the built images live.
pub fn default_namespace() -> (r: String)
    ensures
        r@ == "tekton-upstream"@,
{
    "tekton-upstream".to_owned()
}

/// The hint for a registry whose address cannot be had.
pub open spec fn route_hint() -> Seq<char> {
    "Could not get OCP image registry route. Is the registry exposed? Run: oc patch configs.imageregistry.operator.openshift.io/cluster --patch '{\"spec\":{\"defaultRoute\":true}}' --type=merge"@
}

/// The arguments of the query for the registry's address.
pub fn registry_route_query() -> (r: Vec<String>)
    ensures
        string_views(r@) == seq![
            "get"@,
            "route"@,
            "default-route"@,
            "-n"@,
            "openshift-image-registry"@,
            "-o"@,
            "jsonpath={.spec.host}"@,
        ],
{
    let mut r: Vec<String> = Vec::new();
    r.push("get".to_owned());
    r.push("route".to_owned());
    r.push("default-route".to_owned());
    r.push("-n".to_owned());
    r.push("openshift-image-registry".to_owned());
    r.push("-o".to_owned());
    r.push("jsonpath={.spec.host}".to_owned());
    assert(string_views(r@) == seq![
        "get"@,
        "route"@,
        "default-route"@,
        "-n"@,
        "openshift-image-registry"@,
        "-o"@,
        "jsonpath={.spec.host}"@,
    ]);
    r
}

/// The registry's address from the query for it: what the query printed,
/// trimmed; where the query failed, an error that says how to expose the
/// registry.
pub fn get_registry_route(query: &Result<ExecResult, String>) -> (r: Result<String, String>)
    ensures
        match *query {
            Ok(out) => r is Ok && r->Ok_0@ == trimmed(out.stdout@),
            Err(_) => r is Err && r->Err_0@ == route_hint(),
        },
{
    match query {
        Ok(out) => Ok(from_chars(&trim(&to_chars(out.stdout.as_str())))),
        Err(_) => Err(
            "Could not get OCP image registry route. Is the registry exposed? Run: oc patch configs.imageregistry.operator.openshift.io/cluster --patch '{\"spec\":{\"defaultRoute\":true}}' --type=merge".to_owned(),
        ),
    }
}

/// The arguments of the login at the registry `registry_route` with the
/// session token that `token_output` holds.
pub fn registry_login(registry_route: &str, token_output: &str) -> (r: Vec<String>)
    ensures
        string_views(r@) == seq![
            "registry"@,
            "login"@,
            "--registry="@ + registry_route@,
            "--token="@ + trimmed(token_output@),
            "--insecure=true"@,
        ],
{
    let token = from_chars(&trim(&to_chars(token_output)));
    let mut r: Vec<String> = Vec::new();
    r.push("registry".to_owned());
    r.push("login".to_owned());
    r.push(concat2("--registry=", registry_route));
    r.push(concat2("--token=", token.as_str()));
    r.push("--insecure=true".to_owned());
    assert(string_views(r@) == seq![
        "registry"@,
        "login"@,
        "--registry="@ + registry_route@,
        "--token="@ + trimmed(token_output@),
        "--insecure=true"@,
    ]);
    r
}

/// The arguments of the command that creates `namespace`, where the check
/// for it shows that it is missing; none where it exists.
pub fn ensure_namespace(namespace: &str, check: &ExecResult) -> (r: Option<Vec<String>>)
    ensures
        check.exit_code == 0 ==> r is None,
        check.exit_code != 0 ==> r is Some && string_views(r->Some_0@) == seq![
            "create"@,
            "namespace"@,
            namespace@,
        ],
{
    if check.exit_code == 0 {
        None
    } else {
        let mut r: Vec<String> = Vec::new();
        r.push("create".to_owned());
        r.push("namespace".to_owned());
        r.push(namespace.to_owned());
        assert(string_views(r@) == seq!["create"@, "namespace"@, namespace@]);
        Some(r)
    }
}

/// What stands in `s` before its first `c`; all of `s` where it holds none.
pub open spec fn before(s: Seq<char>, c: char) -> Seq<char> {
    s.take(first_index(s, c))
}

/// The short name of the image that `image_ref` names: its last path
/// segment, without digest and tag.
pub open spec fn image_name_model(image_ref: Seq<char>) -> Seq<char> {
    before(before(last_piece(image_ref, '/'), '@'), ':')
}

/// The short name of a pinned reference: its last path segment, without the
/// digest.
pub open spec fn short_name_model(pinned: Seq<char>) -> Seq<char> {
    before(last_piece(pinned, '/'), '@')
}

/// What stands in `v` before its first `c`.
pub fn take_before(v: &[char], c: char) -> (r: Vec<char>)
    ensures
        r@ == before(v@, c),
{
    let at = find_char(v, c);
    sub_vec(v, 0, at)
}

/// What stands in `v` behind its last `c`.
pub fn take_last_piece(v: &[char], c: char) -> (r: Vec<char>)
    ensures
        r@ == last_piece(v@, c),
{
    let at = rfind_piece_start(v, c);
    sub_vec(v, at, v.len())
}

/// The short name of the image that `image_ref` names.
pub fn image_name_of(image_ref: &str) -> (r: String)
    ensures
        r@ == image_name_model(image_ref@),
{
    let chars = to_chars(image_ref);
    let segment = take_last_piece(&chars, '/');
    let undigested = take_before(&segment, '@');
    let untagged = take_before(&undigested, ':');
    from_chars(&untagged)
}

/// Where an image is copied from and to, as the transfer tool names them.
#[derive(Debug, Clone)]
pub struct PushPlan {
    pub image_name: String,
    pub source: String,
    pub destination: String,
}

/// Plans the push of an image that was built, named by its pinned
/// reference, to the registry `target_registry`.
pub fn push_to_external(image_ref: &str, target_registry: &str) -> (r: PushPlan)
    ensures
        r.image_name@ == image_name_model(image_ref@),
        r.source@ == "docker://"@ + image_ref@,
        r.destination@ == "docker://"@ + target_registry@ + "/"@ + image_name_model(image_ref@),
{
    let image_name = image_name_of(image_ref);
    let source = concat2("docker://", image_ref);
    let head = concat3("docker://", target_registry, "/");
    let destination = concat2(head.as_str(), image_name.as_str());
    PushPlan { image_name, source, destination }
}

/// The reference of an image that was pushed, pinned by the digest that
/// the target registry reports for it: a digest, unlike a tag, never comes
/// to name another image.
pub fn pinned_reference(target_registry: &str, image_name: &str, inspect_output: &str) -> (r:
    String)
    ensures
        r@ == target_registry@ + "/"@ + image_name@ + "@"@ + trimmed(inspect_output@),
{
    let digest = from_chars(&trim(&to_chars(inspect_output)));
    let head = concat3(target_registry, "/", image_name);
    concat3(head.as_str(), "@", digest.as_str())
}

/// The image references that the lines `all` name: each line that is not
/// blank, trimmed, with its short name.
pub open spec fn image_refs_model(all: Seq<Seq<char>>) -> Seq<(Seq<char>, Seq<char>)>
    decreases all.len(),
{
    if all.len() == 0 {
        seq![]
    } else {
        let rest = image_refs_model(all.drop_last());
        let line = trimmed(all.last());
        if line.len() == 0 {
            rest
        } else {
            rest.push((short_name_model(line), line))
        }
    }
}

/// Reads the list of pinned references that the builder wrote, one per
/// line, and gives each with its short name.
pub fn collect_image_refs(content: &str) -> (r: Vec<(String, String)>)
    ensures
        pairs_view(r@) == image_refs_model(lines_of(content@)),
{
    let chars = to_chars(content);
    let all = lines(&chars);
    let mut refs: Vec<(String, String)> = Vec::new();
    let mut i: usize = 0;
    assert(views(all@).take(0) == Seq::<Seq<char>>::empty());
    assert(pairs_view(refs@) == Seq::<(Seq<char>, Seq<char>)>::empty());
    while i < all.len()
        invariant
            i <= all.len(),
            views(all@) == lines_of(content@),
            pairs_view(refs@) == image_refs_model(views(all@).take(i as int)),
        decreases all.len() - i,
    {
        let line = trim(&all[i]);
        proof {
            let v = views(all@);
            assert(v.take(i + 1).drop_last() == v.take(i as int));
            assert(v.take(i + 1).last() == all@[i as int]@);
        }
        if line.len() > 0 {
            let segment = take_last_piece(&line, '/');
            let short = from_chars(&take_before(&segment, '@'));
            let full = from_chars(&line);
            let ghost before_push = pairs_view(refs@);
            refs.push((short, full));
            assert(pairs_view(refs@) == before_push.push((short@, full@)));
        }
        i = i + 1;
    }
    assert(views(all@).take(all.len() as int) == views(all@));
    refs
}

/// The members `dst` with every member of `src` put in, one after the
/// other: a member of `src` takes the place of the member of `dst` with its
/// key, or is added where `dst` has none.
pub open spec fn merged_members(
    dst: Seq<(Seq<char>, DocumentView)>,
    src: Seq<(Seq<char>, DocumentView)>,
) -> Seq<(Seq<char>, DocumentView)>
    decreases src.len(),
{
    if src.len() == 0 {
        dst
    } else {
        inserted(merged_members(dst, src.drop_last()), src.last().0, src.last().1)
    }
}

/// The credential store `dst` with the credentials of `src` merged in:
/// where both hold an object under "auths", that of `dst` takes in every
/// member of that of `src`; else `dst` stays as it is.
pub open spec fn merged_auths(src: DocumentView, dst: DocumentView) -> DocumentView {
    match (src.member("auths"@), dst.member("auths"@)) {
        (Some(DocumentView::Object(sa)), Some(DocumentView::Object(da))) => DocumentView::Object(
            inserted(dst->Object_0, "auths"@, DocumentView::Object(merged_members(da, sa))),
        ),
        _ => dst,
    }
}

/// The merge deletes nothing: every host that the destination had
/// credentials for still has some.
pub proof fn lemma_merge_keeps_hosts(
    dst: Seq<(Seq<char>, DocumentView)>,
    src: Seq<(Seq<char>, DocumentView)>,
    host: Seq<char>,
)
    requires
        member_of(dst, host) is Some,
    ensures
        member_of(merged_members(dst, src), host) is Some,
    decreases src.len(),
{
    if src.len() > 0 {
        lemma_merge_keeps_hosts(dst, src.drop_last(), host);
        lemma_inserted(merged_members(dst, src.drop_last()), src.last().0, src.last().1, host);
    }
}

/// The merge leaves unrelated hosts alone: a host that the source does not
/// name has after the merge the credentials it had in the destination.
pub proof fn lemma_merge_keeps_unrelated(
    dst: Seq<(Seq<char>, DocumentView)>,
    src: Seq<(Seq<char>, DocumentView)>,
    host: Seq<char>,
)
    requires
        !member_keys(src).contains(host),
    ensures
        member_of(merged_members(dst, src), host) == member_of(dst, host),
    decreases src.len(),
{
    if src.len() > 0 {
        let front = src.drop_last();
        assert forall|j: int| 0 <= j < front.len() implies member_keys(front)[j] != host by {
            assert(member_keys(src)[j] == member_keys(front)[j]);
        }
        assert(!member_keys(front).contains(host));
        lemma_merge_keeps_unrelated(dst, front, host);
        assert(member_keys(src)[src.len() - 1] == src.last().0);
        lemma_inserted(merged_members(dst, front), src.last().0, src.last().1, host);
    }
}

/// The merge prefers the fresh credentials: a host that the source names
/// has after the merge the credentials that the source's last member for
/// it holds.
pub proof fn lemma_merge_prefers_source(
    dst: Seq<(Seq<char>, DocumentView)>,
    src: Seq<(Seq<char>, DocumentView)>,
    i: int,
)
    requires
        0 <= i < src.len(),
        forall|j: int| i < j < src.len() ==> src[j].0 != src[i].0,
    ensures
        member_of(merged_members(dst, src), src[i].0) == Some(src[i].1),
    decreases src.len(),
{
    let front = src.drop_last();
    if i == src.len() - 1 {
        lemma_inserted(merged_members(dst, front), src.last().0, src.last().1, src[i].0);
    } else {
        assert(front[i] == src[i]);
        assert forall|j: int| i < j < front.len() implies front[j].0 != front[i].0 by {
            assert(front[j] == src[j]);
        }
        lemma_merge_prefers_source(dst, front, i);
        lemma_inserted(merged_members(dst, front), src.last().0, src.last().1, src[i].0);
    }
}

/// Puts every member of `src` into `dst`.
pub fn merge_members(dst: &mut Vec<Member>, src: &Vec<Member>)
    ensures
        members_view(final(dst)@) == merged_members(
            members_view(old(dst)@),
            members_view(src@),
        ),
{
    let ghost sv = members_view(src@);
    let ghost dv = members_view(dst@);
    let mut i: usize = 0;
    assert(sv.take(0) == Seq::<(Seq<char>, DocumentView)>::empty());
    while i < src.len()
        invariant
            i <= src.len(),
            sv == members_view(src@),
            members_view(dst@) == merged_members(dv, sv.take(i as int)),
        decreases src.len() - i,
    {
        proof {
            assert(sv.take(i + 1).drop_last() == sv.take(i as int));
            assert(sv.take(i + 1).last() == sv[i as int]);
        }
        insert_member(dst, src[i].key.clone(), src[i].value.copy());
        i = i + 1;
    }
    assert(sv.take(src.len() as int) == sv);
}

/// Merges the credentials of the store `src` into the store `dst`: no
/// host's credentials are deleted, and where both stores name a host, those
/// of `src` win.
pub fn merge_auths(src: &Document, dst: Document) -> (r: Document)
    ensures
        r@ == merged_auths(src@, dst@),
{
    let fresh: &Vec<Member> = match src.get("auths") {
        Some(Document::Object(sa)) => {
            proof {
                lemma_object_view(*sa);
            }
            sa
        },
        _ => {
            return dst;
        },
    };
    match dst {
        Document::Object(mut members) => {
            proof {
                lemma_object_view(members);
            }
            let ghost before = members_view(members@);
            match find_member(&members, "auths") {
                None => Document::Object(members),
                Some(at) => {
                    let ghost taken = members@[at as int];
                    assert(before[at as int] == (taken.key@, taken.value@));
                    let Member { key, value } = members.remove(at);
                    assert(key@ == "auths"@);
                    match value {
                        Document::Object(mut known) => {
                            proof {
                                lemma_object_view(known);
                            }
                            merge_members(&mut known, fresh);
                            proof {
                                lemma_object_view(known);
                            }
                            let ghost merged = Document::Object(known)@;
                            members.insert(at, Member { key, value: Document::Object(known) });
                            proof {
                                lemma_object_view(members);
                                assert(members@[at as int].value@ == merged);
                                assert(members_view(members@) =~= before.update(
                                    at as int,
                                    ("auths"@, merged),
                                ));
                            }
                            Document::Object(members)
                        },
                        other => {
                            let ghost ov = other@;
                            members.insert(at, Member { key, value: other });
                            proof {
                                lemma_object_view(members);
                                assert(members_view(members@) =~= before);
                            }
                            Document::Object(members)
                        },
                    }
                },
            }
        },
        other => other,
    }
}

/// What to write to the second tool's credential store, given the text of
/// the container runtime's store and that of the second store where it
/// exists: a copy of the first where the second does not exist or is no
/// JSON; nothing where the first is no JSON; else the second with the
/// credentials of the first merged in.
pub open spec fn synced_config(src: Seq<char>, existing: Option<Seq<char>>) -> Option<Seq<char>> {
    match existing {
        None => Some(src),
        Some(dst) => match parsed_document(src) {
            None => None,
            Some(sd) => match parsed_document(dst) {
                None => Some(src),
                Some(dd) => Some(rendered_document(merged_auths(sd, dd))),
            },
        },
    }
}

/// Reconciles the two credential stores: says what to write to the second
/// tool's store so that it holds the credentials of the container
/// runtime's store beside its own.
pub fn sync_docker_config(src: &str, existing: Option<&str>) -> (r: Option<String>)
    ensures
        match r {
            Some(text) => synced_config(
                src@,
                match existing {
                    Some(e) => Some(e@),
                    None => None,
                },
            ) == Some(text@),
            None => synced_config(
                src@,
                match existing {
                    Some(e) => Some(e@),
                    None => None,
                },
            ) is None,
        },
{
    match existing {
        None => Some(src.to_owned()),
        Some(dst) => match parse_document(src) {
            None => None,
            Some(sd) => match parse_document(dst) {
                None => Some(src.to_owned()),
                Some(dd) => {
                    let merged = merge_auths(&sd, dd);
                    Some(render_document(&merged))
                },
            },
        },
    }
}

} // verus!
