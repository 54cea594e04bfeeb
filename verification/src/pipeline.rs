//! The stages of one build pipeline: what the two build systems are asked
//! to do, and what is made of their answers.

use vstd::prelude::*;
use crate::exec::ExecResult;
use crate::registry::{before, take_before};
use crate::text::{
    concat3, find_key, from_chars, last_piece, lookup, pairs_view, rfind_piece_start, string_views,
    sub_vec, to_chars, trim, trimmed,
};

verus! {

/// The arguments of the Go-ecosystem builder: it builds each import path
/// and writes the references of what it built to `image_refs_path`.
pub open spec fn ko_args_model(image_refs_path: Seq<char>, import_paths: Seq<Seq<char>>) -> Seq<
    Seq<char>,
> {
    seq!["build"@, "--base-import-paths"@, "--sbom=none"@, "--image-refs"@, image_refs_path]
        + import_paths
}

/// The arguments of the Go-ecosystem builder.
pub fn ko_build_args(image_refs_path: &str, import_paths: &Vec<String>) -> (r: Vec<String>)
    ensures
        string_views(r@) == ko_args_model(image_refs_path@, string_views(import_paths@)),
{
    let mut args: Vec<String> = Vec::new();
    args.push("build".to_owned());
    args.push("--base-import-paths".to_owned());
    args.push("--sbom=none".to_owned());
    args.push("--image-refs".to_owned());
    args.push(image_refs_path.to_owned());
    let ghost head = string_views(args@);
    assert(head =~= seq![
        "build"@,
        "--base-import-paths"@,
        "--sbom=none"@,
        "--image-refs"@,
        image_refs_path@,
    ]);
    let mut i: usize = 0;
    while i < import_paths.len()
        invariant
            i <= import_paths.len(),
            string_views(args@) == head + string_views(import_paths@).take(i as int),
        decreases import_paths.len() - i,
    {
        let ghost before_push = string_views(args@);
        args.push(import_paths[i].clone());
        assert(string_views(args@) =~= before_push.push(import_paths@[i as int]@));
        assert(string_views(import_paths@).take(i + 1) =~= string_views(import_paths@).take(
            i as int,
        ).push(import_paths@[i as int]@));
        i = i + 1;
    }
    assert(string_views(import_paths@).take(import_paths.len() as int) =~= string_views(
        import_paths@,
    ));
    args
}

/// The environment of the Go-ecosystem builder: where to push, how to
/// resolve modules, and where the credentials are, where that is known.
pub open spec fn ko_env_model(registry: Seq<char>, docker_config: Seq<char>) -> Seq<
    (Seq<char>, Seq<char>),
> {
    let base = seq![("KO_DOCKER_REPO"@, registry), ("GOFLAGS"@, "-mod=vendor"@)];
    if docker_config.len() == 0 {
        base
    } else {
        base.push(("DOCKER_CONFIG"@, docker_config))
    }
}

/// The environment of the Go-ecosystem builder.
pub fn ko_build_env(registry: &str, docker_config: &str) -> (r: Vec<(String, String)>)
    ensures
        pairs_view(r@) == ko_env_model(registry@, docker_config@),
{
    let mut env: Vec<(String, String)> = Vec::new();
    env.push(("KO_DOCKER_REPO".to_owned(), registry.to_owned()));
    env.push(("GOFLAGS".to_owned(), "-mod=vendor".to_owned()));
    let ghost base = pairs_view(env@);
    assert(base =~= seq![("KO_DOCKER_REPO"@, registry@), ("GOFLAGS"@, "-mod=vendor"@)]);
    if docker_config.unicode_len() > 0 {
        env.push(("DOCKER_CONFIG".to_owned(), docker_config.to_owned()));
        assert(pairs_view(env@) =~= base.push(("DOCKER_CONFIG"@, docker_config@)));
    }
    env
}

/// The references to go by where the builder wrote none: for each import
/// path its last segment, and that name in `registry`.
pub open spec fn fallback_refs_model(registry: Seq<char>, import_paths: Seq<Seq<char>>) -> Seq<
    (Seq<char>, Seq<char>),
> {
    Seq::new(
        import_paths.len(),
        |i: int|
            (last_piece(import_paths[i], '/'), registry + "/"@ + last_piece(import_paths[i], '/')),
    )
}

/// The references to go by where the builder wrote none.
pub fn fallback_image_refs(registry: &str, import_paths: &Vec<String>) -> (r: Vec<
    (String, String),
>)
    ensures
        pairs_view(r@) == fallback_refs_model(registry@, string_views(import_paths@)),
{
    let mut out: Vec<(String, String)> = Vec::new();
    let mut i: usize = 0;
    while i < import_paths.len()
        invariant
            i <= import_paths.len(),
            out.len() == i,
            forall|j: int|
                0 <= j < i ==> (#[trigger] out@[j]).0@ == last_piece(import_paths@[j]@, '/')
                    && out@[j].1@ == registry@ + "/"@ + last_piece(import_paths@[j]@, '/'),
        decreases import_paths.len() - i,
    {
        let chars = to_chars(import_paths[i].as_str());
        let at = rfind_piece_start(&chars, '/');
        let name = from_chars(&sub_vec(&chars, at, chars.len()));
        let full = concat3(registry, "/", name.as_str());
        out.push((name, full));
        i = i + 1;
    }
    assert(pairs_view(out@) =~= fallback_refs_model(registry@, string_views(import_paths@)));
    out
}

/// The container engine to build with: the primary one where it is
/// available, else the secondary one.
pub fn pick_builder(primary_available: bool) -> (r: &'static str)
    ensures
        r@ == if primary_available {
            "podman"@
        } else {
            "docker"@
        },
{
    if primary_available {
        "podman"
    } else {
        "docker"
    }
}

/// What the container builder is asked to do for one image: build it under
/// its tag, then push that tag.
#[derive(Debug, Clone)]
pub struct ContainerBuild {
    pub image_name: String,
    pub tag: String,
    pub build_args: Vec<String>,
    pub push_args: Vec<String>,
}

/// Plans the build of the declared image `image_name` for `registry`.
pub fn container_build(registry: &str, image_name: &str) -> (r: ContainerBuild)
    ensures
        r.image_name@ == image_name@,
        r.tag@ == registry@ + "/"@ + image_name@,
        string_views(r.build_args@) == seq!["build"@, "-t"@, registry@ + "/"@ + image_name@, "."@],
        string_views(r.push_args@) == seq![
            "push"@,
            registry@ + "/"@ + image_name@,
            "--tls-verify=false"@,
        ],
{
    let tag = concat3(registry, "/", image_name);
    let mut build_args: Vec<String> = Vec::new();
    build_args.push("build".to_owned());
    build_args.push("-t".to_owned());
    build_args.push(tag.clone());
    build_args.push(".".to_owned());
    assert(string_views(build_args@) =~= seq!["build"@, "-t"@, tag@, "."@]);
    let mut push_args: Vec<String> = Vec::new();
    push_args.push("push".to_owned());
    push_args.push(tag.clone());
    push_args.push("--tls-verify=false".to_owned());
    assert(string_views(push_args@) =~= seq!["push"@, tag@, "--tls-verify=false"@]);
    ContainerBuild { image_name: image_name.to_owned(), tag, build_args, push_args }
}

/// The host of a registry address: what stands before its first slash.
pub fn registry_host(registry: &str) -> (r: String)
    ensures
        r@ == before(registry@, '/'),
{
    from_chars(&take_before(&to_chars(registry), '/'))
}

/// The reference of an image that was pushed under `tag`: pinned by the
/// digest that the inspection printed, where it ended well; else the tag
/// itself.
pub open spec fn digest_pullspec_model(tag: Seq<char>, inspect: Option<(int, Seq<char>)>) -> Seq<
    char,
> {
    match inspect {
        Some((code, stdout)) => if code == 0 {
            before(tag, ':') + "@"@ + trimmed(stdout)
        } else {
            tag
        },
        None => tag,
    }
}

/// The reference of an image that was pushed under `tag`.
pub fn digest_pullspec(tag: &str, inspect: &Result<ExecResult, String>) -> (r: String)
    ensures
        r@ == digest_pullspec_model(
            tag@,
            match *inspect {
                Ok(out) => Some((out.exit_code as int, out.stdout@)),
                Err(_) => None,
            },
        ),
{
    match inspect {
        Ok(out) => {
            if out.exit_code == 0 {
                let name = from_chars(&take_before(&to_chars(tag), ':'));
                let digest = from_chars(&trim(&to_chars(out.stdout.as_str())));
                concat3(name.as_str(), "@", digest.as_str())
            } else {
                tag.to_owned()
            }
        },
        Err(_) => tag.to_owned(),
    }
}

/// What the images that were built are deployed under: for each image with
/// a declared key, in order, the key and the image's reference. An image
/// without a key is left out.
pub open spec fn keyed_images(
    images: Seq<(Seq<char>, Seq<char>)>,
    built: Seq<(Seq<char>, Seq<char>)>,
) -> Seq<(Seq<char>, Seq<char>)>
    decreases built.len(),
{
    if built.len() == 0 {
        seq![]
    } else {
        let rest = keyed_images(images, built.drop_last());
        match lookup(images, built.last().0) {
            Some(key) => rest.push((key, built.last().1)),
            None => rest,
        }
    }
}

/// The short names, among the images that were built, that no key is
/// declared for.
pub open spec fn unkeyed_images(
    images: Seq<(Seq<char>, Seq<char>)>,
    built: Seq<(Seq<char>, Seq<char>)>,
) -> Seq<Seq<char>>
    decreases built.len(),
{
    if built.len() == 0 {
        seq![]
    } else {
        let rest = unkeyed_images(images, built.drop_last());
        match lookup(images, built.last().0) {
            Some(_) => rest,
            None => rest.push(built.last().0),
        }
    }
}

/// Maps the images that a pipeline built to the keys they are deployed
/// under, and names those that have none.
pub fn key_built_images(images: &Vec<(String, String)>, built: &Vec<(String, String)>) -> (r: (
    Vec<(String, String)>,
    Vec<String>,
))
    ensures
        pairs_view(r.0@) == keyed_images(pairs_view(images@), pairs_view(built@)),
        string_views(r.1@) == unkeyed_images(pairs_view(images@), pairs_view(built@)),
{
    let ghost iv = pairs_view(images@);
    let ghost bv = pairs_view(built@);
    let mut keyed: Vec<(String, String)> = Vec::new();
    let mut unkeyed: Vec<String> = Vec::new();
    let mut i: usize = 0;
    assert(bv.take(0) == Seq::<(Seq<char>, Seq<char>)>::empty());
    assert(pairs_view(keyed@) =~= Seq::<(Seq<char>, Seq<char>)>::empty());
    assert(string_views(unkeyed@) =~= Seq::<Seq<char>>::empty());
    while i < built.len()
        invariant
            i <= built.len(),
            iv == pairs_view(images@),
            bv == pairs_view(built@),
            pairs_view(keyed@) == keyed_images(iv, bv.take(i as int)),
            string_views(unkeyed@) == unkeyed_images(iv, bv.take(i as int)),
        decreases built.len() - i,
    {
        proof {
            assert(bv.take(i + 1).drop_last() == bv.take(i as int));
            assert(bv.take(i + 1).last() == bv[i as int]);
        }
        match find_key(images, built[i].0.as_str()) {
            Some(at) => {
                let ghost before_push = pairs_view(keyed@);
                keyed.push((images[at].1.clone(), built[i].1.clone()));
                assert(pairs_view(keyed@) =~= before_push.push((iv[at as int].1, bv[i as int].1)));
            },
            None => {
                let ghost before_push = string_views(unkeyed@);
                unkeyed.push(built[i].0.clone());
                assert(string_views(unkeyed@) =~= before_push.push(bv[i as int].0));
            },
        }
        i = i + 1;
    }
    assert(bv.take(built.len() as int) == bv);
    (keyed, unkeyed)
}

} // verus!
