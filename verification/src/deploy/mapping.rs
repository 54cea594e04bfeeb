//! The image mapper: from the images a build produced to the environment
//! variables under which the operator expects them.

use vstd::prelude::*;
use crate::config::{component_config, Config};
use crate::text::{concat3, find_key, lookup, pairs_view, string_views};

verus! {

/// The message for a component that the configuration does not hold.
pub open spec fn component_missing_message(component: Seq<char>) -> Seq<char> {
    "Component '"@ + component + "' not found in config"@
}

/// The message for a built image that the configuration maps to no key.
pub open spec fn image_unmapped_message(image: Seq<char>, component: Seq<char>) -> Seq<char> {
    "No IMAGE_ mapping found for built image '"@ + image + "' in component '"@ + component
        + "'"@
}

/// The message for a build that produced no image.
pub open spec fn nothing_mapped_message(component: Seq<char>) -> Seq<char> {
    "No image mappings produced for component '"@ + component + "'"@
}

/// The mapping of the images `built`, in order: for each its key, and its
/// full reference in `registry`. The first image without a key fails the
/// whole mapping.
pub open spec fn mapped_images(
    images: Seq<(Seq<char>, Seq<char>)>,
    component: Seq<char>,
    registry: Seq<char>,
    built: Seq<Seq<char>>,
) -> Result<Seq<(Seq<char>, Seq<char>)>, Seq<char>>
    decreases built.len(),
{
    if built.len() == 0 {
        Ok(seq![])
    } else {
        match mapped_images(images, component, registry, built.drop_last()) {
            Err(e) => Err(e),
            Ok(rest) => match lookup(images, built.last()) {
                None => Err(image_unmapped_message(built.last(), component)),
                Some(key) => Ok(rest.push((key, registry + "/"@ + built.last()))),
            },
        }
    }
}

/// A failure among the first images is the failure of the whole mapping.
pub proof fn lemma_mapped_images_error(
    images: Seq<(Seq<char>, Seq<char>)>,
    component: Seq<char>,
    registry: Seq<char>,
    built: Seq<Seq<char>>,
    k: int,
)
    requires
        0 <= k <= built.len(),
        mapped_images(images, component, registry, built.take(k)) is Err,
    ensures
        mapped_images(images, component, registry, built) == mapped_images(
            images,
            component,
            registry,
            built.take(k),
        ),
    decreases built.len() - k,
{
    if k == built.len() {
        assert(built.take(k) == built);
    } else {
        assert(built.take(k + 1).drop_last() == built.take(k));
        lemma_mapped_images_error(images, component, registry, built, k + 1);
    }
}

/// The image mapping of a component, or why there is none.
pub open spec fn image_mappings_model(
    images: Option<Seq<(Seq<char>, Seq<char>)>>,
    component: Seq<char>,
    registry: Seq<char>,
    built: Seq<Seq<char>>,
) -> Result<Seq<(Seq<char>, Seq<char>)>, Seq<char>> {
    match images {
        None => Err(component_missing_message(component)),
        Some(declared) => match mapped_images(declared, component, registry, built) {
            Err(e) => Err(e),
            Ok(m) => if m.len() == 0 {
                Err(nothing_mapped_message(component))
            } else {
                Ok(m)
            },
        },
    }
}

/// Builds the image mapping of a component: for each built image the key
/// that the configuration declares for it, with the image's full reference
/// in `registry`. All or nothing: it fails for a component that the
/// configuration lacks, for the first built image without a key, and for a
/// build without images.
pub fn build_image_mappings(
    config: &Config,
    component: &str,
    registry: &str,
    built_images: &Vec<String>,
) -> (r: Result<Vec<(String, String)>, String>)
    ensures
        match (
            r,
            image_mappings_model(
                match component_config(config.components@, component@) {
                    Some(c) => Some(c@.images),
                    None => None,
                },
                component@,
                registry@,
                string_views(built_images@),
            ),
        ) {
            (Ok(v), Ok(m)) => pairs_view(v@) == m,
            (Err(e), Err(m)) => e@ == m,
            _ => false,
        },
{
    let comp = match config.get(component) {
        Some(c) => c,
        None => {
            return Err(concat3("Component '", component, "' not found in config"));
        },
    };
    let ghost declared = comp@.images;
    let ghost built = string_views(built_images@);
    let mut mappings: Vec<(String, String)> = Vec::new();
    let mut i: usize = 0;
    assert(built.take(0) == Seq::<Seq<char>>::empty());
    assert(pairs_view(mappings@) == Seq::<(Seq<char>, Seq<char>)>::empty());
    while i < built_images.len()
        invariant
            i <= built_images.len(),
            component_config(config.components@, component@) == Some(*comp),
            declared == comp@.images,
            built == string_views(built_images@),
            mapped_images(declared, component@, registry@, built.take(i as int)) == Ok::<
                Seq<(Seq<char>, Seq<char>)>,
                Seq<char>,
            >(pairs_view(mappings@)),
        decreases built_images.len() - i,
    {
        let image_name = &built_images[i];
        proof {
            assert(built.take(i + 1).drop_last() == built.take(i as int));
            assert(built.take(i + 1).last() == image_name@);
        }
        match find_key(&comp.images, image_name.as_str()) {
            None => {
                let head = concat3(
                    "No IMAGE_ mapping found for built image '",
                    image_name.as_str(),
                    "' in component '",
                );
                proof {
                    lemma_mapped_images_error(declared, component@, registry@, built, i + 1);
                }
                return Err(concat3(head.as_str(), component, "'"));
            },
            Some(at) => {
                let full_ref = concat3(registry, "/", image_name.as_str());
                let ghost before = pairs_view(mappings@);
                let key = comp.images[at].1.clone();
                mappings.push((key, full_ref));
                assert(pairs_view(mappings@) == before.push((key@, full_ref@)));
            },
        }
        i = i + 1;
    }
    assert(built.take(built_images.len() as int) == built);
    if mappings.len() == 0 {
        return Err(concat3("No image mappings produced for component '", component, "'"));
    }
    Ok(mappings)
}

} // verus!
