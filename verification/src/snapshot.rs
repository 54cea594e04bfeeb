//! Snapshots: the list of component images that a release pipeline takes.

use vstd::prelude::*;

verus! {

/// A snapshot: the components of a release, each with its image.
#[derive(Debug, Clone)]
pub struct Snapshot {
    pub components: Vec<SnapshotComponent>,
}

/// One component of a snapshot.
#[derive(Debug, Clone)]
pub struct SnapshotComponent {
    pub name: String,
    pub container_image: String,
}

/// The snapshot of one index image: a single component, named "fbc-index".
pub fn generate_snapshot(index_pullspec: &str) -> (r: Snapshot)
    ensures
        r.components@.len() == 1,
        r.components@[0].name@ == "fbc-index"@,
        r.components@[0].container_image@ == index_pullspec@,
{
    let mut components: Vec<SnapshotComponent> = Vec::new();
    components.push(
        SnapshotComponent {
            name: "fbc-index".to_owned(),
            container_image: index_pullspec.to_owned(),
        },
    );
    Snapshot { components }
}

} // verus!
