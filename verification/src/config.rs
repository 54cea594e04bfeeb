//! Static configuration: what is known of each component before a run.

use vstd::prelude::*;
use crate::text::{
    concat3, first_index, lemma_first_index, opt_text, pairs_view, str_eq, string_views,
};

verus! {

/// Configuration of one component.
#[derive(Debug, Clone)]
pub struct ComponentConfig {
    /// The source repository.
    pub repo: String,
    /// Import paths for the Go-ecosystem builder, one image each.
    pub import_paths: Vec<String>,
    /// Short image name and the environment-variable key it is deployed
    /// under; a name is looked up at its first entry.
    pub images: Vec<(String, String)>,
    /// The build system: "docker" for the container builder, anything else,
    /// or nothing, for the Go-ecosystem builder.
    pub build_system: Option<String>,
    /// Prefix of the installer sets of this component, where it differs from
    /// the component's name.
    pub installer_set_prefix: Option<String>,
}

/// What a `ComponentConfig` holds, as plain sequences.
pub struct ComponentConfigView {
    pub repo: Seq<char>,
    pub import_paths: Seq<Seq<char>>,
    pub images: Seq<(Seq<char>, Seq<char>)>,
    pub build_system: Option<Seq<char>>,
    pub installer_set_prefix: Option<Seq<char>>,
}

impl View for ComponentConfig {
    type V = ComponentConfigView;

    open spec fn view(&self) -> ComponentConfigView {
        ComponentConfigView {
            repo: self.repo@,
            import_paths: string_views(self.import_paths@),
            images: pairs_view(self.images@),
            build_system: opt_text(self.build_system),
            installer_set_prefix: opt_text(self.installer_set_prefix),
        }
    }
}

/// The configuration of all components, by name; a name is looked up at its
/// first entry.
#[derive(Debug, Clone)]
pub struct Config {
    pub components: Vec<(String, ComponentConfig)>,
}

/// The names under which `entries` hold a configuration.
pub open spec fn component_names(entries: Seq<(String, ComponentConfig)>) -> Seq<Seq<char>> {
    Seq::new(entries.len(), |i: int| entries[i].0@)
}

/// The configuration that `entries` hold for `name`.
pub open spec fn component_config(
    entries: Seq<(String, ComponentConfig)>,
    name: Seq<char>,
) -> Option<ComponentConfig> {
    let i = first_index(component_names(entries), name);
    if i < entries.len() {
        Some(entries[i].1)
    } else {
        None
    }
}

/// The configuration that `entries` hold for `name`.
pub fn find_component<'a>(entries: &'a Vec<(String, ComponentConfig)>, name: &str) -> (r: Option<
    &'a ComponentConfig,
>)
    ensures
        r == match component_config(entries@, name@) {
            Some(c) => Some(&c),
            None => None,
        },
{
    let mut i: usize = 0;
    let ghost names = component_names(entries@);
    while i < entries.len()
        invariant
            i <= entries.len(),
            names == component_names(entries@),
            forall|j: int| 0 <= j < i ==> names[j] != name@,
        decreases entries.len() - i,
    {
        if str_eq(entries[i].0.as_str(), name) {
            proof {
                lemma_first_index(names, name@, i as int);
            }
            return Some(&entries[i].1);
        }
        i = i + 1;
    }
    proof {
        lemma_first_index(names, name@, i as int);
    }
    None
}

impl Config {
    /// The configuration of the component `name`.
    pub fn get<'a>(&'a self, name: &str) -> (r: Option<&'a ComponentConfig>)
        ensures
            r == match component_config(self.components@, name@) {
                Some(c) => Some(&c),
                None => None,
            },
    {
        find_component(&self.components, name)
    }
}

/// The path of the configuration file, relative to the working directory.
pub fn default_config_path() -> (r: String)
    ensures
        r@ == "config/components.toml"@,
{
    "config/components.toml".to_owned()
}

/// The short image names that `entries` declare, in order.
pub open spec fn image_names(entries: Seq<(Seq<char>, Seq<char>)>) -> Seq<Seq<char>> {
    Seq::new(entries.len(), |i: int| entries[i].0)
}

/// The message for a component that the configuration does not hold.
pub open spec fn not_in_config_message(component: Seq<char>) -> Seq<char> {
    "Component '"@ + component + "' not in config"@
}

/// The short names of the images that the configuration declares for
/// `component`; it fails for a component that the configuration lacks.
pub fn load_image_names_from_config(cfg: &Config, component: &str) -> (r: Result<
    Vec<String>,
    String,
>)
    ensures
        match (r, component_config(cfg.components@, component@)) {
            (Ok(names), Some(c)) => string_views(names@) == image_names(c@.images),
            (Err(e), None) => e@ == not_in_config_message(component@),
            _ => false,
        },
{
    match cfg.get(component) {
        None => Err(concat3("Component '", component, "' not in config")),
        Some(c) => {
            let mut names: Vec<String> = Vec::new();
            let mut i: usize = 0;
            while i < c.images.len()
                invariant
                    i <= c.images.len(),
                    names.len() == i,
                    forall|j: int| 0 <= j < i ==> (#[trigger] names@[j])@ == c.images@[j].0@,
                decreases c.images.len() - i,
            {
                names.push(c.images[i].0.clone());
                i = i + 1;
            }
            assert(string_views(names@) == image_names(c@.images));
            Ok(names)
        },
    }
}

} // verus!
