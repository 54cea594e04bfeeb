//! The dry run: what would be built, from where, at which commit.

use vstd::prelude::*;
use crate::component::{resolved_ref, resolve_git_ref, ComponentSpec, ComponentSpecView};
use crate::config::{component_config, find_component, ComponentConfig, ComponentConfigView};
use crate::coordinator::copy_strings;
use crate::github::short_sha;
use crate::text::{
    concat2, first_word, first_word_of, from_chars, last_piece, lines, lines_of, opt_text,
    rfind_piece_start, seq_view, string_views, sub_vec, to_chars, views,
};

verus! {

/// A component as a dry run shows it.
#[derive(Debug, Clone)]
pub struct ResolvedComponent {
    pub name: String,
    pub repo_url: String,
    pub git_ref: String,
    pub resolved_sha: String,
    pub commit_date: Option<String>,
    pub commit_message: Option<String>,
    pub as_of_date: Option<String>,
    pub import_paths: Vec<String>,
    pub image_names: Vec<String>,
}

/// What a `ResolvedComponent` holds, as plain sequences.
pub struct ResolvedComponentView {
    pub name: Seq<char>,
    pub repo_url: Seq<char>,
    pub git_ref: Seq<char>,
    pub resolved_sha: Seq<char>,
    pub commit_date: Option<Seq<char>>,
    pub commit_message: Option<Seq<char>>,
    pub as_of_date: Option<Seq<char>>,
    pub import_paths: Seq<Seq<char>>,
    pub image_names: Seq<Seq<char>>,
}

impl View for ResolvedComponent {
    type V = ResolvedComponentView;

    open spec fn view(&self) -> ResolvedComponentView {
        ResolvedComponentView {
            name: self.name@,
            repo_url: self.repo_url@,
            git_ref: self.git_ref@,
            resolved_sha: self.resolved_sha@,
            commit_date: opt_text(self.commit_date),
            commit_message: opt_text(self.commit_message),
            as_of_date: opt_text(self.as_of_date),
            import_paths: string_views(self.import_paths@),
            image_names: string_views(self.image_names@),
        }
    }
}

/// The names of the images that import paths give: of each its last
/// segment.
pub open spec fn path_image_names(paths: Seq<Seq<char>>) -> Seq<Seq<char>> {
    Seq::new(paths.len(), |i: int| last_piece(paths[i], '/'))
}

/// The names of the images that the import paths `paths` give.
pub fn image_names_of(paths: &Vec<String>) -> (r: Vec<String>)
    ensures
        string_views(r@) == path_image_names(string_views(paths@)),
{
    let mut out: Vec<String> = Vec::new();
    let mut i: usize = 0;
    while i < paths.len()
        invariant
            i <= paths.len(),
            out.len() == i,
            forall|j: int| 0 <= j < i ==> (#[trigger] out@[j])@ == last_piece(paths@[j]@, '/'),
        decreases paths.len() - i,
    {
        let chars = to_chars(paths[i].as_str());
        let at = rfind_piece_start(&chars, '/');
        out.push(from_chars(&sub_vec(&chars, at, chars.len())));
        i = i + 1;
    }
    assert(string_views(out@) =~= path_image_names(string_views(paths@)));
    out
}

/// The ref to ask a repository for: the refspec of the user's ref, or the
/// head where there is none.
pub fn lookup_ref(git_ref: &Option<String>) -> (r: String)
    ensures
        r@ == match opt_text(*git_ref) {
            Some(g) => resolved_ref(g),
            None => "HEAD"@,
        },
{
    match git_ref {
        Some(g) => resolve_git_ref(g.as_str()),
        None => "HEAD".to_owned(),
    }
}

/// The commit found for the spec at position `i`; "N/A" where none was
/// looked up.
pub open spec fn sha_at(shas: Seq<Seq<char>>, i: int) -> Seq<char> {
    if i < shas.len() {
        shas[i]
    } else {
        "N/A"@
    }
}

/// The component that a spec resolves to under the configuration `cfg`.
pub open spec fn resolved_model(
    spec: ComponentSpecView,
    cfg: ComponentConfigView,
    sha: Seq<char>,
) -> ResolvedComponentView {
    ResolvedComponentView {
        name: spec.name,
        repo_url: cfg.repo,
        git_ref: match spec.git_ref {
            Some(g) => g,
            None => "HEAD"@,
        },
        resolved_sha: sha,
        commit_date: None,
        commit_message: None,
        as_of_date: None,
        import_paths: cfg.import_paths,
        image_names: path_image_names(cfg.import_paths),
    }
}

/// The components that the first `n` specs resolve to: one for each spec
/// that the configuration holds, in order.
pub open spec fn resolved_components(
    specs: Seq<ComponentSpec>,
    configs: Seq<(String, ComponentConfig)>,
    shas: Seq<Seq<char>>,
    n: int,
) -> Seq<ResolvedComponentView>
    decreases n,
{
    if n <= 0 {
        seq![]
    } else {
        let before = resolved_components(specs, configs, shas, n - 1);
        match component_config(configs, specs[n - 1]@.name) {
            Some(cfg) => before.push(resolved_model(specs[n - 1]@, cfg@, sha_at(shas, n - 1))),
            None => before,
        }
    }
}

/// Resolves the specs for a dry run, given for each spec, by position, the
/// commit that was found for it. A spec that the configuration lacks is
/// passed over.
pub fn resolve_components(
    specs: &Vec<ComponentSpec>,
    configs: &Vec<(String, ComponentConfig)>,
    shas: &Vec<String>,
) -> (r: Vec<ResolvedComponent>)
    ensures
        seq_view(r@) == resolved_components(
            specs@,
            configs@,
            string_views(shas@),
            specs.len() as int,
        ),
{
    let mut out: Vec<ResolvedComponent> = Vec::new();
    let mut i: usize = 0;
    assert(seq_view(out@) =~= Seq::<ResolvedComponentView>::empty());
    while i < specs.len()
        invariant
            i <= specs.len(),
            seq_view(out@) == resolved_components(specs@, configs@, string_views(shas@), i as int),
        decreases specs.len() - i,
    {
        let spec = &specs[i];
        match find_component(configs, spec.name.as_str()) {
            None => {},
            Some(cfg) => {
                let git_ref = match &spec.git_ref {
                    Some(g) => g.clone(),
                    None => "HEAD".to_owned(),
                };
                let resolved_sha = if i < shas.len() {
                    shas[i].clone()
                } else {
                    "N/A".to_owned()
                };
                let ghost before = seq_view(out@);
                let component = ResolvedComponent {
                    name: spec.name.clone(),
                    repo_url: cfg.repo.clone(),
                    git_ref,
                    resolved_sha,
                    commit_date: None,
                    commit_message: None,
                    as_of_date: None,
                    import_paths: copy_strings(&cfg.import_paths),
                    image_names: image_names_of(&cfg.import_paths),
                };
                assert(component@ == resolved_model(spec@, cfg@, sha_at(string_views(shas@), i as int)));
                out.push(component);
                assert(seq_view(out@) =~= before.push(component@));
            },
        }
        i = i + 1;
    }
    out
}

/// The first twelve characters of a text, or all of it.
pub open spec fn shortened(sha: Seq<char>) -> Seq<char> {
    if sha.len() <= 12 {
        sha
    } else {
        sha.take(12)
    }
}

/// The commit that a listing of remote refs names first, shortened; "N/A"
/// where the listing is empty.
pub open spec fn listed_sha(listing: Seq<char>) -> Seq<char> {
    if lines_of(listing).len() == 0 || first_word(lines_of(listing)[0]).len() == 0 {
        "N/A"@
    } else {
        shortened(first_word(lines_of(listing)[0]))
    }
}

/// Reads the commit out of a listing of remote refs.
pub fn sha_from_listing(listing: &str) -> (r: String)
    ensures
        r@ == listed_sha(listing@),
{
    let all = lines(&to_chars(listing));
    if all.len() == 0 {
        return "N/A".to_owned();
    }
    assert(views(all@)[0] == all@[0]@);
    let word = first_word_of(&all[0]);
    if word.len() == 0 {
        return "N/A".to_owned();
    }
    let text = from_chars(&word);
    short_sha(text.as_str())
}

/// The date whose last commit a spec stands for: the date given for the
/// whole run, else the spec's own; none for a spec with an explicit ref,
/// which goes first.
pub open spec fn lookup_date_model(spec: ComponentSpecView, as_of: Option<Seq<char>>) -> Option<
    Seq<char>,
> {
    if spec.git_ref is Some {
        None
    } else if as_of is Some {
        as_of
    } else {
        spec.as_of_date
    }
}

/// The date whose last commit is to be looked up for a spec.
pub fn lookup_date(spec: &ComponentSpec, as_of: Option<&str>) -> (r: Option<String>)
    ensures
        opt_text(r) == lookup_date_model(
            spec@,
            match as_of {
                Some(d) => Some(d@),
                None => None,
            },
        ),
{
    if spec.git_ref.is_some() {
        None
    } else {
        match as_of {
            Some(d) => Some(d.to_owned()),
            None => match &spec.as_of_date {
                Some(d) => Some(d.clone()),
                None => None,
            },
        }
    }
}

/// A resolved component that stands for the last commit of a date.
pub fn with_commit(
    component: ResolvedComponent,
    date: &str,
    sha: &str,
    commit_date: &str,
    message: &str,
) -> (r: ResolvedComponent)
    ensures
        r@ == (ResolvedComponentView {
            git_ref: "as-of:"@ + date@,
            resolved_sha: shortened(sha@),
            commit_date: Some(commit_date@),
            commit_message: Some(message@),
            as_of_date: Some(date@),
            ..component@
        }),
{
    ResolvedComponent {
        name: component.name,
        repo_url: component.repo_url,
        git_ref: concat2("as-of:", date),
        resolved_sha: short_sha(sha),
        commit_date: Some(commit_date.to_owned()),
        commit_message: Some(message.to_owned()),
        as_of_date: Some(date.to_owned()),
        import_paths: component.import_paths,
        image_names: component.image_names,
    }
}

} // verus!
