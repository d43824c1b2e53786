//! The state that the application keeps: the registry list, what is
//! selected in it, and the settings.
//!
//! The state owns the registry list. The list keeps the order in which
//! registries were added; a registry is known by its identifier.

use crate::models::cache::CacheConfig;
use crate::models::error::Theme;
use crate::models::registry::{registry_views, RegistryConfig, RegistryConfigView};
use crate::text::opt_text;
use vstd::prelude::*;

verus! {

/// The state of the application.
pub struct AppState {
    /// The configured registries, in the order they were added.
    pub registries: Vec<RegistryConfig>,
    /// The identifier of the selected registry.
    pub selected_registry: Option<String>,
    /// The selected repository.
    pub selected_repo: Option<String>,
    /// The selected tag.
    pub selected_tag: Option<String>,
    pub theme: Theme,
    pub cache_config: CacheConfig,
}

/// An `AppState` as mathematics.
pub struct AppStateView {
    pub registries: Seq<RegistryConfigView>,
    pub selected_registry: Option<Seq<char>>,
    pub selected_repo: Option<Seq<char>>,
    pub selected_tag: Option<Seq<char>>,
    pub theme: Theme,
    pub cache_config: CacheConfig,
}

impl View for AppState {
    type V = AppStateView;

    open spec fn view(&self) -> AppStateView {
        AppStateView {
            registries: registry_views(self.registries@),
            selected_registry: opt_text(self.selected_registry),
            selected_repo: opt_text(self.selected_repo),
            selected_tag: opt_text(self.selected_tag),
            theme: self.theme,
            cache_config: self.cache_config,
        }
    }
}

/// The index of the first registry with the identifier `id`, or the length
/// of the list where there is none.
pub open spec fn index_of_id(list: Seq<RegistryConfigView>, id: Seq<char>) -> int
    decreases list.len(),
{
    if list.len() == 0 || list[0].id == id {
        0
    } else {
        1 + index_of_id(list.drop_first(), id)
    }
}

/// The list with its first registry of the identifier `id` replaced by
/// `updated`; the list itself where there is none.
pub open spec fn with_replaced(
    list: Seq<RegistryConfigView>,
    id: Seq<char>,
    updated: RegistryConfigView,
) -> Seq<RegistryConfigView> {
    let i = index_of_id(list, id);
    if 0 <= i < list.len() {
        list.update(i, updated)
    } else {
        list
    }
}

/// The list without the registries of the identifier `id`.
pub open spec fn without_id(list: Seq<RegistryConfigView>, id: Seq<char>) -> Seq<
    RegistryConfigView,
>
    decreases list.len(),
{
    if list.len() == 0 {
        Seq::empty()
    } else if list.last().id == id {
        without_id(list.drop_last(), id)
    } else {
        without_id(list.drop_last(), id).push(list.last())
    }
}

/// The first registry with the identifier `id`.
pub open spec fn registry_with_id(list: Seq<RegistryConfigView>, id: Seq<char>) -> Option<
    RegistryConfigView,
> {
    let i = index_of_id(list, id);
    if 0 <= i < list.len() {
        Some(list[i])
    } else {
        None
    }
}

/// `index_of_id` lies within the list, points at a registry with the
/// identifier unless it is the length, and none before it has the identifier.
pub proof fn lemma_index_of_id(list: Seq<RegistryConfigView>, id: Seq<char>)
    ensures
        0 <= index_of_id(list, id) <= list.len(),
        index_of_id(list, id) < list.len() ==> list[index_of_id(list, id)].id == id,
        forall|j: int| 0 <= j < index_of_id(list, id) ==> (#[trigger] list[j]).id != id,
    decreases list.len(),
{
    if list.len() == 0 || list[0].id == id {
    } else {
        let rest = list.drop_first();
        lemma_index_of_id(rest, id);
        assert forall|j: int| 0 <= j < index_of_id(list, id) implies (#[trigger] list[j]).id
            != id by {
            if j > 0 {
                assert(list[j] == rest[j - 1]);
            }
        }
    }
}

/// An index that points at the first registry with the identifier is
/// `index_of_id`.
pub proof fn lemma_index_of_id_is(list: Seq<RegistryConfigView>, id: Seq<char>, i: int)
    requires
        0 <= i <= list.len(),
        forall|j: int| 0 <= j < i ==> (#[trigger] list[j]).id != id,
        i < list.len() ==> list[i].id == id,
    ensures
        index_of_id(list, id) == i,
{
    lemma_index_of_id(list, id);
    let k = index_of_id(list, id);
    if k < i {
        assert(list[k].id != id);
    } else if i < k {
        assert(list[i].id == id);
    }
}

impl AppState {
    /// The state at the start: no registries, nothing selected, the system
    /// theme and the default cache policy.
    pub fn new() -> (out: Self)
        ensures
            out@ == (AppStateView {
                registries: Seq::empty(),
                selected_registry: None,
                selected_repo: None,
                selected_tag: None,
                theme: Theme::System,
                cache_config: CacheConfig { refresh_interval: 0, max_age: 3600 },
            }),
    {
        let out = AppState {
            registries: Vec::new(),
            selected_registry: None,
            selected_repo: None,
            selected_tag: None,
            theme: Theme::System,
            cache_config: CacheConfig { refresh_interval: 0, max_age: 3600 },
        };
        assert(registry_views(out.registries@) =~= Seq::<RegistryConfigView>::empty());
        out
    }

    /// The state at the start, from what was loaded: whatever could not be
    /// loaded is as at the start.
    pub fn from_loaded<E>(
        registries: Result<Vec<RegistryConfig>, E>,
        theme: Result<Theme, E>,
        cache_config: Result<CacheConfig, E>,
    ) -> (out: Self)
        ensures
            out@ == (AppStateView {
                registries: match registries {
                    Ok(list) => registry_views(list@),
                    Err(_) => Seq::empty(),
                },
                selected_registry: None,
                selected_repo: None,
                selected_tag: None,
                theme: match theme {
                    Ok(loaded) => loaded,
                    Err(_) => Theme::System,
                },
                cache_config: match cache_config {
                    Ok(loaded) => loaded,
                    Err(_) => CacheConfig { refresh_interval: 0, max_age: 3600 },
                },
            }),
    {
        let mut out = AppState::new();
        match registries {
            Ok(list) => {
                out.registries = list;
            },
            Err(_) => {},
        }
        match theme {
            Ok(loaded) => {
                out.theme = loaded;
            },
            Err(_) => {},
        }
        match cache_config {
            Ok(loaded) => {
                out.cache_config = loaded;
            },
            Err(_) => {},
        }
        out
    }

    /// The position of the first registry with the identifier `id`.
    fn position(&self, id: &str) -> (i: usize)
        ensures
            i == index_of_id(self@.registries, id@),
            i <= self.registries@.len(),
    {
        let ghost list = registry_views(self.registries@);
        let owned = id.to_string();
        let mut i: usize = 0;
        while i < self.registries.len()
            invariant
                0 <= i <= self.registries@.len(),
                list == registry_views(self.registries@),
                owned@ == id@,
                forall|j: int| 0 <= j < i ==> (#[trigger] list[j]).id != id@,
            decreases self.registries@.len() - i,
        {
            assert(list[i as int] == self.registries@[i as int]@);
            if self.registries[i].id == owned {
                proof {
                    lemma_index_of_id_is(list, id@, i as int);
                }
                return i;
            }
            i += 1;
        }
        proof {
            lemma_index_of_id_is(list, id@, i as int);
        }
        i
    }

    /// Adds a registry at the end of the list.
    pub fn add_registry(&mut self, registry: RegistryConfig)
        ensures
            final(self)@ == (AppStateView {
                registries: old(self)@.registries.push(registry@),
                ..old(self)@
            }),
    {
        self.registries.push(registry);
        assert(registry_views(self.registries@) =~= registry_views(old(self).registries@).push(
            registry@,
        ));
    }

    /// Replaces the registry with the identifier `id` by `updated`, in its
    /// place in the list. Without such a registry nothing changes.
    pub fn update_registry(&mut self, id: &str, updated: RegistryConfig)
        ensures
            final(self)@ == (AppStateView {
                registries: with_replaced(old(self)@.registries, id@, updated@),
                ..old(self)@
            }),
    {
        let i = self.position(id);
        if i < self.registries.len() {
            self.registries.set(i, updated);
            assert(registry_views(self.registries@) =~= registry_views(
                old(self).registries@,
            ).update(i as int, updated@));
        }
    }

    /// Removes the registry with the identifier `id`. Where it was the
    /// selected one, nothing is selected afterwards.
    pub fn delete_registry(&mut self, id: &str)
        ensures
            final(self)@.registries == without_id(old(self)@.registries, id@),
            final(self)@.theme == old(self)@.theme,
            final(self)@.cache_config == old(self)@.cache_config,
            old(self)@.selected_registry == Some(id@) ==> final(self)@.selected_registry is None
                && final(self)@.selected_repo is None && final(self)@.selected_tag is None,
            old(self)@.selected_registry != Some(id@) ==> final(self)@.selected_registry == old(
                self,
            )@.selected_registry && final(self)@.selected_repo == old(self)@.selected_repo
                && final(self)@.selected_tag == old(self)@.selected_tag,
    {
        let ghost list = registry_views(self.registries@);
        let owned = id.to_string();
        let mut kept: Vec<RegistryConfig> = Vec::new();
        let mut all: Vec<RegistryConfig> = Vec::new();
        core::mem::swap(&mut self.registries, &mut all);
        let mut i: usize = 0;
        assert(list.take(0) =~= Seq::<RegistryConfigView>::empty());
        assert(registry_views(kept@) =~= Seq::<RegistryConfigView>::empty());
        while i < all.len()
            invariant
                0 <= i <= all@.len(),
                list == registry_views(all@),
                owned@ == id@,
                registry_views(kept@) == without_id(list.take(i as int), id@),
            decreases all@.len() - i,
        {
            proof {
                assert(list.take(i + 1).drop_last() =~= list.take(i as int));
                assert(list.take(i + 1).last() == all@[i as int]@);
            }
            if all[i].id != owned {
                let ghost before = kept@;
                let copy = all[i].clone();
                kept.push(copy);
                assert(registry_views(kept@) =~= registry_views(before).push(all@[i as int]@));
            }
            i += 1;
        }
        assert(list.take(all@.len() as int) =~= list);
        self.registries = kept;
        let selected = match &self.selected_registry {
            Some(current) => *current == owned,
            None => false,
        };
        if selected {
            self.selected_registry = None;
            self.selected_repo = None;
            self.selected_tag = None;
        }
    }

    /// The registry with the identifier `id`.
    pub fn get_registry(&self, id: &str) -> (r: Option<RegistryConfig>)
        ensures
            crate::storage::records::opt_registry(r) == registry_with_id(self@.registries, id@),
    {
        let i = self.position(id);
        if i < self.registries.len() {
            assert(self@.registries[i as int] == self.registries@[i as int]@);
            Some(self.registries[i].clone())
        } else {
            None
        }
    }

    /// Selects a registry, or none; repository and tag are selected no
    /// longer.
    pub fn select_registry(&mut self, id: Option<String>)
        ensures
            final(self)@ == (AppStateView {
                selected_registry: opt_text(id),
                selected_repo: None,
                selected_tag: None,
                ..old(self)@
            }),
    {
        self.selected_registry = id;
        self.selected_repo = None;
        self.selected_tag = None;
    }

    /// Selects a repository, or none; the tag is selected no longer.
    pub fn select_repo(&mut self, repo: Option<String>)
        ensures
            final(self)@ == (AppStateView {
                selected_repo: opt_text(repo),
                selected_tag: None,
                ..old(self)@
            }),
    {
        self.selected_repo = repo;
        self.selected_tag = None;
    }

    /// Selects a tag, or none.
    pub fn select_tag(&mut self, tag: Option<String>)
        ensures
            final(self)@ == (AppStateView { selected_tag: opt_text(tag), ..old(self)@ }),
    {
        self.selected_tag = tag;
    }

    /// Sets the theme.
    pub fn set_theme(&mut self, new_theme: Theme)
        ensures
            final(self)@ == (AppStateView { theme: new_theme, ..old(self)@ }),
    {
        self.theme = new_theme;
    }

    /// Sets the cache policy.
    pub fn set_cache_config(&mut self, config: CacheConfig)
        ensures
            final(self)@ == (AppStateView { cache_config: config, ..old(self)@ }),
    {
        self.cache_config = config;
    }
}

impl Default for AppState {
    fn default() -> (out: Self)
        ensures
            out@ == (AppStateView {
                registries: Seq::empty(),
                selected_registry: None,
                selected_repo: None,
                selected_tag: None,
                theme: Theme::System,
                cache_config: CacheConfig { refresh_interval: 0, max_age: 3600 },
            }),
    {
        AppState::new()
    }
}

} // verus!
