//! What the application shows and asks: the decisions behind its lists,
//! forms and messages, without the widgets.

use crate::api::batch::DeletionResult;
use crate::models::error::Theme;
use crate::models::manifest::{tag_views, TagInfo, TagInfoView};
use crate::models::registry::{
    strip_trailing_slash, AuthConfig, AuthConfigView, ConnectionStatus, ConnectionStatusView,
    RegistryConfig, RegistryConfigView,
};
use crate::text::{
    chars_of, contains_text, decimal, decimal_string, lowercase, same_text, string_of, texts,
    to_lowercase,
};
use crate::utils::filter::passes;
use vstd::prelude::*;

verus! {

/// The tags of the names given, of which neither digest nor size is known.
pub open spec fn named_tags(names: Seq<Seq<char>>) -> Seq<TagInfoView> {
    Seq::new(names.len(), |i: int| TagInfoView { name: names[i], digest: Seq::empty(), size: 0 })
}

/// The names of a tag list, which may be absent.
pub open spec fn listed_names(tags: Option<Vec<String>>) -> Seq<Seq<char>> {
    match tags {
        Some(names) => texts(names@),
        None => Seq::empty(),
    }
}

/// The tags to show for a tag list: one for each name, none for a list that
/// is absent.
pub fn tag_infos(tags: Option<Vec<String>>) -> (out: Vec<TagInfo>)
    ensures
        tag_views(out@) == named_tags(listed_names(tags)),
{
    let mut out: Vec<TagInfo> = Vec::new();
    match tags {
        Some(names) => {
            let mut i: usize = 0;
            while i < names.len()
                invariant
                    0 <= i <= names@.len(),
                    out@.len() == i,
                    forall|j: int|
                        0 <= j < i ==> (#[trigger] out@[j])@ == (TagInfoView {
                            name: names@[j]@,
                            digest: Seq::empty(),
                            size: 0,
                        }),
                decreases names@.len() - i,
            {
                out.push(TagInfo { name: names[i].clone(), digest: String::new(), size: 0 });
                i += 1;
            }
            assert(tag_views(out@) =~= named_tags(texts(names@)));
        },
        None => {
            assert(tag_views(out@) =~= named_tags(Seq::<Seq<char>>::empty()));
        },
    }
    out
}

/// The tags whose names pass the search, in their order.
pub open spec fn filtered_tags(tags: Seq<TagInfoView>, search: Seq<char>) -> Seq<TagInfoView>
    decreases tags.len(),
{
    if tags.len() == 0 {
        Seq::empty()
    } else if passes(tags.last().name, search) {
        filtered_tags(tags.drop_last(), search).push(tags.last())
    } else {
        filtered_tags(tags.drop_last(), search)
    }
}

/// The tags whose names hold `search`, whatever the case of letters; all
/// tags for the empty search.
pub fn filter_tags(tags: &[TagInfo], search: &str) -> (out: Vec<TagInfo>)
    ensures
        tag_views(out@) == filtered_tags(tag_views(tags@), search@),
{
    let ghost all = tag_views(tags@);
    let wanted = to_lowercase(search);
    let mut out: Vec<TagInfo> = Vec::new();
    let mut i: usize = 0;
    assert(all.take(0) =~= Seq::<TagInfoView>::empty());
    assert(tag_views(out@) =~= Seq::<TagInfoView>::empty());
    while i < tags.len()
        invariant
            0 <= i <= tags@.len(),
            all == tag_views(tags@),
            wanted@ == lowercase(search@),
            tag_views(out@) == filtered_tags(all.take(i as int), search@),
        decreases tags@.len() - i,
    {
        proof {
            assert(all.take(i + 1).drop_last() =~= all.take(i as int));
            assert(all.take(i + 1).last() == tags@[i as int]@);
        }
        let keep = if search.is_empty() {
            true
        } else {
            let lowered = to_lowercase(tags[i].name.as_str());
            contains_text(lowered.as_str(), wanted.as_str())
        };
        if keep {
            let ghost before = out@;
            let copy = TagInfo {
                name: tags[i].name.clone(),
                digest: tags[i].digest.clone(),
                size: tags[i].size,
            };
            out.push(copy);
            assert(tag_views(out@) =~= tag_views(before).push(tags@[i as int]@));
        }
        i += 1;
    }
    assert(all.take(tags@.len() as int) =~= all);
    out
}

/// The names without those equal to `name`.
pub open spec fn without_name(names: Seq<Seq<char>>, name: Seq<char>) -> Seq<Seq<char>>
    decreases names.len(),
{
    if names.len() == 0 {
        Seq::empty()
    } else if names.last() == name {
        without_name(names.drop_last(), name)
    } else {
        without_name(names.drop_last(), name).push(names.last())
    }
}

/// The selection after `name` was toggled: without it where it was
/// selected, else with it at the end.
pub open spec fn toggled(selected: Seq<Seq<char>>, name: Seq<char>) -> Seq<Seq<char>> {
    if selected.contains(name) {
        without_name(selected, name)
    } else {
        selected.push(name)
    }
}

/// Taking out a name that is not in the list changes nothing.
proof fn lemma_without_absent_name(names: Seq<Seq<char>>, name: Seq<char>)
    requires
        !names.contains(name),
    ensures
        without_name(names, name) == names,
    decreases names.len(),
{
    if names.len() > 0 {
        let rest = names.drop_last();
        assert(names[names.len() - 1] != name);
        assert forall|i: int| 0 <= i < rest.len() implies rest[i] != name by {
            assert(rest[i] == names[i]);
        }
        lemma_without_absent_name(rest, name);
        assert(without_name(names, name) =~= names);
    } else {
        assert(without_name(names, name) =~= names);
    }
}

/// Taking a name out never lengthens the list, and shortens it where the
/// name was in it.
proof fn lemma_without_name_shrinks(names: Seq<Seq<char>>, name: Seq<char>)
    ensures
        without_name(names, name).len() <= names.len(),
        names.contains(name) ==> without_name(names, name).len() < names.len(),
    decreases names.len(),
{
    if names.len() > 0 {
        lemma_without_name_shrinks(names.drop_last(), name);
        if names.contains(name) && names.last() != name {
            let i = choose|i: int| 0 <= i < names.len() && names[i] == name;
            assert(names.drop_last()[i] == name);
        }
    }
}

/// Toggles whether `name` is selected.
pub fn toggle_selection(selected: &mut Vec<String>, name: String)
    ensures
        texts(final(selected)@) == toggled(texts(old(selected)@), name@),
{
    let ghost all = texts(selected@);
    let mut kept: Vec<String> = Vec::new();
    let mut i: usize = 0;
    assert(all.take(0) =~= Seq::<Seq<char>>::empty());
    assert(texts(kept@) =~= Seq::<Seq<char>>::empty());
    while i < selected.len()
        invariant
            0 <= i <= selected@.len(),
            all == texts(selected@),
            texts(kept@) == without_name(all.take(i as int), name@),
        decreases selected@.len() - i,
    {
        proof {
            assert(all.take(i + 1).drop_last() =~= all.take(i as int));
            assert(all.take(i + 1).last() == selected@[i as int]@);
        }
        if selected[i] != name {
            let ghost before = kept@;
            kept.push(selected[i].clone());
            assert(texts(kept@) =~= texts(before).push(selected@[i as int]@));
        }
        i += 1;
    }
    assert(all.take(selected@.len() as int) =~= all);
    proof {
        lemma_without_name_shrinks(all, name@);
        assert(texts(kept@).len() == kept@.len());
        if !all.contains(name@) {
            lemma_without_absent_name(all, name@);
        }
    }
    if kept.len() == selected.len() {
        let ghost before = kept@;
        kept.push(name);
        assert(texts(kept@) =~= texts(before).push(name@));
    }
    *selected = kept;
}

/// A digest as a list shows it: the whole of it up to `limit` characters,
/// else its first `limit` characters and three dots.
pub open spec fn shortened(digest: Seq<char>, limit: int) -> Seq<char> {
    if digest.len() > limit {
        digest.take(limit) + "..."@
    } else {
        digest
    }
}

/// A digest shortened to `limit` characters.
pub fn shorten_digest(digest: &str, limit: usize) -> (out: String)
    ensures
        out@ == shortened(digest@, limit as int),
{
    let chars = chars_of(digest);
    if chars.len() > limit {
        let mut out = string_of(&chars, 0, limit);
        assert(chars@.subrange(0, limit as int) =~= digest@.take(limit as int));
        out.append("...");
        out
    } else {
        digest.to_string()
    }
}

/// A digest as the manifest view shows it: shortened to 24 characters.
pub fn truncate_digest(digest: &str) -> (out: String)
    ensures
        out@ == shortened(digest@, 24),
{
    shorten_digest(digest, 24)
}

/// The class of the indicator for a connection status.
pub fn status_class(status: &ConnectionStatus) -> (out: &'static str)
    ensures
        out@ == match status@ {
            ConnectionStatusView::Connected => "connected"@,
            ConnectionStatusView::Disconnected => "disconnected"@,
            ConnectionStatusView::Error(_) => "error"@,
            ConnectionStatusView::Unknown => "unknown"@,
        },
{
    match status {
        ConnectionStatus::Connected => "connected",
        ConnectionStatus::Disconnected => "disconnected",
        ConnectionStatus::Error(_) => "error",
        ConnectionStatus::Unknown => "unknown",
    }
}

/// The name of a theme as the page and the settings form spell it.
pub open spec fn theme_choice(theme: Theme) -> Seq<char> {
    match theme {
        Theme::Light => "light"@,
        Theme::Dark => "dark"@,
        Theme::System => "system"@,
    }
}

/// The name of a theme as the page and the settings form spell it.
pub fn theme_class(theme: Theme) -> (out: &'static str)
    ensures
        out@ == theme_choice(theme),
{
    match theme {
        Theme::Light => "light",
        Theme::Dark => "dark",
        Theme::System => "system",
    }
}

/// The theme that a choice in the settings form stands for: the system
/// theme for a choice that is neither `light` nor `dark`.
pub fn theme_from_choice(choice: &str) -> (out: Theme)
    ensures
        out == (if choice@ == "light"@ {
            Theme::Light
        } else if choice@ == "dark"@ {
            Theme::Dark
        } else {
            Theme::System
        }),
{
    if same_text(choice, "light") {
        Theme::Light
    } else if same_text(choice, "dark") {
        Theme::Dark
    } else {
        Theme::System
    }
}

/// The theme that follows when the theme is toggled: light, dark, system,
/// and light again.
pub fn next_theme(theme: Theme) -> (out: Theme)
    ensures
        out == match theme {
            Theme::Light => Theme::Dark,
            Theme::Dark => Theme::System,
            Theme::System => Theme::Light,
        },
{
    match theme {
        Theme::Light => Theme::Dark,
        Theme::Dark => Theme::System,
        Theme::System => Theme::Light,
    }
}

/// The kind of credentials as the registry form names it.
pub fn auth_kind(auth: &AuthConfig) -> (out: &'static str)
    ensures
        out@ == match auth@ {
            AuthConfigView::Anonymous => "anonymous"@,
            AuthConfigView::BasicAuth { .. } => "basic"@,
            AuthConfigView::BearerToken { .. } => "bearer"@,
            AuthConfigView::TlsCert { .. } => "tls"@,
        },
{
    match auth {
        AuthConfig::Anonymous => "anonymous",
        AuthConfig::BasicAuth { .. } => "basic",
        AuthConfig::BearerToken { .. } => "bearer",
        AuthConfig::TlsCert { .. } => "tls",
    }
}

/// The credentials that the registry form stands for.
pub open spec fn form_auth(
    kind: Seq<char>,
    username: Seq<char>,
    password: Seq<char>,
    token: Seq<char>,
) -> AuthConfigView {
    if kind == "basic"@ {
        AuthConfigView::BasicAuth { username, password, encrypted_password: Seq::empty() }
    } else if kind == "bearer"@ {
        AuthConfigView::BearerToken { token, encrypted_token: Seq::empty() }
    } else {
        AuthConfigView::Anonymous
    }
}

/// The credentials that the registry form stands for: Basic or bearer
/// credentials in plain text, and no credentials for any other kind.
pub fn auth_from_form(kind: &str, username: String, password: String, token: String) -> (out:
    AuthConfig)
    ensures
        out@ == form_auth(kind@, username@, password@, token@),
{
    if same_text(kind, "basic") {
        AuthConfig::BasicAuth { username, password, encrypted_password: String::new() }
    } else if same_text(kind, "bearer") {
        AuthConfig::BearerToken { token, encrypted_token: String::new() }
    } else {
        AuthConfig::Anonymous
    }
}

/// The configuration that the registry form stands for: the edited one
/// under its identifier, or a new one under an identifier of its own.
pub fn registry_from_form(
    editing_id: Option<String>,
    name: String,
    url: String,
    auth: AuthConfig,
) -> (out: RegistryConfig)
    ensures
        out@ == (RegistryConfigView {
            id: out@.id,
            name: name@,
            url: strip_trailing_slash(url@),
            auth: auth@,
            status: ConnectionStatusView::Unknown,
        }),
        editing_id matches Some(id) ==> out@.id == id@,
{
    match editing_id {
        Some(id) => RegistryConfig::with_id(id, name, url, auth),
        None => RegistryConfig::new(name, url, auth),
    }
}

/// The message after the tags of a repository were deleted.
pub open spec fn repository_status(deleted: nat, failed: nat) -> Seq<char> {
    if failed == 0 {
        "Deleted "@ + decimal(deleted) + " tags successfully"@
    } else {
        "Deleted "@ + decimal(deleted) + ", "@ + decimal(failed) + " failed"@
    }
}

/// The message after the tags of a repository were deleted.
pub fn repository_deletion_status(result: &DeletionResult) -> (out: String)
    ensures
        out@ == repository_status(result.deleted as nat, result.failed as nat),
{
    let mut out = "Deleted ".to_string();
    out.append(decimal_string(result.deleted as u64).as_str());
    if result.failed == 0 {
        out.append(" tags successfully");
    } else {
        out.append(", ");
        out.append(decimal_string(result.failed as u64).as_str());
        out.append(" failed");
    }
    out
}

/// The message after selected tags were deleted.
pub open spec fn tags_status(deleted: nat, errors: nat) -> Seq<char> {
    if errors == 0 {
        "Deleted "@ + decimal(deleted) + " tags"@
    } else {
        "Deleted "@ + decimal(deleted) + ", "@ + decimal(errors) + " errors"@
    }
}

/// The message after selected tags were deleted.
pub fn tags_deletion_status(result: &DeletionResult) -> (out: String)
    ensures
        out@ == tags_status(result.deleted as nat, result.errors@.len()),
{
    let mut out = "Deleted ".to_string();
    out.append(decimal_string(result.deleted as u64).as_str());
    if result.errors.len() == 0 {
        out.append(" tags");
    } else {
        out.append(", ");
        out.append(decimal_string(result.errors.len() as u64).as_str());
        out.append(" errors");
    }
    out
}

/// How much of a batch is done, in percent of its size; of a batch of no
/// size, in percent of one.
pub fn progress_percent(progress: usize, total: usize) -> (out: usize)
    requires
        progress * 100 <= usize::MAX,
    ensures
        out == (progress * 100) / (if total == 0 {
            1int
        } else {
            total as int
        }),
{
    let whole: usize = if total == 0 {
        1
    } else {
        total
    };
    (progress * 100) / whole
}

/// How many items a preview of `shown` items leaves out, if any.
pub fn left_out(total: usize, shown: usize) -> (out: Option<usize>)
    ensures
        out == (if total > shown {
            Some((total - shown) as usize)
        } else {
            None
        }),
{
    if total > shown {
        Some(total - shown)
    } else {
        None
    }
}

} // verus!
