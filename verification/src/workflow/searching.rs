//! Searching for a profile and picking one.

use vstd::prelude::*;

use crate::domain::profile::{all_models, first_named, is_named, matching_names, profiles, Profile,
    ProfileSliceExt, ProfileView};
use crate::domain::target::target_text;
use crate::requests::{KeyView, PickView, ProfileData, ProfileSearchKeyData, SearchKey};
use crate::session::AppCore;
use crate::state::{profile_reset, switched, AppState, StateView, Task, UIState};
use crate::text::case::lowercase;
use crate::text::scan::{chars_of, trimmed};

verus! {

/// The characters that a query has at least.
pub const MIN_SEARCH_CHARS: usize = 3;

/// The names that a query finds; a short query finds none.
pub open spec fn found_names(s: Seq<ProfileView>, query: Seq<char>) -> Seq<Seq<char>> {
    if query.len() >= MIN_SEARCH_CHARS {
        matching_names(s, lowercase(trimmed(query)))
    } else {
        seq![]
    }
}

/// The window after the query was edited.
pub open spec fn search_shown(s: StateView, names: Seq<Seq<char>>) -> StateView {
    StateView {
        current_highlighted_profile_index: (-1) as i32,
        profiles: names,
        ..profile_reset(s)
    }
}

/// Shows the names that a query finds, and that no profile is selected.
pub fn profile_search(state: &mut AppState, core: &AppCore, query: &str)
    ensures
        final(state)@ == search_shown(
            old(state)@,
            found_names(profiles(core.profiles@), query@),
        ),
{
    let ghost want = search_shown(state@, found_names(profiles(core.profiles@), query@));
    state.reset_profile();
    state.current_highlighted_profile_index = -1;
    let filtered: Vec<String> = if chars_of(query).len() >= MIN_SEARCH_CHARS {
        core.profiles.as_slice().filter(query)
    } else {
        Vec::new()
    };
    state.profiles = filtered;
    assert(state@ =~= want);
}

/// What a key does.
pub enum KeyAction {
    /// Nothing; the key is left to others.
    Ignore,
    /// Another name is highlighted.
    Highlight(i32),
    /// The highlighted name is picked.
    Pick(ProfileData),
}

/// What a [`KeyAction`] holds.
pub enum ActionView {
    Ignore,
    Highlight(int),
    Pick(PickView),
}

impl View for KeyAction {
    type V = ActionView;

    open spec fn view(&self) -> ActionView {
        match *self {
            KeyAction::Ignore => ActionView::Ignore,
            KeyAction::Highlight(i) => ActionView::Highlight(i as int),
            KeyAction::Pick(p) => ActionView::Pick(p@),
        }
    }
}

/// What a key does in the profile search.
pub open spec fn key_action(d: KeyView) -> ActionView {
    let count = d.profiles.len() as int;
    match d.key {
        SearchKey::Down => if count == 0 {
            ActionView::Ignore
        } else {
            ActionView::Highlight(next_index(d.index as int, count))
        },
        SearchKey::Up => if count == 0 {
            ActionView::Ignore
        } else {
            ActionView::Highlight(previous_index(d.index as int, count))
        },
        SearchKey::Return => if 0 <= d.index < count {
            ActionView::Pick(PickView { version: d.version, name: d.profiles[d.index as int] })
        } else {
            ActionView::Ignore
        },
        SearchKey::Other => ActionView::Ignore,
    }
}

/// The remainder of a division towards zero.
pub open spec fn remainder(a: int, b: int) -> int {
    if a >= 0 {
        a % b
    } else {
        -((-a) % b)
    }
}

/// The name after the highlighted one; after the last comes the first.
pub open spec fn next_index(index: int, count: int) -> int {
    remainder(index + 1, count)
}

/// The name before the highlighted one; before the first comes the last.
pub open spec fn previous_index(index: int, count: int) -> int {
    if index <= 0 {
        count - 1
    } else {
        index - 1
    }
}

/// What a key does in the profile search.
pub fn search_key_pressed(data: &ProfileSearchKeyData) -> (r: KeyAction)
    requires
        data.key is Down && data.profiles@.len() > 0 ==> data.index < i32::MAX,
        data.profiles@.len() <= i32::MAX,
    ensures
        match data.key {
            SearchKey::Down => if data@.profiles.len() == 0 {
                r is Ignore
            } else {
                r matches KeyAction::Highlight(i) && i == next_index(
                    data@.index as int,
                    data@.profiles.len() as int,
                )
            },
            SearchKey::Up => if data@.profiles.len() == 0 {
                r is Ignore
            } else {
                r matches KeyAction::Highlight(i) && i == previous_index(
                    data@.index as int,
                    data@.profiles.len() as int,
                )
            },
            SearchKey::Return => if 0 <= data@.index < data@.profiles.len() {
                r matches KeyAction::Pick(p) && p@ == (PickView {
                    version: data@.version,
                    name: data@.profiles[data@.index as int],
                })
            } else {
                r is Ignore
            },
            SearchKey::Other => r is Ignore,
        },
        r@ == key_action(data@),
{
    let count: usize = data.profiles.len();
    assert(data@.profiles.len() == count);
    if count == 0 {
        return KeyAction::Ignore;
    }
    let count: i32 = count as i32;
    let current: i32 = data.index;
    match data.key {
        SearchKey::Down => {
            let next: i32 = current + 1;
            if next >= 0 {
                KeyAction::Highlight(next % count)
            } else {
                let back: i32 = 0 - next;
                KeyAction::Highlight(0 - back % count)
            }
        },
        SearchKey::Up => KeyAction::Highlight(
            if current <= 0 {
                count - 1
            } else {
                current - 1
            },
        ),
        SearchKey::Return => if current >= 0 && current < count {
            let i: usize = current as usize;
            assert(data@.profiles[i as int] == data.profiles@[i as int]@);
            KeyAction::Pick(
                ProfileData { version: data.version.clone(), name: data.profiles[i].clone() },
            )
        } else {
            KeyAction::Ignore
        },
        SearchKey::Other => KeyAction::Ignore,
    }
}

/// Highlights a name.
pub fn highlight(state: &mut AppState, index: i32)
    ensures
        final(state)@ == (StateView {
            current_highlighted_profile_index: index,
            ..old(state)@
        }),
{
    let ghost s0 = state@;
    state.current_highlighted_profile_index = index;
    assert(state@ =~= (StateView { current_highlighted_profile_index: index, ..s0 }));
}

/// The window after a profile was picked.
pub open spec fn picked(s: StateView, name: Seq<char>, p: ProfileView) -> StateView {
    switched(
        StateView {
            profiles: seq![],
            search_text: name,
            selected_id: p.id,
            selected_target: target_text(p.target),
            selected_model: all_models(p),
            ..s
        },
        Task::Busy { name: "Fetching package list"@, bar: true },
    )
}

/// Shows the profile that was picked by its display name. Gives the profile, or
/// nothing where no profile has the name.
pub fn profile_selected(state: &mut AppState, core: &AppCore, data: &ProfileData) -> (r: Option<
    Profile,
>)
    ensures
        match r {
            Some(p) => final(state)@ == picked(old(state)@, data@.name, p@) && is_named(
                p@,
                lowercase(trimmed(data@.name)),
            ) && exists|k: int|
                0 <= k < core.profiles@.len() && p@ == (#[trigger] profiles(core.profiles@)[k])
                    && forall|j: int|
                    0 <= j < k ==> !is_named(
                        #[trigger] profiles(core.profiles@)[j],
                        lowercase(trimmed(data@.name)),
                    ),
            None => final(state)@ == old(state)@ && forall|j: int|
                0 <= j < core.profiles@.len() ==> !is_named(
                    #[trigger] profiles(core.profiles@)[j],
                    lowercase(trimmed(data@.name)),
                ),
        },
        match first_named(profiles(core.profiles@), lowercase(trimmed(data@.name)), 0) {
            Some(p) => r matches Some(q) && q@ == p,
            None => r is None,
        },
{
    match core.profiles.as_slice().find_by_display_name(data.name.as_str()) {
        Some(profile) => {
            let ghost s0 = state@;
            state.profiles = Vec::new();
            state.search_text = data.name.clone();
            state.selected_id = profile.id.to_string();
            state.selected_target = profile.target.to_string();
            state.selected_model = profile.format_all_models();
            assert(state@ =~= (StateView {
                profiles: seq![],
                search_text: data@.name,
                selected_id: profile@.id,
                selected_target: target_text(profile@.target),
                selected_model: all_models(profile@),
                ..s0
            }));
            state.switch_to(UIState::FetchingPackages);
            Some(profile)
        },
        None => None,
    }
}

/// The next of the name before is the name itself, and the other way round.
pub proof fn law_highlight(index: int, count: int)
    requires
        0 <= index < count,
    ensures
        0 <= next_index(index, count) < count,
        0 <= previous_index(index, count) < count,
        next_index(previous_index(index, count), count) == index,
        previous_index(next_index(index, count), count) == index,
{
    if index == count - 1 {
        assert(count % count == 0) by (nonlinear_arith)
            requires
                count > 0,
        ;
    } else {
        vstd::arithmetic::div_mod::lemma_small_mod((index + 1) as nat, count as nat);
    }
    vstd::arithmetic::div_mod::lemma_small_mod(index as nat, count as nat);
    if index == 0 {
        assert(count % count == 0) by (nonlinear_arith)
            requires
                count > 0,
        ;
    }
}

/// With nothing highlighted, the next name is the first and the one before is
/// the last.
pub proof fn law_no_highlight(count: int)
    requires
        count > 0,
    ensures
        next_index(-1, count) == 0,
        previous_index(-1, count) == count - 1,
{
    vstd::arithmetic::div_mod::lemma_small_mod(0, count as nat);
}

/// A query of three characters or more finds what matches it, without the white
/// space around it and in lower case; a shorter one finds nothing.
pub proof fn law_found_names(s: Seq<ProfileView>, query: Seq<char>)
    ensures
        query.len() >= 3 ==> found_names(s, query) == matching_names(s, lowercase(trimmed(query))),
        query.len() < 3 ==> found_names(s, query) == Seq::<Seq<char>>::empty(),
{
}

/// An edited query shows the names it finds, with none highlighted, and clears
/// the profile that was selected; the query itself and the versions stay.
pub proof fn law_search_shown(s: StateView, names: Seq<Seq<char>>)
    ensures
        search_shown(s, names).profiles == names,
        search_shown(s, names).current_highlighted_profile_index == -1,
        search_shown(s, names).selected_id.len() == 0,
        search_shown(s, names).packages_text.len() == 0,
        !search_shown(s, names).image_exists,
        search_shown(s, names).search_text == s.search_text,
        search_shown(s, names).versions == s.versions,
        search_shown(s, names).selected_version == s.selected_version,
{
}

/// Picking a profile shows its name, its identifier, its target and its models,
/// each in its own place, while its packages are being fetched.
pub proof fn law_picked(s: StateView, name: Seq<char>, p: ProfileView)
    ensures
        ({
            let w = picked(s, name, p);
            &&& w.search_text == name
            &&& w.selected_id == p.id
            &&& w.selected_target == target_text(p.target)
            &&& w.selected_model == all_models(p)
            &&& w.profiles.len() == 0
            &&& w.busy && w.status_text == "Fetching package list"@
            &&& w.selected_version == s.selected_version && w.versions == s.versions
            &&& w.packages_text == s.packages_text && w.image_exists == s.image_exists
        }),
{
}

/// The highlight moves by one place, and from the end of the list to its other
/// end.
pub proof fn law_highlight_moves(index: int, count: int)
    requires
        0 <= index < count,
    ensures
        index < count - 1 ==> next_index(index, count) == index + 1,
        index == count - 1 ==> next_index(index, count) == 0,
        index > 0 ==> previous_index(index, count) == index - 1,
        index == 0 ==> previous_index(index, count) == count - 1,
{
    if index < count - 1 {
        vstd::arithmetic::div_mod::lemma_small_mod((index + 1) as nat, count as nat);
    } else {
        assert(count % count == 0) by (nonlinear_arith)
            requires
                count > 0,
        ;
    }
}

/// The arrow keys move the highlight through the names, down to the next and up
/// to the one before; return picks the highlighted name, for the version at
/// hand; every other key is left to others.
pub proof fn law_keys(profiles: Seq<Seq<char>>, index: i32, version: Seq<char>)
    requires
        0 <= index < profiles.len(),
    ensures
        key_action(KeyView { profiles, index, key: SearchKey::Return, version })
            == ActionView::Pick(PickView { version, name: profiles[index as int] }),
        index + 1 < profiles.len() ==> key_action(
            KeyView { profiles, index, key: SearchKey::Down, version },
        ) == ActionView::Highlight(index + 1),
        index + 1 == profiles.len() ==> key_action(
            KeyView { profiles, index, key: SearchKey::Down, version },
        ) == ActionView::Highlight(0),
        index > 0 ==> key_action(KeyView { profiles, index, key: SearchKey::Up, version })
            == ActionView::Highlight(index - 1),
        index == 0 ==> key_action(KeyView { profiles, index, key: SearchKey::Up, version })
            == ActionView::Highlight(profiles.len() - 1),
        key_action(KeyView { profiles, index, key: SearchKey::Other, version }) is Ignore,
{
    law_highlight_moves(index as int, profiles.len() as int);
}

/// Without names, or with none highlighted, return picks nothing; without names
/// the arrow keys do nothing, and with none highlighted they go to the first and
/// the last.
pub proof fn law_keys_at_ends(profiles: Seq<Seq<char>>, index: i32, version: Seq<char>)
    ensures
        index < 0 || index >= profiles.len() ==> key_action(
            KeyView { profiles, index, key: SearchKey::Return, version },
        ) is Ignore,
        profiles.len() == 0 ==> key_action(
            KeyView { profiles, index, key: SearchKey::Down, version },
        ) is Ignore && key_action(KeyView { profiles, index, key: SearchKey::Up, version }) is Ignore,
        profiles.len() > 0 && index == -1 ==> key_action(
            KeyView { profiles, index, key: SearchKey::Down, version },
        ) == ActionView::Highlight(0) && key_action(
            KeyView { profiles, index, key: SearchKey::Up, version },
        ) == ActionView::Highlight(profiles.len() - 1),
{
    if profiles.len() > 0 {
        law_no_highlight(profiles.len() as int);
    }
}

/// The remainder of a number that is not negative is the usual one; that of a
/// negative number is not above zero. From a place far before the first name
/// the next one is one place nearer.
pub proof fn law_remainder(index: int, count: int)
    requires
        count > 0,
    ensures
        index >= 0 ==> remainder(index, count) == index % count,
        index < 0 ==> -count < remainder(index, count) <= 0,
        index < 0 ==> (index - remainder(index, count)) % count == 0,
        -count < index < 0 ==> next_index(index - 1, count) == index,
        index < 0 ==> previous_index(index, count) == count - 1,
{
    if index < 0 {
        vstd::arithmetic::div_mod::lemma_fundamental_div_mod(-index, count);
        vstd::arithmetic::div_mod::lemma_mod_bound(-index, count);
        let q = (-index) / count;
        assert(index - remainder(index, count) == (-q) * count) by (nonlinear_arith)
            requires
                -index == count * q + (-index) % count,
                remainder(index, count) == -((-index) % count),
        ;
        vstd::arithmetic::div_mod::lemma_mod_multiples_basic(-q, count);
        if -count < index {
            vstd::arithmetic::div_mod::lemma_small_mod((-index) as nat, count as nat);
        }
    }
}

} // verus!
