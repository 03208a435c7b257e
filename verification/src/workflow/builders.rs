//! The list of downloaded image builders.

use vstd::prelude::*;

use super::images::{failed, show_failure};
use crate::domain::target::{body_parts, law_image_tag_round_trip, law_target_order, slug_target,
    tag_body, tag_text, target_lt, target_text, ImageTag, Target, TargetView};
use crate::domain::version::{law_version_order, version_lt, version_of, version_text, Version};
use crate::state::{items, log_text, notified, switched, AppState, ImageBuilderItem, ItemView,
    LogLine, Notification, StateView, Task, UIState};
use crate::text::order::{before, law_text_order, text_lt};
use crate::text::scan::joined;
use crate::text::sort::{law_sorted_holds, sorts, stable_sort, stably_sorted, Ranked};

verus! {

/// What a tag names: a version and a target, or nothing.
pub open spec fn tag_names(tag: Seq<char>) -> Option<(Version, TargetView)> {
    match tag_body(tag) {
        Some(body) => match body_parts(body) {
            Some((slug, version)) => Some((version_of(version), slug_target(slug))),
            None => None,
        },
        None => None,
    }
}

/// What a tag names: a version and a target, or nothing.
pub fn named_by(tag: &ImageTag) -> (r: Option<(Version, Target)>)
    ensures
        match r {
            Some((v, t)) => tag_names(tag@) == Some((v, t@)),
            None => tag_names(tag@) is None,
        },
{
    match (Target::try_from(tag), Version::try_from(tag)) {
        (Ok(target), Ok(version)) => Some((version, target)),
        _ => None,
    }
}

/// How a downloaded image builder is listed. One whose tag names no version is
/// listed by its tag.
pub open spec fn listed(tag: Seq<char>, size: Seq<char>) -> ItemView {
    match tag_names(tag) {
        Some((v, t)) => ItemView {
            tag,
            version: version_text(v),
            target: target_text(t),
            size,
        },
        None => ItemView { tag, version: tag, target: seq![], size },
    }
}

/// A listed image builder, with what its tag names.
pub struct ListedBuilder {
    pub key: Option<(Version, Target)>,
    pub item: ImageBuilderItem,
}

/// Downloaded image builders and their sizes, as texts.
pub open spec fn downloaded(v: Seq<(String, String)>) -> Seq<(Seq<char>, Seq<char>)> {
    v.map_values(|p: (String, String)| (p.0@, p.1@))
}

impl ListedBuilder {
    /// The key is what the tag names.
    pub open spec fn wf(self) -> bool {
        tag_names(self.item.tag@) == match self.key {
            Some((v, t)) => Some((v, t@)),
            None => None,
        }
    }

    /// An image builder with its size.
    pub fn new(tag: &str, size: &str) -> (r: ListedBuilder)
        ensures
            r.wf(),
            r.item@ == listed(tag@, size@),
    {
        let image_tag: ImageTag = ImageTag::from(tag);
        match named_by(&image_tag) {
            Some((version, target)) => {
                let item = ImageBuilderItem {
                    tag: tag.to_string(),
                    version: version.to_string(),
                    target: target.to_string(),
                    size: size.to_string(),
                };
                ListedBuilder { key: Some((version, target)), item }
            },
            None => {
                let item = ImageBuilderItem {
                    tag: tag.to_string(),
                    version: tag.to_string(),
                    target: String::new(),
                    size: size.to_string(),
                };
                assert(item@.target =~= Seq::<char>::empty());
                ListedBuilder { key: None, item }
            },
        }
    }
}

/// One image builder is listed before another: those that name a version first,
/// the newest version first, then by target; the others by tag.
pub open spec fn listed_before(
    a: Option<(Version, TargetView)>,
    a_tag: Seq<char>,
    b: Option<(Version, TargetView)>,
    b_tag: Seq<char>,
) -> bool {
    match (a, b) {
        (Some((va, ta)), Some((vb, tb))) => version_lt(vb, va) || (va == vb && target_lt(ta, tb)),
        (Some(_), None) => true,
        (None, Some(_)) => false,
        (None, None) => text_lt(a_tag, b_tag),
    }
}

/// What the key of a listed image builder holds.
pub open spec fn key_view(k: Option<(Version, Target)>) -> Option<(Version, TargetView)> {
    match k {
        Some((v, t)) => Some((v, t@)),
        None => None,
    }
}

/// The order of listed image builders is a strict weak order.
pub proof fn law_listed_order(
    a: Option<(Version, TargetView)>,
    a_tag: Seq<char>,
    b: Option<(Version, TargetView)>,
    b_tag: Seq<char>,
    c: Option<(Version, TargetView)>,
    c_tag: Seq<char>,
)
    ensures
        listed_before(a, a_tag, b, b_tag) ==> !listed_before(b, b_tag, a, a_tag),
        !listed_before(a, a_tag, b, b_tag) && !listed_before(b, b_tag, c, c_tag)
            ==> !listed_before(a, a_tag, c, c_tag),
{
    law_text_order(a_tag, b_tag, c_tag);
    law_text_order(a_tag, b_tag, a_tag);
    law_text_order(b_tag, c_tag, a_tag);
    law_text_order(a_tag, c_tag, b_tag);
    law_text_order(b_tag, a_tag, c_tag);
    law_text_order(c_tag, b_tag, a_tag);
    if let (Some((va, ta)), Some((vb, tb))) = (a, b) {
        law_version_order(va, vb, va);
        law_target_order(ta, tb, ta);
        if let Some((vc, tc)) = c {
            law_version_order(va, vb, vc);
            law_version_order(vb, vc, va);
            law_version_order(va, vc, vb);
            law_version_order(vb, va, vc);
            law_version_order(vc, vb, va);
            law_version_order(vc, va, vb);
            law_target_order(ta, tb, tc);
            law_target_order(tb, tc, ta);
            law_target_order(ta, tc, tb);
            law_target_order(tb, ta, tc);
            law_target_order(tc, tb, ta);
            law_target_order(tc, ta, tb);
        }
    }
}

impl Ranked for ListedBuilder {
    open spec fn precedes(&self, other: &Self) -> bool {
        listed_before(
            key_view(self.key),
            self.item.tag@,
            key_view(other.key),
            other.item.tag@,
        )
    }

    proof fn asymmetric(a: &Self, b: &Self) {
        law_listed_order(
            key_view(a.key),
            a.item.tag@,
            key_view(b.key),
            b.item.tag@,
            key_view(a.key),
            a.item.tag@,
        );
    }

    proof fn weak(a: &Self, b: &Self, c: &Self) {
        law_listed_order(
            key_view(a.key),
            a.item.tag@,
            key_view(b.key),
            b.item.tag@,
            key_view(c.key),
            c.item.tag@,
        );
    }

    fn is_before(&self, other: &Self) -> (r: bool) {
        match (&self.key, &other.key) {
            (Some((va, ta)), Some((vb, tb))) => vb.is_older(va) || (*va == *vb && ta.is_before(tb)),
            (Some(_), None) => true,
            (None, Some(_)) => false,
            (None, None) => before(self.item.tag.as_str(), other.item.tag.as_str()),
        }
    }
}

/// What a sequence of listed image builders shows.
pub open spec fn shown(v: Seq<ListedBuilder>) -> Seq<ItemView> {
    v.map_values(|b: ListedBuilder| b.item@)
}

/// The items are those of `given_tags`, sorted stably in the order of the list.
pub open spec fn lists(given_tags: Seq<(Seq<char>, Seq<char>)>, r: Seq<ItemView>) -> bool {
    exists|from: Seq<ListedBuilder>, to: Seq<ListedBuilder>|
        #![trigger stably_sorted(from, to)]
        {
            &&& shown(from) == given_tags.map_values(
                |p: (Seq<char>, Seq<char>)| listed(p.0, p.1),
            )
            &&& forall|i: int| 0 <= i < from.len() ==> (#[trigger] from[i]).wf()
            &&& stably_sorted(from, to)
            &&& shown(to) == r
        }
}

/// The list of downloaded image builders. With each tag comes the size of its
/// image, as text.
pub fn list_builders(tags: &Vec<(String, String)>) -> (r: Vec<ImageBuilderItem>)
    ensures
        lists(downloaded(tags@), items(r@)),
{
    let ghost want = downloaded(tags@).map_values(|p: (Seq<char>, Seq<char>)| listed(p.0, p.1));
    let mut all: Vec<ListedBuilder> = Vec::new();
    let mut i: usize = 0;
    while i < tags.len()
        invariant
            i <= tags.len(),
            want == downloaded(tags@).map_values(|p: (Seq<char>, Seq<char>)| listed(p.0, p.1)),
            shown(all@) == want.take(i as int),
            forall|k: int| 0 <= k < all@.len() ==> (#[trigger] all@[k]).wf(),
        decreases tags.len() - i,
    {
        let ghost a0 = shown(all@);
        all.push(ListedBuilder::new(tags[i].0.as_str(), tags[i].1.as_str()));
        i += 1;
        assert(want[i - 1] == listed(tags@[i - 1].0@, tags@[i - 1].1@));
        assert(shown(all@) =~= a0.push(want[i - 1]));
        assert(shown(all@) =~= want.take(i as int));
    }
    assert(shown(all@) =~= want);
    let ghost from = all@;
    let sorted: Vec<ListedBuilder> = stable_sort(all);
    let ghost to = sorted@;
    let r: Vec<ImageBuilderItem> = take_items(sorted);
    assert(stably_sorted(from, to));
    r
}

/// The items of listed image builders.
fn take_items(v: Vec<ListedBuilder>) -> (r: Vec<ImageBuilderItem>)
    ensures
        items(r@) == shown(v@),
{
    let ghost want = shown(v@);
    let mut v: Vec<ListedBuilder> = v;
    let mut r: Vec<ImageBuilderItem> = Vec::new();
    while v.len() > 0
        invariant
            want.len() == r@.len() + v@.len(),
            items(r@) == want.take(r@.len() as int),
            shown(v@) == want.skip(r@.len() as int),
        decreases v.len(),
    {
        let ghost r0 = items(r@);
        let ghost n = r@.len() as int;
        let ghost v0 = shown(v@);
        let b: ListedBuilder = v.remove(0);
        assert(b.item@ == v0[0]);
        r.push(b.item);
        assert(items(r@) =~= r0.push(want[n]));
        assert(items(r@) =~= want.take(n + 1));
        assert(shown(v@) =~= v0.skip(1));
        assert(v0.skip(1) =~= want.skip(n + 1));
    }
    assert(want.take(want.len() as int) == want);
    r
}

/// Shows the list of downloaded image builders.
pub fn builders_listed(state: &mut AppState, list: Vec<ImageBuilderItem>)
    ensures
        final(state)@ == (StateView { downloaded_builders: items(list@), ..old(state)@ }),
{
    let ghost s0 = state@;
    state.downloaded_builders = list;
    assert(state@ =~= (StateView { downloaded_builders: items(list@), ..s0 }));
}

/// The message for a container engine that cannot be reached.
pub open spec fn engine_message(reason: Seq<char>) -> Seq<char> {
    "Failed to initialize container engine: "@ + reason
}

/// Shows that the container engine cannot be reached for the list.
pub fn builders_not_listed(state: &mut AppState, reason: &str) -> (r: Option<LogLine>)
    ensures
        final(state)@ == notified(
            old(state)@,
            Notification::Error,
            Some(engine_message(reason@)),
        ),
        r matches Some(line) && line.to_stderr && line.text@ == log_text(
            Notification::Error,
            engine_message(reason@),
        ),
{
    let msg: String = joined("Failed to initialize container engine: ", reason);
    state.set_notification(Notification::Error, Some(msg.as_str()))
}

/// Shows that an image builder is being deleted.
pub fn delete_started(state: &mut AppState)
    ensures
        final(state)@ == switched(old(state)@, Task::Rest("Deleting image builder"@)),
{
    state.switch_to(UIState::Idle(Some("Deleting image builder".to_string())));
}

/// Shows that the container engine cannot be reached for a deletion.
pub fn delete_refused(state: &mut AppState, reason: &str) -> (r: Option<LogLine>)
    ensures
        final(state)@ == failed(old(state)@, engine_message(reason@)),
        r matches Some(line) && line.to_stderr && line.text@ == log_text(
            Notification::Error,
            engine_message(reason@),
        ),
{
    let msg: String = joined("Failed to initialize container engine: ", reason);
    show_failure(state, msg.as_str())
}

/// The message after a deletion.
pub open spec fn deleted_text(tag: Seq<char>) -> Seq<char> {
    match tag_names(tag) {
        Some((v, t)) => "Image builder for "@ + version_text(v) + " "@ + target_text(t)
            + " deleted."@,
        None => "Image builder "@ + tag + " deleted."@,
    }
}

/// The message after a deletion.
pub fn deleted_message(tag: &str) -> (r: String)
    ensures
        r@ == deleted_text(tag@),
{
    let image_tag: ImageTag = ImageTag::from(tag);
    match named_by(&image_tag) {
        Some((version, target)) => {
            let mut s: String = "Image builder for ".to_string();
            s.append(version.to_string().as_str());
            s.append(" ");
            s.append(target.to_string().as_str());
            s.append(" deleted.");
            s
        },
        None => {
            let mut s: String = "Image builder ".to_string();
            s.append(tag);
            s.append(" deleted.");
            s
        },
    }
}

/// The image builder of the selection is to be looked for after a deletion.
pub open spec fn looks_again(profile_id: Seq<char>) -> bool {
    profile_id.len() > 0
}

/// Shows how a deletion went, and whether the image builder of the selection is
/// to be looked for again: it is, if a profile is selected.
pub fn deleted(state: &mut AppState, tag: &str, profile_id: &str) -> (r: (Option<LogLine>, bool))
    ensures
        final(state)@ == notified(old(state)@, Notification::Info, Some(deleted_text(tag@))),
        r.0 matches Some(line) && !line.to_stderr && line.text@ == deleted_text(tag@),
        r.1 == (profile_id@.len() > 0),
        r.1 == looks_again(profile_id@),
{
    let msg: String = deleted_message(tag);
    let line: Option<LogLine> = state.set_notification(Notification::Info, Some(msg.as_str()));
    (line, !profile_id.is_empty())
}

/// Shows that a deletion failed.
pub fn not_deleted(state: &mut AppState, reason: &str) -> (r: Option<LogLine>)
    ensures
        final(state)@ == failed(old(state)@, "Failed to delete image: "@ + reason@),
        r matches Some(line) && line.to_stderr && line.text@ == log_text(
            Notification::Error,
            "Failed to delete image: "@ + reason@,
        ),
{
    let msg: String = joined("Failed to delete image: ", reason);
    show_failure(state, msg.as_str())
}

/// The list has an entry for each tag and no others, and is in order.
pub proof fn law_list(given_tags: Seq<(Seq<char>, Seq<char>)>, r: Seq<ItemView>)
    requires
        lists(given_tags, r),
    ensures
        r.len() == given_tags.len(),
        forall|i: int|
            0 <= i < given_tags.len() ==> r.contains(
                listed((#[trigger] given_tags[i]).0, given_tags[i].1),
            ),
        forall|i: int, j: int|
            0 <= i < j < r.len() ==> !listed_before(
                tag_names((#[trigger] r[j]).tag),
                r[j].tag,
                tag_names((#[trigger] r[i]).tag),
                r[i].tag,
            ),
{
    let (from, to) = choose|from: Seq<ListedBuilder>, to: Seq<ListedBuilder>|
        #![trigger stably_sorted(from, to)]
        {
            &&& shown(from) == given_tags.map_values(
                |p: (Seq<char>, Seq<char>)| listed(p.0, p.1),
            )
            &&& forall|i: int| 0 <= i < from.len() ==> (#[trigger] from[i]).wf()
            &&& stably_sorted(from, to)
            &&& shown(to) == r
        };
    law_sorted_holds(from, to);
    let order = choose|order: Seq<int>| sorts(from, to, order);
    assert(shown(from).len() == from.len());
    assert(shown(to).len() == to.len());
    assert forall|i: int| 0 <= i < given_tags.len() implies r.contains(
        listed((#[trigger] given_tags[i]).0, given_tags[i].1),
    ) by {
        assert(shown(from)[i] == listed(given_tags[i].0, given_tags[i].1));
        assert(from.contains(from[i]));
        assert(to.contains(from[i]));
        let k = choose|k: int| 0 <= k < to.len() && to[k] == from[i];
        assert(shown(to)[k] == listed(given_tags[i].0, given_tags[i].1));
    }
    assert forall|i: int, j: int| 0 <= i < j < r.len() implies !listed_before(
        tag_names((#[trigger] r[j]).tag),
        r[j].tag,
        tag_names((#[trigger] r[i]).tag),
        r[i].tag,
    ) by {
        assert(to[i] == from[order[i]]);
        assert(to[j] == from[order[j]]);
        assert(to[i].wf() && to[j].wf());
        assert(r[i] == to[i].item@);
        assert(r[j] == to[j].item@);
        assert(!to[j].precedes(&to[i]));
    }
}

/// An image builder is listed with the version and the target that its tag was
/// made for, as long as these can be told from the tag, with its own tag and
/// size; the message after a deletion names them too.
pub proof fn law_listed_by_tag(t: TargetView, v: Version, base: Seq<char>, size: Seq<char>)
    requires
        !base.contains(':'),
        !t.target.contains('-'),
        !t.target.contains('/'),
        !t.subtarget.contains('-'),
        !t.subtarget.contains('/'),
    ensures
        ({
            let tag = tag_text(t, v, base);
            &&& tag_names(tag) == Some((v, t))
            &&& listed(tag, size).tag == tag
            &&& listed(tag, size).version == version_text(v)
            &&& listed(tag, size).target == target_text(t)
            &&& listed(tag, size).size == size
            &&& deleted_text(tag) == "Image builder for "@ + version_text(v) + " "@ + target_text(t)
                + " deleted."@
        }),
{
    law_image_tag_round_trip(t, v, base);
}

/// An image builder whose tag names nothing is listed and deleted under its tag.
pub proof fn law_listed_unnamed(tag: Seq<char>, size: Seq<char>)
    requires
        tag_body(tag) is None || body_parts(tag_body(tag)->0) is None,
    ensures
        tag_names(tag) is None,
        listed(tag, size).tag == tag,
        listed(tag, size).version == tag,
        listed(tag, size).target.len() == 0,
        listed(tag, size).size == size,
        deleted_text(tag) == "Image builder "@ + tag + " deleted."@,
{
}

/// Any tag that names something is listed with what it names, with its own tag
/// and size.
pub proof fn law_listed_named(tag: Seq<char>, size: Seq<char>, v: Version, t: TargetView)
    requires
        tag_names(tag) == Some((v, t)),
    ensures
        listed(tag, size).tag == tag,
        listed(tag, size).size == size,
        listed(tag, size).version == version_text(v),
        listed(tag, size).target == target_text(t),
{
}

/// The newest version comes first, within a version the targets ascend, and what
/// names nothing comes last, by its tag.
pub proof fn law_newest_first(
    a: (Version, TargetView),
    b: (Version, TargetView),
    a_tag: Seq<char>,
    b_tag: Seq<char>,
)
    ensures
        version_lt(b.0, a.0) ==> listed_before(Some(a), a_tag, Some(b), b_tag),
        a.0 == b.0 ==> (listed_before(Some(a), a_tag, Some(b), b_tag) <==> target_lt(a.1, b.1)),
        version_lt(a.0, b.0) ==> !listed_before(Some(a), a_tag, Some(b), b_tag),
        listed_before(Some(a), a_tag, None, b_tag),
        !listed_before(None, a_tag, Some(b), b_tag),
        listed_before(None, a_tag, None, b_tag) <==> text_lt(a_tag, b_tag),
{
    law_version_order(a.0, b.0, a.0);
}

/// After a deletion the image builder is looked for again exactly where a
/// profile is selected.
pub proof fn law_looks_again(profile_id: Seq<char>)
    ensures
        looks_again(profile_id) <==> profile_id != Seq::<char>::empty(),
{
    if profile_id.len() == 0 {
        assert(profile_id =~= Seq::<char>::empty());
    }
}

/// Each image builder that was found is listed from its own tag and size, and the
/// message for an engine that cannot be reached gives the reason.
pub proof fn law_downloaded(v: Seq<(String, String)>, i: int, reason: Seq<char>)
    ensures
        downloaded(v).len() == v.len(),
        0 <= i < v.len() ==> downloaded(v)[i] == (v[i].0@, v[i].1@),
        engine_message(reason) == "Failed to initialize container engine: "@ + reason,
{
}

} // verus!
