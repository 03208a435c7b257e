//! Downloading an image builder.

use vstd::prelude::*;

use crate::progress::{at_most, further, law_further, nothing, part_of, Progress, ProgressView};
use crate::state::{console, failure_console, failure_lines, notified, switched, AppState, LogLine,
    Notification, StateView, Task, UIState};
use crate::text::scan::{joined, same};

verus! {

/// A report that says nothing of sizes counts as one part of this many.
pub const NUDGES: u64 = 1_000;

/// The parts that such reports lead to at most.
pub const NUDGE_LIMIT: u64 = 990;

/// How much of a layer there is.
#[derive(Clone, Copy, Debug)]
pub struct ProgressDetail {
    pub current: Option<i64>,
    pub total: Option<i64>,
}

/// A report of the engine while it downloads.
#[derive(Debug)]
pub struct PullInfo {
    pub id: Option<String>,
    pub progress_detail: Option<ProgressDetail>,
}

/// What a [`PullInfo`] holds.
pub struct PullView {
    pub id: Option<Seq<char>>,
    pub progress_detail: Option<ProgressDetail>,
}

impl View for PullInfo {
    type V = PullView;

    open spec fn view(&self) -> PullView {
        PullView {
            id: match self.id {
                Some(s) => Some(s@),
                None => None,
            },
            progress_detail: self.progress_detail,
        }
    }
}

/// A layer of the image.
struct Layer {
    id: String,
    current: i64,
    total: i64,
}

/// What is known of a layer.
pub struct LayerView {
    pub id: Seq<char>,
    pub current: i64,
    pub total: i64,
}

/// A download: its layers, none of them twice, and how far it is.
pub struct Download {
    layers: Vec<Layer>,
    progress: Progress,
}

/// What a [`Download`] holds.
pub struct DownloadView {
    pub layers: Seq<LayerView>,
    pub progress: ProgressView,
}

spec fn layer_views(v: Seq<Layer>) -> Seq<LayerView> {
    v.map_values(|l: Layer| LayerView { id: l.id@, current: l.current, total: l.total })
}

impl View for Download {
    type V = DownloadView;

    closed spec fn view(&self) -> DownloadView {
        DownloadView { layers: layer_views(self.layers@), progress: self.progress@ }
    }
}

/// No layer occurs twice.
pub open spec fn distinct(s: Seq<LayerView>) -> bool {
    forall|i: int, j: int| 0 <= i < j < s.len() ==> (#[trigger] s[i]).id != (#[trigger] s[j]).id
}

/// What holds of every download: no layer occurs twice, the size of each is
/// known, and without a layer progress is counted by the reports alone.
pub open spec fn sound(d: DownloadView) -> bool {
    &&& distinct(d.layers)
    &&& forall|i: int| 0 <= i < d.layers.len() ==> (#[trigger] d.layers[i]).total > 0
    &&& d.progress.whole > 0
    &&& d.layers.len() == 0 ==> d.progress.whole == NUDGES && d.progress.part <= NUDGE_LIMIT
}

/// The layer that a report is about, if it gives sizes that can be used.
pub open spec fn reported(info: PullView) -> Option<LayerView> {
    match (info.id, info.progress_detail) {
        (Some(id), Some(d)) => match (d.current, d.total) {
            (Some(current), Some(total)) => if total > 0 {
                Some(LayerView { id, current, total })
            } else {
                None
            },
            _ => None,
        },
        _ => None,
    }
}

/// The position of a layer.
pub open spec fn position(s: Seq<LayerView>, id: Seq<char>) -> Option<int>
    decreases s.len(),
{
    if s.len() == 0 {
        None
    } else if s.last().id == id {
        Some(s.len() - 1)
    } else {
        position(s.drop_last(), id)
    }
}

/// The layers with a new report on one of them.
pub open spec fn updated(s: Seq<LayerView>, l: LayerView) -> Seq<LayerView> {
    match position(s, l.id) {
        Some(i) => s.update(i, l),
        None => s.push(l),
    }
}

/// The layers after a report.
pub open spec fn layers_after(s: Seq<LayerView>, info: PullView) -> Seq<LayerView> {
    match reported(info) {
        Some(l) => updated(s, l),
        None => s,
    }
}

/// What there is of all layers.
pub open spec fn current_sum(s: Seq<LayerView>) -> int
    decreases s.len(),
{
    if s.len() == 0 {
        0
    } else {
        current_sum(s.drop_last()) + s.last().current
    }
}

/// What there will be of all layers.
pub open spec fn total_sum(s: Seq<LayerView>) -> int
    decreases s.len(),
{
    if s.len() == 0 {
        0
    } else {
        total_sum(s.drop_last()) + s.last().total
    }
}

/// The part of `total` that `current` is; a negative size counts as none.
pub open spec fn share(current: int, total: int) -> ProgressView {
    if current < 0 {
        part_of(0, total)
    } else {
        part_of(current, total)
    }
}

/// One part more, up to the limit.
pub open spec fn nudged(p: ProgressView) -> ProgressView
    recommends
        p.whole == NUDGES,
{
    if p.part < NUDGE_LIMIT {
        part_of(p.part as int + 1, NUDGES as int)
    } else {
        part_of(NUDGE_LIMIT as int, NUDGES as int)
    }
}

/// How far the download is after a report.
pub open spec fn progress_after(
    before_it: ProgressView,
    s: Seq<LayerView>,
    info: PullView,
) -> ProgressView {
    if total_sum(s) > 0 {
        further(before_it, share(current_sum(s), total_sum(s)))
    } else if info.progress_detail is None {
        nudged(before_it)
    } else {
        before_it
    }
}

/// The download after a report.
pub open spec fn pulled(d: DownloadView, info: PullView) -> DownloadView {
    let layers = layers_after(d.layers, info);
    DownloadView { layers, progress: progress_after(d.progress, layers, info) }
}

proof fn lemma_position(s: Seq<LayerView>, id: Seq<char>, i: int)
    requires
        distinct(s),
        0 <= i < s.len(),
        s[i].id == id,
    ensures
        position(s, id) == Some(i),
    decreases s.len(),
{
    if i < s.len() - 1 {
        assert(s[i].id != s[s.len() - 1].id);
        assert(s.drop_last()[i] == s[i]);
        assert(distinct(s.drop_last()));
        lemma_position(s.drop_last(), id, i);
    }
}

proof fn lemma_no_position(s: Seq<LayerView>, id: Seq<char>)
    requires
        forall|i: int| 0 <= i < s.len() ==> (#[trigger] s[i]).id != id,
    ensures
        position(s, id) is None,
    decreases s.len(),
{
    if s.len() > 0 {
        assert forall|i: int| 0 <= i < s.drop_last().len() implies (#[trigger] s.drop_last()[i]).id
            != id by {
            assert(s.drop_last()[i] == s[i]);
        }
        lemma_no_position(s.drop_last(), id);
    }
}

proof fn lemma_total_positive(s: Seq<LayerView>)
    requires
        forall|i: int| 0 <= i < s.len() ==> (#[trigger] s[i]).total > 0,
    ensures
        s.len() > 0 ==> total_sum(s) > 0,
        s.len() == 0 ==> total_sum(s) == 0,
    decreases s.len(),
{
    if s.len() > 0 {
        let t = s.drop_last();
        assert forall|i: int| 0 <= i < t.len() implies (#[trigger] t[i]).total > 0 by {
            assert(t[i] == s[i]);
        }
        lemma_total_positive(t);
        assert(s.last() == s[s.len() - 1]);
    }
}

proof fn lemma_sum_bound(s: Seq<LayerView>)
    ensures
        -0x8000_0000_0000_0000 * s.len() <= current_sum(s) <= 0x7fff_ffff_ffff_ffff * s.len(),
        -0x8000_0000_0000_0000 * s.len() <= total_sum(s) <= 0x7fff_ffff_ffff_ffff * s.len(),
    decreases s.len(),
{
    if s.len() > 0 {
        lemma_sum_bound(s.drop_last());
    }
}

proof fn lemma_updated_sound(s: Seq<LayerView>, l: LayerView)
    requires
        distinct(s),
        l.total > 0,
        forall|i: int| 0 <= i < s.len() ==> (#[trigger] s[i]).total > 0,
    ensures
        distinct(updated(s, l)),
        updated(s, l).len() > 0,
        forall|i: int| 0 <= i < updated(s, l).len() ==> (#[trigger] updated(s, l)[i]).total > 0,
{
    let r = updated(s, l);
    if exists|i: int| 0 <= i < s.len() && (#[trigger] s[i]).id == l.id {
        let at = choose|i: int| 0 <= i < s.len() && (#[trigger] s[i]).id == l.id;
        lemma_position(s, l.id, at);
        assert(r == s.update(at, l));
        assert forall|i: int, j: int| 0 <= i < j < r.len() implies (#[trigger] r[i]).id
            != (#[trigger] r[j]).id by {
            assert(r[i].id == s[i].id && r[j].id == s[j].id);
        }
        assert forall|i: int| 0 <= i < r.len() implies (#[trigger] r[i]).total > 0 by {
            if i != at {
                assert(r[i] == s[i]);
            }
        }
    } else {
        lemma_no_position(s, l.id);
        assert forall|i: int, j: int| 0 <= i < j < r.len() implies (#[trigger] r[i]).id
            != (#[trigger] r[j]).id by {
            assert(r[i] == s[i]);
            if j < s.len() {
                assert(r[j] == s[j]);
            }
        }
        assert forall|i: int| 0 <= i < r.len() implies (#[trigger] r[i]).total > 0 by {
            if i < s.len() {
                assert(r[i] == s[i]);
            }
        }
    }
}

impl Download {
    #[verifier::type_invariant]
    spec fn wf(self) -> bool {
        sound(self@)
    }

    /// A download of which nothing is known.
    pub fn new() -> (r: Download)
        ensures
            r@ == (DownloadView { layers: seq![], progress: part_of(0, NUDGES as int) }),
    {
        let r = Download { layers: Vec::new(), progress: Progress::of(0, NUDGES as u128) };
        assert(r@.layers =~= Seq::<LayerView>::empty());
        r
    }

    /// How far the download is.
    pub fn progress(&self) -> (r: Progress)
        ensures
            r@ == self@.progress,
    {
        self.progress
    }

    /// Takes note of a layer.
    fn note(&mut self, id: &str, current: i64, total: i64)
        requires
            total > 0,
        ensures
            final(self)@ == (DownloadView {
                layers: updated(old(self)@.layers, LayerView { id: id@, current, total }),
                progress: old(self)@.progress,
            }),
    {
        proof {
            use_type_invariant(&*self);
        }
        let ghost s0 = layer_views(self.layers@);
        let ghost l = LayerView { id: id@, current, total };
        let mut i: usize = 0;
        while i < self.layers.len() && !same(self.layers[i].id.as_str(), id)
            invariant
                i <= self.layers.len(),
                s0 == layer_views(self.layers@),
                forall|k: int| 0 <= k < i ==> (#[trigger] s0[k]).id != id@,
            decreases self.layers.len() - i,
        {
            assert(s0[i as int].id == self.layers@[i as int].id@);
            i += 1;
        }
        let mut download = Download::new();
        std::mem::swap(&mut download, self);
        let Download { mut layers, progress } = download;
        if i < layers.len() {
            assert(s0[i as int].id == layers@[i as int].id@);
            proof {
                lemma_position(s0, id@, i as int);
            }
            layers.set(i, Layer { id: id.to_string(), current, total });
            assert(layer_views(layers@) =~= s0.update(i as int, l));
        } else {
            proof {
                lemma_no_position(s0, id@);
            }
            layers.push(Layer { id: id.to_string(), current, total });
            assert(layer_views(layers@) =~= s0.push(l));
        }
        proof {
            lemma_updated_sound(s0, l);
        }
        *self = Download { layers, progress };
    }

    /// What there is, and will be, of all layers.
    pub fn sums(&self) -> (r: (i128, i128))
        ensures
            r.0 == current_sum(self@.layers),
            r.1 == total_sum(self@.layers),
    {
        let ghost s = layer_views(self.layers@);
        let mut current: i128 = 0;
        let mut total: i128 = 0;
        let mut i: usize = 0;
        while i < self.layers.len()
            invariant
                i <= self.layers.len(),
                s == layer_views(self.layers@),
                current == current_sum(s.take(i as int)),
                total == total_sum(s.take(i as int)),
            decreases self.layers.len() - i,
        {
            proof {
                lemma_sum_bound(s.take(i as int));
                assert(s.take(i + 1).drop_last() == s.take(i as int));
                assert(s.take(i + 1).last() == s[i as int]);
                assert(-0x8000_0000_0000_0000 * i >= -0x8000_0000_0000_0000
                    * 0xffff_ffff_ffff_ffff) by (nonlinear_arith)
                    requires
                        i <= 0xffff_ffff_ffff_ffff,
                ;
                assert(0x7fff_ffff_ffff_ffff * i <= 0x7fff_ffff_ffff_ffff * 0xffff_ffff_ffff_ffff)
                    by (nonlinear_arith)
                    requires
                        i <= 0xffff_ffff_ffff_ffff,
                ;
            }
            current = current + self.layers[i].current as i128;
            total = total + self.layers[i].total as i128;
            i += 1;
        }
        assert(s.take(s.len() as int) == s);
        (current, total)
    }

    /// Takes in a report. Gives what there is, and will be, of all layers.
    pub fn report(&mut self, info: &PullInfo) -> (r: (i128, i128))
        ensures
            final(self)@ == pulled(old(self)@, info@),
            at_most(old(self)@.progress, final(self)@.progress),
            r.0 == current_sum(final(self)@.layers),
            r.1 == total_sum(final(self)@.layers),
    {
        proof {
            use_type_invariant(&*self);
            law_download_progress(self@, info@);
        }
        let ghost d0 = self@;
        if let Some(id) = &info.id {
            if let Some(d) = info.progress_detail {
                if let (Some(current), Some(total)) = (d.current, d.total) {
                    if total > 0 {
                        self.note(id.as_str(), current, total);
                    }
                }
            }
        }
        assert(self@.layers == layers_after(d0.layers, info@));
        assert(self@.progress == d0.progress);
        let (current, total): (i128, i128) = self.sums();
        proof {
            use_type_invariant(&*self);
            lemma_total_positive(self@.layers);
        }
        let ghost layers = self@.layers;
        if total > 0 {
            let part: u128 = if current < 0 {
                0
            } else {
                current as u128
            };
            self.progress = self.progress.further(Progress::of(part, total as u128));
        } else if info.progress_detail.is_none() {
            let (part, _): (u128, u128) = self.progress.fraction();
            self.progress = Progress::of(
                if part < NUDGE_LIMIT as u128 {
                    part + 1
                } else {
                    NUDGE_LIMIT as u128
                },
                NUDGES as u128,
            );
        }
        assert(self@.layers == layers);
        (current, total)
    }
}

/// The window when a download begins.
pub open spec fn download_begun(s: StateView) -> StateView {
    switched(
        notified(StateView { image_exists: false, ..s }, Notification::Info, None),
        Task::Measured { progress: nothing(), status: None },
    )
}

/// Shows that a download begins.
pub fn download_started(state: &mut AppState)
    ensures
        final(state)@ == download_begun(old(state)@),
{
    let ghost s0 = state@;
    state.image_exists = false;
    assert(state@ =~= (StateView { image_exists: false, ..s0 }));
    let _ = state.set_notification(Notification::Info, None);
    state.switch_to(UIState::DownloadingBuilder { status: None, progress: Some(Progress::none()) });
}

/// What is shown of a download: the sizes in megabytes, where they are known.
pub open spec fn download_text(sizes: Option<(Seq<char>, Seq<char>)>) -> Seq<char> {
    match sizes {
        Some((current, total)) => "Downloading image builder: "@ + current + " / "@ + total
            + " MB"@,
        None => "Downloading image builder"@,
    }
}

/// What is shown of a download. `sizes` are the two sums in megabytes, where
/// the second is not zero.
pub fn download_status(sizes: Option<(&str, &str)>) -> (r: String)
    ensures
        r@ == download_text(
            match sizes {
                Some((c, t)) => Some((c@, t@)),
                None => None,
            },
        ),
{
    match sizes {
        Some((current, total)) => {
            let mut s: String = "Downloading image builder: ".to_string();
            s.append(current);
            s.append(" / ");
            s.append(total);
            s.append(" MB");
            s
        },
        None => "Downloading image builder".to_string(),
    }
}

/// Shows how far a download is.
pub fn download_progressed(state: &mut AppState, progress: Progress, status: String)
    ensures
        final(state)@ == switched(
            old(state)@,
            Task::Measured { progress: progress@, status: Some(status@) },
        ),
{
    state.switch_to(
        UIState::DownloadingBuilder { progress: Some(progress), status: Some(status) },
    );
}

/// What comes of a download.
pub enum PullItem {
    Report(PullInfo),
    /// The download broke off for this reason.
    Failure(String),
}

/// What to do with what came of a download.
pub enum PullAction {
    /// Show how far it is, with what there is and will be of all layers where
    /// that is known, and read on.
    Show(Option<(i128, i128)>),
    /// Read no further; the lines are for the console.
    Stop(Vec<LogLine>),
}

/// The download after what came of it.
pub open spec fn pull_received(d: DownloadView, item: PullItem) -> DownloadView {
    match item {
        PullItem::Report(info) => pulled(d, info@),
        PullItem::Failure(_) => d,
    }
}

/// The message for a download that broke off.
pub open spec fn pull_error(reason: Seq<char>) -> Seq<char> {
    "Pull error: "@ + reason
}

/// The window after what came of a download, before its progress is shown.
pub open spec fn pull_noted(s: StateView, item: PullItem) -> StateView {
    match item {
        PullItem::Report(_) => s,
        PullItem::Failure(e) => notified(s, Notification::Error, Some(pull_error(e@))),
    }
}

/// Takes in what came of a download. Gives what to do: sizes are shown only
/// where they are known, and after a failure nothing more is read.
pub fn download_received(download: &mut Download, state: &mut AppState, item: &PullItem) -> (r:
    PullAction)
    ensures
        final(download)@ == pull_received(old(download)@, *item),
        final(state)@ == pull_noted(old(state)@, *item),
        match *item {
            PullItem::Report(_) => r matches PullAction::Show(sizes) && match sizes {
                Some((current, total)) => total > 0 && current == current_sum(
                    final(download)@.layers,
                ) && total == total_sum(final(download)@.layers),
                None => total_sum(final(download)@.layers) <= 0,
            },
            PullItem::Failure(e) => r matches PullAction::Stop(lines) && console(lines@)
                == failure_console(pull_error(e@), pull_error(e@)),
        },
{
    match item {
        PullItem::Report(info) => {
            let (current, total): (i128, i128) = download.report(info);
            if total > 0 {
                PullAction::Show(Some((current, total)))
            } else {
                PullAction::Show(None)
            }
        },
        PullItem::Failure(e) => PullAction::Stop(download_broke_off(state, e.as_str())),
    }
}

/// Shows that a download broke off. Gives the lines for the console.
pub fn download_broke_off(state: &mut AppState, reason: &str) -> (r: Vec<LogLine>)
    ensures
        final(state)@ == notified(old(state)@, Notification::Error, Some(pull_error(reason@))),
        console(r@) == failure_console(pull_error(reason@), pull_error(reason@)),
{
    let msg: String = joined("Pull error: ", reason);
    let _ = state.set_notification(Notification::Error, Some(msg.as_str()));
    failure_lines(msg.clone(), msg.as_str())
}

/// A report leaves a download sound and never takes progress back.
pub proof fn law_download_progress(d: DownloadView, info: PullView)
    requires
        sound(d),
    ensures
        sound(pulled(d, info)),
        at_most(d.progress, pulled(d, info).progress),
{
    let after = pulled(d, info).progress;
    let part = share(current_sum(pulled(d, info).layers), total_sum(pulled(d, info).layers));
    if let Some(l) = reported(info) {
        lemma_updated_sound(d.layers, l);
    }
    lemma_total_positive(d.layers);
    lemma_total_positive(pulled(d, info).layers);
    if pulled(d, info).layers.len() > 0 {
        law_further(d.progress, part, d.progress);
    } else {
        law_further(d.progress, d.progress, d.progress);
        assert(d.progress.part * NUDGES <= after.part * NUDGES) by (nonlinear_arith)
            requires
                d.progress.part <= after.part,
        ;
    }
}

/// Whether a download is still read after all that came of it.
pub open spec fn still_read(all: Seq<PullItem>) -> bool {
    forall|i: int| 0 <= i < all.len() ==> #[trigger] all[i] is Report
}

/// A download after all that came of it, up to the first failure.
pub open spec fn download_run(d: DownloadView, all: Seq<PullItem>) -> DownloadView
    decreases all.len(),
{
    if all.len() == 0 {
        d
    } else if still_read(all.drop_last()) {
        pull_received(download_run(d, all.drop_last()), all.last())
    } else {
        download_run(d, all.drop_last())
    }
}

/// Whatever comes of a download, it stays sound and its progress never goes
/// back; after a failure nothing counts any more.
pub proof fn law_download_run(d: DownloadView, all: Seq<PullItem>, more: PullItem)
    requires
        sound(d),
    ensures
        sound(download_run(d, all)),
        at_most(d.progress, download_run(d, all).progress),
        !still_read(all) ==> download_run(d, all.push(more)) == download_run(d, all),
    decreases all.len(),
{
    assert(all.push(more).drop_last() =~= all);
    if all.len() == 0 {
        law_further(d.progress, d.progress, d.progress);
    } else {
        let init = all.drop_last();
        law_download_run(d, init, all.last());
        let mid = download_run(d, init);
        let end = download_run(d, all);
        if still_read(init) {
            if let PullItem::Report(info) = all.last() {
                law_download_progress(mid, info@);
            }
        }
        law_further(d.progress, mid.progress, end.progress);
        law_further(mid.progress, mid.progress, end.progress);
    }
}

/// A report changes the layer that it is about and no other.
pub proof fn law_layers(s: Seq<LayerView>, l: LayerView)
    requires
        distinct(s),
    ensures
        distinct(updated(s, l)),
        updated(s, l).contains(l),
        forall|m: LayerView|
            m.id != l.id ==> (#[trigger] updated(s, l).contains(m) <==> s.contains(m)),
{
    let r = updated(s, l);
    if exists|i: int| 0 <= i < s.len() && (#[trigger] s[i]).id == l.id {
        let i = choose|i: int| 0 <= i < s.len() && (#[trigger] s[i]).id == l.id;
        lemma_position(s, l.id, i);
        assert(r[i] == l);
        assert forall|m: LayerView| m.id != l.id implies (#[trigger] r.contains(m)
            <==> s.contains(m)) by {
            if r.contains(m) {
                let k = choose|k: int| 0 <= k < r.len() && r[k] == m;
                assert(s[k] == m);
            }
            if s.contains(m) {
                let k = choose|k: int| 0 <= k < s.len() && s[k] == m;
                assert(r[k] == m);
            }
        }
    } else {
        lemma_no_position(s, l.id);
        assert(r[s.len() as int] == l);
        assert forall|m: LayerView| m.id != l.id implies (#[trigger] r.contains(m)
            <==> s.contains(m)) by {
            if r.contains(m) {
                let k = choose|k: int| 0 <= k < r.len() && r[k] == m;
                assert(s[k] == m);
            }
            if s.contains(m) {
                let k = choose|k: int| 0 <= k < s.len() && s[k] == m;
                assert(r[k] == m);
            }
        }
    }
}

/// A report gives sizes that can be used exactly where it names a layer, gives
/// both sizes, and the whole is more than nothing.
pub proof fn law_reported(id: Seq<char>, current: i64, total: i64)
    ensures
        total > 0 ==> reported(
            PullView {
                id: Some(id),
                progress_detail: Some(
                    ProgressDetail { current: Some(current), total: Some(total) },
                ),
            },
        ) == Some(LayerView { id, current, total }),
        total <= 0 ==> reported(
            PullView {
                id: Some(id),
                progress_detail: Some(
                    ProgressDetail { current: Some(current), total: Some(total) },
                ),
            },
        ) is None,
        forall|info: PullView|
            #![trigger reported(info)]
            info.id is None || info.progress_detail is None || info.progress_detail->0.current is None
                || info.progress_detail->0.total is None ==> reported(info) is None,
{
}

/// The sums take in each layer once, with its own sizes.
pub proof fn law_sums(s: Seq<LayerView>, l: LayerView)
    ensures
        current_sum(Seq::empty()) == 0,
        total_sum(Seq::empty()) == 0,
        current_sum(s.push(l)) == current_sum(s) + l.current,
        total_sum(s.push(l)) == total_sum(s) + l.total,
{
    assert(s.push(l).drop_last() =~= s);
}

/// Once a layer is known, progress is the share of all layers that is there,
/// unless it was further before. Until then each report that says nothing of
/// sizes counts for a thousandth, up to ninety-nine hundredths, and a report
/// that says something for nothing.
pub proof fn law_progress_exact(d: DownloadView, info: PullView)
    requires
        sound(d),
    ensures
        ({
            let after = pulled(d, info);
            let c = current_sum(after.layers);
            let t = total_sum(after.layers);
            &&& after.layers.len() > 0 && c >= 0 ==> {
                &&& at_most(ProgressView { part: c as nat, whole: t as nat }, after.progress)
                &&& after.progress == d.progress || after.progress == (ProgressView {
                    part: c as nat,
                    whole: t as nat,
                })
            }
            &&& after.layers.len() > 0 && c < 0 ==> after.progress == d.progress
            &&& after.layers.len() == 0 && info.progress_detail is Some ==> after.progress
                == d.progress
            &&& after.layers.len() == 0 && info.progress_detail is None ==> after.progress.whole
                == 1_000 && after.progress.part == (if d.progress.part < 990 {
                d.progress.part + 1
            } else {
                990
            })
        }),
{
    if let Some(l) = reported(info) {
        lemma_updated_sound(d.layers, l);
    }
    let after = pulled(d, info);
    lemma_total_positive(d.layers);
    lemma_total_positive(after.layers);
    let c = current_sum(after.layers);
    let t = total_sum(after.layers);
    if after.layers.len() > 0 {
        law_further(d.progress, share(c, t), d.progress);
        if c < 0 {
            assert(0 * d.progress.whole <= d.progress.part * t) by (nonlinear_arith)
                requires
                    d.progress.part >= 0,
                    t > 0,
            ;
        }
    }
}

/// A download begins with no image and no notification, and with progress at
/// its start; the text says how much there is where that is known.
pub proof fn law_download_shown(s: StateView, current: Seq<char>, total: Seq<char>)
    ensures
        !download_begun(s).image_exists,
        download_begun(s).busy && download_begun(s).progress_visible,
        download_begun(s).progress_value.part == 0,
        download_begun(s).notification.len() == 0,
        download_begun(s).status_text == s.status_text,
        download_begun(s).selected_id == s.selected_id,
        download_begun(s).packages_text == s.packages_text,
        download_text(Some((current, total))) == "Downloading image builder: "@ + current + " / "@
            + total + " MB"@,
        download_text(None) == "Downloading image builder"@,
{
}

/// A failure is shown with its reason and counts for nothing; a report counts.
pub proof fn law_pull_noted(s: StateView, d: DownloadView, e: String, info: PullInfo)
    ensures
        pull_noted(s, PullItem::Failure(e)).notification == "Pull error: "@ + e@,
        pull_noted(s, PullItem::Failure(e)).notification_is_error,
        pull_received(d, PullItem::Failure(e)) == d,
        pull_noted(s, PullItem::Report(info)) == s,
        pull_received(d, PullItem::Report(info)) == pulled(d, info@),
{
}

/// A report on a layer puts its sizes in the place of those that were known of
/// it, or behind all others where none were; every other layer stays, and a
/// report without sizes changes none.
pub proof fn law_layers_after(s: Seq<LayerView>, info: PullView, l: LayerView, i: int)
    requires
        distinct(s),
    ensures
        reported(info) is None ==> layers_after(s, info) == s,
        reported(info) == Some(l) && 0 <= i < s.len() && s[i].id == l.id ==> layers_after(s, info)
            == s.update(i, l),
        reported(info) == Some(l) && (forall|j: int| 0 <= j < s.len() ==> (#[trigger] s[j]).id != l.id)
            ==> layers_after(s, info) == s.push(l),
{
    if 0 <= i < s.len() && s[i].id == l.id {
        lemma_position(s, l.id, i);
    }
    if forall|j: int| 0 <= j < s.len() ==> (#[trigger] s[j]).id != l.id {
        lemma_no_position(s, l.id);
    }
}

} // verus!
