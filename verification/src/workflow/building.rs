//! Building an image.

use std::path::PathBuf;
use vstd::prelude::*;

use crate::builder::{build_command, build_volumes, law_build_command, law_command_variables, law_volumes,
    ArgsView, BuildArgs};
use crate::containers::{chunk_text, read_chunk, LogChunk, LogItem, Volume};
use crate::domain::package::{extended, has_name, lemma_extended, list_of, PackageList, PackageView};
use crate::domain::preset::{cast_unsigned, unsigned};
use crate::domain::profile::{normal_id, ProfileId};
use crate::domain::target::{target_of, target_path, Target, TargetView};
use crate::domain::version::{version_of, version_text, Version};
use crate::paths::{path_join, path_joined, path_of};
use crate::progress::{nothing, part_of, Progress};
use crate::requests::{BuildData, BuildView};
use crate::session::AppCore;
use crate::state::{console, failure_console, failure_lines, notified, switched, AppState, LogLine,
    Notification, StateView, Task, UIState};
use crate::text::case::alphanumeric;
use crate::text::number::decimal;
use crate::text::scan::{chars_of, given, has_part, has_prefix, joined, law_parts, lemma_part_of_part,
    nonempty, opt_text, starts_with, texts, unless_empty};
use crate::text::split::{join, joined_by, law_joined_holds, lines, lines_of};

verus! {

/// A milestone of a build: how a line of its output begins, the parts of the
/// build that are done then, and what to call it.
pub struct Milestone {
    pub prefix: &'static str,
    pub progress: u64,
    pub status: &'static str,
}

/// The parts that make up a whole build.
pub const BUILD_PARTS: u64 = 1_000_000;

/// The parts of a build that each line of output counts for.
pub const LINE_PROGRESS: u64 = 500;

/// The milestones, in the order in which they are looked for.
pub open spec fn milestones() -> Seq<(Seq<char>, u64, Seq<char>)> {
    seq![
        ("Generate local signing"@, 100_000u64, "Generating signing keys"@),
        ("Building images for"@, 200_000u64, "Preparing build"@),
        ("Building package index"@, 200_000u64, "Building package index"@),
        ("Installing packages"@, 400_000u64, "Installing packages"@),
        ("Finalizing root filesystem"@, 700_000u64, "Finalizing filesystem"@),
        ("Building images..."@, 800_000u64, "Building images"@),
        ("Calculating checksums"@, 900_000u64, "Calculating checksums"@),
    ]
}

/// The first milestone at `from` or later that a line is.
pub open spec fn milestone_from(line: Seq<char>, from: int) -> Option<(u64, Seq<char>)>
    decreases milestones().len() - from,
{
    if from < 0 || from >= milestones().len() {
        None
    } else if has_prefix(line, milestones()[from].0) {
        Some((milestones()[from].1, milestones()[from].2))
    } else {
        milestone_from(line, from + 1)
    }
}

/// The milestone that a line is.
pub open spec fn build_status(line: Seq<char>) -> Option<(u64, Seq<char>)> {
    milestone_from(line, 0)
}

/// What a list of milestones holds.
spec fn milestone_views(v: Seq<Milestone>) -> Seq<(Seq<char>, u64, Seq<char>)> {
    v.map_values(|m: Milestone| (m.prefix@, m.progress, m.status@))
}

fn milestone_list() -> (r: Vec<Milestone>)
    ensures
        milestone_views(r@) == milestones(),
{
    let mut r: Vec<Milestone> = Vec::new();
    r.push(
        Milestone {
            prefix: "Generate local signing",
            progress: 100_000,
            status: "Generating signing keys",
        },
    );
    r.push(
        Milestone { prefix: "Building images for", progress: 200_000, status: "Preparing build" },
    );
    r.push(
        Milestone {
            prefix: "Building package index",
            progress: 200_000,
            status: "Building package index",
        },
    );
    r.push(
        Milestone {
            prefix: "Installing packages",
            progress: 400_000,
            status: "Installing packages",
        },
    );
    r.push(
        Milestone {
            prefix: "Finalizing root filesystem",
            progress: 700_000,
            status: "Finalizing filesystem",
        },
    );
    r.push(
        Milestone { prefix: "Building images...", progress: 800_000, status: "Building images" },
    );
    r.push(
        Milestone {
            prefix: "Calculating checksums",
            progress: 900_000,
            status: "Calculating checksums",
        },
    );
    assert(milestone_views(r@) =~= milestones());
    r
}

/// The milestone that a line of the output is, if it is one.
pub fn get_build_status(line: &str) -> (r: Option<(u64, String)>)
    ensures
        match r {
            Some((p, s)) => build_status(line@) == Some((p, s@)),
            None => build_status(line@) is None,
        },
{
    let all: Vec<Milestone> = milestone_list();
    let mut i: usize = 0;
    while i < all.len()
        invariant
            i <= all.len(),
            milestone_views(all@) == milestones(),
            build_status(line@) == milestone_from(line@, i as int),
        decreases all.len() - i,
    {
        assert(milestones()[i as int] == (
            all@[i as int].prefix@,
            all@[i as int].progress,
            all@[i as int].status@,
        ));
        if starts_with(line, all[i].prefix) {
            return Some((all[i].progress, all[i].status.to_string()));
        }
        i += 1;
    }
    assert(milestones().len() == all@.len());
    None
}

/// The characters that an image name may hold: letters, numbers and dashes.
pub open spec fn image_name(s: Seq<char>) -> Seq<char> {
    s.filter(|c: char| alphanumeric(c) || c == '-')
}

/// The characters of `s` that are dashes or marked.
pub open spec fn kept_chars(s: Seq<char>, marked: Seq<bool>) -> Seq<char>
    decreases s.len(),
{
    if s.len() == 0 {
        seq![]
    } else if marked[s.len() - 1] || s.last() == '-' {
        kept_chars(s.drop_last(), marked).push(s.last())
    } else {
        kept_chars(s.drop_last(), marked)
    }
}

/// Keeps the characters that are dashes or marked.
pub fn keep_chars(s: &str, marked: &Vec<bool>) -> (r: String)
    requires
        marked@.len() == s@.len(),
    ensures
        r@ == kept_chars(s@, marked@),
{
    let v: Vec<char> = chars_of(s);
    let mut r: String = String::new();
    let mut i: usize = 0;
    assert(r@ =~= kept_chars(v@.take(0), marked@));
    while i < v.len()
        invariant
            i <= v.len(),
            marked@.len() == v@.len(),
            r@ == kept_chars(v@.take(i as int), marked@),
        decreases v.len() - i,
    {
        let c: char = v[i];
        if marked[i] || c == '-' {
            r.push(c);
        }
        i += 1;
        assert(v@.take(i as int).drop_last() == v@.take(i - 1));
    }
    assert(v@.take(v@.len() as int) == v@);
    r
}

proof fn lemma_kept_chars(s: Seq<char>, marked: Seq<bool>)
    requires
        s.len() <= marked.len(),
        forall|i: int| 0 <= i < s.len() ==> #[trigger] marked[i] == alphanumeric(s[i]),
    ensures
        kept_chars(s, marked) == image_name(s),
    decreases s.len(),
{
    reveal(Seq::filter);
    if s.len() > 0 {
        lemma_kept_chars(s.drop_last(), marked);
    }
}

/// Keeps the characters that an image name may hold.
pub fn clean_image_name(s: &str) -> (r: String)
    ensures
        r@ == image_name(s@),
{
    let v: Vec<char> = chars_of(s);
    let mut marked: Vec<bool> = Vec::new();
    let mut i: usize = 0;
    while i < v.len()
        invariant
            i <= v.len(),
            v@ == s@,
            marked@.len() == i,
            forall|k: int| 0 <= k < i ==> #[trigger] marked@[k] == alphanumeric(s@[k]),
        decreases v.len() - i,
    {
        marked.push(v[i].is_alphanumeric());
        i += 1;
    }
    proof {
        lemma_kept_chars(s@, marked@);
    }
    keep_chars(s, &marked)
}

/// What is to be built.
pub struct BuildPlan {
    pub version: Version,
    pub target: Target,
    pub profile_id: ProfileId,
    pub packages: PackageList,
    pub extra_image_name: String,
    pub rootfs_size: u32,
    pub disabled_services: String,
    pub overlay_path: String,
}

/// What a [`BuildPlan`] holds.
pub struct PlanView {
    pub version: Version,
    pub target: TargetView,
    pub profile_id: Seq<char>,
    pub packages: Seq<PackageView>,
    pub extra_image_name: Seq<char>,
    pub rootfs_size: u32,
    pub disabled_services: Seq<char>,
    pub overlay_path: Seq<char>,
}

impl View for BuildPlan {
    type V = PlanView;

    open spec fn view(&self) -> PlanView {
        PlanView {
            version: self.version,
            target: self.target@,
            profile_id: self.profile_id@,
            packages: self.packages@,
            extra_image_name: self.extra_image_name@,
            rootfs_size: self.rootfs_size,
            disabled_services: self.disabled_services@,
            overlay_path: self.overlay_path@,
        }
    }
}

/// The plan for a selection. The packages of the profile that the selection
/// does not name are left out.
pub open spec fn plan_of(profile_packages: Seq<PackageView>, d: BuildView) -> PlanView {
    PlanView {
        version: version_of(d.version),
        target: target_of(d.target),
        profile_id: normal_id(d.profile_id),
        packages: extended(list_of(d.packages), profile_packages, false),
        extra_image_name: image_name(d.extra_image_name),
        rootfs_size: unsigned(d.rootfs_size),
        disabled_services: d.disabled_services,
        overlay_path: d.overlay_path,
    }
}

/// The arguments of a build.
pub open spec fn plan_args(p: PlanView) -> ArgsView {
    ArgsView {
        profile_id: p.profile_id,
        packages: p.packages,
        extra_image_name: unless_empty(p.extra_image_name),
        rootfs_size: if p.rootfs_size > 0 {
            Some(p.rootfs_size)
        } else {
            None
        },
        disabled_services: unless_empty(p.disabled_services),
        overlay_path: unless_empty(p.overlay_path),
    }
}

/// The name of the file that a build's output goes to. `now` is the time at
/// which the build began.
pub open spec fn log_name(v: Version, id: Seq<char>, now: Seq<char>) -> Seq<char> {
    "build-"@ + version_text(v) + "-"@ + id + "-"@ + now + ".log"@
}

/// The folder with the images of a target.
pub open spec fn target_folder(build_path: PathBuf, t: TargetView) -> PathBuf {
    path_joined(build_path, target_path(t))
}

/// The folder with the images of a target.
pub fn build_folder(core: &AppCore, target: &Target) -> (r: PathBuf)
    ensures
        r == target_folder(core.config.build_path, target@),
{
    path_join(&core.config.build_path, &target.to_path())
}

impl BuildPlan {
    /// The plan for a selection.
    pub fn new(core: &AppCore, data: &BuildData) -> (r: BuildPlan)
        ensures
            r@ == plan_of(core.packages@, data@),
    {
        let mut packages: PackageList = PackageList::from(data.packages.as_str());
        packages.extend(&core.packages, false);
        BuildPlan {
            version: Version::from(data.version.as_str()),
            target: Target::from(data.target.as_str()),
            profile_id: ProfileId::from(data.profile_id.as_str()),
            packages,
            extra_image_name: clean_image_name(data.extra_image_name.as_str()),
            rootfs_size: cast_unsigned(data.rootfs_size),
            disabled_services: data.disabled_services.clone(),
            overlay_path: data.overlay_path.clone(),
        }
    }

    /// The arguments of the build.
    pub fn args(&self) -> (r: BuildArgs<'_>)
        ensures
            r@ == plan_args(self@),
    {
        BuildArgs {
            profile_id: self.profile_id.clone(),
            packages: self.packages.clone(),
            extra_image_name: given(self.extra_image_name.as_str()),
            rootfs_size: if self.rootfs_size > 0 {
                Some(self.rootfs_size)
            } else {
                None
            },
            disabled_services: given(self.disabled_services.as_str()),
            overlay_path: given(self.overlay_path.as_str()),
        }
    }

    /// The name of the file that the output goes to.
    pub fn log_file_name(&self, now: &str) -> (r: String)
        ensures
            r@ == log_name(self@.version, self@.profile_id, now@),
    {
        let mut s: String = "build-".to_string();
        s.append(self.version.to_string().as_str());
        s.append("-");
        s.append(self.profile_id.as_str());
        s.append("-");
        s.append(now);
        s.append(".log");
        s
    }
}

/// The command in lines: its first two words, and each variable by itself.
pub open spec fn command_lines(args: Seq<Seq<char>>) -> Seq<char> {
    if args.len() <= 2 {
        joined_by(args, " "@)
    } else {
        args[0] + " "@ + args[1] + "\n\n    "@ + joined_by(args.skip(2), "\n\n    "@)
    }
}

/// The command in lines: its first two words, and each variable by itself.
pub fn format_command(args: &Vec<String>) -> (r: String)
    ensures
        r@ == command_lines(texts(args@)),
{
    if args.len() <= 2 {
        return join(args, " ");
    }
    let ghost all = texts(args@);
    let mut rest: Vec<String> = Vec::new();
    let mut i: usize = 2;
    while i < args.len()
        invariant
            2 <= i <= args.len(),
            all == texts(args@),
            texts(rest@) == all.subrange(2, i as int),
        decreases args.len() - i,
    {
        let ghost r0 = texts(rest@);
        rest.push(args[i].clone());
        i += 1;
        assert(texts(rest@) =~= r0.push(all[i - 1]));
        assert(texts(rest@) =~= all.subrange(2, i as int));
    }
    assert(all.subrange(2, all.len() as int) =~= all.skip(2));
    assert(all[0] == args@[0]@);
    assert(all[1] == args@[1]@);
    let mut s: String = args[0].clone();
    s.append(" ");
    s.append(args[1].as_str());
    s.append("\n\n    ");
    s.append(join(&rest, "\n\n    ").as_str());
    s
}

/// The command that a build of the selection would run, in lines; nothing where
/// no profile is selected.
pub open spec fn preview(profile_packages: Seq<PackageView>, d: BuildView) -> Seq<char> {
    if normal_id(d.profile_id).len() == 0 {
        seq![]
    } else {
        command_lines(build_command(plan_args(plan_of(profile_packages, d))))
    }
}

/// The command that a build of the selection would run, in lines; nothing where
/// no profile is selected.
pub fn get_build_command_preview(core: &AppCore, data: &BuildData) -> (r: String)
    ensures
        r@ == preview(core.packages@, data@),
{
    let plan: BuildPlan = BuildPlan::new(core, data);
    if plan.profile_id.as_str().is_empty() {
        let r: String = String::new();
        assert(r@ =~= preview(core.packages@, data@));
        return r;
    }
    let args: Vec<String> = Vec::<String>::from(plan.args());
    format_command(&args)
}

/// Shows the command that a build would run.
pub fn update_preview(state: &mut AppState, core: &AppCore, data: &BuildData)
    ensures
        final(state)@ == (StateView {
            build_command_preview: preview(core.packages@, data@),
            ..old(state)@
        }),
{
    let ghost s0 = state@;
    state.build_command_preview = get_build_command_preview(core, data);
    assert(state@ =~= (StateView {
        build_command_preview: preview(core.packages@, data@),
        ..s0
    }));
}

/// Shows that a build begins.
pub fn build_started(state: &mut AppState)
    ensures
        final(state)@ == switched(
            old(state)@,
            Task::Measured { progress: nothing(), status: Some("Initializing"@) },
        ),
{
    state.switch_to(
        UIState::Building { progress: None, status: Some("Initializing".to_string()) },
    );
}

/// Shows that a build did not come about.
pub fn build_refused(state: &mut AppState) -> (r: Option<LogLine>)
    ensures
        final(state)@ == switched(
            notified(old(state)@, Notification::Error, Some("Failed to build firmware"@)),
            Task::Rest("Build failed"@),
        ),
        r matches Some(line) && line.to_stderr && line.text@ == "Error: "@
            + "Failed to build firmware"@,
{
    let line: Option<LogLine> = state.set_notification(
        Notification::Error,
        Some("Failed to build firmware"),
    );
    state.switch_to(UIState::Error("Build failed".to_string()));
    line
}

/// How far a build is, by its output.
pub struct BuildLog {
    pub progress: u64,
    pub status: String,
    pub success: bool,
}

/// What a [`BuildLog`] holds.
pub struct LogView {
    pub progress: u64,
    pub status: Seq<char>,
    pub success: bool,
}

impl View for BuildLog {
    type V = LogView;

    open spec fn view(&self) -> LogView {
        LogView { progress: self.progress, status: self.status@, success: self.success }
    }
}

/// A sum that stops at the greatest number.
pub open spec fn sum_up_to_max(a: u64, b: u64) -> u64 {
    if a + b > u64::MAX {
        u64::MAX
    } else {
        (a + b) as u64
    }
}

/// The greater of two numbers.
pub open spec fn greater(a: u64, b: u64) -> u64 {
    if a < b {
        b
    } else {
        a
    }
}

/// How far the build is after a line of output.
pub open spec fn after_line(s: LogView, line: Seq<char>) -> LogView {
    match build_status(line) {
        Some((p, status)) => LogView {
            progress: sum_up_to_max(greater(s.progress, p), LINE_PROGRESS),
            status,
            ..s
        },
        None => LogView { progress: sum_up_to_max(s.progress, LINE_PROGRESS), ..s },
    }
}

/// How far the build is after lines of output.
pub open spec fn after_lines(s: LogView, all: Seq<Seq<char>>) -> LogView
    decreases all.len(),
{
    if all.len() == 0 {
        s
    } else {
        after_line(after_lines(s, all.drop_last()), all.last())
    }
}

/// What to do with what came of a build's output.
pub enum LogAction {
    /// Write these lines to the log file, and read on.
    Write(Vec<String>),
    /// Read on.
    Skip,
    /// Read no further; the lines are for the console.
    Stop(Vec<LogLine>),
}

/// How far the build is after what came of its output.
pub open spec fn log_received(s: LogView, item: LogItem) -> LogView {
    match item {
        LogItem::Piece(c) => if c is Other {
            s
        } else {
            after_lines(s, lines_of(chunk_text(c)))
        },
        LogItem::Failure(_) => LogView { success: false, ..s },
    }
}

/// The message for output that broke off.
pub open spec fn log_error(reason: Seq<char>) -> Seq<char> {
    "Error receiving build logs: "@ + reason
}

/// The window after what came of a build's output.
pub open spec fn window_received(w: StateView, s: LogView, item: LogItem) -> StateView {
    match item {
        LogItem::Piece(c) => if c is Other || lines_of(chunk_text(c)).len() == 0 {
            w
        } else {
            let next = log_received(s, item);
            switched(
                w,
                Task::Measured {
                    progress: part_of(next.progress as int, BUILD_PARTS as int),
                    status: unless_empty(next.status),
                },
            )
        },
        LogItem::Failure(e) => notified(w, Notification::Error, Some(log_error(e@))),
    }
}

impl BuildLog {
    /// A build that has printed nothing yet.
    pub fn new() -> (r: BuildLog)
        ensures
            r@ == (LogView { progress: 0, status: seq![], success: true }),
    {
        let r = BuildLog { progress: 0, status: String::new(), success: true };
        assert(r@.status =~= Seq::<char>::empty());
        r
    }

    /// Takes in a line of output.
    pub fn line(&mut self, line: &str)
        ensures
            final(self)@ == after_line(old(self)@, line@),
    {
        if let Some((p, status)) = get_build_status(line) {
            if self.progress < p {
                self.progress = p;
            }
            self.status = status;
        }
        self.progress = self.progress.saturating_add(LINE_PROGRESS);
    }

    /// Takes in a piece of output. Gives its lines, for the log file, and what
    /// to show, unless there was no line.
    pub fn take(&mut self, output: &str) -> (r: (Vec<String>, Option<UIState>))
        ensures
            texts(r.0@) == lines_of(output@),
            final(self)@ == after_lines(old(self)@, lines_of(output@)),
            match r.1 {
                Some(u) => lines_of(output@).len() > 0 && u is Building && u@ == Task::Measured {
                    progress: part_of(final(self)@.progress as int, BUILD_PARTS as int),
                    status: unless_empty(final(self)@.status),
                },
                None => lines_of(output@).len() == 0,
            },
    {
        let ghost s0 = self@;
        let all: Vec<String> = lines(output);
        let ghost seqs = texts(all@);
        let mut i: usize = 0;
        while i < all.len()
            invariant
                i <= all.len(),
                seqs == texts(all@),
                self@ == after_lines(s0, seqs.take(i as int)),
            decreases all.len() - i,
        {
            self.line(all[i].as_str());
            i += 1;
            assert(seqs[i - 1] == all@[i - 1]@);
            assert(seqs.take(i as int).drop_last() == seqs.take(i - 1));
            assert(seqs.take(i as int).last() == seqs[i - 1]);
        }
        assert(seqs.take(seqs.len() as int) == seqs);
        assert(seqs.len() == all@.len());
        if all.len() == 0 {
            return (all, None);
        }
        let status: Option<String> = nonempty(self.status.as_str());
        let progress: Progress = Progress::of(self.progress as u128, BUILD_PARTS as u128);
        (all, Some(UIState::Building { progress: Some(progress), status }))
    }

    /// Takes note that the output broke off for the reason given. Gives the
    /// lines for the console.
    pub fn broke_off(&mut self, state: &mut AppState, reason: &str) -> (r: Vec<LogLine>)
        ensures
            final(self)@ == (LogView { success: false, ..old(self)@ }),
            final(state)@ == notified(
                old(state)@,
                Notification::Error,
                Some(log_error(reason@)),
            ),
            console(r@) == failure_console("\n"@ + log_error(reason@), log_error(reason@)),
    {
        self.success = false;
        let msg: String = joined("Error receiving build logs: ", reason);
        let _ = state.set_notification(Notification::Error, Some(msg.as_str()));
        failure_lines(joined("\n", msg.as_str()), msg.as_str())
    }

    /// Takes in what came of the build's output. Gives what to do.
    pub fn receive(&mut self, state: &mut AppState, item: &LogItem) -> (r: LogAction)
        ensures
            final(self)@ == log_received(old(self)@, *item),
            final(state)@ == window_received(old(state)@, old(self)@, *item),
            match *item {
                LogItem::Piece(c) => if c is Other {
                    r is Skip
                } else {
                    r matches LogAction::Write(v) && texts(v@) == lines_of(chunk_text(c))
                },
                LogItem::Failure(e) => r matches LogAction::Stop(out) && console(out@)
                    == failure_console("\n"@ + log_error(e@), log_error(e@)),
            },
    {
        match item {
            LogItem::Piece(c) => match read_chunk(c) {
                Some(output) => {
                    let (written, next): (Vec<String>, Option<UIState>) = self.take(
                        output.as_str(),
                    );
                    if let Some(u) = next {
                        state.switch_to(u);
                    }
                    LogAction::Write(written)
                },
                None => LogAction::Skip,
            },
            LogItem::Failure(e) => LogAction::Stop(self.broke_off(state, e.as_str())),
        }
    }

    /// Shows how the build ended. Gives what goes to the end of the log file.
    pub fn finish(self, state: &mut AppState) -> (r: Option<String>)
        ensures
            final(state)@ == switched(
                old(state)@,
                Task::Rest(
                    if self@.success {
                        "Build completed"@
                    } else {
                        "Build failed"@
                    },
                ),
            ),
            opt_text(r) == if self@.success {
                Some(self@.status)
            } else {
                None
            },
    {
        if self.success {
            state.switch_to(UIState::Idle(Some("Build completed".to_string())));
            Some(self.status)
        } else {
            state.switch_to(UIState::Error("Build failed".to_string()));
            None
        }
    }
}

/// The preview shows the command that the build runs.
pub proof fn law_preview(profile_packages: Seq<PackageView>, d: BuildView)
    requires
        d.profile_id.len() > 0,
    ensures
        preview(profile_packages, d) == command_lines(
            build_command(plan_args(plan_of(profile_packages, d))),
        ),
{
}

/// A build takes in what the selection names as it names it, and leaves out the
/// packages of the profile that the selection does not name.
pub proof fn law_plan_packages(profile_packages: Seq<PackageView>, d: BuildView, p: PackageView)
    ensures
        plan_of(profile_packages, d).packages.contains(p) <==> list_of(d.packages).contains(p) || (
        !p.enabled && has_name(profile_packages, p.name) && !has_name(list_of(d.packages), p.name)),
{
    lemma_extended(list_of(d.packages), profile_packages, false);
}

/// Output never takes progress back, and a milestone is not undercut.
pub proof fn law_progress(s: LogView, all: Seq<Seq<char>>, more: Seq<char>)
    ensures
        after_lines(s, all).progress >= s.progress,
        after_line(s, more).progress >= s.progress,
        build_status(more) matches Some((p, _)) ==> after_line(s, more).progress >= p,
        after_lines(s, all).success == s.success,
    decreases all.len(),
{
    if all.len() > 0 {
        law_progress(s, all.drop_last(), all.last());
    }
}

/// Output that comes in two pieces of whole lines counts as if it came in one.
pub proof fn law_output_pieces(s: LogView, a: Seq<Seq<char>>, b: Seq<Seq<char>>)
    ensures
        after_lines(after_lines(s, a), b) == after_lines(s, a + b),
    decreases b.len(),
{
    if b.len() == 0 {
        assert(a + b =~= a);
    } else {
        law_output_pieces(s, a, b.drop_last());
        assert((a + b).drop_last() =~= a + b.drop_last());
        assert((a + b).last() == b.last());
    }
}

/// How far a build is after all that came of its output, up to the first
/// failure.
pub open spec fn log_run(s: LogView, all: Seq<LogItem>) -> LogView
    decreases all.len(),
{
    if all.len() == 0 {
        s
    } else {
        let before_it = log_run(s, all.drop_last());
        if before_it.success {
            log_received(before_it, all.last())
        } else {
            before_it
        }
    }
}

/// The window after all that came of a build's output, up to the first failure.
pub open spec fn window_run(w: StateView, s: LogView, all: Seq<LogItem>) -> StateView
    decreases all.len(),
{
    if all.len() == 0 {
        w
    } else {
        let before_it = log_run(s, all.drop_last());
        if before_it.success {
            window_received(window_run(w, s, all.drop_last()), before_it, all.last())
        } else {
            window_run(w, s, all.drop_last())
        }
    }
}

/// A build succeeds exactly where its output does not break off, its progress
/// never goes back, and while its output is read the window stays busy. Where
/// the output broke off, an error is shown.
pub proof fn law_build_run(w: StateView, s: LogView, all: Seq<LogItem>)
    requires
        s.success,
        w.busy,
    ensures
        log_run(s, all).success <==> forall|i: int|
            0 <= i < all.len() ==> !(#[trigger] all[i] is Failure),
        log_run(s, all).progress >= s.progress,
        window_run(w, s, all).busy,
        !log_run(s, all).success ==> window_run(w, s, all).notification_is_error,
    decreases all.len(),
{
    if all.len() > 0 {
        let init = all.drop_last();
        law_build_run(w, s, init);
        let mid = log_run(s, init);
        assert forall|i: int| 0 <= i < init.len() implies init[i] == all[i] by {}
        if mid.success {
            if let LogItem::Piece(c) = all.last() {
                law_progress(mid, lines_of(chunk_text(c)), Seq::empty());
            }
            if forall|i: int| 0 <= i < all.len() ==> !(#[trigger] all[i] is Failure) {
                assert(!(all[all.len() - 1] is Failure));
            }
            if !(all.last() is Failure) {
                assert forall|i: int| 0 <= i < all.len() implies !(#[trigger] all[i] is Failure) by {
                    if i < init.len() {
                        assert(init[i] == all[i]);
                    }
                }
            }
        } else {
            let i = choose|i: int| 0 <= i < init.len() && #[trigger] init[i] is Failure;
            assert(all[i] is Failure);
        }
    }
}

/// A cleaned image name holds letters, numbers and dashes only, and stays as it
/// is.
pub proof fn law_image_name(s: Seq<char>)
    ensures
        forall|i: int|
            0 <= i < image_name(s).len() ==> alphanumeric(#[trigger] image_name(s)[i])
                || image_name(s)[i] == '-',
        image_name(image_name(s)) == image_name(s),
    decreases s.len(),
{
    let keep = |c: char| alphanumeric(c) || c == '-';
    reveal(Seq::filter);
    if s.len() > 0 {
        let t = s.drop_last();
        law_image_name(t);
        let n = image_name(t);
        if keep(s.last()) {
            assert(image_name(s) == n.push(s.last()));
            assert(image_name(s).drop_last() =~= n);
            assert forall|i: int| 0 <= i < image_name(s).len() implies alphanumeric(
                #[trigger] image_name(s)[i],
            ) || image_name(s)[i] == '-' by {
                if i < n.len() {
                    assert(image_name(s)[i] == n[i]);
                }
            }
            assert(image_name(image_name(s)) == image_name(n).push(s.last()));
        }
    }
}

/// Each argument of a build depends on its own part of the selection alone: it
/// is given exactly where that part is not empty, or not zero, and then it is
/// that part, whatever the other parts hold.
pub proof fn law_plan_arguments(profile_packages: Seq<PackageView>, d: BuildView)
    ensures
        ({
            let a = plan_args(plan_of(profile_packages, d));
            &&& a.overlay_path is Some <==> d.overlay_path.len() > 0
            &&& a.overlay_path matches Some(p) ==> p == d.overlay_path
            &&& a.disabled_services is Some <==> d.disabled_services.len() > 0
            &&& a.disabled_services matches Some(s) ==> s == d.disabled_services
            &&& a.extra_image_name is Some <==> image_name(d.extra_image_name).len() > 0
            &&& a.extra_image_name matches Some(s) ==> s == image_name(d.extra_image_name)
            &&& a.rootfs_size is Some <==> d.rootfs_size != 0
            &&& d.rootfs_size > 0 ==> a.rootfs_size == Some(d.rootfs_size as u32)
            &&& d.rootfs_size < 0 ==> a.rootfs_size == Some((d.rootfs_size + 0x1_0000_0000) as u32)
            &&& a.profile_id == normal_id(d.profile_id)
        }),
{
}

/// The arguments of any plan are its own parts, each given exactly where it is
/// not empty, or above zero.
pub proof fn law_arguments(p: PlanView)
    ensures
        ({
            let a = plan_args(p);
            &&& a.profile_id == p.profile_id
            &&& a.packages == p.packages
            &&& a.overlay_path is Some <==> p.overlay_path.len() > 0
            &&& a.overlay_path matches Some(s) ==> s == p.overlay_path
            &&& a.disabled_services is Some <==> p.disabled_services.len() > 0
            &&& a.disabled_services matches Some(s) ==> s == p.disabled_services
            &&& a.extra_image_name is Some <==> p.extra_image_name.len() > 0
            &&& a.extra_image_name matches Some(s) ==> s == p.extra_image_name
            &&& a.rootfs_size is Some <==> p.rootfs_size > 0
            &&& a.rootfs_size matches Some(n) ==> n == p.rootfs_size
        }),
{
}

/// A plan is for the selection's own version and target.
pub proof fn law_plan_target(profile_packages: Seq<PackageView>, d: BuildView)
    ensures
        plan_of(profile_packages, d).version == version_of(d.version),
        plan_of(profile_packages, d).target == target_of(d.target),
{
}

/// The command of a selection takes in the overlay exactly where a folder is
/// chosen, mounts it then and only then, and names each other part exactly
/// where there is one.
pub proof fn law_selection_command(
    profile_packages: Seq<PackageView>,
    d: BuildView,
    build_path: PathBuf,
)
    ensures
        ({
            let a = plan_args(plan_of(profile_packages, d));
            let c = build_command(a);
            let v = build_volumes(build_path, a.overlay_path);
            &&& c.contains("FILES=/overlay"@) <==> d.overlay_path.len() > 0
            &&& d.overlay_path.len() > 0 ==> v.contains(
                Volume { src: path_of(d.overlay_path), dest: path_of("/overlay"@) },
            )
            &&& d.overlay_path.len() == 0 ==> v.len() == 2
            &&& d.disabled_services.len() > 0 ==> c.contains(
                "DISABLED_SERVICES="@ + d.disabled_services,
            )
            &&& d.disabled_services.len() == 0 ==> forall|i: int|
                0 <= i < c.len() ==> !has_prefix(#[trigger] c[i], "DISABLED_SERVICES="@)
            &&& d.rootfs_size > 0 ==> c.contains(
                "ROOTFS_PARTSIZE="@ + decimal(d.rootfs_size as nat),
            )
            &&& d.rootfs_size == 0 ==> forall|i: int|
                0 <= i < c.len() ==> !has_prefix(#[trigger] c[i], "ROOTFS_PARTSIZE="@)
            &&& image_name(d.extra_image_name).len() > 0 ==> c.contains(
                "EXTRA_IMAGE_NAME="@ + image_name(d.extra_image_name),
            )
            &&& image_name(d.extra_image_name).len() == 0 ==> forall|i: int|
                0 <= i < c.len() ==> !has_prefix(#[trigger] c[i], "EXTRA_IMAGE_NAME="@)
            &&& c.contains("PROFILE="@ + normal_id(d.profile_id))
        }),
{
    let a = plan_args(plan_of(profile_packages, d));
    law_plan_arguments(profile_packages, d);
    law_build_command(a);
    law_command_variables(a);
    law_volumes(
        build_path,
        a.overlay_path,
        Volume { src: path_of(d.overlay_path), dest: path_of("/overlay"@) },
    );
    assert(build_command(a)[2] == "PROFILE="@ + normal_id(d.profile_id));
}

/// An image name keeps each letter, number and dash and drops every other
/// character, one by one and in order.
pub proof fn law_image_name_kept(a: Seq<char>, c: char)
    ensures
        alphanumeric(c) || c == '-' ==> image_name(a.push(c)) == image_name(a).push(c),
        !alphanumeric(c) && c != '-' ==> image_name(a.push(c)) == image_name(a),
        image_name(Seq::empty()) == Seq::<char>::empty(),
{
    reveal(Seq::filter);
    assert(a.push(c).drop_last() =~= a);
    assert(image_name(Seq::empty()) =~= Seq::<char>::empty());
}

/// A line that begins as a milestone reaches it, whatever follows; a line that
/// begins as none of them reaches none.
pub proof fn law_milestones(rest: Seq<char>)
    ensures
        build_status("Generate local signing"@ + rest) == Some(
            (100_000u64, "Generating signing keys"@),
        ),
        build_status("Building images for"@ + rest) == Some((200_000u64, "Preparing build"@)),
        build_status("Building package index"@ + rest) == Some(
            (200_000u64, "Building package index"@),
        ),
        build_status("Installing packages"@ + rest) == Some((400_000u64, "Installing packages"@)),
        build_status("Finalizing root filesystem"@ + rest) == Some(
            (700_000u64, "Finalizing filesystem"@),
        ),
        build_status("Building images..."@ + rest) == Some((800_000u64, "Building images"@)),
        build_status("Calculating checksums"@ + rest) == Some(
            (900_000u64, "Calculating checksums"@),
        ),
        !has_prefix(rest, "Generate local signing"@) && !has_prefix(rest, "Building images for"@)
            && !has_prefix(rest, "Building package index"@) && !has_prefix(
            rest,
            "Installing packages"@,
        ) && !has_prefix(rest, "Finalizing root filesystem"@) && !has_prefix(
            rest,
            "Building images..."@,
        ) && !has_prefix(rest, "Calculating checksums"@) ==> build_status(rest) is None,
{
    reveal_with_fuel(milestone_from, 9);
    reveal_strlit("Generate local signing");
    reveal_strlit("Building images for");
    reveal_strlit("Building package index");
    reveal_strlit("Installing packages");
    reveal_strlit("Finalizing root filesystem");
    reveal_strlit("Building images...");
    reveal_strlit("Calculating checksums");
    lemma_not_both("Building images for"@, "Generate local signing"@, rest, 0);
    lemma_not_both("Building package index"@, "Generate local signing"@, rest, 0);
    lemma_not_both("Building package index"@, "Building images for"@, rest, 9);
    lemma_not_both("Installing packages"@, "Generate local signing"@, rest, 0);
    lemma_not_both("Installing packages"@, "Building images for"@, rest, 0);
    lemma_not_both("Installing packages"@, "Building package index"@, rest, 0);
    lemma_not_both("Finalizing root filesystem"@, "Generate local signing"@, rest, 0);
    lemma_not_both("Finalizing root filesystem"@, "Building images for"@, rest, 0);
    lemma_not_both("Finalizing root filesystem"@, "Building package index"@, rest, 0);
    lemma_not_both("Finalizing root filesystem"@, "Installing packages"@, rest, 0);
    lemma_not_both("Building images..."@, "Generate local signing"@, rest, 0);
    lemma_not_both("Building images..."@, "Building images for"@, rest, 15);
    lemma_not_both("Building images..."@, "Building package index"@, rest, 9);
    lemma_not_both("Building images..."@, "Installing packages"@, rest, 0);
    lemma_not_both("Building images..."@, "Finalizing root filesystem"@, rest, 0);
    lemma_not_both("Calculating checksums"@, "Generate local signing"@, rest, 0);
    lemma_not_both("Calculating checksums"@, "Building images for"@, rest, 0);
    lemma_not_both("Calculating checksums"@, "Building package index"@, rest, 0);
    lemma_not_both("Calculating checksums"@, "Installing packages"@, rest, 0);
    lemma_not_both("Calculating checksums"@, "Finalizing root filesystem"@, rest, 0);
    lemma_not_both("Calculating checksums"@, "Building images..."@, rest, 0);
    law_parts(Seq::empty(), "Generate local signing"@, rest);
}

/// A text that begins with one word does not begin with another that differs
/// from it at a place that both have.
proof fn lemma_not_both(a: Seq<char>, b: Seq<char>, rest: Seq<char>, at: int)
    requires
        0 <= at < a.len(),
        at < b.len(),
        a[at] != b[at],
    ensures
        has_prefix(a + rest, a),
        !has_prefix(a + rest, b),
{
    law_parts(Seq::empty(), a, rest);
    let s = a + rest;
    if has_prefix(s, b) {
        assert(s.subrange(0, b.len() as int)[at] == s[at]);
    }
}

/// A line of output counts for its own share, on top of the milestone that it
/// reaches where that is further than the build was; it sets the status only
/// where it reaches a milestone.
pub proof fn law_line(s: LogView, line: Seq<char>)
    requires
        s.progress <= 0xffff_ffff,
    ensures
        build_status(line) is None ==> after_line(s, line).progress == s.progress + 500
            && after_line(s, line).status == s.status,
        build_status(line) matches Some((p, status)) ==> after_line(s, line).status == status
            && after_line(s, line).progress == (if p > s.progress { p } else { s.progress })
            + 500,
        after_line(s, line).success == s.success,
        after_lines(s, seq![line]) == after_line(s, line),
{
    reveal_with_fuel(milestone_from, 9);
    assert(seq![line].drop_last() =~= Seq::<Seq<char>>::empty());
    reveal_with_fuel(after_lines, 2);
}

/// A piece of output that holds a line shows how far the build is then; one
/// without a line changes nothing in the window.
pub proof fn law_output_shown(w: StateView, s: LogView, c: LogChunk)
    requires
        !(c is Other),
    ensures
        ({
            let next = log_received(s, LogItem::Piece(c));
            let shown = window_received(w, s, LogItem::Piece(c));
            &&& next == after_lines(s, lines_of(chunk_text(c)))
            &&& lines_of(chunk_text(c)).len() == 0 ==> shown == w
            &&& lines_of(chunk_text(c)).len() > 0 ==> shown.busy && shown.progress_visible
                && shown.progress_value.part == next.progress && shown.progress_value.whole
                == 1_000_000 && shown.status_text == if next.status.len() > 0 {
                next.status
            } else {
                w.status_text
            }
        }),
{
}

/// The preview of a selection with a profile shows each word of the command; of
/// one without a profile it is empty.
pub proof fn law_preview_words(profile_packages: Seq<PackageView>, d: BuildView, i: int)
    requires
        0 <= i < build_command(plan_args(plan_of(profile_packages, d))).len(),
    ensures
        d.profile_id.len() > 0 ==> has_part(
            preview(profile_packages, d),
            build_command(plan_args(plan_of(profile_packages, d)))[i],
        ),
        d.profile_id.len() == 0 ==> preview(profile_packages, d).len() == 0,
{
    let c = build_command(plan_args(plan_of(profile_packages, d)));
    law_build_command(plan_args(plan_of(profile_packages, d)));
    let gap = "\n\n    "@;
    let s = command_lines(c);
    let rest = joined_by(c.skip(2), gap);
    let none = Seq::<char>::empty();
    if i == 0 {
        law_parts(none, c[0], " "@ + c[1] + gap + rest);
        assert(none + c[0] + (" "@ + c[1] + gap + rest) =~= s);
    } else if i == 1 {
        law_parts(c[0] + " "@, c[1], gap + rest);
        assert(c[0] + " "@ + c[1] + (gap + rest) =~= s);
    } else {
        law_joined_holds(c.skip(2), gap, i - 2);
        assert(c.skip(2)[i - 2] == c[i]);
        let front = c[0] + " "@ + c[1] + gap;
        law_parts(front, rest, none);
        assert(front + rest + none =~= s);
        lemma_part_of_part(s, rest, c[i]);
    }
}

/// The log of a build is named after its version, its profile and the time, so
/// that two builds of one profile at different times have different logs.
pub proof fn law_log_name(v: Version, id: Seq<char>, a: Seq<char>, b: Seq<char>)
    ensures
        log_name(v, id, a) == "build-"@ + version_text(v) + "-"@ + id + "-"@ + a + ".log"@,
        log_name(v, id, a) == log_name(v, id, b) ==> a == b,
{
    let front = "build-"@ + version_text(v) + "-"@ + id + "-"@;
    if log_name(v, id, a) == log_name(v, id, b) {
        let s = log_name(v, id, a);
        let n = ".log"@.len() as int;
        assert(log_name(v, id, a) =~= front + a + ".log"@);
        assert(log_name(v, id, b) =~= front + b + ".log"@);
        assert(s.subrange(front.len() as int, s.len() - n) =~= a);
        assert(s.subrange(front.len() as int, s.len() - n) =~= b);
    }
}

/// The images of a target are in the folder of the subtarget in that of the
/// target, in the folder that is set.
pub proof fn law_target_folder(build_path: PathBuf, t: TargetView)
    ensures
        target_folder(build_path, t) == path_joined(
            build_path,
            path_joined(
                path_joined(path_of(Seq::empty()), path_of(t.target)),
                path_of(t.subtarget),
            ),
        ),
{
}

/// A character is kept exactly where it is a dash or marked, each at its place.
pub proof fn law_kept_chars(s: Seq<char>, c: char, marked: Seq<bool>)
    requires
        marked.len() == s.len() + 1,
    ensures
        marked.last() || c == '-' ==> kept_chars(s.push(c), marked) == kept_chars(s, marked).push(c),
        !marked.last() && c != '-' ==> kept_chars(s.push(c), marked) == kept_chars(s, marked),
        kept_chars(Seq::empty(), marked) == Seq::<char>::empty(),
{
    assert(s.push(c).drop_last() =~= s);
}

/// The views of a plan and of a build's progress hold each part as it is.
pub proof fn law_plan_view(p: BuildPlan, l: BuildLog)
    ensures
        p@.version == p.version && p@.target == p.target@ && p@.profile_id == p.profile_id@,
        p@.packages == p.packages@ && p@.extra_image_name == p.extra_image_name@,
        p@.rootfs_size == p.rootfs_size && p@.disabled_services == p.disabled_services@,
        p@.overlay_path == p.overlay_path@,
        l@.progress == l.progress && l@.status == l.status@ && l@.success == l.success,
{
}

/// The message for output that breaks off gives the reason.
pub proof fn law_log_error(reason: Seq<char>)
    ensures
        log_error(reason) == "Error receiving build logs: "@ + reason,
{
}

} // verus!
