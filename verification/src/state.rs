//! What the window shows.

use vstd::prelude::*;

use crate::domain::version::{version_text, Version};
use crate::progress::{nothing, Progress, ProgressView};
use crate::text::scan::{joined, opt_str, opt_text, texts};

verus! {

/// A downloaded image builder, as it is listed.
#[derive(Debug)]
pub struct ImageBuilderItem {
    pub tag: String,
    pub version: String,
    pub target: String,
    pub size: String,
}

/// What an [`ImageBuilderItem`] holds.
pub struct ItemView {
    pub tag: Seq<char>,
    pub version: Seq<char>,
    pub target: Seq<char>,
    pub size: Seq<char>,
}

impl View for ImageBuilderItem {
    type V = ItemView;

    open spec fn view(&self) -> ItemView {
        ItemView {
            tag: self.tag@,
            version: self.version@,
            target: self.target@,
            size: self.size@,
        }
    }
}

/// What a sequence of listed image builders holds.
pub open spec fn items(v: Seq<ImageBuilderItem>) -> Seq<ItemView> {
    v.map_values(|i: ImageBuilderItem| i@)
}

/// What the application is doing.
#[derive(Debug)]
pub enum UIState {
    Idle(Option<String>),
    Building { progress: Option<Progress>, status: Option<String> },
    DownloadingBuilder { progress: Option<Progress>, status: Option<String> },
    FetchingFromDevice { progress: Option<Progress>, status: Option<String> },
    FetchingPackages,
    LoadingPreset,
    LoadingProfiles(Version),
    LoadingVersions,
    SavingPreset,
    SelectBuildFolder,
    SelectOverlayFolder,
    Error(String),
}

/// How a task shows: what a [`UIState`] comes to.
pub enum Task {
    /// Nothing is going on; the text says what was.
    Rest(Seq<char>),
    /// Something is going on whose progress is known, with a text or the one
    /// there was.
    Measured { progress: ProgressView, status: Option<Seq<char>> },
    /// Something is going on, with or without a progress bar.
    Busy { name: Seq<char>, bar: bool },
    /// The profiles of a version are being loaded.
    Profiles(Version),
}

impl View for UIState {
    type V = Task;

    open spec fn view(&self) -> Task {
        match *self {
            UIState::Idle(status) => Task::Rest(
                match status {
                    Some(s) => s@,
                    None => seq![],
                },
            ),
            UIState::Building { progress, status } => measured(progress, status),
            UIState::DownloadingBuilder { progress, status } => measured(progress, status),
            UIState::FetchingFromDevice { progress, status } => measured(progress, status),
            UIState::FetchingPackages => Task::Busy {
                name: "Fetching package list"@,
                bar: true,
            },
            UIState::LoadingPreset => Task::Busy { name: "Loading preset"@, bar: true },
            UIState::LoadingProfiles(version) => Task::Profiles(version),
            UIState::LoadingVersions => Task::Busy { name: "Fetching versions"@, bar: true },
            UIState::SavingPreset => Task::Busy { name: "Saving preset"@, bar: true },
            UIState::SelectBuildFolder => Task::Busy { name: "Select build folder"@, bar: false },
            UIState::SelectOverlayFolder => Task::Busy {
                name: "Select overlay folder"@,
                bar: false,
            },
            UIState::Error(msg) => Task::Rest(msg@),
        }
    }
}

/// A task whose progress is known.
pub open spec fn measured(progress: Option<Progress>, status: Option<String>) -> Task {
    Task::Measured {
        progress: match progress {
            Some(p) => p@,
            None => nothing(),
        },
        status: opt_text(status),
    }
}

/// How grave a notification is.
#[derive(Clone, Copy, Debug, Eq, PartialEq, Structural)]
pub enum Notification {
    Info,
    Warning,
    Error,
}

/// A line for the console.
#[derive(Debug)]
pub struct LogLine {
    pub to_stderr: bool,
    pub text: String,
}

/// What lines for the console hold: whether each goes to the error output, and
/// its text.
pub open spec fn console(v: Seq<LogLine>) -> Seq<(bool, Seq<char>)> {
    v.map_values(|l: LogLine| (l.to_stderr, l.text@))
}

/// The line that a notification leaves on the console.
pub open spec fn log_text(t: Notification, text: Seq<char>) -> Seq<char> {
    match t {
        Notification::Error => "Error: "@ + text,
        Notification::Warning => "Warning: "@ + text,
        Notification::Info => text,
    }
}

/// What a failure leaves on the console: a plain line, and that of the
/// notification.
pub open spec fn failure_console(plain: Seq<char>, text: Seq<char>) -> Seq<(bool, Seq<char>)> {
    seq![(true, plain), (true, log_text(Notification::Error, text))]
}

/// What a failure leaves on the console.
pub fn failure_lines(plain: String, text: &str) -> (r: Vec<LogLine>)
    ensures
        console(r@) == failure_console(plain@, text@),
{
    let ghost first = plain@;
    let mut r: Vec<LogLine> = Vec::new();
    r.push(LogLine { to_stderr: true, text: plain });
    r.push(Notification::Error.log(text));
    assert(console(r@) =~= failure_console(first, text@));
    r
}

impl Notification {
    /// The line that the notification leaves on the console.
    pub fn log(self, text: &str) -> (r: LogLine)
        ensures
            r.to_stderr == !(self is Info),
            r.text@ == log_text(self, text@),
    {
        match self {
            Notification::Error => LogLine { to_stderr: true, text: joined("Error: ", text) },
            Notification::Warning => LogLine { to_stderr: true, text: joined("Warning: ", text) },
            Notification::Info => LogLine { to_stderr: false, text: text.to_string() },
        }
    }
}

/// What the window shows.
#[derive(Debug)]
pub struct AppState {
    pub build_command_preview: String,
    pub build_path_text: String,
    pub busy: bool,
    pub current_highlighted_profile_index: i32,
    pub disabled_services_text: String,
    pub downloaded_builders: Vec<ImageBuilderItem>,
    pub extra_image_name_text: String,
    pub image_exists: bool,
    pub notification: String,
    pub notification_is_error: bool,
    pub notification_is_warning: bool,
    pub original_packages: Vec<String>,
    pub overlay_path_text: String,
    pub packages_text: String,
    pub profiles: Vec<String>,
    pub profiles_fetch_failed: bool,
    pub progress_value: Progress,
    pub progress_visible: bool,
    pub removed_packages_text: String,
    pub rootfs_size_text: String,
    pub search_text: String,
    pub selected_id: String,
    pub selected_model: String,
    pub selected_target: String,
    pub selected_version: String,
    pub show_rcs: bool,
    pub ssh_agent_identities: Vec<String>,
    pub status_text: String,
    pub version: String,
    pub versions: Vec<String>,
}

/// What an [`AppState`] holds.
#[verifier::ext_equal]
pub struct StateView {
    pub build_command_preview: Seq<char>,
    pub build_path_text: Seq<char>,
    pub busy: bool,
    pub current_highlighted_profile_index: i32,
    pub disabled_services_text: Seq<char>,
    pub downloaded_builders: Seq<ItemView>,
    pub extra_image_name_text: Seq<char>,
    pub image_exists: bool,
    pub notification: Seq<char>,
    pub notification_is_error: bool,
    pub notification_is_warning: bool,
    pub original_packages: Seq<Seq<char>>,
    pub overlay_path_text: Seq<char>,
    pub packages_text: Seq<char>,
    pub profiles: Seq<Seq<char>>,
    pub profiles_fetch_failed: bool,
    pub progress_value: ProgressView,
    pub progress_visible: bool,
    pub removed_packages_text: Seq<char>,
    pub rootfs_size_text: Seq<char>,
    pub search_text: Seq<char>,
    pub selected_id: Seq<char>,
    pub selected_model: Seq<char>,
    pub selected_target: Seq<char>,
    pub selected_version: Seq<char>,
    pub show_rcs: bool,
    pub ssh_agent_identities: Seq<Seq<char>>,
    pub status_text: Seq<char>,
    pub version: Seq<char>,
    pub versions: Seq<Seq<char>>,
}

impl View for AppState {
    type V = StateView;

    open spec fn view(&self) -> StateView {
        StateView {
            build_command_preview: self.build_command_preview@,
            build_path_text: self.build_path_text@,
            busy: self.busy,
            current_highlighted_profile_index: self.current_highlighted_profile_index,
            disabled_services_text: self.disabled_services_text@,
            downloaded_builders: items(self.downloaded_builders@),
            extra_image_name_text: self.extra_image_name_text@,
            image_exists: self.image_exists,
            notification: self.notification@,
            notification_is_error: self.notification_is_error,
            notification_is_warning: self.notification_is_warning,
            original_packages: texts(self.original_packages@),
            overlay_path_text: self.overlay_path_text@,
            packages_text: self.packages_text@,
            profiles: texts(self.profiles@),
            profiles_fetch_failed: self.profiles_fetch_failed,
            progress_value: self.progress_value@,
            progress_visible: self.progress_visible,
            removed_packages_text: self.removed_packages_text@,
            rootfs_size_text: self.rootfs_size_text@,
            search_text: self.search_text@,
            selected_id: self.selected_id@,
            selected_model: self.selected_model@,
            selected_target: self.selected_target@,
            selected_version: self.selected_version@,
            show_rcs: self.show_rcs,
            ssh_agent_identities: texts(self.ssh_agent_identities@),
            status_text: self.status_text@,
            version: self.version@,
            versions: texts(self.versions@),
        }
    }
}

/// The window before anything is shown.
pub open spec fn blank() -> StateView {
    StateView {
        build_command_preview: seq![],
        build_path_text: seq![],
        busy: false,
        current_highlighted_profile_index: 0,
        disabled_services_text: seq![],
        downloaded_builders: seq![],
        extra_image_name_text: seq![],
        image_exists: false,
        notification: seq![],
        notification_is_error: false,
        notification_is_warning: false,
        original_packages: seq![],
        overlay_path_text: seq![],
        packages_text: seq![],
        profiles: seq![],
        profiles_fetch_failed: false,
        progress_value: nothing(),
        progress_visible: false,
        removed_packages_text: seq![],
        rootfs_size_text: seq![],
        search_text: seq![],
        selected_id: seq![],
        selected_model: seq![],
        selected_target: seq![],
        selected_version: seq![],
        show_rcs: false,
        ssh_agent_identities: seq![],
        status_text: seq![],
        version: seq![],
        versions: seq![],
    }
}

impl Default for AppState {
    fn default() -> (r: AppState)
        ensures
            r@ == blank(),
    {
        let r = AppState {
            build_command_preview: String::new(),
            build_path_text: String::new(),
            busy: false,
            current_highlighted_profile_index: 0,
            disabled_services_text: String::new(),
            downloaded_builders: Vec::new(),
            extra_image_name_text: String::new(),
            image_exists: false,
            notification: String::new(),
            notification_is_error: false,
            notification_is_warning: false,
            original_packages: Vec::new(),
            overlay_path_text: String::new(),
            packages_text: String::new(),
            profiles: Vec::new(),
            profiles_fetch_failed: false,
            progress_value: Progress::none(),
            progress_visible: false,
            removed_packages_text: String::new(),
            rootfs_size_text: String::new(),
            search_text: String::new(),
            selected_id: String::new(),
            selected_model: String::new(),
            selected_target: String::new(),
            selected_version: String::new(),
            show_rcs: false,
            ssh_agent_identities: Vec::new(),
            status_text: String::new(),
            version: String::new(),
            versions: Vec::new(),
        };
        assert(r@ =~= blank());
        r
    }
}

/// The window with a notification, or without one.
pub open spec fn notified(s: StateView, t: Notification, text: Option<Seq<char>>) -> StateView {
    match text {
        Some(msg) => StateView {
            notification_is_error: t is Error,
            notification_is_warning: t is Warning,
            notification: msg,
            ..s
        },
        None => StateView {
            notification_is_error: false,
            notification_is_warning: false,
            notification: seq![],
            ..s
        },
    }
}

/// The window while something is going on.
pub open spec fn made_busy(s: StateView, status: Seq<char>, bar: bool) -> StateView {
    StateView {
        busy: true,
        progress_value: if bar {
            nothing()
        } else {
            s.progress_value
        },
        progress_visible: bar,
        status_text: status,
        ..s
    }
}

/// The window after a switch to a task.
pub open spec fn switched(s: StateView, next: Task) -> StateView {
    match next {
        Task::Rest(status) => StateView {
            busy: false,
            progress_value: nothing(),
            progress_visible: false,
            status_text: status,
            ..s
        },
        Task::Measured { progress, status } => StateView {
            busy: true,
            progress_value: progress,
            progress_visible: true,
            status_text: match status {
                Some(t) => t,
                None => s.status_text,
            },
            ..s
        },
        Task::Busy { name, bar } => made_busy(s, name, bar),
        Task::Profiles(version) => made_busy(
            StateView {
                search_text: seq![],
                selected_id: seq![],
                selected_version: version_text(version),
                ..s
            },
            "Fetching profiles"@,
            true,
        ),
    }
}

/// The window without a selected profile.
pub open spec fn profile_reset(s: StateView) -> StateView {
    notified(
        StateView {
            build_command_preview: seq![],
            disabled_services_text: seq![],
            extra_image_name_text: seq![],
            image_exists: false,
            original_packages: seq![],
            overlay_path_text: seq![],
            packages_text: seq![],
            profiles_fetch_failed: false,
            progress_value: nothing(),
            progress_visible: false,
            removed_packages_text: seq![],
            rootfs_size_text: seq![],
            selected_id: seq![],
            selected_model: seq![],
            selected_target: seq![],
            status_text: seq![],
            ..s
        },
        Notification::Info,
        None,
    )
}

impl AppState {
    /// Shows that the application does something else now.
    pub fn switch_to(&mut self, next_state: UIState)
        ensures
            final(self)@ == switched(old(self)@, next_state@),
    {
        let ghost want = switched(self@, next_state@);
        match next_state {
            UIState::Idle(status) => {
                self.busy = false;
                self.progress_value = Progress::none();
                self.progress_visible = false;
                match status {
                    Some(s) => {
                        self.status_text = s;
                    },
                    None => {
                        self.status_text = String::new();
                    },
                }
            },
            UIState::Building { progress, status } => self.set_measured(progress, status),
            UIState::DownloadingBuilder { progress, status } => self.set_measured(progress, status),
            UIState::FetchingFromDevice { progress, status } => self.set_measured(progress, status),
            UIState::FetchingPackages => self.set_busy("Fetching package list", true),
            UIState::LoadingPreset => self.set_busy("Loading preset", true),
            UIState::SavingPreset => self.set_busy("Saving preset", true),
            UIState::LoadingProfiles(version) => {
                self.search_text = String::new();
                self.selected_id = String::new();
                self.selected_version = version.to_string();
                self.set_busy("Fetching profiles", true);
            },
            UIState::LoadingVersions => self.set_busy("Fetching versions", true),
            UIState::SelectBuildFolder => self.set_busy("Select build folder", false),
            UIState::SelectOverlayFolder => self.set_busy("Select overlay folder", false),
            UIState::Error(msg) => {
                self.busy = false;
                self.progress_value = Progress::none();
                self.progress_visible = false;
                self.status_text = msg;
            },
        }
        assert(self@ =~= want);
    }

    /// Shows a task whose progress is known.
    fn set_measured(&mut self, progress: Option<Progress>, status: Option<String>)
        ensures
            final(self)@ == switched(old(self)@, measured(progress, status)),
    {
        let ghost want = switched(self@, measured(progress, status));
        self.busy = true;
        self.progress_value = match progress {
            Some(p) => p,
            None => Progress::none(),
        };
        self.progress_visible = true;
        if let Some(s) = status {
            self.status_text = s;
        }
        assert(self@ =~= want);
    }

    /// Clears all that belongs to the selected profile.
    pub fn reset_profile(&mut self)
        ensures
            final(self)@ == profile_reset(old(self)@),
    {
        let ghost want = profile_reset(self@);
        self.build_command_preview = String::new();
        self.disabled_services_text = String::new();
        self.extra_image_name_text = String::new();
        self.image_exists = false;
        self.original_packages = Vec::new();
        self.overlay_path_text = String::new();
        self.packages_text = String::new();
        self.profiles_fetch_failed = false;
        self.progress_value = Progress::none();
        self.progress_visible = false;
        self.removed_packages_text = String::new();
        self.rootfs_size_text = String::new();
        self.selected_id = String::new();
        self.selected_model = String::new();
        self.selected_target = String::new();
        self.status_text = String::new();
        let _ = self.set_notification(Notification::Info, None);
        assert(self@ =~= want);
    }

    /// Shows a notification, or none. Gives the line for the console.
    pub fn set_notification(&mut self, t: Notification, text: Option<&str>) -> (r: Option<LogLine>)
        ensures
            final(self)@ == notified(old(self)@, t, opt_str(text)),
            match text {
                Some(msg) => r matches Some(line) && line.to_stderr == !(t is Info)
                    && line.text@ == log_text(t, msg@),
                None => r is None,
            },
    {
        let ghost want = notified(self@, t, opt_str(text));
        let line: Option<LogLine> = match text {
            Some(msg) => {
                self.notification_is_error = t == Notification::Error;
                self.notification_is_warning = t == Notification::Warning;
                self.notification = msg.to_string();
                Some(t.log(msg))
            },
            None => {
                self.notification_is_error = false;
                self.notification_is_warning = false;
                self.notification = String::new();
                None
            },
        };
        assert(self@ =~= want);
        line
    }

    /// Shows that something is going on.
    fn set_busy(&mut self, status: &str, show_progress: bool)
        ensures
            final(self)@ == made_busy(old(self)@, status@, show_progress),
    {
        let ghost want = made_busy(self@, status@, show_progress);
        self.busy = true;
        if show_progress {
            self.progress_value = Progress::none();
            self.progress_visible = true;
        } else {
            self.progress_visible = false;
        }
        self.status_text = status.to_string();
        assert(self@ =~= want);
    }
}

/// The window is busy exactly while a task goes on, and at rest it shows no
/// progress.
pub proof fn law_busy(s: StateView, next: Task)
    ensures
        switched(s, next).busy <==> !(next is Rest),
        next is Rest ==> !switched(s, next).progress_visible && switched(s, next).progress_value
            == nothing(),
{
}

/// A switch to any task but the loading of profiles changes nothing but the
/// busy mark, the progress and the status text.
pub proof fn law_switch_keeps(s: StateView, next: Task)
    requires
        !(next is Profiles),
    ensures
        (StateView {
            busy: s.busy,
            progress_value: s.progress_value,
            progress_visible: s.progress_visible,
            status_text: s.status_text,
            ..switched(s, next)
        }) == s,
{
}

/// A switch to rest leaves no trace of the task before it.
pub proof fn law_last_switch(s: StateView, first: Task, second: Task)
    requires
        second is Rest,
        !(first is Profiles),
    ensures
        switched(switched(s, first), second) == switched(s, second),
{
}

/// A notification is an error, a warning or neither, and where there is none it
/// is neither.
pub proof fn law_notification(s: StateView, t: Notification, text: Option<Seq<char>>)
    ensures
        !(notified(s, t, text).notification_is_error && notified(
            s,
            t,
            text,
        ).notification_is_warning),
        text is None ==> notified(s, t, text).notification == Seq::<char>::empty()
            && !notified(s, t, text).notification_is_error && !notified(
            s,
            t,
            text,
        ).notification_is_warning,
        text matches Some(m) ==> notified(s, t, text).notification == m,
{
    assert(notified(s, t, None).notification =~= Seq::<char>::empty());
}

/// Clearing the profile twice is clearing it once, and it leaves the versions,
/// the search and the settings as they are.
pub proof fn law_reset(s: StateView)
    ensures
        profile_reset(profile_reset(s)) == profile_reset(s),
        profile_reset(s).versions == s.versions,
        profile_reset(s).selected_version == s.selected_version,
        profile_reset(s).search_text == s.search_text,
        profile_reset(s).profiles == s.profiles,
        profile_reset(s).build_path_text == s.build_path_text,
        profile_reset(s).busy == s.busy,
{
    assert(profile_reset(profile_reset(s)) =~= profile_reset(s));
}

/// A task whose progress is known shows that progress and its text, or keeps the
/// text there was where it has none.
pub proof fn law_measured(s: StateView, progress: Option<Progress>, status: Option<String>)
    ensures
        ({
            let w = switched(s, measured(progress, status));
            &&& w.busy && w.progress_visible
            &&& progress matches Some(p) ==> w.progress_value == p@
            &&& progress is None ==> w.progress_value.part == 0
            &&& status matches Some(t) ==> w.status_text == t@
            &&& status is None ==> w.status_text == s.status_text
        }),
{
}

/// A task without known progress shows its text, and a bar at its start where
/// it has one.
pub proof fn law_busy_shown(s: StateView, name: Seq<char>, bar: bool)
    ensures
        ({
            let w = switched(s, Task::Busy { name, bar });
            &&& w.busy && w.status_text == name && w.progress_visible == bar
            &&& bar ==> w.progress_value.part == 0
            &&& !bar ==> w.progress_value == s.progress_value
        }),
        switched(s, Task::Rest(name)).status_text == name,
{
}

/// Loading the profiles of a version selects that version and clears the query
/// and the selected profile; all that is shown besides stays.
pub proof fn law_profiles_task(s: StateView, v: Version)
    ensures
        ({
            let w = switched(s, Task::Profiles(v));
            &&& w.selected_version == version_text(v)
            &&& w.search_text.len() == 0 && w.selected_id.len() == 0
            &&& w.busy && w.progress_visible && w.status_text == "Fetching profiles"@
            &&& (StateView {
                selected_version: s.selected_version,
                search_text: s.search_text,
                selected_id: s.selected_id,
                busy: s.busy,
                progress_value: s.progress_value,
                progress_visible: s.progress_visible,
                status_text: s.status_text,
                ..w
            }) == s
        }),
{
}

/// What the application does shows under its own text.
pub proof fn law_task_texts(text: String, v: Version)
    ensures
        UIState::Idle(Some(text))@ == Task::Rest(text@),
        UIState::Idle(None)@ == Task::Rest(Seq::empty()),
        UIState::Error(text)@ == Task::Rest(text@),
        UIState::FetchingPackages@ == (Task::Busy { name: "Fetching package list"@, bar: true }),
        UIState::LoadingPreset@ == (Task::Busy { name: "Loading preset"@, bar: true }),
        UIState::LoadingVersions@ == (Task::Busy { name: "Fetching versions"@, bar: true }),
        UIState::SavingPreset@ == (Task::Busy { name: "Saving preset"@, bar: true }),
        UIState::SelectBuildFolder@ == (Task::Busy { name: "Select build folder"@, bar: false }),
        UIState::SelectOverlayFolder@ == (Task::Busy {
            name: "Select overlay folder"@,
            bar: false,
        }),
        UIState::LoadingProfiles(v)@ == Task::Profiles(v),
{
}

/// A notification changes the notification and its marks alone, and the marks
/// are those of its own kind.
pub proof fn law_notified_keeps(s: StateView, t: Notification, text: Option<Seq<char>>)
    ensures
        (StateView {
            notification: s.notification,
            notification_is_error: s.notification_is_error,
            notification_is_warning: s.notification_is_warning,
            ..notified(s, t, text)
        }) == s,
        text is Some ==> (notified(s, t, text).notification_is_error <==> t is Error),
        text is Some ==> (notified(s, t, text).notification_is_warning <==> t is Warning),
{
}

/// The console tells errors and warnings by a word in front, and everything
/// else as it is.
pub proof fn law_log_text(text: Seq<char>)
    ensures
        log_text(Notification::Error, text) == "Error: "@ + text,
        log_text(Notification::Warning, text) == "Warning: "@ + text,
        log_text(Notification::Info, text) == text,
{
}

/// Clearing the profile clears all that belongs to it, and nothing else.
pub proof fn law_reset_exact(s: StateView)
    ensures
        ({
            let w = profile_reset(s);
            &&& w.build_command_preview.len() == 0 && w.disabled_services_text.len() == 0
            &&& w.extra_image_name_text.len() == 0 && w.original_packages.len() == 0
            &&& w.overlay_path_text.len() == 0 && w.packages_text.len() == 0
            &&& w.removed_packages_text.len() == 0 && w.rootfs_size_text.len() == 0
            &&& w.selected_id.len() == 0 && w.selected_model.len() == 0
            &&& w.selected_target.len() == 0 && w.status_text.len() == 0
            &&& w.notification.len() == 0 && !w.notification_is_error && !w.notification_is_warning
            &&& !w.image_exists && !w.profiles_fetch_failed && !w.progress_visible
            &&& w.progress_value.part == 0
            &&& (StateView {
                build_command_preview: s.build_command_preview,
                disabled_services_text: s.disabled_services_text,
                extra_image_name_text: s.extra_image_name_text,
                image_exists: s.image_exists,
                original_packages: s.original_packages,
                overlay_path_text: s.overlay_path_text,
                packages_text: s.packages_text,
                profiles_fetch_failed: s.profiles_fetch_failed,
                progress_value: s.progress_value,
                progress_visible: s.progress_visible,
                removed_packages_text: s.removed_packages_text,
                rootfs_size_text: s.rootfs_size_text,
                selected_id: s.selected_id,
                selected_model: s.selected_model,
                selected_target: s.selected_target,
                status_text: s.status_text,
                notification: s.notification,
                notification_is_error: s.notification_is_error,
                notification_is_warning: s.notification_is_warning,
                ..w
            }) == s
        }),
{
}

/// The view of the window holds all that is shown, each part as it is.
pub proof fn law_state_view(s: AppState, i: ImageBuilderItem)
    ensures
        s@.build_command_preview == s.build_command_preview@,
        s@.build_path_text == s.build_path_text@,
        s@.busy == s.busy,
        s@.current_highlighted_profile_index == s.current_highlighted_profile_index,
        s@.disabled_services_text == s.disabled_services_text@,
        s@.downloaded_builders == items(s.downloaded_builders@),
        s@.extra_image_name_text == s.extra_image_name_text@,
        s@.image_exists == s.image_exists,
        s@.notification == s.notification@,
        s@.notification_is_error == s.notification_is_error,
        s@.notification_is_warning == s.notification_is_warning,
        s@.original_packages == texts(s.original_packages@),
        s@.overlay_path_text == s.overlay_path_text@,
        s@.packages_text == s.packages_text@,
        s@.profiles == texts(s.profiles@),
        s@.profiles_fetch_failed == s.profiles_fetch_failed,
        s@.progress_value == s.progress_value@,
        s@.progress_visible == s.progress_visible,
        s@.removed_packages_text == s.removed_packages_text@,
        s@.rootfs_size_text == s.rootfs_size_text@,
        s@.search_text == s.search_text@,
        s@.selected_id == s.selected_id@,
        s@.selected_model == s.selected_model@,
        s@.selected_target == s.selected_target@,
        s@.selected_version == s.selected_version@,
        s@.show_rcs == s.show_rcs,
        s@.ssh_agent_identities == texts(s.ssh_agent_identities@),
        s@.status_text == s.status_text@,
        s@.version == s.version@,
        s@.versions == texts(s.versions@),
        i@.tag == i.tag@ && i@.version == i.version@ && i@.target == i.target@ && i@.size == i.size@,
{
}

/// Lines go to the console one by one, each to its stream; a failure leaves its
/// plain line, and behind it that of an error.
pub proof fn law_console(v: Seq<LogLine>, i: int, plain: Seq<char>, text: Seq<char>)
    ensures
        console(v).len() == v.len(),
        0 <= i < v.len() ==> console(v)[i] == (v[i].to_stderr, v[i].text@),
        failure_console(plain, text) == seq![(true, plain), (true, "Error: "@ + text)],
{
}

/// The window starts at rest, with every text and list empty and nothing marked.
pub proof fn law_blank()
    ensures
        !blank().busy && !blank().progress_visible && blank().progress_value.part == 0,
        !blank().image_exists && !blank().profiles_fetch_failed && !blank().show_rcs,
        !blank().notification_is_error && !blank().notification_is_warning,
        blank().current_highlighted_profile_index == 0,
        blank().notification.len() == 0 && blank().status_text.len() == 0,
        blank().build_command_preview.len() == 0 && blank().build_path_text.len() == 0,
        blank().overlay_path_text.len() == 0 && blank().disabled_services_text.len() == 0,
        blank().extra_image_name_text.len() == 0 && blank().rootfs_size_text.len() == 0,
        blank().packages_text.len() == 0 && blank().removed_packages_text.len() == 0,
        blank().original_packages.len() == 0 && blank().search_text.len() == 0,
        blank().selected_id.len() == 0 && blank().selected_model.len() == 0,
        blank().selected_target.len() == 0 && blank().selected_version.len() == 0,
        blank().version.len() == 0 && blank().versions.len() == 0 && blank().profiles.len() == 0,
        blank().downloaded_builders.len() == 0 && blank().ssh_agent_identities.len() == 0,
{
}

} // verus!
