//! The installer's pages and the order in which it walks them: network
//! setup, introduction, keyring update, partitioning guide, partition form,
//! mounting, system setup, and the final page.
//!
//! The state machine here decides; the window that shows the pages performs
//! what it decides (running a command in a terminal, switching pages) and
//! reports back what happened (a button press, a command that exited, a
//! timer tick).
use vstd::prelude::*;

use crate::spinner::{next_position, position_percent, Spinner, SPINNER_POSITIONS};
use crate::text::string_views;

verus! {

/// The pages of the installer, in the order it shows them.
#[derive(Clone, Copy, PartialEq, Eq, Debug, Structural)]
pub enum Page {
    Wifi,
    Intro,
    Pacman,
    PartInfo,
    FormatPart,
    Mount,
    GenerateFs,
    Done,
}

impl Page {
    /// Position of the page in the installer's order.
    pub open spec fn rank(self) -> int {
        match self {
            Page::Wifi => 0,
            Page::Intro => 1,
            Page::Pacman => 2,
            Page::PartInfo => 3,
            Page::FormatPart => 4,
            Page::Mount => 5,
            Page::GenerateFs => 6,
            Page::Done => 7,
        }
    }

    /// The page after this one; the last page has none after it.
    pub open spec fn successor(self) -> Page {
        match self {
            Page::Wifi => Page::Intro,
            Page::Intro => Page::Pacman,
            Page::Pacman => Page::PartInfo,
            Page::PartInfo => Page::FormatPart,
            Page::FormatPart => Page::Mount,
            Page::Mount => Page::GenerateFs,
            Page::GenerateFs => Page::Done,
            Page::Done => Page::Done,
        }
    }

    /// The name under which the page is registered in the page stack.
    pub open spec fn spec_name(self) -> Seq<char> {
        match self {
            Page::Wifi => "wifi"@,
            Page::Intro => "intro"@,
            Page::Pacman => "pacman"@,
            Page::PartInfo => "partinfo"@,
            Page::FormatPart => "formatpart"@,
            Page::Mount => "mount"@,
            Page::GenerateFs => "generatefs"@,
            Page::Done => "done"@,
        }
    }

    /// The pages on which a command runs in a terminal.
    pub open spec fn hosts_step(self) -> bool {
        ||| self == Page::Pacman
        ||| self == Page::PartInfo
        ||| self == Page::Mount
        ||| self == Page::GenerateFs
    }

    /// The name under which the page is registered in the page stack.
    pub fn name(&self) -> (n: &'static str)
        ensures
            n@ == self.spec_name(),
    {
        match self {
            Page::Wifi => "wifi",
            Page::Intro => "intro",
            Page::Pacman => "pacman",
            Page::PartInfo => "partinfo",
            Page::FormatPart => "formatpart",
            Page::Mount => "mount",
            Page::GenerateFs => "generatefs",
            Page::Done => "done",
        }
    }
}

/// The percentage that the spinner shows for good once the command of a
/// page has finished.
pub open spec fn step_final_percent(page: Page) -> u32 {
    match page {
        Page::Pacman => 5,
        Page::PartInfo => 10,
        Page::Mount => 50,
        Page::GenerateFs => 90,
        _ => 0,
    }
}

/// The timers that wait for a page to be shown and then act once.
#[derive(Clone, Copy, PartialEq, Eq, Debug, Structural)]
pub enum Watcher {
    /// Starts a shell and shows how to partition, on the partition guide.
    PartitionGuide,
    /// Shows the disk listing and the partition form.
    PartitionForm,
    /// Runs the system setup script.
    SystemSetup,
    /// Reports, once, that the last page is shown; the window then builds a
    /// `shutdown now` command and drops it without running it, as the
    /// installer always has.
    PowerOff,
}

impl Watcher {
    /// The page that the watcher waits for.
    pub open spec fn page(self) -> Page {
        match self {
            Watcher::PartitionGuide => Page::PartInfo,
            Watcher::PartitionForm => Page::FormatPart,
            Watcher::SystemSetup => Page::GenerateFs,
            Watcher::PowerOff => Page::Done,
        }
    }
}

/// The command that runs on the current page: its spinner, the percentage
/// shown once it has finished, and the page shown then.
#[derive(Clone, Copy, Debug)]
pub struct ActiveStep {
    pub spinner: Spinner,
    pub final_percent: u32,
    pub next: Page,
}

/// The state of the installer.
#[derive(Clone, Copy, Debug)]
pub struct Installer {
    /// The page shown.
    pub page: Page,
    /// The last command started in a terminal has exited. Only the
    /// partitioning guide clears this before it starts its shell.
    pub child_exited: bool,
    /// The command whose progress the spinner shows, if one runs.
    pub active: Option<ActiveStep>,
    pub guide_shown: bool,
    pub form_shown: bool,
    pub setup_started: bool,
    pub power_off_sent: bool,
}

/// What the window reports to the installer.
pub enum Event {
    /// A connection attempt from the network page ended, successfully or not.
    Connection(bool),
    /// The "Begin installation" button was pressed.
    Begin,
    /// The command running in the terminal exited.
    ChildExit,
    /// The spinner's timer fired.
    Tick,
    /// A watcher's timer fired.
    Poll(Watcher),
    /// The "Begin partition formating" button was pressed.
    Format,
}

/// What one spinner tick shows.
#[derive(Clone, Copy, PartialEq, Eq, Debug, Structural)]
pub enum Tick {
    /// No command runs: the spinner's timer stops.
    Idle,
    /// The command still runs: the spinner shows this percentage.
    Progress(u32),
    /// The command has exited: the spinner shows this percentage for good,
    /// and the next page is shown.
    Finished(u32),
}

/// What a watcher's timer does.
#[derive(Clone, Copy, PartialEq, Eq, Debug, Structural)]
pub enum PollKind {
    /// Its page is not shown yet: keep waiting.
    Wait,
    /// It has acted already: its timer stops.
    Stopped,
    /// It acts now, and its timer stops.
    Fired,
}

/// A step's spinner when its command starts.
pub open spec fn new_step(page: Page) -> ActiveStep {
    ActiveStep {
        spinner: Spinner { index: 0 },
        final_percent: step_final_percent(page),
        next: page.successor(),
    }
}

/// Whether the watcher has acted already.
pub open spec fn fired(s: Installer, w: Watcher) -> bool {
    match w {
        Watcher::PartitionGuide => s.guide_shown,
        Watcher::PartitionForm => s.form_shown,
        Watcher::SystemSetup => s.setup_started,
        Watcher::PowerOff => s.power_off_sent,
    }
}

/// The state after a watcher has acted.
pub open spec fn fire(s: Installer, w: Watcher) -> Installer {
    match w {
        Watcher::PartitionGuide => Installer {
            child_exited: false,
            active: Some(new_step(Page::PartInfo)),
            guide_shown: true,
            ..s
        },
        Watcher::PartitionForm => Installer { form_shown: true, ..s },
        Watcher::SystemSetup => Installer {
            active: Some(new_step(Page::GenerateFs)),
            setup_started: true,
            ..s
        },
        Watcher::PowerOff => Installer { power_off_sent: true, ..s },
    }
}

/// What a watcher's timer does in state `s`.
pub open spec fn poll_kind(s: Installer, w: Watcher) -> PollKind {
    if fired(s, w) {
        PollKind::Stopped
    } else if s.page == w.page() {
        PollKind::Fired
    } else {
        PollKind::Wait
    }
}

/// What a spinner tick shows in state `s`.
pub open spec fn tick_report(s: Installer) -> Tick {
    match s.active {
        None => Tick::Idle,
        Some(a) => if s.child_exited {
            Tick::Finished(a.final_percent)
        } else {
            Tick::Progress(position_percent(next_position(a.spinner.index as int)) as u32)
        },
    }
}

/// The installer's state after event `e` in state `s`.
pub open spec fn next_state(s: Installer, e: Event) -> Installer {
    match e {
        Event::Connection(success) => if success && s.page == Page::Wifi {
            Installer { page: Page::Intro, ..s }
        } else {
            s
        },
        Event::Begin => if s.page == Page::Intro {
            Installer { page: Page::Pacman, active: Some(new_step(Page::Pacman)), ..s }
        } else {
            s
        },
        Event::ChildExit => Installer { child_exited: true, ..s },
        Event::Tick => match s.active {
            None => s,
            Some(a) => if s.child_exited {
                Installer { page: a.next, active: None, ..s }
            } else {
                Installer { active: Some(ActiveStep { spinner: a.spinner.stepped(), ..a }), ..s }
            },
        },
        Event::Poll(w) => if poll_kind(s, w) == PollKind::Fired {
            fire(s, w)
        } else {
            s
        },
        Event::Format => if s.page == Page::FormatPart && s.form_shown {
            Installer { page: Page::Mount, active: Some(new_step(Page::Mount)), ..s }
        } else {
            s
        },
    }
}

impl Installer {
    /// A command runs only on a page that hosts one, and it leads to the
    /// page after that one.
    pub open spec fn wf(self) -> bool {
        match self.active {
            None => true,
            Some(a) => {
                &&& a.spinner.wf()
                &&& self.page.hosts_step()
                &&& a.next == self.page.successor()
                &&& a.final_percent == step_final_percent(self.page)
            },
        }
    }

    /// The installer as the window opens: on the introduction if the
    /// machine is online, else on the network page.
    pub fn new(connected: bool) -> (s: Installer)
        ensures
            s.wf(),
            s.page == (if connected {
                Page::Intro
            } else {
                Page::Wifi
            }),
            !s.child_exited,
            s.active is None,
            !s.guide_shown,
            !s.form_shown,
            !s.setup_started,
            !s.power_off_sent,
    {
        Installer {
            page: if connected {
                Page::Intro
            } else {
                Page::Wifi
            },
            child_exited: false,
            active: None,
            guide_shown: false,
            form_shown: false,
            setup_started: false,
            power_off_sent: false,
        }
    }

    /// A connection attempt ended: on success the introduction follows the
    /// network page. Returns the message shown under the network list.
    pub fn connection_finished(&mut self, success: bool) -> (message: String)
        requires
            old(self).wf(),
        ensures
            *final(self) == next_state(*old(self), Event::Connection(success)),
            final(self).wf(),
            message@ == connection_message(success),
    {
        if success && self.page == Page::Wifi {
            self.page = Page::Intro;
        }
        if success {
            "connection successfull".to_owned()
        } else {
            "Failed to connect".to_owned()
        }
    }

    /// "Begin installation" was pressed: on the introduction, the keyring
    /// update starts on its page.
    pub fn begin_installation(&mut self) -> (step: Option<TerminalStep>)
        requires
            old(self).wf(),
        ensures
            *final(self) == next_state(*old(self), Event::Begin),
            final(self).wf(),
            match step {
                Some(t) => old(self).page == Page::Intro && t@ == pacman_step_view(),
                None => old(self).page != Page::Intro,
            },
    {
        if self.page == Page::Intro {
            self.page = Page::Pacman;
            self.active = Some(
                ActiveStep { spinner: Spinner::new(), final_percent: 5, next: Page::PartInfo },
            );
            Some(pacman_step())
        } else {
            None
        }
    }

    /// The command running in the terminal exited.
    pub fn child_finished(&mut self)
        requires
            old(self).wf(),
        ensures
            *final(self) == next_state(*old(self), Event::ChildExit),
            final(self).wf(),
    {
        self.child_exited = true;
    }

    /// The spinner's timer fired: the spinner moves on while the command
    /// runs; once it has exited, the page after the command's page is shown.
    pub fn tick(&mut self) -> (t: Tick)
        requires
            old(self).wf(),
        ensures
            *final(self) == next_state(*old(self), Event::Tick),
            final(self).wf(),
            t == tick_report(*old(self)),
    {
        match self.active {
            None => Tick::Idle,
            Some(a) => {
                if self.child_exited {
                    self.page = a.next;
                    self.active = None;
                    Tick::Finished(a.final_percent)
                } else {
                    let mut spinner = a.spinner;
                    let p = spinner.advance();
                    self.active = Some(
                        ActiveStep { spinner, final_percent: a.final_percent, next: a.next },
                    );
                    Tick::Progress(p)
                }
            },
        }
    }

    /// A watcher's timer fired: the watcher acts once, when its page is shown.
    pub fn poll(&mut self, watcher: Watcher) -> (outcome: PollOutcome)
        requires
            old(self).wf(),
        ensures
            *final(self) == next_state(*old(self), Event::Poll(watcher)),
            final(self).wf(),
            outcome.kind() == poll_kind(*old(self), watcher),
            outcome.kind() == PollKind::Fired ==> match watcher {
                Watcher::PartitionGuide => outcome matches PollOutcome::RunStep(t) && t@
                    == partition_step_view(),
                Watcher::PartitionForm => outcome is ShowPartitionForm,
                Watcher::SystemSetup => outcome matches PollOutcome::RunStep(t) && t@
                    == setup_step_view(),
                Watcher::PowerOff => outcome is PowerOff,
            },
    {
        match watcher {
            Watcher::PartitionGuide => {
                if self.guide_shown {
                    PollOutcome::Stopped
                } else if self.page == Page::PartInfo {
                    self.child_exited = false;
                    self.active = Some(
                        ActiveStep {
                            spinner: Spinner::new(),
                            final_percent: 10,
                            next: Page::FormatPart,
                        },
                    );
                    self.guide_shown = true;
                    PollOutcome::RunStep(partition_step())
                } else {
                    PollOutcome::Wait
                }
            },
            Watcher::PartitionForm => {
                if self.form_shown {
                    PollOutcome::Stopped
                } else if self.page == Page::FormatPart {
                    self.form_shown = true;
                    PollOutcome::ShowPartitionForm
                } else {
                    PollOutcome::Wait
                }
            },
            Watcher::SystemSetup => {
                if self.setup_started {
                    PollOutcome::Stopped
                } else if self.page == Page::GenerateFs {
                    self.active = Some(
                        ActiveStep { spinner: Spinner::new(), final_percent: 90, next: Page::Done },
                    );
                    self.setup_started = true;
                    PollOutcome::RunStep(setup_step())
                } else {
                    PollOutcome::Wait
                }
            },
            Watcher::PowerOff => {
                if self.power_off_sent {
                    PollOutcome::Stopped
                } else if self.page == Page::Done {
                    self.power_off_sent = true;
                    PollOutcome::PowerOff
                } else {
                    PollOutcome::Wait
                }
            },
        }
    }

    /// "Begin partition formating" was pressed on the partition form with
    /// the root, boot and swap partitions entered: mounting starts.
    pub fn format_requested(&mut self, root: &str, boot: &str, swap: &str) -> (step:
        Option<TerminalStep>)
        requires
            old(self).wf(),
        ensures
            *final(self) == next_state(*old(self), Event::Format),
            final(self).wf(),
            match step {
                Some(t) => old(self).page == Page::FormatPart && old(self).form_shown && t@
                    == mount_step_view(root@, boot@, swap@),
                None => !(old(self).page == Page::FormatPart && old(self).form_shown),
            },
    {
        if self.page == Page::FormatPart && self.form_shown {
            self.page = Page::Mount;
            self.active = Some(
                ActiveStep { spinner: Spinner::new(), final_percent: 50, next: Page::GenerateFs },
            );
            Some(mount_step(root, boot, swap))
        } else {
            None
        }
    }
}

/// The message shown after a connection attempt.
pub open spec fn connection_message(success: bool) -> Seq<char> {
    if success {
        "connection successfull"@
    } else {
        "Failed to connect"@
    }
}

/// A command to run in the terminal of a page, with what the window shows
/// while and after it runs.
pub struct TerminalStep {
    /// The page whose terminal runs the command.
    pub page: Page,
    /// The program and its arguments.
    pub argv: Vec<String>,
    /// The caption shown beside the spinner while the command runs.
    pub caption: String,
    /// The percentage shown once the command has exited.
    pub final_percent: u32,
    /// The page shown once the command has exited.
    pub next: Page,
    /// Instructions shown below the terminal, if any.
    pub hint: Option<String>,
}

/// The content of a `TerminalStep`.
pub struct StepView {
    pub page: Page,
    pub argv: Seq<Seq<char>>,
    pub caption: Seq<char>,
    pub final_percent: u32,
    pub next: Page,
    pub hint: Option<Seq<char>>,
}

impl View for TerminalStep {
    type V = StepView;

    open spec fn view(&self) -> StepView {
        StepView {
            page: self.page,
            argv: string_views(self.argv@),
            caption: self.caption@,
            final_percent: self.final_percent,
            next: self.next,
            hint: match self.hint {
                Some(h) => Some(h@),
                None => None,
            },
        }
    }
}

/// What a watcher's timer does, with what it needs.
pub enum PollOutcome {
    Wait,
    Stopped,
    RunStep(TerminalStep),
    ShowPartitionForm,
    PowerOff,
}

impl PollOutcome {
    pub open spec fn kind(&self) -> PollKind {
        match self {
            PollOutcome::Wait => PollKind::Wait,
            PollOutcome::Stopped => PollKind::Stopped,
            _ => PollKind::Fired,
        }
    }
}

/// The instructions shown below the partitioning shell.
pub open spec fn partition_hint() -> Seq<char> {
    "use <lsblk> to check the disks\nand <cfdisk> to create partitions\nMake atleast 800M for boot (EFI partiton)\nand swap (linux swap) if desired and rest for root (linux filesystem)\nswap is optional and <exit> after finished"@
}

/// The keyring update.
pub open spec fn pacman_step_view() -> StepView {
    StepView {
        page: Page::Pacman,
        argv: seq!["bash"@, "-c"@, "sudo pacman -Sy && sudo pacman -Sy archlinux-keyring"@],
        caption: "updating pacman keyrings"@,
        final_percent: 5,
        next: Page::PartInfo,
        hint: None,
    }
}

/// The partitioning shell.
pub open spec fn partition_step_view() -> StepView {
    StepView {
        page: Page::PartInfo,
        argv: seq!["bash"@],
        caption: "Creating partitions"@,
        final_percent: 10,
        next: Page::FormatPart,
        hint: Some(partition_hint()),
    }
}

/// Formatting and mounting the chosen partitions.
pub open spec fn mount_step_view(root: Seq<char>, boot: Seq<char>, swap: Seq<char>) -> StepView {
    StepView {
        page: Page::Mount,
        argv: seq!["bash"@, "/usr/bin/archincos.sh"@, root, boot, swap],
        caption: "Mounting filesystems"@,
        final_percent: 50,
        next: Page::GenerateFs,
        hint: None,
    }
}

/// The system setup script.
pub open spec fn setup_step_view() -> StepView {
    StepView {
        page: Page::GenerateFs,
        argv: seq!["bash"@, "-c"@, "/usr/bin/cynsetupcos.sh"@],
        caption: "Settingup Your install"@,
        final_percent: 90,
        next: Page::Done,
        hint: None,
    }
}

/// The keyring update.
pub fn pacman_step() -> (t: TerminalStep)
    ensures
        t@ == pacman_step_view(),
{
    let argv = vec![
        "bash".to_owned(),
        "-c".to_owned(),
        "sudo pacman -Sy && sudo pacman -Sy archlinux-keyring".to_owned(),
    ];
    proof {
        assert(string_views(argv@) =~= seq![
            "bash"@,
            "-c"@,
            "sudo pacman -Sy && sudo pacman -Sy archlinux-keyring"@,
        ]);
    }
    TerminalStep {
        page: Page::Pacman,
        argv,
        caption: "updating pacman keyrings".to_owned(),
        final_percent: 5,
        next: Page::PartInfo,
        hint: None,
    }
}

/// The partitioning shell, with its instructions.
pub fn partition_step() -> (t: TerminalStep)
    ensures
        t@ == partition_step_view(),
{
    let argv = vec!["bash".to_owned()];
    proof {
        assert(string_views(argv@) =~= seq!["bash"@]);
    }
    TerminalStep {
        page: Page::PartInfo,
        argv,
        caption: "Creating partitions".to_owned(),
        final_percent: 10,
        next: Page::FormatPart,
        hint: Some("use <lsblk> to check the disks\nand <cfdisk> to create partitions\nMake atleast 800M for boot (EFI partiton)\nand swap (linux swap) if desired and rest for root (linux filesystem)\nswap is optional and <exit> after finished".to_owned()),
    }
}

/// Formatting and mounting the given root, boot and swap partitions.
pub fn mount_step(root: &str, boot: &str, swap: &str) -> (t: TerminalStep)
    ensures
        t@ == mount_step_view(root@, boot@, swap@),
{
    let argv = vec![
        "bash".to_owned(),
        "/usr/bin/archincos.sh".to_owned(),
        root.to_owned(),
        boot.to_owned(),
        swap.to_owned(),
    ];
    proof {
        assert(string_views(argv@) =~= seq!["bash"@, "/usr/bin/archincos.sh"@, root@, boot@, swap@]);
    }
    TerminalStep {
        page: Page::Mount,
        argv,
        caption: "Mounting filesystems".to_owned(),
        final_percent: 50,
        next: Page::GenerateFs,
        hint: None,
    }
}

/// The system setup script.
pub fn setup_step() -> (t: TerminalStep)
    ensures
        t@ == setup_step_view(),
{
    let argv = vec!["bash".to_owned(), "-c".to_owned(), "/usr/bin/cynsetupcos.sh".to_owned()];
    proof {
        assert(string_views(argv@) =~= seq!["bash"@, "-c"@, "/usr/bin/cynsetupcos.sh"@]);
    }
    TerminalStep {
        page: Page::GenerateFs,
        argv,
        caption: "Settingup Your install".to_owned(),
        final_percent: 90,
        next: Page::Done,
        hint: None,
    }
}

/// The caption beside the spinner before any command has run.
pub fn waiting_caption() -> (c: String)
    ensures
        c@ == "Till cynageOS"@,
{
    "Till cynageOS".to_owned()
}

/// The caption beside the spinner once a command has finished.
pub fn finished_caption() -> (c: String)
    ensures
        c@ == "Till CynageOS"@,
{
    "Till CynageOS".to_owned()
}

// ------------------------------------------------------------------ laws

/// Every event keeps the installer's state well formed.
pub proof fn lemma_events_keep_wf(s: Installer, e: Event)
    requires
        s.wf(),
    ensures
        next_state(s, e).wf(),
{
}

/// The installer walks its pages in order: an event leaves the page as it
/// is or shows the page right after it, never an earlier one.
pub proof fn lemma_pages_in_order(s: Installer, e: Event)
    requires
        s.wf(),
    ensures
        next_state(s, e).page == s.page || next_state(s, e).page == s.page.successor(),
        next_state(s, e).page.rank() >= s.page.rank(),
        next_state(s, e).page.rank() <= s.page.rank() + 1,
{
}

/// A watcher acts at most once: polling it again changes nothing.
pub proof fn lemma_watcher_acts_once(s: Installer, w: Watcher)
    requires
        s.wf(),
    ensures
        next_state(next_state(s, Event::Poll(w)), Event::Poll(w)) == next_state(
            s,
            Event::Poll(w),
        ),
        poll_kind(s, w) == PollKind::Fired ==> poll_kind(next_state(s, Event::Poll(w)), w)
            == PollKind::Stopped,
{
}

/// While its command runs, a page stays shown; once the command has exited,
/// the next tick shows the page after it and stops the spinner.
pub proof fn lemma_step_ends_with_its_command(s: Installer)
    requires
        s.wf(),
        s.active is Some,
    ensures
        !s.child_exited ==> next_state(s, Event::Tick).page == s.page,
        !s.child_exited ==> next_state(s, Event::Tick).active is Some,
        next_state(next_state(s, Event::ChildExit), Event::Tick).page == s.page.successor(),
        next_state(next_state(s, Event::ChildExit), Event::Tick).active is None,
        tick_report(next_state(s, Event::ChildExit)) == Tick::Finished(
            step_final_percent(s.page),
        ),
{
}

/// Each watcher acts only while its own page is shown: the partitioning
/// shell on the partition guide, the disk listing and form on the partition
/// form, the setup script on the setup page, the power-off on the last page.
/// On any other page, a watcher that has not acted yet keeps waiting and
/// leaves the state as it is.
pub proof fn lemma_watcher_acts_only_on_its_page(s: Installer, w: Watcher)
    ensures
        poll_kind(s, w) == PollKind::Fired ==> s.page == w.page(),
        poll_kind(s, Watcher::PartitionGuide) == PollKind::Fired ==> s.page == Page::PartInfo,
        poll_kind(s, Watcher::PartitionForm) == PollKind::Fired ==> s.page == Page::FormatPart,
        poll_kind(s, Watcher::SystemSetup) == PollKind::Fired ==> s.page == Page::GenerateFs,
        poll_kind(s, Watcher::PowerOff) == PollKind::Fired ==> s.page == Page::Done,
        !fired(s, w) && s.page != w.page() ==> poll_kind(s, w) == PollKind::Wait
            && next_state(s, Event::Poll(w)) == s,
        !fired(s, w) && s.page == w.page() ==> poll_kind(s, w) == PollKind::Fired,
        fired(s, w) ==> poll_kind(s, w) == PollKind::Stopped && next_state(s, Event::Poll(w))
            == s,
{
}

/// What each watcher does when it acts. It never changes the page. The
/// partition guide clears the exit flag and starts a step that ends at 10%
/// on the partition form; the form watcher only records that the form is
/// shown; the setup watcher starts a step that ends at 90% on the last page;
/// the power-off watcher only records that it has acted.
pub proof fn lemma_watcher_effects(s: Installer)
    ensures
        ({
            let t = next_state(s, Event::Poll(Watcher::PartitionGuide));
            poll_kind(s, Watcher::PartitionGuide) == PollKind::Fired ==> {
                &&& t.page == Page::PartInfo
                &&& !t.child_exited
                &&& t.active == Some(
                    ActiveStep {
                        spinner: Spinner { index: 0 },
                        final_percent: 10,
                        next: Page::FormatPart,
                    },
                )
                &&& t.guide_shown
                &&& t.form_shown == s.form_shown
                &&& t.setup_started == s.setup_started
                &&& t.power_off_sent == s.power_off_sent
            }
        }),
        ({
            let t = next_state(s, Event::Poll(Watcher::PartitionForm));
            poll_kind(s, Watcher::PartitionForm) == PollKind::Fired ==> {
                &&& t.page == Page::FormatPart
                &&& t.child_exited == s.child_exited
                &&& t.active == s.active
                &&& t.guide_shown == s.guide_shown
                &&& t.form_shown
                &&& t.setup_started == s.setup_started
                &&& t.power_off_sent == s.power_off_sent
            }
        }),
        ({
            let t = next_state(s, Event::Poll(Watcher::SystemSetup));
            poll_kind(s, Watcher::SystemSetup) == PollKind::Fired ==> {
                &&& t.page == Page::GenerateFs
                &&& t.child_exited == s.child_exited
                &&& t.active == Some(
                    ActiveStep { spinner: Spinner { index: 0 }, final_percent: 90, next: Page::Done },
                )
                &&& t.guide_shown == s.guide_shown
                &&& t.form_shown == s.form_shown
                &&& t.setup_started
                &&& t.power_off_sent == s.power_off_sent
            }
        }),
        ({
            let t = next_state(s, Event::Poll(Watcher::PowerOff));
            poll_kind(s, Watcher::PowerOff) == PollKind::Fired ==> {
                &&& t.page == Page::Done
                &&& t.child_exited == s.child_exited
                &&& t.active == s.active
                &&& t.guide_shown == s.guide_shown
                &&& t.form_shown == s.form_shown
                &&& t.setup_started == s.setup_started
                &&& t.power_off_sent
            }
        }),
{
}

/// A connection result changes nothing but the page, and that only from
/// the network page to the introduction after a success. In particular it
/// never touches the exit flag, the running step or the watchers.
pub proof fn lemma_connection_changes_only_the_page(s: Installer, success: bool)
    ensures
        ({
            let t = next_state(s, Event::Connection(success));
            &&& t.page == (if success && s.page == Page::Wifi {
                Page::Intro
            } else {
                s.page
            })
            &&& t.child_exited == s.child_exited
            &&& t.active == s.active
            &&& t.guide_shown == s.guide_shown
            &&& t.form_shown == s.form_shown
            &&& t.setup_started == s.setup_started
            &&& t.power_off_sent == s.power_off_sent
        }),
        connection_message(success) == (if success {
            "connection successfull"@
        } else {
            "Failed to connect"@
        }),
{
}

/// The other button presses and the exit report change only what they are
/// for. "Begin installation" moves from the introduction to the keyring
/// page and starts a step ending at 5% on the partition guide; the format
/// button moves from the shown form to the mounting page and starts a step
/// ending at 50% on the setup page; neither touches the exit flag or the
/// watchers. An exit report only sets the exit flag.
pub proof fn lemma_presses_and_exits_change_only_their_part(s: Installer)
    ensures
        ({
            let t = next_state(s, Event::Begin);
            &&& s.page == Page::Intro ==> t.page == Page::Pacman && t.active == Some(
                ActiveStep { spinner: Spinner { index: 0 }, final_percent: 5, next: Page::PartInfo },
            )
            &&& s.page != Page::Intro ==> t == s
            &&& t.child_exited == s.child_exited
            &&& t.guide_shown == s.guide_shown
            &&& t.form_shown == s.form_shown
            &&& t.setup_started == s.setup_started
            &&& t.power_off_sent == s.power_off_sent
        }),
        ({
            let t = next_state(s, Event::Format);
            &&& s.page == Page::FormatPart && s.form_shown ==> t.page == Page::Mount && t.active
                == Some(
                ActiveStep {
                    spinner: Spinner { index: 0 },
                    final_percent: 50,
                    next: Page::GenerateFs,
                },
            )
            &&& !(s.page == Page::FormatPart && s.form_shown) ==> t == s
            &&& t.child_exited == s.child_exited
            &&& t.guide_shown == s.guide_shown
            &&& t.form_shown == s.form_shown
            &&& t.setup_started == s.setup_started
            &&& t.power_off_sent == s.power_off_sent
        }),
        ({
            let t = next_state(s, Event::ChildExit);
            &&& t.child_exited
            &&& t.page == s.page
            &&& t.active == s.active
            &&& t.guide_shown == s.guide_shown
            &&& t.form_shown == s.form_shown
            &&& t.setup_started == s.setup_started
            &&& t.power_off_sent == s.power_off_sent
        }),
{
}

/// A tick touches only the running step and, when that step's command has
/// exited, the page; it never sets or clears the exit flag.
pub proof fn lemma_tick_changes_only_the_step(s: Installer)
    ensures
        ({
            let t = next_state(s, Event::Tick);
            &&& t.child_exited == s.child_exited
            &&& t.guide_shown == s.guide_shown
            &&& t.form_shown == s.form_shown
            &&& t.setup_started == s.setup_started
            &&& t.power_off_sent == s.power_off_sent
            &&& s.active is None ==> t == s
            &&& !s.child_exited ==> t.page == s.page
        }),
{
}

/// The page names are the names under which the window registers its
/// pages, and no two pages share one.
pub proof fn lemma_page_names(p: Page, q: Page)
    ensures
        Page::Wifi.spec_name() == "wifi"@,
        Page::Intro.spec_name() == "intro"@,
        Page::Pacman.spec_name() == "pacman"@,
        Page::PartInfo.spec_name() == "partinfo"@,
        Page::FormatPart.spec_name() == "formatpart"@,
        Page::Mount.spec_name() == "mount"@,
        Page::GenerateFs.spec_name() == "generatefs"@,
        Page::Done.spec_name() == "done"@,
        p.rank() == q.rank() ==> p == q,
{
}

/// The mounting step passes the root, boot and swap partitions verbatim, in
/// that order, after the script's path.
pub proof fn lemma_mount_step_passes_partitions(root: Seq<char>, boot: Seq<char>, swap: Seq<char>)
    ensures
        mount_step_view(root, boot, swap).argv.len() == 5,
        mount_step_view(root, boot, swap).argv[2] == root,
        mount_step_view(root, boot, swap).argv[3] == boot,
        mount_step_view(root, boot, swap).argv[4] == swap,
{
}

/// The last page is never left.
pub proof fn lemma_done_is_last(s: Installer, e: Event)
    requires
        s.wf(),
        s.page == Page::Done,
    ensures
        next_state(s, e).page == Page::Done,
{
}

/// The state after `k` spinner ticks.
pub open spec fn after_ticks(s: Installer, k: nat) -> Installer
    decreases k,
{
    if k == 0 {
        s
    } else {
        next_state(after_ticks(s, (k - 1) as nat), Event::Tick)
    }
}

/// While a command runs, each tick moves the spinner one position on: after
/// `k` ticks the page is unchanged and the spinner stands `k` positions
/// further on, so the next tick shows `5 * ((start + k + 1) % 21)` percent.
/// A step starts at 0%, so its `k`-th tick shows `5 * (k % 21)` percent:
/// 5, 10, ..., 100, 0, 5, ...
pub proof fn lemma_spinner_turns_while_running(s: Installer, k: nat)
    requires
        s.wf(),
        s.active is Some,
        !s.child_exited,
    ensures
        after_ticks(s, k).page == s.page,
        !after_ticks(s, k).child_exited,
        after_ticks(s, k).active == Some(
            ActiveStep {
                spinner: Spinner {
                    index: ((s.active->0.spinner.index + k) % (SPINNER_POSITIONS as int)) as usize,
                },
                ..s.active->0
            },
        ),
        tick_report(after_ticks(s, k)) == Tick::Progress(
            (5 * ((s.active->0.spinner.index + k + 1) % (SPINNER_POSITIONS as int))) as u32,
        ),
        s.active->0.spinner.index == 0 && k >= 1 ==> tick_report(after_ticks(s, (k - 1) as nat))
            == Tick::Progress((5 * ((k as int) % (SPINNER_POSITIONS as int))) as u32),
    decreases k,
{
    let a = s.active->0;
    let i0 = a.spinner.index as int;
    let n = SPINNER_POSITIONS as int;
    if k > 0 {
        lemma_spinner_turns_while_running(s, (k - 1) as nat);
        assert(((i0 + k - 1) % n + 1) % n == (i0 + k) % n) by (nonlinear_arith)
            requires
                n == 21,
                0 <= i0 < n,
                k >= 1,
        ;
    } else {
        assert((i0 + 0) % n == i0) by (nonlinear_arith)
            requires
                n == 21,
                0 <= i0 < n,
        ;
    }
    let idx = (i0 + k) % n;
    assert(0 <= idx < n) by (nonlinear_arith)
        requires
            n == 21,
            i0 >= 0,
            k >= 0,
            idx == (i0 + k) % n,
    ;
    assert((idx + 1) % n == (i0 + k + 1) % n) by (nonlinear_arith)
        requires
            n == 21,
            i0 >= 0,
            k >= 0,
            idx == (i0 + k) % n,
    ;
    if i0 == 0 && k >= 1 {
        lemma_spinner_turns_while_running(s, (k - 1) as nat);
    }
}

} // verus!
