use capsulator::installer::{
    finished_caption, mount_step, pacman_step, partition_step, setup_step, waiting_caption,
    Installer, Page, PollOutcome, Tick, TerminalStep, Watcher,
};

fn argv_of(step: &TerminalStep) -> Vec<&str> {
    step.argv.iter().map(|s| s.as_str()).collect()
}

#[test]
fn page_names_are_the_stack_names() {
    let pages = [
        (Page::Wifi, "wifi"),
        (Page::Intro, "intro"),
        (Page::Pacman, "pacman"),
        (Page::PartInfo, "partinfo"),
        (Page::FormatPart, "formatpart"),
        (Page::Mount, "mount"),
        (Page::GenerateFs, "generatefs"),
        (Page::Done, "done"),
    ];
    for (page, name) in pages {
        assert_eq!(page.name(), name);
    }
}

#[test]
fn starts_on_network_page_when_offline() {
    let s = Installer::new(false);
    assert_eq!(s.page, Page::Wifi);
    assert!(s.active.is_none());
    assert!(!s.child_exited);
}

#[test]
fn starts_on_introduction_when_online() {
    assert_eq!(Installer::new(true).page, Page::Intro);
}

#[test]
fn failed_connection_stays_on_network_page() {
    let mut s = Installer::new(false);
    assert_eq!(s.connection_finished(false), "Failed to connect");
    assert_eq!(s.page, Page::Wifi);
}

#[test]
fn successful_connection_shows_introduction() {
    let mut s = Installer::new(false);
    assert_eq!(s.connection_finished(true), "connection successfull");
    assert_eq!(s.page, Page::Intro);
}

#[test]
fn begin_only_from_introduction() {
    let mut s = Installer::new(false);
    assert!(s.begin_installation().is_none());
    assert_eq!(s.page, Page::Wifi);
}

#[test]
fn step_contents() {
    let p = pacman_step();
    assert_eq!(argv_of(&p), vec!["bash", "-c", "sudo pacman -Sy && sudo pacman -Sy archlinux-keyring"]);
    assert_eq!(p.caption, "updating pacman keyrings");
    assert_eq!((p.page, p.final_percent, p.next), (Page::Pacman, 5, Page::PartInfo));
    assert!(p.hint.is_none());

    let g = partition_step();
    assert_eq!(argv_of(&g), vec!["bash"]);
    assert_eq!(g.caption, "Creating partitions");
    assert_eq!((g.page, g.final_percent, g.next), (Page::PartInfo, 10, Page::FormatPart));
    assert_eq!(
        g.hint.as_deref(),
        Some("use <lsblk> to check the disks\nand <cfdisk> to create partitions\nMake atleast 800M for boot (EFI partiton)\nand swap (linux swap) if desired and rest for root (linux filesystem)\nswap is optional and <exit> after finished")
    );

    let m = mount_step("/dev/nvme0n1p3", "/dev/nvme0n1p1", "/dev/nvme0n1p2");
    assert_eq!(
        argv_of(&m),
        vec!["bash", "/usr/bin/archincos.sh", "/dev/nvme0n1p3", "/dev/nvme0n1p1", "/dev/nvme0n1p2"]
    );
    assert_eq!(m.caption, "Mounting filesystems");
    assert_eq!((m.page, m.final_percent, m.next), (Page::Mount, 50, Page::GenerateFs));

    let u = setup_step();
    assert_eq!(argv_of(&u), vec!["bash", "-c", "/usr/bin/cynsetupcos.sh"]);
    assert_eq!(u.caption, "Settingup Your install");
    assert_eq!((u.page, u.final_percent, u.next), (Page::GenerateFs, 90, Page::Done));
}

#[test]
fn captions() {
    assert_eq!(waiting_caption(), "Till cynageOS");
    assert_eq!(finished_caption(), "Till CynageOS");
}

#[test]
fn spinner_turns_until_command_exits() {
    let mut s = Installer::new(true);
    assert_eq!(s.tick(), Tick::Idle);
    let step = s.begin_installation().expect("begin on introduction");
    assert_eq!(step.page, Page::Pacman);
    assert_eq!(s.page, Page::Pacman);
    assert_eq!(s.tick(), Tick::Progress(5));
    assert_eq!(s.tick(), Tick::Progress(10));
    assert_eq!(s.page, Page::Pacman);
    s.child_finished();
    assert_eq!(s.tick(), Tick::Finished(5));
    assert_eq!(s.page, Page::PartInfo);
    assert_eq!(s.tick(), Tick::Idle);
}

#[test]
fn watchers_wait_for_their_page_and_act_once() {
    let mut s = Installer::new(true);
    assert!(matches!(s.poll(Watcher::PartitionGuide), PollOutcome::Wait));
    assert!(matches!(s.poll(Watcher::PowerOff), PollOutcome::Wait));
    s.begin_installation();
    s.child_finished();
    s.tick();
    match s.poll(Watcher::PartitionGuide) {
        PollOutcome::RunStep(t) => assert_eq!(argv_of(&t), vec!["bash"]),
        _ => panic!("the guide should start its shell"),
    }
    assert!(!s.child_exited);
    assert!(matches!(s.poll(Watcher::PartitionGuide), PollOutcome::Stopped));
}

#[test]
fn form_button_needs_the_form() {
    let mut s = Installer::new(true);
    s.begin_installation();
    s.child_finished();
    s.tick();
    s.poll(Watcher::PartitionGuide);
    s.child_finished();
    assert_eq!(s.tick(), Tick::Finished(10));
    assert_eq!(s.page, Page::FormatPart);
    assert!(s.format_requested("r", "b", "s").is_none());
    assert!(matches!(s.poll(Watcher::PartitionForm), PollOutcome::ShowPartitionForm));
    assert!(matches!(s.poll(Watcher::PartitionForm), PollOutcome::Stopped));
    let step = s.format_requested("r", "b", "").expect("form shown");
    assert_eq!(argv_of(&step), vec!["bash", "/usr/bin/archincos.sh", "r", "b", ""]);
    assert_eq!(s.page, Page::Mount);
}

#[test]
fn whole_installation_reaches_the_last_page() {
    let mut s = Installer::new(false);
    s.connection_finished(true);
    assert!(s.begin_installation().is_some());
    s.child_finished();
    assert_eq!(s.tick(), Tick::Finished(5));
    assert!(matches!(s.poll(Watcher::PartitionGuide), PollOutcome::RunStep(_)));
    assert_eq!(s.tick(), Tick::Progress(5));
    s.child_finished();
    assert_eq!(s.tick(), Tick::Finished(10));
    assert!(matches!(s.poll(Watcher::PartitionForm), PollOutcome::ShowPartitionForm));
    assert!(s.format_requested("/dev/sda3", "/dev/sda1", "/dev/sda2").is_some());
    // The exit flag was last cleared by the partitioning guide, so the
    // mounting step is taken as finished on its first tick.
    assert_eq!(s.tick(), Tick::Finished(50));
    assert_eq!(s.page, Page::GenerateFs);
    match s.poll(Watcher::SystemSetup) {
        PollOutcome::RunStep(t) => assert_eq!(t.next, Page::Done),
        _ => panic!("setup should start"),
    }
    assert_eq!(s.tick(), Tick::Finished(90));
    assert_eq!(s.page, Page::Done);
    assert!(matches!(s.poll(Watcher::PowerOff), PollOutcome::PowerOff));
    assert!(matches!(s.poll(Watcher::PowerOff), PollOutcome::Stopped));
    assert!(s.begin_installation().is_none());
    assert_eq!(s.page, Page::Done);
}

#[test]
fn spinner_of_a_running_step_cycles_over_ticks() {
    let mut s = Installer::new(true);
    s.begin_installation();
    for k in 1u32..=50 {
        assert_eq!(s.tick(), Tick::Progress(5 * (k % 21)));
        assert_eq!(s.page, Page::Pacman);
    }
}
