use twostage::machine::{Action, Event, Machine, Reply, State};
use twostage::model::{BootPath, BootStage, Config, MountIntent};

const NORMAL: Config = Config { force_normal_boot: false };
const FORCED: Config = Config { force_normal_boot: true };

/// Runs a procedure to its end against scripted outcomes: `answer` tells
/// what came of each operation. Returns every operation asked for, `Done`
/// left out, and the replies that carried an image.
fn drive(
    started: (Machine, Action),
    mut answer: impl FnMut(&Action) -> Event,
) -> (Vec<Action>, Vec<Reply>) {
    let (mut machine, mut action) = started;
    let mut asked = Vec::new();
    let mut stored = Vec::new();
    let mut steps = 0;
    while action != Action::Done {
        steps += 1;
        assert!(steps < 64, "the procedure does not end");
        asked.push(action);
        let reply = machine.step(answer(&action));
        if matches!(reply.action, Action::Store { .. }) {
            stored.push(reply.clone());
        } else {
            assert!(reply.image.is_empty());
            assert!(reply.offsets.is_empty());
        }
        action = reply.action;
    }
    assert!(machine.is_finished());
    assert_eq!(machine.step(Event::Succeeded).action, Action::Done);
    (asked, stored)
}

fn self_bind() -> Action {
    Action::Mount(MountIntent::Bind { source: BootPath::Sdcard, target: BootPath::Sdcard })
}

fn fallback_bind() -> Action {
    Action::Mount(MountIntent::Bind { source: BootPath::DataMagiskinit, target: BootPath::Sdcard })
}

fn rename_init() -> Action {
    Action::Rename { from: BootPath::Init, to: BootPath::Sdcard }
}

fn count(asked: &[Action], wanted: &Action) -> usize {
    asked.iter().filter(|a| *a == wanted).count()
}

#[test]
fn two_stage_device_sets_up_storage_shim() {
    let (asked, stored) = drive(Machine::first_stage(NORMAL), |action| match action {
        Action::Probe(_) => Event::Failed,
        _ => Event::Succeeded,
    });
    assert_eq!(
        asked,
        vec![
            Action::Probe(BootPath::Sdcard),
            Action::Probe(BootPath::RamdiskSdcard),
            Action::MakeDirs(BootPath::StorageSelf),
            Action::Symlink {
                target: BootPath::SystemSystemBinInit,
                link: BootPath::StoragePrimary
            },
            rename_init(),
            self_bind(),
            Action::RestoreRamdisk,
        ]
    );
    assert!(stored.is_empty());
}

#[test]
fn forced_normal_boot_uses_ramdisk_layout() {
    let (asked, stored) = drive(Machine::first_stage(FORCED), |action| match action {
        Action::Probe(_) => Event::Failed,
        _ => Event::Succeeded,
    });
    assert_eq!(
        asked,
        vec![
            Action::Probe(BootPath::Sdcard),
            Action::Probe(BootPath::RamdiskSdcard),
            Action::MakeDirs(BootPath::RamdiskStorageSelf),
            Action::Symlink {
                target: BootPath::SystemSystemBinInit,
                link: BootPath::RamdiskStoragePrimary
            },
            Action::Touch(BootPath::RamdiskSdcard),
            rename_init(),
            self_bind(),
            Action::RestoreRamdisk,
        ]
    );
    assert!(stored.is_empty());
}

#[test]
fn legacy_device_patches_init_in_place() {
    let image = b"head/system/bin/init\0tail/system/bin/init".to_vec();
    let (asked, stored) = drive(Machine::first_stage(NORMAL), |action| match action {
        Action::Probe(BootPath::Sdcard) => Event::Succeeded,
        Action::Load { .. } => Event::Loaded(image.clone()),
        _ => Event::Succeeded,
    });
    assert_eq!(
        asked,
        vec![
            Action::Probe(BootPath::Sdcard),
            Action::RestoreRamdisk,
            Action::Load { path: BootPath::Init, in_place: true },
            Action::Store { path: BootPath::Init, in_place: true },
        ]
    );
    assert!(!asked.iter().any(|a| matches!(a, Action::Symlink { .. })));
    assert_eq!(stored.len(), 1);
    assert_eq!(stored[0].offsets, vec![4usize, 25]);
    assert_eq!(stored[0].image, b"head/data/magiskinit\0tail/data/magiskinit".to_vec());
    assert_eq!(stored[0].image.len(), image.len());
}

#[test]
fn second_probe_found_is_single_stage_too() {
    let (asked, stored) = drive(Machine::first_stage(FORCED), |action| match action {
        Action::Probe(BootPath::Sdcard) => Event::Failed,
        Action::Probe(_) => Event::Succeeded,
        Action::Load { .. } => Event::Loaded(b"no path in here".to_vec()),
        _ => Event::Succeeded,
    });
    assert_eq!(
        asked,
        vec![
            Action::Probe(BootPath::Sdcard),
            Action::Probe(BootPath::RamdiskSdcard),
            Action::RestoreRamdisk,
            Action::Load { path: BootPath::Init, in_place: true },
            Action::Store { path: BootPath::Init, in_place: true },
        ]
    );
    assert_eq!(stored.len(), 1);
    assert!(stored[0].offsets.is_empty());
    assert_eq!(stored[0].image, b"no path in here".to_vec());
}

#[test]
fn legacy_device_boots_unredirected_when_init_cannot_be_opened() {
    let (asked, stored) = drive(Machine::first_stage(NORMAL), |action| match action {
        Action::Probe(BootPath::Sdcard) => Event::Succeeded,
        Action::Load { .. } => Event::Failed,
        _ => Event::Succeeded,
    });
    assert_eq!(
        asked,
        vec![
            Action::Probe(BootPath::Sdcard),
            Action::RestoreRamdisk,
            Action::Load { path: BootPath::Init, in_place: true },
        ]
    );
    assert!(stored.is_empty());
}

#[test]
fn failed_self_bind_falls_back_once() {
    let (asked, _) = drive(Machine::first_stage(NORMAL), |action| match action {
        Action::Probe(_) => Event::Failed,
        Action::Mount(_) => Event::Failed,
        _ => Event::Succeeded,
    });
    assert_eq!(count(&asked, &self_bind()), 1);
    assert_eq!(count(&asked, &fallback_bind()), 1);
    let at = asked.iter().position(|a| *a == self_bind()).unwrap();
    assert_eq!(asked[at + 1], fallback_bind());
    assert_eq!(asked[at + 2], Action::RestoreRamdisk);
    assert_eq!(asked.len(), at + 3);
}

#[test]
fn successful_self_bind_needs_no_fallback() {
    let (asked, _) = drive(Machine::first_stage(FORCED), |action| match action {
        Action::Probe(_) => Event::Failed,
        _ => Event::Succeeded,
    });
    assert_eq!(count(&asked, &self_bind()), 1);
    assert_eq!(count(&asked, &fallback_bind()), 0);
}

#[test]
fn first_stage_goes_on_when_every_step_fails() {
    let (asked, stored) = drive(Machine::first_stage(FORCED), |_| Event::Failed);
    assert_eq!(
        asked,
        vec![
            Action::Probe(BootPath::Sdcard),
            Action::Probe(BootPath::RamdiskSdcard),
            Action::MakeDirs(BootPath::RamdiskStorageSelf),
            Action::Symlink {
                target: BootPath::SystemSystemBinInit,
                link: BootPath::RamdiskStoragePrimary
            },
            Action::Touch(BootPath::RamdiskSdcard),
            rename_init(),
            self_bind(),
            fallback_bind(),
            Action::RestoreRamdisk,
        ]
    );
    assert!(stored.is_empty());
}

#[test]
fn redirection_patches_a_copy_and_mounts_it() {
    let image = b"#!/system/bin/init --second-stage".to_vec();
    let (asked, stored) = drive(Machine::redirect_second_stage(NORMAL), |action| match action {
        Action::Load { .. } => Event::Loaded(image.clone()),
        _ => Event::Succeeded,
    });
    assert_eq!(
        asked,
        vec![
            Action::Load { path: BootPath::Init, in_place: false },
            Action::Store { path: BootPath::DataInit, in_place: false },
            Action::CloneAttr { from: BootPath::Init, to: BootPath::DataInit },
            Action::Mount(MountIntent::Bind { source: BootPath::DataInit, target: BootPath::Init }),
        ]
    );
    assert_eq!(stored.len(), 1);
    assert_eq!(stored[0].offsets, vec![2usize]);
    assert_eq!(stored[0].image, b"#!/data/magiskinit --second-stage".to_vec());
}

#[test]
fn redirection_reports_failed_mount() {
    let intent = MountIntent::Bind { source: BootPath::DataInit, target: BootPath::Init };
    let (asked, stored) = drive(Machine::redirect_second_stage(NORMAL), |action| match action {
        Action::Load { .. } => Event::Loaded(b"/system/bin/init".to_vec()),
        Action::Mount(_) => Event::Failed,
        _ => Event::Succeeded,
    });
    assert_eq!(
        asked,
        vec![
            Action::Load { path: BootPath::Init, in_place: false },
            Action::Store { path: BootPath::DataInit, in_place: false },
            Action::CloneAttr { from: BootPath::Init, to: BootPath::DataInit },
            Action::Mount(intent),
            Action::ReportMountFailure(intent),
        ]
    );
    assert_eq!(stored.len(), 1);
    assert_eq!(stored[0].image, b"/data/magiskinit".to_vec());
}

#[test]
fn redirection_is_skipped_when_init_cannot_be_opened() {
    for event in [Event::Failed, Event::Succeeded, Event::Magic(0x01021994)] {
        let (asked, stored) =
            drive(Machine::redirect_second_stage(NORMAL), |action| match action {
                Action::Load { .. } => event.clone(),
                _ => Event::Succeeded,
            });
        assert_eq!(asked, vec![Action::Load { path: BootPath::Init, in_place: false }]);
        assert!(stored.is_empty());
    }
}

#[test]
fn redirection_goes_on_when_the_copy_cannot_be_stored() {
    let (asked, _) = drive(Machine::redirect_second_stage(FORCED), |action| match action {
        Action::Load { .. } => Event::Loaded(b"init".to_vec()),
        Action::Store { .. } | Action::CloneAttr { .. } => Event::Failed,
        _ => Event::Succeeded,
    });
    assert_eq!(
        asked,
        vec![
            Action::Load { path: BootPath::Init, in_place: false },
            Action::Store { path: BootPath::DataInit, in_place: false },
            Action::CloneAttr { from: BootPath::Init, to: BootPath::DataInit },
            Action::Mount(MountIntent::Bind { source: BootPath::DataInit, target: BootPath::Init }),
        ]
    );
}

fn second_stage_with(event: Event) -> Vec<Action> {
    let (asked, stored) = drive(Machine::second_stage(NORMAL), |action| match action {
        Action::ProbeRootfs => event.clone(),
        Action::Mount(_) | Action::Remove(_) => Event::Failed,
        _ => Event::Succeeded,
    });
    assert!(stored.is_empty());
    asked
}

fn teardown() -> Vec<Action> {
    vec![
        Action::Mount(MountIntent::Detach { target: BootPath::Init }),
        Action::Mount(MountIntent::Detach { target: BootPath::SystemBinInit }),
        Action::Remove(BootPath::DataInit),
        Action::SetProcessName(BootPath::SystemBinInit),
        Action::ProbeRootfs,
    ]
}

#[test]
fn second_stage_on_vendor_ramdisk_root() {
    let mut expected = teardown();
    expected.extend([
        Action::Remove(BootPath::Init),
        Action::Symlink { target: BootPath::SystemBinInit, link: BootPath::Init },
        Action::PatchRwRoot,
    ]);
    assert_eq!(second_stage_with(Event::Magic(0x858458f6)), expected);
}

#[test]
fn second_stage_on_tmpfs_root() {
    let asked = second_stage_with(Event::Magic(0x01021994));
    assert_eq!(asked[..5], teardown()[..]);
    assert_eq!(asked.last(), Some(&Action::PatchRwRoot));
    assert_eq!(count(&asked, &Action::PatchRoRoot), 0);
}

#[test]
fn second_stage_on_system_root() {
    let mut expected = teardown();
    expected.push(Action::PatchRoRoot);
    assert_eq!(second_stage_with(Event::Magic(0xEF53)), expected);
    assert_eq!(second_stage_with(Event::Magic(0)), expected);
    assert_eq!(second_stage_with(Event::Failed), expected);
}

#[test]
fn stage_and_config_are_never_recomputed() {
    let (mut machine, _) = Machine::first_stage(FORCED);
    assert_eq!(machine.stage, BootStage::FirstStage);
    for _ in 0..12 {
        machine.step(Event::Failed);
        assert_eq!(machine.stage, BootStage::FirstStage);
        assert_eq!(machine.config, FORCED);
    }
    let (mut machine, _) = Machine::second_stage(NORMAL);
    assert_eq!(machine.stage, BootStage::SecondStage);
    for _ in 0..12 {
        machine.step(Event::Magic(0x01021994));
        assert_eq!(machine.stage, BootStage::SecondStage);
        assert_eq!(machine.config, NORMAL);
    }
    assert_eq!(machine.state, State::Finished);
    let (machine, _) = Machine::redirect_second_stage(NORMAL);
    assert_eq!(machine.stage, BootStage::FirstStage);
}

#[test]
fn image_out_of_turn_is_dropped() {
    let (mut machine, _) = Machine::second_stage(NORMAL);
    let reply = machine.step(Event::Loaded(b"/system/bin/init".to_vec()));
    assert_eq!(
        reply.action,
        Action::Mount(MountIntent::Detach { target: BootPath::SystemBinInit })
    );
    assert!(reply.image.is_empty());
    assert!(reply.offsets.is_empty());
}

fn steps_to_finish(started: (Machine, Action), event: &Event) -> usize {
    let (mut machine, _) = started;
    let mut steps = 0;
    while !machine.is_finished() {
        machine.step(event.clone());
        steps += 1;
        assert!(steps <= 9, "the procedure does not end");
    }
    steps
}

#[test]
fn procedures_end_whatever_is_reported() {
    let events = [
        Event::Succeeded,
        Event::Failed,
        Event::Loaded(b"/system/bin/init".to_vec()),
        Event::Magic(0x858458f6),
        Event::Magic(7),
    ];
    for event in &events {
        for config in [NORMAL, FORCED] {
            assert!(steps_to_finish(Machine::first_stage(config), event) <= 9);
            assert!(steps_to_finish(Machine::redirect_second_stage(config), event) <= 4);
            assert!(steps_to_finish(Machine::second_stage(config), event) <= 8);
        }
    }
    assert_eq!(steps_to_finish(Machine::first_stage(FORCED), &Event::Failed), 9);
    assert_eq!(steps_to_finish(Machine::first_stage(NORMAL), &Event::Succeeded), 3);
    assert_eq!(steps_to_finish(Machine::second_stage(NORMAL), &Event::Magic(0x01021994)), 8);
    assert_eq!(steps_to_finish(Machine::second_stage(NORMAL), &Event::Magic(1)), 6);
}
