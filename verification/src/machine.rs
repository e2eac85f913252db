//! The boot-stage state machine.
//!
//! A `Machine` never touches the system. Each of its three entry points hands
//! out the first operation of a procedure; the caller performs it and reports
//! what came of it with `step`, which answers with the next operation. A
//! failed operation never aborts a boot: the machine takes the defined
//! fallback where there is one and goes on. Only an init image that cannot
//! be opened ends a redirection early: there is then nothing to redirect
//! with, and the boot goes on unredirected.

use vstd::prelude::*;
use crate::laws::{
    occurrences, redirection_counts, redirection_exchanges_the_paths,
    redirection_replaces_every_occurrence,
};
use crate::model::{
    classify_rootfs, literals_have_equal_length, real_init_literal, replacement_literal, rootfs_kind, BootPath, BootStage,
    Config, MountIntent, RootfsKind,
};
use crate::patch::{leftmost_selection, occurs_at, rewritten, PatchTarget};

verus! {

/// What the caller reports of the operation it was last asked to perform.
#[derive(Clone, Debug, PartialEq, Eq)]
pub enum Event {
    /// The operation succeeded; a probe found an entry.
    Succeeded,
    /// The operation failed; a probe found nothing.
    Failed,
    /// The image asked for was opened; these are its bytes.
    Loaded(Vec<u8>),
    /// The filesystem-type number of the root filesystem.
    Magic(u64),
}

/// What the transitions read of an event.
#[derive(Clone, Copy, Debug, PartialEq, Eq, Structural)]
pub enum Signal {
    Succeeded,
    Failed,
    Loaded,
    Magic(u64),
}

impl Event {
    /// The event without the bytes it may carry.
    pub open spec fn signal(self) -> Signal {
        match self {
            Event::Succeeded => Signal::Succeeded,
            Event::Failed => Signal::Failed,
            Event::Loaded(_) => Signal::Loaded,
            Event::Magic(m) => Signal::Magic(m),
        }
    }

    /// The bytes of a loaded image; empty for every other event.
    pub open spec fn image(self) -> Seq<u8> {
        match self {
            Event::Loaded(bytes) => bytes@,
            _ => Seq::empty(),
        }
    }
}

/// An operation that the caller is asked to perform.
#[derive(Clone, Copy, Debug, PartialEq, Eq, Structural)]
pub enum Action {
    /// Look for an entry at the path, without following a symlink.
    Probe(BootPath),
    /// Create the directory and its parents, mode 0755.
    MakeDirs(BootPath),
    /// Create a symlink at `link` that points to `target`.
    Symlink { target: BootPath, link: BootPath },
    /// Create an empty placeholder file.
    Touch(BootPath),
    /// Move `from` to `to`.
    Rename { from: BootPath, to: BootPath },
    /// Change the mount table.
    Mount(MountIntent),
    /// Have the ramdisk layout rebuilt.
    RestoreRamdisk,
    /// Open the image and report its bytes; `in_place` says that it will be
    /// rewritten where it lies.
    Load { path: BootPath, in_place: bool },
    /// Write the rewritten image, which comes with this action, to the path.
    Store { path: BootPath, in_place: bool },
    /// Copy mode, owner and security context from one file to the other.
    CloneAttr { from: BootPath, to: BootPath },
    /// Remove the file.
    Remove(BootPath),
    /// Let the process report the path as its own name.
    SetProcessName(BootPath),
    /// Read the filesystem-type number of `/`.
    ProbeRootfs,
    /// Patch the root as a writable one.
    PatchRwRoot,
    /// Patch the root as a read-only one.
    PatchRoRoot,
    /// Tell the caller that the mount could not be made; going on is up to it.
    ReportMountFailure(MountIntent),
    /// The procedure is over.
    Done,
}

/// Where a procedure stands: the operation whose outcome is awaited.
#[derive(Clone, Copy, Debug, PartialEq, Eq, Structural)]
pub enum State {
    ProbeSdcard,
    ProbeRamdiskSdcard,
    MakeStorage,
    LinkStorage,
    Placeholder,
    MoveInit,
    SelfBind,
    FallbackBind,
    RestoreTwoStage,
    RestoreSingleStage,
    OpenInit,
    WriteInit,
    OpenSource,
    WriteCopy,
    CloneAttrs,
    BindCopy,
    DetachInit,
    DetachSystemInit,
    RemoveCopy,
    RenameProcess,
    ProbeRoot,
    RemoveInit,
    LinkInit,
    Dispatched,
    Finished,
}

/// The answer to an event: the next operation, and with a `Store` the
/// rewritten image and the offsets at which it was rewritten.
#[derive(Clone, Debug, PartialEq, Eq)]
pub struct Reply {
    pub action: Action,
    pub image: Vec<u8>,
    pub offsets: Vec<usize>,
}

/// A procedure under way.
#[derive(Clone, Copy, Debug, PartialEq, Eq, Structural)]
pub struct Machine {
    pub stage: BootStage,
    pub config: Config,
    pub state: State,
}

/// The bind mount that anchors the replacement executable at the storage path.
pub open spec fn self_bind() -> Action {
    Action::Mount(MountIntent::Bind { source: BootPath::Sdcard, target: BootPath::Sdcard })
}

/// The bind mount tried when the self-bind fails: the persistent copy of the
/// replacement executable over the storage path.
pub open spec fn fallback_bind() -> Action {
    Action::Mount(MountIntent::Bind { source: BootPath::DataMagiskinit, target: BootPath::Sdcard })
}

/// The bind mount that puts the rewritten copy over the init about to run.
pub open spec fn copy_bind() -> MountIntent {
    MountIntent::Bind { source: BootPath::DataInit, target: BootPath::Init }
}

/// The storage placeholder directory for a configuration.
pub open spec fn storage_dir(config: Config) -> BootPath {
    if config.force_normal_boot {
        BootPath::RamdiskStorageSelf
    } else {
        BootPath::StorageSelf
    }
}

/// The storage symlink for a configuration.
pub open spec fn storage_link(config: Config) -> Action {
    Action::Symlink {
        target: BootPath::SystemSystemBinInit,
        link: if config.force_normal_boot {
            BootPath::RamdiskStoragePrimary
        } else {
            BootPath::StoragePrimary
        },
    }
}

/// The transition table: the state that follows `state` on `signal`, and the
/// operation that is asked for next.
pub open spec fn transition(state: State, config: Config, signal: Signal) -> (State, Action) {
    match state {
        State::ProbeSdcard => if signal == Signal::Failed {
            (State::ProbeRamdiskSdcard, Action::Probe(BootPath::RamdiskSdcard))
        } else {
            (State::RestoreSingleStage, Action::RestoreRamdisk)
        },
        State::ProbeRamdiskSdcard => if signal == Signal::Failed {
            (State::MakeStorage, Action::MakeDirs(storage_dir(config)))
        } else {
            (State::RestoreSingleStage, Action::RestoreRamdisk)
        },
        State::MakeStorage => (State::LinkStorage, storage_link(config)),
        State::LinkStorage => if config.force_normal_boot {
            (State::Placeholder, Action::Touch(BootPath::RamdiskSdcard))
        } else {
            (State::MoveInit, Action::Rename { from: BootPath::Init, to: BootPath::Sdcard })
        },
        State::Placeholder => (
            State::MoveInit,
            Action::Rename { from: BootPath::Init, to: BootPath::Sdcard },
        ),
        State::MoveInit => (State::SelfBind, self_bind()),
        State::SelfBind => if signal == Signal::Succeeded {
            (State::RestoreTwoStage, Action::RestoreRamdisk)
        } else {
            (State::FallbackBind, fallback_bind())
        },
        State::FallbackBind => (State::RestoreTwoStage, Action::RestoreRamdisk),
        State::RestoreTwoStage => (State::Finished, Action::Done),
        State::RestoreSingleStage => (
            State::OpenInit,
            Action::Load { path: BootPath::Init, in_place: true },
        ),
        State::OpenInit => if signal == Signal::Loaded {
            (State::WriteInit, Action::Store { path: BootPath::Init, in_place: true })
        } else {
            (State::Finished, Action::Done)
        },
        State::WriteInit => (State::Finished, Action::Done),
        State::OpenSource => if signal == Signal::Loaded {
            (State::WriteCopy, Action::Store { path: BootPath::DataInit, in_place: false })
        } else {
            (State::Finished, Action::Done)
        },
        State::WriteCopy => (
            State::CloneAttrs,
            Action::CloneAttr { from: BootPath::Init, to: BootPath::DataInit },
        ),
        State::CloneAttrs => (State::BindCopy, Action::Mount(copy_bind())),
        State::BindCopy => if signal == Signal::Failed {
            (State::Finished, Action::ReportMountFailure(copy_bind()))
        } else {
            (State::Finished, Action::Done)
        },
        State::DetachInit => (
            State::DetachSystemInit,
            Action::Mount(MountIntent::Detach { target: BootPath::SystemBinInit }),
        ),
        State::DetachSystemInit => (State::RemoveCopy, Action::Remove(BootPath::DataInit)),
        State::RemoveCopy => (
            State::RenameProcess,
            Action::SetProcessName(BootPath::SystemBinInit),
        ),
        State::RenameProcess => (State::ProbeRoot, Action::ProbeRootfs),
        State::ProbeRoot => if routes_to_rw_root(signal) {
            (State::RemoveInit, Action::Remove(BootPath::Init))
        } else {
            (State::Dispatched, Action::PatchRoRoot)
        },
        State::RemoveInit => (
            State::LinkInit,
            Action::Symlink { target: BootPath::SystemBinInit, link: BootPath::Init },
        ),
        State::LinkInit => (State::Dispatched, Action::PatchRwRoot),
        State::Dispatched => (State::Finished, Action::Done),
        State::Finished => (State::Finished, Action::Done),
    }
}

/// The root is still the temporary one: the signal carries one of the two
/// filesystem-type numbers that say so. A probe of the root that brought no
/// number counts as any other number.
pub open spec fn routes_to_rw_root(signal: Signal) -> bool {
    match signal {
        Signal::Magic(m) => rootfs_kind(m) == RootfsKind::RamdiskTmpfs,
        _ => false,
    }
}

impl Machine {
    /// Starts the first-stage procedure: the machine awaits the outcome of
    /// the probe for the storage mount point.
    pub fn first_stage(config: Config) -> (started: (Machine, Action))
        ensures
            started.0 == (Machine {
                stage: BootStage::FirstStage,
                config,
                state: State::ProbeSdcard,
            }),
            started.1 == Action::Probe(BootPath::Sdcard),
    {
        (
            Machine { stage: BootStage::FirstStage, config, state: State::ProbeSdcard },
            Action::Probe(BootPath::Sdcard),
        )
    }

    /// Starts the redirection of the second stage: the machine awaits the
    /// bytes of the init that the kernel is about to run.
    pub fn redirect_second_stage(config: Config) -> (started: (Machine, Action))
        ensures
            started.0 == (Machine {
                stage: BootStage::FirstStage,
                config,
                state: State::OpenSource,
            }),
            started.1 == (Action::Load { path: BootPath::Init, in_place: false }),
    {
        (
            Machine { stage: BootStage::FirstStage, config, state: State::OpenSource },
            Action::Load { path: BootPath::Init, in_place: false },
        )
    }

    /// Starts the second-stage procedure: the machine awaits the outcome of
    /// detaching what is mounted over the init path.
    pub fn second_stage(config: Config) -> (started: (Machine, Action))
        ensures
            started.0 == (Machine {
                stage: BootStage::SecondStage,
                config,
                state: State::DetachInit,
            }),
            started.1 == Action::Mount(MountIntent::Detach { target: BootPath::Init }),
    {
        (
            Machine { stage: BootStage::SecondStage, config, state: State::DetachInit },
            Action::Mount(MountIntent::Detach { target: BootPath::Init }),
        )
    }

    /// The procedure is over: every further event is answered with `Done`.
    pub fn is_finished(&self) -> (finished: bool)
        ensures
            finished == (self.state == State::Finished),
    {
        match self.state {
            State::Finished => true,
            _ => false,
        }
    }

    /// Takes the outcome of the operation last asked for, and answers with
    /// the next one, as the transition table says. Stage and configuration
    /// stay as they were. Where the answer is a `Store`, the reply holds the
    /// loaded image with the occurrences of the real init's path, selected
    /// from the left without overlap, replaced by the path of the
    /// replacement executable, and the offsets of the replacements; in every
    /// other answer both are empty.
    pub fn step(&mut self, event: Event) -> (reply: Reply)
        ensures
            final(self).stage == old(self).stage,
            final(self).config == old(self).config,
            (final(self).state, reply.action) == transition(
                old(self).state,
                old(self).config,
                event.signal(),
            ),
            reply.action is Store ==> redirected(event.image(), reply.image@, reply.offsets@),
            !(reply.action is Store) ==> reply.image@.len() == 0 && reply.offsets@.len() == 0,
    {
        let config: Config = self.config;
        let mut image: Vec<u8> = Vec::new();
        let mut offsets: Vec<usize> = Vec::new();
        let (next, action): (State, Action) = match self.state {
            State::ProbeSdcard => match event {
                Event::Failed => (State::ProbeRamdiskSdcard, Action::Probe(BootPath::RamdiskSdcard)),
                _ => (State::RestoreSingleStage, Action::RestoreRamdisk),
            },
            State::ProbeRamdiskSdcard => match event {
                Event::Failed => if config.force_normal_boot {
                    (State::MakeStorage, Action::MakeDirs(BootPath::RamdiskStorageSelf))
                } else {
                    (State::MakeStorage, Action::MakeDirs(BootPath::StorageSelf))
                },
                _ => (State::RestoreSingleStage, Action::RestoreRamdisk),
            },
            State::MakeStorage => if config.force_normal_boot {
                (
                    State::LinkStorage,
                    Action::Symlink {
                        target: BootPath::SystemSystemBinInit,
                        link: BootPath::RamdiskStoragePrimary,
                    },
                )
            } else {
                (
                    State::LinkStorage,
                    Action::Symlink {
                        target: BootPath::SystemSystemBinInit,
                        link: BootPath::StoragePrimary,
                    },
                )
            },
            State::LinkStorage => if config.force_normal_boot {
                (State::Placeholder, Action::Touch(BootPath::RamdiskSdcard))
            } else {
                (State::MoveInit, Action::Rename { from: BootPath::Init, to: BootPath::Sdcard })
            },
            State::Placeholder => (
                State::MoveInit,
                Action::Rename { from: BootPath::Init, to: BootPath::Sdcard },
            ),
            State::MoveInit => (
                State::SelfBind,
                Action::Mount(
                    MountIntent::Bind { source: BootPath::Sdcard, target: BootPath::Sdcard },
                ),
            ),
            State::SelfBind => match event {
                Event::Succeeded => (State::RestoreTwoStage, Action::RestoreRamdisk),
                _ => (
                    State::FallbackBind,
                    Action::Mount(
                        MountIntent::Bind {
                            source: BootPath::DataMagiskinit,
                            target: BootPath::Sdcard,
                        },
                    ),
                ),
            },
            State::FallbackBind => (State::RestoreTwoStage, Action::RestoreRamdisk),
            State::RestoreTwoStage => (State::Finished, Action::Done),
            State::RestoreSingleStage => (
                State::OpenInit,
                Action::Load { path: BootPath::Init, in_place: true },
            ),
            State::OpenInit => match event {
                Event::Loaded(bytes) => {
                    image = bytes;
                    offsets = redirect_image(BootPath::Init, &mut image);
                    (State::WriteInit, Action::Store { path: BootPath::Init, in_place: true })
                },
                _ => (State::Finished, Action::Done),
            },
            State::WriteInit => (State::Finished, Action::Done),
            State::OpenSource => match event {
                Event::Loaded(bytes) => {
                    image = bytes;
                    offsets = redirect_image(BootPath::DataInit, &mut image);
                    (State::WriteCopy, Action::Store { path: BootPath::DataInit, in_place: false })
                },
                _ => (State::Finished, Action::Done),
            },
            State::WriteCopy => (
                State::CloneAttrs,
                Action::CloneAttr { from: BootPath::Init, to: BootPath::DataInit },
            ),
            State::CloneAttrs => (
                State::BindCopy,
                Action::Mount(
                    MountIntent::Bind { source: BootPath::DataInit, target: BootPath::Init },
                ),
            ),
            State::BindCopy => match event {
                Event::Failed => (
                    State::Finished,
                    Action::ReportMountFailure(
                        MountIntent::Bind { source: BootPath::DataInit, target: BootPath::Init },
                    ),
                ),
                _ => (State::Finished, Action::Done),
            },
            State::DetachInit => (
                State::DetachSystemInit,
                Action::Mount(MountIntent::Detach { target: BootPath::SystemBinInit }),
            ),
            State::DetachSystemInit => (State::RemoveCopy, Action::Remove(BootPath::DataInit)),
            State::RemoveCopy => (
                State::RenameProcess,
                Action::SetProcessName(BootPath::SystemBinInit),
            ),
            State::RenameProcess => (State::ProbeRoot, Action::ProbeRootfs),
            State::ProbeRoot => match event {
                Event::Magic(m) => match classify_rootfs(m) {
                    RootfsKind::RamdiskTmpfs => (State::RemoveInit, Action::Remove(BootPath::Init)),
                    RootfsKind::SystemAsRoot => (State::Dispatched, Action::PatchRoRoot),
                },
                _ => (State::Dispatched, Action::PatchRoRoot),
            },
            State::RemoveInit => (
                State::LinkInit,
                Action::Symlink { target: BootPath::SystemBinInit, link: BootPath::Init },
            ),
            State::LinkInit => (State::Dispatched, Action::PatchRwRoot),
            State::Dispatched => (State::Finished, Action::Done),
            State::Finished => (State::Finished, Action::Done),
        };
        self.state = next;
        Reply { action, image, offsets }
    }
}

/// `after` is the init image `before` redirected to the replacement
/// executable, at the offsets `offsets`: the image is as long as it was; the
/// offsets are those that a scan from the left selects among the occurrences
/// of the real init's path; at each of them the path of the replacement
/// executable now stands, and so it does wherever the real init's path
/// stood; every byte outside those windows is as it was. The real init's
/// path stands nowhere in the image any more, and the path of the
/// replacement executable stands in it as many times as either path did
/// before.
pub open spec fn redirected(before: Seq<u8>, after: Seq<u8>, offsets: Seq<usize>) -> bool {
    &&& after.len() == before.len()
    &&& leftmost_selection(before, real_init_literal(), offsets)
    &&& rewritten(before, after, replacement_literal(), offsets)
    &&& forall|p: int| #[trigger]
        occurs_at(before, real_init_literal(), p) ==> occurs_at(after, replacement_literal(), p)
    &&& forall|p: int| !occurs_at(after, real_init_literal(), p)
    &&& occurrences(after, replacement_literal()).len() == occurrences(
        before,
        replacement_literal(),
    ).len() + occurrences(before, real_init_literal()).len()
    &&& occurrences(before, real_init_literal()).len() == offsets.len()
}

/// Redirects the init image that is to be written to `path` to the
/// replacement executable, and returns the offsets of the replacements.
pub fn redirect_image(path: BootPath, image: &mut Vec<u8>) -> (offsets: Vec<usize>)
    ensures
        redirected(old(image)@, final(image)@, offsets@),
{
    let target: PatchTarget = PatchTarget::init_redirect(path);
    let offsets: Vec<usize> = target.apply(image);
    proof {
        literals_have_equal_length();
        redirection_replaces_every_occurrence(old(image)@, image@, offsets@);
        redirection_exchanges_the_paths(old(image)@, image@, offsets@);
        redirection_counts(old(image)@, image@, offsets@);
    }
    offsets
}

} // verus!
