//! What holds of every run of the three procedures, whatever the system
//! answers.
//!
//! A run is a sequence of signals: `signals[n]` reports the outcome of the
//! operation asked for just before it, the first of which the entry point
//! handed out. `reply_to(.., n)` is the operation that the machine asks for
//! in answer to `signals[n]`.

use vstd::prelude::*;
use vstd::set_lib::{lemma_int_range, lemma_set_disjoint_lens, lemma_set_subset_finite, set_int_range};
use crate::machine::{
    copy_bind, fallback_bind, routes_to_rw_root, self_bind, storage_dir, storage_link,
    transition, Action, Signal, State,
};
use crate::model::{
    literals_have_equal_length, real_init_literal, replacement_literal, BootPath, Config,
    MountIntent,
};
use crate::patch::{covered, leftmost_selection, occurs_at, rewritten};

verus! {

/// The state reached from `start` after the first `n` signals.
pub open spec fn state_after(start: State, config: Config, signals: Seq<Signal>, n: nat) -> State
    decreases n,
{
    if n == 0 {
        start
    } else {
        transition(
            state_after(start, config, signals, (n - 1) as nat),
            config,
            signals[n - 1],
        ).0
    }
}

/// The operation asked for in answer to `signals[n]`.
pub open spec fn reply_to(start: State, config: Config, signals: Seq<Signal>, n: nat) -> Action {
    transition(state_after(start, config, signals, n), config, signals[n as int]).1
}

/// The states of the two-stage route of the first stage, from the creation
/// of the storage placeholder on.
pub open spec fn on_two_stage_route(state: State) -> bool {
    state == State::MakeStorage || state == State::LinkStorage || state == State::Placeholder
        || state == State::MoveInit || state == State::SelfBind || state == State::FallbackBind
        || state == State::RestoreTwoStage || state == State::Finished
}

/// The states of the single-stage route of the first stage.
pub open spec fn on_single_stage_route(state: State) -> bool {
    state == State::RestoreSingleStage || state == State::OpenInit || state == State::WriteInit
        || state == State::Finished
}

/// The operations of the two-stage route that the single-stage route never
/// asks for: the storage placeholder and symlink, the rename, the mounts.
pub open spec fn is_two_stage_operation(action: Action) -> bool {
    action is MakeDirs || action is Symlink || action is Touch || action is Rename
        || action is Mount
}

/// The operations that rewrite an image.
pub open spec fn is_patch_operation(action: Action) -> bool {
    action is Load || action is Store
}

/// The number of signals after which the self-bind's outcome arrives on the
/// two-stage route.
pub open spec fn self_bind_outcome(config: Config) -> nat {
    if config.force_normal_boot {
        6
    } else {
        5
    }
}

proof fn stays_on_two_stage_route(config: Config, signals: Seq<Signal>, n: nat)
    requires
        signals.len() >= 2,
        signals[0] == Signal::Failed,
        signals[1] == Signal::Failed,
        n >= 2,
    ensures
        on_two_stage_route(state_after(State::ProbeSdcard, config, signals, n)),
    decreases n,
{
    reveal_with_fuel(state_after, 3);
    if n > 2 {
        stays_on_two_stage_route(config, signals, (n - 1) as nat);
    }
}

proof fn finished_after_two_stage_route(config: Config, signals: Seq<Signal>, n: nat)
    requires
        signals.len() >= 2,
        signals[0] == Signal::Failed,
        signals[1] == Signal::Failed,
        n >= self_bind_outcome(config) + 3,
    ensures
        state_after(State::ProbeSdcard, config, signals, n) == State::Finished,
    decreases n,
{
    reveal_with_fuel(state_after, 10);
    if n > self_bind_outcome(config) + 3 {
        finished_after_two_stage_route(config, signals, (n - 1) as nat);
    }
}

proof fn stays_on_single_stage_route(config: Config, signals: Seq<Signal>, n: nat)
    requires
        signals.len() >= 2,
        signals[0] != Signal::Failed || signals[1] != Signal::Failed,
        n >= 2,
    ensures
        on_single_stage_route(state_after(State::ProbeSdcard, config, signals, n)),
    decreases n,
{
    reveal_with_fuel(state_after, 3);
    if n > 2 {
        stays_on_single_stage_route(config, signals, (n - 1) as nat);
    }
}

/// When both storage probes fail, the first stage takes the two-stage route:
/// it creates the storage placeholder and the storage symlink, moves the
/// replacement executable from the init path to the storage path and
/// bind-mounts the storage path onto itself, in this order; and at no point
/// of the run does it load or store an image.
pub proof fn both_probes_fail_takes_two_stage_route(config: Config, signals: Seq<Signal>)
    requires
        signals.len() >= 6,
        signals[0] == Signal::Failed,
        signals[1] == Signal::Failed,
    ensures
        reply_to(State::ProbeSdcard, config, signals, 0) == Action::Probe(BootPath::RamdiskSdcard),
        reply_to(State::ProbeSdcard, config, signals, 1) == Action::MakeDirs(storage_dir(config)),
        reply_to(State::ProbeSdcard, config, signals, 2) == storage_link(config),
        config.force_normal_boot ==> reply_to(State::ProbeSdcard, config, signals, 3)
            == Action::Touch(BootPath::RamdiskSdcard),
        reply_to(
            State::ProbeSdcard,
            config,
            signals,
            (self_bind_outcome(config) - 2) as nat,
        ) == (Action::Rename { from: BootPath::Init, to: BootPath::Sdcard }),
        reply_to(State::ProbeSdcard, config, signals, (self_bind_outcome(config) - 1) as nat)
            == self_bind(),
        forall|n: nat|
            n < signals.len() ==> !is_patch_operation(
                #[trigger] reply_to(State::ProbeSdcard, config, signals, n),
            ),
{
    reveal_with_fuel(state_after, 7);
    assert forall|n: nat| n < signals.len() implies !is_patch_operation(
        #[trigger] reply_to(State::ProbeSdcard, config, signals, n),
    ) by {
        if n >= 2 {
            stays_on_two_stage_route(config, signals, n);
        }
    }
}

/// When at least one storage probe finds an entry, the first stage takes the
/// single-stage route: it has the ramdisk restored and then asks for the
/// init image, to rewrite it in place; when the image comes, it stores the
/// rewritten image at the same path. At no point of the run does it ask for
/// a placeholder, a symlink, a rename or a mount.
pub proof fn a_found_probe_takes_single_stage_route(config: Config, signals: Seq<Signal>)
    requires
        signals.len() >= 4,
        signals[0] != Signal::Failed || signals[1] != Signal::Failed,
    ensures
        ({
            let first: nat = if signals[0] != Signal::Failed {
                0
            } else {
                1
            };
            &&& reply_to(State::ProbeSdcard, config, signals, first) == Action::RestoreRamdisk
            &&& reply_to(State::ProbeSdcard, config, signals, first + 1) == (Action::Load {
                path: BootPath::Init,
                in_place: true,
            })
            &&& reply_to(State::ProbeSdcard, config, signals, first + 2) == (if signals[(first + 2) as int]
                == Signal::Loaded {
                Action::Store { path: BootPath::Init, in_place: true }
            } else {
                Action::Done
            })
        }),
        forall|n: nat|
            n < signals.len() ==> !is_two_stage_operation(
                #[trigger] reply_to(State::ProbeSdcard, config, signals, n),
            ),
{
    reveal_with_fuel(state_after, 5);
    assert forall|n: nat| n < signals.len() implies !is_two_stage_operation(
        #[trigger] reply_to(State::ProbeSdcard, config, signals, n),
    ) by {
        if n >= 2 {
            stays_on_single_stage_route(config, signals, n);
        }
    }
}

/// On the two-stage route the fallback bind mount, of the persistent copy of
/// the replacement executable over the storage path, is asked for exactly
/// when the outcome of the self-bind is anything but success, in answer to
/// that outcome and at no other point of the run: never after a self-bind
/// that succeeded, and never twice.
pub proof fn fallback_bind_follows_failed_self_bind_only(config: Config, signals: Seq<Signal>)
    requires
        signals.len() > self_bind_outcome(config),
        signals[0] == Signal::Failed,
        signals[1] == Signal::Failed,
    ensures
        forall|n: nat|
            n < signals.len() ==> ((#[trigger] reply_to(State::ProbeSdcard, config, signals, n))
                == fallback_bind() <==> n == self_bind_outcome(config) && signals[n as int]
                != Signal::Succeeded),
{
    reveal_with_fuel(state_after, 10);
    assert forall|n: nat| n < signals.len() implies ((#[trigger] reply_to(
        State::ProbeSdcard,
        config,
        signals,
        n,
    )) == fallback_bind() <==> n == self_bind_outcome(config) && signals[n as int]
        != Signal::Succeeded) by {
        if n >= self_bind_outcome(config) + 3 {
            finished_after_two_stage_route(config, signals, n);
        }
    }
}

/// The single-stage route asks for no fallback bind mount, and the
/// fallback is the answer of one state only: the one that awaits the
/// self-bind's outcome.
pub proof fn fallback_bind_has_one_origin(state: State, config: Config, signal: Signal)
    ensures
        transition(state, config, signal).1 == fallback_bind() <==> state == State::SelfBind
            && signal != Signal::Succeeded,
{
}

/// The second stage always begins by tearing down what the first stage left:
/// after the detach of the init path, which the entry point asks for, it
/// detaches the real init's path, removes the rewritten copy, renames the
/// process and only then reads the kind of the root, whatever the outcomes
/// are and whichever strategy is dispatched afterwards.
pub proof fn second_stage_tears_down_first(config: Config, signals: Seq<Signal>)
    requires
        signals.len() >= 4,
    ensures
        reply_to(State::DetachInit, config, signals, 0) == Action::Mount(
            MountIntent::Detach { target: BootPath::SystemBinInit },
        ),
        reply_to(State::DetachInit, config, signals, 1) == Action::Remove(BootPath::DataInit),
        reply_to(State::DetachInit, config, signals, 2) == Action::SetProcessName(
            BootPath::SystemBinInit,
        ),
        reply_to(State::DetachInit, config, signals, 3) == Action::ProbeRootfs,
        forall|n: nat|
            n < 4 ==> {
                let action = #[trigger] reply_to(State::DetachInit, config, signals, n);
                action != Action::PatchRwRoot && action != Action::PatchRoRoot
            },
{
    reveal_with_fuel(state_after, 6);
}

/// The second stage dispatches by the kind of the root. On a root that is
/// still the temporary one it removes the init path, links it to the real
/// init and dispatches the read-write strategy; on every other root it
/// dispatches the read-only strategy at once. Nothing is asked for after
/// the dispatch.
pub proof fn second_stage_dispatches_by_root(config: Config, signals: Seq<Signal>)
    requires
        signals.len() >= 8,
    ensures
        routes_to_rw_root(signals[4]) ==> {
            &&& reply_to(State::DetachInit, config, signals, 4) == Action::Remove(BootPath::Init)
            &&& reply_to(State::DetachInit, config, signals, 5) == (Action::Symlink {
                target: BootPath::SystemBinInit,
                link: BootPath::Init,
            })
            &&& reply_to(State::DetachInit, config, signals, 6) == Action::PatchRwRoot
            &&& reply_to(State::DetachInit, config, signals, 7) == Action::Done
        },
        !routes_to_rw_root(signals[4]) ==> {
            &&& reply_to(State::DetachInit, config, signals, 4) == Action::PatchRoRoot
            &&& reply_to(State::DetachInit, config, signals, 5) == Action::Done
        },
{
    reveal_with_fuel(state_after, 9);
}

/// The two filesystem-type numbers of a temporary root route to the
/// read-write strategy, and every other number to the read-only one.
pub proof fn magic_routes(magic: u64)
    ensures
        routes_to_rw_root(Signal::Magic(magic)) <==> magic == 0x858458f6 || magic == 0x01021994,
        transition(State::ProbeRoot, Config { force_normal_boot: false }, Signal::Magic(magic)).1
            == (if magic == 0x858458f6 || magic == 0x01021994 {
            Action::Remove(BootPath::Init)
        } else {
            Action::PatchRoRoot
        }),
{
}

/// The redirection of the second stage goes on only with an image. When
/// the init image could not be opened, the redirection is skipped: the
/// procedure is over at once, and at no point of the run is a store, an
/// attribute copy or a mount asked for. When the image came, the machine
/// asks for the rewritten copy to be stored, then for the attributes to be
/// copied, then for the bind mount of the copy over the init path; a
/// failed mount is reported and nothing else is asked for.
pub proof fn redirection_needs_an_image(config: Config, signals: Seq<Signal>)
    requires
        signals.len() >= 4,
    ensures
        signals[0] != Signal::Loaded ==> forall|n: nat|
            n < signals.len() ==> #[trigger] reply_to(State::OpenSource, config, signals, n)
                == Action::Done,
        signals[0] == Signal::Loaded ==> {
            &&& reply_to(State::OpenSource, config, signals, 0) == (Action::Store {
                path: BootPath::DataInit,
                in_place: false,
            })
            &&& reply_to(State::OpenSource, config, signals, 1) == (Action::CloneAttr {
                from: BootPath::Init,
                to: BootPath::DataInit,
            })
            &&& reply_to(State::OpenSource, config, signals, 2) == Action::Mount(copy_bind())
            &&& reply_to(State::OpenSource, config, signals, 3) == (if signals[3]
                == Signal::Failed {
                Action::ReportMountFailure(copy_bind())
            } else {
                Action::Done
            })
        },
{
    reveal_with_fuel(state_after, 5);
    if signals[0] != Signal::Loaded {
        assert forall|n: nat| n < signals.len() implies #[trigger] reply_to(
            State::OpenSource,
            config,
            signals,
            n,
        ) == Action::Done by {
            if n >= 1 {
                stays_finished(State::OpenSource, config, signals, 1, n);
            }
        }
    }
}

/// The attribute copy and the bind mount of the copy are asked for from
/// two states only, which are entered only through the store of a loaded
/// image.
pub proof fn copy_is_mounted_only_after_a_store(state: State, config: Config, signal: Signal)
    ensures
        transition(state, config, signal).1 == (Action::CloneAttr {
            from: BootPath::Init,
            to: BootPath::DataInit,
        }) <==> state == State::WriteCopy,
        transition(state, config, signal).1 == Action::Mount(copy_bind()) <==> state
            == State::CloneAttrs,
        transition(state, config, signal).0 == State::CloneAttrs <==> state == State::WriteCopy,
        transition(state, config, signal).0 == State::WriteCopy <==> state == State::OpenSource
            && signal == Signal::Loaded,
{
}

/// A procedure that is over after `m` signals is over after every later one.
proof fn stays_finished(start: State, config: Config, signals: Seq<Signal>, m: nat, n: nat)
    requires
        m <= n,
        state_after(start, config, signals, m) == State::Finished,
    ensures
        state_after(start, config, signals, n) == State::Finished,
    decreases n,
{
    if n > m {
        stays_finished(start, config, signals, m, (n - 1) as nat);
    }
}

/// A rewrite keeps the length of the image, puts the replacement at every
/// selected offset where the sought bytes stood, and leaves the image as
/// it was when the sought bytes do not occur in it.
pub proof fn rewrite_preserves_length(
    before: Seq<u8>,
    after: Seq<u8>,
    from: Seq<u8>,
    to: Seq<u8>,
    offsets: Seq<usize>,
)
    requires
        from.len() == to.len(),
        leftmost_selection(before, from, offsets),
        rewritten(before, after, to, offsets),
    ensures
        after.len() == before.len(),
        forall|i: int|
            0 <= i < offsets.len() ==> before.subrange(
                #[trigger] offsets[i] as int,
                offsets[i] + from.len(),
            ) == from && after.subrange(offsets[i] as int, offsets[i] + to.len()) == to,
        (forall|p: int| !occurs_at(before, from, p)) ==> after == before,
{
    assert forall|i: int| 0 <= i < offsets.len() implies before.subrange(
        #[trigger] offsets[i] as int,
        offsets[i] + from.len(),
    ) == from && after.subrange(offsets[i] as int, offsets[i] + to.len()) == to by {
        assert(occurs_at(before, from, offsets[i] as int));
        assert(occurs_at(after, to, offsets[i] as int));
    }
    if forall|p: int| !occurs_at(before, from, p) {
        if offsets.len() > 0 {
            assert(occurs_at(before, from, offsets[0] as int));
        }
        assert forall|p: int| 0 <= p < before.len() implies after[p] == before[p] by {
            assert(!covered(offsets, to.len() as int, p));
        }
        assert(after =~= before);
    }
}

/// No proper suffix of `needle` is a prefix of it: two occurrences of such
/// a needle never overlap.
pub open spec fn border_free(needle: Seq<u8>) -> bool {
    forall|k: int|
        0 < k < needle.len() ==> #[trigger] needle.subrange(k, needle.len() as int)
            != needle.subrange(0, needle.len() - k)
}

/// The offset `at` is one of `offsets`.
pub open spec fn selected(offsets: Seq<usize>, at: int) -> bool {
    exists|i: int| 0 <= i < offsets.len() && #[trigger] offsets[i] == at
}

/// Of a needle whose occurrences cannot overlap, the scan selects every
/// occurrence: an offset is selected exactly when the needle stands there.
pub proof fn selection_takes_every_occurrence(hay: Seq<u8>, needle: Seq<u8>, offsets: Seq<usize>)
    requires
        needle.len() > 0,
        border_free(needle),
        leftmost_selection(hay, needle, offsets),
    ensures
        forall|p: int| #[trigger] occurs_at(hay, needle, p) <==> selected(offsets, p),
{
    let n = needle.len() as int;
    assert forall|p: int| #[trigger] occurs_at(hay, needle, p) implies selected(offsets, p) by {
        assert(covered(offsets, n, p));
        let i = choose|i: int| 0 <= i < offsets.len() && #[trigger] offsets[i] <= p < offsets[i] + n;
        let o = offsets[i] as int;
        assert(occurs_at(hay, needle, o));
        if o < p {
            let k = p - o;
            assert(needle.subrange(k, n) =~= hay.subrange(o, o + n).subrange(k, n));
            assert(needle.subrange(0, n - k) =~= hay.subrange(p, p + n).subrange(0, n - k));
            assert(hay.subrange(o, o + n).subrange(k, n) =~= hay.subrange(p, p + n).subrange(
                0,
                n - k,
            ));
            assert(false);
        }
        assert(offsets[i] == p);
    }
    assert forall|p: int| selected(offsets, p) implies #[trigger] occurs_at(hay, needle, p) by {
        let i = choose|i: int| 0 <= i < offsets.len() && #[trigger] offsets[i] == p;
        assert(occurs_at(hay, needle, offsets[i] as int));
    }
}

/// The path of the real init does not overlap itself.
pub proof fn real_init_literal_is_border_free()
    ensures
        border_free(real_init_literal()),
{
    reveal_strlit("/system/bin/init");
    let needle = real_init_literal();
    assert(needle.len() == 16);
    assert forall|k: int| 0 < k < needle.len() implies #[trigger] needle.subrange(k, 16)
        != needle.subrange(0, 16 - k) by {
        let j: int = if k == 7 || k == 11 {
            1
        } else {
            0
        };
        assert(needle.subrange(k, 16)[j] == needle[k + j]);
        assert(needle.subrange(0, 16 - k)[j] == needle[j]);
        assert(needle[k + j] != needle[j]);
    }
}

/// Redirecting an init image replaces every occurrence of the real init's
/// path by the path of the replacement executable, which has the same
/// length, and the image is as long afterwards as it was before.
pub proof fn redirection_replaces_every_occurrence(
    before: Seq<u8>,
    after: Seq<u8>,
    offsets: Seq<usize>,
)
    requires
        leftmost_selection(before, real_init_literal(), offsets),
        rewritten(before, after, replacement_literal(), offsets),
    ensures
        real_init_literal().len() == replacement_literal().len(),
        after.len() == before.len(),
        forall|p: int| #[trigger]
            occurs_at(before, real_init_literal(), p) ==> occurs_at(
                after,
                replacement_literal(),
                p,
            ),
{
    literals_have_equal_length();
    real_init_literal_is_border_free();
    selection_takes_every_occurrence(before, real_init_literal(), offsets);
    assert forall|p: int| #[trigger]
        occurs_at(before, real_init_literal(), p) implies occurs_at(
        after,
        replacement_literal(),
        p,
    ) by {
        assert(selected(offsets, p));
        let i = choose|i: int| 0 <= i < offsets.len() && #[trigger] offsets[i] == p;
        assert(occurs_at(after, replacement_literal(), offsets[i] as int));
    }
}

/// The offsets at which `needle` stands in `hay`.
pub open spec fn occurrences(hay: Seq<u8>, needle: Seq<u8>) -> Set<int> {
    Set::new(|p: int| occurs_at(hay, needle, p))
}

/// A sequence holds a needle at finitely many offsets.
pub proof fn occurrences_are_finite(hay: Seq<u8>, needle: Seq<u8>)
    ensures
        occurrences(hay, needle).finite(),
{
    let all = set_int_range(0, hay.len() as int + 1);
    lemma_int_range(0, hay.len() as int + 1);
    assert(occurrences(hay, needle).subset_of(all));
    lemma_set_subset_finite(all, occurrences(hay, needle));
}

/// `path` is one of the two paths that a redirection exchanges.
pub open spec fn is_init_literal(path: Seq<u8>) -> bool {
    path == real_init_literal() || path == replacement_literal()
}

/// The bytes of the two paths.
proof fn literal_bytes()
    ensures
        real_init_literal() == seq![
            47u8, 115u8, 121u8, 115u8, 116u8, 101u8, 109u8, 47u8,
            98u8, 105u8, 110u8, 47u8, 105u8, 110u8, 105u8, 116u8,
        ],
        replacement_literal() == seq![
            47u8, 100u8, 97u8, 116u8, 97u8, 47u8, 109u8, 97u8,
            103u8, 105u8, 115u8, 107u8, 105u8, 110u8, 105u8, 116u8,
        ],
{
    reveal_strlit("/system/bin/init");
    reveal_strlit("/data/magiskinit");
    assert(real_init_literal() =~= seq![
        47u8, 115u8, 121u8, 115u8, 116u8, 101u8, 109u8, 47u8,
        98u8, 105u8, 110u8, 47u8, 105u8, 110u8, 105u8, 116u8,
    ]);
    assert(replacement_literal() =~= seq![
        47u8, 100u8, 97u8, 116u8, 97u8, 47u8, 109u8, 97u8,
        103u8, 105u8, 115u8, 107u8, 105u8, 110u8, 105u8, 116u8,
    ]);
}

/// Where a path begins with a slash again, the byte behind that slash is
/// not the byte behind the first slash of either path.
proof fn slashes_of_literals(x: Seq<u8>, y: Seq<u8>, k: int)
    requires
        is_init_literal(x),
        is_init_literal(y),
        0 <= k < 16,
        x[k] == y[0],
    ensures
        k == 0 || (k + 1 < 16 && x[k + 1] != y[1]),
        x[1] == y[1] ==> x == y,
{
    literal_bytes();
    if k == 1 {
    } else if k == 2 {
    } else if k == 3 {
    } else if k == 4 {
    } else if k == 5 {
    } else if k == 6 {
    } else if k == 7 {
    } else if k == 8 {
    } else if k == 9 {
    } else if k == 10 {
    } else if k == 11 {
    } else if k == 12 {
    } else if k == 13 {
    } else if k == 14 {
    } else if k == 15 {
    }
}

/// The two paths do not interlock: where one of them stands in a sequence,
/// neither of them begins inside it, but the same path at the same offset.
pub proof fn init_literals_do_not_interlock(hay: Seq<u8>, x: Seq<u8>, o: int, y: Seq<u8>, p: int)
    requires
        is_init_literal(x),
        is_init_literal(y),
        occurs_at(hay, x, o),
        occurs_at(hay, y, p),
        o <= p < o + 16,
    ensures
        o == p,
        x == y,
{
    literals_have_equal_length();
    let k = p - o;
    assert(hay.subrange(o, o + 16)[k] == hay[p]);
    assert(hay.subrange(p, p + 16)[0] == hay[p]);
    slashes_of_literals(x, y, k);
    if k + 1 < 16 {
        assert(hay.subrange(o, o + 16)[k + 1] == hay[p + 1]);
        assert(hay.subrange(p, p + 16)[1] == hay[p + 1]);
    }
}

/// Where no selected window reaches into a stretch of the image, the
/// rewrite leaves the stretch as it was.
proof fn untouched_stretch(
    before: Seq<u8>,
    after: Seq<u8>,
    to: Seq<u8>,
    offsets: Seq<usize>,
    p: int,
    w: int,
)
    requires
        rewritten(before, after, to, offsets),
        0 <= p,
        0 <= w,
        p + w <= before.len(),
        forall|q: int| p <= q < p + w ==> !covered(offsets, to.len() as int, q),
    ensures
        after.subrange(p, p + w) == before.subrange(p, p + w),
{
    assert forall|q: int| p <= q < p + w implies #[trigger] after[q] == before[q] by {
        assert(!covered(offsets, to.len() as int, q));
    }
    assert(after.subrange(p, p + w) =~= before.subrange(p, p + w));
}

/// A selected window that reaches into the sixteen bytes from `p` on, if
/// there is one: the index of its offset.
proof fn window_into(offsets: Seq<usize>, p: int) -> (found: Option<int>)
    ensures
        match found {
            Some(i) => 0 <= i < offsets.len() && p - 16 < offsets[i] < p + 16,
            None => forall|q: int| p <= q < p + 16 ==> !covered(offsets, 16, q),
        },
{
    if exists|q: int| p <= q < p + 16 && covered(offsets, 16, q) {
        let q = choose|q: int| p <= q < p + 16 && covered(offsets, 16, q);
        let i = choose|i: int| 0 <= i < offsets.len() && #[trigger] offsets[i] <= q < offsets[i] + 16;
        Some(i)
    } else {
        None
    }
}

/// After a redirection the path of the replacement executable stands
/// exactly where it stood before or where the path of the real init stood,
/// and the two never stood at the same offset; the path of the real init
/// stands nowhere any more.
pub proof fn redirection_exchanges_the_paths(
    before: Seq<u8>,
    after: Seq<u8>,
    offsets: Seq<usize>,
)
    requires
        leftmost_selection(before, real_init_literal(), offsets),
        rewritten(before, after, replacement_literal(), offsets),
    ensures
        forall|p: int| !occurs_at(after, real_init_literal(), p),
        forall|p: int|
            occurs_at(after, replacement_literal(), p) <==> (occurs_at(
                before,
                replacement_literal(),
                p,
            ) || occurs_at(before, real_init_literal(), p)),
        forall|p: int|
            !(occurs_at(before, replacement_literal(), p) && occurs_at(
                before,
                real_init_literal(),
                p,
            )),
{
    let from = real_init_literal();
    let to = replacement_literal();
    literals_have_equal_length();
    literal_bytes();
    assert(from != to) by {
        assert(from[1] != to[1]);
    }
    redirection_replaces_every_occurrence(before, after, offsets);
    assert forall|p: int| !occurs_at(after, from, p) by {
        if occurs_at(after, from, p) {
            match window_into(offsets, p) {
                Some(i) => {
                    let o = offsets[i] as int;
                    assert(occurs_at(after, to, o));
                    if o <= p {
                        init_literals_do_not_interlock(after, to, o, from, p);
                    } else {
                        init_literals_do_not_interlock(after, from, p, to, o);
                    }
                },
                None => {
                    untouched_stretch(before, after, to, offsets, p, 16);
                    assert(occurs_at(before, from, p));
                    assert(covered(offsets, 16, p));
                },
            }
        }
    }
    assert forall|p: int|
        !(occurs_at(before, to, p) && occurs_at(before, from, p)) by {
        if occurs_at(before, to, p) && occurs_at(before, from, p) {
            init_literals_do_not_interlock(before, to, p, from, p);
        }
    }
    assert forall|p: int| occurs_at(after, to, p) implies (occurs_at(before, to, p) || occurs_at(
        before,
        from,
        p,
    )) by {
        match window_into(offsets, p) {
            Some(i) => {
                let o = offsets[i] as int;
                assert(occurs_at(after, to, o));
                assert(occurs_at(before, from, o));
                if o <= p {
                    init_literals_do_not_interlock(after, to, o, to, p);
                } else {
                    init_literals_do_not_interlock(after, to, p, to, o);
                }
            },
            None => {
                untouched_stretch(before, after, to, offsets, p, 16);
            },
        }
    }
    assert forall|p: int| occurs_at(before, to, p) implies occurs_at(after, to, p) by {
        match window_into(offsets, p) {
            Some(i) => {
                let o = offsets[i] as int;
                assert(occurs_at(before, from, o));
                if o <= p {
                    init_literals_do_not_interlock(before, from, o, to, p);
                } else {
                    init_literals_do_not_interlock(before, to, p, from, o);
                }
            },
            None => {
                untouched_stretch(before, after, to, offsets, p, 16);
            },
        }
    }
}

/// After a redirection the image holds the path of the replacement
/// executable as many times as it held either path before, and the path of
/// the real init not once.
pub proof fn redirection_counts(before: Seq<u8>, after: Seq<u8>, offsets: Seq<usize>)
    requires
        leftmost_selection(before, real_init_literal(), offsets),
        rewritten(before, after, replacement_literal(), offsets),
    ensures
        occurrences(after, real_init_literal()).len() == 0,
        occurrences(after, replacement_literal()).len() == occurrences(
            before,
            replacement_literal(),
        ).len() + occurrences(before, real_init_literal()).len(),
        occurrences(before, real_init_literal()).len() == offsets.len(),
{
    let from = real_init_literal();
    let to = replacement_literal();
    redirection_exchanges_the_paths(before, after, offsets);
    assert(occurrences(after, from) =~= Set::<int>::empty());
    let kept = occurrences(before, to);
    let swapped = occurrences(before, from);
    occurrences_are_finite(before, to);
    occurrences_are_finite(before, from);
    assert(kept.disjoint(swapped));
    assert(occurrences(after, to) =~= kept + swapped);
    lemma_set_disjoint_lens(kept, swapped);
    literals_have_equal_length();
    real_init_literal_is_border_free();
    selection_takes_every_occurrence(before, from, offsets);
    assert(selects(before, from, offsets)) by {
        reveal(selects);
    }
    assert(all_selected(before, from, offsets)) by {
        reveal(all_selected);
    }
    selected_offsets_count(before, from, offsets, offsets.len());
    assert(occurrences_below(before, from, scan_bound(before, offsets, offsets.len())) =~= swapped);
}

/// Where the scan stands before it selects the offset of index `n`: at that
/// offset, or behind the image when there is no such offset.
spec fn scan_bound(hay: Seq<u8>, offsets: Seq<usize>, n: nat) -> int {
    if n >= offsets.len() {
        hay.len() as int + 1
    } else {
        offsets[n as int] as int
    }
}

/// The occurrences that begin before `bound`.
spec fn occurrences_below(hay: Seq<u8>, needle: Seq<u8>, bound: int) -> Set<int> {
    Set::new(|p: int| occurs_at(hay, needle, p) && p < bound)
}

/// Every occurrence is a selected offset; folded away for the proof below.
#[verifier::opaque]
spec fn all_selected(hay: Seq<u8>, needle: Seq<u8>, offsets: Seq<usize>) -> bool {
    forall|p: int| #[trigger] occurs_at(hay, needle, p) ==> selected(offsets, p)
}

/// The index at which the occurrence `p` is selected.
proof fn index_of(hay: Seq<u8>, needle: Seq<u8>, offsets: Seq<usize>, p: int) -> (i: int)
    requires
        all_selected(hay, needle, offsets),
        occurs_at(hay, needle, p),
    ensures
        0 <= i < offsets.len(),
        offsets[i] == p,
{
    reveal(all_selected);
    assert(selected(offsets, p));
    choose|i: int| 0 <= i < offsets.len() && #[trigger] offsets[i] == p
}

/// An occurrence begins before the scan selects the offset of index `n`
/// exactly when it is selected at a smaller index.
proof fn passed_before(hay: Seq<u8>, needle: Seq<u8>, offsets: Seq<usize>, n: nat, p: int)
    requires
        needle.len() > 0,
        selects(hay, needle, offsets),
        all_selected(hay, needle, offsets),
        n <= offsets.len(),
        occurs_at(hay, needle, p),
    ensures
        p < scan_bound(hay, offsets, n) <==> index_below(offsets, n, p),
{
    let i = index_of(hay, needle, offsets, p);
    if i < n {
        if n < offsets.len() {
            window_facts(hay, needle, offsets, i, n as int);
        }
    } else {
        if i > n {
            window_facts(hay, needle, offsets, n as int, i);
        }
        if index_below(offsets, n, p) {
            let k = choose|k: int| 0 <= k < n && #[trigger] offsets[k] == p;
            window_facts(hay, needle, offsets, k, i);
        }
    }
}

/// `p` is one of the first `n` offsets.
spec fn index_below(offsets: Seq<usize>, n: nat, p: int) -> bool {
    exists|k: int| 0 <= k < n && #[trigger] offsets[k] == p
}

/// Before the scan selects the offset of index `n`, it has passed `n`
/// occurrences.
proof fn selected_offsets_count(hay: Seq<u8>, needle: Seq<u8>, offsets: Seq<usize>, n: nat)
    requires
        needle.len() > 0,
        selects(hay, needle, offsets),
        all_selected(hay, needle, offsets),
        n <= offsets.len(),
    ensures
        occurrences_below(hay, needle, scan_bound(hay, offsets, n)).finite(),
        occurrences_below(hay, needle, scan_bound(hay, offsets, n)).len() == n,
    decreases n,
{
    let below = occurrences_below(hay, needle, scan_bound(hay, offsets, n));
    if n == 0 {
        assert forall|p: int| !below.contains(p) by {
            if occurs_at(hay, needle, p) {
                passed_before(hay, needle, offsets, 0, p);
            }
        }
        assert(below =~= Set::<int>::empty());
    } else {
        let m = (n - 1) as nat;
        selected_offsets_count(hay, needle, offsets, m);
        let last = offsets[n - 1] as int;
        let earlier = occurrences_below(hay, needle, scan_bound(hay, offsets, m));
        window_facts(hay, needle, offsets, n - 1, n - 1);
        assert forall|p: int| below.contains(p) <==> earlier.insert(last).contains(p) by {
            if occurs_at(hay, needle, p) {
                passed_before(hay, needle, offsets, n, p);
                passed_before(hay, needle, offsets, m, p);
                if index_below(offsets, n, p) && p != last {
                    let k = choose|k: int| 0 <= k < n && #[trigger] offsets[k] == p;
                    assert(0 <= k < m);
                }
                if index_below(offsets, m, p) {
                    let k = choose|k: int| 0 <= k < m && #[trigger] offsets[k] == p;
                    assert(0 <= k < n);
                }
                if p == last {
                    assert(offsets[n - 1] == p);
                }
            }
        }
        assert(below =~= earlier.insert(last));
        if earlier.contains(last) {
            passed_before(hay, needle, offsets, m, last);
            let k = choose|k: int| 0 <= k < m && #[trigger] offsets[k] == last;
            window_facts(hay, needle, offsets, k, n - 1);
        }
    }
}

/// The selection that a scan makes is determined by the image and the
/// needle: two selections of the same scan are equal.
pub proof fn selection_is_unique(hay: Seq<u8>, needle: Seq<u8>, a: Seq<usize>, b: Seq<usize>)
    requires
        needle.len() > 0,
        leftmost_selection(hay, needle, a),
        leftmost_selection(hay, needle, b),
    ensures
        a == b,
{
    assert(selects(hay, needle, a)) by {
        reveal(selects);
    }
    assert(selects(hay, needle, b)) by {
        reveal(selects);
    }
    selections_agree(hay, needle, a, b, a.len());
    selections_agree(hay, needle, b, a, b.len());
    assert(a =~= b);
}

/// `leftmost_selection`, folded away for the proofs below.
#[verifier::opaque]
spec fn selects(hay: Seq<u8>, needle: Seq<u8>, offs: Seq<usize>) -> bool {
    leftmost_selection(hay, needle, offs)
}

/// An occurrence starts inside one of the selected windows.
proof fn window_of(hay: Seq<u8>, needle: Seq<u8>, offs: Seq<usize>, p: int) -> (i: int)
    requires
        selects(hay, needle, offs),
        occurs_at(hay, needle, p),
    ensures
        0 <= i < offs.len(),
        offs[i] <= p < offs[i] + needle.len(),
{
    reveal(selects);
    assert(covered(offs, needle.len() as int, p));
    choose|i: int| 0 <= i < offs.len() && #[trigger] offs[i] <= p < offs[i] + needle.len()
}

/// A selected offset is an occurrence, and the windows before it end before
/// it begins.
proof fn window_facts(hay: Seq<u8>, needle: Seq<u8>, offs: Seq<usize>, i: int, j: int)
    requires
        selects(hay, needle, offs),
        0 <= i <= j < offs.len(),
    ensures
        occurs_at(hay, needle, offs[j] as int),
        i < j ==> offs[i] + needle.len() <= offs[j],
{
    reveal(selects);
}

/// The first `n` offsets of `a` are the first `n` offsets of `b`.
proof fn selections_agree(hay: Seq<u8>, needle: Seq<u8>, a: Seq<usize>, b: Seq<usize>, n: nat)
    requires
        needle.len() > 0,
        selects(hay, needle, a),
        selects(hay, needle, b),
        n <= a.len(),
    ensures
        n <= b.len(),
        forall|i: int| 0 <= i < n ==> a[i] == b[i],
    decreases n,
{
    if n > 0 {
        selections_agree(hay, needle, a, b, (n - 1) as nat);
        let m = (n - 1) as int;
        let p = a[m] as int;
        window_facts(hay, needle, a, m, m);
        // the occurrence that `a` selects next starts in a window of `b`,
        let j = window_of(hay, needle, b, p);
        let q = b[j] as int;
        window_facts(hay, needle, b, j, j);
        if j < m {
            window_facts(hay, needle, a, j, m);
        }
        assert(j >= m);
        // which starts in a window of `a`: in the same one, so at `p`
        let i = window_of(hay, needle, a, q);
        if i < m {
            window_facts(hay, needle, b, i, j);
        } else if i > m {
            window_facts(hay, needle, a, m, i);
        }
        assert(q == p);
        // and `b` has no window between the shared ones and that one
        if j > m {
            let r = b[m] as int;
            window_facts(hay, needle, b, m, j);
            window_facts(hay, needle, b, m, m);
            let k = window_of(hay, needle, a, r);
            if k < m {
                window_facts(hay, needle, b, k, m);
            } else if k > m {
                window_facts(hay, needle, a, m, k);
            }
            assert(false);
        }
        assert(a[m] == b[m]);
    }
}

/// The rewritten image is determined by the image, the replacement and the
/// selected offsets.
pub proof fn rewrite_is_unique(
    before: Seq<u8>,
    first: Seq<u8>,
    second: Seq<u8>,
    to: Seq<u8>,
    offsets: Seq<usize>,
)
    requires
        rewritten(before, first, to, offsets),
        rewritten(before, second, to, offsets),
    ensures
        first == second,
{
    let w = to.len() as int;
    assert forall|p: int| 0 <= p < before.len() implies first[p] == second[p] by {
        if covered(offsets, w, p) {
            let i = choose|i: int| 0 <= i < offsets.len() && #[trigger] offsets[i] <= p < offsets[i] + w;
            let o = offsets[i] as int;
            assert(occurs_at(first, to, o));
            assert(occurs_at(second, to, o));
            assert(first.subrange(o, o + w)[p - o] == first[p]);
            assert(second.subrange(o, o + w)[p - o] == second[p]);
        }
    }
    assert(first =~= second);
}

/// An upper bound on the operations that a procedure still asks for from
/// `state` on.
pub open spec fn distance(state: State) -> nat {
    match state {
        State::ProbeSdcard => 9,
        State::ProbeRamdiskSdcard => 8,
        State::MakeStorage => 7,
        State::LinkStorage => 6,
        State::Placeholder => 5,
        State::MoveInit => 4,
        State::SelfBind => 3,
        State::FallbackBind => 2,
        State::RestoreTwoStage => 1,
        State::RestoreSingleStage => 3,
        State::OpenInit => 2,
        State::WriteInit => 1,
        State::OpenSource => 4,
        State::WriteCopy => 3,
        State::CloneAttrs => 2,
        State::BindCopy => 1,
        State::DetachInit => 8,
        State::DetachSystemInit => 7,
        State::RemoveCopy => 6,
        State::RenameProcess => 5,
        State::ProbeRoot => 4,
        State::RemoveInit => 3,
        State::LinkInit => 2,
        State::Dispatched => 1,
        State::Finished => 0,
    }
}

/// Every transition moves a procedure forward: until it is over, each
/// outcome brings it strictly nearer to its end, so that no state is entered
/// twice and nothing is retried; once it is over it stays so, and `Done` is
/// the answer to whatever is reported, and the answer of no other state
/// but the last of a procedure.
pub proof fn transitions_only_advance(state: State, config: Config, signal: Signal)
    ensures
        state != State::Finished ==> distance(transition(state, config, signal).0) < distance(
            state,
        ),
        state == State::Finished ==> transition(state, config, signal) == (
            State::Finished,
            Action::Done,
        ),
        transition(state, config, signal).1 == Action::Done ==> transition(
            state,
            config,
            signal,
        ).0 == State::Finished,
{
}

/// Every run ends: after as many signals as the distance of the state it
/// started in, whatever they report, the procedure is over.
pub proof fn every_run_ends(start: State, config: Config, signals: Seq<Signal>, n: nat)
    requires
        n >= distance(start),
    ensures
        state_after(start, config, signals, n) == State::Finished,
{
    run_advances(start, config, signals, n);
}

proof fn run_advances(start: State, config: Config, signals: Seq<Signal>, n: nat)
    ensures
        distance(state_after(start, config, signals, n)) + n <= distance(start) || state_after(
            start,
            config,
            signals,
            n,
        ) == State::Finished,
    decreases n,
{
    if n > 0 {
        run_advances(start, config, signals, (n - 1) as nat);
        transitions_only_advance(
            state_after(start, config, signals, (n - 1) as nat),
            config,
            signals[n - 1],
        );
    }
}

} // verus!
