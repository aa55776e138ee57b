//! The order of a size probe as a state machine. The caller performs each
//! action that the machine asks for (checking that the probe is still the
//! current one, choosing a folder, reading its canonical form, measuring it,
//! emitting a size) and hands back what came of it.
use vstd::prelude::*;

use crate::programs::copy_opt_string;
use crate::size::{
    normalize_path_key, path_key_spec, size_update, ClaimedRoots, ProgramSizeUpdate,
    SizeProbeItem,
};

verus! {

/// Where a size probe stands.
#[derive(Debug)]
pub enum ProbeStage {
    /// Waiting to learn whether the probe is still current, before the item
    /// at the current position (or before the end, after the last item).
    CheckBefore,
    /// The folder of the current item is being chosen.
    Resolving,
    /// The canonical form of this folder is being read.
    Keying(String),
    /// This folder, newly claimed, is being measured.
    Measuring(String),
    /// The folder measured this many bytes; waiting to learn whether the
    /// probe is still current.
    CheckAfter(u64),
    /// The size of the current item is being emitted.
    Emitting,
    /// The end of the probe is being emitted.
    Finishing,
    /// The probe is over.
    Stopped,
}

/// What came of the last action.
#[derive(Debug)]
pub enum ProbeEvent {
    /// Whether the probe is still the current one.
    Current(bool),
    /// The folder chosen for the item, if any (see `resolve_scan_root`).
    Resolved(Option<String>),
    /// The canonical text of the folder (the folder itself where it has none).
    Canonical(String),
    /// The number of bytes the folder holds (see `DirTally`).
    Measured(u64),
    /// The emit was performed.
    Done,
}

/// What the caller is to do next.
#[derive(Debug)]
pub enum ProbeAction {
    /// Ask whether the probe is still the current one.
    CheckCurrent,
    /// Choose the folder to measure for a program with this install location
    /// and uninstall command.
    ResolveRoot(Option<String>, Option<String>),
    /// Read the canonical form of this folder.
    Canonicalize(String),
    /// Measure this folder.
    Measure(String),
    /// Emit this size (`program-size`).
    Emit(ProgramSizeUpdate),
    /// Emit the end of the probe (`program-size-finished`).
    EmitFinished,
    /// End the probe.
    Stop,
}

/// A size probe over programs without a recorded size, one after another.
pub struct SizeProbe {
    items: Vec<SizeProbeItem>,
    next: usize,
    claims: ClaimedRoots,
    stage: ProbeStage,
}

impl SizeProbe {
    /// The programs to measure.
    pub closed spec fn items(&self) -> Seq<SizeProbeItem> {
        self.items@
    }

    /// The position of the item being handled.
    pub closed spec fn position(&self) -> int {
        self.next as int
    }

    /// The folder keys claimed so far.
    pub closed spec fn claimed(&self) -> Set<Seq<char>> {
        self.claims.claimed()
    }

    pub closed spec fn stage(&self) -> ProbeStage {
        self.stage
    }

    /// The position is an item while one is handled.
    pub closed spec fn wf(&self) -> bool {
        &&& self.next <= self.items@.len()
        &&& match self.stage {
            ProbeStage::CheckBefore | ProbeStage::Finishing | ProbeStage::Stopped => true,
            _ => self.next < self.items@.len(),
        }
    }

    /// Whether `event` answers the action that the probe asked for last.
    /// Where the folder measured more than `u64::MAX - 1023` bytes, rounding
    /// it up to KiB overflows, so that answer is not taken.
    pub open spec fn accepts(&self, event: ProbeEvent) -> bool {
        match self.stage() {
            ProbeStage::CheckBefore => event is Current,
            ProbeStage::Resolving => event is Resolved,
            ProbeStage::Keying(_) => event is Canonical,
            ProbeStage::Measuring(_) => event is Measured,
            ProbeStage::CheckAfter(bytes) => event matches ProbeEvent::Current(still) && (still
                ==> bytes + 1023 <= u64::MAX),
            ProbeStage::Emitting | ProbeStage::Finishing => event is Done,
            ProbeStage::Stopped => false,
        }
    }

    /// A probe over `items`; its first action is `ProbeAction::CheckCurrent`.
    pub fn new(items: Vec<SizeProbeItem>) -> (r: SizeProbe)
        ensures
            r.wf(),
            r.items() == items@,
            r.position() == 0,
            r.claimed() == Set::<Seq<char>>::empty(),
            r.stage() == ProbeStage::CheckBefore,
    {
        SizeProbe { items, next: 0, claims: ClaimedRoots::new(), stage: ProbeStage::CheckBefore }
    }

    /// Whether the probe is over.
    pub fn is_stopped(&self) -> (r: bool)
        ensures
            r == (self.stage() is Stopped),
    {
        match self.stage {
            ProbeStage::Stopped => true,
            _ => false,
        }
    }

    /// Goes on with the next item, once the probe is known to be current.
    fn advance(&mut self) -> (action: ProbeAction)
        requires
            old(self).next < old(self).items@.len(),
        ensures
            final(self).items == old(self).items,
            final(self).claims == old(self).claims,
            final(self).next == old(self).next + 1,
            final(self).stage == ProbeStage::CheckBefore,
            action is CheckCurrent,
    {
        assert(self.next < self.items.len());
        self.next = self.next + 1;
        self.stage = ProbeStage::CheckBefore;
        ProbeAction::CheckCurrent
    }

    /// Takes what came of the last action and says what to do next.
    pub fn step(&mut self, event: ProbeEvent) -> (action: ProbeAction)
        requires
            old(self).wf(),
            old(self).accepts(event),
        ensures
            final(self).wf(),
            final(self).items() == old(self).items(),
            old(self).claimed().subset_of(final(self).claimed()),
            probe_step(*old(self), event, *final(self), action),
            action is Measure ==> exists|key: Seq<char>|
                !old(self).claimed().contains(key) && final(self).claimed() == old(
                    self,
                ).claimed().insert(key),
    {
        // A `false` answer to `CheckCurrent` stops the probe; the other `_`
        // arms are not reached, since `accepts` admits only the event that the
        // stage waits for.
        let mut stage = ProbeStage::Stopped;
        std::mem::swap(&mut stage, &mut self.stage);
        match stage {
            ProbeStage::CheckBefore => match event {
                ProbeEvent::Current(true) => {
                    if self.next < self.items.len() {
                        let item = &self.items[self.next];
                        let action = ProbeAction::ResolveRoot(
                            copy_opt_string(&item.install_location),
                            copy_opt_string(&item.uninstall_string),
                        );
                        self.stage = ProbeStage::Resolving;
                        action
                    } else {
                        self.stage = ProbeStage::Finishing;
                        ProbeAction::EmitFinished
                    }
                },
                _ => ProbeAction::Stop,
            },
            ProbeStage::Resolving => match event {
                ProbeEvent::Resolved(Some(root)) => {
                    let action = ProbeAction::Canonicalize(root.clone());
                    self.stage = ProbeStage::Keying(root);
                    action
                },
                _ => self.advance(),
            },
            ProbeStage::Keying(root) => match event {
                ProbeEvent::Canonical(text) => {
                    let key = normalize_path_key(text.as_str());
                    if self.claims.claim(key) {
                        let action = ProbeAction::Measure(root.clone());
                        self.stage = ProbeStage::Measuring(root);
                        action
                    } else {
                        self.advance()
                    }
                },
                _ => ProbeAction::Stop,
            },
            ProbeStage::Measuring(_) => match event {
                ProbeEvent::Measured(bytes) => {
                    self.stage = ProbeStage::CheckAfter(bytes);
                    ProbeAction::CheckCurrent
                },
                _ => ProbeAction::Stop,
            },
            ProbeStage::CheckAfter(bytes) => match event {
                ProbeEvent::Current(true) => {
                    let id = self.items[self.next].id.clone();
                    match size_update(id, bytes) {
                        Some(update) => {
                            self.stage = ProbeStage::Emitting;
                            ProbeAction::Emit(update)
                        },
                        None => self.advance(),
                    }
                },
                _ => ProbeAction::Stop,
            },
            ProbeStage::Emitting => self.advance(),
            ProbeStage::Finishing => ProbeAction::Stop,
            ProbeStage::Stopped => ProbeAction::Stop,
        }
    }
}

/// Going on with the next item: the probe first checks that it is current.
pub open spec fn goes_on(before: SizeProbe, after: SizeProbe, action: ProbeAction) -> bool {
    &&& after.position() == before.position() + 1
    &&& after.stage() == ProbeStage::CheckBefore
    &&& action is CheckCurrent
}

/// One step of a size probe: from `before`, on `event`, the probe moves to
/// `after` and asks for `action`. Claims change only on a canonical text.
pub open spec fn probe_step(before: SizeProbe, event: ProbeEvent, after: SizeProbe, action: ProbeAction) -> bool {
    let items = before.items();
    let i = before.position();
    let same_item = after.position() == i && after.claimed() == before.claimed();
    match before.stage() {
        ProbeStage::CheckBefore => match event {
            ProbeEvent::Current(still) => if !still {
                after.stage() == ProbeStage::Stopped && action is Stop
            } else if i < items.len() {
                &&& same_item
                &&& after.stage() == ProbeStage::Resolving
                &&& action matches ProbeAction::ResolveRoot(loc, cmd) && loc
                    == items[i].install_location && cmd == items[i].uninstall_string
            } else {
                &&& after.stage() == ProbeStage::Finishing
                &&& action is EmitFinished
            },
            _ => false,
        },
        ProbeStage::Resolving => match event {
            ProbeEvent::Resolved(Some(root)) => {
                &&& same_item
                &&& after.stage() matches ProbeStage::Keying(r) && r@ == root@
                &&& action matches ProbeAction::Canonicalize(c) && c@ == root@
            },
            ProbeEvent::Resolved(None) => after.claimed() == before.claimed() && goes_on(
                before,
                after,
                action,
            ),
            _ => false,
        },
        ProbeStage::Keying(root) => match event {
            ProbeEvent::Canonical(text) => {
                let key = path_key_spec(text@);
                &&& after.claimed() == before.claimed().insert(key)
                &&& if before.claimed().contains(key) {
                    goes_on(before, after, action)
                } else {
                    &&& after.position() == i
                    &&& after.stage() matches ProbeStage::Measuring(r) && r@ == root@
                    &&& action matches ProbeAction::Measure(m) && m@ == root@
                }
            },
            _ => false,
        },
        ProbeStage::Measuring(_) => match event {
            ProbeEvent::Measured(bytes) => {
                &&& same_item
                &&& after.stage() == ProbeStage::CheckAfter(bytes)
                &&& action is CheckCurrent
            },
            _ => false,
        },
        ProbeStage::CheckAfter(bytes) => match event {
            ProbeEvent::Current(still) => if !still {
                after.stage() == ProbeStage::Stopped && action is Stop
            } else if bytes == 0 {
                after.claimed() == before.claimed() && goes_on(before, after, action)
            } else {
                &&& same_item
                &&& after.stage() == ProbeStage::Emitting
                &&& action matches ProbeAction::Emit(u) && u.id@ == items[i].id@
                    && u.estimated_size_kb == (bytes + 1023) / 1024
            },
            _ => false,
        },
        ProbeStage::Emitting => after.claimed() == before.claimed() && goes_on(
            before,
            after,
            action,
        ),
        ProbeStage::Finishing => after.stage() == ProbeStage::Stopped && action is Stop,
        ProbeStage::Stopped => false,
    }
}

} // verus!
