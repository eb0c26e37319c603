//! The body registry: every tracked body, indexed by identity.
//!
//! Registration is the only path that creates a body and removal the only
//! path that destroys one. A body is either element-driven — its position
//! comes from analytical propagation of its element record — or
//! integrated, advanced by the numeric integrator. The registry applies
//! each tick's updates in place and sweeps out decayed bodies.

use vstd::prelude::*;

use crate::decay::DecayDetector;
use crate::decay::is_decayed;
use crate::elements::OrbitalElements;
use crate::integrate::MAX_DT_MS;
use crate::integrate::gravity_accel_spec;
use crate::integrate::in_accel_range;
use crate::integrate::in_speed_range;
use crate::integrate::pos_step_axis;
use crate::integrate::step_free_body;
use crate::integrate::vel_step_axis;
use crate::config::MAX_GM_M3_S2;
use crate::vec3::MAX_COORD_M;
use crate::vec3::Vec3;

verus! {

/// What drives a body: an element record or the numeric integrator.
#[derive(Clone, Copy, Debug, PartialEq, Eq, Structural)]
pub enum BodyKind {
    /// Driven by analytical propagation of an element record, anchored at
    /// the simulated time the body was registered. `divergence_reported`
    /// debounces the divergence report: it is set on the first failed
    /// propagation and cleared by the next successful one.
    ElementDriven {
        elements: OrbitalElements,
        registered_at_ms: u64,
        divergence_reported: bool,
    },
    /// A free body advanced by the integrator. The mass is informational:
    /// under the test-mass assumption it does not enter the force.
    Integrated { velocity: Vec3, acceleration: Vec3, mass_kg: u64 },
}

/// A tracked body: its kind and its current position in meters.
#[derive(Clone, Copy, Debug, PartialEq, Eq, Structural)]
pub struct Body {
    pub kind: BodyKind,
    pub position: Vec3,
}

/// A body's invariant: its position is in the coordinate range and the
/// state of its driving component is in range as well.
pub open spec fn wf_body(b: Body) -> bool {
    &&& b.position.in_coord_range()
    &&& match b.kind {
        BodyKind::ElementDriven { elements, .. } => elements.wf(),
        BodyKind::Integrated { velocity, acceleration, .. } => in_speed_range(velocity)
            && in_accel_range(acceleration),
    }
}

/// One semi-implicit Euler step of an integrated body; an element-driven
/// body is left exactly as it is.
pub open spec fn stepped_body(b: Body, gm: u64, dt_ms: u64) -> Body {
    match b.kind {
        BodyKind::Integrated { velocity, acceleration, mass_kg } => {
            let a = gravity_accel_spec(b.position, gm);
            let vx = vel_step_axis(velocity.x as int, a.0, dt_ms);
            let vy = vel_step_axis(velocity.y as int, a.1, dt_ms);
            let vz = vel_step_axis(velocity.z as int, a.2, dt_ms);
            Body {
                position: (Vec3 {
                    x: pos_step_axis(b.position.x as int, vx, dt_ms) as i64,
                    y: pos_step_axis(b.position.y as int, vy, dt_ms) as i64,
                    z: pos_step_axis(b.position.z as int, vz, dt_ms) as i64,
                }),
                kind: BodyKind::Integrated {
                    velocity: (Vec3 { x: vx as i64, y: vy as i64, z: vz as i64 }),
                    acceleration: (Vec3 { x: a.0 as i64, y: a.1 as i64, z: a.2 as i64 }),
                    mass_kg,
                },
            }
        },
        BodyKind::ElementDriven { .. } => b,
    }
}

/// The freeze-in-place policy for one body and one propagation outcome.
///
/// A successful propagation to a representable position moves the body
/// there and clears the divergence flag. A failed propagation — or one
/// whose position the engine cannot represent — keeps the previous
/// position and sets the flag. The second component says whether this
/// divergence is fresh and so is to be reported; repeats stay silent.
pub open spec fn applied_propagation(b: Body, outcome: Option<Vec3>) -> (Body, bool) {
    match b.kind {
        BodyKind::ElementDriven { elements, registered_at_ms, divergence_reported } => {
            match outcome {
                Option::Some(p) => if p.in_coord_range() {
                    (
                        Body {
                            position: p,
                            kind: BodyKind::ElementDriven {
                                elements,
                                registered_at_ms,
                                divergence_reported: false,
                            },
                        },
                        false,
                    )
                } else {
                    (frozen_body(b), !divergence_reported)
                },
                Option::None => (frozen_body(b), !divergence_reported),
            }
        },
        BodyKind::Integrated { .. } => (b, false),
    }
}

/// An element-driven body frozen at its previous position with its
/// divergence flag set.
pub open spec fn frozen_body(b: Body) -> Body {
    match b.kind {
        BodyKind::ElementDriven { elements, registered_at_ms, .. } => Body {
            position: b.position,
            kind: BodyKind::ElementDriven {
                elements,
                registered_at_ms,
                divergence_reported: true,
            },
        },
        BodyKind::Integrated { .. } => b,
    }
}

/// The predicate the decay sweep retains entries by: not decayed.
pub open spec fn retain_pred(threshold_m: u64) -> spec_fn((u64, Body)) -> bool {
    |e: (u64, Body)| !is_decayed(e.1.position, threshold_m)
}

/// The predicate removal retains entries by: a different identity.
pub open spec fn keep_other_pred(id: u64) -> spec_fn((u64, Body)) -> bool {
    |e: (u64, Body)| e.0 != id
}

/// Owns all tracked bodies, indexed by identity.
pub struct BodyRegistry {
    entries: Vec<(u64, Body)>,
    next_id: u64,
}

impl BodyRegistry {
    /// The live entries, in registration order.
    pub closed spec fn entries_seq(self) -> Seq<(u64, Body)> {
        self.entries@
    }

    /// The identity the next registration will receive.
    pub closed spec fn next_id_spec(self) -> u64 {
        self.next_id
    }

    /// Whether some live entry carries this identity.
    pub open spec fn contains_id(self, id: u64) -> bool {
        exists|i: int|
            0 <= i < self.entries_seq().len() && (#[trigger] self.entries_seq()[i]).0 == id
    }

    /// The registry's invariant: identities are unique, all below the
    /// next one to be handed out, and every body is well formed.
    pub open spec fn wf(self) -> bool {
        &&& forall|i: int, j: int|
            0 <= i < j < self.entries_seq().len() ==> (#[trigger] self.entries_seq()[i]).0 != (
            #[trigger] self.entries_seq()[j]).0
        &&& forall|i: int|
            0 <= i < self.entries_seq().len() ==> (#[trigger] self.entries_seq()[i]).0
                < self.next_id_spec()
        &&& forall|i: int|
            0 <= i < self.entries_seq().len() ==> wf_body((#[trigger] self.entries_seq()[i]).1)
    }

    /// An empty registry.
    pub fn new() -> (r: BodyRegistry)
        ensures
            r.wf(),
            r.entries_seq() == Seq::<(u64, Body)>::empty(),
            r.next_id_spec() == 0,
    {
        BodyRegistry { entries: Vec::new(), next_id: 0 }
    }

    /// The identity the next registration will receive; registration is
    /// possible while it is below the maximum.
    pub fn next_id(&self) -> (r: u64)
        ensures
            r == self.next_id_spec(),
    {
        self.next_id
    }

    /// The number of live bodies.
    pub fn len(&self) -> (r: usize)
        ensures
            r == self.entries_seq().len(),
    {
        self.entries.len()
    }

    /// The entry at a position of the registration order, for iteration.
    pub fn entry_at(&self, i: usize) -> (r: (u64, Body))
        requires
            i < self.entries_seq().len(),
        ensures
            r == self.entries_seq()[i as int],
    {
        self.entries[i]
    }

    /// Registers a body, handing it the next fresh identity.
    pub fn register(&mut self, body: Body) -> (id: u64)
        requires
            old(self).wf(),
            wf_body(body),
            old(self).next_id_spec() < u64::MAX,
        ensures
            final(self).wf(),
            id == old(self).next_id_spec(),
            !old(self).contains_id(id),
            final(self).entries_seq() == old(self).entries_seq().push((id, body)),
            final(self).next_id_spec() == old(self).next_id_spec() + 1,
    {
        let id = self.next_id;
        self.entries.push((id, body));
        self.next_id = self.next_id + 1;
        proof {
            let olds = old(self).entries_seq();
            let news = self.entries@;
            assert(news == olds.push((id, body)));
            assert forall|i2: int, j2: int| 0 <= i2 < j2 < news.len() implies (
            #[trigger] news[i2]).0 != (#[trigger] news[j2]).0 by {
                if j2 < news.len() - 1 {
                    assert(news[i2] == olds[i2] && news[j2] == olds[j2]);
                } else {
                    assert(news[i2] == olds[i2] && (olds[i2]).0 < id);
                }
            }
            assert forall|i2: int| 0 <= i2 < news.len() implies (#[trigger] news[i2]).0
                < self.next_id by {
                if i2 < news.len() - 1 {
                    assert(news[i2] == olds[i2]);
                }
            }
            assert forall|i2: int| 0 <= i2 < news.len() implies wf_body(
                (#[trigger] news[i2]).1,
            ) by {
                if i2 < news.len() - 1 {
                    assert(news[i2] == olds[i2]);
                }
            }
            assert forall|i2: int| 0 <= i2 < olds.len() implies (#[trigger] olds[i2]).0 != id by {}
        }
        id
    }

    /// Looks an identity up, returning its body if the identity is live.
    #[verifier::loop_isolation(false)]
    pub fn get(&self, id: u64) -> (r: Option<Body>)
        requires
            self.wf(),
        ensures
            match r {
                Option::Some(b) => exists|j: int|
                    0 <= j < self.entries_seq().len() && #[trigger] self.entries_seq()[j] == (
                    id,
                    b,
                ),
                Option::None => !self.contains_id(id),
            },
    {
        let n = self.entries.len();
        let mut i: usize = 0;
        while i < n
            invariant
                n == self.entries_seq().len(),
                i <= n,
                forall|j: int| 0 <= j < i ==> (#[trigger] self.entries_seq()[j]).0 != id,
            decreases n - i,
        {
            let e = self.entries[i];
            if e.0 == id {
                return Some(e.1);
            }
            i = i + 1;
        }
        None
    }

    /// Removes an identity, returning whether it was live. Removal is the
    /// only path that destroys a body other than the decay sweep.
    #[verifier::loop_isolation(false)]
    pub fn remove(&mut self, id: u64) -> (found: bool)
        requires
            old(self).wf(),
        ensures
            final(self).wf(),
            final(self).entries_seq() == old(self).entries_seq().filter(keep_other_pred(id)),
            final(self).next_id_spec() == old(self).next_id_spec(),
            found == old(self).contains_id(id),
            !final(self).contains_id(id),
    {
        let ghost orig = old(self).entries_seq();
        let ghost pred = keep_other_pred(id);
        let ghost bound = self.next_id;
        let n = self.entries.len();
        let mut kept: Vec<(u64, Body)> = Vec::new();
        let mut found = false;
        let mut i: usize = 0;
        while i < n
            invariant
                n == orig.len(),
                self.entries@ == orig,
                i <= n,
                kept@ == orig.subrange(0, i as int).filter(pred),
                found == exists|j: int| 0 <= j < i && (#[trigger] orig[j]).0 == id,
                forall|k: int|
                    0 <= k < kept@.len() ==> exists|j: int|
                        0 <= j < i && orig[j] == #[trigger] kept@[k],
                forall|k: int| 0 <= k < kept@.len() ==> (#[trigger] kept@[k]).0 != id,
                forall|k1: int, k2: int|
                    0 <= k1 < k2 < kept@.len() ==> (#[trigger] kept@[k1]).0 != (
                    #[trigger] kept@[k2]).0,
                forall|k: int| 0 <= k < kept@.len() ==> (#[trigger] kept@[k]).0 < bound,
                forall|k: int| 0 <= k < kept@.len() ==> wf_body((#[trigger] kept@[k]).1),
            decreases n - i,
        {
            let e = self.entries[i];
            proof {
                lemma_filter_one_more(orig, pred, i as int);
            }
            if e.0 == id {
                found = true;
            } else {
                kept.push(e);
            }
            i = i + 1;
        }
        proof {
            assert(orig.subrange(0, n as int) =~= orig);
        }
        self.entries = kept;
        found
    }

    /// Applies one propagation outcome to an element-driven body under
    /// the freeze-in-place policy, and says whether a fresh divergence is
    /// to be reported. An identity that is not live, or drives no
    /// element-driven body, changes nothing and reports nothing.
    #[verifier::loop_isolation(false)]
    pub fn apply_propagated(&mut self, id: u64, outcome: Option<Vec3>) -> (report: bool)
        requires
            old(self).wf(),
        ensures
            final(self).wf(),
            final(self).next_id_spec() == old(self).next_id_spec(),
            final(self).entries_seq().len() == old(self).entries_seq().len(),
            forall|j: int|
                0 <= j < old(self).entries_seq().len() && (#[trigger] old(
                    self,
                ).entries_seq()[j]).0 != id ==> final(self).entries_seq()[j] == old(
                    self,
                ).entries_seq()[j],
            forall|j: int|
                0 <= j < old(self).entries_seq().len() && (#[trigger] old(
                    self,
                ).entries_seq()[j]).0 == id ==> final(self).entries_seq()[j] == (
                    id,
                    applied_propagation(old(self).entries_seq()[j].1, outcome).0,
                ),
            report == exists|j: int|
                0 <= j < old(self).entries_seq().len() && (#[trigger] old(
                    self,
                ).entries_seq()[j]).0 == id && applied_propagation(
                    old(self).entries_seq()[j].1,
                    outcome,
                ).1,
    {
        let ghost orig = old(self).entries_seq();
        let ghost bound = self.next_id;
        let n = self.entries.len();
        let mut i: usize = 0;
        while i < n
            invariant
                n == orig.len(),
                self.entries@ == orig,
                self.next_id == bound,
                i <= n,
                forall|j: int| 0 <= j < i ==> (#[trigger] orig[j]).0 != id,
            decreases n - i,
        {
            let e = self.entries[i];
            if e.0 == id {
                let (nb, rep) = apply_outcome(e.1, outcome);
                self.entries[i] = (id, nb);
                proof {
                    let news = self.entries@;
                    assert(news == orig.update(i as int, (id, nb)));
                    assert(wf_body(orig[i as int].1));
                    assert(wf_body(nb));
                    assert forall|i2: int, j2: int| 0 <= i2 < j2 < news.len() implies (
                    #[trigger] news[i2]).0 != (#[trigger] news[j2]).0 by {
                        assert(news[i2].0 == orig[i2].0 && news[j2].0 == orig[j2].0);
                    }
                    assert forall|i2: int| 0 <= i2 < news.len() implies (#[trigger] news[i2]).0
                        < self.next_id by {
                        assert(news[i2].0 == orig[i2].0);
                    }
                    assert forall|i2: int| 0 <= i2 < news.len() implies wf_body(
                        (#[trigger] news[i2]).1,
                    ) by {
                        if i2 != i as int {
                            assert(news[i2] == orig[i2]);
                            assert(wf_body(orig[i2].1));
                        }
                    }
                    assert forall|j: int|
                        0 <= j < orig.len() && (#[trigger] orig[j]).0 == id implies (j
                        == i as int) by {
                        if j < i as int {
                            assert(orig[j].0 != orig[i as int].0);
                        } else if (i as int) < j {
                            assert(orig[i as int].0 != orig[j].0);
                        }
                    }
                }
                return rep;
            }
            i = i + 1;
        }
        false
    }

    /// Advances every integrated body by one integrator step of `dt_ms`
    /// simulated milliseconds; element-driven bodies are untouched.
    #[verifier::loop_isolation(false)]
    pub fn integrate_all(&mut self, gm: u64, dt_ms: u64)
        requires
            old(self).wf(),
            0 < gm <= MAX_GM_M3_S2,
            dt_ms <= MAX_DT_MS,
        ensures
            final(self).wf(),
            final(self).next_id_spec() == old(self).next_id_spec(),
            final(self).entries_seq().len() == old(self).entries_seq().len(),
            forall|j: int|
                0 <= j < old(self).entries_seq().len() ==> final(self).entries_seq()[j] == (
                    (#[trigger] old(self).entries_seq()[j]).0,
                    stepped_body(old(self).entries_seq()[j].1, gm, dt_ms),
                ),
    {
        let ghost orig = old(self).entries_seq();
        let ghost bound = self.next_id;
        let n = self.entries.len();
        let mut i: usize = 0;
        while i < n
            invariant
                n == orig.len(),
                self.entries@.len() == orig.len(),
                self.next_id == bound,
                i <= n,
                forall|j: int| i <= j < n ==> self.entries@[j] == orig[j],
                forall|j: int|
                    0 <= j < i ==> self.entries@[j] == ((#[trigger] orig[j]).0, stepped_body(
                        orig[j].1,
                        gm,
                        dt_ms,
                    )),
                forall|j: int| 0 <= j < i ==> wf_body((#[trigger] self.entries@[j]).1),
            decreases n - i,
        {
            let (id, b) = self.entries[i];
            match b.kind {
                BodyKind::Integrated { velocity, acceleration: _, mass_kg } => {
                    let (np, nv, na) = step_free_body(&b.position, &velocity, gm, dt_ms);
                    let nb = Body {
                        kind: BodyKind::Integrated { velocity: nv, acceleration: na, mass_kg },
                        position: np,
                    };
                    self.entries[i] = (id, nb);
                    proof {
                        assert(nb == stepped_body(orig[i as int].1, gm, dt_ms));
                        assert(wf_body(nb));
                    }
                },
                BodyKind::ElementDriven { .. } => {
                    proof {
                        assert(wf_body(orig[i as int].1));
                    }
                },
            }
            i = i + 1;
        }
        proof {
            assert forall|i2: int, j2: int| 0 <= i2 < j2 < self.entries@.len() implies (
            #[trigger] self.entries@[i2]).0 != (#[trigger] self.entries@[j2]).0 by {
                assert(self.entries@[i2].0 == orig[i2].0 && self.entries@[j2].0 == orig[j2].0);
            }
            assert forall|j: int| 0 <= j < self.entries@.len() implies (
            #[trigger] self.entries@[j]).0 < self.next_id by {
                assert(self.entries@[j].0 == orig[j].0);
            }
        }
    }

    /// Completes one tick after the analytical propagations: integrates
    /// every free body with the tick's simulated delta, then sweeps out
    /// every body that now sits at or inside the burn threshold. The net
    /// effect of the tick on the live set is exactly: step each body,
    /// then drop the decayed, in registration order.
    pub fn finish_tick(&mut self, gm: u64, dt_ms: u64, threshold_m: u64) -> (removed: usize)
        requires
            old(self).wf(),
            0 < gm <= MAX_GM_M3_S2,
            dt_ms <= MAX_DT_MS,
        ensures
            final(self).wf(),
            final(self).next_id_spec() == old(self).next_id_spec(),
            final(self).entries_seq() == old(self).entries_seq().map(
                |j: int, e: (u64, Body)| (e.0, stepped_body(e.1, gm, dt_ms)),
            ).filter(retain_pred(threshold_m)),
            forall|j: int|
                0 <= j < final(self).entries_seq().len() ==> !is_decayed(
                    (#[trigger] final(self).entries_seq()[j]).1.position,
                    threshold_m,
                ),
            removed == old(self).entries_seq().len() - final(self).entries_seq().len(),
    {
        let ghost orig = old(self).entries_seq();
        self.integrate_all(gm, dt_ms);
        proof {
            assert(self.entries_seq() =~= orig.map(
                |j: int, e: (u64, Body)| (e.0, stepped_body(e.1, gm, dt_ms)),
            ));
        }
        self.sweep_decayed(threshold_m)
    }

    /// Sweeps every decayed body out of the registry: a body whose radial
    /// distance is at or below the threshold is removed, immediately and
    /// irreversibly. Afterward no live body is decayed, and the identity
    /// of every body that was at or inside the threshold is gone — the
    /// decay-idempotence guarantee: such a body cannot appear in any later
    /// walk of the registry.
    #[verifier::loop_isolation(false)]
    pub fn sweep_decayed(&mut self, threshold_m: u64) -> (removed: usize)
        requires
            old(self).wf(),
        ensures
            final(self).wf(),
            final(self).next_id_spec() == old(self).next_id_spec(),
            final(self).entries_seq() == old(self).entries_seq().filter(retain_pred(threshold_m)),
            forall|j: int|
                0 <= j < final(self).entries_seq().len() ==> !is_decayed(
                    (#[trigger] final(self).entries_seq()[j]).1.position,
                    threshold_m,
                ),
            forall|j: int|
                0 <= j < old(self).entries_seq().len() && is_decayed(
                    (#[trigger] old(self).entries_seq()[j]).1.position,
                    threshold_m,
                ) ==> !final(self).contains_id(old(self).entries_seq()[j].0),
            removed == old(self).entries_seq().len() - final(self).entries_seq().len(),
    {
        let ghost orig = old(self).entries_seq();
        let ghost pred = retain_pred(threshold_m);
        let ghost bound = self.next_id;
        let detector = DecayDetector { threshold_m };
        let n = self.entries.len();
        let mut kept: Vec<(u64, Body)> = Vec::new();
        let mut i: usize = 0;
        while i < n
            invariant
                n == orig.len(),
                self.entries@ == orig,
                i <= n,
                kept@ == orig.subrange(0, i as int).filter(pred),
                forall|k: int|
                    0 <= k < kept@.len() ==> exists|j: int|
                        0 <= j < i && orig[j] == #[trigger] kept@[k],
                forall|k: int|
                    0 <= k < kept@.len() ==> !is_decayed(
                        (#[trigger] kept@[k]).1.position,
                        threshold_m,
                    ),
                forall|k1: int, k2: int|
                    0 <= k1 < k2 < kept@.len() ==> (#[trigger] kept@[k1]).0 != (
                    #[trigger] kept@[k2]).0,
                forall|k: int| 0 <= k < kept@.len() ==> (#[trigger] kept@[k]).0 < bound,
                forall|k: int| 0 <= k < kept@.len() ==> wf_body((#[trigger] kept@[k]).1),
            decreases n - i,
        {
            let e = self.entries[i];
            proof {
                lemma_filter_one_more(orig, pred, i as int);
            }
            if !detector.check(&e.1.position) {
                kept.push(e);
            }
            i = i + 1;
        }
        proof {
            assert(orig.subrange(0, n as int) =~= orig);
            orig.lemma_filter_len(pred);
        }
        let removed = n - kept.len();
        self.entries = kept;
        proof {
            assert forall|j: int|
                0 <= j < orig.len() && is_decayed(
                    (#[trigger] orig[j]).1.position,
                    threshold_m,
                ) implies !self.contains_id(orig[j].0) by {
                if self.contains_id(orig[j].0) {
                    let k = choose|k: int|
                        0 <= k < self.entries_seq().len() && (#[trigger] self.entries_seq()[k]).0
                            == orig[j].0;
                    let j2 = choose|j2: int|
                        0 <= j2 < n && orig[j2] == self.entries_seq()[k];
                    if j2 < j {
                        assert(orig[j2].0 != orig[j].0);
                    } else if j < j2 {
                        assert(orig[j].0 != orig[j2].0);
                    }
                    assert(j2 == j);
                    assert(!is_decayed(orig[j].1.position, threshold_m));
                }
            }
        }
        removed
    }
}

/// Applies the freeze-in-place policy executably; mirrors
/// `applied_propagation` exactly.
fn apply_outcome(b: Body, outcome: Option<Vec3>) -> (r: (Body, bool))
    ensures
        r == applied_propagation(b, outcome),
{
    match b.kind {
        BodyKind::ElementDriven { elements, registered_at_ms, divergence_reported } => {
            match outcome {
                Option::Some(p) => {
                    let in_range = p.x >= -MAX_COORD_M && p.x <= MAX_COORD_M && p.y >= -MAX_COORD_M
                        && p.y <= MAX_COORD_M && p.z >= -MAX_COORD_M && p.z <= MAX_COORD_M;
                    if in_range {
                        (
                            Body {
                                position: p,
                                kind: BodyKind::ElementDriven {
                                    elements,
                                    registered_at_ms,
                                    divergence_reported: false,
                                },
                            },
                            false,
                        )
                    } else {
                        (
                            Body {
                                position: b.position,
                                kind: BodyKind::ElementDriven {
                                    elements,
                                    registered_at_ms,
                                    divergence_reported: true,
                                },
                            },
                            !divergence_reported,
                        )
                    }
                },
                Option::None => (
                    Body {
                        position: b.position,
                        kind: BodyKind::ElementDriven {
                            elements,
                            registered_at_ms,
                            divergence_reported: true,
                        },
                    },
                    !divergence_reported,
                ),
            }
        },
        BodyKind::Integrated { .. } => (b, false),
    }
}

/// Extending a prefix by one element extends its filtered image by that
/// element exactly when the element passes the predicate.
proof fn lemma_filter_one_more(s: Seq<(u64, Body)>, pred: spec_fn((u64, Body)) -> bool, i: int)
    requires
        0 <= i < s.len(),
    ensures
        s.subrange(0, i + 1).filter(pred) == if pred(s[i]) {
            s.subrange(0, i).filter(pred).push(s[i])
        } else {
            s.subrange(0, i).filter(pred)
        },
{
    reveal(Seq::filter);
    let t = s.subrange(0, i + 1);
    assert(t.drop_last() =~= s.subrange(0, i));
    assert(t.last() == s[i]);
}

} // verus!
