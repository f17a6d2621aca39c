use vstd::prelude::*;

verus! {

/// How an actor interacts with a one-way platform.
#[derive(Clone, Copy, Debug, PartialEq, Eq, Structural)]
pub enum PassThroughOneWayPlatform {
    /// Passes through unless it is well above the platform.
    ByNormal,
    /// Always passes through, to jump down through a platform.
    Always,
    /// Never passes through.
    Never,
}

/// A one-way platform and the entities, by their bits, that are passing through it.
#[derive(Clone, Debug)]
pub struct OneWayPlatform {
    pub intersecting: Vec<u64>,
}

/// What the contact hook decides for one contact between a one-way platform and another body.
#[derive(Clone, Copy, Debug, PartialEq, Eq, Structural)]
pub struct ContactDecision {
    /// The contact is kept and the bodies collide.
    pub accept: bool,
    /// The other body is no longer passing through and is forgotten.
    pub forget: bool,
    /// The other body starts passing through and is remembered.
    pub remember: bool,
}

impl OneWayPlatform {
    /// No entity is recorded twice.
    pub open spec fn wf(self) -> bool {
        self.intersecting@.no_duplicates()
    }

    /// The entities passing through the platform.
    pub open spec fn contents(self) -> Set<u64> {
        self.intersecting@.to_set()
    }

    /// A platform nothing passes through.
    pub fn new() -> (p: OneWayPlatform)
        ensures
            p.wf(),
            p.contents() == Set::<u64>::empty(),
    {
        let p = OneWayPlatform { intersecting: Vec::new() };
        assert(p.contents() =~= Set::<u64>::empty());
        p
    }

    /// Whether `entity` is passing through the platform.
    pub fn contains(&self, entity: u64) -> (b: bool)
        ensures
            b == self.contents().contains(entity),
    {
        let mut i: usize = 0;
        while i < self.intersecting.len()
            invariant
                0 <= i <= self.intersecting.len(),
                forall|k: int| 0 <= k < i ==> self.intersecting@[k] != entity,
            decreases self.intersecting.len() - i,
        {
            if self.intersecting[i] == entity {
                assert(self.intersecting@.contains(entity));
                return true;
            }
            i = i + 1;
        }
        false
    }

    /// Records that `entity` passes through the platform.
    pub fn add(&mut self, entity: u64)
        requires
            old(self).wf(),
        ensures
            final(self).wf(),
            final(self).contents() == old(self).contents().insert(entity),
    {
        if !self.contains(entity) {
            let ghost before = self.intersecting@;
            self.intersecting.push(entity);
            assert(self.intersecting@ == before.push(entity));
            assert forall|x: u64| #[trigger] self.contents().contains(x) == old(self).contents().insert(entity).contains(x) by {
                if x != entity && old(self).contents().contains(x) {
                    let k = choose|k: int| 0 <= k < before.len() && before[k] == x;
                    assert(self.intersecting@[k] == x);
                }
                if x == entity {
                    assert(self.intersecting@[before.len() as int] == x);
                }
                if self.contents().contains(x) && x != entity {
                    let k = choose|k: int| 0 <= k < self.intersecting@.len() && self.intersecting@[k] == x;
                    assert(k < before.len());
                    assert(before[k] == x);
                }
            }
            assert(self.contents() =~= old(self).contents().insert(entity));
        } else {
            assert(self.contents() =~= old(self).contents().insert(entity));
        }
    }

    /// Forgets that `entity` passes through the platform.
    pub fn remove(&mut self, entity: u64)
        requires
            old(self).wf(),
        ensures
            final(self).wf(),
            final(self).contents() == old(self).contents().remove(entity),
    {
        let mut i: usize = 0;
        while i < self.intersecting.len()
            invariant
                0 <= i <= self.intersecting.len(),
                self.intersecting@ == old(self).intersecting@,
                old(self).wf(),
                forall|k: int| 0 <= k < i ==> self.intersecting@[k] != entity,
            decreases self.intersecting.len() - i,
        {
            if self.intersecting[i] == entity {
                let ghost before = self.intersecting@;
                self.intersecting.remove(i);
                let ghost after = self.intersecting@;
                assert(after == before.remove(i as int));
                assert forall|a: int, b: int| 0 <= a < after.len() && 0 <= b < after.len() && a != b implies after[a] != after[b] by {
                    let a2 = if a < i { a } else { a + 1 };
                    let b2 = if b < i { b } else { b + 1 };
                    assert(after[a] == before[a2]);
                    assert(after[b] == before[b2]);
                }
                assert forall|x: u64| #[trigger] self.contents().contains(x) == old(self).contents().remove(entity).contains(x) by {
                    if self.contents().contains(x) {
                        let k = choose|k: int| 0 <= k < after.len() && after[k] == x;
                        let k2 = if k < i { k } else { k + 1 };
                        assert(before[k2] == x);
                        assert(k2 != i);
                        assert(x != entity);
                    }
                    if x != entity && old(self).contents().contains(x) {
                        let k = choose|k: int| 0 <= k < before.len() && before[k] == x;
                        if k < i {
                            assert(after[k] == x);
                        } else {
                            assert(k != i);
                            assert(after[k - 1] == x);
                        }
                    }
                }
                assert(self.contents() =~= old(self).contents().remove(entity));
                return;
            }
            i = i + 1;
        }
        assert(!self.intersecting@.contains(entity));
        assert(self.contents() =~= old(self).contents().remove(entity));
    }
}

/// Decides a contact between a one-way platform and another body `other`.
///
/// A body already passing through that still penetrates the platform keeps passing through. A
/// body passing through that no longer penetrates it is forgotten, and the contact is then judged
/// afresh by the body's pass-through mode (`None` for a body that has none, which collides): one
/// that never passes collides; one that always passes goes through and is remembered; one that
/// passes by normal collides when it is well above the platform, else goes through and is
/// remembered.
pub fn decide_contact(
    platform: &OneWayPlatform,
    other: u64,
    any_penetrating: bool,
    mode: Option<PassThroughOneWayPlatform>,
    well_above: bool,
) -> (d: ContactDecision)
    ensures
        platform.contents().contains(other) && any_penetrating ==> d == (ContactDecision {
            accept: false,
            forget: false,
            remember: false,
        }),
        !(platform.contents().contains(other) && any_penetrating) ==> {
            &&& d.forget == platform.contents().contains(other)
            &&& d.accept == match mode {
                None => true,
                Some(PassThroughOneWayPlatform::Never) => true,
                Some(PassThroughOneWayPlatform::Always) => false,
                Some(PassThroughOneWayPlatform::ByNormal) => well_above,
            }
            &&& d.remember == !d.accept
        },
{
    let inside = platform.contains(other);
    if inside && any_penetrating {
        return ContactDecision { accept: false, forget: false, remember: false };
    }
    let accept = match mode {
        None => true,
        Some(PassThroughOneWayPlatform::Never) => true,
        Some(PassThroughOneWayPlatform::Always) => false,
        Some(PassThroughOneWayPlatform::ByNormal) => well_above,
    };
    ContactDecision { accept, forget: inside, remember: !accept }
}

} // verus!
