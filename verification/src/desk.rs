//! The desk and the drag controller that works on it.

use crate::geometry::{fits, Rect, Size, Vec2};
use crate::model::{DeskView, EntityView, HitBoxView, StampedMark};
use crate::pointer::Mouse;
use crate::stamp::{Stamp, StampStatus};
use vstd::prelude::*;

verus! {

/// The hit box of an object: its extent, and the members that move with it.
#[derive(Debug)]
pub struct DragHitBox {
    pub size: Size,
    pub members: Vec<usize>,
}

/// One entity of the desk.
#[derive(Debug)]
pub struct Entity {
    pub position: Vec2,
    /// The place in the pile, higher in front; `None` where the entity has no
    /// depth that can be ordered.
    pub depth: Option<i64>,
    pub being_dragged: bool,
    pub hitbox: Option<DragHitBox>,
    pub stamp: Option<Stamp>,
}

/// Why the desk could not be set up as asked.
#[derive(Clone, Copy, Debug, PartialEq, Eq, Structural)]
pub enum DeskError {
    /// The index is not that of an object of the desk.
    NotAnObject,
    /// The desk has its dossier already.
    SecondDossier,
}

/// The desk: every entity of the scene under its index, the dossier, and the
/// life of the stamp.
pub struct Desk {
    entities: Vec<Entity>,
    dossier: Option<usize>,
    stamp_status: StampStatus,
}

impl View for DragHitBox {
    type V = HitBoxView;

    open spec fn view(&self) -> HitBoxView {
        HitBoxView { size: self.size, members: self.members@ }
    }
}

impl View for Entity {
    type V = EntityView;

    open spec fn view(&self) -> EntityView {
        EntityView {
            position: self.position,
            depth: self.depth,
            being_dragged: self.being_dragged,
            hitbox: match self.hitbox {
                Some(hitbox) => Some(hitbox@),
                None => None,
            },
            stamp: self.stamp,
        }
    }
}

impl View for Desk {
    type V = DeskView;

    closed spec fn view(&self) -> DeskView {
        DeskView {
            entities: Seq::new(self.entities@.len(), |i: int| self.entities@[i]@),
            dossier: self.dossier,
            stamp_status: self.stamp_status@,
        }
    }
}

impl Desk {
    /// The invariant of the desk, which every function here keeps.
    pub open spec fn wf(&self) -> bool {
        self@.wf()
    }

    /// An empty desk with an unused stamp.
    pub fn new() -> (desk: Desk)
        ensures
            desk@ == DeskView::empty(),
            desk.wf(),
    {
        let desk = Desk { entities: Vec::new(), dossier: None, stamp_status: StampStatus::Initial };
        assert(desk@.entities =~= Seq::empty());
        desk
    }

    /// The number of entities; their indices are the numbers below it.
    pub fn len(&self) -> (n: usize)
        ensures
            n == self@.entities.len(),
    {
        self.entities.len()
    }

    /// The entity with index `id`, if there is one.
    pub fn get(&self, id: usize) -> (entity: Option<&Entity>)
        ensures
            match entity {
                Some(e) => id < self@.entities.len() && e@ == self@.entities[id as int],
                None => id >= self@.entities.len(),
            },
    {
        if id < self.entities.len() {
            Some(&self.entities[id])
        } else {
            None
        }
    }

    /// The object that takes the stamp's marks, if the desk has one yet.
    pub fn dossier(&self) -> (id: Option<usize>)
        ensures
            id == self@.dossier,
    {
        self.dossier
    }

    /// The life of the stamp.
    pub fn stamp_status(&self) -> (status: &StampStatus)
        ensures
            status@ == self@.stamp_status,
    {
        &self.stamp_status
    }

    /// Puts a new object on the desk and gives its index.
    pub fn add_object(
        &mut self,
        position: Vec2,
        depth: Option<i64>,
        size: Size,
        stamp: Option<Stamp>,
    ) -> (id: usize)
        requires
            old(self).wf(),
        ensures
            final(self).wf(),
            id == old(self)@.entities.len(),
            final(self)@ == old(self)@.with_entity(
                EntityView::object(position, depth, size, stamp),
            ),
    {
        let id = self.entities.len();
        self.entities.push(
            Entity {
                position,
                depth,
                being_dragged: false,
                hitbox: Some(DragHitBox { size, members: Vec::new() }),
                stamp,
            },
        );
        proof {
            let entity = EntityView::object(position, depth, size, stamp);
            assert(self.entities.len() == id + 1);
            assert(self@.entities =~= old(self)@.entities.push(entity));
            old(self)@.lemma_with_entity_keeps_wf(entity);
        }
        id
    }

    /// Makes a new entity at `position` and affixes it to the object `owner`
    /// as its last member. Gives the new entity's index, or the error
    /// `NotAnObject`, with the desk unchanged, where `owner` is no object of
    /// the desk.
    pub fn add_member(&mut self, owner: usize, position: Vec2, depth: Option<i64>) -> (id: Result<
        usize,
        DeskError,
    >)
        requires
            old(self).wf(),
        ensures
            final(self).wf(),
            match id {
                Ok(id) => {
                    &&& old(self)@.is_object(owner as int)
                    &&& id == old(self)@.entities.len()
                    &&& final(self)@ == old(self)@.with_member(owner as int, position, depth)
                },
                Err(e) => {
                    &&& !old(self)@.is_object(owner as int)
                    &&& e == DeskError::NotAnObject
                    &&& final(self)@ == old(self)@
                },
            },
    {
        if owner >= self.entities.len() || self.entities[owner].hitbox.is_none() {
            return Err(DeskError::NotAnObject);
        }
        let id = self.entities.len();
        match &mut self.entities[owner].hitbox {
            Some(hitbox) => {
                hitbox.members.push(id);
            },
            None => {},
        }
        self.entities.push(
            Entity { position, depth, being_dragged: false, hitbox: None, stamp: None },
        );
        proof {
            assert(self.entities.len() == id + 1);
            assert(self@.entities =~= old(self)@.with_member(
                owner as int,
                position,
                depth,
            ).entities);
            old(self)@.lemma_with_member_keeps_wf(owner as int, position, depth);
        }
        Ok(id)
    }

    /// Makes the object `id` the dossier: the one object that takes the
    /// stamp's marks. The errors, each with the desk unchanged: `NotAnObject`
    /// where `id` is no object of the desk, else `SecondDossier` where the
    /// desk has a dossier already.
    pub fn set_dossier(&mut self, id: usize) -> (done: Result<(), DeskError>)
        requires
            old(self).wf(),
        ensures
            final(self).wf(),
            match done {
                Ok(_) => {
                    &&& old(self)@.is_object(id as int)
                    &&& old(self)@.dossier is None
                    &&& final(self)@ == (DeskView { dossier: Some(id), ..old(self)@ })
                },
                Err(e) => {
                    &&& final(self)@ == old(self)@
                    &&& e == if !old(self)@.is_object(id as int) {
                        DeskError::NotAnObject
                    } else {
                        DeskError::SecondDossier
                    }
                    &&& !old(self)@.is_object(id as int) || old(self)@.dossier is Some
                },
            },
    {
        if id >= self.entities.len() || self.entities[id].hitbox.is_none() {
            return Err(DeskError::NotAnObject);
        }
        if self.dossier.is_some() {
            return Err(DeskError::SecondDossier);
        }
        self.dossier = Some(id);
        proof {
            assert forall|o: int, k: int| #[trigger] self@.is_place(o, k) implies old(
                self,
            )@.is_place(o, k) by {}
        }
        Ok(())
    }

    /// The object that the pointer picks where it stands: of the objects that
    /// it is strictly inside of, and whose depth can be ordered, the one with
    /// the greatest depth, and of several at that depth the one with the
    /// greatest index. `None` where the pointer is inside no such object.
    pub fn front_clicked_entity(&self, mouse: &Mouse) -> (front: Option<usize>)
        ensures
            front == self@.front(mouse.position),
            match front {
                Some(i) => self@.is_front(i as int, mouse.position),
                None => forall|j: int| !#[trigger] self@.candidate(j, mouse.position),
            },
    {
        let ghost desk = self@;
        let ghost point = mouse.position;
        let mut best: Option<usize> = None;
        let mut best_depth: i64 = 0;
        let n = self.entities.len();
        for i in 0..n
            invariant
                n == self.entities@.len(),
                desk == self@,
                point == mouse.position,
                match best {
                    Some(b) => {
                        &&& b < i
                        &&& desk.candidate(b as int, point)
                        &&& desk.entities[b as int].depth == Some(best_depth)
                        &&& forall|j: int|
                            j < i && #[trigger] desk.candidate(j, point) ==> desk.not_behind(
                                b as int,
                                j,
                            )
                    },
                    None => forall|j: int| j < i ==> !#[trigger] desk.candidate(j, point),
                },
        {
            let entity = &self.entities[i];
            let hit = match (&entity.hitbox, entity.depth) {
                (Some(hitbox), Some(depth)) => {
                    if hovers(hitbox, entity.position, mouse) && (best.is_none() || depth
                        >= best_depth) {
                        Some(depth)
                    } else {
                        None
                    }
                },
                _ => None,
            };
            match hit {
                Some(depth) => {
                    best = Some(i);
                    best_depth = depth;
                },
                None => {},
            }
        }
        proof {
            match best {
                Some(b) => {
                    assert(desk.is_front(b as int, point));
                    desk.lemma_front_is_unique(
                        b as int,
                        choose|i: int| desk.is_front(i, point),
                        point,
                    );
                },
                None => {},
            }
        }
        best
    }

    fn member_count(&self, i: usize) -> (count: usize)
        requires
            i < self@.entities.len(),
        ensures
            count == self@.entities[i as int].members().len(),
    {
        match &self.entities[i].hitbox {
            Some(hitbox) => hitbox.members.len(),
            None => 0,
        }
    }

    fn member_at(&self, i: usize, k: usize) -> (id: usize)
        requires
            self@.is_place(i as int, k as int),
        ensures
            id == self@.member(i as int, k as int),
    {
        match &self.entities[i].hitbox {
            Some(hitbox) => hitbox.members[k],
            None => 0,
        }
    }

    /// The pointer's button went down: the object that the pointer picks, and
    /// every member of it, is being dragged from now on. Picking up the stamp
    /// after it was dropped starts the countdown. Gives the object that was
    /// picked; where the pointer picks nothing, nothing changes.
    pub fn begin_being_dragged(&mut self, mouse: &Mouse) -> (picked: Option<usize>)
        requires
            old(self).wf(),
        ensures
            final(self).wf(),
            picked == old(self)@.front(mouse.position),
            final(self)@ == old(self)@.grabbed(mouse.position),
    {
        let front = self.front_clicked_entity(mouse);
        let i = match front {
            Some(i) => i,
            None => {
                return None;
            },
        };
        let ghost before = self@;
        let n = self.entities.len();
        let count = self.member_count(i);
        self.entities[i].being_dragged = true;
        for k in 0..count
            invariant
                before.wf(),
                i < n == before.entities.len(),
                count == before.entities[i as int].members().len(),
                self@.entities =~= tagged_upto(before, i as int, k as int),
                self@.dossier == before.dossier,
                self@.stamp_status == before.stamp_status,
        {
            assert(before.is_place(i as int, k as int));
            let member = self.member_at(i, k);
            let ghost earlier = self@;
            self.entities[member].being_dragged = true;
            assert(self@.entities =~= earlier.entities.update(
                member as int,
                earlier.entities[member as int].tagged(),
            ));
        }
        assert(self@.entities[i as int].stamp == before.entities[i as int].stamp);
        if self.entities[i].stamp.is_some() {
            self.stamp_status.pick_up();
        }
        proof {
            assert(self@.entities =~= before.picked(i as int).entities);
            before.lemma_picked_keeps_wf(i as int);
        }
        Some(i)
    }

    /// Whether `drag` can move what is being dragged by the pointer's delta.
    pub fn can_drag(&self, mouse: &Mouse) -> (ok: bool)
        ensures
            ok == self@.drag_fits(mouse.position_delta),
    {
        let n = self.entities.len();
        for j in 0..n
            invariant
                n == self@.entities.len(),
                forall|h: int|
                    0 <= h < j && (#[trigger] self@.entities[h]).being_dragged
                        ==> self@.entities[h].position.can_add(mouse.position_delta),
        {
            let entity = &self.entities[j];
            assert(entity@ == self@.entities[j as int]);
            if entity.being_dragged && entity.position.checked_add(mouse.position_delta).is_none() {
                return false;
            }
        }
        true
    }

    /// The pointer moved: everything that is being dragged moves by the
    /// pointer's delta, and nothing else moves.
    pub fn drag(&mut self, mouse: &Mouse)
        requires
            old(self).wf(),
            old(self)@.drag_fits(mouse.position_delta),
        ensures
            final(self).wf(),
            final(self)@ == old(self)@.dragged(mouse.position_delta),
    {
        let ghost before = self@;
        let delta = mouse.position_delta;
        let n = self.entities.len();
        for j in 0..n
            invariant
                n == before.entities.len(),
                before.drag_fits(delta),
                self@.dossier == before.dossier,
                self@.stamp_status == before.stamp_status,
                self@.entities.len() == n,
                forall|h: int|
                    0 <= h < j ==> #[trigger] self@.entities[h] == before.dragged(
                        delta,
                    ).entities[h],
                forall|h: int| j <= h < n ==> #[trigger] self@.entities[h] == before.entities[h],
        {
            let ghost earlier = self@;
            if self.entities[j].being_dragged {
                let position = self.entities[j].position;
                self.entities[j].position = Vec2 {
                    x: position.x + delta.x,
                    y: position.y + delta.y,
                };
                assert(self@.entities =~= earlier.entities.update(
                    j as int,
                    earlier.entities[j as int].moved(delta),
                ));
            }
        }
        proof {
            assert(self@.entities =~= before.dragged(delta).entities);
            before.lemma_dragged_keeps_wf(delta);
        }
    }

    /// Whether `stop_being_dragged` can be called: whether the desk has a
    /// dossier if anything stamps, and the place of every mark to be can be
    /// held.
    pub fn can_release(&self) -> (ok: bool)
        ensures
            ok == self@.release_fits(),
    {
        let n = self.entities.len();
        for i in 0..n
            invariant
                n == self@.entities.len(),
                forall|h: int|
                    0 <= h < i && (#[trigger] self@.entities[h]).stamps() ==> {
                        &&& self@.dossier is Some
                        &&& self@.entities[h].position.can_add(self@.entities[h].stamp->0.offset)
                    },
        {
            let entity = &self.entities[i];
            assert(entity@ == self@.entities[i as int]);
            if entity.being_dragged {
                match entity.stamp {
                    Some(stamp) => {
                        if self.dossier.is_none() || entity.position.checked_add(
                            stamp.offset,
                        ).is_none() {
                            return false;
                        }
                    },
                    None => {},
                }
            }
        }
        true
    }

    /// The pointer's button went up: nothing is being dragged any more. Every
    /// stamp that was being dragged leaves its mark if the mark lies within
    /// the dossier: the mark is a new entity and the dossier's newest member,
    /// and the stamp's status learns of it. Gives the marks that were left.
    pub fn stop_being_dragged(&mut self) -> (marks: Vec<StampedMark>)
        requires
            old(self).wf(),
            old(self)@.release_fits(),
        ensures
            final(self).wf(),
            final(self)@ == old(self)@.released(),
            marks@ == old(self)@.stamped_marks(),
    {
        let ghost before = self@;
        let n = self.entities.len();
        let mut marks: Vec<StampedMark> = Vec::new();
        for i in 0..n
            invariant
                before.wf(),
                before.release_fits(),
                n == before.entities.len(),
                self.wf(),
                self@.entities =~= released_upto(before, i as int).entities,
                self@.dossier == before.dossier,
                self@.stamp_status == released_upto(before, i as int).stamp_status,
                marks@ =~= marks_upto(before, i as int),
        {
            proof {
                before.lemma_landed_is_bounded(i as int);
                before.lemma_landed_is_bounded(i + 1);
            }
            let ghost stamps = before.landed(i as int);
            let ghost earlier = self@;
            let was_dragged = self.entities[i].being_dragged;
            let stamp = self.entities[i].stamp;
            let position = self.entities[i].position;
            self.entities[i].being_dragged = false;
            proof {
                assert(self@.entities =~= earlier.entities.update(
                    i as int,
                    earlier.entities[i as int].untagged(),
                ));
                earlier.lemma_untagged_keeps_wf(i as int);
            }
            let ghost mut landed = false;
            if was_dragged {
                match (stamp, self.dossier) {
                    (Some(stamp), Some(t)) => {
                        let stamped_position = Vec2 {
                            x: position.x + stamp.offset.x,
                            y: position.y + stamp.offset.y,
                        };
                        let dossier = &self.entities[t];
                        let dossier_position = dossier.position;
                        let dossier_size = match &dossier.hitbox {
                            Some(hitbox) => hitbox.size,
                            None => Size { width: 0, height: 0 },
                        };
                        if stamp_fits(&stamp, stamped_position, dossier_position, dossier_size) {
                            match self.add_member(t, stamped_position, stamp.depth) {
                                Ok(id) => {
                                    let ghost marked = self@;
                                    self.stamp_status.leave_mark();
                                    assert(self@.wf()) by {
                                        assert forall|o: int, k: int| #[trigger]
                                            self@.is_place(o, k) implies marked.is_place(o, k) by {}
                                    }
                                    marks.push(StampedMark { stamp: i, id });
                                    proof {
                                        landed = true;
                                    }
                                },
                                Err(_) => {},
                            }
                        }
                    },
                    _ => {},
                }
            }
            proof {
                if landed {
                    let members = before.entities[before.dossier->0 as int].members();
                    let id = (n + stamps.len()) as usize;
                    assert(members + before.mark_ids(stamps.len() + 1) =~= (members
                        + before.mark_ids(stamps.len())).push(id));
                }
            }
        }
        proof {
            assert(self@.entities =~= before.released().entities);
        }
        marks
    }

    /// Lets `nanos` nanoseconds pass, and says whether the stamp's countdown
    /// ended in them: the sign to leave the scene.
    pub fn check_timer(&mut self, nanos: u64) -> (fired: bool)
        requires
            old(self).wf(),
        ensures
            final(self).wf(),
            final(self)@ == old(self)@.ticked(nanos),
            fired == old(self)@.stamp_status.fires(nanos),
    {
        let fired = self.stamp_status.check_timer(nanos);
        proof {
            assert forall|o: int, k: int| #[trigger] self@.is_place(o, k) implies old(
                self,
            )@.is_place(o, k) by {}
        }
        fired
    }
}

/// Whether the pointer is strictly inside the hit box of an object at
/// `position`.
pub fn hovers(hitbox: &DragHitBox, position: Vec2, mouse: &Mouse) -> (inside: bool)
    ensures
        inside == (Rect { center: position, size: hitbox.size }).surrounds(mouse.position),
{
    Rect::from_center_size(position, hitbox.size).contains_point(mouse.position)
}

/// Whether entity `j` is object `i` or one of its first `k` members.
spec fn in_group_upto(desk: DeskView, i: int, j: int, k: int) -> bool {
    j == i || exists|h: int| #[trigger] desk.is_place(i, h) && h < k && desk.member(i, h) == j
}

/// The entities of the desk when object `i` and its first `k` members have
/// been picked up.
spec fn tagged_upto(desk: DeskView, i: int, k: int) -> Seq<EntityView> {
    Seq::new(
        desk.entities.len(),
        |j: int|
            if in_group_upto(desk, i, j, k) {
                desk.entities[j].tagged()
            } else {
                desk.entities[j]
            },
    )
}

/// Whether the mark that `stamp` leaves at `stamped_position` lies within the
/// dossier, edges included.
pub fn stamp_fits(
    stamp: &Stamp,
    stamped_position: Vec2,
    dossier_position: Vec2,
    dossier_size: Size,
) -> (within: bool)
    ensures
        within == (Rect { center: dossier_position, size: dossier_size }).encloses(
            Rect { center: stamped_position, size: stamp.size },
        ),
{
    let stamped = Rect::from_center_size(stamped_position, stamp.size);
    let dossier = Rect::from_center_size(dossier_position, dossier_size);
    fits(dossier, stamped)
}

/// The desk when the first `i` entities have been let go.
spec fn released_upto(desk: DeskView, i: int) -> DeskView {
    let stamps = desk.landed(i);
    let ids = desk.mark_ids(stamps.len());
    DeskView {
        entities: Seq::new(
            desk.entities.len() + stamps.len(),
            |j: int|
                if j < desk.entities.len() {
                    let entity = if j < i {
                        desk.entities[j].untagged()
                    } else {
                        desk.entities[j]
                    };
                    if desk.dossier == Some(j as usize) {
                        entity.with_members(ids)
                    } else {
                        entity
                    }
                } else {
                    desk.entities[stamps[j - desk.entities.len()] as int].mark()
                },
        ),
        stamp_status: if stamps.len() > 0 {
            desk.stamp_status.stamped()
        } else {
            desk.stamp_status
        },
        ..desk
    }
}

/// The marks that were left when the first `i` entities have been let go.
spec fn marks_upto(desk: DeskView, i: int) -> Seq<StampedMark> {
    let stamps = desk.landed(i);
    Seq::new(
        stamps.len(),
        |k: int| StampedMark { stamp: stamps[k], id: (desk.entities.len() + k) as usize },
    )
}

} // verus!
