//! The desk as a mathematical value, and what each step of the engine makes of
//! it. The functions of `desk` are held to these.

use crate::geometry::{Rect, Size, Vec2};
use crate::stamp::{Stamp, StatusView, COUNTDOWN_NANOS};
use crate::timer::TimerModel;
use vstd::prelude::*;

verus! {

/// The hit box of an object: its extent, and the members that move with it.
pub struct HitBoxView {
    pub size: Size,
    pub members: Seq<usize>,
}

/// One entity of the desk. An entity with a hit box is an object, which the
/// pointer can pick up; one without is a member of an object, or loose.
pub struct EntityView {
    pub position: Vec2,
    pub depth: Option<i64>,
    pub being_dragged: bool,
    pub hitbox: Option<HitBoxView>,
    pub stamp: Option<Stamp>,
}

/// The desk: its entities, each known by its index, the one object that
/// takes the stamp's marks, and the life of the stamp.
pub struct DeskView {
    pub entities: Seq<EntityView>,
    pub dossier: Option<usize>,
    pub stamp_status: StatusView,
}

/// A mark that was left: the stamp that left it, and the entity that the mark
/// is.
#[derive(Clone, Copy, Debug, PartialEq, Eq, Structural)]
pub struct StampedMark {
    pub stamp: usize,
    pub id: usize,
}

impl EntityView {
    /// A fresh object at `position`, with no members yet.
    pub open spec fn object(
        position: Vec2,
        depth: Option<i64>,
        size: Size,
        stamp: Option<Stamp>,
    ) -> EntityView {
        EntityView {
            position,
            depth,
            being_dragged: false,
            hitbox: Some(HitBoxView { size, members: Seq::empty() }),
            stamp,
        }
    }

    /// A fresh entity without a hit box.
    pub open spec fn part(position: Vec2, depth: Option<i64>) -> EntityView {
        EntityView { position, depth, being_dragged: false, hitbox: None, stamp: None }
    }

    /// The members of an object; an entity without a hit box has none.
    pub open spec fn members(self) -> Seq<usize> {
        match self.hitbox {
            Some(hitbox) => hitbox.members,
            None => Seq::empty(),
        }
    }

    /// The rectangle that an object covers.
    pub open spec fn rect(self) -> Rect {
        Rect { center: self.position, size: self.hitbox->0.size }
    }

    /// Whether the pointer at `point` can pick this entity: it is an object,
    /// its depth can be ordered, and `point` lies strictly inside its
    /// rectangle.
    pub open spec fn under(self, point: Vec2) -> bool {
        &&& self.hitbox is Some
        &&& self.depth is Some
        &&& self.rect().surrounds(point)
    }

    /// The entity when it is being dragged.
    pub open spec fn tagged(self) -> EntityView {
        EntityView { being_dragged: true, ..self }
    }

    /// The entity when it is not being dragged.
    pub open spec fn untagged(self) -> EntityView {
        EntityView { being_dragged: false, ..self }
    }

    /// The entity moved by `delta`.
    pub open spec fn moved(self, delta: Vec2) -> EntityView {
        EntityView { position: self.position.plus(delta), ..self }
    }

    /// The object with one more member at the end of its list.
    pub open spec fn with_member(self, id: usize) -> EntityView {
        EntityView {
            hitbox: Some(
                HitBoxView { size: self.hitbox->0.size, members: self.hitbox->0.members.push(id) },
            ),
            ..self
        }
    }

    /// The object with more members at the end of its list.
    pub open spec fn with_members(self, ids: Seq<usize>) -> EntityView {
        EntityView {
            hitbox: Some(
                HitBoxView { size: self.hitbox->0.size, members: self.hitbox->0.members + ids },
            ),
            ..self
        }
    }

    /// Whether letting go of this entity stamps: it is being dragged and is a
    /// stamp.
    pub open spec fn stamps(self) -> bool {
        self.being_dragged && self.stamp is Some
    }

    /// The rectangle of the mark that this stamp leaves where it is.
    pub open spec fn mark_rect(self) -> Rect {
        Rect { center: self.position.plus(self.stamp->0.offset), size: self.stamp->0.size }
    }

    /// The mark that this stamp leaves where it is.
    pub open spec fn mark(self) -> EntityView {
        EntityView::part(self.position.plus(self.stamp->0.offset), self.stamp->0.depth)
    }
}

impl DeskView {
    /// An empty desk with an unused stamp.
    pub open spec fn empty() -> DeskView {
        DeskView { entities: Seq::empty(), dossier: None, stamp_status: StatusView::Initial }
    }

    /// Whether `id` is an object of the desk.
    pub open spec fn is_object(self, id: int) -> bool {
        0 <= id < self.entities.len() && self.entities[id].hitbox is Some
    }

    /// The member at place `k` of the list of entity `o`.
    pub open spec fn member(self, o: int, k: int) -> usize {
        self.entities[o].members()[k]
    }

    /// Whether `(o, k)` is a place in a member list of the desk.
    pub open spec fn is_place(self, o: int, k: int) -> bool {
        0 <= o < self.entities.len() && 0 <= k < self.entities[o].members().len()
    }

    /// The invariant of the desk. Every member is an entity of the desk
    /// without a hit box of its own, no entity stands at two places of the
    /// member lists, the dossier is an object, and the stamp's timer runs
    /// once.
    pub open spec fn wf(self) -> bool {
        &&& self.entities.len() <= usize::MAX
        &&& forall|o: int, k: int| #[trigger]
            self.is_place(o, k) ==> self.member(o, k) < self.entities.len()
                && self.entities[self.member(o, k) as int].hitbox is None
        &&& forall|o1: int, k1: int, o2: int, k2: int|
            #![trigger self.is_place(o1, k1), self.is_place(o2, k2)]
            self.is_place(o1, k1) && self.is_place(o2, k2) && self.member(o1, k1) == self.member(
                o2,
                k2,
            ) ==> o1 == o2 && k1 == k2
        &&& self.dossier matches Some(t) ==> self.is_object(t as int)
        &&& self.stamp_status.wf()
    }

    /// The desk with one more entity, which gets the next index.
    pub open spec fn with_entity(self, entity: EntityView) -> DeskView {
        DeskView { entities: self.entities.push(entity), ..self }
    }

    /// The desk with a fresh entity at `position` as the last member of the
    /// object `owner`.
    pub open spec fn with_member(self, owner: int, position: Vec2, depth: Option<i64>) -> DeskView {
        let id = self.entities.len() as usize;
        DeskView {
            entities: self.entities.update(owner, self.entities[owner].with_member(id)).push(
                EntityView::part(position, depth),
            ),
            ..self
        }
    }

    /// Whether the pointer at `point` can pick entity `i`.
    pub open spec fn candidate(self, i: int, point: Vec2) -> bool {
        0 <= i < self.entities.len() && self.entities[i].under(point)
    }

    /// Whether entity `i` is `j` or in front of it: `i` has the greater depth,
    /// or the same depth and the greater index.
    pub open spec fn not_behind(self, i: int, j: int) -> bool {
        let di = self.entities[i].depth->0;
        let dj = self.entities[j].depth->0;
        dj < di || (dj == di && j <= i)
    }

    /// Whether entity `i` is the one that the pointer at `point` picks: it can
    /// be picked, and no other that can be is in front of it.
    pub open spec fn is_front(self, i: int, point: Vec2) -> bool {
        &&& self.candidate(i, point)
        &&& forall|j: int| #[trigger] self.candidate(j, point) ==> self.not_behind(i, j)
    }

    /// The entity that the pointer at `point` picks, if there is one.
    pub open spec fn front(self, point: Vec2) -> Option<usize> {
        if exists|i: int| self.is_front(i, point) {
            Some((choose|i: int| self.is_front(i, point)) as usize)
        } else {
            None
        }
    }

    /// Whether entity `j` moves with object `i`: it is `i` or one of its
    /// members.
    pub open spec fn in_group(self, i: int, j: int) -> bool {
        j == i || exists|k: int| #[trigger] self.is_place(i, k) && self.member(i, k) == j
    }

    /// The desk after object `i` was picked up: the object and all its members
    /// are being dragged, and picking up a stamp tells the stamp's status.
    pub open spec fn picked(self, i: int) -> DeskView {
        DeskView {
            entities: Seq::new(
                self.entities.len(),
                |j: int|
                    if self.in_group(i, j) {
                        self.entities[j].tagged()
                    } else {
                        self.entities[j]
                    },
            ),
            stamp_status: if self.entities[i].stamp is Some {
                self.stamp_status.picked_up()
            } else {
                self.stamp_status
            },
            ..self
        }
    }

    /// The desk after the pointer's button went down at `point`.
    pub open spec fn grabbed(self, point: Vec2) -> DeskView {
        match self.front(point) {
            Some(i) => self.picked(i as int),
            None => self,
        }
    }

    /// Whether every entity that is being dragged can be moved by `delta`.
    pub open spec fn drag_fits(self, delta: Vec2) -> bool {
        forall|j: int|
            0 <= j < self.entities.len() && (#[trigger] self.entities[j]).being_dragged
                ==> self.entities[j].position.can_add(delta)
    }

    /// The desk after every entity that is being dragged moved by `delta`.
    pub open spec fn dragged(self, delta: Vec2) -> DeskView {
        DeskView {
            entities: Seq::new(
                self.entities.len(),
                |j: int|
                    if self.entities[j].being_dragged {
                        self.entities[j].moved(delta)
                    } else {
                        self.entities[j]
                    },
            ),
            ..self
        }
    }

    /// Whether letting go of entity `i` leaves a mark: it stamps, and its mark
    /// lies within the dossier.
    pub open spec fn lands(self, i: int) -> bool {
        &&& self.entities[i].stamps()
        &&& self.entities[self.dossier->0 as int].rect().encloses(self.entities[i].mark_rect())
    }

    /// The entities below index `n` that leave a mark when let go, in rising
    /// order.
    pub open spec fn landed(self, n: int) -> Seq<usize>
        decreases n,
    {
        if n <= 0 {
            Seq::empty()
        } else if self.lands(n - 1) {
            self.landed(n - 1).push((n - 1) as usize)
        } else {
            self.landed(n - 1)
        }
    }

    /// Whether the pointer's button can go up: if anything stamps there is a
    /// dossier, and the place of every mark to be can be held.
    pub open spec fn release_fits(self) -> bool {
        forall|i: int|
            0 <= i < self.entities.len() && (#[trigger] self.entities[i]).stamps() ==> {
                &&& self.dossier is Some
                &&& self.entities[i].position.can_add(self.entities[i].stamp->0.offset)
            }
    }

    /// The indices that the marks get which the first `count` landed stamps
    /// leave.
    pub open spec fn mark_ids(self, count: nat) -> Seq<usize> {
        Seq::new(count, |k: int| (self.entities.len() + k) as usize)
    }

    /// The desk after the pointer's button went up. Nothing is being dragged
    /// any more. Every stamp that landed has left a mark: a new entity after
    /// all the old ones, and a new member at the end of the dossier's list, in
    /// the order of the stamps. Where a mark was left, the stamp's status
    /// knows.
    pub open spec fn released(self) -> DeskView {
        let stamps = self.landed(self.entities.len() as int);
        let ids = self.mark_ids(stamps.len());
        DeskView {
            entities: Seq::new(
                self.entities.len() + stamps.len(),
                |j: int|
                    if j < self.entities.len() {
                        if self.dossier == Some(j as usize) {
                            self.entities[j].untagged().with_members(ids)
                        } else {
                            self.entities[j].untagged()
                        }
                    } else {
                        self.entities[stamps[j - self.entities.len()] as int].mark()
                    },
            ),
            stamp_status: if stamps.len() > 0 {
                self.stamp_status.stamped()
            } else {
                self.stamp_status
            },
            ..self
        }
    }

    /// The marks that are left when the pointer's button goes up, in the
    /// order of their stamps.
    pub open spec fn stamped_marks(self) -> Seq<StampedMark> {
        let stamps = self.landed(self.entities.len() as int);
        Seq::new(
            stamps.len(),
            |k: int| StampedMark { stamp: stamps[k], id: (self.entities.len() + k) as usize },
        )
    }

    /// The desk after `nanos` more nanoseconds.
    pub open spec fn ticked(self, nanos: u64) -> DeskView {
        DeskView { stamp_status: self.stamp_status.ticked(nanos), ..self }
    }
}

impl DeskView {
    /// A new entity with no members keeps the desk's invariant.
    pub proof fn lemma_with_entity_keeps_wf(self, entity: EntityView)
        requires
            self.wf(),
            self.entities.len() < usize::MAX,
            entity.members().len() == 0,
        ensures
            self.with_entity(entity).wf(),
    {
        let after = self.with_entity(entity);
        assert forall|o: int, k: int| #[trigger] after.is_place(o, k) implies self.is_place(o, k)
            && after.member(o, k) == self.member(o, k) by {}
    }

    /// A fresh member keeps the desk's invariant.
    pub proof fn lemma_with_member_keeps_wf(self, owner: int, position: Vec2, depth: Option<i64>)
        requires
            self.wf(),
            self.entities.len() < usize::MAX,
            self.is_object(owner),
        ensures
            self.with_member(owner, position, depth).wf(),
    {
        let after = self.with_member(owner, position, depth);
        let last = self.entities[owner].members().len() as int;
        assert forall|o: int, k: int| #[trigger] after.is_place(o, k) implies if o == owner && k
            == last {
            after.member(o, k) == self.entities.len()
        } else {
            self.is_place(o, k) && after.member(o, k) == self.member(o, k)
        } by {}
    }

    /// The one that can be picked below index `n` with none of them in front
    /// of it, or `None` where none below `n` can be picked.
    pub proof fn lemma_top_below(self, point: Vec2, n: int) -> (top: Option<int>)
        requires
            0 <= n <= self.entities.len(),
        ensures
            match top {
                Some(i) => {
                    &&& 0 <= i < n
                    &&& self.candidate(i, point)
                    &&& forall|j: int|
                        j < n && #[trigger] self.candidate(j, point) ==> self.not_behind(i, j)
                },
                None => forall|j: int| j < n ==> !#[trigger] self.candidate(j, point),
            },
        decreases n,
    {
        if n == 0 {
            None
        } else {
            let below = self.lemma_top_below(point, n - 1);
            if !self.candidate(n - 1, point) {
                below
            } else {
                match below {
                    None => Some(n - 1),
                    Some(i) => if self.entities[n - 1].depth->0 >= self.entities[i].depth->0 {
                        Some(n - 1)
                    } else {
                        Some(i)
                    },
                }
            }
        }
    }

    /// No two entities are both the one that the pointer picks.
    pub proof fn lemma_front_is_unique(self, a: int, b: int, point: Vec2)
        requires
            self.is_front(a, point),
            self.is_front(b, point),
        ensures
            a == b,
    {
    }

    /// The pointer picks the topmost of the objects that it is strictly
    /// inside of: an object whose depth can be ordered, with every other such
    /// object under the pointer lower in the pile, or as high and older (of
    /// two objects at one depth the one that came to the desk later is in
    /// front). It picks nothing only where there is no such object.
    pub proof fn lemma_front_is_topmost(self, point: Vec2)
        requires
            self.entities.len() <= usize::MAX,
        ensures
            match self.front(point) {
                Some(i) => {
                    &&& self.candidate(i as int, point)
                    &&& forall|j: int|
                        j != i && #[trigger] self.candidate(j, point) ==> {
                            let dj = self.entities[j].depth->0;
                            let di = self.entities[i as int].depth->0;
                            dj < di || (dj == di && j < i)
                        }
                },
                None => forall|j: int| !#[trigger] self.candidate(j, point),
            },
    {
        match self.lemma_top_below(point, self.entities.len() as int) {
            Some(i) => {
                assert(self.is_front(i, point));
            },
            None => {},
        }
    }

    /// Picking an object up keeps the desk's invariant.
    pub proof fn lemma_picked_keeps_wf(self, i: int)
        requires
            self.wf(),
            0 <= i < self.entities.len(),
        ensures
            self.picked(i).wf(),
    {
        let after = self.picked(i);
        assert forall|o: int, k: int| #[trigger] after.is_place(o, k) implies self.is_place(o, k)
            && after.member(o, k) == self.member(o, k) by {}
    }

    /// Moving what is being dragged keeps the desk's invariant.
    pub proof fn lemma_dragged_keeps_wf(self, delta: Vec2)
        requires
            self.wf(),
        ensures
            self.dragged(delta).wf(),
    {
        let after = self.dragged(delta);
        assert forall|o: int, k: int| #[trigger] after.is_place(o, k) implies self.is_place(o, k)
            && after.member(o, k) == self.member(o, k) by {}
    }

    /// Letting go of one entity keeps the desk's invariant.
    pub proof fn lemma_untagged_keeps_wf(self, i: int)
        requires
            self.wf(),
            0 <= i < self.entities.len(),
        ensures
            (DeskView {
                entities: self.entities.update(i, self.entities[i].untagged()),
                ..self
            }).wf(),
    {
        let after = DeskView {
            entities: self.entities.update(i, self.entities[i].untagged()),
            ..self
        };
        assert forall|o: int, k: int| #[trigger] after.is_place(o, k) implies self.is_place(o, k)
            && after.member(o, k) == self.member(o, k) by {}
    }

    /// The stamps that land are entities of the desk, each counted once.
    pub proof fn lemma_landed_is_bounded(self, n: int)
        requires
            0 <= n <= self.entities.len() <= usize::MAX,
        ensures
            self.landed(n).len() <= n,
            forall|k: int|
                0 <= k < self.landed(n).len() ==> (#[trigger] self.landed(n)[k]) < n && self.lands(
                    self.landed(n)[k] as int,
                ),
        decreases n,
    {
        if n > 0 {
            self.lemma_landed_is_bounded(n - 1);
        }
    }

    /// Picking up is all or nothing. Where the pointer picks an object, that
    /// object and every one of its members is being dragged afterwards, and
    /// every other entity is as it was. Where it picks nothing, the desk is as
    /// it was.
    pub proof fn lemma_grab_is_all_or_nothing(self, point: Vec2)
        requires
            self.wf(),
        ensures
            match self.front(point) {
                Some(i) => {
                    let after = self.grabbed(point);
                    &&& after.entities.len() == self.entities.len()
                    &&& after.entities[i as int].being_dragged
                    &&& forall|k: int| #[trigger]
                        self.is_place(i as int, k) ==> after.entities[self.member(
                            i as int,
                            k,
                        ) as int].being_dragged
                    &&& forall|j: int|
                        0 <= j < self.entities.len() && !self.in_group(i as int, j)
                            ==> #[trigger] after.entities[j] == self.entities[j]
                },
                None => self.grabbed(point) == self,
            },
    {
        self.lemma_front_is_topmost(point);
    }

    /// Picking up the stamp after it was dropped starts the countdown of five
    /// seconds. Picking up anything else, or the stamp at another time, leaves
    /// the stamp's status as it is.
    pub proof fn lemma_grab_arms_the_dropped_stamp(self, point: Vec2)
        ensures
            self.grabbed(point).stamp_status == if self.front(point) matches Some(i)
                && self.entities[i as int].stamp is Some && self.stamp_status is Dropped {
                StatusView::PickedUp(TimerModel::once(COUNTDOWN_NANOS as nat))
            } else {
                self.stamp_status
            },
    {
    }

    /// After the pointer's button went up, nothing on the desk is being
    /// dragged, whatever was before.
    pub proof fn lemma_release_frees_all(self)
        ensures
            forall|j: int|
                0 <= j < self.released().entities.len() ==> !(
                #[trigger] self.released().entities[j]).being_dragged,
    {
    }

    /// The pointer's button going up adds one entity for each stamp that
    /// lands, and takes none away.
    pub proof fn lemma_release_adds_the_marks(self)
        ensures
            self.released().entities.len() == self.entities.len() + self.stamped_marks().len(),
            self.stamped_marks().len() == self.landed(self.entities.len() as int).len(),
    {
    }

    /// Where `s` is the only entity that stamps, the stamps that land below
    /// `n` are `s` alone if it lands and lies below `n`, and none otherwise.
    proof fn lemma_landed_alone(self, s: int, n: int)
        requires
            0 <= s < self.entities.len() <= usize::MAX,
            0 <= n <= self.entities.len(),
            forall|j: int|
                0 <= j < self.entities.len() && j != s ==> !(#[trigger] self.entities[j]).stamps(),
        ensures
            self.landed(n) == if s < n && self.lands(s) {
                seq![s as usize]
            } else {
                Seq::<usize>::empty()
            },
        decreases n,
    {
        if n > 0 {
            self.lemma_landed_alone(s, n - 1);
        }
    }

    /// Letting go of the one stamp that is being dragged, where its mark lies
    /// within the dossier, leaves exactly one mark: one new entity, which is
    /// the mark and the dossier's newest member. The first mark turns the
    /// status from `Initial` to `Dropped`; a later one leaves the status as it
    /// is. Where the mark does not lie within the dossier, no entity is added,
    /// the dossier keeps its members and the status stays.
    pub proof fn lemma_one_stamp_leaves_one_mark(self, s: int)
        requires
            self.wf(),
            0 <= s < self.entities.len(),
            self.entities[s].stamps(),
            self.dossier is Some,
            forall|j: int|
                0 <= j < self.entities.len() && j != s ==> !(#[trigger] self.entities[j]).stamps(),
        ensures
            ({
                let after = self.released();
                let n = self.entities.len() as int;
                let t = self.dossier->0 as int;
                if self.lands(s) {
                    &&& after.entities.len() == n + 1
                    &&& after.entities[n] == self.entities[s].mark()
                    &&& after.entities[t].members() == self.entities[t].members().push(n as usize)
                    &&& self.stamped_marks() == seq![
                        StampedMark { stamp: s as usize, id: n as usize },
                    ]
                    &&& after.stamp_status == self.stamp_status.stamped()
                    &&& self.stamp_status is Initial ==> after.stamp_status is Dropped
                    &&& !(self.stamp_status is Initial) ==> after.stamp_status == self.stamp_status
                } else {
                    &&& after.entities.len() == n
                    &&& after.entities[t].members() == self.entities[t].members()
                    &&& self.stamped_marks().len() == 0
                    &&& after.stamp_status == self.stamp_status
                }
            }),
    {
        self.lemma_landed_alone(s, self.entities.len() as int);
    }

    /// Dragging moves everything that is being dragged by the same way, so two
    /// dragged entities stay as far apart as they were; what is not being
    /// dragged stays where it was.
    pub proof fn lemma_drag_keeps_offsets(self, delta: Vec2, a: int, b: int)
        requires
            self.drag_fits(delta),
            0 <= a < self.entities.len(),
            0 <= b < self.entities.len(),
        ensures
            ({
                let after = self.dragged(delta);
                let moved_a = after.entities[a].position;
                let moved_b = after.entities[b].position;
                let was_a = self.entities[a].position;
                let was_b = self.entities[b].position;
                &&& self.entities[a].being_dragged ==> moved_a.x == was_a.x + delta.x && moved_a.y
                    == was_a.y + delta.y
                &&& !self.entities[a].being_dragged ==> after.entities[a] == self.entities[a]
                &&& self.entities[a].being_dragged && self.entities[b].being_dragged ==> moved_a.x
                    - moved_b.x == was_a.x - was_b.x && moved_a.y - moved_b.y == was_a.y - was_b.y
            }),
    {
    }
}

} // verus!
