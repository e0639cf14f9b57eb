use vstd::prelude::*;

use crate::base_object::{BaseObject, Callback, Metadata};

verus! {

/// Where the application stands in its bootstrap sequence.
#[derive(Debug, Clone, Copy, PartialEq, Eq, Structural)]
pub enum Stage {
    Uninitialized,
    GraphicsCreated,
    WindowCreated,
    SceneLaunched,
    Running,
    SceneTerminated,
}

/// A call into an outside subsystem that the bootstrap sequence makes.
#[derive(Debug, Clone, Copy, PartialEq, Eq, Structural)]
pub enum Step {
    CreateGraphics,
    CreateWindow,
    CreateLauncherScene,
    LaunchScene,
    TerminateScene,
}

/// The call that is due in a stage, if any is left.
pub open spec fn step_due(stage: Stage) -> Option<Step> {
    match stage {
        Stage::Uninitialized => Some(Step::CreateGraphics),
        Stage::GraphicsCreated => Some(Step::CreateWindow),
        Stage::WindowCreated => Some(Step::CreateLauncherScene),
        Stage::SceneLaunched => Some(Step::LaunchScene),
        Stage::Running => Some(Step::TerminateScene),
        Stage::SceneTerminated => None,
    }
}

/// The stage that a call leads to.
pub open spec fn stage_after(step: Step) -> Stage {
    match step {
        Step::CreateGraphics => Stage::GraphicsCreated,
        Step::CreateWindow => Stage::WindowCreated,
        Step::CreateLauncherScene => Stage::SceneLaunched,
        Step::LaunchScene => Stage::Running,
        Step::TerminateScene => Stage::SceneTerminated,
    }
}

/// Metadata of an object that has just been activated.
pub open spec fn activated(m: Metadata) -> Metadata {
    Metadata { active: true, ..m }
}

/// Metadata of an object that has just been deactivated.
pub open spec fn deactivated(m: Metadata) -> Metadata {
    Metadata { active: false, ..m }
}

/// Metadata of an object that has just been destroyed.
pub open spec fn destroyed(m: Metadata) -> Metadata {
    Metadata { alive: false, ..m }
}

/// Holds of every index but `id`.
pub open spec fn other_than(id: usize) -> spec_fn(usize) -> bool {
    |x: usize| x != id
}

/// A registry without the given object.
pub open spec fn without(s: Seq<usize>, id: usize) -> Seq<usize> {
    s.filter(other_than(id))
}

/// The abstract state of an application.
///
/// `objects[i]` holds the flags of the object with index `i`; `active` and
/// `passive` are the two registries, each in insertion order.
pub struct AppView {
    pub id: u64,
    pub metadata: Metadata,
    pub objects: Seq<Metadata>,
    pub active: Seq<usize>,
    pub passive: Seq<usize>,
    pub stage: Stage,
    pub graphics: Option<u64>,
}

impl AppView {
    /// Every registered index names an object; the active registry holds each
    /// index at most once, and only objects that are active and not locked;
    /// the passive registry holds no locked object; no object is active
    /// without being alive; and a graphics handle is held once it is created.
    pub open spec fn wf(self) -> bool {
        &&& forall|k: int|
            0 <= k < self.active.len() ==> {
                let i = #[trigger] self.active[k];
                &&& i < self.objects.len()
                &&& self.objects[i as int].active
                &&& !self.objects[i as int].locked
            }
        &&& self.active.no_duplicates()
        &&& forall|k: int|
            0 <= k < self.passive.len() ==> {
                let i = #[trigger] self.passive[k];
                &&& i < self.objects.len()
                &&& !self.objects[i as int].locked
            }
        &&& self.passive.no_duplicates()
        &&& forall|i: int|
            0 <= i < self.objects.len() && #[trigger] self.objects[i].active
                ==> self.objects[i].alive
        &&& (self.stage != Stage::Uninitialized <==> self.graphics.is_some())
    }

    /// The object with index `id` exists, is alive and is not active.
    pub open spec fn can_activate(self, id: usize) -> bool {
        &&& id < self.objects.len()
        &&& self.objects[id as int].alive
        &&& !self.objects[id as int].active
    }

    /// The state after the object `id` is activated: it is marked active and,
    /// unless it is locked, appended to the active registry.
    pub open spec fn after_activation(self, id: usize) -> AppView {
        let m = self.objects[id as int];
        AppView {
            objects: self.objects.update(id as int, activated(m)),
            active: if m.locked {
                self.active
            } else {
                self.active.push(id)
            },
            ..self
        }
    }

    /// The state after the object `id` is deactivated: it is marked inactive
    /// and taken out of the active registry, the order of the rest kept.
    pub open spec fn after_deactivation(self, id: usize) -> AppView {
        AppView {
            objects: self.objects.update(id as int, deactivated(self.objects[id as int])),
            active: without(self.active, id),
            ..self
        }
    }

    /// The owner of the object `id`, if it names an object that is alive.
    pub open spec fn resolved_owner(self, id: usize) -> Option<usize> {
        match self.objects[id as int].owner {
            Some(o) => if o < self.objects.len() && self.objects[o as int].alive {
                Some(o)
            } else {
                None
            },
            None => None,
        }
    }
}

/// Taking an index out of a registry without repeats leaves one without
/// repeats, holding only entries of the registry other than that index.
proof fn lemma_without_no_duplicates(s: Seq<usize>, id: usize)
    requires
        s.no_duplicates(),
    ensures
        without(s, id).no_duplicates(),
        forall|x: usize| #[trigger] without(s, id).contains(x) ==> s.contains(x) && x != id,
    decreases s.len(),
{
    let p = other_than(id);
    assert forall|x: usize| #[trigger] without(s, id).contains(x) implies s.contains(x) && x != id by {
        s.lemma_filter_contains_rev(p, x);
        let k = choose|k: int| 0 <= k < s.filter(p).len() && s.filter(p)[k] == x;
        s.lemma_filter_pred(p, k);
    }
    if s.len() > 0 {
        let r = s.drop_last();
        assert(r.no_duplicates());
        lemma_without_no_duplicates(r, id);
        assert(s == r.push(s.last()));
        r.lemma_filter_push(s.last(), p);
        if p(s.last()) {
            assert(!r.contains(s.last()));
            assert(!without(r, id).contains(s.last()));
        }
    }
}

/// A registry that does not hold `id` is unchanged when `id` is taken out.
proof fn lemma_without_absent(s: Seq<usize>, id: usize)
    requires
        !s.contains(id),
    ensures
        without(s, id) == s,
    decreases s.len(),
{
    reveal(Seq::filter);
    if s.len() > 0 {
        let r = s.drop_last();
        assert(!r.contains(id)) by {
            if r.contains(id) {
                let k = choose|k: int| 0 <= k < r.len() && r[k] == id;
                assert(s[k] == id);
            }
        }
        lemma_without_absent(r, id);
        assert(s == r.push(s.last()));
        r.lemma_filter_push(s.last(), other_than(id));
        assert(s.last() != id) by {
            assert(s[s.len() - 1] == s.last());
        }
    }
}

/// Activation is one way: an object that was activated stays well-formed
/// with the rest, is marked active, and cannot be activated a second time;
/// the active registry still holds no object twice.
pub proof fn lemma_activation_is_one_way(v: AppView, id: usize)
    requires
        v.wf(),
        v.can_activate(id),
    ensures
        v.after_activation(id).wf(),
        v.after_activation(id).objects[id as int].active,
        !v.after_activation(id).can_activate(id),
        v.after_activation(id).active.no_duplicates(),
{
    lemma_activation_keeps_wf(v, id);
}

proof fn lemma_activation_keeps_wf(v: AppView, id: usize)
    requires
        v.wf(),
        v.can_activate(id),
    ensures
        v.after_activation(id).wf(),
{
    let w = v.after_activation(id);
    assert(!v.active.contains(id)) by {
        if v.active.contains(id) {
            let k = choose|k: int| 0 <= k < v.active.len() && v.active[k] == id;
            assert(v.objects[v.active[k] as int].active);
        }
    }
    assert forall|k: int| 0 <= k < w.active.len() implies {
        let i = #[trigger] w.active[k];
        &&& i < w.objects.len()
        &&& w.objects[i as int].active
        &&& !w.objects[i as int].locked
    } by {
        if k < v.active.len() {
            assert(w.active[k] == v.active[k]);
        }
    }
    assert forall|k: int| 0 <= k < w.passive.len() implies {
        let i = #[trigger] w.passive[k];
        &&& i < w.objects.len()
        &&& !w.objects[i as int].locked
    } by {
        assert(v.passive[k] < v.objects.len());
    }
}

/// An unlocked object that is activated appears in the active registry
/// exactly once, at its tail, behind every object registered before it.
pub proof fn lemma_unlocked_registered_once_at_tail(v: AppView, id: usize)
    requires
        v.wf(),
        v.can_activate(id),
        !v.objects[id as int].locked,
    ensures
        v.after_activation(id).active.len() == v.active.len() + 1,
        v.after_activation(id).active.last() == id,
        forall|k: int|
            0 <= k < v.active.len() ==> #[trigger] v.after_activation(id).active[k] == v.active[k]
                && v.active[k] != id,
{
    assert forall|k: int| 0 <= k < v.active.len() implies #[trigger] v.after_activation(
        id,
    ).active[k] == v.active[k] && v.active[k] != id by {
        assert(v.objects[v.active[k] as int].active);
    }
}

/// The active registry lists unlocked objects in the order in which they were
/// activated: activating `a` and then `b` appends `a`, then `b`.
pub proof fn lemma_registry_follows_activation_order(v: AppView, a: usize, b: usize)
    requires
        v.wf(),
        v.can_activate(a),
        !v.objects[a as int].locked,
        v.after_activation(a).can_activate(b),
        !v.after_activation(a).objects[b as int].locked,
    ensures
        v.after_activation(a).after_activation(b).active == v.active + seq![a, b],
        a != b,
{
    assert(v.after_activation(a).after_activation(b).active =~= v.active + seq![a, b]);
}

/// A locked object that is activated is in neither registry.
pub proof fn lemma_locked_registered_nowhere(v: AppView, id: usize)
    requires
        v.wf(),
        v.can_activate(id),
        v.objects[id as int].locked,
    ensures
        !v.after_activation(id).active.contains(id),
        !v.after_activation(id).passive.contains(id),
{
    assert(!v.active.contains(id)) by {
        if v.active.contains(id) {
            let k = choose|k: int| 0 <= k < v.active.len() && v.active[k] == id;
            assert(v.objects[v.active[k] as int].active);
        }
    }
    assert(!v.passive.contains(id)) by {
        if v.passive.contains(id) {
            let k = choose|k: int| 0 <= k < v.passive.len() && v.passive[k] == id;
            assert(!v.objects[v.passive[k] as int].locked);
        }
    }
}

/// Deactivation undoes activation: activating an object and then
/// deactivating it gives back the state before both.
pub proof fn lemma_deactivation_undoes_activation(v: AppView, id: usize)
    requires
        v.wf(),
        v.can_activate(id),
    ensures
        v.after_activation(id).after_deactivation(id) == v,
{
    let w = v.after_activation(id);
    assert(!v.active.contains(id)) by {
        if v.active.contains(id) {
            let k = choose|k: int| 0 <= k < v.active.len() && v.active[k] == id;
            assert(v.objects[v.active[k] as int].active);
        }
    }
    lemma_without_absent(v.active, id);
    if !v.objects[id as int].locked {
        v.active.lemma_filter_push(id, other_than(id));
    }
    assert(w.after_deactivation(id).objects =~= v.objects);
}

/// Deactivation takes the object out of the active registry and keeps the
/// registry free of repeats.
pub proof fn lemma_deactivation_unregisters(v: AppView, id: usize)
    requires
        v.wf(),
        id < v.objects.len(),
        v.objects[id as int].active,
    ensures
        !v.after_deactivation(id).active.contains(id),
        v.after_deactivation(id).active.no_duplicates(),
{
    lemma_without_no_duplicates(v.active, id);
}

/// The composition root: keeps the flags of its objects, the registries of
/// active and passive objects, and the bootstrap sequence.
pub struct Application {
    id: u64,
    metadata: Metadata,
    objects: Vec<Metadata>,
    active_objects: Vec<usize>,
    passive_objects: Vec<usize>,
    stage: Stage,
    graphics: Option<u64>,
    received: Ghost<Seq<Callback>>,
}

impl View for Application {
    type V = AppView;

    closed spec fn view(&self) -> AppView {
        AppView {
            id: self.id,
            metadata: self.metadata,
            objects: self.objects@,
            active: self.active_objects@,
            passive: self.passive_objects@,
            stage: self.stage,
            graphics: self.graphics,
        }
    }
}

impl Application {
    pub open spec fn wf(&self) -> bool {
        self@.wf()
    }

    /// An application with no objects, before its bootstrap sequence.
    pub fn new(id: u64) -> (r: Application)
        ensures
            r.wf(),
            r@ == (AppView {
                id,
                metadata: Metadata { alive: true, active: false, locked: false, owner: None },
                objects: Seq::empty(),
                active: Seq::empty(),
                passive: Seq::empty(),
                stage: Stage::Uninitialized,
                graphics: None,
            }),
            r.received() == Seq::<Callback>::empty(),
    {
        Application {
            id,
            metadata: Metadata { alive: true, active: false, locked: false, owner: None },
            objects: Vec::new(),
            active_objects: Vec::new(),
            passive_objects: Vec::new(),
            stage: Stage::Uninitialized,
            graphics: None,
            received: Ghost(Seq::empty()),
        }
    }

    pub fn id(&self) -> (r: u64)
        ensures
            r == self@.id,
    {
        self.id
    }

    /// The application's own flags.
    pub fn metadata(&self) -> (r: Metadata)
        ensures
            r == self@.metadata,
    {
        self.metadata
    }

    /// The active registry, in the order in which its objects were activated.
    pub fn active_objects(&self) -> (r: &Vec<usize>)
        ensures
            r@ == self@.active,
    {
        &self.active_objects
    }

    /// The passive registry: objects held but not driven.
    pub fn passive_objects(&self) -> (r: &Vec<usize>)
        ensures
            r@ == self@.passive,
    {
        &self.passive_objects
    }

    /// The number of objects created in this application.
    pub fn object_count(&self) -> (r: usize)
        ensures
            r == self@.objects.len(),
    {
        self.objects.len()
    }

    /// The flags of the object `id`.
    pub fn object_metadata(&self, id: usize) -> (r: Metadata)
        requires
            id < self@.objects.len(),
        ensures
            r == self@.objects[id as int],
    {
        self.objects[id]
    }

    /// The owner of the object `id`, or `None` where it names no owner or
    /// one that is no longer alive.
    pub fn owner_of(&self, id: usize) -> (r: Option<usize>)
        requires
            id < self@.objects.len(),
        ensures
            r == self@.resolved_owner(id),
    {
        match self.objects[id].owner {
            Some(o) => if o < self.objects.len() && self.objects[o].alive {
                Some(o)
            } else {
                None
            },
            None => None,
        }
    }

    /// Adds the flags of a new object, alive and not active, and returns its
    /// index.
    pub(crate) fn add_object(&mut self, locked: bool, owner: Option<usize>) -> (r: usize)
        requires
            old(self).wf(),
            old(self)@.objects.len() < usize::MAX,
        ensures
            final(self).wf(),
            r == old(self)@.objects.len(),
            final(self)@ == (AppView {
                objects: old(self)@.objects.push(
                    Metadata { alive: true, active: false, locked, owner },
                ),
                ..old(self)@
            }),
    {
        let r = self.objects.len();
        self.objects.push(Metadata { alive: true, active: false, locked, owner });
        assert forall|k: int| 0 <= k < self@.active.len() implies {
            let i = #[trigger] self@.active[k];
            &&& i < self@.objects.len()
            &&& self@.objects[i as int].active
            &&& !self@.objects[i as int].locked
        } by {
            assert(old(self)@.active[k] < old(self)@.objects.len());
        }
        assert forall|k: int| 0 <= k < self@.passive.len() implies {
            let i = #[trigger] self@.passive[k];
            &&& i < self@.objects.len()
            &&& !self@.objects[i as int].locked
        } by {
            assert(old(self)@.passive[k] < old(self)@.objects.len());
        }
        r
    }

    /// Marks the object `id` active.
    pub(crate) fn mark_active(&mut self, id: usize)
        requires
            old(self).wf(),
            old(self)@.can_activate(id),
        ensures
            final(self).wf(),
            final(self)@ == (AppView {
                objects: old(self)@.objects.update(id as int, activated(old(self)@.objects[id as int])),
                ..old(self)@
            }),
    {
        let m = self.objects[id];
        self.objects.set(id, Metadata { active: true, ..m });
        assert forall|k: int| 0 <= k < self@.active.len() implies {
            let i = #[trigger] self@.active[k];
            &&& i < self@.objects.len()
            &&& self@.objects[i as int].active
            &&& !self@.objects[i as int].locked
        } by {
            assert(old(self)@.active[k] < old(self)@.objects.len());
        }
        assert forall|k: int| 0 <= k < self@.passive.len() implies {
            let i = #[trigger] self@.passive[k];
            &&& i < self@.objects.len()
            &&& !self@.objects[i as int].locked
        } by {
            assert(old(self)@.passive[k] < old(self)@.objects.len());
        }
    }

    /// Appends the object `id`, which has just been marked active, to the
    /// tail of the active registry.
    pub(crate) fn register_active(&mut self, id: usize)
        requires
            old(self).wf(),
            id < old(self)@.objects.len(),
            old(self)@.objects[id as int].active,
            !old(self)@.objects[id as int].locked,
            !old(self)@.active.contains(id),
        ensures
            final(self).wf(),
            final(self)@ == (AppView { active: old(self)@.active.push(id), ..old(self)@ }),
    {
        self.active_objects.push(id);
        assert forall|k: int| 0 <= k < self@.active.len() implies {
            let i = #[trigger] self@.active[k];
            &&& i < self@.objects.len()
            &&& self@.objects[i as int].active
            &&& !self@.objects[i as int].locked
        } by {
            if k < old(self)@.active.len() {
                assert(self@.active[k] == old(self)@.active[k]);
            }
        }
    }

    /// Marks the object `id` inactive and takes it out of the active registry.
    pub(crate) fn mark_inactive(&mut self, id: usize)
        requires
            old(self).wf(),
            id < old(self)@.objects.len(),
            old(self)@.objects[id as int].active,
        ensures
            final(self).wf(),
            final(self)@ == old(self)@.after_deactivation(id),
    {
        let ghost before = self@;
        let mut kept: Vec<usize> = Vec::new();
        let mut i: usize = 0;
        while i < self.active_objects.len()
            invariant
                self@ == before,
                0 <= i <= before.active.len(),
                kept@ == without(before.active.take(i as int), id),
            decreases before.active.len() - i,
        {
            let x = self.active_objects[i];
            proof {
                assert(before.active.take(i + 1) =~= before.active.take(i as int).push(x));
                before.active.take(i as int).lemma_filter_push(x, other_than(id));
            }
            if x != id {
                kept.push(x);
            }
            i = i + 1;
        }
        proof {
            assert(before.active.take(before.active.len() as int) =~= before.active);
            lemma_without_no_duplicates(before.active, id);
        }
        self.active_objects = kept;
        let m = self.objects[id];
        self.objects.set(id, Metadata { active: false, ..m });
        assert forall|k: int| 0 <= k < self@.active.len() implies {
            let j = #[trigger] self@.active[k];
            &&& j < self@.objects.len()
            &&& self@.objects[j as int].active
            &&& !self@.objects[j as int].locked
        } by {
            let j = self@.active[k];
            assert(without(before.active, id).contains(j));
            let kk = choose|kk: int| 0 <= kk < before.active.len() && before.active[kk] == j;
            assert(before.objects[before.active[kk] as int].active);
        }
        assert forall|k: int| 0 <= k < self@.passive.len() implies {
            let j = #[trigger] self@.passive[k];
            &&& j < self@.objects.len()
            &&& !self@.objects[j as int].locked
        } by {
            assert(before.passive[k] < before.objects.len());
        }
        assert(self@.objects =~= before.after_deactivation(id).objects);
    }

    /// Marks the object `id`, which is not active, as no longer alive.
    pub(crate) fn mark_destroyed(&mut self, id: usize)
        requires
            old(self).wf(),
            id < old(self)@.objects.len(),
            !old(self)@.objects[id as int].active,
        ensures
            final(self).wf(),
            final(self)@ == (AppView {
                objects: old(self)@.objects.update(id as int, destroyed(old(self)@.objects[id as int])),
                ..old(self)@
            }),
    {
        let m = self.objects[id];
        self.objects.set(id, Metadata { alive: false, ..m });
        assert forall|k: int| 0 <= k < self@.active.len() implies {
            let i = #[trigger] self@.active[k];
            &&& i < self@.objects.len()
            &&& self@.objects[i as int].active
            &&& !self@.objects[i as int].locked
        } by {
            assert(old(self)@.active[k] < old(self)@.objects.len());
        }
        assert forall|k: int| 0 <= k < self@.passive.len() implies {
            let i = #[trigger] self@.passive[k];
            &&& i < self@.objects.len()
            &&& !self@.objects[i as int].locked
        } by {
            assert(old(self)@.passive[k] < old(self)@.objects.len());
        }
    }
    /// The outside call that is due next in the bootstrap sequence, or `None`
    /// once the scene has been terminated.
    pub fn next_step(&self) -> (r: Option<Step>)
        ensures
            r == step_due(self@.stage),
    {
        match self.stage {
            Stage::Uninitialized => Some(Step::CreateGraphics),
            Stage::GraphicsCreated => Some(Step::CreateWindow),
            Stage::WindowCreated => Some(Step::CreateLauncherScene),
            Stage::SceneLaunched => Some(Step::LaunchScene),
            Stage::Running => Some(Step::TerminateScene),
            Stage::SceneTerminated => None,
        }
    }

    pub fn stage(&self) -> (r: Stage)
        ensures
            r == self@.stage,
    {
        self.stage
    }

    /// The graphics handle, once the graphics subsystem has handed it over.
    pub fn graphics(&self) -> (r: Option<u64>)
        ensures
            r == self@.graphics,
    {
        self.graphics
    }

    /// Records the handle that the graphics subsystem created.
    pub fn create_graphics(&mut self, graphics: u64)
        requires
            old(self).wf(),
            step_due(old(self)@.stage) == Some(Step::CreateGraphics),
        ensures
            final(self).wf(),
            final(self)@ == (AppView {
                stage: stage_after(Step::CreateGraphics),
                graphics: Some(graphics),
                ..old(self)@
            }),
    {
        self.graphics = Some(graphics);
        self.stage = Stage::GraphicsCreated;
    }

    /// Records that the window was created on the graphics handle.
    pub fn create_window(&mut self)
        requires
            old(self).wf(),
            step_due(old(self)@.stage) == Some(Step::CreateWindow),
        ensures
            final(self).wf(),
            final(self)@ == (AppView { stage: stage_after(Step::CreateWindow), ..old(self)@ }),
    {
        self.stage = Stage::WindowCreated;
    }

    /// Records that the launcher scene was built.
    pub fn create_launcher_scene(&mut self)
        requires
            old(self).wf(),
            step_due(old(self)@.stage) == Some(Step::CreateLauncherScene),
        ensures
            final(self).wf(),
            final(self)@ == (AppView { stage: stage_after(Step::CreateLauncherScene), ..old(self)@ }),
    {
        self.stage = Stage::SceneLaunched;
    }

    /// Records that the scene was launched: the application is now running.
    pub fn launch_scene(&mut self)
        requires
            old(self).wf(),
            step_due(old(self)@.stage) == Some(Step::LaunchScene),
        ensures
            final(self).wf(),
            final(self)@ == (AppView { stage: stage_after(Step::LaunchScene), ..old(self)@ }),
    {
        self.stage = Stage::Running;
    }

    /// Records that the scene was torn down.
    pub fn terminate_scene(&mut self)
        requires
            old(self).wf(),
            step_due(old(self)@.stage) == Some(Step::TerminateScene),
        ensures
            final(self).wf(),
            final(self)@ == (AppView { stage: stage_after(Step::TerminateScene), ..old(self)@ }),
    {
        self.stage = Stage::SceneTerminated;
    }
}

/// The application is the root: it has no application of its own. Its
/// callbacks change nothing but the record of what it received.
impl BaseObject for Application {
    closed spec fn received(&self) -> Seq<Callback> {
        self.received@
    }

    open spec fn owning_application(&self) -> Option<u64> {
        None
    }

    fn application(&self) -> (r: Option<u64>) {
        None
    }

    fn on_create(&mut self)
        ensures
            final(self)@ == old(self)@,
    {
        self.received = Ghost(self.received@.push(Callback::Create));
    }

    fn on_start(&mut self)
        ensures
            final(self)@ == old(self)@,
    {
        self.received = Ghost(self.received@.push(Callback::Start));
    }

    fn on_update(&mut self)
        ensures
            final(self)@ == old(self)@,
    {
        self.received = Ghost(self.received@.push(Callback::Update));
    }

    fn on_stop(&mut self)
        ensures
            final(self)@ == old(self)@,
    {
        self.received = Ghost(self.received@.push(Callback::Stop));
    }

    fn on_destroy(&mut self)
        ensures
            final(self)@ == old(self)@,
    {
        self.received = Ghost(self.received@.push(Callback::Destroy));
    }

    fn on_active(&mut self)
        ensures
            final(self)@ == old(self)@,
    {
        self.received = Ghost(self.received@.push(Callback::Active));
    }

    fn on_deactive(&mut self)
        ensures
            final(self)@ == old(self)@,
    {
        self.received = Ghost(self.received@.push(Callback::Deactive));
    }
}

} // verus!
