use vstd::prelude::*;

use crate::application::{destroyed, AppView, Application};

verus! {

/// The lifecycle callbacks that an object can receive.
#[derive(Debug, Clone, Copy, PartialEq, Eq, Structural)]
pub enum Callback {
    Create,
    Start,
    Update,
    Stop,
    Destroy,
    Active,
    Deactive,
}

/// Lifecycle flags of one object, kept by its application.
///
/// `owner` names the logical parent by its index in the same application. It
/// is advisory only: it never keeps the parent alive, and a parent that cannot
/// be resolved simply means "no owner".
#[derive(Debug, Clone, Copy, PartialEq, Eq, Structural)]
pub struct Metadata {
    pub alive: bool,
    pub active: bool,
    pub locked: bool,
    pub owner: Option<usize>,
}

/// The lifecycle contract of every component.
///
/// `received` is the sequence of callbacks that the component has been handed,
/// oldest first. Each callback appends exactly its own kind to it, so an
/// implementation that forwards to another component must forward each call
/// once and in order.
pub trait BaseObject {
    spec fn received(&self) -> Seq<Callback>;

    /// The identifier of the owning application, if there is one.
    spec fn owning_application(&self) -> Option<u64>;

    fn application(&self) -> (r: Option<u64>)
        ensures
            r == self.owning_application(),
    ;

    fn on_create(&mut self)
        ensures
            final(self).received() == old(self).received().push(Callback::Create),
            final(self).owning_application() == old(self).owning_application(),
    ;

    fn on_start(&mut self)
        ensures
            final(self).received() == old(self).received().push(Callback::Start),
            final(self).owning_application() == old(self).owning_application(),
    ;

    fn on_update(&mut self)
        ensures
            final(self).received() == old(self).received().push(Callback::Update),
            final(self).owning_application() == old(self).owning_application(),
    ;

    fn on_stop(&mut self)
        ensures
            final(self).received() == old(self).received().push(Callback::Stop),
            final(self).owning_application() == old(self).owning_application(),
    ;

    fn on_destroy(&mut self)
        ensures
            final(self).received() == old(self).received().push(Callback::Destroy),
            final(self).owning_application() == old(self).owning_application(),
    ;

    fn on_active(&mut self)
        ensures
            final(self).received() == old(self).received().push(Callback::Active),
            final(self).owning_application() == old(self).owning_application(),
    ;

    fn on_deactive(&mut self)
        ensures
            final(self).received() == old(self).received().push(Callback::Deactive),
            final(self).owning_application() == old(self).owning_application(),
    ;
}

/// A behavior that keeps the callbacks it receives, in order.
pub struct Recorder {
    calls: Vec<Callback>,
}

impl Recorder {
    pub fn new() -> (r: Recorder)
        ensures
            r.received() == Seq::<Callback>::empty(),
    {
        Recorder { calls: Vec::new() }
    }

    /// The callbacks received so far, oldest first.
    pub fn calls(&self) -> (r: &Vec<Callback>)
        ensures
            r@ == self.received(),
    {
        &self.calls
    }
}

impl BaseObject for Recorder {
    closed spec fn received(&self) -> Seq<Callback> {
        self.calls@
    }

    open spec fn owning_application(&self) -> Option<u64> {
        None
    }

    fn application(&self) -> (r: Option<u64>) {
        None
    }

    fn on_create(&mut self) {
        self.calls.push(Callback::Create);
    }

    fn on_start(&mut self) {
        self.calls.push(Callback::Start);
    }

    fn on_update(&mut self) {
        self.calls.push(Callback::Update);
    }

    fn on_stop(&mut self) {
        self.calls.push(Callback::Stop);
    }

    fn on_destroy(&mut self) {
        self.calls.push(Callback::Destroy);
    }

    fn on_active(&mut self) {
        self.calls.push(Callback::Active);
    }

    fn on_deactive(&mut self) {
        self.calls.push(Callback::Deactive);
    }
}

/// A behavior `T` attached to an application, with lifecycle flags.
///
/// The flags live in the application under the object's index, so that the
/// application can tell at every moment which of its objects are active.
pub struct Object<T> {
    id: usize,
    application: u64,
    inner: T,
}

impl<T: BaseObject> Object<T> {
    /// The object's index in its application.
    pub closed spec fn index(&self) -> usize {
        self.id
    }

    /// The identifier of the application the object belongs to.
    pub closed spec fn application_id(&self) -> u64 {
        self.application
    }

    /// The wrapped behavior.
    pub closed spec fn behavior(&self) -> T {
        self.inner
    }

    /// The object is one of `app`'s.
    pub open spec fn belongs_to(&self, app: AppView) -> bool {
        &&& self.application_id() == app.id
        &&& self.index() < app.objects.len()
    }

    /// Wraps `inner` as a new object of `app`, alive and not yet active.
    pub fn new(app: &mut Application, inner: T, locked: bool, owner: Option<usize>) -> (r: Object<T>)
        requires
            old(app).wf(),
            old(app)@.objects.len() < usize::MAX,
        ensures
            final(app).wf(),
            final(app)@ == (AppView {
                objects: old(app)@.objects.push(
                    Metadata { alive: true, active: false, locked, owner },
                ),
                ..old(app)@
            }),
            r.index() == old(app)@.objects.len(),
            r.application_id() == old(app)@.id,
            r.behavior() == inner,
    {
        let id = app.add_object(locked, owner);
        Object { id, application: app.id(), inner }
    }

    pub fn id(&self) -> (r: usize)
        ensures
            r == self.index(),
    {
        self.id
    }

    pub fn inner(&self) -> (r: &T)
        ensures
            *r == self.behavior(),
    {
        &self.inner
    }

    /// Whether `active` may be called on the object: it belongs to `app`, is
    /// alive, and is not active yet.
    pub fn can_activate(&self, app: &Application) -> (r: bool)
        ensures
            r == (self.belongs_to(app@) && app@.can_activate(self.index())),
    {
        self.application == app.id() && self.id < app.object_count() && {
            let m = app.object_metadata(self.id);
            m.alive && !m.active
        }
    }

    /// Activates the object.
    ///
    /// It is marked active, then its behavior is told so while nothing else
    /// can reach it, and only then, unless it is locked, is it appended to
    /// the tail of the application's active registry. A locked object is
    /// registered nowhere. Once active it cannot be activated again.
    pub fn active(self, app: &mut Application) -> (r: Object<T>)
        requires
            old(app).wf(),
            self.application_id() == old(app)@.id,
            old(app)@.can_activate(self.index()),
        ensures
            final(app).wf(),
            final(app)@ == old(app)@.after_activation(self.index()),
            r.index() == self.index(),
            r.application_id() == self.application_id(),
            r.received() == self.received().push(Callback::Active),
            !final(app)@.can_activate(r.index()),
    {
        let mut this = self;
        app.mark_active(this.id);
        this.inner.on_active();
        let locked = app.object_metadata(this.id).locked;
        if !locked {
            app.register_active(this.id);
        }
        proof {
            assert(app@.objects =~= old(app)@.after_activation(this.index()).objects);
        }
        this
    }

    /// Deactivates the object.
    ///
    /// It is taken out of the active registry, the order of the others kept,
    /// and marked inactive; then its behavior is told so.
    pub fn deactive(&mut self, app: &mut Application)
        requires
            old(app).wf(),
            old(self).belongs_to(old(app)@),
            old(app)@.objects[old(self).index() as int].active,
        ensures
            final(app).wf(),
            final(app)@ == old(app)@.after_deactivation(old(self).index()),
            final(self).index() == old(self).index(),
            final(self).application_id() == old(self).application_id(),
            final(self).received() == old(self).received().push(Callback::Deactive),
    {
        app.mark_inactive(self.id);
        self.inner.on_deactive();
    }

    /// Releases an object that is not active: its behavior is told so, it is
    /// marked as no longer alive, and the behavior is handed back.
    pub fn destroy(self, app: &mut Application) -> (r: T)
        requires
            old(app).wf(),
            self.belongs_to(old(app)@),
            !old(app)@.objects[self.index() as int].active,
        ensures
            final(app).wf(),
            final(app)@ == (AppView {
                objects: old(app)@.objects.update(
                    self.index() as int,
                    destroyed(old(app)@.objects[self.index() as int]),
                ),
                ..old(app)@
            }),
            r.received() == self.received().push(Callback::Destroy),
    {
        let mut this = self;
        this.inner.on_destroy();
        app.mark_destroyed(this.id);
        this.inner
    }
}

/// Every callback goes to the wrapped behavior, once and unchanged;
/// `application` answers with the object's own application instead.
impl<T: BaseObject> BaseObject for Object<T> {
    open spec fn received(&self) -> Seq<Callback> {
        self.behavior().received()
    }

    open spec fn owning_application(&self) -> Option<u64> {
        Some(self.application_id())
    }

    fn application(&self) -> (r: Option<u64>) {
        Some(self.application)
    }

    fn on_create(&mut self)
        ensures
            final(self).index() == old(self).index(),
    {
        self.inner.on_create()
    }

    fn on_start(&mut self)
        ensures
            final(self).index() == old(self).index(),
    {
        self.inner.on_start()
    }

    fn on_update(&mut self)
        ensures
            final(self).index() == old(self).index(),
    {
        self.inner.on_update()
    }

    fn on_stop(&mut self)
        ensures
            final(self).index() == old(self).index(),
    {
        self.inner.on_stop()
    }

    fn on_destroy(&mut self)
        ensures
            final(self).index() == old(self).index(),
    {
        self.inner.on_destroy()
    }

    fn on_active(&mut self)
        ensures
            final(self).index() == old(self).index(),
    {
        self.inner.on_active()
    }

    fn on_deactive(&mut self)
        ensures
            final(self).index() == old(self).index(),
    {
        self.inner.on_deactive()
    }
}

} // verus!
