use engine::application::{Application, Stage, Step};
use engine::base_object::{BaseObject, Callback, Metadata, Object, Recorder};

#[test]
fn unlocked_activation_registers_once() {
    let mut app = Application::new(3);
    let a = Object::new(&mut app, Recorder::new(), false, None);
    assert!(a.can_activate(&app));
    let a = a.active(&mut app);
    assert_eq!(app.active_objects().len(), 1);
    assert_eq!(app.active_objects()[0], a.id());
    assert_eq!(a.application(), Some(app.id()));
    assert_eq!(app.passive_objects().len(), 0);
}

#[test]
fn locked_activation_registers_nowhere() {
    let mut app = Application::new(3);
    let b = Object::new(&mut app, Recorder::new(), true, None);
    let b = b.active(&mut app);
    assert_eq!(app.active_objects().len(), 0);
    assert_eq!(app.passive_objects().len(), 0);
    assert!(app.object_metadata(b.id()).active);
}

#[test]
fn second_activation_is_refused() {
    let mut app = Application::new(3);
    let a = Object::new(&mut app, Recorder::new(), false, None);
    let a = a.active(&mut app);
    assert!(!a.can_activate(&app));
    assert_eq!(app.active_objects().len(), 1);
}

#[test]
fn registry_keeps_activation_order() {
    let mut app = Application::new(1);
    let a = Object::new(&mut app, Recorder::new(), false, None);
    let b = Object::new(&mut app, Recorder::new(), false, None);
    let c = Object::new(&mut app, Recorder::new(), true, None);
    let d = Object::new(&mut app, Recorder::new(), false, None);
    let b = b.active(&mut app);
    let c = c.active(&mut app);
    let d = d.active(&mut app);
    let a = a.active(&mut app);
    assert_eq!(app.active_objects().clone(), vec![b.id(), d.id(), a.id()]);
    assert!(!app.active_objects().contains(&c.id()));
}

#[test]
fn on_active_runs_once_per_activation() {
    let mut app = Application::new(1);
    let a = Object::new(&mut app, Recorder::new(), false, None);
    assert_eq!(a.inner().calls().len(), 0);
    let a = a.active(&mut app);
    assert_eq!(a.inner().calls().clone(), vec![Callback::Active]);
}

#[test]
fn lifecycle_calls_are_forwarded_in_order() {
    let mut app = Application::new(1);
    let mut a = Object::new(&mut app, Recorder::new(), false, None);
    a.on_create();
    a.on_start();
    a.on_update();
    a.on_update();
    a.on_stop();
    a.on_destroy();
    assert_eq!(
        a.inner().calls().clone(),
        vec![
            Callback::Create,
            Callback::Start,
            Callback::Update,
            Callback::Update,
            Callback::Stop,
            Callback::Destroy,
        ]
    );
}

#[test]
fn deactivation_unregisters_and_keeps_order() {
    let mut app = Application::new(1);
    let a = Object::new(&mut app, Recorder::new(), false, None).active(&mut app);
    let mut b = Object::new(&mut app, Recorder::new(), false, None).active(&mut app);
    let c = Object::new(&mut app, Recorder::new(), false, None).active(&mut app);
    b.deactive(&mut app);
    assert_eq!(app.active_objects().clone(), vec![a.id(), c.id()]);
    assert!(!app.object_metadata(b.id()).active);
    assert_eq!(
        b.inner().calls().clone(),
        vec![Callback::Active, Callback::Deactive]
    );
    assert!(b.can_activate(&app));
}

#[test]
fn destroyed_object_cannot_be_activated() {
    let mut app = Application::new(1);
    let a = Object::new(&mut app, Recorder::new(), false, None);
    let id = a.id();
    let inner = a.destroy(&mut app);
    assert_eq!(inner.calls().clone(), vec![Callback::Destroy]);
    assert!(!app.object_metadata(id).alive);
    assert_eq!(app.active_objects().len(), 0);
}

#[test]
fn object_of_another_application_cannot_be_activated() {
    let mut app = Application::new(1);
    let other = Application::new(2);
    let a = Object::new(&mut app, Recorder::new(), false, None);
    assert!(!a.can_activate(&other));
}

#[test]
fn owner_resolves_only_while_alive() {
    let mut app = Application::new(1);
    let parent = Object::new(&mut app, Recorder::new(), false, None);
    let parent_id = parent.id();
    let child = Object::new(&mut app, Recorder::new(), true, Some(parent_id));
    let stray = Object::new(&mut app, Recorder::new(), true, Some(40));
    assert_eq!(app.owner_of(child.id()), Some(parent_id));
    assert_eq!(app.owner_of(stray.id()), None);
    assert_eq!(app.owner_of(parent_id), None);
    parent.destroy(&mut app);
    assert_eq!(app.owner_of(child.id()), None);
}

#[test]
fn new_objects_are_alive_and_inactive() {
    let mut app = Application::new(1);
    let a = Object::new(&mut app, Recorder::new(), true, Some(0));
    assert_eq!(app.object_count(), 1);
    assert_eq!(
        app.object_metadata(a.id()),
        Metadata { alive: true, active: false, locked: true, owner: Some(0) }
    );
}

#[test]
fn bootstrap_runs_each_step_once_in_order() {
    let mut app = Application::new(1);
    let mut seen = Vec::new();
    while let Some(step) = app.next_step() {
        seen.push(step);
        match step {
            Step::CreateGraphics => app.create_graphics(11),
            Step::CreateWindow => app.create_window(),
            Step::CreateLauncherScene => app.create_launcher_scene(),
            Step::LaunchScene => {
                assert_eq!(app.stage(), Stage::SceneLaunched);
                app.launch_scene();
                assert_eq!(app.stage(), Stage::Running);
            }
            Step::TerminateScene => app.terminate_scene(),
        }
    }
    assert_eq!(
        seen,
        vec![
            Step::CreateGraphics,
            Step::CreateWindow,
            Step::CreateLauncherScene,
            Step::LaunchScene,
            Step::TerminateScene,
        ]
    );
    assert_eq!(app.stage(), Stage::SceneTerminated);
    assert_eq!(app.graphics(), Some(11));
}

#[test]
fn application_is_its_own_root() {
    let mut app = Application::new(5);
    assert_eq!(app.application(), None);
    app.on_update();
    assert_eq!(app.stage(), Stage::Uninitialized);
    assert!(app.metadata().alive);
}
