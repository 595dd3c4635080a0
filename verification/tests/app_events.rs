use nbody_sim::app::{App, AppAction, PhysicalKey, WindowEvent};

#[test]
fn new_app_has_no_engine() {
    let app: App<u32> = App::new();
    assert!(!app.has_engine());
}

#[test]
fn events_before_engine_are_ignored() {
    let app: App<u32> = App::new();
    let events: Vec<WindowEvent<char>> = vec![
        WindowEvent::CloseRequested,
        WindowEvent::Resized { width: 800, height: 600 },
        WindowEvent::RedrawRequested,
        WindowEvent::KeyboardInput { key: PhysicalKey::Code('w'), pressed: true },
        WindowEvent::Other,
    ];
    for event in events {
        assert!(matches!(app.window_event(event), AppAction::Ignore));
    }
}

#[test]
fn close_exits_once_engine_exists() {
    let mut app: App<u32> = App::new();
    app.user_event(7);
    assert!(app.has_engine());
    let action = app.window_event::<char>(WindowEvent::CloseRequested);
    assert!(matches!(action, AppAction::Exit));
}

#[test]
fn resize_and_redraw_go_to_engine() {
    let mut app: App<u32> = App::new();
    app.user_event(1);
    let action = app.window_event::<char>(WindowEvent::Resized { width: 1024, height: 768 });
    assert!(matches!(action, AppAction::Resize { width: 1024, height: 768 }));
    let action = app.window_event::<char>(WindowEvent::RedrawRequested);
    assert!(matches!(action, AppAction::Redraw));
}

#[test]
fn named_key_goes_to_engine_unnamed_is_ignored() {
    let mut app: App<u32> = App::new();
    app.user_event(1);
    let action = app.window_event(WindowEvent::KeyboardInput {
        key: PhysicalKey::Code('q'),
        pressed: false,
    });
    assert!(matches!(action, AppAction::Key { code: 'q', pressed: false }));
    let action = app.window_event::<char>(WindowEvent::KeyboardInput {
        key: PhysicalKey::Unidentified,
        pressed: true,
    });
    assert!(matches!(action, AppAction::Ignore));
    let action = app.window_event::<char>(WindowEvent::Other);
    assert!(matches!(action, AppAction::Ignore));
}

#[test]
fn engine_mut_reaches_the_engine() {
    let mut app: App<u32> = App::new();
    assert!(app.engine_mut().is_none());
    app.user_event(3);
    if let Some(engine) = app.engine_mut() {
        *engine = 9;
    }
    assert_eq!(app.engine_mut().map(|e| *e), Some(9));
    app.user_event(4);
    assert_eq!(app.engine_mut().map(|e| *e), Some(4));
}
