//! The application shell: it owns the rendering engine once one exists and
//! decides, for every window event, what the engine or the event loop must do.
use vstd::prelude::*;

verus! {

/// The physical key behind a keyboard event, as the window system reports it.
/// `K` is the key-code type of the window system.
pub enum PhysicalKey<K> {
    /// A key the window system could name.
    Code(K),
    /// A key the window system could not name.
    Unidentified,
}

/// The window events the application reacts to; every other event is `Other`.
pub enum WindowEvent<K> {
    /// The user asked to close the window.
    CloseRequested,
    /// The drawable area of the window changed to `width` x `height` pixels.
    Resized { width: u32, height: u32 },
    /// The window system asks for a new frame.
    RedrawRequested,
    /// A key was pressed (`pressed == true`) or released.
    KeyboardInput { key: PhysicalKey<K>, pressed: bool },
    /// Any other event.
    Other,
}

/// What the caller must do in answer to one window event.
pub enum AppAction<K> {
    /// Nothing.
    Ignore,
    /// Leave the event loop.
    Exit,
    /// Hand the new size to the engine.
    Resize { width: u32, height: u32 },
    /// Advance the engine by one step, then render a frame.
    Redraw,
    /// Hand the key to the engine.
    Key { code: K, pressed: bool },
}

/// The action that answers `event` while the engine is present (`has_engine`)
/// or absent.
pub open spec fn action_for<K>(has_engine: bool, event: WindowEvent<K>) -> AppAction<K> {
    if !has_engine {
        AppAction::Ignore
    } else {
        match event {
            WindowEvent::CloseRequested => AppAction::Exit,
            WindowEvent::Resized { width, height } => AppAction::Resize { width, height },
            WindowEvent::RedrawRequested => AppAction::Redraw,
            WindowEvent::KeyboardInput { key: PhysicalKey::Code(code), pressed } => AppAction::Key {
                code,
                pressed,
            },
            _ => AppAction::Ignore,
        }
    }
}

/// Before the engine exists every event is ignored, whatever it is.
pub proof fn lemma_no_engine_ignores<K>(event: WindowEvent<K>)
    ensures
        action_for(false, event) is Ignore,
{
}

/// With the engine present, a close request exits and a redraw request
/// redraws; an unnamed key and any other event are ignored.
pub proof fn lemma_engine_close_redraw_other<K>(pressed: bool)
    ensures
        action_for(true, WindowEvent::<K>::CloseRequested) is Exit,
        action_for(true, WindowEvent::<K>::RedrawRequested) is Redraw,
        action_for(true, WindowEvent::<K>::Other) is Ignore,
        action_for(
            true,
            WindowEvent::<K>::KeyboardInput { key: PhysicalKey::Unidentified, pressed },
        ) is Ignore,
{
}

/// With the engine present, a new window size is handed on unchanged: width
/// as width, height as height, for every size.
pub proof fn lemma_engine_resize_passes_size<K>(width: u32, height: u32)
    ensures
        action_for(true, WindowEvent::<K>::Resized { width, height }) matches AppAction::Resize {
            width: w,
            height: h,
        } && w == width && h == height,
{
}

/// With the engine present, a named key goes to the engine with its own code
/// and its own state, pressed or released alike.
pub proof fn lemma_engine_key_reaches_engine<K>(code: K, pressed: bool)
    ensures
        action_for(true, WindowEvent::KeyboardInput { key: PhysicalKey::Code(code), pressed })
            matches AppAction::Key { code: c, pressed: p } && c == code && p == pressed,
{
}

/// The application: empty until the engine has been created, then holding it.
pub struct App<E> {
    engine: Option<E>,
}

impl<E> App<E> {
    /// The engine the application holds, if any.
    pub closed spec fn engine_spec(&self) -> Option<E> {
        self.engine
    }

    /// An application that holds no engine yet.
    pub fn new() -> (app: Self)
        ensures
            app.engine_spec() is None,
    {
        App { engine: None }
    }

    /// Takes the engine that was created for the window; it replaces any
    /// engine held before.
    pub fn user_event(&mut self, engine: E)
        ensures
            final(self).engine_spec() == Some(engine),
    {
        self.engine = Some(engine);
    }

    /// Whether the engine exists.
    pub fn has_engine(&self) -> (b: bool)
        ensures
            b == (self.engine_spec() is Some),
    {
        self.engine.is_some()
    }

    /// The engine, for the caller to act on.
    pub fn engine_mut(&mut self) -> (r: Option<&mut E>)
        ensures
            r is Some <==> old(self).engine_spec() is Some,
            old(self).engine_spec() is Some ==> *r.unwrap() == old(self).engine_spec().unwrap(),
            final(self).engine_spec() is Some <==> old(self).engine_spec() is Some,
            r is Some ==> final(self).engine_spec() == Some(*final(r.unwrap())),
    {
        self.engine.as_mut()
    }

    /// Decides what answers `event`: nothing before the engine exists; then
    /// closing exits, resizing resizes, a redraw request updates and renders,
    /// a named key goes to the engine, and everything else is ignored.
    pub fn window_event<K>(&self, event: WindowEvent<K>) -> (action: AppAction<K>)
        ensures
            action == action_for(self.engine_spec() is Some, event),
    {
        if self.engine.is_none() {
            return AppAction::Ignore;
        }
        match event {
            WindowEvent::CloseRequested => AppAction::Exit,
            WindowEvent::Resized { width, height } => AppAction::Resize { width, height },
            WindowEvent::RedrawRequested => AppAction::Redraw,
            WindowEvent::KeyboardInput { key: PhysicalKey::Code(code), pressed } => AppAction::Key {
                code,
                pressed,
            },
            _ => AppAction::Ignore,
        }
    }
}

} // verus!
