//! The verified core of an n-body simulation viewer: the window-event
//! decisions of the application, the surface bookkeeping of the renderer and
//! the integer topology of the sphere mesh that draws each body.
pub mod app;
pub mod engine;
pub mod state;
