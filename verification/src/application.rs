//! The application and its handles, the settings it is initialized with, and
//! the record of those settings handed to C.

use vstd::prelude::*;
use vstd::utf8::encode_utf8;
use crate::cbw::{cbw_ApplicationSettings, cbw_CStrSlice};

verus! {

/// The application functions of a browser framework.
/// Everything they change lives in the framework's own application.
pub trait ApplicationExt {
    /// Asserts if not on the GUI thread.
    fn assert_correct_thread(&self);

    /// Causes the main loop to exit and lets it return the given code.
    fn exit(&self, exit_code: i32);

    /// Same as `exit`, but is thread-safe.
    fn exit_threadsafe(&self, exit_code: i32);

    /// Shuts down all application processes and performs necessary clean-up
    /// code.
    fn free(&self);

    /// When this is called, the runtime will exit as soon as there are no
    /// more windows left.
    fn mark_as_done(&self);
}

/// A thread-unsafe application handle.
#[derive(Clone)]
pub struct ApplicationHandle<A> {
    pub inner: A,
}

/// Use this to initialize and start your application with.
pub struct Application<A> {
    pub handle: ApplicationHandle<A>,
}

/// A thread-safe application handle.
#[derive(Clone)]
pub struct ApplicationHandleThreaded<A> {
    pub handle: ApplicationHandle<A>,
}

/// The runtime to run the application with.
pub struct Runtime<A> {
    pub handle: ApplicationHandle<A>,
}

/// Implemented by all handles that are able to return an `ApplicationHandle`.
pub trait HasAppHandle<A> {
    fn app_handle(&self) -> (r: &ApplicationHandle<A>);
}

impl<A> HasAppHandle<A> for ApplicationHandle<A> {
    fn app_handle(&self) -> (r: &ApplicationHandle<A>)
        ensures
            r == self,
    {
        self
    }
}

impl<A: ApplicationExt + Clone> Application<A> {
    /// Constructs an `Application` from the handle of the framework.
    pub fn from_core_handle(inner: A) -> (r: Self)
        ensures
            r.handle.inner == inner,
    {
        Self { handle: ApplicationHandle::new(inner) }
    }

    /// Shuts down other processes and performs any necessary clean-up code.
    pub fn finish(self) {
        self.handle.inner.free();
    }

    /// Creates a `Runtime` from which you can run the application.
    pub fn start(&self) -> (r: Runtime<A>)
        ensures
            cloned(self.handle.inner, r.handle.inner),
    {
        Runtime { handle: ApplicationHandle { inner: self.handle.inner.clone() } }
    }
}

impl<A: ApplicationExt> ApplicationHandle<A> {
    pub fn new(inner: A) -> (r: Self)
        ensures
            r.inner == inner,
    {
        Self { inner }
    }

    /// Causes the `Runtime` to terminate, returning the given exit code.
    pub fn exit(&self, exit_code: i32) {
        self.inner.exit(exit_code);
    }

    /// Transforms this application handle into a thread-safe version of it.
    pub fn into_threaded(self) -> (r: ApplicationHandleThreaded<A>)
        ensures
            r.handle == self,
    {
        ApplicationHandleThreaded { handle: self }
    }
}

impl<A: ApplicationExt> ApplicationHandleThreaded<A> {
    /// Constructs a thread-safe handle from the handle of the framework.
    pub fn from_core_handle(inner: A) -> (r: Self)
        ensures
            r.handle.inner == inner,
    {
        Self { handle: ApplicationHandle::new(inner) }
    }

    /// Signals the runtime to exit, returning the given exit code; this may
    /// be called from any thread.
    pub fn exit(&self, exit_code: i32) {
        self.handle.inner.exit_threadsafe(exit_code);
    }

    /// The thread-unsafe handle inside.
    pub fn handle(&self) -> (r: &ApplicationHandle<A>)
        ensures
            *r == self.handle,
    {
        &self.handle
    }
}

/// The settings an application is initialized with.
pub struct ApplicationSettings {
    /// CEF only: the path of the separate executable that is compiled
    /// together with the main executable; none if not set.
    pub engine_seperate_executable_path: Option<String>,
    /// Where the browser framework looks for resources; the directory of the
    /// executable if not set.
    pub resource_dir: Option<String>,
    /// CEF only: the port of remote debugging, if enabled.
    pub remote_debugging_port: Option<u16>,
}

impl Default for ApplicationSettings {
    fn default() -> (r: Self)
        ensures
            r.engine_seperate_executable_path is None,
            r.resource_dir is None,
            r.remote_debugging_port is None,
    {
        Self { engine_seperate_executable_path: None, resource_dir: None, remote_debugging_port: None }
    }
}

/// The text of an optional path: empty where it is not set.
pub open spec fn path_text(p: Option<String>) -> Seq<char> {
    match p {
        Some(s) => s@,
        None => seq![],
    }
}

/// The text of an optional path: empty where it is not set.
fn optional_path(p: &Option<String>) -> (r: cbw_CStrSlice)
    ensures
        r.data matches Some(b) && b@ == encode_utf8(path_text(*p)),
        r.len == encode_utf8(path_text(*p)).len(),
{
    match p {
        Some(s) => cbw_CStrSlice::from_str(s.as_str()),
        None => {
            let empty = String::new();
            cbw_CStrSlice::from_str(empty.as_str())
        },
    }
}

impl ApplicationSettings {
    /// The settings record handed to C: the paths as text, empty where not
    /// set; the debugging port, `0` where not set.
    pub fn to_c_settings(&self) -> (r: cbw_ApplicationSettings)
        ensures
            r.engine_seperate_executable_path.data matches Some(b) && b@ == encode_utf8(
                path_text(self.engine_seperate_executable_path),
            ),
            r.engine_seperate_executable_path.len == encode_utf8(
                path_text(self.engine_seperate_executable_path),
            ).len(),
            r.resource_dir.data matches Some(b) && b@ == encode_utf8(path_text(self.resource_dir)),
            r.resource_dir.len == encode_utf8(path_text(self.resource_dir)).len(),
            r.remote_debugging_port == (match self.remote_debugging_port {
                Some(port) => port,
                None => 0,
            }),
    {
        cbw_ApplicationSettings {
            engine_seperate_executable_path: optional_path(&self.engine_seperate_executable_path),
            resource_dir: optional_path(&self.resource_dir),
            remote_debugging_port: match self.remote_debugging_port {
                Some(port) => port,
                None => 0,
            },
        }
    }
}

/// Settings of the CEF framework.
pub struct Settings {
    pub cef_resource_dir: Option<String>,
}

impl Default for Settings {
    fn default() -> (r: Self)
        ensures
            r.cef_resource_dir is None,
    {
        Self { cef_resource_dir: None }
    }
}

} // verus!
