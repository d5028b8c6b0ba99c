use browser_window::application::{
    Application, ApplicationExt, ApplicationHandle, ApplicationHandleThreaded,
    ApplicationSettings, HasAppHandle, Settings,
};
use std::cell::RefCell;
use std::rc::Rc;

#[derive(Clone, Default)]
struct FakeApp {
    log: Rc<RefCell<Vec<String>>>,
}

impl ApplicationExt for FakeApp {
    fn assert_correct_thread(&self) {}
    fn exit(&self, exit_code: i32) { self.log.borrow_mut().push(format!("exit {}", exit_code)); }
    fn exit_threadsafe(&self, exit_code: i32) {
        self.log.borrow_mut().push(format!("exit_threadsafe {}", exit_code));
    }
    fn free(&self) { self.log.borrow_mut().push("free".to_string()); }
    fn mark_as_done(&self) { self.log.borrow_mut().push("done".to_string()); }
}

#[test]
fn handles_reach_the_framework_application() {
    let app = FakeApp::default();
    let log = app.log.clone();
    let handle = ApplicationHandle::new(app.clone());
    handle.exit(3);
    let threaded = handle.clone().into_threaded();
    threaded.exit(4);
    assert!(Rc::ptr_eq(&threaded.handle().inner.log, &log));
    assert!(Rc::ptr_eq(&handle.app_handle().inner.log, &log));
    let application = Application::from_core_handle(app);
    let runtime = application.start();
    assert!(Rc::ptr_eq(&runtime.handle.inner.log, &log));
    application.finish();
    assert_eq!(
        *log.borrow(),
        vec!["exit 3".to_string(), "exit_threadsafe 4".to_string(), "free".to_string()]
    );
    let other = ApplicationHandleThreaded::from_core_handle(FakeApp::default());
    other.exit(0);
    assert_eq!(*other.handle.inner.log.borrow(), vec!["exit_threadsafe 0".to_string()]);
}

#[test]
fn default_settings_give_empty_paths() {
    let settings = ApplicationSettings::default();
    let c = settings.to_c_settings();
    assert_eq!(c.engine_seperate_executable_path.len, 0);
    assert_eq!(c.resource_dir.len, 0);
    assert_eq!(c.remote_debugging_port, 0);
    assert!(Settings::default().cef_resource_dir.is_none());
}

#[test]
fn settings_reach_the_c_record() {
    let settings = ApplicationSettings {
        engine_seperate_executable_path: Some("bin/helper".to_string()),
        resource_dir: Some("res".to_string()),
        remote_debugging_port: Some(9222),
    };
    let c = settings.to_c_settings();
    assert_eq!(c.engine_seperate_executable_path.to_string(), "bin/helper");
    assert_eq!(c.resource_dir.data.as_deref(), Some("res".as_bytes()));
    assert_eq!(c.remote_debugging_port, 9222);
}
