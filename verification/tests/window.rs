use browser_window::window::{c_dimension, Dims2D, Pos2D, WindowBuilder, WindowExt, WindowHandle};
use std::cell::RefCell;

#[derive(Default)]
struct FakeWindow {
    calls: RefCell<Vec<String>>,
    title: RefCell<String>,
    opacity: RefCell<u8>,
}

impl WindowExt for FakeWindow {
    fn close(&self) { self.calls.borrow_mut().push("close".to_string()); }
    fn free(&self) { self.calls.borrow_mut().push("free".to_string()); }
    fn content_dimensions(&self) -> Dims2D { Dims2D::new(10, 20) }
    fn opacity(&self) -> u8 { *self.opacity.borrow() }
    fn position(&self) -> Pos2D { Pos2D::new(3, 4) }
    fn title(&self) -> String { self.title.borrow().clone() }
    fn window_dimensions(&self) -> Dims2D { Dims2D::new(12, 24) }
    fn hide_window(&self) { self.calls.borrow_mut().push("hide".to_string()); }
    fn set_content_dimensions(&self, _dimensions: Dims2D) {
        self.calls.borrow_mut().push("set_content_dimensions".to_string());
    }
    fn set_opacity(&self, opacity: u8) { *self.opacity.borrow_mut() = opacity; }
    fn set_position(&self, _position: Pos2D) {
        self.calls.borrow_mut().push("set_position".to_string());
    }
    fn set_title(&self, title: &str) { *self.title.borrow_mut() = title.to_string(); }
    fn set_window_dimensions(&self, _dimensions: Dims2D) {
        self.calls.borrow_mut().push("set_window_dimensions".to_string());
    }
    fn show(&self) { self.calls.borrow_mut().push("show".to_string()); }
}

#[test]
fn window_handle_reaches_the_framework_window() {
    let handle = WindowHandle::new(FakeWindow::default());
    handle.set_title("Title");
    assert_eq!(handle.title(), "Title");
    handle.set_opacity(128);
    assert_eq!(handle.opacity(), 128);
    handle.show();
    handle.hide_window();
    assert_eq!(*handle.0.calls.borrow(), vec!["show".to_string(), "hide".to_string()]);
    assert_eq!(handle.content_dimensions().width(), 10);
    assert_eq!(handle.window_dimensions().height(), 24);
    assert_eq!(handle.position().x(), 3);
    assert_eq!(handle.position().y(), 4);
}

#[test]
fn dimensions_for_c() {
    assert_eq!(c_dimension(None), -1);
    assert_eq!(c_dimension(Some(640)), 640);
    assert_eq!(c_dimension(Some(3_000_000_000)), 3_000_000_000u32 as i32);
}

#[test]
fn window_builder_defaults_and_setters() {
    let mut wb = WindowBuilder::<u32>::new();
    let o = wb.options();
    assert!(o.borders && o.minimizable && o.resizable);
    assert!(wb.title.is_none() && wb.width.is_none() && wb.height.is_none());
    wb.borders(false);
    wb.minimizable(false);
    wb.resizable(false);
    wb.width(5);
    wb.height(6);
    wb.title("t");
    let o = wb.options();
    assert!(!o.borders && !o.minimizable && !o.resizable);
    assert_eq!((wb.width, wb.height), (Some(5), Some(6)));
    assert_eq!(wb.title.as_deref(), Some("t"));
    wb.size(7, 8);
    assert_eq!((wb.width, wb.height), (Some(7), Some(8)));
}
