//! Windows: their sizes and positions, the options they are created with, and
//! the handle through which the browser framework's window functions are
//! reached.

use vstd::prelude::*;
use crate::cbw::{cbw_Dims2D, cbw_Pos2D, cbw_WindowOptions};
use crate::common::HasHandle;

verus! {

/// A width and a height.
pub struct Dims2D(pub cbw_Dims2D);

/// An x and a y coordinate.
pub struct Pos2D(pub cbw_Pos2D);

impl Dims2D {
    pub fn new(width: u16, height: u16) -> (r: Dims2D)
        ensures
            r.0 == (cbw_Dims2D { width, height }),
    {
        Dims2D(cbw_Dims2D { width: width, height: height })
    }

    pub fn width(&self) -> (r: u16)
        ensures
            r == self.0.width,
    {
        self.0.width
    }

    pub fn height(&self) -> (r: u16)
        ensures
            r == self.0.height,
    {
        self.0.height
    }
}

impl Pos2D {
    pub fn new(x: u16, y: u16) -> (r: Pos2D)
        ensures
            r.0 == (cbw_Pos2D { x, y }),
    {
        Pos2D(cbw_Pos2D { x: x, y: y })
    }

    pub fn x(&self) -> (r: u16)
        ensures
            r == self.0.x,
    {
        self.0.x
    }

    pub fn y(&self) -> (r: u16)
        ensures
            r == self.0.y,
    {
        self.0.y
    }
}

/// The options a window is created with.
pub type WindowOptions = cbw_WindowOptions;

/// The window functions of a browser framework, for one of its windows.
/// Everything they read and change lives in the framework's own window.
pub trait WindowExt {
    fn close(&self);

    fn free(&self);

    fn content_dimensions(&self) -> Dims2D;

    fn opacity(&self) -> u8;

    fn position(&self) -> Pos2D;

    fn title(&self) -> String;

    fn window_dimensions(&self) -> Dims2D;

    fn hide_window(&self);

    fn set_content_dimensions(&self, dimensions: Dims2D);

    fn set_opacity(&self, opacity: u8);

    fn set_position(&self, position: Pos2D);

    fn set_title(&self, title: &str);

    fn set_window_dimensions(&self, dimensions: Dims2D);

    fn show(&self);
}

/// A handle that exposes all windowing functionality of the window `W` of a
/// browser framework.
pub struct WindowHandle<W>(pub W);

impl<W: WindowExt> WindowHandle<W> {
    pub fn new(inner: W) -> (r: Self)
        ensures
            r.0 == inner,
    {
        Self(inner)
    }

    /// The size of the window's content, as the framework's window reports it.
    pub fn content_dimensions(&self) -> (r: Dims2D)
        ensures
            call_ensures(W::content_dimensions, (&self.0,), r),
    {
        self.0.content_dimensions()
    }

    /// The opacity of the window, as the framework's window reports it.
    pub fn opacity(&self) -> (r: u8)
        ensures
            call_ensures(W::opacity, (&self.0,), r),
    {
        self.0.opacity()
    }

    /// The position of the window, as the framework's window reports it.
    pub fn position(&self) -> (r: Pos2D)
        ensures
            call_ensures(W::position, (&self.0,), r),
    {
        self.0.position()
    }

    /// The title of the window, as the framework's window reports it.
    pub fn title(&self) -> (r: String)
        ensures
            call_ensures(W::title, (&self.0,), r),
    {
        self.0.title()
    }

    /// The size of the whole window, as the framework's window reports it.
    pub fn window_dimensions(&self) -> (r: Dims2D)
        ensures
            call_ensures(W::window_dimensions, (&self.0,), r),
    {
        self.0.window_dimensions()
    }

    /// Hides the window.
    /// Keep in mind that hiding the window is not the same as closing it.
    /// Hiding the window will keep its resources alive.
    pub fn hide_window(&self) {
        self.0.hide_window();
    }

    pub fn set_content_dimensions(&self, dimensions: Dims2D) {
        self.0.set_content_dimensions(dimensions);
    }

    pub fn set_opacity(&self, opacity: u8) {
        self.0.set_opacity(opacity);
    }

    pub fn set_position(&self, position: Pos2D) {
        self.0.set_position(position);
    }

    pub fn set_title(&self, title: &str) {
        self.0.set_title(title);
    }

    pub fn set_window_dimensions(&self, dimensions: Dims2D) {
        self.0.set_window_dimensions(dimensions);
    }

    /// Shows a window if it was hidden.
    /// Windows that were just created are hidden to start.
    pub fn show(&self) {
        self.0.show();
    }
}

/// The width or height handed to C: `-1` for "use the default".
pub open spec fn c_dimension_spec(v: Option<u32>) -> i32 {
    match v {
        None => -1i32,
        Some(x) => x as i32,
    }
}

/// The width or height handed to C: `-1` for "use the default", otherwise
/// the value converted to a C `int`.
pub fn c_dimension(v: Option<u32>) -> (r: i32)
    ensures
        r == c_dimension_spec(v),
{
    match v {
        None => -1,
        Some(x) => x as i32,
    }
}

/// Exposes functionality related to constructing a window.
pub struct WindowBuilder<W> {
    pub borders: bool,
    pub height: Option<u32>,
    pub minimizable: bool,
    pub parent: Option<W>,
    pub resizable: bool,
    pub title: Option<String>,
    pub width: Option<u32>,
}

impl<W: Clone> WindowBuilder<W> {
    /// A builder with borders, minimizable, resizable, and no title, size or
    /// parent.
    pub fn new() -> (r: Self)
        ensures
            r.borders,
            r.minimizable,
            r.resizable,
            r.height is None,
            r.width is None,
            r.parent is None,
            r.title is None,
    {
        Self {
            borders: true,
            height: None,
            minimizable: true,
            parent: None,
            resizable: true,
            title: None,
            width: None,
        }
    }

    /// Sets whether or not the window has borders.
    /// Default is true.
    pub fn borders(&mut self, value: bool)
        ensures
            *final(self) == (WindowBuilder { borders: value, ..*old(self) }),
    {
        self.borders = value;
    }

    /// Sets the height that the window will be created with initially.
    pub fn height(&mut self, height: u32)
        ensures
            *final(self) == (WindowBuilder { height: Some(height), ..*old(self) }),
    {
        self.height = Some(height);
    }

    /// Sets whether or not the window has a minimize button on the title bar.
    /// Default is true.
    pub fn minimizable(&mut self, value: bool)
        ensures
            *final(self) == (WindowBuilder { minimizable: value, ..*old(self) }),
    {
        self.minimizable = value;
    }

    /// Configures a parent window.
    /// When a parent window closes, this window will close as well.
    pub fn parent<H: HasHandle<WindowHandle<W>>>(&mut self, bw: &H)
        ensures
            final(self).parent matches Some(p) && exists|h: &WindowHandle<W>|
                #[trigger] call_ensures(<H as HasHandle<WindowHandle<W>>>::handle, (bw,), h) && cloned(
                    h.0,
                    p,
                ),
            final(self).borders == old(self).borders,
            final(self).height == old(self).height,
            final(self).minimizable == old(self).minimizable,
            final(self).resizable == old(self).resizable,
            final(self).title == old(self).title,
            final(self).width == old(self).width,
    {
        let h = bw.handle();
        let p = h.0.clone();
        assert(call_ensures(<H as HasHandle<WindowHandle<W>>>::handle, (bw,), h) && cloned(h.0, p));
        self.parent = Some(p);
    }

    /// Sets the width and height of the window.
    pub fn size(&mut self, width: u32, height: u32)
        ensures
            *final(self) == (WindowBuilder { width: Some(width), height: Some(height), ..*old(self) }),
    {
        self.width = Some(width);
        self.height = Some(height);
    }

    /// Sets the title of the window.
    pub fn title(&mut self, title: &str)
        ensures
            final(self).title matches Some(t) && t@ == title@,
            final(self).borders == old(self).borders,
            final(self).height == old(self).height,
            final(self).minimizable == old(self).minimizable,
            final(self).parent == old(self).parent,
            final(self).resizable == old(self).resizable,
            final(self).width == old(self).width,
    {
        self.title = Some(title.to_owned());
    }

    /// Sets the width that the window will be created with initially.
    pub fn width(&mut self, width: u32)
        ensures
            *final(self) == (WindowBuilder { width: Some(width), ..*old(self) }),
    {
        self.width = Some(width);
    }

    /// Sets whether or not the window will be resizable.
    /// Default is true.
    pub fn resizable(&mut self, resizable: bool)
        ensures
            *final(self) == (WindowBuilder { resizable: resizable, ..*old(self) }),
    {
        self.resizable = resizable;
    }

    /// The options record that the window is created with.
    pub fn options(&self) -> (r: WindowOptions)
        ensures
            r == (cbw_WindowOptions {
                borders: self.borders,
                minimizable: self.minimizable,
                resizable: self.resizable,
            }),
    {
        cbw_WindowOptions {
            borders: self.borders,
            minimizable: self.minimizable,
            resizable: self.resizable,
        }
    }
}

} // verus!
