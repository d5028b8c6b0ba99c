//! Browser windows: what they show, the builder that configures them, the
//! records they are created with, and how the results of their JavaScript
//! come back.

use vstd::prelude::*;
use vstd::utf8::encode_utf8;
use crate::cbw::{cbw_BrowserWindowOptions, cbw_BrowserWindowSource, cbw_CStrSlice, cbw_Err, cbw_WindowOptions};
use crate::common::HasHandle;
use crate::javascript::{JsData, JsValue, js_parse};
use crate::text::{push_str, string_from_chars};
use crate::window::{WindowBuilder, WindowHandle, WindowOptions, c_dimension, c_dimension_spec};

verus! {

/// The type of content to display in a browser window.
#[derive(Clone)]
pub enum Source {
    /// Displays the given HTML code in the browser.
    Html(String),
    /// Displays the local file for the given path.
    File(String),
    /// Displays the given URL in the browser.
    Url(String),
}

/// The browser options handed to C.
pub type BrowserWindowOptions = cbw_BrowserWindowOptions;

/// Everything that a browser window is created with.
pub struct BrowserWindowCreation<W> {
    /// The parent window, if any.
    pub parent: Option<W>,
    pub source: Source,
    pub title: String,
    pub width: Option<u32>,
    pub height: Option<u32>,
    pub window_options: WindowOptions,
    pub options: BrowserWindowOptions,
}

/// Used to create a browser window.
pub struct BrowserWindowBuilder<W> {
    pub dev_tools: bool,
    pub source: Source,
    pub window: WindowBuilder<W>,
}

/// `"Browser Window"`, the title of a window that was given none.
pub open spec fn default_title() -> Seq<char> {
    "Browser Window"@
}

impl<W: Clone> BrowserWindowBuilder<W> {
    /// Sets whether or not an extra window with developer tools will be opened
    /// together with this browser.
    pub fn dev_tools(&mut self, enabled: bool) -> (r: &mut Self)
        ensures
            *r == (BrowserWindowBuilder { dev_tools: enabled, ..*old(self) }),
            *final(self) == *final(r),
    {
        self.dev_tools = enabled;
        self
    }

    /// Creates a builder for a browser window that displays `source`, without
    /// developer tools, with the defaults of `WindowBuilder::new`.
    pub fn new(source: Source) -> (r: Self)
        ensures
            !r.dev_tools,
            r.source == source,
            r.window.borders,
            r.window.minimizable,
            r.window.resizable,
            r.window.height is None,
            r.window.width is None,
            r.window.parent is None,
            r.window.title is None,
    {
        Self { dev_tools: false, source, window: WindowBuilder::new() }
    }

    /// Sets the title of the window.
    pub fn title(&mut self, title: &str)
        ensures
            final(self).window.title matches Some(t) && t@ == title@,
            final(self).window.width == old(self).window.width,
            final(self).window.height == old(self).window.height,
            final(self).window.parent == old(self).window.parent,
            final(self).window.borders == old(self).window.borders,
            final(self).window.minimizable == old(self).window.minimizable,
            final(self).window.resizable == old(self).window.resizable,
            final(self).dev_tools == old(self).dev_tools,
            final(self).source == old(self).source,
    {
        self.window.title(title);
    }

    /// Sets the width and height of the window.
    pub fn size(&mut self, width: u32, height: u32)
        ensures
            final(self).window == (WindowBuilder {
                width: Some(width),
                height: Some(height),
                ..old(self).window
            }),
            final(self).dev_tools == old(self).dev_tools,
            final(self).source == old(self).source,
    {
        self.window.size(width, height);
    }

    /// Configures a parent window.
    pub fn parent<H: HasHandle<WindowHandle<W>>>(&mut self, bw: &H)
        ensures
            final(self).window.parent matches Some(p) && exists|h: &WindowHandle<W>|
                #[trigger] call_ensures(<H as HasHandle<WindowHandle<W>>>::handle, (bw,), h) && cloned(
                    h.0,
                    p,
                ),
            final(self).window.title == old(self).window.title,
            final(self).window.width == old(self).window.width,
            final(self).window.height == old(self).window.height,
            final(self).window.borders == old(self).window.borders,
            final(self).window.minimizable == old(self).window.minimizable,
            final(self).window.resizable == old(self).window.resizable,
            final(self).dev_tools == old(self).dev_tools,
            final(self).source == old(self).source,
    {
        self.window.parent(bw);
    }

    /// What the browser window is created with: the source, the parent, the
    /// size and the options of the builder; the title `"Browser Window"` where
    /// none was set; developer tools as `1` or `0`; an empty resource path.
    pub fn creation(self) -> (r: BrowserWindowCreation<W>)
        ensures
            r.parent == self.window.parent,
            r.source == self.source,
            r.title@ == (match self.window.title {
                Some(t) => t@,
                None => default_title(),
            }),
            r.width == self.window.width,
            r.height == self.window.height,
            r.window_options == (cbw_WindowOptions {
                borders: self.window.borders,
                minimizable: self.window.minimizable,
                resizable: self.window.resizable,
            }),
            r.options.dev_tools == (if self.dev_tools {
                1u8
            } else {
                0u8
            }),
            r.options.resource_path.data matches Some(b) && b@.len() == 0,
            r.options.resource_path.len == 0,
    {
        let window_options = self.window.options();
        let BrowserWindowBuilder { dev_tools, source, window } = self;
        let title = match window.title {
            None => {
                let mut out: Vec<char> = Vec::new();
                push_str(&mut out, "Browser Window");
                string_from_chars(&out)
            },
            Some(t) => t,
        };
        let resource_path = cbw_CStrSlice::from_str("");
        proof {
            reveal_strlit("");
            assert(""@.len() == 0);
            assert(vstd::utf8::encode_utf8(""@) =~= Seq::<u8>::empty());
        }
        BrowserWindowCreation {
            parent: window.parent,
            source,
            title,
            width: window.width,
            height: window.height,
            window_options,
            options: cbw_BrowserWindowOptions {
                dev_tools: if dev_tools {
                    1
                } else {
                    0
                },
                resource_path,
            },
        }
    }
}

/// `"file:///"`, put before the path of a file that a browser shows.
pub open spec fn file_url_prefix() -> Seq<char> {
    "file:///"@
}

/// The text and kind that a browser is told to show: for a file, its path
/// after `file:///`; for HTML, the code (`is_html` is `1`); for a URL, the URL.
pub open spec fn source_text(source: Source) -> (Seq<char>, i32) {
    match source {
        Source::File(path) => (file_url_prefix() + path@, 0),
        Source::Html(html) => (html@, 1),
        Source::Url(url) => (url@, 0),
    }
}

/// The source record handed to C for what a browser shows.
pub fn c_source(source: &Source) -> (r: cbw_BrowserWindowSource)
    ensures
        r.data.data matches Some(b) && b@ == encode_utf8(source_text(*source).0),
        r.data.len == encode_utf8(source_text(*source).0).len(),
        r.is_html == source_text(*source).1,
{
    match source {
        Source::File(path) => {
            let mut out: Vec<char> = Vec::new();
            push_str(&mut out, "file:///");
            push_str(&mut out, path.as_str());
            let url = string_from_chars(&out);
            cbw_BrowserWindowSource { data: cbw_CStrSlice::from_str(url.as_str()), is_html: 0 }
        },
        Source::Html(html) => cbw_BrowserWindowSource {
            data: cbw_CStrSlice::from_str(html.as_str()),
            is_html: 1,
        },
        Source::Url(url) => cbw_BrowserWindowSource {
            data: cbw_CStrSlice::from_str(url.as_str()),
            is_html: 0,
        },
    }
}

/// The width and height handed to C for a new browser window: `-1` for an
/// unset one.
pub fn c_size<W>(creation: &BrowserWindowCreation<W>) -> (r: (i32, i32))
    ensures
        r == (c_dimension_spec(creation.width), c_dimension_spec(creation.height)),
{
    (c_dimension(creation.width), c_dimension(creation.height))
}

/// An error that may occur when evaluating or executing JavaScript code.
pub struct JsEvaluationError {
    pub message: String,
}

impl JsEvaluationError {
    /// The error for the error record that the C code reports, with the
    /// message that it writes for it.
    pub fn new(err: &cbw_Err) -> (r: Self)
        ensures
            r.message@ == err.message@,
    {
        Self { message: err.message.clone() }
    }

    /// The message of the error.
    pub fn to_string(&self) -> (r: String)
        ensures
            r@ == self.message@,
    {
        self.message.clone()
    }
}

/// The result of an evaluation of JavaScript code: the value read from the
/// text of the result where no error was reported, otherwise the error.
pub fn eval_js_result(result: &str, error: Option<&cbw_Err>) -> (r: Result<JsValue, JsEvaluationError>)
    requires
        error is None ==> js_parse(result@) is Some,
    ensures
        error is None ==> (r matches Ok(v) && v@ == js_parse(result@)->0),
        error matches Some(e) ==> (r matches Err(x) && x.message@ == e.message@),
{
    match error {
        None => Ok(JsValue::from_string(result)),
        Some(e) => Err(JsEvaluationError::new(e)),
    }
}

/// A message that JavaScript sends with `invoke_extern`: a command and its
/// arguments.
pub struct MessageEventArgs {
    pub cmd: String,
    pub args: Vec<JsValue>,
}

/// The message carried by the array `[command, args...]` that JavaScript
/// posts: the command as its unenclosed text, and the other elements as the
/// arguments. A value that is no non-empty array would panic, so it is left
/// out.
pub fn message_from_value(value: &JsValue) -> (r: MessageEventArgs)
    requires
        value@ matches JsData::Array(a) && a.len() > 0,
    ensures
        ({
            let a = value@->Array_0;
            &&& r.cmd@ == (match a[0] {
                JsData::String(s) => s,
                other => crate::javascript::js_text(other),
            })
            &&& r.args@.len() == a.len() - 1
            &&& forall|i: int| 0 <= i < r.args@.len() ==> #[trigger] r.args@[i]@ == a[i + 1]
        }),
{
    match value {
        JsValue::Array(items) => {
            proof {
                crate::javascript::lemma_array_view(*items);
            }
            let cmd = items[0].to_string_unenclosed();
            let mut args: Vec<JsValue> = Vec::new();
            let mut i: usize = 1;
            while i < items.len()
                invariant
                    1 <= i <= items.len(),
                    args@.len() == i - 1,
                    forall|j: int|
                        0 <= j < args@.len() ==> #[trigger] args@[j]@ == items@[j + 1]@,
                decreases items.len() - i,
            {
                args.push(items[i].duplicate());
                i = i + 1;
            }
            MessageEventArgs { cmd, args }
        },
        _ => {
            proof {
                assert(false);
            }
            MessageEventArgs { cmd: String::new(), args: Vec::new() }
        },
    }
}

/// The message that the C code reports: the command, and each argument read
/// from the text that the engine wrote for it.
pub fn message_from_texts(cmd: &str, args: &Vec<String>) -> (r: MessageEventArgs)
    requires
        forall|i: int| 0 <= i < args@.len() ==> js_parse(#[trigger] args@[i]@) is Some,
    ensures
        r.cmd@ == cmd@,
        r.args@.len() == args@.len(),
        forall|i: int| 0 <= i < args@.len() ==> #[trigger] r.args@[i]@ == js_parse(args@[i]@)->0,
{
    let mut values: Vec<JsValue> = Vec::new();
    let mut i: usize = 0;
    while i < args.len()
        invariant
            i <= args.len(),
            forall|j: int| 0 <= j < args@.len() ==> js_parse(#[trigger] args@[j]@) is Some,
            values@.len() == i,
            forall|j: int| 0 <= j < i ==> #[trigger] values@[j]@ == js_parse(args@[j]@)->0,
        decreases args.len() - i,
    {
        values.push(JsValue::from_string(args[i].as_str()));
        i = i + 1;
    }
    MessageEventArgs { cmd: cmd.to_owned(), args: values }
}

} // verus!
