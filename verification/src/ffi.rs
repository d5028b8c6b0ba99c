//! The records of the older C interface of the browser framework, in which
//! flags are booleans. Strings are held as their bytes, numbers as numbers.

use vstd::prelude::*;
use vstd::utf8::{decode_utf8, encode_utf8};
use crate::cbw::{slice_bytes, slice_readable, slice_text};
use crate::text::utf8_bytes;

verus! {

/// A string slice handed to C: `len` bytes at `data`; `data` is `None` for the
/// null pointer.
pub struct bw_CStrSlice {
    pub len: usize,
    pub data: Option<Vec<u8>>,
}

/// A string slice that C fills in and hands back.
pub struct bw_StrSlice {
    pub len: usize,
    pub data: Option<Vec<u8>>,
}

impl bw_CStrSlice {
    /// The empty slice: no bytes, at the null pointer.
    pub fn empty() -> (r: Self)
        ensures
            r.len == 0,
            r.data is None,
    {
        Self { len: 0, data: None }
    }

    /// The slice of the UTF-8 bytes of `string`.
    pub fn from_str(string: &str) -> (r: Self)
        ensures
            r.data matches Some(b) && b@ == encode_utf8(string@),
            r.len == encode_utf8(string@).len(),
    {
        let bytes = utf8_bytes(string);
        let len = bytes.len();
        Self { len, data: Some(bytes) }
    }

    /// The string that the slice holds; a slice whose bytes are no UTF-8
    /// would panic, so it is left out.
    pub fn to_string(&self) -> (r: String)
        requires
            slice_readable(self.len, self.data),
        ensures
            r@ == decode_utf8(slice_bytes(self.data)),
    {
        slice_text(self.len, &self.data)
    }
}

impl bw_StrSlice {
    /// The empty slice: no bytes, at the null pointer.
    pub fn empty() -> (r: Self)
        ensures
            r.len == 0,
            r.data is None,
    {
        Self { len: 0, data: None }
    }

    /// The string that the slice holds; a slice whose bytes are no UTF-8
    /// would panic, so it is left out.
    pub fn to_string(&self) -> (r: String)
        requires
            slice_readable(self.len, self.data),
        ensures
            r@ == decode_utf8(slice_bytes(self.data)),
    {
        slice_text(self.len, &self.data)
    }
}

/// The options that a browser is created with.
pub struct bw_BrowserWindowOptions {
    pub dev_tools: bool,
    pub resource_path: bw_CStrSlice,
}

/// What a browser shows: HTML code, or a URL.
pub struct bw_BrowserWindowSource {
    pub data: bw_CStrSlice,
    pub is_html: bool,
}

/// The options that a window is created with.
#[derive(Clone, Copy, PartialEq, Eq, Structural)]
pub struct bw_WindowOptions {
    pub borders: bool,
    pub minimizable: bool,
    pub resizable: bool,
}

/// The size of a window or of its content.
#[derive(Clone, Copy, PartialEq, Eq, Structural)]
pub struct bw_Dims2D {
    pub width: u16,
    pub height: u16,
}

/// The position of a window.
#[derive(Clone, Copy, PartialEq, Eq, Structural)]
pub struct bw_Pos2D {
    pub x: u16,
    pub y: u16,
}

/// An error that the C code reports: a code (`0` for none) and the message
/// that it writes for it.
pub struct bw_Err {
    pub code: u32,
    pub message: String,
}

} // verus!
