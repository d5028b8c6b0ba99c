//! The records that cross the C interface of the browser framework, holding
//! plain values: strings as their bytes, numbers as numbers.

use vstd::prelude::*;
use vstd::utf8::{decode_utf8, encode_utf8, valid_utf8, encode_utf8_decode_utf8, encode_utf8_valid_utf8};
use crate::text::{string_from_utf8, utf8_bytes};

verus! {

/// A string slice handed to C: `len` bytes at `data`; `data` is `None` for the
/// null pointer.
pub struct cbw_CStrSlice {
    pub len: usize,
    pub data: Option<Vec<u8>>,
}

/// A string slice handed back by C, which C may have to free.
pub struct cbw_StrSlice {
    pub len: usize,
    pub data: Option<Vec<u8>>,
}

/// The bytes that a slice points at: none for the null pointer.
pub open spec fn slice_bytes(data: Option<Vec<u8>>) -> Seq<u8> {
    match data {
        Some(b) => b@,
        None => seq![],
    }
}

/// A slice is readable as a string where its length is the number of its
/// bytes (zero for the null pointer) and they are UTF-8.
pub open spec fn slice_readable(len: usize, data: Option<Vec<u8>>) -> bool {
    len == slice_bytes(data).len() && valid_utf8(slice_bytes(data))
}

/// The string of a readable slice.
pub(crate) fn slice_text(len: usize, data: &Option<Vec<u8>>) -> (r: String)
    requires
        slice_readable(len, *data),
    ensures
        r@ == decode_utf8(slice_bytes(*data)),
{
    let bytes = match data {
        Some(b) => b.clone(),
        None => Vec::new(),
    };
    assert(bytes@ == slice_bytes(*data));
    string_from_utf8(bytes).unwrap()
}

impl cbw_CStrSlice {
    /// The empty slice: no bytes, at the null pointer.
    pub fn empty() -> (r: Self)
        ensures
            r.len == 0,
            r.data is None,
    {
        Self { len: 0, data: None }
    }

    /// The slice of the UTF-8 bytes of `string`.
    pub fn from_str(string: &str) -> (r: Self)
        ensures
            r.data == Some(r.data->0),
            r.data->0@ == encode_utf8(string@),
            r.len == r.data->0@.len(),
    {
        let bytes = utf8_bytes(string);
        let len = bytes.len();
        Self { len, data: Some(bytes) }
    }

    /// The string that the slice holds; a slice whose bytes are no UTF-8
    /// would panic, so it is left out.
    pub fn to_string(&self) -> (r: String)
        requires
            slice_readable(self.len, self.data),
        ensures
            r@ == decode_utf8(slice_bytes(self.data)),
    {
        slice_text(self.len, &self.data)
    }
}

impl cbw_StrSlice {
    /// The empty slice: no bytes, at the null pointer.
    pub fn empty() -> (r: Self)
        ensures
            r.len == 0,
            r.data is None,
    {
        Self { len: 0, data: None }
    }

    /// The string that the slice holds; a slice whose bytes are no UTF-8
    /// would panic, so it is left out.
    pub fn to_string(&self) -> (r: String)
        requires
            slice_readable(self.len, self.data),
        ensures
            r@ == decode_utf8(slice_bytes(self.data)),
    {
        slice_text(self.len, &self.data)
    }
}

/// A string handed to C and read back gives the same string.
pub proof fn law_slice_round_trip(s: Seq<char>, slice: cbw_CStrSlice)
    requires
        slice.data matches Some(b) && b@ == encode_utf8(s),
        slice.len == encode_utf8(s).len(),
    ensures
        slice_readable(slice.len, slice.data),
        decode_utf8(slice_bytes(slice.data)) == s,
{
    encode_utf8_valid_utf8(s);
    encode_utf8_decode_utf8(s);
}

/// The size of a window or of its content.
#[derive(Clone, Copy, PartialEq, Eq, Structural)]
pub struct cbw_Dims2D {
    pub width: u16,
    pub height: u16,
}

/// The position of a window.
#[derive(Clone, Copy, PartialEq, Eq, Structural)]
pub struct cbw_Pos2D {
    pub x: u16,
    pub y: u16,
}

/// The options that a window is created with.
#[derive(Clone, Copy, PartialEq, Eq, Structural)]
pub struct cbw_WindowOptions {
    pub borders: bool,
    pub minimizable: bool,
    pub resizable: bool,
}

/// The options that a browser is created with: whether developer tools open
/// (`1`) or not (`0`), and where the framework finds its resources.
pub struct cbw_BrowserWindowOptions {
    pub dev_tools: u8,
    pub resource_path: cbw_CStrSlice,
}

/// What a browser shows: HTML code (`is_html` is `1`) or a URL (`0`).
pub struct cbw_BrowserWindowSource {
    pub data: cbw_CStrSlice,
    pub is_html: i32,
}

/// The settings that the application is initialized with.
pub struct cbw_ApplicationSettings {
    pub engine_seperate_executable_path: cbw_CStrSlice,
    pub resource_dir: cbw_CStrSlice,
    pub remote_debugging_port: u16,
}

/// An error that the C code reports: a code (`0` for none) and the message
/// that it writes for it.
pub struct cbw_Err {
    pub code: u32,
    pub message: String,
}

} // verus!
