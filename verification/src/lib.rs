//! A browser-window library core: the JavaScript value model, the option and
//! settings records handed to the browser framework, the window and cookie
//! models, and the state machines that hand work to the GUI thread.
#![allow(non_camel_case_types)]

pub mod text;
pub mod number_text;
pub mod cbw;
pub mod ffi;
pub mod prop;
pub mod error;
pub mod common;
pub mod window;
pub mod browser;
pub mod application;
pub mod cookie;
pub mod javascript;
pub mod json_text;
pub mod delegate;
