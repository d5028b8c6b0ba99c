# browser_window

A library core for building graphical user interfaces on top of a browser
engine. The crate is written in Verus: the functions in `src/` are proved
against their contracts, except four small wrappers marked
`#[verifier::external_body]` (`String::from_utf8`, `BigFloat::parse`,
`json::parse` and the conversion of its result), whose contracts are trusted.

- `src/javascript.rs`, `src/json_text.rs`: the JavaScript value model, the
  JavaScript source text of values (string literals that stand for exactly the
  string), and reading values back from engine text and from JSON.
- `src/browser.rs`, `src/window.rs`, `src/application.rs`: builders, handles,
  and the records that browser windows and the application are created with.
- `src/cookie.rs`: cookies and the decisions that a cookie jar is driven with.
- `src/delegate.rs`: the state machines of the futures that hand work to the
  GUI thread.
- `src/number_text.rs`: where the number readers of `num_bigfloat` and `json`
  would overflow, decided before they run.
- `src/cbw.rs`, `src/ffi.rs`, `src/error.rs`: the records and errors of the C
  interface of the browser framework.
- `app/`: the C bindings, the cookie jar, and the async glue that drive the
  library; ordinary Rust, not verified.
- `tests/`: tests of the library.
