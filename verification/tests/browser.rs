use browser_window::browser::{
    c_size, c_source, eval_js_result, message_from_texts, message_from_value,
    BrowserWindowBuilder, JsEvaluationError, Source,
};
use browser_window::cbw::cbw_Err;
use browser_window::javascript::JsValue;
use browser_window::window::WindowHandle;

#[test]
fn builder_defaults_give_the_default_title_and_sizes() {
    let bwb = BrowserWindowBuilder::<u32>::new(Source::Url("https://example.com/".to_string()));
    assert!(!bwb.dev_tools);
    let creation = bwb.creation();
    assert_eq!(creation.title, "Browser Window");
    assert_eq!(creation.options.dev_tools, 0);
    assert_eq!(creation.options.resource_path.len, 0);
    assert!(creation.parent.is_none());
    assert_eq!(c_size(&creation), (-1, -1));
    assert!(creation.window_options.borders);
    assert!(creation.window_options.minimizable);
    assert!(creation.window_options.resizable);
    assert!(matches!(creation.source, Source::Url(u) if u == "https://example.com/"));
}

#[test]
fn builder_settings_reach_the_creation_record() {
    let mut bwb = BrowserWindowBuilder::<u32>::new(Source::Html("<p>hi</p>".to_string()));
    bwb.dev_tools(true);
    bwb.title("My window");
    bwb.size(800, 600);
    let parent = WindowHandle(7u32);
    bwb.parent(&parent);
    let creation = bwb.creation();
    assert_eq!(creation.title, "My window");
    assert_eq!(creation.options.dev_tools, 1);
    assert_eq!(creation.parent, Some(7));
    assert_eq!(c_size(&creation), (800, 600));
}

#[test]
fn source_records() {
    let file = c_source(&Source::File("tmp/page.html".to_string()));
    assert_eq!(file.is_html, 0);
    assert_eq!(file.data.data.as_deref(), Some("file:///tmp/page.html".as_bytes()));
    assert_eq!(file.data.len, "file:///tmp/page.html".len());
    let html = c_source(&Source::Html("<b>x</b>".to_string()));
    assert_eq!(html.is_html, 1);
    assert_eq!(html.data.data.as_deref(), Some("<b>x</b>".as_bytes()));
    let url = c_source(&Source::Url("https://a.b/".to_string()));
    assert_eq!(url.is_html, 0);
    assert_eq!(url.data.to_string(), "https://a.b/");
}

#[test]
fn evaluation_results() {
    assert!(matches!(eval_js_result("true", None), Ok(JsValue::Boolean(true))));
    let err = cbw_Err { code: 2, message: "ReferenceError: x".to_string() };
    match eval_js_result("ignored", Some(&err)) {
        Err(e) => {
            assert_eq!(e.message, "ReferenceError: x");
            assert_eq!(e.to_string(), "ReferenceError: x");
        }
        Ok(v) => panic!("expected an error, got {:?}", v),
    }
    assert_eq!(JsEvaluationError::new(&err).message, "ReferenceError: x");
}

#[test]
fn messages_from_posted_arrays() {
    let value = JsValue::from_string("[\"greet\",1,true]");
    let msg = message_from_value(&value);
    assert_eq!(msg.cmd, "greet");
    assert_eq!(msg.args.len(), 2);
    assert!(matches!(msg.args[1], JsValue::Boolean(true)));
    let plain = message_from_value(&JsValue::Array(vec![JsValue::String("go".to_string())]));
    assert_eq!(plain.cmd, "go");
    assert!(plain.args.is_empty());
}

#[test]
fn messages_from_texts() {
    let msg = message_from_texts("save", &vec!["\"a\"".to_string(), "null".to_string()]);
    assert_eq!(msg.cmd, "save");
    assert_eq!(msg.args.len(), 2);
    assert!(matches!(&msg.args[0], JsValue::String(s) if s == "a"));
    assert!(matches!(msg.args[1], JsValue::Null));
}

#[test]
fn a_later_parent_replaces_an_earlier_one() {
    let mut bwb = BrowserWindowBuilder::<u32>::new(Source::Url("https://a.b/".to_string()));
    bwb.parent(&WindowHandle(1u32));
    bwb.parent(&WindowHandle(2u32));
    assert_eq!(bwb.creation().parent, Some(2));
}
