use browser_window::cookie::{
    find_step, storage_result, Cookie, CookieDeletion, CookieSearch, CookieStorageError, FindStep,
};
use std::time::{Duration, SystemTime, UNIX_EPOCH};

fn millis(t: &SystemTime) -> u64 {
    t.duration_since(UNIX_EPOCH).unwrap().as_millis() as u64
}

#[test]
/// Checking if all cookie methods work correctly.
fn cookie() {
    let now = SystemTime::now();

    let mut cookie = Cookie::new("name", "value");

    assert!(cookie.name() == "name");
    assert!(cookie.value() == "value");
    assert!(cookie.domain() == "");
    assert!(cookie.path() == "");
    assert!(cookie.expires() == None);

    cookie
        .make_secure()
        .make_http_only()
        .set_path("/")
        .set_domain("127.0.0.1")
        .set_expires(millis(&now))
        .set_creation_time(millis(&now));

    assert!(cookie.domain() == "127.0.0.1");
    assert!(cookie.path() == "/");
    assert!(
        (now.duration_since(UNIX_EPOCH).unwrap()
            - Duration::from_millis(cookie.expires().unwrap()))
            < Duration::from_millis(1)
    );
    assert!(
        (now.duration_since(UNIX_EPOCH).unwrap() - Duration::from_millis(cookie.creation_time()))
            < Duration::from_millis(1)
    );
}

#[test]
fn cookie_flags_and_renaming() {
    let mut cookie = Cookie::new("a", "b");
    assert!(!cookie.is_secure());
    assert!(!cookie.is_http_only());
    assert_eq!(cookie.creation_time(), 0);
    cookie.make_secure();
    assert!(cookie.is_secure());
    assert!(!cookie.is_http_only());
    cookie.make_http_only().set_name("c").set_value("d");
    assert!(cookie.is_http_only());
    assert_eq!(cookie.name(), "c");
    assert_eq!(cookie.value(), "d");
}

#[test]
fn cookie_expiry_read_after_write() {
    let mut cookie = Cookie::new("n", "v");
    cookie.set_expires(1_700_000_000_123);
    assert_eq!(cookie.expires(), Some(1_700_000_000_123));
    assert_eq!(cookie.name(), "n");
    cookie.set_expires(0);
    assert_eq!(cookie.expires(), None);
}

#[test]
fn cookie_storage_outcome() {
    assert_eq!(storage_result(0), Ok(()));
    assert_eq!(storage_result(3), Err(CookieStorageError::Unknown));
    assert_eq!(
        CookieStorageError::Unknown.to_string(),
        "unable to set cookie (url invalid?)"
    );
}

#[test]
fn cookie_deletions() {
    let d = CookieDeletion::delete("http://localhost/", "session");
    assert_eq!(d.url, "http://localhost/");
    assert_eq!(d.name, "session");
    let d = CookieDeletion::clear("http://localhost/");
    assert_eq!(d.url, "http://localhost/");
    assert_eq!(d.name, "");
    let d = CookieDeletion::clear_all();
    assert_eq!(d.url, "");
    assert_eq!(d.name, "");
    let d = CookieDeletion::delete_all("session");
    assert_eq!(d.url, "");
    assert_eq!(d.name, "session");
}

#[test]
fn cookie_find_steps() {
    assert!(matches!(find_step("a", None), FindStep::NotFound));
    assert!(matches!(find_step("a", Some(Cookie::new("b", "1"))), FindStep::Continue));
    match find_step("a", Some(Cookie::new("a", "2"))) {
        FindStep::Found(c) => assert_eq!(c.value(), "2"),
        _ => panic!("the cookie named a was not found"),
    }
}

#[test]
fn cookie_search_stops_at_the_first_match() {
    let mut search = CookieSearch::new("a");
    assert!(matches!(search.step(Some(Cookie::new("b", "1"))), FindStep::Continue));
    match search.step(Some(Cookie::new("a", "2"))) {
        FindStep::Found(c) => assert_eq!(c.value(), "2"),
        _ => panic!("the first cookie named a was not found"),
    }
    let mut none = CookieSearch::new("z");
    assert!(matches!(none.step(Some(Cookie::new("a", "1"))), FindStep::Continue));
    assert!(matches!(none.step(None), FindStep::NotFound));
}
