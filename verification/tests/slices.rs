use browser_window::cbw::{cbw_CStrSlice, cbw_StrSlice};
use browser_window::ffi::{bw_CStrSlice, bw_StrSlice};

#[test]
fn empty_slices_point_nowhere() {
    let a = cbw_CStrSlice::empty();
    assert_eq!(a.len, 0);
    assert!(a.data.is_none());
    assert_eq!(a.to_string(), "");
    let b = cbw_StrSlice::empty();
    assert_eq!(b.len, 0);
    assert!(b.data.is_none());
    let c = bw_CStrSlice::empty();
    assert_eq!(c.len, 0);
    assert!(c.data.is_none());
    let d = bw_StrSlice::empty();
    assert_eq!(d.len, 0);
    assert!(d.data.is_none());
    assert_eq!(d.to_string(), "");
}

#[test]
fn slices_hold_utf8_bytes_and_read_back() {
    let s = cbw_CStrSlice::from_str("héllo");
    assert_eq!(s.len, 6);
    assert_eq!(s.data.as_deref(), Some("héllo".as_bytes()));
    assert_eq!(s.to_string(), "héllo");
    let t = bw_CStrSlice::from_str("ünï");
    assert_eq!(t.len, "ünï".len());
    assert_eq!(t.to_string(), "ünï");
}

#[test]
fn slices_filled_in_by_c_read_back() {
    let s = cbw_StrSlice { len: 3, data: Some(b"abc".to_vec()) };
    assert_eq!(s.to_string(), "abc");
    let t = bw_StrSlice { len: 2, data: Some("é".as_bytes().to_vec()) };
    assert_eq!(t.to_string(), "é");
}
