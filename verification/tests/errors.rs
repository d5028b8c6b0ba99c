use browser_window::cbw::cbw_Err;
use browser_window::error::{error_result, CbwError, Error};

#[test]
fn c_error_text() {
    let e = CbwError(cbw_Err { code: 12, message: "boom".to_string() });
    assert_eq!(e.to_string(), "[12] boom");
    let wrapped = Error::Cbw(CbwError(cbw_Err { code: 0, message: String::new() }));
    assert_eq!(wrapped.to_string(), "c(bw) error: [0] ");
}

#[test]
fn c_error_outcome() {
    assert!(error_result(cbw_Err { code: 0, message: "fine".to_string() }).is_ok());
    match error_result(cbw_Err { code: 7, message: "bad".to_string() }) {
        Err(Error::Cbw(CbwError(e))) => {
            assert_eq!(e.code, 7);
            assert_eq!(e.message, "bad");
        }
        Ok(()) => panic!("code 7 is an error"),
    }
    let e: Error = Error::from(CbwError::from(cbw_Err { code: 1, message: "x".to_string() }));
    assert_eq!(e.to_string(), "c(bw) error: [1] x");
}
