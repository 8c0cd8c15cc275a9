//! Tests of the error type's human-readable descriptions.

use ws_com_framework::Error;

#[test]
fn test_printing_errors() {
    let err = Error::ByteDecodeError(String::from("test"));
    assert_eq!(
        err.describe(),
        "failed to decode bytes as valid message test"
    );

    let err = Error::ByteEncodeError(String::from("test"));
    assert_eq!(
        err.describe(),
        "failed to encode bytes as valid message test"
    );
}
