use lib::libusb_error::{Error, LIBUSB_ERROR_BUSY, LIBUSB_ERROR_IO, LIBUSB_ERROR_OTHER};

#[test]
fn error_codes() {
    assert_eq!(Error::new(LIBUSB_ERROR_IO), Error::IO);
    assert_eq!(Error::new(-2), Error::INVALID_PARAM);
    assert_eq!(Error::new(-3), Error::ACCESS);
    assert_eq!(Error::new(-4), Error::NO_DEVICE);
    assert_eq!(Error::new(-5), Error::NOT_FOUND);
    assert_eq!(Error::new(LIBUSB_ERROR_BUSY), Error::BUSY);
    assert_eq!(Error::new(-7), Error::TIMEOUT);
    assert_eq!(Error::new(-8), Error::OVERFLOW);
    assert_eq!(Error::new(-9), Error::PIPE);
    assert_eq!(Error::new(-10), Error::INTERRUPTED);
    assert_eq!(Error::new(-11), Error::NO_MEM);
    assert_eq!(Error::new(-12), Error::NOT_SUPPORTED);
    assert_eq!(Error::new(LIBUSB_ERROR_OTHER), Error::OTHER);
    assert_eq!(Error::new(0), Error::SUCCESS(0));
    assert_eq!(Error::new(5), Error::SUCCESS(5));
    assert_eq!(Error::new(-13), Error::SUCCESS(-13));
}

#[test]
fn error_messages() {
    assert_eq!(Error::new(0).to_string(), "Success (no error)");
    assert_eq!(Error::IO.to_string(), "Input/output error");
    assert_eq!(Error::BUSY.to_string(), "Resource busy");
    assert_eq!(Error::PIPE.to_string(), "Pipe error");
    assert_eq!(Error::OTHER.to_string(), "Other error");
    assert_eq!(
        Error::NOT_SUPPORTED.to_string(),
        "Operation not supported or unimplemented on this platform"
    );
}
