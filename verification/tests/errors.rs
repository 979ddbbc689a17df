use bytestream::ByteStreamError;

#[test]
fn an_io_failure_can_be_carried() {
    let failure = std::io::Error::new(std::io::ErrorKind::UnexpectedEof, "short");
    let error = ByteStreamError::IOError(failure);
    match error {
        ByteStreamError::IOError(inner) => {
            assert_eq!(inner.kind(), std::io::ErrorKind::UnexpectedEof)
        }
        other => panic!("unexpected {:?}", other),
    }
}

#[test]
fn the_scan_failures_have_their_messages() {
    match ByteStreamError::unterminated() {
        ByteStreamError::Message(message) => {
            assert_eq!(message, "Unable to find null terminator for string.")
        }
        other => panic!("unexpected {:?}", other),
    }
    match ByteStreamError::misaligned() {
        ByteStreamError::Message(message) => {
            assert_eq!(message, "The determined string length must be a multiple of 2.")
        }
        other => panic!("unexpected {:?}", other),
    }
}
