use nautilus_agents::client::ClientError;
use nautilus_agents::protocol::version::ProtocolVersion;

#[test]
fn test_client_error_messages() {
    assert_eq!(
        ClientError::Transport {
            message: "connection reset".to_owned()
        }
        .message(),
        "transport failed: connection reset"
    );
    assert_eq!(
        ClientError::Decoding {
            message: "missing field `status`".to_owned()
        }
        .message(),
        "response decoding failed: missing field `status`"
    );
    assert_eq!(
        ClientError::UnsupportedVersion {
            version: ProtocolVersion::new(2, 0)
        }
        .message(),
        "unsupported protocol version ProtocolVersion { major: 2, minor: 0 }"
    );
}
