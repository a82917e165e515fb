use rig::cli::{Commands, GlobalOpts, OutputFormat};
use rig::codec::decode_auth_response;
use rig::codec::{decode_token_record, encode_token_record};
use rig::http::{AuthRequest, HttpClient};
use rig::numeral::{parse_u64, u64_to_string};
use rig::Config;
use rig::RigError;

#[test]
fn test_u64_to_string() {
    assert_eq!(u64_to_string(0), "0");
    assert_eq!(u64_to_string(7), "7");
    assert_eq!(u64_to_string(1234567890), "1234567890");
    assert_eq!(u64_to_string(u64::MAX), "18446744073709551615");
}

#[test]
fn test_parse_u64() {
    assert_eq!(parse_u64("0"), Some(0));
    assert_eq!(parse_u64("007"), Some(7));
    assert_eq!(parse_u64("+42"), Some(42));
    assert_eq!(parse_u64("18446744073709551615"), Some(u64::MAX));
    assert_eq!(parse_u64("18446744073709551616"), None);
    assert_eq!(parse_u64(""), None);
    assert_eq!(parse_u64("+"), None);
    assert_eq!(parse_u64("12a"), None);
    assert_eq!(parse_u64("-1"), None);
}

#[test]
fn test_encode_token_record_escapes() {
    assert_eq!(
        encode_token_record("abc123", Some(9)),
        "{\"token\":\"abc123\",\"expires_at\":9}"
    );
    assert_eq!(
        encode_token_record("a\"b\\c", None),
        "{\"token\":\"a\\\"b\\\\c\",\"expires_at\":null}"
    );
    assert_eq!(
        encode_token_record("\n", None),
        "{\"token\":\"\\u000a\",\"expires_at\":null}"
    );
}

#[test]
fn test_decode_token_record() {
    assert_eq!(
        decode_token_record("{\"token\":\"abc\",\"expires_at\":12}"),
        Some(("abc".to_string(), Some(12)))
    );
    assert_eq!(
        decode_token_record("{\"token\":\"\\u0001\",\"expires_at\":null}"),
        Some(("\u{1}".to_string(), None))
    );
    assert_eq!(decode_token_record("{\"token\":\"abc\""), None);
    assert_eq!(decode_token_record("{\"token\":\"abc\",\"expires_at\":012}"), None);
    assert_eq!(decode_token_record(""), None);
    assert_eq!(decode_token_record("{\"token\":\"abc\",\"expires_at\":1 }"), None);
}

#[test]
fn test_auth_request_json() {
    let req = AuthRequest { username: "alice".to_string(), password: "p\"w".to_string() };
    assert_eq!(req.to_json(), "{\"username\":\"alice\",\"password\":\"p\\\"w\"}");
}

#[test]
fn test_http_client_rejects_bad_url() {
    let err = HttpClient::new("not a url", 30, 3).unwrap_err();
    assert!(matches!(err, RigError::InvalidUrl(_)));
    let ok = HttpClient::new("https://api.max.dev", 30, 3).unwrap();
    assert_eq!(ok.base_url, "https://api.max.dev");
    assert_eq!(ok.timeout_secs, 30);
    assert_eq!(ok.retry_attempts, 3);
}

#[test]
fn test_is_json_output() {
    let opts = GlobalOpts {
        output: OutputFormat::Table,
        verbose: false,
        json: true,
        config: None,
    };
    assert!(opts.is_json_output());
    let opts = GlobalOpts {
        output: OutputFormat::Json,
        verbose: false,
        json: false,
        config: None,
    };
    assert!(opts.is_json_output());
    let opts = GlobalOpts {
        output: OutputFormat::Yaml,
        verbose: false,
        json: false,
        config: None,
    };
    assert!(!opts.is_json_output());
    let _ = Commands::Version;
}

#[test]
fn test_config_default() {
    let c = Config::default();
    assert_eq!(c.connection.base_url, "https://api.max.dev");
    assert_eq!(c.connection.websocket_url, "wss://api.max.dev/socket/websocket");
    assert_eq!(c.connection.timeout, 30);
    assert_eq!(c.connection.retry_attempts, 3);
    assert_eq!(c.defaults.output_format, "table");
    assert_eq!(c.defaults.log_level, "info");
    assert!(c.defaults.auto_connect);
    assert!(!c.defaults.follow_logs);
}

#[test]
fn test_decode_auth_response_accepts_documented_shape() {
    assert_eq!(
        decode_auth_response("{\"token\": \"a\"}"),
        Some(("a".to_string(), None))
    );
    assert_eq!(
        decode_auth_response("  { \"token\" : \"a\" , \"expires_at\" : \"99\" }  "),
        Some(("a".to_string(), Some("99".to_string())))
    );
    assert_eq!(
        decode_auth_response("{\"expires_at\":\"7\",\"token\":\"b\"}"),
        Some(("b".to_string(), Some("7".to_string())))
    );
    assert_eq!(
        decode_auth_response("{\"token\":\"x\",\"expires_at\":null}"),
        Some(("x".to_string(), None))
    );
    assert_eq!(
        decode_auth_response("{\"token\":\"a\\nb\\t\\u0041\\u00e9\"}"),
        Some(("a\nb\tA\u{e9}".to_string(), None))
    );
}

#[test]
fn test_decode_auth_response_rejects_malformed() {
    assert_eq!(decode_auth_response("{\"token\":null}"), None);
    assert_eq!(decode_auth_response("{\"expires_at\":\"9\"}"), None);
    assert_eq!(decode_auth_response("{\"token\":\"a\"} x"), None);
    assert_eq!(decode_auth_response("{\"token\":\"a\""), None);
    assert_eq!(decode_auth_response("{\"token\":\"\\ud800\"}"), None);
    assert_eq!(decode_auth_response(""), None);
}
