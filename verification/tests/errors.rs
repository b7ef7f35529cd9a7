use msbe::config::SerdeJsonMainConfigLoader;
use msbe::errors::{ApiError, ConfigParseError, UpstreamNotFoundError};

#[test]
fn errors_describe_themselves() {
    assert_eq!(UpstreamNotFoundError.describe(), "UpstreamNotFoundError");
    assert_eq!(ConfigParseError::new().describe(), "ConfigParseError");
    assert_eq!(ConfigParseError::new(), ConfigParseError);
}

#[test]
fn api_error_getters() {
    let e = ApiError { code: 404, message: "not here".to_string(), error: None };
    assert_eq!(e.get_error_code(), 404);
    assert_eq!(e.get_error_message(), "not here");
    assert_eq!(e.describe(), "An Error Occurred, Please Try Again!");
    let caused = ApiError { code: 500, message: "boom".to_string(), error: Some("io".to_string()) };
    assert_eq!(caused.describe(), "An Error Occurred, Please Try Again!");
    assert_eq!(caused.get_error_code(), 500);
}

#[test]
fn loader_is_a_unit() {
    assert_eq!(SerdeJsonMainConfigLoader::new(), SerdeJsonMainConfigLoader);
}
