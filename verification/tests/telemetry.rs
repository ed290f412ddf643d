use nimbis_storage::telemetry::GlobalTelemetryManager;
use nimbis_storage::telemetry::TelemetryManager;
use std::sync::Arc;
use nimbis_storage::telemetry::TelemetryError;
use nimbis_storage::telemetry::TraceProtocol;
use nimbis_storage::telemetry::Tracer;
use nimbis_storage::telemetry::parse_trace_protocol;
use nimbis_storage::telemetry::trim_text;
use nimbis_storage::telemetry::validate_trace_config;

#[test]
fn test_init_rejects_invalid_trace_protocol() {
	let result = validate_trace_config(true, "http://localhost:4317", "invalid");
	assert!(matches!(result, Err(TelemetryError::TraceInitFailed(_))));
}

#[test]
fn protocols_are_matched_after_trimming_and_lower_casing() {
	assert_eq!(parse_trace_protocol("grpc").unwrap(), TraceProtocol::Grpc);
	assert_eq!(parse_trace_protocol("  HTTP_Binary\t").unwrap(), TraceProtocol::HttpBinary);
	assert_eq!(parse_trace_protocol("\u{3000}http_json\n").unwrap(), TraceProtocol::HttpJson);
	match parse_trace_protocol(" Bogus ") {
		Err(TelemetryError::TraceInitFailed(message)) => assert_eq!(
			message,
			"invalid trace protocol: bogus. expected grpc/http_binary/http_json"
		),
		_ => panic!("expected a protocol error"),
	}
}

#[test]
fn an_enabled_tracer_needs_an_endpoint() {
	match validate_trace_config(true, "", "grpc") {
		Err(TelemetryError::TraceInitFailed(message)) => assert_eq!(
			message,
			"trace_endpoint must be set when trace collection is enabled"
		),
		_ => panic!("expected an endpoint error"),
	}
	assert_eq!(validate_trace_config(false, "", "bogus").unwrap(), None);
	assert_eq!(
		validate_trace_config(true, "http://collector:4318", "http_json").unwrap(),
		Some(TraceProtocol::HttpJson)
	);
}

#[test]
fn trimming_removes_unicode_white_space_only_at_the_ends() {
	assert_eq!(trim_text("  a b  "), "a b");
	assert_eq!(trim_text("\u{a0}x\u{2009}"), "x");
	assert_eq!(trim_text("   "), "");
	assert_eq!(trim_text(""), "");
}

#[test]
fn error_messages_name_the_failure() {
	assert_eq!(
		TelemetryError::InvalidLogOutput("x".into()).to_display_string(),
		"Invalid log output: x. Valid values: terminal, file"
	);
	assert_eq!(
		TelemetryError::InvalidLogRotation("y".into()).to_display_string(),
		"Invalid log rotation: y. Valid values: minutely, hourly, daily, never"
	);
	assert_eq!(TelemetryError::NotInitialized.to_display_string(), "Logger not initialized");
	assert_eq!(TelemetryError::AlreadyInitialized.to_display_string(), "Logger already initialized");
	assert_eq!(
		TelemetryError::InvalidLogLevel("z".into()).to_display_string(),
		"Invalid log level/filter expression: z"
	);
	assert_eq!(
		TelemetryError::ReloadFailed("r".into()).to_display_string(),
		"Failed to reload log level: r"
	);
	assert_eq!(
		TelemetryError::InitFailed("i".into()).to_display_string(),
		"Failed to initialize logger: i"
	);
	assert_eq!(
		TelemetryError::TraceInitFailed("t".into()).to_display_string(),
		"Failed to initialize trace collector: t"
	);
}

#[test]
fn a_disabled_tracer_flushes_nothing() {
	let tracer = Tracer::disabled();
	assert!(!tracer.enabled());
	tracer.flush();
	assert!(Tracer::started().enabled());
}

#[test]
fn the_first_installed_telemetry_manager_stays() {
	let mut global = GlobalTelemetryManager::new();
	assert!(!global.is_initialized());
	global.init(Arc::new(TelemetryManager::disabled()));
	assert!(global.is_initialized());
	global.init(Arc::new(TelemetryManager::new(Tracer::started())));
	assert!(!global.load().is_tracing());
	assert!(!GlobalTelemetryManager::default().is_initialized());
}
