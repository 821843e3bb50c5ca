use ironposh_client_core::connector::http::{Body, Encrypted, HttpBuilder, ServerAddress, Xml};
use ironposh_client_core::connector::transport::Scheme;
use ironposh_client_core::connector::ConnectorState;
use ironposh_client_core::pipeline::{Parameter, PipelineCommand};

#[test]
fn scripts_and_commands_start_without_parameters() {
    let s = PipelineCommand::new_script("Get-Process | Select -First 1".to_string());
    assert!(s.is_script);
    assert!(s.parameters.is_empty());
    let c = PipelineCommand::new_command("Get-Item".to_string());
    assert!(!c.is_script);
    assert_eq!(c.command_text, "Get-Item");
}

#[test]
fn parameters_keep_their_order() {
    let c = PipelineCommand::new_command("Get-ChildItem".to_string())
        .with_parameter(Parameter::Named { name: "Path".to_string(), value: "<S>C:\\</S>".to_string() })
        .with_parameter(Parameter::Switch { name: "Recurse".to_string(), value: true });
    assert_eq!(c.parameters.len(), 2);
    assert!(matches!(&c.parameters[0], Parameter::Named { name, .. } if name == "Path"));
    assert!(matches!(&c.parameters[1], Parameter::Switch { name, value: true } if name == "Recurse"));
}

#[test]
fn output_stream_is_out_string_with_stream_switch() {
    let c = PipelineCommand::new_output_stream();
    assert_eq!(c.command_text, "Out-String");
    assert_eq!(c.parameters, vec![Parameter::Switch { name: "Stream".to_string(), value: true }]);
}

#[test]
fn connector_states_have_names() {
    assert_eq!(ConnectorState::Idle.state_name(), "Idle");
    assert_eq!(ConnectorState::Connected.state_name(), "Connected");
}

#[test]
fn basic_header_is_queued() {
    let mut b = HttpBuilder::new(ServerAddress::Ip("127.0.0.1".to_string()), 5985, Scheme::Http);
    b.with_basic("user", "pass");
    assert_eq!(b.headers, vec![("Authorization".to_string(), "Basic dXNlcjpwYXNz".to_string())]);
}

#[test]
fn body_kinds_carry_their_text_and_mime_type() {
    let x = Xml::new("<a/>".to_string());
    assert_eq!(x.inner(), "<a/>");
    assert_eq!(Xml::body_type(), "application/soap+xml; charset=utf-8");
    let e = Encrypted::new("sealed".to_string());
    assert_eq!(e.inner(), "sealed");
    assert!(Encrypted::body_type().starts_with("multipart/encrypted;"));
}
