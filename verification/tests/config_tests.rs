use cast_away::config::WebConfig;

#[test]
fn web_config_reads_the_port_text() {
    let c = WebConfig::new("localhost".to_string(), "8080".to_string());
    assert_eq!(c.hostname(), "localhost");
    assert_eq!(c.port(), 8080);
}

#[test]
fn web_config_url_names_host_and_port() {
    let c = WebConfig::new("127.0.0.1".to_string(), "+3000".to_string());
    assert_eq!(c.url(), "http://127.0.0.1:3000");
}

#[test]
fn web_config_setters_change_one_field() {
    let mut c = WebConfig::new("localhost".to_string(), "80".to_string());
    c.set_hostname("example.local".to_string());
    assert_eq!(c.hostname(), "example.local");
    assert_eq!(c.port(), 80);
    c.set_port(9000);
    assert_eq!(c.port(), 9000);
    assert_eq!(c.hostname(), "example.local");
    assert_eq!(c.url(), "http://example.local:9000");
}

#[test]
fn web_config_url_port_reads_back() {
    let c = WebConfig::new("h".to_string(), "0065535".to_string());
    let url = c.url();
    let port_text = url.rsplit(':').next().unwrap();
    assert_eq!(port_text, "65535");
    assert_eq!(cast_away::text::parse_usize(port_text), Some(c.port()));
}
