use image_prediction::input::{settle_opts, split_ip_port, starts_with, Opts, OptsError};

#[test]
fn split_at_first_colon() {
    assert_eq!(split_ip_port("127.0.0.1:8080"), Some(("127.0.0.1", "8080")));
    assert_eq!(split_ip_port("a:b:c"), Some(("a", "b:c")));
    assert_eq!(split_ip_port(":"), Some(("", "")));
    assert_eq!(split_ip_port("no-colon"), None);
    assert_eq!(split_ip_port(""), None);
}

#[test]
fn default_opts() {
    let o = Opts::default();
    assert_eq!(o.config, "config.yaml");
    assert_eq!(o.addr, "0.0.0.0:1301");
    assert_eq!(o.tensorflow_api_addr, "http://localhost:8501/v1");
}

#[test]
fn addr_override_needs_ip_port() {
    let o = settle_opts(Opts::default(), Some("10.0.0.1:9000")).ok().unwrap();
    assert_eq!(o.addr, "10.0.0.1:9000");
    let o = settle_opts(Opts::default(), Some("localhost")).ok().unwrap();
    assert_eq!(o.addr, "0.0.0.0:1301");
    let o = settle_opts(Opts::default(), None).ok().unwrap();
    assert_eq!(o.addr, "0.0.0.0:1301");
}

#[test]
fn backend_url_scheme_checked() {
    let mut o = Opts::default();
    o.tensorflow_api_addr = "https://tf:8501/v1".to_string();
    assert!(settle_opts(o, None).is_ok());
    let mut o = Opts::default();
    o.tensorflow_api_addr = "ftp://tf".to_string();
    match settle_opts(o, None) {
        Err(e) => {
            let OptsError::InvalidBackendUrl { addr } = &e;
            assert_eq!(addr, "ftp://tf");
            assert_eq!(e.message(), "Invalid tensorflow_api_addr: ftp://tf");
        }
        Ok(_) => panic!("an ftp URL must be refused"),
    }
}

#[test]
fn prefix_check() {
    assert!(starts_with("http://x", "http://"));
    assert!(!starts_with("http:/", "http://"));
    assert!(starts_with("", ""));
}
