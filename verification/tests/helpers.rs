use generic_search::config::{CertsInfo, ClientConfig, LoadError, ServerInfo};

#[test]
fn test_server_config_new() {
    // Call the new method with the temporary config file
    let _config = ClientConfig::new(
        String::from(r"/Users/zeyadhabib/Repos/generic_search/zombie_hunt/config/client_config.yaml"));
}

#[test]
fn config_load_names_the_file() {
    let load = ClientConfig::new(String::from("config/client_config.yaml"));
    assert_eq!(load.file(), "config/client_config.yaml");
}

fn sample_config() -> ClientConfig {
    ClientConfig {
        server_info: ServerInfo {
            address: String::from("https://[::1]"),
            domain: String::from("zeyad.server.com"),
            port: 50051,
        },
        certs_info: CertsInfo::new(
            String::from("certs"),
            String::from("client.pem"),
            String::from("client.key"),
            String::from("ca.pem"),
        ),
    }
}

#[test]
fn config_load_outcomes() {
    let load = ClientConfig::new(String::from("a.yaml"));
    match load.finish(false, None) {
        Err(e) => {
            assert!(matches!(e, LoadError::CannotOpen));
            assert_eq!(e.message(), "Could not open file.");
        }
        Ok(_) => panic!("an unopened file gives no configuration"),
    }
    let load = ClientConfig::new(String::from("a.yaml"));
    match load.finish(true, None) {
        Err(e) => {
            assert!(matches!(e, LoadError::CannotRead));
            assert_eq!(e.message(), "Could not read values.");
        }
        Ok(_) => panic!("unreadable contents give no configuration"),
    }
    let load = ClientConfig::new(String::from("a.yaml"));
    match load.finish(true, Some(sample_config())) {
        Ok(config) => assert_eq!(config.server_info.port, 50051),
        Err(_) => panic!("a parsed configuration is kept"),
    }
}

#[test]
fn endpoint_joins_address_and_port() {
    let config = sample_config();
    assert_eq!(config.server_info.endpoint(), "https://[::1]:50051");
    let server = ServerInfo { address: String::from("[::1]"), domain: String::new(), port: 0 };
    assert_eq!(server.endpoint(), "[::1]:0");
    let server = ServerInfo { address: String::from("h"), domain: String::new(), port: 65535 };
    assert_eq!(server.endpoint(), "h:65535");
    let server = ServerInfo { address: String::from("h"), domain: String::new(), port: 10 };
    assert_eq!(server.endpoint(), "h:10");
}

#[test]
fn endpoint_port_reads_back() {
    for port in [0u16, 7, 10, 99, 100, 8080, 50051, 65535] {
        let server = ServerInfo { address: String::from("x"), domain: String::new(), port };
        let e = server.endpoint();
        let digits = e.strip_prefix("x:").unwrap();
        assert_eq!(digits.parse::<u16>().unwrap(), port);
        assert_eq!(digits, port.to_string());
    }
}

#[test]
fn cert_paths_are_under_the_certs_dir() {
    let config = sample_config();
    let (cert, key, ca) = config.certs_info.paths();
    assert_eq!(cert, "certs/client.pem");
    assert_eq!(key, "certs/client.key");
    assert_eq!(ca, "certs/ca.pem");
    assert_eq!(config.certs_info.certs_dir(), "certs");
    assert_eq!(config.certs_info.leaf_cert(), "client.pem");
    assert_eq!(config.certs_info.leaf_key(), "client.key");
    assert_eq!(config.certs_info.ca_cert(), "ca.pem");
}

#[test]
fn certificates_keep_their_pem_text() {
    let config = sample_config();
    let (_identity, ca) = config.certs_info.get(
        String::from("CERT"),
        String::from("KEY"),
        String::from("AUTHORITY"),
    );
    assert_eq!(ca.get_ref(), b"AUTHORITY");
}
