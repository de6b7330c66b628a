use relay_proxy::address::AddressType;
use relay_proxy::raw::{connect_plan, ConnectPlan};
use relay_proxy::aead::AeadType;
use relay_proxy::profile::{BaseActiveConfig, BasePassiveConfig, ConnectMode, ProtocalType};
use relay_proxy::selector::{change_ss_type, ConfigError, InputRoute, OutputRoute, ProtocolSelector};

#[test]
fn ss_types() {
    assert_eq!(change_ss_type(&ProtocalType::SsAes128Gcm), AeadType::AES128GCM);
    assert_eq!(change_ss_type(&ProtocalType::SsAes256Gcm), AeadType::AES256GCM);
    assert_eq!(change_ss_type(&ProtocalType::Chacha20Poly1305), AeadType::Chacha20Poly1305);
    assert_eq!(change_ss_type(&ProtocalType::Raw), AeadType::AES128GCM);
}

#[test]
fn allowed_routes() {
    assert_eq!(ProtocolSelector::select_input(&ProtocalType::Socks5, &None), Ok(InputRoute::Socks5));
    assert_eq!(
        ProtocolSelector::select_input(&ProtocalType::SsAes256Gcm, &Some(ConnectMode::Passive)),
        Ok(InputRoute::Shadowsocks(AeadType::AES256GCM))
    );
    assert_eq!(ProtocolSelector::select_output(&ProtocalType::Raw, &None), Ok(OutputRoute::Raw));
    assert_eq!(ProtocolSelector::select_output(&ProtocalType::Socks5, &Some(ConnectMode::Active)), Ok(OutputRoute::Socks5));
    assert_eq!(
        ProtocolSelector::select_output(&ProtocalType::Chacha20Poly1305, &None),
        Ok(OutputRoute::Shadowsocks(AeadType::Chacha20Poly1305))
    );
}

#[test]
fn disallowed_routes() {
    assert_eq!(
        ProtocolSelector::select_input(&ProtocalType::Original, &None),
        Err(ConfigError::Unsupported(ProtocalType::Original, ConnectMode::Passive))
    );
    assert_eq!(
        ProtocolSelector::select_output(&ProtocalType::Original, &None),
        Err(ConfigError::Unsupported(ProtocalType::Original, ConnectMode::Active))
    );
    assert_eq!(
        ProtocolSelector::select_input(&ProtocalType::Socks5, &Some(ConnectMode::Active)),
        Err(ConfigError::Unsupported(ProtocalType::Socks5, ConnectMode::Active))
    );
    assert_eq!(
        ProtocolSelector::select_output(&ProtocalType::Raw, &Some(ConnectMode::Passive)),
        Err(ConfigError::Unsupported(ProtocalType::Raw, ConnectMode::Passive))
    );
    assert_eq!(
        ProtocolSelector::select_input(&ProtocalType::Raw, &None),
        Err(ConfigError::Unsupported(ProtocalType::Raw, ConnectMode::Passive))
    );
}

#[test]
fn ss_output_needs_password() {
    let mut conf = BaseActiveConfig { remote_host: "127.0.0.1".to_string(), remote_port: 8388, password: None };
    assert!(matches!(ProtocolSelector::ss_output(&conf, &AeadType::AES128GCM), Err(ConfigError::MissingPassword)));
    conf.password = Some("pw".to_string());
    let out = ProtocolSelector::ss_output(&conf, &AeadType::AES128GCM).unwrap();
    assert_eq!(out.password, "pw");
    assert_eq!(out.ss_port, 8388);
    let passive = BasePassiveConfig { local_host: "127.0.0.1".to_string(), local_port: 1080, password: None };
    assert_eq!(ProtocolSelector::ss_input_password(&passive), Err(ConfigError::MissingPassword));
}

#[test]
fn raw_connect_plans() {
    assert_eq!(connect_plan(AddressType::IPv4, true), ConnectPlan::Direct);
    assert_eq!(connect_plan(AddressType::IPv6, false), ConnectPlan::Direct);
    assert_eq!(connect_plan(AddressType::Domain, true), ConnectPlan::ResolveWithDns);
    assert_eq!(connect_plan(AddressType::Domain, false), ConnectPlan::SystemResolver);
}
