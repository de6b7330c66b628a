use vstd::prelude::*;
use crate::aead::AeadType;
use crate::profile::{BaseActiveConfig, BasePassiveConfig, ConnectMode, ProtocalType};
use crate::stream::SsOutProxy;

verus! {

/// Why a configuration cannot be run.
#[derive(Debug, Clone, Copy, PartialEq, Eq, Structural)]
pub enum ConfigError {
    /// This protocol cannot serve in this mode on this side.
    Unsupported(ProtocalType, ConnectMode),
    /// A Shadowsocks adapter was given no password.
    MissingPassword,
}

/// The input adapter a configuration selects.
#[derive(Debug, Clone, Copy, PartialEq, Eq, Structural)]
pub enum InputRoute {
    Socks5,
    Shadowsocks(AeadType),
}

/// The output adapter a configuration selects.
#[derive(Debug, Clone, Copy, PartialEq, Eq, Structural)]
pub enum OutputRoute {
    Shadowsocks(AeadType),
    Socks5,
    Raw,
}

/// The cipher of each Shadowsocks protocol.
pub open spec fn ss_kind(t: ProtocalType) -> Option<AeadType> {
    match t {
        ProtocalType::SsAes128Gcm => Some(AeadType::AES128GCM),
        ProtocalType::SsAes256Gcm => Some(AeadType::AES256GCM),
        ProtocalType::Chacha20Poly1305 => Some(AeadType::Chacha20Poly1305),
        _ => None,
    }
}

/// The output adapter for `name` in `mode` (active where none is given).
pub open spec fn output_route(name: ProtocalType, mode: Option<ConnectMode>) -> Result<OutputRoute, ConfigError> {
    let m = match mode {
        Some(m) => m,
        None => ConnectMode::Active,
    };
    if m == ConnectMode::Passive {
        Err(ConfigError::Unsupported(name, m))
    } else {
        match name {
            ProtocalType::Socks5 => Ok(OutputRoute::Socks5),
            ProtocalType::Raw => Ok(OutputRoute::Raw),
            ProtocalType::Original => Err(ConfigError::Unsupported(name, m)),
            _ => Ok(OutputRoute::Shadowsocks(ss_kind(name).unwrap())),
        }
    }
}

/// The input adapter for `name` in `mode` (passive where none is given).
pub open spec fn input_route(name: ProtocalType, mode: Option<ConnectMode>) -> Result<InputRoute, ConfigError> {
    let m = match mode {
        Some(m) => m,
        None => ConnectMode::Passive,
    };
    if m == ConnectMode::Active {
        Err(ConfigError::Unsupported(name, m))
    } else {
        match name {
            ProtocalType::Socks5 => Ok(InputRoute::Socks5),
            ProtocalType::Original | ProtocalType::Raw => Err(ConfigError::Unsupported(name, m)),
            _ => Ok(InputRoute::Shadowsocks(ss_kind(name).unwrap())),
        }
    }
}

/// The cipher a Shadowsocks protocol names; AES-128-GCM for any other.
pub fn change_ss_type(t: &ProtocalType) -> (r: AeadType)
    ensures
        r == match ss_kind(*t) {
            Some(k) => k,
            None => AeadType::AES128GCM,
        },
{
    match t {
        ProtocalType::SsAes128Gcm => AeadType::AES128GCM,
        ProtocalType::SsAes256Gcm => AeadType::AES256GCM,
        ProtocalType::Chacha20Poly1305 => AeadType::Chacha20Poly1305,
        _ => AeadType::AES128GCM,
    }
}

/// Chooses adapters from the configuration.
pub struct ProtocolSelector {}

impl ProtocolSelector {
    /// Selects the output adapter.
    pub fn select_output(name: &ProtocalType, mode: &Option<ConnectMode>) -> (r: Result<OutputRoute, ConfigError>)
        ensures
            r == output_route(*name, *mode),
    {
        let m = match mode {
            Some(m) => *m,
            None => ConnectMode::Active,
        };
        match m {
            ConnectMode::Passive => Err(ConfigError::Unsupported(*name, m)),
            ConnectMode::Active => match name {
                ProtocalType::Socks5 => Ok(OutputRoute::Socks5),
                ProtocalType::Raw => Ok(OutputRoute::Raw),
                ProtocalType::Original => Err(ConfigError::Unsupported(*name, m)),
                _ => Ok(OutputRoute::Shadowsocks(change_ss_type(name))),
            },
        }
    }

    /// Selects the input adapter.
    pub fn select_input(name: &ProtocalType, mode: &Option<ConnectMode>) -> (r: Result<InputRoute, ConfigError>)
        ensures
            r == input_route(*name, *mode),
    {
        let m = match mode {
            Some(m) => *m,
            None => ConnectMode::Passive,
        };
        match m {
            ConnectMode::Active => Err(ConfigError::Unsupported(*name, m)),
            ConnectMode::Passive => match name {
                ProtocalType::Socks5 => Ok(InputRoute::Socks5),
                ProtocalType::Original | ProtocalType::Raw => Err(ConfigError::Unsupported(*name, m)),
                _ => Ok(InputRoute::Shadowsocks(change_ss_type(name))),
            },
        }
    }

    /// The Shadowsocks output adapter for `config`, which must hold a password.
    pub fn ss_output(config: &BaseActiveConfig, aead_type: &AeadType) -> (r: Result<SsOutProxy, ConfigError>)
        ensures
            config.password is None ==> r == Err::<SsOutProxy, _>(ConfigError::MissingPassword),
            config.password matches Some(p) ==> (r matches Ok(o) && o.ss_addr@ == config.remote_host@
                && o.ss_port == config.remote_port && o.password@ == p@ && o.aead_type == *aead_type),
    {
        match &config.password {
            Some(p) => Ok(SsOutProxy::new(config.remote_host.clone(), config.remote_port, p.clone(), aead_type)),
            None => Err(ConfigError::MissingPassword),
        }
    }

    /// The password of a Shadowsocks input adapter, which must be given.
    pub fn ss_input_password(config: &BasePassiveConfig) -> (r: Result<String, ConfigError>)
        ensures
            config.password is None ==> r == Err::<String, _>(ConfigError::MissingPassword),
            config.password matches Some(p) ==> (r matches Ok(s) && s@ == p@),
    {
        match &config.password {
            Some(p) => Ok(p.clone()),
            None => Err(ConfigError::MissingPassword),
        }
    }
}

} // verus!
