//! The plain data of the wireless link: credentials and IPv4 addressing.
use vstd::prelude::*;

verus! {

/// The name of a wireless network, and its passphrase if it has one.
pub struct WlanCredentialsView {
    pub ssid: Seq<char>,
    pub password: Option<Seq<char>>,
}

/// The name of a wireless network, and its passphrase if it has one. A
/// network without passphrase is joined as an open network.
#[derive(Clone, Copy, Debug)]
pub struct WlanCredentials {
    ssid: &'static str,
    password: Option<&'static str>,
}

impl View for WlanCredentials {
    type V = WlanCredentialsView;

    closed spec fn view(&self) -> WlanCredentialsView {
        WlanCredentialsView {
            ssid: self.ssid@,
            password: match self.password {
                Some(password) => Some(password@),
                None => None,
            },
        }
    }
}

impl WlanCredentials {
    pub fn new(ssid: &'static str, password: Option<&'static str>) -> (credentials: Self)
        ensures
            credentials@.ssid == ssid@,
            credentials@.password is Some == password is Some,
            password matches Some(p) ==> credentials@.password == Some(p@),
    {
        Self { ssid, password }
    }

    /// The name of the network.
    pub fn ssid(&self) -> (ssid: &'static str)
        ensures
            ssid@ == self@.ssid,
    {
        self.ssid
    }

    /// The passphrase of the network, if it has one.
    pub fn password(&self) -> (password: Option<&'static str>)
        ensures
            password is Some == self@.password is Some,
            password matches Some(p) ==> self@.password == Some(p@),
    {
        self.password
    }
}

/// An IPv4 address with the length of its network prefix.
#[derive(Clone, Copy, Debug, PartialEq, Eq)]
pub struct Ipv4WithMask(pub [u8; 4], pub u8);

/// An IPv4 address.
#[derive(Clone, Copy, Debug, PartialEq, Eq)]
pub struct Ipv4(pub [u8; 4]);

/// A static IPv4 configuration: the own address, and the gateway if there
/// is one.
#[derive(Clone, Copy, Debug, PartialEq, Eq)]
pub struct Ipv4Config {
    pub ip: Ipv4WithMask,
    pub gateway: Option<Ipv4>,
}

impl Ipv4Config {
    pub fn new(ip: Ipv4WithMask, gateway: Option<Ipv4>) -> (config: Self)
        ensures
            config == (Ipv4Config { ip, gateway }),
    {
        Self { ip, gateway }
    }

    /// The configuration that a network stack reports as the octets of its
    /// address, the length of its prefix and the octets of its gateway.
    pub fn from_cyw_config(address: [u8; 4], prefix_len: u8, gateway: Option<[u8; 4]>) -> (config:
        Self)
        ensures
            config.ip == Ipv4WithMask(address, prefix_len),
            config.gateway is Some == gateway is Some,
            gateway matches Some(g) ==> config.gateway == Some(Ipv4(g)),
    {
        let ip = Ipv4WithMask(address, prefix_len);
        let gateway = if let Some(g) = gateway {
            Some(Ipv4(g))
        } else {
            None
        };
        Self::new(ip, gateway)
    }
}

} // verus!
