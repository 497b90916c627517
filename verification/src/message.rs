//! The message vocabulary exchanged between client and server.
use vstd::prelude::*;

verus! {

use crate::mac::{Mac, is_canonical_mac};

/// Device identity sent in an advertisement.  The synthetic asset ID is
/// carried in `hostname`, which is historically so named.
#[derive(Clone, Debug, PartialEq, Eq)]
pub struct DeviceInfo {
    pub hostname: Option<String>,
    pub mac_address: Mac,
}

/// Mathematical model of a `DeviceInfo`: its two texts as character sequences.
pub struct DeviceInfoModel {
    pub hostname: Option<Seq<char>>,
    pub mac: Seq<char>,
}

impl View for DeviceInfo {
    type V = DeviceInfoModel;

    open spec fn view(&self) -> DeviceInfoModel {
        DeviceInfoModel {
            hostname: match self.hostname {
                Some(h) => Some(h@),
                None => None,
            },
            mac: self.mac_address@,
        }
    }
}

impl DeviceInfoModel {
    /// The address text is canonical, as every live `Mac` is.
    pub open spec fn wf(self) -> bool {
        is_canonical_mac(self.mac)
    }
}

/// Everything a client may say to the server.
#[derive(Clone, Debug, PartialEq, Eq)]
pub enum ClientMessage {
    /// "I'm ready to be built": announces the device identity.
    Advertise(DeviceInfo),
    /// "Give me the current list of devices."
    ListDevices,
}

/// Mathematical model of a `ClientMessage`.
pub enum MessageModel {
    Advertise(DeviceInfoModel),
    ListDevices,
}

impl View for ClientMessage {
    type V = MessageModel;

    open spec fn view(&self) -> MessageModel {
        match self {
            ClientMessage::Advertise(info) => MessageModel::Advertise(info@),
            ClientMessage::ListDevices => MessageModel::ListDevices,
        }
    }
}

impl MessageModel {
    /// An advertisement carries a well-formed identity; the list request
    /// carries nothing.
    pub open spec fn wf(self) -> bool {
        match self {
            MessageModel::Advertise(d) => d.wf(),
            MessageModel::ListDevices => true,
        }
    }
}

/// Server-side record of one advertised device: the identity and the moment
/// it was accepted, in milliseconds since the epoch.
#[derive(Clone, Debug, PartialEq, Eq)]
pub struct DeviceListing {
    info: DeviceInfo,
    added: i64,
}

impl DeviceListing {
    /// The recorded identity.
    pub closed spec fn spec_info(self) -> DeviceInfo {
        self.info
    }

    /// The recorded acceptance time.
    pub closed spec fn spec_added(self) -> i64 {
        self.added
    }

    /// Records an accepted advertisement; the record never changes afterwards.
    pub fn new(info: DeviceInfo, added: i64) -> (r: DeviceListing)
        ensures
            r.spec_info() == info,
            r.spec_added() == added,
    {
        DeviceListing { info, added }
    }

    /// The recorded identity.
    pub fn info(&self) -> (r: &DeviceInfo)
        ensures
            r == self.spec_info(),
    {
        &self.info
    }

    /// The recorded acceptance time.
    pub fn added(&self) -> (r: i64)
        ensures
            r == self.spec_added(),
    {
        self.added
    }
}

/// Everything the server may say back.  Not yet emitted by the current
/// ingest logic; specified for the protocol's completion.
#[derive(Clone, Debug, PartialEq, Eq)]
pub enum ServerMessage {
    /// "I've received your connection, this is your ID."
    ConnectionSuccess(u32),
    /// "A user has requested to rebuild you, you can start now."
    StartBuilding,
    /// "Here is the current list of devices ready to be deployed."
    DeviceList(Vec<DeviceListing>),
}

/// Where the server listens, as plain octets and a port.
pub struct ServerConfig {
    pub address: (u8, u8, u8, u8),
    pub port: u16,
}

/// Process configuration: the server endpoint.
pub struct Config {
    pub server: ServerConfig,
}

} // verus!
