//! The messages between the daemon and its clients.

use vstd::prelude::*;

use crate::ids::MessageId;
use crate::ledcomm::{StateFrame, BYTES_PER_LED};

pub mod client;
pub mod codec;
pub mod ser_de;

verus! {

/// Where the daemon listens.
pub const SOCKET_ADDR: &'static str = "127.0.0.1:1210";

pub type Color = [u8; BYTES_PER_LED];

pub type LedStripState = StateFrame;

#[derive(Debug, Clone, Copy)]
pub enum LedCommand {
    SetStaticColor(Color),
    SetStripState(LedStripState),
    FadeIn { state: LedStripState, duration_ms: Option<u64> },
    FadeOut { duration_ms: Option<u64> },
    Rainbow,
    Breathing(Color),
}

#[derive(Debug)]
pub struct KinectStatus {
    pub connected: bool,
    pub status: String,
    pub device_serial: Option<String>,
    pub firmware_version: Option<String>,
    pub depth_active: bool,
    pub rgb_active: bool,
}

#[derive(Debug)]
pub enum KinectEvent {
    Status(KinectStatus),
}

#[derive(Debug, Clone, Copy, PartialEq, Eq, Structural)]
pub enum KinectCommand {
    RequestStatus,
}

/// What is known of the television.
#[derive(Debug, Clone, Copy, PartialEq, Eq, Structural)]
pub struct CecStatus {
    pub powered_on: bool,
    pub active_source: bool,
}

#[derive(Debug)]
pub enum CecEvent {
    Status(CecStatus),
    Error { message: String },
}

#[derive(Debug, Clone, Copy, PartialEq, Eq, Structural)]
pub enum CecCommand {
    PowerOn,
    PowerOff,
    RequestActiveSource,
    RequestStatus,
}

#[derive(Debug)]
pub struct MessageToClient {
    pub id: MessageId,
    pub data: MessageToClientData,
}

#[derive(Debug)]
pub enum MessageToClientData {
    Ack,
    Nack { reason: String },
    ManualMode { enabled: bool },
    IdleInhibit { enabled: bool, timeout_ms: Option<u64> },
    Kinect(KinectEvent),
    Cec(CecEvent),
}

#[derive(Debug, Clone, Copy)]
pub struct MessageToServer {
    pub id: MessageId,
    pub data: MessageToServerData,
}

#[derive(Debug, Clone, Copy)]
pub enum MessageToServerData {
    Led(LedCommand),
    SetManualMode { enabled: bool },
    GetManualMode,
    SetIdleInhibit { enabled: bool, timeout_ms: Option<u64> },
    GetIdleInhibit,
    Kinect(KinectCommand),
}

/// The model of [`KinectStatus`].
pub struct KinectStatusModel {
    pub connected: bool,
    pub status: Seq<char>,
    pub device_serial: Option<Seq<char>>,
    pub firmware_version: Option<Seq<char>>,
    pub depth_active: bool,
    pub rgb_active: bool,
}

/// The model of [`MessageToClientData`].
pub enum ClientDataModel {
    Ack,
    Nack { reason: Seq<char> },
    ManualMode { enabled: bool },
    IdleInhibit { enabled: bool, timeout_ms: Option<u64> },
    KinectStatus(KinectStatusModel),
    CecStatus(CecStatus),
    CecError { message: Seq<char> },
}

/// The characters of a text that may be missing.
pub open spec fn optional_text(text: Option<String>) -> Option<Seq<char>> {
    match text {
        Some(text) => Some(text@),
        None => None,
    }
}

impl View for KinectStatus {
    type V = KinectStatusModel;

    open spec fn view(&self) -> KinectStatusModel {
        KinectStatusModel {
            connected: self.connected,
            status: self.status@,
            device_serial: optional_text(self.device_serial),
            firmware_version: optional_text(self.firmware_version),
            depth_active: self.depth_active,
            rgb_active: self.rgb_active,
        }
    }
}

impl View for MessageToClientData {
    type V = ClientDataModel;

    open spec fn view(&self) -> ClientDataModel {
        match self {
            MessageToClientData::Ack => ClientDataModel::Ack,
            MessageToClientData::Nack { reason } => ClientDataModel::Nack { reason: reason@ },
            MessageToClientData::ManualMode { enabled } => ClientDataModel::ManualMode {
                enabled: *enabled,
            },
            MessageToClientData::IdleInhibit { enabled, timeout_ms } => {
                ClientDataModel::IdleInhibit { enabled: *enabled, timeout_ms: *timeout_ms }
            },
            MessageToClientData::Kinect(KinectEvent::Status(status)) => {
                ClientDataModel::KinectStatus(status@)
            },
            MessageToClientData::Cec(CecEvent::Status(status)) => ClientDataModel::CecStatus(
                *status,
            ),
            MessageToClientData::Cec(CecEvent::Error { message }) => ClientDataModel::CecError {
                message: message@,
            },
        }
    }
}

impl Clone for KinectStatus {
    fn clone(&self) -> (copy: Self)
        ensures
            copy == *self,
    {
        KinectStatus {
            connected: self.connected,
            status: self.status.clone(),
            device_serial: self.device_serial.clone(),
            firmware_version: self.firmware_version.clone(),
            depth_active: self.depth_active,
            rgb_active: self.rgb_active,
        }
    }
}

impl Clone for KinectEvent {
    fn clone(&self) -> (copy: Self)
        ensures
            copy == *self,
    {
        match self {
            KinectEvent::Status(status) => KinectEvent::Status(status.clone()),
        }
    }
}

impl Clone for CecEvent {
    fn clone(&self) -> (copy: Self)
        ensures
            copy == *self,
    {
        match self {
            CecEvent::Status(status) => CecEvent::Status(*status),
            CecEvent::Error { message } => CecEvent::Error { message: message.clone() },
        }
    }
}

impl Clone for MessageToClientData {
    fn clone(&self) -> (copy: Self)
        ensures
            copy == *self,
    {
        match self {
            MessageToClientData::Ack => MessageToClientData::Ack,
            MessageToClientData::Nack { reason } => MessageToClientData::Nack {
                reason: reason.clone(),
            },
            MessageToClientData::ManualMode { enabled } => MessageToClientData::ManualMode {
                enabled: *enabled,
            },
            MessageToClientData::IdleInhibit { enabled, timeout_ms } => {
                MessageToClientData::IdleInhibit { enabled: *enabled, timeout_ms: *timeout_ms }
            },
            MessageToClientData::Kinect(event) => MessageToClientData::Kinect(event.clone()),
            MessageToClientData::Cec(event) => MessageToClientData::Cec(event.clone()),
        }
    }
}

impl Clone for MessageToClient {
    fn clone(&self) -> (copy: Self)
        ensures
            copy == *self,
    {
        MessageToClient { id: self.id, data: self.data.clone() }
    }
}

} // verus!
