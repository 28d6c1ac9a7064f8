//! The device that the compositor renders on.

use vstd::prelude::*;

use crate::text::joined;

verus! {

#[derive(Debug, Clone, Copy, PartialEq, Eq, Structural)]
pub enum DrmError {
    Open,
    Node,
    InvalidDeviceId,
    MissingDevicePath,
}

impl DrmError {
    /// The error as text. Where another error lies beneath, `cause` is its text.
    pub open spec fn text(self, cause: Seq<char>) -> Seq<char> {
        match self {
            DrmError::Open => "failed to open DRM device: "@ + cause,
            DrmError::Node => "drm error: "@ + cause,
            DrmError::InvalidDeviceId => "invalid device id"@,
            DrmError::MissingDevicePath => "could not find device path"@,
        }
    }

    /// The error as text. Where another error lies beneath, `cause` is its text.
    pub fn message(self, cause: &str) -> (message: String)
        ensures
            message@ == self.text(cause@),
    {
        match self {
            DrmError::Open => joined("failed to open DRM device: ", cause),
            DrmError::Node => joined("drm error: ", cause),
            DrmError::InvalidDeviceId => String::from_str("invalid device id"),
            DrmError::MissingDevicePath => String::from_str("could not find device path"),
        }
    }
}

/// The identifier in the bytes that the compositor sent: there must be eight.
pub fn device_id(device: &[u8]) -> (id: Result<[u8; 8], DrmError>)
    ensures
        match id {
            Ok(bytes) => bytes@ == device@,
            Err(error) => device@.len() != 8 && error == DrmError::InvalidDeviceId,
        },
{
    if device.len() != 8 {
        return Err(DrmError::InvalidDeviceId);
    }
    let bytes: [u8; 8] = [
        device[0],
        device[1],
        device[2],
        device[3],
        device[4],
        device[5],
        device[6],
        device[7],
    ];
    assert(bytes@ =~= device@);
    Ok(bytes)
}

/// Why a device could not be opened, if it could not.
pub open spec fn obstacle(node_found: bool, path_known: bool, file_opened: bool) -> Option<
    DrmError,
> {
    if !node_found {
        Some(DrmError::Node)
    } else if !path_known {
        Some(DrmError::MissingDevicePath)
    } else if !file_opened {
        Some(DrmError::Open)
    } else {
        None
    }
}

/// The outcome of looking a device up and opening the file at its path. The lookup
/// comes first; a device need not have a path.
pub fn opened(node_found: bool, path_known: bool, file_opened: bool) -> (outcome: Result<
    (),
    DrmError,
>)
    ensures
        match outcome {
            Ok(_) => obstacle(node_found, path_known, file_opened) is None,
            Err(error) => obstacle(node_found, path_known, file_opened) == Some(error),
        },
        outcome is Ok == (node_found && path_known && file_opened),
        !node_found ==> outcome == Err::<(), DrmError>(DrmError::Node),
        node_found && !path_known ==> outcome == Err::<(), DrmError>(DrmError::MissingDevicePath),
        node_found && path_known && !file_opened ==> outcome == Err::<(), DrmError>(DrmError::Open),
{
    if !node_found {
        Err(DrmError::Node)
    } else if !path_known {
        Err(DrmError::MissingDevicePath)
    } else if !file_opened {
        Err(DrmError::Open)
    } else {
        Ok(())
    }
}

/// The first thing that stands in the way of a device is the one that is reported.
pub proof fn first_obstacle_is_reported(path_known: bool, file_opened: bool)
    ensures
        obstacle(false, path_known, file_opened) == Some(DrmError::Node),
        obstacle(true, false, file_opened) == Some(DrmError::MissingDevicePath),
        obstacle(true, true, false) == Some(DrmError::Open),
        obstacle(true, true, true) is None,
{
}

} // verus!
