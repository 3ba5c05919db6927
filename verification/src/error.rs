//! Errors of MD operations.

use vstd::prelude::*;
use crate::text::{cat3, dec, dec_int, hex, dec_u64, dec_i64, hex_padded};

verus! {

/// Everything that can go wrong while managing an MD array. Paths are carried
/// as text; errors of the operating system and of outside libraries as their message.
#[allow(inconsistent_fields)]
#[derive(Debug)]
pub enum MdError {
    Io(String),
    Nix(String),
    InvalidMetadata(String),
    Sysfs(String),
    DeviceInUse(String),
    DeviceMounted(String, String),
    DeviceHasFilesystem(String, String),
    NotBlockDevice(String),
    DeviceTooSmall(String, u64, u64),
    InsufficientDevices { level: u8, needed: u32, actual: u32 },
    ArrayDegraded(String, i32, i32),
    ArrayNotFound(String),
    DeviceNotFound(String),
    InvalidDevice(String),
    InvalidState(String),
    InvalidArrayState(String, String, String),
    UuidMismatch { expected: String, found: String },
    MagicMismatch { expected: u32, found: u32 },
    UnsupportedMetadataVersion(String),
    UnsupportedRaidLevel(u8),
    SmartCheckFailed(String, String),
    ConfigValidation(String),
    DataLossRisk(String),
    Bitmap(String),
    Reshape(String),
    RollbackFailed(String),
    Api(String),
    Notification(String),
    Serialization(String),
    Yaml(String),
    Http(String),
    Email(String),
    PermissionDenied(String),
    Timeout(u64),
    ConcurrentModification(String),
}

/// Result of an MD operation.
pub type MdResult<T> = Result<T, MdError>;

/// The message that std gives to an end of file met while a read still needed bytes.
pub open spec fn eof_message() -> Seq<char> {
    "failed to fill whole buffer"@
}

/// The error of a read that met the end of the device too early.
pub fn eof_error() -> (e: MdError)
    ensures
        e matches MdError::Io(m) && m@ == eof_message(),
{
    MdError::Io(String::from_str("failed to fill whole buffer"))
}

/// `n` in hexadecimal with a `0x` prefix, as `{:#x}` shows it.
pub open spec fn alt_hex(n: nat) -> Seq<char> {
    "0x"@ + hex(n)
}

impl MdError {
    /// The message of the error, as it is shown to the user.
    pub open spec fn spec_text(&self) -> Seq<char> {
        match self {
            MdError::Io(m) => "IO Error: "@ + m@,
            MdError::Nix(m) => "Nix/Ioctl Error: "@ + m@,
            MdError::InvalidMetadata(m) => "Invalid Metadata: "@ + m@,
            MdError::Sysfs(m) => "Sysfs Error: "@ + m@,
            MdError::DeviceInUse(p) => "Device "@ + p@ + " is already in use by another array or filesystem"@,
            MdError::DeviceMounted(p, at) => "Device "@ + p@ + " is currently mounted at "@ + at@,
            MdError::DeviceHasFilesystem(p, f) => "Device "@ + p@ + " has an existing filesystem: "@ + f@,
            MdError::NotBlockDevice(p) => "Device "@ + p@ + " is not a block device"@,
            MdError::DeviceTooSmall(p, size, min) => "Device "@ + p@ + " is too small: "@ + dec(*size as nat)
                + " bytes (minimum: "@ + dec(*min as nat) + " bytes)"@,
            MdError::InsufficientDevices { level, needed, actual } => "Insufficient devices: need "@
                + dec(*needed as nat) + " for RAID"@ + dec(*level as nat) + ", got "@ + dec(*actual as nat),
            MdError::ArrayDegraded(a, failed, total) => "Array "@ + a@ + " is degraded: "@ + dec_int(*failed as int)
                + " failed disks out of "@ + dec_int(*total as int),
            MdError::ArrayNotFound(a) => "Array "@ + a@ + " is not found or not active"@,
            MdError::DeviceNotFound(d) => "Device not found: "@ + d@,
            MdError::InvalidDevice(d) => "Invalid device: "@ + d@,
            MdError::InvalidState(m) => "Invalid state: "@ + m@,
            MdError::InvalidArrayState(a, st, want) => "Array "@ + a@ + " is in state '"@ + st@ + "', expected '"@
                + want@ + "'"@,
            MdError::UuidMismatch { expected, found } => "UUID mismatch: expected "@ + expected@ + ", found "@ + found@,
            MdError::MagicMismatch { expected, found } => "Superblock magic mismatch: expected "@
                + alt_hex(*expected as nat) + ", found "@ + alt_hex(*found as nat),
            MdError::UnsupportedMetadataVersion(v) => "Unsupported metadata version: "@ + v@,
            MdError::UnsupportedRaidLevel(l) => "Unsupported RAID level: "@ + dec(*l as nat),
            MdError::SmartCheckFailed(p, m) => "SMART health check failed for device "@ + p@ + ": "@ + m@,
            MdError::ConfigValidation(m) => "Configuration validation error: "@ + m@,
            MdError::DataLossRisk(m) => "Operation would result in data loss: "@ + m@,
            MdError::Bitmap(m) => "Bitmap error: "@ + m@,
            MdError::Reshape(m) => "Reshape operation error: "@ + m@,
            MdError::RollbackFailed(m) => "Transaction rollback failed: "@ + m@,
            MdError::Api(m) => "API error: "@ + m@,
            MdError::Notification(m) => "Notification error: "@ + m@,
            MdError::Serialization(m) => "Serialization error: "@ + m@,
            MdError::Yaml(m) => "YAML error: "@ + m@,
            MdError::Http(m) => "HTTP request error: "@ + m@,
            MdError::Email(m) => "Email error: "@ + m@,
            MdError::PermissionDenied(m) => "Permission denied: "@ + m@,
            MdError::Timeout(secs) => "Operation timeout after "@ + dec(*secs as nat) + " seconds"@,
            MdError::ConcurrentModification(m) => "Concurrent modification detected: "@ + m@,
        }
    }

    /// The message of the error, as it is shown to the user.
    pub fn to_text(&self) -> (r: String)
        ensures
            r@ == self.spec_text(),
    {
        match self {
            MdError::Io(m) => String::from_str("IO Error: ").concat(m.as_str()),
            MdError::Nix(m) => String::from_str("Nix/Ioctl Error: ").concat(m.as_str()),
            MdError::InvalidMetadata(m) => String::from_str("Invalid Metadata: ").concat(m.as_str()),
            MdError::Sysfs(m) => String::from_str("Sysfs Error: ").concat(m.as_str()),
            MdError::DeviceInUse(p) => String::from_str("Device ").concat(p.as_str())
                .concat(" is already in use by another array or filesystem"),
            MdError::DeviceMounted(p, at) => String::from_str("Device ").concat(p.as_str())
                .concat(" is currently mounted at ").concat(at.as_str()),
            MdError::DeviceHasFilesystem(p, f) => String::from_str("Device ").concat(p.as_str())
                .concat(" has an existing filesystem: ").concat(f.as_str()),
            MdError::NotBlockDevice(p) => String::from_str("Device ").concat(p.as_str())
                .concat(" is not a block device"),
            MdError::DeviceTooSmall(p, size, min) => {
                let a = dec_u64(*size);
                let b = dec_u64(*min);
                String::from_str("Device ").concat(p.as_str()).concat(" is too small: ").concat(a.as_str())
                    .concat(" bytes (minimum: ").concat(b.as_str()).concat(" bytes)")
            },
            MdError::InsufficientDevices { level, needed, actual } => {
                let n = dec_u64(*needed as u64);
                let l = dec_u64(*level as u64);
                let a = dec_u64(*actual as u64);
                String::from_str("Insufficient devices: need ").concat(n.as_str()).concat(" for RAID")
                    .concat(l.as_str()).concat(", got ").concat(a.as_str())
            },
            MdError::ArrayDegraded(a, failed, total) => {
                let f = dec_i64(*failed as i64);
                let t = dec_i64(*total as i64);
                String::from_str("Array ").concat(a.as_str()).concat(" is degraded: ").concat(f.as_str())
                    .concat(" failed disks out of ").concat(t.as_str())
            },
            MdError::ArrayNotFound(a) => String::from_str("Array ").concat(a.as_str())
                .concat(" is not found or not active"),
            MdError::DeviceNotFound(d) => String::from_str("Device not found: ").concat(d.as_str()),
            MdError::InvalidDevice(d) => String::from_str("Invalid device: ").concat(d.as_str()),
            MdError::InvalidState(m) => String::from_str("Invalid state: ").concat(m.as_str()),
            MdError::InvalidArrayState(a, st, want) => String::from_str("Array ").concat(a.as_str())
                .concat(" is in state '").concat(st.as_str()).concat("', expected '").concat(want.as_str())
                .concat("'"),
            MdError::UuidMismatch { expected, found } => String::from_str("UUID mismatch: expected ")
                .concat(expected.as_str()).concat(", found ").concat(found.as_str()),
            MdError::MagicMismatch { expected, found } => {
                let e = hex_padded(*expected as u64, 0);
                let f = hex_padded(*found as u64, 0);
                String::from_str("Superblock magic mismatch: expected ").concat("0x").concat(e.as_str())
                    .concat(", found ").concat("0x").concat(f.as_str())
            },
            MdError::UnsupportedMetadataVersion(v) => String::from_str("Unsupported metadata version: ")
                .concat(v.as_str()),
            MdError::UnsupportedRaidLevel(l) => {
                let n = dec_u64(*l as u64);
                String::from_str("Unsupported RAID level: ").concat(n.as_str())
            },
            MdError::SmartCheckFailed(p, m) => String::from_str("SMART health check failed for device ")
                .concat(p.as_str()).concat(": ").concat(m.as_str()),
            MdError::ConfigValidation(m) => String::from_str("Configuration validation error: ").concat(m.as_str()),
            MdError::DataLossRisk(m) => String::from_str("Operation would result in data loss: ").concat(m.as_str()),
            MdError::Bitmap(m) => String::from_str("Bitmap error: ").concat(m.as_str()),
            MdError::Reshape(m) => String::from_str("Reshape operation error: ").concat(m.as_str()),
            MdError::RollbackFailed(m) => String::from_str("Transaction rollback failed: ").concat(m.as_str()),
            MdError::Api(m) => String::from_str("API error: ").concat(m.as_str()),
            MdError::Notification(m) => String::from_str("Notification error: ").concat(m.as_str()),
            MdError::Serialization(m) => String::from_str("Serialization error: ").concat(m.as_str()),
            MdError::Yaml(m) => String::from_str("YAML error: ").concat(m.as_str()),
            MdError::Http(m) => String::from_str("HTTP request error: ").concat(m.as_str()),
            MdError::Email(m) => String::from_str("Email error: ").concat(m.as_str()),
            MdError::PermissionDenied(m) => String::from_str("Permission denied: ").concat(m.as_str()),
            MdError::Timeout(secs) => {
                let n = dec_u64(*secs);
                String::from_str("Operation timeout after ").concat(n.as_str()).concat(" seconds")
            },
            MdError::ConcurrentModification(m) => String::from_str("Concurrent modification detected: ")
                .concat(m.as_str()),
        }
    }

    /// Whether the error is of a kind that a retry may clear.
    pub open spec fn spec_is_recoverable(&self) -> bool {
        self is Timeout || self is ConcurrentModification || self is Http
    }

    /// Whether the error reports a risk of losing data.
    pub open spec fn spec_is_data_loss_risk(&self) -> bool {
        self is DataLossRisk || self is ArrayDegraded
    }

    /// Adds context to an error: metadata and sysfs messages are prefixed with
    /// `ctx` and `": "`; every other error is returned unchanged.
    pub fn context(self, ctx: &str) -> (r: MdError)
        ensures
            match self {
                MdError::InvalidMetadata(m) => r matches MdError::InvalidMetadata(n)
                    && n@ == ctx@ + ": "@ + m@,
                MdError::Sysfs(m) => r matches MdError::Sysfs(n) && n@ == ctx@ + ": "@ + m@,
                _ => r == self,
            },
    {
        match self {
            MdError::InvalidMetadata(msg) => MdError::InvalidMetadata(cat3(ctx, ": ", msg.as_str())),
            MdError::Sysfs(msg) => MdError::Sysfs(cat3(ctx, ": ", msg.as_str())),
            other => other,
        }
    }

    /// Whether the error is recoverable.
    pub fn is_recoverable(&self) -> (r: bool)
        ensures
            r == self.spec_is_recoverable(),
    {
        match self {
            MdError::Timeout(_) | MdError::ConcurrentModification(_) | MdError::Http(_) => true,
            _ => false,
        }
    }

    /// Whether the error indicates a risk of data loss.
    pub fn is_data_loss_risk(&self) -> (r: bool)
        ensures
            r == self.spec_is_data_loss_risk(),
    {
        match self {
            MdError::DataLossRisk(_) | MdError::ArrayDegraded(_, _, _) => true,
            _ => false,
        }
    }
}

} // verus!
