//! The properties that a service announces to its peers.

use vstd::prelude::*;

use crate::thunderbolt::{ThunderboltData, ThunderboltDataView};

verus! {

/// A collection of metrics about a service instance.
///
/// The caller carries them to and from JSON and TXT records.
#[derive(Debug)]
pub struct DnetServiceProperties {
    /// Whether this service is a manager or not.
    ///
    /// We only expect there to be a single manager in the local network.
    pub is_manager: bool,
    /// Whether this service is currently doing a task or not.
    ///
    /// This is `false` on creation, and is updated by the service itself.
    pub is_busy: bool,
    /// The instance name of this service.
    pub instance: String,
    /// Host address of the service, e.g. "127.0.0.1".
    pub host: String,
    /// HTTP server port for this device.
    pub server_port: u16,
    /// Shard port for this device.
    pub shard_port: u16,
    /// Local IP address of the service, e.g. "192.168.1.2".
    pub local_ip: String,
    /// Thunderbolt-related connection information, if any.
    pub thunderbolt: Option<ThunderboltData>,
}

/// The mathematical content of a [`DnetServiceProperties`].
pub struct PropertiesView {
    pub is_manager: bool,
    pub is_busy: bool,
    pub instance: Seq<char>,
    pub host: Seq<char>,
    pub server_port: u16,
    pub shard_port: u16,
    pub local_ip: Seq<char>,
    pub thunderbolt: Option<ThunderboltDataView>,
}

impl View for DnetServiceProperties {
    type V = PropertiesView;

    open spec fn view(&self) -> PropertiesView {
        PropertiesView {
            is_manager: self.is_manager,
            is_busy: self.is_busy,
            instance: self.instance@,
            host: self.host@,
            server_port: self.server_port,
            shard_port: self.shard_port,
            local_ip: self.local_ip@,
            thunderbolt: match self.thunderbolt {
                Some(t) => Some(t@),
                None => None,
            },
        }
    }
}

impl Clone for DnetServiceProperties {
    fn clone(&self) -> (r: Self)
        ensures
            r@ == self@,
    {
        let thunderbolt = match &self.thunderbolt {
            Some(t) => Some(t.clone()),
            None => None,
        };
        DnetServiceProperties {
            is_manager: self.is_manager,
            is_busy: self.is_busy,
            instance: self.instance.clone(),
            host: self.host.clone(),
            server_port: self.server_port,
            shard_port: self.shard_port,
            local_ip: self.local_ip.clone(),
            thunderbolt,
        }
    }
}

impl DnetServiceProperties {
    /// Creates the properties of a new service, which is not busy and has no
    /// Thunderbolt data yet (see [`Self::detect_thunderbolt`]).
    pub fn new(
        is_manager: bool,
        instance: String,
        host: String,
        server_port: u16,
        shard_port: u16,
        local_ip: String,
    ) -> (r: Self)
        ensures
            r@ == (PropertiesView {
                is_manager,
                is_busy: false,
                instance: instance@,
                host: host@,
                server_port,
                shard_port,
                local_ip: local_ip@,
                thunderbolt: None,
            }),
    {
        DnetServiceProperties {
            is_busy: false,
            is_manager,
            instance,
            host,
            server_port,
            shard_port,
            local_ip,
            thunderbolt: None,
        }
    }

    /// Records the outcome of a Thunderbolt detection: the data read from the
    /// system profile, or `None` when reading it failed. It is called only
    /// where a detection was made (on macOS); elsewhere the properties keep
    /// what they hold.
    pub fn detect_thunderbolt(&mut self, detected: Option<ThunderboltData>)
        ensures
            final(self)@ == (PropertiesView {
                thunderbolt: match detected {
                    Some(t) => Some(t@),
                    None => None,
                },
                ..old(self)@
            }),
    {
        self.thunderbolt = detected;
    }
}

} // verus!
