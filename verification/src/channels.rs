//! The three reliability classes every connection carries: unreliable for
//! heartbeats where staleness is acceptable, reliable-unordered for discrete
//! events that may reorder but not vanish, and reliable-ordered for stateful
//! sequences. Losing or reordering a world-update batch cannot corrupt
//! state, because every batch is a full snapshot of what it carries.

use vstd::prelude::*;

verus! {

/// Delivery guarantee of one channel.
#[derive(Clone, Copy, Debug, PartialEq, Eq, Structural)]
pub enum ChannelSendType {
    Unreliable,
    ReliableUnordered { resend_time_ms: u64 },
    ReliableOrdered { resend_time_ms: u64 },
}

/// Configuration of one channel of a connection.
#[derive(Clone, Copy, Debug, PartialEq, Eq, Structural)]
pub struct ChannelSpec {
    pub channel_id: u8,
    pub max_memory_usage_bytes: usize,
    pub send_type: ChannelSendType,
}

/// The channel set used on both directions of every connection: channel 0
/// unreliable, channel 1 reliable-unordered, channel 2 reliable-ordered,
/// each with the same memory budget and a 300 ms resend timer.
pub fn get_customized_default_channels() -> (channels: Vec<ChannelSpec>)
    ensures
        channels@.len() == 3,
        channels@[0] == (ChannelSpec {
            channel_id: 0,
            max_memory_usage_bytes: 134_217_728usize,
            send_type: ChannelSendType::Unreliable,
        }),
        channels@[1] == (ChannelSpec {
            channel_id: 1,
            max_memory_usage_bytes: 134_217_728usize,
            send_type: ChannelSendType::ReliableUnordered { resend_time_ms: 300 },
        }),
        channels@[2] == (ChannelSpec {
            channel_id: 2,
            max_memory_usage_bytes: 134_217_728usize,
            send_type: ChannelSendType::ReliableOrdered { resend_time_ms: 300 },
        }),
{
    let memory: usize = 128 * 1024 * 1024;
    let mut channels: Vec<ChannelSpec> = Vec::new();
    channels.push(
        ChannelSpec {
            channel_id: 0,
            max_memory_usage_bytes: memory,
            send_type: ChannelSendType::Unreliable,
        },
    );
    channels.push(
        ChannelSpec {
            channel_id: 1,
            max_memory_usage_bytes: memory,
            send_type: ChannelSendType::ReliableUnordered { resend_time_ms: 300 },
        },
    );
    channels.push(
        ChannelSpec {
            channel_id: 2,
            max_memory_usage_bytes: memory,
            send_type: ChannelSendType::ReliableOrdered { resend_time_ms: 300 },
        },
    );
    channels
}

} // verus!
