//! Verified core of a shared-cockpit synchronisation system: digit splitting for
//! cockpit dials, change detection, retry pacing, payload delivery rules, client
//! registries and the session server state machines.

pub mod app_model;
pub mod assoc;
pub mod base_socket;
pub mod client_transfer;
mod clients;
mod clock;
mod control;
mod delivery;
mod diff;
mod digits;
mod gauge_events;
pub mod handshake;
pub mod hosted;
pub mod hoster_rendezvous;
pub mod hoster_state;
pub mod laws;
mod main_payloads;
mod net_address;
mod payloads;
mod random_ids;
pub mod requests;
pub mod rendezvous;
pub mod session_control;
mod retry;
pub mod server_transfer;
mod single_server;
mod transfer;
pub mod var_ids;
pub mod var_reader;

pub use diff::DiffChecker;
pub use gauge_events::{
    digit_at, digit_steps, event_code, event_pair_code, event_value_code, get_call_counter,
    get_test_variable, EventCallCounter, EventSet, KeyEvent, NumDigitSet, TestVariable, ToggleChoice,
    ToggleSwitch,
};
pub use digits::{
    digits_of, lemma_digits_leading_nonzero, lemma_digits_round_trip, value_of_digits,
    NumberDigits,
};
pub use net_address::{
    first_address_of_family, get_bind_address, match_ip_address_to_socket_addr, none_of_family_before,
    NetAddress, IPV4_MAPPED_PREFIX,
};
pub use control::{
    filled_with, slots_as_map, surface_at, without_client, ClientId, ControlDelegationsMap,
    ControlSurfaces, CONTROL_SURFACE_COUNT,
};
pub use delivery::Delivery;
pub use main_payloads::{ChangedDatum, DatumKey, MainPayloads, MainPayloadsView};
pub use clients::{
    addr_position, first_at_addr, first_host_at, lemma_addr_position, lemma_host_position,
    lemma_id_position, lemma_host_position_keep, lemma_unique_position, addresses, addresses_except, delegations_after_removal, host_position,
    id_position, is_added, is_fresh_client, lemma_addresses_keep, with_first_host, unique_ids, ClientInfo, Clients, ControlDelegations,
};
pub use single_server::{
    announcement, host_round, roster_for, sent, session_notice, targets, text_or_empty, welcome_round, Dispatch, Message,
    ServerError, ServerMetadata, SingleServer,
};
pub use payloads::{
    get_compression_level_for_message, get_packet_for_message, packet_delivery, PayloadWrapper,
    Payloads, PayloadsView,
};
pub use retry::{is_retry_due, RetryHelper, RETRY_INTERVAL_SECS};
pub use transfer::{
    actions, deliver, push_deliver, push_report, push_send_to, report, send_to, Event, EventView,
    ReceiveMessage, ReceiveMessageView, TransferAction, TransferActionView, is_heartbeat_due,
    HEARTBEAT_INTERVAL_MANUAL_MS, MAX_PUNCH_RETRIES,
};
