//! Client-IP extraction for HTTP middleware: forwarding headers are parsed
//! into candidate addresses, and a trust configuration decides which of
//! them is the client and whether that answer can be trusted. Also holds
//! the configuration of a response timeout and the outcome of racing two
//! futures.

mod adapter;
mod address;
mod config;
mod headers;
mod laws;
mod number;
mod parse;
mod text;
mod timeout;
mod trust;

pub use adapter::{accepted, applied, endpoint_view, Applied, Behavior, Endpoint, Middleware, MiddlewareView};
pub use address::{Address, AddressView};
pub use config::{client_ip, first_hit, IpWare, IpWareView};
pub use headers::{chars_of, join, names_match, same_letter, values_of, Header, HeaderView};
pub use laws::{
    law_added_prefix_keeps_trust, law_loose_returns_leftmost, law_prefixes_give_only_trusted_answers, law_result_depends_on_consulted_headers,
    law_trusted_has_address,
};
pub use number::{dec_value, hex_value};
pub use parse::{
    candidates, ipv4_routable, ipv6_routable, is_ipv4, is_ipv6, is_port, law_candidates_in_order,
    law_concatenated_values, parse_element, read_candidates, read_element,
};
pub use text::{split, trim};
pub use timeout::{first_ready, Either, Timeout};
pub use trust::{
    all_trusted, entry_view, first_address, is_prefix_of, is_trusted_entry, is_trusted_proxy,
    resolve, resolve_candidates, rightmost_untrusted, texts, trusted_slot, views,
};
