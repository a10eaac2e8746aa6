//! Settings of the outbound notification client.  The client itself — the
//! HTTP call it makes on every successful access — lives in the surrounding
//! application; the gateway only demands that it be called (see `server`).

use vstd::prelude::*;

verus! {

/// Where the notification is sent.
pub struct ClientSettings {
    pub endpoint: String,
}

} // verus!
