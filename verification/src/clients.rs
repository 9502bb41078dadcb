//! YouTube client identities the transport impersonates, and their registry.

use vstd::prelude::*;

use crate::text::str_eq;

verus! {

/// A bag of identity strings and feature flags for one impersonated client.
#[derive(Debug, Clone)]
pub struct YouTubeClient {
    /// Goes in `context.client.clientName`: the string name.
    pub client_name: String,
    pub client_version: String,
    /// The numeric id, sent as the `X-YouTube-Client-Name` header (a string).
    pub client_id: String,
    pub user_agent: String,
    pub os_name: Option<String>,
    pub os_version: Option<String>,
    pub device_make: Option<String>,
    pub device_model: Option<String>,
    pub android_sdk_version: Option<String>,
    pub build_id: Option<String>,
    pub cronet_version: Option<String>,
    pub package_name: Option<String>,
    pub friendly_name: Option<String>,
    pub login_supported: bool,
    pub login_required: bool,
    pub use_signature_timestamp: bool,
    pub is_embedded: bool,
    /// Web client: needs a PoToken and the n-transform.
    pub use_web_po_tokens: bool,
}

/// The client registry: registry keys to clients, a later entry for a key shadowing an earlier
/// one (as inserting into a map in order would).
#[derive(Debug, Clone)]
pub struct Clients {
    entries: Vec<(String, YouTubeClient)>,
}

/// The primary `/player` client.
pub const MAIN_CLIENT: &'static str = "WEB_REMIX";

/// Registry keys of the direct-URL stream clients tried after `MAIN_CLIENT`, in order.
pub const STREAM_FALLBACK_ORDER: [&'static str; 3] = ["VISIONOS", "ANDROID_VR_1_43_32", "IOS"];

/// The metadata client for search and next.
pub const METADATA_CLIENT: &'static str = "WEB_REMIX";

/// The client for timed lyrics: only mobile clients get the timed model.
pub const LYRICS_TIMED_CLIENT: &'static str = "IOS_MUSIC";

/// The map a list of `(key, client)` entries builds when inserted in order: a later entry
/// replaces an earlier one with the same key.
pub open spec fn entries_map(e: Seq<(String, YouTubeClient)>) -> Map<Seq<char>, YouTubeClient>
    decreases e.len(),
{
    if e.len() == 0 {
        Map::empty()
    } else {
        entries_map(e.drop_last()).insert(e.last().0@, e.last().1)
    }
}

/// A registry key resolves to the client of the last entry that carries it: later entries shadow
/// earlier ones.
pub proof fn law_last_entry_wins(e: Seq<(String, YouTubeClient)>, i: int, k: Seq<char>)
    requires
        0 <= i < e.len(),
        e[i].0@ == k,
        forall|j: int| i < j < e.len() ==> (#[trigger] e[j]).0@ != k,
    ensures
        entries_map(e).dom().contains(k),
        entries_map(e)[k] == e[i].1,
    decreases e.len(),
{
    if i < e.len() - 1 {
        let d = e.drop_last();
        assert(d[i] == e[i]);
        assert forall|j: int| i < j < d.len() implies (#[trigger] d[j]).0@ != k by {
            assert(d[j] == e[j]);
        }
        law_last_entry_wins(d, i, k);
    }
}

/// A key no entry carries resolves to no client.
pub proof fn law_unlisted_key_is_absent(e: Seq<(String, YouTubeClient)>, k: Seq<char>)
    requires
        forall|j: int| 0 <= j < e.len() ==> (#[trigger] e[j]).0@ != k,
    ensures
        !entries_map(e).dom().contains(k),
    decreases e.len(),
{
    if e.len() > 0 {
        let d = e.drop_last();
        assert forall|j: int| 0 <= j < d.len() implies (#[trigger] d[j]).0@ != k by {
            assert(d[j] == e[j]);
        }
        law_unlisted_key_is_absent(d, k);
    }
}

impl Clients {
    /// The registry as a map from key to client.
    pub closed spec fn view(&self) -> Map<Seq<char>, YouTubeClient> {
        entries_map(self.entries@)
    }

    /// A registry from `(key, client)` entries, inserted in order: a later entry with a key
    /// already present replaces the earlier client.
    pub fn from_entries(entries: Vec<(String, YouTubeClient)>) -> (r: Clients)
        ensures
            r.view() == entries_map(entries@),
    {
        Clients { entries }
    }

    /// Look up a client by its registry key (such as `"VISIONOS"`).
    pub fn get(&self, key: &str) -> (r: Option<&YouTubeClient>)
        ensures
            match r {
                Some(c) => self.view().dom().contains(key@) && *c == self.view()[key@],
                None => !self.view().dom().contains(key@),
            },
    {
        let mut i: usize = self.entries.len();
        while i > 0
            invariant
                0 <= i <= self.entries@.len(),
                forall|j: int| i <= j < self.entries@.len() ==> (#[trigger] self.entries@[j]).0@
                    != key@,
            decreases i,
        {
            i -= 1;
            if str_eq(self.entries[i].0.as_str(), key) {
                proof {
                    law_last_entry_wins(self.entries@, i as int, key@);
                }
                return Some(&self.entries[i].1);
            }
        }
        proof {
            law_unlisted_key_is_absent(self.entries@, key@);
        }
        None
    }
}

} // verus!
