//! The `context` object every InnerTube request carries.

use vstd::prelude::*;

use crate::clients::YouTubeClient;
use crate::text::{opt_str_view, opt_view};

verus! {

/// Interface language and region sent in every request context.
#[derive(Debug, Clone)]
pub struct Locale {
    pub hl: String,
    pub gl: String,
}

/// `context.client`: who is asking, in which language, with which visitor id.
#[derive(Debug, Clone)]
pub struct ClientInfo {
    pub client_name: String,
    pub client_version: String,
    pub os_name: Option<String>,
    pub os_version: Option<String>,
    pub device_make: Option<String>,
    pub device_model: Option<String>,
    pub android_sdk_version: Option<String>,
    pub hl: String,
    pub gl: String,
    pub visitor_data: Option<String>,
}

/// `context.thirdParty`: the embedding page, sent by embedded clients.
#[derive(Debug, Clone)]
pub struct ThirdParty {
    pub embed_url: String,
}

/// `context.user`: the account the request acts for.
#[derive(Debug, Clone)]
pub struct UserInfo {
    pub on_behalf_of_user: Option<String>,
}

/// The request context.
#[derive(Debug, Clone)]
pub struct Context {
    pub client: ClientInfo,
    pub third_party: Option<ThirdParty>,
    pub user: UserInfo,
}

impl YouTubeClient {
    /// The context this client sends under a locale, a visitor id and an acting account.
    pub fn to_context(
        &self,
        locale: &Locale,
        visitor_data: Option<&str>,
        data_sync_id: Option<&str>,
    ) -> (r: Context)
        ensures
            r.client.client_name == self.client_name,
            r.client.client_version == self.client_version,
            r.client.os_name == self.os_name,
            r.client.os_version == self.os_version,
            r.client.device_make == self.device_make,
            r.client.device_model == self.device_model,
            r.client.android_sdk_version == self.android_sdk_version,
            r.client.hl == locale.hl,
            r.client.gl == locale.gl,
            opt_view(r.client.visitor_data) == opt_str_view(visitor_data),
            r.third_party is Some <==> self.is_embedded,
            opt_view(r.user.on_behalf_of_user) == opt_str_view(data_sync_id),
    {
        Context {
            client: ClientInfo {
                client_name: self.client_name.clone(),
                client_version: self.client_version.clone(),
                os_name: self.os_name.clone(),
                os_version: self.os_version.clone(),
                device_make: self.device_make.clone(),
                device_model: self.device_model.clone(),
                android_sdk_version: self.android_sdk_version.clone(),
                hl: locale.hl.clone(),
                gl: locale.gl.clone(),
                visitor_data: match visitor_data {
                    Some(v) => Some(v.to_owned()),
                    None => None,
                },
            },
            third_party: if self.is_embedded {
                Some(ThirdParty { embed_url: String::new() })
            } else {
                None
            },
            user: UserInfo {
                on_behalf_of_user: match data_sync_id {
                    Some(d) => Some(d.to_owned()),
                    None => None,
                },
            },
        }
    }
}

} // verus!
