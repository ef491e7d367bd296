//! Worker settings: the persisted bot configuration the polling loop
//! re-reads every iteration, and the patch semantics of the admin endpoint.

use vstd::prelude::*;

use crate::operation::opt_string_view;

verus! {

/// The persisted bot configuration, under its fixed settings key.
pub struct TelegramSettingsDoc {
    pub key: String,
    pub token: Option<String>,
    pub chat_id: Option<String>,
    pub webhook_url: Option<String>,
    pub enabled: bool,
    pub webhook_enabled: bool,
}

/// A partial update of the bot configuration: absent fields are left
/// untouched.
pub struct TelegramSettingsUpdate {
    pub token: Option<String>,
    pub webhook_url: Option<String>,
    pub enabled: Option<bool>,
    pub webhook_enabled: Option<bool>,
}

/// The configuration before any was stored: disabled, with no token.
pub fn default_settings() -> (r: TelegramSettingsDoc)
    ensures
        r.key@ == "telegram"@,
        r.token is None,
        r.chat_id is None,
        r.webhook_url is None,
        !r.enabled,
        !r.webhook_enabled,
{
    TelegramSettingsDoc {
        key: String::from_str("telegram"),
        token: None,
        chat_id: None,
        webhook_url: None,
        enabled: false,
        webhook_enabled: false,
    }
}

/// Applies a partial update: each present field overwrites the stored one,
/// each absent field leaves it untouched.
pub fn apply_settings_update(doc: &mut TelegramSettingsDoc, patch: TelegramSettingsUpdate)
    ensures
        final(doc).key == old(doc).key,
        final(doc).chat_id == old(doc).chat_id,
        opt_string_view(final(doc).token) == (match patch.token {
            Some(t) => Some(t@),
            None => opt_string_view(old(doc).token),
        }),
        opt_string_view(final(doc).webhook_url) == (match patch.webhook_url {
            Some(u) => Some(u@),
            None => opt_string_view(old(doc).webhook_url),
        }),
        final(doc).enabled == (match patch.enabled {
            Some(e) => e,
            None => old(doc).enabled,
        }),
        final(doc).webhook_enabled == (match patch.webhook_enabled {
            Some(w) => w,
            None => old(doc).webhook_enabled,
        }),
{
    if let Some(t) = patch.token {
        doc.token = Some(t);
    }
    if let Some(u) = patch.webhook_url {
        doc.webhook_url = Some(u);
    }
    if let Some(e) = patch.enabled {
        doc.enabled = e;
    }
    if let Some(w) = patch.webhook_enabled {
        doc.webhook_enabled = w;
    }
}

} // verus!
