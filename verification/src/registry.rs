//! The adapter registry: resolves a platform identifier string to the
//! paired ingress/egress behavior.  Synonyms map to one adapter; an
//! unresolvable identifier yields no adapter at all, a condition the
//! caller must treat as "unsupported platform", distinct from
//! `AdapterError`.

use vstd::prelude::*;

use crate::dingtalk::{dingtalk_egress_ok, dingtalk_ingress_ok, DingTalkAdapter};
use crate::http::{http_egress_ok, http_ingress_ok, HttpAdapter};
use crate::json::Json;
use crate::lark::{lark_egress_ok, lark_ingress_ok, LarkAdapter};
use crate::models::{AdapterError, OutgoingPayload, UemEvent};
use crate::slack::{slack_egress_ok, slack_ingress_ok, SlackAdapter};
use crate::text::str_eq;
use crate::wecom::{wecom_egress_ok, wecom_ingress_ok, WecomAdapter};

verus! {

/// One resolved adapter, serving both directions.
pub enum PlatformAdapter {
    Slack(SlackAdapter),
    Lark(LarkAdapter),
    DingTalk(DingTalkAdapter),
    Wecom(WecomAdapter),
    Http(HttpAdapter),
}

/// Which adapter a platform identifier resolves to: `slack`;
/// `lark`/`feishu`; `dingtalk`/`ding`; `wecom`/`wechat_work`;
/// `http`/`custom`.  Anything else is unsupported.
pub open spec fn spec_adapter_for(name: Seq<char>) -> Option<PlatformAdapter> {
    if name == "slack"@ {
        Some(PlatformAdapter::Slack(SlackAdapter))
    } else if name == "lark"@ || name == "feishu"@ {
        Some(PlatformAdapter::Lark(LarkAdapter))
    } else if name == "dingtalk"@ || name == "ding"@ {
        Some(PlatformAdapter::DingTalk(DingTalkAdapter))
    } else if name == "wecom"@ || name == "wechat_work"@ {
        Some(PlatformAdapter::Wecom(WecomAdapter))
    } else if name == "http"@ || name == "custom"@ {
        Some(PlatformAdapter::Http(HttpAdapter))
    } else {
        None
    }
}

/// Resolves the adapter that normalizes inbound payloads of
/// `platform`.
pub fn ingress_adapter(platform: &str) -> (r: Option<PlatformAdapter>)
    ensures
        r == spec_adapter_for(platform@),
{
    adapter_for(platform)
}

/// Resolves the adapter that builds outbound payloads for `kind`.
pub fn egress_adapter(kind: &str) -> (r: Option<PlatformAdapter>)
    ensures
        r == spec_adapter_for(kind@),
{
    adapter_for(kind)
}

fn adapter_for(name: &str) -> (r: Option<PlatformAdapter>)
    ensures
        r == spec_adapter_for(name@),
{
    if str_eq(name, "slack") {
        Some(PlatformAdapter::Slack(SlackAdapter))
    } else if str_eq(name, "lark") || str_eq(name, "feishu") {
        Some(PlatformAdapter::Lark(LarkAdapter))
    } else if str_eq(name, "dingtalk") || str_eq(name, "ding") {
        Some(PlatformAdapter::DingTalk(DingTalkAdapter))
    } else if str_eq(name, "wecom") || str_eq(name, "wechat_work") {
        Some(PlatformAdapter::Wecom(WecomAdapter))
    } else if str_eq(name, "http") || str_eq(name, "custom") {
        Some(PlatformAdapter::Http(HttpAdapter))
    } else {
        None
    }
}

impl PlatformAdapter {
    /// Turns an inbound payload into the canonical event, by the
    /// resolved platform's rules.  Never fails.
    pub fn ingress_to_uem(&self, payload: &Json) -> (r: Result<UemEvent, AdapterError>)
        ensures
            match r {
                Ok(ev) => match *self {
                    PlatformAdapter::Slack(_) => slack_ingress_ok(payload@, ev),
                    PlatformAdapter::Lark(_) => lark_ingress_ok(payload@, ev),
                    PlatformAdapter::DingTalk(_) => dingtalk_ingress_ok(payload@, ev),
                    PlatformAdapter::Wecom(_) => wecom_ingress_ok(payload@, ev),
                    PlatformAdapter::Http(_) => http_ingress_ok(payload@, ev),
                },
                Err(_) => false,
            },
    {
        match self {
            PlatformAdapter::Slack(a) => a.ingress_to_uem(payload),
            PlatformAdapter::Lark(a) => a.ingress_to_uem(payload),
            PlatformAdapter::DingTalk(a) => a.ingress_to_uem(payload),
            PlatformAdapter::Wecom(a) => a.ingress_to_uem(payload),
            PlatformAdapter::Http(a) => a.ingress_to_uem(payload),
        }
    }

    /// Turns a canonical event into the outbound payload, by the
    /// resolved platform's rules.  Never fails.
    pub fn uem_to_egress(&self, event: &UemEvent) -> (r: Result<OutgoingPayload, AdapterError>)
        ensures
            match r {
                Ok(pl) => match *self {
                    PlatformAdapter::Slack(_) => slack_egress_ok(event, pl),
                    PlatformAdapter::Lark(_) => lark_egress_ok(event, pl),
                    PlatformAdapter::DingTalk(_) => dingtalk_egress_ok(event, pl),
                    PlatformAdapter::Wecom(_) => wecom_egress_ok(event, pl),
                    PlatformAdapter::Http(_) => http_egress_ok(event, pl),
                },
                Err(_) => false,
            },
    {
        match self {
            PlatformAdapter::Slack(a) => a.uem_to_egress(event),
            PlatformAdapter::Lark(a) => a.uem_to_egress(event),
            PlatformAdapter::DingTalk(a) => a.uem_to_egress(event),
            PlatformAdapter::Wecom(a) => a.uem_to_egress(event),
            PlatformAdapter::Http(a) => a.uem_to_egress(event),
        }
    }
}

} // verus!
