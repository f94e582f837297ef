//! The WeCom adapter: dispatches on `msgtype` across `markdown`,
//! `markdown_v2` and the default `text`, each carrying a nested
//! `content` string; egress always emits a `markdown` message, with
//! the title-prefix rule.

use vstd::prelude::*;

use crate::json::{
    json_text, or_null, spec_as_str, spec_get, spec_get2, wf_num, Json, JsonSpec,
};
use crate::models::{view_opt, AdapterError, OutgoingPayload, UemEvent};
use crate::util::{is_uuid_string, spec_titled, spec_value_to_i64};

verus! {

broadcast use vstd::std_specs::vec::group_vec_axioms, vstd::seq::group_seq_axioms;

/// The adapter for WeCom (WeChat Work).
pub struct WecomAdapter;

/// The nested `content` string that the WeCom `msgtype` selects.
pub open spec fn wecom_content(p: JsonSpec) -> Option<Seq<char>> {
    match spec_as_str(spec_get(p, "msgtype"@)) {
        Some(t) => {
            if t == "markdown"@ {
                spec_as_str(spec_get2(p, "markdown"@, "content"@))
            } else if t == "markdown_v2"@ {
                spec_as_str(spec_get2(p, "markdown_v2"@, "content"@))
            } else {
                spec_as_str(spec_get2(p, "text"@, "content"@))
            }
        },
        None => spec_as_str(spec_get2(p, "text"@, "content"@)),
    }
}

/// The body the WeCom ingress extracts: the selected content when it
/// is a non-empty string, else the whole payload's JSON text.
pub open spec fn wecom_markdown(p: JsonSpec) -> Seq<char> {
    match wecom_content(p) {
        Some(s) => {
            if s.len() > 0 {
                s
            } else {
                json_text(p)
            }
        },
        None => json_text(p),
    }
}

/// The metadata the WeCom ingress retains.
pub open spec fn wecom_meta(p: JsonSpec) -> JsonSpec {
    JsonSpec::Obj(
        seq![
            ("mentioned_list"@, or_null(spec_get2(p, "text"@, "mentioned_list"@))),
            ("msgtype"@, or_null(spec_get(p, "msgtype"@))),
        ],
    )
}

/// The body the WeCom egress emits.
pub open spec fn wecom_body(title: Option<Seq<char>>, md: Seq<char>) -> JsonSpec {
    JsonSpec::Obj(
        seq![
            ("markdown"@, JsonSpec::Obj(seq![("content"@, JsonSpec::Str(spec_titled(title, md)))])),
            ("msgtype"@, JsonSpec::Str("markdown"@)),
        ],
    )
}

/// Everything the ingress promises of the event it builds from
/// payload `p`.
pub open spec fn wecom_ingress_ok(p: JsonSpec, ev: UemEvent) -> bool {
    &&& ev.source@ == "wecom"@
    &&& ev.markdown@ == wecom_markdown(p)
    &&& wf_num(p) ==> ev.markdown@.len() > 0
    &&& match spec_as_str(spec_get(p, "msgid"@)) {
        Some(s) => ev.id@ == s,
        None => is_uuid_string(ev.id@),
    }
    &&& match spec_value_to_i64(spec_get(p, "create_time"@)) {
        Some(v) => ev.timestamp == v,
        None => ev.timestamp >= 0,
    }
    &&& view_opt(ev.title) == spec_as_str(spec_get(p, "msgtype"@))
    &&& ev.raw@ == p
    &&& ev.meta@ == wecom_meta(p)
}

/// Everything the egress promises of the payload it builds from event
/// `ev`.
pub open spec fn wecom_egress_ok(ev: &UemEvent, pl: OutgoingPayload) -> bool {
    &&& pl.body@ == wecom_body(view_opt(ev.title), ev.markdown@)
    &&& pl.content_type@ == "application/json"@
}

impl WecomAdapter {
    /// Normalizes a WeCom payload.  Never fails: every missing field
    /// degrades to a default.
    pub fn ingress_to_uem(&self, payload: &Json) -> (r: Result<UemEvent, AdapterError>)
        ensures
            match r {
                Ok(ev) => wecom_ingress_ok(payload@, ev),
                Err(_) => false,
            },
    {
        let msgtype: Option<&str> = payload.get_str("msgtype");
        let content: Option<&str> = match msgtype {
            Some(t) => {
                if crate::text::str_eq(t, "markdown") {
                    payload.get2_str("markdown", "content")
                } else if crate::text::str_eq(t, "markdown_v2") {
                    payload.get2_str("markdown_v2", "content")
                } else {
                    payload.get2_str("text", "content")
                }
            },
            None => payload.get2_str("text", "content"),
        };
        let markdown: String = {
            let mut body: Option<String> = None;
            match content {
                Some(s) => {
                    if s.unicode_len() > 0 {
                        body = Some(crate::text::string_of(s));
                    }
                },
                None => {},
            }
            match body {
                Some(s) => s,
                None => {
                    proof {
                        if wf_num(payload@) {
                            crate::json::lemma_json_text_nonempty(payload@);
                        }
                    }
                    payload.to_json_string()
                },
            }
        };
        let id: String = match payload.get_str("msgid") {
            Some(s) => crate::text::string_of(s),
            None => crate::util::new_event_id(),
        };
        let timestamp: i64 = {
            let mut ts: Option<i64> = None;
            match payload.get("create_time") {
                Some(v) => {
                    ts = crate::util::value_to_i64(v);
                },
                None => {},
            }
            match ts {
                Some(v) => v,
                None => crate::util::now_timestamp(),
            }
        };
        let title: Option<String> = match payload.get_str("msgtype") {
            Some(s) => Some(crate::text::string_of(s)),
            None => None,
        };
        let mut meta_ms: Vec<(String, Json)> = Vec::new();
        let mentioned: Json = match payload.get2("text", "mentioned_list") {
            Some(v) => v.duplicate(),
            None => Json::Null,
        };
        meta_ms.push((crate::text::string_of("mentioned_list"), mentioned));
        meta_ms.push((crate::text::string_of("msgtype"), payload.get_or_null("msgtype")));
        let ghost metav = meta_ms@;
        let meta = Json::Obj(meta_ms);
        proof {
            crate::json::lemma_jview_obj(metav);
            assert(crate::json::jview_obj(metav) =~= wecom_meta(payload@)->Obj_0);
            assert(meta@ =~~= wecom_meta(payload@));
        }
        Ok(
            UemEvent {
                id,
                source: crate::text::string_of("wecom"),
                timestamp,
                title,
                markdown,
                raw: payload.duplicate(),
                meta,
            },
        )
    }

    /// Re-encodes a canonical event as a WeCom `markdown` message,
    /// prepending `# {title}` when the event carries a title.  Always
    /// succeeds.
    pub fn uem_to_egress(&self, event: &UemEvent) -> (r: Result<OutgoingPayload, AdapterError>)
        ensures
            match r {
                Ok(pl) => wecom_egress_ok(event, pl),
                Err(_) => false,
            },
    {
        let content = crate::util::titled_markdown(&event.title, event.markdown.as_str());
        let mut inner_ms: Vec<(String, Json)> = Vec::new();
        inner_ms.push((crate::text::string_of("content"), Json::Str(content)));
        let ghost innerv = inner_ms@;
        let inner = Json::Obj(inner_ms);
        let mut ms: Vec<(String, Json)> = Vec::new();
        ms.push((crate::text::string_of("markdown"), inner));
        ms.push((crate::text::string_of("msgtype"), Json::Str(crate::text::string_of("markdown"))));
        let ghost msv = ms@;
        let body = Json::Obj(ms);
        proof {
            crate::json::lemma_jview_obj(innerv);
            crate::json::lemma_jview_obj(msv);
            let target = wecom_body(view_opt(event.title), event.markdown@);
            assert(crate::json::jview_obj(innerv) =~= seq![
                ("content"@, JsonSpec::Str(spec_titled(view_opt(event.title), event.markdown@))),
            ]);
            assert(crate::json::jview_obj(msv) =~~= target->Obj_0);
            assert(body@ =~~= target);
        }
        Ok(OutgoingPayload { body, content_type: "application/json" })
    }
}

} // verus!
