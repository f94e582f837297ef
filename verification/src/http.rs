//! The generic HTTP adapter: a flat payload with optional `markdown`
//! or `text` body, `id`, `title` and `timestamp` fields; egress echoes
//! the whole canonical event.

use vstd::prelude::*;

use crate::json::{json_text, spec_as_str, spec_get, wf_num, Json, JsonSpec};
use crate::models::{view_opt, AdapterError, OutgoingPayload, UemEvent};
use crate::util::{is_uuid_string, spec_value_to_i64};

verus! {

broadcast use vstd::std_specs::vec::group_vec_axioms, vstd::seq::group_seq_axioms;

/// The adapter for the generic HTTP shape.
pub struct HttpAdapter;

/// The body the generic ingress extracts: a non-empty `markdown`
/// string, else a non-empty `text` string, else the whole payload's
/// JSON text.
pub open spec fn http_markdown(p: JsonSpec) -> Seq<char> {
    match spec_as_str(spec_get(p, "markdown"@)) {
        Some(s) => {
            if s.len() > 0 {
                s
            } else {
                http_text_fallback(p)
            }
        },
        None => http_text_fallback(p),
    }
}

/// The `text` step of the generic body lookup.
pub open spec fn http_text_fallback(p: JsonSpec) -> Seq<char> {
    match spec_as_str(spec_get(p, "text"@)) {
        Some(s) => {
            if s.len() > 0 {
                s
            } else {
                json_text(p)
            }
        },
        None => json_text(p),
    }
}

/// The body the generic egress emits: the canonical event, verbatim.
pub open spec fn http_body(
    id: Seq<char>,
    source: Seq<char>,
    ts: i64,
    title: Option<Seq<char>>,
    md: Seq<char>,
    raw: JsonSpec,
    meta: JsonSpec,
) -> JsonSpec {
    JsonSpec::Obj(
        seq![
            ("id"@, JsonSpec::Str(id)),
            ("markdown"@, JsonSpec::Str(md)),
            ("meta"@, meta),
            ("raw"@, raw),
            ("source"@, JsonSpec::Str(source)),
            ("timestamp"@, JsonSpec::Int(ts)),
            (
                "title"@,
                match title {
                    Some(t) => JsonSpec::Str(t),
                    None => JsonSpec::Null,
                },
            ),
        ],
    )
}

/// Everything the ingress promises of the event it builds from
/// payload `p`.
pub open spec fn http_ingress_ok(p: JsonSpec, ev: UemEvent) -> bool {
    &&& ev.source@ == "custom"@
    &&& ev.markdown@ == http_markdown(p)
    &&& wf_num(p) ==> ev.markdown@.len() > 0
    &&& match spec_as_str(spec_get(p, "id"@)) {
        Some(s) => ev.id@ == s,
        None => is_uuid_string(ev.id@),
    }
    &&& match spec_value_to_i64(spec_get(p, "timestamp"@)) {
        Some(v) => ev.timestamp == v,
        None => ev.timestamp >= 0,
    }
    &&& view_opt(ev.title) == spec_as_str(spec_get(p, "title"@))
    &&& ev.raw@ == p
    &&& ev.meta@ == JsonSpec::Obj(Seq::empty())
}

/// Everything the egress promises of the payload it builds from event
/// `ev`.
pub open spec fn http_egress_ok(ev: &UemEvent, pl: OutgoingPayload) -> bool {
    &&& pl.body@ == http_body(
        ev.id@,
        ev.source@,
        ev.timestamp,
        view_opt(ev.title),
        ev.markdown@,
        ev.raw@,
        ev.meta@,
    )
    &&& pl.content_type@ == "application/json"@
}

impl HttpAdapter {
    /// Normalizes a generic HTTP payload.  Never fails: every missing
    /// field degrades to a default.
    pub fn ingress_to_uem(&self, payload: &Json) -> (r: Result<UemEvent, AdapterError>)
        ensures
            match r {
                Ok(ev) => http_ingress_ok(payload@, ev),
                Err(_) => false,
            },
    {
        let markdown: String = {
            let mut body: Option<String> = None;
            match payload.get_str("markdown") {
                Some(s) => {
                    if s.unicode_len() > 0 {
                        body = Some(crate::text::string_of(s));
                    }
                },
                None => {},
            }
            if body.is_none() {
                match payload.get_str("text") {
                    Some(s) => {
                        if s.unicode_len() > 0 {
                            body = Some(crate::text::string_of(s));
                        }
                    },
                    None => {},
                }
            }
            match body {
                Some(s) => s,
                None => {
                    proof {
                        if wf_num(payload@) {
                            crate::json::lemma_json_text_nonempty(payload@);
                        }
                    }
                    payload.to_json_string()
                },
            }
        };
        let id: String = match payload.get_str("id") {
            Some(s) => crate::text::string_of(s),
            None => crate::util::new_event_id(),
        };
        let timestamp: i64 = {
            let mut ts: Option<i64> = None;
            match payload.get("timestamp") {
                Some(v) => {
                    ts = crate::util::value_to_i64(v);
                },
                None => {},
            }
            match ts {
                Some(v) => v,
                None => crate::util::now_timestamp(),
            }
        };
        let title: Option<String> = match payload.get_str("title") {
            Some(s) => Some(crate::text::string_of(s)),
            None => None,
        };
        Ok(
            UemEvent {
                id,
                source: crate::text::string_of("custom"),
                timestamp,
                title,
                markdown,
                raw: payload.duplicate(),
                meta: Json::Obj(Vec::new()),
            },
        )
    }

    /// Re-encodes a canonical event as the generic JSON shape.  Always
    /// succeeds.
    pub fn uem_to_egress(&self, event: &UemEvent) -> (r: Result<OutgoingPayload, AdapterError>)
        ensures
            match r {
                Ok(pl) => http_egress_ok(event, pl),
                Err(_) => false,
            },
    {
        let mut ms: Vec<(String, Json)> = Vec::new();
        ms.push((crate::text::string_of("id"), Json::Str(event.id.clone())));
        ms.push((crate::text::string_of("markdown"), Json::Str(event.markdown.clone())));
        ms.push((crate::text::string_of("meta"), event.meta.duplicate()));
        ms.push((crate::text::string_of("raw"), event.raw.duplicate()));
        ms.push((crate::text::string_of("source"), Json::Str(event.source.clone())));
        ms.push((crate::text::string_of("timestamp"), Json::Int(event.timestamp)));
        let title_json: Json = match &event.title {
            Some(t) => Json::Str(t.clone()),
            None => Json::Null,
        };
        ms.push((crate::text::string_of("title"), title_json));
        let ghost msv = ms@;
        let body = Json::Obj(ms);
        proof {
            crate::json::lemma_jview_obj(msv);
            assert(msv.len() == 7);
            assert(body@ == JsonSpec::Obj(crate::json::jview_obj(msv)));
            assert(crate::json::jview_obj(msv)[0] == ("id"@, JsonSpec::Str(event.id@)));
            assert(crate::json::jview_obj(msv)[1] == ("markdown"@, JsonSpec::Str(event.markdown@)));
            assert(crate::json::jview_obj(msv)[2] == ("meta"@, event.meta@));
            assert(crate::json::jview_obj(msv)[3] == ("raw"@, event.raw@));
            assert(crate::json::jview_obj(msv)[4] == ("source"@, JsonSpec::Str(event.source@)));
            assert(crate::json::jview_obj(msv)[5] == ("timestamp"@, JsonSpec::Int(event.timestamp)));
            let tjson: JsonSpec = match view_opt(event.title) {
                Some(t) => JsonSpec::Str(t),
                None => JsonSpec::Null,
            };
            assert(crate::json::jview_obj(msv)[6] == ("title"@, tjson));
            assert(crate::json::jview_obj(msv) =~= http_body(
                event.id@,
                event.source@,
                event.timestamp,
                view_opt(event.title),
                event.markdown@,
                event.raw@,
                event.meta@,
            )->Obj_0);
            assert(body@ =~~= http_body(
                event.id@,
                event.source@,
                event.timestamp,
                view_opt(event.title),
                event.markdown@,
                event.raw@,
                event.meta@,
            ));
        }
        Ok(OutgoingPayload { body, content_type: "application/json" })
    }
}

} // verus!

verus! {

/// For the generic adapter, the canonical body is the payload's
/// `markdown` field verbatim whenever that field holds a non-empty
/// string.
pub proof fn lemma_generic_markdown_passthrough(p: JsonSpec, s: Seq<char>)
    requires
        spec_as_str(spec_get(p, "markdown"@)) == Some(s),
        s.len() > 0,
    ensures
        http_markdown(p) == s,
{
}

} // verus!
