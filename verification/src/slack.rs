//! The Slack adapter: ingress walks Block-Kit blocks, legacy
//! attachments and activity sections; egress folds the shared Markdown
//! event stream into Slack's `mrkdwn` dialect.

use vstd::prelude::*;

use crate::json::{json_text, spec_as_str, spec_get, wf_num, Json, JsonSpec};
use crate::markdown::{md_events, rng, MdEvent};
use crate::models::{view_opt, AdapterError, OutgoingPayload, UemEvent};
use crate::text::{spec_join, strs_view, trim_chars};
use crate::util::{
    is_uuid_string, md_bold, md_image, md_link, spec_titled, str_or_empty, spec_value_to_i64,
};

verus! {

broadcast use vstd::std_specs::vec::group_vec_axioms, vstd::seq::group_seq_axioms;

/// The adapter for Slack.
pub struct SlackAdapter;

/// What one Markdown event contributes to the `mrkdwn` text.
pub open spec fn slack_step(s: Seq<char>, ev: MdEvent) -> Seq<char> {
    match ev {
        MdEvent::ParaStart => Seq::empty(),
        MdEvent::ParaEnd => seq!['\n'],
        MdEvent::HeadingStart => seq!['*'],
        MdEvent::HeadingEnd => seq!['*', '\n'],
        MdEvent::QuoteStart => seq!['>', ' '],
        MdEvent::QuoteEnd => seq!['\n', '\n'],
        MdEvent::CodeStart => seq!['`', '`', '`', '\n'],
        MdEvent::CodeEnd => seq!['\n', '`', '`', '`', '\n'],
        MdEvent::ListStart { .. } => Seq::empty(),
        MdEvent::ListEnd => Seq::empty(),
        MdEvent::ItemStart => seq!['\u{2022}', ' '],
        MdEvent::ItemEnd => seq!['\n'],
        MdEvent::EmphStart => seq!['_'],
        MdEvent::EmphEnd => seq!['_'],
        MdEvent::StrongStart => seq!['*'],
        MdEvent::StrongEnd => seq!['*'],
        MdEvent::StrikeStart => seq!['~'],
        MdEvent::StrikeEnd => seq!['~'],
        MdEvent::LinkStart { url_from, url_to } => seq!['<'] + rng(
            s,
            url_from as int,
            url_to as int,
        ) + seq!['|'],
        MdEvent::LinkEnd => seq!['>'],
        MdEvent::ImageStart { url_from, url_to } => seq!['<'] + rng(
            s,
            url_from as int,
            url_to as int,
        ) + seq!['|'],
        MdEvent::ImageEnd => seq!['i', 'm', 'a', 'g', 'e', '>'],
        MdEvent::Text { from, to } => rng(s, from as int, to as int),
        MdEvent::InlineCode { from, to } => seq!['`'] + rng(s, from as int, to as int) + seq!['`'],
        MdEvent::SoftBreak => seq!['\n'],
        MdEvent::HardBreak => seq!['\n'],
        MdEvent::Rule => seq!['-', '-', '-', '\n'],
    }
}

/// The `mrkdwn` text of the events from `i` on.
pub open spec fn slack_tail(s: Seq<char>, evs: Seq<MdEvent>, i: int) -> Seq<char>
    decreases evs.len() - i,
{
    if i < 0 || i >= evs.len() {
        Seq::empty()
    } else {
        slack_step(s, evs[i]) + slack_tail(s, evs, i + 1)
    }
}

/// The `mrkdwn` rendering of a Markdown text: the event stream folded
/// and the result trimmed of surrounding whitespace.
pub open spec fn slack_mrkdwn(md: Seq<char>) -> Seq<char> {
    trim_chars(slack_tail(md, md_events(md), 0))
}

/// Appends what one event contributes; executable twin of
/// `slack_step`.
#[verifier::rlimit(60)]
fn slack_step_exec(s: &Vec<char>, ev: &MdEvent, out: &mut Vec<char>)
    ensures
        final(out)@ == old(out)@ + slack_step(s@, *ev),
{
    match ev {
        MdEvent::ParaStart => {},
        MdEvent::ParaEnd => {
            out.push('\n');
        },
        MdEvent::HeadingStart => {
            out.push('*');
        },
        MdEvent::HeadingEnd => {
            out.push('*');
            out.push('\n');
        },
        MdEvent::QuoteStart => {
            out.push('>');
            out.push(' ');
        },
        MdEvent::QuoteEnd => {
            out.push('\n');
            out.push('\n');
        },
        MdEvent::CodeStart => {
            out.push('`');
            out.push('`');
            out.push('`');
            out.push('\n');
        },
        MdEvent::CodeEnd => {
            out.push('\n');
            out.push('`');
            out.push('`');
            out.push('`');
            out.push('\n');
        },
        MdEvent::ListStart { .. } => {},
        MdEvent::ListEnd => {},
        MdEvent::ItemStart => {
            out.push('\u{2022}');
            out.push(' ');
        },
        MdEvent::ItemEnd => {
            out.push('\n');
        },
        MdEvent::EmphStart => {
            out.push('_');
        },
        MdEvent::EmphEnd => {
            out.push('_');
        },
        MdEvent::StrongStart => {
            out.push('*');
        },
        MdEvent::StrongEnd => {
            out.push('*');
        },
        MdEvent::StrikeStart => {
            out.push('~');
        },
        MdEvent::StrikeEnd => {
            out.push('~');
        },
        MdEvent::LinkStart { url_from, url_to } => {
            out.push('<');
            crate::markdown::push_rng(s, *url_from, *url_to, out);
            out.push('|');
        },
        MdEvent::LinkEnd => {
            out.push('>');
        },
        MdEvent::ImageStart { url_from, url_to } => {
            out.push('<');
            crate::markdown::push_rng(s, *url_from, *url_to, out);
            out.push('|');
        },
        MdEvent::ImageEnd => {
            out.push('i');
            out.push('m');
            out.push('a');
            out.push('g');
            out.push('e');
            out.push('>');
        },
        MdEvent::Text { from, to } => {
            crate::markdown::push_rng(s, *from, *to, out);
        },
        MdEvent::InlineCode { from, to } => {
            out.push('`');
            crate::markdown::push_rng(s, *from, *to, out);
            out.push('`');
        },
        MdEvent::SoftBreak => {
            out.push('\n');
        },
        MdEvent::HardBreak => {
            out.push('\n');
        },
        MdEvent::Rule => {
            out.push('-');
            out.push('-');
            out.push('-');
            out.push('\n');
        },
    }
    proof {
        assert(out@ =~= old(out)@ + slack_step(s@, *ev));
    }
}

/// Converts standard Markdown to Slack's `mrkdwn` dialect; executable
/// twin of `slack_mrkdwn`.
pub fn markdown_to_slack(markdown: &str) -> (r: String)
    ensures
        r@ == slack_mrkdwn(markdown@),
{
    let cs = crate::text::chars_of(markdown);
    let evs = crate::markdown::parse_markdown_chars(&cs);
    let n = evs.len();
    let mut out: Vec<char> = Vec::new();
    let mut i: usize = 0;
    while i < n
        invariant
            i <= n,
            n == evs@.len(),
            cs@ == markdown@,
            evs@ == md_events(markdown@),
            out@ + slack_tail(cs@, evs@, i as int) == slack_tail(cs@, evs@, 0),
        decreases n - i,
    {
        slack_step_exec(&cs, &evs[i], &mut out);
        proof {
            assert(out@ + slack_tail(cs@, evs@, i + 1) =~= slack_tail(cs@, evs@, 0));
        }
        i = i + 1;
    }
    proof {
        assert(slack_tail(cs@, evs@, n as int) =~= Seq::<char>::empty());
        assert(out@ =~= slack_tail(cs@, evs@, 0));
    }
    let trimmed = crate::text::trim_vec(&out);
    crate::text::string_from_chars(&trimmed)
}

} // verus!

verus! {

/// The `text` string inside a Slack text object.
pub open spec fn text_obj(v: Option<JsonSpec>) -> Option<Seq<char>> {
    match v {
        Some(o) => spec_as_str(spec_get(o, "text"@)),
        None => None,
    }
}

/// The bullet lines of a `section` block's fields, from `i` on.
pub open spec fn section_field_lines(fs: Seq<JsonSpec>, i: int) -> Seq<Seq<char>>
    decreases fs.len() - i,
{
    if i < 0 || i >= fs.len() {
        Seq::empty()
    } else {
        (match text_obj(Some(fs[i])) {
            Some(t) => seq![seq!['-', ' '] + t],
            None => Seq::empty(),
        }) + section_field_lines(fs, i + 1)
    }
}

/// The lines of a `section` block.
pub open spec fn slack_section_lines(b: JsonSpec) -> Seq<Seq<char>> {
    (match text_obj(spec_get(b, "text"@)) {
        Some(t) => seq![t],
        None => Seq::empty(),
    }) + (match spec_get(b, "fields"@) {
        Some(JsonSpec::Arr(fs)) => section_field_lines(fs, 0),
        _ => Seq::empty(),
    })
}

/// The space-joined fragments of a `context` block, from `i` on.
pub open spec fn context_lines(es: Seq<JsonSpec>, i: int) -> Seq<Seq<char>>
    decreases es.len() - i,
{
    if i < 0 || i >= es.len() {
        Seq::empty()
    } else {
        (match text_obj(Some(es[i])) {
            Some(t) => seq![t],
            None => match spec_as_str(spec_get(es[i], "image_url"@)) {
                Some(u) => seq![md_image("image"@, u)],
                None => Seq::empty(),
            },
        }) + context_lines(es, i + 1)
    }
}

/// The button lines of an `actions` block, from `i` on.
pub open spec fn action_lines(es: Seq<JsonSpec>, i: int) -> Seq<Seq<char>>
    decreases es.len() - i,
{
    if i < 0 || i >= es.len() {
        Seq::empty()
    } else {
        (if spec_as_str(spec_get(es[i], "type"@)) == Some("button"@) {
            let label = str_or_empty(text_obj(spec_get(es[i], "text"@)));
            let url = str_or_empty(spec_as_str(spec_get(es[i], "url"@)));
            if label.len() > 0 && url.len() > 0 {
                seq![seq!['-', ' '] + md_link(label, url)]
            } else {
                Seq::empty()
            }
        } else {
            Seq::empty()
        }) + action_lines(es, i + 1)
    }
}

/// The concatenated text of one `rich_text_section`'s runs, from `i`
/// on.
pub open spec fn rich_section_text(items: Seq<JsonSpec>, i: int) -> Seq<char>
    decreases items.len() - i,
{
    if i < 0 || i >= items.len() {
        Seq::empty()
    } else {
        (match spec_as_str(spec_get(items[i], "type"@)) {
            Some(t) => {
                if t == "text"@ {
                    str_or_empty(spec_as_str(spec_get(items[i], "text"@)))
                } else if t == "link"@ {
                    let url = str_or_empty(spec_as_str(spec_get(items[i], "url"@)));
                    let label = match spec_as_str(spec_get(items[i], "text"@)) {
                        Some(l) => l,
                        None => url,
                    };
                    if url.len() > 0 {
                        md_link(label, url)
                    } else {
                        Seq::empty()
                    }
                } else if t == "emoji"@ {
                    match spec_as_str(spec_get(items[i], "name"@)) {
                        Some(nm) => seq![':'] + nm + seq![':'],
                        None => Seq::empty(),
                    }
                } else {
                    Seq::empty()
                }
            },
            None => Seq::empty(),
        }) + rich_section_text(items, i + 1)
    }
}

/// The lines of a `rich_text` block's sections, from `i` on.
pub open spec fn rich_lines(es: Seq<JsonSpec>, i: int) -> Seq<Seq<char>>
    decreases es.len() - i,
{
    if i < 0 || i >= es.len() {
        Seq::empty()
    } else {
        (if spec_as_str(spec_get(es[i], "type"@)) == Some("rich_text_section"@) {
            match spec_get(es[i], "elements"@) {
                Some(JsonSpec::Arr(items)) => {
                    let text = rich_section_text(items, 0);
                    if text.len() > 0 {
                        seq![text]
                    } else {
                        Seq::empty()
                    }
                },
                _ => Seq::empty(),
            }
        } else {
            Seq::empty()
        }) + rich_lines(es, i + 1)
    }
}

/// What a `rich_text` block renders to.
pub open spec fn slack_rich_text_markdown(b: JsonSpec) -> Option<Seq<char>> {
    match spec_get(b, "elements"@) {
        Some(JsonSpec::Arr(es)) => {
            let lines = rich_lines(es, 0);
            if lines.len() == 0 {
                None
            } else {
                Some(spec_join(lines, seq!['\n']))
            }
        },
        _ => None,
    }
}

/// What one Block-Kit block renders to, by its `type` tag.
pub open spec fn slack_block_markdown(b: JsonSpec) -> Option<Seq<char>> {
    let t = str_or_empty(spec_as_str(spec_get(b, "type"@)));
    if t == "section"@ {
        let lines = slack_section_lines(b);
        if lines.len() == 0 {
            None
        } else {
            Some(spec_join(lines, seq!['\n']))
        }
    } else if t == "header"@ {
        match text_obj(spec_get(b, "text"@)) {
            Some(x) => Some(md_bold(x)),
            None => None,
        }
    } else if t == "divider"@ {
        Some(seq!['-', '-', '-'])
    } else if t == "image"@ {
        let alt = match spec_as_str(spec_get(b, "alt_text"@)) {
            Some(a) => a,
            None => "image"@,
        };
        let url = str_or_empty(spec_as_str(spec_get(b, "image_url"@)));
        if url.len() == 0 {
            None
        } else {
            Some(md_image(alt, url))
        }
    } else if t == "context"@ {
        let lines = match spec_get(b, "elements"@) {
            Some(JsonSpec::Arr(es)) => context_lines(es, 0),
            _ => Seq::empty(),
        };
        if lines.len() == 0 {
            None
        } else {
            Some(spec_join(lines, seq![' ']))
        }
    } else if t == "actions"@ {
        let lines = match spec_get(b, "elements"@) {
            Some(JsonSpec::Arr(es)) => action_lines(es, 0),
            _ => Seq::empty(),
        };
        if lines.len() == 0 {
            None
        } else {
            Some(spec_join(lines, seq!['\n']))
        }
    } else if t == "rich_text"@ {
        slack_rich_text_markdown(b)
    } else {
        None
    }
}

/// The lines of a legacy attachment's field list, from `i` on.
pub open spec fn att_field_lines(fs: Seq<JsonSpec>, i: int) -> Seq<Seq<char>>
    decreases fs.len() - i,
{
    if i < 0 || i >= fs.len() {
        Seq::empty()
    } else {
        let title = str_or_empty(spec_as_str(spec_get(fs[i], "title"@)));
        let value = str_or_empty(spec_as_str(spec_get(fs[i], "value"@)));
        (if title.len() > 0 && value.len() > 0 {
            seq![seq!['-', ' '] + md_bold(title) + seq![':', ' '] + value]
        } else {
            Seq::empty()
        }) + att_field_lines(fs, i + 1)
    }
}

/// The blank-line-separated parts one legacy attachment renders to.
pub open spec fn slack_attachment_parts(a: JsonSpec) -> Seq<Seq<char>> {
    let title = str_or_empty(spec_as_str(spec_get(a, "title"@)));
    let link = str_or_empty(spec_as_str(spec_get(a, "title_link"@)));
    (if title.len() > 0 {
        if link.len() > 0 {
            seq![md_link(title, link)]
        } else {
            seq![md_bold(title)]
        }
    } else {
        Seq::empty()
    }) + (match spec_as_str(spec_get(a, "text"@)) {
        Some(t) => {
            if t.len() > 0 {
                seq![t]
            } else {
                Seq::empty()
            }
        },
        None => Seq::empty(),
    }) + (match spec_get(a, "fields"@) {
        Some(JsonSpec::Arr(fs)) => {
            let lines = att_field_lines(fs, 0);
            if lines.len() > 0 {
                seq![spec_join(lines, seq!['\n'])]
            } else {
                Seq::empty()
            }
        },
        _ => Seq::empty(),
    }) + (match spec_as_str(spec_get(a, "image_url"@)) {
        Some(u) => {
            if u.len() > 0 {
                seq![md_image("image"@, u)]
            } else {
                Seq::empty()
            }
        },
        None => Seq::empty(),
    })
}

/// What one legacy attachment renders to.
pub open spec fn slack_attachment_markdown(a: JsonSpec) -> Seq<char> {
    spec_join(slack_attachment_parts(a), seq!['\n', '\n'])
}

/// The non-empty renderings of the blocks, from `i` on.
pub open spec fn block_parts(bs: Seq<JsonSpec>, i: int) -> Seq<Seq<char>>
    decreases bs.len() - i,
{
    if i < 0 || i >= bs.len() {
        Seq::empty()
    } else {
        (match slack_block_markdown(bs[i]) {
            Some(t) => {
                if t.len() > 0 {
                    seq![t]
                } else {
                    Seq::empty()
                }
            },
            None => Seq::empty(),
        }) + block_parts(bs, i + 1)
    }
}

/// The non-empty renderings of the attachments, from `i` on.
pub open spec fn att_parts(aa: Seq<JsonSpec>, i: int) -> Seq<Seq<char>>
    decreases aa.len() - i,
{
    if i < 0 || i >= aa.len() {
        Seq::empty()
    } else {
        (if slack_attachment_markdown(aa[i]).len() > 0 {
            seq![slack_attachment_markdown(aa[i])]
        } else {
            Seq::empty()
        }) + att_parts(aa, i + 1)
    }
}

/// The renderings of the activity sections, from `i` on.
pub open spec fn section_parts(ss: Seq<JsonSpec>, i: int) -> Seq<Seq<char>>
    decreases ss.len() - i,
{
    if i < 0 || i >= ss.len() {
        Seq::empty()
    } else {
        let title = str_or_empty(spec_as_str(spec_get(ss[i], "activityTitle"@)));
        let sub = str_or_empty(spec_as_str(spec_get(ss[i], "activitySubtitle"@)));
        let lines = (if title.len() > 0 {
            seq![md_bold(title)]
        } else {
            Seq::empty()
        }) + (if sub.len() > 0 {
            seq![sub]
        } else {
            Seq::empty()
        });
        (if lines.len() > 0 {
            seq![spec_join(lines, seq!['\n'])]
        } else {
            Seq::empty()
        }) + section_parts(ss, i + 1)
    }
}

/// The blank-line-separated parts a Slack event object renders to.
pub open spec fn slack_event_parts(ev: JsonSpec) -> Seq<Seq<char>> {
    (match spec_get(ev, "blocks"@) {
        Some(JsonSpec::Arr(bs)) => {
            let bp = block_parts(bs, 0);
            if bp.len() > 0 {
                seq![spec_join(bp, seq!['\n', '\n'])]
            } else {
                Seq::empty()
            }
        },
        _ => {
            let text = str_or_empty(spec_as_str(spec_get(ev, "text"@)));
            if text.len() > 0 {
                seq![text]
            } else {
                Seq::empty()
            }
        },
    }) + (match spec_get(ev, "attachments"@) {
        Some(JsonSpec::Arr(aa)) => {
            let ap = att_parts(aa, 0);
            if ap.len() > 0 {
                seq![spec_join(ap, seq!['\n', '\n'])]
            } else {
                Seq::empty()
            }
        },
        _ => Seq::empty(),
    }) + (match spec_get(ev, "sections"@) {
        Some(JsonSpec::Arr(ss)) => {
            let sp = section_parts(ss, 0);
            if sp.len() > 0 {
                seq![spec_join(sp, seq!['\n', '\n'])]
            } else {
                Seq::empty()
            }
        },
        _ => Seq::empty(),
    })
}

/// The nested event object a Slack payload carries, or the payload
/// itself.
pub open spec fn slack_event_obj(p: JsonSpec) -> JsonSpec {
    match spec_get(p, "event"@) {
        Some(e) => e,
        None => p,
    }
}

/// The body the Slack ingress extracts: the event object's parts
/// joined by blank lines; when nothing extracts, the whole payload's
/// JSON text.
pub open spec fn slack_markdown(p: JsonSpec) -> Seq<char> {
    let parts = slack_event_parts(slack_event_obj(p));
    let text: Seq<char> = if parts.len() == 0 {
        Seq::empty()
    } else {
        spec_join(parts, seq!['\n', '\n'])
    };
    if text.len() == 0 {
        json_text(p)
    } else {
        text
    }
}

/// The metadata the Slack ingress retains, read off the event object.
pub open spec fn slack_meta(p: JsonSpec) -> JsonSpec {
    let ev = slack_event_obj(p);
    JsonSpec::Obj(
        seq![
            ("channel"@, crate::json::or_null(spec_get(ev, "channel"@))),
            ("thread_ts"@, crate::json::or_null(spec_get(ev, "thread_ts"@))),
            ("type"@, crate::json::or_null(spec_get(ev, "type"@))),
            ("user"@, crate::json::or_null(spec_get(ev, "user"@))),
        ],
    )
}

/// The body the Slack egress emits.
pub open spec fn slack_body(title: Option<Seq<char>>, md: Seq<char>) -> JsonSpec {
    JsonSpec::Obj(seq![("text"@, JsonSpec::Str(slack_mrkdwn(spec_titled(title, md))))])
}

} // verus!

verus! {

/// Reads the `text` string of a text object; executable twin of
/// `text_obj`.
fn text_obj_exec(o: &Json) -> (r: Option<String>)
    ensures
        view_opt(r) == text_obj(Some(o@)),
{
    match o.get_str("text") {
        Some(s) => Some(crate::text::string_of(s)),
        None => None,
    }
}

/// Renders a `section` block's lines.
fn section_lines_exec(b: &Json) -> (r: Vec<String>)
    ensures
        strs_view(r@) == slack_section_lines(b@),
{
    let mut lines: Vec<String> = Vec::new();
    match b.get("text") {
        Some(t) => {
            match text_obj_exec(t) {
                Some(s) => {
                    lines.push(s);
                },
                None => {},
            }
        },
        None => {},
    }
    let ghost first = strs_view(lines@);
    proof {
        assert(first =~= (match text_obj(spec_get(b@, "text"@)) {
            Some(t) => seq![t],
            None => Seq::<Seq<char>>::empty(),
        }));
    }
    match b.get("fields") {
        Some(fv) => {
            match fv {
                Json::Arr(fs) => {
                    let ghost fsv = crate::json::jview_arr(fs@);
                    proof {
                        crate::json::lemma_jview_arr(fs@);
                        assert(crate::json::jview(*fv) == JsonSpec::Arr(fsv));
                    }
                    let n = fs.len();
                    let mut i: usize = 0;
                    while i < n
                        invariant
                            i <= n,
                            n == fs@.len(),
                            fsv == crate::json::jview_arr(fs@),
                            fsv.len() == n,
                            forall|k: int| 0 <= k < n ==> fsv[k] == crate::json::jview(fs@[k]),
                            strs_view(lines@) + section_field_lines(fsv, i as int) == first
                                + section_field_lines(fsv, 0),
                        decreases n - i,
                    {
                        let ghost pre = strs_view(lines@);
                        match text_obj_exec(&fs[i]) {
                            Some(t) => {
                                let mut out: Vec<char> = Vec::new();
                                out.push('-');
                                out.push(' ');
                                crate::text::push_str_chars(&mut out, t.as_str());
                                proof {
                                    assert(out@ =~= seq!['-', ' '] + t@);
                                }
                                lines.push(crate::text::string_from_chars(&out));
                                proof {
                                    assert(strs_view(lines@) =~= pre.push(seq!['-', ' '] + t@));
                                    assert(strs_view(lines@) + section_field_lines(fsv, i + 1)
                                        =~= pre + section_field_lines(fsv, i as int));
                                }
                            },
                            None => {
                                proof {
                                    assert(section_field_lines(fsv, i as int)
                                        =~= section_field_lines(fsv, i + 1));
                                }
                            },
                        }
                        i = i + 1;
                    }
                    proof {
                        assert(section_field_lines(fsv, n as int) =~= Seq::<Seq<char>>::empty());
                        assert(strs_view(lines@) =~= first + section_field_lines(fsv, 0));
                    }
                },
                _ => {},
            }
        },
        None => {},
    }
    proof {
        assert(strs_view(lines@) =~= slack_section_lines(b@));
    }
    lines
}

/// Renders a `context` block's fragments.
fn context_lines_exec(es: &Vec<Json>) -> (r: Vec<String>)
    ensures
        strs_view(r@) == context_lines(crate::json::jview_arr(es@), 0),
{
    let ghost esv = crate::json::jview_arr(es@);
    proof {
        crate::json::lemma_jview_arr(es@);
    }
    let n = es.len();
    let mut lines: Vec<String> = Vec::new();
    let mut i: usize = 0;
    while i < n
        invariant
            i <= n,
            n == es@.len(),
            esv == crate::json::jview_arr(es@),
            esv.len() == n,
            forall|k: int| 0 <= k < n ==> esv[k] == crate::json::jview(es@[k]),
            strs_view(lines@) + context_lines(esv, i as int) == context_lines(esv, 0),
        decreases n - i,
    {
        let ghost pre = strs_view(lines@);
        match text_obj_exec(&es[i]) {
            Some(t) => {
                lines.push(t);
                proof {
                    assert(strs_view(lines@) + context_lines(esv, i + 1) =~= pre + context_lines(
                        esv,
                        i as int,
                    ));
                }
            },
            None => {
                match es[i].get_str("image_url") {
                    Some(u) => {
                        lines.push(crate::util::md_image_exec("image", u));
                        proof {
                            assert(strs_view(lines@) + context_lines(esv, i + 1) =~= pre
                                + context_lines(esv, i as int));
                        }
                    },
                    None => {
                        proof {
                            assert(context_lines(esv, i as int) =~= context_lines(esv, i + 1));
                        }
                    },
                }
            },
        }
        i = i + 1;
    }
    proof {
        assert(context_lines(esv, n as int) =~= Seq::<Seq<char>>::empty());
        assert(strs_view(lines@) =~= strs_view(lines@) + context_lines(esv, n as int));
    }
    lines
}

/// Renders an `actions` block's button lines.
fn action_lines_exec(es: &Vec<Json>) -> (r: Vec<String>)
    ensures
        strs_view(r@) == action_lines(crate::json::jview_arr(es@), 0),
{
    let ghost esv = crate::json::jview_arr(es@);
    proof {
        crate::json::lemma_jview_arr(es@);
    }
    let n = es.len();
    let mut lines: Vec<String> = Vec::new();
    let mut i: usize = 0;
    while i < n
        invariant
            i <= n,
            n == es@.len(),
            esv == crate::json::jview_arr(es@),
            esv.len() == n,
            forall|k: int| 0 <= k < n ==> esv[k] == crate::json::jview(es@[k]),
            strs_view(lines@) + action_lines(esv, i as int) == action_lines(esv, 0),
        decreases n - i,
    {
        let ghost pre = strs_view(lines@);
        let mut pushed = false;
        match es[i].get_str("type") {
            Some(t) => {
                if crate::text::str_eq(t, "button") {
                    let label: String = match es[i].get("text") {
                        Some(to) => {
                            match text_obj_exec(to) {
                                Some(s) => s,
                                None => crate::text::string_of(""),
                            }
                        },
                        None => crate::text::string_of(""),
                    };
                    let url: String = match es[i].get_str("url") {
                        Some(u) => crate::text::string_of(u),
                        None => crate::text::string_of(""),
                    };
                    proof {
                        reveal_strlit("");
                        assert(""@ =~= Seq::<char>::empty());
                        assert(label@ == str_or_empty(text_obj(spec_get(esv[i as int], "text"@))));
                        assert(url@ == str_or_empty(
                            spec_as_str(spec_get(esv[i as int], "url"@)),
                        ));
                    }
                    if label.as_str().unicode_len() > 0 && url.as_str().unicode_len() > 0 {
                        let mut out: Vec<char> = Vec::new();
                        out.push('-');
                        out.push(' ');
                        crate::text::push_str_chars(
                            &mut out,
                            crate::util::md_link_exec(label.as_str(), url.as_str()).as_str(),
                        );
                        proof {
                            assert(out@ =~= seq!['-', ' '] + md_link(label@, url@));
                        }
                        lines.push(crate::text::string_from_chars(&out));
                        pushed = true;
                        proof {
                            assert(strs_view(lines@) + action_lines(esv, i + 1) =~= pre
                                + action_lines(esv, i as int));
                        }
                    }
                }
            },
            None => {},
        }
        if !pushed {
            proof {
                assert(action_lines(esv, i as int) =~= action_lines(esv, i + 1));
            }
        }
        i = i + 1;
    }
    proof {
        assert(action_lines(esv, n as int) =~= Seq::<Seq<char>>::empty());
        assert(strs_view(lines@) =~= strs_view(lines@) + action_lines(esv, n as int));
    }
    lines
}

/// Renders the concatenated text of one `rich_text_section`.
fn rich_section_text_exec(items: &Vec<Json>) -> (r: String)
    ensures
        r@ == rich_section_text(crate::json::jview_arr(items@), 0),
{
    let ghost itv = crate::json::jview_arr(items@);
    proof {
        crate::json::lemma_jview_arr(items@);
    }
    let n = items.len();
    let mut out: Vec<char> = Vec::new();
    let mut i: usize = 0;
    while i < n
        invariant
            i <= n,
            n == items@.len(),
            itv == crate::json::jview_arr(items@),
            itv.len() == n,
            forall|k: int| 0 <= k < n ==> itv[k] == crate::json::jview(items@[k]),
            out@ + rich_section_text(itv, i as int) == rich_section_text(itv, 0),
        decreases n - i,
    {
        let ghost pre = out@;
        let mut handled = false;
        match items[i].get_str("type") {
            Some(t) => {
                if crate::text::str_eq(t, "text") {
                    handled = true;
                    match items[i].get_str("text") {
                        Some(v) => {
                            crate::text::push_str_chars(&mut out, v);
                        },
                        None => {},
                    }
                    proof {
                        assert(out@ =~= pre + str_or_empty(
                            spec_as_str(spec_get(itv[i as int], "text"@)),
                        ));
                        assert(out@ + rich_section_text(itv, i + 1) =~= pre + rich_section_text(
                            itv,
                            i as int,
                        ));
                    }
                } else if crate::text::str_eq(t, "link") {
                    handled = true;
                    let url: String = match items[i].get_str("url") {
                        Some(u) => crate::text::string_of(u),
                        None => crate::text::string_of(""),
                    };
                    proof {
                        reveal_strlit("");
                        assert(""@ =~= Seq::<char>::empty());
                    }
                    let label: String = match items[i].get_str("text") {
                        Some(l) => crate::text::string_of(l),
                        None => url.clone(),
                    };
                    if url.as_str().unicode_len() > 0 {
                        crate::text::push_str_chars(
                            &mut out,
                            crate::util::md_link_exec(label.as_str(), url.as_str()).as_str(),
                        );
                    }
                    proof {
                        assert(out@ + rich_section_text(itv, i + 1) =~= pre + rich_section_text(
                            itv,
                            i as int,
                        ));
                    }
                } else if crate::text::str_eq(t, "emoji") {
                    handled = true;
                    match items[i].get_str("name") {
                        Some(nm) => {
                            out.push(':');
                            crate::text::push_str_chars(&mut out, nm);
                            out.push(':');
                            proof {
                                assert(out@ =~= pre + (seq![':'] + nm@ + seq![':']));
                            }
                        },
                        None => {},
                    }
                    proof {
                        assert(out@ + rich_section_text(itv, i + 1) =~= pre + rich_section_text(
                            itv,
                            i as int,
                        ));
                    }
                }
            },
            None => {},
        }
        if !handled {
            proof {
                assert(rich_section_text(itv, i as int) =~= rich_section_text(itv, i + 1));
            }
        }
        i = i + 1;
    }
    proof {
        assert(rich_section_text(itv, n as int) =~= Seq::<char>::empty());
        assert(out@ =~= out@ + rich_section_text(itv, n as int));
    }
    crate::text::string_from_chars(&out)
}

/// Renders a `rich_text` block.
fn rich_text_exec(b: &Json) -> (r: Option<String>)
    ensures
        view_opt(r) == slack_rich_text_markdown(b@),
{
    match b.get("elements") {
        Some(ev) => {
            match ev {
                Json::Arr(es) => {
                    let ghost esv = crate::json::jview_arr(es@);
                    proof {
                        crate::json::lemma_jview_arr(es@);
                        assert(crate::json::jview(*ev) == JsonSpec::Arr(esv));
                    }
                    let n = es.len();
                    let mut lines: Vec<String> = Vec::new();
                    let mut i: usize = 0;
                    while i < n
                        invariant
                            i <= n,
                            n == es@.len(),
                            esv == crate::json::jview_arr(es@),
                            esv.len() == n,
                            forall|k: int| 0 <= k < n ==> esv[k] == crate::json::jview(es@[k]),
                            strs_view(lines@) + rich_lines(esv, i as int) == rich_lines(esv, 0),
                        decreases n - i,
                    {
                        let ghost pre = strs_view(lines@);
                        let mut handled = false;
                        match es[i].get_str("type") {
                            Some(t) => {
                                if crate::text::str_eq(t, "rich_text_section") {
                                    handled = true;
                                    match es[i].get("elements") {
                                        Some(iv) => {
                                            match iv {
                                                Json::Arr(items) => {
                                                    proof {
                                                        assert(crate::json::jview(*iv)
                                                            == JsonSpec::Arr(
                                                            crate::json::jview_arr(items@),
                                                        ));
                                                    }
                                                    let text = rich_section_text_exec(items);
                                                    if text.as_str().unicode_len() > 0 {
                                                        lines.push(text);
                                                    }
                                                },
                                                _ => {},
                                            }
                                        },
                                        None => {},
                                    }
                                    proof {
                                        assert(strs_view(lines@) + rich_lines(esv, i + 1) =~= pre
                                            + rich_lines(esv, i as int));
                                    }
                                }
                            },
                            None => {},
                        }
                        if !handled {
                            proof {
                                assert(rich_lines(esv, i as int) =~= rich_lines(esv, i + 1));
                            }
                        }
                        i = i + 1;
                    }
                    proof {
                        assert(rich_lines(esv, n as int) =~= Seq::<Seq<char>>::empty());
                        assert(strs_view(lines@) =~= strs_view(lines@) + rich_lines(
                            esv,
                            n as int,
                        ));
                    }
                    if lines.len() == 0 {
                        None
                    } else {
                        proof {
                            reveal_strlit("\n");
                            assert("\n"@ =~= seq!['\n']);
                        }
                        Some(crate::text::join_strings(&lines, "\n"))
                    }
                },
                _ => None,
            }
        },
        None => None,
    }
}

} // verus!

verus! {

/// Renders one Block-Kit block; executable twin of
/// `slack_block_markdown`.
fn block_markdown_exec(b: &Json) -> (r: Option<String>)
    ensures
        view_opt(r) == slack_block_markdown(b@),
{
    proof {
        reveal_strlit("");
        assert(""@ =~= Seq::<char>::empty());
        reveal_strlit("\n");
        assert("\n"@ =~= seq!['\n']);
        reveal_strlit(" ");
        assert(" "@ =~= seq![' ']);
        reveal_strlit("---");
        assert("---"@ =~= seq!['-', '-', '-']);
    }
    let t: String = match b.get_str("type") {
        Some(s) => crate::text::string_of(s),
        None => crate::text::string_of(""),
    };
    if crate::text::str_eq(t.as_str(), "section") {
        let lines = section_lines_exec(b);
        if lines.len() == 0 {
            None
        } else {
            Some(crate::text::join_strings(&lines, "\n"))
        }
    } else if crate::text::str_eq(t.as_str(), "header") {
        match b.get("text") {
            Some(to) => {
                match text_obj_exec(to) {
                    Some(x) => Some(crate::util::md_bold_exec(x.as_str())),
                    None => None,
                }
            },
            None => None,
        }
    } else if crate::text::str_eq(t.as_str(), "divider") {
        Some(crate::text::string_of("---"))
    } else if crate::text::str_eq(t.as_str(), "image") {
        let alt: String = match b.get_str("alt_text") {
            Some(a) => crate::text::string_of(a),
            None => crate::text::string_of("image"),
        };
        let url: String = match b.get_str("image_url") {
            Some(u) => crate::text::string_of(u),
            None => crate::text::string_of(""),
        };
        if url.as_str().unicode_len() == 0 {
            None
        } else {
            Some(crate::util::md_image_exec(alt.as_str(), url.as_str()))
        }
    } else if crate::text::str_eq(t.as_str(), "context") {
        let lines: Vec<String> = match b.get("elements") {
            Some(ev) => {
                match ev {
                    Json::Arr(es) => {
                        proof {
                            assert(crate::json::jview(*ev) == JsonSpec::Arr(
                                crate::json::jview_arr(es@),
                            ));
                        }
                        context_lines_exec(es)
                    },
                    _ => Vec::new(),
                }
            },
            None => Vec::new(),
        };
        if lines.len() == 0 {
            None
        } else {
            Some(crate::text::join_strings(&lines, " "))
        }
    } else if crate::text::str_eq(t.as_str(), "actions") {
        let lines: Vec<String> = match b.get("elements") {
            Some(ev) => {
                match ev {
                    Json::Arr(es) => {
                        proof {
                            assert(crate::json::jview(*ev) == JsonSpec::Arr(
                                crate::json::jview_arr(es@),
                            ));
                        }
                        action_lines_exec(es)
                    },
                    _ => Vec::new(),
                }
            },
            None => Vec::new(),
        };
        if lines.len() == 0 {
            None
        } else {
            Some(crate::text::join_strings(&lines, "\n"))
        }
    } else if crate::text::str_eq(t.as_str(), "rich_text") {
        rich_text_exec(b)
    } else {
        None
    }
}

/// Renders one legacy attachment; executable twin of
/// `slack_attachment_markdown`.
fn attachment_markdown_exec(a: &Json) -> (r: String)
    ensures
        r@ == slack_attachment_markdown(a@),
{
    proof {
        reveal_strlit("");
        assert(""@ =~= Seq::<char>::empty());
        reveal_strlit("\n");
        assert("\n"@ =~= seq!['\n']);
        reveal_strlit("\n\n");
        assert("\n\n"@ =~= seq!['\n', '\n']);
    }
    let title: String = match a.get_str("title") {
        Some(s) => crate::text::string_of(s),
        None => crate::text::string_of(""),
    };
    let link: String = match a.get_str("title_link") {
        Some(s) => crate::text::string_of(s),
        None => crate::text::string_of(""),
    };
    let mut parts: Vec<String> = Vec::new();
    if title.as_str().unicode_len() > 0 {
        if link.as_str().unicode_len() > 0 {
            parts.push(crate::util::md_link_exec(title.as_str(), link.as_str()));
        } else {
            parts.push(crate::util::md_bold_exec(title.as_str()));
        }
    }
    match a.get_str("text") {
        Some(tx) => {
            if tx.unicode_len() > 0 {
                parts.push(crate::text::string_of(tx));
            }
        },
        None => {},
    }
    let ghost before_fields = strs_view(parts@);
    match a.get("fields") {
        Some(fv) => {
            match fv {
                Json::Arr(fs) => {
                    let ghost fsv = crate::json::jview_arr(fs@);
                    proof {
                        crate::json::lemma_jview_arr(fs@);
                        assert(crate::json::jview(*fv) == JsonSpec::Arr(fsv));
                    }
                    let n = fs.len();
                    let mut lines: Vec<String> = Vec::new();
                    let mut i: usize = 0;
                    while i < n
                        invariant
                            i <= n,
                            n == fs@.len(),
                            fsv == crate::json::jview_arr(fs@),
                            fsv.len() == n,
                            forall|k: int| 0 <= k < n ==> fsv[k] == crate::json::jview(fs@[k]),
                            strs_view(lines@) + att_field_lines(fsv, i as int) == att_field_lines(
                                fsv,
                                0,
                            ),
                        decreases n - i,
                    {
                        let ghost pre = strs_view(lines@);
                        proof {
                            reveal_strlit("");
                            assert(""@ =~= Seq::<char>::empty());
                        }
                        let ft: String = match fs[i].get_str("title") {
                            Some(s) => crate::text::string_of(s),
                            None => crate::text::string_of(""),
                        };
                        let fval: String = match fs[i].get_str("value") {
                            Some(s) => crate::text::string_of(s),
                            None => crate::text::string_of(""),
                        };
                        if ft.as_str().unicode_len() > 0 && fval.as_str().unicode_len() > 0 {
                            let mut out: Vec<char> = Vec::new();
                            out.push('-');
                            out.push(' ');
                            crate::text::push_str_chars(
                                &mut out,
                                crate::util::md_bold_exec(ft.as_str()).as_str(),
                            );
                            out.push(':');
                            out.push(' ');
                            crate::text::push_str_chars(&mut out, fval.as_str());
                            proof {
                                assert(out@ =~= seq!['-', ' '] + md_bold(ft@) + seq![':', ' ']
                                    + fval@);
                            }
                            lines.push(crate::text::string_from_chars(&out));
                            proof {
                                assert(strs_view(lines@) + att_field_lines(fsv, i + 1) =~= pre
                                    + att_field_lines(fsv, i as int));
                            }
                        } else {
                            proof {
                                assert(att_field_lines(fsv, i as int) =~= att_field_lines(
                                    fsv,
                                    i + 1,
                                ));
                            }
                        }
                        i = i + 1;
                    }
                    proof {
                        assert(att_field_lines(fsv, n as int) =~= Seq::<Seq<char>>::empty());
                        assert(strs_view(lines@) =~= strs_view(lines@) + att_field_lines(
                            fsv,
                            n as int,
                        ));
                    }
                    if lines.len() > 0 {
                        parts.push(crate::text::join_strings(&lines, "\n"));
                    }
                },
                _ => {},
            }
        },
        None => {},
    }
    match a.get_str("image_url") {
        Some(u) => {
            if u.unicode_len() > 0 {
                parts.push(crate::util::md_image_exec("image", u));
            }
        },
        None => {},
    }
    proof {
        assert(strs_view(parts@) =~= slack_attachment_parts(a@));
    }
    crate::text::join_strings(&parts, "\n\n")
}

} // verus!

verus! {

/// Renders a Slack event object's parts.
#[verifier::rlimit(60)]
fn event_parts_exec(ev: &Json) -> (r: Vec<String>)
    ensures
        strs_view(r@) == slack_event_parts(ev@),
{
    proof {
        reveal_strlit("");
        assert(""@ =~= Seq::<char>::empty());
        reveal_strlit("\n\n");
        assert("\n\n"@ =~= seq!['\n', '\n']);
        reveal_strlit("\n");
        assert("\n"@ =~= seq!['\n']);
    }
    let mut parts: Vec<String> = Vec::new();
    let mut blocks_handled = false;
    match ev.get("blocks") {
        Some(bv) => {
            match bv {
                Json::Arr(bs) => {
                    blocks_handled = true;
                    let ghost bsv = crate::json::jview_arr(bs@);
                    proof {
                        crate::json::lemma_jview_arr(bs@);
                        assert(crate::json::jview(*bv) == JsonSpec::Arr(bsv));
                    }
                    let n = bs.len();
                    let mut bp: Vec<String> = Vec::new();
                    let mut i: usize = 0;
                    while i < n
                        invariant
                            i <= n,
                            n == bs@.len(),
                            bsv == crate::json::jview_arr(bs@),
                            bsv.len() == n,
                            forall|k: int| 0 <= k < n ==> bsv[k] == crate::json::jview(bs@[k]),
                            strs_view(bp@) + block_parts(bsv, i as int) == block_parts(bsv, 0),
                        decreases n - i,
                    {
                        let ghost pre = strs_view(bp@);
                        match block_markdown_exec(&bs[i]) {
                            Some(t) => {
                                if t.as_str().unicode_len() > 0 {
                                    bp.push(t);
                                    proof {
                                        assert(strs_view(bp@) + block_parts(bsv, i + 1) =~= pre
                                            + block_parts(bsv, i as int));
                                    }
                                } else {
                                    proof {
                                        assert(block_parts(bsv, i as int) =~= block_parts(
                                            bsv,
                                            i + 1,
                                        ));
                                    }
                                }
                            },
                            None => {
                                proof {
                                    assert(block_parts(bsv, i as int) =~= block_parts(
                                        bsv,
                                        i + 1,
                                    ));
                                }
                            },
                        }
                        i = i + 1;
                    }
                    proof {
                        assert(block_parts(bsv, n as int) =~= Seq::<Seq<char>>::empty());
                        assert(strs_view(bp@) =~= block_parts(bsv, 0));
                    }
                    if bp.len() > 0 {
                        parts.push(crate::text::join_strings(&bp, "\n\n"));
                    }
                },
                _ => {},
            }
        },
        None => {},
    }
    if !blocks_handled {
        match ev.get_str("text") {
            Some(tx) => {
                if tx.unicode_len() > 0 {
                    parts.push(crate::text::string_of(tx));
                }
            },
            None => {},
        }
    }
    let ghost first = strs_view(parts@);
    proof {
        assert(first =~= (match spec_get(ev@, "blocks"@) {
            Some(JsonSpec::Arr(bs)) => {
                let bp = block_parts(bs, 0);
                if bp.len() > 0 {
                    seq![spec_join(bp, seq!['\n', '\n'])]
                } else {
                    Seq::<Seq<char>>::empty()
                }
            },
            _ => {
                let text = str_or_empty(spec_as_str(spec_get(ev@, "text"@)));
                if text.len() > 0 {
                    seq![text]
                } else {
                    Seq::<Seq<char>>::empty()
                }
            },
        }));
    }
    match ev.get("attachments") {
        Some(av) => {
            match av {
                Json::Arr(aa) => {
                    let ghost aav = crate::json::jview_arr(aa@);
                    proof {
                        crate::json::lemma_jview_arr(aa@);
                        assert(crate::json::jview(*av) == JsonSpec::Arr(aav));
                    }
                    let n = aa.len();
                    let mut ap: Vec<String> = Vec::new();
                    let mut i: usize = 0;
                    while i < n
                        invariant
                            i <= n,
                            n == aa@.len(),
                            aav == crate::json::jview_arr(aa@),
                            aav.len() == n,
                            forall|k: int| 0 <= k < n ==> aav[k] == crate::json::jview(aa@[k]),
                            strs_view(ap@) + att_parts(aav, i as int) == att_parts(aav, 0),
                        decreases n - i,
                    {
                        let ghost pre = strs_view(ap@);
                        let t = attachment_markdown_exec(&aa[i]);
                        if t.as_str().unicode_len() > 0 {
                            ap.push(t);
                            proof {
                                assert(strs_view(ap@) + att_parts(aav, i + 1) =~= pre + att_parts(
                                    aav,
                                    i as int,
                                ));
                            }
                        } else {
                            proof {
                                assert(att_parts(aav, i as int) =~= att_parts(aav, i + 1));
                            }
                        }
                        i = i + 1;
                    }
                    proof {
                        assert(att_parts(aav, n as int) =~= Seq::<Seq<char>>::empty());
                        assert(strs_view(ap@) =~= att_parts(aav, 0));
                    }
                    if ap.len() > 0 {
                        parts.push(crate::text::join_strings(&ap, "\n\n"));
                    }
                },
                _ => {},
            }
        },
        None => {},
    }
    match ev.get("sections") {
        Some(sv) => {
            match sv {
                Json::Arr(ss) => {
                    let ghost ssv = crate::json::jview_arr(ss@);
                    proof {
                        crate::json::lemma_jview_arr(ss@);
                        assert(crate::json::jview(*sv) == JsonSpec::Arr(ssv));
                    }
                    let n = ss.len();
                    let mut sp: Vec<String> = Vec::new();
                    let mut i: usize = 0;
                    while i < n
                        invariant
                            i <= n,
                            n == ss@.len(),
                            ssv == crate::json::jview_arr(ss@),
                            ssv.len() == n,
                            forall|k: int| 0 <= k < n ==> ssv[k] == crate::json::jview(ss@[k]),
                            strs_view(sp@) + section_parts(ssv, i as int) == section_parts(ssv, 0),
                        decreases n - i,
                    {
                        let ghost pre = strs_view(sp@);
                        proof {
                            reveal_strlit("");
                            assert(""@ =~= Seq::<char>::empty());
                            reveal_strlit("\n");
                            assert("\n"@ =~= seq!['\n']);
                        }
                        let title: String = match ss[i].get_str("activityTitle") {
                            Some(s) => crate::text::string_of(s),
                            None => crate::text::string_of(""),
                        };
                        let sub: String = match ss[i].get_str("activitySubtitle") {
                            Some(s) => crate::text::string_of(s),
                            None => crate::text::string_of(""),
                        };
                        let mut lines: Vec<String> = Vec::new();
                        if title.as_str().unicode_len() > 0 {
                            lines.push(crate::util::md_bold_exec(title.as_str()));
                        }
                        if sub.as_str().unicode_len() > 0 {
                            lines.push(sub.clone());
                        }
                        let ghost linesv = (if title@.len() > 0 {
                            seq![md_bold(title@)]
                        } else {
                            Seq::<Seq<char>>::empty()
                        }) + (if sub@.len() > 0 {
                            seq![sub@]
                        } else {
                            Seq::<Seq<char>>::empty()
                        });
                        proof {
                            assert(strs_view(lines@) =~= linesv);
                        }
                        if lines.len() > 0 {
                            sp.push(crate::text::join_strings(&lines, "\n"));
                            proof {
                                assert(strs_view(sp@) + section_parts(ssv, i + 1) =~= pre
                                    + section_parts(ssv, i as int));
                            }
                        } else {
                            proof {
                                assert(section_parts(ssv, i as int) =~= section_parts(
                                    ssv,
                                    i + 1,
                                ));
                            }
                        }
                        i = i + 1;
                    }
                    proof {
                        assert(section_parts(ssv, n as int) =~= Seq::<Seq<char>>::empty());
                        assert(strs_view(sp@) =~= section_parts(ssv, 0));
                    }
                    if sp.len() > 0 {
                        parts.push(crate::text::join_strings(&sp, "\n\n"));
                    }
                },
                _ => {},
            }
        },
        None => {},
    }
    proof {
        assert(strs_view(parts@) =~= slack_event_parts(ev@));
    }
    parts
}

/// Everything the ingress promises of the event it builds from
/// payload `p`.
pub open spec fn slack_ingress_ok(p: JsonSpec, ev: UemEvent) -> bool {
    &&& ev.source@ == "slack"@
    &&& ev.markdown@ == slack_markdown(p)
    &&& wf_num(p) ==> ev.markdown@.len() > 0
    &&& match spec_as_str(spec_get(p, "event_id"@)) {
        Some(s) => ev.id@ == s,
        None => is_uuid_string(ev.id@),
    }
    &&& match spec_value_to_i64(spec_get(p, "event_time"@)) {
        Some(v) => ev.timestamp == v,
        None => ev.timestamp >= 0,
    }
    &&& ev.title is None
    &&& ev.raw@ == p
    &&& ev.meta@ == slack_meta(p)
}

/// Everything the egress promises of the payload it builds from event
/// `ev`.
pub open spec fn slack_egress_ok(ev: &UemEvent, pl: OutgoingPayload) -> bool {
    &&& pl.body@ == slack_body(view_opt(ev.title), ev.markdown@)
    &&& pl.content_type@ == "application/json"@
}

impl SlackAdapter {
    /// Normalizes a Slack payload.  Never fails: every missing field
    /// degrades to a default.
    #[verifier::rlimit(100)]
    pub fn ingress_to_uem(&self, payload: &Json) -> (r: Result<UemEvent, AdapterError>)
        ensures
            match r {
                Ok(ev) => slack_ingress_ok(payload@, ev),
                Err(_) => false,
            },
    {
        proof {
            reveal_strlit("\n\n");
            assert("\n\n"@ =~= seq!['\n', '\n']);
        }
        let event: &Json = match payload.get("event") {
            Some(e) => e,
            None => payload,
        };
        let parts = event_parts_exec(event);
        let text: String = if parts.len() == 0 {
            crate::text::string_of("")
        } else {
            crate::text::join_strings(&parts, "\n\n")
        };
        proof {
            reveal_strlit("");
            assert(""@ =~= Seq::<char>::empty());
        }
        let markdown: String = if text.as_str().unicode_len() == 0 {
            proof {
                if wf_num(payload@) {
                    crate::json::lemma_json_text_nonempty(payload@);
                }
            }
            payload.to_json_string()
        } else {
            text
        };
        let id: String = match payload.get_str("event_id") {
            Some(s) => crate::text::string_of(s),
            None => crate::util::new_event_id(),
        };
        let timestamp: i64 = {
            let mut ts: Option<i64> = None;
            match payload.get("event_time") {
                Some(v) => {
                    ts = crate::util::value_to_i64(v);
                },
                None => {},
            }
            match ts {
                Some(v) => v,
                None => crate::util::now_timestamp(),
            }
        };
        let mut meta_ms: Vec<(String, Json)> = Vec::new();
        meta_ms.push((crate::text::string_of("channel"), event.get_or_null("channel")));
        meta_ms.push((crate::text::string_of("thread_ts"), event.get_or_null("thread_ts")));
        meta_ms.push((crate::text::string_of("type"), event.get_or_null("type")));
        meta_ms.push((crate::text::string_of("user"), event.get_or_null("user")));
        let ghost metav = meta_ms@;
        let meta = Json::Obj(meta_ms);
        proof {
            crate::json::lemma_jview_obj(metav);
            assert(crate::json::jview_obj(metav) =~= slack_meta(payload@)->Obj_0);
            assert(meta@ =~~= slack_meta(payload@));
        }
        Ok(
            UemEvent {
                id,
                source: crate::text::string_of("slack"),
                timestamp,
                title: None,
                markdown,
                raw: payload.duplicate(),
                meta,
            },
        )
    }

    /// Re-encodes a canonical event as a Slack `mrkdwn` text message,
    /// prepending `# {title}` before transcoding when the event
    /// carries a title.  Always succeeds.
    pub fn uem_to_egress(&self, event: &UemEvent) -> (r: Result<OutgoingPayload, AdapterError>)
        ensures
            match r {
                Ok(pl) => slack_egress_ok(event, pl),
                Err(_) => false,
            },
    {
        let markdown = crate::util::titled_markdown(&event.title, event.markdown.as_str());
        let mrkdwn = markdown_to_slack(markdown.as_str());
        let mut ms: Vec<(String, Json)> = Vec::new();
        ms.push((crate::text::string_of("text"), Json::Str(mrkdwn)));
        let ghost msv = ms@;
        let body = Json::Obj(ms);
        proof {
            crate::json::lemma_jview_obj(msv);
            let target = slack_body(view_opt(event.title), event.markdown@);
            assert(crate::json::jview_obj(msv) =~= target->Obj_0);
            assert(body@ =~~= target);
        }
        Ok(OutgoingPayload { body, content_type: "application/json" })
    }
}

} // verus!
