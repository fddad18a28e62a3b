//! The search invoker's two verified halves. Before the external process
//! runs: render the executable and argument templates against the query and
//! its debug-escaped form. After it exits: turn its exit status and captured
//! streams into either the decoded result entries or one human-readable
//! failure message. Spawning and waiting on the process itself is the
//! caller's, outside this library.

use vstd::prelude::*;

use crate::payload::{parse_payload, payload_value, RawEntry, SpecEntry};
use crate::results::{entries_view, EntryView, ResultEntry};
use crate::trusted::{
    bytes_to_string,
    debug_escaped,
    escape_debug_text,
    query_render,
    render_query_template,
    template_ok,
    utf8_decode,
};

verus! {

/// All argument templates rendered left to right; the first failure wins.
pub open spec fn args_render(args: Seq<Seq<char>>, q: Seq<char>, qe: Seq<char>) -> Result<
    Seq<Seq<char>>,
    Seq<char>,
>
    decreases args.len(),
{
    if args.len() == 0 {
        Ok(Seq::empty())
    } else {
        match args_render(args.drop_last(), q, qe) {
            Err(m) => Err(m),
            Ok(pre) => match query_render(args.last(), q, qe) {
                Ok(t) => Ok(pre.push(t)),
                Err(m) => Err(m),
            },
        }
    }
}

/// The full command line: the executable template first, then the argument
/// templates in order, all rendered against the query and its debug-escaped
/// form; the first failure wins.
pub open spec fn spec_build(exe: Seq<char>, args: Seq<Seq<char>>, q: Seq<char>) -> Result<
    (Seq<char>, Seq<Seq<char>>),
    Seq<char>,
> {
    let qe = debug_escaped(q);
    match query_render(exe, q, qe) {
        Err(m) => Err(m),
        Ok(e) => match args_render(args, q, qe) {
            Ok(a) => Ok((e, a)),
            Err(m) => Err(m),
        },
    }
}

/// A failure at one argument is the whole rendering's failure, provided
/// everything before it rendered.
proof fn lemma_args_render_err(
    args: Seq<Seq<char>>,
    q: Seq<char>,
    qe: Seq<char>,
    i: int,
    m: Seq<char>,
)
    requires
        0 <= i < args.len(),
        args_render(args.take(i), q, qe) is Ok,
        query_render(args[i], q, qe) == Err::<Seq<char>, Seq<char>>(m),
    ensures
        args_render(args, q, qe) == Err::<Seq<Seq<char>>, Seq<char>>(m),
    decreases args.len(),
{
    if i == args.len() - 1 {
        assert(args.drop_last() =~= args.take(i));
    } else {
        assert(args.drop_last().take(i) =~= args.take(i));
        assert(args.drop_last()[i] == args[i]);
        lemma_args_render_err(args.drop_last(), q, qe, i, m);
    }
}

/// Render the executable and argument templates for `query`, or the first
/// failure's message. Every template must be one the engine accepts (see
/// `template_ok`); the caller tests with `template_admissible` first.
pub fn build_command(exe_tpl: &str, arg_tpls: &Vec<String>, query: &str) -> (r: Result<
    (String, Vec<String>),
    String,
>)
    requires
        template_ok(exe_tpl@),
        forall|i: int| 0 <= i < arg_tpls@.len() ==> template_ok((#[trigger] arg_tpls@[i])@),
    ensures
        match r {
            Ok(p) => spec_build(exe_tpl@, arg_tpls@.map_values(|t: String| t@), query@) == Ok::<
                (Seq<char>, Seq<Seq<char>>),
                Seq<char>,
            >((p.0@, p.1@.map_values(|a: String| a@))),
            Err(m) => spec_build(exe_tpl@, arg_tpls@.map_values(|t: String| t@), query@)
                == Err::<(Seq<char>, Seq<Seq<char>>), Seq<char>>(m@),
        },
{
    let ghost tplv = arg_tpls@.map_values(|t: String| t@);
    let esc = escape_debug_text(query);
    let ghost qe = debug_escaped(query@);
    let exe = match render_query_template(exe_tpl, query, esc.as_str()) {
        Ok(e) => e,
        Err(m) => {
            return Err(m);
        },
    };
    let mut rendered: Vec<String> = Vec::new();
    let mut i: usize = 0;
    proof {
        assert(tplv.take(0) =~= Seq::<Seq<char>>::empty());
        assert(rendered@.map_values(|a: String| a@) =~= Seq::<Seq<char>>::empty());
    }
    while i < arg_tpls.len()
        invariant
            i <= arg_tpls@.len(),
            tplv == arg_tpls@.map_values(|t: String| t@),
            forall|k: int| 0 <= k < arg_tpls@.len() ==> template_ok((#[trigger] arg_tpls@[k])@),
            qe == debug_escaped(query@),
            esc@ == qe,
            query_render(exe_tpl@, query@, qe) is Ok,
            args_render(tplv.take(i as int), query@, qe) == Ok::<Seq<Seq<char>>, Seq<char>>(
                rendered@.map_values(|a: String| a@),
            ),
        decreases arg_tpls@.len() - i,
    {
        let ghost prev = rendered@.map_values(|a: String| a@);
        proof {
            assert(tplv[i as int] == arg_tpls@[i as int]@);
        }
        match render_query_template(arg_tpls[i].as_str(), query, esc.as_str()) {
            Ok(t) => {
                let ghost tv = t@;
                rendered.push(t);
                proof {
                    assert(tplv.take(i as int + 1).drop_last() =~= tplv.take(i as int));
                    assert(tplv.take(i as int + 1).last() == tplv[i as int]);
                    assert(rendered@.map_values(|a: String| a@) =~= prev.push(tv));
                }
            },
            Err(m) => {
                proof {
                    lemma_args_render_err(tplv, query@, qe, i as int, m@);
                }
                return Err(m);
            },
        }
        i = i + 1;
    }
    proof {
        assert(tplv.take(arg_tpls@.len() as int) =~= tplv);
    }
    Ok((exe, rendered))
}

/// The captured standard error as text, or the fixed fallback where it is
/// not valid UTF-8.
pub open spec fn stderr_text(err_bytes: Seq<u8>) -> Seq<char> {
    match utf8_decode(err_bytes) {
        Some(t) => t,
        None => "unable to decode stderr as utf-8"@,
    }
}

/// The message shown for a search whose process exited unsuccessfully.
pub open spec fn failure_message(err_bytes: Seq<u8>, status: Seq<char>) -> Seq<char> {
    stderr_text(err_bytes) + ", status error "@ + status
}

/// The message shown where the process's output is not a well-formed
/// payload.
pub open spec fn decode_error_text() -> Seq<char> {
    "unable to decode search results"@
}

/// One parsed entry's fields as text: `None` where a field is not valid
/// UTF-8.
pub open spec fn entry_strings(e: SpecEntry) -> Option<EntryView> {
    match (utf8_decode(e.identifier), utf8_decode(e.title), utf8_decode(e.confidence)) {
        (Some(i), Some(t), Some(c)) => Some(EntryView { identifier: i, title: t, confidence: c }),
        _ => None,
    }
}

/// All parsed entries' fields as text, in order; `None` where any field of
/// any entry is not valid UTF-8.
pub open spec fn decode_entries(es: Seq<SpecEntry>) -> Option<Seq<EntryView>>
    decreases es.len(),
{
    if es.len() == 0 {
        Some(Seq::empty())
    } else {
        match decode_entries(es.drop_last()) {
            Some(pre) => match entry_strings(es.last()) {
                Some(v) => Some(pre.push(v)),
                None => None,
            },
            None => None,
        }
    }
}

/// A field that does not decode makes the whole decoding fail, wherever it
/// stands.
proof fn lemma_decode_entries_none(es: Seq<SpecEntry>, i: int)
    requires
        0 <= i < es.len(),
        entry_strings(es[i]) is None,
    ensures
        decode_entries(es) is None,
    decreases es.len(),
{
    if i < es.len() - 1 {
        assert(es.drop_last()[i] == es[i]);
        lemma_decode_entries_none(es.drop_last(), i);
    }
}

/// What one completed search comes to: the decoded entries on a clean exit
/// with a well-formed payload, a message otherwise — either the captured
/// standard error (or its fallback) with the status text appended, or the
/// fixed decode-failure message.
pub open spec fn spec_decode(
    exit_ok: bool,
    status: Seq<char>,
    out_bytes: Seq<u8>,
    err_bytes: Seq<u8>,
) -> Result<Seq<EntryView>, Seq<char>> {
    if !exit_ok {
        Err(failure_message(err_bytes, status))
    } else {
        match payload_value(out_bytes) {
            None => Err(decode_error_text()),
            Some(es) => match decode_entries(es) {
                Some(vs) => Ok(vs),
                None => Err(decode_error_text()),
            },
        }
    }
}

/// Decode one completed search from its exit state and captured streams.
/// `status_text` is the caller's text for the failed status, used only in
/// the failure message.
pub fn decode_search_output(
    exit_ok: bool,
    status_text: &str,
    stdout_bytes: &Vec<u8>,
    stderr_bytes: &Vec<u8>,
) -> (r: Result<Vec<ResultEntry>, String>)
    ensures
        match r {
            Ok(v) => spec_decode(exit_ok, status_text@, stdout_bytes@, stderr_bytes@) == Ok::<
                Seq<EntryView>,
                Seq<char>,
            >(entries_view(v@)),
            Err(m) => spec_decode(exit_ok, status_text@, stdout_bytes@, stderr_bytes@) == Err::<
                Seq<EntryView>,
                Seq<char>,
            >(m@),
        },
{
    if !exit_ok {
        let mut msg = match bytes_to_string(stderr_bytes) {
            Some(t) => t,
            None => "unable to decode stderr as utf-8".to_owned(),
        };
        let ghost head = msg@;
        msg.append(", status error ");
        msg.append(status_text);
        proof {
            assert(msg@ =~= head + ", status error "@ + status_text@);
        }
        return Err(msg);
    }
    let raw = match parse_payload(stdout_bytes) {
        Some(v) => v,
        None => {
            return Err("unable to decode search results".to_owned());
        },
    };
    let ghost rawv = raw@.map_values(|e: RawEntry| e@);
    let mut out: Vec<ResultEntry> = Vec::new();
    let mut i: usize = 0;
    proof {
        assert(rawv.take(0) =~= Seq::<SpecEntry>::empty());
        assert(entries_view(out@) =~= Seq::<EntryView>::empty());
    }
    while i < raw.len()
        invariant
            exit_ok,
            i <= raw@.len(),
            rawv == raw@.map_values(|e: crate::payload::RawEntry| e@),
            payload_value(stdout_bytes@) == Some(rawv),
            decode_entries(rawv.take(i as int)) == Some(entries_view(out@)),
        decreases raw@.len() - i,
    {
        proof {
            assert(rawv[i as int] == raw@[i as int]@);
        }
        let idf = bytes_to_string(&raw[i].identifier);
        let ttl = bytes_to_string(&raw[i].title);
        let cnf = bytes_to_string(&raw[i].confidence);
        match (idf, ttl, cnf) {
            (Some(identifier), Some(title), Some(confidence)) => {
                let ghost prev = entries_view(out@);
                let entry = ResultEntry { identifier, title, confidence };
                let ghost ev = entry@;
                out.push(entry);
                proof {
                    assert(rawv.take(i as int + 1).drop_last() =~= rawv.take(i as int));
                    assert(rawv.take(i as int + 1).last() == rawv[i as int]);
                    assert(entry_strings(rawv[i as int]) == Some(ev));
                    assert(entries_view(out@) =~= prev.push(ev));
                }
            },
            _ => {
                proof {
                    lemma_decode_entries_none(rawv, i as int);
                }
                return Err("unable to decode search results".to_owned());
            },
        }
        i = i + 1;
    }
    proof {
        assert(rawv.take(raw@.len() as int) =~= rawv);
    }
    Ok(out)
}

} // verus!
