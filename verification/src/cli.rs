//! The command-line client: its arguments, what `cuckoo send` posts, the arguments
//! `cuckoo server start` hands the server, and the reports of the commands that only
//! check that the server is reachable.
use vstd::prelude::*;
use crate::flow::opt_str;
use crate::text::{
    chars_of, copy_string, dec_str, find_char_from, first_from, push_decimal, push_str,
    string_from_str, string_of_range, trim_bounds, trim_seq, unicode_upper, uppercase_text,
};

verus! {

/// Arguments of `cuckoo send <method> <url>`: `--header KEY:VALUE` (repeatable),
/// `--body JSON` (`-d`) and `--body-file FILE`.
#[derive(Debug, Clone)]
pub struct SendArgs {
    pub method: String,
    pub url: String,
    pub header: Vec<String>,
    pub body: Option<String>,
    pub body_file: Option<String>,
}

/// Arguments of `cuckoo proxy`.
#[derive(Debug, Clone)]
pub struct ProxyArgs {
    pub action: ProxyAction,
}

#[derive(Debug, Clone)]
pub enum ProxyAction {
    /// Start the proxy on `--port` (8899 when not given), with `--system-proxy`.
    Start { port: u16, system_proxy: bool },
    Stop,
    Status,
}

/// Arguments of `cuckoo collection`.
#[derive(Debug, Clone)]
pub struct CollectionArgs {
    pub action: CollectionAction,
}

#[derive(Debug, Clone)]
pub enum CollectionAction {
    ListWorkspaces,
    GetWorkspace { id: String },
    /// `create-workspace --name <name>`.
    CreateWorkspace { name: String },
    ListFolders { workspace_id: String },
    ListRequests { workspace_id: String },
    ListEnvironments { workspace_id: String },
}

/// Arguments of `cuckoo flow`.
#[derive(Debug, Clone)]
pub struct FlowArgs {
    pub action: FlowAction,
}

#[derive(Debug, Clone)]
pub enum FlowAction {
    /// `list [--host <glob>] [--status <code>] [--follow]`.
    List { host: Option<String>, status: Option<u16>, follow: bool },
    /// `show <flow-id> [--body request|response]`.
    Show { flow_id: String, body: Option<String> },
}

/// Arguments of `cuckoo server`.
#[derive(Debug, Clone)]
pub struct ServerArgs {
    pub action: ServerAction,
}

#[derive(Debug, Clone)]
pub enum ServerAction {
    /// `start [--headless] [--port <port>]`.
    Start { headless: bool, port: Option<u16> },
}

pub open spec fn strings_view(v: Seq<String>) -> Seq<Seq<char>> {
    v.map_values(|s: String| s@)
}

pub open spec fn pair_view(p: (String, String)) -> (Seq<char>, Seq<char>) {
    (p.0@, p.1@)
}

pub open spec fn pairs_view(v: Seq<(String, String)>) -> Seq<(Seq<char>, Seq<char>)> {
    v.map_values(|p: (String, String)| pair_view(p))
}

// ───────────────────────── cuckoo send ─────────────────────────

/// A `--header` argument, split at its first `:` with both sides trimmed; an argument
/// without `:` gives nothing.
pub open spec fn header_arg(s: Seq<char>) -> Option<(Seq<char>, Seq<char>)> {
    match first_from(s, 0, ':') {
        Some(i) => Some((trim_seq(s.subrange(0, i)), trim_seq(s.subrange(i + 1, s.len() as int)))),
        None => None,
    }
}

/// The pairs of all `--header` arguments, in order, skipping those without `:`.
pub open spec fn header_args(hs: Seq<Seq<char>>) -> Seq<(Seq<char>, Seq<char>)>
    decreases hs.len(),
{
    if hs.len() == 0 {
        Seq::empty()
    } else {
        let rest = header_args(hs.drop_last());
        match header_arg(hs.last()) {
            Some(p) => rest.push(p),
            None => rest,
        }
    }
}

pub fn parse_header_arg(h: &str) -> (r: Option<(String, String)>)
    ensures
        match r {
            Some(p) => header_arg(h@) == Some(pair_view(p)),
            None => header_arg(h@) is None,
        },
{
    let v = chars_of(h);
    match find_char_from(&v, 0, ':') {
        Some(i) => {
            let (a, b) = trim_bounds(&v, 0, i);
            let (c, d) = trim_bounds(&v, i + 1, v.len());
            let key = string_of_range(&v, a, b);
            let value = string_of_range(&v, c, d);
            Some((key, value))
        },
        None => None,
    }
}

pub fn header_pairs(headers: &Vec<String>) -> (r: Vec<(String, String)>)
    ensures
        pairs_view(r@) == header_args(strings_view(headers@)),
{
    let mut out: Vec<(String, String)> = Vec::new();
    let mut i: usize = 0;
    while i < headers.len()
        invariant
            i <= headers.len(),
            pairs_view(out@) == header_args(strings_view(headers@.take(i as int))),
        decreases headers.len() - i,
    {
        let ghost before = out@;
        let parsed = parse_header_arg(headers[i].as_str());
        match parsed {
            Some(p) => {
                out.push(p);
                assert(pairs_view(out@) =~= pairs_view(before).push(pair_view(p)));
            },
            None => {},
        }
        proof {
            let t = strings_view(headers@.take(i + 1));
            assert(t.drop_last() =~= strings_view(headers@.take(i as int)));
            assert(t.last() == headers@[i as int]@);
        }
        i += 1;
    }
    proof {
        assert(headers@.take(headers.len() as int) =~= headers@);
    }
    out
}

/// What `cuckoo send` posts as its ad-hoc request (with no query parameters and no
/// authentication): the method upper-cased, the URL, the header pairs and the body text.
#[derive(Debug, Clone)]
pub struct SendPayload {
    pub method: String,
    pub url: String,
    pub headers: Vec<(String, String)>,
    pub body_text: Option<String>,
}

/// The body text of `cuckoo send`: the content of `--body-file` when that is given
/// (`file_text`, read by the caller), else `--body`.
pub open spec fn send_body(args: SendArgs, file_text: Option<String>) -> Option<Seq<char>> {
    if args.body_file is Some {
        opt_str(file_text)
    } else {
        opt_str(args.body)
    }
}

pub fn send_payload(args: &SendArgs, file_text: Option<String>) -> (r: SendPayload)
    ensures
        r.method@ == unicode_upper(args.method@),
        r.url@ == args.url@,
        pairs_view(r.headers@) == header_args(strings_view(args.header@)),
        opt_str(r.body_text) == send_body(*args, file_text),
{
    let method = uppercase_text(args.method.as_str());
    let url = copy_string(&args.url);
    let headers = header_pairs(&args.header);
    let body_text = if args.body_file.is_some() {
        file_text
    } else {
        match &args.body {
            Some(b) => Some(copy_string(b)),
            None => None,
        }
    };
    SendPayload { method, url, headers, body_text }
}

// ───────────────────────── cuckoo server start ─────────────────────────

/// Arguments handed to `cuckoo-server`: `--headless` when asked, then `--port <port>`
/// when a port is given.
pub open spec fn server_start_args(headless: bool, port: Option<u16>) -> Seq<Seq<char>> {
    (if headless {
        seq!["--headless"@]
    } else {
        Seq::empty()
    }) + match port {
        Some(p) => seq!["--port"@, dec_str(p as nat)],
        None => Seq::empty(),
    }
}

pub fn server_command_args(args: &ServerArgs) -> (r: Vec<String>)
    ensures
        match args.action {
            ServerAction::Start { headless, port } => strings_view(r@) == server_start_args(
                headless,
                port,
            ),
        },
{
    let mut out: Vec<String> = Vec::new();
    match &args.action {
        ServerAction::Start { headless, port } => {
            if *headless {
                out.push(string_from_str("--headless"));
            }
            let ghost first = out@;
            match port {
                Some(p) => {
                    out.push(string_from_str("--port"));
                    let mut s = String::new();
                    push_decimal(&mut s, *p as u64);
                    out.push(s);
                    assert(strings_view(out@) =~= strings_view(first) + seq![
                        "--port"@,
                        dec_str(*p as nat),
                    ]);
                },
                None => {
                    assert(strings_view(out@) =~= strings_view(first) + Seq::empty());
                },
            }
            assert(strings_view(first) =~= (if *headless {
                seq!["--headless"@]
            } else {
                Seq::<Seq<char>>::empty()
            }));
        },
    }
    out
}

// ───────────────────────── cuckoo flow / cuckoo proxy ─────────────────────────

/// The lines `cuckoo flow` prints once the server answered, before its answer.
pub open spec fn flow_report(action: FlowAction) -> Seq<Seq<char>> {
    match action {
        FlowAction::List { host, status, follow } => seq!["Server is reachable. Flow list"@] + (
        match host {
            Some(h) => seq!["  --host "@ + h@],
            None => Seq::empty(),
        }) + (match status {
            Some(s) => seq!["  --status "@ + dec_str(s as nat)],
            None => Seq::empty(),
        }) + (if follow {
            seq!["  --follow (SSE subscription will be available in M3)"@]
        } else {
            Seq::empty()
        }) + seq!["Flow endpoints will be available in M3."@],
        FlowAction::Show { flow_id, body } => seq!["Server is reachable. Flow show: "@ + flow_id@]
            + (match body {
            Some(b) => seq!["  --body "@ + b@],
            None => Seq::empty(),
        }) + seq!["Flow endpoints will be available in M3."@],
    }
}

fn labelled(label: &str, value: &str) -> (r: String)
    ensures
        r@ == label@ + value@,
{
    let mut s = string_from_str(label);
    push_str(&mut s, value);
    s
}

pub fn flow_report_lines(action: &FlowAction) -> (r: Vec<String>)
    ensures
        strings_view(r@) == flow_report(*action),
{
    let mut out: Vec<String> = Vec::new();
    let ghost mut expect: Seq<Seq<char>> = Seq::empty();
    match action {
        FlowAction::List { host, status, follow } => {
            out.push(string_from_str("Server is reachable. Flow list"));
            proof {
                expect = seq!["Server is reachable. Flow list"@];
            }
            assert(strings_view(out@) =~= expect);
            match host {
                Some(h) => {
                    out.push(labelled("  --host ", h.as_str()));
                    proof {
                        expect = expect + seq!["  --host "@ + h@];
                    }
                },
                None => {
                    proof {
                        expect = expect + Seq::empty();
                    }
                },
            }
            assert(strings_view(out@) =~= expect);
            match status {
                Some(st) => {
                    let mut line = string_from_str("  --status ");
                    push_decimal(&mut line, *st as u64);
                    out.push(line);
                    proof {
                        expect = expect + seq!["  --status "@ + dec_str(*st as nat)];
                    }
                },
                None => {
                    proof {
                        expect = expect + Seq::empty();
                    }
                },
            }
            assert(strings_view(out@) =~= expect);
            if *follow {
                out.push(string_from_str("  --follow (SSE subscription will be available in M3)"));
                proof {
                    expect = expect + seq!["  --follow (SSE subscription will be available in M3)"@];
                }
            } else {
                proof {
                    expect = expect + Seq::empty();
                }
            }
            assert(strings_view(out@) =~= expect);
            out.push(string_from_str("Flow endpoints will be available in M3."));
            proof {
                expect = expect + seq!["Flow endpoints will be available in M3."@];
            }
            assert(strings_view(out@) =~= expect);
        },
        FlowAction::Show { flow_id, body } => {
            out.push(labelled("Server is reachable. Flow show: ", flow_id.as_str()));
            proof {
                expect = seq!["Server is reachable. Flow show: "@ + flow_id@];
            }
            assert(strings_view(out@) =~= expect);
            match body {
                Some(b) => {
                    out.push(labelled("  --body ", b.as_str()));
                    proof {
                        expect = expect + seq!["  --body "@ + b@];
                    }
                },
                None => {
                    proof {
                        expect = expect + Seq::empty();
                    }
                },
            }
            assert(strings_view(out@) =~= expect);
            out.push(string_from_str("Flow endpoints will be available in M3."));
            proof {
                expect = expect + seq!["Flow endpoints will be available in M3."@];
            }
            assert(strings_view(out@) =~= expect);
        },
    }
    out
}

pub open spec fn bool_text(b: bool) -> Seq<char> {
    if b {
        "true"@
    } else {
        "false"@
    }
}

/// The line `cuckoo proxy` prints once the server answered, before its answer.
pub open spec fn proxy_report(action: ProxyAction) -> Seq<char> {
    match action {
        ProxyAction::Start { port, system_proxy } => "Server is reachable. Proxy start (port="@
            + dec_str(port as nat) + ", system_proxy="@ + bool_text(system_proxy)
            + ") will be available in M3."@,
        ProxyAction::Stop => "Server is reachable. Proxy stop will be available in M3."@,
        ProxyAction::Status => "Server is reachable. Proxy status will be available in M3."@,
    }
}

pub fn proxy_report_line(action: &ProxyAction) -> (r: String)
    ensures
        r@ == proxy_report(*action),
{
    match action {
        ProxyAction::Start { port, system_proxy } => {
            let mut s = string_from_str("Server is reachable. Proxy start (port=");
            push_decimal(&mut s, *port as u64);
            push_str(&mut s, ", system_proxy=");
            if *system_proxy {
                push_str(&mut s, "true");
            } else {
                push_str(&mut s, "false");
            }
            push_str(&mut s, ") will be available in M3.");
            s
        },
        ProxyAction::Stop => string_from_str("Server is reachable. Proxy stop will be available in M3."),
        ProxyAction::Status => string_from_str(
            "Server is reachable. Proxy status will be available in M3.",
        ),
    }
}

} // verus!
