//! System proxy settings: the platform interface, the placeholder for platforms without
//! support, and the macOS `networksetup` logic (reading its output and planning the
//! commands that set, restore and clear the proxies). Running the commands is left to
//! the caller.
use vstd::prelude::*;
use crate::error::ServiceError;
use crate::lines::{lines, split_lines};
use crate::text::{
    chars_of, decimal_string, dec_str, eq_ic, eq_ignore_case_chars, parse_unsigned,
    parse_unsigned_chars, push_str, starts_with, starts_with_exec, string_from_str, string_of,
    trim_chars, trim_seq, copy_string,
};
use crate::message::rest_chars;

verus! {

/// A platform's system proxy settings.
pub trait SystemProxyManager: Send + Sync {
    /// Points the system HTTP and HTTPS proxies at `host:port`.
    fn set_proxy(&self, host: &str, port: u16) -> Result<(), ServiceError>;

    /// Clears (restores) the system proxy settings.
    fn clear_proxy(&self) -> Result<(), ServiceError>;

    /// Whether a system proxy is enabled.
    fn is_proxy_enabled(&self) -> Result<bool, ServiceError>;

    /// Name of the platform (`macOS`, `Linux`, ...).
    fn platform_name(&self) -> &'static str;
}

// ───────────────────────── Platforms without support ─────────────────────────

/// The manager of a platform without support: every change fails.
pub struct StubProxyManager {
    platform: &'static str,
}

pub open spec fn not_implemented_text(platform: Seq<char>) -> Seq<char> {
    "system proxy not yet implemented for "@ + platform
}

impl StubProxyManager {
    pub fn new(platform: &'static str) -> (r: Self)
        ensures
            r.platform() == platform@,
    {
        StubProxyManager { platform }
    }

    pub closed spec fn platform(&self) -> Seq<char> {
        self.platform@
    }

    fn not_implemented(&self) -> (r: ServiceError)
        ensures
            r matches ServiceError::Internal(m) && m@ == not_implemented_text(self.platform()),
    {
        let mut m = string_from_str("system proxy not yet implemented for ");
        push_str(&mut m, self.platform);
        ServiceError::Internal(m)
    }
}

impl SystemProxyManager for StubProxyManager {
    fn set_proxy(&self, host: &str, port: u16) -> (r: Result<(), ServiceError>)
        ensures
            r matches Err(ServiceError::Internal(m)) && m@ == not_implemented_text(self.platform()),
    {
        Err(self.not_implemented())
    }

    fn clear_proxy(&self) -> (r: Result<(), ServiceError>)
        ensures
            r matches Err(ServiceError::Internal(m)) && m@ == not_implemented_text(self.platform()),
    {
        Err(self.not_implemented())
    }

    fn is_proxy_enabled(&self) -> (r: Result<bool, ServiceError>)
        ensures
            r == Ok::<bool, ServiceError>(false),
    {
        Ok(false)
    }

    fn platform_name(&self) -> (r: &'static str)
        ensures
            r@ == self.platform(),
    {
        self.platform
    }
}

// ───────────────────────── Snapshots ─────────────────────────

/// The proxy settings of every network service, saved before the proxy is set.
#[derive(Debug, Clone)]
pub struct ProxySnapshot {
    pub services: Vec<ServiceProxyState>,
}

/// The proxy settings of one network service.
#[derive(Debug, Clone)]
pub struct ServiceProxyState {
    pub service_name: String,
    pub web_proxy_enabled: bool,
    pub web_proxy_host: Option<String>,
    pub web_proxy_port: Option<u16>,
    pub secure_proxy_enabled: bool,
    pub secure_proxy_host: Option<String>,
    pub secure_proxy_port: Option<u16>,
}

pub struct ProxyStateView {
    pub service_name: Seq<char>,
    pub web_proxy_enabled: bool,
    pub web_proxy_host: Option<Seq<char>>,
    pub web_proxy_port: Option<u16>,
    pub secure_proxy_enabled: bool,
    pub secure_proxy_host: Option<Seq<char>>,
    pub secure_proxy_port: Option<u16>,
}

impl View for ServiceProxyState {
    type V = ProxyStateView;

    open spec fn view(&self) -> ProxyStateView {
        ProxyStateView {
            service_name: self.service_name@,
            web_proxy_enabled: self.web_proxy_enabled,
            web_proxy_host: crate::flow::opt_str(self.web_proxy_host),
            web_proxy_port: self.web_proxy_port,
            secure_proxy_enabled: self.secure_proxy_enabled,
            secure_proxy_host: crate::flow::opt_str(self.secure_proxy_host),
            secure_proxy_port: self.secure_proxy_port,
        }
    }
}

/// A service with no proxy known.
pub open spec fn blank_state(name: Seq<char>) -> ProxyStateView {
    ProxyStateView {
        service_name: name,
        web_proxy_enabled: false,
        web_proxy_host: None,
        web_proxy_port: None,
        secure_proxy_enabled: false,
        secure_proxy_host: None,
        secure_proxy_port: None,
    }
}

// ───────────────────────── Reading `networksetup` output ─────────────────────────

/// `networksetup -listallnetworkservices`: every line after the first (a legend), except
/// empty lines and disabled services (marked with `*`).
pub open spec fn service_names(ls: Seq<Seq<char>>) -> Seq<Seq<char>>
    decreases ls.len(),
{
    if ls.len() == 0 {
        Seq::empty()
    } else {
        let rest = service_names(ls.drop_first());
        if ls[0].len() > 0 && ls[0][0] != '*' {
            seq![ls[0]] + rest
        } else {
            rest
        }
    }
}

pub open spec fn network_services_spec(stdout: Seq<char>) -> Seq<Seq<char>> {
    let ls = lines(stdout);
    if ls.len() == 0 {
        Seq::empty()
    } else {
        service_names(ls.drop_first())
    }
}

/// The enabled network services listed by `networksetup -listallnetworkservices`.
pub fn parse_network_services(stdout: &str) -> (r: Vec<String>)
    ensures
        r@.len() == network_services_spec(stdout@).len(),
        forall|i: int| 0 <= i < r@.len() ==> (#[trigger] r@[i])@ == network_services_spec(stdout@)[i],
{
    let v = chars_of(stdout);
    let ls = split_lines(&v);
    let ghost lv = lines(stdout@);
    let mut out: Vec<String> = Vec::new();
    if ls.len() == 0 {
        return out;
    }
    let ghost tail = lv.drop_first();
    let mut i = ls.len();
    assert(lv.drop_first().skip(ls.len() - 1) =~= Seq::<Seq<char>>::empty());
    while i > 1
        invariant
            1 <= i <= ls@.len(),
            ls@.len() == lv.len(),
            tail == lv.drop_first(),
            forall|k: int| 0 <= k < ls@.len() ==> (#[trigger] ls@[k])@ == lv[k],
            out@.len() == service_names(tail.skip(i - 1)).len(),
            forall|k: int| 0 <= k < out@.len() ==> (#[trigger] out@[k])@ == service_names(
                tail.skip(i - 1),
            )[out@.len() - 1 - k],
        decreases i,
    {
        i -= 1;
        let ghost prev = service_names(tail.skip(i as int));
        let ghost cur = tail.skip(i - 1);
        assert(cur.drop_first() =~= tail.skip(i as int));
        assert(cur[0] == lv[i as int]);
        let line = &ls[i];
        if line.len() > 0 && line[0] != '*' {
            let ghost before = out@;
            out.push(string_of(line));
            assert(service_names(cur) == seq![lv[i as int]] + prev);
            assert forall|k: int| 0 <= k < out@.len() implies (#[trigger] out@[k])@ == service_names(
                cur,
            )[out@.len() - 1 - k] by {
                if k < before.len() {
                    assert(out@[k] == before[k]);
                }
            }
        }
    }
    assert(tail.skip(0) =~= tail);
    let ghost names = service_names(tail);
    let mut r: Vec<String> = Vec::new();
    let mut k = out.len();
    while k > 0
        invariant
            k <= out@.len(),
            out@.len() == names.len(),
            forall|j: int| 0 <= j < out@.len() ==> (#[trigger] out@[j])@ == names[out@.len() - 1 - j],
            r@.len() == out@.len() - k,
            forall|j: int| 0 <= j < r@.len() ==> (#[trigger] r@[j])@ == names[j],
        decreases k,
    {
        k -= 1;
        let ghost before = r@;
        r.push(copy_string(&out[k]));
        assert forall|j: int| 0 <= j < r@.len() implies (#[trigger] r@[j])@ == names[j] by {
            if j < before.len() {
                assert(r@[j] == before[j]);
            }
        }
    }
    r
}

/// One line of `networksetup -getwebproxy` output applied to a service's state: the
/// trimmed line `Enabled: X` sets the enabled flag (`Yes`, any case), `Server: H` sets a
/// non-empty host, `Port: P` sets a positive port; other lines change nothing. `secure`
/// selects the HTTPS settings.
pub open spec fn proxy_line(st: ProxyStateView, line: Seq<char>, secure: bool) -> ProxyStateView {
    let l = trim_seq(line);
    if starts_with(l, "Enabled:"@) {
        let on = eq_ic(trim_seq(l.skip(8)), "Yes"@);
        if secure {
            ProxyStateView { secure_proxy_enabled: on, ..st }
        } else {
            ProxyStateView { web_proxy_enabled: on, ..st }
        }
    } else if starts_with(l, "Server:"@) {
        let h = trim_seq(l.skip(7));
        if h.len() == 0 {
            st
        } else if secure {
            ProxyStateView { secure_proxy_host: Some(h), ..st }
        } else {
            ProxyStateView { web_proxy_host: Some(h), ..st }
        }
    } else if starts_with(l, "Port:"@) {
        match parse_unsigned(trim_seq(l.skip(5)), u16::MAX as nat) {
            Some(p) => if p == 0 {
                st
            } else if secure {
                ProxyStateView { secure_proxy_port: Some(p as u16), ..st }
            } else {
                ProxyStateView { web_proxy_port: Some(p as u16), ..st }
            },
            None => st,
        }
    } else {
        st
    }
}

pub open spec fn proxy_lines(st: ProxyStateView, ls: Seq<Seq<char>>, secure: bool) -> ProxyStateView
    decreases ls.len(),
{
    if ls.len() == 0 {
        st
    } else {
        proxy_lines(proxy_line(st, ls[0], secure), ls.drop_first(), secure)
    }
}

/// The macOS manager: the settings saved before the proxy was first set.
pub struct MacOsProxyManager {
    snapshot: Option<ProxySnapshot>,
}

pub open spec fn snapshot_view(s: Option<ProxySnapshot>) -> Option<Seq<ProxyStateView>> {
    match s {
        Some(p) => Some(Seq::new(p.services@.len(), |i: int| p.services@[i]@)),
        None => None,
    }
}

impl MacOsProxyManager {
    pub fn new() -> (r: Self)
        ensures
            r.saved() is None,
    {
        MacOsProxyManager { snapshot: None }
    }

    /// The saved settings, if any.
    pub closed spec fn saved(&self) -> Option<Seq<ProxyStateView>> {
        snapshot_view(self.snapshot)
    }

    /// Applies one line of `networksetup -getwebproxy` (or `-getsecurewebproxy`) output.
    fn apply_proxy_line(line: &Vec<char>, state: &mut ServiceProxyState, is_secure: bool)
        ensures
            final(state)@ == proxy_line(old(state)@, line@, is_secure),
    {
        let t = trim_chars(line);
        let l = chars_of(t.as_str());
        proof {
            reveal_strlit("Enabled:");
            reveal_strlit("Server:");
            reveal_strlit("Port:");
        }
        if starts_with_exec(&l, "Enabled:") {
            let val = trim_chars(&rest_chars(&l, 8));
            let vv = chars_of(val.as_str());
            let yes = chars_of("Yes");
            let on = eq_ignore_case_chars(&vv, &yes);
            if is_secure {
                state.secure_proxy_enabled = on;
            } else {
                state.web_proxy_enabled = on;
            }
        } else if starts_with_exec(&l, "Server:") {
            let host = trim_chars(&rest_chars(&l, 7));
            let hv = chars_of(host.as_str());
            if hv.len() > 0 {
                if is_secure {
                    state.secure_proxy_host = Some(host);
                } else {
                    state.web_proxy_host = Some(host);
                }
            }
        } else if starts_with_exec(&l, "Port:") {
            let pt = trim_chars(&rest_chars(&l, 5));
            let pv = chars_of(pt.as_str());
            match parse_unsigned_chars(&pv, 65535) {
                Some(p) => {
                    if p > 0 {
                        if is_secure {
                            state.secure_proxy_port = Some(p as u16);
                        } else {
                            state.web_proxy_port = Some(p as u16);
                        }
                    }
                },
                None => {},
            }
        }
    }

    /// Reads `networksetup -getwebproxy` (or, with `is_secure`, `-getsecurewebproxy`)
    /// output into the service's state.
    pub fn parse_proxy_output(output: &str, state: &mut ServiceProxyState, is_secure: bool)
        ensures
            final(state)@ == proxy_lines(old(state)@, lines(output@), is_secure),
    {
        let v = chars_of(output);
        let ls = split_lines(&v);
        let ghost lv = lines(output@);
        let ghost st0 = state@;
        let mut i: usize = 0;
        assert(lv.skip(0) =~= lv);
        while i < ls.len()
            invariant
                i <= ls@.len(),
                ls@.len() == lv.len(),
                forall|k: int| 0 <= k < ls@.len() ==> (#[trigger] ls@[k])@ == lv[k],
                proxy_lines(state@, lv.skip(i as int), is_secure) == proxy_lines(st0, lv, is_secure),
            decreases ls.len() - i,
        {
            let ghost rest = lv.skip(i as int);
            assert(rest[0] == lv[i as int]);
            assert(rest.drop_first() =~= lv.skip(i + 1));
            Self::apply_proxy_line(&ls[i], state, is_secure);
            i += 1;
        }
        assert(lv.skip(i as int) =~= Seq::<Seq<char>>::empty());
    }

    /// The state of a service from the output of `-getwebproxy` and `-getsecurewebproxy`.
    pub fn get_web_proxy(service: &str, web_output: &str, secure_output: &str) -> (r: ServiceProxyState)
        ensures
            r@ == proxy_lines(
                proxy_lines(blank_state(service@), lines(web_output@), false),
                lines(secure_output@),
                true,
            ),
    {
        let mut state = ServiceProxyState {
            service_name: string_from_str(service),
            web_proxy_enabled: false,
            web_proxy_host: None,
            web_proxy_port: None,
            secure_proxy_enabled: false,
            secure_proxy_host: None,
            secure_proxy_port: None,
        };
        Self::parse_proxy_output(web_output, &mut state, false);
        Self::parse_proxy_output(secure_output, &mut state, true);
        state
    }

    /// Whether the settings must be saved before the proxy is set (only the first time).
    pub fn needs_snapshot(&self) -> (r: bool)
        ensures
            r == self.saved() is None,
    {
        self.snapshot.is_none()
    }

    /// Saves the settings taken before the proxy is set.
    pub fn save_snapshot(&mut self, snapshot: ProxySnapshot)
        ensures
            final(self).saved() == snapshot_view(Some(snapshot)),
    {
        self.snapshot = Some(snapshot);
    }

    /// Takes the saved settings out, leaving none.
    pub fn take_snapshot(&mut self) -> (r: Option<ProxySnapshot>)
        ensures
            snapshot_view(r) == old(self).saved(),
            final(self).saved() is None,
    {
        let r = self.snapshot.take();
        r
    }

    pub fn platform_name(&self) -> (r: &'static str)
        ensures
            r@ == "macOS"@,
    {
        "macOS"
    }
}

// ───────────────────────── Planning `networksetup` commands ─────────────────────────

pub open spec fn set_args(flag: Seq<char>, service: Seq<char>, host: Seq<char>, port: u16) -> Seq<Seq<char>> {
    seq![flag, service, host, dec_str(port as nat)]
}

pub open spec fn off_args(flag: Seq<char>, service: Seq<char>) -> Seq<Seq<char>> {
    seq![flag, service, "off"@]
}

/// Commands that point every service's HTTP and HTTPS proxy at `host:port`.
pub open spec fn set_proxy_plan(services: Seq<Seq<char>>, host: Seq<char>, port: u16) -> Seq<Seq<Seq<char>>>
    decreases services.len(),
{
    if services.len() == 0 {
        Seq::empty()
    } else {
        seq![
            set_args("-setwebproxy"@, services[0], host, port),
            set_args("-setsecurewebproxy"@, services[0], host, port),
        ] + set_proxy_plan(services.drop_first(), host, port)
    }
}

/// The set-proxy plan holds two commands per service, in the services' order: for the
/// service `s` at position `i`, command `2i` is `-setwebproxy s host port` and command
/// `2i + 1` is `-setsecurewebproxy s host port` (the port in decimal), so that both the
/// HTTP and the HTTPS proxy of every service point at `host:port`.
pub proof fn lemma_set_plan_sets_both_proxies(services: Seq<Seq<char>>, host: Seq<char>, port: u16)
    ensures
        set_proxy_plan(services, host, port).len() == 2 * services.len(),
        forall|i: int|
            0 <= i < services.len() ==> #[trigger] set_proxy_plan(services, host, port)[2 * i] == seq![
                "-setwebproxy"@,
                services[i],
                host,
                dec_str(port as nat),
            ] && set_proxy_plan(services, host, port)[2 * i + 1] == seq![
                "-setsecurewebproxy"@,
                services[i],
                host,
                dec_str(port as nat),
            ],
        forall|s: Seq<char>|
            services.contains(s) ==> set_proxy_plan(services, host, port).contains(
                seq!["-setwebproxy"@, s, host, dec_str(port as nat)],
            ) && set_proxy_plan(services, host, port).contains(
                seq!["-setsecurewebproxy"@, s, host, dec_str(port as nat)],
            ),
    decreases services.len(),
{
    let plan = set_proxy_plan(services, host, port);
    if services.len() > 0 {
        let tail = services.drop_first();
        lemma_set_plan_sets_both_proxies(tail, host, port);
        let rest = set_proxy_plan(tail, host, port);
        assert forall|i: int| 0 <= i < services.len() implies #[trigger] plan[2 * i] == seq![
            "-setwebproxy"@,
            services[i],
            host,
            dec_str(port as nat),
        ] && plan[2 * i + 1] == seq!["-setsecurewebproxy"@, services[i], host, dec_str(port as nat)] by {
            if i > 0 {
                assert(plan[2 * i] == rest[2 * (i - 1)]);
                assert(plan[2 * i + 1] == rest[2 * (i - 1) + 1]);
                assert(tail[i - 1] == services[i]);
            }
        }
    }
    assert forall|s: Seq<char>| services.contains(s) implies plan.contains(
        seq!["-setwebproxy"@, s, host, dec_str(port as nat)],
    ) && plan.contains(seq!["-setsecurewebproxy"@, s, host, dec_str(port as nat)]) by {
        let i = choose|i: int| 0 <= i < services.len() && services[i] == s;
        assert(plan[2 * i] == seq!["-setwebproxy"@, s, host, dec_str(port as nat)]);
        assert(plan[2 * i + 1] == seq!["-setsecurewebproxy"@, s, host, dec_str(port as nat)]);
    }
}

/// Commands that turn both proxies off for every service.
pub open spec fn disable_plan(services: Seq<Seq<char>>) -> Seq<Seq<Seq<char>>>
    decreases services.len(),
{
    if services.len() == 0 {
        Seq::empty()
    } else {
        seq![off_args("-setwebproxystate"@, services[0]), off_args("-setsecurewebproxystate"@, services[0])]
            + disable_plan(services.drop_first())
    }
}

/// Commands that restore one proxy of a service: an enabled proxy with host and port is
/// set back; an enabled one without them is left; a disabled one is turned off.
pub open spec fn restore_one(
    set_flag: Seq<char>,
    off_flag: Seq<char>,
    name: Seq<char>,
    enabled: bool,
    host: Option<Seq<char>>,
    port: Option<u16>,
) -> Seq<Seq<Seq<char>>> {
    if enabled {
        match (host, port) {
            (Some(h), Some(p)) => seq![set_args(set_flag, name, h, p)],
            _ => Seq::empty(),
        }
    } else {
        seq![off_args(off_flag, name)]
    }
}

/// Commands that restore the saved settings of every service.
pub open spec fn restore_plan(states: Seq<ProxyStateView>) -> Seq<Seq<Seq<char>>>
    decreases states.len(),
{
    if states.len() == 0 {
        Seq::empty()
    } else {
        let s = states[0];
        restore_one(
            "-setwebproxy"@,
            "-setwebproxystate"@,
            s.service_name,
            s.web_proxy_enabled,
            s.web_proxy_host,
            s.web_proxy_port,
        ) + restore_one(
            "-setsecurewebproxy"@,
            "-setsecurewebproxystate"@,
            s.service_name,
            s.secure_proxy_enabled,
            s.secure_proxy_host,
            s.secure_proxy_port,
        ) + restore_plan(states.drop_first())
    }
}

pub open spec fn commands_view(c: Seq<Vec<String>>) -> Seq<Seq<Seq<char>>> {
    Seq::new(c.len(), |i: int| Seq::new(c[i]@.len(), |j: int| c[i]@[j]@))
}

fn args2(a: &str, b: &str) -> (r: Vec<String>)
    ensures
        Seq::new(r@.len(), |j: int| r@[j]@) == seq![a@, b@],
{
    let mut r: Vec<String> = Vec::new();
    r.push(string_from_str(a));
    r.push(string_from_str(b));
    assert(Seq::new(r@.len(), |j: int| r@[j]@) =~= seq![a@, b@]);
    r
}

fn set_command(flag: &str, service: &str, host: &str, port: u16) -> (r: Vec<String>)
    ensures
        Seq::new(r@.len(), |j: int| r@[j]@) == set_args(flag@, service@, host@, port),
{
    let mut r: Vec<String> = Vec::new();
    r.push(string_from_str(flag));
    r.push(string_from_str(service));
    r.push(string_from_str(host));
    r.push(decimal_string(port as u64));
    assert(Seq::new(r@.len(), |j: int| r@[j]@) =~= set_args(flag@, service@, host@, port));
    r
}

fn off_command(flag: &str, service: &str) -> (r: Vec<String>)
    ensures
        Seq::new(r@.len(), |j: int| r@[j]@) == off_args(flag@, service@),
{
    let mut r: Vec<String> = Vec::new();
    r.push(string_from_str(flag));
    r.push(string_from_str(service));
    r.push(string_from_str("off"));
    assert(Seq::new(r@.len(), |j: int| r@[j]@) =~= off_args(flag@, service@));
    r
}

pub open spec fn strings(v: Seq<String>) -> Seq<Seq<char>> {
    Seq::new(v.len(), |i: int| v[i]@)
}

/// The `networksetup` argument lists that set the proxy on every service.
pub fn set_proxy_commands(services: &Vec<String>, host: &str, port: u16) -> (r: Vec<Vec<String>>)
    ensures
        commands_view(r@) == set_proxy_plan(strings(services@), host@, port),
{
    let ghost sv = strings(services@);
    let mut r: Vec<Vec<String>> = Vec::new();
    let mut i: usize = 0;
    assert(sv.skip(0) =~= sv);
    while i < services.len()
        invariant
            i <= services@.len(),
            sv == strings(services@),
            commands_view(r@) + set_proxy_plan(sv.skip(i as int), host@, port) == set_proxy_plan(sv, host@, port),
        decreases services.len() - i,
    {
        let ghost rest = sv.skip(i as int);
        assert(rest[0] == services@[i as int]@);
        assert(rest.drop_first() =~= sv.skip(i + 1));
        let ghost before = commands_view(r@);
        r.push(set_command("-setwebproxy", services[i].as_str(), host, port));
        r.push(set_command("-setsecurewebproxy", services[i].as_str(), host, port));
        proof {
            reveal_strlit("-setwebproxy");
            reveal_strlit("-setsecurewebproxy");
            assert(commands_view(r@) =~= before + seq![
                set_args("-setwebproxy"@, rest[0], host@, port),
                set_args("-setsecurewebproxy"@, rest[0], host@, port),
            ]);
        }
        i += 1;
    }
    assert(sv.skip(i as int) =~= Seq::<Seq<char>>::empty());
    r
}

/// The `networksetup` argument lists that turn the proxies off on every service.
pub fn disable_commands(services: &Vec<String>) -> (r: Vec<Vec<String>>)
    ensures
        commands_view(r@) == disable_plan(strings(services@)),
{
    let ghost sv = strings(services@);
    let mut r: Vec<Vec<String>> = Vec::new();
    let mut i: usize = 0;
    assert(sv.skip(0) =~= sv);
    while i < services.len()
        invariant
            i <= services@.len(),
            sv == strings(services@),
            commands_view(r@) + disable_plan(sv.skip(i as int)) == disable_plan(sv),
        decreases services.len() - i,
    {
        let ghost rest = sv.skip(i as int);
        assert(rest[0] == services@[i as int]@);
        assert(rest.drop_first() =~= sv.skip(i + 1));
        let ghost before = commands_view(r@);
        r.push(off_command("-setwebproxystate", services[i].as_str()));
        r.push(off_command("-setsecurewebproxystate", services[i].as_str()));
        assert(commands_view(r@) =~= before + seq![
            off_args("-setwebproxystate"@, rest[0]),
            off_args("-setsecurewebproxystate"@, rest[0]),
        ]);
        i += 1;
    }
    assert(sv.skip(i as int) =~= Seq::<Seq<char>>::empty());
    r
}

fn push_restore_one(
    r: &mut Vec<Vec<String>>,
    set_flag: &str,
    off_flag: &str,
    name: &str,
    enabled: bool,
    host: &Option<String>,
    port: Option<u16>,
)
    ensures
        commands_view(final(r)@) == commands_view(old(r)@) + restore_one(
            set_flag@,
            off_flag@,
            name@,
            enabled,
            crate::flow::opt_str(*host),
            port,
        ),
{
    let ghost before = commands_view(r@);
    if enabled {
        match (host, port) {
            (Some(h), Some(p)) => {
                r.push(set_command(set_flag, name, h.as_str(), p));
                assert(commands_view(r@) =~= before + seq![set_args(set_flag@, name@, h@, p)]);
            },
            _ => {
                assert(commands_view(r@) =~= before + Seq::<Seq<Seq<char>>>::empty());
            },
        }
    } else {
        r.push(off_command(off_flag, name));
        assert(commands_view(r@) =~= before + seq![off_args(off_flag@, name@)]);
    }
}

/// The `networksetup` argument lists that restore saved settings.
pub fn restore_commands(snapshot: &ProxySnapshot) -> (r: Vec<Vec<String>>)
    ensures
        commands_view(r@) == restore_plan(Seq::new(snapshot.services@.len(), |i: int| snapshot.services@[i]@)),
{
    let ghost sv = Seq::new(snapshot.services@.len(), |i: int| snapshot.services@[i]@);
    let mut r: Vec<Vec<String>> = Vec::new();
    let mut i: usize = 0;
    assert(sv.skip(0) =~= sv);
    while i < snapshot.services.len()
        invariant
            i <= snapshot.services@.len(),
            sv == Seq::new(snapshot.services@.len(), |i: int| snapshot.services@[i]@),
            commands_view(r@) + restore_plan(sv.skip(i as int)) == restore_plan(sv),
        decreases snapshot.services.len() - i,
    {
        let ghost rest = sv.skip(i as int);
        assert(rest[0] == snapshot.services@[i as int]@);
        assert(rest.drop_first() =~= sv.skip(i + 1));
        let ghost before = commands_view(r@);
        let s = &snapshot.services[i];
        push_restore_one(
            &mut r,
            "-setwebproxy",
            "-setwebproxystate",
            s.service_name.as_str(),
            s.web_proxy_enabled,
            &s.web_proxy_host,
            s.web_proxy_port,
        );
        push_restore_one(
            &mut r,
            "-setsecurewebproxy",
            "-setsecurewebproxystate",
            s.service_name.as_str(),
            s.secure_proxy_enabled,
            &s.secure_proxy_host,
            s.secure_proxy_port,
        );
        assert(commands_view(r@) + restore_plan(sv.skip(i + 1)) =~= restore_plan(sv));
        i += 1;
    }
    assert(sv.skip(i as int) =~= Seq::<ProxyStateView>::empty());
    r
}

/// Whether any service has its HTTP or HTTPS proxy enabled.
pub fn any_proxy_enabled(states: &Vec<ServiceProxyState>) -> (r: bool)
    ensures
        r == exists|i: int|
            0 <= i < states@.len() && ((#[trigger] states@[i]).web_proxy_enabled || states@[i].secure_proxy_enabled),
{
    let mut i: usize = 0;
    while i < states.len()
        invariant
            i <= states@.len(),
            forall|j: int| 0 <= j < i ==> !((#[trigger] states@[j]).web_proxy_enabled || states@[j].secure_proxy_enabled),
        decreases states.len() - i,
    {
        if states[i].web_proxy_enabled || states[i].secure_proxy_enabled {
            return true;
        }
        i += 1;
    }
    false
}

/// Message of a failed `networksetup` run: `networksetup {args} failed: {stderr}`.
pub fn command_failed_message(args: &Vec<String>, stderr: &str) -> (r: String)
    ensures
        r@ == "networksetup "@ + joined(strings(args@)) + " failed: "@ + stderr@,
{
    let mut m = string_from_str("networksetup ");
    let ghost start = m@;
    let mut i: usize = 0;
    while i < args.len()
        invariant
            i <= args@.len(),
            m@ == start + joined(strings(args@).take(i as int)),
        decreases args.len() - i,
    {
        let ghost before = strings(args@).take(i as int);
        if i > 0 {
            push_str(&mut m, " ");
        }
        push_str(&mut m, args[i].as_str());
        proof {
            let now = strings(args@).take(i + 1);
            assert(now.drop_last() =~= before);
            assert(now.last() == args@[i as int]@);
        }
        i += 1;
    }
    assert(strings(args@).take(args@.len() as int) =~= strings(args@));
    push_str(&mut m, " failed: ");
    push_str(&mut m, stderr);
    m
}

/// Words joined by single spaces.
pub open spec fn joined(ws: Seq<Seq<char>>) -> Seq<char>
    decreases ws.len(),
{
    if ws.len() == 0 {
        Seq::empty()
    } else if ws.len() == 1 {
        ws[0]
    } else {
        joined(ws.drop_last()) + " "@ + ws.last()
    }
}

} // verus!
