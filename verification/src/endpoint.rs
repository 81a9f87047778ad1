//! Relay endpoints: where a relay listens, where it connects to, and the options
//! of either side.

use vstd::prelude::*;
use vstd::string::StringExecFns;

use crate::pool::PoolConfig;
use crate::probe::ProbeConfig;
use crate::text::{bool_text, decimal, push_bool, push_decimal};

verus! {

// ---------------------------------------------------------------------------
// Addresses
// ---------------------------------------------------------------------------

/// An IP address and a port, held in the form in which the standard library
/// writes them. Its view is that text.
#[derive(Debug, PartialEq, Eq)]
pub struct SocketAddr {
    pub text: String,
}

impl View for SocketAddr {
    type V = Seq<char>;

    open spec fn view(&self) -> Seq<char> {
        self.text@
    }
}

impl Clone for SocketAddr {
    fn clone(&self) -> (copy: Self)
        ensures
            copy == *self,
    {
        SocketAddr { text: self.text.clone() }
    }
}

/// Remote address.
#[derive(Debug, PartialEq, Eq)]
pub enum RemoteAddr {
    SocketAddr(SocketAddr),
    DomainName(String, u16),
}

/// What a [`RemoteAddr`] stands for.
pub enum RemoteAddrView {
    SocketAddr(Seq<char>),
    DomainName(Seq<char>, u16),
}

impl View for RemoteAddr {
    type V = RemoteAddrView;

    open spec fn view(&self) -> RemoteAddrView {
        match self {
            RemoteAddr::SocketAddr(addr) => RemoteAddrView::SocketAddr(addr@),
            RemoteAddr::DomainName(host, port) => RemoteAddrView::DomainName(host@, *port),
        }
    }
}

impl Clone for RemoteAddr {
    fn clone(&self) -> (copy: Self)
        ensures
            copy == *self,
    {
        match self {
            RemoteAddr::SocketAddr(addr) => RemoteAddr::SocketAddr(addr.clone()),
            RemoteAddr::DomainName(host, port) => RemoteAddr::DomainName(host.clone(), *port),
        }
    }
}

impl RemoteAddrView {
    /// The text of an address: a socket address as it is, a domain name and its
    /// port with a colon between them.
    pub open spec fn text(self) -> Seq<char> {
        match self {
            RemoteAddrView::SocketAddr(addr) => addr,
            RemoteAddrView::DomainName(host, port) => host + ":"@ + decimal(port as nat),
        }
    }
}

impl RemoteAddr {
    /// Writes the address behind `out`.
    pub fn push_text(&self, out: &mut String)
        ensures
            final(out)@ == old(out)@ + self@.text(),
    {
        let ghost before = out@;
        match self {
            RemoteAddr::SocketAddr(addr) => {
                out.append(addr.text.as_str());
            },
            RemoteAddr::DomainName(host, port) => {
                out.append(host.as_str());
                out.append(":");
                push_decimal(out, *port as u64);
                assert(out@ =~= before + self@.text());
            },
        }
    }

    /// The text of the address.
    pub fn to_text(&self) -> (text: String)
        ensures
            text@ == self@.text(),
    {
        let mut text: String = String::new();
        self.push_text(&mut text);
        assert(text@ =~= self@.text());
        text
    }
}

// ---------------------------------------------------------------------------
// Options
// ---------------------------------------------------------------------------

/// Options of the proxy protocol.
#[derive(Debug, Clone, Copy)]
pub struct ProxyOpts {
    pub send_proxy: bool,
    pub accept_proxy: bool,
    pub send_proxy_version: usize,
    pub accept_proxy_timeout: usize,
}

impl ProxyOpts {
    /// Whether the proxy protocol is spoken on either side.
    pub fn enabled(&self) -> (yes: bool)
        ensures
            yes == (self.send_proxy || self.accept_proxy),
    {
        self.send_proxy || self.accept_proxy
    }
}

impl Default for ProxyOpts {
    fn default() -> (opts: Self)
        ensures
            opts == (ProxyOpts {
                send_proxy: false,
                accept_proxy: false,
                send_proxy_version: 0,
                accept_proxy_timeout: 0,
            }),
    {
        ProxyOpts {
            send_proxy: false,
            accept_proxy: false,
            send_proxy_version: 0,
            accept_proxy_timeout: 0,
        }
    }
}

/// The websocket options of one side.
#[derive(Debug, Clone, PartialEq, Eq)]
pub struct WsConf {
    pub host: String,
    pub path: String,
}

/// The TLS options of the connecting side.
#[derive(Debug, Clone, PartialEq, Eq)]
pub struct TlsClientConf {
    pub sni: String,
    pub alpn: Vec<Vec<u8>>,
    pub insecure: bool,
    pub early_data: bool,
}

/// The TLS options of the listening side.
#[derive(Debug, Clone, PartialEq, Eq)]
pub struct TlsServerConf {
    pub crt: String,
    pub key: String,
    pub ocsp: String,
    pub server_name: String,
}

/// The transport of the listening side.
#[derive(Debug, Clone, PartialEq, Eq)]
pub struct MixServerConf {
    pub ws: Option<WsConf>,
    pub tls: Option<TlsServerConf>,
}

/// The transport of the connecting side.
#[derive(Debug, Clone, PartialEq, Eq)]
pub struct MixClientConf {
    pub ws: Option<WsConf>,
    pub tls: Option<TlsClientConf>,
}

/// Passive health checking of the peers.
#[derive(Debug, Clone, Copy, PartialEq, Eq, Structural)]
pub struct HealthCheckConfig {
    pub max_fails: u32,
    pub fail_timeout_secs: u32,
    pub max_latency_ms: Option<u32>,
}

/// How connections are spread over the peers: the name of a strategy, the
/// weights of the peers, and the health check.
#[derive(Debug, Clone, PartialEq, Eq)]
pub struct BalancerConf {
    pub strategy: String,
    pub weights: Vec<u8>,
    pub health: Option<HealthCheckConfig>,
}

/// Options of the connecting side.
#[derive(Debug, Clone)]
pub struct ConnectOpts {
    pub send_mptcp: bool,
    pub connect_timeout: usize,
    pub associate_timeout: usize,
    pub tcp_keepalive: usize,
    pub tcp_keepalive_probe: usize,
    pub bind_address: Option<SocketAddr>,
    pub bind_interface: Option<String>,
    /// The obfuscation mode by name; empty for none.
    pub obfs: String,
    pub proxy_opts: ProxyOpts,
    pub transport: Option<(MixServerConf, MixClientConf)>,
    /// The balancer; `None` for the default one.
    pub balancer: Option<BalancerConf>,
    /// Active health probe configuration.
    /// When `Some`, a background TCP-ping task is launched for each peer.
    pub probe_config: Option<ProbeConfig>,
    /// Per-peer probe targets, parallel to `[raddr] + extra_raddrs`.
    ///
    /// When non-empty, the active probe pings these addresses instead of the
    /// actual forwarding addresses.  This is useful when forwarding goes
    /// through a local tunnel client (e.g. `127.0.0.1:10001`) while the real
    /// reachability check must target the remote tunnel server directly
    /// (e.g. `real-server.example.com:443`).
    ///
    /// If the list is shorter than the peer list, missing entries fall back to
    /// the actual forwarding address for that token.  An empty list means all
    /// peers are probed at their forwarding address.
    pub probe_targets: Vec<RemoteAddr>,
    /// Connection pool configuration.
    /// When `Some`, a pre-warmed pool of idle remote connections is maintained.
    pub pool_config: Option<PoolConfig>,
}

impl Default for ConnectOpts {
    fn default() -> (opts: Self)
        ensures
            !opts.send_mptcp,
            opts.connect_timeout == 0,
            opts.associate_timeout == 0,
            opts.tcp_keepalive == 0,
            opts.tcp_keepalive_probe == 0,
            opts.bind_address is None,
            opts.bind_interface is None,
            opts.obfs@.len() == 0,
            !opts.proxy_opts.send_proxy,
            !opts.proxy_opts.accept_proxy,
            opts.proxy_opts.send_proxy_version == 0,
            opts.proxy_opts.accept_proxy_timeout == 0,
            opts.transport is None,
            opts.balancer is None,
            opts.probe_config is None,
            opts.probe_targets@.len() == 0,
            opts.pool_config is None,
    {
        ConnectOpts {
            send_mptcp: false,
            connect_timeout: 0,
            associate_timeout: 0,
            tcp_keepalive: 0,
            tcp_keepalive_probe: 0,
            bind_address: None,
            bind_interface: None,
            obfs: String::new(),
            proxy_opts: ProxyOpts::default(),
            transport: None,
            balancer: None,
            probe_config: None,
            probe_targets: Vec::new(),
            pool_config: None,
        }
    }
}

/// Options of the listening side.
#[derive(Debug, Clone)]
pub struct BindOpts {
    pub ipv6_only: bool,
    pub accept_mptcp: bool,
    pub bind_interface: Option<String>,
}

impl Default for BindOpts {
    fn default() -> (opts: Self)
        ensures
            opts == (BindOpts { ipv6_only: false, accept_mptcp: false, bind_interface: None }),
    {
        BindOpts { ipv6_only: false, accept_mptcp: false, bind_interface: None }
    }
}

/// A relay endpoint.
#[derive(Debug, Clone)]
pub struct Endpoint {
    pub laddr: SocketAddr,
    pub raddr: RemoteAddr,
    pub bind_opts: BindOpts,
    pub conn_opts: ConnectOpts,
    pub extra_raddrs: Vec<RemoteAddr>,
}

// ---------------------------------------------------------------------------
// Texts
// ---------------------------------------------------------------------------

/// `name=value` and then `end`, or nothing where there is no value.
pub open spec fn labelled(name: Seq<char>, value: Option<Seq<char>>, end: Seq<char>) -> Seq<char> {
    match value {
        Some(v) => name + v + end,
        None => Seq::empty(),
    }
}

/// The text of an optional string.
pub open spec fn text_of(value: Option<String>) -> Option<Seq<char>> {
    match value {
        Some(v) => Some(v@),
        None => None,
    }
}

/// A row of texts in one piece.
pub open spec fn joined(parts: Seq<Seq<char>>) -> Seq<char>
    decreases parts.len(),
{
    if parts.len() == 0 {
        Seq::empty()
    } else {
        joined(parts.drop_last()) + parts.last()
    }
}

/// A text that is written part by part.
struct Row {
    text: String,
    parts: Ghost<Seq<Seq<char>>>,
}

impl Row {
    /// The text is that of the parts.
    spec fn wf(self) -> bool {
        self.text@ == joined(self.parts@)
    }

    /// A row without parts.
    fn new() -> (row: Self)
        ensures
            row.wf(),
            row.parts@ == Seq::<Seq<char>>::empty(),
    {
        Row { text: String::new(), parts: Ghost(Seq::empty()) }
    }

    /// Adds `name`, a text and `end`, or an empty part where there is no text.
    fn text(&mut self, name: &str, value: Option<&str>, end: &str)
        requires
            old(self).wf(),
        ensures
            final(self).wf(),
            final(self).parts@ == old(self).parts@.push(
                labelled(
                    name@,
                    match value {
                        Some(v) => Some(v@),
                        None => None,
                    },
                    end@,
                ),
            ),
    {
        let ghost before = self.text@;
        let ghost part = labelled(
            name@,
            match value {
                Some(v) => Some(v@),
                None => None,
            },
            end@,
        );
        if let Some(v) = value {
            self.text.append(name);
            self.text.append(v);
            self.text.append(end);
        }
        assert(self.text@ =~= before + part);
        assert(self.parts@.push(part).drop_last() =~= self.parts@);
        self.parts = Ghost(self.parts@.push(part));
    }

    /// Adds `name`, a number and `end`.
    fn number(&mut self, name: &str, value: usize, end: &str)
        requires
            old(self).wf(),
        ensures
            final(self).wf(),
            final(self).parts@ == old(self).parts@.push(
                labelled(name@, Some(decimal(value as nat)), end@),
            ),
    {
        let mut digits: String = String::new();
        push_decimal(&mut digits, value as u64);
        assert(digits@ =~= decimal(value as nat));
        self.text(name, Some(digits.as_str()), end);
    }

    /// Adds `name`, a truth value and `end`.
    fn flag(&mut self, name: &str, value: bool, end: &str)
        requires
            old(self).wf(),
        ensures
            final(self).wf(),
            final(self).parts@ == old(self).parts@.push(
                labelled(name@, Some(bool_text(value)), end@),
            ),
    {
        let mut word: String = String::new();
        push_bool(&mut word, value);
        assert(word@ =~= bool_text(value));
        self.text(name, Some(word.as_str()), end);
    }
}

/// An optional string as an optional text.
fn as_text(value: &Option<String>) -> (text: Option<&str>)
    ensures
        text is Some <==> value is Some,
        text matches Some(t) ==> t@ == value->0@,
{
    match value {
        Some(v) => Some(v.as_str()),
        None => None,
    }
}

impl BindOpts {
    /// The parts of the text of these options.
    pub open spec fn parts(self) -> Seq<Seq<char>> {
        seq![
            labelled("listen-iface="@, text_of(self.bind_interface), ", "@),
            labelled("ipv6-only="@, Some(bool_text(self.ipv6_only)), ", "@),
            labelled("accept-mptcp="@, Some(bool_text(self.accept_mptcp)), ""@),
        ]
    }

    /// The text of these options.
    pub fn to_text(&self) -> (text: String)
        ensures
            text@ == joined(self.parts()),
    {
        let mut row: Row = Row::new();
        row.text("listen-iface=", as_text(&self.bind_interface), ", ");
        row.flag("ipv6-only=", self.ipv6_only, ", ");
        row.flag("accept-mptcp=", self.accept_mptcp, "");
        assert(row.parts@ =~= self.parts());
        row.text
    }
}

/// What stands for the transport and the balancer in the text of the options:
/// either names itself.
#[derive(Debug, Clone)]
pub struct ConnectNames {
    pub accept: String,
    pub connect: String,
    pub strategy: String,
}

impl ConnectOpts {
    /// The parts of the text of these options.
    pub open spec fn parts(self, names: ConnectNames) -> Seq<Seq<char>> {
        let through = match self.bind_address {
            Some(addr) => Some(addr@),
            None => None,
        };
        let obfs = if self.obfs@.len() > 0 {
            Some(self.obfs@)
        } else {
            None
        };
        let (accept, connect) = if self.transport is Some {
            (Some(names.accept@), Some(names.connect@))
        } else {
            (None, None)
        };
        let proxy = self.proxy_opts;
        seq![
            labelled("send-iface="@, text_of(self.bind_interface), ", "@),
            labelled("send-through="@, through, ", "@),
            labelled("obfs="@, obfs, ", "@),
            labelled("send-mptcp="@, Some(bool_text(self.send_mptcp)), "; "@),
            labelled("send-proxy="@, Some(bool_text(proxy.send_proxy)), ", "@),
            labelled("send-proxy-version="@, Some(decimal(proxy.send_proxy_version as nat)), ", "@),
            labelled("accept-proxy="@, Some(bool_text(proxy.accept_proxy)), ", "@),
            labelled(
                "accept-proxy-timeout="@,
                Some(decimal(proxy.accept_proxy_timeout as nat)),
                "s; "@,
            ),
            labelled("tcp-keepalive="@, Some(decimal(self.tcp_keepalive as nat)), "s"@),
            labelled("["@, Some(decimal(self.tcp_keepalive_probe as nat)), "] "@),
            labelled("connect-timeout="@, Some(decimal(self.connect_timeout as nat)), "s, "@),
            labelled("associate-timeout="@, Some(decimal(self.associate_timeout as nat)), "s; "@),
            labelled("transport="@, accept, "||"@),
            labelled(""@, connect, "; "@),
            labelled("balance="@, Some(names.strategy@), ""@),
        ]
    }

    /// The text of these options. The transport and the balancer are shown by
    /// the names in `names`.
    pub fn to_text(&self, names: &ConnectNames) -> (text: String)
        ensures
            text@ == joined(self.parts(*names)),
    {
        let through: Option<&str> = match &self.bind_address {
            Some(addr) => Some(addr.text.as_str()),
            None => None,
        };
        let obfs: Option<&str> = if self.obfs.as_str().is_empty() {
            None
        } else {
            Some(self.obfs.as_str())
        };
        let shown: bool = self.transport.is_some();
        let accept: Option<&str> = if shown { Some(names.accept.as_str()) } else { None };
        let connect: Option<&str> = if shown { Some(names.connect.as_str()) } else { None };
        let mut row: Row = Row::new();
        row.text("send-iface=", as_text(&self.bind_interface), ", ");
        row.text("send-through=", through, ", ");
        row.text("obfs=", obfs, ", ");
        row.flag("send-mptcp=", self.send_mptcp, "; ");
        row.flag("send-proxy=", self.proxy_opts.send_proxy, ", ");
        row.number("send-proxy-version=", self.proxy_opts.send_proxy_version, ", ");
        row.flag("accept-proxy=", self.proxy_opts.accept_proxy, ", ");
        row.number("accept-proxy-timeout=", self.proxy_opts.accept_proxy_timeout, "s; ");
        row.number("tcp-keepalive=", self.tcp_keepalive, "s");
        row.number("[", self.tcp_keepalive_probe, "] ");
        row.number("connect-timeout=", self.connect_timeout, "s, ");
        row.number("associate-timeout=", self.associate_timeout, "s; ");
        row.text("transport=", accept, "||");
        row.text("", connect, "; ");
        row.text("balance=", Some(names.strategy.as_str()), "");
        assert(row.parts@ =~= self.parts(*names));
        row.text
    }
}

impl Endpoint {
    /// The parts of the text of the first `n` further remote addresses.
    pub open spec fn extra_parts(self, n: int) -> Seq<Seq<char>> {
        Seq::new(n as nat, |i: int| labelled("|"@, Some(self.extra_raddrs@[i]@.text()), ""@))
    }

    /// The parts of the text of this endpoint.
    pub open spec fn parts(self, names: ConnectNames) -> Seq<Seq<char>> {
        seq![
            labelled(""@, Some(self.laddr@), " -> ["@),
            labelled(""@, Some(self.raddr@.text()), ""@),
        ] + self.extra_parts(self.extra_raddrs@.len() as int) + seq![
            labelled("]; options: "@, Some(joined(self.bind_opts.parts())), "; "@),
            labelled(""@, Some(joined(self.conn_opts.parts(names))), ""@),
        ]
    }

    /// The text of this endpoint: its addresses and its options.
    pub fn to_text(&self, names: &ConnectNames) -> (text: String)
        ensures
            text@ == joined(self.parts(*names)),
    {
        let mut row: Row = Row::new();
        row.text("", Some(self.laddr.text.as_str()), " -> [");
        let remote: String = self.raddr.to_text();
        row.text("", Some(remote.as_str()), "");
        let ghost front = row.parts@;
        for i in 0..self.extra_raddrs.len()
            invariant
                row.wf(),
                row.parts@ == front + self.extra_parts(i as int),
        {
            let extra: String = self.extra_raddrs[i].to_text();
            row.text("|", Some(extra.as_str()), "");
            assert(row.parts@ =~= front + self.extra_parts(i as int + 1));
        }
        let bind: String = self.bind_opts.to_text();
        let conn: String = self.conn_opts.to_text(names);
        row.text("]; options: ", Some(bind.as_str()), "; ");
        row.text("", Some(conn.as_str()), "");
        assert(row.parts@ =~= self.parts(*names));
        row.text
    }
}

// ---------------------------------------------------------------------------
// Laws
// ---------------------------------------------------------------------------

/// A text in parts is the texts of its parts, one behind the other: adding a part adds
/// its text at the end.
pub proof fn part_is_added_at_the_end(parts: Seq<Seq<char>>, part: Seq<char>)
    ensures
        joined(Seq::<Seq<char>>::empty()) == Seq::<char>::empty(),
        joined(parts.push(part)) == joined(parts) + part,
{
    assert(parts.push(part).drop_last() =~= parts);
}

/// The text of two rows of parts is the text of the one and then that of the other.
proof fn lemma_joined_add(x: Seq<Seq<char>>, y: Seq<Seq<char>>)
    ensures
        joined(x + y) == joined(x) + joined(y),
    decreases y.len(),
{
    if y.len() == 0 {
        assert(x + y =~= x);
        assert(joined(x) + joined(y) =~= joined(x));
    } else {
        lemma_joined_add(x, y.drop_last());
        assert((x + y).drop_last() =~= x + y.drop_last());
        assert(joined(x + y) =~= joined(x) + joined(y));
    }
}

/// A part with a value is its name, the value and its end; one without is empty.
pub proof fn part_is_name_value_and_end(name: Seq<char>, value: Seq<char>, end: Seq<char>)
    ensures
        labelled(name, Some(value), end).take(name.len() as int) == name,
        labelled(name, Some(value), end).len() == name.len() + value.len() + end.len(),
        labelled(name, Some(value), end).skip(name.len() as int) == value + end,
        labelled(name, None, end).len() == 0,
{
    let part = labelled(name, Some(value), end);
    assert(part.take(name.len() as int) =~= name);
    assert(part.skip(name.len() as int) =~= value + end);
}

/// A remote address stands for its own text, or for its own host and port with a colon
/// between them.
pub proof fn address_shows_what_it_holds(addr: RemoteAddr)
    ensures
        match addr {
            RemoteAddr::SocketAddr(a) => addr@ == RemoteAddrView::SocketAddr(a.text@)
                && addr@.text() == a.text@,
            RemoteAddr::DomainName(host, port) => addr@ == RemoteAddrView::DomainName(host@, port)
                && addr@.text() == host@ + seq![':'] + decimal(port as nat),
        },
{
    reveal_strlit(":");
    assert(":"@ =~= seq![':']);
}

/// The text of the options of the listening side, read from front to back: the
/// interface, if there is one, and the two switches.
pub proof fn bind_text_shows_every_option(opts: BindOpts)
    ensures
        joined(opts.parts()) == (match opts.bind_interface {
            Some(name) => "listen-iface="@ + name@ + ", "@,
            None => Seq::empty(),
        }) + ("ipv6-only="@ + bool_text(opts.ipv6_only) + ", "@) + ("accept-mptcp="@ + bool_text(
            opts.accept_mptcp,
        ) + ""@),
{
    let parts = opts.parts();
    let none = Seq::<Seq<char>>::empty();
    assert(parts =~= none.push(parts[0]).push(parts[1]).push(parts[2]));
    part_is_added_at_the_end(none, parts[0]);
    part_is_added_at_the_end(none.push(parts[0]), parts[1]);
    part_is_added_at_the_end(none.push(parts[0]).push(parts[1]), parts[2]);
    assert(joined(none) + parts[0] =~= parts[0]);
}

/// The first parts of the text of the options of the connecting side: the interface, the
/// address and the obfuscation mode, each where it is given, and the switch.
pub proof fn connect_text_begins_with_the_way_out(opts: ConnectOpts, names: ConnectNames)
    ensures
        joined(opts.parts(names).take(4)) == (match opts.bind_interface {
            Some(name) => "send-iface="@ + name@ + ", "@,
            None => Seq::empty(),
        }) + (match opts.bind_address {
            Some(addr) => "send-through="@ + addr.text@ + ", "@,
            None => Seq::empty(),
        }) + (if opts.obfs@.len() == 0 {
            Seq::empty()
        } else {
            "obfs="@ + opts.obfs@ + ", "@
        }) + ("send-mptcp="@ + bool_text(opts.send_mptcp) + "; "@),
{
    lemma_joined_four(opts.parts(names).take(4));
}

/// The next parts show the four options of the proxy protocol.
pub proof fn connect_text_goes_on_with_the_proxy(opts: ConnectOpts, names: ConnectNames)
    ensures
        joined(opts.parts(names).subrange(4, 8)) == ("send-proxy="@ + bool_text(
            opts.proxy_opts.send_proxy,
        ) + ", "@) + ("send-proxy-version="@ + decimal(opts.proxy_opts.send_proxy_version as nat)
            + ", "@) + ("accept-proxy="@ + bool_text(opts.proxy_opts.accept_proxy) + ", "@) + (
        "accept-proxy-timeout="@ + decimal(opts.proxy_opts.accept_proxy_timeout as nat) + "s; "@),
{
    lemma_joined_four(opts.parts(names).subrange(4, 8));
}

/// Then come the keepalive, with the number of probes in square brackets, and the two
/// timeouts.
pub proof fn connect_text_goes_on_with_the_timeouts(opts: ConnectOpts, names: ConnectNames)
    ensures
        joined(opts.parts(names).subrange(8, 12)) == ("tcp-keepalive="@ + decimal(
            opts.tcp_keepalive as nat,
        ) + "s"@) + ("["@ + decimal(opts.tcp_keepalive_probe as nat) + "] "@) + (
        "connect-timeout="@ + decimal(opts.connect_timeout as nat) + "s, "@) + (
        "associate-timeout="@ + decimal(opts.associate_timeout as nat) + "s; "@),
{
    lemma_joined_four(opts.parts(names).subrange(8, 12));
}

/// The last parts show the transport of either side, where there is one, and the
/// balancer; and the four groups in order are the whole text.
pub proof fn connect_text_ends_with_transport_and_balancer(opts: ConnectOpts, names: ConnectNames)
    ensures
        joined(opts.parts(names).skip(12)) == (if opts.transport is Some {
            ("transport="@ + names.accept@ + "||"@) + (""@ + names.connect@ + "; "@)
        } else {
            Seq::empty()
        }) + ("balance="@ + names.strategy@ + ""@),
        joined(opts.parts(names)) == joined(opts.parts(names).take(4)) + joined(
            opts.parts(names).subrange(4, 8),
        ) + joined(opts.parts(names).subrange(8, 12)) + joined(opts.parts(names).skip(12)),
{
    let parts = opts.parts(names);
    let tail = parts.skip(12);
    let none = Seq::<Seq<char>>::empty();
    assert(tail =~= none.push(tail[0]).push(tail[1]).push(tail[2]));
    part_is_added_at_the_end(none, tail[0]);
    part_is_added_at_the_end(none.push(tail[0]), tail[1]);
    part_is_added_at_the_end(none.push(tail[0]).push(tail[1]), tail[2]);
    assert(joined(none) + tail[0] =~= tail[0]);
    if opts.transport is None {
        assert(tail[0] + tail[1] =~= Seq::<char>::empty());
    }
    let four = parts.take(4);
    let eight = parts.subrange(4, 8);
    let twelve = parts.subrange(8, 12);
    assert(parts =~= four + eight + twelve + tail);
    lemma_joined_add(four, eight);
    lemma_joined_add(four + eight, twelve);
    lemma_joined_add(four + eight + twelve, tail);
}

/// The text of four parts.
proof fn lemma_joined_four(parts: Seq<Seq<char>>)
    requires
        parts.len() == 4,
    ensures
        joined(parts) == parts[0] + parts[1] + parts[2] + parts[3],
{
    let none = Seq::<Seq<char>>::empty();
    assert(parts =~= none.push(parts[0]).push(parts[1]).push(parts[2]).push(parts[3]));
    part_is_added_at_the_end(none, parts[0]);
    part_is_added_at_the_end(none.push(parts[0]), parts[1]);
    part_is_added_at_the_end(none.push(parts[0]).push(parts[1]), parts[2]);
    part_is_added_at_the_end(none.push(parts[0]).push(parts[1]).push(parts[2]), parts[3]);
    assert(joined(none) + parts[0] =~= parts[0]);
}

/// In the text of an endpoint each further remote address adds a bar and its own text.
pub proof fn further_address_adds_a_bar_and_its_text(endpoint: Endpoint, n: int)
    requires
        0 <= n < endpoint.extra_raddrs@.len(),
    ensures
        joined(endpoint.extra_parts(0)) == Seq::<char>::empty(),
        joined(endpoint.extra_parts(n + 1)) == joined(endpoint.extra_parts(n)) + ("|"@
            + endpoint.extra_raddrs@[n]@.text() + ""@),
{
    let part = labelled("|"@, Some(endpoint.extra_raddrs@[n]@.text()), ""@);
    assert(endpoint.extra_parts(0) =~= Seq::<Seq<char>>::empty());
    assert(endpoint.extra_parts(n + 1) =~= endpoint.extra_parts(n).push(part));
    part_is_added_at_the_end(endpoint.extra_parts(n), part);
}

/// The text of an endpoint: the local address, the first remote one, the further ones in
/// their place, and the options of both sides.
pub proof fn endpoint_text_is_in_order(endpoint: Endpoint, names: ConnectNames)
    ensures
        joined(endpoint.parts(names)) == (""@ + endpoint.laddr.text@ + " -> ["@) + (""@
            + endpoint.raddr@.text() + ""@) + joined(
            endpoint.extra_parts(endpoint.extra_raddrs@.len() as int),
        ) + (("]; options: "@ + joined(endpoint.bind_opts.parts()) + "; "@) + (""@ + joined(
            endpoint.conn_opts.parts(names),
        ) + ""@)),
{
    let parts = endpoint.parts(names);
    let extra = endpoint.extra_parts(endpoint.extra_raddrs@.len() as int);
    let front = parts.take(2);
    let back = parts.skip(2 + extra.len() as int);
    let none = Seq::<Seq<char>>::empty();
    assert(parts =~= front + extra + back);
    lemma_joined_add(front, extra);
    lemma_joined_add(front + extra, back);
    assert(front =~= none.push(front[0]).push(front[1]));
    part_is_added_at_the_end(none, front[0]);
    part_is_added_at_the_end(none.push(front[0]), front[1]);
    assert(joined(none) + front[0] =~= front[0]);
    assert(back =~= none.push(back[0]).push(back[1]));
    part_is_added_at_the_end(none, back[0]);
    part_is_added_at_the_end(none.push(back[0]), back[1]);
    assert(joined(none) + back[0] =~= back[0]);
}

} // verus!
