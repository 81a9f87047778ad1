use bytehub::endpoint::{
    BindOpts, ConnectNames, ConnectOpts, Endpoint, MixClientConf, MixServerConf, ProxyOpts,
    RemoteAddr, SocketAddr,
};

fn addr(text: &str) -> SocketAddr {
    SocketAddr { text: text.to_string() }
}

fn names() -> ConnectNames {
    ConnectNames {
        accept: "ws".to_string(),
        connect: "tls".to_string(),
        strategy: "roundrobin".to_string(),
    }
}

#[test]
fn remote_address_texts() {
    assert_eq!(RemoteAddr::SocketAddr(addr("[::1]:80")).to_text(), "[::1]:80");
    assert_eq!(RemoteAddr::DomainName("example.com".to_string(), 443).to_text(), "example.com:443");
    let mut out = String::from("to ");
    RemoteAddr::DomainName("h".to_string(), 0).push_text(&mut out);
    assert_eq!(out, "to h:0");
}

#[test]
fn bind_option_texts() {
    assert_eq!(BindOpts::default().to_text(), "ipv6-only=false, accept-mptcp=false");
    let opts = BindOpts {
        ipv6_only: true,
        accept_mptcp: false,
        bind_interface: Some("eth0".to_string()),
    };
    assert_eq!(opts.to_text(), "listen-iface=eth0, ipv6-only=true, accept-mptcp=false");
}

#[test]
fn connect_option_texts() {
    assert_eq!(
        ConnectOpts::default().to_text(&names()),
        "send-mptcp=false; send-proxy=false, send-proxy-version=0, accept-proxy=false, \
         accept-proxy-timeout=0s; tcp-keepalive=0s[0] connect-timeout=0s, \
         associate-timeout=0s; balance=roundrobin"
    );
    let opts = ConnectOpts {
        send_mptcp: true,
        connect_timeout: 5,
        associate_timeout: 30,
        tcp_keepalive: 15,
        tcp_keepalive_probe: 3,
        bind_address: Some(addr("10.0.0.1:0")),
        bind_interface: Some("eth0".to_string()),
        obfs: "client".to_string(),
        proxy_opts: ProxyOpts {
            send_proxy: true,
            accept_proxy: false,
            send_proxy_version: 2,
            accept_proxy_timeout: 7,
        },
        transport: Some((
            MixServerConf { ws: None, tls: None },
            MixClientConf { ws: None, tls: None },
        )),
        ..ConnectOpts::default()
    };
    assert_eq!(
        opts.to_text(&names()),
        "send-iface=eth0, send-through=10.0.0.1:0, obfs=client, send-mptcp=true; \
         send-proxy=true, send-proxy-version=2, accept-proxy=false, accept-proxy-timeout=7s; \
         tcp-keepalive=15s[3] connect-timeout=5s, associate-timeout=30s; transport=ws||tls; \
         balance=roundrobin"
    );
}

#[test]
fn endpoint_texts() {
    let endpoint = Endpoint {
        laddr: addr("0.0.0.0:9000"),
        raddr: RemoteAddr::DomainName("a".to_string(), 1),
        bind_opts: BindOpts::default(),
        conn_opts: ConnectOpts::default(),
        extra_raddrs: vec![
            RemoteAddr::DomainName("b".to_string(), 2),
            RemoteAddr::SocketAddr(addr("10.0.0.3:3")),
        ],
    };
    let conn = endpoint.conn_opts.to_text(&names());
    assert_eq!(
        endpoint.to_text(&names()),
        format!(
            "0.0.0.0:9000 -> [a:1|b:2|10.0.0.3:3]; options: {}; {}",
            "ipv6-only=false, accept-mptcp=false", conn
        )
    );
}

#[test]
fn proxy_protocol_is_enabled_by_either_side() {
    let opts = |send_proxy, accept_proxy| ProxyOpts {
        send_proxy,
        accept_proxy,
        ..ProxyOpts::default()
    };
    assert!(!opts(false, false).enabled());
    assert!(opts(true, false).enabled());
    assert!(opts(false, true).enabled());
    assert!(opts(true, true).enabled());
}
