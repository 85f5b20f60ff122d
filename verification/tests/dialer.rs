use proxychains::address::{Endpoint, Ipv4};
use proxychains::proxychains::{
    dynamic, random, sample, select, strict, strict_next_addr, ConfigError, DialAction, DialError,
    DialEvent, Failure, Phase, Proxy, ProxyChains, ProxyChainsConf, ProxyChainsMode,
};

fn endpoint(d: u8, port: u16) -> Endpoint {
    Endpoint { ip: Ipv4 { a: 10, b: 0, c: 0, d }, port }
}

fn origin() -> Endpoint {
    Endpoint { ip: Ipv4 { a: 93, b: 184, c: 216, d: 34 }, port: 80 }
}

fn open_proxy(d: u8, port: u16) -> Proxy {
    Proxy { socket_addr: endpoint(d, port), auth: None }
}

fn locked_proxy(d: u8, port: u16, user: &str, password: &str) -> Proxy {
    Proxy { socket_addr: endpoint(d, port), auth: Some((user.to_string(), password.to_string())) }
}

fn conf(mode: ProxyChainsMode, proxies: Vec<Proxy>, chain_len: usize) -> ProxyChainsConf {
    ProxyChainsConf { mode, proxies, chain_len }
}

#[test]
fn proxies_are_equal_by_endpoint_only() {
    assert_eq!(open_proxy(1, 1080), locked_proxy(1, 1080, "user", "pass"));
    assert_ne!(open_proxy(1, 1080), open_proxy(1, 1081));
    assert_ne!(open_proxy(1, 1080), open_proxy(2, 1080));
}

#[test]
fn clone_keeps_endpoint_and_credentials() {
    let proxy = locked_proxy(1, 1080, "user", "pass");
    let copy = proxy.clone();
    assert_eq!(copy.socket_addr, proxy.socket_addr);
    assert_eq!(copy.auth, Some(("user".to_string(), "pass".to_string())));
}

#[test]
fn empty_proxy_list_is_a_config_error() {
    let empty = conf(ProxyChainsMode::Strict, vec![], 0);
    assert_eq!(empty.validate(), Err(ConfigError::NoProxies));
    assert_eq!(
        ProxyChainsConf::new(ProxyChainsMode::Dynamic, vec![], 3).err(),
        Some(ConfigError::NoProxies)
    );
    assert_eq!(
        ProxyChainsConf::new(ProxyChainsMode::Random, vec![], 0).err(),
        Some(ConfigError::NoProxies)
    );
}

#[test]
fn random_mode_wants_a_chain_length_that_fits() {
    let two = || vec![open_proxy(1, 1080), open_proxy(2, 1080)];
    assert_eq!(
        conf(ProxyChainsMode::Random, two(), 0).validate(),
        Err(ConfigError::BadChainLen)
    );
    assert_eq!(
        conf(ProxyChainsMode::Random, two(), 3).validate(),
        Err(ConfigError::BadChainLen)
    );
    assert_eq!(conf(ProxyChainsMode::Random, two(), 1).validate(), Ok(()));
    assert_eq!(conf(ProxyChainsMode::Random, two(), 2).validate(), Ok(()));
}

#[test]
fn chain_length_is_not_read_outside_random_mode() {
    let one = || vec![open_proxy(1, 1080)];
    assert_eq!(conf(ProxyChainsMode::Strict, one(), 0).validate(), Ok(()));
    assert_eq!(conf(ProxyChainsMode::Dynamic, one(), 9).validate(), Ok(()));
    let built = ProxyChainsConf::new(ProxyChainsMode::Strict, one(), 7).unwrap();
    assert_eq!(built.mode, ProxyChainsMode::Strict);
    assert_eq!(built.chain_len, 7);
    assert_eq!(built.proxies.len(), 1);
}

#[test]
fn is_proxy_ignores_credentials() {
    let conf = conf(
        ProxyChainsMode::Strict,
        vec![open_proxy(1, 1080), locked_proxy(2, 1081, "user", "pass")],
        0,
    );
    assert!(conf.is_proxy(&endpoint(1, 1080)));
    assert!(conf.is_proxy(&endpoint(2, 1081)));
    assert!(!conf.is_proxy(&endpoint(2, 1080)));
    assert!(!conf.is_proxy(&origin()));
}

#[test]
fn next_address_is_the_next_proxy_or_the_target() {
    let target = origin();
    let proxies = vec![open_proxy(1, 1080), open_proxy(2, 1081), open_proxy(3, 1082)];
    assert_eq!(*strict_next_addr(&target, &proxies, 0), endpoint(2, 1081));
    assert_eq!(*strict_next_addr(&target, &proxies, 1), endpoint(3, 1082));
    assert_eq!(*strict_next_addr(&target, &proxies, 2), target);
    let alone = vec![open_proxy(1, 1080)];
    assert_eq!(*strict_next_addr(&target, &alone, 0), target);
}

#[test]
fn strict_with_one_proxy_connects_it_to_the_target() {
    let conf = conf(ProxyChainsMode::Strict, vec![open_proxy(1, 1080)], 0);
    let dial = ProxyChains::connect(origin(), &conf).unwrap();
    assert_eq!(dial.phase(), Phase::Opening);
    assert_eq!(dial.target_addr(), origin());
    assert_eq!(dial.action(), DialAction::OpenTcp { endpoint: endpoint(1, 1080) });
    let dial = dial.step(DialEvent::Succeeded);
    assert_eq!(
        dial.action(),
        DialAction::Handshake { hop: 0, auth: None, next_addr: origin() }
    );
    let dial = dial.step(DialEvent::Succeeded);
    assert_eq!(dial.action(), DialAction::Finish);
    assert_eq!(dial.phase(), Phase::Established);
}

#[test]
fn strict_with_two_proxies_goes_through_both_in_order() {
    let conf = conf(
        ProxyChainsMode::Strict,
        vec![locked_proxy(1, 1080, "first", "one"), locked_proxy(2, 1081, "second", "two")],
        0,
    );
    let dial = strict(origin(), &conf).unwrap();
    assert_eq!(dial.action(), DialAction::OpenTcp { endpoint: endpoint(1, 1080) });
    let dial = dial.step(DialEvent::Succeeded);
    assert_eq!(
        dial.action(),
        DialAction::Handshake {
            hop: 0,
            auth: Some(("first".to_string(), "one".to_string())),
            next_addr: endpoint(2, 1081),
        }
    );
    let dial = dial.step(DialEvent::Succeeded);
    assert_eq!(
        dial.action(),
        DialAction::Handshake {
            hop: 1,
            auth: Some(("second".to_string(), "two".to_string())),
            next_addr: origin(),
        }
    );
    let dial = dial.step(DialEvent::Succeeded);
    assert_eq!(dial.action(), DialAction::Finish);
}

#[test]
fn strict_performs_one_handshake_for_each_proxy() {
    for count in 1..=6u8 {
        let proxies: Vec<Proxy> = (0..count).map(|d| open_proxy(d, 1080 + d as u16)).collect();
        let conf = conf(ProxyChainsMode::Strict, proxies, 0);
        let mut dial = strict(origin(), &conf).unwrap();
        assert_eq!(dial.action(), DialAction::OpenTcp { endpoint: endpoint(0, 1080) });
        dial = dial.step(DialEvent::Succeeded);
        let mut handshakes = 0u8;
        loop {
            match dial.action() {
                DialAction::Handshake { hop, auth, next_addr } => {
                    assert_eq!(hop, handshakes as usize);
                    assert_eq!(auth, None);
                    let expected = if handshakes + 1 < count {
                        endpoint(handshakes + 1, 1080 + (handshakes + 1) as u16)
                    } else {
                        origin()
                    };
                    assert_eq!(next_addr, expected);
                    handshakes += 1;
                    dial = dial.step(DialEvent::Succeeded);
                }
                DialAction::Finish => break,
                other => panic!("unexpected action {:?}", other),
            }
        }
        assert_eq!(handshakes, count);
    }
}

#[test]
fn strict_without_proxies_is_refused() {
    let empty = conf(ProxyChainsMode::Strict, vec![], 0);
    assert_eq!(strict(origin(), &empty).err(), Some(DialError::NoProxies));
    assert_eq!(dynamic(origin(), &empty).err(), Some(DialError::NoProxies));
    assert_eq!(ProxyChains::connect(origin(), &empty).err(), Some(DialError::NoProxies));
}

#[test]
fn failed_open_counts_as_hop_zero() {
    let conf = conf(ProxyChainsMode::Strict, vec![open_proxy(1, 1080), open_proxy(2, 1081)], 0);
    let dial = strict(origin(), &conf).unwrap().step(DialEvent::Failed(Failure::Socket));
    let error = DialError::Hop { index: 0, failure: Failure::Socket };
    assert_eq!(dial.phase(), Phase::Failed { error });
    assert_eq!(dial.action(), DialAction::Abort { error });
}

#[test]
fn failed_hop_is_reported_with_its_index() {
    let conf = conf(
        ProxyChainsMode::Strict,
        vec![open_proxy(1, 1080), open_proxy(2, 1081), open_proxy(3, 1082)],
        0,
    );
    let dial = strict(origin(), &conf)
        .unwrap()
        .step(DialEvent::Succeeded)
        .step(DialEvent::Succeeded)
        .step(DialEvent::Failed(Failure::Auth));
    let error = DialError::Hop { index: 1, failure: Failure::Auth };
    assert_eq!(dial.action(), DialAction::Abort { error });
    let dial = dial.step(DialEvent::Succeeded);
    assert_eq!(dial.action(), DialAction::Abort { error });

    let dial = strict(origin(), &conf)
        .unwrap()
        .step(DialEvent::Succeeded)
        .step(DialEvent::Succeeded)
        .step(DialEvent::Succeeded)
        .step(DialEvent::Failed(Failure::Protocol));
    assert_eq!(
        dial.action(),
        DialAction::Abort { error: DialError::Hop { index: 2, failure: Failure::Protocol } }
    );
}

#[test]
fn established_dial_stays_established() {
    let conf = conf(ProxyChainsMode::Strict, vec![open_proxy(1, 1080)], 0);
    let dial = strict(origin(), &conf)
        .unwrap()
        .step(DialEvent::Succeeded)
        .step(DialEvent::Succeeded)
        .step(DialEvent::Failed(Failure::Socket))
        .step(DialEvent::Succeeded);
    assert_eq!(dial.phase(), Phase::Established);
}

#[test]
fn random_with_too_long_chain_is_refused() {
    let conf = conf(ProxyChainsMode::Random, vec![open_proxy(1, 1080), open_proxy(2, 1081)], 3);
    assert_eq!(random(origin(), &conf).err(), Some(DialError::BadChainLen));
    assert_eq!(ProxyChains::connect(origin(), &conf).err(), Some(DialError::BadChainLen));
}

#[test]
fn random_with_empty_chain_is_refused() {
    let conf = conf(ProxyChainsMode::Random, vec![open_proxy(1, 1080), open_proxy(2, 1081)], 0);
    assert_eq!(random(origin(), &conf).err(), Some(DialError::BadChainLen));
    assert_eq!(ProxyChains::connect(origin(), &conf).err(), Some(DialError::BadChainLen));
}

#[test]
fn sample_draws_distinct_positions() {
    for _ in 0..200 {
        let picks = sample(10, 4);
        assert_eq!(picks.len(), 4);
        for (i, pick) in picks.iter().enumerate() {
            assert!(*pick < 10);
            assert!(!picks[..i].contains(pick));
        }
    }
    let mut all = sample(5, 5);
    all.sort();
    assert_eq!(all, vec![0, 1, 2, 3, 4]);
    let mut capped = sample(3, 8);
    capped.sort();
    assert_eq!(capped, vec![0, 1, 2]);
    assert_eq!(sample(4, 0), Vec::<usize>::new());
    assert_eq!(sample(0, 2), Vec::<usize>::new());
}

#[test]
fn select_takes_proxies_in_the_order_of_the_picks() {
    let proxies = vec![
        locked_proxy(1, 1080, "a", "1"),
        open_proxy(2, 1081),
        locked_proxy(3, 1082, "c", "3"),
    ];
    let chain = select(&proxies, &vec![2, 0]);
    assert_eq!(chain.len(), 2);
    assert_eq!(chain[0].socket_addr, endpoint(3, 1082));
    assert_eq!(chain[0].auth, Some(("c".to_string(), "3".to_string())));
    assert_eq!(chain[1].socket_addr, endpoint(1, 1080));
    assert_eq!(chain[1].auth, Some(("a".to_string(), "1".to_string())));
    assert_eq!(select(&proxies, &vec![]).len(), 0);
}

#[test]
fn random_chain_has_the_configured_length_and_no_proxy_twice() {
    let proxies = vec![
        open_proxy(1, 1080),
        open_proxy(2, 1081),
        open_proxy(3, 1082),
        open_proxy(4, 1083),
    ];
    let conf = conf(ProxyChainsMode::Random, proxies, 2);
    let mut seen = [0usize; 4];
    for _ in 0..1000 {
        let dial = ProxyChains::connect(origin(), &conf).unwrap();
        let chain = dial.chain();
        assert_eq!(chain.len(), 2);
        assert_ne!(chain[0].socket_addr, chain[1].socket_addr);
        for proxy in chain.iter() {
            let at = conf.proxies.iter().position(|known| known == proxy);
            seen[at.expect("drawn from the configured list")] += 1;
        }
        assert_eq!(dial.action(), DialAction::OpenTcp { endpoint: chain[0].socket_addr });
    }
    assert_eq!(seen.iter().sum::<usize>(), 2000);
    for count in seen {
        assert!(count > 350 && count < 650, "a proxy was drawn {} times in 1000", count);
    }
}

#[test]
fn random_chain_is_dialed_like_a_strict_one() {
    let proxies = vec![open_proxy(1, 1080), open_proxy(2, 1081), open_proxy(3, 1082)];
    let conf = conf(ProxyChainsMode::Random, proxies, 3);
    let dial = random(origin(), &conf).unwrap();
    let chain: Vec<Endpoint> = dial.chain().iter().map(|proxy| proxy.socket_addr).collect();
    let dial = dial.step(DialEvent::Succeeded);
    assert_eq!(
        dial.action(),
        DialAction::Handshake { hop: 0, auth: None, next_addr: chain[1] }
    );
    let dial = dial.step(DialEvent::Succeeded);
    assert_eq!(
        dial.action(),
        DialAction::Handshake { hop: 1, auth: None, next_addr: chain[2] }
    );
    let dial = dial.step(DialEvent::Succeeded);
    assert_eq!(
        dial.action(),
        DialAction::Handshake { hop: 2, auth: None, next_addr: origin() }
    );
}

#[test]
fn dynamic_chains_the_proxies_that_answer() {
    let conf = conf(
        ProxyChainsMode::Dynamic,
        vec![
            open_proxy(1, 1080),
            open_proxy(9, 9999),
            locked_proxy(2, 1081, "user", "pass"),
        ],
        0,
    );
    let dial = ProxyChains::connect(origin(), &conf).unwrap();
    assert_eq!(dial.phase(), Phase::Probing { next: 0 });
    assert_eq!(
        dial.action(),
        DialAction::Probe { index: 0, endpoint: endpoint(1, 1080), auth: None }
    );
    let dial = dial.step(DialEvent::Succeeded);
    assert_eq!(
        dial.action(),
        DialAction::Probe { index: 1, endpoint: endpoint(9, 9999), auth: None }
    );
    let dial = dial.step(DialEvent::Failed(Failure::Socket));
    assert_eq!(
        dial.action(),
        DialAction::Probe {
            index: 2,
            endpoint: endpoint(2, 1081),
            auth: Some(("user".to_string(), "pass".to_string())),
        }
    );
    let dial = dial.step(DialEvent::Succeeded);
    assert_eq!(dial.phase(), Phase::Opening);
    let chain: Vec<Endpoint> = dial.chain().iter().map(|proxy| proxy.socket_addr).collect();
    assert_eq!(chain, vec![endpoint(1, 1080), endpoint(2, 1081)]);
    assert_eq!(dial.action(), DialAction::OpenTcp { endpoint: endpoint(1, 1080) });
    let dial = dial.step(DialEvent::Succeeded);
    assert_eq!(
        dial.action(),
        DialAction::Handshake { hop: 0, auth: None, next_addr: endpoint(2, 1081) }
    );
    let dial = dial.step(DialEvent::Succeeded);
    assert_eq!(
        dial.action(),
        DialAction::Handshake {
            hop: 1,
            auth: Some(("user".to_string(), "pass".to_string())),
            next_addr: origin(),
        }
    );
    let dial = dial.step(DialEvent::Succeeded);
    assert_eq!(dial.action(), DialAction::Finish);
}

#[test]
fn dynamic_without_live_proxies_fails() {
    let conf = conf(ProxyChainsMode::Dynamic, vec![open_proxy(1, 1080), open_proxy(2, 1081)], 0);
    let dial = dynamic(origin(), &conf)
        .unwrap()
        .step(DialEvent::Failed(Failure::Socket))
        .step(DialEvent::Failed(Failure::Auth));
    assert_eq!(dial.phase(), Phase::Failed { error: DialError::NoLiveProxies });
    assert_eq!(dial.action(), DialAction::Abort { error: DialError::NoLiveProxies });
}

#[test]
fn dynamic_with_one_survivor_connects_it_to_the_target() {
    let conf = conf(ProxyChainsMode::Dynamic, vec![open_proxy(1, 1080), open_proxy(2, 1081)], 0);
    let dial = dynamic(origin(), &conf)
        .unwrap()
        .step(DialEvent::Failed(Failure::Protocol))
        .step(DialEvent::Succeeded);
    assert_eq!(dial.action(), DialAction::OpenTcp { endpoint: endpoint(2, 1081) });
    let dial = dial.step(DialEvent::Succeeded);
    assert_eq!(
        dial.action(),
        DialAction::Handshake { hop: 0, auth: None, next_addr: origin() }
    );
}
