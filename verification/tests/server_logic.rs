use noxious::error::ToxicUpdateError;
use noxious::proxy::{ProxyConfig, ProxyValidateError};
use noxious::server::api::{is_browser_user_agent, BODY_LIMIT};
use noxious::server::args::Args;
use noxious::server::error::{store_result_of_reply, ResourceKind, StoreError};
use noxious::server::store::{config_with_seed, validate_all, ProxyRegistry};
use noxious::text::{parse_u16, starts_with, u64_to_decimal};

fn args(port: &str) -> Args {
    Args { host: "127.0.0.1".to_owned(), port: port.to_owned(), config: None, seed: None }
}

#[test]
fn parses_port_num() {
    let input = args("5555");
    let port = input.get_port_number();
    let expected = 5555u16;
    assert_eq!(expected, port);
}

#[test]
fn port_parsing_follows_std() {
    for text in ["0", "5555", "65535", "65536", "555511111", "", "+", "+80", "-1", "8o", " 80", "080"] {
        assert_eq!(text.parse::<u16>().ok(), parse_u16(text), "input {:?}", text);
    }
}

#[test]
fn decimal_text_follows_std() {
    for n in [0u64, 7, 10, 99, 100, 4321, u64::MAX] {
        assert_eq!(n.to_string(), u64_to_decimal(n));
    }
    assert!(starts_with("http://x", "http://"));
    assert!(!starts_with("htt", "http://"));
}

#[test]
fn status_codes() {
    assert_eq!(400, StoreError::InvalidProxyConfig(ProxyValidateError::MissingName).status_code());
    assert_eq!(409, StoreError::AlreadyExists.status_code());
    assert_eq!(404, StoreError::NotFound(ResourceKind::Proxy).status_code());
    assert_eq!(500, StoreError::IoError(std::io::ErrorKind::AddrInUse).status_code());
    assert_eq!(500, StoreError::ProxyClosed.status_code());
    assert_eq!(500, StoreError::Other.status_code());
}

#[test]
fn store_error_conversions() {
    assert_eq!(
        StoreError::NotFound(ResourceKind::Toxic),
        StoreError::from(ToxicUpdateError::NotFound)
    );
    assert_eq!(StoreError::Other, StoreError::from(ToxicUpdateError::Other));
    assert_eq!(StoreError::AlreadyExists, StoreError::from(ToxicUpdateError::AlreadyExists));
    assert_eq!(409, StoreError::from(ToxicUpdateError::AlreadyExists).status_code());
    assert_eq!(
        StoreError::InvalidProxyConfig(ProxyValidateError::MissingListen),
        StoreError::from(ProxyValidateError::MissingListen)
    );
    assert_eq!("toxic", ResourceKind::Toxic.to_string());
    assert_eq!("proxy", ResourceKind::Proxy.to_string());
}

#[test]
fn registry_create_lookup_remove() {
    let mut reg: ProxyRegistry<&'static str> = ProxyRegistry::new();
    assert_eq!(Ok(()), reg.check_can_create("server1"));
    let id1 = reg.insert("server1".to_owned(), "h1");
    let id2 = reg.insert("server2".to_owned(), "h2");
    assert_eq!(0, id1);
    assert_eq!(1, id2);
    assert_eq!(Err(StoreError::AlreadyExists), reg.check_can_create("server1"));
    assert_eq!(Ok(&"h1"), reg.lookup("server1"));
    assert_eq!(Some((1, &"h2")), reg.get("server2"));
    assert_eq!(Err(StoreError::NotFound(ResourceKind::Proxy)), reg.lookup("blah"));
    assert_eq!(Some((0, "h1")), reg.remove("server1"));
    assert_eq!(None, reg.remove("server1"));
    assert!(!reg.proxy_exists("server1"));
    assert!(reg.proxy_exists("server2"));
    assert_eq!(1, reg.entries().len());
}

#[test]
fn registry_relaunch_survives_old_cleanup() {
    let mut reg: ProxyRegistry<u32> = ProxyRegistry::new();
    let old = reg.insert("p".to_owned(), 1);
    let new = reg.insert("p".to_owned(), 2);
    assert_ne!(old, new);
    assert_eq!(1, reg.entries().len());
    assert_eq!(None, reg.remove_if_launch("p", old));
    assert_eq!(Some((new, &2)), reg.get("p"));
    assert_eq!(Some(2), reg.remove_if_launch("p", new));
    assert!(!reg.proxy_exists("p"));
}

fn config(name: &str, listen: &str, upstream: &str) -> ProxyConfig {
    ProxyConfig {
        name: name.to_owned(),
        listen: listen.to_owned(),
        upstream: upstream.to_owned(),
        enabled: true,
        rand_seed: None,
    }
}

#[test]
fn populate_validates_in_order() {
    let ok = vec![config("a", "l", "u"), config("b", "l", "u")];
    assert_eq!(Ok(()), validate_all(&ok));
    let bad = vec![config("a", "l", "u"), config("b", "", "u"), config("", "l", "u")];
    assert_eq!(Err(ProxyValidateError::MissingListen), validate_all(&bad));
}

#[test]
fn seed_is_injected() {
    let c = config_with_seed(config("a", "l", "u"), Some(9));
    assert_eq!(Some(9), c.rand_seed);
    let mut seeded = config("a", "l", "u");
    seeded.rand_seed = Some(3);
    assert_eq!(Some(3), config_with_seed(seeded, None).rand_seed);
}

#[test]
fn browsers_are_told_apart_by_user_agent() {
    assert!(is_browser_user_agent("Mozilla/5.0 (X11; Linux x86_64; rv:90.0) Gecko/20100101 Firefox/90.0"));
    assert!(is_browser_user_agent("Mozilla/"));
    assert!(!is_browser_user_agent("curl/7.68.0"));
    assert!(!is_browser_user_agent("toxiproxy-cli"));
    assert!(!is_browser_user_agent("mozilla/5.0"));
    assert!(!is_browser_user_agent(""));
    assert_eq!(64 * 1024, BODY_LIMIT);
}

#[test]
fn toxic_replies_become_store_results() {
    assert_eq!(Ok(()), store_result_of_reply(Some(Ok(()))));
    assert_eq!(
        Err(StoreError::NotFound(ResourceKind::Toxic)),
        store_result_of_reply(Some(Err(ToxicUpdateError::NotFound)))
    );
    assert_eq!(
        Err(StoreError::AlreadyExists),
        store_result_of_reply(Some(Err(ToxicUpdateError::AlreadyExists)))
    );
    assert_eq!(Err(StoreError::Other), store_result_of_reply(Some(Err(ToxicUpdateError::Other))));
    assert_eq!(Err(StoreError::ProxyClosed), store_result_of_reply(None));
}

#[test]
fn registry_gives_fresh_launch_ids() {
    let mut registry: ProxyRegistry<u8> = ProxyRegistry::new();
    let a = registry.insert("a".to_owned(), 1);
    let b = registry.insert("b".to_owned(), 2);
    let a2 = registry.insert("a".to_owned(), 3);
    assert_eq!((0, 1, 2), (a, b, a2));
    assert_eq!(Some((2, &3)), registry.get("a"));
    assert!(registry.remove("a").is_some());
    let a3 = registry.insert("a".to_owned(), 4);
    assert_eq!(3, a3);
}
