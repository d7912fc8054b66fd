use noxious::proxy::{default_enabled, ProxyConfig, ProxyValidateError, ProxyWithToxics, Toxics};
use noxious::toxic::{StreamDirection, Toxic, ToxicKind};

fn config(name: &str, listen: &str, upstream: &str) -> ProxyConfig {
    ProxyConfig {
        name: name.to_owned(),
        listen: listen.to_owned(),
        upstream: upstream.to_owned(),
        enabled: true,
        rand_seed: None,
    }
}

#[test]
fn it_works() {
    assert_eq!(2 + 2, 4);
}

#[test]
fn validates_name() {
    let config = config("", "", "");
    assert_eq!(config.validate(), Err(ProxyValidateError::MissingName))
}

#[test]
fn validates_listen() {
    let config = config("name", "", "bogus_addr");
    assert_eq!(config.validate(), Err(ProxyValidateError::MissingListen))
}

#[test]
fn validates_upstream() {
    let config = config("name", "bogus_addr", "");
    assert_eq!(config.validate(), Err(ProxyValidateError::MissingUpstream))
}

#[test]
fn allows_invalid_addresses() {
    let config = config("name", "bogus_addr", "bogus_upstream");
    assert_eq!(config.validate(), Ok(()))
}

#[test]
fn validation_checks_upstream_before_listen() {
    let config = config("name", "", "");
    assert_eq!(config.validate(), Err(ProxyValidateError::MissingUpstream))
}

#[test]
fn proxies_are_enabled_by_default() {
    assert!(default_enabled());
}

#[test]
fn config_clone_keeps_fields() {
    let mut first = config("foo", "127.0.0.1:5431", "127.0.0.1:5432");
    first.rand_seed = Some(3);
    let copy = first.clone();
    assert_eq!(first, copy);
}

fn toxic(name: &str, direction: StreamDirection) -> Toxic {
    Toxic {
        kind: ToxicKind::Noop,
        name: name.to_owned(),
        toxicity_bits: 1.0f32.to_bits(),
        direction,
    }
}

#[test]
fn proxy_with_toxics_lists_upstream_then_downstream() {
    let toxics = Toxics {
        upstream: vec![toxic("u1", StreamDirection::Upstream)],
        downstream: vec![toxic("d1", StreamDirection::Downstream)],
    };
    let p = ProxyWithToxics::from_parts(config("p", "a", "b"), toxics);
    assert_eq!(p.proxy, config("p", "a", "b"));
    let names: Vec<&str> = p.toxics.iter().map(|t| t.get_name()).collect();
    assert_eq!(names, vec!["u1", "d1"]);

    let empty = ProxyWithToxics::from_proxy_config(config("q", "a", "b"));
    assert_eq!(empty.proxy.name, "q");
    assert!(empty.toxics.is_empty());
}
