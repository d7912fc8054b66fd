use noxious::client::client::Client;
use noxious::client::error::{error_from_response, ApiErrorResponse, ClientError};
use noxious::client::proxy::Proxy;
use noxious::proxy::{ProxyConfig, ProxyWithToxics};
use noxious::toxic::{StreamDirection, Toxic, ToxicKind};

#[test]
fn client_adds_protocol() {
    let client = Client::new("blahblah");
    assert_eq!("http://blahblah", client.base_url());
}

#[test]
fn client_keeps_http_url() {
    let client = Client::new("http://127.0.0.1:8474");
    assert_eq!("http://127.0.0.1:8474", client.base_url());
    assert_eq!("http://127.0.0.1:8474/proxies/blah", client.proxy_url("blah"));
    assert_eq!("http://127.0.0.1:8474/reset", client.url("/reset"));
}

#[test]
fn error_bodies() {
    let body = ApiErrorResponse { message: "proxy not found".to_owned(), status_code: 404 };
    assert_eq!(
        ClientError::ApiError(body.clone()),
        error_from_response(404, Some(body.clone()), 200)
    );
    assert_eq!(ClientError::UnexpectedStatusCode(500, 204), error_from_response(500, None, 204));
    assert_eq!("404: proxy not found", body.to_string());
}

fn config(name: &str) -> ProxyConfig {
    ProxyConfig {
        name: name.to_owned(),
        listen: "127.0.0.1:5556".to_owned(),
        upstream: "127.0.0.1:5557".to_owned(),
        enabled: true,
        rand_seed: None,
    }
}

#[test]
fn new_proxy_saves_by_creating() {
    let mut proxy = Proxy::new("http://h", "my_proxy", "127.0.0.1:5556", "127.0.0.1:5557");
    assert_eq!(config("my_proxy"), proxy.config);
    assert!(proxy.is_enabled());
    let target = proxy.save_target();
    assert_eq!("http://h/proxies", target.url);
    assert_eq!(201, target.expected_status);
    proxy.mark_saved();
    let target = proxy.save_target();
    assert_eq!("http://h/proxies/my_proxy", target.url);
    assert_eq!(200, target.expected_status);
}

#[test]
fn renamed_proxy_posts_to_old_name() {
    let mut proxy = Proxy::new("http://h", "my_proxy", "127.0.0.1:5556", "127.0.0.1:5557");
    let url = proxy.rename("updated_proxy");
    assert_eq!("http://h/proxies/my_proxy", url);
    assert_eq!("updated_proxy", proxy.config.name);
    assert_eq!("http://h/proxies/updated_proxy/toxics", proxy.toxics_url());
    assert_eq!("http://h/proxies/updated_proxy/toxics/t1", proxy.toxic_url("t1"));
}

#[test]
fn proxy_from_server_answer() {
    let obj = ProxyWithToxics {
        proxy: config("blah"),
        toxics: vec![Toxic {
            kind: ToxicKind::SlowClose { delay: 1000 },
            name: "t1".to_owned(),
            toxicity_bits: 0.5f32.to_bits(),
            direction: StreamDirection::Upstream,
        }],
    };
    let proxy = Proxy::from_proxy_with_toxics("http://h", obj);
    assert_eq!(config("blah"), proxy.config);
    assert_eq!("http://h/proxies/blah", proxy.proxy_url());
    assert_eq!(200, proxy.save_target().expected_status);
    let toxics = proxy.toxic_list_copy();
    assert_eq!(1, toxics.len());
    assert_eq!(ToxicKind::SlowClose { delay: 1000 }, toxics[0].kind);
}
