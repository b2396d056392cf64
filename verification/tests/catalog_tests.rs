use cashengine::htx_market::{HtxMarket, HtxMarkets};
use cashengine::htx_symbol::{HtxSymbol, HtxSymbols};

fn symbol(name: &str, state: &str) -> HtxSymbol {
    HtxSymbol {
        symbol: Some(name.to_string()),
        state: Some(state.to_string()),
        visible: Some(true),
        delist: Some(false),
        country_disabled: Some(false),
        trade_enabled: Some(true),
        cancel_enabled: Some(true),
    }
}

fn catalog(data: Vec<HtxSymbol>) -> HtxSymbols {
    HtxSymbols {
        status: "ok".to_string(),
        data,
        timestamp: "1700000000".to_string(),
        full: 1,
        err_code: None,
        err_msg: None,
    }
}

#[test]
fn filter_pipeline_keeps_only_routable_instruments() {
    let mut suspended = symbol("suspusdt", "suspend");
    suspended.trade_enabled = Some(true);
    let mut untradable = symbol("noneusdt", "online");
    untradable.trade_enabled = Some(false);
    let mut uncancellable = symbol("lockusdt", "online");
    uncancellable.cancel_enabled = Some(false);
    let mut hidden = symbol("hideusdt", "online");
    hidden.visible = Some(false);
    let mut delisting = symbol("goneusdt", "online");
    delisting.delist = Some(true);
    let mut blocked = symbol("farusdt", "online");
    blocked.country_disabled = Some(true);
    let mut unknown = symbol("nilusdt", "online");
    unknown.visible = None;

    let symbols = catalog(vec![
        symbol("btcusdt", "online"),
        suspended,
        untradable,
        uncancellable,
        hidden,
        delisting,
        blocked,
        unknown,
        symbol("ethusdt", "online"),
    ]);
    let filtered = symbols
        .with_online_symbols()
        .with_trade_enabled_symbols()
        .with_cancel_enabled_symbols()
        .with_visible_symbols()
        .with_listed_symbols()
        .with_country_enabled();
    assert_eq!(filtered.len(), 2);
    let names = filtered.subscription_names(0, 2).expect("names");
    assert_eq!(names, vec!["btcusdt".to_string(), "ethusdt".to_string()]);
}

#[test]
fn catalog_error_combines_code_and_message() {
    let mut c = catalog(vec![]);
    assert!(c.get_error().is_ok());

    c.err_code = Some("not-found".to_string());
    assert_eq!(c.get_error().unwrap_err(), "not-found");

    c.err_code = None;
    c.err_msg = Some("no data".to_string());
    assert_eq!(c.get_error().unwrap_err(), "no data");

    c.err_code = Some("not-found".to_string());
    assert_eq!(c.get_error().unwrap_err(), "not-found: no data");

    c.err_code = Some("".to_string());
    assert_eq!(c.get_error().unwrap_err(), "no data");
}

#[test]
fn subscription_names_fail_on_a_nameless_instrument() {
    let mut nameless = symbol("ignored", "online");
    nameless.symbol = None;
    let symbols = catalog(vec![symbol("btcusdt", "online"), nameless]);
    assert!(symbols.subscription_names(0, 2).is_none());
    assert_eq!(
        symbols.subscription_names(0, 1).expect("names"),
        vec!["btcusdt".to_string()]
    );
}

fn market(name: &str, state: &str) -> HtxMarket {
    HtxMarket {
        symbol: Some(name.to_string()),
        base_currency: Some("btc".to_string()),
        quote_currency: Some("usdt".to_string()),
        state: Some(state.to_string()),
    }
}

#[test]
fn market_catalog_keeps_only_online_markets() {
    let markets = HtxMarkets {
        status: Some("ok".to_string()),
        data: vec![
            market("btcusdt", "online"),
            market("oldusdt", "offline"),
            market("ethusdt", "online"),
        ],
        timestamp: "1700000000".to_string(),
        full: 1,
        err_code: None,
        err_msg: None,
    };
    let online = markets.with_online_markets();
    assert_eq!(online.len(), 2);
    assert!(markets.get_error().is_ok());

    let mut broken = markets.with_online_markets();
    broken.err_code = Some("base-symbol-error".to_string());
    broken.err_msg = Some("symbol not found".to_string());
    assert_eq!(
        broken.get_error().unwrap_err(),
        "base-symbol-error: symbol not found"
    );
}
