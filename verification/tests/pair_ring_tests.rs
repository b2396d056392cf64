use cashengine::pair::Pair;
use cashengine::ring::Ring;

#[test]
fn test_as_string() {
    let pair = Pair::new("BTC".to_string(), "ETH".to_string());
    let expected = "BTC-ETH";
    assert_eq!(expected, pair.as_string);
}

#[test]
fn pair_test_to_string() {
    let pair = Pair::new("BTC".to_string(), "ETH".to_string());
    let expected = "{\"Pair\":{\"base\":\"BTC\",\"quote\":\"ETH\",\"asString\":\"BTC-ETH\"}}";
    assert_eq!(expected, pair.to_string());
}

#[test]
fn test_equals() {
    let p = Pair::new("a".to_string(), "b".to_string());
    assert_eq!(Pair::new("a".to_string(), "b".to_string()), p);
    assert_ne!(Pair::new("a".to_string(), "c".to_string()), p);
    assert_ne!(Pair::new("b".to_string(), "b".to_string()), p);
}

#[test]
fn test_constructor() {
    let a_pair = Pair::new("aBase".to_string(), "aQuote".to_string());
    let b_pair = Pair::new("bBase".to_string(), "bQuote".to_string());
    let c_pair = Pair::new("cBase".to_string(), "cQuote".to_string());
    let ring = Ring::new(
        1,
        2,
        3,
        a_pair.clone(),
        b_pair.clone(),
        c_pair.clone(),
        Ring::B,
        Ring::BQ,
        Ring::Q,
    );

    assert_eq!(1, ring.a_market_id);
    assert_eq!(2, ring.b_market_id);
    assert_eq!(3, ring.c_market_id);
    assert_eq!(a_pair, ring.a);
    assert_eq!(b_pair, ring.b);
    assert_eq!(c_pair, ring.c);
}

#[test]
fn test_contains_currency() {
    let a_pair = Pair::new("aBase".to_string(), "aQuote".to_string());
    let b_pair = Pair::new("bBase".to_string(), "bQuote".to_string());
    let c_pair = Pair::new("cBase".to_string(), "cQuote".to_string());
    let ring = Ring::new(1, 2, 3, a_pair, b_pair, c_pair, Ring::B, Ring::BQ, Ring::Q);

    assert!(ring.contains_currency(&"aBase".to_string()));
    assert!(ring.contains_currency(&"bBase".to_string()));
    assert!(ring.contains_currency(&"bBase".to_string()));
    assert!(ring.contains_currency(&"aQuote".to_string()));
    assert!(ring.contains_currency(&"bQuote".to_string()));
    assert!(ring.contains_currency(&"cQuote".to_string()));
    assert!(!ring.contains_currency(&"d".to_string()));
}

#[test]
fn test_contains_pair() {
    let a_pair = Pair::new("aBase".to_string(), "aQuote".to_string());
    let b_pair = Pair::new("bBase".to_string(), "bQuote".to_string());
    let c_pair = Pair::new("cBase".to_string(), "cQuote".to_string());
    let ring = Ring::new(
        1,
        2,
        3,
        a_pair.clone(),
        b_pair.clone(),
        c_pair.clone(),
        Ring::B,
        Ring::BQ,
        Ring::Q,
    );

    assert!(ring.contains_pair(&a_pair.get_swap().get_swap()));
    assert!(ring.contains_pair(&b_pair.get_swap().get_swap()));
    assert!(ring.contains_pair(&c_pair.get_swap().get_swap()));
    assert!(!ring.contains_pair(&Pair::new("aBase".to_string(), "bQuote".to_string())));
    assert!(!ring.contains_pair(&Pair::new("c".to_string(), "d".to_string())));
}

#[test]
fn ring_test_to_string() {
    let a_pair = Pair::new("aBase".to_string(), "aQuote".to_string());
    let b_pair = Pair::new("bBase".to_string(), "bQuote".to_string());
    let c_pair = Pair::new("cBase".to_string(), "cQuote".to_string());
    let ring = Ring::new(1, 2, 3, a_pair, b_pair, c_pair, Ring::B, Ring::BQ, Ring::Q);

    println!("{}", ring.to_string());

    assert_eq!(
        ring.to_string(),
        "{\"Ring\":{\"type\":\"0\", \"aMarketId\":\"1\", \"bMarketId\":\"2\", \"cMarketId\":\"3\", \"a\":{\"Pair\":{\"base\":\"aBase\",\"quote\":\"aQuote\",\"asString\":\"aBase-aQuote\"}}, \"b\":{\"Pair\":{\"base\":\"bBase\",\"quote\":\"bQuote\",\"asString\":\"bBase-bQuote\"}}, \"c\":{\"Pair\":{\"base\":\"cBase\",\"quote\":\"cQuote\",\"asString\":\"cBase-cQuote\"}}, \"asString\":\"0 aBase-aQuote bBase-bQuote cBase-cQuote\"}}"
    );
}

#[test]
fn test_equals_contract() {
    let a_pair1 = Pair::new("aBase".to_string(), "aQuote".to_string());
    let b_pair1 = Pair::new("bBase".to_string(), "bQuote".to_string());
    let c_pair1 = Pair::new("cBase".to_string(), "cQuote".to_string());
    let ring1 = Ring::new(1, 2, 3, a_pair1, b_pair1, c_pair1, Ring::B, Ring::BQ, Ring::Q);

    let a_pair2 = Pair::new("aBase".to_string(), "aQuote".to_string());
    let b_pair2 = Pair::new("bBase".to_string(), "bQuote".to_string());
    let c_pair2 = Pair::new("cBase".to_string(), "cQuote".to_string());
    let ring2 = Ring::new(1, 2, 3, a_pair2, b_pair2, c_pair2, Ring::B, Ring::BQ, Ring::Q);

    assert_eq!(ring1, ring2);
    assert_eq!(ring1.as_string, ring2.as_string);
}

#[test]
fn ring_type_recognizes_the_six_triples() {
    let mk = || {
        (
            Pair::new("a".to_string(), "b".to_string()),
            Pair::new("c".to_string(), "d".to_string()),
            Pair::new("e".to_string(), "f".to_string()),
        )
    };
    let cases = [
        (Ring::B, Ring::Q, Ring::BQ, Ring::TYPE_123),
        (Ring::B, Ring::QB, Ring::Q, Ring::TYPE_142),
        (Ring::Q, Ring::B, Ring::QB, Ring::TYPE_214),
        (Ring::Q, Ring::BQ, Ring::B, Ring::TYPE_231),
        (Ring::BQ, Ring::B, Ring::Q, Ring::TYPE_312),
        (Ring::QB, Ring::Q, Ring::B, Ring::TYPE_421),
    ];
    for (ab, bc, ca, expected) in cases {
        let (a, b, c) = mk();
        let ring = Ring::new(9, 8, 7, a, b, c, ab, bc, ca);
        assert_eq!(ring.ring_type, expected);
    }
    let (a, b, c) = mk();
    let ring = Ring::new(9, 8, 7, a, b, c, Ring::B, Ring::B, Ring::B);
    assert_eq!(ring.ring_type, 0);
}
