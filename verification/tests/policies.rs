use paper_client::{PaperClientError, PaperPolicy};

fn two_q(a: &str, b: &str) -> PaperPolicy {
    PaperPolicy::TwoQ(a.to_string(), b.to_string())
}

#[test]
fn policy_names() {
    assert_eq!(PaperPolicy::Auto.to_string(), "auto");
    assert_eq!(PaperPolicy::Lfu.to_string(), "lfu");
    assert_eq!(PaperPolicy::Fifo.to_string(), "fifo");
    assert_eq!(PaperPolicy::Clock.to_string(), "clock");
    assert_eq!(PaperPolicy::Lru.to_string(), "lru");
    assert_eq!(PaperPolicy::Mru.to_string(), "mru");
    assert_eq!(two_q("0.25", "0.5").to_string(), "2q-0.25-0.5");
}

#[test]
fn policy_from_text() {
    assert_eq!(PaperPolicy::from_text("auto"), Ok(PaperPolicy::Auto));
    assert_eq!(PaperPolicy::from_text("lfu"), Ok(PaperPolicy::Lfu));
    assert_eq!(PaperPolicy::from_text("fifo"), Ok(PaperPolicy::Fifo));
    assert_eq!(PaperPolicy::from_text("clock"), Ok(PaperPolicy::Clock));
    assert_eq!(PaperPolicy::from_text("lru"), Ok(PaperPolicy::Lru));
    assert_eq!(PaperPolicy::from_text("mru"), Ok(PaperPolicy::Mru));
    assert_eq!(PaperPolicy::from_text("2q-0.25-0.5"), Ok(two_q("0.25", "0.5")));
    assert_eq!("lru".parse::<PaperPolicy>(), Ok(PaperPolicy::Lru));
}

#[test]
fn policy_text_errors() {
    assert_eq!(PaperPolicy::from_text("LRU"), Err(PaperClientError::Internal));
    assert_eq!(PaperPolicy::from_text(""), Err(PaperClientError::Internal));
    assert_eq!(PaperPolicy::from_text("2q-0.25"), Err(PaperClientError::Internal));
    assert_eq!(PaperPolicy::from_text("2q-0.1-0.2-0.3"), Err(PaperClientError::Internal));
    assert_eq!(PaperPolicy::from_text("2q"), Err(PaperClientError::Internal));
    assert_eq!(PaperPolicy::from_text("2q--1-0.5"), Err(PaperClientError::Internal));
}

#[test]
fn policy_text_roundtrip() {
    let all = vec![
        PaperPolicy::Auto,
        PaperPolicy::Lfu,
        PaperPolicy::Fifo,
        PaperPolicy::Clock,
        PaperPolicy::Lru,
        PaperPolicy::Mru,
        two_q("0.25", "0.5"),
        two_q("1", "1"),
    ];
    for p in all {
        assert_eq!(PaperPolicy::from_text(&p.to_string()), Ok(p));
    }
}

#[test]
fn two_q_parameters_must_be_numbers() {
    let chars: Vec<char> = "2q-a-".chars().collect();
    assert_eq!(paper_client::policy::parse_two_q(&chars), Err(PaperClientError::Internal));
    let chars: Vec<char> = "2q--".chars().collect();
    assert_eq!(paper_client::policy::parse_two_q(&chars), Err(PaperClientError::Internal));
    assert_eq!(PaperPolicy::from_text("2q-a-b"), Err(PaperClientError::Internal));
    assert_eq!(PaperPolicy::from_text("2q- 1-2"), Err(PaperClientError::Internal));
    assert_eq!(PaperPolicy::from_text("2q-1 -2"), Err(PaperClientError::Internal));
    assert_eq!(PaperPolicy::from_text("2q-.-1"), Err(PaperClientError::Internal));
    assert_eq!(PaperPolicy::from_text("2q-1..2-1"), Err(PaperClientError::Internal));
    assert_eq!(PaperPolicy::from_text("2q-1e-2"), Err(PaperClientError::Internal));
    assert_eq!(PaperPolicy::from_text("2q-infin-1"), Err(PaperClientError::Internal));
    assert_eq!(PaperPolicy::from_text("2q-0x1-1"), Err(PaperClientError::Internal));
    assert_eq!(PaperPolicy::from_text("2q-+-1"), Err(PaperClientError::Internal));
}

#[test]
fn two_q_parameter_forms() {
    for (a, b) in [
        ("0.25", "0.5"),
        ("1", "2"),
        ("1.", ".5"),
        ("+1", "1e5"),
        ("1E+5", "2.5e3"),
        ("inf", "NaN"),
        ("Infinity", "+INF"),
        ("007", "0.000"),
    ] {
        let text = format!("2q-{a}-{b}");
        assert_eq!(PaperPolicy::from_text(&text), Ok(two_q(a, b)), "{text}");
        assert_eq!(text.parse::<PaperPolicy>(), Ok(two_q(a, b)), "{text}");
    }
}

#[test]
fn float_literal_grammar_matches_f64_parsing() {
    let samples = [
        "0", "1", "12.5", ".5", "5.", ".", "", "+", "-", "+1", "-1", "--1", "+-1", "1e5", "1e",
        "1e+", "1e-5", "1E5", "e5", ".e5", "1.e5", ".5e-3", "1.2.3", "1e5.0", "inf", "INF",
        "Inf", "-inf", "infinity", "InFiNiTy", "infinit", "nan", "NaN", "-nan", "nana", " 1",
        "1 ", "1_000", "0x10", "1f", "١", "+.5", "1e0005",
    ];
    for t in samples {
        let chars: Vec<char> = t.chars().collect();
        let expected = t.parse::<f64>().is_ok();
        assert_eq!(
            paper_client::number::is_float_literal(&chars, 0, chars.len()),
            expected,
            "{t:?}"
        );
    }
}
