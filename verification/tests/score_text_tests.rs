use pcm_core::display::{fmt_score, parse_display_str, parse_display_value};
use pcm_core::score::Score;
use pcm_core::settings::{fmt_prio, parse_prio, parse_quota, quota_display};
use pcm_core::totals::{application_total, checked_total};

#[test]
fn fmt_score_trims_trailing_zeros() {
    assert_eq!(fmt_score(3_050_000), "30.5");
    assert_eq!(fmt_score(1_000_000), "10");
    assert_eq!(fmt_score(0), "0");
    assert_eq!(fmt_score(-150_000), "-1.5");
    assert_eq!(fmt_score(1), "0.00001");
    assert_eq!(fmt_score(123_456_789), "1234.56789");
}

#[test]
fn parse_display_value_scales_by_100000() {
    assert_eq!(parse_display_value("30.5"), Ok(3_050_000));
    assert_eq!(parse_display_value("  10 "), Ok(1_000_000));
    assert_eq!(parse_display_value("-1.5"), Ok(-150_000));
    assert_eq!(parse_display_value("0.00001"), Ok(1));
    assert_eq!(parse_display_value("1.250000"), Ok(125_000));
}

#[test]
fn parse_display_value_rejects_exponents() {
    let e = parse_display_value("1e-6").unwrap_err();
    assert_eq!(e, "'1e-6' 지수 표기는 지원되지 않습니다. 소수 표기를 사용하세요 (예: 0.000001)");
}

#[test]
fn parse_display_value_rejects_non_numbers() {
    assert_eq!(parse_display_value("abc").unwrap_err(), "'abc' 숫자 변환 실패");
}

#[test]
fn parse_display_value_rejects_too_many_decimals() {
    assert!(parse_display_value("0.000001").is_err());
}

#[test]
fn parse_display_value_rejects_out_of_range() {
    assert_eq!(parse_display_value("1000000001").unwrap_err(), "'1000000001' 허용 범위(±10억)를 초과합니다");
    assert_eq!(parse_display_value("1000000000"), Ok(100_000_000_000_000));
}

#[test]
fn parse_display_value_rejects_infinity() {
    assert_eq!(parse_display_value("inf").unwrap_err(), "'inf' 유한한 숫자가 아닙니다");
}

#[test]
fn display_round_trip_law_on_values() {
    for v in [0i64, 1, -1, 3_050_000, -99_999, 100_000_000_000_000, -100_000_000_000_000] {
        assert_eq!(parse_display_value(&fmt_score(v)), Ok(v));
    }
}

#[test]
fn parse_display_str_reads_like_parse_display_value() {
    assert_eq!(parse_display_str("2.5"), Ok(250_000));
    assert_eq!(parse_display_str("x"), parse_display_value("x"));
}

#[test]
fn score_raw_and_from_raw() {
    let s = Score::from_raw(42);
    assert_eq!(s.raw(), 42);
    assert_eq!(Score::from_raw(1).add(Score::from_raw(2)).raw(), 3);
    assert_eq!(Score::from_raw(i64::MAX).checked_add(Score::from_raw(1)), None);
    assert_eq!(Score::sum(&vec![Score(1), Score(2), Score(3)]).raw(), 6);
}

#[test]
fn quota_round_trip_law_on_values() {
    assert_eq!(quota_display(None), "무제한");
    assert_eq!(quota_display(Some(3)), "3");
    assert_eq!(parse_quota("무제한"), Ok(None));
    assert_eq!(parse_quota("3"), Ok(Some(3)));
    for q in [None, Some(1i64), Some(25)] {
        assert_eq!(parse_quota(&quota_display(q)), Ok(q));
    }
}

#[test]
fn parse_quota_rejects_zero_and_text() {
    assert_eq!(
        parse_quota("0").unwrap_err(),
        "정원 '0' 인식 불가 — 1 이상 정수 또는 '무제한'만 허용됩니다"
    );
    assert!(parse_quota("many").is_err());
}

#[test]
fn prio_round_trip_law_on_values() {
    assert_eq!(fmt_prio(true), "예");
    assert_eq!(fmt_prio(false), "아니오");
    for v in [true, false] {
        assert_eq!(parse_prio(fmt_prio(v)), Ok(v));
    }
    assert_eq!(
        parse_prio("네").unwrap_err(),
        "재학생우선 '네' 인식 불가 — '예' 또는 '아니오'만 허용됩니다"
    );
}

#[test]
fn checked_total_adds_in_order() {
    assert_eq!(checked_total(&vec![1, 2, 3]), Some(6));
    assert_eq!(checked_total(&vec![]), Some(0));
    assert_eq!(checked_total(&vec![i64::MAX, 1, -5]), None);
    assert_eq!(checked_total(&vec![i64::MAX, -1, 1]), Some(i64::MAX));
}

#[test]
fn application_total_names_the_applicant_on_overflow() {
    assert_eq!(application_total(&vec![5, 7], "홍길동", "2024-1"), Ok(12));
    assert_eq!(
        application_total(&vec![i64::MAX, 1], "홍길동", "2024-1").unwrap_err(),
        "점수 합산 오버플로우: 지원자 홍길동 (2024-1)"
    );
}
