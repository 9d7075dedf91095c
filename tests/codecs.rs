use sombra::checks::{parse_i64, parse_timestamp, url_from_text};
use sombra::btag::Battletag;
use sombra::rank::{
    endorsement_from_url, rank_from_urls, secondary_rank, url_file, url_file_name, Group, Limited,
    Role,
};
use sombra::stat::{Decimal, Stat};
use sombra::Id;

fn decimal(s: &str) -> Decimal {
    Decimal::parse(s).unwrap()
}

#[test]
fn battletag_formats_both_styles() {
    let b = Battletag::new("gazanie", 2915);
    assert_eq!(b.format(false), "gazanie#2915");
    assert_eq!(b.format(true), "gazanie-2915");
    assert_eq!(b.to_string(), "gazanie#2915");
}

#[test]
fn battletag_round_trips() {
    for (name, number) in [("Tricky", 12470u64), ("a", 0), ("Zusor", u64::MAX)] {
        let b = Battletag::new(name, number);
        assert_eq!(Battletag::parse(&b.format(false)), Some(b.clone()));
        assert_eq!(Battletag::parse(&b.format(true)), Some(b));
    }
}

#[test]
fn battletag_splits_on_first_hash_then_dash() {
    assert_eq!(Battletag::parse("a-b#12"), Some(Battletag::new("a-b", 12)));
    assert_eq!(Battletag::parse("ab-12"), Some(Battletag::new("ab", 12)));
    assert_eq!(Battletag::parse("ab12"), None);
    assert_eq!(Battletag::parse("ab#x1"), None);
    assert_eq!(Battletag::parse("ab#"), None);
    assert_eq!(Battletag::parse("ab#18446744073709551616"), None);
}

#[test]
fn battletag_try_from_string_hands_back_bad_text() {
    assert_eq!(Battletag::try_from_string("x#1".to_string()), Ok(Battletag::new("x", 1)));
    assert_eq!(Battletag::try_from_string("nope".to_string()), Err("nope".to_string()));
}

#[test]
fn stat_formats_canonically() {
    assert_eq!(Stat::Number(decimal("12.5")).format(), "12.5");
    assert_eq!(Stat::Duration(3725).format(), "1:02:05");
    assert_eq!(Stat::Duration(65).format(), "1:05");
    assert_eq!(Stat::Duration(5).format(), "0:05");
    assert_eq!(Stat::Percentage(decimal("47.0")).format(), "47%");
    assert_eq!(Stat::Number(decimal("-0.050")).format(), "-0.05");
}

#[test]
fn stat_round_trips() {
    let values = [
        Stat::Number(decimal("12.5")),
        Stat::Duration(3725),
        Stat::Duration(0),
        Stat::Percentage(decimal("47")),
        Stat::Number(decimal("-3")),
    ];
    for v in values {
        assert_eq!(Stat::parse(&v.format()), Some(v));
    }
}

#[test]
fn stat_parse_dispatches_in_order() {
    assert_eq!(Stat::parse("47%"), Some(Stat::Percentage(decimal("47"))));
    assert_eq!(Stat::parse("1:30:00"), Some(Stat::Duration(5400)));
    assert_eq!(Stat::parse("12:07"), Some(Stat::Duration(727)));
    assert_eq!(Stat::parse("1,5"), None);
    assert_eq!(Stat::parse("1:2:3:4"), None);
    assert_eq!(Stat::parse("a:05"), None);
    assert_eq!(Stat::parse("18446744073709551615:00"), None);
    assert_eq!(Stat::parse("7"), Some(Stat::Number(Decimal::from_u64(7))));
}

#[test]
fn decimal_normalises() {
    assert_eq!(decimal("12.50"), decimal("12.5"));
    assert_eq!(decimal("-0.0"), decimal("0"));
    assert_eq!(Decimal::parse("1."), None);
    assert_eq!(Decimal::parse(".5"), None);
    assert_eq!(Decimal::from_parts(false, 12, &vec![5]), Some(decimal("12.5")));
    assert_eq!(Decimal::from_parts(false, 12, &vec![5, 0]), None);
    assert_eq!(Decimal::from_parts(true, 0, &vec![]), None);
}

#[test]
fn asset_id_round_trips() {
    for n in [0u64, 0x1a, 0x02E00000FFFFFFFF, u64::MAX] {
        let id = Id(n);
        assert_eq!(Id::parse(&id.format()), Some(id));
    }
    assert_eq!(Id(0x1a).format(), "0x1a");
}

#[test]
fn asset_id_parses_with_or_without_prefix() {
    assert_eq!(Id::parse("0x1A"), Some(Id(26)));
    assert_eq!(Id::parse("ff"), Some(Id(255)));
    assert_eq!(Id::parse("0x"), None);
    assert_eq!(Id::parse("0xg1"), None);
    assert_eq!(Id::parse("0x10000000000000000"), None);
}

#[test]
fn bounded_values_are_refused_not_clamped() {
    assert_eq!(Limited::parse("0"), None);
    assert_eq!(Limited::parse("6"), None);
    assert_eq!(Limited::parse("5").map(|l| l.inner()), Some(5));
    assert_eq!(Limited::parse("1").map(|l| l.inner()), Some(1));
    assert_eq!(Limited::parse("15"), None);
    assert_eq!(Limited::try_from_u64(0), None);
    assert_eq!(Limited::try_from_u64(6), None);
    assert_eq!(Limited::try_from_u64(3).map(|l| l.inner()), Some(3));
}

#[test]
fn url_file_takes_last_segment() {
    assert_eq!(url_file("https://a.b/c/GoldTier-3.png"), "GoldTier-3.png");
    assert_eq!(url_file("plain"), "plain");
    assert_eq!(url_file_name("https://a.b/c/d.svg"), Some("d.svg"));
    assert_eq!(url_file_name("plain"), None);
}

#[test]
fn rank_from_icon_urls() {
    let r = rank_from_urls(
        "https://static/rank/GoldTier-3-abc.png",
        "https://static/role/tank-f64702b684.svg#icon",
        false,
    )
    .unwrap();
    assert_eq!((r.group, r.division.inner(), r.role, r.console), (Group::Gold, 3, Role::Tank, false));
    let r = rank_from_urls("x/GrandmasterTier-1.png", "x/offense-1.svg", true).unwrap();
    assert_eq!((r.group, r.division.inner(), r.role, r.console), (Group::Grandmaster, 1, Role::Damage, true));
    assert!(rank_from_urls("x/GoldTier-6.png", "x/tank.svg", false).is_none());
    assert!(rank_from_urls("x/GoldTier-0.png", "x/tank.svg", false).is_none());
    assert!(rank_from_urls("x/IronTier-3.png", "x/tank.svg", false).is_none());
    assert!(rank_from_urls("x/GoldTier-3.png", "x/healer.svg", false).is_none());
    assert!(rank_from_urls("x/GoldTier.png", "x/tank.svg", false).is_none());
}

#[test]
fn endorsement_from_icon_url() {
    assert_eq!(endorsement_from_url("https://s/endorsement/4-abc.svg").map(|e| e.inner()), Some(4));
    assert!(endorsement_from_url("https://s/endorsement/0-abc.svg").is_none());
    assert!(endorsement_from_url("https://s/endorsement/6-abc.svg").is_none());
    assert!(endorsement_from_url("https://s/endorsement/").is_none());
}

#[test]
fn secondary_rank_by_icon_length() {
    let r = secondary_rank(761, "Gold 3").unwrap();
    assert_eq!((r.group, r.division.inner(), r.role, r.console), (Group::Gold, 3, Role::Tank, false));
    assert_eq!(secondary_rank(1690, "Master 1").unwrap().role, Role::Damage);
    assert_eq!(secondary_rank(1535, "Bronze 5").unwrap().role, Role::Support);
    assert!(secondary_rank(762, "Gold 3").is_none());
    assert!(secondary_rank(761, "Gold 6").is_none());
    assert!(secondary_rank(761, "Gold 0").is_none());
    assert!(secondary_rank(761, "Gold3").is_none());
    assert!(secondary_rank(761, "Golden 3").is_none());
}

#[test]
fn timestamps_and_urls_are_validated() {
    assert_eq!(parse_i64("-9223372036854775808"), Some(i64::MIN));
    assert_eq!(parse_i64("+42"), Some(42));
    assert_eq!(parse_i64("9223372036854775808"), None);
    assert_eq!(parse_i64("-"), None);
    assert_eq!(parse_timestamp("1700000000"), Some(1_700_000_000));
    assert_eq!(parse_timestamp("9223372036854775807"), None);
    assert_eq!(parse_timestamp("-8334601228800"), Some(-8334601228800));
    assert_eq!(parse_timestamp("-8334601228801"), None);
    assert_eq!(parse_timestamp("8210266876799"), Some(8210266876799));
    assert_eq!(parse_timestamp("8210266876800"), None);
    assert_eq!(url_from_text("HTTPS://Example.COM"), Some("https://example.com/".to_string()));
    assert_eq!(url_from_text("not a url"), None);
}

#[test]
fn unsigned_fields_accept_a_leading_plus() {
    assert_eq!(Battletag::parse("a#+5"), Some(Battletag::new("a", 5)));
    assert_eq!(Battletag::parse("a#++5"), None);
    assert_eq!(Battletag::parse("a#+"), None);
    assert_eq!(Id::parse("0x+1a"), Some(Id(26)));
    assert_eq!(Id::parse("+ff"), Some(Id(255)));
    assert_eq!(Stat::parse("+1:05"), Some(Stat::Duration(65)));
    assert_eq!(Stat::parse("1:+05"), Some(Stat::Duration(65)));
    assert_eq!(Stat::parse("+12.5"), Some(Stat::Number(decimal("12.5"))));
    assert_eq!(Stat::parse("-+12.5"), None);
    assert_eq!(Stat::parse("+47%"), Some(Stat::Percentage(decimal("47"))));
}
