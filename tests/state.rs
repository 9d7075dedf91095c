use sombra::asset::{Asset, Catalog, FoundPlayerRaw, Id, IdName, LocalizedName};
use sombra::cache::TimedCache;
use sombra::error::{ApiError, Error};
use sombra::hero::{hero_color, Color};
use sombra::{resolve, resolve_all, Battletag, RarityTypes};

fn asset(id: u64, name: &str, icon: Option<&str>) -> Asset {
    Asset {
        id: Id(id),
        name: LocalizedName::new().with("en_US".to_string(), name.to_string()),
        typ: IdName { id: None, name: None },
        rarity: RarityTypes::Common,
        hero: IdName { id: None, name: None },
        event: IdName { id: None, name: None },
        is_new: false,
        is_marked: false,
        icon: icon.map(|s| s.to_string()),
    }
}

fn raw(title: Option<u64>, portrait: Option<u64>) -> FoundPlayerRaw {
    FoundPlayerRaw {
        battle_tag: "player#1234".to_string(),
        last_updated: 1_700_000_000,
        is_public: true,
        frame: None,
        namecard: None,
        portrait: portrait.map(Id),
        title: title.map(Id),
    }
}

#[test]
fn cache_returns_fresh_values_only() {
    let mut c: TimedCache<u32> = TimedCache::with_lifespan(10);
    c.set("k".to_string(), 7, 100);
    assert_eq!(c.get("k", 100), Some(&7));
    assert_eq!(c.get("k", 109), Some(&7));
    assert_eq!(c.get("k", 110), None);
    assert_eq!(c.get("other", 100), None);
    assert!(!c.remove_if_expired("k", 105));
    assert!(c.remove_if_expired("k", 111));
    assert_eq!(c.get("k", 100), None);
}

#[test]
fn cache_overwrites_last_write_wins() {
    let mut c: TimedCache<&str> = TimedCache::with_lifespan(u64::MAX);
    c.set("k".to_string(), "a", 0);
    c.set("k".to_string(), "b", 5);
    assert_eq!(c.get("k", u64::MAX - 1), Some(&"b"));
    let mut z: TimedCache<u8> = TimedCache::with_lifespan(0);
    z.set("k".to_string(), 1, 0);
    assert_eq!(z.get("k", 0), None);
}

#[test]
fn resolution_substitutes_catalog_data() {
    let mut catalog = Catalog::new();
    catalog.insert(asset(0x1a, "Cyber Demon", None));
    catalog.insert(asset(0x2b, "Portrait", Some("https://x/p.png")));
    let found = resolve(&raw(Some(0x1a), Some(0x2b)), &catalog).unwrap();
    assert_eq!(found.battle_tag, Battletag::new("player", 1234));
    let title = found.title.unwrap();
    assert_eq!(title.get("en_US").map(|s| s.as_str()), Some("Cyber Demon"));
    assert_eq!(found.portrait.as_deref(), Some("https://x/p.png"));
    assert_eq!(found.namecard, None);
}

#[test]
fn resolution_is_repeatable_and_tolerates_missing_ids() {
    let mut catalog = Catalog::new();
    catalog.insert(asset(0x1a, "Cyber Demon", None));
    let a = resolve(&raw(Some(0x99), Some(0x1a)), &catalog).unwrap();
    let b = resolve(&raw(Some(0x99), Some(0x1a)), &catalog).unwrap();
    assert!(a.title.is_none() && b.title.is_none());
    assert_eq!(a.portrait, b.portrait);
    assert_eq!(a.portrait, None);
}

#[test]
fn resolution_rejects_bad_battletags() {
    let catalog = Catalog::new();
    let mut r = raw(None, None);
    r.battle_tag = "nobody".to_string();
    assert_eq!(resolve(&r, &catalog).err(), Some(Error::Battletag("nobody".to_string())));
    let all = resolve_all(&vec![raw(None, None), r], &catalog);
    assert!(all.is_err());
    assert_eq!(resolve_all(&vec![raw(None, None)], &catalog).map(|v| v.len()).ok(), Some(1));
}

#[test]
fn status_codes_map_to_errors() {
    assert_eq!(Error::result_from_status(200, None), Ok(()));
    assert_eq!(Error::result_from_status(404, None), Err(Error::Http(404)));
    assert_eq!(Error::result_from_status(204, Some(204)), Ok(()));
    assert_eq!(ApiError::from_error(&Error::Http(404)), ApiError::NotFound);
    assert_eq!(ApiError::from_error(&Error::Http(500)), ApiError::Internal);
    assert_eq!(ApiError::from_error(&Error::Parse), ApiError::Internal);
    assert_eq!(ApiError::from_error(&Error::Deserializer), ApiError::Internal);
}

#[test]
fn hero_colors_come_from_the_table() {
    assert_eq!(hero_color("D.Va"), Some(Color { r: 0xfc, g: 0x79, b: 0xbd }));
    assert_eq!(hero_color("Pharah"), Some(Color { r: 0x58, g: 0xbc, b: 0xff }));
    assert_eq!(hero_color("Lúcio"), Some(Color { r: 0x67, g: 0xc5, b: 0x19 }));
    assert_eq!(hero_color("Nobody"), None);
    assert_eq!(Color::parse("#0a0B0c"), Some(Color { r: 10, g: 11, b: 12 }));
    assert_eq!(Color::parse("#0a0b"), None);
    assert_eq!(Color { r: 1, g: 2, b: 255 }.to_hex(), "0102ff");
}

#[test]
fn localized_names_keep_one_text_per_locale() {
    let n = LocalizedName::new()
        .with("en_US".to_string(), "Old".to_string())
        .with("de_DE".to_string(), "Alt".to_string())
        .with("en_US".to_string(), "New".to_string());
    assert_eq!(n.entries().len(), 2);
    assert_eq!(n.entries()[0].locale, "en_US");
    assert_eq!(n.get("en_US").map(|s| s.as_str()), Some("New"));
    assert_eq!(n.get("de_DE").map(|s| s.as_str()), Some("Alt"));
    assert_eq!(n.get("fr_FR"), None);
}

#[test]
fn later_catalog_sections_replace_earlier_assets() {
    let mut catalog = Catalog::new();
    catalog.insert_all(vec![asset(1, "a", None), asset(2, "b", None)]);
    catalog.insert_all(vec![asset(2, "c", Some("https://x/c.png")), asset(3, "d", None)]);
    assert_eq!(catalog.len(), 3);
    let two = catalog.get(Id(2)).unwrap();
    assert_eq!(two.name.get("en_US").map(|s| s.as_str()), Some("c"));
    assert_eq!(two.icon.as_deref(), Some("https://x/c.png"));
    assert!(catalog.get(Id(4)).is_none());
}

#[test]
fn colors_round_trip_through_their_text() {
    for c in [Color { r: 0, g: 0, b: 0 }, Color { r: 1, g: 2, b: 255 }, Color { r: 0xfc, g: 0x79, b: 0xbd }] {
        assert_eq!(Color::parse(&c.to_hex()), Some(c));
        assert_eq!(Color::parse(&format!("#{}", c.to_hex())), Some(c));
    }
    assert_eq!(Color::parse("+f+f+f"), Some(Color { r: 15, g: 15, b: 15 }));
    assert_eq!(Color::parse("#+g0000"), None);
}
