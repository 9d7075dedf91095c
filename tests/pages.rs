use sombra::asset::{Asset, Catalog, FoundPlayerRaw, Id, IdName, LocalizedName};
use sombra::client::{after_primary, after_secondary, LookupStep};
use sombra::dom::Page;
use sombra::error::Error;
use sombra::rank::{Group, Role};
use sombra::stat::Stat;
use sombra::{catalog_sections, hero_named, heroes, overbuff, profile, resolve, Battletag, RarityTypes};

const PUBLIC_PAGE: &str = r#"<html><body>
<div class="Profile-masthead" data-lastUpdate="1700000000">
  <img class="Profile-player--portrait" src="https://example.com/portraits/p1.png">
  <h2 class="Profile-player--title">Cyber Demon</h2>
  <img class="Profile-playerSummary--endorsement" src="https://static.example.com/endorsement/3-abc.svg">
  <div class="Profile-playerSummary--rankWrapper mouseKeyboard-view">
    <div class="Profile-playerSummary--roleWrapper">
      <div class="Profile-playerSummary--role"><img src="https://static.example.com/role/tank-f64702b684.svg"></div>
      <img class="Profile-playerSummary--rank" src="https://static.example.com/rank/GoldTier-3-abc.png">
    </div>
  </div>
</div>
<div class="Profile-view mouseKeyboard-view">
  <div class="stats quickPlay-view">
    <select class="Profile-dropdown"><option value="0x02E0000000000001">HeroX</option></select>
    <div class="stats-container option-0x02E0000000000001">
      <div class="stat-item"><p class="name">Time Played</p><p class="value">1:30:00</p></div>
      <div class="stat-item"><p class="name">Win Percentage</p><p class="value">47%</p></div>
      <div class="stat-item"><p class="name">Games Won</p><p class="value">12</p></div>
    </div>
  </div>
</div>
</body></html>"#;

const PRIVATE_PAGE: &str = r#"<html><body>
<div class="Profile-masthead" data-lastUpdate="1700000000">
  <img class="Profile-player--portrait" src="https://example.com/portraits/p1.png">
  <img class="Profile-playerSummary--endorsement" src="https://static.example.com/endorsement/2-abc.svg">
  <p class="Profile-player--privateText">This profile is currently private.</p>
</div>
<div class="Profile-view mouseKeyboard-view">
  <div class="stats quickPlay-view">
    <select class="Profile-dropdown"><option value="1">HeroX</option></select>
  </div>
</div>
</body></html>"#;

const RANKING_PAGE: &str = r#"<html><body>
<div class="flex flex-row justify-end gap-x-4"><span>header</span></div>
<div class="flex flex-row justify-end gap-x-4">
  <div class="flex"><svg>SVG</svg><img alt="Platinum 2" src="x.png"></div>
</div>
</body></html>"#;

fn ranking_page_with_icon(len: usize) -> String {
    RANKING_PAGE.replace("SVG", &"a".repeat(len))
}

#[test]
fn public_profile_is_read_whole() {
    let page = Page::parse(PUBLIC_PAGE).unwrap();
    let p = profile(&page, &Battletag::new("player", 1234)).unwrap();
    assert!(!p.private);
    assert_eq!(p.ranks.len(), 1);
    let r = p.ranks[0];
    assert_eq!((r.group, r.division.inner(), r.role, r.console), (Group::Gold, 3, Role::Tank, false));
    let hero = hero_named(&p.quickplay_pc, "HeroX").unwrap();
    assert_eq!(hero.get("Time Played"), Some(&Stat::Duration(5400)));
    assert_eq!(hero.get("Win Percentage").map(|s| s.format()), Some("47%".to_string()));
    assert!(p.quickplay_console.is_empty());
    assert!(p.competitive_pc.is_empty());
    assert_eq!(p.title.as_deref(), Some("Cyber Demon"));
    assert_eq!(p.endorsement.inner(), 3);
    assert_eq!(p.portrait, "https://example.com/portraits/p1.png");
    assert_eq!(p.last_updated, 1_700_000_000);
    assert_eq!(p.battletag, Battletag::new("player", 1234));
}

#[test]
fn public_profile_keeps_primary_ranks() {
    let page = Page::parse(PUBLIC_PAGE).unwrap();
    let p = profile(&page, &Battletag::new("player", 1234)).unwrap();
    match after_primary(&p) {
        LookupStep::Finished(s) => assert_eq!(s.ranks.len(), 1),
        LookupStep::FetchSecondary(_) => panic!("a ranked public profile needs no fallback"),
    }
}

#[test]
fn private_profile_has_no_statistics_and_falls_back() {
    let page = Page::parse(PRIVATE_PAGE).unwrap();
    let p = profile(&page, &Battletag::new("player", 1234)).unwrap();
    assert!(p.private);
    assert!(p.ranks.is_empty());
    assert!(p.quickplay_console.is_empty() && p.competitive_console.is_empty());
    assert!(p.quickplay_pc.is_empty() && p.competitive_pc.is_empty());
    assert_eq!(p.title, None);
    let summary = match after_primary(&p) {
        LookupStep::FetchSecondary(s) => s,
        LookupStep::Finished(_) => panic!("an unranked private profile needs the fallback"),
    };
    let ranking = Page::parse(RANKING_PAGE).unwrap();
    let secondary = overbuff(&ranking);
    assert_eq!(secondary.as_ref().err(), Some(&Error::Parse));
    let unchanged = after_secondary(summary, secondary);
    assert!(unchanged.ranks.is_empty() && unchanged.private);
}

#[test]
fn fallback_ranks_replace_empty_ones() {
    let page = Page::parse(PRIVATE_PAGE).unwrap();
    let p = profile(&page, &Battletag::new("player", 1234)).unwrap();
    let summary = match after_primary(&p) {
        LookupStep::FetchSecondary(s) => s,
        LookupStep::Finished(_) => panic!("fallback expected"),
    };
    let text = ranking_page_with_icon(1535);
    let ranking = Page::parse(&text).unwrap();
    let merged = after_secondary(summary, overbuff(&ranking));
    assert_eq!(merged.ranks.len(), 1);
    let r = merged.ranks[0];
    assert_eq!((r.group, r.division.inner(), r.role, r.console), (Group::Platinum, 2, Role::Support, false));
}

#[test]
fn missing_required_parts_fail_the_profile() {
    let broken = PUBLIC_PAGE.replace("Profile-playerSummary--endorsement", "something-else");
    let page = Page::parse(&broken).unwrap();
    assert_eq!(profile(&page, &Battletag::new("p", 1)).err(), Some(Error::Parse));
    let bad_rank = PUBLIC_PAGE.replace("GoldTier-3", "GoldTier-7");
    let page = Page::parse(&bad_rank).unwrap();
    assert_eq!(profile(&page, &Battletag::new("p", 1)).err(), Some(Error::Parse));
    let bad_stat = PUBLIC_PAGE.replace("1:30:00", "1:3x:00");
    let page = Page::parse(&bad_stat).unwrap();
    assert_eq!(profile(&page, &Battletag::new("p", 1)).err(), Some(Error::Parse));
}

#[test]
fn secondary_ranks_by_icon_length() {
    for (len, role) in [(761, Role::Tank), (1690, Role::Damage), (1535, Role::Support)] {
        let text = ranking_page_with_icon(len);
        let page = Page::parse(&text).unwrap();
        let o = overbuff(&page).unwrap();
        assert_eq!(o.ranks.len(), 1);
        assert_eq!(o.ranks[0].role, role);
    }
    let page = Page::parse("<div></div>").unwrap();
    assert_eq!(overbuff(&page).err(), Some(Error::Parse));
}

#[test]
fn hero_cards_are_read() {
    let text = r#"<div class="heroCard" data-role="support" hero-name="Ana"><img class="heroCardPortrait" src="https://x.example/ana.png"></div>
<div class="heroCard" data-role="tank" hero-name="Newcomer"><img class="heroCardPortrait" src="https://x.example/new.png"></div>"#;
    let page = Page::parse(text).unwrap();
    let hs = heroes(&page).unwrap();
    assert_eq!(hs.len(), 2);
    assert_eq!(hs[0].name, "Ana");
    assert_eq!(hs[0].role, Role::Support);
    assert_eq!(hs[0].portrait, "https://x.example/ana.png");
    assert!(hs[0].color.is_some());
    assert!(hs[1].color.is_none());
    let bad = text.replace("support", "healer");
    let page = Page::parse(&bad).unwrap();
    assert_eq!(heroes(&page).err(), Some(Error::Parse));
}

#[test]
fn catalog_sections_are_cut_out() {
    let html = "<script>const a = 1;</script><script>const avatars = {\"1\": 1}</script>\
<script>const namecards = {\"2\": 2}</script><script>const titles =  {\"3\": 3} </script>";
    let s = catalog_sections(html).unwrap();
    assert_eq!(s, vec!["{\"1\": 1}".to_string(), "{\"2\": 2}".to_string(), "{\"3\": 3} ".to_string()]);
    assert_eq!(catalog_sections("const a = 1; const b = 2;"), None);
    let with_eq = "const a = 1; const b = {\"u\": \"?x=1\"}; const c = 2; const d = 3;";
    assert_eq!(catalog_sections(with_eq).unwrap()[0], "{\"u\": \"?x".to_string());
}

#[test]
fn search_hit_title_resolves_to_its_names() {
    let mut catalog = Catalog::new();
    catalog.insert(Asset {
        id: Id::parse("0x1a").unwrap(),
        name: LocalizedName::new().with("en_US".to_string(), "Cyber Demon".to_string()),
        typ: IdName { id: None, name: None },
        rarity: RarityTypes::Epic,
        hero: IdName { id: None, name: None },
        event: IdName { id: None, name: None },
        is_new: false,
        is_marked: false,
        icon: None,
    });
    let hit = FoundPlayerRaw {
        battle_tag: "name#1".to_string(),
        last_updated: 0,
        is_public: true,
        frame: None,
        namecard: None,
        portrait: None,
        title: Some(Id::parse("0x1a").unwrap()),
    };
    let found = resolve(&hit, &catalog).unwrap();
    let title = found.title.unwrap();
    assert_eq!(title.entries().len(), 1);
    assert_eq!(title.entries()[0].locale, "en_US");
    assert_eq!(title.entries()[0].text, "Cyber Demon");
}

#[test]
fn console_ranks_read_role_from_xlink() {
    let text = r#"<div class="Profile-masthead" data-lastUpdate="0">
  <img class="Profile-player--portrait" src="https://example.com/p.png">
  <img class="Profile-playerSummary--endorsement" src="https://s.example/endorsement/5-x.svg">
  <div class="Profile-playerSummary--rankWrapper controller-view">
    <div class="Profile-playerSummary--roleWrapper">
      <svg class="Profile-playerSummary--role"><use xlink:href="https://s.example/role/support-0258e13d85.svg#icon"></use></svg>
      <img class="Profile-playerSummary--rank" src="https://s.example/rank/DiamondTier-4-x.png">
    </div>
  </div>
</div>"#;
    let page = Page::parse(text).unwrap();
    let p = profile(&page, &Battletag::new("c", 7)).unwrap();
    assert_eq!(p.ranks.len(), 1);
    let r = p.ranks[0];
    assert_eq!((r.group, r.division.inner(), r.role, r.console), (Group::Diamond, 4, Role::Support, true));
    assert_eq!(p.endorsement.inner(), 5);
    assert_eq!(p.last_updated, 0);
}

#[test]
fn portrait_and_timestamp_are_checked() {
    let unnormalised = PUBLIC_PAGE.replace("https://example.com/portraits/p1.png", "HTTPS://Example.COM");
    let page = Page::parse(&unnormalised).unwrap();
    let p = profile(&page, &Battletag::new("p", 1)).unwrap();
    assert_eq!(p.portrait, "https://example.com/");
    let relative = PUBLIC_PAGE.replace("https://example.com/portraits/p1.png", "portraits/p1.png");
    let page = Page::parse(&relative).unwrap();
    assert_eq!(profile(&page, &Battletag::new("p", 1)).err(), Some(Error::Parse));
    let far = PUBLIC_PAGE.replace("1700000000", "9223372036854775807");
    let page = Page::parse(&far).unwrap();
    assert_eq!(profile(&page, &Battletag::new("p", 1)).err(), Some(Error::Parse));
    let negative = PUBLIC_PAGE.replace("1700000000", "-86400");
    let page = Page::parse(&negative).unwrap();
    assert_eq!(profile(&page, &Battletag::new("p", 1)).unwrap().last_updated, -86400);
}

#[test]
fn two_ranks_for_one_role_fail_the_profile() {
    let role = r#"<div class="Profile-playerSummary--roleWrapper">
      <div class="Profile-playerSummary--role"><img src="https://static.example.com/role/tank-f64702b684.svg"></div>
      <img class="Profile-playerSummary--rank" src="https://static.example.com/rank/GoldTier-3-abc.png">
    </div>"#;
    let doubled = PUBLIC_PAGE.replacen(role, &format!("{role}{role}"), 1);
    assert_ne!(doubled, PUBLIC_PAGE);
    let page = Page::parse(&doubled).unwrap();
    assert_eq!(profile(&page, &Battletag::new("p", 1)).err(), Some(Error::Parse));
    let two_rows = RANKING_PAGE.replace(
        r#"<div class="flex"><svg>SVG</svg><img alt="Platinum 2" src="x.png"></div>"#,
        &format!("{0}{0}", r#"<div class="flex"><svg>SVG</svg><img alt="Platinum 2" src="x.png"></div>"#),
    )
    .replace("SVG", &"a".repeat(761));
    let page = Page::parse(&two_rows).unwrap();
    assert_eq!(overbuff(&page).err(), Some(Error::Parse));
}

#[test]
fn repeated_labels_and_heroes_keep_the_last_value() {
    let text = PUBLIC_PAGE
        .replace(
            r#"<div class="stat-item"><p class="name">Games Won</p><p class="value">12</p></div>"#,
            r#"<div class="stat-item"><p class="name">Games Won</p><p class="value">12</p></div>
      <div class="stat-item"><p class="name">Games Won</p><p class="value">13</p></div>"#,
        )
        .replace(
            r#"<option value="0x02E0000000000001">HeroX</option>"#,
            r#"<option value="0x02E0000000000001">HeroX</option><option value="0x02E0000000000001">HeroX</option>"#,
        );
    let page = Page::parse(&text).unwrap();
    let p = profile(&page, &Battletag::new("p", 1)).unwrap();
    assert_eq!(p.quickplay_pc.len(), 1);
    let hero = hero_named(&p.quickplay_pc, "HeroX").unwrap();
    assert_eq!(hero.stats.len(), 3);
    assert_eq!(hero.get("Games Won").map(|s| s.format()), Some("13".to_string()));
}
