use drova_launcher::LauncherError;
use drova_launcher::catalog::build_cards;
use drova_launcher::catalog::build_desktop_set;
use drova_launcher::catalog::build_product_map;
use drova_launcher::catalog::card_picture_of;
use drova_launcher::catalog::is_desktop_product;
use drova_launcher::catalog::is_station_product_ready;
use drova_launcher::catalog::select_ready;
use drova_launcher::records::ProductMeta;
use drova_launcher::records::StationProduct;

const DESKTOP_PRODUCT_ID: &str = "9fd0eb43-b2bb-4ce3-93b8-9df63f209098";

fn sample_meta(product_id: &str) -> ProductMeta {
    ProductMeta {
        product_id: product_id.to_string(),
        title: None,
        display_name: None,
        description_ru: None,
        card_picture: None,
        required_account: None,
        no_license_requred: None,
        use_default_desktop: None,
    }
}

fn sample_item(product_id: &str) -> StationProduct {
    StationProduct {
        product_id: product_id.to_string(),
        enabled: true,
        use_default_desktop: None,
        game_path: None,
        work_path: None,
        args: None,
        verified: Some("READY".to_string()),
        title: None,
    }
}

#[test]
fn test_is_desktop_product_ignores_use_default_desktop() {
    let mut item = sample_item("p1");
    item.use_default_desktop = Some(true);
    let mut meta = sample_meta("p1");
    meta.use_default_desktop = Some(true);
    assert!(!is_desktop_product(&item, Some(&meta)));
}

#[test]
fn test_is_desktop_product_by_id() {
    let item = sample_item(DESKTOP_PRODUCT_ID);
    assert!(is_desktop_product(&item, None));
}

#[test]
fn test_is_desktop_product_by_title() {
    let mut item = sample_item("p1");
    item.title = Some("Desktop".to_string());
    assert!(is_desktop_product(&item, None));
}

#[test]
fn test_is_desktop_product_by_display_name() {
    let item = sample_item("p1");
    let mut meta = sample_meta("p1");
    meta.display_name = Some("Рабочий стол".to_string());
    assert!(is_desktop_product(&item, Some(&meta)));
}

#[test]
fn test_is_desktop_product_case_insensitive() {
    for title in ["DESKTOP", "Desktop", "desktop"] {
        let mut item = sample_item("p1");
        item.title = Some(title.to_string());
        assert!(is_desktop_product(&item, None));
    }
    let mut item = sample_item("p1");
    item.title = Some("desktop2".to_string());
    assert!(!is_desktop_product(&item, None));
}

#[test]
fn test_is_station_product_ready() {
    let mut disabled = sample_item("p1");
    disabled.enabled = false;
    assert!(!is_station_product_ready(&disabled));

    let mut not_ready = sample_item("p1");
    not_ready.verified = Some("NOT_READY".to_string());
    assert!(!is_station_product_ready(&not_ready));

    let mut missing_verified = sample_item("p1");
    missing_verified.verified = None;
    assert!(is_station_product_ready(&missing_verified));
}

#[test]
fn test_build_desktop_set() {
    let mut item = sample_item("p1");
    item.use_default_desktop = Some(true);
    let mut map = drova_launcher::catalog::MetaMap::new();
    map.insert(sample_meta("p1"));
    let set = build_desktop_set(&vec![item], &map);
    assert!(set.contains("p1"));
}

#[test]
fn test_build_desktop_set_plain_game_left_out() {
    let item = sample_item("p1");
    let mut map = drova_launcher::catalog::MetaMap::new();
    map.insert(sample_meta("p1"));
    let set = build_desktop_set(&vec![item], &map);
    assert!(!set.contains("p1"));
    assert!(!set.contains("p2"));
}

#[test]
fn test_build_product_map_overwrites_duplicates() {
    let mut first = sample_meta("p1");
    first.title = Some("First".to_string());
    let mut second = sample_meta("p1");
    second.title = Some("Second".to_string());
    let map = build_product_map(&vec![first, second]);
    assert_eq!(map.len(), 1);
    let meta = map.get("p1").unwrap();
    assert_eq!(meta.title.as_deref(), Some("Second"));
}

#[test]
fn test_select_ready_filters_and_reports_empty() {
    let mut disabled = sample_item("p1");
    disabled.enabled = false;
    let ready = sample_item("p2");
    let selected = select_ready(vec![disabled, ready]).unwrap();
    assert_eq!(selected.len(), 1);
    assert_eq!(selected[0].product_id, "p2");

    let mut off = sample_item("p3");
    off.enabled = false;
    assert!(matches!(select_ready(vec![off]), Err(LauncherError::EmptyCatalog)));
    assert!(matches!(select_ready(Vec::new()), Err(LauncherError::EmptyCatalog)));
}

#[test]
fn test_cards_end_to_end() {
    let station = vec![{
        let mut it = sample_item("p1");
        it.verified = Some("READY".to_string());
        it
    }];
    let metas = vec![{
        let mut m = sample_meta("p1");
        m.title = Some("Game One".to_string());
        m.no_license_requred = Some(true);
        m
    }];
    let enabled = select_ready(station).unwrap();
    let map = build_product_map(&metas);
    let picture = card_picture_of(map.get(enabled[0].product_id.as_str()));
    assert_eq!(picture, None);
    let images = vec![String::new()];
    let cards = build_cards(&enabled, &map, &images);
    assert_eq!(cards.len(), 1);
    assert_eq!(cards[0].product_id, "p1");
    assert_eq!(cards[0].title, "Game One");
    assert!(cards[0].is_free);
    assert_eq!(cards[0].image_url, "");
    assert_eq!(cards[0].alt, "");
    assert_eq!(cards[0].required_account, "");
    assert!(!cards[0].is_desktop);
}

#[test]
fn test_card_title_priority_and_alt() {
    let item = {
        let mut it = sample_item("p1");
        it.title = Some("Station Title".to_string());
        it
    };
    let metas = vec![{
        let mut m = sample_meta("p1");
        m.title = Some("Meta Title".to_string());
        m.display_name = Some("Display Name".to_string());
        m.description_ru = Some("Оставьте позади руины московского метро и поднимитесь на поверхность навстречу солнцу: впереди дорога через всю страну, от станции к станции, от укрытия к укрытию".to_string());
        m
    }];
    let map = build_product_map(&metas);
    let enabled = vec![item];
    let images = vec!["file:///tmp/x.jpg".to_string()];
    let cards = build_cards(&enabled, &map, &images);
    assert_eq!(cards[0].title, "Display Name");
    assert_eq!(cards[0].alt.chars().count(), 100);
    let descr = metas[0].description_ru.as_ref().unwrap();
    assert!(descr.starts_with(&cards[0].alt));
    assert_eq!(cards[0].image_url, "file:///tmp/x.jpg");
}

#[test]
fn test_card_default_title_localized() {
    let item = sample_item("p1");
    let map = build_product_map(&Vec::new());
    let cards = build_cards(&vec![item], &map, &vec![String::new()]);
    assert_eq!(cards[0].title, "Игра");
}
