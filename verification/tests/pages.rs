use monster_scraper::error::ParseError;
use monster_scraper::monster::{any_contains, is_type, Monster};
use monster_scraper::title::Title;
use monster_scraper::traits::Traits;
use scraper::Html;

const GOBLIN: &str = "<html><body>\
<h4 class=\"monster\"> Goblin Warrior <br/>Creature, level -1</h4>\
<h4>Other<i>level 9</i></h4>\
<span class=\"trait\"><a href=\"/t/small\">Small</a></span>\
<span class=\"trait\"> Goblin </span>\
<span class=\"trait\"><a>Humanoid</a></span>\
<span class=\"trait\">Aquatic</span>\
<span class=\"trait\">Amphibious</span>\
<span class=\"alignment\"> CE </span>\
<p><b>Ranged</b> shortbow</p>\
<p><b>Speed</b> 25 feet</p>\
</body></html>";

#[test]
fn record_of_a_page() {
    let document = Html::parse_document(GOBLIN);
    let monster = Monster::new(&document, " https://example.org/monster/goblin \n").unwrap();
    assert_eq!(monster.url, "https://example.org/monster/goblin");
    assert_eq!(monster.name, "Goblin Warrior");
    assert_eq!(monster.level, -1);
    assert_eq!(monster.alignment, "CE");
    assert_eq!(monster.monster_type, "Humanoid");
    assert_eq!(monster.size, "Small");
    assert_eq!(monster.traits, vec![String::from("Goblin")]);
    assert!(!monster.is_caster);
    assert!(monster.is_ranged);
    assert!(monster.is_aquatic);
    assert!(monster.validate());
}

#[test]
fn dedicated_elements_win() {
    let document = Html::parse_document(
        "<h4 class=\"monster\">Lich<br>level 12</h4>\
<span class=\"creature-alignment\">NE</span><span class=\"alignment\">LG</span>\
<span class=\"size\">Medium</span><span class=\"type\">Undead</span>\
<span class=\"trait\">Tiny</span><span class=\"trait\">Dragon</span>\
<p><b>Arcane Spells</b> DC 30</p>",
    );
    let monster = Monster::new(&document, "u").unwrap();
    assert_eq!(monster.name, "Lich");
    assert_eq!(monster.level, 12);
    assert_eq!(monster.alignment, "NE");
    assert_eq!(monster.size, "Medium");
    assert_eq!(monster.monster_type, "Undead");
    assert_eq!(monster.traits, vec![String::from("Tiny"), String::from("Dragon")]);
    assert!(monster.is_caster);
    assert!(!monster.is_ranged);
    assert!(!monster.is_aquatic);
    assert!(monster.validate());
}

#[test]
fn fallback_header() {
    let document = Html::parse_document(
        "<h4>Contents</h4><h4>Bat<i>level 1</i></h4><h4>Cat <i>level 4</i></h4><h4>End</h4>",
    );
    let title = Title::new(&document, "u").unwrap();
    assert_eq!(title.name, "Cat");
    assert_eq!(title.level, 4);
    assert_eq!(title.url, "u");
}

#[test]
fn page_without_title() {
    let document = Html::parse_document("<p>nothing here</p>");
    let monster = Monster::new(&document, "u").unwrap();
    assert_eq!(monster.name, "Parse Failed");
    assert_eq!(monster.level, 0);
    assert_eq!(monster.alignment, "NO ALIGN");
    assert_eq!(monster.size, "NO SIZE");
    assert_eq!(monster.monster_type, "NO TYPE");
    assert!(monster.traits.is_empty());
    assert!(!monster.validate());
}

#[test]
fn title_without_markup_is_fatal() {
    let document = Html::parse_document("<h4 class=\"monster\">Goblin level 3</h4>");
    let r = Monster::new(&document, "u");
    assert!(matches!(r, Err(ParseError::MissingDelimiter { ref title }) if title == "Goblin level 3"));
}

#[test]
fn title_without_digits_is_fatal() {
    let document = Html::parse_document("<h4 class=\"monster\">Goblin<br>boss</h4>");
    let r = Monster::new(&document, "u");
    assert!(matches!(r, Err(ParseError::BadLevel { ref name, .. }) if name == "Goblin"));
}

#[test]
fn traits_of_a_page() {
    let document = Html::parse_document(GOBLIN);
    let traits = Traits::new(&document);
    assert_eq!(traits.alignment, " CE ");
    assert_eq!(traits.size, "Small");
    assert_eq!(traits.monster_type, "Humanoid");
    assert!(traits.aquatic);
    assert_eq!(traits.traits, vec![String::from("Goblin")]);
}

#[test]
fn flags_of_a_page() {
    let document = Html::parse_document(GOBLIN);
    assert!(is_type(&document, "Ranged"));
    assert!(is_type(&document, "Speed"));
    assert!(!is_type(&document, "Spells"));
    assert!(!is_type(&document, "shortbow"));
}

#[test]
fn flag_in_any_lead() {
    let leads = vec![String::from("Melee"), String::from("Divine Spells")];
    assert!(any_contains(&leads, "Spells"));
    assert!(!any_contains(&leads, "Ranged"));
    assert!(!any_contains(&Vec::new(), "Spells"));
}
