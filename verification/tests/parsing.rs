use monster_scraper::digits::get_digit;
use monster_scraper::error::ParseError;
use monster_scraper::render::level_text;
use monster_scraper::text::{contains, trim};
use monster_scraper::title::{parse_title, Title};
use monster_scraper::traits::{
    classify_aquatic, classify_size, classify_type, clean_token, tokenize, Traits,
};

fn strings(items: &[&str]) -> Vec<String> {
    items.iter().map(|s| s.to_string()).collect()
}

#[test]
fn digits_of_a_level() {
    assert_eq!(get_digit("level 12", "x"), Ok(12));
    assert_eq!(get_digit("br/>level 3 goblin", "Goblin"), Ok(3));
    assert_eq!(get_digit("level 007", "x"), Ok(7));
    assert_eq!(get_digit("2147483647", "x"), Ok(i32::MAX));
}

#[test]
fn digits_run_together() {
    assert_eq!(get_digit("CR 1, level 3", "x"), Ok(13));
}

#[test]
fn hyphen_gives_minus_one() {
    assert_eq!(get_digit("level -1", "x"), Ok(-1));
    assert_eq!(get_digit("level -5", "x"), Ok(-1));
    assert_eq!(get_digit("level -12", "x"), Ok(-12));
    assert_eq!(get_digit("level - 4", "x"), Ok(4));
}

#[test]
fn no_integer_is_an_error() {
    let bad = |text: &str| ParseError::BadLevel { text: text.to_string(), name: String::from("Imp") };
    assert_eq!(get_digit("", "Imp"), Err(bad("")));
    assert_eq!(get_digit("no level here", "Imp"), Err(bad("no level here")));
    assert_eq!(get_digit("3-4", "Imp"), Err(bad("3-4")));
    assert_eq!(get_digit("2147483648", "Imp"), Err(bad("2147483648")));
    assert_eq!(get_digit("99999999999999999999999", "Imp"), Err(bad("99999999999999999999999")));
}

#[test]
fn title_parsing() {
    let title = parse_title(String::from("Goblin<br/>level 3 goblin..."), "www.foo.com").unwrap();
    assert_eq!(title.name, "Goblin");
    assert_eq!(title.level, 3);
    assert_eq!(title.url, "www.foo.com");
}

#[test]
fn title_name_is_trimmed() {
    let title = parse_title(String::from(" \n Giant Rat\t<br/>level 1"), "u").unwrap();
    assert_eq!(title.name, "Giant Rat");
    assert_eq!(title.level, 1);
}

#[test]
fn title_with_two_numbers() {
    let title = parse_title(String::from("Goblin<br/>CR 1, level 3 goblin..."), "u").unwrap();
    assert_eq!(title.name, "Goblin");
    assert_eq!(title.level, 13);
}

#[test]
fn title_without_delimiter() {
    let r = parse_title(String::from("Goblin level 3"), "u");
    assert!(matches!(r, Err(ParseError::MissingDelimiter { ref title }) if title == "Goblin level 3"));
}

#[test]
fn title_without_level() {
    let r = parse_title(String::from("Goblin <b>boss</b>"), "u");
    match r {
        Err(ParseError::BadLevel { text, name }) => {
            assert_eq!(text, "b>boss</b>");
            assert_eq!(name, "Goblin ");
        }
        _ => panic!("expected an error"),
    }
}

#[test]
fn title_from_headers() {
    let none: Vec<String> = Vec::new();
    let first = Title::from_headers(
        &strings(&["Orc<i>level 2</i>", "Elf<i>level 9</i>"]),
        &strings(&["Bat<i>level 1</i>"]),
        "u",
    )
    .unwrap();
    assert_eq!((first.name.as_str(), first.level), ("Orc", 2));

    let last = Title::from_headers(
        &none,
        &strings(&["About", "Bat<i>level 1</i>", "Cat<i>level 4</i>", "Notes<i>7</i>"]),
        "u",
    )
    .unwrap();
    assert_eq!((last.name.as_str(), last.level), ("Cat", 4));

    let placeholder = Title::from_headers(&none, &strings(&["About", "Notes"]), " u ").unwrap();
    assert_eq!(placeholder.name, "Parse Failed");
    assert_eq!(placeholder.level, 0);
    assert_eq!(placeholder.url, " u ");

    let only_last = Title::from_headers(&none, &strings(&["level", "Cat<i>level 4</i>"]), "u");
    assert_eq!(only_last.unwrap().level, 4);
    let fatal = Title::from_headers(&none, &strings(&["Cat<i>level 4</i>", "level"]), "u");
    assert!(matches!(fatal, Err(ParseError::MissingDelimiter { .. })));
}

#[test]
fn trimming() {
    assert_eq!(trim("  Goblin \n"), "Goblin");
    assert_eq!(trim("\t a b \u{3000}"), "a b");
    assert_eq!(trim(" \n "), "");
    assert_eq!(trim(""), "");
    assert_eq!(trim("x"), "x");
    assert_eq!(trim("\u{a0}é\u{2003}"), "é");
}

#[test]
fn trimming_twice_changes_nothing() {
    for text in ["  Goblin \n", " a  b ", "", " \t ", "x", "\u{2028}y z\u{85}"] {
        let once = trim(text);
        assert_eq!(trim(&once), once);
        assert!(!once.starts_with(char::is_whitespace));
        assert!(!once.ends_with(char::is_whitespace));
        assert_eq!(once, text.trim());
    }
}

#[test]
fn substring_search() {
    assert!(contains("CR 1, level 3", "level"));
    assert!(contains("level", "level"));
    assert!(!contains("leve", "level"));
    assert!(!contains("Level 3", "level"));
    assert!(contains("abc", ""));
    assert!(contains("", ""));
    assert!(contains("aab", "ab"));
}

#[test]
fn size_takes_the_first_word() {
    let (size, rest) = classify_size(&strings(&["Fast", "Tiny", "Huge", "Tiny"]));
    assert_eq!(size, "Tiny");
    assert_eq!(rest, strings(&["Fast", "Huge", "Tiny"]));

    let (size, rest) = classify_size(&strings(&["Fast", "tiny", "Slow"]));
    assert_eq!(size, "NO SIZE");
    assert_eq!(rest, strings(&["Fast", "tiny", "Slow"]));

    for word in ["Tiny", "Small", "Medium", "Large", "Huge", "Gargantuan"] {
        let (size, rest) = classify_size(&strings(&[word]));
        assert_eq!(size, word);
        assert!(rest.is_empty());
    }
}

#[test]
fn type_resolves_synonyms() {
    let (name, rest) = classify_type(&strings(&["Fast", "Beast", "Undead"]));
    assert_eq!(name, "Animal");
    assert_eq!(rest, strings(&["Fast", "Undead"]));

    assert_eq!(classify_type(&strings(&["Celestial"])).0, "Outsider");
    assert_eq!(classify_type(&strings(&["Fiend"])).0, "Outsider");
    assert_eq!(classify_type(&strings(&["Magical beast "])).0, "Magical beast ");
    assert_eq!(classify_type(&strings(&["Magical beast"])).0, "NO TYPE");
    assert_eq!(classify_type(&strings(&["Monstrous humanoid "])).0, "Monstrous humanoid ");
    assert_eq!(classify_type(&strings(&["Artificial intelligence "])).0, "Artificial intelligence ");

    for word in [
        "Aberration", "Animal", "Construct", "Dragon", "Fey", "Humanoid", "Ooze", "Outsider",
        "Monitor", "Plant", "Undead", "Vermin",
    ] {
        let (name, rest) = classify_type(&strings(&[word, "Fast"]));
        assert_eq!(name, word);
        assert_eq!(rest, strings(&["Fast"]));
    }

    let (name, rest) = classify_type(&strings(&["Fast", "Tiny"]));
    assert_eq!(name, "NO TYPE");
    assert_eq!(rest, strings(&["Fast", "Tiny"]));
}

#[test]
fn aquatic_drops_every_match() {
    let (aquatic, rest) = classify_aquatic(&strings(&["Amphibious", "Fast", "Aquatic"]));
    assert!(aquatic);
    assert_eq!(rest, strings(&["Fast"]));

    let (aquatic, rest) = classify_aquatic(&strings(&["Fast", "aquatic"]));
    assert!(!aquatic);
    assert_eq!(rest, strings(&["Fast", "aquatic"]));
}

#[test]
fn consumed_size_is_gone() {
    let none: Vec<String> = Vec::new();
    let traits = Traits::assemble(
        &none,
        &none,
        &none,
        &none,
        strings(&["Tiny", "Goblin", "Humanoid", "Aquatic", "Fast"]),
    );
    assert_eq!(traits.size, "Tiny");
    assert_eq!(traits.monster_type, "Humanoid");
    assert!(traits.aquatic);
    assert_eq!(traits.traits, strings(&["Goblin", "Fast"]));
    assert_eq!(traits.alignment, "NO ALIGN");
}

#[test]
fn dedicated_elements_leave_the_tokens() {
    let none: Vec<String> = Vec::new();
    let traits = Traits::assemble(
        &strings(&[" Chaotic Evil "]),
        &strings(&["CE"]),
        &strings(&["Fey"]),
        &strings(&["Large"]),
        strings(&["Tiny", "Undead", "Fast"]),
    );
    assert_eq!(traits.alignment, " Chaotic Evil ");
    assert_eq!(traits.size, "Large");
    assert_eq!(traits.monster_type, "Fey");
    assert!(!traits.aquatic);
    assert_eq!(traits.traits, strings(&["Tiny", "Undead", "Fast"]));

    let short = Traits::assemble(&none, &strings(&["CE"]), &none, &none, Vec::new());
    assert_eq!(short.alignment, "CE");
    assert_eq!(short.size, "NO SIZE");
    assert_eq!(short.monster_type, "NO TYPE");
}

#[test]
fn token_cleaning() {
    assert_eq!(clean_token(" raw ", &strings(&[" Small ", "Big"])), "Small");
    assert_eq!(clean_token(" raw ", &Vec::new()), "raw");
}

#[test]
fn tokens_of_spans() {
    let spans = strings(&["<a href=\"/traits/small\"> Small </a>", "  Goblin ", "<a>Fey</a><a>Elf</a>"]);
    assert_eq!(tokenize(&spans), strings(&["Small", "Goblin", "Fey"]));
}

#[test]
fn decimal_numerals() {
    assert_eq!(level_text(0), "0");
    assert_eq!(level_text(7), "7");
    assert_eq!(level_text(10), "10");
    assert_eq!(level_text(25), "25");
    assert_eq!(level_text(-1), "-1");
    assert_eq!(level_text(1234567890), "1234567890");
    assert_eq!(level_text(i32::MAX), "2147483647");
    assert_eq!(level_text(i32::MIN), "-2147483648");
}
