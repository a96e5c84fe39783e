use rusty_splash::datadragon::splash_url;
use rusty_splash::splashes::{Champion, Skin};

fn skin(id: &str, num: u32, champ: Option<&str>) -> Skin {
    Skin {
        id: id.to_string(),
        name: String::from("default"),
        chromas: false,
        num,
        champ: champ.map(|c| c.to_string()),
    }
}

#[test]
fn new_champion_is_empty() {
    let c = Champion::new("Annie");
    assert_eq!(c.name, "Annie");
    assert!(c.skins.is_empty());
    assert!(c.tags.is_empty());
}

#[test]
fn older_champion_record_builds() {
    let _ = rusty_splash::champs::Champion::new("Annie");
}

#[test]
fn splash_address_of_a_skin() {
    assert_eq!(
        splash_url(&skin("1012", 12, Some("Annie"))),
        "https://ddragon.leagueoflegends.com/cdn/img/champion/splash/Annie_12.jpg"
    );
    assert_eq!(
        splash_url(&skin("1000", 0, Some("Annie"))),
        "https://ddragon.leagueoflegends.com/cdn/img/champion/splash/Annie_0.jpg"
    );
}

#[test]
fn fiddlesticks_is_filed_under_its_old_name() {
    assert_eq!(
        splash_url(&skin("9027", 27, Some("Fiddlesticks"))),
        "https://ddragon.leagueoflegends.com/cdn/img/champion/splash/FiddleSticks_27.jpg"
    );
}

#[test]
fn unknown_champion_leaves_name_empty() {
    assert_eq!(
        splash_url(&skin("1", 4294967295, None)),
        "https://ddragon.leagueoflegends.com/cdn/img/champion/splash/_4294967295.jpg"
    );
}
