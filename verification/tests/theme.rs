use salieri::theme::{command_theme, theme_or_default, theme_toggled, ThemeChangedPayload, ThemeStep};

fn parts(line: &str) -> Vec<String> {
    line.split_whitespace().map(|w| w.to_string()).collect()
}

#[test]
fn theme_commands() {
    match command_theme(&parts("/theme dark")) {
        ThemeStep::Choose { theme, reply } => {
            assert_eq!(theme, "dark");
            assert_eq!(reply, "theme set to dark");
        }
        _ => panic!("dark"),
    }
    match command_theme(&parts("/theme light extra")) {
        ThemeStep::Choose { theme, reply } => {
            assert_eq!(theme, "light");
            assert_eq!(reply, "theme set to light");
        }
        _ => panic!("light"),
    }
    assert!(matches!(command_theme(&parts("/theme toggle")), ThemeStep::Toggle));
    match command_theme(&parts("/theme blue")) {
        ThemeStep::Refuse(text) => {
            assert_eq!(text, "unknown /theme argument 'blue'. use dark, light, or toggle.")
        }
        _ => panic!("blue"),
    }
    match command_theme(&parts("/theme")) {
        ThemeStep::Refuse(text) => assert_eq!(text, "usage: /theme [dark|light|toggle]"),
        _ => panic!("usage"),
    }
    match command_theme(&parts("/theme Dark")) {
        ThemeStep::Refuse(text) => {
            assert_eq!(text, "unknown /theme argument 'Dark'. use dark, light, or toggle.")
        }
        _ => panic!("Dark"),
    }
}

#[test]
fn toggling() {
    assert_eq!(
        theme_toggled(Ok("dark".to_string())),
        Ok(("light".to_string(), "theme toggled to light".to_string()))
    );
    assert_eq!(
        theme_toggled(Ok("light".to_string())),
        Ok(("dark".to_string(), "theme toggled to dark".to_string()))
    );
    assert_eq!(
        theme_toggled(Ok("solarized".to_string())),
        Ok(("dark".to_string(), "theme toggled to dark".to_string()))
    );
    assert_eq!(
        theme_toggled(Err("disk full".to_string())),
        Err("couldn't read theme: disk full".to_string())
    );
}

#[test]
fn the_default_theme_is_dark() {
    assert_eq!(theme_or_default(None), "dark");
    assert_eq!(theme_or_default(Some("light".to_string())), "light");
    let payload = ThemeChangedPayload { theme: "light".to_string() };
    assert_eq!(payload.clone().theme, "light");
}
