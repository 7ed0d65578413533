use evdev::KeyCode as Evdev;
use hyprwhspr_rs::keys::{parse_key, parse_shortcut, ShortcutError, UnknownKey};
use std::collections::HashSet;

fn codes(keys: &[Evdev]) -> HashSet<u16> {
    keys.iter().map(|key| key.code()).collect()
}

#[test]
fn names_stand_for_the_keys_of_the_kernel() {
    let table = [
        ("SUPER", Evdev::KEY_LEFTMETA),
        ("META", Evdev::KEY_LEFTMETA),
        ("WIN", Evdev::KEY_LEFTMETA),
        ("WINDOWS", Evdev::KEY_LEFTMETA),
        ("ALT", Evdev::KEY_LEFTALT),
        ("CTRL", Evdev::KEY_LEFTCTRL),
        ("CONTROL", Evdev::KEY_LEFTCTRL),
        ("SHIFT", Evdev::KEY_LEFTSHIFT),
        ("F1", Evdev::KEY_F1),
        ("F2", Evdev::KEY_F2),
        ("F3", Evdev::KEY_F3),
        ("F4", Evdev::KEY_F4),
        ("F5", Evdev::KEY_F5),
        ("F6", Evdev::KEY_F6),
        ("F7", Evdev::KEY_F7),
        ("F8", Evdev::KEY_F8),
        ("F9", Evdev::KEY_F9),
        ("F10", Evdev::KEY_F10),
        ("F11", Evdev::KEY_F11),
        ("F12", Evdev::KEY_F12),
        ("A", Evdev::KEY_A),
        ("B", Evdev::KEY_B),
        ("C", Evdev::KEY_C),
        ("D", Evdev::KEY_D),
        ("E", Evdev::KEY_E),
        ("F", Evdev::KEY_F),
        ("G", Evdev::KEY_G),
        ("H", Evdev::KEY_H),
        ("I", Evdev::KEY_I),
        ("J", Evdev::KEY_J),
        ("K", Evdev::KEY_K),
        ("L", Evdev::KEY_L),
        ("M", Evdev::KEY_M),
        ("N", Evdev::KEY_N),
        ("O", Evdev::KEY_O),
        ("P", Evdev::KEY_P),
        ("Q", Evdev::KEY_Q),
        ("R", Evdev::KEY_R),
        ("S", Evdev::KEY_S),
        ("T", Evdev::KEY_T),
        ("U", Evdev::KEY_U),
        ("V", Evdev::KEY_V),
        ("W", Evdev::KEY_W),
        ("X", Evdev::KEY_X),
        ("Y", Evdev::KEY_Y),
        ("Z", Evdev::KEY_Z),
        ("0", Evdev::KEY_0),
        ("1", Evdev::KEY_1),
        ("2", Evdev::KEY_2),
        ("3", Evdev::KEY_3),
        ("4", Evdev::KEY_4),
        ("5", Evdev::KEY_5),
        ("6", Evdev::KEY_6),
        ("7", Evdev::KEY_7),
        ("8", Evdev::KEY_8),
        ("9", Evdev::KEY_9),
        ("SPACE", Evdev::KEY_SPACE),
        ("ENTER", Evdev::KEY_ENTER),
        ("RETURN", Evdev::KEY_ENTER),
        ("ESC", Evdev::KEY_ESC),
        ("ESCAPE", Evdev::KEY_ESC),
        ("TAB", Evdev::KEY_TAB),
        ("BACKSPACE", Evdev::KEY_BACKSPACE),
        ("DELETE", Evdev::KEY_DELETE),
        ("DEL", Evdev::KEY_DELETE),
        ("INSERT", Evdev::KEY_INSERT),
        ("INS", Evdev::KEY_INSERT),
        ("HOME", Evdev::KEY_HOME),
        ("END", Evdev::KEY_END),
        ("PAGEUP", Evdev::KEY_PAGEUP),
        ("PGUP", Evdev::KEY_PAGEUP),
        ("PAGEDOWN", Evdev::KEY_PAGEDOWN),
        ("PGDOWN", Evdev::KEY_PAGEDOWN),
        ("UP", Evdev::KEY_UP),
        ("DOWN", Evdev::KEY_DOWN),
        ("LEFT", Evdev::KEY_LEFT),
        ("RIGHT", Evdev::KEY_RIGHT),
    ];
    for (name, key) in table {
        assert_eq!(parse_key(name), Ok(key.code()), "{}", name);
        assert_eq!(parse_shortcut(&name.to_lowercase()), Ok(codes(&[key])));
    }
}

#[test]
fn other_names_are_unknown() {
    for name in ["", "super", "F13", "F0", "AA", "10", "PAGE_UP", " A"] {
        let error = parse_key(name).unwrap_err();
        assert_eq!(error.key, name);
        assert_eq!(error.to_string(), format!("Unknown key: {}", name));
    }
}

#[test]
fn parts_are_trimmed_and_put_in_upper_case() {
    let keys = codes(&[Evdev::KEY_LEFTMETA, Evdev::KEY_R]);
    for shortcut in ["SUPER+R", "super+r", " Super + r\n", "r+WIN", "R+SUPER+META+r"] {
        assert_eq!(parse_shortcut(shortcut), Ok(keys.clone()));
    }
}

#[test]
fn upper_case_is_that_of_unicode() {
    assert_eq!(
        parse_shortcut("\u{17f}pace"),
        Ok(codes(&[Evdev::KEY_SPACE]))
    );
    assert_eq!(parse_shortcut("w\u{131}n"), Ok(codes(&[Evdev::KEY_LEFTMETA])));
    assert_eq!(
        parse_shortcut("a+\u{df}").unwrap_err().part,
        "SS".to_string()
    );
}

#[test]
fn the_first_bad_part_is_reported() {
    let error = parse_shortcut("ctrl+ hyper +nope").unwrap_err();
    assert_eq!(
        error,
        ShortcutError {
            part: "HYPER".to_string(),
            cause: UnknownKey {
                key: "HYPER".to_string()
            },
        }
    );
    assert_eq!(error.to_string(), "Failed to parse key: HYPER");
    assert_eq!(error.cause.to_string(), "Unknown key: HYPER");
}

#[test]
fn empty_parts_are_bad() {
    for shortcut in ["", " ", "+", "A+", "+A", "A++B"] {
        assert_eq!(parse_shortcut(shortcut).unwrap_err().part, "");
    }
}

#[test]
fn names_share_a_key_only_with_their_aliases() {
    let groups: [&[&str]; 12] = [
        &["SUPER", "META", "WIN", "WINDOWS"],
        &["CTRL", "CONTROL"],
        &["ENTER", "RETURN"],
        &["ESC", "ESCAPE"],
        &["DELETE", "DEL"],
        &["INSERT", "INS"],
        &["PAGEUP", "PGUP"],
        &["PAGEDOWN", "PGDOWN"],
        &["UP"],
        &["E"],
        &["F1"],
        &["1"],
    ];
    for (i, group) in groups.iter().enumerate() {
        for (j, other) in groups.iter().enumerate() {
            for a in group.iter() {
                for b in other.iter() {
                    let same = parse_key(a).unwrap() == parse_key(b).unwrap();
                    assert_eq!(same, i == j, "{} {}", a, b);
                }
            }
        }
    }
}

#[test]
fn white_space_around_parts_is_ignored() {
    let plain = parse_shortcut("CTRL+ALT+F5");
    assert!(plain.is_ok());
    for wide in [
        " CTRL+ALT+F5",
        "CTRL\t+\u{3000}ALT+F5\n",
        "  CTRL  +  ALT  +  F5  ",
    ] {
        assert_eq!(parse_shortcut(wide), plain);
    }
    assert_eq!(parse_shortcut(" A + no "), parse_shortcut("A+no"));
    // White space within a part is part of its name.
    assert_eq!(parse_shortcut("C TRL").unwrap_err().part, "C TRL");
}

#[test]
fn joined_shortcuts_have_the_keys_of_both() {
    for (x, y) in [("CTRL+A", "ALT"), ("F1", "f1+F2"), (" SUPER", "META ")] {
        let union: HashSet<u16> = parse_shortcut(x)
            .unwrap()
            .union(&parse_shortcut(y).unwrap())
            .copied()
            .collect();
        assert_eq!(parse_shortcut(&format!("{}+{}", x, y)), Ok(union));
    }
    assert_eq!(parse_shortcut("A+no+nor").unwrap_err().part, "NO");
    assert_eq!(parse_shortcut("A+B+nor").unwrap_err().part, "NOR");
}
