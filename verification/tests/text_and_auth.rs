use optic_mart::auth::{auth_token, bearer_token, header_text, AuthError};
use optic_mart::text::{join_exec, replace_all_exec, split_exec, str_eq, trim_exec};

#[test]
fn replace_all_replaces_every_occurrence_left_to_right() {
    assert_eq!(replace_all_exec("aXbXc", "X", "--").as_str(), "a--b--c");
    assert_eq!(replace_all_exec("aaa", "aa", "b").as_str(), "ba");
    assert_eq!(replace_all_exec("", "x", "y").as_str(), "");
    assert_eq!(replace_all_exec("BearerBearer t", "Bearer", "").as_str(), " t");
}

#[test]
fn trim_removes_unicode_white_space_at_both_ends() {
    assert_eq!(trim_exec("  a b \t\n").as_str(), "a b");
    assert_eq!(trim_exec("\u{3000}x\u{00A0}").as_str(), "x");
    assert_eq!(trim_exec("   ").as_str(), "");
    assert_eq!(trim_exec("").as_str(), "");
    for s in ["  a b \t\n", "\u{2009}q\u{2028}", "zz", " \u{85}y "] {
        assert_eq!(trim_exec(s).as_str(), s.trim());
    }
}

#[test]
fn split_and_join_round_trip() {
    let pieces = split_exec("red,green,,blue", ',');
    assert_eq!(pieces, vec!["red", "green", "", "blue"]);
    assert_eq!(join_exec(&pieces, ',').as_str(), "red,green,,blue");
    assert_eq!(split_exec("", ','), vec![String::new()]);
    assert_eq!(join_exec(&vec![], ',').as_str(), "");
    let colors = vec!["black".to_string(), "gold".to_string()];
    assert_eq!(split_exec(join_exec(&colors, ',').as_str(), ','), colors);
    for s in ["a,b", ",", "x", ",,a,"] {
        let std_split: Vec<String> = s.split(',').map(|p| p.to_string()).collect();
        assert_eq!(split_exec(s, ','), std_split);
    }
}

#[test]
fn a_comma_inside_an_item_does_not_survive_the_round_trip() {
    let items = vec!["a,b".to_string()];
    assert_eq!(split_exec(join_exec(&items, ',').as_str(), ','), vec!["a", "b"]);
}

#[test]
fn str_eq_compares_characters() {
    assert!(str_eq("name", "name"));
    assert!(!str_eq("name", "names"));
}

#[test]
fn bearer_token_strips_the_scheme_and_white_space() {
    assert_eq!(bearer_token("Bearer abc.def.ghi").as_str(), "abc.def.ghi");
    assert_eq!(bearer_token("  Bearer   tok  ").as_str(), "tok");
    assert_eq!(bearer_token("tok").as_str(), "tok");
    assert_eq!(bearer_token("Bearer").as_str(), "");
    assert_eq!(bearer_token("xBearery").as_str(), "xy");
    for h in ["Bearer a", " Bearer  b ", "Bearerc", "cBearerBearer"] {
        assert_eq!(bearer_token(h).as_str(), h.replace("Bearer", "").trim());
    }
}

#[test]
fn header_text_accepts_visible_ascii_and_tab_only() {
    assert_eq!(header_text(b"abc\tdef ~").as_deref(), Some("abc\tdef ~"));
    assert_eq!(header_text(b""), Some(String::new()));
    assert_eq!(header_text(b"a\x7fb"), None);
    assert_eq!(header_text(b"a\nb"), None);
    assert_eq!(header_text("é".as_bytes()), None);
}

#[test]
fn auth_token_reports_each_failure() {
    assert_eq!(auth_token(None), Err(AuthError::Missing));
    assert_eq!(auth_token(Some(b"Bearer \x01")), Err(AuthError::NotText));
    assert_eq!(auth_token(Some(b"Bearer xyz")), Ok("xyz".to_string()));
}
