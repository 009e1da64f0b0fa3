use mcclient::chat::{parse_json_array, parse_json_obj, replace_placeholders, translate, Json};
use mcclient::error::ProtocolError;
use mcclient::style::{hex_to_rgb, mc_colors, minecraft_to_ansi, Rgb, Styles};

fn s(t: &str) -> Json {
    Json::Str(t.to_string())
}

fn obj(members: Vec<(&str, Json)>) -> Json {
    Json::Object(members.into_iter().map(|(k, v)| (k.to_string(), v)).collect())
}

fn rgb(red: u8, green: u8, blue: u8) -> Rgb {
    Rgb { red, green, blue }
}

#[test]
fn placeholders_positional_indexed_and_escaped() {
    let reps = vec!["Alice".to_string(), "pizza".to_string()];
    assert_eq!(replace_placeholders("%s likes %1$s and %%s", &reps), "Alice likes Alice and %s");
}

#[test]
fn placeholders_in_order_and_by_index() {
    let reps = vec!["a".to_string(), "b".to_string()];
    assert_eq!(replace_placeholders("%s-%s-%s", &reps), "a-b-%s");
    assert_eq!(replace_placeholders("%2$s %1$s", &reps), "b a");
    assert_eq!(replace_placeholders("%3$s 100%%", &reps), "%3$s 100%");
}

#[test]
fn style_inheritance_bold_red_parent_italic_child() {
    let child = obj(vec![("italic", Json::Bool(true)), ("text", s("hi"))]);
    let parent = obj(vec![
        ("bold", Json::Bool(true)),
        ("color", s("red")),
        ("extra", Json::Array(vec![child])),
    ]);
    let segs = parse_json_obj(&parent, &Styles::new(), &[]).unwrap();
    assert_eq!(segs.len(), 1);
    assert_eq!(segs[0].text, "hi");
    let st = segs[0].style;
    assert!(st.bold && st.italic && !st.underlined && !st.strikethrough);
    assert_eq!(st.foreground, rgb(255, 85, 85));
    assert_eq!(st.background, rgb(63, 21, 21));
}

#[test]
fn render_preorder_and_plain_strings() {
    let tree = obj(vec![
        ("text", s("A")),
        ("underlined", Json::Bool(true)),
        ("extra", Json::Array(vec![s("B"), obj(vec![("text", s("C")), ("underlined", Json::Bool(false))])])),
    ]);
    let segs = parse_json_obj(&tree, &Styles::new(), &[]).unwrap();
    let texts: Vec<&str> = segs.iter().map(|x| x.text.as_str()).collect();
    assert_eq!(texts, vec!["A", "B", "C"]);
    assert!(segs[0].style.underlined && segs[1].style.underlined && !segs[2].style.underlined);
    let arr = Json::Array(vec![s("x"), s("y")]);
    assert_eq!(parse_json_array(&arr, &Styles::new(), &[]).unwrap().len(), 2);
    assert_eq!(parse_json_array(&s("x"), &Styles::new(), &[]).unwrap().len(), 0);
}

#[test]
fn render_translation() {
    let table = vec![("chat.type.text".to_string(), "<%s> %s".to_string())];
    let tree = obj(vec![
        ("translate", s("chat.type.text")),
        ("with", Json::Array(vec![obj(vec![("text", s("Steve"))]), s("hello")])),
    ]);
    let segs = parse_json_obj(&tree, &Styles::new(), &table).unwrap();
    assert_eq!(segs[0].text, "<Steve> hello");
}

#[test]
fn translation_missing_key() {
    let table = vec![("a".to_string(), "x".to_string())];
    assert_eq!(translate("b", &Json::Null, &table), Err(ProtocolError::TranslationNotFound));
    assert_eq!(translate("a", &s("q"), &table), Ok("x".to_string()));
    let tree = obj(vec![("translate", s("missing"))]);
    assert_eq!(parse_json_obj(&tree, &Styles::new(), &table).unwrap_err(), ProtocolError::TranslationNotFound);
}

#[test]
fn translation_with_object_collects_text_and_extra() {
    let table = vec![("k".to_string(), "%s|%s|%s".to_string())];
    let with = obj(vec![
        ("text", s("one")),
        ("extra", Json::Array(vec![s("two"), obj(vec![("text", s("three"))])])),
    ]);
    assert_eq!(translate("k", &with, &table), Ok("one|two|three".to_string()));
}

#[test]
fn palette_named_hex_and_default() {
    assert_eq!(mc_colors("gold"), (rgb(255, 170, 0), rgb(63, 42, 0)));
    assert_eq!(mc_colors("dark_gray"), (rgb(85, 85, 85), rgb(21, 21, 21)));
    assert_eq!(mc_colors("#ff8000"), (rgb(255, 128, 0), rgb(63, 32, 0)));
    assert_eq!(mc_colors("#zz0000"), (rgb(255, 255, 255), rgb(63, 63, 63)));
    assert_eq!(mc_colors("chartreuse"), (rgb(255, 255, 255), rgb(63, 63, 63)));
    assert_eq!(hex_to_rgb("0A1b2C"), Some(rgb(10, 27, 44)));
    assert_eq!(hex_to_rgb("12345"), None);
}

#[test]
fn styles_new_copy_and_inherit() {
    let d = Styles::new();
    assert!(!d.bold && !d.italic);
    assert_eq!((d.foreground, d.background), (rgb(255, 255, 255), rgb(63, 63, 63)));
    let mut other = d;
    other.bold = true;
    other.foreground = rgb(1, 2, 3);
    let mut copy = Styles::new();
    copy.copy_from(&other);
    assert_eq!(copy, other);
    assert_eq!(Styles::from_styles(&other), other);
    let st = Styles::from_obj(&obj(vec![("bold", Json::Bool(false)), ("color", s("blue"))]), &other);
    assert!(!st.bold);
    assert_eq!(st.foreground, rgb(85, 85, 255));
}

#[test]
fn legacy_codes_to_ansi() {
    assert_eq!(minecraft_to_ansi("\u{a7}cHi\u{a7}r!".to_string()), "\x1b[91mHi\x1b[0m!");
    assert_eq!(minecraft_to_ansi("\u{a7}lBold".to_string()), "\x1b[1mBold");
    assert_eq!(minecraft_to_ansi("a\u{a7}zb\u{a7}".to_string()), "azb");
    let segs = parse_json_obj(&s("\u{a7}6gold"), &Styles::new(), &[]).unwrap();
    assert_eq!(segs[0].text, "\x1b[33mgold");
}
