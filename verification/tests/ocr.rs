use screentime_pro::ocr::{
    build_charset, check_selection, choose_languages, ctc_collapse, enhanced_output, preferred_langs,
    rgba_to_bgra, CtcIndexOutOfRange, SelectionProblem,
};

#[test]
fn preferred_langs_are_ordered_by_priority() {
    let langs = preferred_langs();
    assert_eq!(langs[0], "zh-Hans");
    assert!(langs.contains(&"en-US"));
}

#[test]
fn languages_are_chosen_in_preference_order() {
    let supported = vec!["en-US".to_string(), "fr-FR".to_string(), "zh-Hans".to_string()];
    let (list, main) = choose_languages(&supported).unwrap();
    assert_eq!(list, vec!["zh-Hans".to_string(), "en-US".to_string()]);
    assert_eq!(main, "zh-Hans");
    assert!(choose_languages(&vec!["de-DE".to_string()]).is_none());
}

#[test]
fn rgba_becomes_bgra() {
    assert_eq!(rgba_to_bgra(&[1, 2, 3, 4, 5, 6, 7, 8, 9]), vec![3, 2, 1, 4, 7, 6, 5, 8]);
    assert!(rgba_to_bgra(&[]).is_empty());
}

#[test]
fn selection_checks() {
    assert_eq!(check_selection(0, 10, 100), Some(SelectionProblem::Empty));
    assert_eq!(check_selection(200, 10, 100), Some(SelectionProblem::TooLarge));
    assert_eq!(check_selection(200, 10, 0), None);
    assert_eq!(check_selection(100, 100, 100), None);
}

#[test]
fn charset_from_dictionary() {
    let cs = build_charset("a\r\nb\n\nc\r\r\n");
    assert_eq!(cs, vec!["".to_string(), "a".into(), "b".into(), "c".into(), " ".into()]);
    assert_eq!(build_charset(""), vec!["".to_string(), " ".to_string()]);
}

#[test]
fn ctc_collapses_repeats_and_blanks() {
    let cs = build_charset("你\n好\n");
    assert_eq!(ctc_collapse(&vec![1, 1, 0, 1, 2, 2, 0, 0, 3], &cs).unwrap(), "你你好 ");
    assert_eq!(ctc_collapse(&vec![], &cs).unwrap(), "");
    assert_eq!(
        ctc_collapse(&vec![1, 9, 2], &cs),
        Err(CtcIndexOutOfRange { index: 9, classes: 4 })
    );
}

#[test]
fn enhanced_output_joins_lines() {
    let out = enhanced_output(&vec!["第一行".to_string(), "second".to_string()], 30, 20);
    assert_eq!(out.text, "第一行\nsecond");
    assert_eq!(out.lines, 2);
    assert_eq!(out.language.as_deref(), Some("ch"));
    assert_eq!(out.engine, "enhanced");
    assert_eq!((out.width, out.height), (30, 20));
    assert_eq!(enhanced_output(&vec![], 1, 1).text, "");
}
