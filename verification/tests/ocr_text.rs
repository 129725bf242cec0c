use screentime_pro::ocr_text::{is_cjk, tidy_text};

#[test]
fn drops_spaces_between_cjk() {
    assert_eq!(
        tidy_text("OCR 的 lcon 里 面 的 那 个 A 不 居 中"),
        "OCR的lcon里面的那个A不居中"
    );
}

#[test]
fn keeps_spaces_between_latin_words() {
    assert_eq!(tidy_text("Hello World"), "Hello World");
    assert_eq!(tidy_text("OCR Engine v0.8.1"), "OCR Engine v0.8.1");
}

#[test]
fn glues_cjk_punctuation() {
    assert_eq!(
        tidy_text("有 什 么 优 化 方 案 吗 ？ 截 图"),
        "有什么优化方案吗？截图"
    );
}

#[test]
fn keeps_newlines_and_normalizes_crlf() {
    assert_eq!(tidy_text("第一 行\r\n第二 行"), "第一行\n第二行");
}

#[test]
fn mixed_latin_in_cjk() {
    assert_eq!(tidy_text("使 用 OCR 提 取 文 字"), "使用OCR提取文字");
}

#[test]
fn is_cjk_covers_common_ranges() {
    assert!(is_cjk('汉'));
    assert!(is_cjk('，'));
    assert!(is_cjk('？'));
    assert!(!is_cjk('A'));
    assert!(!is_cjk(' '));
    assert!(!is_cjk('1'));
}

#[test]
fn lone_carriage_return_becomes_newline() {
    assert_eq!(tidy_text("a\rb"), "a\nb");
    assert_eq!(tidy_text(""), "");
    assert_eq!(tidy_text("汉  字"), "汉字");
}

#[test]
fn tidying_twice_is_tidying_once() {
    for raw in ["OCR 的 lcon 里 面", "a  b\r\nc 中 文  x", " 中  ", "Hello World", "第一 行\r第二 行"] {
        let once = tidy_text(raw);
        assert_eq!(tidy_text(&once), once);
        assert!(!once.contains('\r'));
        assert_eq!(once.replace(' ', ""), raw.replace("\r\n", "\n").replace('\r', "\n").replace(' ', ""));
    }
}
