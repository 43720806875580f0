use pake_util::message::{
    get_download_message_with_lang, is_chinese_locale, locale_variables, message_for,
    toast_script, MessageType,
};

fn hint(tag: &str) -> Option<String> {
    Some(tag.to_string())
}

#[test]
fn start_message_in_english() {
    let probed: Vec<Option<String>> = vec![None, None, None, None];
    assert_eq!(
        get_download_message_with_lang(MessageType::Start, hint("en-US"), &probed),
        "Start downloading~"
    );
}

#[test]
fn start_message_in_chinese() {
    let probed: Vec<Option<String>> = vec![None, None, None, None];
    assert_eq!(
        get_download_message_with_lang(MessageType::Start, hint("zh-CN"), &probed),
        "开始下载中~"
    );
}

#[test]
fn french_hint_gives_default_success_message() {
    let probed: Vec<Option<String>> = vec![None, None, None, None];
    assert_eq!(
        get_download_message_with_lang(MessageType::Success, hint("fr-FR"), &probed),
        "Download successful, saved to download directory~"
    );
}

#[test]
fn all_six_messages() {
    assert_eq!(message_for(MessageType::Start, false), "Start downloading~");
    assert_eq!(
        message_for(MessageType::Success, false),
        "Download successful, saved to download directory~"
    );
    assert_eq!(
        message_for(MessageType::Failure, false),
        "Download failed, please check your network connection~"
    );
    assert_eq!(message_for(MessageType::Start, true), "开始下载中~");
    assert_eq!(message_for(MessageType::Success, true), "下载成功，已保存到下载目录~");
    assert_eq!(message_for(MessageType::Failure, true), "下载失败，请检查你的网络连接~");
}

#[test]
fn hint_wins_over_probed_values() {
    let probed: Vec<Option<String>> = vec![hint("zh_CN.UTF-8"), None, None, None];
    assert_eq!(
        get_download_message_with_lang(MessageType::Failure, hint("en-GB"), &probed),
        "Download failed, please check your network connection~"
    );
}

#[test]
fn first_probed_value_that_is_set_decides() {
    let chinese_second: Vec<Option<String>> = vec![None, hint("zh_TW.UTF-8"), hint("en_US"), None];
    assert_eq!(
        get_download_message_with_lang(MessageType::Failure, None, &chinese_second),
        "下载失败，请检查你的网络连接~"
    );
    let english_first: Vec<Option<String>> = vec![hint("en_US.UTF-8"), hint("zh_CN"), None, None];
    assert_eq!(
        get_download_message_with_lang(MessageType::Success, None, &english_first),
        "Download successful, saved to download directory~"
    );
}

#[test]
fn nothing_set_gives_default_message() {
    let none_set: Vec<Option<String>> = vec![None, None, None, None];
    assert_eq!(
        get_download_message_with_lang(MessageType::Start, None, &none_set),
        "Start downloading~"
    );
    let empty: Vec<Option<String>> = Vec::new();
    assert_eq!(
        get_download_message_with_lang(MessageType::Start, None, &empty),
        "Start downloading~"
    );
}

#[test]
fn classification_of_tags() {
    assert!(is_chinese_locale("zh"));
    assert!(is_chinese_locale("zh-Hans"));
    assert!(is_chinese_locale("en_CN"));
    assert!(is_chinese_locale("xx-TW"));
    assert!(is_chinese_locale("yue_HK.UTF-8"));
    assert!(is_chinese_locale("CN"));
    assert!(!is_chinese_locale(""));
    assert!(!is_chinese_locale("z"));
    assert!(!is_chinese_locale("en-US"));
    assert!(!is_chinese_locale("C"));
}

#[test]
fn classification_tells_case_apart() {
    assert!(!is_chinese_locale("ZH-cn"));
    assert!(!is_chinese_locale("en_tw"));
    assert!(!is_chinese_locale("xzh"));
    assert!(is_chinese_locale("xCNx"));
}

#[test]
fn locale_variables_in_order() {
    assert_eq!(locale_variables(), vec!["LANG", "LC_ALL", "LC_MESSAGES", "LANGUAGE"]);
}

#[test]
fn toast_script_wraps_message() {
    assert_eq!(toast_script("Saved"), "pakeToast(\"Saved\");");
    assert_eq!(toast_script(""), "pakeToast(\"\");");
    assert_eq!(toast_script("a\"b"), "pakeToast(\"a\"b\");");
}
