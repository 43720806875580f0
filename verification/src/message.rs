//! The messages shown around a download, in two languages, and the rule that
//! picks the language from a locale tag.

use vstd::prelude::*;
use crate::text::{contains, has_prefix, has_substring, starts_with};

verus! {

/// The phase of a download that a message reports.
#[derive(Clone, Copy, Debug, PartialEq, Eq, Structural)]
pub enum MessageType {
    Start,
    Success,
    Failure,
}

/// A locale tag counts as Chinese when it begins with `zh` or holds `CN`,
/// `TW` or `HK` anywhere, upper and lower case told apart.
pub open spec fn is_chinese_tag(tag: Seq<char>) -> bool {
    has_prefix(tag, "zh"@) || has_substring(tag, "CN"@) || has_substring(tag, "TW"@)
        || has_substring(tag, "HK"@)
}

/// The first value that is present, in the order given.
pub open spec fn first_present(values: Seq<Option<String>>) -> Option<String>
    decreases values.len(),
{
    if values.len() == 0 {
        None
    } else if values[0] is Some {
        values[0]
    } else {
        first_present(values.drop_first())
    }
}

/// Whether the Chinese messages are to be used: the caller's tag decides
/// where there is one, else the first locale variable that is set, else no.
pub open spec fn wants_chinese(language: Option<String>, probed: Seq<Option<String>>) -> bool {
    match language {
        Some(tag) => is_chinese_tag(tag@),
        None => match first_present(probed) {
            Some(tag) => is_chinese_tag(tag@),
            None => false,
        },
    }
}

/// The text for a phase in one of the two languages.
pub open spec fn message_text(message_type: MessageType, chinese: bool) -> Seq<char> {
    match (message_type, chinese) {
        (MessageType::Start, false) => "Start downloading~"@,
        (MessageType::Success, false) => "Download successful, saved to download directory~"@,
        (MessageType::Failure, false) => "Download failed, please check your network connection~"@,
        (MessageType::Start, true) => "开始下载中~"@,
        (MessageType::Success, true) => "下载成功，已保存到下载目录~"@,
        (MessageType::Failure, true) => "下载失败，请检查你的网络连接~"@,
    }
}

/// The names of the locale variables, in the order in which they are asked.
pub open spec fn locale_variable_names() -> Seq<Seq<char>> {
    seq!["LANG"@, "LC_ALL"@, "LC_MESSAGES"@, "LANGUAGE"@]
}

/// The locale variables whose values `get_download_message_with_lang` takes,
/// in the order in which it takes them.
pub fn locale_variables() -> (names: Vec<&'static str>)
    ensures
        names@.map_values(|n: &'static str| n@) == locale_variable_names(),
{
    let mut names: Vec<&'static str> = Vec::new();
    names.push("LANG");
    names.push("LC_ALL");
    names.push("LC_MESSAGES");
    names.push("LANGUAGE");
    assert(names@.map_values(|n: &'static str| n@) =~= locale_variable_names());
    names
}

/// Classifies a locale tag.
pub fn is_chinese_locale(tag: &str) -> (r: bool)
    ensures
        r == is_chinese_tag(tag@),
{
    starts_with(tag, "zh") || contains(tag, "CN") || contains(tag, "TW") || contains(tag, "HK")
}

/// Finds the first value that is present.
fn first_set(probed: &Vec<Option<String>>) -> (r: Option<&String>)
    ensures
        match r {
            Some(tag) => first_present(probed@) == Some(*tag),
            None => first_present(probed@) is None,
        },
{
    let mut i: usize = 0;
    assert(probed@.subrange(0, probed@.len() as int) =~= probed@);
    while i < probed.len()
        invariant
            i <= probed.len(),
            first_present(probed@) == first_present(probed@.subrange(i as int, probed@.len() as int)),
        decreases probed.len() - i,
    {
        let ghost rest = probed@.subrange(i as int, probed@.len() as int);
        proof {
            assert(rest[0] == probed@[i as int]);
            assert(rest.drop_first() =~= probed@.subrange(i + 1, probed@.len() as int));
        }
        match &probed[i] {
            Some(tag) => {
                return Some(tag);
            },
            None => {},
        }
        i += 1;
    }
    None
}

/// The message for a phase in one of the two languages.
pub fn message_for(message_type: MessageType, chinese: bool) -> (r: String)
    ensures
        r@ == message_text(message_type, chinese),
{
    let text: &'static str = if chinese {
        match message_type {
            MessageType::Start => "开始下载中~",
            MessageType::Success => "下载成功，已保存到下载目录~",
            MessageType::Failure => "下载失败，请检查你的网络连接~",
        }
    } else {
        match message_type {
            MessageType::Start => "Start downloading~",
            MessageType::Success => "Download successful, saved to download directory~",
            MessageType::Failure => "Download failed, please check your network connection~",
        }
    };
    text.to_owned()
}

/// The message for a phase of a download. `language` is the caller's locale
/// tag; without one, `probed` decides: the values of the variables that
/// `locale_variables` names, in that order, each absent where the variable
/// is not set.
pub fn get_download_message_with_lang(
    message_type: MessageType,
    language: Option<String>,
    probed: &Vec<Option<String>>,
) -> (r: String)
    ensures
        r@ == message_text(message_type, wants_chinese(language, probed@)),
{
    let chinese: bool = match &language {
        Some(tag) => is_chinese_locale(tag.as_str()),
        None => match first_set(probed) {
            Some(tag) => is_chinese_locale(tag.as_str()),
            None => false,
        },
    };
    message_for(message_type, chinese)
}

/// The script that shows `message` as a toast in the window: a call of
/// `pakeToast` with the message between double quotes, as it is. A quote
/// inside the message is not escaped.
pub open spec fn toast_script_text(message: Seq<char>) -> Seq<char> {
    "pakeToast(\""@ + message + "\");"@
}

/// Builds the script that shows `message` as a toast.
pub fn toast_script(message: &str) -> (script: String)
    ensures
        script@ == toast_script_text(message@),
{
    let mut script: String = "pakeToast(\"".to_owned();
    script.append(message);
    script.append("\");");
    script
}

} // verus!
