//! The last URL in one slot: what is written when a page is left, what is
//! taken back from the slot at the next start, and where the slot lies.

use vstd::prelude::*;
use vstd::string::*;
use crate::paths::{join, path_join};
use crate::text::{has_prefix, starts_with, text_of};

verus! {

/// The whitespace of Unicode: the 25 characters that have the property
/// `White_Space`, which are those that `char::is_whitespace` accepts.
pub open spec fn is_whitespace(c: char) -> bool {
    let code = c as u32;
    ||| 0x09 <= code <= 0x0D
    ||| code == 0x20
    ||| code == 0x85
    ||| code == 0xA0
    ||| code == 0x1680
    ||| 0x2000 <= code <= 0x200A
    ||| code == 0x2028
    ||| code == 0x2029
    ||| code == 0x202F
    ||| code == 0x205F
    ||| code == 0x3000
}

/// Whether a character is whitespace.
pub fn is_whitespace_char(c: char) -> (r: bool)
    ensures
        r == is_whitespace(c),
{
    let code: u32 = c as u32;
    (0x09 <= code && code <= 0x0D) || code == 0x20 || code == 0x85 || code == 0xA0
        || code == 0x1680 || (0x2000 <= code && code <= 0x200A) || code == 0x2028
        || code == 0x2029 || code == 0x202F || code == 0x205F || code == 0x3000
}

/// A URL of the web: it begins with `http://` or `https://`.
pub open spec fn is_web_url(url: Seq<char>) -> bool {
    has_prefix(url, "http://"@) || has_prefix(url, "https://"@)
}

/// The first position from `i` on that holds no whitespace.
pub open spec fn skip_whitespace(s: Seq<char>, i: int) -> int
    decreases s.len() - i,
{
    if 0 <= i < s.len() && is_whitespace(s[i]) {
        skip_whitespace(s, i + 1)
    } else {
        i
    }
}

/// The end of `s` once the whitespace before `end` is left off, not going
/// below `start`.
pub open spec fn drop_whitespace(s: Seq<char>, start: int, end: int) -> int
    decreases end - start,
{
    if start < end <= s.len() && is_whitespace(s[end - 1]) {
        drop_whitespace(s, start, end - 1)
    } else {
        end
    }
}

/// A text without the whitespace at its two ends.
pub open spec fn trimmed(s: Seq<char>) -> Seq<char> {
    let start = skip_whitespace(s, 0);
    s.subrange(start, drop_whitespace(s, start, s.len() as int))
}

/// What a save writes into the slot: the URL as it is, if it is of the web;
/// nothing for any other.
pub open spec fn content_to_save(url: Seq<char>) -> Option<Seq<char>> {
    if is_web_url(url) {
        Some(url)
    } else {
        None
    }
}

/// The slot after a save: a URL of the web takes the place of what was
/// there, any other leaves the slot as it was.
pub open spec fn slot_after_save(slot: Option<Seq<char>>, url: Seq<char>) -> Option<Seq<char>> {
    match content_to_save(url) {
        Some(content) => Some(content),
        None => slot,
    }
}

/// The URL that a slot gives back. A slot that is missing, empty, all
/// whitespace, or that holds anything but a URL of the web gives none.
pub open spec fn remembered_url(slot: Option<Seq<char>>) -> Option<Seq<char>> {
    match slot {
        Some(content) => {
            let url = trimmed(content);
            if url.len() == 0 {
                None
            } else if is_web_url(url) {
                Some(url)
            } else {
                None
            }
        },
        None => None,
    }
}

/// The name of the directory used where the product has no name.
pub open spec fn default_package_name() -> Seq<char> {
    "pake"@
}

/// The name of the directory of a product: the product's name, or the
/// default for a product without one.
pub open spec fn package_name_of(product_name: Option<Seq<char>>) -> Seq<char> {
    match product_name {
        Some(name) => name,
        None => default_package_name(),
    }
}

/// The path of the slot: the file `last_url.txt` in the directory of the
/// product below the configuration root.
pub open spec fn last_url_path(config_dir: Seq<char>, product_name: Option<Seq<char>>) -> Seq<char> {
    path_join(path_join(config_dir, package_name_of(product_name)), "last_url.txt"@)
}

/// The message for a save that failed, made from the cause.
pub open spec fn save_error_text(cause: Seq<char>) -> Seq<char> {
    "Failed to save URL: "@ + cause
}

/// Whether `url` is a URL of the web.
pub fn is_web_url_str(url: &str) -> (r: bool)
    ensures
        r == is_web_url(url@),
{
    starts_with(url, "http://") || starts_with(url, "https://")
}

/// A text without the whitespace at its two ends.
pub fn trim(s: &str) -> (r: &str)
    ensures
        r@ == trimmed(s@),
{
    let len: usize = s.unicode_len();
    let mut start: usize = 0;
    let mut scanning: bool = true;
    while scanning && start < len
        invariant
            start <= len,
            len == s@.len(),
            skip_whitespace(s@, 0) == skip_whitespace(s@, start as int),
            !scanning ==> start < len && !is_whitespace(s@[start as int]),
        decreases len - start + if scanning { 1int } else { 0int },
    {
        if is_whitespace_char(s.get_char(start)) {
            start += 1;
        } else {
            scanning = false;
        }
    }
    let mut end: usize = len;
    scanning = true;
    while scanning && start < end
        invariant
            start <= end <= len,
            len == s@.len(),
            drop_whitespace(s@, start as int, len as int) == drop_whitespace(
                s@,
                start as int,
                end as int,
            ),
            !scanning ==> start < end && !is_whitespace(s@[end - 1]),
        decreases end - start + if scanning { 1int } else { 0int },
    {
        if is_whitespace_char(s.get_char(end - 1)) {
            end -= 1;
        } else {
            scanning = false;
        }
    }
    s.substring_char(start, end)
}

/// What to write into the slot when `url` is to be remembered: the URL as it
/// is, or nothing for one that is not of the web, which is no error.
pub fn save_last_url(url: &str) -> (r: Option<String>)
    ensures
        text_of(r) == content_to_save(url@),
{
    if is_web_url_str(url) {
        Some(url.to_owned())
    } else {
        None
    }
}

/// The URL to go back to, from what the slot holds. `content` is the
/// slot's text, or nothing where the slot is missing or cannot be read.
pub fn load_last_url(content: Option<String>) -> (r: Option<String>)
    ensures
        text_of(r) == remembered_url(text_of(content)),
        content is None ==> r is None,
        content is Some && trimmed(content->0@).len() == 0 ==> r is None,
        content is Some && !is_web_url(trimmed(content->0@)) ==> r is None,
{
    match content {
        Some(text) => {
            let url: &str = trim(text.as_str());
            if url.unicode_len() == 0 {
                None
            } else if is_web_url_str(url) {
                Some(url.to_owned())
            } else {
                None
            }
        },
        None => None,
    }
}

/// The message that reports a save that failed for `cause`.
pub fn save_error_message(cause: &str) -> (r: String)
    ensures
        r@ == save_error_text(cause@),
{
    let mut r: String = "Failed to save URL: ".to_owned();
    r.append(cause);
    r
}

/// The directory of a package below the configuration root. The caller
/// makes sure that it exists.
pub fn get_data_dir(config_dir: &str, package_name: &str) -> (r: String)
    ensures
        r@ == path_join(config_dir@, package_name@),
{
    join(config_dir, package_name)
}

/// The name of the directory of a product. A product without a name is
/// filed under `pake`.
pub fn package_name(product_name: Option<String>) -> (r: String)
    ensures
        r@ == package_name_of(text_of(product_name)),
{
    match product_name {
        Some(name) => name,
        None => "pake".to_owned(),
    }
}

/// The path of the slot for a product below the configuration root.
pub fn get_last_url_path(config_dir: &str, product_name: Option<String>) -> (r: String)
    ensures
        r@ == last_url_path(config_dir@, text_of(product_name)),
{
    let package: String = package_name(product_name);
    let dir: String = get_data_dir(config_dir, package.as_str());
    join(dir.as_str(), "last_url.txt")
}

/// From `i` on, everything before the first position without whitespace
/// is whitespace, and that position, if the text goes so far, holds none.
pub proof fn lemma_skip_whitespace(s: Seq<char>, i: int)
    requires
        0 <= i <= s.len(),
    ensures
        i <= skip_whitespace(s, i) <= s.len(),
        forall|j: int| i <= j < skip_whitespace(s, i) ==> is_whitespace(s[j]),
        skip_whitespace(s, i) < s.len() ==> !is_whitespace(s[skip_whitespace(s, i)]),
    decreases s.len() - i,
{
    if i < s.len() && is_whitespace(s[i]) {
        lemma_skip_whitespace(s, i + 1);
    }
}

/// Before `end`, everything from the end that is left is whitespace, and
/// what stands just before that end, if it lies after `start`, is none.
pub proof fn lemma_drop_whitespace(s: Seq<char>, start: int, end: int)
    requires
        0 <= start <= end <= s.len(),
    ensures
        start <= drop_whitespace(s, start, end) <= end,
        forall|j: int| drop_whitespace(s, start, end) <= j < end ==> is_whitespace(s[j]),
        drop_whitespace(s, start, end) > start ==> !is_whitespace(
            s[drop_whitespace(s, start, end) - 1],
        ),
    decreases end - start,
{
    if start < end && is_whitespace(s[end - 1]) {
        lemma_drop_whitespace(s, start, end - 1);
    }
}

/// A text that is empty, or that neither begins nor ends with whitespace,
/// is left as it is.
pub proof fn lemma_trim_keeps_bare_text(s: Seq<char>)
    requires
        s.len() == 0 || (!is_whitespace(s[0]) && !is_whitespace(s.last())),
    ensures
        trimmed(s) == s,
{
    assert(skip_whitespace(s, 0) == 0);
    assert(drop_whitespace(s, 0, s.len() as int) == s.len());
    assert(s.subrange(0, s.len() as int) =~= s);
}

/// Trimming what is trimmed changes nothing.
pub proof fn lemma_trim_is_idempotent(s: Seq<char>)
    ensures
        trimmed(trimmed(s)) == trimmed(s),
{
    let start = skip_whitespace(s, 0);
    lemma_skip_whitespace(s, 0);
    let end = drop_whitespace(s, start, s.len() as int);
    lemma_drop_whitespace(s, start, s.len() as int);
    let inner = s.subrange(start, end);
    if start < end {
        assert(inner[0] == s[start]);
        assert(inner.last() == s[end - 1]);
    }
    lemma_trim_keeps_bare_text(inner);
}

/// A URL of the web does not begin with whitespace, so it is left as it is
/// by trimming if it does not end with any.
pub proof fn lemma_web_url_is_bare(url: Seq<char>)
    requires
        is_web_url(url),
        !is_whitespace(url.last()),
    ensures
        url.len() > 0,
        trimmed(url) == url,
{
    reveal_strlit("http://");
    reveal_strlit("https://");
    if has_prefix(url, "http://"@) {
        assert(url[0] == url.subrange(0, 7)[0]);
    } else {
        assert(url[0] == url.subrange(0, 8)[0]);
    }
    assert(url[0] == 'h');
    lemma_trim_keeps_bare_text(url);
}

/// Saving and then loading gives back exactly the URLs of the web: after a
/// save of `url` the slot gives `url` back if and only if `url` begins with
/// `http://` or `https://`, and a save of any other URL leaves the slot as it
/// was. A URL of the web does not end with whitespace here, since loading
/// leaves that off.
pub proof fn lemma_save_then_load(slot: Option<Seq<char>>, url: Seq<char>)
    requires
        is_web_url(url) ==> !is_whitespace(url.last()),
    ensures
        remembered_url(slot_after_save(slot, url)) == Some(url) <==> is_web_url(url),
        !is_web_url(url) ==> slot_after_save(slot, url) == slot,
{
    if is_web_url(url) {
        lemma_web_url_is_bare(url);
    }
}

/// What was loaded can be saved and loaded again, and comes back as it is.
pub proof fn lemma_loaded_url_round_trips(slot: Option<Seq<char>>, other: Option<Seq<char>>)
    requires
        remembered_url(slot) is Some,
    ensures
        remembered_url(slot_after_save(other, remembered_url(slot)->0)) == remembered_url(slot),
{
    lemma_trim_is_idempotent(slot->0);
}

/// Loading gives nothing but the slot's text without the whitespace at its
/// two ends, and that only where it is a URL of the web.
pub proof fn lemma_loaded_is_web_url(slot: Option<Seq<char>>)
    ensures
        match remembered_url(slot) {
            Some(url) => slot is Some && url == trimmed(slot->0) && is_web_url(url),
            None => true,
        },
{
}

} // verus!
