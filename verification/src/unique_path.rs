//! File names that do not collide: a name that is taken gets a counter after
//! a hyphen at the end of its stem, and a counter that is there already is
//! raised by one.

use vstd::prelude::*;
use vstd::string::*;
use crate::paths::{extension, file_stem, join, parent};
use crate::paths::{path_extension, path_file_stem, path_join, path_parent};
use crate::text::text_of;

verus! {

/// One of the ten ASCII digits.
pub open spec fn is_digit(c: char) -> bool {
    48 <= c as u32 <= 57
}

/// The number that a digit stands for; 0 for any other character.
pub open spec fn digit_value(c: char) -> nat {
    if is_digit(c) {
        (c as u32 - 48) as nat
    } else {
        0
    }
}

/// The digit that stands for a number below ten.
pub open spec fn digit_char(d: nat) -> char {
    (d + 48) as char
}

/// Every character is a digit.
pub open spec fn all_digits(s: Seq<char>) -> bool {
    forall|i: int| 0 <= i < s.len() ==> is_digit(#[trigger] s[i])
}

/// The number that a row of digits writes in base ten.
pub open spec fn decimal_value(s: Seq<char>) -> nat
    decreases s.len(),
{
    if s.len() == 0 {
        0
    } else {
        decimal_value(s.drop_last()) * 10 + digit_value(s.last())
    }
}

/// The digits that write a number in base ten, without leading zeros.
pub open spec fn decimal_digits(n: nat) -> Seq<char>
    decreases n,
{
    if n < 10 {
        seq![digit_char(n)]
    } else {
        decimal_digits(n / 10).push(digit_char(n % 10))
    }
}

/// A text without the plus sign that may stand in front of it.
pub open spec fn unsigned_part(s: Seq<char>) -> Seq<char> {
    if s.len() > 0 && s[0] == '+' {
        s.drop_first()
    } else {
        s
    }
}

/// The counter that a text writes: one or more digits, after a plus sign or
/// without one, whose value fits in 32 bits. Leading zeros are accepted.
pub open spec fn counter_of(s: Seq<char>) -> Option<nat> {
    let digits = unsigned_part(s);
    if digits.len() > 0 && all_digits(digits) && decimal_value(digits) <= u32::MAX {
        Some(decimal_value(digits))
    } else {
        None
    }
}

/// The position of the last hyphen before `end`.
pub open spec fn last_hyphen_before(s: Seq<char>, end: int) -> Option<int>
    decreases end,
{
    if end <= 0 {
        None
    } else if s[end - 1] == '-' {
        Some(end - 1)
    } else {
        last_hyphen_before(s, end - 1)
    }
}

/// A stem taken apart at its last hyphen into a base and a counter, where
/// what follows that hyphen writes a counter.
pub open spec fn split_counter(stem: Seq<char>) -> Option<(Seq<char>, nat)> {
    match last_hyphen_before(stem, stem.len() as int) {
        Some(i) => match counter_of(stem.subrange(i + 1, stem.len() as int)) {
            Some(n) => Some((stem.subrange(0, i), n)),
            None => None,
        },
        None => None,
    }
}

/// A stem with a counter of one added to it.
pub open spec fn with_first_counter(stem: Seq<char>) -> Seq<char> {
    stem + "-"@ + decimal_digits(1)
}

/// The stem to try after `stem`: its counter raised by one, or, where it
/// ends in no counter, the whole stem with a counter of one.
pub open spec fn next_stem(stem: Seq<char>) -> Seq<char> {
    match split_counter(stem) {
        Some((base, n)) => base + "-"@ + decimal_digits(n + 1),
        None => with_first_counter(stem),
    }
}

/// The file name to try after the one made of `stem` and `extension`. A name
/// without an extension always gets a counter of one added.
pub open spec fn next_name(stem: Seq<char>, extension: Option<Seq<char>>) -> Seq<char> {
    match extension {
        Some(ext) => next_stem(stem) + "."@ + ext,
        None => with_first_counter(stem),
    }
}

/// A text that may be missing, as the empty text where it is.
pub open spec fn or_empty(o: Option<Seq<char>>) -> Seq<char> {
    match o {
        Some(s) => s,
        None => Seq::empty(),
    }
}

/// The path to try after `path`: in the same directory, with the next file
/// name. A missing directory or stem counts as empty.
pub open spec fn next_candidate(path: Seq<char>) -> Seq<char> {
    path_join(
        or_empty(path_parent(path)),
        next_name(or_empty(path_file_stem(path)), path_extension(path)),
    )
}

/// The path to go on with, once it is known whether `path` exists: `path`
/// itself where it does not, else the path to try next.
pub open spec fn resolve_step(path: Seq<char>, exists: bool) -> Seq<char> {
    if exists {
        next_candidate(path)
    } else {
        path
    }
}

/// A row of digits is worth at least as much as any beginning of it.
proof fn lemma_value_grows(s: Seq<char>, k: int)
    requires
        0 <= k <= s.len(),
    ensures
        decimal_value(s.subrange(0, k)) <= decimal_value(s),
    decreases s.len(),
{
    if k == s.len() {
        assert(s.subrange(0, k) =~= s);
    } else {
        lemma_value_grows(s.drop_last(), k);
        assert(s.drop_last().subrange(0, k) =~= s.subrange(0, k));
    }
}

/// Reads a counter.
pub fn parse_counter(s: &str) -> (r: Option<u32>)
    ensures
        match r {
            Some(n) => counter_of(s@) == Some(n as nat),
            None => counter_of(s@) is None,
        },
{
    let len: usize = s.unicode_len();
    let start: usize = if len > 0 && s.get_char(0) == '+' {
        1
    } else {
        0
    };
    if start == len {
        return None;
    }
    let ghost digits = unsigned_part(s@);
    let mut value: u64 = 0;
    let mut i: usize = start;
    while i < len
        invariant
            start <= i <= len,
            len == s@.len(),
            start <= 1,
            digits == unsigned_part(s@),
            digits.len() == len - start,
            forall|j: int| 0 <= j < digits.len() ==> digits[j] == s@[start + j],
            forall|j: int| 0 <= j < i - start ==> is_digit(#[trigger] digits[j]),
            value == decimal_value(digits.subrange(0, i - start)),
            value <= u32::MAX,
        decreases len - i,
    {
        let c: char = s.get_char(i);
        let code: u32 = c as u32;
        if code < 48 || code > 57 {
            assert(!is_digit(digits[i - start]));
            return None;
        }
        let ghost shorter = digits.subrange(0, i - start);
        let ghost longer = digits.subrange(0, i - start + 1);
        proof {
            assert(longer.drop_last() =~= shorter);
            assert(longer.last() == c);
        }
        let next: u64 = value * 10 + (code - 48) as u64;
        if next > 4294967295 {
            proof {
                lemma_value_grows(digits, i - start + 1);
            }
            return None;
        }
        value = next;
        i += 1;
    }
    proof {
        assert(digits.subrange(0, len - start) =~= digits);
    }
    Some(value as u32)
}

/// The text of one digit.
fn digit_text(d: u64) -> (r: &'static str)
    requires
        d < 10,
    ensures
        r@ == seq![digit_char(d as nat)],
{
    proof {
        reveal_strlit("0");
        reveal_strlit("1");
        reveal_strlit("2");
        reveal_strlit("3");
        reveal_strlit("4");
        reveal_strlit("5");
        reveal_strlit("6");
        reveal_strlit("7");
        reveal_strlit("8");
        reveal_strlit("9");
    }
    let r: &'static str = if d == 0 {
        "0"
    } else if d == 1 {
        "1"
    } else if d == 2 {
        "2"
    } else if d == 3 {
        "3"
    } else if d == 4 {
        "4"
    } else if d == 5 {
        "5"
    } else if d == 6 {
        "6"
    } else if d == 7 {
        "7"
    } else if d == 8 {
        "8"
    } else {
        "9"
    };
    assert(r@ =~= seq![digit_char(d as nat)]);
    r
}

/// Writes a number in base ten.
pub fn render_decimal(n: u64) -> (r: String)
    ensures
        r@ == decimal_digits(n as nat),
    decreases n,
{
    if n < 10 {
        digit_text(n).to_owned()
    } else {
        let mut r: String = render_decimal(n / 10);
        let ghost front = r@;
        r.append(digit_text(n % 10));
        assert(r@ =~= front.push(digit_char((n % 10) as nat)));
        r
    }
}

/// Finds the last hyphen.
fn find_last_hyphen(s: &str) -> (r: Option<usize>)
    ensures
        match r {
            Some(i) => last_hyphen_before(s@, s@.len() as int) == Some(i as int) && i < s@.len(),
            None => last_hyphen_before(s@, s@.len() as int) is None,
        },
{
    let len: usize = s.unicode_len();
    let mut end: usize = len;
    while end > 0
        invariant
            end <= len,
            len == s@.len(),
            last_hyphen_before(s@, len as int) == last_hyphen_before(s@, end as int),
        decreases end,
    {
        if s.get_char(end - 1) == '-' {
            return Some(end - 1);
        }
        end -= 1;
    }
    None
}

/// A stem with a counter of one added to it.
fn append_first_counter(stem: &str) -> (r: String)
    ensures
        r@ == with_first_counter(stem@),
{
    let mut r: String = stem.to_owned();
    r.append("-");
    let digits: String = render_decimal(1);
    r.append(digits.as_str());
    r
}

/// The stem to try after `stem`.
pub fn increment_stem(stem: &str) -> (r: String)
    ensures
        r@ == next_stem(stem@),
{
    match find_last_hyphen(stem) {
        Some(i) => {
            let len: usize = stem.unicode_len();
            match parse_counter(stem.substring_char(i + 1, len)) {
                Some(n) => {
                    let mut r: String = stem.substring_char(0, i).to_owned();
                    r.append("-");
                    let raised: u64 = n as u64 + 1;
                    let digits: String = render_decimal(raised);
                    r.append(digits.as_str());
                    r
                },
                None => append_first_counter(stem),
            }
        },
        None => append_first_counter(stem),
    }
}

/// The file name to try after the one made of `stem` and `extension`.
pub fn next_file_name(stem: &str, extension: Option<&str>) -> (r: String)
    ensures
        r@ == next_name(
            stem@,
            match extension {
                Some(ext) => Some(ext@),
                None => None,
            },
        ),
{
    match extension {
        Some(ext) => {
            let mut r: String = increment_stem(stem);
            r.append(".");
            r.append(ext);
            r
        },
        None => append_first_counter(stem),
    }
}

/// One step of finding a path that no file has yet. The caller says whether
/// a file exists at `file_path`: where none does, the path comes back as it
/// is; where one does, the path to ask about next comes back. Asking again
/// until no file exists gives the path to save under.
pub fn check_file_or_append(file_path: &str, exists: bool) -> (r: String)
    ensures
        r@ == resolve_step(file_path@, exists),
        !exists ==> r@ == file_path@,
{
    if !exists {
        return file_path.to_owned();
    }
    let stem: String = match file_stem(file_path) {
        Some(stem) => stem,
        None => String::new(),
    };
    let dir: String = match parent(file_path) {
        Some(dir) => dir,
        None => String::new(),
    };
    let name: String = match extension(file_path) {
        Some(ext) => next_file_name(stem.as_str(), Some(ext.as_str())),
        None => next_file_name(stem.as_str(), None),
    };
    join(dir.as_str(), name.as_str())
}

/// The path asked about after `steps` answers that a file exists.
pub open spec fn candidate(path: Seq<char>, steps: nat) -> Seq<char>
    decreases steps,
{
    if steps == 0 {
        path
    } else {
        resolve_step(candidate(path, (steps - 1) as nat), true)
    }
}

/// Asking from `path` on ends after `steps` steps, where `taken` are the
/// paths at which a file exists: every path asked about before is taken,
/// and the one reached is not.
pub open spec fn ends_after(path: Seq<char>, taken: Set<Seq<char>>, steps: nat) -> bool {
    &&& !taken.contains(candidate(path, steps))
    &&& forall|j: nat| j < steps ==> taken.contains(#[trigger] candidate(path, j))
}

/// Asking from `path` on ends at `found`.
pub open spec fn resolves_to(path: Seq<char>, taken: Set<Seq<char>>, found: Seq<char>) -> bool {
    exists|steps: nat| ends_after(path, taken, steps) && found == candidate(path, steps)
}

/// The digits of a number are digits, at least one, and write that number.
pub proof fn lemma_digits_write_number(n: nat)
    ensures
        decimal_digits(n).len() > 0,
        all_digits(decimal_digits(n)),
        decimal_value(decimal_digits(n)) == n,
    decreases n,
{
    let digits = decimal_digits(n);
    if n < 10 {
        assert(digits.drop_last() =~= Seq::<char>::empty());
        assert(decimal_value(digits.drop_last()) == 0);
        assert(digits.last() == digit_char(n));
    } else {
        lemma_digits_write_number(n / 10);
        assert(digits.drop_last() =~= decimal_digits(n / 10));
        assert(digits.last() == digit_char(n % 10));
        assert forall|i: int| 0 <= i < digits.len() implies is_digit(#[trigger] digits[i]) by {
            if i < digits.len() - 1 {
                assert(digits[i] == decimal_digits(n / 10)[i]);
            }
        }
    }
}

/// A counter that is written out is read back as it was.
pub proof fn lemma_counter_round_trip(n: nat)
    requires
        n <= u32::MAX,
    ensures
        counter_of(decimal_digits(n)) == Some(n),
{
    lemma_digits_write_number(n);
    assert(is_digit(decimal_digits(n)[0]));
}

/// Where a hyphen is followed by no other before `end`, it is the last.
proof fn lemma_last_hyphen(s: Seq<char>, i: int, end: int)
    requires
        0 <= i < end <= s.len(),
        s[i] == '-',
        forall|j: int| i < j < end ==> s[j] != '-',
    ensures
        last_hyphen_before(s, end) == Some(i),
    decreases end,
{
    if end - 1 > i {
        lemma_last_hyphen(s, i, end - 1);
    }
}

/// A text without a hyphen has no last hyphen.
proof fn lemma_no_hyphen(s: Seq<char>, end: int)
    requires
        0 <= end <= s.len(),
        forall|j: int| 0 <= j < end ==> s[j] != '-',
    ensures
        last_hyphen_before(s, end) is None,
    decreases end,
{
    if end > 0 {
        lemma_no_hyphen(s, end - 1);
    }
}

/// A stem that ends in a hyphen and a counter gets that counter raised by
/// one and keeps what stands before the hyphen: the count goes on, it does
/// not start again.
pub proof fn lemma_counter_goes_on(base: Seq<char>, n: nat)
    requires
        n <= u32::MAX,
    ensures
        next_stem(base + "-"@ + decimal_digits(n)) == base + "-"@ + decimal_digits(n + 1),
{
    reveal_strlit("-");
    lemma_digits_write_number(n);
    lemma_counter_round_trip(n);
    let digits = decimal_digits(n);
    let stem = base + "-"@ + digits;
    let at = base.len() as int;
    assert(stem[at] == '-');
    assert forall|j: int| at < j < stem.len() implies stem[j] != '-' by {
        assert(stem[j] == digits[j - at - 1]);
        assert(is_digit(digits[j - at - 1]));
    }
    lemma_last_hyphen(stem, at, stem.len() as int);
    assert(stem.subrange(at + 1, stem.len() as int) =~= digits);
    assert(stem.subrange(0, at) =~= base);
}

/// A stem without a hyphen gets `-1` added.
pub proof fn lemma_plain_stem_gets_first_counter(stem: Seq<char>)
    requires
        forall|j: int| 0 <= j < stem.len() ==> stem[j] != '-',
    ensures
        next_stem(stem) == stem + "-1"@,
{
    reveal_strlit("-");
    reveal_strlit("-1");
    lemma_no_hyphen(stem, stem.len() as int);
    assert(decimal_digits(1) =~= seq!['1']);
    assert(stem + "-"@ + decimal_digits(1) =~= stem + "-1"@);
}

/// Asking from a path on ends in one place only.
pub proof fn lemma_resolution_is_unique(
    path: Seq<char>,
    taken: Set<Seq<char>>,
    first: Seq<char>,
    second: Seq<char>,
)
    requires
        resolves_to(path, taken, first),
        resolves_to(path, taken, second),
    ensures
        first == second,
{
    let a = choose|steps: nat| ends_after(path, taken, steps) && first == candidate(path, steps);
    let b = choose|steps: nat| ends_after(path, taken, steps) && second == candidate(path, steps);
    if a < b {
        assert(taken.contains(candidate(path, a)));
    } else if b < a {
        assert(taken.contains(candidate(path, b)));
    }
}

/// A path at which no file exists is the answer itself, and the only one.
pub proof fn lemma_free_path_is_kept(path: Seq<char>, taken: Set<Seq<char>>, found: Seq<char>)
    requires
        !taken.contains(path),
    ensures
        resolve_step(path, taken.contains(path)) == path,
        resolves_to(path, taken, path),
        resolves_to(path, taken, found) ==> found == path,
{
    assert(ends_after(path, taken, 0));
    if resolves_to(path, taken, found) {
        lemma_resolution_is_unique(path, taken, found, path);
    }
}

/// Asking again from the answer gives the answer: once a path is found at
/// which no file exists, feeding it back changes nothing.
pub proof fn lemma_resolution_is_idempotent(
    path: Seq<char>,
    taken: Set<Seq<char>>,
    found: Seq<char>,
    again: Seq<char>,
)
    requires
        resolves_to(path, taken, found),
    ensures
        resolve_step(found, taken.contains(found)) == found,
        resolves_to(found, taken, found),
        resolves_to(found, taken, again) ==> again == found,
{
    lemma_free_path_is_kept(found, taken, again);
}

} // verus!
