//! Text: lower case, parts of a text, and putting texts together.

use vstd::prelude::*;
use vstd::utf8::is_ascii_chars;

verus! {

/// Whether `part` stands somewhere in `whole` as it is.
pub open spec fn is_part_of(part: Seq<char>, whole: Seq<char>) -> bool {
    exists|i: int, j: int|
        0 <= i <= j <= whole.len() && part == #[trigger] whole.subrange(i, j)
}

/// An ASCII letter in lower case; any other character as it is.
pub open spec fn ascii_lower(c: char) -> char {
    if 'A' <= c <= 'Z' {
        ((c as u32) + 32) as char
    } else {
        c
    }
}

/// A text with its ASCII letters in lower case.
pub open spec fn ascii_lowercase(s: Seq<char>) -> Seq<char> {
    s.map_values(|c: char| ascii_lower(c))
}

/// A text in lower case, as Unicode has it.
pub uninterp spec fn lowercase(s: Seq<char>) -> Seq<char>;

/// `str::to_lowercase` gives the text in lower case, as Unicode has it. This
/// names the result, and says that of a text in ASCII it is the text with the
/// letters from A to Z in lower case.
pub assume_specification[ str::to_lowercase ](s: &str) -> (r: String)
    ensures
        r@ == lowercase(s@),
        is_ascii_chars(s@) ==> r@ == ascii_lowercase(s@),
;

/// The characters of a text.
pub fn chars_of(s: &str) -> (chars: Vec<char>)
    ensures
        chars@ == s@,
{
    let mut chars: Vec<char> = Vec::new();
    for c in it: s.chars()
        invariant
            it.seq() == s@,
            chars@ == s@.take(it.index() as int),
    {
        chars.push(c);
    }
    assert(chars@ =~= s@);
    chars
}

/// Whether `a` and `b` are the same text.
pub fn same_text(a: &str, b: &str) -> (same: bool)
    ensures
        same == (a@ == b@),
{
    a.to_owned() == b.to_owned()
}

/// Whether `part` stands in `whole` at `at`.
fn stands_at(whole: &Vec<char>, part: &Vec<char>, at: usize) -> (found: bool)
    requires
        at + part@.len() <= whole@.len(),
    ensures
        found == (whole@.subrange(at as int, at + part@.len()) == part@),
{
    let mut i: usize = 0;
    let len: usize = whole.len();
    while i < part.len()
        invariant
            i <= part@.len(),
            len == whole@.len(),
            at + part@.len() <= len,
            forall|k: int| 0 <= k < i ==> whole@[at + k] == part@[k],
        decreases part@.len() - i,
    {
        if whole[at + i] != part[i] {
            assert(whole@.subrange(at as int, at + part@.len())[i as int] != part@[i as int]);
            return false;
        }
        i = i + 1;
    }
    assert(whole@.subrange(at as int, at + part@.len()) =~= part@);
    true
}

/// Whether `part` stands somewhere in `whole`.
pub fn contains_text(whole: &str, part: &str) -> (found: bool)
    ensures
        found == is_part_of(part@, whole@),
{
    let hay = chars_of(whole);
    let needle = chars_of(part);
    if needle.len() > hay.len() {
        return false;
    }
    let last: usize = hay.len() - needle.len();
    let mut at: usize = 0;
    loop
        invariant
            hay@ == whole@,
            needle@ == part@,
            at <= last,
            last == hay@.len() - needle@.len(),
            forall|i: int|
                0 <= i < at ==> #[trigger] hay@.subrange(i, i + needle@.len()) != needle@,
        decreases last - at,
    {
        if stands_at(&hay, &needle, at) {
            return true;
        }
        if at == last {
            proof {
                if is_part_of(part@, whole@) {
                    let (i, j) = choose|i: int, j: int|
                        0 <= i <= j <= whole@.len() && part@ == #[trigger] whole@.subrange(i, j);
                    assert(j == i + needle@.len());
                    assert(hay@.subrange(i, i + needle@.len()) == needle@);
                }
            }
            return false;
        }
        at = at + 1;
    }
}

/// The three texts, one after the other.
pub fn joined(first: &str, second: &str, third: &str) -> (text: String)
    ensures
        text@ == first@ + second@ + third@,
{
    let mut text = first.to_owned();
    text.append(second);
    text.append(third);
    text
}

/// A text is a part of what stands around it, and of nothing else: wherever it is
/// a part, there is a text before it and one after it.
pub proof fn law_part_of(part: Seq<char>, whole: Seq<char>, before: Seq<char>, after: Seq<char>)
    ensures
        is_part_of(part, before + part + after),
        is_part_of(part, whole) ==> exists|a: Seq<char>, b: Seq<char>| #[trigger] (a + part + b)
            == whole,
{
    let all = before + part + after;
    let i = before.len() as int;
    let j = (before.len() + part.len()) as int;
    assert(all.subrange(i, j) =~= part);
    if is_part_of(part, whole) {
        let (i, j) = choose|i: int, j: int|
            0 <= i <= j <= whole.len() && part == #[trigger] whole.subrange(i, j);
        let a = whole.subrange(0, i);
        let b = whole.subrange(j, whole.len() as int);
        assert(a + part + b =~= whole);
    }
}

/// Lower case keeps the length of a text, changes the letters from A to Z alone,
/// each to its small letter, and changes nothing the second time.
pub proof fn law_ascii_lowercase(s: Seq<char>, i: int)
    ensures
        ascii_lowercase(s).len() == s.len(),
        0 <= i < s.len() && !('A' <= s[i] <= 'Z') ==> ascii_lowercase(s)[i] == s[i],
        0 <= i < s.len() && 'A' <= s[i] <= 'Z' ==> ascii_lowercase(s)[i] as int == s[i] as int + 32,
        ascii_lowercase(ascii_lowercase(s)) == ascii_lowercase(s),
{
    assert(ascii_lowercase(ascii_lowercase(s)) =~= ascii_lowercase(s));
}

} // verus!
