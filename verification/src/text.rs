//! Text as sequences of characters, and the few operations on it that the
//! rest of the library needs.

use vstd::prelude::*;
use vstd::std_specs::iter::IteratorSpec;
use vstd::string::StringSliceAdditionalSpecFns;

verus! {

/// The words in which std's `String::from_utf8` turns down `bytes`.
pub uninterp spec fn utf8_refusal(bytes: Seq<u8>) -> Seq<char>;

/// Calls std's `String::from_utf8`, which accepts exactly the byte
/// sequences that are UTF-8 and then holds the characters they encode.
/// A refusal is kept as its description, which is named, not described.
#[verifier::external_body]
pub(crate) fn text_from_utf8(bytes: Vec<u8>) -> (text: Result<String, String>)
    ensures
        match text {
            Ok(t) => vstd::utf8::valid_utf8(bytes@) && t@ == vstd::utf8::decode_utf8(bytes@),
            Err(why) => !vstd::utf8::valid_utf8(bytes@) && why@ == utf8_refusal(bytes@),
        },
{
    match String::from_utf8(bytes) {
        Ok(text) => Ok(text),
        Err(why) => Err(why.to_string()),
    }
}

/// The characters of `text`, in order.
pub fn chars_of(text: &str) -> (chars: Vec<char>)
    ensures
        chars@ == text@,
{
    broadcast use vstd::string::group_string_axioms;

    let mut chars: Vec<char> = Vec::new();
    let mut rest = text.chars();
    assert(chars@ + rest.remaining() =~= text@);
    loop
        invariant
            chars@ + rest.remaining() == text@,
            rest.decrease() is Some,
        ensures
            chars@ == text@,
        decreases rest.decrease()->0,
    {
        let ghost before = rest.remaining();
        match rest.next() {
            Some(c) => {
                let ghost sofar = chars@;
                chars.push(c);
                assert(chars@ + rest.remaining() =~= sofar + before);
            },
            None => {
                assert(chars@ + before =~= chars@);
                break ;
            },
        }
    }
    chars
}

/// Whether `text` begins with `prefix`.
pub open spec fn has_prefix(text: Seq<char>, prefix: Seq<char>) -> bool {
    prefix.len() <= text.len() && text.take(prefix.len() as int) == prefix
}

/// Whether `text` begins with `prefix`.
pub fn starts_with(text: &Vec<char>, prefix: &Vec<char>) -> (yes: bool)
    ensures
        yes == has_prefix(text@, prefix@),
{
    if prefix.len() > text.len() {
        return false;
    }
    let mut i: usize = 0;
    while i < prefix.len()
        invariant
            i <= prefix@.len() <= text@.len(),
            text@.take(i as int) == prefix@.take(i as int),
        decreases prefix@.len() - i,
    {
        if text[i] != prefix[i] {
            assert(text@.take(prefix@.len() as int)[i as int] != prefix@[i as int]);
            return false;
        }
        assert(text@.take(i + 1) =~= text@.take(i as int).push(text@[i as int]));
        assert(prefix@.take(i + 1) =~= prefix@.take(i as int).push(prefix@[i as int]));
        i = i + 1;
    }
    assert(prefix@.take(prefix@.len() as int) =~= prefix@);
    true
}

/// Whether `i` is the first place at which `mark` stands in `text`.
pub open spec fn is_first_index(text: Seq<char>, mark: char, i: int) -> bool {
    &&& 0 <= i < text.len()
    &&& text[i] == mark
    &&& forall|j: int| 0 <= j < i ==> text[j] != mark
}

/// The first place at which `mark` stands in `text`.
pub fn find_char(text: &Vec<char>, mark: char) -> (place: Option<usize>)
    ensures
        match place {
            Some(i) => is_first_index(text@, mark, i as int),
            None => forall|j: int| 0 <= j < text@.len() ==> text@[j] != mark,
        },
{
    let mut i: usize = 0;
    while i < text.len()
        invariant
            i <= text@.len(),
            forall|j: int| 0 <= j < i ==> text@[j] != mark,
        decreases text@.len() - i,
    {
        if text[i] == mark {
            return Some(i);
        }
        i = i + 1;
    }
    None
}

/// The two parts of `text` around the first `mark`, which itself is left out.
pub open spec fn split_at_first(text: Seq<char>, mark: char) -> Option<(Seq<char>, Seq<char>)> {
    if exists|i: int| is_first_index(text, mark, i) {
        let i = choose|i: int| is_first_index(text, mark, i);
        Some((text.take(i), text.skip(i + 1)))
    } else {
        None
    }
}

/// Any two first places of `mark` in `text` are one and the same.
pub proof fn lemma_first_index_unique(text: Seq<char>, mark: char, i: int, j: int)
    requires
        is_first_index(text, mark, i),
        is_first_index(text, mark, j),
    ensures
        i == j,
{
    if i < j {
        assert(text[i] != mark);
    }
    if j < i {
        assert(text[j] != mark);
    }
}

/// Splits `text` at the first `mark`: what stands before it and what stands
/// after it. Without a `mark` there is nothing to split.
pub fn split_once(text: &str, mark: char) -> (parts: Option<(String, String)>)
    ensures
        match parts {
            Some((head, tail)) => split_at_first(text@, mark) == Some((head@, tail@)),
            None => split_at_first(text@, mark) is None,
        },
{
    let chars = chars_of(text);
    match find_char(&chars, mark) {
        Some(i) => {
            assert(is_first_index(text@, mark, i as int));
            assert(i < chars.len());
            let head = text.substring_char(0, i).to_owned();
            let tail = text.substring_char(i + 1, chars.len()).to_owned();
            proof {
                let k = choose|k: int| is_first_index(text@, mark, k);
                lemma_first_index_unique(text@, mark, i as int, k);
                assert(text@.take(i as int) =~= text@.subrange(0, i as int));
                assert(text@.skip(i + 1) =~= text@.subrange(i + 1, chars@.len() as int));
            }
            Some((head, tail))
        },
        None => {
            assert forall|k: int| !is_first_index(text@, mark, k) by {}
            None
        },
    }
}

/// `text` without its first character, if that is `mark`; else `text` itself.
pub open spec fn without_leading(text: Seq<char>, mark: char) -> Seq<char> {
    if text.len() > 0 && text[0] == mark {
        text.skip(1)
    } else {
        text
    }
}

/// Strips one leading `mark` from `text`.
pub fn strip_leading(text: &str, mark: char) -> (rest: String)
    ensures
        rest@ == without_leading(text@, mark),
{
    let n: usize = text.unicode_len();
    if n > 0 && text.get_char(0) == mark {
        let rest = text.substring_char(1, n).to_owned();
        assert(text@.subrange(1, n as int) =~= text@.skip(1));
        rest
    } else {
        text.to_owned()
    }
}

/// Whether two strings hold the same characters.
pub fn same_text(a: &str, b: &str) -> (same: bool)
    ensures
        same == (a@ == b@),
{
    let x = a.as_bytes();
    let y = b.as_bytes();
    proof {
        vstd::utf8::encode_utf8_decode_utf8(a@);
        vstd::utf8::encode_utf8_decode_utf8(b@);
    }
    if x.len() != y.len() {
        return false;
    }
    let mut i: usize = 0;
    while i < x.len()
        invariant
            i <= x@.len(),
            x@.len() == y@.len(),
            x@ == a.spec_bytes(),
            y@ == b.spec_bytes(),
            forall|j: int| 0 <= j < i ==> x@[j] == y@[j],
        decreases x@.len() - i,
    {
        if x[i] != y[i] {
            return false;
        }
        i = i + 1;
    }
    assert(x@ =~= y@);
    true
}

/// The code of `c`, with the capital letters of ASCII taken as small ones.
pub open spec fn folded(c: char) -> u32 {
    if 'A' <= c && c <= 'Z' {
        (c as u32 + 32) as u32
    } else {
        c as u32
    }
}

/// Whether two texts are the same but for the case of ASCII letters.
pub open spec fn same_but_case(a: Seq<char>, b: Seq<char>) -> bool {
    a.len() == b.len() && forall|i: int| 0 <= i < a.len() ==> folded(a[i]) == folded(b[i])
}

/// The code of `c`, with the capital letters of ASCII taken as small ones.
fn fold(c: char) -> (code: u32)
    ensures
        code == folded(c),
{
    if 'A' <= c && c <= 'Z' {
        c as u32 + 32
    } else {
        c as u32
    }
}

/// Whether two strings are the same but for the case of ASCII letters.
pub fn same_text_ignoring_case(a: &str, b: &str) -> (same: bool)
    ensures
        same == same_but_case(a@, b@),
{
    let x = chars_of(a);
    let y = chars_of(b);
    if x.len() != y.len() {
        return false;
    }
    let mut i: usize = 0;
    while i < x.len()
        invariant
            i <= x@.len(),
            x@.len() == y@.len(),
            x@ == a@,
            y@ == b@,
            forall|j: int| 0 <= j < i ==> folded(x@[j]) == folded(y@[j]),
        decreases x@.len() - i,
    {
        if fold(x[i]) != fold(y[i]) {
            return false;
        }
        i = i + 1;
    }
    true
}

/// The character that stands for the digit `d`.
pub open spec fn digit(d: nat) -> char {
    if d == 0 {
        '0'
    } else if d == 1 {
        '1'
    } else if d == 2 {
        '2'
    } else if d == 3 {
        '3'
    } else if d == 4 {
        '4'
    } else if d == 5 {
        '5'
    } else if d == 6 {
        '6'
    } else if d == 7 {
        '7'
    } else if d == 8 {
        '8'
    } else {
        '9'
    }
}

/// The decimal numeral of `n`, without leading zeros.
pub open spec fn decimal_text(n: nat) -> Seq<char>
    decreases n,
{
    if n < 10 {
        seq![digit(n)]
    } else {
        decimal_text(n / 10).push(digit(n % 10))
    }
}

/// The numeral of the digit `d`.
fn digit_text(d: u64) -> (text: &'static str)
    requires
        d < 10,
    ensures
        text@ == seq![digit(d as nat)],
{
    proof {
        reveal_strlit("0");
        reveal_strlit("1");
        reveal_strlit("2");
        reveal_strlit("3");
        reveal_strlit("4");
        reveal_strlit("5");
        reveal_strlit("6");
        reveal_strlit("7");
        reveal_strlit("8");
        reveal_strlit("9");
    }
    let text = if d == 0 {
        "0"
    } else if d == 1 {
        "1"
    } else if d == 2 {
        "2"
    } else if d == 3 {
        "3"
    } else if d == 4 {
        "4"
    } else if d == 5 {
        "5"
    } else if d == 6 {
        "6"
    } else if d == 7 {
        "7"
    } else if d == 8 {
        "8"
    } else {
        "9"
    };
    assert(text@ =~= seq![digit(d as nat)]);
    text
}

/// Appends the decimal numeral of `n` to `out`.
fn push_decimal(out: &mut String, n: u64)
    ensures
        final(out)@ == old(out)@ + decimal_text(n as nat),
    decreases n,
{
    if n >= 10 {
        push_decimal(out, n / 10);
        out.append(digit_text(n % 10));
        assert(out@ =~= old(out)@ + decimal_text(n as nat));
    } else {
        out.append(digit_text(n));
        assert(out@ =~= old(out)@ + decimal_text(n as nat));
    }
}

/// The decimal numeral of `n`.
pub fn decimal(n: u64) -> (text: String)
    ensures
        text@ == decimal_text(n as nat),
{
    let mut text = String::new();
    push_decimal(&mut text, n);
    assert(Seq::<char>::empty() + decimal_text(n as nat) =~= decimal_text(n as nat));
    text
}

/// `a` followed by `b`.
pub fn catenate(a: &str, b: &str) -> (text: String)
    ensures
        text@ == a@ + b@,
{
    let mut text = a.to_owned();
    text.append(b);
    text
}

} // verus!
