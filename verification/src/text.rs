//! Text helpers: comparison, search and rewriting of strings, stated over the sequence of
//! characters that a string holds.
use vstd::prelude::*;
use vstd::string::*;
use vstd::utf8::encode_utf8;

verus! {

/// `String::push`: the pushed character becomes the last one.
pub assume_specification[ String::push ](s: &mut String, c: char)
    ensures
        final(s)@ == old(s)@.push(c),
;

/// The characters with the Unicode property `White_Space`.
pub open spec fn is_white(c: char) -> bool {
    ||| '\u{9}' <= c <= '\u{d}'
    ||| c == ' '
    ||| c == '\u{85}'
    ||| c == '\u{a0}'
    ||| c == '\u{1680}'
    ||| '\u{2000}' <= c <= '\u{200a}'
    ||| c == '\u{2028}'
    ||| c == '\u{2029}'
    ||| c == '\u{202f}'
    ||| c == '\u{205f}'
    ||| c == '\u{3000}'
}

/// The control characters, category `Cc`.
pub open spec fn is_control(c: char) -> bool {
    c <= '\u{1f}' || '\u{7f}' <= c <= '\u{9f}'
}

/// Lower case for `A` to `Z`; every other character stays.
pub open spec fn lower(c: char) -> char {
    if 'A' <= c <= 'Z' {
        (((c as u8) + 32) as u8) as char
    } else {
        c
    }
}

/// `lower` on each character.
pub open spec fn lower_all(s: Seq<char>) -> Seq<char> {
    s.map_values(|c: char| lower(c))
}

/// Whether `needle` occurs in `s` at position `at`.
pub open spec fn occurs_at(s: Seq<char>, needle: Seq<char>, at: int) -> bool {
    0 <= at && at + needle.len() <= s.len() && s.subrange(at, at + needle.len()) == needle
}

/// Whether `needle` occurs anywhere in `s`.
pub open spec fn contains(s: Seq<char>, needle: Seq<char>) -> bool {
    exists|at: int| occurs_at(s, needle, at)
}

/// Whether `s` begins with `prefix`.
pub open spec fn begins_with(s: Seq<char>, prefix: Seq<char>) -> bool {
    occurs_at(s, prefix, 0)
}

/// The text that an optional string holds.
pub open spec fn text_view(text: Option<String>) -> Option<Seq<char>> {
    match text {
        Some(text) => Some(text@),
        None => None,
    }
}

/// What an optional string slice holds.
pub open spec fn str_view(text: Option<&str>) -> Option<Seq<char>> {
    match text {
        Some(text) => Some(text@),
        None => None,
    }
}

/// How many bytes a text has in UTF-8.
pub open spec fn byte_len(s: Seq<char>) -> nat {
    encode_utf8(s).len()
}

/// How many bytes a text has in UTF-8.
pub fn utf8_len(s: &str) -> (r: usize)
    ensures
        r == byte_len(s@),
{
    s.as_bytes().len()
}

pub fn is_white_char(c: char) -> (r: bool)
    ensures
        r == is_white(c),
{
    ('\u{9}' <= c && c <= '\u{d}') || c == ' ' || c == '\u{85}' || c == '\u{a0}' || c == '\u{1680}'
        || ('\u{2000}' <= c && c <= '\u{200a}') || c == '\u{2028}' || c == '\u{2029}'
        || c == '\u{202f}' || c == '\u{205f}' || c == '\u{3000}'
}

pub fn is_control_char(c: char) -> (r: bool)
    ensures
        r == is_control(c),
{
    c <= '\u{1f}' || ('\u{7f}' <= c && c <= '\u{9f}')
}

pub fn lower_char(c: char) -> (r: char)
    ensures
        r == lower(c),
{
    if 'A' <= c && c <= 'Z' {
        ((c as u8) + 32) as char
    } else {
        c
    }
}

/// The characters of a string, in order.
pub fn chars_of(s: &str) -> (r: Vec<char>)
    ensures
        r@ == s@,
{
    let mut out: Vec<char> = Vec::new();
    for c in it: s.chars()
        invariant
            out@ == s@.subrange(0, it.index() as int),
            it.seq() == s@,
    {
        out.push(c);
    }
    proof {
        assert(s@.subrange(0, s@.len() as int) == s@);
    }
    out
}

/// The string that holds the given characters.
pub fn string_of(chars: &[char]) -> (r: String)
    ensures
        r@ == chars@,
{
    let mut out: String = String::new();
    let mut i: usize = 0;
    while i < chars.len()
        invariant
            i <= chars@.len(),
            out@ == chars@.subrange(0, i as int),
        decreases chars@.len() - i,
    {
        out.push(chars[i]);
        i = i + 1;
        proof {
            assert(chars@.subrange(0, i as int) =~= chars@.subrange(0, i - 1).push(chars@[i - 1]));
        }
    }
    proof {
        assert(chars@.subrange(0, chars@.len() as int) =~= chars@);
    }
    out
}

pub fn same_text(a: &str, b: &str) -> (r: bool)
    ensures
        r == (a@ == b@),
{
    a.to_owned() == b.to_owned()
}

/// A text without the white space at its beginning.
pub open spec fn trim_start(s: Seq<char>) -> Seq<char>
    decreases s.len(),
{
    if s.len() > 0 && is_white(s[0]) {
        trim_start(s.drop_first())
    } else {
        s
    }
}

/// A text without the white space at its end.
pub open spec fn trim_end(s: Seq<char>) -> Seq<char>
    decreases s.len(),
{
    if s.len() > 0 && is_white(s.last()) {
        trim_end(s.drop_last())
    } else {
        s
    }
}

/// A text without the white space at its beginning and its end.
pub open spec fn trim(s: Seq<char>) -> Seq<char> {
    trim_end(trim_start(s))
}

/// What separates the parts of a text.
#[derive(Debug, Clone, Copy, PartialEq, Eq, Structural)]
pub enum Separator {
    White,
    Slash,
}

/// Whether a character is a separator.
pub open spec fn separates(by: Separator, c: char) -> bool {
    match by {
        Separator::White => is_white(c),
        Separator::Slash => c == '/',
    }
}

pub fn is_separator(by: Separator, c: char) -> (r: bool)
    ensures
        r == separates(by, c),
{
    match by {
        Separator::White => is_white_char(c),
        Separator::Slash => c == '/',
    }
}

/// How many characters of a text come before its first separator.
pub open spec fn word_len(by: Separator, s: Seq<char>) -> nat
    decreases s.len(),
{
    if s.len() == 0 || separates(by, s[0]) {
        0
    } else {
        1 + word_len(by, s.drop_first())
    }
}

pub proof fn lemma_word_len(by: Separator, s: Seq<char>)
    ensures
        word_len(by, s) <= s.len(),
        forall|i: int| 0 <= i < word_len(by, s) ==> !separates(by, #[trigger] s[i]),
        word_len(by, s) < s.len() ==> separates(by, s[word_len(by, s) as int]),
    decreases s.len(),
{
    if s.len() > 0 && !separates(by, s[0]) {
        lemma_word_len(by, s.drop_first());
        assert forall|i: int| 0 <= i < word_len(by, s) implies !separates(by, #[trigger] s[i]) by {
            if i > 0 {
                assert(s[i] == s.drop_first()[i - 1]);
            }
        }
    }
}

proof fn lemma_word_len_is(by: Separator, s: Seq<char>, n: int)
    requires
        0 <= n <= s.len(),
        forall|i: int| 0 <= i < n ==> !separates(by, #[trigger] s[i]),
        n < s.len() ==> separates(by, s[n]),
    ensures
        word_len(by, s) == n,
    decreases s.len(),
{
    if n > 0 {
        assert(!separates(by, s[0]));
        assert forall|i: int| 0 <= i < n - 1 implies !separates(by, #[trigger] s.drop_first()[i]) by {
            assert(s.drop_first()[i] == s[i + 1]);
        }
        lemma_word_len_is(by, s.drop_first(), n - 1);
    }
}

/// The parts of a text: what its runs of separators separate.
pub open spec fn words(by: Separator, s: Seq<char>) -> Seq<Seq<char>>
    decreases s.len(),
{
    if s.len() == 0 {
        Seq::empty()
    } else if separates(by, s[0]) {
        words(by, s.drop_first())
    } else {
        let n = word_len(by, s) as int;
        if 0 < n <= s.len() {
            seq![s.subrange(0, n)] + words(by, s.subrange(n, s.len() as int))
        } else {
            Seq::empty()
        }
    }
}

/// Separators alone hold no part.
pub proof fn lemma_no_words(by: Separator, s: Seq<char>)
    requires
        forall|i: int| 0 <= i < s.len() ==> separates(by, #[trigger] s[i]),
    ensures
        words(by, s) == Seq::<Seq<char>>::empty(),
    decreases s.len(),
{
    if s.len() > 0 {
        assert forall|i: int| 0 <= i < s.drop_first().len() implies separates(
            by,
            #[trigger] s.drop_first()[i],
        ) by {
            assert(s.drop_first()[i] == s[i + 1]);
        }
        lemma_no_words(by, s.drop_first());
    }
}

/// Separators at the end of a text do not change its parts.
pub proof fn lemma_words_before_separators(by: Separator, s: Seq<char>, n: int)
    requires
        0 <= n <= s.len(),
        forall|i: int| n <= i < s.len() ==> separates(by, #[trigger] s[i]),
    ensures
        words(by, s.subrange(0, n)) == words(by, s),
    decreases n,
{
    let bare = s.subrange(0, n);
    if n == 0 {
        lemma_no_words(by, s);
    } else if separates(by, s[0]) {
        let rest = s.drop_first();
        assert forall|i: int| n - 1 <= i < rest.len() implies separates(by, #[trigger] rest[i]) by {
            assert(rest[i] == s[i + 1]);
        }
        lemma_words_before_separators(by, rest, n - 1);
        assert(bare.drop_first() =~= rest.subrange(0, n - 1));
    } else {
        lemma_word_len(by, s);
        lemma_word_len(by, bare);
        let k = word_len(by, s) as int;
        let m = word_len(by, bare) as int;
        assert(k > 0 && m > 0);
        assert(m == k) by {
            if m < k {
                assert(m < n ==> bare[m] == s[m]);
                if m == n {
                    assert(separates(by, s[m]));
                }
                assert(!separates(by, s[m]));
            }
            if k < m {
                assert(bare[k] == s[k]);
                assert(!separates(by, bare[k]));
            }
        }
        let rest = s.subrange(k, s.len() as int);
        assert forall|i: int| n - k <= i < rest.len() implies separates(by, #[trigger] rest[i]) by {
            assert(rest[i] == s[i + k]);
        }
        lemma_words_before_separators(by, rest, n - k);
        assert(bare.subrange(k, n) =~= rest.subrange(0, n - k));
        assert(bare.subrange(0, k) =~= s.subrange(0, k));
    }
}

proof fn lemma_trim_start(s: Seq<char>)
    ensures
        words(Separator::White, trim_start(s)) == words(Separator::White, s),
    decreases s.len(),
{
    if s.len() > 0 && is_white(s[0]) {
        lemma_trim_start(s.drop_first());
    }
}

proof fn lemma_trim_end(s: Seq<char>)
    ensures
        words(Separator::White, trim_end(s)) == words(Separator::White, s),
    decreases s.len(),
{
    if s.len() > 0 && is_white(s.last()) {
        lemma_trim_end(s.drop_last());
        lemma_words_before_separators(Separator::White, s, s.len() - 1);
        assert(s.subrange(0, s.len() - 1) =~= s.drop_last());
    }
}

/// White space around a text does not change its words.
pub proof fn lemma_trimmed_words(s: Seq<char>)
    ensures
        words(Separator::White, trim(s)) == words(Separator::White, s),
{
    lemma_trim_start(s);
    lemma_trim_end(trim_start(s));
}

/// Texts put together with a separator between them.
pub open spec fn join(parts: Seq<Seq<char>>, separator: Seq<char>) -> Seq<char>
    decreases parts.len(),
{
    if parts.len() == 0 {
        Seq::empty()
    } else if parts.len() == 1 {
        parts[0]
    } else {
        join(parts.drop_last(), separator) + separator + parts.last()
    }
}

/// The views of a list of character lists.
pub open spec fn char_lists(parts: Seq<Vec<char>>) -> Seq<Seq<char>> {
    parts.map_values(|part: Vec<char>| part@)
}

pub fn trim_chars(s: &[char]) -> (r: Vec<char>)
    ensures
        r@ == trim(s@),
{
    let mut from: usize = 0;
    assert(s@.subrange(0, s@.len() as int) =~= s@);
    while from < s.len() && is_white_char(s[from])
        invariant
            from <= s@.len(),
            trim_start(s@) == trim_start(s@.subrange(from as int, s@.len() as int)),
        decreases s@.len() - from,
    {
        proof {
            assert(s@.subrange(from as int, s@.len() as int).drop_first() =~= s@.subrange(
                from + 1,
                s@.len() as int,
            ));
        }
        from = from + 1;
    }
    let mut to: usize = s.len();
    let ghost start = s@.subrange(from as int, s@.len() as int);
    assert(trim_start(s@) == start);
    while from < to && is_white_char(s[to - 1])
        invariant
            from <= to <= s@.len(),
            trim_end(start) == trim_end(s@.subrange(from as int, to as int)),
        decreases to,
    {
        proof {
            assert(s@.subrange(from as int, to as int).drop_last() =~= s@.subrange(
                from as int,
                to - 1,
            ));
        }
        to = to - 1;
    }
    copy_range(s, from, to)
}

/// The characters from one position up to another.
pub fn copy_range(s: &[char], from: usize, to: usize) -> (r: Vec<char>)
    requires
        from <= to <= s@.len(),
    ensures
        r@ == s@.subrange(from as int, to as int),
{
    let mut out: Vec<char> = Vec::new();
    let mut i: usize = from;
    while i < to
        invariant
            from <= i <= to <= s@.len(),
            out@ == s@.subrange(from as int, i as int),
        decreases to - i,
    {
        out.push(s[i]);
        i = i + 1;
        proof {
            assert(s@.subrange(from as int, i as int) =~= s@.subrange(from as int, i - 1).push(
                s@[i - 1],
            ));
        }
    }
    out
}

/// The parts of a text.
pub fn split_words(by: Separator, s: &[char]) -> (r: Vec<Vec<char>>)
    ensures
        char_lists(r@) == words(by, s@),
{
    let mut out: Vec<Vec<char>> = Vec::new();
    let mut at: usize = 0;
    proof {
        assert(s@.subrange(0, s@.len() as int) =~= s@);
        assert(char_lists(out@) =~= Seq::<Seq<char>>::empty());
        assert(char_lists(out@) + words(by, s@) =~= words(by, s@));
    }
    while at < s.len()
        invariant
            at <= s@.len(),
            words(by, s@) == char_lists(out@) + words(by, s@.subrange(at as int, s@.len() as int)),
        decreases s@.len() - at,
    {
        let ghost rest = s@.subrange(at as int, s@.len() as int);
        if is_separator(by, s[at]) {
            proof {
                assert(rest.drop_first() =~= s@.subrange(at + 1, s@.len() as int));
            }
            at = at + 1;
        } else {
            let mut end: usize = at;
            while end < s.len() && !is_separator(by, s[end])
                invariant
                    at <= end <= s@.len(),
                    rest == s@.subrange(at as int, s@.len() as int),
                    forall|i: int| 0 <= i < end - at ==> !separates(by, #[trigger] rest[i]),
                decreases s@.len() - end,
            {
                proof {
                    assert(rest[end - at] == s@[end as int]);
                }
                end = end + 1;
            }
            let ghost before = out@;
            out.push(copy_range(s, at, end));
            proof {
                if end < s@.len() {
                    assert(rest[end - at] == s@[end as int]);
                }
                lemma_word_len_is(by, rest, end - at);
                assert(rest[0] == s@[at as int]);
                assert(end > at);
                assert(rest.subrange(0, end - at) =~= s@.subrange(at as int, end as int));
                assert(rest.subrange(end - at, rest.len() as int) =~= s@.subrange(
                    end as int,
                    s@.len() as int,
                ));
                assert(char_lists(out@) =~= char_lists(before).push(
                    s@.subrange(at as int, end as int),
                ));
                assert(char_lists(before) + (seq![s@.subrange(at as int, end as int)] + words(
                    by,
                    s@.subrange(end as int, s@.len() as int),
                )) =~= char_lists(out@) + words(by, s@.subrange(end as int, s@.len() as int)));
            }
            at = end;
        }
    }
    proof {
        assert(s@.subrange(at as int, s@.len() as int) =~= Seq::<char>::empty());
        assert(char_lists(out@) + Seq::<Seq<char>>::empty() =~= char_lists(out@));
    }
    out
}

/// Appends characters to a list.
pub fn push_all(out: &mut Vec<char>, more: &[char])
    ensures
        final(out)@ == old(out)@ + more@,
{
    let mut i: usize = 0;
    proof {
        assert(out@ + more@.subrange(0, 0) =~= out@);
    }
    while i < more.len()
        invariant
            i <= more@.len(),
            out@ == old(out)@ + more@.subrange(0, i as int),
        decreases more@.len() - i,
    {
        out.push(more[i]);
        i = i + 1;
        proof {
            assert(more@.subrange(0, i as int) =~= more@.subrange(0, i - 1).push(more@[i - 1]));
            assert((old(out)@ + more@.subrange(0, i - 1)).push(more@[i - 1]) =~= old(out)@
                + more@.subrange(0, i as int));
        }
    }
    proof {
        assert(more@.subrange(0, more@.len() as int) =~= more@);
    }
}

/// Puts texts together with a separator between them.
pub fn join_chars(parts: &Vec<Vec<char>>, separator: &str) -> (r: Vec<char>)
    ensures
        r@ == join(char_lists(parts@), separator@),
{
    let glue = chars_of(separator);
    let mut out: Vec<char> = Vec::new();
    let mut i: usize = 0;
    let ghost lists = char_lists(parts@);
    while i < parts.len()
        invariant
            i <= parts@.len(),
            lists == char_lists(parts@),
            glue@ == separator@,
            out@ == join(lists.subrange(0, i as int), separator@),
        decreases parts@.len() - i,
    {
        let ghost done = out@;
        if i > 0 {
            push_all(&mut out, glue.as_slice());
        }
        push_all(&mut out, parts[i].as_slice());
        i = i + 1;
        proof {
            let upto = lists.subrange(0, i as int);
            assert(upto.drop_last() =~= lists.subrange(0, i - 1));
            assert(upto.last() == parts@[i - 1]@);
            if i == 1 {
                assert(out@ =~= upto[0]);
            } else {
                assert(out@ =~= done + separator@ + upto.last());
            }
        }
    }
    proof {
        assert(lists.subrange(0, parts@.len() as int) =~= lists);
    }
    out
}

/// Lower case for `A` to `Z` in every character.
pub fn lower_chars(s: &[char]) -> (r: Vec<char>)
    ensures
        r@ == lower_all(s@),
{
    let mut out: Vec<char> = Vec::new();
    let mut i: usize = 0;
    while i < s.len()
        invariant
            i <= s@.len(),
            out@.len() == i,
            forall|j: int| 0 <= j < i ==> #[trigger] out@[j] == lower(s@[j]),
        decreases s@.len() - i,
    {
        out.push(lower_char(s[i]));
        i = i + 1;
    }
    proof {
        assert(out@ =~= lower_all(s@));
    }
    out
}

/// Whether `needle` occurs in `s` at position `at`.
pub fn occurs_chars_at(s: &[char], needle: &[char], at: usize) -> (r: bool)
    ensures
        r == occurs_at(s@, needle@, at as int),
{
    if needle.len() > s.len() || at > s.len() - needle.len() {
        return false;
    }
    let total: usize = s.len();
    let mut i: usize = 0;
    while i < needle.len()
        invariant
            i <= needle@.len(),
            at + needle@.len() <= s@.len(),
            total == s@.len(),
            forall|j: int| 0 <= j < i ==> s@[at + j] == #[trigger] needle@[j],
        decreases needle@.len() - i,
    {
        if s[at + i] != needle[i] {
            proof {
                assert(s@.subrange(at as int, at + needle@.len())[i as int] == s@[at + i]);
            }
            return false;
        }
        i = i + 1;
    }
    proof {
        assert(s@.subrange(at as int, at + needle@.len()) =~= needle@);
    }
    true
}

/// Whether `needle` occurs anywhere in `s`.
pub fn contains_text(s: &[char], needle: &str) -> (r: bool)
    ensures
        r == contains(s@, needle@),
{
    let sought = chars_of(needle);
    let mut at: usize = 0;
    while at < s.len()
        invariant
            at <= s@.len(),
            forall|i: int| 0 <= i < at ==> !#[trigger] occurs_at(s@, needle@, i),
            sought@ == needle@,
        decreases s@.len() - at,
    {
        if occurs_chars_at(s, sought.as_slice(), at) {
            return true;
        }
        at = at + 1;
    }
    occurs_chars_at(s, sought.as_slice(), at)
}

/// Whether `s` begins with `prefix`.
pub fn begins_with_text(s: &[char], prefix: &str) -> (r: bool)
    ensures
        r == begins_with(s@, prefix@),
{
    let prefix = chars_of(prefix);
    occurs_chars_at(s, prefix.as_slice(), 0)
}

/// Whether the characters are those of a text.
pub fn chars_are(s: &[char], text: &str) -> (r: bool)
    ensures
        r == (s@ == text@),
{
    let text = chars_of(text);
    if s.len() != text.len() {
        return false;
    }
    let r = occurs_chars_at(s, text.as_slice(), 0);
    proof {
        assert(s@.subrange(0, s@.len() as int) =~= s@);
    }
    r
}

/// Whether a text comes before another one, by the first character in which they differ. This is
/// also the order of their UTF-8 bytes.
pub open spec fn text_before(a: Seq<char>, b: Seq<char>) -> bool
    decreases a.len(),
{
    if b.len() == 0 {
        false
    } else if a.len() == 0 {
        true
    } else if a[0] != b[0] {
        a[0] < b[0]
    } else {
        text_before(a.drop_first(), b.drop_first())
    }
}

/// Of two different texts one comes before the other.
pub proof fn lemma_text_before_total(a: Seq<char>, b: Seq<char>)
    ensures
        !(text_before(a, b) && text_before(b, a)),
        a == b <==> !text_before(a, b) && !text_before(b, a),
    decreases a.len(),
{
    if a.len() > 0 && b.len() > 0 && a[0] == b[0] {
        lemma_text_before_total(a.drop_first(), b.drop_first());
        if a.drop_first() == b.drop_first() {
            assert(a =~= seq![a[0]] + a.drop_first());
            assert(b =~= seq![b[0]] + b.drop_first());
        }
    } else if a.len() == 0 && b.len() == 0 {
        assert(a =~= b);
    }
}

/// The order of texts is transitive.
pub proof fn lemma_text_before_transitive(a: Seq<char>, b: Seq<char>, c: Seq<char>)
    requires
        text_before(a, b),
        text_before(b, c),
    ensures
        text_before(a, c),
    decreases a.len(),
{
    if a.len() > 0 && b.len() > 0 && c.len() > 0 && a[0] == b[0] && b[0] == c[0] {
        lemma_text_before_transitive(a.drop_first(), b.drop_first(), c.drop_first());
    }
}

/// Whether a text comes before another one.
pub fn is_text_before(a: &str, b: &str) -> (r: bool)
    ensures
        r == text_before(a@, b@),
{
    let left = chars_of(a);
    let right = chars_of(b);
    let mut i: usize = 0;
    proof {
        assert(a@.subrange(0, a@.len() as int) =~= a@);
        assert(b@.subrange(0, b@.len() as int) =~= b@);
    }
    while i < left.len() && i < right.len() && left[i] == right[i]
        invariant
            left@ == a@,
            right@ == b@,
            i <= a@.len(),
            i <= b@.len(),
            text_before(a@, b@) == text_before(
                a@.subrange(i as int, a@.len() as int),
                b@.subrange(i as int, b@.len() as int),
            ),
        decreases a@.len() - i,
    {
        proof {
            assert(a@.subrange(i as int, a@.len() as int).drop_first() =~= a@.subrange(
                i + 1,
                a@.len() as int,
            ));
            assert(b@.subrange(i as int, b@.len() as int).drop_first() =~= b@.subrange(
                i + 1,
                b@.len() as int,
            ));
        }
        i = i + 1;
    }
    if i >= right.len() {
        false
    } else if i >= left.len() {
        true
    } else {
        left[i] < right[i]
    }
}

/// The character of a decimal digit.
pub open spec fn digit_char(digit: nat) -> char {
    (('0' as u8) + digit) as u8 as char
}

/// The decimal text of a number.
pub open spec fn decimal(n: nat) -> Seq<char>
    decreases n,
{
    if n < 10 {
        seq![digit_char(n)]
    } else {
        decimal(n / 10).push(digit_char(n % 10))
    }
}

/// The decimal text of a number.
pub fn decimal_string(n: u64) -> (r: String)
    ensures
        r@ == decimal(n as nat),
    decreases n,
{
    let mut r = if n < 10 {
        String::new()
    } else {
        decimal_string(n / 10)
    };
    r.push((48u8 + (n % 10) as u8) as char);
    proof {
        assert(r@ =~= decimal(n as nat));
    }
    r
}

/// Whether a character is a decimal digit.
pub open spec fn is_digit(c: char) -> bool {
    '0' <= c <= '9'
}

/// Whether a text consists of decimal digits, of which there is at least one.
pub open spec fn all_digits(s: Seq<char>) -> bool {
    s.len() > 0 && forall|i: int| 0 <= i < s.len() ==> is_digit(#[trigger] s[i])
}

/// The number that decimal digits stand for.
pub open spec fn digits_value(s: Seq<char>) -> nat
    decreases s.len(),
{
    if s.len() == 0 {
        0
    } else {
        digits_value(s.drop_last()) * 10 + (s.last() as u32 - '0' as u32) as nat
    }
}

/// The number that a text of decimal digits stands for, where it is not larger than `max`.
pub open spec fn number_of(s: Seq<char>, max: u64) -> Option<u64> {
    if all_digits(s) && digits_value(s) <= max {
        Some(digits_value(s) as u64)
    } else {
        None
    }
}

/// Reads decimal digits as a number that is not larger than `max`.
pub fn parse_number(s: &[char], max: u64) -> (r: Option<u64>)
    ensures
        r == number_of(s@, max),
{
    if s.len() == 0 {
        return None;
    }
    let mut value: u64 = 0;
    let mut fits = true;
    let mut i: usize = 0;
    assert(s@.subrange(0, 0) =~= Seq::<char>::empty());
    while i < s.len()
        invariant
            i <= s@.len(),
            forall|j: int| 0 <= j < i ==> is_digit(#[trigger] s@[j]),
            fits ==> value == digits_value(s@.subrange(0, i as int)) && value <= max,
            !fits ==> digits_value(s@.subrange(0, i as int)) > max,
        decreases s@.len() - i,
    {
        let c = s[i];
        if !('0' <= c && c <= '9') {
            return None;
        }
        let digit: u64 = (c as u32 - 48) as u64;
        proof {
            assert(s@.subrange(0, i + 1).drop_last() =~= s@.subrange(0, i as int));
            assert(s@.subrange(0, i + 1).last() == c);
        }
        if fits {
            if value > (max - (if digit <= max { digit } else { max })) / 10 || digit > max {
                fits = false;
                proof {
                    assert(value * 10 + digit > max) by {
                        if digit <= max {
                            let bound = (max - digit) as int;
                            assert(value >= bound / 10 + 1);
                        }
                    }
                }
            } else {
                proof {
                    let bound = (max - digit) as int;
                    assert(value <= bound / 10);
                    assert(value * 10 <= bound);
                }
                value = value * 10 + digit;
            }
        }
        i = i + 1;
    }
    proof {
        assert(s@.subrange(0, s@.len() as int) =~= s@);
    }
    if fits {
        Some(value)
    } else {
        None
    }
}

/// Reading the decimal text of a number gives that number.
pub proof fn decimal_text_reads_back(n: nat)
    ensures
        all_digits(decimal(n)),
        digits_value(decimal(n)) == n,
    decreases n,
{
    if n < 10 {
        let s = seq![digit_char(n)];
        assert(s.drop_last() =~= Seq::<char>::empty());
        assert(digits_value(s) == n) by {
            reveal_with_fuel(digits_value, 2);
        }
    } else {
        decimal_text_reads_back(n / 10);
        let front = decimal(n / 10);
        let s = front.push(digit_char(n % 10));
        assert(s.drop_last() =~= front);
        assert forall|i: int| 0 <= i < s.len() implies is_digit(#[trigger] s[i]) by {
            if i < front.len() {
                assert(s[i] == front[i]);
            }
        }
    }
}

/// The first position, from a given one on, at which a text occurs in another.
pub open spec fn find_from(s: Seq<char>, needle: Seq<char>, from: nat) -> Option<nat>
    decreases s.len() + 1 - from,
{
    if from > s.len() {
        None
    } else if occurs_at(s, needle, from as int) {
        Some(from)
    } else {
        find_from(s, needle, from + 1)
    }
}

/// The first position at which a text occurs in another.
pub fn find_text(s: &[char], needle: &str) -> (r: Option<usize>)
    ensures
        match r {
            Some(at) => find_from(s@, needle@, 0) == Some(at as nat) && at + needle@.len()
                <= s@.len(),
            None => find_from(s@, needle@, 0) is None,
        },
{
    let sought = chars_of(needle);
    let mut at: usize = 0;
    while at < s.len()
        invariant
            sought@ == needle@,
            at <= s@.len(),
            find_from(s@, needle@, 0) == find_from(s@, needle@, at as nat),
        decreases s@.len() - at,
    {
        if occurs_chars_at(s, sought.as_slice(), at) {
            return Some(at);
        }
        at = at + 1;
    }
    if occurs_chars_at(s, sought.as_slice(), at) {
        Some(at)
    } else {
        assert(find_from(s@, needle@, (at + 1) as nat) is None);
        None
    }
}

/// What stands before and behind the first occurrence of a separator.
pub open spec fn split_once(s: Seq<char>, separator: Seq<char>) -> Option<(Seq<char>, Seq<char>)> {
    match find_from(s, separator, 0) {
        Some(at) => Some(
            (
                s.subrange(0, at as int),
                s.subrange(at as int + separator.len(), s.len() as int),
            ),
        ),
        None => None,
    }
}

/// A text without a prefix, where it has it.
pub open spec fn strip_prefix(s: Seq<char>, prefix: Seq<char>) -> Option<Seq<char>> {
    if begins_with(s, prefix) {
        Some(s.subrange(prefix.len() as int, s.len() as int))
    } else {
        None
    }
}

/// What stands before and behind the first occurrence of a separator.
pub fn split_text_once(s: &[char], separator: &str) -> (r: Option<(Vec<char>, Vec<char>)>)
    ensures
        match r {
            Some(parts) => split_once(s@, separator@) == Some((parts.0@, parts.1@)),
            None => split_once(s@, separator@) is None,
        },
{
    let sought = chars_of(separator);
    match find_text(s, separator) {
        Some(at) => {
            let total: usize = s.len();
            Some((copy_range(s, 0, at), copy_range(s, at + sought.len(), total)))
        },
        None => None,
    }
}

/// A text without a prefix, where it has it.
pub fn strip_text_prefix(s: &[char], prefix: &str) -> (r: Option<Vec<char>>)
    ensures
        match r {
            Some(rest) => strip_prefix(s@, prefix@) == Some(rest@),
            None => strip_prefix(s@, prefix@) is None,
        },
{
    let sought = chars_of(prefix);
    if occurs_chars_at(s, sought.as_slice(), 0) {
        Some(copy_range(s, sought.len(), s.len()))
    } else {
        None
    }
}

/// One text behind another.
pub fn concat(a: &str, b: &str) -> (r: String)
    ensures
        r@ == a@ + b@,
{
    let mut out = chars_of(a);
    let more = chars_of(b);
    push_all(&mut out, more.as_slice());
    string_of(out.as_slice())
}

/// White space is exactly what Unicode calls so.
pub proof fn white_characters(c: char)
    ensures
        is_white(c) <==> {
            let code = c as u32;
            ||| 9 <= code <= 13
            ||| code == 32
            ||| code == 133
            ||| code == 160
            ||| code == 5760
            ||| 8192 <= code <= 8202
            ||| code == 8232
            ||| code == 8233
            ||| code == 8239
            ||| code == 8287
            ||| code == 12288
        },
{
}

/// Control characters are exactly those of the two blocks that Unicode sets aside for them.
pub proof fn control_characters(c: char)
    ensures
        is_control(c) <==> c as u32 <= 31 || 127 <= c as u32 <= 159,
{
}

/// Lowering a text takes each capital of the English alphabet to its small letter and leaves every
/// other character.
pub proof fn lowering_touches_capitals_only(s: Seq<char>, i: int)
    requires
        0 <= i < s.len(),
    ensures
        lower_all(s).len() == s.len(),
        65 <= s[i] as u32 <= 90 ==> lower_all(s)[i] as u32 == s[i] as u32 + 32,
        !(65 <= s[i] as u32 <= 90) ==> lower_all(s)[i] == s[i],
        lower_all(lower_all(s)) == lower_all(s),
{
    assert forall|j: int| 0 <= j < s.len() implies lower_all(lower_all(s))[j] == lower_all(s)[j] by {
        lemma_lower_twice(s[j]);
    }
    assert(lower_all(lower_all(s)) =~= lower_all(s));
}

proof fn lemma_lower_twice(c: char)
    ensures
        lower(lower(c)) == lower(c),
{
}

/// Trimming takes white space off both ends, and nothing else: what is left begins and ends with
/// another character, and all around it is white.
pub proof fn trimming_takes_white_space_off_the_ends(s: Seq<char>)
    ensures
        exists|from: int, to: int|
            #![trigger s.subrange(from, to)]
            {
                &&& 0 <= from <= to <= s.len()
                &&& trim(s) == s.subrange(from, to)
                &&& forall|i: int| 0 <= i < from ==> is_white(#[trigger] s[i])
                &&& forall|i: int| to <= i < s.len() ==> is_white(#[trigger] s[i])
            },
        trim(s).len() > 0 ==> !is_white(trim(s).first()) && !is_white(trim(s).last()),
        trim(trim(s)) == trim(s),
{
    let from = lemma_trimmed_start(s);
    let rest = trim_start(s);
    let to = lemma_trimmed_end(rest);
    assert(trim(s) =~= s.subrange(from, from + to));
    assert forall|i: int| from + to <= i < s.len() implies is_white(#[trigger] s[i]) by {
        assert(s[i] == rest[i - from]);
    }
    if trim(s).len() > 0 {
        assert(trim(s).first() == rest.first());
    }
    assert(trim_start(trim(s)) == trim(s));
}

proof fn lemma_trimmed_start(s: Seq<char>) -> (from: int)
    ensures
        0 <= from <= s.len(),
        trim_start(s) == s.subrange(from, s.len() as int),
        forall|i: int| 0 <= i < from ==> is_white(#[trigger] s[i]),
        trim_start(s).len() > 0 ==> !is_white(trim_start(s).first()),
    decreases s.len(),
{
    if s.len() > 0 && is_white(s[0]) {
        let rest = s.drop_first();
        let from = lemma_trimmed_start(rest);
        assert forall|i: int| 0 <= i < from + 1 implies is_white(#[trigger] s[i]) by {
            if i > 0 {
                assert(s[i] == rest[i - 1]);
            }
        }
        assert(trim_start(s) =~= s.subrange(from + 1, s.len() as int));
        from + 1
    } else {
        assert(s =~= s.subrange(0, s.len() as int));
        0
    }
}

proof fn lemma_trimmed_end(s: Seq<char>) -> (to: int)
    ensures
        0 <= to <= s.len(),
        trim_end(s) == s.subrange(0, to),
        forall|i: int| to <= i < s.len() ==> is_white(#[trigger] s[i]),
        trim_end(s).len() > 0 ==> !is_white(trim_end(s).last()),
    decreases s.len(),
{
    if s.len() > 0 && is_white(s.last()) {
        let rest = s.drop_last();
        let to = lemma_trimmed_end(rest);
        assert forall|i: int| to <= i < s.len() implies is_white(#[trigger] s[i]) by {
            if i < s.len() - 1 {
                assert(s[i] == rest[i]);
            }
        }
        assert(trim_end(s) =~= s.subrange(0, to));
        to
    } else {
        assert(s =~= s.subrange(0, s.len() as int));
        s.len() as int
    }
}

/// A text is cut into words at its separators, and there only: what holds none is one word, and
/// the words of two texts with a separator between them are those of the first, then those of the
/// second.
pub proof fn words_lie_between_separators(
    by: Separator,
    first: Seq<char>,
    c: char,
    second: Seq<char>,
)
    requires
        separates(by, c),
    ensures
        first.len() > 0 && (forall|i: int| 0 <= i < first.len() ==> !separates(
            by,
            #[trigger] first[i],
        )) ==> words(by, first) == seq![first],
        words(by, first + seq![c] + second) == words(by, first) + words(by, second),
    decreases first.len(),
{
    let all = first + seq![c] + second;
    if first.len() == 0 {
        assert(all[0] == c);
        assert(all.drop_first() =~= second);
        assert(words(by, first) + words(by, second) =~= words(by, second));
    } else if separates(by, first[0]) {
        words_lie_between_separators(by, first.drop_first(), c, second);
        assert(all[0] == first[0]);
        assert(all.drop_first() =~= first.drop_first() + seq![c] + second);
    } else {
        lemma_word_len(by, first);
        let n = word_len(by, first) as int;
        assert(!(n == 0 && n < first.len()));
        assert forall|i: int| 0 <= i < n implies !separates(by, #[trigger] all[i]) by {
            assert(all[i] == first[i]);
        }
        if n < first.len() {
            assert(all[n] == first[n]);
        } else {
            assert(all[n] == c);
        }
        lemma_word_len_is(by, all, n);
        let rest = first.subrange(n, first.len() as int);
        words_lie_between_separators(by, rest, c, second);
        assert(all.subrange(0, n) =~= first.subrange(0, n));
        assert(all.subrange(n, all.len() as int) =~= rest + seq![c] + second);
        assert(words(by, all) =~= words(by, first) + words(by, second));
        if forall|i: int| 0 <= i < first.len() ==> !separates(by, #[trigger] first[i]) {
            assert(n == first.len());
            assert(first.subrange(0, n) =~= first);
            assert(words(by, rest) =~= Seq::<Seq<char>>::empty());
            assert(words(by, first) =~= seq![first]);
        }
    }
}

/// Texts are joined with the separator between any two of them, and at no end.
pub proof fn joined_texts_have_separators_between(
    first: Seq<char>,
    rest: Seq<Seq<char>>,
    separator: Seq<char>,
)
    ensures
        join(Seq::empty(), separator) == Seq::<char>::empty(),
        join(seq![first], separator) == first,
        rest.len() > 0 ==> join(seq![first] + rest, separator) == first + separator + join(
            rest,
            separator,
        ),
    decreases rest.len(),
{
    if rest.len() > 0 {
        let all = seq![first] + rest;
        assert(all.drop_last() =~= seq![first] + rest.drop_last());
        assert(all.last() == rest.last());
        if rest.len() == 1 {
            assert(all.drop_last() =~= seq![first]);
        } else {
            joined_texts_have_separators_between(first, rest.drop_last(), separator);
            assert(join(all, separator) =~= first + separator + join(rest, separator));
        }
    }
}

/// Texts are ordered by their first difference, and one that the other begins with comes first.
pub proof fn texts_are_ordered_by_their_first_difference(a: Seq<char>, b: Seq<char>, n: int)
    requires
        0 <= n <= a.len(),
        n <= b.len(),
        forall|i: int| 0 <= i < n ==> #[trigger] a[i] == b[i],
    ensures
        n < a.len() && n < b.len() && a[n] != b[n] ==> (text_before(a, b) <==> a[n] < b[n]),
        n == a.len() ==> (text_before(a, b) <==> a.len() < b.len()),
        n == b.len() ==> !text_before(a, b),
    decreases n,
{
    if n > 0 {
        assert forall|i: int| 0 <= i < n - 1 implies #[trigger] a.drop_first()[i]
            == b.drop_first()[i] by {
            assert(a[i + 1] == b[i + 1]);
        }
        assert(a[0] == b[0]);
        texts_are_ordered_by_their_first_difference(a.drop_first(), b.drop_first(), n - 1);
    }
}

/// A search finds the first place at or after its start where the needle stands, and fails exactly
/// where there is none.
pub proof fn search_finds_the_first_place(s: Seq<char>, needle: Seq<char>, from: nat)
    ensures
        find_from(s, needle, from) matches Some(at) ==> from <= at && occurs_at(
            s,
            needle,
            at as int,
        ) && forall|i: int| from <= i < at ==> !#[trigger] occurs_at(s, needle, i),
        find_from(s, needle, from) is None <==> forall|i: int|
            from <= i ==> !#[trigger] occurs_at(s, needle, i),
    decreases s.len() + 1 - from,
{
    if from <= s.len() && !occurs_at(s, needle, from as int) {
        search_finds_the_first_place(s, needle, from + 1);
        if find_from(s, needle, from) is Some {
            let at = find_from(s, needle, from)->0;
            assert forall|i: int| from <= i < at implies !#[trigger] occurs_at(s, needle, i) by {
                if i != from {
                    assert(from + 1 <= i);
                }
            }
        } else {
            assert forall|i: int| from <= i implies !#[trigger] occurs_at(s, needle, i) by {
                if i != from {
                    assert(from + 1 <= i);
                }
            }
        }
    }
}

/// A text is split at the first separator into what comes before it and what comes after it, and
/// putting these together with the separator gives the text back.
pub proof fn split_parts_give_the_text_back(s: Seq<char>, separator: Seq<char>)
    ensures
        split_once(s, separator) is Some <==> contains(s, separator),
        split_once(s, separator) matches Some((before, after)) ==> {
            &&& s == before + separator + after
            &&& forall|i: int| 0 <= i < before.len() ==> !#[trigger] occurs_at(s, separator, i)
        },
{
    search_finds_the_first_place(s, separator, 0);
    if let Some(at) = find_from(s, separator, 0) {
        assert(occurs_at(s, separator, at as int));
        assert(s =~= s.subrange(0, at as int) + s.subrange(
            at as int,
            at as int + separator.len(),
        ) + s.subrange(at as int + separator.len(), s.len() as int));
    }
    if contains(s, separator) {
        let at = choose|at: int| occurs_at(s, separator, at);
        assert(0 <= at);
    }
}

/// A prefix is stripped exactly where the text begins with it, and putting it back gives the text.
pub proof fn stripped_prefix_can_be_put_back(s: Seq<char>, prefix: Seq<char>, rest: Seq<char>)
    ensures
        strip_prefix(s, prefix) == Some(rest) <==> s == prefix + rest,
{
    if strip_prefix(s, prefix) == Some(rest) {
        assert(s =~= s.subrange(0, prefix.len() as int) + rest);
    }
    if s == prefix + rest {
        assert(s.subrange(0, prefix.len() as int) =~= prefix);
        assert(s.subrange(prefix.len() as int, s.len() as int) =~= rest);
    }
}

/// A needle stands at a place exactly where each of its characters does.
pub proof fn needle_stands_where_its_characters_do(s: Seq<char>, needle: Seq<char>, at: int)
    ensures
        occurs_at(s, needle, at) <==> 0 <= at && at + needle.len() <= s.len() && forall|i: int|
            0 <= i < needle.len() ==> #[trigger] needle[i] == s[at + i],
{
    if 0 <= at && at + needle.len() <= s.len() {
        let part = s.subrange(at, at + needle.len());
        if occurs_at(s, needle, at) {
            assert forall|i: int| 0 <= i < needle.len() implies #[trigger] needle[i] == s[at + i] by {
                assert(part[i] == s[at + i]);
            }
        }
        if forall|i: int| 0 <= i < needle.len() ==> #[trigger] needle[i] == s[at + i] {
            assert(part =~= needle);
        }
    }
}

/// The digits of a number begin with none that could be left out.
pub proof fn decimal_text_has_no_idle_digit(n: nat)
    ensures
        decimal(n).len() > 0,
        n > 0 ==> decimal(n).first() != '0',
        n == 0 ==> decimal(n) == seq!['0'],
    decreases n,
{
    if n >= 10 {
        decimal_text_has_no_idle_digit(n / 10);
        assert(decimal(n).first() == decimal(n / 10).first());
    }
}

/// A text is a number exactly where it is the digits of one that is small enough, with nothing
/// before them but zeros and nothing else around them.
pub proof fn numbers_are_written_in_digits(s: Seq<char>, max: u64)
    ensures
        number_of(s, max) is Some <==> s.len() > 0 && (forall|i: int|
            0 <= i < s.len() ==> '0' <= #[trigger] s[i] && s[i] <= '9') && digits_value(s) <= max,
        number_of(s, max) is Some ==> number_of(s, max)->0 == digits_value(s),
        forall|n: u64| n <= max ==> number_of(#[trigger] decimal(n as nat), max) == Some(n),
{
    if all_digits(s) {
        assert forall|i: int| 0 <= i < s.len() implies '0' <= #[trigger] s[i] && s[i] <= '9' by {
            assert(is_digit(s[i]));
        }
    }
    assert forall|n: u64| n <= max implies number_of(#[trigger] decimal(n as nat), max) == Some(n) by {
        decimal_text_reads_back(n as nat);
    }
}

} // verus!
