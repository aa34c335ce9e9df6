//! The removal of secrets from text that is handed to an agent.
use vstd::prelude::*;

use crate::text::{
    begins_with, begins_with_text, chars_of, copy_range, is_separator, is_white, lemma_word_len,
    push_all, separates, string_of, text_view, word_len, Separator,
};

verus! {

/// What replacing every match of a regular expression in a text gives; nothing where the expression
/// is not one.
pub uninterp spec fn regex_replaced(
    pattern: Seq<char>,
    text: Seq<char>,
    replacement: Seq<char>,
) -> Option<Seq<char>>;

/// `regex::Regex::new` and `regex::Regex::replace_all`: the result is a function of the expression,
/// the text and the replacement alone. Nothing where the expression is refused.
#[verifier::external_body]
fn regex_replace_all(pattern: &str, text: &str, replacement: &str) -> (r: Option<String>)
    ensures
        text_view(r) == regex_replaced(pattern@, text@, replacement@),
{
    let regex = regex::Regex::new(pattern).ok()?;
    Some(regex.replace_all(text, replacement).into_owned())
}

/// Whether a regular expression matches somewhere in a text; nothing where the expression is not one.
pub uninterp spec fn regex_matches(pattern: Seq<char>, text: Seq<char>) -> Option<bool>;

/// `regex::Regex::new` and `regex::Regex::is_match`: the result is a function of the expression and
/// the text alone. Nothing where the expression is refused.
#[verifier::external_body]
pub(crate) fn regex_is_match(pattern: &str, text: &str) -> (r: Option<bool>)
    ensures
        r == regex_matches(pattern@, text@),
{
    let regex = regex::Regex::new(pattern).ok()?;
    Some(regex.is_match(text))
}

/// What a secret looks like that is assigned to a name.
pub const SECRET_ASSIGNMENT: &'static str =
    r"(?i)(authorization\s*:\s*bearer|x-api-key\s*:|api[_-]?key\s*[:=]|access[_-]?token\s*[:=]|refresh[_-]?token\s*[:=]|client[_-]?secret\s*[:=]|password\s*[:=])\s*[^\s,;]+";

/// What a secret looks like by itself.
pub const SECRET_TOKEN: &'static str =
    r"(?i)\b(?:sk-[a-z0-9_-]{8,}|ghp_[a-z0-9]{8,}|github_pat_[a-z0-9_]{8,}|xox[baprs]-[a-z0-9-]{8,})\b";

/// How many characters come before the first one that starts a query or a fragment.
pub open spec fn address_len(url: Seq<char>) -> nat
    decreases url.len(),
{
    if url.len() == 0 || url[0] == '?' || url[0] == '#' {
        0
    } else {
        1 + address_len(url.drop_first())
    }
}

/// How many characters come before the first question mark.
pub open spec fn before_query(url: Seq<char>) -> nat
    decreases url.len(),
{
    if url.len() == 0 || url[0] == '?' {
        0
    } else {
        1 + before_query(url.drop_first())
    }
}

/// An address with its query taken out, where it is one with a query; else the word as it is.
pub open spec fn redacted_word(word: Seq<char>) -> Seq<char> {
    if (begins_with(word, "http://"@) || begins_with(word, "https://"@)) && before_query(word)
        < word.len() {
        word.subrange(0, before_query(word) as int) + "?[redacted]"@
    } else {
        word
    }
}

/// A text with the query of every address in it taken out. White space stays as it is.
pub open spec fn queries_redacted(text: Seq<char>) -> Seq<char>
    decreases text.len(),
{
    let n = word_len(Separator::White, text) as int;
    if n < text.len() {
        redacted_word(text.subrange(0, n)) + seq![text[n]] + queries_redacted(
            text.subrange(n + 1, text.len() as int),
        )
    } else {
        redacted_word(text)
    }
}

/// A text with every secret taken out; nothing where one of the expressions is refused.
pub open spec fn secrets_redacted(text: Seq<char>) -> Option<Seq<char>> {
    match regex_replaced(SECRET_ASSIGNMENT@, text, "${1} [redacted]"@) {
        Some(text) => match regex_replaced(SECRET_TOKEN@, text, "[redacted]"@) {
            Some(text) => Some(queries_redacted(text)),
            None => None,
        },
        None => None,
    }
}

proof fn lemma_address_len(url: Seq<char>, at: int)
    requires
        0 <= at <= url.len(),
        forall|i: int| 0 <= i < at ==> #[trigger] url[i] != '?' && url[i] != '#',
        at < url.len() ==> url[at] == '?' || url[at] == '#',
    ensures
        address_len(url) == at,
    decreases at,
{
    if at > 0 {
        assert(url[0] != '?' && url[0] != '#');
        let rest = url.drop_first();
        assert forall|i: int| 0 <= i < at - 1 implies #[trigger] rest[i] != '?' && rest[i]
            != '#' by {
            assert(rest[i] == url[i + 1]);
        }
        lemma_address_len(rest, at - 1);
    }
}

proof fn lemma_before_query(url: Seq<char>, at: int)
    requires
        0 <= at <= url.len(),
        forall|i: int| 0 <= i < at ==> #[trigger] url[i] != '?',
        at < url.len() ==> url[at] == '?',
    ensures
        before_query(url) == at,
    decreases at,
{
    if at > 0 {
        assert(url[0] != '?');
        let rest = url.drop_first();
        assert forall|i: int| 0 <= i < at - 1 implies #[trigger] rest[i] != '?' by {
            assert(rest[i] == url[i + 1]);
        }
        lemma_before_query(rest, at - 1);
    }
}

/// An address without its query and its fragment.
pub fn strip_url_secret_parts(value: &str) -> (r: String)
    ensures
        r@ == value@.subrange(0, address_len(value@) as int),
        address_len(value@) <= value@.len(),
{
    let chars = chars_of(value);
    let mut at: usize = 0;
    while at < chars.len() && chars[at] != '?' && chars[at] != '#'
        invariant
            chars@ == value@,
            at <= chars@.len(),
            forall|i: int| 0 <= i < at ==> #[trigger] chars@[i] != '?' && chars@[i] != '#',
        decreases chars@.len() - at,
    {
        at = at + 1;
    }
    proof {
        lemma_address_len(value@, at as int);
    }
    let address = copy_range(chars.as_slice(), 0, at);
    string_of(address.as_slice())
}

fn redact_word(word: &[char]) -> (r: Vec<char>)
    ensures
        r@ == redacted_word(word@),
{
    let mut at: usize = 0;
    while at < word.len() && word[at] != '?'
        invariant
            at <= word@.len(),
            forall|i: int| 0 <= i < at ==> #[trigger] word@[i] != '?',
        decreases word@.len() - at,
    {
        at = at + 1;
    }
    proof {
        lemma_before_query(word@, at as int);
    }
    if (begins_with_text(word, "http://") || begins_with_text(word, "https://")) && at
        < word.len() {
        let mut out = copy_range(word, 0, at);
        let mark = chars_of("?[redacted]");
        push_all(&mut out, mark.as_slice());
        out
    } else {
        assert(word@.subrange(0, word@.len() as int) =~= word@);
        copy_range(word, 0, word.len())
    }
}

/// Takes the query of every address out of a text.
pub fn redact_url_queries_in_text(value: &str) -> (r: String)
    ensures
        r@ == queries_redacted(value@),
{
    let chars = chars_of(value);
    let mut out: Vec<char> = Vec::new();
    let mut at: usize = 0;
    proof {
        assert(value@.subrange(0, value@.len() as int) =~= value@);
        assert(out@ + queries_redacted(value@) =~= queries_redacted(value@));
    }
    loop
        invariant
            chars@ == value@,
            at <= chars@.len(),
            queries_redacted(value@) == out@ + queries_redacted(
                value@.subrange(at as int, value@.len() as int),
            ),
        decreases chars@.len() - at,
    {
        let ghost rest = value@.subrange(at as int, value@.len() as int);
        let mut end: usize = at;
        while end < chars.len() && !is_separator(Separator::White, chars[end])
            invariant
                chars@ == value@,
                at <= end <= chars@.len(),
                rest == value@.subrange(at as int, value@.len() as int),
                forall|i: int|
                    0 <= i < end - at ==> !separates(Separator::White, #[trigger] rest[i]),
            decreases chars@.len() - end,
        {
            assert(rest[end - at] == chars@[end as int]);
            end = end + 1;
        }
        proof {
            lemma_word_len(Separator::White, rest);
            if end < chars@.len() {
                assert(rest[end - at] == chars@[end as int]);
            }
            let n = word_len(Separator::White, rest) as int;
            assert(n == end - at) by {
                if n < end - at {
                    assert(separates(Separator::White, rest[n]));
                }
                if n > end - at {
                    assert(!separates(Separator::White, rest[end - at]));
                }
            }
            assert(rest.subrange(0, n) =~= value@.subrange(at as int, end as int));
        }
        let word = copy_range(chars.as_slice(), at, end);
        let redacted = redact_word(word.as_slice());
        let ghost done = out@;
        push_all(&mut out, redacted.as_slice());
        if end >= chars.len() {
            proof {
                assert(rest =~= value@.subrange(at as int, end as int));
                assert(out@ =~= queries_redacted(value@));
            }
            return string_of(out.as_slice());
        }
        out.push(chars[end]);
        proof {
            let n = end - at;
            assert(rest.subrange(n + 1, rest.len() as int) =~= value@.subrange(
                end + 1,
                value@.len() as int,
            ));
            assert(done + (redacted_word(rest.subrange(0, n)) + seq![rest[n]] + queries_redacted(
                rest.subrange(n + 1, rest.len() as int),
            )) =~= out@ + queries_redacted(value@.subrange(end + 1, value@.len() as int)));
        }
        at = end + 1;
    }
}

/// Takes every secret out of a text.
pub fn redact_secret_text(value: &str) -> (r: Option<String>)
    ensures
        text_view(r) == secrets_redacted(value@),
{
    match regex_replace_all(SECRET_ASSIGNMENT, value, "${1} [redacted]") {
        Some(assignments_redacted) => match regex_replace_all(
            SECRET_TOKEN,
            assignments_redacted.as_str(),
            "[redacted]",
        ) {
            Some(tokens_redacted) => Some(redact_url_queries_in_text(tokens_redacted.as_str())),
            None => None,
        },
        None => None,
    }
}

/// Whether a text holds no white space.
pub open spec fn is_one_word(s: Seq<char>) -> bool {
    forall|i: int| 0 <= i < s.len() ==> !is_white(#[trigger] s[i])
}

/// Whether a text starts as an address does that a query can follow.
pub open spec fn is_web_address(s: Seq<char>) -> bool {
    &&& begins_with(s, "http://"@) || begins_with(s, "https://"@)
    &&& forall|i: int| 0 <= i < s.len() ==> #[trigger] s[i] != '?'
}

proof fn lemma_first_word(word: Seq<char>, rest: Seq<char>)
    requires
        is_one_word(word),
        rest.len() > 0 ==> is_white(rest[0]),
    ensures
        word_len(Separator::White, word + rest) == word.len(),
        rest.len() > 0 ==> queries_redacted(word + rest) == redacted_word(word) + seq![rest[0]]
            + queries_redacted(rest.drop_first()),
        rest.len() == 0 ==> queries_redacted(word + rest) == redacted_word(word),
{
    let text = word + rest;
    lemma_word_len(Separator::White, text);
    let n = word_len(Separator::White, text) as int;
    assert(n == word.len()) by {
        if n < word.len() {
            assert(separates(Separator::White, text[n]));
            assert(text[n] == word[n]);
        }
        if n > word.len() {
            assert(!separates(Separator::White, text[word.len() as int]));
            assert(text[word.len() as int] == rest[0]);
        }
    }
    if rest.len() > 0 {
        assert(text.subrange(0, n) =~= word);
        assert(text.subrange(n + 1, text.len() as int) =~= rest.drop_first());
        assert(text[n] == rest[0]);
    } else {
        assert(text =~= word);
    }
}

proof fn lemma_begins(word: Seq<char>, prefix: Seq<char>, more: Seq<char>)
    requires
        begins_with(word, prefix),
    ensures
        begins_with(word + more, prefix),
{
    assert((word + more).subrange(0, prefix.len() as int) =~= word.subrange(
        0,
        prefix.len() as int,
    ));
}

proof fn lemma_redacted_address(address: Seq<char>, query: Seq<char>)
    requires
        is_web_address(address),
    ensures
        redacted_word(address + seq!['?'] + query) == address + "?[redacted]"@,
{
    let word = address + seq!['?'] + query;
    let at = address.len() as int;
    assert forall|i: int| 0 <= i < at implies #[trigger] word[i] != '?' by {
        assert(word[i] == address[i]);
    }
    assert(word[at] == '?');
    lemma_before_query(word, at);
    if begins_with(address, "http://"@) {
        lemma_begins(address, "http://"@, seq!['?'] + query);
    } else {
        lemma_begins(address, "https://"@, seq!['?'] + query);
    }
    assert(address + (seq!['?'] + query) =~= word);
    assert(word.subrange(0, at) =~= address);
}

proof fn lemma_redacted_prefix(before: Seq<char>, text: Seq<char>)
    requires
        before.len() == 0 || is_white(before.last()),
    ensures
        queries_redacted(before + text) == queries_redacted(before) + queries_redacted(text),
    decreases before.len(),
{
    if before.len() == 0 {
        assert(before + text =~= text);
        assert(queries_redacted(before) =~= before) by {
            reveal_with_fuel(queries_redacted, 1);
        }
        assert(queries_redacted(before) + queries_redacted(text) =~= queries_redacted(text));
    } else {
        lemma_word_len(Separator::White, before);
        let n = word_len(Separator::White, before) as int;
        assert(n < before.len()) by {
            if n >= before.len() {
                assert(!separates(Separator::White, before[before.len() - 1]));
            }
        }
        let word = before.subrange(0, n);
        let tail = before.subrange(n, before.len() as int);
        assert forall|i: int| 0 <= i < word.len() implies !is_white(#[trigger] word[i]) by {
            assert(!separates(Separator::White, before[i]));
        }
        assert(is_white(tail[0])) by {
            assert(separates(Separator::White, before[n]));
        }
        assert(before =~= word + tail);
        assert(before + text =~= word + (tail + text));
        lemma_first_word(word, tail);
        lemma_first_word(word, tail + text);
        assert((tail + text).drop_first() =~= tail.drop_first() + text);
        if tail.drop_first().len() > 0 {
            assert(tail.drop_first().last() == before.last());
        }
        lemma_redacted_prefix(tail.drop_first(), text);
        assert(queries_redacted(before + text) =~= queries_redacted(before) + queries_redacted(
            text,
        ));
    }
}

/// No part of a query survives: what follows the question mark of an address has no influence on
/// the redacted text. `before` is what stands before the address, `after` what follows the query.
pub proof fn query_has_no_influence(
    before: Seq<char>,
    address: Seq<char>,
    query: Seq<char>,
    other: Seq<char>,
    after: Seq<char>,
)
    requires
        before.len() == 0 || is_white(before.last()),
        is_web_address(address),
        is_one_word(address),
        is_one_word(query),
        is_one_word(other),
        after.len() > 0 ==> is_white(after[0]),
    ensures
        queries_redacted(before + (address + seq!['?'] + query + after)) == queries_redacted(
            before + (address + seq!['?'] + other + after),
        ),
{
    let first = address + seq!['?'] + query;
    let second = address + seq!['?'] + other;
    assert forall|i: int| 0 <= i < first.len() implies !is_white(#[trigger] first[i]) by {
        if i < address.len() {
            assert(first[i] == address[i]);
        } else if i > address.len() {
            assert(first[i] == query[i - address.len() - 1]);
        }
    }
    assert forall|i: int| 0 <= i < second.len() implies !is_white(#[trigger] second[i]) by {
        if i < address.len() {
            assert(second[i] == address[i]);
        } else if i > address.len() {
            assert(second[i] == other[i - address.len() - 1]);
        }
    }
    lemma_redacted_address(address, query);
    lemma_redacted_address(address, other);
    lemma_first_word(first, after);
    lemma_first_word(second, after);
    lemma_redacted_prefix(before, first + after);
    lemma_redacted_prefix(before, second + after);
}

proof fn lemma_redacted_word_again(word: Seq<char>)
    requires
        is_one_word(word),
    ensures
        redacted_word(redacted_word(word)) == redacted_word(word),
        is_one_word(redacted_word(word)),
{
    let at = before_query(word) as int;
    if (begins_with(word, "http://"@) || begins_with(word, "https://"@)) && at < word.len() {
        lemma_query_place(word);
        let address = word.subrange(0, at);
        reveal_strlit("?[redacted]");
        reveal_strlit("http://");
        reveal_strlit("https://");
        let redacted = address + "?[redacted]"@;
        assert forall|i: int| 0 <= i < redacted.len() implies !is_white(#[trigger] redacted[i]) by {
            if i < at {
                assert(redacted[i] == word[i]);
            } else {
                assert(redacted[i] == "?[redacted]"@[i - at]);
            }
        }
        assert forall|i: int| 0 <= i < at implies #[trigger] address[i] != '?' by {
            assert(address[i] == word[i]);
        }
        lemma_address_start(word, "http://"@);
        lemma_address_start(word, "https://"@);
        let query = "[redacted]"@;
        reveal_strlit("[redacted]");
        assert("?[redacted]"@ =~= seq!['?'] + query);
        assert(redacted =~= address + seq!['?'] + query);
        lemma_redacted_address(address, query);
    }
}

proof fn lemma_query_place(word: Seq<char>)
    ensures
        before_query(word) <= word.len(),
        before_query(word) < word.len() ==> word[before_query(word) as int] == '?',
        forall|i: int| 0 <= i < before_query(word) ==> #[trigger] word[i] != '?',
    decreases word.len(),
{
    if word.len() > 0 && word[0] != '?' {
        let rest = word.drop_first();
        lemma_query_place(rest);
        assert forall|i: int| 0 <= i < before_query(word) implies #[trigger] word[i] != '?' by {
            if i > 0 {
                assert(word[i] == rest[i - 1]);
            }
        }
    }
}

proof fn lemma_address_start(word: Seq<char>, prefix: Seq<char>)
    requires
        forall|i: int| 0 <= i < prefix.len() ==> #[trigger] prefix[i] != '?',
        before_query(word) < word.len(),
    ensures
        begins_with(word, prefix) ==> begins_with(
            word.subrange(0, before_query(word) as int),
            prefix,
        ),
{
    lemma_query_place(word);
    let at = before_query(word) as int;
    if begins_with(word, prefix) {
        if at < prefix.len() {
            assert(word.subrange(0, prefix.len() as int)[at] == prefix[at]);
        }
        assert(word.subrange(0, at).subrange(0, prefix.len() as int) =~= word.subrange(
            0,
            prefix.len() as int,
        ));
    }
}

/// Taking the queries out of a text a second time changes nothing.
pub proof fn query_redaction_is_idempotent(text: Seq<char>)
    ensures
        queries_redacted(queries_redacted(text)) == queries_redacted(text),
    decreases text.len(),
{
    lemma_word_len(Separator::White, text);
    let n = word_len(Separator::White, text) as int;
    if n < text.len() {
        let word = text.subrange(0, n);
        assert forall|i: int| 0 <= i < word.len() implies !is_white(#[trigger] word[i]) by {
            assert(!separates(Separator::White, text[i]));
        }
        assert(separates(Separator::White, text[n]));
        lemma_redacted_word_again(word);
        let rest = queries_redacted(text.subrange(n + 1, text.len() as int));
        query_redaction_is_idempotent(text.subrange(n + 1, text.len() as int));
        let tail = seq![text[n]] + rest;
        assert(redacted_word(word) + seq![text[n]] + rest =~= redacted_word(word) + tail);
        assert(tail.drop_first() =~= rest);
        lemma_first_word(redacted_word(word), tail);
    } else {
        assert forall|i: int| 0 <= i < text.len() implies !is_white(#[trigger] text[i]) by {
            assert(!separates(Separator::White, text[i]));
        }
        lemma_redacted_word_again(text);
        lemma_first_word(redacted_word(text), Seq::empty());
        assert(redacted_word(text) + Seq::<char>::empty() =~= redacted_word(text));
    }
}

/// What is left of an address holds neither a query nor a fragment, and does not depend on them.
pub proof fn address_keeps_no_secret_part(address: Seq<char>, mark: char, secret: Seq<char>)
    requires
        forall|i: int| 0 <= i < address.len() ==> #[trigger] address[i] != '?' && address[i] != '#',
        mark == '?' || mark == '#',
    ensures
        ({
            let url = address + seq![mark] + secret;
            url.subrange(0, address_len(url) as int) == address
        }),
{
    let url = address + seq![mark] + secret;
    let at = address.len() as int;
    assert forall|i: int| 0 <= i < at implies #[trigger] url[i] != '?' && url[i] != '#' by {
        assert(url[i] == address[i]);
    }
    assert(url[at] == mark);
    lemma_address_len(url, at);
    assert(url.subrange(0, at) =~= address);
}

/// Nothing of a secret is left in a redacted text but what replaces it: two texts that are alike once
/// the assigned secrets are replaced, or once the bare ones are replaced after that, are redacted to
/// the same text.
pub proof fn secrets_have_no_influence(first: Seq<char>, second: Seq<char>)
    ensures
        ({
            let assigned = |text: Seq<char>|
                regex_replaced(
                    r"(?i)(authorization\s*:\s*bearer|x-api-key\s*:|api[_-]?key\s*[:=]|access[_-]?token\s*[:=]|refresh[_-]?token\s*[:=]|client[_-]?secret\s*[:=]|password\s*[:=])\s*[^\s,;]+"@,
                    text,
                    "${1} [redacted]"@,
                );
            let bare = |text: Seq<char>|
                regex_replaced(
                    r"(?i)\b(?:sk-[a-z0-9_-]{8,}|ghp_[a-z0-9]{8,}|github_pat_[a-z0-9_]{8,}|xox[baprs]-[a-z0-9-]{8,})\b"@,
                    text,
                    "[redacted]"@,
                );
            &&& assigned(first) == assigned(second) ==> secrets_redacted(first) == secrets_redacted(
                second,
            )
            &&& assigned(first) is Some && assigned(second) is Some && bare(assigned(first)->0)
                == bare(assigned(second)->0) ==> secrets_redacted(first) == secrets_redacted(second)
            &&& secrets_redacted(first) is Some <==> assigned(first) is Some && bare(
                assigned(first)->0,
            ) is Some
        }),
{
}

/// A redacted text holds no query of an address any more, and where the expressions find no secret
/// and there is no question mark, it is the text itself.
pub proof fn redacted_text_holds_no_query(text: Seq<char>)
    ensures
        secrets_redacted(text) is Some ==> queries_redacted(secrets_redacted(text)->0)
            == secrets_redacted(text)->0,
        regex_replaced(
            r"(?i)(authorization\s*:\s*bearer|x-api-key\s*:|api[_-]?key\s*[:=]|access[_-]?token\s*[:=]|refresh[_-]?token\s*[:=]|client[_-]?secret\s*[:=]|password\s*[:=])\s*[^\s,;]+"@,
            text,
            "${1} [redacted]"@,
        ) == Some(text) && regex_replaced(
            r"(?i)\b(?:sk-[a-z0-9_-]{8,}|ghp_[a-z0-9]{8,}|github_pat_[a-z0-9_]{8,}|xox[baprs]-[a-z0-9-]{8,})\b"@,
            text,
            "[redacted]"@,
        ) == Some(text) && (forall|i: int| 0 <= i < text.len() ==> #[trigger] text[i] != '?')
            ==> secrets_redacted(text) == Some(text),
{
    if secrets_redacted(text) is Some {
        let assigned = regex_replaced(SECRET_ASSIGNMENT@, text, "${1} [redacted]"@)->0;
        let bare = regex_replaced(SECRET_TOKEN@, assigned, "[redacted]"@)->0;
        query_redaction_is_idempotent(bare);
    }
    if forall|i: int| 0 <= i < text.len() ==> #[trigger] text[i] != '?' {
        text_without_a_query_stays(text);
    }
}

/// A text without a question mark has no query to be taken out.
pub proof fn text_without_a_query_stays(text: Seq<char>)
    requires
        forall|i: int| 0 <= i < text.len() ==> #[trigger] text[i] != '?',
    ensures
        queries_redacted(text) == text,
    decreases text.len(),
{
    lemma_word_len(Separator::White, text);
    let n = word_len(Separator::White, text) as int;
    if n < text.len() {
        let word = text.subrange(0, n);
        let rest = text.subrange(n + 1, text.len() as int);
        assert forall|i: int| 0 <= i < rest.len() implies #[trigger] rest[i] != '?' by {
            assert(rest[i] == text[i + n + 1]);
        }
        assert forall|i: int| 0 <= i < word.len() implies #[trigger] word[i] != '?' by {
            assert(word[i] == text[i]);
        }
        text_without_a_query_stays(rest);
        lemma_before_query(word, word.len() as int);
        assert(word + seq![text[n]] + rest =~= text);
    } else {
        lemma_before_query(text, text.len() as int);
    }
}

/// An address in a text keeps what comes before its query, and a note that the query was taken out
/// stands in the query's place; what stands before and behind the address is redacted by itself.
pub proof fn address_keeps_what_comes_before_its_query(
    before: Seq<char>,
    address: Seq<char>,
    query: Seq<char>,
    space: char,
    after: Seq<char>,
)
    requires
        before.len() == 0 || is_white(before.last()),
        address.len() >= 7,
        address.subrange(0, 7) == "http://"@ || address.len() >= 8 && address.subrange(0, 8)
            == "https://"@,
        forall|i: int|
            0 <= i < address.len() ==> #[trigger] address[i] != '?' && !is_white(address[i]),
        is_one_word(query),
        is_white(space),
    ensures
        queries_redacted(before + (address + seq!['?'] + query + (seq![space] + after)))
            == queries_redacted(before) + (address + "?[redacted]"@ + seq![space]
            + queries_redacted(after)),
{
    reveal_strlit("http://");
    reveal_strlit("https://");
    let word = address + seq!['?'] + query;
    assert forall|i: int| 0 <= i < word.len() implies !is_white(#[trigger] word[i]) by {
        if i < address.len() {
            assert(word[i] == address[i]);
        } else if i > address.len() {
            assert(word[i] == query[i - address.len() - 1]);
        }
    }
    lemma_redacted_address(address, query);
    lemma_first_word(word, seq![space] + after);
    assert((seq![space] + after).drop_first() =~= after);
    lemma_redacted_prefix(before, word + (seq![space] + after));
}

/// Only web addresses lose their query: a word that does not begin as one stays as it is, question
/// marks and all.
pub proof fn other_words_keep_their_question_marks(
    before: Seq<char>,
    word: Seq<char>,
    space: char,
    after: Seq<char>,
)
    requires
        before.len() == 0 || is_white(before.last()),
        is_one_word(word),
        !(word.len() >= 7 && word.subrange(0, 7) == "http://"@),
        !(word.len() >= 8 && word.subrange(0, 8) == "https://"@),
        is_white(space),
    ensures
        queries_redacted(before + (word + (seq![space] + after))) == queries_redacted(before) + (word
            + seq![space] + queries_redacted(after)),
        queries_redacted(before + word) == queries_redacted(before) + word,
{
    reveal_strlit("http://");
    reveal_strlit("https://");
    let rest = seq![space] + after;
    lemma_redacted_prefix(before, word + rest);
    lemma_redacted_prefix(before, word);
    lemma_first_word(word, rest);
    lemma_first_word(word, Seq::empty());
    assert(word + Seq::<char>::empty() =~= word);
    assert(rest.drop_first() =~= after);
    assert(redacted_word(word) == word);
}

} // verus!
