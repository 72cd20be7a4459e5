//! Company names as they are looked up in donation records.

use crate::text::text_join;
use vstd::prelude::*;
use vstd::string::{StrSliceExecFns, StringExecFns};

verus! {

/// A text in lower case, by the Unicode rules.
pub uninterp spec fn lowercase(text: Seq<char>) -> Seq<char>;

/// Whether a character is a letter or a number, by the Unicode tables.
pub uninterp spec fn is_alphanumeric(c: char) -> bool;

/// Whether a character is white space: one of the code points with the
/// Unicode property `White_Space`.
pub open spec fn is_whitespace(c: char) -> bool {
    let u = c as u32;
    ||| 0x09 <= u <= 0x0d
    ||| u == 0x20
    ||| u == 0x85
    ||| u == 0xa0
    ||| u == 0x1680
    ||| 0x2000 <= u <= 0x200a
    ||| u == 0x2028
    ||| u == 0x2029
    ||| u == 0x202f
    ||| u == 0x205f
    ||| u == 0x3000
}

/// Calls `str::to_lowercase`. Trusted: the result is the text in lower case.
#[verifier::external_body]
fn lowercase_text(text: &str) -> (lower: String)
    ensures
        lower@ == lowercase(text@),
{
    text.to_lowercase()
}

/// Calls `char::is_alphanumeric`.
#[verifier::external_body]
fn char_is_alphanumeric(c: char) -> (yes: bool)
    ensures
        yes == is_alphanumeric(c),
{
    c.is_alphanumeric()
}

/// Whether a character is white space.
pub fn char_is_whitespace(c: char) -> (yes: bool)
    ensures
        yes == is_whitespace(c),
{
    let u = c as u32;
    (0x09 <= u && u <= 0x0d) || u == 0x20 || u == 0x85 || u == 0xa0 || u == 0x1680 || (0x2000 <= u
        && u <= 0x200a) || u == 0x2028 || u == 0x2029 || u == 0x202f || u == 0x205f || u == 0x3000
}

/// Calls `String::push`. Trusted: the character is added at the end.
#[verifier::external_body]
fn push_char(text: &mut String, c: char)
    ensures
        final(text)@ == old(text)@.push(c),
{
    text.push(c)
}

/// A text in which every occurrence of a pattern that is not empty gives way
/// to a replacement: the text is read from the left, and wherever the
/// pattern stands the replacement is written in its place and reading goes
/// on behind the pattern.
pub open spec fn replaced(text: Seq<char>, pattern: Seq<char>, with: Seq<char>) -> Seq<char>
    decreases text.len(),
{
    if pattern.len() == 0 || text.len() < pattern.len() {
        text
    } else if pattern.is_prefix_of(text) {
        with + replaced(text.skip(pattern.len() as int), pattern, with)
    } else {
        seq![text[0]] + replaced(text.drop_first(), pattern, with)
    }
}

/// A text without the occurrences of a pattern.
pub open spec fn without(text: Seq<char>, pattern: Seq<char>) -> Seq<char> {
    replaced(text, pattern, Seq::empty())
}

/// Calls `str::replace`. Trusted: every occurrence of the pattern, found
/// from the left and never overlapping the one before, gives way to the
/// replacement.
#[verifier::external_body]
fn replace_all(text: &str, pattern: &str, with: &str) -> (result: String)
    requires
        pattern@.len() > 0,
    ensures
        result@ == replaced(text@, pattern@, with@),
{
    text.replace(pattern, with)
}

/// The words that mark a kind of company and are dropped from its name.
pub open spec fn company_suffixes() -> Seq<Seq<char>> {
    seq![
        "corporation"@,
        "corp"@,
        "inc"@,
        "incorporated"@,
        "company"@,
        "co"@,
        "llc"@,
        "lp"@,
        "ltd"@,
        "limited"@,
        "political action committee"@,
        "pac"@,
    ]
}

/// A text without a suffix word: wherever the word stands behind a space,
/// the space and the word are left out, and after that the same is done for
/// the word with a full stop behind it.
pub open spec fn without_suffix(text: Seq<char>, suffix: Seq<char>) -> Seq<char> {
    without(without(text, " "@ + suffix), " "@ + suffix + "."@)
}

/// A text without the first `n` suffix words, taken in their order.
pub open spec fn without_suffixes(text: Seq<char>, suffixes: Seq<Seq<char>>, n: nat) -> Seq<char>
    decreases n,
{
    if n == 0 {
        text
    } else {
        without_suffix(without_suffixes(text, suffixes, (n - 1) as nat), suffixes[n - 1])
    }
}

/// The letters, numbers and white space of a text, in order.
pub open spec fn kept(text: Seq<char>) -> Seq<char>
    decreases text.len(),
{
    if text.len() == 0 {
        Seq::empty()
    } else if is_alphanumeric(text.last()) || is_whitespace(text.last()) {
        kept(text.drop_last()).push(text.last())
    } else {
        kept(text.drop_last())
    }
}

/// The words of a text: its longest runs of characters that are not white
/// space, in order.
pub open spec fn words(text: Seq<char>) -> Seq<Seq<char>>
    decreases text.len(),
{
    if text.len() == 0 {
        Seq::empty()
    } else {
        let before = words(text.drop_last());
        if is_whitespace(text.last()) {
            before
        } else if text.len() >= 2 && !is_whitespace(text[text.len() - 2]) {
            before.update(before.len() - 1, before.last().push(text.last()))
        } else {
            before.push(seq![text.last()])
        }
    }
}

/// Words written one after the other with one space between neighbours.
pub open spec fn joined(words: Seq<Seq<char>>) -> Seq<char>
    decreases words.len(),
{
    if words.len() == 0 {
        Seq::empty()
    } else if words.len() == 1 {
        words[0]
    } else {
        joined(words.drop_last()) + " "@ + words.last()
    }
}

/// The form of a company name under which it is looked up: in lower case,
/// without the suffix words, without punctuation, and with single spaces
/// between its words.
pub open spec fn normalized_name(name: Seq<char>) -> Seq<char> {
    joined(words(kept(without_suffixes(lowercase(name), company_suffixes(), 12))))
}

/// A text that does not end in white space has a last word, which grows by
/// every further character that is not white space.
proof fn lemma_words_step(text: Seq<char>)
    requires
        text.len() >= 2,
        !is_whitespace(text.last()),
        !is_whitespace(text[text.len() - 2]),
    ensures
        words(text.drop_last()).len() > 0,
        joined(words(text)) == joined(words(text.drop_last())).push(text.last()),
{
    let before_text = text.drop_last();
    assert(before_text.last() == text[text.len() - 2]);
    let before = words(before_text);
    lemma_words_nonempty(before_text);
    let after = before.update(before.len() - 1, before.last().push(text.last()));
    assert(words(text) == after);
    if before.len() == 1 {
        assert(joined(after) =~= joined(before).push(text.last()));
    } else {
        assert(after.drop_last() =~= before.drop_last());
        assert(joined(after) =~= joined(before).push(text.last()));
    }
}

/// A text that ends in a character that is not white space has a word.
proof fn lemma_words_nonempty(text: Seq<char>)
    requires
        text.len() >= 1,
        !is_whitespace(text.last()),
    ensures
        words(text).len() > 0,
    decreases text.len(),
{
    if text.len() >= 2 && !is_whitespace(text[text.len() - 2]) {
        assert(text.drop_last().last() == text[text.len() - 2]);
        lemma_words_nonempty(text.drop_last());
    }
}

/// The form of a company name under which it is looked up in the records.
pub fn normalize_company_name(name: &str) -> (normalized: String)
    ensures
        normalized@ == normalized_name(name@),
{
    let suffixes: [&str; 12] = [
        "corporation",
        "corp",
        "inc",
        "incorporated",
        "company",
        "co",
        "llc",
        "lp",
        "ltd",
        "limited",
        "political action committee",
        "pac",
    ];
    assert(suffixes@.map_values(|s: &str| s@) =~= company_suffixes());
    let mut text = lowercase_text(name);
    let mut i: usize = 0;
    while i < 12
        invariant
            i <= 12,
            suffixes@.map_values(|s: &str| s@) == company_suffixes(),
            text@ == without_suffixes(lowercase(name@), company_suffixes(), i as nat),
        decreases 12 - i,
    {
        let suffix = suffixes[i];
        assert(suffix@ == company_suffixes()[i as int]) by {
            assert(suffixes@.map_values(|s: &str| s@)[i as int] == suffix@);
        }
        let spaced = text_join(" ", suffix);
        let stopped = text_join(spaced.as_str(), ".");
        proof {
            reveal_strlit(" ");
            reveal_strlit(".");
            reveal_strlit("");
            assert(""@ =~= Seq::<char>::empty());
        }
        text = replace_all(text.as_str(), spaced.as_str(), "");
        text = replace_all(text.as_str(), stopped.as_str(), "");
        i += 1;
    }
    let ghost source = text@;
    let n = text.as_str().unicode_len();
    let mut normalized = String::new();
    let mut open_word = false;
    let mut k: usize = 0;
    assert(source.take(0) =~= Seq::empty());
    proof {
        reveal_strlit(" ");
    }
    while k < n
        invariant
            k <= n,
            n == source.len(),
            source == text@,
            " "@ == seq![' '],
            normalized@ == joined(words(kept(source.take(k as int)))),
            open_word == (kept(source.take(k as int)).len() > 0 && !is_whitespace(
                kept(source.take(k as int)).last(),
            )),
        decreases n - k,
    {
        let c = text.as_str().get_char(k);
        let ghost before = kept(source.take(k as int));
        assert(source.take(k + 1).drop_last() =~= source.take(k as int));
        assert(source.take(k + 1).last() == c);
        let space = char_is_whitespace(c);
        if space {
            let ghost now = before.push(c);
            assert(now.drop_last() =~= before);
            open_word = false;
        } else if char_is_alphanumeric(c) {
            let ghost now = before.push(c);
            assert(now.drop_last() =~= before);
            if open_word {
                proof {
                    assert(now[now.len() - 2] == before.last());
                    lemma_words_step(now);
                }
                push_char(&mut normalized, c);
            } else {
                let ghost earlier = words(before);
                assert(words(now) == earlier.push(seq![c])) by {
                    if now.len() >= 2 {
                        assert(now[now.len() - 2] == before.last());
                    }
                }
                assert(earlier.push(seq![c]).drop_last() =~= earlier);
                if normalized.as_str().unicode_len() > 0 {
                    assert(earlier.len() > 0) by {
                        if earlier.len() == 0 {
                            assert(joined(earlier).len() == 0);
                        }
                    }
                    push_char(&mut normalized, ' ');
                    push_char(&mut normalized, c);
                    assert(normalized@ =~= joined(earlier) + " "@ + seq![c]);
                } else {
                    proof {
                        lemma_no_word_empty(before);
                        lemma_joined_empty(earlier);
                    }
                    push_char(&mut normalized, c);
                    assert(normalized@ =~= seq![c]);
                }
                open_word = true;
            }
        }
        k += 1;
    }
    assert(source.take(source.len() as int) =~= source);
    normalized
}

/// No word of a text is empty.
proof fn lemma_no_word_empty(text: Seq<char>)
    ensures
        forall|i: int| 0 <= i < words(text).len() ==> (#[trigger] words(text)[i]).len() > 0,
    decreases text.len(),
{
    if text.len() > 0 {
        lemma_no_word_empty(text.drop_last());
        if text.len() >= 2 && !is_whitespace(text[text.len() - 2]) {
            assert(text.drop_last().last() == text[text.len() - 2]);
            lemma_words_nonempty(text.drop_last());
        }
        let before = words(text.drop_last());
        assert forall|i: int| 0 <= i < words(text).len() implies (#[trigger] words(text)[i]).len()
            > 0 by {
            if i < before.len() - 1 {
                assert(words(text)[i] == before[i]);
            }
        }
    }
}

/// Words that are written out as nothing are no words at all, since no word
/// is empty.
proof fn lemma_joined_empty(list: Seq<Seq<char>>)
    requires
        joined(list).len() == 0,
        forall|i: int| 0 <= i < list.len() ==> (#[trigger] list[i]).len() > 0,
    ensures
        list.len() == 0,
{
    if list.len() == 1 {
        assert(list[0].len() > 0);
    } else if list.len() > 1 {
        assert(list.last().len() > 0);
    }
}

} // verus!
