//! The slug of a title: its URL-safe, lower-case form.

use vstd::prelude::*;
use crate::text::{is_white_space, is_whitespace, lowercased, to_chars, to_lowercase};

verus! {

/// `s` with every hyphen taken out.
pub open spec fn without_hyphens(s: Seq<char>) -> Seq<char> {
    s.filter(|c: char| c != '-')
}

/// The length of the run of characters other than white space that `s`
/// starts with.
pub open spec fn word_len(s: Seq<char>) -> nat
    decreases s.len(),
{
    if s.len() > 0 && !is_white_space(s.first()) {
        1 + word_len(s.drop_first())
    } else {
        0
    }
}

/// The words of `s`: its maximal runs of characters other than white space,
/// in order.
pub open spec fn words(s: Seq<char>) -> Seq<Seq<char>>
    decreases s.len(),
    via words_decreases
{
    if s.len() == 0 {
        Seq::empty()
    } else if is_white_space(s.first()) {
        words(s.drop_first())
    } else {
        seq![s.take(word_len(s) as int)] + words(s.skip(word_len(s) as int))
    }
}

#[via_fn]
proof fn words_decreases(s: Seq<char>) {
    lemma_word_len_bounds(s);
}

/// The words joined into one string, `sep` between each two.
pub open spec fn joined(words: Seq<Seq<char>>, sep: char) -> Seq<char>
    decreases words.len(),
{
    if words.len() == 0 {
        Seq::empty()
    } else if words.len() == 1 {
        words[0]
    } else {
        joined(words.drop_last(), sep).push(sep) + words.last()
    }
}

/// A title with its hyphens removed and its words joined by underscores.
pub open spec fn slug_shape(title: Seq<char>) -> Seq<char> {
    joined(words(without_hyphens(title)), '_')
}

/// The slug of a title: its slug shape in lower case.
pub open spec fn normalized(title: Seq<char>) -> Seq<char> {
    lowercased(slug_shape(title))
}

/// A string that holds neither a hyphen nor white space.
pub open spec fn is_plain(s: Seq<char>) -> bool {
    forall|i: int| 0 <= i < s.len() ==> #[trigger] s[i] != '-' && !is_white_space(s[i])
}

/// A string already in normalized form: free of hyphens and white space, and
/// equal to its own lower-case form.
pub open spec fn in_normal_form(s: Seq<char>) -> bool {
    is_plain(s) && lowercased(s) == s
}

/// A word is never longer than the string, and is positive where the string
/// starts with a character other than white space.
pub proof fn lemma_word_len_bounds(s: Seq<char>)
    ensures
        word_len(s) <= s.len(),
        s.len() > 0 && !is_white_space(s.first()) ==> word_len(s) >= 1,
        forall|j: int| 0 <= j < word_len(s) ==> !is_white_space(#[trigger] s[j]),
        word_len(s) < s.len() ==> is_white_space(s[word_len(s) as int]),
    decreases s.len(),
{
    if s.len() > 0 && !is_white_space(s.first()) {
        let rest = s.drop_first();
        lemma_word_len_bounds(rest);
        assert forall|j: int| 0 <= j < word_len(s) implies !is_white_space(#[trigger] s[j]) by {
            if j > 0 {
                assert(s[j] == rest[j - 1]);
            }
        }
        if word_len(s) < s.len() {
            assert(s[word_len(s) as int] == rest[word_len(rest) as int]);
        }
    }
}

/// The first word of `s` has `k` characters when the first `k` are no white
/// space and the next one, if any, is.
pub proof fn lemma_word_len_is(s: Seq<char>, k: int)
    requires
        0 <= k <= s.len(),
        forall|j: int| 0 <= j < k ==> !is_white_space(#[trigger] s[j]),
        k < s.len() ==> is_white_space(s[k]),
    ensures
        word_len(s) == k,
    decreases k,
{
    if k > 0 {
        let rest = s.drop_first();
        assert forall|j: int| 0 <= j < k - 1 implies !is_white_space(#[trigger] rest[j]) by {
            assert(rest[j] == s[j + 1]);
        }
        lemma_word_len_is(rest, k - 1);
    }
}

/// The views of the words held in `words`.
pub open spec fn word_views(words: Seq<Vec<char>>) -> Seq<Seq<char>> {
    words.map_values(|w: Vec<char>| w@)
}

/// Joining one more word: the separator comes first unless the word is the
/// first one.
pub proof fn lemma_joined_push(words: Seq<Seq<char>>, word: Seq<char>, sep: char)
    ensures
        joined(words.push(word), sep) == if words.len() == 0 {
            word
        } else {
            joined(words, sep).push(sep) + word
        },
{
    let all = words.push(word);
    assert(all.drop_last() == words);
    assert(all.last() == word);
}

/// Every character of a word of `s` is a character of `s` other than white
/// space, and no word is empty.
pub proof fn lemma_words_hold_visible_chars(s: Seq<char>)
    ensures
        forall|i: int| 0 <= i < words(s).len() ==> (#[trigger] words(s)[i]).len() > 0,
        forall|i: int, j: int|
            0 <= i < words(s).len() && 0 <= j < words(s)[i].len() ==> s.contains(
                #[trigger] words(s)[i][j],
            ) && !is_white_space(words(s)[i][j]),
    decreases s.len(),
{
    if s.len() == 0 {
    } else if is_white_space(s.first()) {
        let rest = s.drop_first();
        lemma_words_hold_visible_chars(rest);
        assert forall|i: int, j: int|
            0 <= i < words(s).len() && 0 <= j < words(s)[i].len() implies s.contains(
            #[trigger] words(s)[i][j],
        ) && !is_white_space(words(s)[i][j]) by {
            let c = words(rest)[i][j];
            assert(rest.contains(c));
            let k = choose|k: int| 0 <= k < rest.len() && rest[k] == c;
            assert(s[k + 1] == c);
        }
    } else {
        lemma_word_len_bounds(s);
        let n = word_len(s) as int;
        let head = s.take(n);
        let rest = s.skip(n);
        lemma_words_hold_visible_chars(rest);
        assert(words(s) == seq![head] + words(rest));
        assert forall|i: int| 0 <= i < words(s).len() implies (#[trigger] words(s)[i]).len()
            > 0 by {
            if i > 0 {
                assert(words(s)[i] == words(rest)[i - 1]);
            }
        }
        assert forall|i: int, j: int|
            0 <= i < words(s).len() && 0 <= j < words(s)[i].len() implies s.contains(
            #[trigger] words(s)[i][j],
        ) && !is_white_space(words(s)[i][j]) by {
            if i == 0 {
                assert(words(s)[0] == head);
                assert(head[j] == s[j]);
            } else {
                assert(words(s)[i] == words(rest)[i - 1]);
                let c = words(rest)[i - 1][j];
                assert(rest.contains(c));
                let k = choose|k: int| 0 <= k < rest.len() && rest[k] == c;
                assert(s[k + n] == c);
            }
        }
    }
}

/// Every character of the joined string is the separator or a character of
/// one of the words.
pub proof fn lemma_joined_chars(words: Seq<Seq<char>>, sep: char, k: int)
    requires
        0 <= k < joined(words, sep).len(),
    ensures
        joined(words, sep)[k] == sep || exists|i: int, j: int|
            0 <= i < words.len() && 0 <= j < words[i].len() && #[trigger] words[i][j] == joined(
                words,
                sep,
            )[k],
    decreases words.len(),
{
    if words.len() == 1 {
        assert(words[0][k] == joined(words, sep)[k]);
    } else if words.len() > 1 {
        let front = joined(words.drop_last(), sep);
        if k < front.len() {
            lemma_joined_chars(words.drop_last(), sep, k);
            if front[k] != sep {
                let (i, j) = choose|i: int, j: int|
                    0 <= i < words.drop_last().len() && 0 <= j < words.drop_last()[i].len()
                        && #[trigger] words.drop_last()[i][j] == front[k];
                assert(words[i][j] == joined(words, sep)[k]);
            }
        } else if k > front.len() {
            let j = k - front.len() - 1;
            assert(words[words.len() - 1][j] == joined(words, sep)[k]);
        }
    }
}

/// A string without white space is its own only word, and joining its words
/// gives it back.
pub proof fn lemma_words_of_one_word(s: Seq<char>, sep: char)
    requires
        forall|i: int| 0 <= i < s.len() ==> !is_white_space(#[trigger] s[i]),
    ensures
        joined(words(s), sep) == s,
{
    if s.len() > 0 {
        lemma_word_len_is(s, s.len() as int);
        assert(s.take(s.len() as int) == s);
        let rest = s.skip(s.len() as int);
        assert(rest.len() == 0);
        assert(words(rest) == Seq::<Seq<char>>::empty());
        assert(words(s) == seq![s] + words(rest));
        assert(words(s) == seq![s]);
    }
}

/// The slug shape of any title holds neither a hyphen nor white space.
pub proof fn lemma_slug_shape_is_plain(title: Seq<char>)
    ensures
        is_plain(slug_shape(title)),
{
    let bare = without_hyphens(title);
    let shape = slug_shape(title);
    lemma_words_hold_visible_chars(bare);
    assert forall|k: int| 0 <= k < shape.len() implies #[trigger] shape[k] != '-'
        && !is_white_space(shape[k]) by {
        lemma_joined_chars(words(bare), '_', k);
        if shape[k] != '_' {
            let (i, j) = choose|i: int, j: int|
                0 <= i < words(bare).len() && 0 <= j < words(bare)[i].len()
                    && #[trigger] words(bare)[i][j] == shape[k];
            assert(bare.contains(words(bare)[i][j]));
            let m = choose|m: int| 0 <= m < bare.len() && bare[m] == shape[k];
            title.lemma_filter_pred(|c: char| c != '-', m);
        }
    }
}

/// A string that holds neither a hyphen nor white space is its own slug
/// shape.
pub proof fn lemma_plain_keeps_shape(s: Seq<char>)
    requires
        is_plain(s),
    ensures
        slug_shape(s) == s,
{
    lemma_filter_keeps_all(s);
    lemma_words_of_one_word(s, '_');
}

proof fn lemma_filter_keeps_all(s: Seq<char>)
    requires
        forall|i: int| 0 <= i < s.len() ==> #[trigger] s[i] != '-',
    ensures
        without_hyphens(s) == s,
    decreases s.len(),
{
    reveal(Seq::filter);
    if s.len() > 0 {
        lemma_filter_keeps_all(s.drop_last());
        assert(s.drop_last().push(s.last()) == s);
    }
}

/// Shaping a slug is idempotent: a second pass changes nothing.
pub proof fn lemma_slug_shape_idempotent(title: Seq<char>)
    ensures
        slug_shape(slug_shape(title)) == slug_shape(title),
{
    lemma_slug_shape_is_plain(title);
    lemma_plain_keeps_shape(slug_shape(title));
}

/// Normalizing is idempotent on strings already in normalized form: such a
/// string is its own slug, and so is the slug of its slug.
pub proof fn lemma_normalized_idempotent(title: Seq<char>)
    requires
        in_normal_form(title),
    ensures
        normalized(title) == title,
        normalized(normalized(title)) == normalized(title),
{
    lemma_plain_keeps_shape(title);
}

/// The characters of `chars` other than hyphens, in order.
pub fn strip_hyphens(chars: &Vec<char>) -> (kept: Vec<char>)
    ensures
        kept@ == without_hyphens(chars@),
{
    let mut kept: Vec<char> = Vec::new();
    let mut i: usize = 0;
    proof {
        reveal(Seq::filter);
        assert(chars@.take(0).len() == 0);
    }
    while i < chars.len()
        invariant
            i <= chars.len(),
            kept@ == without_hyphens(chars@.take(i as int)),
        decreases chars.len() - i,
    {
        let c = chars[i];
        proof {
            reveal(Seq::filter);
            let next = chars@.take(i + 1);
            assert(next.drop_last() == chars@.take(i as int));
            assert(next.last() == c);
        }
        if c != '-' {
            kept.push(c);
        }
        i += 1;
    }
    proof {
        assert(chars@.take(chars.len() as int) == chars@);
    }
    kept
}

/// Splits `chars` into its words.
pub fn split_words(chars: &Vec<char>) -> (found: Vec<Vec<char>>)
    ensures
        word_views(found@) == words(chars@),
{
    let n: usize = chars.len();
    let mut found: Vec<Vec<char>> = Vec::new();
    let mut i: usize = 0;
    proof {
        assert(chars@.skip(0) == chars@);
        assert(word_views(found@) + words(chars@) == words(chars@));
    }
    while i < n
        invariant
            i <= n == chars.len(),
            words(chars@) == word_views(found@) + words(chars@.skip(i as int)),
        decreases n - i,
    {
        let ghost rest = chars@.skip(i as int);
        if is_whitespace(chars[i]) {
            proof {
                assert(rest.drop_first() == chars@.skip(i + 1));
            }
            i += 1;
        } else {
            let start: usize = i;
            let mut word: Vec<char> = Vec::new();
            while i < n && !is_whitespace(chars[i])
                invariant
                    start <= i <= n == chars.len(),
                    word@ == chars@.subrange(start as int, i as int),
                    forall|j: int| start <= j < i ==> !is_white_space(#[trigger] chars@[j]),
                decreases n - i,
            {
                word.push(chars[i]);
                i += 1;
            }
            proof {
                let k = i - start;
                assert forall|j: int| 0 <= j < k implies !is_white_space(#[trigger] rest[j]) by {
                    assert(rest[j] == chars@[start + j]);
                }
                lemma_word_len_is(rest, k);
                assert(rest.take(k) == word@);
                assert(rest.skip(k) == chars@.skip(i as int));
                assert(words(rest) == seq![word@] + words(chars@.skip(i as int)));
                assert(word_views(found@.push(word)) == word_views(found@) + seq![word@]);
            }
            found.push(word);
        }
    }
    proof {
        assert(chars@.skip(n as int).len() == 0);
        assert(word_views(found@) + Seq::<Seq<char>>::empty() == word_views(found@));
    }
    found
}

/// Joins the words into one string, `sep` between each two.
pub fn join_words(words: &Vec<Vec<char>>, sep: char) -> (text: String)
    ensures
        text@ == joined(word_views(words@), sep),
{
    let mut text = String::new();
    let mut k: usize = 0;
    proof {
        assert(word_views(words@).take(0).len() == 0);
    }
    while k < words.len()
        invariant
            k <= words.len(),
            text@ == joined(word_views(words@).take(k as int), sep),
        decreases words.len() - k,
    {
        let word = &words[k];
        let ghost before = text@;
        if k > 0 {
            text.push(sep);
        }
        let ghost start = text@;
        let mut j: usize = 0;
        while j < word.len()
            invariant
                j <= word.len(),
                text@ == start + word@.take(j as int),
            decreases word.len() - j,
        {
            text.push(word[j]);
            proof {
                assert(word@.take(j + 1) == word@.take(j as int).push(word@[j as int]));
            }
            j += 1;
        }
        proof {
            assert(word@.take(word.len() as int) == word@);
            let views = word_views(words@);
            assert(views.take(k + 1) == views.take(k as int).push(word@));
            lemma_joined_push(views.take(k as int), word@, sep);
        }
        k += 1;
    }
    proof {
        assert(word_views(words@).take(words.len() as int) == word_views(words@));
    }
    text
}

/// Removes the hyphens of `title` and joins its words by underscores.
pub fn underscore_words(title: &str) -> (shape: String)
    ensures
        shape@ == slug_shape(title@),
{
    let chars = to_chars(title);
    let bare = strip_hyphens(&chars);
    let words = split_words(&bare);
    join_words(&words, '_')
}

/// The slug of `title`: hyphens removed, words joined by underscores, the
/// whole in lower case. A title without words has the empty slug.
pub fn normalise_title_for_url(title: &str) -> (slug: String)
    ensures
        slug@ == normalized(title@),
        words(without_hyphens(title@)).len() == 0 ==> slug@.len() == 0,
{
    let shape = underscore_words(title);
    to_lowercase(shape.as_str())
}

/// Tells whether `title` is in normalized form: free of hyphens and white
/// space, and equal to its own lower-case form.
pub fn is_normal_form(title: &str) -> (normal: bool)
    ensures
        normal == in_normal_form(title@),
{
    let chars = to_chars(title);
    let mut i: usize = 0;
    while i < chars.len()
        invariant
            i <= chars.len(),
            chars@ == title@,
            forall|j: int| 0 <= j < i ==> #[trigger] chars@[j] != '-' && !is_white_space(chars@[j]),
        decreases chars.len() - i,
    {
        if chars[i] == '-' || is_whitespace(chars[i]) {
            assert(title@[i as int] == '-' || is_white_space(title@[i as int]));
            return false;
        }
        i += 1;
    }
    let lower = to_chars(to_lowercase(title).as_str());
    same_chars(&lower, &chars)
}

/// Tells whether two runs of characters are the same.
fn same_chars(a: &Vec<char>, b: &Vec<char>) -> (same: bool)
    ensures
        same == (a@ == b@),
{
    if a.len() != b.len() {
        return false;
    }
    let mut i: usize = 0;
    while i < a.len()
        invariant
            i <= a.len() == b.len(),
            forall|j: int| 0 <= j < i ==> a@[j] == b@[j],
        decreases a.len() - i,
    {
        if a[i] != b[i] {
            return false;
        }
        i += 1;
    }
    assert(a@ =~= b@);
    true
}

} // verus!
