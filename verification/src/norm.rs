//! The normalizer: turns raw text into the ordered sequence of index terms.
//!
//! Normalization lowercases the whole input, splits it at whitespace, strips
//! non-alphanumeric characters from each token, drops tokens that end up
//! empty or are stopwords, and stems what survives. The same pipeline serves
//! both indexing and querying.

use vstd::prelude::*;
use vstd::string::StrSliceExecFns;

verus! {

/// The lowercase form of a string, as `str::to_lowercase` computes it.
pub uninterp spec fn lower_of(s: Seq<char>) -> Seq<char>;

/// The stem of a word, as the English Snowball stemmer computes it.
pub uninterp spec fn stem_of(w: Seq<char>) -> Seq<char>;

/// Whether a character counts as whitespace, as `char::is_whitespace` has it.
pub uninterp spec fn is_space(c: char) -> bool;

/// Whether a character is alphanumeric, as `char::is_alphanumeric` has it.
pub uninterp spec fn is_alnum(c: char) -> bool;

/// Relies on `str::to_lowercase`: the lowercase form depends on the
/// characters alone, and an empty string stays empty.
#[verifier::external_body]
fn to_lower(s: &str) -> (r: String)
    ensures
        r@ == lower_of(s@),
        s@.len() == 0 ==> r@.len() == 0,
{
    s.to_lowercase()
}

/// Relies on `char::is_whitespace`: a fixed property of the character.
#[verifier::external_body]
fn char_is_space(c: char) -> (r: bool)
    ensures
        r == is_space(c),
{
    c.is_whitespace()
}

/// Relies on `char::is_alphanumeric`: a fixed property of the character.
#[verifier::external_body]
fn char_is_alnum(c: char) -> (r: bool)
    ensures
        r == is_alnum(c),
{
    c.is_alphanumeric()
}

/// Relies on `String::push`: appends the character at the end.
#[verifier::external_body]
fn push_char(s: &mut String, c: char)
    ensures
        final(s)@ == old(s)@.push(c),
{
    s.push(c)
}

/// Relies on rust_stemmers' `Stemmer::stem` with the English Snowball
/// algorithm fixed at the call: the stem depends on the input alone.
#[verifier::external_body]
fn stem_english(w: &str) -> (r: String)
    ensures
        r@ == stem_of(w@),
{
    rust_stemmers::Stemmer::create(rust_stemmers::Algorithm::English).stem(w).into_owned()
}

/// Character-for-character string comparison.
pub fn str_eq(a: &str, b: &str) -> (r: bool)
    ensures
        r == (a@ == b@),
{
    let n = a.unicode_len();
    if n != b.unicode_len() {
        return false;
    }
    let mut i: usize = 0;
    while i < n
        invariant
            n == a@.len(),
            n == b@.len(),
            i <= n,
            forall|k: int| 0 <= k < i ==> a@[k] == b@[k],
        decreases n - i,
    {
        if a.get_char(i) != b.get_char(i) {
            return false;
        }
        i = i + 1;
    }
    proof {
        assert(a@ =~= b@);
    }
    true
}

/// The fixed stopword set: high-frequency English function words that are
/// never indexed.
pub open spec fn is_stopword(w: Seq<char>) -> bool {
    ||| w == "i"@
    ||| w == "me"@
    ||| w == "my"@
    ||| w == "myself"@
    ||| w == "we"@
    ||| w == "our"@
    ||| w == "ours"@
    ||| w == "ourselves"@
    ||| w == "you"@
    ||| w == "your"@
    ||| w == "yours"@
    ||| w == "yourself"@
    ||| w == "yourselves"@
    ||| w == "he"@
    ||| w == "him"@
    ||| w == "his"@
    ||| w == "himself"@
    ||| w == "she"@
    ||| w == "her"@
    ||| w == "hers"@
    ||| w == "herself"@
    ||| w == "it"@
    ||| w == "its"@
    ||| w == "itself"@
    ||| w == "they"@
    ||| w == "them"@
    ||| w == "their"@
    ||| w == "theirs"@
    ||| w == "themselves"@
    ||| w == "what"@
    ||| w == "which"@
    ||| w == "who"@
    ||| w == "whom"@
    ||| w == "this"@
    ||| w == "that"@
    ||| w == "these"@
    ||| w == "those"@
    ||| w == "am"@
    ||| w == "is"@
    ||| w == "are"@
    ||| w == "was"@
    ||| w == "were"@
    ||| w == "be"@
    ||| w == "been"@
    ||| w == "being"@
    ||| w == "have"@
    ||| w == "has"@
    ||| w == "had"@
    ||| w == "having"@
    ||| w == "do"@
    ||| w == "does"@
    ||| w == "did"@
    ||| w == "doing"@
    ||| w == "a"@
    ||| w == "an"@
    ||| w == "the"@
    ||| w == "and"@
    ||| w == "but"@
    ||| w == "if"@
    ||| w == "or"@
    ||| w == "because"@
    ||| w == "as"@
    ||| w == "until"@
    ||| w == "while"@
    ||| w == "of"@
    ||| w == "at"@
    ||| w == "by"@
    ||| w == "for"@
    ||| w == "with"@
    ||| w == "about"@
    ||| w == "against"@
    ||| w == "between"@
    ||| w == "into"@
    ||| w == "through"@
    ||| w == "during"@
    ||| w == "before"@
    ||| w == "after"@
    ||| w == "above"@
    ||| w == "below"@
    ||| w == "to"@
    ||| w == "from"@
    ||| w == "up"@
    ||| w == "down"@
    ||| w == "in"@
    ||| w == "out"@
    ||| w == "on"@
    ||| w == "off"@
    ||| w == "over"@
    ||| w == "under"@
    ||| w == "again"@
    ||| w == "further"@
    ||| w == "then"@
    ||| w == "once"@
    ||| w == "here"@
    ||| w == "there"@
    ||| w == "when"@
    ||| w == "where"@
    ||| w == "why"@
    ||| w == "how"@
    ||| w == "all"@
    ||| w == "any"@
    ||| w == "both"@
    ||| w == "each"@
    ||| w == "few"@
    ||| w == "more"@
    ||| w == "most"@
    ||| w == "other"@
    ||| w == "some"@
    ||| w == "such"@
    ||| w == "no"@
    ||| w == "nor"@
    ||| w == "not"@
    ||| w == "only"@
    ||| w == "own"@
    ||| w == "same"@
    ||| w == "so"@
    ||| w == "than"@
    ||| w == "too"@
    ||| w == "very"@
    ||| w == "s"@
    ||| w == "t"@
    ||| w == "can"@
    ||| w == "will"@
    ||| w == "just"@
    ||| w == "don"@
    ||| w == "should"@
    ||| w == "now"@
}

/// Whether a (lowercased, stripped) token is a stopword.
pub fn is_stop_word(w: &str) -> (r: bool)
    ensures
        r == is_stopword(w@),
{
    if str_eq(w, "i") {
        return true;
    }
    if str_eq(w, "me") {
        return true;
    }
    if str_eq(w, "my") {
        return true;
    }
    if str_eq(w, "myself") {
        return true;
    }
    if str_eq(w, "we") {
        return true;
    }
    if str_eq(w, "our") {
        return true;
    }
    if str_eq(w, "ours") {
        return true;
    }
    if str_eq(w, "ourselves") {
        return true;
    }
    if str_eq(w, "you") {
        return true;
    }
    if str_eq(w, "your") {
        return true;
    }
    if str_eq(w, "yours") {
        return true;
    }
    if str_eq(w, "yourself") {
        return true;
    }
    if str_eq(w, "yourselves") {
        return true;
    }
    if str_eq(w, "he") {
        return true;
    }
    if str_eq(w, "him") {
        return true;
    }
    if str_eq(w, "his") {
        return true;
    }
    if str_eq(w, "himself") {
        return true;
    }
    if str_eq(w, "she") {
        return true;
    }
    if str_eq(w, "her") {
        return true;
    }
    if str_eq(w, "hers") {
        return true;
    }
    if str_eq(w, "herself") {
        return true;
    }
    if str_eq(w, "it") {
        return true;
    }
    if str_eq(w, "its") {
        return true;
    }
    if str_eq(w, "itself") {
        return true;
    }
    if str_eq(w, "they") {
        return true;
    }
    if str_eq(w, "them") {
        return true;
    }
    if str_eq(w, "their") {
        return true;
    }
    if str_eq(w, "theirs") {
        return true;
    }
    if str_eq(w, "themselves") {
        return true;
    }
    if str_eq(w, "what") {
        return true;
    }
    if str_eq(w, "which") {
        return true;
    }
    if str_eq(w, "who") {
        return true;
    }
    if str_eq(w, "whom") {
        return true;
    }
    if str_eq(w, "this") {
        return true;
    }
    if str_eq(w, "that") {
        return true;
    }
    if str_eq(w, "these") {
        return true;
    }
    if str_eq(w, "those") {
        return true;
    }
    if str_eq(w, "am") {
        return true;
    }
    if str_eq(w, "is") {
        return true;
    }
    if str_eq(w, "are") {
        return true;
    }
    if str_eq(w, "was") {
        return true;
    }
    if str_eq(w, "were") {
        return true;
    }
    if str_eq(w, "be") {
        return true;
    }
    if str_eq(w, "been") {
        return true;
    }
    if str_eq(w, "being") {
        return true;
    }
    if str_eq(w, "have") {
        return true;
    }
    if str_eq(w, "has") {
        return true;
    }
    if str_eq(w, "had") {
        return true;
    }
    if str_eq(w, "having") {
        return true;
    }
    if str_eq(w, "do") {
        return true;
    }
    if str_eq(w, "does") {
        return true;
    }
    if str_eq(w, "did") {
        return true;
    }
    if str_eq(w, "doing") {
        return true;
    }
    if str_eq(w, "a") {
        return true;
    }
    if str_eq(w, "an") {
        return true;
    }
    if str_eq(w, "the") {
        return true;
    }
    if str_eq(w, "and") {
        return true;
    }
    if str_eq(w, "but") {
        return true;
    }
    if str_eq(w, "if") {
        return true;
    }
    if str_eq(w, "or") {
        return true;
    }
    if str_eq(w, "because") {
        return true;
    }
    if str_eq(w, "as") {
        return true;
    }
    if str_eq(w, "until") {
        return true;
    }
    if str_eq(w, "while") {
        return true;
    }
    if str_eq(w, "of") {
        return true;
    }
    if str_eq(w, "at") {
        return true;
    }
    if str_eq(w, "by") {
        return true;
    }
    if str_eq(w, "for") {
        return true;
    }
    if str_eq(w, "with") {
        return true;
    }
    if str_eq(w, "about") {
        return true;
    }
    if str_eq(w, "against") {
        return true;
    }
    if str_eq(w, "between") {
        return true;
    }
    if str_eq(w, "into") {
        return true;
    }
    if str_eq(w, "through") {
        return true;
    }
    if str_eq(w, "during") {
        return true;
    }
    if str_eq(w, "before") {
        return true;
    }
    if str_eq(w, "after") {
        return true;
    }
    if str_eq(w, "above") {
        return true;
    }
    if str_eq(w, "below") {
        return true;
    }
    if str_eq(w, "to") {
        return true;
    }
    if str_eq(w, "from") {
        return true;
    }
    if str_eq(w, "up") {
        return true;
    }
    if str_eq(w, "down") {
        return true;
    }
    if str_eq(w, "in") {
        return true;
    }
    if str_eq(w, "out") {
        return true;
    }
    if str_eq(w, "on") {
        return true;
    }
    if str_eq(w, "off") {
        return true;
    }
    if str_eq(w, "over") {
        return true;
    }
    if str_eq(w, "under") {
        return true;
    }
    if str_eq(w, "again") {
        return true;
    }
    if str_eq(w, "further") {
        return true;
    }
    if str_eq(w, "then") {
        return true;
    }
    if str_eq(w, "once") {
        return true;
    }
    if str_eq(w, "here") {
        return true;
    }
    if str_eq(w, "there") {
        return true;
    }
    if str_eq(w, "when") {
        return true;
    }
    if str_eq(w, "where") {
        return true;
    }
    if str_eq(w, "why") {
        return true;
    }
    if str_eq(w, "how") {
        return true;
    }
    if str_eq(w, "all") {
        return true;
    }
    if str_eq(w, "any") {
        return true;
    }
    if str_eq(w, "both") {
        return true;
    }
    if str_eq(w, "each") {
        return true;
    }
    if str_eq(w, "few") {
        return true;
    }
    if str_eq(w, "more") {
        return true;
    }
    if str_eq(w, "most") {
        return true;
    }
    if str_eq(w, "other") {
        return true;
    }
    if str_eq(w, "some") {
        return true;
    }
    if str_eq(w, "such") {
        return true;
    }
    if str_eq(w, "no") {
        return true;
    }
    if str_eq(w, "nor") {
        return true;
    }
    if str_eq(w, "not") {
        return true;
    }
    if str_eq(w, "only") {
        return true;
    }
    if str_eq(w, "own") {
        return true;
    }
    if str_eq(w, "same") {
        return true;
    }
    if str_eq(w, "so") {
        return true;
    }
    if str_eq(w, "than") {
        return true;
    }
    if str_eq(w, "too") {
        return true;
    }
    if str_eq(w, "very") {
        return true;
    }
    if str_eq(w, "s") {
        return true;
    }
    if str_eq(w, "t") {
        return true;
    }
    if str_eq(w, "can") {
        return true;
    }
    if str_eq(w, "will") {
        return true;
    }
    if str_eq(w, "just") {
        return true;
    }
    if str_eq(w, "don") {
        return true;
    }
    if str_eq(w, "should") {
        return true;
    }
    if str_eq(w, "now") {
        return true;
    }
    false
}

/// The terms one token contributes: none if it is empty or a stopword,
/// otherwise its stem.
pub open spec fn token_terms(w: Seq<char>) -> Seq<Seq<char>> {
    if w.len() > 0 && !is_stopword(w) {
        seq![stem_of(w)]
    } else {
        Seq::empty()
    }
}

/// Left-to-right scan of lowercased text: whitespace closes the token built
/// so far, alphanumeric characters extend it, anything else is dropped.
pub open spec fn scan_terms(s: Seq<char>, cur: Seq<char>) -> Seq<Seq<char>>
    decreases s.len(),
{
    if s.len() == 0 {
        token_terms(cur)
    } else if is_space(s[0]) {
        token_terms(cur) + scan_terms(s.drop_first(), Seq::empty())
    } else if is_alnum(s[0]) {
        scan_terms(s.drop_first(), cur.push(s[0]))
    } else {
        scan_terms(s.drop_first(), cur)
    }
}

/// The full normalization of a text: lowercase it, then scan it into terms.
pub open spec fn normalize_spec(s: Seq<char>) -> Seq<Seq<char>> {
    scan_terms(lower_of(s), Seq::empty())
}

/// Closes the token built so far: emits its stem unless it is empty or a
/// stopword, and resets the token.
fn flush_token(cur: &mut String, out: &mut Vec<String>)
    ensures
        final(out).deep_view() == old(out).deep_view() + token_terms(old(cur)@),
        final(cur)@ == Seq::<char>::empty(),
{
    if !cur.as_str().is_empty() && !is_stop_word(cur.as_str()) {
        let stemmed = stem_english(cur.as_str());
        out.push(stemmed);
        proof {
            assert(out.deep_view() =~= old(out).deep_view() + token_terms(old(cur)@));
        }
    } else {
        proof {
            assert(out.deep_view() =~= old(out).deep_view() + token_terms(old(cur)@));
        }
    }
    *cur = String::new();
}

/// Normalizes raw text into the ordered sequence of index terms.
pub fn tokenize(text: &str) -> (r: Vec<String>)
    ensures
        r.deep_view() == normalize_spec(text@),
{
    let lowered = to_lower(text);
    let n = lowered.as_str().unicode_len();
    let mut out: Vec<String> = Vec::new();
    let mut cur = String::new();
    let mut i: usize = 0;
    proof {
        assert(lowered@.skip(0) =~= lowered@);
        assert(out.deep_view() =~= Seq::<Seq<char>>::empty());
    }
    while i < n
        invariant
            n == lowered@.len(),
            i <= n,
            out.deep_view() + scan_terms(lowered@.skip(i as int), cur@) == scan_terms(
                lowered@,
                Seq::empty(),
            ),
        decreases n - i,
    {
        let c = lowered.as_str().get_char(i);
        proof {
            assert(lowered@.skip(i as int)[0] == lowered@[i as int]);
            assert(lowered@.skip(i as int).drop_first() =~= lowered@.skip(i as int + 1));
        }
        if char_is_space(c) {
            flush_token(&mut cur, &mut out);
            proof {
                assert(out.deep_view() + scan_terms(lowered@.skip(i as int + 1), cur@)
                    =~= scan_terms(lowered@, Seq::empty()));
            }
        } else if char_is_alnum(c) {
            push_char(&mut cur, c);
        }
        i = i + 1;
    }
    proof {
        assert(lowered@.skip(n as int) =~= Seq::<char>::empty());
    }
    flush_token(&mut cur, &mut out);
    proof {
        assert(out.deep_view() =~= normalize_spec(text@));
    }
    out
}

} // verus!
