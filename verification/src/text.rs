//! Normalisation of final transcript text: filler tokens go, runs of
//! spaces shrink to one space, and the ends are trimmed. Texts are handled
//! as sequences of characters.

use vstd::prelude::*;

verus! {

/// `String::push` of the standard library: the character is appended and
/// nothing else changes.
pub assume_specification[ String::push ](s: &mut String, c: char)
    ensures
        final(s)@ == old(s)@.push(c),
;

/// White space: the characters with the Unicode property `White_Space`.
pub open spec fn is_space(c: char) -> bool {
    let n = c as u32;
    ||| n == 0x20
    ||| 0x09 <= n <= 0x0d
    ||| n == 0x85
    ||| n == 0xa0
    ||| n == 0x1680
    ||| 0x2000 <= n <= 0x200a
    ||| n == 0x2028
    ||| n == 0x2029
    ||| n == 0x202f
    ||| n == 0x205f
    ||| n == 0x3000
}

/// Whether every character is white space.
pub open spec fn all_spaces(s: Seq<char>) -> bool {
    forall|i: int| 0 <= i < s.len() ==> is_space(#[trigger] s[i])
}

/// The filler tokens of two characters: あの, ええ, えー, っと.
pub open spec fn is_filler_pair(a: char, b: char) -> bool {
    ||| a == 'あ' && b == 'の'
    ||| a == 'え' && b == 'え'
    ||| a == 'え' && b == 'ー'
    ||| a == 'っ' && b == 'と'
}

/// The filler tokens of three characters: えっと, ええと, えーと, あのー,
/// っとー.
pub open spec fn is_filler_triple(a: char, b: char, c: char) -> bool {
    ||| a == 'え' && b == 'っ' && c == 'と'
    ||| a == 'え' && b == 'え' && c == 'と'
    ||| a == 'え' && b == 'ー' && c == 'と'
    ||| a == 'あ' && b == 'の' && c == 'ー'
    ||| a == 'っ' && b == 'と' && c == 'ー'
}

/// Whether a token is one of the nine filler words.
pub open spec fn is_filler(token: Seq<char>) -> bool {
    ||| token.len() == 2 && is_filler_pair(token[0], token[1])
    ||| token.len() == 3 && is_filler_triple(token[0], token[1], token[2])
}

/// Length of the token that a text starts with: its leading run of
/// characters that are not white space.
pub open spec fn token_len(s: Seq<char>) -> nat
    decreases s.len(),
{
    if s.len() == 0 || is_space(s[0]) {
        0
    } else {
        1 + token_len(s.drop_first())
    }
}

/// The token that a text starts with.
pub open spec fn first_token(s: Seq<char>) -> Seq<char> {
    s.subrange(0, token_len(s) as int)
}

/// The text behind the token that it starts with.
pub open spec fn after_token(s: Seq<char>) -> Seq<char> {
    s.subrange(token_len(s) as int, s.len() as int)
}

/// The text without its filler tokens. A token is a longest run of
/// characters that are not white space, so a filler goes only where white
/// space or an end of the text stands on either side of it. The white space
/// around it stays.
pub open spec fn without_fillers(s: Seq<char>) -> Seq<char>
    decreases s.len(),
    via without_fillers_decreases
{
    if s.len() == 0 {
        s
    } else if is_space(s[0]) {
        seq![s[0]] + without_fillers(s.drop_first())
    } else if is_filler(first_token(s)) {
        without_fillers(after_token(s))
    } else {
        first_token(s) + without_fillers(after_token(s))
    }
}

#[via_fn]
proof fn without_fillers_decreases(s: Seq<char>) {
    if s.len() > 0 && !is_space(s[0]) {
        lemma_token_split(s);
    }
}

/// The text with every run of spaces shrunk to one space.
pub open spec fn collapse_spaces(s: Seq<char>) -> Seq<char>
    decreases s.len(),
{
    if s.len() == 0 {
        s
    } else if s[0] == ' ' && s.len() >= 2 && s[1] == ' ' {
        collapse_spaces(s.drop_first())
    } else {
        seq![s[0]] + collapse_spaces(s.drop_first())
    }
}

/// The text without its leading white space.
pub open spec fn trim_start(s: Seq<char>) -> Seq<char>
    decreases s.len(),
{
    if s.len() > 0 && is_space(s[0]) {
        trim_start(s.drop_first())
    } else {
        s
    }
}

/// The text without its trailing white space.
pub open spec fn trim_end(s: Seq<char>) -> Seq<char>
    decreases s.len(),
{
    if s.len() > 0 && is_space(s.last()) {
        trim_end(s.drop_last())
    } else {
        s
    }
}

/// The text without white space at either end.
pub open spec fn trim(s: Seq<char>) -> Seq<char> {
    trim_end(trim_start(s))
}

/// The normal form of a final transcript: fillers removed, runs of spaces
/// collapsed, ends trimmed.
pub open spec fn clean_text(s: Seq<char>) -> Seq<char> {
    trim(collapse_spaces(without_fillers(s)))
}

/// The characters that alone do not make a transcript: 、 。 と.
pub open spec fn is_punctuation(c: char) -> bool {
    c == '、' || c == '。' || c == 'と'
}

/// Whether a text, once trimmed, is empty or holds nothing but
/// punctuation.
pub open spec fn punctuation_only(s: Seq<char>) -> bool {
    forall|i: int| 0 <= i < trim(s).len() ==> is_punctuation(#[trigger] trim(s)[i])
}

/// The text that a final transcript is shown with: its normal form, or
/// nothing where that is empty or punctuation only.
pub open spec fn exposed_text(s: Seq<char>) -> Option<Seq<char>> {
    if punctuation_only(clean_text(s)) {
        None
    } else {
        Some(clean_text(s))
    }
}

/// No two spaces stand side by side.
pub open spec fn no_double_space(s: Seq<char>) -> bool {
    forall|i: int| 0 <= i && i + 1 < s.len() ==> !(#[trigger] s[i] == ' ' && s[i + 1] == ' ')
}

/// No white space stands at either end.
pub open spec fn is_trimmed(s: Seq<char>) -> bool {
    s.len() == 0 || (!is_space(s[0]) && !is_space(s.last()))
}

/// No token is a filler.
pub open spec fn no_filler_token(s: Seq<char>) -> bool
    decreases s.len(),
    via no_filler_token_decreases
{
    if s.len() == 0 {
        true
    } else if is_space(s[0]) {
        no_filler_token(s.drop_first())
    } else {
        !is_filler(first_token(s)) && no_filler_token(after_token(s))
    }
}

#[via_fn]
proof fn no_filler_token_decreases(s: Seq<char>) {
    if s.len() > 0 && !is_space(s[0]) {
        lemma_token_split(s);
    }
}

/// A text that starts with a token splits into that token, which is not
/// empty and holds no white space, and a rest that is empty or starts with
/// white space.
pub proof fn lemma_token_split(s: Seq<char>)
    requires
        s.len() > 0,
        !is_space(s[0]),
    ensures
        1 <= token_len(s) <= s.len(),
        s == first_token(s) + after_token(s),
        forall|i: int| 0 <= i < token_len(s) ==> !is_space(#[trigger] s[i]),
        token_len(s) < s.len() ==> is_space(s[token_len(s) as int]),
        after_token(s).len() < s.len(),
    decreases s.len(),
{
    let rest = s.drop_first();
    assert(token_len(s) == 1 + token_len(rest));
    if rest.len() > 0 && !is_space(rest[0]) {
        lemma_token_split(rest);
        assert forall|i: int| 0 <= i < token_len(s) implies !is_space(#[trigger] s[i]) by {
            if i > 0 {
                assert(s[i] == rest[i - 1]);
            }
        }
        if token_len(s) < s.len() {
            assert(s[token_len(s) as int] == rest[token_len(rest) as int]);
        }
    } else {
        assert(token_len(rest) == 0);
        if rest.len() > 0 {
            assert(s[1] == rest[0]);
        }
    }
    assert(s =~= first_token(s) + after_token(s));
}

/// A run without white space, followed by nothing or by white space, is
/// the token that the whole starts with.
pub proof fn lemma_token_of_concat(token: Seq<char>, rest: Seq<char>)
    requires
        forall|i: int| 0 <= i < token.len() ==> !is_space(#[trigger] token[i]),
        rest.len() == 0 || is_space(rest[0]),
    ensures
        token_len(token + rest) == token.len(),
        first_token(token + rest) == token,
        after_token(token + rest) == rest,
    decreases token.len(),
{
    let whole = token + rest;
    if token.len() == 0 {
        assert(whole == rest);
    } else {
        assert(whole[0] == token[0]);
        lemma_token_of_concat(token.drop_first(), rest);
        assert(whole.drop_first() == token.drop_first() + rest);
    }
    assert(first_token(whole) == token);
    assert(after_token(whole) == rest);
}

/// Removing fillers leaves the first character in place where it is white
/// space.
proof fn lemma_without_fillers_head(s: Seq<char>)
    requires
        s.len() == 0 || is_space(s[0]),
    ensures
        without_fillers(s).len() == 0 || is_space(without_fillers(s)[0]),
{
}

/// A text without filler tokens is left as it is.
pub proof fn lemma_without_fillers_fixed(s: Seq<char>)
    requires
        no_filler_token(s),
    ensures
        without_fillers(s) == s,
    decreases s.len(),
{
    if s.len() == 0 {
    } else if is_space(s[0]) {
        lemma_without_fillers_fixed(s.drop_first());
        assert(seq![s[0]] + s.drop_first() == s);
    } else {
        lemma_token_split(s);
        lemma_without_fillers_fixed(after_token(s));
    }
}

/// What is left after removing fillers holds no filler token.
pub proof fn lemma_without_fillers_clean(s: Seq<char>)
    ensures
        no_filler_token(without_fillers(s)),
    decreases s.len(),
{
    if s.len() == 0 {
    } else if is_space(s[0]) {
        lemma_without_fillers_clean(s.drop_first());
        let out = seq![s[0]] + without_fillers(s.drop_first());
        assert(out.drop_first() == without_fillers(s.drop_first()));
    } else {
        lemma_token_split(s);
        let rest = after_token(s);
        lemma_without_fillers_clean(rest);
        if !is_filler(first_token(s)) {
            lemma_without_fillers_head(rest);
            lemma_token_of_concat(first_token(s), without_fillers(rest));
            let out = first_token(s) + without_fillers(rest);
            assert(out.len() > 0 && out[0] == s[0]);
        }
    }
}

/// Collapsing leaves the first character in place.
proof fn lemma_collapse_head(s: Seq<char>)
    requires
        s.len() > 0,
    ensures
        collapse_spaces(s).len() > 0,
        collapse_spaces(s)[0] == s[0],
    decreases s.len(),
{
    if s[0] == ' ' && s.len() >= 2 && s[1] == ' ' {
        lemma_collapse_head(s.drop_first());
    }
}

/// Collapsing passes over a leading token.
proof fn lemma_collapse_token(token: Seq<char>, rest: Seq<char>)
    requires
        forall|i: int| 0 <= i < token.len() ==> !is_space(#[trigger] token[i]),
    ensures
        collapse_spaces(token + rest) == token + collapse_spaces(rest),
    decreases token.len(),
{
    let whole = token + rest;
    if token.len() == 0 {
        assert(whole == rest);
        assert(token + collapse_spaces(rest) == collapse_spaces(rest));
    } else {
        assert(whole[0] == token[0]);
        assert(!is_space(token[0]));
        assert(whole.drop_first() == token.drop_first() + rest);
        lemma_collapse_token(token.drop_first(), rest);
        assert(seq![token[0]] + (token.drop_first() + collapse_spaces(rest)) == token
            + collapse_spaces(rest));
    }
}

/// Collapsing keeps a text free of filler tokens.
pub proof fn lemma_collapse_keeps_clean(s: Seq<char>)
    requires
        no_filler_token(s),
    ensures
        no_filler_token(collapse_spaces(s)),
    decreases s.len(),
{
    if s.len() == 0 {
    } else if is_space(s[0]) {
        lemma_collapse_keeps_clean(s.drop_first());
        if !(s[0] == ' ' && s.len() >= 2 && s[1] == ' ') {
            let out = seq![s[0]] + collapse_spaces(s.drop_first());
            assert(out.drop_first() == collapse_spaces(s.drop_first()));
        }
    } else {
        lemma_token_split(s);
        let token = first_token(s);
        let rest = after_token(s);
        lemma_collapse_keeps_clean(rest);
        lemma_collapse_token(token, rest);
        if rest.len() > 0 {
            lemma_collapse_head(rest);
        }
        lemma_token_of_concat(token, collapse_spaces(rest));
        let out = token + collapse_spaces(rest);
        assert(out.len() > 0 && out[0] == s[0]);
    }
}

/// What is left after collapsing holds no two spaces side by side.
pub proof fn lemma_collapse_no_double(s: Seq<char>)
    ensures
        no_double_space(collapse_spaces(s)),
    decreases s.len(),
{
    if s.len() == 0 {
    } else {
        let rest = s.drop_first();
        lemma_collapse_no_double(rest);
        if !(s[0] == ' ' && s.len() >= 2 && s[1] == ' ') {
            let tail = collapse_spaces(rest);
            let out = seq![s[0]] + tail;
            if rest.len() > 0 {
                lemma_collapse_head(rest);
            }
            assert forall|i: int| 0 <= i && i + 1 < out.len() implies !(#[trigger] out[i] == ' '
                && out[i + 1] == ' ') by {
                if i > 0 {
                    assert(out[i] == tail[i - 1]);
                    assert(out[i + 1] == tail[i]);
                }
            }
        }
    }
}

/// A text without two spaces side by side is left as it is.
pub proof fn lemma_collapse_fixed(s: Seq<char>)
    requires
        no_double_space(s),
    ensures
        collapse_spaces(s) == s,
    decreases s.len(),
{
    if s.len() > 0 {
        let rest = s.drop_first();
        assert forall|i: int| 0 <= i && i + 1 < rest.len() implies !(#[trigger] rest[i] == ' '
            && rest[i + 1] == ' ') by {
            assert(rest[i] == s[i + 1]);
            assert(rest[i + 1] == s[i + 2]);
        }
        lemma_collapse_fixed(rest);
        assert(!(s[0] == ' ' && s[1] == ' ') || s.len() < 2);
        assert(seq![s[0]] + rest == s);
    }
}

/// Trimming the start leaves a tail of the text that does not start with
/// white space; what went was white space.
pub proof fn lemma_trim_start_tail(s: Seq<char>)
    ensures
        trim_start(s).len() <= s.len(),
        trim_start(s) == s.subrange(s.len() - trim_start(s).len(), s.len() as int),
        trim_start(s).len() == 0 || !is_space(trim_start(s)[0]),
        all_spaces(s.subrange(0, s.len() - trim_start(s).len())),
    decreases s.len(),
{
    if s.len() > 0 && is_space(s[0]) {
        let rest = s.drop_first();
        lemma_trim_start_tail(rest);
        let gone = rest.len() - trim_start(rest).len();
        assert(rest.subrange(gone, rest.len() as int) == s.subrange(gone + 1, s.len() as int));
        let lead = s.subrange(0, gone + 1);
        assert forall|i: int| 0 <= i < lead.len() implies is_space(#[trigger] lead[i]) by {
            if i > 0 {
                assert(lead[i] == rest.subrange(0, gone)[i - 1]);
            }
        }
    } else {
        assert(s.subrange(0, s.len() as int) == s);
    }
}

/// Trimming the end leaves a head of the text that does not end with white
/// space; what went was white space.
pub proof fn lemma_trim_end_head(s: Seq<char>)
    ensures
        trim_end(s).len() <= s.len(),
        trim_end(s) == s.subrange(0, trim_end(s).len() as int),
        trim_end(s).len() == 0 || !is_space(trim_end(s).last()),
        all_spaces(s.subrange(trim_end(s).len() as int, s.len() as int)),
    decreases s.len(),
{
    if s.len() > 0 && is_space(s.last()) {
        let init = s.drop_last();
        lemma_trim_end_head(init);
        let kept = trim_end(init).len() as int;
        assert(init.subrange(0, kept) == s.subrange(0, kept));
        let trail = s.subrange(kept, s.len() as int);
        assert forall|i: int| 0 <= i < trail.len() implies is_space(#[trigger] trail[i]) by {
            if i < trail.len() - 1 {
                assert(trail[i] == init.subrange(kept, init.len() as int)[i]);
            }
        }
    } else {
        assert(s.subrange(0, s.len() as int) == s);
    }
}

/// What is left after trimming has no white space at either end.
pub proof fn lemma_trim_is_trimmed(s: Seq<char>)
    ensures
        is_trimmed(trim(s)),
{
    lemma_trim_start_tail(s);
    lemma_trim_end_head(trim_start(s));
}

/// A text without white space at either end is left as it is.
pub proof fn lemma_trim_fixed(s: Seq<char>)
    requires
        is_trimmed(s),
    ensures
        trim(s) == s,
{
}

/// Trimming keeps a text free of pairs of spaces.
pub proof fn lemma_trim_keeps_no_double(s: Seq<char>)
    requires
        no_double_space(s),
    ensures
        no_double_space(trim(s)),
{
    lemma_trim_start_tail(s);
    let t = trim_start(s);
    lemma_trim_end_head(t);
    let u = trim_end(t);
    let gone = s.len() - t.len();
    assert forall|i: int| 0 <= i && i + 1 < u.len() implies !(#[trigger] u[i] == ' ' && u[i + 1]
        == ' ') by {
        assert(u[i] == t[i] && u[i + 1] == t[i + 1]);
        assert(t[i] == s[gone + i] && t[i + 1] == s[gone + i + 1]);
    }
}

/// Dropping white space at the end keeps a text free of filler tokens.
proof fn lemma_drop_last_keeps_clean(s: Seq<char>)
    requires
        s.len() > 0,
        is_space(s.last()),
        no_filler_token(s),
    ensures
        no_filler_token(s.drop_last()),
    decreases s.len(),
{
    let init = s.drop_last();
    if s.len() == 1 {
    } else if is_space(s[0]) {
        let rest = s.drop_first();
        assert(rest.last() == s.last());
        lemma_drop_last_keeps_clean(rest);
        assert(init.drop_first() == rest.drop_last());
        assert(init[0] == s[0]);
    } else {
        lemma_token_split(s);
        let token = first_token(s);
        let rest = after_token(s);
        assert(rest.len() > 0) by {
            if rest.len() == 0 {
                assert(token_len(s) == s.len());
                assert(!is_space(s[s.len() - 1]));
            }
        }
        assert(rest.last() == s.last());
        lemma_drop_last_keeps_clean(rest);
        assert(init == token + rest.drop_last());
        if rest.len() >= 2 {
            assert(rest.drop_last()[0] == rest[0]);
        }
        lemma_token_of_concat(token, rest.drop_last());
        assert(init.len() > 0 && init[0] == s[0]);
    }
}

/// Trimming keeps a text free of filler tokens.
pub proof fn lemma_trim_keeps_clean(s: Seq<char>)
    requires
        no_filler_token(s),
    ensures
        no_filler_token(trim(s)),
{
    lemma_trim_start_keeps_clean(s);
    lemma_trim_end_keeps_clean(trim_start(s));
}

proof fn lemma_trim_start_keeps_clean(s: Seq<char>)
    requires
        no_filler_token(s),
    ensures
        no_filler_token(trim_start(s)),
    decreases s.len(),
{
    if s.len() > 0 && is_space(s[0]) {
        lemma_trim_start_keeps_clean(s.drop_first());
    }
}

proof fn lemma_trim_end_keeps_clean(s: Seq<char>)
    requires
        no_filler_token(s),
    ensures
        no_filler_token(trim_end(s)),
    decreases s.len(),
{
    if s.len() > 0 && is_space(s.last()) {
        lemma_drop_last_keeps_clean(s);
        lemma_trim_end_keeps_clean(s.drop_last());
    }
}

/// The normal form holds no filler token, no two spaces side by side and
/// no white space at its ends.
pub proof fn lemma_clean_text_is_normal(s: Seq<char>)
    ensures
        no_filler_token(clean_text(s)),
        no_double_space(clean_text(s)),
        is_trimmed(clean_text(s)),
{
    let stripped = without_fillers(s);
    let collapsed = collapse_spaces(stripped);
    lemma_without_fillers_clean(s);
    lemma_collapse_keeps_clean(stripped);
    lemma_collapse_no_double(stripped);
    lemma_trim_keeps_clean(collapsed);
    lemma_trim_keeps_no_double(collapsed);
    lemma_trim_is_trimmed(collapsed);
}

/// Cleaning is idempotent: the normal form of a normal form is itself.
pub proof fn lemma_clean_text_idempotent(s: Seq<char>)
    ensures
        clean_text(clean_text(s)) == clean_text(s),
{
    let once = clean_text(s);
    lemma_clean_text_is_normal(s);
    lemma_without_fillers_fixed(once);
    lemma_collapse_fixed(once);
    lemma_trim_fixed(once);
}

/// White space in front of a text does not show after trimming the start.
proof fn lemma_trim_start_skips(lead: Seq<char>, s: Seq<char>)
    requires
        all_spaces(lead),
    ensures
        trim_start(lead + s) == trim_start(s),
    decreases lead.len(),
{
    let whole = lead + s;
    if lead.len() == 0 {
        assert(whole == s);
    } else {
        assert(whole[0] == lead[0]);
        assert(whole.drop_first() == lead.drop_first() + s);
        assert forall|i: int| 0 <= i < lead.drop_first().len() implies is_space(
            #[trigger] lead.drop_first()[i],
        ) by {
            assert(lead.drop_first()[i] == lead[i + 1]);
        }
        lemma_trim_start_skips(lead.drop_first(), s);
    }
}

/// White space behind a text does not show after trimming the end.
proof fn lemma_trim_end_skips(s: Seq<char>, trail: Seq<char>)
    requires
        all_spaces(trail),
    ensures
        trim_end(s + trail) == trim_end(s),
    decreases trail.len(),
{
    let whole = s + trail;
    if trail.len() == 0 {
        assert(whole == s);
    } else {
        assert(whole.last() == trail.last());
        assert(whole.drop_last() == s + trail.drop_last());
        assert forall|i: int| 0 <= i < trail.drop_last().len() implies is_space(
            #[trigger] trail.drop_last()[i],
        ) by {
            assert(trail.drop_last()[i] == trail[i]);
        }
        lemma_trim_end_skips(s, trail.drop_last());
    }
}

/// Trimming the start passes over white space behind the text, unless the
/// text is white space throughout.
proof fn lemma_trim_start_before_trail(s: Seq<char>, trail: Seq<char>)
    requires
        all_spaces(trail),
    ensures
        trim_start(s + trail) == if trim_start(s).len() == 0 {
            Seq::<char>::empty()
        } else {
            trim_start(s) + trail
        },
    decreases s.len(),
{
    let whole = s + trail;
    if s.len() == 0 {
        assert(whole == trail);
        lemma_trim_start_skips(trail, Seq::<char>::empty());
        assert(trail + Seq::<char>::empty() == trail);
    } else {
        assert(whole[0] == s[0]);
        if is_space(s[0]) {
            assert(whole.drop_first() == s.drop_first() + trail);
            lemma_trim_start_before_trail(s.drop_first(), trail);
        }
    }
}

/// White space around a text does not show after trimming.
pub proof fn lemma_trim_ignores_padding(lead: Seq<char>, s: Seq<char>, trail: Seq<char>)
    requires
        all_spaces(lead),
        all_spaces(trail),
    ensures
        trim(lead + s + trail) == trim(s),
{
    assert(lead + s + trail == lead + (s + trail));
    lemma_trim_start_skips(lead, s + trail);
    lemma_trim_start_before_trail(s, trail);
    if trim_start(s).len() > 0 {
        lemma_trim_end_skips(trim_start(s), trail);
    }
}

/// The punctuation-only check does not depend on white space around the
/// text.
pub proof fn lemma_punctuation_only_ignores_padding(
    lead: Seq<char>,
    s: Seq<char>,
    trail: Seq<char>,
)
    requires
        all_spaces(lead),
        all_spaces(trail),
    ensures
        punctuation_only(lead + s + trail) == punctuation_only(s),
{
    lemma_trim_ignores_padding(lead, s, trail);
}

/// Computes `is_space`.
pub fn is_whitespace_char(c: char) -> (space: bool)
    ensures
        space == is_space(c),
{
    let n: u32 = c as u32;
    n == 0x20 || (0x09 <= n && n <= 0x0d) || n == 0x85 || n == 0xa0 || n == 0x1680 || (0x2000 <= n
        && n <= 0x200a) || n == 0x2028 || n == 0x2029 || n == 0x202f || n == 0x205f || n == 0x3000
}

/// Whether the characters `start..end` of a text are a filler word.
fn is_filler_run(s: &Vec<char>, start: usize, end: usize) -> (filler: bool)
    requires
        start <= end <= s.len(),
    ensures
        filler == is_filler(s@.subrange(start as int, end as int)),
{
    let ghost token = s@.subrange(start as int, end as int);
    if end - start == 2 {
        let a: char = s[start];
        let b: char = s[start + 1];
        assert(token[0] == a && token[1] == b);
        (a == 'あ' && b == 'の') || (a == 'え' && b == 'え') || (a == 'え' && b == 'ー') || (a == 'っ'
            && b == 'と')
    } else if end - start == 3 {
        let a: char = s[start];
        let b: char = s[start + 1];
        let c: char = s[start + 2];
        assert(token[0] == a && token[1] == b && token[2] == c);
        (a == 'え' && b == 'っ' && c == 'と') || (a == 'え' && b == 'え' && c == 'と') || (a == 'え'
            && b == 'ー' && c == 'と') || (a == 'あ' && b == 'の' && c == 'ー') || (a == 'っ' && b
            == 'と' && c == 'ー')
    } else {
        false
    }
}

/// Computes `without_fillers`.
pub fn strip_fillers(s: &Vec<char>) -> (out: Vec<char>)
    ensures
        out@ == without_fillers(s@),
{
    let n: usize = s.len();
    let mut out: Vec<char> = Vec::new();
    let mut i: usize = 0;
    proof {
        assert(s@.subrange(0, n as int) == s@);
        assert(out@ + without_fillers(s@) == without_fillers(s@));
    }
    while i < n
        invariant
            n == s.len(),
            i <= n,
            out@ + without_fillers(s@.subrange(i as int, n as int)) == without_fillers(s@),
        decreases n - i,
    {
        let ghost here = s@.subrange(i as int, n as int);
        let ghost before = out@;
        assert(here[0] == s@[i as int]);
        if is_whitespace_char(s[i]) {
            out.push(s[i]);
            proof {
                assert(here.drop_first() == s@.subrange(i + 1, n as int));
                assert(out@ + without_fillers(here.drop_first()) == before + (seq![here[0]]
                    + without_fillers(here.drop_first())));
            }
            i = i + 1;
        } else {
            let mut j: usize = i + 1;
            proof {
                lemma_token_split(here);
            }
            while j < n && !is_whitespace_char(s[j])
                invariant
                    n == s.len(),
                    i < j <= n,
                    here == s@.subrange(i as int, n as int),
                    j - i <= token_len(here) <= n - i,
                    forall|k: int| 0 <= k < token_len(here) ==> !is_space(#[trigger] here[k]),
                    token_len(here) < here.len() ==> is_space(here[token_len(here) as int]),
                decreases n - j,
            {
                proof {
                    assert(here[j - i] == s@[j as int]);
                }
                j = j + 1;
            }
            proof {
                if j < n {
                    assert(here[j - i] == s@[j as int]);
                }
                assert(token_len(here) == j - i);
                assert(first_token(here) == s@.subrange(i as int, j as int));
                assert(after_token(here) == s@.subrange(j as int, n as int));
            }
            if !is_filler_run(s, i, j) {
                let mut k: usize = i;
                while k < j
                    invariant
                        n == s.len(),
                        i <= k <= j <= n,
                        out@ == before + s@.subrange(i as int, k as int),
                    decreases j - k,
                {
                    out.push(s[k]);
                    proof {
                        assert(s@.subrange(i as int, k + 1) == s@.subrange(i as int, k as int).push(
                            s@[k as int],
                        ));
                    }
                    k = k + 1;
                }
                proof {
                    assert(out@ + without_fillers(after_token(here)) == before + (first_token(here)
                        + without_fillers(after_token(here))));
                }
            }
            i = j;
        }
    }
    proof {
        assert(s@.subrange(n as int, n as int).len() == 0);
        assert(out@ + Seq::<char>::empty() == out@);
    }
    out
}

/// Computes `collapse_spaces`.
pub fn collapse(s: &Vec<char>) -> (out: Vec<char>)
    ensures
        out@ == collapse_spaces(s@),
{
    let n: usize = s.len();
    let mut out: Vec<char> = Vec::new();
    let mut i: usize = 0;
    proof {
        assert(s@.subrange(0, n as int) == s@);
        assert(out@ + collapse_spaces(s@) == collapse_spaces(s@));
    }
    while i < n
        invariant
            n == s.len(),
            i <= n,
            out@ + collapse_spaces(s@.subrange(i as int, n as int)) == collapse_spaces(s@),
        decreases n - i,
    {
        let ghost here = s@.subrange(i as int, n as int);
        let ghost before = out@;
        proof {
            assert(here[0] == s@[i as int]);
            assert(here.drop_first() == s@.subrange(i + 1, n as int));
            if i + 1 < n {
                assert(here[1] == s@[i + 1]);
            }
        }
        let doubled: bool = s[i] == ' ' && i + 1 < n && s[i + 1] == ' ';
        if !doubled {
            out.push(s[i]);
            proof {
                assert(out@ + collapse_spaces(here.drop_first()) == before + (seq![here[0]]
                    + collapse_spaces(here.drop_first())));
            }
        }
        i = i + 1;
    }
    proof {
        assert(s@.subrange(n as int, n as int).len() == 0);
        assert(out@ + Seq::<char>::empty() == out@);
    }
    out
}

/// Computes `trim`.
pub fn trim_chars(s: &Vec<char>) -> (out: Vec<char>)
    ensures
        out@ == trim(s@),
{
    let n: usize = s.len();
    let mut start: usize = 0;
    proof {
        assert(s@.subrange(0, n as int) == s@);
    }
    while start < n && is_whitespace_char(s[start])
        invariant
            n == s.len(),
            start <= n,
            trim_start(s@) == trim_start(s@.subrange(start as int, n as int)),
        decreases n - start,
    {
        proof {
            let here = s@.subrange(start as int, n as int);
            assert(here[0] == s@[start as int]);
            assert(here.drop_first() == s@.subrange(start + 1, n as int));
        }
        start = start + 1;
    }
    let ghost tail = s@.subrange(start as int, n as int);
    proof {
        if start < n {
            assert(tail[0] == s@[start as int]);
        }
        assert(trim_start(s@) == tail);
    }
    let mut end: usize = n;
    while end > start && is_whitespace_char(s[end - 1])
        invariant
            n == s.len(),
            start <= end <= n,
            tail == s@.subrange(start as int, n as int),
            trim_end(tail) == trim_end(s@.subrange(start as int, end as int)),
        decreases end - start,
    {
        proof {
            let here = s@.subrange(start as int, end as int);
            assert(here.last() == s@[end - 1]);
            assert(here.drop_last() == s@.subrange(start as int, end - 1));
        }
        end = end - 1;
    }
    proof {
        let here = s@.subrange(start as int, end as int);
        if end > start {
            assert(here.last() == s@[end - 1]);
        }
        assert(trim_end(tail) == here);
    }
    let mut out: Vec<char> = Vec::new();
    let mut k: usize = start;
    while k < end
        invariant
            n == s.len(),
            start <= k <= end <= n,
            out@ == s@.subrange(start as int, k as int),
        decreases end - k,
    {
        out.push(s[k]);
        proof {
            assert(s@.subrange(start as int, k + 1) == s@.subrange(start as int, k as int).push(
                s@[k as int],
            ));
        }
        k = k + 1;
    }
    out
}

/// The characters of a text.
pub fn chars_of(text: &str) -> (chars: Vec<char>)
    ensures
        chars@ == text@,
{
    let mut chars: Vec<char> = Vec::new();
    for c in it: text.chars()
        invariant
            it.seq() == text@,
            chars@ == it.seq().subrange(0, it.index() as int),
    {
        chars.push(c);
    }
    assert(chars@ == text@);
    chars
}

/// The text made of a run of characters.
pub fn string_of(chars: &Vec<char>) -> (text: String)
    ensures
        text@ == chars@,
{
    let mut text: String = String::new();
    let mut i: usize = 0;
    while i < chars.len()
        invariant
            i <= chars.len(),
            text@ == chars@.subrange(0, i as int),
        decreases chars.len() - i,
    {
        text.push(chars[i]);
        proof {
            assert(chars@.subrange(0, i + 1) == chars@.subrange(0, i as int).push(chars@[i as int]));
        }
        i = i + 1;
    }
    proof {
        assert(chars@.subrange(0, chars@.len() as int) == chars@);
    }
    text
}

/// The normal form of a text, as characters.
pub fn clean_chars(s: &Vec<char>) -> (out: Vec<char>)
    ensures
        out@ == clean_text(s@),
{
    let stripped: Vec<char> = strip_fillers(s);
    let collapsed: Vec<char> = collapse(&stripped);
    trim_chars(&collapsed)
}

/// Whether every character is punctuation.
pub fn all_punctuation(s: &Vec<char>) -> (all: bool)
    ensures
        all == (forall|i: int| 0 <= i < s@.len() ==> is_punctuation(#[trigger] s@[i])),
{
    let mut i: usize = 0;
    while i < s.len()
        invariant
            i <= s.len(),
            forall|k: int| 0 <= k < i ==> is_punctuation(#[trigger] s@[k]),
        decreases s.len() - i,
    {
        let c: char = s[i];
        if !(c == '、' || c == '。' || c == 'と') {
            return false;
        }
        i = i + 1;
    }
    true
}

} // verus!
