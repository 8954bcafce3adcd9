//! Classification and redaction of error texts, and the reconnect back-off.

use vstd::prelude::*;
use crate::text::{
    ascii_lower, contains_seq, starts_with_seq, occurs_at, join_spaced, chars_of, ascii_lower_chars,
    contains_chars, starts_with_chars, string_from_chars,
};

verus! {

/// Whether `c` has the Unicode `White_Space` property: the 25 code points U+0009 to U+000D,
/// U+0020, U+0085, U+00A0, U+1680, U+2000 to U+200A, U+2028, U+2029, U+202F, U+205F and
/// U+3000 (what `char::is_whitespace` answers).
pub open spec fn unicode_white_space(c: char) -> bool {
    let u = c as u32;
    ||| 0x09 <= u <= 0x0D
    ||| u == 0x20
    ||| u == 0x85
    ||| u == 0xA0
    ||| u == 0x1680
    ||| 0x2000 <= u <= 0x200A
    ||| u == 0x2028
    ||| u == 0x2029
    ||| u == 0x202F
    ||| u == 0x205F
    ||| u == 0x3000
}

/// Whether `c` is Unicode white space.
pub fn is_whitespace(c: char) -> (r: bool)
    ensures
        r == unicode_white_space(c),
{
    let u = c as u32;
    (0x09 <= u && u <= 0x0D) || u == 0x20 || u == 0x85 || u == 0xA0 || u == 0x1680
        || (0x2000 <= u && u <= 0x200A) || u == 0x2028 || u == 0x2029 || u == 0x202F
        || u == 0x205F || u == 0x3000
}

/// Whether an error text says that the Codex sign-in is missing or expired.
pub open spec fn is_auth_error_spec(error: Seq<char>) -> bool {
    let l = ascii_lower(error);
    contains_seq(l, "authentication required"@) || contains_seq(l, "unauthorized"@)
        || contains_seq(l, "not logged in"@) || contains_seq(l, "sign in"@)
}

/// Whether an error text says that the Codex sign-in is missing or expired (ASCII case ignored).
pub fn is_auth_error(error: &str) -> (r: bool)
    ensures
        r == is_auth_error_spec(error@),
{
    let lowered = ascii_lower_chars(&chars_of(error));
    contains_chars(&lowered, &chars_of("authentication required"))
        || contains_chars(&lowered, &chars_of("unauthorized"))
        || contains_chars(&lowered, &chars_of("not logged in"))
        || contains_chars(&lowered, &chars_of("sign in"))
}

/// Classifying an error ignores ASCII letter case: a text and its lower-case form are
/// classified alike.
pub proof fn law_auth_errors_ignore_case(error: Seq<char>)
    ensures
        is_auth_error_spec(ascii_lower(error)) == is_auth_error_spec(error),
{
    assert(ascii_lower(ascii_lower(error)) =~= ascii_lower(error));
}

proof fn lemma_phrase_occurs(a: Seq<char>, m: Seq<char>, b: Seq<char>)
    ensures
        occurs_at(ascii_lower(a + m + b), ascii_lower(m), a.len() as int),
{
    let l = ascii_lower(a + m + b);
    assert(l.subrange(a.len() as int, (a.len() + m.len()) as int) =~= ascii_lower(m)) by {
        assert forall|k: int| 0 <= k < m.len() implies #[trigger] l.subrange(a.len() as int, (a.len() + m.len()) as int)[k] == ascii_lower(m)[k] by {
            assert((a + m + b)[a.len() + k] == m[k]);
        }
    }
}

/// An error text is a sign-in error wherever in it one of the phrases "authentication
/// required", "unauthorized", "not logged in" or "sign in" stands, in any ASCII letter case:
/// whatever text comes before and after the phrase.
pub proof fn law_auth_phrases_anywhere(before: Seq<char>, phrase: Seq<char>, after: Seq<char>)
    ensures
        ascii_lower(phrase) == "authentication required"@ ==> is_auth_error_spec(before + phrase + after),
        ascii_lower(phrase) == "unauthorized"@ ==> is_auth_error_spec(before + phrase + after),
        ascii_lower(phrase) == "not logged in"@ ==> is_auth_error_spec(before + phrase + after),
        ascii_lower(phrase) == "sign in"@ ==> is_auth_error_spec(before + phrase + after),
{
    lemma_phrase_occurs(before, phrase, after);
}

/// No character of `s` is white space.
pub open spec fn no_white_space(s: Seq<char>) -> bool {
    forall|i: int| 0 <= i < s.len() ==> !unicode_white_space(#[trigger] s[i])
}

proof fn lemma_split_word_run(p: Seq<char>, s: Seq<char>)
    requires
        no_white_space(s),
    ensures
        split_state(p + s) == (split_state(p).0, split_state(p).1 + s),
    decreases s.len(),
{
    if s.len() == 0 {
        assert(p + s =~= p);
        assert(split_state(p).1 + s =~= split_state(p).1);
    } else {
        let s0 = s.drop_last();
        assert(no_white_space(s0)) by {
            assert forall|i: int| 0 <= i < s0.len() implies !unicode_white_space(#[trigger] s0[i]) by {
                assert(s0[i] == s[i]);
            }
        }
        lemma_split_word_run(p, s0);
        assert((p + s).drop_last() =~= p + s0);
        assert((p + s).last() == s.last());
        assert(!unicode_white_space(s[s.len() - 1]));
        assert(split_state(p).1 + s0 + seq![s.last()] =~= split_state(p).1 + s);
    }
}

/// Words are what lies between white space: a text made of two runs of non-space characters
/// separated by one space is split into exactly those two words, and a text with no white
/// space is one word (or none, when empty).
pub proof fn law_words_split_at_white_space(a: Seq<char>, b: Seq<char>)
    requires
        no_white_space(a),
        no_white_space(b),
    ensures
        a.len() > 0 ==> split_words(a) == seq![a],
        a.len() > 0 && b.len() > 0 ==> split_words(a + seq![' '] + b) == seq![a, b],
{
    lemma_split_word_run(Seq::<char>::empty(), a);
    assert(Seq::<char>::empty() + a =~= a);
    assert(split_state(Seq::<char>::empty()) == (Seq::<Seq<char>>::empty(), Seq::<char>::empty()));
    assert(Seq::<char>::empty() + a =~= a);
    if a.len() > 0 && b.len() > 0 {
        let p = a + seq![' '];
        assert(p.drop_last() =~= a);
        assert(unicode_white_space(' '));
        assert(split_state(p) == (seq![a], Seq::<char>::empty()));
        lemma_split_word_run(p, b);
        assert(Seq::<char>::empty() + b =~= b);
    }
}

/// Only those phrases make a sign-in error: a text in which none of them occurs, in any ASCII
/// letter case, is not one.
pub proof fn law_other_errors_are_not_auth(error: Seq<char>)
    requires
        !contains_seq(ascii_lower(error), "authentication required"@),
        !contains_seq(ascii_lower(error), "unauthorized"@),
        !contains_seq(ascii_lower(error), "not logged in"@),
        !contains_seq(ascii_lower(error), "sign in"@),
    ensures
        !is_auth_error_spec(error),
{
}

/// A public error text keeps the start of the error: it is the beginning of the text made of
/// the error's whitespace-separated words, links replaced by `[link hidden]`, joined by single
/// spaces; all of it when that text has at most 240 characters, its first 240 otherwise.
pub proof fn law_public_error_keeps_the_start(error: Seq<char>)
    ensures
        ({
            let full = join_spaced(split_words(error).map_values(|w: Seq<char>| hide_link(w)));
            let shown = public_error_spec(error);
            &&& shown.len() == if full.len() <= 240 { full.len() } else { 240 }
            &&& forall|i: int| 0 <= i < shown.len() ==> #[trigger] shown[i] == full[i]
        }),
{
}

/// The words read so far and the word being read, after scanning `s` from the left.
pub open spec fn split_state(s: Seq<char>) -> (Seq<Seq<char>>, Seq<char>)
    decreases s.len(),
{
    if s.len() == 0 {
        (seq![], seq![])
    } else {
        let prev = split_state(s.drop_last());
        let c = s.last();
        if unicode_white_space(c) {
            if prev.1.len() > 0 {
                (prev.0.push(prev.1), seq![])
            } else {
                prev
            }
        } else {
            (prev.0, prev.1.push(c))
        }
    }
}

/// The maximal runs of non-whitespace characters (`str::split_whitespace`).
pub open spec fn split_words(s: Seq<char>) -> Seq<Seq<char>> {
    let st = split_state(s);
    if st.1.len() > 0 {
        st.0.push(st.1)
    } else {
        st.0
    }
}

/// A word that is a link is replaced by `[link hidden]`.
pub open spec fn hide_link(w: Seq<char>) -> Seq<char> {
    if starts_with_seq(w, "http://"@) || starts_with_seq(w, "https://"@) {
        "[link hidden]"@
    } else {
        w
    }
}

/// The public form of an error text: words separated by single spaces, links hidden, at
/// most 240 characters.
pub open spec fn public_error_spec(error: Seq<char>) -> Seq<char> {
    let joined = join_spaced(split_words(error).map_values(|w: Seq<char>| hide_link(w)));
    if joined.len() <= 240 {
        joined
    } else {
        joined.take(240)
    }
}

fn hide_link_exec(w: &Vec<char>) -> (r: Vec<char>)
    ensures
        r@ == hide_link(w@),
{
    if starts_with_chars(w, &chars_of("http://")) || starts_with_chars(w, &chars_of("https://")) {
        chars_of("[link hidden]")
    } else {
        let mut r: Vec<char> = Vec::new();
        let mut i: usize = 0;
        while i < w.len()
            invariant
                i <= w.len(),
                r@ == w@.take(i as int),
            decreases w.len() - i,
        {
            r.push(w[i]);
            i = i + 1;
            assert(r@ =~= w@.take(i as int));
        }
        assert(w@.take(w.len() as int) =~= w@);
        r
    }
}

proof fn lemma_join_push(words: Seq<Seq<char>>, w: Seq<char>)
    ensures
        join_spaced(words.push(w)) == if words.len() == 0 {
            w
        } else {
            join_spaced(words) + seq![' '] + w
        },
{
    assert(words.push(w).drop_last() =~= words);
}

proof fn lemma_map_push(words: Seq<Seq<char>>, w: Seq<char>)
    ensures
        words.push(w).map_values(|x: Seq<char>| hide_link(x)) == words.map_values(|x: Seq<char>| hide_link(x)).push(hide_link(w)),
{
    assert(words.push(w).map_values(|x: Seq<char>| hide_link(x)) =~= words.map_values(|x: Seq<char>| hide_link(x)).push(hide_link(w)));
}

/// Appends `w` to `out`, preceded by a space when `out` already holds a word.
fn append_word(out: &mut Vec<char>, w: &Vec<char>, first: bool)
    ensures
        final(out)@ == if first {
            old(out)@ + w@
        } else {
            old(out)@ + seq![' '] + w@
        },
{
    if !first {
        out.push(' ');
    }
    let ghost start = out@;
    let mut i: usize = 0;
    while i < w.len()
        invariant
            i <= w.len(),
            out@ == start + w@.take(i as int),
        decreases w.len() - i,
    {
        out.push(w[i]);
        i = i + 1;
        assert(out@ =~= start + w@.take(i as int));
    }
    assert(w@.take(w.len() as int) =~= w@);
}

/// The error text that may be shown to the user: links are hidden, whitespace runs become
/// single spaces, and the text is cut to 240 characters.
pub fn public_error(error: &str) -> (r: String)
    ensures
        r@ == public_error_spec(error@),
        r@.len() <= 240,
{
    let chars = chars_of(error);
    let mut out: Vec<char> = Vec::new();
    let mut cur: Vec<char> = Vec::new();
    let mut have_word = false;
    let mut i: usize = 0;
    while i < chars.len()
        invariant
            i <= chars.len(),
            chars@ == error@,
            have_word == (split_state(chars@.take(i as int)).0.len() > 0),
            split_state(chars@.take(i as int)).1 == cur@,
            out@ == join_spaced(split_state(chars@.take(i as int)).0.map_values(|x: Seq<char>| hide_link(x))),
        decreases chars.len() - i,
    {
        let ghost prefix = chars@.take(i as int);
        let ghost words = split_state(prefix).0;
        let c = chars[i];
        assert(chars@.take(i + 1).drop_last() =~= prefix);
        if is_whitespace(c) {
            if cur.len() > 0 {
                let hidden = hide_link_exec(&cur);
                append_word(&mut out, &hidden, !have_word);
                have_word = true;
                proof {
                    lemma_map_push(words, cur@);
                    lemma_join_push(words.map_values(|x: Seq<char>| hide_link(x)), hide_link(cur@));
                }
                cur = Vec::new();
            }
        } else {
            cur.push(c);
        }
        i = i + 1;
    }
    assert(chars@.take(chars.len() as int) =~= chars@);
    let ghost words = split_state(chars@).0;
    if cur.len() > 0 {
        let hidden = hide_link_exec(&cur);
        append_word(&mut out, &hidden, !have_word);
        proof {
            lemma_map_push(words, cur@);
            lemma_join_push(words.map_values(|x: Seq<char>| hide_link(x)), hide_link(cur@));
        }
    }
    let end: usize = if out.len() <= 240 { out.len() } else { 240 };
    let mut r = String::new();
    let mut k: usize = 0;
    while k < end
        invariant
            k <= end <= out.len(),
            r@ == out@.take(k as int),
        decreases end - k,
    {
        crate::text::push_char(&mut r, out[k]);
        k = k + 1;
        assert(r@ =~= out@.take(k as int));
    }
    assert(out@.take(out.len() as int) =~= out@);
    r
}

/// No link survives in a public error text: each word of the error text is shown as
/// itself only when it does not begin with `http://` or `https://`, and the text is at most
/// 240 characters long.
pub proof fn law_public_error_hides_links(error: Seq<char>)
    ensures
        forall|i: int| 0 <= i < split_words(error).len() ==> !starts_with_seq(hide_link(#[trigger] split_words(error)[i]), "http://"@)
            && !starts_with_seq(hide_link(split_words(error)[i]), "https://"@),
        public_error_spec(error).len() <= 240,
{
    reveal_strlit("http://");
    reveal_strlit("https://");
    reveal_strlit("[link hidden]");
    assert forall|i: int| 0 <= i < split_words(error).len() implies !starts_with_seq(hide_link(#[trigger] split_words(error)[i]), "http://"@)
        && !starts_with_seq(hide_link(split_words(error)[i]), "https://"@) by {
        let w = split_words(error)[i];
        if starts_with_seq(w, "http://"@) || starts_with_seq(w, "https://"@) {
            assert("[link hidden]"@.take(7)[0] == '[');
            assert("[link hidden]"@.take(8)[0] == '[');
        }
    }
}

/// Seconds to wait before reconnect attempt `attempt`: 1, 2, 5, 15, 30, then 60.
pub open spec fn backoff_spec(attempt: nat) -> u64 {
    if attempt == 0 {
        1
    } else if attempt == 1 {
        2
    } else if attempt == 2 {
        5
    } else if attempt == 3 {
        15
    } else if attempt == 4 {
        30
    } else {
        60
    }
}

/// The delay in seconds before reconnect attempt `attempt`.
pub fn backoff_for(attempt: usize) -> (secs: u64)
    ensures
        secs == backoff_spec(attempt as nat),
{
    let seconds: [u64; 6] = [1, 2, 5, 15, 30, 60];
    let index: usize = if attempt < 5 { attempt } else { 5 };
    seconds[index]
}

/// The back-off lies between one second and one minute and never shrinks as attempts grow.
pub proof fn law_backoff_bounded_and_monotone(a: nat, b: nat)
    ensures
        1 <= backoff_spec(a) <= 60,
        a <= b ==> backoff_spec(a) <= backoff_spec(b),
{
}

} // verus!
