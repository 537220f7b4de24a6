//! Small text utilities: building strings a character at a time, stripping
//! ANSI escape sequences, and reading a port number out of tool output.

use vstd::prelude::*;
use vstd::string::StrSliceExecFns;
use crate::digits::{all_digits, dec_value, parse_u64};
use crate::paths::{contains_substring, str_contains};

verus! {

/// Relies on String::push: appends exactly one character.
#[verifier::external_body]
pub fn push_char(s: &mut String, c: char)
    ensures
        final(s)@ == old(s)@.push(c),
{
    s.push(c);
}

/// Whether `c` is an ASCII letter.
pub open spec fn is_ascii_alpha(c: char) -> bool {
    ('a' <= c && c <= 'z') || ('A' <= c && c <= 'Z')
}

/// What follows a control sequence introducer: everything up to and including
/// the first ASCII letter is dropped.
pub open spec fn skip_csi(s: Seq<char>) -> Seq<char>
    decreases s.len(),
{
    if s.len() == 0 {
        Seq::empty()
    } else if is_ascii_alpha(s[0]) {
        s.skip(1)
    } else {
        skip_csi(s.skip(1))
    }
}

proof fn lemma_skip_csi_shorter(s: Seq<char>)
    ensures
        skip_csi(s).len() <= s.len(),
    decreases s.len(),
{
    if s.len() > 0 && !is_ascii_alpha(s[0]) {
        lemma_skip_csi_shorter(s.skip(1));
    }
}

/// `s` with ANSI escape sequences removed: an ESC followed by `[`, parameter
/// characters and one final ASCII letter is dropped whole; an ESC followed by
/// anything else drops the ESC and that one character.
pub open spec fn spec_strip_ansi(s: Seq<char>) -> Seq<char>
    decreases s.len(),
    via spec_strip_ansi_dec
{
    if s.len() == 0 {
        Seq::empty()
    } else if s[0] == '\u{1b}' {
        if s.len() == 1 {
            Seq::empty()
        } else if s[1] == '[' {
            spec_strip_ansi(skip_csi(s.skip(2)))
        } else {
            spec_strip_ansi(s.skip(2))
        }
    } else {
        seq![s[0]] + spec_strip_ansi(s.skip(1))
    }
}

fn ascii_alpha(c: char) -> (r: bool)
    ensures
        r == is_ascii_alpha(c),
{
    let v = c as u32;
    (97 <= v && v <= 122) || (65 <= v && v <= 90)
}

#[via_fn]
proof fn spec_strip_ansi_dec(s: Seq<char>) {
    if s.len() >= 2 && s[0] == '\u{1b}' && s[1] == '[' {
        lemma_skip_csi_shorter(s.skip(2));
    }
}

/// Remove ANSI escape sequences (such as color codes) from one line of
/// external tool output.
pub fn strip_ansi(s: &str) -> (r: String)
    ensures
        r@ == spec_strip_ansi(s@),
{
    let n = s.unicode_len();
    let mut out = String::new();
    let mut i: usize = 0;
    proof {
        assert(s@.skip(0) =~= s@);
    }
    while i < n
        invariant
            n == s@.len(),
            0 <= i <= n,
            spec_strip_ansi(s@) == out@ + spec_strip_ansi(s@.skip(i as int)),
        decreases n - i,
    {
        let ghost i0 = i as int;
        let c = s.get_char(i);
        proof {
            assert(s@.skip(i0)[0] == s@[i0]);
            assert(s@.skip(i0).skip(1) =~= s@.skip(i0 + 1));
        }
        if c == '\u{1b}' {
            i = i + 1;
            if i < n {
                let next = s.get_char(i);
                proof {
                    assert(s@.skip(i0)[1] == s@[i0 + 1]);
                    assert(s@.skip(i0).skip(2) =~= s@.skip(i0 + 2));
                }
                i = i + 1;
                if next == '[' {
                    let ghost mark = i as int;
                    proof {
                        assert(s@.skip(i as int).skip(0) =~= s@.skip(i as int));
                    }
                    while i < n
                        invariant_except_break
                            n == s@.len(),
                            mark <= i <= n,
                            spec_strip_ansi(s@) == out@ + spec_strip_ansi(
                                skip_csi(s@.skip(i as int)),
                            ),
                        ensures
                            n == s@.len(),
                            mark <= i <= n,
                            spec_strip_ansi(s@) == out@ + spec_strip_ansi(s@.skip(i as int))
                                || (i == n && spec_strip_ansi(s@) == out@ + spec_strip_ansi(
                                skip_csi(s@.skip(i as int)),
                            )),
                        decreases n - i,
                    {
                        let ghost k0 = i as int;
                        let f = s.get_char(i);
                        proof {
                            assert(s@.skip(k0)[0] == s@[k0]);
                            assert(s@.skip(k0).skip(1) =~= s@.skip(k0 + 1));
                        }
                        i = i + 1;
                        if ascii_alpha(f) {
                            proof {
                                assert(skip_csi(s@.skip(k0)) == s@.skip(k0 + 1));
                            }
                            break;
                        }
                    }
                    proof {
                        if i == n {
                            assert(s@.skip(n as int) =~= Seq::<char>::empty());
                            assert(skip_csi(s@.skip(n as int)) == Seq::<char>::empty());
                        }
                    }
                }
            } else {
                proof {
                    assert(s@.skip(i0).len() == 1);
                    assert(s@.skip(n as int) =~= Seq::<char>::empty());
                }
            }
        } else {
            let ghost before = out@;
            push_char(&mut out, c);
            proof {
                assert(out@ =~= before + seq![s@[i0]]);
                assert(before + (seq![s@[i0]] + spec_strip_ansi(s@.skip(i0 + 1))) =~= out@
                    + spec_strip_ansi(s@.skip(i0 + 1)));
            }
            i = i + 1;
        }
    }
    proof {
        assert(s@.skip(n as int) =~= Seq::<char>::empty());
        assert(out@ + Seq::<char>::empty() =~= out@);
    }
    out
}

/// `c` with an ASCII capital folded to lower case; other characters are kept.
pub open spec fn lower_char(c: char) -> char {
    if 'A' <= c && c <= 'Z' {
        ((c as u32) + 32) as char
    } else {
        c
    }
}

/// `s` with ASCII capitals folded to lower case.
pub open spec fn ascii_lower(s: Seq<char>) -> Seq<char> {
    s.map_values(|c: char| lower_char(c))
}

/// Fold ASCII capitals of `s` to lower case.
pub fn to_ascii_lower(s: &str) -> (r: String)
    ensures
        r@ == ascii_lower(s@),
{
    let n = s.unicode_len();
    let mut out = String::new();
    let mut i: usize = 0;
    while i < n
        invariant
            n == s@.len(),
            0 <= i <= n,
            out@ =~= ascii_lower(s@).take(i as int),
        decreases n - i,
    {
        let c = s.get_char(i);
        let v = c as u32;
        let low: char = if 65 <= v && v <= 90 {
            ((v + 32) as u8) as char
        } else {
            c
        };
        proof {
            assert(low == lower_char(s@[i as int]));
        }
        push_char(&mut out, low);
        proof {
            assert(out@ =~= ascii_lower(s@).take(i as int + 1));
        }
        i = i + 1;
    }
    proof {
        assert(ascii_lower(s@).take(n as int) =~= ascii_lower(s@));
    }
    out
}

/// Whether `c` is ASCII whitespace.
pub open spec fn is_space(c: char) -> bool {
    c == ' ' || c == '\t' || c == '\n' || c == '\r'
}

/// The longest space-free prefix of `s`.
pub open spec fn take_word(s: Seq<char>) -> Seq<char>
    decreases s.len(),
{
    if s.len() == 0 || is_space(s[0]) {
        Seq::empty()
    } else {
        seq![s[0]] + take_word(s.skip(1))
    }
}

proof fn lemma_take_word_len(s: Seq<char>)
    ensures
        take_word(s).len() <= s.len(),
        s.len() > 0 && !is_space(s[0]) ==> take_word(s).len() >= 1,
    decreases s.len(),
{
    if s.len() > 0 && !is_space(s[0]) {
        lemma_take_word_len(s.skip(1));
    }
}

/// The words of `s`: its maximal runs of non-space characters, in order.
pub open spec fn spec_words(s: Seq<char>) -> Seq<Seq<char>>
    decreases s.len(),
    via spec_words_dec
{
    if s.len() == 0 {
        Seq::empty()
    } else if is_space(s[0]) {
        spec_words(s.skip(1))
    } else {
        seq![take_word(s)] + spec_words(s.skip(take_word(s).len() as int))
    }
}

#[via_fn]
proof fn spec_words_dec(s: Seq<char>) {
    if s.len() > 0 && !is_space(s[0]) {
        lemma_take_word_len(s);
    }
}

fn space(c: char) -> (r: bool)
    ensures
        r == is_space(c),
{
    c == ' ' || c == '\t' || c == '\n' || c == '\r'
}

/// Split `s` into its space-separated words.
pub fn split_words(s: &str) -> (words: Vec<String>)
    ensures
        words.deep_view() == spec_words(s@),
{
    let n = s.unicode_len();
    let mut words: Vec<String> = Vec::new();
    let mut i: usize = 0;
    proof {
        assert(s@.skip(0) =~= s@);
        assert(words.deep_view() =~= Seq::<Seq<char>>::empty());
        assert(Seq::<Seq<char>>::empty() + spec_words(s@) =~= spec_words(s@));
    }
    while i < n
        invariant
            n == s@.len(),
            0 <= i <= n,
            spec_words(s@) == words.deep_view() + spec_words(s@.skip(i as int)),
        decreases n - i,
    {
        let c = s.get_char(i);
        proof {
            assert(s@.skip(i as int)[0] == s@[i as int]);
            assert(s@.skip(i as int).skip(1) =~= s@.skip(i as int + 1));
        }
        if space(c) {
            i = i + 1;
        } else {
            let ghost w0 = i as int;
            let mut cur = String::new();
            let ghost word = take_word(s@.skip(w0));
            push_char(&mut cur, c);
            proof {
                lemma_word_extends(s@, w0, w0 + 1);
                assert(cur@ =~= word.take(1));
            }
            i = i + 1;
            while i < n
                invariant_except_break
                    n == s@.len(),
                    0 <= w0 < i <= n,
                    word == take_word(s@.skip(w0)),
                    cur@ =~= word.take(i - w0),
                    word.len() >= i - w0,
                    forall|k: int| w0 <= k < i ==> !is_space(s@[k]),
                ensures
                    n == s@.len(),
                    0 <= w0 < i <= n,
                    word == take_word(s@.skip(w0)),
                    cur@ =~= word.take(i - w0),
                    word.len() >= i - w0,
                    forall|k: int| w0 <= k < i ==> !is_space(s@[k]),
                    i == n || is_space(s@[i as int]),
                decreases n - i,
            {
                let d = s.get_char(i);
                if space(d) {
                    break;
                }
                proof {
                    lemma_word_extends(s@, w0, i as int);
                }
                push_char(&mut cur, d);
                proof {
                    lemma_word_extends(s@, w0, i + 1);
                    assert(cur@ =~= word.take(i - w0 + 1));
                }
                i = i + 1;
            }
            proof {
                lemma_word_stops(s@, w0, i as int);
                assert(cur@ =~= word);
            }
            let ghost ws = words.deep_view();
            words.push(cur);
            proof {
                assert(words.deep_view() =~= ws + seq![word]);
                assert(s@.skip(w0)[0] == s@[w0]);
                assert(s@.skip(w0).skip(word.len() as int) =~= s@.skip(w0 + word.len()));
                assert(spec_words(s@.skip(w0)) == seq![word] + spec_words(s@.skip(w0 + word.len())));
                assert(ws + (seq![word] + spec_words(s@.skip(i as int))) =~= words.deep_view()
                    + spec_words(s@.skip(i as int)));
            }
        }
    }
    proof {
        assert(s@.skip(n as int) =~= Seq::<char>::empty());
        assert(words.deep_view() + Seq::<Seq<char>>::empty() =~= words.deep_view());
    }
    words
}

/// Within a word, each further non-space character extends `take_word`.
proof fn lemma_word_extends(s: Seq<char>, w0: int, i: int)
    requires
        0 <= w0 < i <= s.len(),
        forall|k: int| w0 <= k < i ==> !is_space(s[k]),
    ensures
        take_word(s.skip(w0)).len() >= i - w0,
        forall|k: int| w0 <= k < i ==> take_word(s.skip(w0))[k - w0] == s[k],
        i < s.len() && !is_space(s[i]) ==> take_word(s.skip(w0)).len() >= i - w0 + 1
            && take_word(s.skip(w0))[i - w0] == s[i],
    decreases i - w0,
{
    assert(forall|k: int| 0 <= k < s.len() - w0 ==> #[trigger] s.skip(w0)[k] == s[k + w0]);
    assert forall|k: int| 0 <= k < i - w0 implies !is_space(s.skip(w0)[k]) by {
        assert(s.skip(w0)[k] == s[k + w0]);
    }
    lemma_word_prefix(s.skip(w0), i - w0);
    assert forall|k: int| w0 <= k < i implies take_word(s.skip(w0))[k - w0] == s[k] by {
        assert(s.skip(w0)[k - w0] == s[k]);
    }
    if i < s.len() && !is_space(s[i]) {
        assert forall|k: int| 0 <= k < i - w0 + 1 implies !is_space(s.skip(w0)[k]) by {
            assert(s.skip(w0)[k] == s[k + w0]);
        }
        lemma_word_prefix(s.skip(w0), i - w0 + 1);
        assert(s.skip(w0)[i - w0] == s[i]);
    }
}

/// `take_word` keeps every character of a space-free prefix.
proof fn lemma_word_prefix(s: Seq<char>, m: int)
    requires
        0 <= m <= s.len(),
        forall|k: int| 0 <= k < m ==> !is_space(s[k]),
    ensures
        take_word(s).len() >= m,
        forall|k: int| 0 <= k < m ==> take_word(s)[k] == s[k],
    decreases m,
{
    if m > 0 {
        assert(forall|k: int| 0 <= k < s.len() - 1 ==> #[trigger] s.skip(1)[k] == s[k + 1]);
        lemma_word_prefix(s.skip(1), m - 1);
        assert(take_word(s) == seq![s[0]] + take_word(s.skip(1)));
        assert forall|k: int| 0 <= k < m implies take_word(s)[k] == s[k] by {
            if k > 0 {
                assert(take_word(s)[k] == take_word(s.skip(1))[k - 1]);
                assert(take_word(s.skip(1))[k - 1] == s.skip(1)[k - 1]);
            }
        }
    }
}

/// A word ends at the first space or at the end of the text.
proof fn lemma_word_stops(s: Seq<char>, w0: int, i: int)
    requires
        0 <= w0 < i <= s.len(),
        forall|k: int| w0 <= k < i ==> !is_space(s[k]),
        i == s.len() || is_space(s[i]),
    ensures
        take_word(s.skip(w0)).len() == i - w0,
    decreases i - w0,
{
    lemma_word_stops_from(s.skip(w0), i - w0);
    assert(forall|k: int| 0 <= k < s.len() - w0 ==> #[trigger] s.skip(w0)[k] == s[k + w0]);
}

proof fn lemma_word_stops_from(s: Seq<char>, m: int)
    requires
        0 <= m <= s.len(),
        forall|k: int| 0 <= k < m ==> !is_space(s[k]),
        m == s.len() || is_space(s[m]),
    ensures
        take_word(s).len() == m,
    decreases m,
{
    if m == 0 {
    } else {
        assert(forall|k: int| 0 <= k < s.len() - 1 ==> #[trigger] s.skip(1)[k] == s[k + 1]);
        lemma_word_stops_from(s.skip(1), m - 1);
        assert(take_word(s) == seq![s[0]] + take_word(s.skip(1)));
    }
}

/// What follows the last `:` of `w`; all of `w` when it has no `:`.
pub open spec fn after_last_colon(w: Seq<char>) -> Seq<char>
    decreases w.len(),
{
    if w.len() == 0 {
        w
    } else if w.last() == ':' {
        Seq::empty()
    } else {
        after_last_colon(w.drop_last()).push(w.last())
    }
}

proof fn lemma_alc_no_colon(w: Seq<char>)
    requires
        forall|k: int| 0 <= k < w.len() ==> w[k] != ':',
    ensures
        after_last_colon(w) =~= w,
    decreases w.len(),
{
    if w.len() > 0 {
        lemma_alc_no_colon(w.drop_last());
    }
}

proof fn lemma_alc_at(w: Seq<char>, p: int)
    requires
        0 <= p < w.len(),
        w[p] == ':',
        forall|k: int| p < k < w.len() ==> w[k] != ':',
    ensures
        after_last_colon(w) =~= w.skip(p + 1),
    decreases w.len(),
{
    if p == w.len() - 1 {
    } else {
        lemma_alc_at(w.drop_last(), p);
        assert(forall|k: int| 0 <= k < w.len() - 1 ==> #[trigger] w.drop_last()[k] == w[k]);
    }
}

/// The port named by one word: the digits after its last `:` (or the whole
/// word), accepted when they denote a number between 1024 and 65535.
pub open spec fn spec_port_of_word(w: Seq<char>) -> Option<u16> {
    let tail = after_last_colon(w);
    if all_digits(tail) && 1024 <= dec_value(tail) <= 65535 {
        Some(dec_value(tail) as u16)
    } else {
        None
    }
}

/// The port named by the last word that names one.
pub open spec fn last_port(words: Seq<Seq<char>>) -> Option<u16>
    decreases words.len(),
{
    if words.len() == 0 {
        None
    } else if spec_port_of_word(words.last()) is Some {
        spec_port_of_word(words.last())
    } else {
        last_port(words.drop_last())
    }
}

/// The port announced on one line of the external file-sync server's output:
/// on a line mentioning `listening` or `port` (ASCII case folded), the port
/// named by the last word that names one.
pub open spec fn spec_rojo_port(line: Seq<char>) -> Option<u16> {
    if contains_substring(ascii_lower(line), "listening"@) || contains_substring(
        ascii_lower(line),
        "port"@,
    ) {
        last_port(spec_words(line))
    } else {
        None
    }
}

fn port_of_word(w: &str) -> (r: Option<u16>)
    ensures
        r == spec_port_of_word(w@),
{
    let n = w.unicode_len();
    let mut p: usize = n;
    while p > 0
        invariant_except_break
            n == w@.len(),
            0 <= p <= n,
            forall|k: int| p <= k < n ==> w@[k] != ':',
        ensures
            n == w@.len(),
            0 <= p <= n,
            forall|k: int| p <= k < n ==> w@[k] != ':',
            p == 0 || w@[p - 1] == ':',
        decreases p,
    {
        if w.get_char(p - 1) == ':' {
            break;
        }
        p = p - 1;
    }
    let tail = if p == 0 {
        proof {
            lemma_alc_no_colon(w@);
        }
        w
    } else {
        proof {
            lemma_alc_at(w@, p - 1);
        }
        w.substring_char(p, n)
    };
    proof {
        assert(tail@ == after_last_colon(w@));
    }
    match parse_u64(tail) {
        Some(v) => {
            if 1024 <= v && v <= 65535 {
                Some(v as u16)
            } else {
                None
            }
        },
        None => None,
    }
}

/// Read the listen port out of one line of the external file-sync server's
/// output (such as `Rojo server listening on port 34872`).
pub fn parse_rojo_port(line: &str) -> (r: Option<u16>)
    ensures
        r == spec_rojo_port(line@),
{
    let lower = to_ascii_lower(line);
    if !str_contains(lower.as_str(), "listening") && !str_contains(lower.as_str(), "port") {
        return None;
    }
    let words = split_words(line);
    let mut i: usize = words.len();
    proof {
        assert(words.deep_view().take(i as int) =~= words.deep_view());
    }
    while i > 0
        invariant
            0 <= i <= words@.len(),
            words.deep_view() == spec_words(line@),
            last_port(words.deep_view().take(i as int)) == last_port(words.deep_view()),
            contains_substring(ascii_lower(line@), "listening"@) || contains_substring(
                ascii_lower(line@),
                "port"@,
            ),
        decreases i,
    {
        proof {
            assert(words@[i - 1]@ == words.deep_view()[i - 1]);
            assert(words.deep_view().take(i as int).last() == words.deep_view()[i - 1]);
            assert(words.deep_view().take(i as int).drop_last() =~= words.deep_view().take(
                i as int - 1,
            ));
        }
        if let Some(port) = port_of_word(words[i - 1].as_str()) {
            proof {
                assert(spec_port_of_word(words.deep_view().take(i as int).last()) == Some(port));
                assert(last_port(words.deep_view().take(i as int)) == Some(port));
            }
            return Some(port);
        }
        i = i - 1;
    }
    proof {
        assert(words.deep_view().take(0) =~= Seq::<Seq<char>>::empty());
    }
    None
}

} // verus!
