//! Reading the text that the network manager prints: the first word of each
//! line of a network scan, and the connection state with surrounding
//! whitespace removed.
use vstd::prelude::*;

use crate::std_text::{decode_lossy, lossy_utf8, push_char};
use vstd::utf8::{decode_utf8, valid_utf8};

verus! {

/// Unicode `White_Space`, the set that `char::is_whitespace` tests.
pub open spec fn is_white(c: char) -> bool {
    let n = c as u32;
    ||| 0x09 <= n <= 0x0D
    ||| n == 0x20
    ||| n == 0x85
    ||| n == 0xA0
    ||| n == 0x1680
    ||| 0x2000 <= n <= 0x200A
    ||| n == 0x2028
    ||| n == 0x2029
    ||| n == 0x202F
    ||| n == 0x205F
    ||| n == 0x3000
}

/// Every character of `s` is whitespace.
pub open spec fn all_white(s: Seq<char>) -> bool {
    forall|i: int| 0 <= i < s.len() ==> is_white(#[trigger] s[i])
}

/// No character of `s` is whitespace.
pub open spec fn no_white(s: Seq<char>) -> bool {
    forall|i: int| 0 <= i < s.len() ==> !is_white(#[trigger] s[i])
}

/// `s` without its leading whitespace.
pub open spec fn trim_start(s: Seq<char>) -> Seq<char>
    decreases s.len(),
{
    if s.len() > 0 && is_white(s[0]) {
        trim_start(s.drop_first())
    } else {
        s
    }
}

/// `s` without its trailing whitespace.
pub open spec fn trim_end(s: Seq<char>) -> Seq<char>
    decreases s.len(),
{
    if s.len() > 0 && is_white(s.last()) {
        trim_end(s.drop_last())
    } else {
        s
    }
}

/// `s` without leading and trailing whitespace.
pub open spec fn trimmed(s: Seq<char>) -> Seq<char> {
    trim_end(trim_start(s))
}

/// The longest prefix of `s` that holds no whitespace.
pub open spec fn leading_word(s: Seq<char>) -> Seq<char>
    decreases s.len(),
{
    if s.len() > 0 && !is_white(s[0]) {
        seq![s[0]] + leading_word(s.drop_first())
    } else {
        Seq::empty()
    }
}

/// The first whitespace-separated word of `line`, if it has one.
pub open spec fn first_word(line: Seq<char>) -> Option<Seq<char>> {
    let rest = trim_start(line);
    if rest.len() == 0 {
        None
    } else {
        Some(leading_word(rest))
    }
}

/// The pieces of `s` between line feeds, in order; a text with `k` line feeds
/// has `k + 1` pieces. A carriage return before a line feed stays in its
/// piece: it is whitespace, so it never changes a line's first word.
pub open spec fn split_lines(s: Seq<char>) -> Seq<Seq<char>>
    decreases s.len(),
{
    if s.len() == 0 {
        seq![Seq::empty()]
    } else {
        let init = split_lines(s.drop_last());
        if s.last() == '\n' {
            init.push(Seq::empty())
        } else {
            init.update(init.len() - 1, init.last().push(s.last()))
        }
    }
}

/// The first word of each line that has one, in order.
pub open spec fn first_words(lines: Seq<Seq<char>>) -> Seq<Seq<char>>
    decreases lines.len(),
{
    if lines.len() == 0 {
        Seq::empty()
    } else {
        first_words(lines.drop_last()) + match first_word(lines.last()) {
            Some(w) => seq![w],
            None => Seq::<Seq<char>>::empty(),
        }
    }
}

/// The network names that a terse scan listing shows: the first word of
/// every line that holds one.
pub open spec fn ssid_list(text: Seq<char>) -> Seq<Seq<char>> {
    first_words(split_lines(text))
}

/// The character sequences of a list of strings.
pub open spec fn string_views(v: Seq<String>) -> Seq<Seq<char>> {
    v.map_values(|s: String| s@)
}

/// The state text that means the machine is online.
pub open spec fn connected_word() -> Seq<char> {
    seq!['c', 'o', 'n', 'n', 'e', 'c', 't', 'e', 'd']
}

// ------------------------------------------------------------------ lemmas

proof fn lemma_split_lines_nonempty(s: Seq<char>)
    ensures
        split_lines(s).len() >= 1,
    decreases s.len(),
{
    if s.len() > 0 {
        lemma_split_lines_nonempty(s.drop_last());
    }
}

proof fn lemma_trim_start_push(s: Seq<char>, c: char)
    ensures
        trim_start(s.push(c)) == if all_white(s) {
            if is_white(c) {
                Seq::<char>::empty()
            } else {
                seq![c]
            }
        } else {
            trim_start(s).push(c)
        },
    decreases s.len(),
{
    if s.len() == 0 {
        assert(s.push(c) =~= seq![c]);
        assert(seq![c].drop_first() =~= Seq::<char>::empty());
        assert(trim_start(Seq::<char>::empty()) == Seq::<char>::empty());
        assert(s =~= Seq::<char>::empty());
    } else {
        assert(s.push(c)[0] == s[0]);
        if is_white(s[0]) {
            assert(s.push(c).drop_first() =~= s.drop_first().push(c));
            lemma_trim_start_push(s.drop_first(), c);
            assert(all_white(s) <==> all_white(s.drop_first())) by {
                if all_white(s.drop_first()) {
                    assert forall|i: int| 0 <= i < s.len() implies is_white(#[trigger] s[i]) by {
                        if i > 0 {
                            assert(s[i] == s.drop_first()[i - 1]);
                        }
                    }
                }
                if all_white(s) {
                    assert forall|i: int| 0 <= i < s.drop_first().len() implies is_white(
                        #[trigger] s.drop_first()[i],
                    ) by {
                        assert(s.drop_first()[i] == s[i + 1]);
                    }
                }
            }
        } else {
            assert(!is_white(s[0]));
        }
    }
}

proof fn lemma_leading_word_push(t: Seq<char>, c: char)
    ensures
        leading_word(t.push(c)) == if no_white(t) {
            if is_white(c) {
                t
            } else {
                t.push(c)
            }
        } else {
            leading_word(t)
        },
    decreases t.len(),
{
    if t.len() == 0 {
        assert(t.push(c) =~= seq![c]);
        assert(seq![c].drop_first() =~= Seq::<char>::empty());
        assert(seq![c] + Seq::<char>::empty() =~= seq![c]);
        assert(leading_word(Seq::<char>::empty()) == Seq::<char>::empty());
        assert(t =~= Seq::<char>::empty());
    } else {
        assert(t.push(c)[0] == t[0]);
        assert(t.push(c).drop_first() =~= t.drop_first().push(c));
        if is_white(t[0]) {
            assert(!no_white(t));
        } else {
            lemma_leading_word_push(t.drop_first(), c);
            assert(no_white(t) <==> no_white(t.drop_first())) by {
                if no_white(t.drop_first()) {
                    assert forall|i: int| 0 <= i < t.len() implies !is_white(#[trigger] t[i]) by {
                        if i > 0 {
                            assert(t[i] == t.drop_first()[i - 1]);
                        }
                    }
                }
                if no_white(t) {
                    assert forall|i: int| 0 <= i < t.drop_first().len() implies !is_white(
                        #[trigger] t.drop_first()[i],
                    ) by {
                        assert(t.drop_first()[i] == t[i + 1]);
                    }
                }
            }
            if no_white(t) {
                assert(seq![t[0]] + t.drop_first() =~= t);
                assert(seq![t[0]] + t.drop_first().push(c) =~= t.push(c));
            }
        }
    }
}

proof fn lemma_trim_start_empty(s: Seq<char>)
    ensures
        all_white(s) <==> trim_start(s).len() == 0,
    decreases s.len(),
{
    if s.len() > 0 {
        if is_white(s[0]) {
            lemma_trim_start_empty(s.drop_first());
            if all_white(s.drop_first()) {
                assert forall|i: int| 0 <= i < s.len() implies is_white(#[trigger] s[i]) by {
                    if i > 0 {
                        assert(s[i] == s.drop_first()[i - 1]);
                    }
                }
            }
            if all_white(s) {
                assert forall|i: int| 0 <= i < s.drop_first().len() implies is_white(
                    #[trigger] s.drop_first()[i],
                ) by {
                    assert(s.drop_first()[i] == s[i + 1]);
                }
            }
        } else {
            assert(!is_white(s[0]));
        }
    }
}

proof fn lemma_leading_word_of_word(t: Seq<char>)
    requires
        no_white(t),
    ensures
        leading_word(t) == t,
    decreases t.len(),
{
    if t.len() > 0 {
        assert(no_white(t.drop_first())) by {
            assert forall|i: int| 0 <= i < t.drop_first().len() implies !is_white(
                #[trigger] t.drop_first()[i],
            ) by {
                assert(t.drop_first()[i] == t[i + 1]);
            }
        }
        lemma_leading_word_of_word(t.drop_first());
        assert(!is_white(t[0]));
        assert(seq![t[0]] + t.drop_first() =~= t);
    } else {
        assert(t =~= Seq::<char>::empty());
    }
}

proof fn lemma_leading_word_is_word(t: Seq<char>)
    ensures
        no_white(leading_word(t)),
        t.len() > 0 && !is_white(t[0]) ==> leading_word(t).len() > 0,
    decreases t.len(),
{
    if t.len() > 0 && !is_white(t[0]) {
        lemma_leading_word_is_word(t.drop_first());
        let w = leading_word(t);
        let rest = leading_word(t.drop_first());
        assert(w == seq![t[0]] + rest);
        assert forall|i: int| 0 <= i < w.len() implies !is_white(#[trigger] w[i]) by {
            if i > 0 {
                assert(w[i] == rest[i - 1]);
            }
        }
    } else {
        assert(leading_word(t) =~= Seq::<char>::empty());
    }
}

proof fn lemma_trim_start_starts_with_word(s: Seq<char>)
    ensures
        trim_start(s).len() > 0 ==> !is_white(trim_start(s)[0]),
        trim_start(s).len() <= s.len(),
    decreases s.len(),
{
    if s.len() > 0 && is_white(s[0]) {
        lemma_trim_start_starts_with_word(s.drop_first());
    }
}

proof fn lemma_trim_end_ends_with_word(s: Seq<char>)
    ensures
        trim_end(s).len() > 0 ==> !is_white(trim_end(s).last()),
        trim_end(s).len() > 0 ==> trim_end(s)[0] == s[0],
        trim_end(s).len() <= s.len(),
    decreases s.len(),
{
    if s.len() > 0 && is_white(s.last()) {
        lemma_trim_end_ends_with_word(s.drop_last());
    }
}

proof fn lemma_first_words_are_words(lines: Seq<Seq<char>>)
    ensures
        first_words(lines).len() <= lines.len(),
        forall|i: int|
            0 <= i < first_words(lines).len() ==> #[trigger] first_words(lines)[i].len() > 0
                && no_white(first_words(lines)[i]),
    decreases lines.len(),
{
    if lines.len() > 0 {
        let init = first_words(lines.drop_last());
        lemma_first_words_are_words(lines.drop_last());
        let line = lines.last();
        lemma_trim_start_starts_with_word(line);
        lemma_leading_word_is_word(trim_start(line));
        match first_word(line) {
            Some(w) => {
                let all = init + seq![w];
                assert(first_words(lines) == all);
                assert forall|i: int| 0 <= i < all.len() implies #[trigger] all[i].len() > 0
                    && no_white(all[i]) by {
                    if i < init.len() {
                        assert(all[i] == init[i]);
                    }
                }
            },
            None => {
                assert(first_words(lines) =~= init);
            },
        }
    }
}

proof fn lemma_trim_start_white_prefix(w: Seq<char>, x: Seq<char>)
    requires
        all_white(w),
    ensures
        trim_start(w + x) == trim_start(x),
    decreases w.len(),
{
    if w.len() > 0 {
        assert((w + x)[0] == w[0]);
        assert((w + x).drop_first() =~= w.drop_first() + x);
        assert(all_white(w.drop_first())) by {
            assert forall|i: int| 0 <= i < w.drop_first().len() implies is_white(
                #[trigger] w.drop_first()[i],
            ) by {
                assert(w.drop_first()[i] == w[i + 1]);
            }
        }
        lemma_trim_start_white_prefix(w.drop_first(), x);
    } else {
        assert(w + x =~= x);
    }
}

proof fn lemma_trim_end_white_suffix(x: Seq<char>, w: Seq<char>)
    requires
        all_white(w),
    ensures
        trim_end(x + w) == trim_end(x),
    decreases w.len(),
{
    if w.len() > 0 {
        assert((x + w).last() == w.last());
        assert((x + w).drop_last() =~= x + w.drop_last());
        assert(all_white(w.drop_last())) by {
            assert forall|i: int| 0 <= i < w.drop_last().len() implies is_white(
                #[trigger] w.drop_last()[i],
            ) by {
                assert(w.drop_last()[i] == w[i]);
            }
        }
        lemma_trim_end_white_suffix(x, w.drop_last());
    } else {
        assert(x + w =~= x);
    }
}

proof fn lemma_trim_start_append(s: Seq<char>, w: Seq<char>)
    ensures
        all_white(s) && all_white(w) ==> trim_start(s + w).len() == 0,
        !all_white(s) ==> trim_start(s + w) == trim_start(s) + w,
    decreases s.len(),
{
    lemma_trim_start_empty(s + w);
    if s.len() == 0 {
        assert(s + w =~= w);
        assert(Seq::<char>::empty() + w =~= w);
    } else {
        assert((s + w)[0] == s[0]);
        assert((s + w).drop_first() =~= s.drop_first() + w);
        if is_white(s[0]) {
            lemma_trim_start_append(s.drop_first(), w);
            if !all_white(s) {
                assert(!all_white(s.drop_first())) by {
                    let i = choose|i: int| 0 <= i < s.len() && !is_white(s[i]);
                    assert(s.drop_first()[i - 1] == s[i]);
                }
            }
            if all_white(s) && all_white(w) {
                assert forall|i: int| 0 <= i < (s + w).len() implies is_white(
                    #[trigger] (s + w)[i],
                ) by {
                    if i < s.len() {
                        assert((s + w)[i] == s[i]);
                    } else {
                        assert((s + w)[i] == w[i - s.len()]);
                    }
                }
            }
        } else {
            assert(!all_white(s));
        }
    }
}

proof fn lemma_split_lines_concat(t1: Seq<char>, t2: Seq<char>)
    requires
        t1.len() > 0,
        t1.last() == '\n',
    ensures
        split_lines(t1 + t2) == split_lines(t1).drop_last() + split_lines(t2),
    decreases t2.len(),
{
    let a = split_lines(t1).drop_last();
    assert(t1.drop_last() + seq!['\n'] =~= t1);
    lemma_split_lines_nonempty(t1.drop_last());
    assert(split_lines(t1) == split_lines(t1.drop_last()).push(Seq::<char>::empty()));
    if t2.len() == 0 {
        assert(t1 + t2 =~= t1);
        assert(split_lines(t2) == seq![Seq::<char>::empty()]);
        assert(a + seq![Seq::<char>::empty()] =~= split_lines(t1));
    } else {
        let t2p = t2.drop_last();
        let c = t2.last();
        assert((t1 + t2).drop_last() =~= t1 + t2p);
        assert((t1 + t2).last() == c);
        lemma_split_lines_concat(t1, t2p);
        lemma_split_lines_nonempty(t2p);
        let sp = split_lines(t2p);
        if c == '\n' {
            assert((a + sp).push(Seq::<char>::empty()) =~= a + sp.push(Seq::<char>::empty()));
        } else {
            assert((a + sp).update((a + sp).len() - 1, (a + sp).last().push(c)) =~= a + sp.update(
                sp.len() - 1,
                sp.last().push(c),
            ));
        }
    }
}

proof fn lemma_first_words_concat(a: Seq<Seq<char>>, b: Seq<Seq<char>>)
    ensures
        first_words(a + b) == first_words(a) + first_words(b),
    decreases b.len(),
{
    if b.len() == 0 {
        assert(a + b =~= a);
        assert(first_words(a) + Seq::<Seq<char>>::empty() =~= first_words(a));
    } else {
        assert((a + b).drop_last() =~= a + b.drop_last());
        assert((a + b).last() == b.last());
        lemma_first_words_concat(a, b.drop_last());
        let tail = match first_word(b.last()) {
            Some(w) => seq![w],
            None => Seq::<Seq<char>>::empty(),
        };
        assert(first_words(a) + first_words(b.drop_last()) + tail =~= first_words(a) + (
        first_words(b.drop_last()) + tail));
    }
}

proof fn lemma_decode_concat(b1: Seq<u8>, b2: Seq<u8>)
    requires
        valid_utf8(b1),
        valid_utf8(b2),
    ensures
        valid_utf8(b1 + b2),
        decode_utf8(b1 + b2) == decode_utf8(b1) + decode_utf8(b2),
    decreases b1.len(),
{
    vstd::utf8::valid_utf8_concat(b1, b2);
    if b1.len() == 0 {
        assert(b1 + b2 =~= b2);
        assert(decode_utf8(b1) + decode_utf8(b2) =~= decode_utf8(b2));
    } else {
        let rest = vstd::utf8::pop_first_scalar(b1);
        assert(rest.len() < b1.len());
        assert(vstd::utf8::pop_first_scalar(b1 + b2) =~= rest + b2);
        assert(vstd::utf8::decode_first_scalar(b1 + b2) == vstd::utf8::decode_first_scalar(b1));
        lemma_decode_concat(rest, b2);
        let c = vstd::utf8::decode_first_scalar(b1) as char;
        assert(seq![c] + decode_utf8(rest + b2) =~= seq![c] + decode_utf8(rest) + decode_utf8(b2));
    }
}

proof fn lemma_decode_ends_in_newline(b: Seq<u8>)
    requires
        valid_utf8(b),
        b.len() > 0,
        b.last() == 10,
    ensures
        decode_utf8(b).len() > 0,
        decode_utf8(b).last() == '\n',
    decreases b.len(),
{
    let rest = vstd::utf8::pop_first_scalar(b);
    let len = vstd::utf8::length_of_first_scalar(b);
    assert(rest.len() < b.len());
    if rest.len() == 0 {
        assert(len == b.len());
        assert(len == 1) by {
            if len >= 2 {
                assert(vstd::utf8::is_continuation_byte(b[len - 1]));
            }
        }
        let b0 = b[0];
        assert(b0 == 10);
        assert((b0 & 0x7F) == 10) by (bit_vector)
            requires
                b0 == 10,
        ;
        assert(vstd::utf8::decode_first_scalar(b) == 10);
        assert(valid_utf8(rest));
        assert(decode_utf8(rest) == Seq::<char>::empty());
        vstd::utf8::char_u32_cast('\n', 10);
        assert(decode_utf8(b) =~= seq![vstd::utf8::decode_first_scalar(b) as char]);
    } else {
        assert(rest.last() == b.last());
        lemma_decode_ends_in_newline(rest);
    }
}

// ------------------------------------------------------------------ exec

/// Whether `c` is whitespace in the sense of `char::is_whitespace`.
pub fn is_whitespace_char(c: char) -> (b: bool)
    ensures
        b == is_white(c),
{
    let n = c as u32;
    (0x09 <= n && n <= 0x0D) || n == 0x20 || n == 0x85 || n == 0xA0 || n == 0x1680 || (0x2000
        <= n && n <= 0x200A) || n == 0x2028 || n == 0x2029 || n == 0x202F || n == 0x205F || n
        == 0x3000
}

/// The characters of `text`, in order.
pub fn chars_of(text: &str) -> (chars: Vec<char>)
    ensures
        chars@ == text@,
{
    let mut chars: Vec<char> = Vec::new();
    for c in it: text.chars()
        invariant
            chars@ == it.history(),
    {
        chars.push(c);
    }
    chars
}

/// The network names in a terse network listing: for every line, its first
/// whitespace-separated word, if the line has one.
pub fn ssids_from_text(text: &str) -> (ssids: Vec<String>)
    ensures
        string_views(ssids@) == ssid_list(text@),
{
    let mut ssids: Vec<String> = Vec::new();
    let mut word = String::new();
    let mut in_word = false;
    let mut closed = false;
    let ghost mut seen: Seq<char> = Seq::empty();
    proof {
        assert(split_lines(Seq::<char>::empty()) == seq![Seq::<char>::empty()]);
        assert(seq![Seq::<char>::empty()].drop_last() =~= Seq::<Seq<char>>::empty());
        assert(string_views(ssids@) =~= Seq::<Seq<char>>::empty());
    }
    for c in it: text.chars()
        invariant
            seen == it.history(),
            split_lines(seen).len() >= 1,
            string_views(ssids@) == first_words(split_lines(seen).drop_last()),
            !in_word ==> all_white(split_lines(seen).last()) && !closed,
            in_word ==> !all_white(split_lines(seen).last()),
            in_word ==> word@ == leading_word(trim_start(split_lines(seen).last())),
            in_word ==> (closed <==> !no_white(trim_start(split_lines(seen).last()))),
    {
        let ghost p = seen;
        let ghost ls = split_lines(p);
        let ghost cur = ls.last();
        let ghost q = p.push(c);
        proof {
            assert(q.drop_last() =~= p);
            assert(q.last() == c);
            lemma_split_lines_nonempty(q);
            seen = q;
        }
        if c == '\n' {
            proof {
                lemma_trim_start_empty(cur);
                assert(split_lines(q) == ls.push(Seq::<char>::empty()));
                assert(ls.push(Seq::<char>::empty()).drop_last() =~= ls);
                assert(first_words(ls) == first_words(ls.drop_last()) + match first_word(cur) {
                    Some(w) => seq![w],
                    None => Seq::<Seq<char>>::empty(),
                });
            }
            if in_word {
                let ghost before = ssids@;
                let finished = word;
                ssids.push(finished);
                proof {
                    assert(string_views(ssids@) =~= string_views(before) + seq![finished@]);
                }
            } else {
                proof {
                    assert(first_words(ls.drop_last()) + Seq::<Seq<char>>::empty()
                        =~= first_words(ls.drop_last()));
                }
            }
            word = String::new();
            in_word = false;
            closed = false;
            proof {
                assert(all_white(Seq::<char>::empty()));
            }
        } else {
            let white = is_whitespace_char(c);
            proof {
                assert(split_lines(q) == ls.update(ls.len() - 1, cur.push(c)));
                assert(ls.update(ls.len() - 1, cur.push(c)).drop_last() =~= ls.drop_last());
                assert(ls.update(ls.len() - 1, cur.push(c)).last() == cur.push(c));
                lemma_trim_start_push(cur, c);
                lemma_leading_word_push(trim_start(cur), c);
                lemma_trim_start_empty(cur);
            }
            if white {
                if in_word {
                    closed = true;
                    proof {
                        assert(!all_white(cur.push(c))) by {
                            let i = choose|i: int| 0 <= i < cur.len() && !is_white(cur[i]);
                            assert(cur.push(c)[i] == cur[i]);
                        }
                        let t = trim_start(cur).push(c);
                        assert(t[t.len() - 1] == c);
                        if no_white(trim_start(cur)) {
                            lemma_leading_word_of_word(trim_start(cur));
                        }
                    }
                } else {
                    proof {
                        assert forall|i: int| 0 <= i < cur.push(c).len() implies is_white(
                            #[trigger] cur.push(c)[i],
                        ) by {
                            if i < cur.len() {
                                assert(cur.push(c)[i] == cur[i]);
                            }
                        }
                    }
                }
            } else {
                if !in_word {
                    word = String::new();
                    push_char(&mut word, c);
                    in_word = true;
                    closed = false;
                    proof {
                        let t = cur.push(c);
                        assert(t[t.len() - 1] == c);
                        assert(!all_white(t));
                        assert(no_white(seq![c]));
                        lemma_leading_word_of_word(seq![c]);
                        assert(Seq::<char>::empty().push(c) =~= seq![c]);
                    }
                } else if !closed {
                    proof {
                        lemma_leading_word_of_word(trim_start(cur));
                        let t = trim_start(cur).push(c);
                        assert(no_white(t)) by {
                            assert forall|i: int| 0 <= i < t.len() implies !is_white(#[trigger] t[i]) by {
                                if i < trim_start(cur).len() {
                                    assert(t[i] == trim_start(cur)[i]);
                                }
                            }
                        }
                        lemma_leading_word_of_word(t);
                        let i = choose|i: int| 0 <= i < cur.len() && !is_white(cur[i]);
                        assert(cur.push(c)[i] == cur[i]);
                    }
                    push_char(&mut word, c);
                } else {
                    proof {
                        let i = choose|i: int| 0 <= i < cur.len() && !is_white(cur[i]);
                        assert(cur.push(c)[i] == cur[i]);
                        let t = trim_start(cur);
                        let j = choose|j: int| 0 <= j < t.len() && is_white(t[j]);
                        assert(t.push(c)[j] == t[j]);
                    }
                }
            }
        }
    }
    proof {
        assert(seen == text@);
        let ls = split_lines(text@);
        lemma_trim_start_empty(ls.last());
        assert(first_words(ls) == first_words(ls.drop_last()) + match first_word(ls.last()) {
            Some(w) => seq![w],
            None => Seq::<Seq<char>>::empty(),
        });
    }
    if in_word {
        let ghost before = ssids@;
        ssids.push(word);
        proof {
            assert(string_views(ssids@) =~= string_views(before) + seq![word@]);
        }
    } else {
        proof {
            let ls = split_lines(text@);
            assert(first_words(ls.drop_last()) + Seq::<Seq<char>>::empty() =~= first_words(
                ls.drop_last(),
            ));
        }
    }
    ssids
}

/// `text` without leading and trailing whitespace, as `str::trim` leaves it.
pub fn trim(text: &str) -> (t: String)
    ensures
        t@ == trimmed(text@),
{
    let chars = chars_of(text);
    let n = chars.len();
    let mut start: usize = 0;
    proof {
        assert(chars@.skip(0) =~= chars@);
    }
    while start < n && is_whitespace_char(chars[start])
        invariant
            start <= n,
            n == chars@.len(),
            trim_start(chars@) == trim_start(chars@.skip(start as int)),
        decreases n - start,
    {
        proof {
            assert(chars@.skip(start as int)[0] == chars@[start as int]);
            assert(chars@.skip(start as int).drop_first() =~= chars@.skip(start + 1));
        }
        start += 1;
    }
    proof {
        if start < n {
            assert(chars@.skip(start as int)[0] == chars@[start as int]);
        } else {
            assert(chars@.skip(start as int) =~= Seq::<char>::empty());
        }
        assert(chars@.skip(start as int) =~= chars@.subrange(start as int, n as int));
    }
    let mut end: usize = n;
    while end > start && is_whitespace_char(chars[end - 1])
        invariant
            start <= end <= n,
            n == chars@.len(),
            trim_end(chars@.subrange(start as int, n as int)) == trim_end(
                chars@.subrange(start as int, end as int),
            ),
        decreases end - start,
    {
        proof {
            let piece = chars@.subrange(start as int, end as int);
            assert(piece.last() == chars@[end - 1]);
            assert(piece.drop_last() =~= chars@.subrange(start as int, end - 1));
        }
        end -= 1;
    }
    proof {
        let piece = chars@.subrange(start as int, end as int);
        if end > start {
            assert(piece.last() == chars@[end - 1]);
        } else {
            assert(piece =~= Seq::<char>::empty());
        }
    }
    let mut t = String::new();
    let mut i: usize = start;
    while i < end
        invariant
            start <= i <= end <= n,
            n == chars@.len(),
            t@ == chars@.subrange(start as int, i as int),
        decreases end - i,
    {
        push_char(&mut t, chars[i]);
        proof {
            assert(chars@.subrange(start as int, i as int).push(chars@[i as int]) =~= chars@.subrange(
                start as int,
                i + 1,
            ));
        }
        i += 1;
    }
    t
}

/// Whether the state that the network manager prints is "connected", once
/// surrounding whitespace is removed.
pub fn is_connected_text(text: &str) -> (connected: bool)
    ensures
        connected == (trimmed(text@) == connected_word()),
{
    let state = trim(text);
    let expected = "connected".to_owned();
    proof {
        reveal_strlit("connected");
        assert(expected@ =~= connected_word());
    }
    state == expected
}

/// The network names in the raw bytes that a terse network scan prints.
pub fn ssids_from_output(stdout: &[u8]) -> (ssids: Vec<String>)
    ensures
        string_views(ssids@) == ssid_list(lossy_utf8(stdout@)),
        valid_utf8(stdout@) ==> string_views(ssids@) == ssid_list(decode_utf8(stdout@)),
{
    let text = decode_lossy(stdout);
    ssids_from_text(text.as_str())
}

/// Whether the raw bytes of a terse state query say "connected".
pub fn is_connected_output(stdout: &[u8]) -> (connected: bool)
    ensures
        connected == (trimmed(lossy_utf8(stdout@)) == connected_word()),
        valid_utf8(stdout@) ==> connected == (trimmed(decode_utf8(stdout@)) == connected_word()),
{
    let text = decode_lossy(stdout);
    is_connected_text(text.as_str())
}

/// Every name that a scan listing yields is a non-empty word without
/// whitespace, and there are no more names than lines.
pub proof fn lemma_ssids_are_words(text: Seq<char>)
    ensures
        ssid_list(text).len() <= split_lines(text).len(),
        forall|i: int|
            0 <= i < ssid_list(text).len() ==> #[trigger] ssid_list(text)[i].len() > 0
                && no_white(ssid_list(text)[i]),
{
    lemma_first_words_are_words(split_lines(text));
}

/// Trimming leaves no whitespace at either end.
pub proof fn lemma_trimmed_has_no_white_ends(s: Seq<char>)
    ensures
        trimmed(s).len() > 0 ==> !is_white(trimmed(s)[0]) && !is_white(trimmed(s).last()),
        trimmed(s).len() <= s.len(),
{
    lemma_trim_start_starts_with_word(s);
    lemma_trim_end_ends_with_word(trim_start(s));
}

/// Whitespace around a text does not change what trimming leaves, so it
/// never changes whether a state reads as "connected".
pub proof fn lemma_padding_ignored(before: Seq<char>, s: Seq<char>, after: Seq<char>)
    requires
        all_white(before),
        all_white(after),
    ensures
        trimmed(before + s + after) == trimmed(s),
{
    assert(before + s + after =~= before + (s + after));
    lemma_trim_start_white_prefix(before, s + after);
    lemma_trim_start_append(s, after);
    lemma_trim_start_empty(s);
    if all_white(s) {
        assert(trim_start(s + after) =~= Seq::<char>::empty());
        assert(trim_start(s) =~= Seq::<char>::empty());
    } else {
        lemma_trim_end_white_suffix(trim_start(s), after);
    }
}

/// Listings that are joined at a line break give the names of the first
/// followed by the names of the second.
pub proof fn lemma_ssids_of_joined_listings(t1: Seq<char>, t2: Seq<char>)
    requires
        t1.len() == 0 || t1.last() == '\n',
    ensures
        ssid_list(t1 + t2) == ssid_list(t1) + ssid_list(t2),
{
    if t1.len() == 0 {
        assert(t1 + t2 =~= t2);
        assert(split_lines(t1) == seq![Seq::<char>::empty()]);
        assert(seq![Seq::<char>::empty()].drop_last() =~= Seq::<Seq<char>>::empty());
        assert(trim_start(Seq::<char>::empty()) == Seq::<char>::empty());
        let ls = seq![Seq::<char>::empty()];
        assert(ls.drop_last() =~= Seq::<Seq<char>>::empty());
        assert(ls.last() == Seq::<char>::empty());
        assert(first_word(Seq::<char>::empty()) is None);
        assert(first_words(Seq::<Seq<char>>::empty()) == Seq::<Seq<char>>::empty());
        assert(first_words(ls) =~= Seq::<Seq<char>>::empty());
        assert(ssid_list(t1) + ssid_list(t2) =~= ssid_list(t2));
    } else {
        lemma_split_lines_concat(t1, t2);
        lemma_first_words_concat(split_lines(t1).drop_last(), split_lines(t2));
        lemma_split_lines_nonempty(t1.drop_last());
        assert(t1.drop_last() + seq!['\n'] =~= t1);
        assert(split_lines(t1) == split_lines(t1.drop_last()).push(Seq::<char>::empty()));
        assert(split_lines(t1).drop_last() =~= split_lines(t1.drop_last()));
        assert(trim_start(Seq::<char>::empty()) == Seq::<char>::empty());
        assert(first_words(split_lines(t1)) =~= first_words(split_lines(t1).drop_last()));
    }
}

/// The same for the raw bytes of two scan listings, when both are valid
/// UTF-8 and the first is empty or ends with a line feed.
pub proof fn lemma_ssids_of_joined_outputs(out1: Seq<u8>, out2: Seq<u8>)
    requires
        valid_utf8(out1),
        valid_utf8(out2),
        out1.len() == 0 || out1.last() == 10,
    ensures
        valid_utf8(out1 + out2),
        ssid_list(decode_utf8(out1 + out2)) == ssid_list(decode_utf8(out1)) + ssid_list(
            decode_utf8(out2),
        ),
{
    lemma_decode_concat(out1, out2);
    if out1.len() > 0 {
        lemma_decode_ends_in_newline(out1);
    } else {
        assert(decode_utf8(out1) =~= Seq::<char>::empty());
    }
    lemma_ssids_of_joined_listings(decode_utf8(out1), decode_utf8(out2));
}

} // verus!
