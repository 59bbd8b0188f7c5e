//! Byte-string text utilities: line splitting, whitespace splitting, and
//! greedy reflowing of words to a maximum line width.
//!
//! Whitespace here is not the general-purpose notion: a byte counts as
//! whitespace exactly when it has all blank pixels in the game's font.

use vstd::prelude::*;
use vstd::slice::slice_subrange;
use vstd::std_specs::iter::IteratorSpec;

verus! {

/// Whether the font draws `byte` as blank: the space character and the
/// control range, except for the block of symbol glyphs the font keeps
/// there (card suits and arrows).
pub open spec fn byte_is_ws(byte: u8) -> bool {
    let lower_half_byte = byte & 0b0111_1111;
    lower_half_byte <= 32 && !(24 <= lower_half_byte && lower_half_byte <= 31)
}

pub fn is_byte_whitespace(byte: u8) -> (r: bool)
    ensures
        r == byte_is_ws(byte),
{
    let lower_half_byte = byte & 0b0111_1111;
    lower_half_byte <= 32 && !(lower_half_byte >= 24 && lower_half_byte <= 31)
}

/// The first position at or after `i` holding `b`, or the length.
pub open spec fn find_from(s: Seq<u8>, i: int, b: u8) -> int
    decreases s.len() - i,
{
    if i < 0 {
        0
    } else if i >= s.len() {
        s.len() as int
    } else if s[i] == b {
        i
    } else {
        find_from(s, i + 1, b)
    }
}

/// The first non-whitespace position at or after `i`, or the length.
pub open spec fn next_non_ws(s: Seq<u8>, i: int) -> int
    decreases s.len() - i,
{
    if i < 0 {
        0
    } else if i >= s.len() {
        s.len() as int
    } else if !byte_is_ws(s[i]) {
        i
    } else {
        next_non_ws(s, i + 1)
    }
}

/// The first whitespace position at or after `i`, or the length.
pub open spec fn word_end(s: Seq<u8>, i: int) -> int
    decreases s.len() - i,
{
    if i < 0 {
        0
    } else if i >= s.len() {
        s.len() as int
    } else if byte_is_ws(s[i]) {
        i
    } else {
        word_end(s, i + 1)
    }
}

pub proof fn lemma_next_non_ws_bounds(s: Seq<u8>, i: int)
    requires
        0 <= i <= s.len(),
    ensures
        i <= next_non_ws(s, i) <= s.len(),
        next_non_ws(s, i) < s.len() ==> !byte_is_ws(s[next_non_ws(s, i)]),
    decreases s.len() - i,
{
    if i < s.len() && byte_is_ws(s[i]) {
        lemma_next_non_ws_bounds(s, i + 1);
    }
}

pub proof fn lemma_word_end_bounds(s: Seq<u8>, i: int)
    requires
        0 <= i <= s.len(),
    ensures
        i <= word_end(s, i) <= s.len(),
        word_end(s, i) < s.len() ==> byte_is_ws(s[word_end(s, i)]),
    decreases s.len() - i,
{
    if i < s.len() && !byte_is_ws(s[i]) {
        lemma_word_end_bounds(s, i + 1);
    }
}

/// The whitespace-separated words of `s`, scanning from position `i`.
pub open spec fn words_from(s: Seq<u8>, i: int) -> Seq<Seq<u8>>
    decreases s.len() - i,
    via words_from_decreases
{
    if i < 0 {
        Seq::empty()
    } else {
        let st = next_non_ws(s, i);
        if st >= s.len() {
            Seq::empty()
        } else {
            let e = word_end(s, st + 1);
            seq![s.subrange(st, e)] + words_from(s, e)
        }
    }
}

#[via_fn]
proof fn words_from_decreases(s: Seq<u8>, i: int) {
    if 0 <= i <= s.len() {
        lemma_next_non_ws_bounds(s, i);
        let st = next_non_ws(s, i);
        if st < s.len() {
            lemma_word_end_bounds(s, st + 1);
        }
    }
}

/// The lines of `s` split at newline bytes, scanning from position `i`;
/// empty lines are kept.
pub open spec fn lines_from(s: Seq<u8>, i: int) -> Seq<Seq<u8>>
    decreases s.len() - i,
    via lines_from_decreases
{
    if i < 0 || i > s.len() {
        Seq::empty()
    } else {
        let e = find_from(s, i, 10);
        if e >= s.len() {
            seq![s.subrange(i, s.len() as int)]
        } else {
            seq![s.subrange(i, e)] + lines_from(s, e + 1)
        }
    }
}

#[via_fn]
proof fn lines_from_decreases(s: Seq<u8>, i: int) {
    if 0 <= i <= s.len() {
        lemma_find_from_bounds(s, i, 10);
    }
}

pub proof fn lemma_find_from_bounds(s: Seq<u8>, i: int, b: u8)
    requires
        0 <= i <= s.len(),
    ensures
        i <= find_from(s, i, b) <= s.len(),
        find_from(s, i, b) < s.len() ==> s[find_from(s, i, b)] == b,
    decreases s.len() - i,
{
    if i < s.len() && s[i] != b {
        lemma_find_from_bounds(s, i + 1, b);
    }
}

/// Split at newline bytes; empty segments are kept, and an empty input gives
/// one empty line.
pub fn bytes_lines(bytes: &[u8]) -> (r: Vec<Vec<u8>>)
    ensures
        r@.map_values(|v: Vec<u8>| v@) == lines_from(bytes@, 0),
{
    let mut out: Vec<Vec<u8>> = Vec::new();
    let mut pos: usize = 0;
    let len = bytes.len();
    proof {
        assert(out@.map_values(|v: Vec<u8>| v@) =~= Seq::<Seq<u8>>::empty());
    }
    loop
        invariant
            pos <= len,
            len == bytes@.len(),
            lines_from(bytes@, 0) =~= out@.map_values(|v: Vec<u8>| v@) + lines_from(
                bytes@,
                pos as int,
            ),
        ensures
            out@.map_values(|v: Vec<u8>| v@) == lines_from(bytes@, 0),
        decreases len - pos,
    {
        // find the next newline
        let mut e: usize = pos;
        while e < len && bytes[e] != 10
            invariant
                pos <= e <= len,
                len == bytes@.len(),
                find_from(bytes@, pos as int, 10) == find_from(bytes@, e as int, 10),
            decreases len - e,
        {
            e = e + 1;
        }
        proof {
            lemma_find_from_bounds(bytes@, pos as int, 10);
            assert(find_from(bytes@, pos as int, 10) == e);
        }
        let mut line: Vec<u8> = Vec::new();
        let mut j: usize = pos;
        while j < e
            invariant
                pos <= j <= e <= len,
                len == bytes@.len(),
                line@ =~= bytes@.subrange(pos as int, j as int),
            decreases e - j,
        {
            line.push(bytes[j]);
            j = j + 1;
        }
        assert(line@ =~= bytes@.subrange(pos as int, e as int));
        out.push(line);
        if e >= len {
            proof {
                assert(out@.map_values(|v: Vec<u8>| v@) =~= out@.drop_last().map_values(
                    |v: Vec<u8>| v@,
                ).push(line@));
                assert(out@.map_values(|v: Vec<u8>| v@) =~= lines_from(bytes@, 0));
            }
            return out;
        }
        proof {
            assert(out@.map_values(|v: Vec<u8>| v@) =~= out@.drop_last().map_values(
                |v: Vec<u8>| v@,
            ).push(line@));
            assert(lines_from(bytes@, 0) =~= out@.map_values(|v: Vec<u8>| v@) + lines_from(
                bytes@,
                e + 1,
            ));
        }
        pos = e + 1;
    }
}

/// Split at whitespace bytes, keeping only the non-empty words.
pub fn bytes_split_whitespace(bytes: &[u8]) -> (r: Vec<Vec<u8>>)
    ensures
        r@.map_values(|v: Vec<u8>| v@) == words_from(bytes@, 0),
{
    let mut out: Vec<Vec<u8>> = Vec::new();
    let mut pos: usize = 0;
    let len = bytes.len();
    proof {
        assert(out@.map_values(|v: Vec<u8>| v@) =~= Seq::<Seq<u8>>::empty());
    }
    loop
        invariant
            pos <= len,
            len == bytes@.len(),
            words_from(bytes@, 0) =~= out@.map_values(|v: Vec<u8>| v@) + words_from(
                bytes@,
                pos as int,
            ),
        ensures
            out@.map_values(|v: Vec<u8>| v@) == words_from(bytes@, 0),
        decreases len - pos,
    {
        let mut st: usize = pos;
        while st < len && is_byte_whitespace(bytes[st])
            invariant
                pos <= st <= len,
                len == bytes@.len(),
                next_non_ws(bytes@, pos as int) == next_non_ws(bytes@, st as int),
            decreases len - st,
        {
            st = st + 1;
        }
        proof {
            lemma_next_non_ws_bounds(bytes@, pos as int);
            assert(next_non_ws(bytes@, pos as int) == st);
        }
        if st >= len {
            return out;
        }
        let mut e: usize = st + 1;
        while e < len && !is_byte_whitespace(bytes[e])
            invariant
                st < e <= len,
                len == bytes@.len(),
                word_end(bytes@, st as int + 1) == word_end(bytes@, e as int),
            decreases len - e,
        {
            e = e + 1;
        }
        proof {
            lemma_word_end_bounds(bytes@, st as int + 1);
            assert(word_end(bytes@, st as int + 1) == e);
        }
        let mut word: Vec<u8> = Vec::new();
        let mut j: usize = st;
        while j < e
            invariant
                st <= j <= e <= len,
                len == bytes@.len(),
                word@ =~= bytes@.subrange(st as int, j as int),
            decreases e - j,
        {
            word.push(bytes[j]);
            j = j + 1;
        }
        assert(word@ =~= bytes@.subrange(st as int, e as int));
        out.push(word);
        proof {
            assert(out@.map_values(|v: Vec<u8>| v@) =~= out@.drop_last().map_values(
                |v: Vec<u8>| v@,
            ).push(word@));
            assert(words_from(bytes@, 0) =~= out@.map_values(|v: Vec<u8>| v@) + words_from(
                bytes@,
                e as int,
            ));
        }
        pos = e;
    }
}

/// The next word at or after `*in_i`: its start and length, with `*in_i`
/// advanced past it; `None` when only whitespace remains.
pub fn bytes_next_word(bytes: &[u8], in_i: &mut usize) -> (r: Option<(usize, usize)>)
    requires
        *old(in_i) <= bytes@.len(),
    ensures
        ({
            let st = next_non_ws(bytes@, *old(in_i) as int);
            let e = word_end(bytes@, st + 1);
            if st >= bytes@.len() {
                r is None && *final(in_i) == *old(in_i)
            } else {
                &&& r == Some((st as usize, (e - st) as usize))
                &&& *final(in_i) as int == (if e == bytes@.len() - 1 {
                    bytes@.len() as int
                } else {
                    e
                })
            }
        }),
{
    let len = bytes.len();
    let mut st: usize = *in_i;
    while st < len && is_byte_whitespace(bytes[st])
        invariant
            *old(in_i) <= st <= len,
            len == bytes@.len(),
            next_non_ws(bytes@, *old(in_i) as int) == next_non_ws(bytes@, st as int),
        decreases len - st,
    {
        st = st + 1;
    }
    proof {
        lemma_next_non_ws_bounds(bytes@, *old(in_i) as int);
        assert(next_non_ws(bytes@, *old(in_i) as int) == st);
    }
    if st >= len {
        return None;
    }
    let mut e: usize = st + 1;
    while e < len && !is_byte_whitespace(bytes[e])
        invariant
            st < e <= len,
            len == bytes@.len(),
            word_end(bytes@, st as int + 1) == word_end(bytes@, e as int),
        decreases len - e,
    {
        e = e + 1;
    }
    proof {
        lemma_word_end_bounds(bytes@, st as int + 1);
        assert(word_end(bytes@, st as int + 1) == e);
    }
    *in_i = if e == len - 1 {
        len
    } else {
        e
    };
    Some((st, e - st))
}

/// Every word the scan yields fits inside the scanned text.
pub proof fn lemma_words_from_bounded(s: Seq<u8>, i: int)
    requires
        0 <= i <= s.len(),
    ensures
        forall|j: int|
            0 <= j < words_from(s, i).len() ==> (#[trigger] words_from(s, i)[j]).len() <= s.len(),
    decreases s.len() - i,
{
    let st = next_non_ws(s, i);
    lemma_next_non_ws_bounds(s, i);
    if st < s.len() {
        let e = word_end(s, st + 1);
        lemma_word_end_bounds(s, st + 1);
        lemma_words_from_bounded(s, e);
        assert forall|j: int| 0 <= j < words_from(s, i).len() implies (#[trigger] words_from(
            s,
            i,
        )[j]).len() <= s.len() by {
            if j > 0 {
                assert(words_from(s, i)[j] == words_from(s, e)[j - 1]);
            }
        }
    }
}

/// One word folded onto a reflowed accumulator (the output so far and the
/// current line length): a word landing exactly on the width of a fresh line
/// is appended bare; one overflowing the line starts a new line; any other
/// word after the first on its line gets one separating space.
pub open spec fn reflow_step<T>(acc: (Seq<T>, int), w: Seq<T>, width: int, nl: T, sp: T) -> (
    Seq<T>,
    int,
) {
    let x = acc.1 + w.len();
    if x == width && x == w.len() {
        (acc.0 + w, x)
    } else if x >= width {
        (acc.0.push(nl) + w, w.len() as int)
    } else if x > w.len() {
        (acc.0.push(sp) + w, x + 1)
    } else {
        (acc.0 + w, x)
    }
}

/// A word list greedily reflowed to lines of at most `width`.
pub open spec fn reflow_words<T>(ws: Seq<Seq<T>>, width: int, nl: T, sp: T) -> (Seq<T>, int)
    decreases ws.len(),
{
    if ws.len() == 0 {
        (Seq::empty(), 0)
    } else {
        reflow_step(reflow_words(ws.drop_last(), width, nl, sp), ws.last(), width, nl, sp)
    }
}

/// What reflowing a byte string to lines of at most `width` yields.
pub open spec fn bytes_reflow_spec(s: Seq<u8>, width: int) -> Seq<u8> {
    if width == 0 || s.len() == 0 {
        Seq::empty()
    } else {
        reflow_words(words_from(s, 0), width, 10u8, 32u8).0
    }
}

/// Reflow the words of `bytes` greedily into lines of at most `width` bytes
/// (words longer than `width` excepted), separating words by one space and
/// lines by one newline.
pub fn bytes_reflow(bytes: &[u8], width: usize) -> (r: Vec<u8>)
    requires
        bytes@.len() < 0x4000_0000,
        width < 0x4000_0000,
    ensures
        r@ == bytes_reflow_spec(bytes@, width as int),
{
    if width == 0 || bytes.len() == 0 {
        return Vec::new();
    }
    let words = bytes_split_whitespace(bytes);
    let ghost wseq = words@.map_values(|v: Vec<u8>| v@);
    proof {
        lemma_words_from_bounded(bytes@, 0);
        assert(wseq.take(0) =~= Seq::<Seq<u8>>::empty());
    }
    let mut output: Vec<u8> = Vec::new();
    let mut x: usize = 0;
    let mut k: usize = 0;
    while k < words.len()
        invariant
            k <= words@.len(),
            wseq == words@.map_values(|v: Vec<u8>| v@),
            wseq == words_from(bytes@, 0),
            forall|j: int| 0 <= j < wseq.len() ==> (#[trigger] wseq[j]).len() <= bytes@.len(),
            bytes@.len() < 0x4000_0000,
            0 < width < 0x4000_0000,
            x <= width + bytes@.len(),
            output@ == reflow_words(wseq.take(k as int), width as int, 10u8, 32u8).0,
            x as int == reflow_words(wseq.take(k as int), width as int, 10u8, 32u8).1,
        decreases words@.len() - k,
    {
        let word = &words[k];
        proof {
            assert(wseq[k as int] == word@);
            assert(wseq[k as int].len() <= bytes@.len());
            assert(wseq.take(k as int + 1).drop_last() =~= wseq.take(k as int));
            assert(wseq.take(k as int + 1).last() == wseq[k as int]);
        }
        let ghost prev_out = output@;
        x = x + word.len();

        if x == width && x == word.len() {
            let mut j: usize = 0;
            while j < word.len()
                invariant
                    j <= word@.len(),
                    output@ == prev_out + word@.take(j as int),
                decreases word@.len() - j,
            {
                output.push(word[j]);
                j = j + 1;
            }
            proof {
                assert(word@.take(word@.len() as int) =~= word@);
            }
        } else {
            if x >= width {
                output.push(10);
                x = word.len();
            } else if x > word.len() {
                output.push(32);
                x = x + 1;
            }
            let ghost sep_out = output@;
            let mut j: usize = 0;
            while j < word.len()
                invariant
                    j <= word@.len(),
                    output@ == sep_out + word@.take(j as int),
                decreases word@.len() - j,
            {
                output.push(word[j]);
                j = j + 1;
            }
            proof {
                assert(word@.take(word@.len() as int) =~= word@);
            }
        }
        k = k + 1;
    }
    proof {
        assert(wseq.take(words@.len() as int) =~= wseq);
    }
    output
}

/// Scanning functions only read at or after their start position.
pub proof fn lemma_scan_agrees(t1: Seq<u8>, t2: Seq<u8>, i: int)
    requires
        t1.len() == t2.len(),
        0 <= i <= t1.len(),
        forall|k: int| i <= k < t1.len() ==> t1[k] == t2[k],
    ensures
        next_non_ws(t1, i) == next_non_ws(t2, i),
        word_end(t1, i) == word_end(t2, i),
    decreases t1.len() - i,
{
    if i < t1.len() {
        assert(t1[i] == t2[i]);
        lemma_scan_agrees(t1, t2, i + 1);
    }
}

/// Scanning a copy of `s` that sits `off` positions into `t` mirrors
/// scanning `s` itself.
pub proof fn lemma_scan_shifted(t: Seq<u8>, s: Seq<u8>, off: int, i: int)
    requires
        off >= 0,
        t.len() == s.len() + off,
        forall|k: int| 0 <= k < s.len() ==> t[off + k] == s[k],
        0 <= i <= s.len(),
    ensures
        next_non_ws(t, off + i) == off + next_non_ws(s, i),
        word_end(t, off + i) == off + word_end(s, i),
    decreases s.len() - i,
{
    if i < s.len() {
        assert(t[off + i] == s[i]);
        lemma_scan_shifted(t, s, off, i + 1);
    }
}

/// The words of a copy of `s` that sits `off` positions into `t` are the
/// words of `s` itself.
pub proof fn lemma_words_shifted(t: Seq<u8>, s: Seq<u8>, off: int, i: int)
    requires
        off >= 0,
        t.len() == s.len() + off,
        forall|k: int| 0 <= k < s.len() ==> t[off + k] == s[k],
        0 <= i <= s.len(),
    ensures
        words_from(t, off + i) == words_from(s, i),
    decreases s.len() - i,
{
    lemma_scan_shifted(t, s, off, i);
    lemma_next_non_ws_bounds(s, i);
    let st = next_non_ws(s, i);
    if st < s.len() {
        lemma_scan_shifted(t, s, off, st + 1);
        lemma_word_end_bounds(s, st + 1);
        let e = word_end(s, st + 1);
        assert(t.subrange(off + st, off + e) =~= s.subrange(st, e));
        lemma_words_shifted(t, s, off, e);
        assert(words_from(t, off + i) =~= words_from(s, i));
    } else {
        assert(next_non_ws(t, off + i) >= t.len());
        assert(words_from(t, off + i) =~= words_from(s, i));
    }
}

/// Whether a character counts as whitespace for `reflow`; what
/// `char::is_whitespace` returns, a function of the character alone.
pub uninterp spec fn char_is_whitespace(c: char) -> bool;

/// Relies on char::is_whitespace: true exactly for the characters with the
/// Unicode White_Space property, among them space, tab, newline and carriage
/// return, and false for every other ASCII character.
pub assume_specification[ char::is_whitespace ](c: char) -> (r: bool)
    ensures
        r == char_is_whitespace(c),
        c == ' ' || c == '\t' || c == '\n' || c == '\r' ==> r,
        32 < c as u32 && c as u32 <= 126 ==> !r,
;

/// Relies on String::push: appends the given character to the end.
pub assume_specification[ String::push ](s: &mut String, c: char)
    ensures
        final(s)@ == old(s)@.push(c),
;

/// The first non-whitespace character position at or after `i`, or the
/// length.
pub open spec fn next_non_ws_c(s: Seq<char>, i: int) -> int
    decreases s.len() - i,
{
    if i < 0 {
        0
    } else if i >= s.len() {
        s.len() as int
    } else if !char_is_whitespace(s[i]) {
        i
    } else {
        next_non_ws_c(s, i + 1)
    }
}

/// The first whitespace character position at or after `i`, or the length.
pub open spec fn word_end_c(s: Seq<char>, i: int) -> int
    decreases s.len() - i,
{
    if i < 0 {
        0
    } else if i >= s.len() {
        s.len() as int
    } else if char_is_whitespace(s[i]) {
        i
    } else {
        word_end_c(s, i + 1)
    }
}

pub proof fn lemma_next_non_ws_c_bounds(s: Seq<char>, i: int)
    requires
        0 <= i <= s.len(),
    ensures
        i <= next_non_ws_c(s, i) <= s.len(),
    decreases s.len() - i,
{
    if i < s.len() && char_is_whitespace(s[i]) {
        lemma_next_non_ws_c_bounds(s, i + 1);
    }
}

pub proof fn lemma_word_end_c_bounds(s: Seq<char>, i: int)
    requires
        0 <= i <= s.len(),
    ensures
        i <= word_end_c(s, i) <= s.len(),
    decreases s.len() - i,
{
    if i < s.len() && !char_is_whitespace(s[i]) {
        lemma_word_end_c_bounds(s, i + 1);
    }
}

/// The whitespace-separated words of a character string, from position `i`.
pub open spec fn words_from_c(s: Seq<char>, i: int) -> Seq<Seq<char>>
    decreases s.len() - i,
    via words_from_c_decreases
{
    if i < 0 {
        Seq::empty()
    } else {
        let st = next_non_ws_c(s, i);
        if st >= s.len() {
            Seq::empty()
        } else {
            let e = word_end_c(s, st + 1);
            seq![s.subrange(st, e)] + words_from_c(s, e)
        }
    }
}

#[via_fn]
proof fn words_from_c_decreases(s: Seq<char>, i: int) {
    if 0 <= i <= s.len() {
        lemma_next_non_ws_c_bounds(s, i);
        let st = next_non_ws_c(s, i);
        if st < s.len() {
            lemma_word_end_c_bounds(s, st + 1);
        }
    }
}

/// The UTF-8 encoded length of one character.
pub open spec fn utf8_len(c: char) -> int {
    if (c as u32) < 0x80 {
        1
    } else if (c as u32) < 0x800 {
        2
    } else if (c as u32) < 0x10000 {
        3
    } else {
        4
    }
}

/// The UTF-8 encoded length of a character sequence.
pub open spec fn utf8_len_of(w: Seq<char>) -> int
    decreases w.len(),
{
    if w.len() == 0 {
        0
    } else {
        utf8_len_of(w.drop_last()) + utf8_len(w.last())
    }
}

pub proof fn lemma_utf8_len_of_bounds(w: Seq<char>)
    ensures
        w.len() <= utf8_len_of(w) <= 4 * w.len(),
    decreases w.len(),
{
    if w.len() > 0 {
        lemma_utf8_len_of_bounds(w.drop_last());
    }
}

/// One word folded onto a reflowed character accumulator; line widths are
/// measured in encoded bytes, as the byte-oriented reflow measures them.
pub open spec fn reflow_step_c(acc: (Seq<char>, int), w: Seq<char>, width: int) -> (Seq<char>, int) {
    let wl = utf8_len_of(w);
    let x = acc.1 + wl;
    if x == width && x == wl {
        (acc.0 + w, x)
    } else if x >= width {
        (acc.0.push('\n') + w, wl)
    } else if x > wl {
        (acc.0.push(' ') + w, x + 1)
    } else {
        (acc.0 + w, x)
    }
}

/// A character word list greedily reflowed to lines of at most `width`
/// encoded bytes.
pub open spec fn reflow_words_c(ws: Seq<Seq<char>>, width: int) -> (Seq<char>, int)
    decreases ws.len(),
{
    if ws.len() == 0 {
        (Seq::empty(), 0)
    } else {
        reflow_step_c(reflow_words_c(ws.drop_last(), width), ws.last(), width)
    }
}

/// What reflowing a character string to lines of at most `width` encoded
/// bytes yields.
pub open spec fn str_reflow_spec(s: Seq<char>, width: int) -> Seq<char> {
    if width == 0 || s.len() == 0 {
        Seq::empty()
    } else {
        reflow_words_c(words_from_c(s, 0), width).0
    }
}

/// Reflow the whitespace-separated words of `s` greedily into lines of at
/// most `width` bytes of encoded text (words longer than `width` excepted).
pub fn reflow(s: &str, width: usize) -> (r: String)
    requires
        s@.len() < 0x0800_0000,
        width < 0x0800_0000,
    ensures
        r@ == str_reflow_spec(s@, width as int),
{
    broadcast use vstd::string::axiom_spec_iter;
    broadcast use vstd::string::next_postcondition;

    if width == 0 || s.is_empty() {
        return String::new();
    }

    let mut cs: Vec<char> = Vec::new();
    let mut it = s.chars();
    loop
        invariant
            it.obeys_prophetic_iter_laws(),
            IteratorSpec::decrease(&it) is Some,
            cs@ + IteratorSpec::remaining(&it) == s@,
        ensures
            cs@ == s@,
        decreases IteratorSpec::decrease(&it)->0,
    {
        match it.next() {
            Some(c) => {
                cs.push(c);
            },
            None => {
                proof {
                    assert(cs@ + IteratorSpec::remaining(&it) =~= cs@);
                }
                break ;
            },
        }
    }

    let len = cs.len();
    let ghost sview = s@;
    let mut output: String = String::new();
    let mut x: usize = 0;
    let mut pos: usize = 0;
    proof {
        assert(words_from_c(sview, 0).take(0) =~= Seq::<Seq<char>>::empty());
    }
    let ghost mut words_done: int = 0;
    loop
        invariant
            cs@ == sview,
            len == sview.len(),
            pos <= len,
            0 < width < 0x0800_0000,
            sview.len() < 0x0800_0000,
            x <= width + 4 * sview.len(),
            0 <= words_done <= words_from_c(sview, 0).len(),
            words_from_c(sview, pos as int) =~= words_from_c(sview, 0).skip(words_done),
            output@ == reflow_words_c(words_from_c(sview, 0).take(words_done), width as int).0,
            x as int == reflow_words_c(words_from_c(sview, 0).take(words_done), width as int).1,
        ensures
            output@ == reflow_words_c(words_from_c(sview, 0), width as int).0,
        decreases len - pos,
    {
        let mut st: usize = pos;
        while st < len && cs[st].is_whitespace()
            invariant
                pos <= st <= len,
                cs@ == sview,
                len == sview.len(),
                next_non_ws_c(sview, pos as int) == next_non_ws_c(sview, st as int),
            decreases len - st,
        {
            st = st + 1;
        }
        proof {
            lemma_next_non_ws_c_bounds(sview, pos as int);
            assert(next_non_ws_c(sview, pos as int) == st);
        }
        if st >= len {
            proof {
                assert(words_from_c(sview, pos as int) =~= Seq::<Seq<char>>::empty());
                assert(words_from_c(sview, 0).take(words_done) =~= words_from_c(sview, 0));
            }
            break ;
        }
        let mut e: usize = st + 1;
        while e < len && !cs[e].is_whitespace()
            invariant
                st < e <= len,
                cs@ == sview,
                len == sview.len(),
                word_end_c(sview, st as int + 1) == word_end_c(sview, e as int),
            decreases len - e,
        {
            e = e + 1;
        }
        proof {
            lemma_word_end_c_bounds(sview, st as int + 1);
            assert(word_end_c(sview, st as int + 1) == e);
        }
        let ghost word: Seq<char> = sview.subrange(st as int, e as int);
        proof {
            assert(words_from_c(sview, pos as int)[0] == word);
            assert(words_from_c(sview, pos as int).len() >= 1);
            assert(words_from_c(sview, 0).skip(words_done).len() >= 1);
            assert(words_done < words_from_c(sview, 0).len());
            assert(words_from_c(sview, 0).skip(words_done)[0] == words_from_c(sview, 0)[words_done]);
            assert(words_from_c(sview, 0)[words_done] == word);
            assert(words_from_c(sview, 0).take(words_done + 1).drop_last() =~= words_from_c(
                sview,
                0,
            ).take(words_done));
            assert(words_from_c(sview, 0).take(words_done + 1).last() == word);
            assert(words_from_c(sview, pos as int) =~= seq![word] + words_from_c(sview, e as int));
            assert forall|j: int| 0 <= j < words_from_c(sview, e as int).len() implies words_from_c(
                sview,
                e as int,
            )[j] == words_from_c(sview, 0).skip(words_done + 1)[j] by {
                assert(words_from_c(sview, e as int)[j] == words_from_c(sview, pos as int)[j + 1]);
                assert(words_from_c(sview, pos as int)[j + 1] == words_from_c(sview, 0).skip(
                    words_done,
                )[j + 1]);
                assert(words_from_c(sview, 0).skip(words_done)[j + 1] == words_from_c(sview, 0)[
                    words_done + 1 + j]);
                assert(words_from_c(sview, 0).skip(words_done + 1)[j] == words_from_c(sview, 0)[
                    words_done + 1 + j]);
            }
            assert(words_from_c(sview, e as int) =~= words_from_c(sview, 0).skip(words_done + 1));
        }
        // the line measure counts the word's encoded bytes
        let mut word_len: usize = 0;
        let mut m: usize = st;
        while m < e
            invariant
                st <= m <= e <= len,
                cs@ == sview,
                len == sview.len(),
                sview.len() < 0x0800_0000,
                word_len <= 4 * (m - st),
                word_len as int == utf8_len_of(sview.subrange(st as int, m as int)),
            decreases e - m,
        {
            let cu = cs[m] as u32;
            let one = if cu < 0x80 {
                1
            } else if cu < 0x800 {
                2
            } else if cu < 0x10000 {
                3
            } else {
                4
            };
            proof {
                assert(sview.subrange(st as int, m as int + 1).drop_last() =~= sview.subrange(
                    st as int,
                    m as int,
                ));
                assert(sview.subrange(st as int, m as int + 1).last() == sview[m as int]);
            }
            word_len = word_len + one;
            m = m + 1;
        }
        proof {
            assert(word_len as int == utf8_len_of(word));
            lemma_utf8_len_of_bounds(word);
        }
        x = x + word_len;
        if x == width && x == word_len {
            let mut j: usize = st;
            let ghost prev_out = output@;
            while j < e
                invariant
                    st <= j <= e <= len,
                    cs@ == sview,
                    len == sview.len(),
                    output@ == prev_out + sview.subrange(st as int, j as int),
                decreases e - j,
            {
                output.push(cs[j]);
                proof {
                    assert(prev_out + sview.subrange(st as int, j as int) + seq![sview[j as int]]
                        =~= prev_out + sview.subrange(st as int, j as int + 1));
                }
                j = j + 1;
            }
            assert(output@ =~= prev_out + word);
        } else {
            if x >= width {
                output.push('\n');
                x = word_len;
            } else if x > word_len {
                output.push(' ');
                x = x + 1;
            }
            let ghost sep_out = output@;
            let mut j: usize = st;
            while j < e
                invariant
                    st <= j <= e <= len,
                    cs@ == sview,
                    len == sview.len(),
                    output@ == sep_out + sview.subrange(st as int, j as int),
                decreases e - j,
            {
                output.push(cs[j]);
                proof {
                    assert(sep_out + sview.subrange(st as int, j as int) + seq![sview[j as int]]
                        =~= sep_out + sview.subrange(st as int, j as int + 1));
                }
                j = j + 1;
            }
            assert(output@ =~= sep_out + word);
        }
        proof {
            words_done = words_done + 1;
        }
        pos = e;
    }
    output
}

/// Reflow the buffer's words in place to lines of at most `width` bytes,
/// reusing the buffer: the result is exactly what `bytes_reflow` builds.  A
/// zero width or an empty buffer is left unchanged.
pub fn bytes_reflow_in_place(bytes: &mut Vec<u8>, width: usize)
    requires
        old(bytes)@.len() < 0x4000_0000,
        width < 0x4000_0000,
    ensures
        final(bytes)@ == if width == 0 || old(bytes)@.len() == 0 {
            old(bytes)@
        } else {
            bytes_reflow_spec(old(bytes)@, width as int)
        },
{
    if width == 0 || bytes.len() == 0 {
        return ;
    }
    let ghost s0 = bytes@;
    let used = bytes.len();
    let extra = used / width;

    // grow by enough zero bytes to hold any separators the reflow inserts
    let mut p: usize = 0;
    while p < extra
        invariant
            p <= extra,
            extra <= used < 0x4000_0000,
            bytes@.len() == used + p,
            forall|k: int| 0 <= k < used ==> bytes@[k] == s0[k],
            used == s0.len(),
        decreases extra - p,
    {
        bytes.push(0);
        p = p + 1;
    }

    // move the content to the end, leaving the slack in front
    let mut i: usize = used;
    while i > 0
        invariant
            i <= used,
            extra <= used < 0x4000_0000,
            bytes@.len() == used + extra,
            used == s0.len(),
            forall|k: int| 0 <= k < i ==> bytes@[k] == s0[k],
            forall|k: int| i <= k < used ==> bytes@[extra + k] == s0[k],
        decreases i,
    {
        i = i - 1;
        let v = bytes[i];
        bytes.set(extra + i, v);
    }

    let ghost shifted0 = bytes@;
    let ghost wlist = words_from(shifted0, extra as int);
    proof {
        lemma_words_shifted(shifted0, s0, extra as int, 0);
        assert(wlist == words_from(s0, 0));
        assert(wlist.take(0) =~= Seq::<Seq<u8>>::empty());
        assert(wlist.skip(0) =~= wlist);
        assert(shifted0.subrange(0, 0) =~= Seq::<u8>::empty());
        lemma_next_non_ws_bounds(shifted0, extra as int);
    }

    let total = bytes.len();
    let mut index: usize = 0;
    let mut x: usize = 0;
    let mut pos: usize = extra;
    let ghost mut words_done: int = 0;

    // scan the moved content and write the reflowed text back to the front;
    // the write cursor never catches the read window up
    loop
        invariant
            bytes@.len() == total,
            shifted0.len() == total,
            total == used + extra,
            used == s0.len(),
            extra == used / width,
            extra <= used < 0x4000_0000,
            0 < width < 0x4000_0000,
            extra <= pos <= total,
            index <= pos,
            forall|k: int| index <= k < total ==> bytes@[k] == shifted0[k],
            bytes@.subrange(0, index as int) == reflow_words(
                wlist.take(words_done),
                width as int,
                10u8,
                32u8,
            ).0,
            x as int == reflow_words(wlist.take(words_done), width as int, 10u8, 32u8).1,
            x <= width + used,
            0 <= words_done <= wlist.len(),
            wlist == words_from(shifted0, extra as int),
            words_from(shifted0, pos as int) =~= wlist.skip(words_done),
            index as int <= next_non_ws(shifted0, pos as int),
            words_done > 0 && next_non_ws(shifted0, pos as int) < total ==> (index as int)
                < next_non_ws(shifted0, pos as int),
            words_done == 0 ==> index == 0 && x == 0,
            words_done > 0 ==> x >= 1,
        ensures
            index <= bytes@.len(),
            bytes@.subrange(0, index as int) == reflow_words(wlist, width as int, 10u8, 32u8).0,
        decreases total - pos,
    {
        let mut st: usize = pos;
        while st < total && is_byte_whitespace(bytes[st])
            invariant
                pos <= st <= total,
                bytes@.len() == total,
                next_non_ws(bytes@, pos as int) == next_non_ws(bytes@, st as int),
            decreases total - st,
        {
            st = st + 1;
        }
        proof {
            lemma_next_non_ws_bounds(bytes@, pos as int);
            assert(next_non_ws(bytes@, pos as int) == st);
            lemma_scan_agrees(bytes@, shifted0, pos as int);
            assert(next_non_ws(shifted0, pos as int) == st);
        }
        if st >= total {
            proof {
                assert(words_from(shifted0, pos as int) =~= Seq::<Seq<u8>>::empty());
                assert(wlist.take(words_done) =~= wlist);
            }
            break ;
        }
        let mut e: usize = st + 1;
        while e < total && !is_byte_whitespace(bytes[e])
            invariant
                st < e <= total,
                bytes@.len() == total,
                word_end(bytes@, st as int + 1) == word_end(bytes@, e as int),
            decreases total - e,
        {
            e = e + 1;
        }
        proof {
            lemma_word_end_bounds(bytes@, st as int + 1);
            assert(word_end(bytes@, st as int + 1) == e);
            lemma_scan_agrees(bytes@, shifted0, st as int + 1);
            assert(word_end(shifted0, st as int + 1) == e);
            lemma_word_end_bounds(shifted0, st as int + 1);
        }
        let ghost word: Seq<u8> = shifted0.subrange(st as int, e as int);
        proof {
            assert(words_from(shifted0, pos as int)[0] == word);
            assert(words_from(shifted0, pos as int).len() >= 1);
            assert(wlist.skip(words_done).len() >= 1);
            assert(words_done < wlist.len());
            assert(wlist.skip(words_done)[0] == wlist[words_done]);
            assert(wlist[words_done] == word);
            assert(wlist.take(words_done + 1).drop_last() =~= wlist.take(words_done));
            assert(wlist.take(words_done + 1).last() == word);
            assert(words_from(shifted0, pos as int) =~= seq![word] + words_from(
                shifted0,
                e as int,
            ));
            assert forall|j: int| 0 <= j < words_from(shifted0, e as int).len() implies
                words_from(shifted0, e as int)[j] == wlist.skip(words_done + 1)[j] by {
                assert(words_from(shifted0, e as int)[j] == words_from(shifted0, pos as int)[j
                    + 1]);
                assert(words_from(shifted0, pos as int)[j + 1] == wlist.skip(words_done)[j + 1]);
                assert(wlist.skip(words_done)[j + 1] == wlist[words_done + 1 + j]);
                assert(wlist.skip(words_done + 1)[j] == wlist[words_done + 1 + j]);
            }
            assert(words_from(shifted0, e as int) =~= wlist.skip(words_done + 1));
        }
        let word_len = e - st;
        x = x + word_len;

        let ghost prev_out = bytes@.subrange(0, index as int);
        if x == width && x == word_len {
            let ghost index0 = index as int;
            let mut j: usize = 0;
            while j < word_len
                invariant
                    j <= word_len,
                    word_len == e - st,
                    st < e <= total,
                    index as int == index0 + j,
                    index0 <= st,
                    bytes@.len() == total,
                    shifted0.len() == total,
                    word == shifted0.subrange(st as int, e as int),
                    forall|k: int| index <= k < total ==> bytes@[k] == shifted0[k],
                    bytes@.subrange(0, index as int) == prev_out + word.take(j as int),
                decreases word_len - j,
            {
                let v = bytes[st + j];
                assert(v == word[j as int]);
                bytes.set(index, v);
                proof {
                    assert(bytes@.subrange(0, index as int + 1) =~= bytes@.subrange(
                        0,
                        index as int,
                    ).push(v));
                    assert(prev_out + word.take(j as int) + seq![word[j as int]] =~= prev_out
                        + word.take(j as int + 1));
                }
                index = index + 1;
                j = j + 1;
            }
            proof {
                assert(word.take(word.len() as int) =~= word);
            }
        } else {
            if x >= width {
                proof {
                    if words_done == 0 {
                        assert(word_len >= width);
                        assert(e <= total && st >= extra);
                        assert(word_len <= used);
                        assert(used >= width);
                        assert(used / width >= 1) by (nonlinear_arith)
                            requires
                                used >= width,
                                width >= 1,
                        ;
                        assert(extra >= 1);
                    }
                    assert((index as int) < st);
                }
                assert(index < total);
                bytes.set(index, 10);
                proof {
                    assert(bytes@.subrange(0, index as int + 1) =~= prev_out.push(10u8));
                }
                index = index + 1;
                x = word_len;
            } else if x > word_len {
                proof {
                    assert(words_done > 0);
                    assert((index as int) < st);
                }
                assert(index < total);
                bytes.set(index, 32);
                proof {
                    assert(bytes@.subrange(0, index as int + 1) =~= prev_out.push(32u8));
                }
                index = index + 1;
                x = x + 1;
            }
            let ghost sep_out = bytes@.subrange(0, index as int);
            let ghost index0 = index as int;
            let mut j: usize = 0;
            while j < word_len
                invariant
                    j <= word_len,
                    word_len == e - st,
                    st < e <= total,
                    index as int == index0 + j,
                    index0 <= st,
                    bytes@.len() == total,
                    shifted0.len() == total,
                    word == shifted0.subrange(st as int, e as int),
                    forall|k: int| index <= k < total ==> bytes@[k] == shifted0[k],
                    bytes@.subrange(0, index as int) == sep_out + word.take(j as int),
                decreases word_len - j,
            {
                let v = bytes[st + j];
                assert(v == word[j as int]);
                bytes.set(index, v);
                proof {
                    assert(bytes@.subrange(0, index as int + 1) =~= bytes@.subrange(
                        0,
                        index as int,
                    ).push(v));
                    assert(sep_out + word.take(j as int) + seq![word[j as int]] =~= sep_out
                        + word.take(j as int + 1));
                }
                index = index + 1;
                j = j + 1;
            }
            proof {
                assert(word.take(word.len() as int) =~= word);
            }
        }
        proof {
            lemma_next_non_ws_bounds(shifted0, e as int);
            if next_non_ws(shifted0, e as int) < total {
                if e < total {
                    assert(byte_is_ws(shifted0[e as int]));
                    assert(next_non_ws(shifted0, e as int) > e);
                }
            }
            words_done = words_done + 1;
        }
        pos = e;
    }
    bytes.truncate(index);
    proof {
        assert(bytes@ =~= bytes_reflow_spec(s0, width as int));
    }
}

/// Everything before the first zero byte; a slice whose first zero sits
/// exactly at position 255, or that has no zero at all, is returned whole.
pub fn slice_until_first_0(bytes: &[u8]) -> (r: &[u8])
    ensures
        ({
            let fz = find_from(bytes@, 0, 0);
            if fz < bytes@.len() && fz != 255 {
                r@ == bytes@.subrange(0, fz)
            } else {
                r@ == bytes@
            }
        }),
{
    let len = bytes.len();
    let mut usable_len: usize = 255;
    let mut i: usize = 0;
    let mut found: bool = false;
    while i < len && !found
        invariant
            i <= len,
            len == bytes@.len(),
            !found ==> find_from(bytes@, 0, 0) == find_from(bytes@, i as int, 0),
            !found ==> usable_len == 255,
            found ==> usable_len as int == find_from(bytes@, 0, 0) && (usable_len as int) < len,
        decreases len - i, (if found { 0int } else { 1int }),
    {
        if bytes[i] == 0 {
            usable_len = i;
            found = true;
        } else {
            i = i + 1;
        }
    }
    proof {
        lemma_find_from_bounds(bytes@, 0, 0);
        if !found {
            assert(find_from(bytes@, 0, 0) == len);
        }
    }
    if usable_len == 255 {
        bytes
    } else {
        slice_subrange(bytes, 0, usable_len)
    }
}

} // verus!
