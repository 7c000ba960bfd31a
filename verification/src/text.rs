//! Turning whisper's raw output into the text the user sees.
//!
//! Whisper emits bracketed annotations for non-speech and a leading space on
//! nearly every segment. Neither belongs in the user's text field: the noise
//! markers are removed and the whitespace is collapsed to single spaces
//! between words.

use vstd::prelude::*;

verus! {

// ------------------------------------------------------------------ model

/// Unicode `White_Space`: the characters `char::is_whitespace` accepts.
pub open spec fn is_white_space(c: char) -> bool {
    let v = c as u32;
    ||| 0x9 <= v <= 0xd
    ||| v == 0x20
    ||| v == 0x85
    ||| v == 0xa0
    ||| v == 0x1680
    ||| 0x2000 <= v <= 0x200a
    ||| v == 0x2028
    ||| v == 0x2029
    ||| v == 0x202f
    ||| v == 0x205f
    ||| v == 0x3000
}

/// `s` with every occurrence of `marker` removed, scanning left to right and
/// never letting two removed occurrences overlap (what `str::replace(marker, "")`
/// does for a non-empty marker).
pub open spec fn strip_marker(s: Seq<char>, marker: Seq<char>) -> Seq<char>
    decreases s.len(),
{
    if s.len() == 0 {
        s
    } else if starts_with(s, marker) && marker.len() > 0 {
        strip_marker(s.skip(marker.len() as int), marker)
    } else {
        seq![s[0]] + strip_marker(s.drop_first(), marker)
    }
}

/// `prefix` is the beginning of `s`.
pub open spec fn starts_with(s: Seq<char>, prefix: Seq<char>) -> bool {
    prefix.len() <= s.len() && s.subrange(0, prefix.len() as int) == prefix
}

/// `marker` occurs somewhere inside `s`.
pub open spec fn occurs_in(s: Seq<char>, marker: Seq<char>) -> bool {
    exists|i: int| 0 <= i <= s.len() && #[trigger] starts_with(s.skip(i), marker)
}

/// The annotations whisper writes for stretches without speech.
pub open spec fn noise_markers() -> Seq<Seq<char>> {
    seq![
        "[BLANK_AUDIO]"@,
        "[ Silence ]"@,
        "[silence]"@,
        "(silence)"@,
        "[MUSIC]"@,
        "[ Pause ]"@,
    ]
}

/// `s` with the noise markers removed, one marker after the other in the
/// order of `noise_markers()`.
pub open spec fn strip_noise(s: Seq<char>) -> Seq<char> {
    strip_all(s, noise_markers())
}

/// `s` with each marker of `markers` removed in turn.
pub open spec fn strip_all(s: Seq<char>, markers: Seq<Seq<char>>) -> Seq<char>
    decreases markers.len(),
{
    if markers.len() == 0 {
        s
    } else {
        strip_all(strip_marker(s, markers[0]), markers.drop_first())
    }
}

/// The run of non-whitespace characters at the start of `s`.
pub open spec fn leading_word(s: Seq<char>) -> Seq<char>
    decreases s.len(),
{
    if s.len() == 0 || is_white_space(s[0]) {
        seq![]
    } else {
        seq![s[0]] + leading_word(s.drop_first())
    }
}

/// The words of `s`: its maximal runs of non-whitespace characters, in order
/// (what `str::split_whitespace` yields).
pub open spec fn words(s: Seq<char>) -> Seq<Seq<char>>
    decreases s.len(),
{
    if s.len() == 0 {
        seq![]
    } else if is_white_space(s[0]) {
        words(s.drop_first())
    } else {
        proof {
            lemma_leading_word_len(s);
        }
        seq![leading_word(s)] + words(s.skip(leading_word(s).len() as int))
    }
}

/// The words joined with a single space between neighbours.
pub open spec fn join_words(ws: Seq<Seq<char>>) -> Seq<char>
    decreases ws.len(),
{
    if ws.len() == 0 {
        seq![]
    } else if ws.len() == 1 {
        ws[0]
    } else {
        join_words(ws.drop_last()) + seq![' '] + ws.last()
    }
}

/// `s` with its whitespace collapsed: the words of `s` separated by single
/// spaces, nothing before the first nor after the last.
pub open spec fn collapse_whitespace(s: Seq<char>) -> Seq<char> {
    join_words(words(s))
}

/// What the user gets for whisper's raw output `raw`.
pub open spec fn cleaned(raw: Seq<char>) -> Seq<char> {
    collapse_whitespace(strip_noise(raw))
}

/// `t` is tidy: no whitespace at either end, and each whitespace character
/// inside is a plain space between two non-whitespace characters.
pub open spec fn is_tidy(t: Seq<char>) -> bool {
    &&& t.len() > 0 ==> !is_white_space(t[0]) && !is_white_space(t.last())
    &&& forall|i: int|
        0 <= i < t.len() && is_white_space(#[trigger] t[i]) ==> {
            &&& t[i] == ' '
            &&& 0 < i < t.len() - 1
            &&& !is_white_space(t[i - 1])
            &&& !is_white_space(t[i + 1])
        }
}

// ---------------------------------------------------------------- lemmas

/// The leading word is no longer than `s`, and not empty when `s` starts with
/// a non-whitespace character.
pub proof fn lemma_leading_word_len(s: Seq<char>)
    ensures
        leading_word(s).len() <= s.len(),
        s.len() > 0 && !is_white_space(s[0]) ==> leading_word(s).len() > 0,
    decreases s.len(),
{
    if s.len() > 0 && !is_white_space(s[0]) {
        lemma_leading_word_len(s.drop_first());
    }
}

/// The leading word is the prefix up to the first whitespace character.
proof fn lemma_leading_word_is_prefix(s: Seq<char>, k: int)
    requires
        0 <= k <= s.len(),
        forall|j: int| 0 <= j < k ==> !is_white_space(#[trigger] s[j]),
        k == s.len() || is_white_space(s[k]),
    ensures
        leading_word(s) == s.subrange(0, k),
    decreases k,
{
    if k == 0 {
        assert(s.subrange(0, 0) =~= Seq::<char>::empty());
    } else {
        let t = s.drop_first();
        assert forall|j: int| 0 <= j < k - 1 implies !is_white_space(#[trigger] t[j]) by {
            assert(t[j] == s[j + 1]);
        }
        lemma_leading_word_is_prefix(t, k - 1);
        assert(seq![s[0]] + t.subrange(0, k - 1) =~= s.subrange(0, k));
    }
}

/// Each word of `ws` is non-empty and holds no whitespace.
pub open spec fn all_solid(ws: Seq<Seq<char>>) -> bool {
    forall|i: int| 0 <= i < ws.len() ==> is_solid(#[trigger] ws[i])
}

/// `w` is non-empty and holds no whitespace.
pub open spec fn is_solid(w: Seq<char>) -> bool {
    w.len() > 0 && forall|j: int| 0 <= j < w.len() ==> !is_white_space(#[trigger] w[j])
}

/// Every word is non-empty and holds no whitespace.
proof fn lemma_words_are_solid(s: Seq<char>)
    ensures
        all_solid(words(s)),
    decreases s.len(),
{
    if s.len() == 0 {
    } else if is_white_space(s[0]) {
        lemma_words_are_solid(s.drop_first());
        assert(words(s) == words(s.drop_first()));
    } else {
        lemma_leading_word_len(s);
        lemma_leading_word_solid(s);
        let w = leading_word(s);
        let rest = s.skip(w.len() as int);
        lemma_words_are_solid(rest);
        assert(words(s) == seq![w] + words(rest));
        assert forall|i: int| 0 <= i < words(s).len() implies is_solid(#[trigger] words(s)[i]) by {
            if i == 0 {
                assert(words(s)[0] == w);
            } else {
                assert(words(s)[i] == words(rest)[i - 1]);
            }
        }
    }
}

proof fn lemma_leading_word_solid(s: Seq<char>)
    ensures
        forall|j: int| 0 <= j < leading_word(s).len() ==> !is_white_space(#[trigger] leading_word(s)[j]),
    decreases s.len(),
{
    if s.len() > 0 && !is_white_space(s[0]) {
        lemma_leading_word_solid(s.drop_first());
        let w = leading_word(s);
        let t = leading_word(s.drop_first());
        assert forall|j: int| 0 <= j < w.len() implies !is_white_space(#[trigger] w[j]) by {
            if j > 0 {
                assert(w[j] == t[j - 1]);
            }
        }
    }
}

/// Appending a word to the list appends a space (when needed) and the word.
proof fn lemma_join_push(ws: Seq<Seq<char>>, w: Seq<char>)
    ensures
        join_words(ws.push(w)) == if ws.len() == 0 {
            w
        } else {
            join_words(ws) + seq![' '] + w
        },
{
    if ws.len() > 0 {
        assert(ws.push(w).drop_last() =~= ws);
    }
}

/// Joining solid words gives tidy text.
proof fn lemma_join_solid_is_tidy(ws: Seq<Seq<char>>)
    requires
        all_solid(ws),
    ensures
        is_tidy(join_words(ws)),
        ws.len() > 0 ==> join_words(ws).len() > 0,
    decreases ws.len(),
{
    if ws.len() == 0 {
    } else if ws.len() == 1 {
        let t = ws[0];
        assert(is_solid(ws[0]));
        assert(join_words(ws) == t);
        assert(t.last() == t[t.len() - 1]);
    } else {
        let init = ws.drop_last();
        assert forall|i: int| 0 <= i < init.len() implies is_solid(#[trigger] init[i]) by {
            assert(init[i] == ws[i]);
        }
        lemma_join_solid_is_tidy(init);
        let a = join_words(init);
        let w = ws.last();
        assert(w == ws[ws.len() - 1]);
        assert(is_solid(w));
        let t = a + seq![' '] + w;
        assert(join_words(ws) == t);
        assert(t[0] == a[0]);
        assert(t.last() == w[w.len() - 1]);
        assert forall|i: int| 0 <= i < t.len() && is_white_space(#[trigger] t[i]) implies {
            &&& t[i] == ' '
            &&& 0 < i < t.len() - 1
            &&& !is_white_space(t[i - 1])
            &&& !is_white_space(t[i + 1])
        } by {
            if i < a.len() {
                assert(t[i] == a[i]);
                if i + 1 < a.len() {
                    assert(t[i + 1] == a[i + 1]);
                }
                assert(t[i - 1] == a[i - 1]);
            } else if i == a.len() {
                assert(t[i - 1] == a[a.len() - 1]);
                assert(t[i + 1] == w[0]);
            } else {
                assert(t[i] == w[i - a.len() - 1]);
            }
        }
    }
}


/// The leading word is the prefix before the first whitespace character.
proof fn lemma_leading_word_stops(s: Seq<char>)
    ensures
        leading_word(s) == s.subrange(0, leading_word(s).len() as int),
        leading_word(s).len() <= s.len(),
        leading_word(s).len() < s.len() ==> is_white_space(s[leading_word(s).len() as int]),
    decreases s.len(),
{
    if s.len() > 0 && !is_white_space(s[0]) {
        let t = s.drop_first();
        lemma_leading_word_stops(t);
        let k = leading_word(t).len() as int;
        assert(seq![s[0]] + t.subrange(0, k) =~= s.subrange(0, k + 1));
        if k + 1 < s.len() {
            assert(s[k + 1] == t[k]);
        }
    } else {
        assert(s.subrange(0, 0) =~= Seq::<char>::empty());
    }
}

/// Putting a word in front of a non-empty list puts it and a space in front
/// of the joined text.
proof fn lemma_join_prepend(w: Seq<char>, ws: Seq<Seq<char>>)
    requires
        ws.len() > 0,
    ensures
        join_words(seq![w] + ws) == w + seq![' '] + join_words(ws),
    decreases ws.len(),
{
    let all = seq![w] + ws;
    assert(all.len() >= 2);
    assert(join_words(all) == join_words(all.drop_last()) + seq![' '] + all.last());
    if ws.len() == 1 {
        assert(all.drop_last() =~= seq![w]);
        assert(join_words(seq![w]) == w);
        assert(all.last() == ws[0]);
        assert(join_words(ws) == ws[0]);
    } else {
        assert(all.drop_last() =~= seq![w] + ws.drop_last());
        lemma_join_prepend(w, ws.drop_last());
        assert(all.last() == ws.last());
        assert(join_words(ws) == join_words(ws.drop_last()) + seq![' '] + ws.last());
        assert(w + seq![' '] + join_words(ws.drop_last()) + seq![' '] + ws.last() =~= w + seq![' ']
            + (join_words(ws.drop_last()) + seq![' '] + ws.last()));
    }
}

/// Collapsing the whitespace of tidy text gives the text back.
proof fn lemma_collapse_tidy(t: Seq<char>)
    requires
        is_tidy(t),
    ensures
        collapse_whitespace(t) == t,
    decreases t.len(),
{
    if t.len() == 0 {
        assert(words(t) =~= Seq::<Seq<char>>::empty());
    } else {
        assert(!is_white_space(t[0]));
        lemma_leading_word_stops(t);
        lemma_leading_word_len(t);
        let w = leading_word(t);
        let k = w.len() as int;
        assert(words(t) == seq![w] + words(t.skip(k)));
        if k == t.len() {
            assert(t.skip(k) =~= Seq::<char>::empty());
            assert(words(t) =~= seq![w]);
            assert(w =~= t);
        } else {
            assert(is_white_space(t[k]));
            assert(t[k] == ' ' && k < t.len() - 1 && !is_white_space(t[k + 1]));
            let v = t.skip(k);
            let u = t.skip(k + 1);
            assert(v[0] == t[k]);
            assert(v.drop_first() =~= u);
            assert(words(v) == words(u));
            assert(u[0] == t[k + 1]);
            assert(u.last() == t.last());
            assert forall|i: int| 0 <= i < u.len() && is_white_space(#[trigger] u[i]) implies {
                &&& u[i] == ' '
                &&& 0 < i < u.len() - 1
                &&& !is_white_space(u[i - 1])
                &&& !is_white_space(u[i + 1])
            } by {
                assert(u[i] == t[i + k + 1]);
                assert(is_white_space(t[i + k + 1]));
                if i > 0 {
                    assert(u[i - 1] == t[i + k]);
                }
                if i + 1 < u.len() {
                    assert(u[i + 1] == t[i + k + 2]);
                }
            }
            lemma_collapse_tidy(u);
            assert(words(u) == seq![leading_word(u)] + words(u.skip(leading_word(u).len() as int)));
            lemma_join_prepend(w, words(u));
            assert(w + seq![' '] + u =~= t);
        }
    }
}

/// Removing a marker that does not occur changes nothing.
proof fn lemma_strip_absent(s: Seq<char>, marker: Seq<char>)
    requires
        !occurs_in(s, marker),
    ensures
        strip_marker(s, marker) == s,
    decreases s.len(),
{
    if s.len() > 0 {
        assert(s.skip(0) =~= s);
        assert(!starts_with(s.skip(0), marker));
        let t = s.drop_first();
        assert forall|i: int| 0 <= i <= t.len() implies !#[trigger] starts_with(t.skip(i), marker) by {
            assert(t.skip(i) =~= s.skip(i + 1));
            assert(!starts_with(s.skip(i + 1), marker));
        }
        lemma_strip_absent(t, marker);
        assert(seq![s[0]] + t =~= s);
    }
}

proof fn lemma_strip_all_absent(s: Seq<char>, markers: Seq<Seq<char>>)
    requires
        forall|m: int| 0 <= m < markers.len() ==> !occurs_in(s, #[trigger] markers[m]),
    ensures
        strip_all(s, markers) == s,
    decreases markers.len(),
{
    if markers.len() > 0 {
        lemma_strip_absent(s, markers[0]);
        let rest = markers.drop_first();
        assert forall|m: int| 0 <= m < rest.len() implies !occurs_in(s, #[trigger] rest[m]) by {
            assert(rest[m] == markers[m + 1]);
        }
        lemma_strip_all_absent(s, rest);
    }
}

// ------------------------------------------------------------------ laws

/// Whatever whisper produced, the cleaned text is tidy: it neither starts
/// nor ends with whitespace, and its only whitespace is single plain spaces
/// between words.
pub proof fn lemma_clean_is_tidy(raw: Seq<char>)
    ensures
        is_tidy(cleaned(raw)),
{
    lemma_words_are_solid(strip_noise(raw));
    lemma_join_solid_is_tidy(words(strip_noise(raw)));
}

/// Ordinary text is left alone: text that is already tidy and holds none of
/// the noise markers comes back unchanged.
pub proof fn lemma_clean_keeps_ordinary_text(t: Seq<char>)
    requires
        is_tidy(t),
        forall|m: int| 0 <= m < noise_markers().len() ==> !occurs_in(t, #[trigger] noise_markers()[m]),
    ensures
        cleaned(t) == t,
{
    lemma_strip_all_absent(t, noise_markers());
    lemma_collapse_tidy(t);
}

/// Cleaning settles after one pass: when the cleaned text holds none of the
/// noise markers, cleaning it again changes nothing. (Removing a marker or
/// collapsing whitespace can bring a new marker together, as in
/// "[BLANK[BLANK_AUDIO]_AUDIO]"; such text is left out.)
pub proof fn lemma_clean_settles(raw: Seq<char>)
    requires
        forall|m: int|
            0 <= m < noise_markers().len() ==> !occurs_in(cleaned(raw), #[trigger] noise_markers()[m]),
    ensures
        cleaned(cleaned(raw)) == cleaned(raw),
{
    lemma_clean_is_tidy(raw);
    lemma_clean_keeps_ordinary_text(cleaned(raw));
}


// ------------------------------------------------------- marker shapes

/// `c` opens a noise marker.
pub open spec fn is_open(c: char) -> bool {
    c == '[' || c == '('
}

/// `c` closes a noise marker.
pub open spec fn is_close(c: char) -> bool {
    c == ']' || c == ')'
}

/// `m` is shaped like a noise marker: an opening bracket, then characters
/// that neither open nor close, then a closing bracket.
pub open spec fn bracketed(m: Seq<char>) -> bool {
    &&& m.len() >= 2
    &&& is_open(m[0])
    &&& is_close(m[m.len() - 1])
    &&& forall|i: int| 0 < i < m.len() ==> !is_open(#[trigger] m[i])
    &&& forall|i: int| 0 <= i < m.len() - 1 ==> !is_close(#[trigger] m[i])
}

proof fn lemma_marker_0_bracketed()
    ensures
        bracketed(noise_markers()[0]),
{
    reveal_strlit("[BLANK_AUDIO]");
    let m = noise_markers()[0];
    assert(m == "[BLANK_AUDIO]"@);
    assert(m.len() == 13);
    assert forall|i: int| 0 <= i < m.len() implies (i > 0 ==> !is_open(#[trigger] m[i])) && (i < m.len() - 1 ==> !is_close(m[i])) by {
        if i == 0 { assert(m[0] == '['); } else if i == 1 { assert(m[1] == 'B'); } else if i == 2 { assert(m[2] == 'L'); } else if i == 3 { assert(m[3] == 'A'); } else if i == 4 { assert(m[4] == 'N'); } else if i == 5 { assert(m[5] == 'K'); } else if i == 6 { assert(m[6] == '_'); } else if i == 7 { assert(m[7] == 'A'); } else if i == 8 { assert(m[8] == 'U'); } else if i == 9 { assert(m[9] == 'D'); } else if i == 10 { assert(m[10] == 'I'); } else if i == 11 { assert(m[11] == 'O'); } else if i == 12 { assert(m[12] == ']'); }
    }
    assert(m[0] == '[');
    assert(m[12] == ']');
}

proof fn lemma_marker_1_bracketed()
    ensures
        bracketed(noise_markers()[1]),
{
    reveal_strlit("[ Silence ]");
    let m = noise_markers()[1];
    assert(m == "[ Silence ]"@);
    assert(m.len() == 11);
    assert forall|i: int| 0 <= i < m.len() implies (i > 0 ==> !is_open(#[trigger] m[i])) && (i < m.len() - 1 ==> !is_close(m[i])) by {
        if i == 0 { assert(m[0] == '['); } else if i == 1 { assert(m[1] == ' '); } else if i == 2 { assert(m[2] == 'S'); } else if i == 3 { assert(m[3] == 'i'); } else if i == 4 { assert(m[4] == 'l'); } else if i == 5 { assert(m[5] == 'e'); } else if i == 6 { assert(m[6] == 'n'); } else if i == 7 { assert(m[7] == 'c'); } else if i == 8 { assert(m[8] == 'e'); } else if i == 9 { assert(m[9] == ' '); } else if i == 10 { assert(m[10] == ']'); }
    }
    assert(m[0] == '[');
    assert(m[10] == ']');
}

proof fn lemma_marker_2_bracketed()
    ensures
        bracketed(noise_markers()[2]),
{
    reveal_strlit("[silence]");
    let m = noise_markers()[2];
    assert(m == "[silence]"@);
    assert(m.len() == 9);
    assert forall|i: int| 0 <= i < m.len() implies (i > 0 ==> !is_open(#[trigger] m[i])) && (i < m.len() - 1 ==> !is_close(m[i])) by {
        if i == 0 { assert(m[0] == '['); } else if i == 1 { assert(m[1] == 's'); } else if i == 2 { assert(m[2] == 'i'); } else if i == 3 { assert(m[3] == 'l'); } else if i == 4 { assert(m[4] == 'e'); } else if i == 5 { assert(m[5] == 'n'); } else if i == 6 { assert(m[6] == 'c'); } else if i == 7 { assert(m[7] == 'e'); } else if i == 8 { assert(m[8] == ']'); }
    }
    assert(m[0] == '[');
    assert(m[8] == ']');
}

proof fn lemma_marker_3_bracketed()
    ensures
        bracketed(noise_markers()[3]),
{
    reveal_strlit("(silence)");
    let m = noise_markers()[3];
    assert(m == "(silence)"@);
    assert(m.len() == 9);
    assert forall|i: int| 0 <= i < m.len() implies (i > 0 ==> !is_open(#[trigger] m[i])) && (i < m.len() - 1 ==> !is_close(m[i])) by {
        if i == 0 { assert(m[0] == '('); } else if i == 1 { assert(m[1] == 's'); } else if i == 2 { assert(m[2] == 'i'); } else if i == 3 { assert(m[3] == 'l'); } else if i == 4 { assert(m[4] == 'e'); } else if i == 5 { assert(m[5] == 'n'); } else if i == 6 { assert(m[6] == 'c'); } else if i == 7 { assert(m[7] == 'e'); } else if i == 8 { assert(m[8] == ')'); }
    }
    assert(m[0] == '(');
    assert(m[8] == ')');
}

proof fn lemma_marker_4_bracketed()
    ensures
        bracketed(noise_markers()[4]),
{
    reveal_strlit("[MUSIC]");
    let m = noise_markers()[4];
    assert(m == "[MUSIC]"@);
    assert(m.len() == 7);
    assert forall|i: int| 0 <= i < m.len() implies (i > 0 ==> !is_open(#[trigger] m[i])) && (i < m.len() - 1 ==> !is_close(m[i])) by {
        if i == 0 { assert(m[0] == '['); } else if i == 1 { assert(m[1] == 'M'); } else if i == 2 { assert(m[2] == 'U'); } else if i == 3 { assert(m[3] == 'S'); } else if i == 4 { assert(m[4] == 'I'); } else if i == 5 { assert(m[5] == 'C'); } else if i == 6 { assert(m[6] == ']'); }
    }
    assert(m[0] == '[');
    assert(m[6] == ']');
}

proof fn lemma_marker_5_bracketed()
    ensures
        bracketed(noise_markers()[5]),
{
    reveal_strlit("[ Pause ]");
    let m = noise_markers()[5];
    assert(m == "[ Pause ]"@);
    assert(m.len() == 9);
    assert forall|i: int| 0 <= i < m.len() implies (i > 0 ==> !is_open(#[trigger] m[i])) && (i < m.len() - 1 ==> !is_close(m[i])) by {
        if i == 0 { assert(m[0] == '['); } else if i == 1 { assert(m[1] == ' '); } else if i == 2 { assert(m[2] == 'P'); } else if i == 3 { assert(m[3] == 'a'); } else if i == 4 { assert(m[4] == 'u'); } else if i == 5 { assert(m[5] == 's'); } else if i == 6 { assert(m[6] == 'e'); } else if i == 7 { assert(m[7] == ' '); } else if i == 8 { assert(m[8] == ']'); }
    }
    assert(m[0] == '[');
    assert(m[8] == ']');
}

/// Every noise marker is shaped like one.
proof fn lemma_markers_bracketed(k: int)
    requires
        0 <= k < noise_markers().len(),
    ensures
        bracketed(noise_markers()[k]),
{
    if k == 0 { lemma_marker_0_bracketed(); }
    else if k == 1 { lemma_marker_1_bracketed(); }
    else if k == 2 { lemma_marker_2_bracketed(); }
    else if k == 3 { lemma_marker_3_bracketed(); }
    else if k == 4 { lemma_marker_4_bracketed(); }
    else { lemma_marker_5_bracketed(); }
}

/// The noise markers are six different texts.
proof fn lemma_markers_distinct(j: int, k: int)
    requires
        0 <= j < noise_markers().len(),
        0 <= k < noise_markers().len(),
        j != k,
    ensures
        noise_markers()[j] != noise_markers()[k],
{
    reveal_strlit("[BLANK_AUDIO]");
    reveal_strlit("[ Silence ]");
    reveal_strlit("[silence]");
    reveal_strlit("(silence)");
    reveal_strlit("[MUSIC]");
    reveal_strlit("[ Pause ]");
    let ms = noise_markers();
    if j == 0 && k == 1 { assert(ms[j].len() != ms[k].len()); }
    if j == 0 && k == 2 { assert(ms[j].len() != ms[k].len()); }
    if j == 0 && k == 3 { assert(ms[j].len() != ms[k].len()); }
    if j == 0 && k == 4 { assert(ms[j].len() != ms[k].len()); }
    if j == 0 && k == 5 { assert(ms[j].len() != ms[k].len()); }
    if j == 1 && k == 0 { assert(ms[j].len() != ms[k].len()); }
    if j == 1 && k == 2 { assert(ms[j].len() != ms[k].len()); }
    if j == 1 && k == 3 { assert(ms[j].len() != ms[k].len()); }
    if j == 1 && k == 4 { assert(ms[j].len() != ms[k].len()); }
    if j == 1 && k == 5 { assert(ms[j].len() != ms[k].len()); }
    if j == 2 && k == 0 { assert(ms[j].len() != ms[k].len()); }
    if j == 2 && k == 1 { assert(ms[j].len() != ms[k].len()); }
    if j == 2 && k == 3 { assert(ms[j][0] != ms[k][0]); }
    if j == 2 && k == 4 { assert(ms[j].len() != ms[k].len()); }
    if j == 2 && k == 5 { assert(ms[j][1] != ms[k][1]); }
    if j == 3 && k == 0 { assert(ms[j].len() != ms[k].len()); }
    if j == 3 && k == 1 { assert(ms[j].len() != ms[k].len()); }
    if j == 3 && k == 2 { assert(ms[j][0] != ms[k][0]); }
    if j == 3 && k == 4 { assert(ms[j].len() != ms[k].len()); }
    if j == 3 && k == 5 { assert(ms[j][0] != ms[k][0]); }
    if j == 4 && k == 0 { assert(ms[j].len() != ms[k].len()); }
    if j == 4 && k == 1 { assert(ms[j].len() != ms[k].len()); }
    if j == 4 && k == 2 { assert(ms[j].len() != ms[k].len()); }
    if j == 4 && k == 3 { assert(ms[j].len() != ms[k].len()); }
    if j == 4 && k == 5 { assert(ms[j].len() != ms[k].len()); }
    if j == 5 && k == 0 { assert(ms[j].len() != ms[k].len()); }
    if j == 5 && k == 1 { assert(ms[j].len() != ms[k].len()); }
    if j == 5 && k == 2 { assert(ms[j][1] != ms[k][1]); }
    if j == 5 && k == 3 { assert(ms[j][0] != ms[k][0]); }
    if j == 5 && k == 4 { assert(ms[j].len() != ms[k].len()); }
}


// ------------------------------------------------- removing whole markers

/// No occurrence of `m` in `x + y` starts inside `x` and runs past its end.
pub open spec fn no_straddle(x: Seq<char>, y: Seq<char>, m: Seq<char>) -> bool {
    forall|p: int|
        0 <= p < x.len() && x.len() < p + m.len() ==> !#[trigger] starts_with((x + y).skip(p), m)
}

/// The character of `s` at `p + q` when `m` occurs in `s` at `p`.
proof fn lemma_occurrence_char(s: Seq<char>, p: int, m: Seq<char>, q: int)
    requires
        0 <= p <= s.len(),
        starts_with(s.skip(p), m),
        0 <= q < m.len(),
    ensures
        m[q] == s[p + q],
{
    assert(s.skip(p).subrange(0, m.len() as int)[q] == m[q]);
}

/// Removing a marker from two texts that no occurrence straddles is
/// removing it from each.
proof fn lemma_strip_concat(x: Seq<char>, y: Seq<char>, m: Seq<char>)
    requires
        m.len() > 0,
        no_straddle(x, y, m),
    ensures
        strip_marker(x + y, m) == strip_marker(x, m) + strip_marker(y, m),
    decreases x.len(),
{
    let xy = x + y;
    if x.len() == 0 {
        assert(xy =~= y);
        assert(strip_marker(x, m) + strip_marker(y, m) =~= strip_marker(y, m));
    } else if starts_with(xy, m) {
        assert(xy.skip(0) =~= xy);
        assert(m.len() <= x.len());
        assert(x.subrange(0, m.len() as int) =~= xy.subrange(0, m.len() as int));
        assert(starts_with(x, m));
        let x2 = x.skip(m.len() as int);
        assert(xy.skip(m.len() as int) =~= x2 + y);
        assert forall|p: int| 0 <= p < x2.len() && x2.len() < p + m.len() implies !#[trigger] starts_with(
            (x2 + y).skip(p),
            m,
        ) by {
            assert((x2 + y).skip(p) =~= xy.skip(p + m.len()));
        }
        lemma_strip_concat(x2, y, m);
    } else {
        if starts_with(x, m) {
            assert(xy.subrange(0, m.len() as int) =~= x.subrange(0, m.len() as int));
        }
        let x1 = x.drop_first();
        assert(xy.drop_first() =~= x1 + y);
        assert(xy[0] == x[0]);
        assert forall|p: int| 0 <= p < x1.len() && x1.len() < p + m.len() implies !#[trigger] starts_with(
            (x1 + y).skip(p),
            m,
        ) by {
            assert((x1 + y).skip(p) =~= xy.skip(p + 1));
        }
        lemma_strip_concat(x1, y, m);
        assert(seq![x[0]] + (strip_marker(x1, m) + strip_marker(y, m)) =~= (seq![x[0]]
            + strip_marker(x1, m)) + strip_marker(y, m));
    }
}

/// Nothing straddles the end of a text that ends in a closing bracket.
proof fn lemma_no_straddle_after_close(x: Seq<char>, y: Seq<char>, m: Seq<char>)
    requires
        bracketed(m),
        x.len() > 0,
        is_close(x[x.len() - 1]),
    ensures
        no_straddle(x, y, m),
{
    assert forall|p: int| 0 <= p < x.len() && x.len() < p + m.len() implies !#[trigger] starts_with(
        (x + y).skip(p),
        m,
    ) by {
        if starts_with((x + y).skip(p), m) {
            let q = x.len() - 1 - p;
            lemma_occurrence_char(x + y, p, m, q);
            assert((x + y)[p + q] == x[x.len() - 1]);
        }
    }
}

/// Nothing starts inside a text none of whose characters opens a marker.
proof fn lemma_no_straddle_without_open(x: Seq<char>, y: Seq<char>, m: Seq<char>)
    requires
        bracketed(m),
        forall|i: int| 0 <= i < x.len() ==> !is_open(#[trigger] x[i]),
    ensures
        no_straddle(x, y, m),
{
    assert forall|p: int| 0 <= p < x.len() && x.len() < p + m.len() implies !#[trigger] starts_with(
        (x + y).skip(p),
        m,
    ) by {
        if starts_with((x + y).skip(p), m) {
            lemma_occurrence_char(x + y, p, m, 0);
            assert((x + y)[p] == x[p]);
        }
    }
}

/// Nothing straddles into a text that starts with a character that does not
/// close followed by an opening bracket.
proof fn lemma_no_straddle_before_open(x: Seq<char>, y: Seq<char>, m: Seq<char>)
    requires
        bracketed(m),
        y.len() >= 2,
        !is_close(y[0]),
        is_open(y[1]),
    ensures
        no_straddle(x, y, m),
{
    assert forall|p: int| 0 <= p < x.len() && x.len() < p + m.len() implies !#[trigger] starts_with(
        (x + y).skip(p),
        m,
    ) by {
        if starts_with((x + y).skip(p), m) {
            let q = x.len() - p;
            lemma_occurrence_char(x + y, p, m, q);
            assert((x + y)[p + q] == y[0]);
            assert(q + 1 < m.len());
            lemma_occurrence_char(x + y, p, m, q + 1);
            assert((x + y)[p + q + 1] == y[1]);
        }
    }
}

/// Nothing straddles into a single final character that does not close.
proof fn lemma_no_straddle_before_last(x: Seq<char>, y: Seq<char>, m: Seq<char>)
    requires
        bracketed(m),
        y.len() == 1,
        !is_close(y[0]),
    ensures
        no_straddle(x, y, m),
{
    assert forall|p: int| 0 <= p < x.len() && x.len() < p + m.len() implies !#[trigger] starts_with(
        (x + y).skip(p),
        m,
    ) by {
        if starts_with((x + y).skip(p), m) {
            let q = m.len() - 1;
            lemma_occurrence_char(x + y, p, m, q);
            assert((x + y)[p + q] == y[0]);
        }
    }
}

/// A marker-shaped text occurs in another only as the whole of it.
proof fn lemma_marker_inside_marker(a: Seq<char>, b: Seq<char>)
    requires
        bracketed(a),
        bracketed(b),
        occurs_in(b, a),
    ensures
        a == b,
{
    let p = choose|p: int| 0 <= p <= b.len() && #[trigger] starts_with(b.skip(p), a);
    lemma_occurrence_char(b, p, a, 0);
    assert(p == 0);
    lemma_occurrence_char(b, p, a, a.len() - 1);
    assert(a.len() == b.len());
    assert(b.skip(0).subrange(0, a.len() as int) =~= b);
}

/// Removing a marker from the marker itself leaves nothing.
proof fn lemma_strip_whole(m: Seq<char>)
    requires
        m.len() > 0,
    ensures
        strip_marker(m, m) == Seq::<char>::empty(),
{
    assert(m.subrange(0, m.len() as int) =~= m);
    assert(starts_with(m, m));
    assert(m.skip(m.len() as int) =~= Seq::<char>::empty());
    assert(strip_marker(Seq::<char>::empty(), m) == Seq::<char>::empty());
    assert(strip_marker(m, m) == strip_marker(m.skip(m.len() as int), m));
}

/// A single space survives the removal of a marker.
proof fn lemma_strip_space(m: Seq<char>)
    requires
        m.len() >= 2,
    ensures
        strip_marker(seq![' '], m) == seq![' '],
{
    let s = seq![' '];
    assert(!starts_with(s, m));
    assert(s.drop_first() =~= Seq::<char>::empty());
    assert(strip_marker(Seq::<char>::empty(), m) == Seq::<char>::empty());
    assert(strip_marker(s, m) == seq![s[0]] + strip_marker(s.drop_first(), m));
    assert(seq![s[0]] + Seq::<char>::empty() =~= s);
}

/// Removing marker `a` from `b + " " + w + " " + b`, where both are
/// marker-shaped and `a` does not occur in `w`: removing it from each of the
/// two copies of `b` and leaving the middle alone.
proof fn lemma_strip_framed(a: Seq<char>, b: Seq<char>, w: Seq<char>)
    requires
        bracketed(a),
        bracketed(b),
        !occurs_in(w, a),
    ensures
        strip_marker(b + seq![' '] + w + seq![' '] + b, a) == strip_marker(b, a) + seq![' '] + w
            + seq![' '] + strip_marker(b, a),
        strip_marker(seq![' '] + w + seq![' '], a) == seq![' '] + w + seq![' '],
{
    let sp = seq![' '];
    let r2 = sp + b;
    let r1 = w + r2;
    let r0 = sp + r1;
    assert(b + sp + w + sp + b =~= b + r0);
    assert forall|i: int| 0 <= i < sp.len() implies !is_open(#[trigger] sp[i]) by {}
    lemma_no_straddle_after_close(b, r0, a);
    lemma_strip_concat(b, r0, a);
    lemma_no_straddle_without_open(sp, r1, a);
    lemma_strip_concat(sp, r1, a);
    assert(r2[0] == ' ' && r2[1] == b[0]);
    lemma_no_straddle_before_open(w, r2, a);
    lemma_strip_concat(w, r2, a);
    lemma_no_straddle_without_open(sp, b, a);
    lemma_strip_concat(sp, b, a);
    lemma_strip_space(a);
    lemma_strip_absent(w, a);
    assert(strip_marker(b, a) + (sp + (w + (sp + strip_marker(b, a)))) =~= strip_marker(b, a) + sp
        + w + sp + strip_marker(b, a));
    let u1 = w + sp;
    assert(sp + w + sp =~= sp + u1);
    lemma_no_straddle_without_open(sp, u1, a);
    lemma_strip_concat(sp, u1, a);
    lemma_no_straddle_before_last(w, sp, a);
    lemma_strip_concat(w, sp, a);
    assert(sp + (w + sp) =~= sp + w + sp);
}

/// Removing markers that each leave `u` alone leaves `u` alone.
proof fn lemma_strip_all_fixed(u: Seq<char>, ms: Seq<Seq<char>>)
    requires
        forall|i: int| 0 <= i < ms.len() ==> strip_marker(u, #[trigger] ms[i]) == u,
    ensures
        strip_all(u, ms) == u,
    decreases ms.len(),
{
    if ms.len() > 0 {
        assert(strip_marker(u, ms[0]) == u);
        let rest = ms.drop_first();
        assert forall|i: int| 0 <= i < rest.len() implies strip_marker(u, #[trigger] rest[i]) == u by {
            assert(rest[i] == ms[i + 1]);
        }
        lemma_strip_all_fixed(u, rest);
    }
}

/// Removing markers each of which leaves `t` alone or turns it into `u`,
/// and each of which leaves `u` alone: `u` when one of them turns `t` into
/// it, `t` otherwise.
proof fn lemma_strip_all_hits(t: Seq<char>, u: Seq<char>, ms: Seq<Seq<char>>)
    requires
        forall|i: int| 0 <= i < ms.len() ==> strip_marker(u, #[trigger] ms[i]) == u,
        forall|i: int|
            0 <= i < ms.len() ==> strip_marker(t, #[trigger] ms[i]) == t || strip_marker(t, ms[i])
                == u,
    ensures
        strip_all(t, ms) == if exists|i: int| 0 <= i < ms.len() && strip_marker(t, #[trigger] ms[i]) == u {
            u
        } else {
            t
        },
    decreases ms.len(),
{
    if ms.len() > 0 {
        let rest = ms.drop_first();
        assert forall|i: int| 0 <= i < rest.len() implies strip_marker(u, #[trigger] rest[i]) == u by {
            assert(rest[i] == ms[i + 1]);
        }
        assert forall|i: int| 0 <= i < rest.len() implies strip_marker(t, #[trigger] rest[i]) == t
            || strip_marker(t, rest[i]) == u by {
            assert(rest[i] == ms[i + 1]);
        }
        if strip_marker(t, ms[0]) == u {
            lemma_strip_all_fixed(u, rest);
        } else {
            lemma_strip_all_hits(t, u, rest);
            if exists|i: int| 0 <= i < ms.len() && strip_marker(t, #[trigger] ms[i]) == u {
                let i = choose|i: int| 0 <= i < ms.len() && strip_marker(t, #[trigger] ms[i]) == u;
                assert(rest[i - 1] == ms[i]);
            }
            if exists|i: int| 0 <= i < rest.len() && strip_marker(t, #[trigger] rest[i]) == u {
                let i = choose|i: int| 0 <= i < rest.len() && strip_marker(t, #[trigger] rest[i]) == u;
                assert(rest[i] == ms[i + 1]);
            }
        }
    }
}

proof fn lemma_leading_word_push_ws(s: Seq<char>, c: char)
    requires
        is_white_space(c),
    ensures
        leading_word(s.push(c)) == leading_word(s),
    decreases s.len(),
{
    let t = s.push(c);
    if s.len() == 0 {
        assert(t[0] == c);
    } else {
        assert(t[0] == s[0]);
        if !is_white_space(s[0]) {
            assert(t.drop_first() =~= s.drop_first().push(c));
            lemma_leading_word_push_ws(s.drop_first(), c);
        }
    }
}

/// A whitespace character at the end adds no word.
proof fn lemma_words_push_ws(s: Seq<char>, c: char)
    requires
        is_white_space(c),
    ensures
        words(s.push(c)) == words(s),
    decreases s.len(),
{
    let t = s.push(c);
    if s.len() == 0 {
        assert(t[0] == c);
        assert(t.drop_first() =~= Seq::<char>::empty());
        assert(words(t) == words(t.drop_first()));
        assert(words(Seq::<char>::empty()) == Seq::<Seq<char>>::empty());
    } else {
        assert(t[0] == s[0]);
        if is_white_space(s[0]) {
            assert(t.drop_first() =~= s.drop_first().push(c));
            lemma_words_push_ws(s.drop_first(), c);
            assert(words(t) == words(t.drop_first()));
            assert(words(s) == words(s.drop_first()));
        } else {
            lemma_leading_word_push_ws(s, c);
            lemma_leading_word_len(s);
            let k = leading_word(s).len() as int;
            assert(t.skip(k) =~= s.skip(k).push(c));
            lemma_words_push_ws(s.skip(k), c);
            assert(words(t) == seq![leading_word(t)] + words(t.skip(leading_word(t).len() as int)));
            assert(words(s) == seq![leading_word(s)] + words(s.skip(k)));
        }
    }
}

/// Every whole occurrence of a noise marker goes, not only the first: a
/// marker, a space, tidy text free of markers, a space and the marker again
/// clean to that text.
pub proof fn lemma_clean_removes_every_marker(k: int, w: Seq<char>)
    requires
        0 <= k < noise_markers().len(),
        is_tidy(w),
        forall|m: int| 0 <= m < noise_markers().len() ==> !occurs_in(w, #[trigger] noise_markers()[m]),
    ensures
        cleaned(noise_markers()[k] + seq![' '] + w + seq![' '] + noise_markers()[k]) == w,
{
    let ms = noise_markers();
    let b = ms[k];
    let sp = seq![' '];
    let t = b + sp + w + sp + b;
    let u = sp + w + sp;
    lemma_markers_bracketed(k);
    assert forall|j: int| 0 <= j < ms.len() implies strip_marker(u, #[trigger] ms[j]) == u && (
    strip_marker(t, ms[j]) == t || strip_marker(t, ms[j]) == u) && (j == k ==> strip_marker(t, ms[j])
        == u) by {
        let a = ms[j];
        lemma_markers_bracketed(j);
        assert(!occurs_in(w, a));
        lemma_strip_framed(a, b, w);
        if j == k {
            lemma_strip_whole(b);
            assert(Seq::<char>::empty() + sp + w + sp + Seq::<char>::empty() =~= u);
        } else {
            lemma_markers_distinct(j, k);
            if occurs_in(b, a) {
                lemma_marker_inside_marker(a, b);
            }
            lemma_strip_absent(b, a);
        }
    }
    lemma_strip_all_hits(t, u, ms);
    assert(strip_marker(t, ms[k]) == u);
    assert(strip_noise(t) == u);
    assert(u == (sp + w).push(' '));
    lemma_words_push_ws(sp + w, ' ');
    assert((sp + w)[0] == ' ');
    assert((sp + w).drop_first() =~= w);
    assert(words(sp + w) == words(w));
    lemma_collapse_tidy(w);
}

// ------------------------------------------------------------ primitives

/// Whether `c` is whitespace: a range test on its code point against the
/// Unicode `White_Space` set, which is what `char::is_whitespace` tests.
fn char_is_whitespace(c: char) -> (b: bool)
    ensures
        b == is_white_space(c),
{
    let v = c as u32;
    (0x9 <= v && v <= 0xd) || v == 0x20 || v == 0x85 || v == 0xa0 || v == 0x1680 || (0x2000 <= v
        && v <= 0x200a) || v == 0x2028 || v == 0x2029 || v == 0x202f || v == 0x205f || v == 0x3000
}

/// `String::push`. The contract claims that `c` is added at the end of `s`
/// and that nothing else about its characters changes.
#[verifier::external_body]
pub(crate) fn push_char(s: &mut String, c: char)
    ensures
        final(s)@ == old(s)@.push(c),
{
    s.push(c);
}

/// A `String` holding exactly the characters of `v`.
fn string_from_chars(v: &Vec<char>) -> (s: String)
    ensures
        s@ == v@,
{
    let mut s = String::new();
    let mut i: usize = 0;
    while i < v.len()
        invariant
            i <= v.len(),
            s@ == v@.take(i as int),
        decreases v.len() - i,
    {
        push_char(&mut s, v[i]);
        i = i + 1;
        assert(s@ =~= v@.take(i as int));
    }
    assert(v@.take(v.len() as int) =~= v@);
    s
}

/// The characters of `s`, in order.
pub fn chars_of(s: &str) -> (v: Vec<char>)
    ensures
        v@ == s@,
{
    let mut v: Vec<char> = Vec::new();
    for c in it: s.chars()
        invariant
            v@ == it.seq().take(it.index() as int),
            it.seq() == s@,
    {
        v.push(c);
    }
    v
}

/// Whether `marker` occurs in `s` at position `at`.
fn matches_at(s: &Vec<char>, at: usize, marker: &Vec<char>) -> (b: bool)
    requires
        at <= s.len(),
    ensures
        b == starts_with(s@.skip(at as int), marker@),
{
    if marker.len() > s.len() - at {
        return false;
    }
    let mut k: usize = 0;
    while k < marker.len()
        invariant
            at + marker.len() <= s.len(),
            k <= marker.len(),
            forall|j: int| 0 <= j < k ==> s@[at + j] == marker@[j],
        decreases marker.len() - k,
    {
        if s[at + k] != marker[k] {
            assert(s@.skip(at as int).subrange(0, marker.len() as int)[k as int] != marker@[k as int]);
            return false;
        }
        k = k + 1;
    }
    assert(s@.skip(at as int).subrange(0, marker@.len() as int) =~= marker@);
    true
}

/// `s` with `marker` removed wherever it occurs.
fn remove_marker(s: &Vec<char>, marker: &Vec<char>) -> (out: Vec<char>)
    ensures
        out@ == strip_marker(s@, marker@),
{
    let mut out: Vec<char> = Vec::new();
    let mut i: usize = 0;
    assert(s@.skip(0) =~= s@);
    assert(out@ + s@ =~= s@);
    while i < s.len()
        invariant
            i <= s.len(),
            strip_marker(s@, marker@) == out@ + strip_marker(s@.skip(i as int), marker@),
        decreases s.len() - i,
    {
        let ghost rest = s@.skip(i as int);
        if marker.len() > 0 && matches_at(s, i, marker) {
            assert(rest.skip(marker@.len() as int) =~= s@.skip(i + marker@.len()));
            i = i + marker.len();
        } else {
            assert(rest.drop_first() =~= s@.skip(i + 1));
            assert(rest[0] == s@[i as int]);
            out.push(s[i]);
            i = i + 1;
            assert(strip_marker(rest, marker@) == seq![rest[0]] + strip_marker(rest.drop_first(), marker@));
        }
    }
    assert(s@.skip(s.len() as int) =~= Seq::<char>::empty());
    assert(out@ + Seq::<char>::empty() =~= out@);
    out
}

/// `s` with its whitespace collapsed to single spaces between words.
fn collapse(s: &Vec<char>) -> (out: Vec<char>)
    ensures
        out@ == collapse_whitespace(s@),
{
    let mut out: Vec<char> = Vec::new();
    let mut i: usize = 0;
    let ghost mut done: Seq<Seq<char>> = seq![];
    assert(s@.skip(0) =~= s@);
    assert(done + words(s@) =~= words(s@));
    while i < s.len()
        invariant
            i <= s.len(),
            words(s@) == done + words(s@.skip(i as int)),
            out@ == join_words(done),
            done.len() > 0 <==> out.len() > 0,
        decreases s.len() - i,
    {
        let ghost rest = s@.skip(i as int);
        assert(rest[0] == s@[i as int]);
        if char_is_whitespace(s[i]) {
            assert(rest.drop_first() =~= s@.skip(i + 1));
            i = i + 1;
        } else {
            let start = i;
            while i < s.len() && !char_is_whitespace(s[i])
                invariant
                    start <= i <= s.len(),
                    forall|j: int| start <= j < i ==> !is_white_space(#[trigger] s@[j]),
                decreases s.len() - i,
            {
                i = i + 1;
            }
            let ghost w = s@.subrange(start as int, i as int);
            proof {
                let k = (i - start) as int;
                assert forall|j: int| 0 <= j < k implies !is_white_space(#[trigger] rest[j]) by {
                    assert(rest[j] == s@[start + j]);
                }
                if k < rest.len() {
                    assert(rest[k] == s@[i as int]);
                }
                lemma_leading_word_is_prefix(rest, k);
                assert(rest.subrange(0, k) =~= w);
                assert(rest.skip(k) =~= s@.skip(i as int));
                lemma_join_push(done, w);
                assert(done + words(rest) =~= done.push(w) + words(s@.skip(i as int)));
            }
            if out.len() > 0 {
                out.push(' ');
            }
            let ghost before = out@;
            let mut j: usize = start;
            while j < i
                invariant
                    start <= j <= i <= s.len(),
                    out@ == before + s@.subrange(start as int, j as int),
                decreases i - j,
            {
                out.push(s[j]);
                j = j + 1;
                assert(out@ =~= before + s@.subrange(start as int, j as int));
            }
            proof {
                assert(w.len() > 0) by {
                    assert(s@[start as int] == w[0]);
                }
                done = done.push(w);
            }
        }
    }
    assert(s@.skip(s.len() as int) =~= Seq::<char>::empty());
    assert(done + Seq::<Seq<char>>::empty() =~= done);
    out
}

/// Whisper's raw output as the user should see it: the noise markers removed
/// and the whitespace collapsed to single spaces between words.
pub fn clean(raw: &str) -> (text: String)
    ensures
        text@ == cleaned(raw@),
{
    let mut chars = chars_of(raw);
    chars = remove_marker(&chars, &chars_of("[BLANK_AUDIO]"));
    chars = remove_marker(&chars, &chars_of("[ Silence ]"));
    chars = remove_marker(&chars, &chars_of("[silence]"));
    chars = remove_marker(&chars, &chars_of("(silence)"));
    chars = remove_marker(&chars, &chars_of("[MUSIC]"));
    chars = remove_marker(&chars, &chars_of("[ Pause ]"));
    proof {
        reveal_with_fuel(strip_all, 7);
    }
    let out = collapse(&chars);
    string_from_chars(&out)
}

} // verus!
