use vstd::prelude::*;
use crate::chars::{is_lower_char, is_upper_char, lower_char};

verus! {

/// The characters that one input character contributes to the hyphenated
/// form, given whether the character before it was a small letter:
/// an underscore becomes a hyphen; a capital letter is folded, preceded by
/// a hyphen exactly when the previous character was a small letter (so runs
/// of capitals, such as an acronym, are not split); anything else is folded
/// unchanged.
pub open spec fn hyph_step(c: char, prev_lower: bool) -> Seq<char> {
    if c == '_' {
        seq!['-']
    } else if is_upper_char(c) && prev_lower {
        seq!['-', lower_char(c)]
    } else {
        seq![lower_char(c)]
    }
}

/// The hyphenated form of the suffix of `s` that starts at `i`, given
/// whether the character before it was a small letter.
pub open spec fn hyph_from(s: Seq<char>, i: int, prev_lower: bool) -> Seq<char>
    decreases s.len() - i,
{
    if i < 0 || i >= s.len() {
        Seq::empty()
    } else {
        hyph_step(s[i], prev_lower) + hyph_from(s, i + 1, is_lower_char(s[i]))
    }
}

/// The lower-case, hyphen-separated form of an identifier that may mix
/// capitalised words and underscores. The first character never receives a
/// leading hyphen. The empty sequence maps to itself.
pub open spec fn hyphenate(s: Seq<char>) -> Seq<char> {
    hyph_from(s, 0, false)
}

/// The class name derived from a file stem and an element name: both are
/// hyphenated and joined with a single hyphen.
pub open spec fn class_name_of(stem: Seq<char>, element: Seq<char>) -> Seq<char> {
    hyphenate(stem) + seq!['-'] + hyphenate(element)
}

/// True when every character of `t` is ASCII.
pub open spec fn all_ascii(t: Seq<char>) -> bool {
    forall|k: int| 0 <= k < t.len() ==> (t[k] as u32) < 128
}

/// True when every character of `t` is ASCII and none is an underscore
/// or a capital letter, so hyphenating `t` leaves it unchanged.
pub open spec fn hyph_inert(t: Seq<char>) -> bool {
    forall|k: int| 0 <= k < t.len() ==> (t[k] as u32) < 128 && t[k] != '_' && !is_upper_char(t[k])
}

proof fn lemma_hyph_from_inert(s: Seq<char>, i: int, prev_lower: bool)
    requires
        all_ascii(s),
    ensures
        hyph_inert(hyph_from(s, i, prev_lower)),
    decreases s.len() - i,
{
    if 0 <= i < s.len() {
        lemma_hyph_from_inert(s, i + 1, is_lower_char(s[i]));
        crate::chars::lemma_lower_char_ascii(s[i]);
        assert forall|k: int| 0 <= k < hyph_from(s, i, prev_lower).len() implies (hyph_from(
            s,
            i,
            prev_lower,
        )[k] as u32) < 128 && hyph_from(s, i, prev_lower)[k] != '_' && !is_upper_char(
            hyph_from(s, i, prev_lower)[k],
        ) by {
            let step = hyph_step(s[i], prev_lower);
            if k >= step.len() {
                assert(hyph_from(s, i, prev_lower)[k] == hyph_from(
                    s,
                    i + 1,
                    is_lower_char(s[i]),
                )[k - step.len()]);
            }
        }
    }
}

proof fn lemma_hyph_from_of_inert(t: Seq<char>, i: int, prev_lower: bool)
    requires
        hyph_inert(t),
        0 <= i <= t.len(),
    ensures
        hyph_from(t, i, prev_lower) == t.subrange(i, t.len() as int),
    decreases t.len() - i,
{
    if i < t.len() {
        lemma_hyph_from_of_inert(t, i + 1, is_lower_char(t[i]));
        crate::chars::lemma_lower_char_ascii(t[i]);
        assert(hyph_from(t, i, prev_lower) =~= t.subrange(i, t.len() as int));
    } else {
        assert(hyph_from(t, i, prev_lower) =~= t.subrange(i, t.len() as int));
    }
}

/// Hyphenation is idempotent on its own output for every sequence of
/// ASCII characters, identifiers included. Beyond ASCII the lower-case
/// mapping is only named, not stated, so nothing is claimed of it here.
pub proof fn lemma_hyphenate_idempotent(s: Seq<char>)
    requires
        all_ascii(s),
    ensures
        hyphenate(hyphenate(s)) == hyphenate(s),
{
    let h = hyphenate(s);
    lemma_hyph_from_inert(s, 0, false);
    lemma_hyph_from_of_inert(h, 0, false);
    assert(h.subrange(0, h.len() as int) =~= h);
}

/// The index of the last occurrence of `c` in `s`, if there is one.
pub open spec fn find_last(s: Seq<char>, c: char) -> Option<int>
    decreases s.len(),
{
    if s.len() == 0 {
        None
    } else if s.last() == c {
        Some(s.len() - 1)
    } else {
        find_last(s.drop_last(), c)
    }
}

/// A path with its trailing separators removed: a path written `"lib/"`
/// names the same entry as `"lib"`.
pub open spec fn drop_trailing_slashes(p: Seq<char>) -> Seq<char>
    decreases p.len(),
{
    if p.len() > 0 && p.last() == '/' {
        drop_trailing_slashes(p.drop_last())
    } else {
        p
    }
}

/// The final segment of a path: everything after the last `'/'`, or the
/// whole path when it holds no `'/'`.
pub open spec fn last_segment(path: Seq<char>) -> Seq<char> {
    match find_last(path, '/') {
        Some(i) => path.subrange(i + 1, path.len() as int),
        None => path,
    }
}

/// A file name without its extension: cut at the last `'.'`, unless that
/// dot is the very first character (a leading dot marks a hidden file, not
/// an extension) or there is no dot at all.
pub open spec fn strip_extension(seg: Seq<char>) -> Seq<char> {
    match find_last(seg, '.') {
        Some(i) => if i > 0 {
            seg.take(i)
        } else {
            seg
        },
        None => seg,
    }
}

/// The stem of a file path: its final segment, trailing separators
/// ignored, with the extension stripped. An empty path, or one made of
/// separators alone, has the empty stem.
pub open spec fn stem_of(path: Seq<char>) -> Seq<char> {
    strip_extension(last_segment(drop_trailing_slashes(path)))
}

/// Extending a sequence by one character moves the last occurrence to that
/// character when it matches, and keeps it otherwise.
pub proof fn lemma_find_last_push(s: Seq<char>, x: char, c: char)
    ensures
        find_last(s.push(x), c) == if x == c {
            Some(s.len() as int)
        } else {
            find_last(s, c)
        },
{
    let t = s.push(x);
    assert(t.last() == x);
    assert(t.drop_last() =~= s);
}

} // verus!
