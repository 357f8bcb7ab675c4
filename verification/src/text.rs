//! Text helpers: splitting, trimming, joining and searching, over sequences of characters.
use vstd::prelude::*;

verus! {

/// The characters of every text in a sequence of strings.
pub open spec fn texts(strings: Seq<String>) -> Seq<Seq<char>> {
    strings.map_values(|s: String| s@)
}

/// The characters of an optional text.
pub open spec fn opt_text(text: Option<&str>) -> Option<Seq<char>> {
    match text {
        Some(text) => Some(text@),
        None => None,
    }
}

/// The characters of an optional string.
pub open spec fn opt_string(text: Option<String>) -> Option<Seq<char>> {
    match text {
        Some(text) => Some(text@),
        None => None,
    }
}

/// An optional text is there where the string is, and is the string's.
pub proof fn law_optional_texts(text: &str, string: String)
    ensures
        opt_text(Some(text)) == Some(text@),
        opt_text(None) is None,
        opt_string(Some(string)) == Some(string@),
        opt_string(None) is None,
{
}

/// The texts of strings are those of each string, in order.
pub proof fn law_texts(strings: Seq<String>)
    ensures
        texts(strings).len() == strings.len(),
        forall|i: int| 0 <= i < strings.len() ==> #[trigger] texts(strings)[i] == strings[i]@,
{
}

/// `String::push`: appends one character.
pub assume_specification[ String::push ](s: &mut String, c: char)
    ensures
        final(s)@ == old(s)@.push(c),
;

/// The pieces of a text between separator characters: a separator opens a new, empty piece,
/// any other character extends the last one.
pub open spec fn pieces(s: Seq<char>, separators: Seq<char>) -> Seq<Seq<char>>
    decreases s.len(),
{
    if s.len() == 0 {
        seq![Seq::<char>::empty()]
    } else {
        let before = pieces(s.drop_last(), separators);
        if separators.contains(s.last()) {
            before.push(Seq::<char>::empty())
        } else {
            before.drop_last().push(before.last().push(s.last()))
        }
    }
}

fn contains_char(chars: &[char], c: char) -> (found: bool)
    ensures
        found == chars@.contains(c),
{
    let mut i: usize = 0;
    while i < chars.len()
        invariant
            i <= chars.len(),
            forall|j: int| 0 <= j < i ==> chars@[j] != c,
        decreases chars.len() - i,
    {
        if chars[i] == c {
            return true;
        }
        i += 1;
    }
    false
}

/// Splits a text at every separator character.
pub fn split_at_any(text: &str, separators: &[char]) -> (parts: Vec<String>)
    ensures
        texts(parts@) == pieces(text@, separators@),
{
    let mut parts: Vec<String> = Vec::new();
    let mut last: String = String::new();
    assert(texts(parts@).push(last@) =~= pieces(text@.take(0), separators@));
    for c in it: text.chars()
        invariant
            it.seq() == text@,
            texts(parts@).push(last@) == pieces(text@.take(it.index()), separators@),
    {
        let ghost n = it.index();
        let ghost before = texts(parts@).push(last@);
        assert(text@.take(n + 1).drop_last() =~= text@.take(n));
        if contains_char(separators, c) {
            parts.push(last);
            last = String::new();
            assert(texts(parts@) =~= before);
        } else {
            last.push(c);
            assert(before.drop_last() =~= texts(parts@));
        }
    }
    assert(text@.take(text@.len() as int) =~= text@);
    let ghost before = texts(parts@).push(last@);
    parts.push(last);
    assert(texts(parts@) =~= before);
    parts
}

/// A piece between separators holds none of them, and there is at least one piece.
pub proof fn law_pieces_hold_no_separator(s: Seq<char>, separators: Seq<char>)
    ensures
        pieces(s, separators).len() >= 1,
        forall|i: int, j: int|
            0 <= i < pieces(s, separators).len() && 0 <= j < pieces(s, separators)[i].len()
                ==> !separators.contains(#[trigger] pieces(s, separators)[i][j]),
    decreases s.len(),
{
    if s.len() > 0 {
        law_pieces_hold_no_separator(s.drop_last(), separators);
        let before = pieces(s.drop_last(), separators);
        let all = pieces(s, separators);
        assert forall|i: int, j: int| 0 <= i < all.len() && 0 <= j < all[i].len() implies
            !separators.contains(#[trigger] all[i][j]) by {
            if i < before.len() && j < before[i].len() {
                assert(all[i][j] == before[i][j]);
            }
        }
    }
}

/// A text without separators is its only piece.
pub proof fn law_text_without_separators_is_one_piece(s: Seq<char>, separators: Seq<char>)
    requires
        forall|i: int| 0 <= i < s.len() ==> !separators.contains(#[trigger] s[i]),
    ensures
        pieces(s, separators) == seq![s],
    decreases s.len(),
{
    if s.len() == 0 {
        assert(s =~= Seq::empty());
    } else {
        let before = s.drop_last();
        assert forall|i: int| 0 <= i < before.len() implies !separators.contains(
            #[trigger] before[i],
        ) by {
            assert(before[i] == s[i]);
        }
        law_text_without_separators_is_one_piece(before, separators);
        assert(s.last() == s[s.len() - 1]);
        assert(before.push(s.last()) =~= s);
        assert(pieces(s, separators) =~= seq![s]);
    }
}

/// A separator parts a text: the pieces are those in front of it and then those behind it.
pub proof fn law_separator_parts_pieces(
    front: Seq<char>,
    separator: char,
    back: Seq<char>,
    separators: Seq<char>,
)
    requires
        separators.contains(separator),
    ensures
        pieces(front + seq![separator] + back, separators) == pieces(front, separators) + pieces(
            back,
            separators,
        ),
    decreases back.len(),
{
    let s = front + seq![separator] + back;
    law_pieces_hold_no_separator(back, separators);
    if back.len() == 0 {
        assert(s.drop_last() =~= front);
        assert(pieces(s, separators) =~= pieces(front, separators) + pieces(back, separators));
    } else {
        let less = back.drop_last();
        law_separator_parts_pieces(front, separator, less, separators);
        law_pieces_hold_no_separator(less, separators);
        assert(s.drop_last() =~= front + seq![separator] + less);
        assert(s.last() == back.last());
        assert(pieces(s, separators) =~= pieces(front, separators) + pieces(back, separators));
    }
}

/// Texts put one after another with a separator between each two.
pub open spec fn joined(parts: Seq<Seq<char>>, separator: Seq<char>) -> Seq<char>
    decreases parts.len(),
{
    if parts.len() == 0 {
        Seq::empty()
    } else if parts.len() == 1 {
        parts[0]
    } else {
        joined(parts.drop_last(), separator) + separator + parts.last()
    }
}

/// Nothing joins to nothing, one text to itself, and two lists to what each joins to with the
/// separator between.
pub proof fn law_joined_parts(a: Seq<Seq<char>>, b: Seq<Seq<char>>, separator: Seq<char>)
    ensures
        joined(Seq::empty(), separator) == Seq::<char>::empty(),
        a.len() == 1 ==> joined(a, separator) == a[0],
        a.len() > 0 && b.len() > 0 ==> joined(a + b, separator) == joined(a, separator) + separator
            + joined(b, separator),
    decreases b.len(),
{
    if a.len() > 0 && b.len() > 0 {
        let all = a + b;
        assert(all.last() == b.last());
        if b.len() == 1 {
            assert(all.drop_last() =~= a);
            assert(b[0] == b.last());
        } else {
            law_joined_parts(a, b.drop_last(), separator);
            assert(all.drop_last() =~= a + b.drop_last());
            assert(joined(all, separator) =~= joined(a, separator) + separator + joined(
                b,
                separator,
            ));
        }
    }
}

/// Joining the pieces of a text with the separator it was split at gives the text back.
pub proof fn law_pieces_rejoin(s: Seq<char>, separator: char)
    ensures
        joined(pieces(s, seq![separator]), seq![separator]) == s,
    decreases s.len(),
{
    let separators = seq![separator];
    let all = pieces(s, separators);
    if s.len() == 0 {
        assert(all.len() == 1);
    } else {
        law_pieces_rejoin(s.drop_last(), separator);
        law_pieces_hold_no_separator(s.drop_last(), separators);
        let before = pieces(s.drop_last(), separators);
        assert(s =~= s.drop_last().push(s.last()));
        if separators.contains(s.last()) {
            assert(s.last() == separator);
            assert(all.drop_last() =~= before);
            assert(joined(all, separators) =~= s);
        } else {
            assert(all.drop_last() =~= before.drop_last());
            if before.len() == 1 {
                assert(joined(all, separators) =~= s);
            } else {
                assert(joined(all, separators) =~= joined(before, separators).push(s.last()));
            }
        }
    }
}

/// Joins texts with a separator between each two.
pub fn join_texts(parts: &[String], separator: &str) -> (text: String)
    ensures
        text@ == joined(texts(parts@), separator@),
{
    let mut text: String = String::new();
    let mut i: usize = 0;
    while i < parts.len()
        invariant
            i <= parts.len(),
            text@ == joined(texts(parts@).take(i as int), separator@),
        decreases parts.len() - i,
    {
        let ghost upto = texts(parts@).take(i + 1);
        assert(upto.drop_last() =~= texts(parts@).take(i as int));
        if i > 0 {
            text.append(separator);
        }
        text.append(parts[i].as_str());
        assert(text@ =~= joined(upto, separator@));
        i += 1;
    }
    assert(texts(parts@).take(i as int) =~= texts(parts@));
    text
}

/// The characters with the Unicode property White_Space.
pub open spec fn is_white_space(c: char) -> bool {
    ||| '\u{9}' <= c <= '\u{d}'
    ||| c == '\u{20}'
    ||| c == '\u{85}'
    ||| c == '\u{a0}'
    ||| c == '\u{1680}'
    ||| '\u{2000}' <= c <= '\u{200a}'
    ||| c == '\u{2028}'
    ||| c == '\u{2029}'
    ||| c == '\u{202f}'
    ||| c == '\u{205f}'
    ||| c == '\u{3000}'
}

/// White space is made up of these characters and no others.
pub proof fn law_white_space(c: char)
    ensures
        is_white_space(c) <==> ({
            let n = c as int;
            ||| n == 0x9 || n == 0xa || n == 0xb || n == 0xc || n == 0xd
            ||| n == 0x20 || n == 0x85 || n == 0xa0 || n == 0x1680
            ||| n == 0x2000 || n == 0x2001 || n == 0x2002 || n == 0x2003 || n == 0x2004
            ||| n == 0x2005 || n == 0x2006 || n == 0x2007 || n == 0x2008 || n == 0x2009
            ||| n == 0x200a || n == 0x2028 || n == 0x2029 || n == 0x202f || n == 0x205f
            ||| n == 0x3000
        }),
{
}

/// A text without the white space it begins with.
pub open spec fn trimmed_start(s: Seq<char>) -> Seq<char>
    decreases s.len(),
{
    if s.len() > 0 && is_white_space(s.first()) {
        trimmed_start(s.drop_first())
    } else {
        s
    }
}

/// A text without the white space it ends with.
pub open spec fn trimmed_end(s: Seq<char>) -> Seq<char>
    decreases s.len(),
{
    if s.len() > 0 && is_white_space(s.last()) {
        trimmed_end(s.drop_last())
    } else {
        s
    }
}

/// A text without the white space around it.
pub open spec fn trimmed(s: Seq<char>) -> Seq<char> {
    trimmed_end(trimmed_start(s))
}

/// Whether a text holds white space only.
pub open spec fn is_blank(s: Seq<char>) -> bool {
    forall|i: int| 0 <= i < s.len() ==> is_white_space(#[trigger] s[i])
}

/// Nothing is blank, a character is where it is white space, and two texts together are where both
/// are.
pub proof fn law_blank(a: Seq<char>, b: Seq<char>, c: char)
    ensures
        is_blank(Seq::empty()),
        is_blank(seq![c]) <==> is_white_space(c),
        is_blank(a + b) <==> is_blank(a) && is_blank(b),
{
    assert(seq![c][0] == c);
    if is_blank(a + b) {
        assert forall|i: int| 0 <= i < a.len() implies is_white_space(#[trigger] a[i]) by {
            assert((a + b)[i] == a[i]);
        }
        assert forall|i: int| 0 <= i < b.len() implies is_white_space(#[trigger] b[i]) by {
            assert((a + b)[a.len() + i] == b[i]);
        }
    }
}

proof fn lemma_trimmed_start(s: Seq<char>)
    ensures
        is_blank(s) <==> trimmed_start(s).len() == 0,
        trimmed_start(s).len() > 0 ==> !is_white_space(trimmed_start(s).first()),
        exists|k: int| 0 <= k <= s.len() && trimmed_start(s) == s.skip(k),
    decreases s.len(),
{
    if s.len() > 0 && is_white_space(s.first()) {
        lemma_trimmed_start(s.drop_first());
        let k = choose|k: int|
            0 <= k <= s.drop_first().len() && trimmed_start(s.drop_first()) == s.drop_first().skip(
                k,
            );
        assert(s.drop_first().skip(k) =~= s.skip(k + 1));
        assert forall|i: int| is_blank(s.drop_first()) && 0 <= i < s.len() implies is_white_space(
            #[trigger] s[i],
        ) by {
            if i > 0 {
                assert(s.drop_first()[i - 1] == s[i]);
            }
        }
        assert forall|i: int| is_blank(s) && 0 <= i < s.drop_first().len() implies is_white_space(
            #[trigger] s.drop_first()[i],
        ) by {
            assert(s.drop_first()[i] == s[i + 1]);
        }
    } else {
        assert(s.skip(0) =~= s);
        if s.len() > 0 {
            assert(!is_white_space(s[0]));
        }
    }
}

proof fn lemma_trimmed_end(s: Seq<char>)
    ensures
        is_blank(s) <==> trimmed_end(s).len() == 0,
        trimmed_end(s).len() > 0 ==> !is_white_space(trimmed_end(s).last()) && trimmed_end(
            s,
        ).first() == s.first(),
        trimmed_end(s).len() <= s.len(),
        trimmed_end(s) == s.take(trimmed_end(s).len() as int),
    decreases s.len(),
{
    if s.len() > 0 && is_white_space(s.last()) {
        lemma_trimmed_end(s.drop_last());
        assert(s.drop_last().take(trimmed_end(s).len() as int) =~= s.take(
            trimmed_end(s).len() as int,
        ));
        assert forall|i: int| is_blank(s.drop_last()) && 0 <= i < s.len() implies is_white_space(
            #[trigger] s[i],
        ) by {
            if i < s.len() - 1 {
                assert(s.drop_last()[i] == s[i]);
            }
        }
        assert forall|i: int| is_blank(s) && 0 <= i < s.drop_last().len() implies is_white_space(
            #[trigger] s.drop_last()[i],
        ) by {
            assert(s.drop_last()[i] == s[i]);
        }
    } else {
        assert(s.take(s.len() as int) =~= s);
        if s.len() > 0 {
            assert(!is_white_space(s[s.len() - 1]));
        }
    }
}

/// Trimming leaves a run of the text with no white space at either end; nothing is left exactly
/// when the text is blank; and trimming again changes nothing.
pub proof fn law_trimmed(s: Seq<char>)
    ensures
        trimmed(s).len() == 0 <==> is_blank(s),
        trimmed(s).len() > 0 ==> !is_white_space(trimmed(s).first()) && !is_white_space(
            trimmed(s).last(),
        ),
        exists|from: int, to: int|
            0 <= from <= to <= s.len() && trimmed(s) == #[trigger] s.subrange(from, to),
        trimmed(trimmed(s)) == trimmed(s),
{
    let start = trimmed_start(s);
    lemma_trimmed_start(s);
    lemma_trimmed_end(start);
    let k = choose|k: int| 0 <= k <= s.len() && start == s.skip(k);
    let n = trimmed(s).len();
    assert(start.take(n as int) =~= s.subrange(k, k + n));
    if n == 0 && start.len() > 0 {
        assert(is_white_space(start[0]));
    }
}

proof fn lemma_trims_front(front: Seq<char>, rest: Seq<char>)
    requires
        is_blank(front),
        rest.len() > 0,
        !is_white_space(rest.first()),
    ensures
        trimmed_start(front + rest) == rest,
    decreases front.len(),
{
    if front.len() == 0 {
        assert(front + rest =~= rest);
    } else {
        let less = front.drop_first();
        assert forall|i: int| 0 <= i < less.len() implies is_white_space(#[trigger] less[i]) by {
            assert(less[i] == front[i + 1]);
        }
        lemma_trims_front(less, rest);
        assert((front + rest).first() == front[0]);
        assert((front + rest).drop_first() =~= less + rest);
    }
}

proof fn lemma_trims_back(rest: Seq<char>, back: Seq<char>)
    requires
        is_blank(back),
        rest.len() > 0,
        !is_white_space(rest.last()),
    ensures
        trimmed_end(rest + back) == rest,
    decreases back.len(),
{
    if back.len() == 0 {
        assert(rest + back =~= rest);
    } else {
        let less = back.drop_last();
        assert forall|i: int| 0 <= i < less.len() implies is_white_space(#[trigger] less[i]) by {
            assert(less[i] == back[i]);
        }
        lemma_trims_back(rest, less);
        assert((rest + back).last() == back[back.len() - 1]);
        assert((rest + back).drop_last() =~= rest + less);
    }
}

/// Trimming takes away the white space around a text and nothing else: what stands between is kept
/// whole, with the white space inside it.
pub proof fn law_trims_only_around(front: Seq<char>, core: Seq<char>, back: Seq<char>)
    requires
        is_blank(front),
        is_blank(back),
        core.len() > 0 ==> !is_white_space(core.first()) && !is_white_space(core.last()),
    ensures
        trimmed(front + core + back) == core,
{
    let s = front + core + back;
    if core.len() == 0 {
        law_blank(front, back, ' ');
        assert(s =~= front + back);
        law_trimmed(s);
        assert(trimmed(s) =~= core);
    } else {
        assert(s =~= front + (core + back));
        assert((core + back).first() == core.first());
        lemma_trims_front(front, core + back);
        lemma_trims_back(core, back);
    }
}

/// Tells the characters with the property White_Space.
fn white_space(c: char) -> (yes: bool)
    ensures
        yes == is_white_space(c),
{
    match c {
        '\u{9}'..='\u{d}' => true,
        '\u{20}' | '\u{85}' | '\u{a0}' | '\u{1680}' => true,
        '\u{2000}'..='\u{200a}' => true,
        '\u{2028}' | '\u{2029}' | '\u{202f}' | '\u{205f}' | '\u{3000}' => true,
        _ => false,
    }
}

/// The characters of a text in a vector.
fn characters(text: &str) -> (chars: Vec<char>)
    ensures
        chars@ == text@,
{
    let mut chars: Vec<char> = Vec::new();
    for c in it: text.chars()
        invariant
            it.seq() == text@,
            chars@ == text@.take(it.index()),
    {
        chars.push(c);
        assert(chars@ =~= text@.take(it.index() + 1));
    }
    assert(text@.take(text@.len() as int) =~= text@);
    chars
}

/// Removes the white space around a text.
pub fn trim_text(text: &str) -> (out: String)
    ensures
        out@ == trimmed(text@),
{
    let chars = characters(text);
    let mut from: usize = 0;
    assert(chars@.skip(0) =~= chars@);
    while from < chars.len() && white_space(chars[from])
        invariant
            from <= chars.len(),
            trimmed_start(chars@) == trimmed_start(chars@.skip(from as int)),
        decreases chars.len() - from,
    {
        assert(chars@.skip(from as int).drop_first() =~= chars@.skip(from + 1));
        from += 1;
    }
    let ghost start = chars@.skip(from as int);
    assert(trimmed_start(chars@) == start);
    let mut to: usize = chars.len();
    assert(chars@.subrange(from as int, to as int) =~= start);
    while from < to && white_space(chars[to - 1])
        invariant
            from <= to <= chars.len(),
            trimmed_end(start) == trimmed_end(chars@.subrange(from as int, to as int)),
        decreases to,
    {
        assert(chars@.subrange(from as int, to as int).drop_last() =~= chars@.subrange(
            from as int,
            to - 1,
        ));
        to -= 1;
    }
    let ghost kept = chars@.subrange(from as int, to as int);
    assert(trimmed_end(kept) == kept);
    let mut out: String = String::new();
    let mut i: usize = from;
    while i < to
        invariant
            from <= i <= to <= chars.len(),
            out@ == chars@.subrange(from as int, i as int),
        decreases to - i,
    {
        out.push(chars[i]);
        assert(out@ =~= chars@.subrange(from as int, i + 1));
        i += 1;
    }
    out
}

/// Whether one text occurs in another as a run of consecutive characters.
pub open spec fn occurs_in(needle: Seq<char>, hay: Seq<char>) -> bool {
    exists|i: int|
        0 <= i <= hay.len() - needle.len() && #[trigger] hay.subrange(i, i + needle.len())
            == needle
}

/// A text occurs in another exactly where the other is the text with something in front of it and
/// something behind it.
pub proof fn law_occurs_between(needle: Seq<char>, hay: Seq<char>)
    ensures
        occurs_in(needle, hay) <==> exists|front: Seq<char>, back: Seq<char>|
            hay == #[trigger] (front + needle + back),
{
    if occurs_in(needle, hay) {
        let i = choose|i: int|
            0 <= i <= hay.len() - needle.len() && #[trigger] hay.subrange(i, i + needle.len())
                == needle;
        assert(hay =~= hay.take(i) + needle + hay.skip((i + needle.len()) as int));
    }
    if exists|front: Seq<char>, back: Seq<char>| hay == #[trigger] (front + needle + back) {
        let (front, back) = choose|front: Seq<char>, back: Seq<char>|
            hay == #[trigger] (front + needle + back);
        let i = front.len() as int;
        assert(hay.subrange(i, i + needle.len()) =~= needle);
    }
}

/// Tells whether `needle` stands in `hay` at one place.
fn stands_at(hay: &Vec<char>, needle: &Vec<char>, at: usize) -> (yes: bool)
    requires
        at + needle.len() <= hay.len(),
    ensures
        yes == (hay@.subrange(at as int, at + needle.len()) == needle@),
{
    let mut k: usize = 0;
    while k < needle.len()
        invariant
            k <= needle.len(),
            at + needle.len() <= hay.len(),
            forall|j: int| 0 <= j < k ==> hay@[at + j] == needle@[j],
        decreases needle.len() - k,
    {
        if hay[at + k] != needle[k] {
            assert(hay@.subrange(at as int, at + needle.len())[k as int] != needle@[k as int]);
            return false;
        }
        k += 1;
    }
    assert(hay@.subrange(at as int, at + needle.len()) =~= needle@);
    true
}

/// Looks for one text in another.
pub fn contains_text(hay: &str, needle: &str) -> (found: bool)
    ensures
        found == occurs_in(needle@, hay@),
{
    let whole = characters(hay);
    let part = characters(needle);
    let mut at: usize = 0;
    while part.len() <= whole.len() - at
        invariant
            whole@ == hay@,
            part@ == needle@,
            at <= whole.len(),
            forall|i: int|
                0 <= i < at ==> #[trigger] hay@.subrange(i, i + needle@.len()) != needle@,
        decreases whole.len() - at,
    {
        if stands_at(&whole, &part, at) {
            return true;
        }
        if at == whole.len() {
            return false;
        }
        at += 1;
    }
    false
}

/// A text with every occurrence of one character replaced by another text.
pub open spec fn replaced(s: Seq<char>, from: char, to: Seq<char>) -> Seq<char>
    decreases s.len(),
{
    if s.len() == 0 {
        Seq::empty()
    } else {
        replaced(s.drop_last(), from, to) + if s.last() == from {
            to
        } else {
            seq![s.last()]
        }
    }
}

/// Replaces every occurrence of one character by another text.
pub fn replace_char(text: &str, from: char, to: &str) -> (out: String)
    ensures
        out@ == replaced(text@, from, to@),
{
    let mut out: String = String::new();
    for c in it: text.chars()
        invariant
            it.seq() == text@,
            out@ == replaced(text@.take(it.index()), from, to@),
    {
        assert(text@.take(it.index() + 1).drop_last() =~= text@.take(it.index()));
        let ghost before = out@;
        if c == from {
            out.append(to);
        } else {
            out.push(c);
            assert(out@ =~= before + seq![c]);
        }
    }
    assert(text@.take(text@.len() as int) =~= text@);
    out
}

/// Replacing works character by character: the wanted one becomes the text, any other stays.
pub proof fn law_replaced_parts(
    a: Seq<char>,
    b: Seq<char>,
    c: char,
    from: char,
    to: Seq<char>,
)
    ensures
        replaced(Seq::empty(), from, to) == Seq::<char>::empty(),
        replaced(seq![from], from, to) == to,
        c != from ==> replaced(seq![c], from, to) == seq![c],
        replaced(a + b, from, to) == replaced(a, from, to) + replaced(b, from, to),
    decreases b.len(),
{
    assert(replaced(Seq::empty(), from, to) =~= Seq::empty());
    assert(seq![from].drop_last() =~= Seq::empty());
    assert(replaced(seq![from], from, to) =~= to);
    assert(seq![c].drop_last() =~= Seq::empty());
    if c != from {
        assert(replaced(seq![c], from, to) =~= seq![c]);
    }
    if b.len() == 0 {
        assert(a + b =~= a);
        assert(replaced(a + b, from, to) =~= replaced(a, from, to) + replaced(b, from, to));
    } else {
        law_replaced_parts(a, b.drop_last(), c, from, to);
        assert((a + b).drop_last() =~= a + b.drop_last());
        assert((a + b).last() == b.last());
        assert(replaced(a + b, from, to) =~= replaced(a, from, to) + replaced(b, from, to));
    }
}

/// Replacing a character by a text is splitting at the character and joining with the text.
pub proof fn law_replaced_rejoins(s: Seq<char>, from: char, to: Seq<char>)
    ensures
        replaced(s, from, to) == joined(pieces(s, seq![from]), to),
    decreases s.len(),
{
    let separators = seq![from];
    let all = pieces(s, separators);
    if s.len() > 0 {
        law_replaced_rejoins(s.drop_last(), from, to);
        law_pieces_hold_no_separator(s.drop_last(), separators);
        let before = pieces(s.drop_last(), separators);
        if s.last() == from {
            assert(separators[0] == from);
            assert(separators.contains(s.last()));
            assert(all.drop_last() =~= before);
            assert(joined(all, to) =~= replaced(s, from, to));
        } else {
            assert(!separators.contains(s.last()));
            assert(all.drop_last() =~= before.drop_last());
            assert(joined(all, to) =~= joined(before, to) + seq![s.last()]);
        }
    }
}

/// Replacing a character by a text that lacks it leaves no occurrence of it.
pub proof fn law_replaced_is_free_of_char(s: Seq<char>, from: char, to: Seq<char>)
    requires
        !to.contains(from),
    ensures
        !replaced(s, from, to).contains(from),
    decreases s.len(),
{
    if s.len() > 0 {
        law_replaced_is_free_of_char(s.drop_last(), from, to);
        let head = replaced(s.drop_last(), from, to);
        let all = replaced(s, from, to);
        assert forall|i: int| 0 <= i < all.len() implies all[i] != from by {
            if i < head.len() {
                assert(head.contains(head[i]));
            } else if s.last() == from {
                assert(to.contains(to[i - head.len()]));
            }
        }
    }
}

/// The character of a decimal digit.
pub open spec fn digit_char(d: nat) -> char {
    (d + 48) as char
}

/// The decimal notation of a number, without leading zeros.
pub open spec fn decimal(n: nat) -> Seq<char>
    decreases n,
{
    if n < 10 {
        seq![digit_char(n)]
    } else {
        decimal(n / 10).push(digit_char(n % 10))
    }
}

/// The number that decimal digits stand for.
pub open spec fn number_of(digits: Seq<char>) -> int
    decreases digits.len(),
{
    if digits.len() == 0 {
        0
    } else {
        10 * number_of(digits.drop_last()) + (digits.last() as int - '0' as int)
    }
}

/// The decimal notation of a number is made up of digits, stands for that number, and begins with
/// a zero only where it is nothing else.
pub proof fn law_decimal_stands_for_number(n: nat)
    ensures
        number_of(decimal(n)) == n,
        decimal(n).len() > 0,
        decimal(n).len() > 1 ==> decimal(n).first() != '0',
        forall|i: int| 0 <= i < decimal(n).len() ==> '0' <= #[trigger] decimal(n)[i] <= '9',
    decreases n,
{
    if n < 10 {
        assert(decimal(n).drop_last() =~= Seq::empty());
        assert(number_of(decimal(n).drop_last()) == 0);
    } else {
        law_decimal_stands_for_number(n / 10);
        assert(decimal(n).drop_last() =~= decimal(n / 10));
        assert(decimal(n).first() == decimal(n / 10).first());
        if decimal(n / 10).len() == 1 && decimal(n / 10).first() == '0' {
            assert(decimal(n / 10).drop_last() =~= Seq::empty());
            assert(number_of(decimal(n / 10).drop_last()) == 0);
            assert(n / 10 == 0);
        }
    }
}

/// Writes a number in decimal.
pub fn to_decimal(n: usize) -> (text: String)
    ensures
        text@ == decimal(n as nat),
    decreases n,
{
    let mut text: String = String::new();
    if n >= 10 {
        text = to_decimal(n / 10);
    }
    let digit: u8 = (n % 10) as u8 + 48;
    text.push(digit as char);
    assert(text@ =~= decimal(n as nat));
    text
}

} // verus!
