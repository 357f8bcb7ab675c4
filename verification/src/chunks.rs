//! The texts to embed: cut out of a document, kept as a source file or as JSON, and limited.
use crate::model::BATCH_SIZE;
use crate::text::{
    decimal, is_blank, join_texts, joined, law_decimal_stands_for_number, law_joined_parts,
    law_pieces_hold_no_separator, law_separator_parts_pieces,
    law_text_without_separators_is_one_piece, law_trimmed, number_of, occurs_in, pieces,
    split_at_any, texts, to_decimal, trim_text,
};
use vstd::prelude::*;
use vstd::seq_lib::lemma_flatten_concat;
use vstd::slice::slice_subrange;
use vstd::std_specs::iter::IteratorSpec;

verus! {

/// The most texts that are embedded in a run.
pub const CHUNKS_LIMIT: usize = BATCH_SIZE * 1000;

/// How many characters and texts are shown before a run.
pub const PREVIEW: usize = 20;

/// The characters that separate the segments of a document.
pub open spec fn separators() -> Seq<char> {
    seq![' ', '\n', '\r', '\t']
}

/// The segments of a document: its pieces between separators that are not blank.
pub open spec fn segments_of(document: Seq<char>) -> Seq<Seq<char>> {
    pieces(document, separators()).filter(|s: Seq<char>| !is_blank(s))
}

/// Cuts a document into segments.
pub fn segments(document: &str) -> (kept: Vec<String>)
    ensures
        texts(kept@) == segments_of(document@),
{
    let at: [char; 4] = [' ', '\n', '\r', '\t'];
    let parts = split_at_any(document, &at);
    assert(at@ =~= separators());
    let ghost keep = |s: Seq<char>| !is_blank(s);
    let mut kept: Vec<String> = Vec::new();
    let mut i: usize = 0;
    proof {
        reveal(Seq::filter);
    }
    assert(texts(kept@) =~= texts(parts@).take(0).filter(keep));
    while i < parts.len()
        invariant
            i <= parts.len(),
            keep == (|s: Seq<char>| !is_blank(s)),
            texts(kept@) == texts(parts@).take(i as int).filter(keep),
        decreases parts.len() - i,
    {
        let ghost before = texts(kept@);
        let ghost part = parts@[i as int]@;
        proof {
            reveal(Seq::filter);
            law_trimmed(part);
            assert(texts(parts@).take(i + 1).drop_last() =~= texts(parts@).take(i as int));
        }
        if !trim_text(parts[i].as_str()).as_str().is_empty() {
            kept.push(parts[i].clone());
            assert(texts(kept@) =~= before.push(part));
        }
        i += 1;
    }
    assert(texts(parts@).take(i as int) =~= texts(parts@));
    kept
}

/// The words of a text: the runs between the word boundaries of UAX #29 that hold a letter or a
/// number.
pub uninterp spec fn unicode_words(text: Seq<char>) -> Seq<Seq<char>>;

/// `unicode_segmentation::UnicodeSegmentation::unicode_words`: the words of a text, in order. The
/// list is named; of each word it is claimed that it holds a character and is a run of the text.
#[verifier::external_body]
fn words(text: &str) -> (list: Vec<String>)
    ensures
        texts(list@) == unicode_words(text@),
        forall|i: int|
            0 <= i < list.len() ==> (#[trigger] list@[i])@.len() > 0 && occurs_in(
                list@[i]@,
                text@,
            ),
{
    unicode_segmentation::UnicodeSegmentation::unicode_words(text).map(|w| w.to_string()).collect()
}

/// The texts of every list in a sequence of lists.
pub open spec fn lists(vecs: Seq<Vec<String>>) -> Seq<Seq<Seq<char>>> {
    vecs.map_values(|v: Vec<String>| texts(v@))
}

/// Lists put one after another keep every text, and a list alone stays as it is.
pub proof fn law_flattened_lists(a: Seq<Vec<String>>, b: Seq<Vec<String>>, list: Vec<String>)
    ensures
        lists(seq![list]).flatten() == texts(list@),
        lists(a + b).flatten() == lists(a).flatten() + lists(b).flatten(),
{
    assert(lists(seq![list]) =~= seq![texts(list@)]);
    lists(seq![list]).lemma_flatten_one_element();
    assert(lists(a + b) =~= lists(a) + lists(b));
    lemma_flatten_concat(lists(a), lists(b));
}

/// Puts lists of words one after another.
pub fn flatten_words(vecs: &Vec<Vec<String>>) -> (all: Vec<String>)
    ensures
        texts(all@) == lists(vecs@).flatten(),
{
    let mut all: Vec<String> = Vec::new();
    let mut i: usize = 0;
    while i < vecs.len()
        invariant
            i <= vecs.len(),
            texts(all@) == lists(vecs@).take(i as int).flatten_alt(),
        decreases vecs.len() - i,
    {
        let ghost before = texts(all@);
        let list = &vecs[i];
        let mut j: usize = 0;
        assert(before + texts(list@).take(0) =~= before);
        while j < list.len()
            invariant
                j <= list.len(),
                texts(all@) == before + texts(list@).take(j as int),
            decreases list.len() - j,
        {
            let ghost so_far = texts(all@);
            all.push(list[j].clone());
            assert(texts(all@) =~= so_far.push(list@[j as int]@));
            assert(texts(all@) =~= before + texts(list@).take(j + 1));
            j += 1;
        }
        assert(texts(list@).take(j as int) =~= texts(list@));
        assert(lists(vecs@).take(i + 1).drop_last() =~= lists(vecs@).take(i as int));
        i += 1;
    }
    proof {
        assert(lists(vecs@).take(i as int) =~= lists(vecs@));
        lists(vecs@).lemma_flatten_and_flatten_alt_are_equivalent();
    }
    all
}

/// The texts that a document is cut into: the words of its segments.
pub open spec fn chunks_of(document: Seq<char>) -> Seq<Seq<char>> {
    segments_of(document).map_values(|s: Seq<char>| unicode_words(s)).flatten()
}

/// No word is lost, added or moved where a document is cut at a blank, a line break or a tab: the
/// texts are those of what stands in front of it and then those of what stands behind it, however
/// often a word came before.
pub proof fn law_cut_loses_no_word(front: Seq<char>, separator: char, back: Seq<char>)
    requires
        separator == ' ' || separator == '\n' || separator == '\r' || separator == '\t',
    ensures
        segments_of(front + seq![separator] + back) == segments_of(front) + segments_of(back),
        chunks_of(front + seq![separator] + back) == chunks_of(front) + chunks_of(back),
        chunks_of(front + seq![separator] + back).len() == chunks_of(front).len() + chunks_of(
            back,
        ).len(),
{
    let document = front + seq![separator] + back;
    let at = separators();
    let keep = |s: Seq<char>| !is_blank(s);
    let cut = |s: Seq<char>| unicode_words(s);
    assert(at[0] == ' ' && at[1] == '\n' && at[2] == '\r' && at[3] == '\t');
    assert(at.contains(separator));
    law_separator_parts_pieces(front, separator, back, at);
    Seq::filter_distributes_over_add(pieces(front, at), pieces(back, at), keep);
    let (a, b) = (segments_of(front), segments_of(back));
    assert(segments_of(document) == a + b);
    assert((a + b).map_values(cut) =~= a.map_values(cut) + b.map_values(cut));
    lemma_flatten_concat(a.map_values(cut), b.map_values(cut));
}

/// A document that holds neither a blank nor a line break nor a tab is cut into its words, or into
/// nothing where it holds white space only.
pub proof fn law_segment_is_cut_into_its_words(segment: Seq<char>)
    requires
        forall|i: int|
            #![trigger segment[i]]
            0 <= i < segment.len() ==> segment[i] != ' ' && segment[i] != '\n' && segment[i] != '\r'
                && segment[i] != '\t',
    ensures
        is_blank(segment) ==> segments_of(segment) == Seq::<Seq<char>>::empty(),
        is_blank(segment) ==> chunks_of(segment) == Seq::<Seq<char>>::empty(),
        !is_blank(segment) ==> segments_of(segment) == seq![segment],
        !is_blank(segment) ==> chunks_of(segment) == unicode_words(segment),
{
    let at = separators();
    let keep = |s: Seq<char>| !is_blank(s);
    let cut = |s: Seq<char>| unicode_words(s);
    assert forall|i: int| 0 <= i < segment.len() implies !at.contains(#[trigger] segment[i]) by {
        if at.contains(segment[i]) {
            let k = choose|k: int| 0 <= k < at.len() && at[k] == segment[i];
            assert(k == 0 || k == 1 || k == 2 || k == 3);
        }
    }
    law_text_without_separators_is_one_piece(segment, at);
    let all = seq![segment];
    assert(all.drop_last() =~= Seq::empty());
    assert(all.filter(keep) =~= if is_blank(segment) {
        Seq::empty()
    } else {
        all
    }) by {
        reveal(Seq::filter);
        assert(all.drop_last().filter(keep) =~= Seq::empty());
    }
    let words = segments_of(segment).map_values(cut);
    if is_blank(segment) {
        assert(words =~= Seq::empty());
        assert(chunks_of(segment) =~= Seq::empty());
    } else {
        assert(words =~= seq![unicode_words(segment)]);
        words.lemma_flatten_one_element();
    }
}

/// Whether a text holds a character, and no separator.
pub open spec fn is_solid(text: Seq<char>) -> bool {
    text.len() > 0 && forall|i: int|
        0 <= i < text.len() ==> !separators().contains(#[trigger] text[i])
}

proof fn lemma_flattened_solid(all: Seq<Seq<Seq<char>>>)
    requires
        forall|i: int, j: int|
            0 <= i < all.len() && 0 <= j < all[i].len() ==> is_solid(#[trigger] all[i][j]),
    ensures
        forall|k: int| 0 <= k < all.flatten().len() ==> is_solid(#[trigger] all.flatten()[k]),
    decreases all.len(),
{
    if all.len() > 0 {
        let rest = all.drop_first();
        assert forall|i: int, j: int| 0 <= i < rest.len() && 0 <= j < rest[i].len() implies
            is_solid(#[trigger] rest[i][j]) by {
            assert(rest[i][j] == all[i + 1][j]);
        }
        lemma_flattened_solid(rest);
        assert forall|k: int| 0 <= k < all.flatten().len() implies is_solid(
            #[trigger] all.flatten()[k],
        ) by {
            if k < all.first().len() {
                assert(all.flatten()[k] == all[0][k]);
            } else {
                assert(all.flatten()[k] == rest.flatten()[k - all.first().len()]);
            }
        }
    }
}

proof fn lemma_word_solid(word: Seq<char>, segment: Seq<char>, document: Seq<char>)
    requires
        segments_of(document).contains(segment),
        word.len() > 0,
        occurs_in(word, segment),
    ensures
        is_solid(word),
{
    let all = pieces(document, separators());
    let keep = |s: Seq<char>| !is_blank(s);
    law_pieces_hold_no_separator(document, separators());
    all.lemma_filter_contains_rev(keep, segment);
    let n = choose|n: int| 0 <= n < all.len() && all[n] == segment;
    let at = choose|i: int|
        0 <= i <= segment.len() - word.len() && #[trigger] segment.subrange(i, i + word.len())
            == word;
    assert forall|i: int| 0 <= i < word.len() implies !separators().contains(
        #[trigger] word[i],
    ) by {
        assert(word[i] == segment.subrange(at, at + word.len())[i]);
        assert(word[i] == all[n][at + i]);
    }
}

/// Cuts a document into the texts to embed. No text is empty or holds a separator.
pub fn get_test_chunks(document: &str) -> (chunks: Vec<String>)
    ensures
        texts(chunks@) == chunks_of(document@),
        forall|i: int| 0 <= i < chunks.len() ==> is_solid((#[trigger] chunks@[i])@),
{
    let parts = segments(document);
    let mut vecs: Vec<Vec<String>> = Vec::new();
    let mut i: usize = 0;
    while i < parts.len()
        invariant
            i <= parts.len(),
            vecs.len() == i,
            texts(parts@) == segments_of(document@),
            forall|j: int|
                0 <= j < i ==> texts((#[trigger] vecs@[j])@) == unicode_words(parts@[j]@),
            forall|j: int, k: int|
                0 <= j < i && 0 <= k < vecs@[j].len() ==> is_solid((#[trigger] vecs@[j]@[k])@),
        decreases parts.len() - i,
    {
        let list = words(parts[i].as_str());
        proof {
            let segment = parts@[i as int]@;
            assert(texts(parts@)[i as int] == segment);
            assert forall|k: int| 0 <= k < list.len() implies is_solid(
                (#[trigger] list@[k])@,
            ) by {
                lemma_word_solid(list@[k]@, segment, document@);
            }
        }
        vecs.push(list);
        i += 1;
    }
    let chunks = flatten_words(&vecs);
    proof {
        let all = lists(vecs@);
        assert(all =~= segments_of(document@).map_values(|s: Seq<char>| unicode_words(s))) by {
            assert forall|j: int| 0 <= j < all.len() implies #[trigger] all[j] == unicode_words(
                segments_of(document@)[j],
            ) by {
                assert(texts(vecs@[j]@) == unicode_words(parts@[j]@));
                assert(texts(parts@)[j] == parts@[j]@);
            }
        }
        assert forall|j: int, k: int| 0 <= j < all.len() && 0 <= k < all[j].len() implies is_solid(
            #[trigger] all[j][k],
        ) by {
            assert(all[j][k] == vecs@[j]@[k]@);
        }
        lemma_flattened_solid(all);
        assert forall|k: int| 0 <= k < chunks.len() implies is_solid(
            (#[trigger] chunks@[k])@,
        ) by {
            assert(texts(chunks@)[k] == chunks@[k]@);
        }
    }
    chunks
}

/// A text as a raw string literal.
pub open spec fn raw_literal(text: Seq<char>) -> Seq<char> {
    "r#\""@ + text + "\"#"@
}

/// The entries of the table of texts in a source file.
pub open spec fn table_body(chunks: Seq<Seq<char>>) -> Seq<char> {
    joined(chunks.map_values(|c: Seq<char>| raw_literal(c)), ", "@)
}

/// The source file that holds a table of texts.
pub open spec fn table_source(chunks: Seq<Seq<char>>) -> Seq<char> {
    "pub static CHUNKS: [&str; "@ + decimal(chunks.len()) + "] = ["@ + table_body(chunks) + "];"@
}

/// Writes the source file that holds a table of texts.
pub fn chunks_source(chunks: &[String]) -> (source: String)
    ensures
        source@ == table_source(texts(chunks@)),
{
    let mut entries: Vec<String> = Vec::new();
    let mut i: usize = 0;
    while i < chunks.len()
        invariant
            i <= chunks.len(),
            entries.len() == i,
            forall|j: int| 0 <= j < i ==> (#[trigger] entries@[j])@ == raw_literal(chunks@[j]@),
        decreases chunks.len() - i,
    {
        let mut entry = "r#\"".to_owned();
        entry.append(chunks[i].as_str());
        entry.append("\"#");
        entries.push(entry);
        i += 1;
    }
    assert(texts(entries@) =~= texts(chunks@).map_values(|c: Seq<char>| raw_literal(c)));
    let mut source = "pub static CHUNKS: [&str; ".to_owned();
    source.append(to_decimal(chunks.len()).as_str());
    source.append("] = [");
    source.append(join_texts(entries.as_slice(), ", ").as_str());
    source.append("];");
    source
}

/// A table holds every text whole between the marks of a raw string literal, in order, with a comma
/// and a space between each two; and the file says how many there are.
pub proof fn law_table_holds_every_text(
    a: Seq<Seq<char>>,
    b: Seq<Seq<char>>,
    text: Seq<char>,
)
    ensures
        table_body(Seq::empty()) == Seq::<char>::empty(),
        table_body(seq![text]) == "r#\""@ + text + "\"#"@,
        a.len() > 0 && b.len() > 0 ==> table_body(a + b) == table_body(a) + ", "@ + table_body(b),
        table_source(a) == "pub static CHUNKS: [&str; "@ + decimal(a.len()) + "] = ["@ + table_body(
            a,
        ) + "];"@,
{
    let entry = |c: Seq<char>| raw_literal(c);
    let nothing = Seq::<Seq<char>>::empty();
    assert(nothing.map_values(entry) =~= Seq::empty());
    assert(seq![text].map_values(entry) =~= seq![raw_literal(text)]);
    assert((a + b).map_values(entry) =~= a.map_values(entry) + b.map_values(entry));
    law_joined_parts(nothing, nothing, ", "@);
    law_joined_parts(seq![raw_literal(text)], nothing, ", "@);
    law_joined_parts(a.map_values(entry), b.map_values(entry), ", "@);
}

/// Where a raw string ends that begins before the text: at the first quotation mark followed by a
/// number sign, or nowhere in the text.
pub open spec fn raw_end(s: Seq<char>) -> int
    decreases s.len(),
{
    if s.len() < 2 {
        s.len() as int
    } else if s[0] == '"' && s[1] == '#' {
        0
    } else {
        1 + raw_end(s.drop_first())
    }
}

/// The texts of a list of raw string literals with a comma and a space between each two, read from
/// the left as a compiler reads them, as far as there is such a list.
pub open spec fn raw_strings(s: Seq<char>) -> Seq<Seq<char>>
    decreases s.len(),
{
    if s.len() < 3 || s.take(3) != seq!['r', '#', '"'] {
        Seq::empty()
    } else {
        let rest = s.skip(3);
        let end = raw_end(rest);
        if !(0 <= end <= rest.len() - 2) {
            Seq::empty()
        } else if end + 4 <= rest.len() && rest.subrange(end + 2, end + 4) == seq![',', ' '] {
            seq![rest.take(end)] + raw_strings(rest.skip(end + 4))
        } else {
            seq![rest.take(end)]
        }
    }
}

/// Whether a raw string literal can hold a text: no quotation mark in it is followed by a number
/// sign.
pub open spec fn fits_raw(text: Seq<char>) -> bool {
    forall|i: int| 0 <= i < text.len() - 1 ==> !(#[trigger] text[i] == '"' && text[i + 1] == '#')
}

proof fn lemma_raw_end(text: Seq<char>, after: Seq<char>)
    requires
        fits_raw(text),
    ensures
        raw_end(text + seq!['"', '#'] + after) == text.len(),
    decreases text.len(),
{
    let s = text + seq!['"', '#'] + after;
    if text.len() > 0 {
        let rest = text.drop_first();
        assert forall|i: int| 0 <= i < rest.len() - 1 implies !(#[trigger] rest[i] == '"'
            && rest[i + 1] == '#') by {
            assert(rest[i] == text[i + 1]);
        }
        lemma_raw_end(rest, after);
        assert(s.drop_first() =~= rest + seq!['"', '#'] + after);
        assert(s[0] == text[0]);
        if text.len() > 1 {
            assert(s[1] == text[1]);
        } else {
            assert(s[1] == '"');
        }
    }
}

proof fn lemma_joined_first(parts: Seq<Seq<char>>, separator: Seq<char>)
    requires
        parts.len() >= 2,
    ensures
        joined(parts, separator) == parts.first() + separator + joined(
            parts.drop_first(),
            separator,
        ),
    decreases parts.len(),
{
    if parts.len() == 2 {
        assert(parts.drop_last().len() == 1);
        assert(parts.drop_first().len() == 1);
        assert(joined(parts.drop_last(), separator) == parts[0]);
        assert(joined(parts.drop_first(), separator) == parts[1]);
    } else {
        lemma_joined_first(parts.drop_last(), separator);
        assert(parts.drop_last().drop_first() =~= parts.drop_first().drop_last());
        assert(joined(parts, separator) =~= parts.first() + separator + joined(
            parts.drop_first(),
            separator,
        ));
    }
}

proof fn lemma_raw_literal(text: Seq<char>)
    ensures
        raw_literal(text) == seq!['r', '#', '"'] + text + seq!['"', '#'],
        ", "@ == seq![',', ' '],
{
    reveal_strlit("r#\"");
    reveal_strlit("\"#");
    reveal_strlit(", ");
    assert("r#\""@ =~= seq!['r', '#', '"']);
    assert("\"#"@ =~= seq!['"', '#']);
    assert(", "@ =~= seq![',', ' ']);
}

proof fn lemma_reads_last(text: Seq<char>)
    requires
        fits_raw(text),
    ensures
        raw_strings(seq!['r', '#', '"'] + text + seq!['"', '#']) == seq![text],
{
    let s = seq!['r', '#', '"'] + text + seq!['"', '#'];
    let rest = s.skip(3);
    let nothing = Seq::<char>::empty();
    assert(s.take(3) =~= seq!['r', '#', '"']);
    assert(rest =~= text + seq!['"', '#'] + nothing);
    lemma_raw_end(text, nothing);
    assert(rest.take(text.len() as int) =~= text);
}

proof fn lemma_reads_first(text: Seq<char>, tail: Seq<char>)
    requires
        fits_raw(text),
    ensures
        raw_strings(seq!['r', '#', '"'] + text + seq!['"', '#'] + seq![',', ' '] + tail) == seq![
            text,
        ] + raw_strings(tail),
{
    let s = seq!['r', '#', '"'] + text + seq!['"', '#'] + seq![',', ' '] + tail;
    let rest = s.skip(3);
    let after = seq![',', ' '] + tail;
    let end = text.len() as int;
    assert(s.take(3) =~= seq!['r', '#', '"']);
    assert(rest =~= text + seq!['"', '#'] + after);
    lemma_raw_end(text, after);
    assert(rest.subrange(end + 2, end + 4) =~= seq![',', ' ']);
    assert(rest.take(end) =~= text);
    assert(rest.skip(end + 4) =~= tail);
}

proof fn lemma_table_first(chunks: Seq<Seq<char>>)
    requires
        chunks.len() >= 2,
    ensures
        table_body(chunks) == seq!['r', '#', '"'] + chunks.first() + seq!['"', '#'] + seq![
            ',',
            ' ',
        ] + table_body(chunks.drop_first()),
{
    let entries = chunks.map_values(|c: Seq<char>| raw_literal(c));
    lemma_joined_first(entries, ", "@);
    assert(entries.drop_first() =~= chunks.drop_first().map_values(
        |c: Seq<char>| raw_literal(c),
    ));
    lemma_raw_literal(chunks.first());
}

/// A compiler reads from the entries of a table the texts that the table was made of, where a raw
/// string literal can hold each of them.
pub proof fn law_table_reads_back(chunks: Seq<Seq<char>>)
    requires
        forall|i: int| 0 <= i < chunks.len() ==> fits_raw(#[trigger] chunks[i]),
    ensures
        raw_strings(table_body(chunks)) == chunks,
    decreases chunks.len(),
{
    if chunks.len() == 0 {
        assert(raw_strings(table_body(chunks)) =~= chunks);
    } else if chunks.len() == 1 {
        assert(fits_raw(chunks[0]));
        assert(table_body(chunks) == raw_literal(chunks[0]));
        lemma_raw_literal(chunks[0]);
        lemma_reads_last(chunks[0]);
        assert(raw_strings(table_body(chunks)) =~= chunks);
    } else {
        let others = chunks.drop_first();
        assert(fits_raw(chunks[0]));
        assert forall|i: int| 0 <= i < others.len() implies fits_raw(#[trigger] others[i]) by {
            assert(others[i] == chunks[i + 1]);
        }
        law_table_reads_back(others);
        lemma_table_first(chunks);
        lemma_reads_first(chunks[0], table_body(others));
        assert(seq![chunks[0]] + others =~= chunks);
    }
}

/// Where the first closing bracket of a text stands, or its end.
pub open spec fn closing_bracket(s: Seq<char>) -> int
    decreases s.len(),
{
    if s.len() == 0 || s[0] == ']' {
        0
    } else {
        1 + closing_bracket(s.drop_first())
    }
}

proof fn lemma_closing_bracket(digits: Seq<char>, after: Seq<char>)
    requires
        forall|i: int| 0 <= i < digits.len() ==> #[trigger] digits[i] != ']',
        after.len() > 0,
        after[0] == ']',
    ensures
        closing_bracket(digits + after) == digits.len(),
    decreases digits.len(),
{
    if digits.len() > 0 {
        let less = digits.drop_first();
        assert forall|i: int| 0 <= i < less.len() implies #[trigger] less[i] != ']' by {
            assert(less[i] == digits[i + 1]);
        }
        lemma_closing_bracket(less, after);
        assert((digits + after)[0] == digits[0]);
        assert((digits + after).drop_first() =~= less + after);
    } else {
        assert((digits + after)[0] == ']');
    }
}

/// A compiler reads from the source file of a table the number of its texts and the texts
/// themselves: the number stands in front of the first closing bracket, and the entries between the
/// brackets of the value.
pub proof fn law_source_reads_back(chunks: Seq<Seq<char>>)
    requires
        forall|i: int| 0 <= i < chunks.len() ==> fits_raw(#[trigger] chunks[i]),
    ensures
        ({
            let head = "pub static CHUNKS: [&str; "@;
            let source = table_source(chunks);
            let rest = source.skip(head.len() as int);
            let end = closing_bracket(rest);
            let value = rest.skip(end);
            &&& head.is_prefix_of(source)
            &&& number_of(rest.take(end)) == chunks.len()
            &&& value.take(5) == "] = ["@
            &&& value.skip(value.len() - 2) == "];"@
            &&& raw_strings(value.subrange(5, value.len() - 2)) == chunks
        }),
{
    reveal_strlit("] = [");
    reveal_strlit("];");
    let head = "pub static CHUNKS: [&str; "@;
    let source = table_source(chunks);
    let rest = source.skip(head.len() as int);
    let digits = decimal(chunks.len());
    let body = table_body(chunks);
    let tail = "] = ["@ + body + "];"@;
    law_decimal_stands_for_number(chunks.len());
    assert(rest =~= digits + tail);
    assert(head =~= source.subrange(0, head.len() as int));
    assert(tail[0] == ']');
    lemma_closing_bracket(digits, tail);
    let value = rest.skip(closing_bracket(rest));
    assert(rest.take(digits.len() as int) =~= digits);
    assert(value =~= tail);
    assert(value.take(5) =~= "] = ["@);
    assert(value.skip(value.len() - 2) =~= "];"@);
    assert(value.subrange(5, value.len() - 2) =~= body);
    law_table_reads_back(chunks);
}

/// The texts of a JSON document that is an array of strings; `None` for anything else.
pub uninterp spec fn json_texts(bytes: Seq<u8>) -> Option<Seq<Seq<char>>>;

/// The indented JSON document of an array of strings.
pub uninterp spec fn json_pretty(chunks: Seq<Seq<char>>) -> Seq<u8>;

/// The error of `serde_json`.
#[verifier::external_type_specification]
#[verifier::external_body]
pub struct ExJsonError(serde_json::Error);

/// `serde_json::from_reader` into a list of strings. The result is named; which error comes for a
/// document that is refused is not stated.
#[verifier::external_body]
fn read_json(bytes: &[u8]) -> (read: Result<Vec<String>, serde_json::Error>)
    ensures
        match read {
            Ok(chunks) => json_texts(bytes@) == Some(texts(chunks@)),
            Err(_) => json_texts(bytes@) is None,
        },
{
    serde_json::from_reader(bytes)
}

/// `serde_json::to_writer_pretty` of a list of strings into a vector of bytes. Such a list can be
/// written, the document is named, and it reads back as the same list.
#[verifier::external_body]
fn write_json(chunks: &Vec<String>) -> (written: Result<Vec<u8>, serde_json::Error>)
    ensures
        written is Ok,
        written->Ok_0@ == json_pretty(texts(chunks@)),
        json_texts(written->Ok_0@) == Some(texts(chunks@)),
{
    let mut bytes: Vec<u8> = Vec::new();
    serde_json::to_writer_pretty(&mut bytes, chunks)?;
    Ok(bytes)
}

/// Why a file of texts was refused.
#[derive(Debug)]
pub enum ChunksError {
    /// The file is not a JSON array of strings.
    Malformed(serde_json::Error),
}

/// Reads the texts to embed from the bytes of a JSON file.
pub fn load_chunks(bytes: &[u8]) -> (loaded: Result<Vec<String>, ChunksError>)
    ensures
        match loaded {
            Ok(chunks) => json_texts(bytes@) == Some(texts(chunks@)),
            Err(_) => json_texts(bytes@) is None,
        },
{
    match read_json(bytes) {
        Ok(chunks) => Ok(chunks),
        Err(error) => Err(ChunksError::Malformed(error)),
    }
}

/// Writes the texts to embed as the bytes of a JSON file. `load_chunks` reads the same texts from
/// it.
pub fn dump_chunks(chunks: &Vec<String>) -> (bytes: Vec<u8>)
    ensures
        bytes@ == json_pretty(texts(chunks@)),
        json_texts(bytes@) == Some(texts(chunks@)),
{
    match write_json(chunks) {
        Ok(bytes) => bytes,
        Err(_) => Vec::new(),
    }
}

/// The first `count` elements of a sequence, or all of them where there are fewer.
pub open spec fn at_most<A>(s: Seq<A>, count: nat) -> Seq<A> {
    if s.len() <= count {
        s
    } else {
        s.take(count as int)
    }
}

/// What is kept of a sequence is its beginning, as long as is allowed.
pub proof fn law_at_most_keeps_the_beginning<A>(s: Seq<A>, count: nat)
    ensures
        at_most(s, count).is_prefix_of(s),
        at_most(s, count).len() <= count,
        at_most(s, count).len() == s.len() || at_most(s, count).len() == count,
{
    assert(at_most(s, count) =~= s.subrange(0, at_most(s, count).len() as int));
}

/// A run embeds at most a thousand batches, and shows twenty characters and twenty texts.
pub proof fn law_limits()
    ensures
        CHUNKS_LIMIT == 1000 * BATCH_SIZE,
        CHUNKS_LIMIT == 128_000,
        PREVIEW == 20,
{
}

/// Keeps the texts that a run embeds: the first ones, up to the limit.
pub fn limit_chunks(chunks: &[String]) -> (kept: Vec<String>)
    ensures
        texts(kept@) == at_most(texts(chunks@), CHUNKS_LIMIT as nat),
{
    let mut kept: Vec<String> = Vec::new();
    let mut i: usize = 0;
    while i < chunks.len() && i < CHUNKS_LIMIT
        invariant
            i <= chunks.len(),
            i <= CHUNKS_LIMIT,
            texts(kept@) == texts(chunks@).take(i as int),
        decreases chunks.len() - i,
    {
        let ghost before = texts(kept@);
        kept.push(chunks[i].clone());
        assert(texts(kept@) =~= before.push(chunks@[i as int]@));
        assert(texts(kept@) =~= texts(chunks@).take(i + 1));
        i += 1;
    }
    assert(texts(kept@) =~= at_most(texts(chunks@), CHUNKS_LIMIT as nat));
    kept
}

/// The beginning of a document, as it is shown before a run.
pub fn document_preview(document: &str) -> (shown: String)
    ensures
        shown@ == at_most(document@, PREVIEW as nat),
{
    let mut shown: String = String::new();
    let mut count: usize = 0;
    let mut left = document.chars();
    assert(left.remaining() =~= document@.skip(0));
    while count < PREVIEW
        invariant_except_break
            count <= PREVIEW,
            count <= document@.len(),
            left.remaining() == document@.skip(count as int),
            shown@ == document@.take(count as int),
        ensures
            shown@ == at_most(document@, PREVIEW as nat),
        decreases PREVIEW - count,
    {
        match left.next() {
            Some(c) => {
                let ghost before = shown@;
                shown.push(c);
                assert(shown@ =~= document@.take(count + 1));
                assert(left.remaining() =~= document@.skip(count + 1));
                count += 1;
            },
            None => {
                assert(shown@ =~= document@);
                break;
            },
        }
    }
    shown
}

/// The first texts, one per line, as they are shown before a run. There have to be enough of them.
pub fn chunks_preview(chunks: &[String]) -> (shown: String)
    requires
        chunks.len() >= PREVIEW,
    ensures
        shown@ == joined(texts(chunks@).take(PREVIEW as int), "\n"@),
{
    let first = slice_subrange(chunks, 0, PREVIEW);
    assert(texts(first@) =~= texts(chunks@).take(PREVIEW as int));
    join_texts(first, "\n")
}

} // verus!
