//! The SKK-JISYO text format: what a text says, and how a dictionary is written.
use crate::order;
use crate::text;
use vstd::prelude::*;

verus! {

/// A candidate word with its annotation.
#[verifier::ext_equal]
pub struct EntryModel {
    pub word: Seq<char>,
    pub annotation: Option<Seq<char>>,
}

/// A dictionary: for each reading its candidates, best first.
pub type DictModel = Map<Seq<char>, Seq<EntryModel>>;

/// Whether a reading is one with okurigana: its last character is an ASCII
/// small letter.
pub open spec fn is_ari(reading: Seq<char>) -> bool {
    reading.len() > 0 && text::is_lower(reading.last())
}

/// The candidate that `word;annotation` or `word` stands for.
pub open spec fn parsed_entry(s: Seq<char>) -> EntryModel {
    let k = text::find(s, ';');
    if k < s.len() {
        EntryModel { word: s.take(k), annotation: Some(s.skip(k + 1)) }
    } else {
        EntryModel { word: s, annotation: None }
    }
}

/// The candidates that the non-empty pieces stand for.
pub open spec fn parsed_entries(pieces: Seq<Seq<char>>) -> Seq<EntryModel>
    decreases pieces.len(),
{
    if pieces.len() == 0 {
        Seq::empty()
    } else if pieces[0].len() == 0 {
        parsed_entries(pieces.drop_first())
    } else {
        seq![parsed_entry(pieces[0])] + parsed_entries(pieces.drop_first())
    }
}

/// The reading and the candidates of a line `reading /candidate/candidate/`;
/// `None` for a line of another shape.
pub open spec fn parsed_line(line: Seq<char>) -> Option<(Seq<char>, Seq<EntryModel>)> {
    let k = text::find(line, ' ');
    let rest = line.skip(k + 1);
    let entries = parsed_entries(text::split(rest.skip(1), '/'));
    if k == line.len() || k == 0 || rest.len() == 0 || rest[0] != '/' || entries.len() == 0 {
        None
    } else {
        Some((line.take(k), entries))
    }
}

/// A dictionary with candidates added behind those that it has for the reading.
pub open spec fn extended(d: DictModel, reading: Seq<char>, entries: Seq<EntryModel>) -> DictModel {
    if d.contains_key(reading) {
        d.insert(reading, d[reading] + entries)
    } else {
        d.insert(reading, entries)
    }
}

/// Whether a trimmed line says nothing: it is empty or a comment.
pub open spec fn is_silent(line: Seq<char>) -> bool {
    line.len() == 0 || text::starts_with(line, seq![';', ';'])
}

/// A dictionary with what one trimmed line says added to it.
pub open spec fn with_line(d: DictModel, line: Seq<char>) -> DictModel {
    if is_silent(line) {
        d
    } else {
        match parsed_line(line) {
            Some((reading, entries)) => extended(d, reading, entries),
            None => d,
        }
    }
}

/// What the lines say, one after the other.
pub open spec fn parsed_lines(lines: Seq<Seq<char>>) -> DictModel
    decreases lines.len(),
{
    if lines.len() == 0 {
        Map::empty()
    } else {
        with_line(parsed_lines(lines.drop_last()), text::trim(lines.last()))
    }
}

/// The dictionary that a text describes.
pub open spec fn parsed(content: Seq<char>) -> DictModel {
    parsed_lines(text::split(content, '\n'))
}

/// A candidate as it stands in a line.
pub open spec fn entry_text(e: EntryModel) -> Seq<char> {
    match e.annotation {
        Some(a) => e.word + seq![';'] + a,
        None => e.word,
    }
}

/// Candidates as they stand in a line, each with a slash behind it.
pub open spec fn entries_text(entries: Seq<EntryModel>) -> Seq<char>
    decreases entries.len(),
{
    if entries.len() == 0 {
        Seq::empty()
    } else {
        entry_text(entries[0]) + seq!['/'] + entries_text(entries.drop_first())
    }
}

/// The line of a reading and its candidates.
pub open spec fn line_text(reading: Seq<char>, entries: Seq<EntryModel>) -> Seq<char> {
    reading + seq![' ', '/'] + entries_text(entries)
}

/// The lines of the given readings.
pub open spec fn lines_text(d: DictModel, readings: Seq<Seq<char>>) -> Seq<Seq<char>> {
    Seq::new(readings.len(), |i: int| line_text(readings[i], d[readings[i]]))
}

/// The readings in the order in which they are written: those with okurigana
/// first, each of the two groups in order.
pub open spec fn written_order(d: DictModel) -> Seq<Seq<char>> {
    order::listing(d.dom().filter(|r: Seq<char>| is_ari(r))) + order::listing(
        d.dom().filter(|r: Seq<char>| !is_ari(r)),
    )
}

/// A dictionary as text: a line for each reading.
pub open spec fn written(d: DictModel) -> Seq<char> {
    text::join(lines_text(d, written_order(d)), '\n')
}

/// A dictionary with a candidate put first for a reading, unless the reading
/// has that word already.
pub open spec fn with_entry(d: DictModel, reading: Seq<char>, e: EntryModel) -> DictModel {
    if !d.contains_key(reading) {
        d.insert(reading, seq![e])
    } else if has_word(d[reading], e.word) {
        d
    } else {
        d.insert(reading, seq![e] + d[reading])
    }
}

/// Whether one of the candidates is `word`.
pub open spec fn has_word(entries: Seq<EntryModel>, word: Seq<char>) -> bool {
    exists|i: int| 0 <= i < entries.len() && (#[trigger] entries[i]).word == word
}

/// Whether a reading can stand in a line: it is not empty, has no space and no
/// line end, and the line does not start with white space or as a comment.
pub open spec fn fit_reading(r: Seq<char>) -> bool {
    &&& r.len() > 0
    &&& !r.contains(' ')
    &&& !r.contains('\n')
    &&& !text::is_white_space(r[0])
    &&& !text::starts_with(r, seq![';', ';'])
}

/// Whether a candidate can stand in a line.
pub open spec fn fit_entry(e: EntryModel) -> bool {
    &&& !e.word.contains('/')
    &&& !e.word.contains(';')
    &&& !e.word.contains('\n')
    &&& match e.annotation {
        Some(a) => !a.contains('/') && !a.contains('\n'),
        None => e.word.len() > 0,
    }
}

/// Whether all of a dictionary can stand in lines.
pub open spec fn fit(d: DictModel) -> bool {
    forall|r: Seq<char>| #[trigger]
        d.contains_key(r) ==> fit_reading(r) && d[r].len() > 0 && forall|i: int|
            0 <= i < d[r].len() ==> fit_entry(#[trigger] d[r][i])
}

/// What is read from a candidate's text is the candidate.
proof fn lemma_entry_read(e: EntryModel)
    requires
        fit_entry(e),
    ensures
        entry_text(e).len() > 0,
        parsed_entry(entry_text(e)) == e,
        !entry_text(e).contains('/'),
        !entry_text(e).contains('\n'),
{
    let s = entry_text(e);
    match e.annotation {
        Some(a) => {
            assert forall|i: int| 0 <= i < e.word.len() implies s[i] != ';' by {
                assert(s[i] == e.word[i]);
            }
            text::lemma_find_is(s, ';', e.word.len() as int);
            assert(s.take(e.word.len() as int) =~= e.word);
            assert(s.skip(e.word.len() + 1int) =~= a);
            assert forall|i: int| 0 <= i < s.len() implies s[i] != '/' && s[i] != '\n' by {
                if i < e.word.len() {
                    assert(s[i] == e.word[i]);
                } else if i > e.word.len() {
                    assert(s[i] == a[i - e.word.len() - 1]);
                }
            }
        },
        None => {
            text::lemma_find(s, ';');
        },
    }
}

/// What is read from the candidates' text is the candidates.
proof fn lemma_entries_read(es: Seq<EntryModel>)
    requires
        forall|i: int| 0 <= i < es.len() ==> fit_entry(#[trigger] es[i]),
    ensures
        parsed_entries(text::split(entries_text(es), '/')) == es,
        !entries_text(es).contains('\n'),
        es.len() > 0 ==> entries_text(es).last() == '/',
    decreases es.len(),
{
    if es.len() == 0 {
        let s = entries_text(es);
        text::lemma_split_none(s, '/');
        let p = text::split(s, '/');
        assert(p[0].len() == 0);
        assert(p.drop_first() =~= Seq::empty());
        assert(parsed_entries(p.drop_first()) =~= es);
    } else {
        let rest = es.drop_first();
        assert forall|i: int| 0 <= i < rest.len() implies fit_entry(#[trigger] rest[i]) by {
            assert(rest[i] == es[i + 1]);
        }
        lemma_entries_read(rest);
        lemma_entry_read(es[0]);
        let a = entry_text(es[0]);
        let b = entries_text(rest);
        text::lemma_split_first(a, b, '/');
        let p = text::split(a + seq!['/'] + b, '/');
        assert(p.drop_first() =~= text::split(b, '/'));
        assert(es =~= seq![es[0]] + rest);
        let s = a + seq!['/'] + b;
        assert forall|i: int| 0 <= i < s.len() implies s[i] != '\n' by {
            if i < a.len() {
                assert(s[i] == a[i]);
            } else if i > a.len() {
                assert(s[i] == b[i - a.len() - 1]);
            }
        }
        if rest.len() == 0 {
            assert(s.last() == '/');
        } else {
            assert(s.last() == b.last());
        }
    }
}

/// What is read from a line is what was written there, and the line is not
/// taken for a comment or changed by trimming.
pub proof fn law_line_read(reading: Seq<char>, entries: Seq<EntryModel>)
    requires
        fit_reading(reading),
        entries.len() > 0,
        forall|i: int| 0 <= i < entries.len() ==> fit_entry(#[trigger] entries[i]),
    ensures
        parsed_line(line_text(reading, entries)) == Some((reading, entries)),
        text::trim(line_text(reading, entries)) == line_text(reading, entries),
        !is_silent(line_text(reading, entries)),
        !line_text(reading, entries).contains('\n'),
{
    let line = line_text(reading, entries);
    let es = entries_text(entries);
    let k = reading.len() as int;
    lemma_entries_read(entries);
    assert forall|i: int| 0 <= i < k implies line[i] != ' ' by {
        assert(line[i] == reading[i]);
    }
    text::lemma_find_is(line, ' ', k);
    assert(line.take(k) =~= reading);
    assert(line.skip(k + 1).skip(1) =~= es);
    assert(line.skip(k + 1)[0] == '/');
    assert(line[0] == reading[0]);
    assert(es.len() > 0);
    assert(line.last() == es.last());
    text::lemma_trim_fixed(line);
    if text::starts_with(line, seq![';', ';']) {
        if reading.len() >= 2 {
            assert(seq![';', ';'][0] == line[0] && seq![';', ';'][1] == line[1]);
            assert(text::starts_with(reading, seq![';', ';']));
        } else {
            assert(line[1] == ' ');
            assert(seq![';', ';'][1] == line[1]);
        }
    }
    assert forall|i: int| 0 <= i < line.len() implies line[i] != '\n' by {
        if i < k {
            assert(line[i] == reading[i]);
        } else if i > k + 1 {
            assert(line[i] == es[i - k - 2]);
        }
    }
}

/// Reading the lines of some readings gives the dictionary of those readings.
proof fn lemma_lines_read(d: DictModel, readings: Seq<Seq<char>>)
    requires
        fit(d),
        order::distinct(readings),
        forall|i: int| 0 <= i < readings.len() ==> d.contains_key(#[trigger] readings[i]),
    ensures
        parsed_lines(lines_text(d, readings)) == d.restrict(readings.to_set()),
    decreases readings.len(),
{
    let lines = lines_text(d, readings);
    if readings.len() == 0 {
        assert(d.restrict(readings.to_set()) =~= Map::empty());
    } else {
        let rest = readings.drop_last();
        let r = readings.last();
        assert(readings[readings.len() - 1] == r);
        assert forall|i: int, j: int| 0 <= i < j < rest.len() implies #[trigger] rest[i]
            != #[trigger] rest[j] by {
            assert(readings[i] != readings[j]);
        }
        assert forall|i: int| 0 <= i < rest.len() implies d.contains_key(#[trigger] rest[i]) by {
            assert(rest[i] == readings[i]);
        }
        lemma_lines_read(d, rest);
        assert(lines.drop_last() =~= lines_text(d, rest));
        law_line_read(r, d[r]);
        let so_far = d.restrict(rest.to_set());
        assert(!rest.contains(r)) by {
            if rest.contains(r) {
                let m = choose|m: int| 0 <= m < rest.len() && rest[m] == r;
                assert(readings[m] == readings[readings.len() - 1]);
            }
        }
        assert(!so_far.contains_key(r));
        assert(readings.to_set() =~= rest.to_set().insert(r)) by {
            assert forall|k: Seq<char>| #[trigger] readings.contains(k) <==> rest.contains(k) || k
                == r by {
                if readings.contains(k) {
                    let m = choose|m: int| 0 <= m < readings.len() && readings[m] == k;
                    if m < rest.len() {
                        assert(rest[m] == k);
                    }
                }
                if rest.contains(k) {
                    let m = choose|m: int| 0 <= m < rest.len() && rest[m] == k;
                    assert(readings[m] == k);
                }
                if k == r {
                    assert(readings[readings.len() - 1] == k);
                }
            }
        }
        assert(so_far.insert(r, d[r]) =~= d.restrict(readings.to_set()));
    }
}

/// The written order holds each reading once and nothing else.
pub proof fn lemma_written_order(d: DictModel)
    requires
        d.dom().finite(),
    ensures
        order::distinct(written_order(d)),
        forall|r: Seq<char>| #[trigger] written_order(d).contains(r) <==> d.contains_key(r),
{
    let ari = d.dom().filter(|r: Seq<char>| is_ari(r));
    let nashi = d.dom().filter(|r: Seq<char>| !is_ari(r));
    order::lemma_listing(ari);
    order::lemma_listing(nashi);
    let a = order::listing(ari);
    let b = order::listing(nashi);
    let all = written_order(d);
    assert forall|i: int, j: int| 0 <= i < j < all.len() implies #[trigger] all[i]
        != #[trigger] all[j] by {
        order::lemma_before_irreflexive(all[i]);
        if j < a.len() {
            assert(order::before(a[i], a[j]));
        } else if i >= a.len() {
            assert(order::before(b[i - a.len()], b[j - a.len()]));
        } else {
            assert(a.contains(a[i]));
            assert(b.contains(b[j - a.len()]));
        }
    }
    assert forall|r: Seq<char>| #[trigger] all.contains(r) <==> d.contains_key(r) by {
        assert(a.contains(r) <==> ari.contains(r));
        assert(b.contains(r) <==> nashi.contains(r));
        if all.contains(r) {
            let m = choose|m: int| 0 <= m < all.len() && all[m] == r;
            if m < a.len() {
                assert(a[m] == r);
            } else {
                assert(b[m - a.len()] == r);
            }
        }
        if a.contains(r) {
            let m = choose|m: int| 0 <= m < a.len() && a[m] == r;
            assert(all[m] == r);
        }
        if b.contains(r) {
            let m = choose|m: int| 0 <= m < b.len() && b[m] == r;
            assert(all[m + a.len()] == r);
        }
    }
}

/// Reading back what was written gives the dictionary that was written, where
/// all of it can stand in lines.
pub proof fn law_round_trip(d: DictModel)
    requires
        d.dom().finite(),
        fit(d),
    ensures
        parsed(written(d)) == d,
{
    let readings = written_order(d);
    let lines = lines_text(d, readings);
    lemma_written_order(d);
    assert forall|i: int| 0 <= i < readings.len() implies d.contains_key(#[trigger] readings[i]) by {
        assert(readings.contains(readings[i]));
    }
    lemma_lines_read(d, readings);
    assert(d.restrict(readings.to_set()) =~= d) by {
        assert forall|k: Seq<char>| d.contains_key(k) implies #[trigger] readings.to_set().contains(
            k,
        ) by {
            assert(readings.contains(k));
        }
    }
    if lines.len() == 0 {
        let s = written(d);
        text::lemma_split_none(s, '\n');
        assert(text::split(s, '\n').drop_last() =~= Seq::empty());
        assert(text::trim(s) =~= s);
        assert(lines =~= Seq::empty());
    } else {
        assert forall|i: int| 0 <= i < lines.len() implies !(#[trigger] lines[i]).contains(
            '\n',
        ) by {
            law_line_read(readings[i], d[readings[i]]);
        }
        text::lemma_split_join(lines, '\n');
    }
}

/// Every candidate of pieces without slash and line end can stand in a line.
proof fn lemma_parsed_entries_fit(pieces: Seq<Seq<char>>)
    requires
        forall|i: int|
            0 <= i < pieces.len() ==> !(#[trigger] pieces[i]).contains('/') && !pieces[i].contains(
                '\n',
            ),
    ensures
        forall|i: int|
            0 <= i < parsed_entries(pieces).len() ==> fit_entry(#[trigger] parsed_entries(pieces)[i]),
    decreases pieces.len(),
{
    if pieces.len() > 0 {
        let rest = pieces.drop_first();
        assert forall|i: int| 0 <= i < rest.len() implies !(#[trigger] rest[i]).contains('/')
            && !rest[i].contains('\n') by {
            assert(rest[i] == pieces[i + 1]);
        }
        lemma_parsed_entries_fit(rest);
        let s = pieces[0];
        if s.len() > 0 {
            let e = parsed_entry(s);
            text::lemma_find(s, ';');
            let k = text::find(s, ';');
            if k < s.len() {
                assert forall|i: int| 0 <= i < e.word.len() implies e.word[i] != '/' && e.word[i]
                    != ';' && e.word[i] != '\n' by {
                    assert(e.word[i] == s[i]);
                }
                let a = e.annotation->0;
                assert forall|i: int| 0 <= i < a.len() implies a[i] != '/' && a[i] != '\n' by {
                    assert(a[i] == s[i + k + 1]);
                }
            }
            assert(!s.contains('/') && !s.contains('\n'));
            assert(fit_entry(e));
            let all = parsed_entries(pieces);
            assert forall|i: int| 0 <= i < all.len() implies fit_entry(#[trigger] all[i]) by {
                if i > 0 {
                    assert(all[i] == parsed_entries(rest)[i - 1]);
                } else {
                    assert(all[0] == e);
                }
            }
        } else {
            assert(parsed_entries(pieces) == parsed_entries(rest));
        }
    }
}

/// What a line says can stand in a line.
proof fn lemma_parsed_line_fit(line: Seq<char>)
    requires
        !is_silent(line),
        !text::is_white_space(line[0]),
        !line.contains('\n'),
    ensures
        match parsed_line(line) {
            Some((r, es)) => fit_reading(r) && es.len() > 0 && forall|i: int|
                0 <= i < es.len() ==> fit_entry(#[trigger] es[i]),
            None => true,
        },
{
    let k = text::find(line, ' ');
    text::lemma_find(line, ' ');
    let rest = line.skip(k + 1);
    if k < line.len() && k > 0 && rest.len() > 0 {
        let r = line.take(k);
        let tail = rest.skip(1);
        assert forall|i: int| 0 <= i < k implies r[i] != ' ' && r[i] != '\n' by {
            assert(r[i] == line[i]);
        }
        assert(r[0] == line[0]);
        if text::starts_with(r, seq![';', ';']) {
            assert(seq![';', ';'][0] == r[0] && seq![';', ';'][1] == r[1]);
            assert(text::starts_with(line, seq![';', ';']));
        }
        let pieces = text::split(tail, '/');
        text::lemma_split_pieces(tail, '/');
        assert forall|i: int| 0 <= i < pieces.len() implies !(#[trigger] pieces[i]).contains('/')
            && !pieces[i].contains('\n') by {
            if pieces[i].contains('\n') {
                assert(tail.contains('\n'));
                let m = choose|m: int| 0 <= m < tail.len() && tail[m] == '\n';
                assert(line[m + k + 2] == '\n');
            }
        }
        lemma_parsed_entries_fit(pieces);
    }
}

proof fn lemma_trim_contains(s: Seq<char>, c: char)
    requires
        !s.contains(c),
    ensures
        !text::trim(s).contains(c),
{
    lemma_trim_start_contains(s, c);
    lemma_trim_end_contains(text::trim_start(s), c);
}

proof fn lemma_trim_start_contains(s: Seq<char>, c: char)
    requires
        !s.contains(c),
    ensures
        !text::trim_start(s).contains(c),
    decreases s.len(),
{
    if s.len() > 0 && text::is_white_space(s[0]) {
        let t = s.drop_first();
        assert forall|i: int| 0 <= i < t.len() implies t[i] != c by {
            assert(t[i] == s[i + 1]);
        }
        lemma_trim_start_contains(t, c);
    }
}

proof fn lemma_trim_end_contains(s: Seq<char>, c: char)
    requires
        !s.contains(c),
    ensures
        !text::trim_end(s).contains(c),
    decreases s.len(),
{
    if s.len() > 0 && text::is_white_space(s.last()) {
        let t = s.drop_last();
        assert forall|i: int| 0 <= i < t.len() implies t[i] != c by {
            assert(t[i] == s[i]);
        }
        lemma_trim_end_contains(t, c);
    }
}

proof fn lemma_parsed_lines_fit(lines: Seq<Seq<char>>)
    requires
        forall|i: int| 0 <= i < lines.len() ==> !(#[trigger] lines[i]).contains('\n'),
    ensures
        fit(parsed_lines(lines)),
        parsed_lines(lines).dom().finite(),
    decreases lines.len(),
{
    if lines.len() > 0 {
        let rest = lines.drop_last();
        assert forall|i: int| 0 <= i < rest.len() implies !(#[trigger] rest[i]).contains('\n') by {
            assert(rest[i] == lines[i]);
        }
        lemma_parsed_lines_fit(rest);
        assert(lines[lines.len() - 1] == lines.last());
        let line = text::trim(lines.last());
        lemma_trim_contains(lines.last(), '\n');
        text::lemma_trim_ends(lines.last());
        if !is_silent(line) {
            lemma_parsed_line_fit(line);
        }
    }
}

/// All of a dictionary that was read from text can stand in lines: writing it
/// and reading it again gives it back.
pub proof fn law_parsed_is_fit(content: Seq<char>)
    ensures
        fit(parsed(content)),
        parsed(content).dom().finite(),
        parsed(written(parsed(content))) == parsed(content),
{
    text::lemma_split_pieces(content, '\n');
    lemma_parsed_lines_fit(text::split(content, '\n'));
    law_round_trip(parsed(content));
}

/// A candidate that can stand in a line, added for a reading that can, leaves a
/// dictionary all of which can.
pub proof fn law_added_is_fit(d: DictModel, reading: Seq<char>, e: EntryModel)
    requires
        fit(d),
        fit_reading(reading),
        fit_entry(e),
    ensures
        fit(with_entry(d, reading, e)),
{
}

/// An added word is among the candidates of its reading, first if it is new
/// there, the others keep their order, and no other reading is touched.
pub proof fn law_added_is_found(d: DictModel, reading: Seq<char>, e: EntryModel)
    ensures
        ({
            let now = with_entry(d, reading, e);
            &&& now.contains_key(reading)
            &&& has_word(now[reading], e.word)
            &&& !d.contains_key(reading) ==> now[reading] == seq![e]
            &&& d.contains_key(reading) && !has_word(d[reading], e.word) ==> now[reading] == seq![e]
                + d[reading]
            &&& d.contains_key(reading) && has_word(d[reading], e.word) ==> now[reading]
                == d[reading]
            &&& forall|r: Seq<char>|
                r != reading ==> (now.contains_key(r) <==> #[trigger] d.contains_key(r)) && (
                d.contains_key(r) ==> now[r] == d[r])
        }),
{
    let now = with_entry(d, reading, e);
    if !d.contains_key(reading) || !has_word(d[reading], e.word) {
        assert(now[reading][0].word == e.word);
    }
}

/// Adding the same word twice is adding it once.
pub proof fn law_added_twice(d: DictModel, reading: Seq<char>, e: EntryModel)
    ensures
        with_entry(with_entry(d, reading, e), reading, e) == with_entry(d, reading, e),
{
    law_added_is_found(d, reading, e);
}

/// The candidates that a dictionary has for a reading.
pub open spec fn candidates_of(d: DictModel, reading: Seq<char>) -> Seq<EntryModel> {
    if d.contains_key(reading) {
        d[reading]
    } else {
        Seq::empty()
    }
}

proof fn lemma_lines_concat(x: Seq<Seq<char>>, y: Seq<Seq<char>>, reading: Seq<char>)
    ensures
        ({
            let d = parsed_lines(x + y);
            let (a, b) = (parsed_lines(x), parsed_lines(y));
            &&& d.contains_key(reading) <==> a.contains_key(reading) || b.contains_key(reading)
            &&& candidates_of(d, reading) == candidates_of(a, reading) + candidates_of(b, reading)
        }),
    decreases y.len(),
{
    let all = x + y;
    let a = parsed_lines(x);
    if y.len() == 0 {
        assert(all =~= x);
        assert(candidates_of(a, reading) + Seq::empty() =~= candidates_of(a, reading));
    } else {
        let rest = y.drop_last();
        lemma_lines_concat(x, rest, reading);
        assert(all.drop_last() =~= x + rest);
        assert(all.last() == y.last());
        let b = parsed_lines(rest);
        let line = text::trim(y.last());
        if !is_silent(line) {
            if let Some((r, es)) = parsed_line(line) {
                if r == reading {
                    assert(candidates_of(a, reading) + candidates_of(b, reading) + es
                        =~= candidates_of(a, reading) + (candidates_of(b, reading) + es));
                    assert(Seq::<EntryModel>::empty() + es =~= es);
                }
            }
        }
    }
}

/// Reading one text, a line end and another gives each reading the candidates
/// of the first and then those of the second.
pub proof fn law_concat(a: Seq<char>, b: Seq<char>, reading: Seq<char>)
    ensures
        ({
            let d = parsed(a + seq!['\n'] + b);
            &&& d.contains_key(reading) <==> parsed(a).contains_key(reading) || parsed(
                b,
            ).contains_key(reading)
            &&& candidates_of(d, reading) == candidates_of(parsed(a), reading) + candidates_of(
                parsed(b),
                reading,
            )
        }),
{
    text::lemma_split_concat(a, b, '\n');
    lemma_lines_concat(text::split(a, '\n'), text::split(b, '\n'), reading);
}

/// A line that says nothing or has another shape changes nothing, wherever it
/// stands.
pub proof fn law_other_lines_ignored(lines: Seq<Seq<char>>, at: int, line: Seq<char>)
    requires
        0 <= at <= lines.len(),
        is_silent(text::trim(line)) || parsed_line(text::trim(line)) is None,
    ensures
        parsed_lines(lines.insert(at, line)) == parsed_lines(lines),
    decreases lines.len(),
{
    let more = lines.insert(at, line);
    if at == lines.len() {
        assert(more.drop_last() =~= lines);
        assert(more.last() == line);
    } else {
        assert(more.drop_last() =~= lines.drop_last().insert(at, line));
        assert(more.last() == lines.last());
        law_other_lines_ignored(lines.drop_last(), at, line);
    }
}

/// The text before the first semicolon of a candidate is the word, and the text
/// behind it, with whatever semicolons it has, is the annotation. Without a
/// semicolon all of it is the word.
pub proof fn law_candidate(word: Seq<char>, annotation: Seq<char>)
    requires
        !word.contains(';'),
    ensures
        parsed_entry(word) == (EntryModel { word, annotation: None }),
        parsed_entry(word + seq![';'] + annotation) == (EntryModel {
            word,
            annotation: Some(annotation),
        }),
{
    let s = word + seq![';'] + annotation;
    text::lemma_find(word, ';');
    assert forall|i: int| 0 <= i < word.len() implies s[i] != ';' by {
        assert(s[i] == word[i]);
    }
    text::lemma_find_is(s, ';', word.len() as int);
    assert(s.take(word.len() as int) =~= word);
    assert(s.skip(word.len() + 1int) =~= annotation);
}

/// The candidates of pieces are those of each piece, in order; a piece is one
/// candidate, and an empty one is none.
pub proof fn law_candidates_of_pieces(a: Seq<Seq<char>>, b: Seq<Seq<char>>, piece: Seq<char>)
    ensures
        parsed_entries(a + b) == parsed_entries(a) + parsed_entries(b),
        parsed_entries(Seq::empty()).len() == 0,
        parsed_entries(seq![piece]) == if piece.len() == 0 {
            Seq::empty()
        } else {
            seq![parsed_entry(piece)]
        },
    decreases a.len(),
{
    if a.len() == 0 {
        assert(a + b =~= b);
        assert(parsed_entries(a) + parsed_entries(b) =~= parsed_entries(b));
    } else {
        law_candidates_of_pieces(a.drop_first(), b, piece);
        assert((a + b).drop_first() =~= a.drop_first() + b);
        if a[0].len() > 0 {
            let e = seq![parsed_entry(a[0])];
            assert(e + (parsed_entries(a.drop_first()) + parsed_entries(b)) =~= e + parsed_entries(
                a.drop_first(),
            ) + parsed_entries(b));
        }
    }
    assert(seq![piece].drop_first() =~= Seq::empty());
    assert(seq![parsed_entry(piece)] + parsed_entries(Seq::empty()) =~= seq![parsed_entry(piece)]);
}

/// A line is a reading, a space, a slash and pieces with slashes between them;
/// it says the candidates of the pieces, where there are some.
pub proof fn law_line(reading: Seq<char>, pieces: Seq<Seq<char>>)
    requires
        reading.len() > 0,
        !reading.contains(' '),
        pieces.len() > 0,
        forall|i: int| 0 <= i < pieces.len() ==> !(#[trigger] pieces[i]).contains('/'),
    ensures
        parsed_line(reading + seq![' ', '/'] + text::join(pieces, '/')) == if parsed_entries(
            pieces,
        ).len() > 0 {
            Some((reading, parsed_entries(pieces)))
        } else {
            None
        },
{
    let rest = text::join(pieces, '/');
    let line = reading + seq![' ', '/'] + rest;
    let k = reading.len() as int;
    assert forall|i: int| 0 <= i < k implies line[i] != ' ' by {
        assert(line[i] == reading[i]);
    }
    text::lemma_find_is(line, ' ', k);
    assert(line.take(k) =~= reading);
    assert(line.skip(k + 1).skip(1) =~= rest);
    assert(line.skip(k + 1)[0] == '/');
    text::lemma_split_join(pieces, '/');
}

/// A line without a space, with a space at its start, or without a slash right
/// behind its first space says nothing.
pub proof fn law_no_line(line: Seq<char>, k: int)
    requires
        0 <= k <= line.len(),
        forall|i: int| 0 <= i < k ==> line[i] != ' ',
        k < line.len() ==> line[k] == ' ',
        k == line.len() || k == 0 || k + 1 == line.len() || line[k + 1] != '/',
    ensures
        parsed_line(line) is None,
{
    text::lemma_find_is(line, ' ', k);
}

/// A text of one line says what the line says once white space is taken off its
/// ends, and nothing where it is then empty or starts with two semicolons.
pub proof fn law_one_line(line: Seq<char>)
    requires
        !line.contains('\n'),
    ensures
        ({
            let t = text::trim(line);
            let comment = t.len() >= 2 && t[0] == ';' && t[1] == ';';
            parsed(line) == if t.len() == 0 || comment {
                Map::<Seq<char>, Seq<EntryModel>>::empty()
            } else {
                match parsed_line(t) {
                    Some((reading, entries)) => map![reading => entries],
                    None => Map::<Seq<char>, Seq<EntryModel>>::empty(),
                }
            }
        }),
{
    let t = text::trim(line);
    let c = seq![';', ';'];
    text::lemma_split_none(line, '\n');
    assert(text::split(line, '\n').drop_last() =~= Seq::empty());
    if t.len() >= 2 && t[0] == ';' && t[1] == ';' {
        assert forall|i: int| 0 <= i < c.len() implies t[i] == c[i] by {}
        assert(text::starts_with(t, c));
    }
    if text::starts_with(t, c) {
        assert(t[0] == c[0] && t[1] == c[1]);
    }
    let none = Map::<Seq<char>, Seq<EntryModel>>::empty();
    assert(parsed_lines(Seq::empty()) == none);
    assert(parsed(line) == with_line(none, t));
    if let Some((reading, entries)) = parsed_line(t) {
        assert(none.insert(reading, entries) =~= map![reading => entries]);
    }
}

/// The readings of a written dictionary stand in order: those with okurigana
/// before those without, each of the two by code points.
pub proof fn law_written(d: DictModel, i: int, j: int)
    requires
        d.dom().finite(),
        0 <= i < j < written_order(d).len(),
    ensures
        ({
            let (a, b) = (written_order(d)[i], written_order(d)[j]);
            let ari = |r: Seq<char>| r.len() > 0 && 'a' <= r.last() <= 'z';
            (ari(a) && !ari(b)) || (ari(a) == ari(b) && order::before(a, b))
        }),
{
    let ari = d.dom().filter(|r: Seq<char>| is_ari(r));
    let nashi = d.dom().filter(|r: Seq<char>| !is_ari(r));
    order::lemma_listing(ari);
    order::lemma_listing(nashi);
    let x = order::listing(ari);
    let y = order::listing(nashi);
    if j < x.len() {
        assert(order::before(x[i], x[j]));
        assert(x.contains(x[i]) && x.contains(x[j]));
    } else if i >= x.len() {
        assert(order::before(y[i - x.len()], y[j - x.len()]));
        assert(y.contains(y[i - x.len()]) && y.contains(y[j - x.len()]));
    } else {
        assert(x.contains(x[i]) && y.contains(y[j - x.len()]));
    }
}

/// A dictionary is written as a line for each reading, in their order.
pub proof fn law_written_text(d: DictModel, i: int)
    requires
        d.dom().finite(),
        fit(d),
        0 <= i < written_order(d).len(),
    ensures
        text::split(written(d), '\n').len() == written_order(d).len(),
        text::split(written(d), '\n')[i] == line_text(
            written_order(d)[i],
            d[written_order(d)[i]],
        ),
{
    let readings = written_order(d);
    let lines = lines_text(d, readings);
    lemma_written_order(d);
    assert forall|k: int| 0 <= k < lines.len() implies !(#[trigger] lines[k]).contains('\n') by {
        assert(readings.contains(readings[k]));
        law_line_read(readings[k], d[readings[k]]);
    }
    text::lemma_split_join(lines, '\n');
}

/// A line is its reading, a space and a slash, and each candidate with a slash
/// behind it, its annotation behind a semicolon.
pub proof fn law_written_line(reading: Seq<char>, entries: Seq<EntryModel>, e: EntryModel)
    ensures
        line_text(reading, Seq::empty()) == reading + seq![' ', '/'],
        line_text(reading, entries.push(e)) == line_text(reading, entries) + e.word + (
        match e.annotation {
            Some(a) => seq![';'] + a,
            None => Seq::empty(),
        }) + seq!['/'],
{
    lemma_entries_text_push(entries, e);
    let tail = match e.annotation {
        Some(a) => seq![';'] + a,
        None => Seq::empty(),
    };
    assert(entry_text(e) =~= e.word + tail);
    assert(line_text(reading, Seq::empty()) =~= reading + seq![' ', '/']);
    assert(line_text(reading, entries.push(e)) =~= line_text(reading, entries) + e.word + tail
        + seq!['/']);
}

proof fn lemma_entries_text_push(entries: Seq<EntryModel>, e: EntryModel)
    ensures
        entries_text(entries.push(e)) == entries_text(entries) + entry_text(e) + seq!['/'],
    decreases entries.len(),
{
    let all = entries.push(e);
    if entries.len() == 0 {
        assert(all.drop_first() =~= Seq::empty());
        assert(all[0] == e);
        assert(entries_text(all.drop_first()) =~= Seq::empty());
        assert(entries_text(all) =~= entries_text(entries) + entry_text(e) + seq!['/']);
    } else {
        lemma_entries_text_push(entries.drop_first(), e);
        assert(all.drop_first() =~= entries.drop_first().push(e));
        assert(all[0] == entries[0]);
        let first = entry_text(entries[0]) + seq!['/'];
        assert(entries_text(all) == first + (entries_text(entries.drop_first()) + entry_text(e)
            + seq!['/']));
        assert(entries_text(all) =~= entries_text(entries) + entry_text(e) + seq!['/']);
    }
}

} // verus!
