//! SKK dictionaries: reading and writing their text, lookup, registration.
use crate::order;
use crate::order::sorted_positions;
use crate::skk_format;
use crate::skk_format::{DictModel, EntryModel};
use crate::text;
use crate::text::{chars_of, concat2, find_char, is_ascii_lower, same_text, string_of, trim_range};
use vstd::hash_map::StringHashMap;
use vstd::prelude::*;

verus! {

/// A candidate word with its annotation.
#[derive(Debug, Clone, PartialEq, Eq)]
pub struct DictEntry {
    pub word: String,
    pub annotation: Option<String>,
}

/// An error of the operating system's file operations.
#[verifier::external_type_specification]
#[verifier::external_body]
pub struct ExIoError(std::io::Error);

/// What can go wrong with a dictionary file.
#[derive(Debug)]
pub enum DictError {
    Io(std::io::Error),
    Encoding(String),
}

/// Readings with their candidates, found by reading.
struct Table {
    readings: Vec<String>,
    entries: Vec<Vec<DictEntry>>,
    index: StringHashMap<usize>,
}

/// An SKK dictionary. Readings with okurigana and those without are held apart.
pub struct Dictionary {
    okuri_nashi: Table,
    okuri_ari: Table,
}

/// Optional text, by its characters.
pub open spec fn option_view(s: Option<String>) -> Option<Seq<char>> {
    match s {
        Some(t) => Some(t@),
        None => None,
    }
}

impl View for DictEntry {
    type V = EntryModel;

    open spec fn view(&self) -> EntryModel {
        EntryModel { word: self.word@, annotation: option_view(self.annotation) }
    }
}

/// Candidates, one for one.
pub open spec fn entry_views(entries: Seq<DictEntry>) -> Seq<EntryModel> {
    Seq::new(entries.len(), |i: int| entries[i]@)
}

/// `Display` of `std::io::Error`: the text depends on the operating system, so
/// nothing is claimed of it.
#[verifier::external_body]
fn io_error_text(e: &std::io::Error) -> (r: String) {
    format!("{}", e)
}

/// The text that `encoding_rs::EUC_JP.decode` makes of bytes, and whether some
/// of them were malformed.
pub uninterp spec fn euc_jp_decoded(bytes: Seq<u8>) -> (Seq<char>, bool);

/// `encoding_rs::EUC_JP.decode`: the decoded text and whether there were
/// malformed sequences, which depend on the bytes alone. It panics where the
/// size of its buffer, a few times the length, would not fit in memory.
#[verifier::external_body]
fn euc_jp_decode(bytes: &[u8]) -> (r: (String, bool))
    requires
        bytes@.len() <= usize::MAX / 16,
    ensures
        (r.0@, r.1) == euc_jp_decoded(bytes@),
{
    let (text, _encoding, had_errors) = encoding_rs::EUC_JP.decode(bytes);
    (text.into_owned(), had_errors)
}

/// `std::str::from_utf8`: the text of bytes that are valid UTF-8, an error for
/// others.
#[verifier::external_body]
fn utf8_decode(bytes: &[u8]) -> (r: Option<String>)
    ensures
        match r {
            Some(s) => vstd::utf8::valid_utf8(bytes@) && s@ == vstd::utf8::decode_utf8(bytes@),
            None => !vstd::utf8::valid_utf8(bytes@),
        },
{
    match std::str::from_utf8(bytes) {
        Ok(s) => Some(s.to_string()),
        Err(_) => None,
    }
}

/// Whether `r` is the answer for text that was decoded as EUC-JP: the text, or
/// an error if some of the bytes were malformed.
pub open spec fn is_accepted(
    text: Seq<char>,
    had_errors: bool,
    r: Result<String, DictError>,
) -> bool {
    if had_errors {
        r matches Err(DictError::Encoding(msg)) && msg@ == "Failed to decode as UTF-8 or EUC-JP"@
    } else {
        r matches Ok(s) && s@ == text
    }
}

/// The answer for text that was decoded as EUC-JP.
pub fn accept_decoded(text: String, had_errors: bool) -> (r: Result<String, DictError>)
    ensures
        is_accepted(text@, had_errors, r),
{
    if had_errors {
        Err(DictError::Encoding("Failed to decode as UTF-8 or EUC-JP".to_string()))
    } else {
        Ok(text)
    }
}

/// The text of a dictionary file: UTF-8 where the bytes are valid UTF-8,
/// EUC-JP otherwise.
pub fn decode_auto(bytes: &[u8]) -> (r: Result<String, DictError>)
    requires
        vstd::utf8::valid_utf8(bytes@) || bytes@.len() <= usize::MAX / 16,
    ensures
        vstd::utf8::valid_utf8(bytes@) ==> (r matches Ok(s) && s@ == vstd::utf8::decode_utf8(
            bytes@,
        )),
        !vstd::utf8::valid_utf8(bytes@) ==> is_accepted(
            euc_jp_decoded(bytes@).0,
            euc_jp_decoded(bytes@).1,
            r,
        ),
{
    if let Some(s) = utf8_decode(bytes) {
        return Ok(s);
    }
    let (text, had_errors) = euc_jp_decode(bytes);
    accept_decoded(text, had_errors)
}

/// What is read back from the UTF-8 bytes of a dictionary's text is the
/// dictionary, where all of it can stand in lines.
pub proof fn law_file_round_trip(d: DictModel)
    requires
        d.dom().finite(),
        skk_format::fit(d),
    ensures
        vstd::utf8::valid_utf8(vstd::utf8::encode_utf8(skk_format::written(d))),
        skk_format::parsed(
            vstd::utf8::decode_utf8(vstd::utf8::encode_utf8(skk_format::written(d))),
        ) == d,
{
    vstd::utf8::encode_utf8_valid_utf8(skk_format::written(d));
    vstd::utf8::encode_utf8_decode_utf8(skk_format::written(d));
    skk_format::law_round_trip(d);
}

/// The message for a file operation that failed with `detail`.
pub fn io_message(detail: &str) -> (r: String)
    ensures
        r@ == "I/O error: "@ + detail@,
{
    concat2("I/O error: ", detail)
}

impl DictError {
    /// The message for the user. What stands behind "I/O error: " is the
    /// operating system's own text.
    pub fn message(&self) -> (r: String)
        ensures
            self matches DictError::Encoding(msg) ==> r@ == "Encoding error: "@ + msg@,
            self is Io ==> text::starts_with(r@, "I/O error: "@),
    {
        match self {
            DictError::Io(e) => io_message(io_error_text(e).as_str()),
            DictError::Encoding(msg) => concat2("Encoding error: ", msg.as_str()),
        }
    }
}

impl From<std::io::Error> for DictError {
    fn from(e: std::io::Error) -> (r: Self) {
        DictError::Io(e)
    }
}

impl vstd::std_specs::convert::FromSpecImpl<std::io::Error> for DictError {
    open spec fn obeys_from_spec() -> bool {
        true
    }

    open spec fn from_spec(e: std::io::Error) -> DictError {
        DictError::Io(e)
    }
}

impl Table {
    spec fn wf(self) -> bool {
        &&& self.readings@.len() == self.entries@.len()
        &&& forall|i: int|
            0 <= i < self.readings@.len() ==> self.index@.contains_key(
                (#[trigger] self.readings@[i])@,
            ) && self.index@[self.readings@[i]@] == i
        &&& forall|k: Seq<char>| #[trigger]
            self.index@.contains_key(k) ==> self.index@[k] < self.readings@.len()
                && self.readings@[self.index@[k] as int]@ == k
        &&& forall|i: int| 0 <= i < self.entries@.len() ==> (#[trigger] self.entries@[i])@.len() > 0
    }

    spec fn model(self) -> DictModel {
        Map::new(
            |k: Seq<char>| self.index@.contains_key(k),
            |k: Seq<char>| entry_views(self.entries@[self.index@[k] as int]@),
        )
    }

    proof fn lemma_distinct(self)
        requires
            self.wf(),
        ensures
            order::distinct(order::views(self.readings@)),
            forall|k: Seq<char>| #[trigger]
                order::views(self.readings@).contains(k) <==> self.model().contains_key(k),
            self.model().dom().finite(),
            self.model().dom().len() == self.readings@.len(),
    {
        let vs = order::views(self.readings@);
        assert forall|i: int, j: int| 0 <= i < j < vs.len() implies #[trigger] vs[i]
            != #[trigger] vs[j] by {
            assert(self.index@[self.readings@[i]@] == i);
            assert(self.index@[self.readings@[j]@] == j);
        }
        assert forall|k: Seq<char>| #[trigger] vs.contains(k) <==> self.model().contains_key(k) by {
            if vs.contains(k) {
                let m = choose|m: int| 0 <= m < vs.len() && vs[m] == k;
                assert(self.index@.contains_key(self.readings@[m]@));
            }
            if self.model().contains_key(k) {
                assert(vs[self.index@[k] as int] == k);
            }
        }
        assert(vs.no_duplicates());
        vs.unique_seq_to_set();
        vstd::seq_lib::seq_to_set_is_finite(vs);
        assert(self.model().dom() =~= vs.to_set());
    }

    fn new() -> (r: Self)
        ensures
            r.wf(),
            r.model() == Map::<Seq<char>, Seq<EntryModel>>::empty(),
    {
        let r = Table { readings: Vec::new(), entries: Vec::new(), index: StringHashMap::new() };
        assert(r.model() =~= Map::empty());
        r
    }

    fn get(&self, reading: &str) -> (r: Option<&[DictEntry]>)
        requires
            self.wf(),
        ensures
            match r {
                Some(es) => self.model().contains_key(reading@) && entry_views(es@)
                    == self.model()[reading@] && es@.len() > 0,
                None => !self.model().contains_key(reading@),
            },
    {
        match self.index.get(reading) {
            Some(i) => Some(self.entries[*i].as_slice()),
            None => None,
        }
    }

    /// Puts a reading that is not there yet behind the others.
    fn append(&mut self, reading: String, new: Vec<DictEntry>)
        requires
            old(self).wf(),
            !old(self).model().contains_key(reading@),
            new@.len() > 0,
        ensures
            final(self).wf(),
            final(self).model() == old(self).model().insert(reading@, entry_views(new@)),
    {
        let n = self.readings.len();
        self.index.insert(reading.clone(), n);
        self.readings.push(reading);
        self.entries.push(new);
        assert(self.wf()) by {
            assert forall|i: int| 0 <= i < self.readings@.len() implies self.index@.contains_key(
                (#[trigger] self.readings@[i])@,
            ) && self.index@[self.readings@[i]@] == i by {
                if i < n {
                    assert(self.readings@[i] == old(self).readings@[i]);
                }
            }
            assert forall|k: Seq<char>| #[trigger] self.index@.contains_key(k) implies self.index@[k]
                < self.readings@.len() && self.readings@[self.index@[k] as int]@ == k by {
                if k != reading@ {
                    assert(old(self).index@.contains_key(k));
                }
            }
            assert forall|i: int| 0 <= i < self.entries@.len() implies (
            #[trigger] self.entries@[i])@.len() > 0 by {
                if i < n {
                    assert(self.entries@[i] == old(self).entries@[i]);
                }
            }
        }
        assert(self.model() =~= old(self).model().insert(reading@, entry_views(new@)));
    }

    /// Replaces the candidates at a position.
    fn replace(&mut self, i: usize, new: Vec<DictEntry>)
        requires
            old(self).wf(),
            i < old(self).readings@.len(),
            new@.len() > 0,
        ensures
            final(self).wf(),
            final(self).model() == old(self).model().insert(
                old(self).readings@[i as int]@,
                entry_views(new@),
            ),
    {
        self.entries.set(i, new);
        assert(self.wf()) by {
            assert forall|j: int| 0 <= j < self.entries@.len() implies (
            #[trigger] self.entries@[j])@.len() > 0 by {
                if j != i {
                    assert(self.entries@[j] == old(self).entries@[j]);
                }
            }
        }
        let ghost now = old(self).model().insert(
            old(self).readings@[i as int]@,
            entry_views(new@),
        );
        assert(old(self).index@.contains_key(old(self).readings@[i as int]@));
        assert forall|k: Seq<char>| #[trigger] now.contains_key(k) implies self.model()[k]
            == now[k] by {
            assert(self.index@.contains_key(k));
            if self.index@[k] == i {
                assert(k == old(self).readings@[i as int]@);
            }
        }
        assert(self.model() =~= now);
    }

    fn extend(&mut self, reading: String, new: Vec<DictEntry>)
        requires
            old(self).wf(),
            new@.len() > 0,
        ensures
            final(self).wf(),
            final(self).model() == skk_format::extended(
                old(self).model(),
                reading@,
                entry_views(new@),
            ),
    {
        let place: Option<usize> = match self.index.get(reading.as_str()) {
            Some(i) => Some(*i),
            None => None,
        };
        match place {
            Some(i) => {
                let all = joined(&self.entries[i], new);
                self.replace(i, all);
            },
            None => {
                self.append(reading, new);
            },
        }
    }

    fn add_first(&mut self, reading: &str, entry: DictEntry)
        requires
            old(self).wf(),
        ensures
            final(self).wf(),
            final(self).model() == skk_format::with_entry(old(self).model(), reading@, entry@),
    {
        let place: Option<usize> = match self.index.get(reading) {
            Some(i) => Some(*i),
            None => None,
        };
        let mut first: Vec<DictEntry> = Vec::new();
        match place {
            Some(i) => {
                if !has_word(&self.entries[i], entry.word.as_str()) {
                    first.push(entry);
                    let ghost one = entry_views(first@);
                    assert(one =~= seq![entry@]);
                    let ghost before = entry_views(self.entries@[i as int]@);
                    let all = joined(&first, copied(&self.entries[i]));
                    assert(entry_views(all@) == one + before);
                    self.replace(i, all);
                }
            },
            None => {
                first.push(entry);
                assert(entry_views(first@) =~= seq![entry@]);
                self.append(reading.to_string(), first);
            },
        }
    }

    /// Puts the lines of the table, in the order of the readings, behind `out`.
    fn push_lines(&self, out: &mut Vec<String>)
        requires
            self.wf(),
        ensures
            order::views(final(out)@) == order::views(old(out)@) + skk_format::lines_text(
                self.model(),
                order::listing(self.model().dom()),
            ),
    {
        proof {
            self.lemma_distinct();
        }
        let perm = sorted_positions(&self.readings, 0, self.readings.len());
        let ghost vs = order::views(self.readings@);
        let ghost keys = order::picked(vs, perm@);
        proof {
            assert forall|k: Seq<char>| #[trigger] keys.contains(k) <==> self.model().dom().contains(
                k,
            ) by {
                assert(vs.contains(k) <==> self.model().contains_key(k));
                if keys.contains(k) {
                    let m = choose|m: int| 0 <= m < keys.len() && keys[m] == k;
                    assert(perm@.contains(perm@[m]));
                    assert(vs[perm@[m] as int] == k);
                }
                if vs.contains(k) {
                    let m = choose|m: int| 0 <= m < vs.len() && vs[m] == k;
                    assert(perm@.contains(m as usize));
                    let n = choose|n: int| 0 <= n < perm@.len() && perm@[n] == m as usize;
                    assert(keys[n] == k);
                }
            }
            order::lemma_listing_is(keys, self.model().dom());
        }
        let ghost lines = skk_format::lines_text(self.model(), keys);
        let ghost start = order::views(out@);
        let mut i: usize = 0;
        assert(lines.take(0) =~= Seq::empty());
        assert(start + lines.take(0) =~= start);
        while i < perm.len()
            invariant
                self.wf(),
                i <= perm@.len(),
                order::covers(perm@, 0, self.readings@.len() as int),
                vs == order::views(self.readings@),
                keys == order::picked(vs, perm@),
                lines == skk_format::lines_text(self.model(), keys),
                order::views(out@) == start + lines.take(i as int),
            decreases perm@.len() - i,
        {
            let p = perm[i];
            assert(perm@.contains(p));
            let line = format_dict_line(self.readings[p].as_str(), self.entries[p].as_slice());
            proof {
                assert(keys[i as int] == self.readings@[p as int]@);
                assert(self.index@[self.readings@[p as int]@] == p);
                assert(line@ == lines[i as int]);
            }
            let ghost before = out@;
            out.push(line);
            i += 1;
            assert(order::views(out@) =~= order::views(before).push(line@));
            assert(lines.take(i as int) =~= lines.take(i - 1).push(line@));
        }
        assert(lines.take(i as int) =~= lines);
    }
}

/// A copy of a candidate.
fn copied_entry(e: &DictEntry) -> (r: DictEntry)
    ensures
        r@ == e@,
{
    DictEntry {
        word: e.word.clone(),
        annotation: match &e.annotation {
            Some(a) => Some(a.clone()),
            None => None,
        },
    }
}

fn copied(es: &Vec<DictEntry>) -> (r: Vec<DictEntry>)
    ensures
        entry_views(r@) == entry_views(es@),
        r@.len() == es@.len(),
{
    let mut out: Vec<DictEntry> = Vec::new();
    let mut i: usize = 0;
    while i < es.len()
        invariant
            i <= es@.len(),
            out@.len() == i,
            forall|k: int| 0 <= k < i ==> (#[trigger] out@[k])@ == es@[k]@,
        decreases es@.len() - i,
    {
        out.push(copied_entry(&es[i]));
        i += 1;
    }
    assert(entry_views(out@) =~= entry_views(es@));
    out
}

/// The candidates `a` and behind them the candidates `b`.
fn joined(a: &Vec<DictEntry>, b: Vec<DictEntry>) -> (r: Vec<DictEntry>)
    ensures
        entry_views(r@) == entry_views(a@) + entry_views(b@),
        r@.len() == a@.len() + b@.len(),
{
    let mut out = copied(a);
    let mut rest = b;
    let ghost front = out@;
    out.append(&mut rest);
    assert(entry_views(out@) =~= entry_views(front) + entry_views(b@));
    out
}

/// Whether one of the candidates is `word`.
pub fn has_word(es: &Vec<DictEntry>, word: &str) -> (r: bool)
    ensures
        r == skk_format::has_word(entry_views(es@), word@),
{
    let ghost vs = entry_views(es@);
    let mut i: usize = 0;
    while i < es.len()
        invariant
            i <= es@.len(),
            vs == entry_views(es@),
            forall|k: int| 0 <= k < i ==> (#[trigger] vs[k]).word != word@,
        decreases es@.len() - i,
    {
        if same_text(es[i].word.as_str(), word) {
            assert(vs[i as int].word == word@);
            return true;
        }
        i += 1;
    }
    false
}

/// The line of a reading and its candidates: `reading /word/word;annotation/`.
pub fn format_dict_line(reading: &str, entries: &[DictEntry]) -> (r: String)
    ensures
        r@ == skk_format::line_text(reading@, entry_views(entries@)),
{
    proof {
        reveal_strlit(" /");
        assert(" /"@ =~= seq![' ', '/']);
    }
    let ghost es = entry_views(entries@);
    let mut line = concat2(reading, " /");
    let mut i: usize = 0;
    assert(es.skip(0) =~= es);
    while i < entries.len()
        invariant
            i <= entries@.len(),
            es == entry_views(entries@),
            skk_format::line_text(reading@, es) == line@ + skk_format::entries_text(
                es.skip(i as int),
            ),
        decreases entries@.len() - i,
    {
        let entry = &entries[i];
        let ghost before = line@;
        let ghost rest = es.skip(i as int);
        line.append(entry.word.as_str());
        if let Some(a) = &entry.annotation {
            line.push(';');
            line.append(a.as_str());
        }
        line.push('/');
        proof {
            assert(rest[0] == entry@);
            assert(rest.drop_first() =~= es.skip(i + 1));
            assert(line@ =~= before + (skk_format::entry_text(entry@) + seq!['/']));
            assert(before + skk_format::entries_text(rest) =~= line@ + skk_format::entries_text(
                es.skip(i + 1),
            ));
        }
        i += 1;
    }
    assert(line@ + skk_format::entries_text(es.skip(i as int)) =~= line@);
    line
}

/// Whether a reading is one with okurigana: its last character is an ASCII
/// small letter.
pub fn is_okuri_ari(reading: &str) -> (r: bool)
    ensures
        r == skk_format::is_ari(reading@),
{
    let chars = chars_of(reading);
    chars.len() > 0 && is_ascii_lower(chars[chars.len() - 1])
}

/// The candidate between two positions.
fn parse_entry(chars: &Vec<char>, from: usize, to: usize) -> (r: DictEntry)
    requires
        from <= to <= chars@.len(),
    ensures
        r@ == skk_format::parsed_entry(chars@.subrange(from as int, to as int)),
{
    let ghost s = chars@.subrange(from as int, to as int);
    let k = find_char(chars, from, to, ';');
    if k < to {
        assert(s.take(k - from) =~= chars@.subrange(from as int, k as int));
        assert(s.skip(k - from + 1) =~= chars@.subrange(k + 1, to as int));
        DictEntry { word: string_of(chars, from, k), annotation: Some(string_of(chars, k + 1, to)) }
    } else {
        DictEntry { word: string_of(chars, from, to), annotation: None }
    }
}

proof fn lemma_parsed_entries_cons(x: Seq<char>, rest: Seq<Seq<char>>)
    ensures
        skk_format::parsed_entries(seq![x] + rest) == (if x.len() == 0 {
            Seq::empty()
        } else {
            seq![skk_format::parsed_entry(x)]
        }) + skk_format::parsed_entries(rest),
{
    assert((seq![x] + rest).drop_first() =~= rest);
    assert(Seq::<EntryModel>::empty() + skk_format::parsed_entries(rest)
        =~= skk_format::parsed_entries(rest));
}

/// The candidates between slashes, from one position up to another.
fn parse_entries(chars: &Vec<char>, from: usize, to: usize) -> (r: Vec<DictEntry>)
    requires
        from <= to <= chars@.len(),
    ensures
        entry_views(r@) == skk_format::parsed_entries(
            text::split(chars@.subrange(from as int, to as int), '/'),
        ),
{
    let ghost all = skk_format::parsed_entries(
        text::split(chars@.subrange(from as int, to as int), '/'),
    );
    let mut out: Vec<DictEntry> = Vec::new();
    let mut a: usize = from;
    let mut more = true;
    assert(entry_views(out@) + all =~= all);
    while more
        invariant
            from <= a <= to <= chars@.len(),
            more ==> all == entry_views(out@) + skk_format::parsed_entries(
                text::split(chars@.subrange(a as int, to as int), '/'),
            ),
            !more ==> all == entry_views(out@),
        decreases to - a + (if more {
            1int
        } else {
            0
        }),
    {
        let ghost s = chars@.subrange(a as int, to as int);
        let ghost before = out@;
        let b = find_char(chars, a, to, '/');
        let ghost piece = chars@.subrange(a as int, b as int);
        if a < b {
            let e = parse_entry(chars, a, b);
            out.push(e);
            assert(entry_views(out@) =~= entry_views(before) + seq![
                skk_format::parsed_entry(piece),
            ]);
        }
        if b == to {
            more = false;
            proof {
                assert(text::split(s, '/') =~= seq![piece] + Seq::empty());
                lemma_parsed_entries_cons(piece, Seq::empty());
                assert(all =~= entry_views(out@));
            }
        } else {
            proof {
                let rest = chars@.subrange(b + 1, to as int);
                assert(s.take(b - a) =~= piece);
                assert(s.skip(b - a + 1) =~= rest);
                lemma_parsed_entries_cons(piece, text::split(rest, '/'));
                assert(all =~= entry_views(out@) + skk_format::parsed_entries(
                    text::split(rest, '/'),
                ));
            }
            a = b + 1;
        }
    }
    out
}

/// The reading and the candidates of the line between two positions.
fn parse_range(chars: &Vec<char>, from: usize, to: usize) -> (r: Option<(String, Vec<DictEntry>)>)
    requires
        from <= to <= chars@.len(),
    ensures
        match r {
            Some((reading, entries)) => skk_format::parsed_line(
                chars@.subrange(from as int, to as int),
            ) == Some((reading@, entry_views(entries@))),
            None => skk_format::parsed_line(chars@.subrange(from as int, to as int)) is None,
        },
{
    let ghost line = chars@.subrange(from as int, to as int);
    let k = find_char(chars, from, to, ' ');
    if k == to || k == from {
        return None;
    }
    assert(line.skip(k - from + 1) =~= chars@.subrange(k + 1, to as int));
    if k + 1 == to || chars[k + 1] != '/' {
        return None;
    }
    assert(line.skip(k - from + 1).skip(1) =~= chars@.subrange(k + 2, to as int));
    let entries = parse_entries(chars, k + 2, to);
    if entries.len() == 0 {
        return None;
    }
    assert(line.take(k - from) =~= chars@.subrange(from as int, k as int));
    Some((string_of(chars, from, k), entries))
}

/// The reading and the candidates of a line `reading /word/word;annotation/`;
/// `None` for a line of another shape.
pub fn parse_line(line: &str) -> (r: Option<(String, Vec<DictEntry>)>)
    ensures
        match r {
            Some((reading, entries)) => skk_format::parsed_line(line@) == Some(
                (reading@, entry_views(entries@)),
            ),
            None => skk_format::parsed_line(line@) is None,
        },
{
    let chars = chars_of(line);
    assert(chars@.subrange(0, chars@.len() as int) =~= chars@);
    parse_range(&chars, 0, chars.len())
}

impl View for Dictionary {
    type V = DictModel;

    closed spec fn view(&self) -> DictModel {
        self.okuri_nashi.model().union_prefer_right(self.okuri_ari.model())
    }
}

/// The readings with okurigana, or those without.
pub open spec fn part(d: DictModel, ari: bool) -> DictModel {
    d.restrict(d.dom().filter(|r: Seq<char>| skk_format::is_ari(r) == ari))
}

/// Every reading is counted once: with okurigana or without.
pub proof fn law_counts(d: DictModel)
    requires
        d.dom().finite(),
    ensures
        part(d, true).dom().len() + part(d, false).dom().len() == d.dom().len(),
{
    let a = part(d, true).dom();
    let n = part(d, false).dom();
    assert(a.disjoint(n));
    assert(a.subset_of(d.dom()) && n.subset_of(d.dom()));
    vstd::set_lib::lemma_len_subset(a, d.dom());
    vstd::set_lib::lemma_len_subset(n, d.dom());
    vstd::set_lib::lemma_set_disjoint_lens(a, n);
    assert(d.dom() =~= a + n);
}

impl Dictionary {
    #[verifier::type_invariant]
    spec fn wf(self) -> bool {
        &&& self.okuri_nashi.wf()
        &&& self.okuri_ari.wf()
        &&& forall|k: Seq<char>| #[trigger]
            self.okuri_nashi.model().contains_key(k) ==> !skk_format::is_ari(k)
        &&& forall|k: Seq<char>| #[trigger]
            self.okuri_ari.model().contains_key(k) ==> skk_format::is_ari(k)
    }

    /// An empty dictionary.
    pub fn new() -> (r: Self)
        ensures
            r@ == Map::<Seq<char>, Seq<EntryModel>>::empty(),
    {
        let r = Dictionary { okuri_nashi: Table::new(), okuri_ari: Table::new() };
        assert(r@ =~= Map::empty());
        r
    }

    fn extend(&mut self, reading: String, entries: Vec<DictEntry>)
        requires
            entries@.len() > 0,
        ensures
            final(self)@ == skk_format::extended(old(self)@, reading@, entry_views(entries@)),
    {
        proof {
            use_type_invariant(&*self);
        }
        let mut table = Table::new();
        if is_okuri_ari(reading.as_str()) {
            std::mem::swap(&mut table, &mut self.okuri_ari);
            table.extend(reading, entries);
            self.okuri_ari = table;
        } else {
            std::mem::swap(&mut table, &mut self.okuri_nashi);
            table.extend(reading, entries);
            self.okuri_nashi = table;
        }
        assert(self@ =~= skk_format::extended(old(self)@, reading@, entry_views(entries@)));
    }

    /// The dictionary that a text describes. Lines of another shape are passed over.
    pub fn from_str(content: &str) -> (r: Self)
        ensures
            r@ == skk_format::parsed(content@),
    {
        let mut dict = Dictionary::new();
        let chars = chars_of(content);
        let ghost all = text::split(content@, '\n');
        let ghost mut done: Seq<Seq<char>> = Seq::empty();
        let mut a: usize = 0;
        let mut more = true;
        assert(chars@.subrange(0, chars@.len() as int) =~= chars@);
        assert(done + all =~= all);
        while more
            invariant
                a <= chars@.len(),
                more ==> all == done + text::split(
                    chars@.subrange(a as int, chars@.len() as int),
                    '\n',
                ),
                !more ==> all == done,
                dict@ == skk_format::parsed_lines(done),
            decreases chars@.len() - a + (if more {
                1int
            } else {
                0
            }),
        {
            let ghost s = chars@.subrange(a as int, chars@.len() as int);
            let b = find_char(&chars, a, chars.len(), '\n');
            let ghost line = chars@.subrange(a as int, b as int);
            let (from, to) = trim_range(&chars, a, b);
            let ghost trimmed = chars@.subrange(from as int, to as int);
            let silent = from == to || (to - from >= 2 && chars[from] == ';' && chars[from + 1]
                == ';');
            proof {
                let c = seq![';', ';'];
                assert(c[0] == ';' && c[1] == ';');
                if text::starts_with(trimmed, c) {
                    assert(trimmed[0] == c[0] && trimmed[1] == c[1]);
                }
                assert(silent == skk_format::is_silent(trimmed));
                assert(done.push(line).drop_last() =~= done);
            }
            if !silent {
                if let Some((reading, entries)) = parse_range(&chars, from, to) {
                    dict.extend(reading, entries);
                }
            }
            proof {
                done = done.push(line);
            }
            if b == chars.len() {
                more = false;
                assert(all =~= done);
            } else {
                proof {
                    let rest = chars@.subrange(b + 1, chars@.len() as int);
                    assert(s.take(b - a) =~= line);
                    assert(s.skip(b - a + 1) =~= rest);
                    assert(all =~= done + text::split(rest, '\n'));
                }
                a = b + 1;
            }
        }
        dict
    }

    /// The dictionary that the bytes of a file describe.
    pub fn from_bytes(bytes: &[u8]) -> (r: Result<Self, DictError>)
        requires
            vstd::utf8::valid_utf8(bytes@) || bytes@.len() <= usize::MAX / 16,
        ensures
            vstd::utf8::valid_utf8(bytes@) ==> (r matches Ok(d) && d@ == skk_format::parsed(
                vstd::utf8::decode_utf8(bytes@),
            )),
            !vstd::utf8::valid_utf8(bytes@) ==> match r {
                Ok(d) => !euc_jp_decoded(bytes@).1 && d@ == skk_format::parsed(
                    euc_jp_decoded(bytes@).0,
                ),
                Err(e) => euc_jp_decoded(bytes@).1 && (e matches DictError::Encoding(msg) && msg@
                    == "Failed to decode as UTF-8 or EUC-JP"@),
            },
    {
        match decode_auto(bytes) {
            Ok(content) => Ok(Dictionary::from_str(content.as_str())),
            Err(e) => Err(e),
        }
    }

    /// The candidates of a reading.
    pub fn lookup(&self, reading: &str) -> (r: Option<&[DictEntry]>)
        ensures
            match r {
                Some(es) => self@.contains_key(reading@) && entry_views(es@) == self@[reading@]
                    && es@.len() > 0,
                None => !self@.contains_key(reading@),
            },
    {
        proof {
            use_type_invariant(self);
        }
        if is_okuri_ari(reading) {
            self.lookup_okuri_ari(reading)
        } else {
            self.lookup_okuri_nashi(reading)
        }
    }

    /// The candidates of a reading without okurigana.
    pub fn lookup_okuri_nashi(&self, reading: &str) -> (r: Option<&[DictEntry]>)
        ensures
            match r {
                Some(es) => self@.contains_key(reading@) && !skk_format::is_ari(reading@)
                    && entry_views(es@) == self@[reading@] && es@.len() > 0,
                None => !self@.contains_key(reading@) || skk_format::is_ari(reading@),
            },
    {
        proof {
            use_type_invariant(self);
        }
        self.okuri_nashi.get(reading)
    }

    /// The candidates of a reading with okurigana.
    pub fn lookup_okuri_ari(&self, reading: &str) -> (r: Option<&[DictEntry]>)
        ensures
            match r {
                Some(es) => self@.contains_key(reading@) && skk_format::is_ari(reading@)
                    && entry_views(es@) == self@[reading@] && es@.len() > 0,
                None => !self@.contains_key(reading@) || !skk_format::is_ari(reading@),
            },
    {
        proof {
            use_type_invariant(self);
        }
        self.okuri_ari.get(reading)
    }

    /// The number of readings without okurigana.
    pub fn okuri_nashi_count(&self) -> (r: usize)
        ensures
            r == part(self@, false).dom().len(),
    {
        proof {
            use_type_invariant(self);
            self.okuri_nashi.lemma_distinct();
            assert(part(self@, false).dom() =~= self.okuri_nashi.model().dom());
        }
        self.okuri_nashi.readings.len()
    }

    /// The number of readings with okurigana.
    pub fn okuri_ari_count(&self) -> (r: usize)
        ensures
            r == part(self@, true).dom().len(),
    {
        proof {
            use_type_invariant(self);
            self.okuri_ari.lemma_distinct();
            assert(part(self@, true).dom() =~= self.okuri_ari.model().dom());
        }
        self.okuri_ari.readings.len()
    }

    /// The number of readings.
    pub fn entry_count(&self) -> (r: usize)
        requires
            self@.dom().len() <= usize::MAX,
        ensures
            r == self@.dom().len(),
    {
        proof {
            use_type_invariant(self);
            self.okuri_nashi.lemma_distinct();
            self.okuri_ari.lemma_distinct();
            let n = self.okuri_nashi.model().dom();
            let a = self.okuri_ari.model().dom();
            assert(n.disjoint(a));
            vstd::set_lib::lemma_set_disjoint_lens(n, a);
            assert(self@.dom() =~= n + a);
        }
        self.okuri_nashi.readings.len() + self.okuri_ari.readings.len()
    }

    /// Puts a candidate first for a reading, unless the reading has that word.
    pub fn add_entry(&mut self, reading: &str, entry: DictEntry)
        ensures
            final(self)@ == skk_format::with_entry(old(self)@, reading@, entry@),
    {
        proof {
            use_type_invariant(&*self);
        }
        let mut table = Table::new();
        if is_okuri_ari(reading) {
            std::mem::swap(&mut table, &mut self.okuri_ari);
            table.add_first(reading, entry);
            self.okuri_ari = table;
        } else {
            std::mem::swap(&mut table, &mut self.okuri_nashi);
            table.add_first(reading, entry);
            self.okuri_nashi = table;
        }
        assert(self@ =~= skk_format::with_entry(old(self)@, reading@, entry@));
    }

    /// The dictionary as SKK-JISYO text. A dictionary all of which can stand in
    /// lines is what is read back from its text.
    pub fn to_skk_string(&self) -> (r: String)
        ensures
            r@ == skk_format::written(self@),
            skk_format::fit(self@) ==> skk_format::parsed(r@) == self@,
    {
        proof {
            use_type_invariant(self);
        }
        let mut lines: Vec<String> = Vec::new();
        self.okuri_ari.push_lines(&mut lines);
        self.okuri_nashi.push_lines(&mut lines);
        proof {
            let d = self@;
            let n = self.okuri_nashi.model();
            let a = self.okuri_ari.model();
            self.okuri_nashi.lemma_distinct();
            self.okuri_ari.lemma_distinct();
            order::lemma_listing(n.dom());
            order::lemma_listing(a.dom());
            assert(d.dom() =~= n.dom() + a.dom());
            assert(d.dom().filter(|r: Seq<char>| skk_format::is_ari(r)) =~= a.dom());
            assert(d.dom().filter(|r: Seq<char>| !skk_format::is_ari(r)) =~= n.dom());
            let first = order::listing(a.dom());
            let second = order::listing(n.dom());
            assert forall|i: int| 0 <= i < first.len() implies a.contains_key(
                #[trigger] first[i],
            ) by {
                assert(first.contains(first[i]));
            }
            assert forall|i: int| 0 <= i < second.len() implies n.contains_key(
                #[trigger] second[i],
            ) by {
                assert(second.contains(second[i]));
            }
            assert(order::views(lines@) =~= skk_format::lines_text(d, first + second));
            if skk_format::fit(d) {
                skk_format::law_round_trip(d);
            }
        }
        join_lines(&lines)
    }
}

/// The lines, one after the other, with a line end between two of them.
fn join_lines(lines: &Vec<String>) -> (r: String)
    ensures
        r@ == text::join(order::views(lines@), '\n'),
{
    let ghost vs = order::views(lines@);
    let mut out = String::new();
    let mut i: usize = 0;
    assert(vs.skip(0) =~= vs);
    assert(out@ + text::join(vs, '\n') =~= text::join(vs, '\n'));
    while i < lines.len()
        invariant
            i <= lines@.len(),
            vs == order::views(lines@),
            text::join(vs, '\n') == out@ + text::join(vs.skip(i as int), '\n'),
        decreases lines@.len() - i,
    {
        let ghost before = out@;
        let ghost rest = vs.skip(i as int);
        out.append(lines[i].as_str());
        if i + 1 < lines.len() {
            out.push('\n');
        }
        proof {
            assert(rest.drop_first() =~= vs.skip(i + 1));
            assert(before + text::join(rest, '\n') =~= out@ + text::join(vs.skip(i + 1), '\n'));
        }
        i += 1;
    }
    assert(out@ + text::join(vs.skip(i as int), '\n') =~= out@);
    out
}

impl Default for Dictionary {
    fn default() -> (r: Self)
        ensures
            r@ == Map::<Seq<char>, Seq<EntryModel>>::empty(),
    {
        Dictionary::new()
    }
}

/// The readings with okurigana are those that end in a small letter, with their
/// candidates as they are, and those without are all the others.
pub proof fn law_parts(d: DictModel, r: Seq<char>)
    ensures
        ({
            let ends = r.len() > 0 && 'a' <= r.last() <= 'z';
            &&& part(d, true).contains_key(r) <==> d.contains_key(r) && ends
            &&& part(d, false).contains_key(r) <==> d.contains_key(r) && !ends
            &&& part(d, true).contains_key(r) ==> part(d, true)[r] == d[r]
            &&& part(d, false).contains_key(r) ==> part(d, false)[r] == d[r]
        }),
{
}

/// Text that was decoded without an error is taken as it is, and with one it is
/// not taken.
pub proof fn law_decoded(text: Seq<char>, had_errors: bool, r: Result<String, DictError>)
    requires
        is_accepted(text, had_errors, r),
    ensures
        r is Err <==> had_errors,
        r matches Ok(s) ==> s@ == text,
        r matches Err(e) ==> e is Encoding,
{
}

} // verus!
