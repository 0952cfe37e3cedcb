//! Romaji to kana: the conversion table and the converter that is fed one
//! character at a time.
use crate::romaji_table;
use crate::romaji_table::DEFAULT_ENTRIES;
use crate::text;
use crate::text::{char_string, chars_of, same_text, string_of};
use vstd::hash_map::StringHashMap;
use vstd::hash_set::StringHashSet;
use vstd::prelude::*;

verus! {

/// What romaji stands for: the kana, and the romaji that stays behind.
pub type Rules = Map<Seq<char>, (Seq<char>, Seq<char>)>;

/// Whether `s` is the start of the romaji of some rule; the empty text is not.
pub open spec fn is_start(rules: Rules, s: Seq<char>) -> bool {
    s.len() > 0 && exists|k: Seq<char>| #[trigger]
        rules.contains_key(k) && text::starts_with(k, s)
}

/// Whether `s` can be pending: it is empty, or the start of some romaji and not
/// itself complete.
pub open spec fn is_incomplete(rules: Rules, s: Seq<char>) -> bool {
    s.len() == 0 || (is_start(rules, s) && !rules.contains_key(s))
}

/// The rules of the rows `rows`; a later row replaces an earlier one.
pub open spec fn rules_of(rows: Seq<(&'static str, &'static str, &'static str)>) -> Rules
    decreases rows.len(),
{
    if rows.len() == 0 {
        Map::empty()
    } else {
        rules_of(rows.drop_last()).insert(rows.last().0@, (rows.last().1@, rows.last().2@))
    }
}

/// The rules of the SKK romaji table.
pub open spec fn default_rules() -> Rules {
    rules_of(DEFAULT_ENTRIES@)
}

/// The kana that feeding `ch` completes, and the romaji that is pending then.
pub open spec fn fed(rules: Rules, pending: Seq<char>, ch: char) -> (Seq<char>, Seq<char>) {
    let longer = pending.push(ch);
    let alone = seq![ch];
    if rules.contains_key(longer) {
        rules[longer]
    } else if is_start(rules, longer) {
        (Seq::empty(), longer)
    } else if rules.contains_key(alone) {
        rules[alone]
    } else if is_start(rules, alone) {
        (Seq::empty(), alone)
    } else {
        (Seq::empty(), Seq::empty())
    }
}

/// The kana that feeding the characters of `s` completes, and the romaji that
/// is pending then.
pub open spec fn fed_all(rules: Rules, pending: Seq<char>, s: Seq<char>) -> (Seq<char>, Seq<char>)
    decreases s.len(),
{
    if s.len() == 0 {
        (Seq::empty(), pending)
    } else {
        let (before, mid) = fed_all(rules, pending, s.drop_last());
        let (last, after) = fed(rules, mid, s.last());
        (before + last, after)
    }
}

/// The kana that pending romaji becomes when nothing follows: a lone `n` is
/// the syllabic n, anything else is dropped.
pub open spec fn flushed(pending: Seq<char>) -> Seq<char> {
    if pending == seq!['n'] {
        seq!['ん']
    } else {
        Seq::empty()
    }
}

/// A romaji table, with the starts of its romaji.
pub struct RomajiTable {
    entries: StringHashMap<(String, String)>,
    prefixes: StringHashSet,
}

/// What one character fed to a converter gives.
#[derive(Debug, Clone, PartialEq, Eq)]
pub struct RomajiOutput {
    /// The kana that the character completed; empty if it completed none.
    pub committed: String,
    /// The romaji that is pending now.
    pub pending: String,
}

/// A converter that holds the romaji typed so far.
pub struct RomajiConverter {
    pending: String,
}

impl View for RomajiTable {
    type V = Rules;

    closed spec fn view(&self) -> Rules {
        self.entries@.map_values(|v: (String, String)| (v.0@, v.1@))
    }
}

impl View for RomajiConverter {
    type V = Seq<char>;

    closed spec fn view(&self) -> Seq<char> {
        self.pending@
    }
}

impl RomajiTable {
    #[verifier::type_invariant]
    spec fn prefixes_match(self) -> bool {
        forall|s: Seq<char>| #[trigger] self.prefixes@.contains(s) <==> is_start(self@, s)
    }

    /// The SKK romaji table.
    pub fn default_table() -> (r: Self)
        ensures
            r@ == default_rules(),
    {
        let mut entries: StringHashMap<(String, String)> = StringHashMap::new();
        let mut prefixes = StringHashSet::new();
        let mut i: usize = 0;
        let ghost mut rules = rules_of(DEFAULT_ENTRIES@.take(0));
        assert(entries@.map_values(|v: (String, String)| (v.0@, v.1@)) =~= rules);
        while i < DEFAULT_ENTRIES.len()
            invariant
                i <= DEFAULT_ENTRIES@.len(),
                rules == rules_of(DEFAULT_ENTRIES@.take(i as int)),
                rules == entries@.map_values(|v: (String, String)| (v.0@, v.1@)),
                forall|s: Seq<char>| #[trigger] prefixes@.contains(s) <==> is_start(rules, s),
            decreases DEFAULT_ENTRIES@.len() - i,
        {
            let row: (&'static str, &'static str, &'static str) = DEFAULT_ENTRIES[i];
            let ghost old_rules = rules;
            let ghost old_prefixes = prefixes@;
            let key = chars_of(row.0);
            let mut n: usize = 0;
            while n < key.len()
                invariant
                    n <= key@.len(),
                    forall|s: Seq<char>| #[trigger]
                        prefixes@.contains(s) <==> old_prefixes.contains(s) || (0 < s.len() <= n
                            && text::starts_with(key@, s)),
                decreases key@.len() - n,
            {
                n += 1;
                let ghost before = prefixes@;
                prefixes.insert(string_of(&key, 0, n));
                assert forall|s: Seq<char>| #[trigger]
                    prefixes@.contains(s) <==> old_prefixes.contains(s) || (0 < s.len() <= n
                        && text::starts_with(key@, s)) by {
                    assert(before.contains(s) || !before.contains(s));
                    if s.len() == n && text::starts_with(key@, s) {
                        assert(s =~= key@.subrange(0, n as int));
                    }
                }
            }
            entries.insert(row.0.to_string(), (row.1.to_string(), row.2.to_string()));
            i += 1;
            proof {
                rules = old_rules.insert(row.0@, (row.1@, row.2@));
                assert(DEFAULT_ENTRIES@.take(i as int).drop_last() =~= DEFAULT_ENTRIES@.take(i - 1));
                assert(entries@.map_values(|v: (String, String)| (v.0@, v.1@)) =~= rules);
                assert forall|s: Seq<char>| #[trigger]
                    prefixes@.contains(s) <==> is_start(rules, s) by {
                    assert(old_prefixes.contains(s) <==> is_start(old_rules, s));
                    if is_start(old_rules, s) {
                        let k = choose|k: Seq<char>| #[trigger]
                            old_rules.contains_key(k) && text::starts_with(k, s);
                        assert(rules.contains_key(k));
                    }
                    if is_start(rules, s) && !is_start(old_rules, s) {
                        let k = choose|k: Seq<char>| #[trigger]
                            rules.contains_key(k) && text::starts_with(k, s);
                        assert(k == row.0@ || old_rules.contains_key(k));
                    }
                    if s.len() > 0 && text::starts_with(key@, s) {
                        assert(rules.contains_key(row.0@));
                    }
                }
            }
        }
        assert(DEFAULT_ENTRIES@.take(i as int) =~= DEFAULT_ENTRIES@);
        RomajiTable { entries, prefixes }
    }

    /// The rule for exactly this romaji.
    pub fn lookup(&self, s: &str) -> (r: Option<&(String, String)>)
        ensures
            match r {
                Some(v) => self@.contains_key(s@) && self@[s@] == (v.0@, v.1@),
                None => !self@.contains_key(s@),
            },
    {
        self.entries.get(s)
    }

    /// Whether some romaji starts with this text.
    pub fn is_valid_prefix(&self, s: &str) -> (r: bool)
        ensures
            r == is_start(self@, s@),
    {
        proof {
            use_type_invariant(self);
        }
        self.prefixes.contains(s)
    }
}

impl RomajiConverter {
    /// A converter with nothing pending.
    pub fn new() -> (r: Self)
        ensures
            r@ == Seq::<char>::empty(),
    {
        RomajiConverter { pending: String::new() }
    }

    /// Takes one more character and gives the kana that it completes.
    pub fn feed(&mut self, ch: char, table: &RomajiTable) -> (r: RomajiOutput)
        ensures
            (r.committed@, r.pending@) == fed(table@, old(self)@, ch),
            final(self)@ == r.pending@,
    {
        self.pending.push(ch);
        if let Some((kana, remainder)) = table.lookup(self.pending.as_str()) {
            let committed = kana.clone();
            self.pending = remainder.clone();
            return RomajiOutput { committed, pending: self.pending.clone() };
        }
        if table.is_valid_prefix(self.pending.as_str()) {
            return RomajiOutput { committed: String::new(), pending: self.pending.clone() };
        }
        let ch_str = char_string(ch);
        if let Some((kana, remainder)) = table.lookup(ch_str.as_str()) {
            let committed = kana.clone();
            self.pending = remainder.clone();
            return RomajiOutput { committed, pending: self.pending.clone() };
        }
        if table.is_valid_prefix(ch_str.as_str()) {
            self.pending = ch_str;
            return RomajiOutput { committed: String::new(), pending: self.pending.clone() };
        }
        self.pending = String::new();
        RomajiOutput { committed: String::new(), pending: String::new() }
    }

    /// The romaji that is pending.
    pub fn pending(&self) -> (r: &str)
        ensures
            r@ == self@,
    {
        self.pending.as_str()
    }

    /// Drops what is pending.
    pub fn clear(&mut self)
        ensures
            final(self)@ == Seq::<char>::empty(),
    {
        self.pending = String::new();
    }

    /// Drops the last pending character; tells whether there was one.
    pub fn backspace(&mut self) -> (r: bool)
        ensures
            r == (old(self)@.len() > 0),
            final(self)@ == if r {
                old(self)@.drop_last()
            } else {
                old(self)@
            },
    {
        self.pending.pop().is_some()
    }

    /// Ends the input: gives the kana of a lone `n` and drops anything else.
    pub fn flush(&mut self) -> (r: String)
        ensures
            r@ == flushed(old(self)@),
            final(self)@ == Seq::<char>::empty(),
    {
        proof {
            reveal_strlit("n");
            reveal_strlit("ん");
            assert("n"@ =~= seq!['n']);
            assert("ん"@ =~= seq!['ん']);
        }
        let lone_n = same_text(self.pending.as_str(), "n");
        self.pending = String::new();
        if lone_n {
            "ん".to_string()
        } else {
            String::new()
        }
    }
}

impl Default for RomajiConverter {
    fn default() -> (r: Self)
        ensures
            r@ == Seq::<char>::empty(),
    {
        RomajiConverter::new()
    }
}

/// The rules of the first `n` rows are those rows: each of them is a rule, and
/// there is no other.
proof fn lemma_rules_of_rows(n: int)
    requires
        0 <= n <= DEFAULT_ENTRIES@.len(),
    ensures
        forall|i: int|
            0 <= i < n ==> {
                &&& rules_of(DEFAULT_ENTRIES@.take(n)).contains_key(#[trigger] romaji_table::romaji(i))
                &&& rules_of(DEFAULT_ENTRIES@.take(n))[romaji_table::romaji(i)] == (
                    romaji_table::kana(i),
                    romaji_table::remainder(i),
                )
            },
        forall|k: Seq<char>| #[trigger]
            rules_of(DEFAULT_ENTRIES@.take(n)).contains_key(k) ==> exists|i: int|
                0 <= i < n && #[trigger] romaji_table::romaji(i) == k,
    decreases n,
{
    if n > 0 {
        lemma_rules_of_rows(n - 1);
        let rows = DEFAULT_ENTRIES@.take(n);
        assert(rows.drop_last() =~= DEFAULT_ENTRIES@.take(n - 1));
        assert(rows.last() == DEFAULT_ENTRIES@[n - 1]);
        let old_rules = rules_of(rows.drop_last());
        assert(rules_of(rows) == old_rules.insert(
            romaji_table::romaji(n - 1),
            (romaji_table::kana(n - 1), romaji_table::remainder(n - 1)),
        ));
        assert forall|i: int| 0 <= i < n implies {
            &&& rules_of(rows).contains_key(#[trigger] romaji_table::romaji(i))
            &&& rules_of(rows)[romaji_table::romaji(i)] == (
                romaji_table::kana(i),
                romaji_table::remainder(i),
            )
        } by {
            if i < n - 1 {
                romaji_table::lemma_rows_apart(i, n - 1);
                assert(romaji_table::romaji(i) != romaji_table::romaji(n - 1));
            }
        }
        assert forall|k: Seq<char>| #[trigger] rules_of(rows).contains_key(k) implies exists|i: int|
            0 <= i < n && #[trigger] romaji_table::romaji(i) == k by {
            if k == romaji_table::romaji(n - 1) {
            } else {
                assert(old_rules.contains_key(k));
                let i = choose|i: int| 0 <= i < n - 1 && #[trigger] romaji_table::romaji(i) == k;
                assert(romaji_table::romaji(i) == k);
            }
        }
    } else {
        assert(DEFAULT_ENTRIES@.take(0) =~= Seq::empty());
    }
}

/// The rules of the SKK table are its rows: each row is a rule, and there is no
/// other rule.
pub proof fn lemma_default_rules()
    ensures
        forall|i: int|
            0 <= i < DEFAULT_ENTRIES@.len() ==> {
                &&& default_rules().contains_key(#[trigger] romaji_table::romaji(i))
                &&& default_rules()[romaji_table::romaji(i)] == (
                    romaji_table::kana(i),
                    romaji_table::remainder(i),
                )
            },
        forall|k: Seq<char>| #[trigger]
            default_rules().contains_key(k) ==> exists|i: int|
                0 <= i < DEFAULT_ENTRIES@.len() && #[trigger] romaji_table::romaji(i) == k,
{
    lemma_rules_of_rows(DEFAULT_ENTRIES@.len() as int);
    assert(DEFAULT_ENTRIES@.take(DEFAULT_ENTRIES@.len() as int) =~= DEFAULT_ENTRIES@);
}

/// No romaji of the table is the start of another.
pub proof fn law_prefix_free(a: Seq<char>, b: Seq<char>)
    requires
        default_rules().contains_key(a),
        default_rules().contains_key(b),
        text::starts_with(b, a),
    ensures
        a == b,
{
    lemma_default_rules();
    let i = choose|i: int|
        0 <= i < DEFAULT_ENTRIES@.len() && #[trigger] romaji_table::romaji(i) == a;
    let j = choose|j: int|
        0 <= j < DEFAULT_ENTRIES@.len() && #[trigger] romaji_table::romaji(j) == b;
    if i < j {
        romaji_table::lemma_rows_apart(i, j);
    } else if j < i {
        romaji_table::lemma_rows_apart(j, i);
    }
}

/// Every rule has romaji of at most four letters and kana, and what it leaves
/// pending is nothing or the start of some romaji, and never complete romaji.
pub proof fn law_remainder_is_start(k: Seq<char>)
    requires
        default_rules().contains_key(k),
    ensures
        0 < k.len() <= romaji_table::longest(),
        default_rules()[k].0.len() > 0,
        default_rules()[k].1.len() == 0 || is_start(default_rules(), default_rules()[k].1),
        !default_rules().contains_key(default_rules()[k].1),
{
    lemma_default_rules();
    let i = choose|i: int|
        0 <= i < DEFAULT_ENTRIES@.len() && #[trigger] romaji_table::romaji(i) == k;
    romaji_table::lemma_well_made(i);
    let rest = romaji_table::remainder(i);
    if rest.len() > 0 {
        let j = choose|j: int|
            0 <= j < DEFAULT_ENTRIES@.len() && rest.len() < romaji_table::romaji(j).len()
                && text::starts_with(#[trigger] romaji_table::romaji(j), rest);
        assert(default_rules().contains_key(romaji_table::romaji(j)));
        if default_rules().contains_key(rest) {
            law_prefix_free(rest, romaji_table::romaji(j));
        }
    } else if default_rules().contains_key(rest) {
        let j = choose|j: int|
            0 <= j < DEFAULT_ENTRIES@.len() && #[trigger] romaji_table::romaji(j) == rest;
        romaji_table::lemma_well_made(j);
    }
}

/// Typing the romaji of any row, with nothing pending, gives exactly the kana
/// of the row and leaves exactly its remainder pending.
pub proof fn law_typing_a_row(i: int)
    requires
        0 <= i < DEFAULT_ENTRIES@.len(),
    ensures
        fed_all(default_rules(), Seq::empty(), romaji_table::romaji(i)) == (
            romaji_table::kana(i),
            romaji_table::remainder(i),
        ),
{
    let rules = default_rules();
    let k = romaji_table::romaji(i);
    lemma_default_rules();
    law_remainder_is_start(k);
    let n = k.len() - 1;
    lemma_typing_start(k, n);
    assert(k.drop_last() =~= k.take(n));
    assert(k.take(n).push(k.last()) =~= k);
    assert(Seq::<char>::empty() + rules[k].0 =~= rules[k].0);
}

proof fn lemma_typing_start(k: Seq<char>, n: int)
    requires
        default_rules().contains_key(k),
        0 <= n < k.len(),
    ensures
        fed_all(default_rules(), Seq::empty(), k.take(n)) == (Seq::<char>::empty(), k.take(n)),
    decreases n,
{
    let rules = default_rules();
    let s = k.take(n);
    if n > 0 {
        lemma_typing_start(k, n - 1);
        assert(s.drop_last() =~= k.take(n - 1));
        assert(k.take(n - 1).push(s.last()) =~= s);
        assert(text::starts_with(k, s));
        assert(is_start(rules, s));
        if rules.contains_key(s) {
            law_prefix_free(s, k);
        }
        assert(Seq::<char>::empty() + Seq::<char>::empty() =~= Seq::<char>::empty());
    } else {
        assert(s =~= Seq::<char>::empty());
    }
}

/// Whatever is fed, what is pending afterwards is nothing or the start of some
/// romaji, and never complete romaji: no input leaves the converter stuck.
pub proof fn law_pending_is_start(pending: Seq<char>, ch: char)
    ensures
        is_incomplete(default_rules(), fed(default_rules(), pending, ch).1),
{
    let longer = pending.push(ch);
    if default_rules().contains_key(longer) {
        law_remainder_is_start(longer);
    }
    if default_rules().contains_key(seq![ch]) {
        law_remainder_is_start(seq![ch]);
    }
}

/// Taking the last character off the start of some romaji leaves nothing or
/// the start of some romaji, and never complete romaji.
pub proof fn law_backspace_keeps_start(pending: Seq<char>)
    requires
        is_start(default_rules(), pending),
    ensures
        is_incomplete(default_rules(), pending.drop_last()),
{
    let rest = pending.drop_last();
    let k = choose|k: Seq<char>| #[trigger]
        default_rules().contains_key(k) && text::starts_with(k, pending);
    assert(text::starts_with(k, rest));
    if default_rules().contains_key(rest) {
        law_prefix_free(rest, k);
    }
}

/// What can be pending has at most three letters.
pub proof fn law_pending_is_short(pending: Seq<char>)
    requires
        is_incomplete(default_rules(), pending),
    ensures
        pending.len() < romaji_table::longest(),
{
    if pending.len() > 0 {
        let k = choose|k: Seq<char>| #[trigger]
            default_rules().contains_key(k) && text::starts_with(k, pending);
        law_remainder_is_start(k);
        if k.len() == pending.len() {
            assert(k =~= pending);
        }
    }
}

/// A letter that goes on with what is pending loses nothing: it completes the
/// romaji, which gives the kana and the rest of its rule, or it is pending with
/// the letters before it. A letter that does not go on with it starts anew, as
/// with nothing pending; one that no romaji starts with leaves nothing.
pub proof fn law_feeding(rules: Rules, pending: Seq<char>, ch: char)
    ensures
        ({
            let typed = pending.push(ch);
            let goes_on = exists|k: Seq<char>| #[trigger]
                rules.contains_key(k) && k.len() >= typed.len() && k.take(typed.len() as int)
                    == typed;
            if rules.contains_key(typed) {
                fed(rules, pending, ch) == rules[typed]
            } else if goes_on {
                fed(rules, pending, ch) == (Seq::<char>::empty(), typed)
            } else if pending.len() > 0 {
                fed(rules, pending, ch) == fed(rules, Seq::empty(), ch)
            } else {
                fed(rules, pending, ch) == (Seq::<char>::empty(), Seq::<char>::empty())
            }
        }),
{
    let typed = pending.push(ch);
    let fresh = Seq::<char>::empty().push(ch);
    assert(fresh =~= seq![ch]);
    if is_start(rules, typed) {
        let k = choose|k: Seq<char>| #[trigger]
            rules.contains_key(k) && text::starts_with(k, typed);
        assert(k.take(typed.len() as int) =~= typed);
    }
    assert forall|k: Seq<char>| #[trigger]
        rules.contains_key(k) && k.len() >= typed.len() && k.take(typed.len() as int)
            == typed implies text::starts_with(k, typed) by {
        assert forall|i: int| 0 <= i < typed.len() implies k[i] == typed[i] by {
            assert(k.take(typed.len() as int)[i] == k[i]);
        }
    }
    if pending.len() == 0 {
        assert(typed =~= fresh);
    }
}

/// A lone `n` that nothing follows is ん, and any other romaji is nothing.
pub proof fn law_flushing(pending: Seq<char>)
    ensures
        flushed(seq!['n']) == seq!['ん'],
        pending != seq!['n'] ==> flushed(pending).len() == 0,
{
}

/// Typing one text and then another gives the kana of both, one behind the
/// other, where the second goes on from what the first leaves pending.
pub proof fn law_typing_on(rules: Rules, pending: Seq<char>, a: Seq<char>, b: Seq<char>)
    ensures
        ({
            let (first, mid) = fed_all(rules, pending, a);
            let (second, rest) = fed_all(rules, mid, b);
            fed_all(rules, pending, a + b) == (first + second, rest)
        }),
    decreases b.len(),
{
    let (first, mid) = fed_all(rules, pending, a);
    if b.len() == 0 {
        assert(a + b =~= a);
        assert(first + Seq::<char>::empty() =~= first);
    } else {
        law_typing_on(rules, pending, a, b.drop_last());
        assert((a + b).drop_last() =~= a + b.drop_last());
        assert((a + b).last() == b.last());
        let (before, now) = fed_all(rules, mid, b.drop_last());
        let last = fed(rules, now, b.last()).0;
        assert(first + before + last =~= first + (before + last));
    }
}

/// A doubled consonant is っ with the consonant pending, an `n` before a consonant
/// is ん with the consonant pending, and `n` before anything but a vowel or `y`
/// is ん. Nothing else leaves romaji behind.
pub proof fn law_small_tsu_and_n(k: Seq<char>, c: char)
    requires
        default_rules().contains_key(k),
    ensures
        romaji_table::is_doubled(c) ==> default_rules().contains_key(seq![c, c])
            && default_rules()[seq![c, c]] == (seq!['っ'], seq![c]),
        romaji_table::is_after_n(c) ==> default_rules().contains_key(seq!['n', c])
            && default_rules()[seq!['n', c]] == (seq!['ん'], seq![c]),
        k.len() == 2 && k[0] == 'n' && !romaji_table::is_vowel(k[1]) ==> default_rules()[k].0
            == seq!['ん'],
        default_rules()[k].1.len() > 0 ==> k.len() == 2 && default_rules()[k].1 == seq![k[1]] && (
        k[0] == k[1] || k[0] == 'n'),
{
    lemma_default_rules();
    romaji_table::lemma_consonant_rows(c);
    let i = choose|i: int|
        0 <= i < DEFAULT_ENTRIES@.len() && #[trigger] romaji_table::romaji(i) == k;
    romaji_table::lemma_well_made(i);
    if romaji_table::remainder(i).len() > 0 {
        assert(romaji_table::remainder(i) =~= seq![k[1]]);
    }
    if k.len() == 2 && k[0] == 'n' && !romaji_table::is_vowel(k[1]) {
        assert(romaji_table::kana(i) =~= seq!['ん']);
    }
    if romaji_table::is_doubled(c) {
        let j = choose|j: int|
            0 <= j < DEFAULT_ENTRIES@.len() && #[trigger] romaji_table::romaji(j) == seq![c, c];
        romaji_table::lemma_well_made(j);
        assert(romaji_table::romaji(j)[0] == c && romaji_table::romaji(j)[1] == c);
        assert(romaji_table::kana(j) =~= seq!['っ']);
        assert(romaji_table::remainder(j) =~= seq![c]);
    }
    if romaji_table::is_after_n(c) {
        let j = choose|j: int|
            0 <= j < DEFAULT_ENTRIES@.len() && #[trigger] romaji_table::romaji(j) == seq!['n', c];
        romaji_table::lemma_well_made(j);
        assert(romaji_table::romaji(j)[0] == 'n' && romaji_table::romaji(j)[1] == c);
        assert(romaji_table::kana(j) =~= seq!['ん']);
        assert(romaji_table::remainder(j) =~= seq![c]);
    }
}

} // verus!
