//! The SKK romaji table.
use crate::text;
use vstd::prelude::*;

verus! {

/// The rows of the table: romaji, the kana it stands for, and the romaji that
/// stays behind as the start of the next syllable. The rows are sorted by romaji.
pub const DEFAULT_ENTRIES: [(&'static str, &'static str, &'static str); 258] = [
    ("a", "あ", ""),
    ("ba", "ば", ""),
    ("bb", "っ", "b"),
    ("be", "べ", ""),
    ("bi", "び", ""),
    ("bo", "ぼ", ""),
    ("bu", "ぶ", ""),
    ("bya", "びゃ", ""),
    ("bye", "びぇ", ""),
    ("byi", "びぃ", ""),
    ("byo", "びょ", ""),
    ("byu", "びゅ", ""),
    ("cc", "っ", "c"),
    ("cha", "ちゃ", ""),
    ("che", "ちぇ", ""),
    ("chi", "ち", ""),
    ("cho", "ちょ", ""),
    ("chu", "ちゅ", ""),
    ("da", "だ", ""),
    ("dd", "っ", "d"),
    ("de", "で", ""),
    ("dha", "でゃ", ""),
    ("dhe", "でぇ", ""),
    ("dhi", "でぃ", ""),
    ("dho", "でょ", ""),
    ("dhu", "でゅ", ""),
    ("di", "ぢ", ""),
    ("do", "ど", ""),
    ("du", "づ", ""),
    ("dwa", "どぁ", ""),
    ("dwe", "どぇ", ""),
    ("dwi", "どぃ", ""),
    ("dwo", "どぉ", ""),
    ("dwu", "どぅ", ""),
    ("dya", "ぢゃ", ""),
    ("dye", "ぢぇ", ""),
    ("dyi", "ぢぃ", ""),
    ("dyo", "ぢょ", ""),
    ("dyu", "ぢゅ", ""),
    ("e", "え", ""),
    ("fa", "ふぁ", ""),
    ("fe", "ふぇ", ""),
    ("ff", "っ", "f"),
    ("fi", "ふぃ", ""),
    ("fo", "ふぉ", ""),
    ("fu", "ふ", ""),
    ("ga", "が", ""),
    ("ge", "げ", ""),
    ("gg", "っ", "g"),
    ("gi", "ぎ", ""),
    ("go", "ご", ""),
    ("gu", "ぐ", ""),
    ("gwa", "ぐぁ", ""),
    ("gwe", "ぐぇ", ""),
    ("gwi", "ぐぃ", ""),
    ("gwo", "ぐぉ", ""),
    ("gwu", "ぐぅ", ""),
    ("gya", "ぎゃ", ""),
    ("gye", "ぎぇ", ""),
    ("gyi", "ぎぃ", ""),
    ("gyo", "ぎょ", ""),
    ("gyu", "ぎゅ", ""),
    ("ha", "は", ""),
    ("he", "へ", ""),
    ("hh", "っ", "h"),
    ("hi", "ひ", ""),
    ("ho", "ほ", ""),
    ("hu", "ふ", ""),
    ("hya", "ひゃ", ""),
    ("hye", "ひぇ", ""),
    ("hyi", "ひぃ", ""),
    ("hyo", "ひょ", ""),
    ("hyu", "ひゅ", ""),
    ("i", "い", ""),
    ("ja", "じゃ", ""),
    ("je", "じぇ", ""),
    ("ji", "じ", ""),
    ("jj", "っ", "j"),
    ("jo", "じょ", ""),
    ("ju", "じゅ", ""),
    ("jya", "じゃ", ""),
    ("jye", "じぇ", ""),
    ("jyi", "じぃ", ""),
    ("jyo", "じょ", ""),
    ("jyu", "じゅ", ""),
    ("ka", "か", ""),
    ("ke", "け", ""),
    ("ki", "き", ""),
    ("kk", "っ", "k"),
    ("ko", "こ", ""),
    ("ku", "く", ""),
    ("kwa", "くぁ", ""),
    ("kwe", "くぇ", ""),
    ("kwi", "くぃ", ""),
    ("kwo", "くぉ", ""),
    ("kwu", "くぅ", ""),
    ("kya", "きゃ", ""),
    ("kye", "きぇ", ""),
    ("kyi", "きぃ", ""),
    ("kyo", "きょ", ""),
    ("kyu", "きゅ", ""),
    ("ma", "ま", ""),
    ("me", "め", ""),
    ("mi", "み", ""),
    ("mm", "っ", "m"),
    ("mo", "も", ""),
    ("mu", "む", ""),
    ("mya", "みゃ", ""),
    ("mye", "みぇ", ""),
    ("myi", "みぃ", ""),
    ("myo", "みょ", ""),
    ("myu", "みゅ", ""),
    ("n'", "ん", ""),
    ("na", "な", ""),
    ("nb", "ん", "b"),
    ("nc", "ん", "c"),
    ("nd", "ん", "d"),
    ("ne", "ね", ""),
    ("nf", "ん", "f"),
    ("ng", "ん", "g"),
    ("nh", "ん", "h"),
    ("ni", "に", ""),
    ("nj", "ん", "j"),
    ("nk", "ん", "k"),
    ("nl", "ん", ""),
    ("nm", "ん", "m"),
    ("nn", "ん", ""),
    ("no", "の", ""),
    ("np", "ん", "p"),
    ("nq", "ん", ""),
    ("nr", "ん", "r"),
    ("ns", "ん", "s"),
    ("nt", "ん", "t"),
    ("nu", "ぬ", ""),
    ("nv", "ん", "v"),
    ("nw", "ん", "w"),
    ("nx", "ん", "x"),
    ("nya", "にゃ", ""),
    ("nye", "にぇ", ""),
    ("nyi", "にぃ", ""),
    ("nyo", "にょ", ""),
    ("nyu", "にゅ", ""),
    ("nz", "ん", "z"),
    ("o", "お", ""),
    ("pa", "ぱ", ""),
    ("pe", "ぺ", ""),
    ("pi", "ぴ", ""),
    ("po", "ぽ", ""),
    ("pp", "っ", "p"),
    ("pu", "ぷ", ""),
    ("pya", "ぴゃ", ""),
    ("pye", "ぴぇ", ""),
    ("pyi", "ぴぃ", ""),
    ("pyo", "ぴょ", ""),
    ("pyu", "ぴゅ", ""),
    ("ra", "ら", ""),
    ("re", "れ", ""),
    ("ri", "り", ""),
    ("ro", "ろ", ""),
    ("rr", "っ", "r"),
    ("ru", "る", ""),
    ("rya", "りゃ", ""),
    ("rye", "りぇ", ""),
    ("ryi", "りぃ", ""),
    ("ryo", "りょ", ""),
    ("ryu", "りゅ", ""),
    ("sa", "さ", ""),
    ("se", "せ", ""),
    ("sha", "しゃ", ""),
    ("she", "しぇ", ""),
    ("shi", "し", ""),
    ("sho", "しょ", ""),
    ("shu", "しゅ", ""),
    ("si", "し", ""),
    ("so", "そ", ""),
    ("ss", "っ", "s"),
    ("su", "す", ""),
    ("sya", "しゃ", ""),
    ("sye", "しぇ", ""),
    ("syi", "しぃ", ""),
    ("syo", "しょ", ""),
    ("syu", "しゅ", ""),
    ("ta", "た", ""),
    ("te", "て", ""),
    ("tha", "てゃ", ""),
    ("the", "てぇ", ""),
    ("thi", "てぃ", ""),
    ("tho", "てょ", ""),
    ("thu", "てゅ", ""),
    ("ti", "ち", ""),
    ("to", "と", ""),
    ("tsu", "つ", ""),
    ("tt", "っ", "t"),
    ("tu", "つ", ""),
    ("twa", "とぁ", ""),
    ("twe", "とぇ", ""),
    ("twi", "とぃ", ""),
    ("two", "とぉ", ""),
    ("twu", "とぅ", ""),
    ("tya", "ちゃ", ""),
    ("tye", "ちぇ", ""),
    ("tyi", "ちぃ", ""),
    ("tyo", "ちょ", ""),
    ("tyu", "ちゅ", ""),
    ("u", "う", ""),
    ("va", "ゔぁ", ""),
    ("ve", "ゔぇ", ""),
    ("vi", "ゔぃ", ""),
    ("vo", "ゔぉ", ""),
    ("vu", "ゔ", ""),
    ("vv", "っ", "v"),
    ("wa", "わ", ""),
    ("we", "ゑ", ""),
    ("wha", "うぁ", ""),
    ("whe", "うぇ", ""),
    ("whi", "うぃ", ""),
    ("who", "うぉ", ""),
    ("wi", "ゐ", ""),
    ("wo", "を", ""),
    ("ww", "っ", "w"),
    ("xa", "ぁ", ""),
    ("xe", "ぇ", ""),
    ("xi", "ぃ", ""),
    ("xka", "ヵ", ""),
    ("xke", "ヶ", ""),
    ("xo", "ぉ", ""),
    ("xtsu", "っ", ""),
    ("xtu", "っ", ""),
    ("xu", "ぅ", ""),
    ("xwa", "ゎ", ""),
    ("xya", "ゃ", ""),
    ("xyo", "ょ", ""),
    ("xyu", "ゅ", ""),
    ("ya", "や", ""),
    ("yo", "よ", ""),
    ("yu", "ゆ", ""),
    ("yy", "っ", "y"),
    ("z,", "‥", ""),
    ("z-", "〜", ""),
    ("z.", "…", ""),
    ("z/", "・", ""),
    ("z[", "『", ""),
    ("z]", "』", ""),
    ("za", "ざ", ""),
    ("ze", "ぜ", ""),
    ("zh", "←", ""),
    ("zi", "じ", ""),
    ("zj", "↓", ""),
    ("zk", "↑", ""),
    ("zl", "→", ""),
    ("zo", "ぞ", ""),
    ("zu", "ず", ""),
    ("zya", "じゃ", ""),
    ("zye", "じぇ", ""),
    ("zyi", "じぃ", ""),
    ("zyo", "じょ", ""),
    ("zyu", "じゅ", ""),
    ("zz", "っ", "z"),
];

/// The romaji of row `i`.
pub open spec fn romaji(i: int) -> Seq<char> {
    DEFAULT_ENTRIES@[i].0@
}

/// The kana of row `i`.
pub open spec fn kana(i: int) -> Seq<char> {
    DEFAULT_ENTRIES@[i].1@
}

/// The romaji that row `i` leaves behind.
pub open spec fn remainder(i: int) -> Seq<char> {
    DEFAULT_ENTRIES@[i].2@
}

/// `a` and `b` agree before position `d`, and at `d` that of `a` comes first.
pub open spec fn before_at(a: Seq<char>, b: Seq<char>, d: int) -> bool {
    &&& 0 <= d < a.len()
    &&& d < b.len()
    &&& a[d] < b[d]
    &&& forall|i: int| 0 <= i < d ==> a[i] == b[i]
}

spec fn before(a: Seq<char>, b: Seq<char>) -> bool {
    exists|d: int| before_at(a, b, d)
}

/// The length of the longest romaji.
pub open spec fn longest() -> nat {
    4
}

/// The vowels.
pub open spec fn is_vowel(c: char) -> bool {
    c == 'a' || c == 'i' || c == 'u' || c == 'e' || c == 'o'
}

/// Row `i` has romaji and kana, and leaves behind nothing or the start of the
/// longer romaji of some row. It leaves something behind only as a doubled
/// consonant, which is っ, or as an `n` before a consonant, which is ん: in both
/// the second consonant stays.
pub open spec fn well_made(i: int) -> bool {
    &&& 0 < romaji(i).len() <= longest()
    &&& kana(i).len() > 0
    &&& remainder(i).len() > 0 ==> {
        &&& romaji(i).len() == 2 && remainder(i).len() == 1 && kana(i).len() == 1
        &&& remainder(i)[0] == romaji(i)[1]
        &&& romaji(i)[0] == romaji(i)[1] || romaji(i)[0] == 'n'
    }
    &&& romaji(i).len() == 2 && romaji(i)[0] == romaji(i)[1] && romaji(i)[0] != 'n' ==> {
        &&& kana(i).len() == 1 && kana(i)[0] == 'っ'
        &&& remainder(i).len() == 1
    }
    &&& romaji(i).len() == 2 && romaji(i)[0] == 'n' && !is_vowel(romaji(i)[1]) ==> {
        &&& kana(i).len() == 1 && kana(i)[0] == 'ん'
        &&& is_after_n(romaji(i)[1]) ==> remainder(i).len() == 1
    }
    &&& remainder(i).len() == 0 || exists|j: int|
        0 <= j < DEFAULT_ENTRIES@.len() && remainder(i).len() < romaji(j).len()
            && text::starts_with(#[trigger] romaji(j), remainder(i))
}

spec fn in_order(lo: int, hi: int) -> bool {
    forall|i: int| lo <= i < hi ==> #[trigger] before(romaji(i), romaji(i + 1))
}

proof fn lemma_order_0()
    ensures
        in_order(0, 26),
{
    reveal_strlit("a");
    reveal_strlit("ba");
    reveal_strlit("bb");
    reveal_strlit("be");
    reveal_strlit("bi");
    reveal_strlit("bo");
    reveal_strlit("bu");
    reveal_strlit("bya");
    reveal_strlit("bye");
    reveal_strlit("byi");
    reveal_strlit("byo");
    reveal_strlit("byu");
    reveal_strlit("cc");
    reveal_strlit("cha");
    reveal_strlit("che");
    reveal_strlit("chi");
    reveal_strlit("cho");
    reveal_strlit("chu");
    reveal_strlit("da");
    reveal_strlit("dd");
    reveal_strlit("de");
    reveal_strlit("dha");
    reveal_strlit("dhe");
    reveal_strlit("dhi");
    reveal_strlit("dho");
    reveal_strlit("dhu");
    reveal_strlit("di");
    assert(before_at(romaji(0), romaji(1), 0));
    assert(before_at(romaji(1), romaji(2), 1));
    assert(before_at(romaji(2), romaji(3), 1));
    assert(before_at(romaji(3), romaji(4), 1));
    assert(before_at(romaji(4), romaji(5), 1));
    assert(before_at(romaji(5), romaji(6), 1));
    assert(before_at(romaji(6), romaji(7), 1));
    assert(before_at(romaji(7), romaji(8), 2));
    assert(before_at(romaji(8), romaji(9), 2));
    assert(before_at(romaji(9), romaji(10), 2));
    assert(before_at(romaji(10), romaji(11), 2));
    assert(before_at(romaji(11), romaji(12), 0));
    assert(before_at(romaji(12), romaji(13), 1));
    assert(before_at(romaji(13), romaji(14), 2));
    assert(before_at(romaji(14), romaji(15), 2));
    assert(before_at(romaji(15), romaji(16), 2));
    assert(before_at(romaji(16), romaji(17), 2));
    assert(before_at(romaji(17), romaji(18), 0));
    assert(before_at(romaji(18), romaji(19), 1));
    assert(before_at(romaji(19), romaji(20), 1));
    assert(before_at(romaji(20), romaji(21), 1));
    assert(before_at(romaji(21), romaji(22), 2));
    assert(before_at(romaji(22), romaji(23), 2));
    assert(before_at(romaji(23), romaji(24), 2));
    assert(before_at(romaji(24), romaji(25), 2));
    assert(before_at(romaji(25), romaji(26), 1));
}

proof fn lemma_order_1()
    ensures
        in_order(26, 52),
{
    reveal_strlit("di");
    reveal_strlit("do");
    reveal_strlit("du");
    reveal_strlit("dwa");
    reveal_strlit("dwe");
    reveal_strlit("dwi");
    reveal_strlit("dwo");
    reveal_strlit("dwu");
    reveal_strlit("dya");
    reveal_strlit("dye");
    reveal_strlit("dyi");
    reveal_strlit("dyo");
    reveal_strlit("dyu");
    reveal_strlit("e");
    reveal_strlit("fa");
    reveal_strlit("fe");
    reveal_strlit("ff");
    reveal_strlit("fi");
    reveal_strlit("fo");
    reveal_strlit("fu");
    reveal_strlit("ga");
    reveal_strlit("ge");
    reveal_strlit("gg");
    reveal_strlit("gi");
    reveal_strlit("go");
    reveal_strlit("gu");
    reveal_strlit("gwa");
    assert(before_at(romaji(26), romaji(27), 1));
    assert(before_at(romaji(27), romaji(28), 1));
    assert(before_at(romaji(28), romaji(29), 1));
    assert(before_at(romaji(29), romaji(30), 2));
    assert(before_at(romaji(30), romaji(31), 2));
    assert(before_at(romaji(31), romaji(32), 2));
    assert(before_at(romaji(32), romaji(33), 2));
    assert(before_at(romaji(33), romaji(34), 1));
    assert(before_at(romaji(34), romaji(35), 2));
    assert(before_at(romaji(35), romaji(36), 2));
    assert(before_at(romaji(36), romaji(37), 2));
    assert(before_at(romaji(37), romaji(38), 2));
    assert(before_at(romaji(38), romaji(39), 0));
    assert(before_at(romaji(39), romaji(40), 0));
    assert(before_at(romaji(40), romaji(41), 1));
    assert(before_at(romaji(41), romaji(42), 1));
    assert(before_at(romaji(42), romaji(43), 1));
    assert(before_at(romaji(43), romaji(44), 1));
    assert(before_at(romaji(44), romaji(45), 1));
    assert(before_at(romaji(45), romaji(46), 0));
    assert(before_at(romaji(46), romaji(47), 1));
    assert(before_at(romaji(47), romaji(48), 1));
    assert(before_at(romaji(48), romaji(49), 1));
    assert(before_at(romaji(49), romaji(50), 1));
    assert(before_at(romaji(50), romaji(51), 1));
    assert(before_at(romaji(51), romaji(52), 1));
}

proof fn lemma_order_2()
    ensures
        in_order(52, 78),
{
    reveal_strlit("gwa");
    reveal_strlit("gwe");
    reveal_strlit("gwi");
    reveal_strlit("gwo");
    reveal_strlit("gwu");
    reveal_strlit("gya");
    reveal_strlit("gye");
    reveal_strlit("gyi");
    reveal_strlit("gyo");
    reveal_strlit("gyu");
    reveal_strlit("ha");
    reveal_strlit("he");
    reveal_strlit("hh");
    reveal_strlit("hi");
    reveal_strlit("ho");
    reveal_strlit("hu");
    reveal_strlit("hya");
    reveal_strlit("hye");
    reveal_strlit("hyi");
    reveal_strlit("hyo");
    reveal_strlit("hyu");
    reveal_strlit("i");
    reveal_strlit("ja");
    reveal_strlit("je");
    reveal_strlit("ji");
    reveal_strlit("jj");
    reveal_strlit("jo");
    assert(before_at(romaji(52), romaji(53), 2));
    assert(before_at(romaji(53), romaji(54), 2));
    assert(before_at(romaji(54), romaji(55), 2));
    assert(before_at(romaji(55), romaji(56), 2));
    assert(before_at(romaji(56), romaji(57), 1));
    assert(before_at(romaji(57), romaji(58), 2));
    assert(before_at(romaji(58), romaji(59), 2));
    assert(before_at(romaji(59), romaji(60), 2));
    assert(before_at(romaji(60), romaji(61), 2));
    assert(before_at(romaji(61), romaji(62), 0));
    assert(before_at(romaji(62), romaji(63), 1));
    assert(before_at(romaji(63), romaji(64), 1));
    assert(before_at(romaji(64), romaji(65), 1));
    assert(before_at(romaji(65), romaji(66), 1));
    assert(before_at(romaji(66), romaji(67), 1));
    assert(before_at(romaji(67), romaji(68), 1));
    assert(before_at(romaji(68), romaji(69), 2));
    assert(before_at(romaji(69), romaji(70), 2));
    assert(before_at(romaji(70), romaji(71), 2));
    assert(before_at(romaji(71), romaji(72), 2));
    assert(before_at(romaji(72), romaji(73), 0));
    assert(before_at(romaji(73), romaji(74), 0));
    assert(before_at(romaji(74), romaji(75), 1));
    assert(before_at(romaji(75), romaji(76), 1));
    assert(before_at(romaji(76), romaji(77), 1));
    assert(before_at(romaji(77), romaji(78), 1));
}

proof fn lemma_order_3()
    ensures
        in_order(78, 104),
{
    reveal_strlit("jo");
    reveal_strlit("ju");
    reveal_strlit("jya");
    reveal_strlit("jye");
    reveal_strlit("jyi");
    reveal_strlit("jyo");
    reveal_strlit("jyu");
    reveal_strlit("ka");
    reveal_strlit("ke");
    reveal_strlit("ki");
    reveal_strlit("kk");
    reveal_strlit("ko");
    reveal_strlit("ku");
    reveal_strlit("kwa");
    reveal_strlit("kwe");
    reveal_strlit("kwi");
    reveal_strlit("kwo");
    reveal_strlit("kwu");
    reveal_strlit("kya");
    reveal_strlit("kye");
    reveal_strlit("kyi");
    reveal_strlit("kyo");
    reveal_strlit("kyu");
    reveal_strlit("ma");
    reveal_strlit("me");
    reveal_strlit("mi");
    reveal_strlit("mm");
    assert(before_at(romaji(78), romaji(79), 1));
    assert(before_at(romaji(79), romaji(80), 1));
    assert(before_at(romaji(80), romaji(81), 2));
    assert(before_at(romaji(81), romaji(82), 2));
    assert(before_at(romaji(82), romaji(83), 2));
    assert(before_at(romaji(83), romaji(84), 2));
    assert(before_at(romaji(84), romaji(85), 0));
    assert(before_at(romaji(85), romaji(86), 1));
    assert(before_at(romaji(86), romaji(87), 1));
    assert(before_at(romaji(87), romaji(88), 1));
    assert(before_at(romaji(88), romaji(89), 1));
    assert(before_at(romaji(89), romaji(90), 1));
    assert(before_at(romaji(90), romaji(91), 1));
    assert(before_at(romaji(91), romaji(92), 2));
    assert(before_at(romaji(92), romaji(93), 2));
    assert(before_at(romaji(93), romaji(94), 2));
    assert(before_at(romaji(94), romaji(95), 2));
    assert(before_at(romaji(95), romaji(96), 1));
    assert(before_at(romaji(96), romaji(97), 2));
    assert(before_at(romaji(97), romaji(98), 2));
    assert(before_at(romaji(98), romaji(99), 2));
    assert(before_at(romaji(99), romaji(100), 2));
    assert(before_at(romaji(100), romaji(101), 0));
    assert(before_at(romaji(101), romaji(102), 1));
    assert(before_at(romaji(102), romaji(103), 1));
    assert(before_at(romaji(103), romaji(104), 1));
}

proof fn lemma_order_4()
    ensures
        in_order(104, 130),
{
    reveal_strlit("mm");
    reveal_strlit("mo");
    reveal_strlit("mu");
    reveal_strlit("mya");
    reveal_strlit("mye");
    reveal_strlit("myi");
    reveal_strlit("myo");
    reveal_strlit("myu");
    reveal_strlit("n'");
    reveal_strlit("na");
    reveal_strlit("nb");
    reveal_strlit("nc");
    reveal_strlit("nd");
    reveal_strlit("ne");
    reveal_strlit("nf");
    reveal_strlit("ng");
    reveal_strlit("nh");
    reveal_strlit("ni");
    reveal_strlit("nj");
    reveal_strlit("nk");
    reveal_strlit("nl");
    reveal_strlit("nm");
    reveal_strlit("nn");
    reveal_strlit("no");
    reveal_strlit("np");
    reveal_strlit("nq");
    reveal_strlit("nr");
    assert(before_at(romaji(104), romaji(105), 1));
    assert(before_at(romaji(105), romaji(106), 1));
    assert(before_at(romaji(106), romaji(107), 1));
    assert(before_at(romaji(107), romaji(108), 2));
    assert(before_at(romaji(108), romaji(109), 2));
    assert(before_at(romaji(109), romaji(110), 2));
    assert(before_at(romaji(110), romaji(111), 2));
    assert(before_at(romaji(111), romaji(112), 0));
    assert(before_at(romaji(112), romaji(113), 1));
    assert(before_at(romaji(113), romaji(114), 1));
    assert(before_at(romaji(114), romaji(115), 1));
    assert(before_at(romaji(115), romaji(116), 1));
    assert(before_at(romaji(116), romaji(117), 1));
    assert(before_at(romaji(117), romaji(118), 1));
    assert(before_at(romaji(118), romaji(119), 1));
    assert(before_at(romaji(119), romaji(120), 1));
    assert(before_at(romaji(120), romaji(121), 1));
    assert(before_at(romaji(121), romaji(122), 1));
    assert(before_at(romaji(122), romaji(123), 1));
    assert(before_at(romaji(123), romaji(124), 1));
    assert(before_at(romaji(124), romaji(125), 1));
    assert(before_at(romaji(125), romaji(126), 1));
    assert(before_at(romaji(126), romaji(127), 1));
    assert(before_at(romaji(127), romaji(128), 1));
    assert(before_at(romaji(128), romaji(129), 1));
    assert(before_at(romaji(129), romaji(130), 1));
}

proof fn lemma_order_5()
    ensures
        in_order(130, 156),
{
    reveal_strlit("nr");
    reveal_strlit("ns");
    reveal_strlit("nt");
    reveal_strlit("nu");
    reveal_strlit("nv");
    reveal_strlit("nw");
    reveal_strlit("nx");
    reveal_strlit("nya");
    reveal_strlit("nye");
    reveal_strlit("nyi");
    reveal_strlit("nyo");
    reveal_strlit("nyu");
    reveal_strlit("nz");
    reveal_strlit("o");
    reveal_strlit("pa");
    reveal_strlit("pe");
    reveal_strlit("pi");
    reveal_strlit("po");
    reveal_strlit("pp");
    reveal_strlit("pu");
    reveal_strlit("pya");
    reveal_strlit("pye");
    reveal_strlit("pyi");
    reveal_strlit("pyo");
    reveal_strlit("pyu");
    reveal_strlit("ra");
    reveal_strlit("re");
    assert(before_at(romaji(130), romaji(131), 1));
    assert(before_at(romaji(131), romaji(132), 1));
    assert(before_at(romaji(132), romaji(133), 1));
    assert(before_at(romaji(133), romaji(134), 1));
    assert(before_at(romaji(134), romaji(135), 1));
    assert(before_at(romaji(135), romaji(136), 1));
    assert(before_at(romaji(136), romaji(137), 1));
    assert(before_at(romaji(137), romaji(138), 2));
    assert(before_at(romaji(138), romaji(139), 2));
    assert(before_at(romaji(139), romaji(140), 2));
    assert(before_at(romaji(140), romaji(141), 2));
    assert(before_at(romaji(141), romaji(142), 1));
    assert(before_at(romaji(142), romaji(143), 0));
    assert(before_at(romaji(143), romaji(144), 0));
    assert(before_at(romaji(144), romaji(145), 1));
    assert(before_at(romaji(145), romaji(146), 1));
    assert(before_at(romaji(146), romaji(147), 1));
    assert(before_at(romaji(147), romaji(148), 1));
    assert(before_at(romaji(148), romaji(149), 1));
    assert(before_at(romaji(149), romaji(150), 1));
    assert(before_at(romaji(150), romaji(151), 2));
    assert(before_at(romaji(151), romaji(152), 2));
    assert(before_at(romaji(152), romaji(153), 2));
    assert(before_at(romaji(153), romaji(154), 2));
    assert(before_at(romaji(154), romaji(155), 0));
    assert(before_at(romaji(155), romaji(156), 1));
}

proof fn lemma_order_6()
    ensures
        in_order(156, 182),
{
    reveal_strlit("re");
    reveal_strlit("ri");
    reveal_strlit("ro");
    reveal_strlit("rr");
    reveal_strlit("ru");
    reveal_strlit("rya");
    reveal_strlit("rye");
    reveal_strlit("ryi");
    reveal_strlit("ryo");
    reveal_strlit("ryu");
    reveal_strlit("sa");
    reveal_strlit("se");
    reveal_strlit("sha");
    reveal_strlit("she");
    reveal_strlit("shi");
    reveal_strlit("sho");
    reveal_strlit("shu");
    reveal_strlit("si");
    reveal_strlit("so");
    reveal_strlit("ss");
    reveal_strlit("su");
    reveal_strlit("sya");
    reveal_strlit("sye");
    reveal_strlit("syi");
    reveal_strlit("syo");
    reveal_strlit("syu");
    reveal_strlit("ta");
    assert(before_at(romaji(156), romaji(157), 1));
    assert(before_at(romaji(157), romaji(158), 1));
    assert(before_at(romaji(158), romaji(159), 1));
    assert(before_at(romaji(159), romaji(160), 1));
    assert(before_at(romaji(160), romaji(161), 1));
    assert(before_at(romaji(161), romaji(162), 2));
    assert(before_at(romaji(162), romaji(163), 2));
    assert(before_at(romaji(163), romaji(164), 2));
    assert(before_at(romaji(164), romaji(165), 2));
    assert(before_at(romaji(165), romaji(166), 0));
    assert(before_at(romaji(166), romaji(167), 1));
    assert(before_at(romaji(167), romaji(168), 1));
    assert(before_at(romaji(168), romaji(169), 2));
    assert(before_at(romaji(169), romaji(170), 2));
    assert(before_at(romaji(170), romaji(171), 2));
    assert(before_at(romaji(171), romaji(172), 2));
    assert(before_at(romaji(172), romaji(173), 1));
    assert(before_at(romaji(173), romaji(174), 1));
    assert(before_at(romaji(174), romaji(175), 1));
    assert(before_at(romaji(175), romaji(176), 1));
    assert(before_at(romaji(176), romaji(177), 1));
    assert(before_at(romaji(177), romaji(178), 2));
    assert(before_at(romaji(178), romaji(179), 2));
    assert(before_at(romaji(179), romaji(180), 2));
    assert(before_at(romaji(180), romaji(181), 2));
    assert(before_at(romaji(181), romaji(182), 0));
}

proof fn lemma_order_7()
    ensures
        in_order(182, 208),
{
    reveal_strlit("ta");
    reveal_strlit("te");
    reveal_strlit("tha");
    reveal_strlit("the");
    reveal_strlit("thi");
    reveal_strlit("tho");
    reveal_strlit("thu");
    reveal_strlit("ti");
    reveal_strlit("to");
    reveal_strlit("tsu");
    reveal_strlit("tt");
    reveal_strlit("tu");
    reveal_strlit("twa");
    reveal_strlit("twe");
    reveal_strlit("twi");
    reveal_strlit("two");
    reveal_strlit("twu");
    reveal_strlit("tya");
    reveal_strlit("tye");
    reveal_strlit("tyi");
    reveal_strlit("tyo");
    reveal_strlit("tyu");
    reveal_strlit("u");
    reveal_strlit("va");
    reveal_strlit("ve");
    reveal_strlit("vi");
    reveal_strlit("vo");
    assert(before_at(romaji(182), romaji(183), 1));
    assert(before_at(romaji(183), romaji(184), 1));
    assert(before_at(romaji(184), romaji(185), 2));
    assert(before_at(romaji(185), romaji(186), 2));
    assert(before_at(romaji(186), romaji(187), 2));
    assert(before_at(romaji(187), romaji(188), 2));
    assert(before_at(romaji(188), romaji(189), 1));
    assert(before_at(romaji(189), romaji(190), 1));
    assert(before_at(romaji(190), romaji(191), 1));
    assert(before_at(romaji(191), romaji(192), 1));
    assert(before_at(romaji(192), romaji(193), 1));
    assert(before_at(romaji(193), romaji(194), 1));
    assert(before_at(romaji(194), romaji(195), 2));
    assert(before_at(romaji(195), romaji(196), 2));
    assert(before_at(romaji(196), romaji(197), 2));
    assert(before_at(romaji(197), romaji(198), 2));
    assert(before_at(romaji(198), romaji(199), 1));
    assert(before_at(romaji(199), romaji(200), 2));
    assert(before_at(romaji(200), romaji(201), 2));
    assert(before_at(romaji(201), romaji(202), 2));
    assert(before_at(romaji(202), romaji(203), 2));
    assert(before_at(romaji(203), romaji(204), 0));
    assert(before_at(romaji(204), romaji(205), 0));
    assert(before_at(romaji(205), romaji(206), 1));
    assert(before_at(romaji(206), romaji(207), 1));
    assert(before_at(romaji(207), romaji(208), 1));
}

proof fn lemma_order_8()
    ensures
        in_order(208, 234),
{
    reveal_strlit("vo");
    reveal_strlit("vu");
    reveal_strlit("vv");
    reveal_strlit("wa");
    reveal_strlit("we");
    reveal_strlit("wha");
    reveal_strlit("whe");
    reveal_strlit("whi");
    reveal_strlit("who");
    reveal_strlit("wi");
    reveal_strlit("wo");
    reveal_strlit("ww");
    reveal_strlit("xa");
    reveal_strlit("xe");
    reveal_strlit("xi");
    reveal_strlit("xka");
    reveal_strlit("xke");
    reveal_strlit("xo");
    reveal_strlit("xtsu");
    reveal_strlit("xtu");
    reveal_strlit("xu");
    reveal_strlit("xwa");
    reveal_strlit("xya");
    reveal_strlit("xyo");
    reveal_strlit("xyu");
    reveal_strlit("ya");
    reveal_strlit("yo");
    assert(before_at(romaji(208), romaji(209), 1));
    assert(before_at(romaji(209), romaji(210), 1));
    assert(before_at(romaji(210), romaji(211), 0));
    assert(before_at(romaji(211), romaji(212), 1));
    assert(before_at(romaji(212), romaji(213), 1));
    assert(before_at(romaji(213), romaji(214), 2));
    assert(before_at(romaji(214), romaji(215), 2));
    assert(before_at(romaji(215), romaji(216), 2));
    assert(before_at(romaji(216), romaji(217), 1));
    assert(before_at(romaji(217), romaji(218), 1));
    assert(before_at(romaji(218), romaji(219), 1));
    assert(before_at(romaji(219), romaji(220), 0));
    assert(before_at(romaji(220), romaji(221), 1));
    assert(before_at(romaji(221), romaji(222), 1));
    assert(before_at(romaji(222), romaji(223), 1));
    assert(before_at(romaji(223), romaji(224), 2));
    assert(before_at(romaji(224), romaji(225), 1));
    assert(before_at(romaji(225), romaji(226), 1));
    assert(before_at(romaji(226), romaji(227), 2));
    assert(before_at(romaji(227), romaji(228), 1));
    assert(before_at(romaji(228), romaji(229), 1));
    assert(before_at(romaji(229), romaji(230), 1));
    assert(before_at(romaji(230), romaji(231), 2));
    assert(before_at(romaji(231), romaji(232), 2));
    assert(before_at(romaji(232), romaji(233), 0));
    assert(before_at(romaji(233), romaji(234), 1));
}

proof fn lemma_order_9()
    ensures
        in_order(234, 257),
{
    reveal_strlit("yo");
    reveal_strlit("yu");
    reveal_strlit("yy");
    reveal_strlit("z,");
    reveal_strlit("z-");
    reveal_strlit("z.");
    reveal_strlit("z/");
    reveal_strlit("z[");
    reveal_strlit("z]");
    reveal_strlit("za");
    reveal_strlit("ze");
    reveal_strlit("zh");
    reveal_strlit("zi");
    reveal_strlit("zj");
    reveal_strlit("zk");
    reveal_strlit("zl");
    reveal_strlit("zo");
    reveal_strlit("zu");
    reveal_strlit("zya");
    reveal_strlit("zye");
    reveal_strlit("zyi");
    reveal_strlit("zyo");
    reveal_strlit("zyu");
    reveal_strlit("zz");
    assert(before_at(romaji(234), romaji(235), 1));
    assert(before_at(romaji(235), romaji(236), 1));
    assert(before_at(romaji(236), romaji(237), 0));
    assert(before_at(romaji(237), romaji(238), 1));
    assert(before_at(romaji(238), romaji(239), 1));
    assert(before_at(romaji(239), romaji(240), 1));
    assert(before_at(romaji(240), romaji(241), 1));
    assert(before_at(romaji(241), romaji(242), 1));
    assert(before_at(romaji(242), romaji(243), 1));
    assert(before_at(romaji(243), romaji(244), 1));
    assert(before_at(romaji(244), romaji(245), 1));
    assert(before_at(romaji(245), romaji(246), 1));
    assert(before_at(romaji(246), romaji(247), 1));
    assert(before_at(romaji(247), romaji(248), 1));
    assert(before_at(romaji(248), romaji(249), 1));
    assert(before_at(romaji(249), romaji(250), 1));
    assert(before_at(romaji(250), romaji(251), 1));
    assert(before_at(romaji(251), romaji(252), 1));
    assert(before_at(romaji(252), romaji(253), 2));
    assert(before_at(romaji(253), romaji(254), 2));
    assert(before_at(romaji(254), romaji(255), 2));
    assert(before_at(romaji(255), romaji(256), 2));
    assert(before_at(romaji(256), romaji(257), 1));
}

proof fn lemma_rows_0()
    ensures
        forall|i: int| 0 <= i < 26 ==> #[trigger] well_made(i),
{
    reveal_strlit("a");
    reveal_strlit("あ");
    reveal_strlit("");
    reveal_strlit("ba");
    reveal_strlit("ば");
    reveal_strlit("bb");
    reveal_strlit("っ");
    reveal_strlit("b");
    reveal_strlit("be");
    reveal_strlit("べ");
    reveal_strlit("bi");
    reveal_strlit("び");
    reveal_strlit("bo");
    reveal_strlit("ぼ");
    reveal_strlit("bu");
    reveal_strlit("ぶ");
    reveal_strlit("bya");
    reveal_strlit("びゃ");
    reveal_strlit("bye");
    reveal_strlit("びぇ");
    reveal_strlit("byi");
    reveal_strlit("びぃ");
    reveal_strlit("byo");
    reveal_strlit("びょ");
    reveal_strlit("byu");
    reveal_strlit("びゅ");
    reveal_strlit("cc");
    reveal_strlit("c");
    reveal_strlit("cha");
    reveal_strlit("ちゃ");
    reveal_strlit("che");
    reveal_strlit("ちぇ");
    reveal_strlit("chi");
    reveal_strlit("ち");
    reveal_strlit("cho");
    reveal_strlit("ちょ");
    reveal_strlit("chu");
    reveal_strlit("ちゅ");
    reveal_strlit("da");
    reveal_strlit("だ");
    reveal_strlit("dd");
    reveal_strlit("d");
    reveal_strlit("de");
    reveal_strlit("で");
    reveal_strlit("dha");
    reveal_strlit("でゃ");
    reveal_strlit("dhe");
    reveal_strlit("でぇ");
    reveal_strlit("dhi");
    reveal_strlit("でぃ");
    reveal_strlit("dho");
    reveal_strlit("でょ");
    reveal_strlit("dhu");
    reveal_strlit("でゅ");
    assert(text::starts_with(romaji(1), remainder(2)));
    assert(text::starts_with(romaji(12), remainder(12)));
    assert(text::starts_with(romaji(18), remainder(19)));
}

proof fn lemma_rows_1()
    ensures
        forall|i: int| 26 <= i < 52 ==> #[trigger] well_made(i),
{
    reveal_strlit("di");
    reveal_strlit("ぢ");
    reveal_strlit("");
    reveal_strlit("do");
    reveal_strlit("ど");
    reveal_strlit("du");
    reveal_strlit("づ");
    reveal_strlit("dwa");
    reveal_strlit("どぁ");
    reveal_strlit("dwe");
    reveal_strlit("どぇ");
    reveal_strlit("dwi");
    reveal_strlit("どぃ");
    reveal_strlit("dwo");
    reveal_strlit("どぉ");
    reveal_strlit("dwu");
    reveal_strlit("どぅ");
    reveal_strlit("dya");
    reveal_strlit("ぢゃ");
    reveal_strlit("dye");
    reveal_strlit("ぢぇ");
    reveal_strlit("dyi");
    reveal_strlit("ぢぃ");
    reveal_strlit("dyo");
    reveal_strlit("ぢょ");
    reveal_strlit("dyu");
    reveal_strlit("ぢゅ");
    reveal_strlit("e");
    reveal_strlit("え");
    reveal_strlit("fa");
    reveal_strlit("ふぁ");
    reveal_strlit("fe");
    reveal_strlit("ふぇ");
    reveal_strlit("ff");
    reveal_strlit("っ");
    reveal_strlit("f");
    reveal_strlit("fi");
    reveal_strlit("ふぃ");
    reveal_strlit("fo");
    reveal_strlit("ふぉ");
    reveal_strlit("fu");
    reveal_strlit("ふ");
    reveal_strlit("ga");
    reveal_strlit("が");
    reveal_strlit("ge");
    reveal_strlit("げ");
    reveal_strlit("gg");
    reveal_strlit("g");
    reveal_strlit("gi");
    reveal_strlit("ぎ");
    reveal_strlit("go");
    reveal_strlit("ご");
    reveal_strlit("gu");
    reveal_strlit("ぐ");
    assert(text::starts_with(romaji(40), remainder(42)));
    assert(text::starts_with(romaji(46), remainder(48)));
}

proof fn lemma_rows_2()
    ensures
        forall|i: int| 52 <= i < 78 ==> #[trigger] well_made(i),
{
    reveal_strlit("gwa");
    reveal_strlit("ぐぁ");
    reveal_strlit("");
    reveal_strlit("gwe");
    reveal_strlit("ぐぇ");
    reveal_strlit("gwi");
    reveal_strlit("ぐぃ");
    reveal_strlit("gwo");
    reveal_strlit("ぐぉ");
    reveal_strlit("gwu");
    reveal_strlit("ぐぅ");
    reveal_strlit("gya");
    reveal_strlit("ぎゃ");
    reveal_strlit("gye");
    reveal_strlit("ぎぇ");
    reveal_strlit("gyi");
    reveal_strlit("ぎぃ");
    reveal_strlit("gyo");
    reveal_strlit("ぎょ");
    reveal_strlit("gyu");
    reveal_strlit("ぎゅ");
    reveal_strlit("ha");
    reveal_strlit("は");
    reveal_strlit("he");
    reveal_strlit("へ");
    reveal_strlit("hh");
    reveal_strlit("っ");
    reveal_strlit("h");
    reveal_strlit("hi");
    reveal_strlit("ひ");
    reveal_strlit("ho");
    reveal_strlit("ほ");
    reveal_strlit("hu");
    reveal_strlit("ふ");
    reveal_strlit("hya");
    reveal_strlit("ひゃ");
    reveal_strlit("hye");
    reveal_strlit("ひぇ");
    reveal_strlit("hyi");
    reveal_strlit("ひぃ");
    reveal_strlit("hyo");
    reveal_strlit("ひょ");
    reveal_strlit("hyu");
    reveal_strlit("ひゅ");
    reveal_strlit("i");
    reveal_strlit("い");
    reveal_strlit("ja");
    reveal_strlit("じゃ");
    reveal_strlit("je");
    reveal_strlit("じぇ");
    reveal_strlit("ji");
    reveal_strlit("じ");
    reveal_strlit("jj");
    reveal_strlit("j");
    assert(text::starts_with(romaji(62), remainder(64)));
    assert(text::starts_with(romaji(74), remainder(77)));
}

proof fn lemma_rows_3()
    ensures
        forall|i: int| 78 <= i < 104 ==> #[trigger] well_made(i),
{
    reveal_strlit("jo");
    reveal_strlit("じょ");
    reveal_strlit("");
    reveal_strlit("ju");
    reveal_strlit("じゅ");
    reveal_strlit("jya");
    reveal_strlit("じゃ");
    reveal_strlit("jye");
    reveal_strlit("じぇ");
    reveal_strlit("jyi");
    reveal_strlit("じぃ");
    reveal_strlit("jyo");
    reveal_strlit("jyu");
    reveal_strlit("ka");
    reveal_strlit("か");
    reveal_strlit("ke");
    reveal_strlit("け");
    reveal_strlit("ki");
    reveal_strlit("き");
    reveal_strlit("kk");
    reveal_strlit("っ");
    reveal_strlit("k");
    reveal_strlit("ko");
    reveal_strlit("こ");
    reveal_strlit("ku");
    reveal_strlit("く");
    reveal_strlit("kwa");
    reveal_strlit("くぁ");
    reveal_strlit("kwe");
    reveal_strlit("くぇ");
    reveal_strlit("kwi");
    reveal_strlit("くぃ");
    reveal_strlit("kwo");
    reveal_strlit("くぉ");
    reveal_strlit("kwu");
    reveal_strlit("くぅ");
    reveal_strlit("kya");
    reveal_strlit("きゃ");
    reveal_strlit("kye");
    reveal_strlit("きぇ");
    reveal_strlit("kyi");
    reveal_strlit("きぃ");
    reveal_strlit("kyo");
    reveal_strlit("きょ");
    reveal_strlit("kyu");
    reveal_strlit("きゅ");
    reveal_strlit("ma");
    reveal_strlit("ま");
    reveal_strlit("me");
    reveal_strlit("め");
    reveal_strlit("mi");
    reveal_strlit("み");
    assert(text::starts_with(romaji(85), remainder(88)));
}

proof fn lemma_rows_4()
    ensures
        forall|i: int| 104 <= i < 130 ==> #[trigger] well_made(i),
{
    reveal_strlit("mm");
    reveal_strlit("っ");
    reveal_strlit("m");
    reveal_strlit("mo");
    reveal_strlit("も");
    reveal_strlit("");
    reveal_strlit("mu");
    reveal_strlit("む");
    reveal_strlit("mya");
    reveal_strlit("みゃ");
    reveal_strlit("mye");
    reveal_strlit("みぇ");
    reveal_strlit("myi");
    reveal_strlit("みぃ");
    reveal_strlit("myo");
    reveal_strlit("みょ");
    reveal_strlit("myu");
    reveal_strlit("みゅ");
    reveal_strlit("n'");
    reveal_strlit("ん");
    reveal_strlit("na");
    reveal_strlit("な");
    reveal_strlit("nb");
    reveal_strlit("b");
    reveal_strlit("nc");
    reveal_strlit("c");
    reveal_strlit("nd");
    reveal_strlit("d");
    reveal_strlit("ne");
    reveal_strlit("ね");
    reveal_strlit("nf");
    reveal_strlit("f");
    reveal_strlit("ng");
    reveal_strlit("g");
    reveal_strlit("nh");
    reveal_strlit("h");
    reveal_strlit("ni");
    reveal_strlit("に");
    reveal_strlit("nj");
    reveal_strlit("j");
    reveal_strlit("nk");
    reveal_strlit("k");
    reveal_strlit("nl");
    reveal_strlit("nm");
    reveal_strlit("nn");
    reveal_strlit("no");
    reveal_strlit("の");
    reveal_strlit("np");
    reveal_strlit("p");
    reveal_strlit("nq");
    reveal_strlit("ma");
    reveal_strlit("ba");
    reveal_strlit("cc");
    reveal_strlit("da");
    reveal_strlit("fa");
    reveal_strlit("ga");
    reveal_strlit("ha");
    reveal_strlit("ja");
    reveal_strlit("ka");
    reveal_strlit("pa");
    assert(text::starts_with(romaji(101), remainder(104)));
    assert(text::starts_with(romaji(1), remainder(114)));
    assert(text::starts_with(romaji(12), remainder(115)));
    assert(text::starts_with(romaji(18), remainder(116)));
    assert(text::starts_with(romaji(40), remainder(118)));
    assert(text::starts_with(romaji(46), remainder(119)));
    assert(text::starts_with(romaji(62), remainder(120)));
    assert(text::starts_with(romaji(74), remainder(122)));
    assert(text::starts_with(romaji(85), remainder(123)));
    assert(text::starts_with(romaji(101), remainder(125)));
    assert(text::starts_with(romaji(144), remainder(128)));
}

proof fn lemma_rows_5()
    ensures
        forall|i: int| 130 <= i < 156 ==> #[trigger] well_made(i),
{
    reveal_strlit("nr");
    reveal_strlit("ん");
    reveal_strlit("r");
    reveal_strlit("ns");
    reveal_strlit("s");
    reveal_strlit("nt");
    reveal_strlit("t");
    reveal_strlit("nu");
    reveal_strlit("ぬ");
    reveal_strlit("");
    reveal_strlit("nv");
    reveal_strlit("v");
    reveal_strlit("nw");
    reveal_strlit("w");
    reveal_strlit("nx");
    reveal_strlit("x");
    reveal_strlit("nya");
    reveal_strlit("にゃ");
    reveal_strlit("nye");
    reveal_strlit("にぇ");
    reveal_strlit("nyi");
    reveal_strlit("にぃ");
    reveal_strlit("nyo");
    reveal_strlit("にょ");
    reveal_strlit("nyu");
    reveal_strlit("にゅ");
    reveal_strlit("nz");
    reveal_strlit("z");
    reveal_strlit("o");
    reveal_strlit("お");
    reveal_strlit("pa");
    reveal_strlit("ぱ");
    reveal_strlit("pe");
    reveal_strlit("ぺ");
    reveal_strlit("pi");
    reveal_strlit("ぴ");
    reveal_strlit("po");
    reveal_strlit("ぽ");
    reveal_strlit("pp");
    reveal_strlit("っ");
    reveal_strlit("p");
    reveal_strlit("pu");
    reveal_strlit("ぷ");
    reveal_strlit("pya");
    reveal_strlit("ぴゃ");
    reveal_strlit("pye");
    reveal_strlit("ぴぇ");
    reveal_strlit("pyi");
    reveal_strlit("ぴぃ");
    reveal_strlit("pyo");
    reveal_strlit("ぴょ");
    reveal_strlit("pyu");
    reveal_strlit("ぴゅ");
    reveal_strlit("ra");
    reveal_strlit("ら");
    reveal_strlit("sa");
    reveal_strlit("ta");
    reveal_strlit("va");
    reveal_strlit("wa");
    reveal_strlit("xa");
    reveal_strlit("z,");
    assert(text::starts_with(romaji(155), remainder(130)));
    assert(text::starts_with(romaji(166), remainder(131)));
    assert(text::starts_with(romaji(182), remainder(132)));
    assert(text::starts_with(romaji(205), remainder(134)));
    assert(text::starts_with(romaji(211), remainder(135)));
    assert(text::starts_with(romaji(220), remainder(136)));
    assert(text::starts_with(romaji(237), remainder(142)));
    assert(text::starts_with(romaji(144), remainder(148)));
}

proof fn lemma_rows_6()
    ensures
        forall|i: int| 156 <= i < 182 ==> #[trigger] well_made(i),
{
    reveal_strlit("re");
    reveal_strlit("れ");
    reveal_strlit("");
    reveal_strlit("ri");
    reveal_strlit("り");
    reveal_strlit("ro");
    reveal_strlit("ろ");
    reveal_strlit("rr");
    reveal_strlit("っ");
    reveal_strlit("r");
    reveal_strlit("ru");
    reveal_strlit("る");
    reveal_strlit("rya");
    reveal_strlit("りゃ");
    reveal_strlit("rye");
    reveal_strlit("りぇ");
    reveal_strlit("ryi");
    reveal_strlit("りぃ");
    reveal_strlit("ryo");
    reveal_strlit("りょ");
    reveal_strlit("ryu");
    reveal_strlit("りゅ");
    reveal_strlit("sa");
    reveal_strlit("さ");
    reveal_strlit("se");
    reveal_strlit("せ");
    reveal_strlit("sha");
    reveal_strlit("しゃ");
    reveal_strlit("she");
    reveal_strlit("しぇ");
    reveal_strlit("shi");
    reveal_strlit("し");
    reveal_strlit("sho");
    reveal_strlit("しょ");
    reveal_strlit("shu");
    reveal_strlit("しゅ");
    reveal_strlit("si");
    reveal_strlit("so");
    reveal_strlit("そ");
    reveal_strlit("ss");
    reveal_strlit("s");
    reveal_strlit("su");
    reveal_strlit("す");
    reveal_strlit("sya");
    reveal_strlit("sye");
    reveal_strlit("syi");
    reveal_strlit("しぃ");
    reveal_strlit("syo");
    reveal_strlit("syu");
    reveal_strlit("ra");
    assert(text::starts_with(romaji(155), remainder(159)));
    assert(text::starts_with(romaji(166), remainder(175)));
}

proof fn lemma_rows_7()
    ensures
        forall|i: int| 182 <= i < 208 ==> #[trigger] well_made(i),
{
    reveal_strlit("ta");
    reveal_strlit("た");
    reveal_strlit("");
    reveal_strlit("te");
    reveal_strlit("て");
    reveal_strlit("tha");
    reveal_strlit("てゃ");
    reveal_strlit("the");
    reveal_strlit("てぇ");
    reveal_strlit("thi");
    reveal_strlit("てぃ");
    reveal_strlit("tho");
    reveal_strlit("てょ");
    reveal_strlit("thu");
    reveal_strlit("てゅ");
    reveal_strlit("ti");
    reveal_strlit("ち");
    reveal_strlit("to");
    reveal_strlit("と");
    reveal_strlit("tsu");
    reveal_strlit("つ");
    reveal_strlit("tt");
    reveal_strlit("っ");
    reveal_strlit("t");
    reveal_strlit("tu");
    reveal_strlit("twa");
    reveal_strlit("とぁ");
    reveal_strlit("twe");
    reveal_strlit("とぇ");
    reveal_strlit("twi");
    reveal_strlit("とぃ");
    reveal_strlit("two");
    reveal_strlit("とぉ");
    reveal_strlit("twu");
    reveal_strlit("とぅ");
    reveal_strlit("tya");
    reveal_strlit("ちゃ");
    reveal_strlit("tye");
    reveal_strlit("ちぇ");
    reveal_strlit("tyi");
    reveal_strlit("ちぃ");
    reveal_strlit("tyo");
    reveal_strlit("ちょ");
    reveal_strlit("tyu");
    reveal_strlit("ちゅ");
    reveal_strlit("u");
    reveal_strlit("う");
    reveal_strlit("va");
    reveal_strlit("ゔぁ");
    reveal_strlit("ve");
    reveal_strlit("ゔぇ");
    reveal_strlit("vi");
    reveal_strlit("ゔぃ");
    assert(text::starts_with(romaji(182), remainder(192)));
}

proof fn lemma_rows_8()
    ensures
        forall|i: int| 208 <= i < 234 ==> #[trigger] well_made(i),
{
    reveal_strlit("vo");
    reveal_strlit("ゔぉ");
    reveal_strlit("");
    reveal_strlit("vu");
    reveal_strlit("ゔ");
    reveal_strlit("vv");
    reveal_strlit("っ");
    reveal_strlit("v");
    reveal_strlit("wa");
    reveal_strlit("わ");
    reveal_strlit("we");
    reveal_strlit("ゑ");
    reveal_strlit("wha");
    reveal_strlit("うぁ");
    reveal_strlit("whe");
    reveal_strlit("うぇ");
    reveal_strlit("whi");
    reveal_strlit("うぃ");
    reveal_strlit("who");
    reveal_strlit("うぉ");
    reveal_strlit("wi");
    reveal_strlit("ゐ");
    reveal_strlit("wo");
    reveal_strlit("を");
    reveal_strlit("ww");
    reveal_strlit("w");
    reveal_strlit("xa");
    reveal_strlit("ぁ");
    reveal_strlit("xe");
    reveal_strlit("ぇ");
    reveal_strlit("xi");
    reveal_strlit("ぃ");
    reveal_strlit("xka");
    reveal_strlit("ヵ");
    reveal_strlit("xke");
    reveal_strlit("ヶ");
    reveal_strlit("xo");
    reveal_strlit("ぉ");
    reveal_strlit("xtsu");
    reveal_strlit("xtu");
    reveal_strlit("xu");
    reveal_strlit("ぅ");
    reveal_strlit("xwa");
    reveal_strlit("ゎ");
    reveal_strlit("xya");
    reveal_strlit("ゃ");
    reveal_strlit("xyo");
    reveal_strlit("ょ");
    reveal_strlit("xyu");
    reveal_strlit("ゅ");
    reveal_strlit("ya");
    reveal_strlit("や");
    reveal_strlit("va");
    assert(text::starts_with(romaji(205), remainder(210)));
    assert(text::starts_with(romaji(211), remainder(219)));
}

proof fn lemma_rows_9()
    ensures
        forall|i: int| 234 <= i < 258 ==> #[trigger] well_made(i),
{
    reveal_strlit("yo");
    reveal_strlit("よ");
    reveal_strlit("");
    reveal_strlit("yu");
    reveal_strlit("ゆ");
    reveal_strlit("yy");
    reveal_strlit("っ");
    reveal_strlit("y");
    reveal_strlit("z,");
    reveal_strlit("‥");
    reveal_strlit("z-");
    reveal_strlit("〜");
    reveal_strlit("z.");
    reveal_strlit("…");
    reveal_strlit("z/");
    reveal_strlit("・");
    reveal_strlit("z[");
    reveal_strlit("『");
    reveal_strlit("z]");
    reveal_strlit("』");
    reveal_strlit("za");
    reveal_strlit("ざ");
    reveal_strlit("ze");
    reveal_strlit("ぜ");
    reveal_strlit("zh");
    reveal_strlit("←");
    reveal_strlit("zi");
    reveal_strlit("じ");
    reveal_strlit("zj");
    reveal_strlit("↓");
    reveal_strlit("zk");
    reveal_strlit("↑");
    reveal_strlit("zl");
    reveal_strlit("→");
    reveal_strlit("zo");
    reveal_strlit("ぞ");
    reveal_strlit("zu");
    reveal_strlit("ず");
    reveal_strlit("zya");
    reveal_strlit("じゃ");
    reveal_strlit("zye");
    reveal_strlit("じぇ");
    reveal_strlit("zyi");
    reveal_strlit("じぃ");
    reveal_strlit("zyo");
    reveal_strlit("じょ");
    reveal_strlit("zyu");
    reveal_strlit("じゅ");
    reveal_strlit("zz");
    reveal_strlit("z");
    reveal_strlit("ya");
    assert(text::starts_with(romaji(233), remainder(236)));
    assert(text::starts_with(romaji(237), remainder(257)));
}

/// The rows are sorted by romaji, and no romaji is the start of another: two
/// rows differ at some position that both have.
pub proof fn lemma_rows_apart(i: int, j: int)
    requires
        0 <= i < j < DEFAULT_ENTRIES@.len(),
    ensures
        exists|d: int| before_at(romaji(i), romaji(j), d),
    decreases j - i,
{
    lemma_neighbours(j - 1);
    if i < j - 1 {
        lemma_rows_apart(i, j - 1);
        let (a, b, c) = (romaji(i), romaji(j - 1), romaji(j));
        let d1 = choose|d: int| before_at(a, b, d);
        let d2 = choose|d: int| before_at(b, c, d);
        let d = if d1 < d2 { d1 } else { d2 };
        assert(before_at(a, c, d));
    }
}

proof fn lemma_neighbours(i: int)
    requires
        0 <= i < DEFAULT_ENTRIES@.len() - 1,
    ensures
        before(romaji(i), romaji(i + 1)),
{
    lemma_order_0();
    lemma_order_1();
    lemma_order_2();
    lemma_order_3();
    lemma_order_4();
    lemma_order_5();
    lemma_order_6();
    lemma_order_7();
    lemma_order_8();
    lemma_order_9();
}

/// Every row has romaji and kana, and what it leaves behind is nothing or the
/// start of the longer romaji of some row.
pub proof fn lemma_well_made(i: int)
    requires
        0 <= i < DEFAULT_ENTRIES@.len(),
    ensures
        well_made(i),
{
    lemma_rows_0();
    lemma_rows_1();
    lemma_rows_2();
    lemma_rows_3();
    lemma_rows_4();
    lemma_rows_5();
    lemma_rows_6();
    lemma_rows_7();
    lemma_rows_8();
    lemma_rows_9();
}

/// The consonants that can be doubled.
pub open spec fn is_doubled(c: char) -> bool {
    ||| c == 'b'
    ||| c == 'c'
    ||| c == 'd'
    ||| c == 'f'
    ||| c == 'g'
    ||| c == 'h'
    ||| c == 'j'
    ||| c == 'k'
    ||| c == 'm'
    ||| c == 'p'
    ||| c == 'r'
    ||| c == 's'
    ||| c == 't'
    ||| c == 'v'
    ||| c == 'w'
    ||| c == 'y'
    ||| c == 'z'
}

/// The consonants before which an `n` is ん.
pub open spec fn is_after_n(c: char) -> bool {
    ||| c == 'b'
    ||| c == 'c'
    ||| c == 'd'
    ||| c == 'f'
    ||| c == 'g'
    ||| c == 'h'
    ||| c == 'j'
    ||| c == 'k'
    ||| c == 'm'
    ||| c == 'p'
    ||| c == 'r'
    ||| c == 's'
    ||| c == 't'
    ||| c == 'v'
    ||| c == 'w'
    ||| c == 'x'
    ||| c == 'z'
}

/// Every consonant that can be doubled has its row, and every consonant before
/// which an `n` is ん has one.
pub proof fn lemma_consonant_rows(c: char)
    ensures
        is_doubled(c) ==> exists|i: int|
            0 <= i < DEFAULT_ENTRIES@.len() && #[trigger] romaji(i) == seq![c, c],
        is_after_n(c) ==> exists|i: int|
            0 <= i < DEFAULT_ENTRIES@.len() && #[trigger] romaji(i) == seq!['n', c],
{
    reveal_strlit("bb");
    reveal_strlit("cc");
    reveal_strlit("dd");
    reveal_strlit("ff");
    reveal_strlit("gg");
    reveal_strlit("hh");
    reveal_strlit("jj");
    reveal_strlit("kk");
    reveal_strlit("mm");
    reveal_strlit("pp");
    reveal_strlit("rr");
    reveal_strlit("ss");
    reveal_strlit("tt");
    reveal_strlit("vv");
    reveal_strlit("ww");
    reveal_strlit("yy");
    reveal_strlit("zz");
    reveal_strlit("nb");
    reveal_strlit("nc");
    reveal_strlit("nd");
    reveal_strlit("nf");
    reveal_strlit("ng");
    reveal_strlit("nh");
    reveal_strlit("nj");
    reveal_strlit("nk");
    reveal_strlit("nm");
    reveal_strlit("np");
    reveal_strlit("nr");
    reveal_strlit("ns");
    reveal_strlit("nt");
    reveal_strlit("nv");
    reveal_strlit("nw");
    reveal_strlit("nx");
    reveal_strlit("nz");
    assert(romaji(2) =~= seq!['b', 'b']);
    assert(romaji(12) =~= seq!['c', 'c']);
    assert(romaji(19) =~= seq!['d', 'd']);
    assert(romaji(42) =~= seq!['f', 'f']);
    assert(romaji(48) =~= seq!['g', 'g']);
    assert(romaji(64) =~= seq!['h', 'h']);
    assert(romaji(77) =~= seq!['j', 'j']);
    assert(romaji(88) =~= seq!['k', 'k']);
    assert(romaji(104) =~= seq!['m', 'm']);
    assert(romaji(148) =~= seq!['p', 'p']);
    assert(romaji(159) =~= seq!['r', 'r']);
    assert(romaji(175) =~= seq!['s', 's']);
    assert(romaji(192) =~= seq!['t', 't']);
    assert(romaji(210) =~= seq!['v', 'v']);
    assert(romaji(219) =~= seq!['w', 'w']);
    assert(romaji(236) =~= seq!['y', 'y']);
    assert(romaji(257) =~= seq!['z', 'z']);
    assert(romaji(114) =~= seq!['n', 'b']);
    assert(romaji(115) =~= seq!['n', 'c']);
    assert(romaji(116) =~= seq!['n', 'd']);
    assert(romaji(118) =~= seq!['n', 'f']);
    assert(romaji(119) =~= seq!['n', 'g']);
    assert(romaji(120) =~= seq!['n', 'h']);
    assert(romaji(122) =~= seq!['n', 'j']);
    assert(romaji(123) =~= seq!['n', 'k']);
    assert(romaji(125) =~= seq!['n', 'm']);
    assert(romaji(128) =~= seq!['n', 'p']);
    assert(romaji(130) =~= seq!['n', 'r']);
    assert(romaji(131) =~= seq!['n', 's']);
    assert(romaji(132) =~= seq!['n', 't']);
    assert(romaji(134) =~= seq!['n', 'v']);
    assert(romaji(135) =~= seq!['n', 'w']);
    assert(romaji(136) =~= seq!['n', 'x']);
    assert(romaji(142) =~= seq!['n', 'z']);
}

} // verus!
