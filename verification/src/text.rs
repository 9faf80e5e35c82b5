//! Text as sequences of characters: white space, words, joining, decimal
//! numerals.

use vstd::prelude::*;

verus! {

/// `String::push` appends one character.
pub assume_specification[ String::push ](s: &mut String, c: char)
    ensures
        final(s)@ == old(s)@.push(c),
;

/// The characters with the Unicode property `White_Space`.
pub open spec fn white_space(c: char) -> bool {
    let n = c as u32;
    ||| 0x09 <= n <= 0x0D
    ||| n == 0x20
    ||| n == 0x85
    ||| n == 0xA0
    ||| n == 0x1680
    ||| 0x2000 <= n <= 0x200A
    ||| n == 0x2028
    ||| n == 0x2029
    ||| n == 0x202F
    ||| n == 0x205F
    ||| n == 0x3000
}

/// Whether `c` is white space.
pub fn is_white_space(c: char) -> (r: bool)
    ensures
        r == white_space(c),
{
    let n: u32 = c as u32;
    (0x09 <= n && n <= 0x0D) || n == 0x20 || n == 0x85 || n == 0xA0 || n == 0x1680 || (0x2000 <= n
        && n <= 0x200A) || n == 0x2028 || n == 0x2029 || n == 0x202F || n == 0x205F || n
        == 0x3000
}

/// A text is blank when it holds nothing but white space.
pub open spec fn blank(s: Seq<char>) -> bool {
    forall|i: int| 0 <= i < s.len() ==> white_space(#[trigger] s[i])
}

/// Whether `s` is blank.
pub fn is_blank(s: &str) -> (r: bool)
    ensures
        r == blank(s@),
{
    let mut all = true;
    for c in it: s.chars()
        invariant
            it.seq() == s@,
            all == blank(s@.take(it.index())),
    {
        let ghost before = s@.take(it.index());
        let ghost after = s@.take(it.index() + 1);
        if !is_white_space(c) {
            all = false;
            assert(!white_space(after[it.index()]));
        } else {
            assert(blank(before) ==> blank(after)) by {
                if blank(before) {
                    assert forall|i: int| 0 <= i < after.len() implies white_space(
                        #[trigger] after[i],
                    ) by {
                        if i < before.len() {
                            assert(after[i] == before[i]);
                        }
                    }
                }
            }
        }
    }
    assert(s@.take(s@.len() as int) == s@);
    all
}

/// The characters of `s`, one by one.
pub fn chars_of(s: &str) -> (v: Vec<char>)
    ensures
        v@ == s@,
{
    let mut v: Vec<char> = Vec::new();
    for c in it: s.chars()
        invariant
            it.seq() == s@,
            v@ == s@.take(it.index()),
    {
        v.push(c);
    }
    v
}

/// The text made of the characters `v[from..to]`.
pub fn text_of(v: &Vec<char>, from: usize, to: usize) -> (s: String)
    requires
        from <= to <= v.len(),
    ensures
        s@ == v@.subrange(from as int, to as int),
{
    let mut s = String::new();
    let mut i: usize = from;
    while i < to
        invariant
            from <= i <= to <= v.len(),
            s@ == v@.subrange(from as int, i as int),
        decreases to - i,
    {
        s.push(v[i]);
        i = i + 1;
    }
    s
}

/// The length of the longest prefix of `s` that is free of white space.
pub open spec fn word_len(s: Seq<char>) -> nat
    decreases s.len(),
{
    if s.len() == 0 || white_space(s[0]) {
        0
    } else {
        1 + word_len(s.drop_first())
    }
}

/// The words of a text: its maximal runs of characters that are not white
/// space, in order. Leading, trailing and repeated white space yields no empty
/// word.
pub open spec fn words(s: Seq<char>) -> Seq<Seq<char>>
    decreases s.len(),
{
    if s.len() == 0 {
        Seq::empty()
    } else if white_space(s[0]) {
        words(s.drop_first())
    } else {
        let n = word_len(s) as int;
        proof {
            lemma_word_len_bound(s);
        }
        seq![s.take(n)] + words(s.skip(n))
    }
}

/// The first word is no longer than the text, and not empty where the text
/// starts with a character that is not white space.
pub proof fn lemma_word_len_bound(s: Seq<char>)
    ensures
        word_len(s) <= s.len(),
        s.len() > 0 && !white_space(s[0]) ==> word_len(s) >= 1,
    decreases s.len(),
{
    if s.len() > 0 && !white_space(s[0]) {
        lemma_word_len_bound(s.drop_first());
    }
}

/// A run of `n` characters free of white space that ends the text or is
/// followed by white space is the first word.
proof fn lemma_word_len_is(s: Seq<char>, n: int)
    requires
        0 <= n <= s.len(),
        forall|i: int| 0 <= i < n ==> !white_space(#[trigger] s[i]),
        n == s.len() || white_space(s[n]),
    ensures
        word_len(s) == n,
    decreases n,
{
    if n > 0 {
        let rest = s.drop_first();
        lemma_word_len_is(rest, n - 1);
    }
}

/// Every word is free of white space and not empty.
pub proof fn lemma_words_are_solid(s: Seq<char>, k: int)
    requires
        0 <= k < words(s).len(),
    ensures
        words(s)[k].len() > 0,
        forall|i: int| 0 <= i < words(s)[k].len() ==> !white_space(#[trigger] words(s)[k][i]),
    decreases s.len(),
{
    if s.len() == 0 {
    } else if white_space(s[0]) {
        lemma_words_are_solid(s.drop_first(), k);
    } else {
        let n = word_len(s) as int;
        lemma_word_len_bound(s);
        if k == 0 {
            lemma_word_run(s);
        } else {
            lemma_words_are_solid(s.skip(n), k - 1);
        }
    }
}

proof fn lemma_word_run(s: Seq<char>)
    ensures
        forall|i: int| 0 <= i < word_len(s) ==> !white_space(#[trigger] s[i]),
    decreases s.len(),
{
    if s.len() > 0 && !white_space(s[0]) {
        let rest = s.drop_first();
        lemma_word_run(rest);
        lemma_word_len_bound(s);
        assert forall|i: int| 0 <= i < word_len(s) implies !white_space(#[trigger] s[i]) by {
            if i > 0 {
                assert(s[i] == rest[i - 1]);
            }
        }
    }
}

/// The view of a vector of texts: the sequence of their characters.
pub open spec fn texts(v: Seq<String>) -> Seq<Seq<char>> {
    Seq::new(v.len(), |i: int| v[i]@)
}

/// Splits a text into its words.
pub fn split_words(s: &str) -> (parts: Vec<String>)
    ensures
        texts(parts@) == words(s@),
{
    let v = chars_of(s);
    let mut parts: Vec<String> = Vec::new();
    let mut i: usize = 0;
    proof {
        assert(v@.skip(0) == v@);
    }
    while i < v.len()
        invariant
            i <= v.len(),
            v@ == s@,
            texts(parts@) + words(v@.skip(i as int)) == words(v@),
        decreases v.len() - i,
    {
        let ghost rest = v@.skip(i as int);
        if is_white_space(v[i]) {
            assert(rest.drop_first() == v@.skip(i + 1));
            i = i + 1;
        } else {
            let start = i;
            while i < v.len() && !is_white_space(v[i])
                invariant
                    start <= i <= v.len(),
                    forall|j: int| start <= j < i ==> !white_space(#[trigger] v@[j]),
                decreases v.len() - i,
            {
                i = i + 1;
            }
            let word = text_of(&v, start, i);
            proof {
                let n = i - start;
                lemma_word_len_is(rest, n);
                assert(rest.take(n) == v@.subrange(start as int, i as int));
                assert(rest.skip(n) == v@.skip(i as int));
                let ghost before = texts(parts@);
                assert(texts(parts@.push(word)) == before + seq![word@]);
            }
            parts.push(word);
        }
    }
    parts
}

/// Texts joined by single spaces.
pub open spec fn joined(parts: Seq<Seq<char>>) -> Seq<char>
    decreases parts.len(),
{
    if parts.len() == 0 {
        Seq::empty()
    } else if parts.len() == 1 {
        parts[0]
    } else {
        joined(parts.drop_last()) + seq![' '] + parts.last()
    }
}

/// The texts from index `from` on, joined by single spaces; the empty text
/// where there are none.
pub open spec fn joined_from(parts: Seq<Seq<char>>, from: int) -> Seq<char> {
    if 0 <= from < parts.len() {
        joined(parts.skip(from))
    } else {
        Seq::empty()
    }
}

/// The texts `parts[from..]` joined by single spaces.
pub fn join_from(parts: &Vec<String>, from: usize) -> (s: String)
    ensures
        s@ == joined_from(texts(parts@), from as int),
{
    let mut s = String::new();
    if from >= parts.len() {
        return s;
    }
    let ghost all = texts(parts@).skip(from as int);
    let mut i: usize = from;
    while i < parts.len()
        invariant
            from <= i <= parts.len(),
            from < parts.len(),
            all == texts(parts@).skip(from as int),
            s@ == joined(all.take(i - from)),
        decreases parts.len() - i,
    {
        let ghost upto = all.take(i - from + 1);
        proof {
            assert(upto.drop_last() == all.take(i - from));
        }
        if i > from {
            s.push(' ');
        }
        s.append(parts[i].as_str());
        i = i + 1;
    }
    assert(all.take(parts.len() - from) == all);
    s
}

/// The decimal digit for a number below ten.
pub open spec fn digit(d: nat) -> char {
    ((48 + d) as u8) as char
}

/// A number written in decimal, without leading zeros.
pub open spec fn decimal(n: nat) -> Seq<char>
    decreases n,
{
    if n < 10 {
        seq![digit(n)]
    } else {
        decimal(n / 10).push(digit(n % 10))
    }
}

/// Writes a number in decimal.
pub fn decimal_text(n: u64) -> (s: String)
    ensures
        s@ == decimal(n as nat),
    decreases n,
{
    if n < 10 {
        let mut s = String::new();
        s.push((48u8 + (n as u8)) as char);
        s
    } else {
        let mut s = decimal_text(n / 10);
        s.push((48u8 + ((n % 10) as u8)) as char);
        s
    }
}

/// Two texts, one after the other.
pub fn appended(a: &str, b: &str) -> (s: String)
    ensures
        s@ == a@ + b@,
{
    let mut s = String::from_str(a);
    s.append(b);
    s
}

/// Whether two texts are the same.
pub fn same_text(a: &str, b: &str) -> (r: bool)
    ensures
        r == (a@ == b@),
{
    let x = String::from_str(a);
    let y = String::from_str(b);
    x == y
}

} // verus!
