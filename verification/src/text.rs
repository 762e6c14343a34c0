//! Character-level text helpers shared by the board scanner: splitting a
//! comment into words, substring search, decimal rendering of numbers and
//! the (Unicode) case and letter queries that std answers for us.
use vstd::prelude::*;
use vstd::string::StrSliceExecFns;
use vstd::string::StringExecFns;
use vstd::std_specs::iter::IteratorSpec;

verus! {

/// The `White_Space` property of Unicode, which `char::is_whitespace`
/// and `str::split_whitespace` go by.
pub open spec fn is_white_space(c: char) -> bool {
    let u = c as u32;
    ||| 0x9 <= u <= 0xd
    ||| u == 0x20
    ||| u == 0x85
    ||| u == 0xa0
    ||| u == 0x1680
    ||| 0x2000 <= u <= 0x200a
    ||| u == 0x2028
    ||| u == 0x2029
    ||| u == 0x202f
    ||| u == 0x205f
    ||| u == 0x3000
}

/// The words of `s`: its maximal runs of characters that are not white
/// space, in order (what `str::split_whitespace` yields).
pub open spec fn words_of(s: Seq<char>) -> Seq<Seq<char>>
    decreases s.len(),
{
    if s.len() == 0 {
        Seq::empty()
    } else {
        let c = s.last();
        let p = s.drop_last();
        if is_white_space(c) {
            words_of(p)
        } else if p.len() > 0 && !is_white_space(p.last()) {
            let w = words_of(p);
            w.drop_last().push(w.last().push(c))
        } else {
            words_of(p).push(seq![c])
        }
    }
}

/// `needle` occurs in `hay` as a contiguous piece (what `str::contains`
/// answers for a string pattern).
pub open spec fn has_substring(hay: Seq<char>, needle: Seq<char>) -> bool {
    exists|i: int| 0 <= i <= hay.len() - needle.len() && #[trigger] hay.subrange(i, i + needle.len()) == needle
}

/// The view of each string of a sequence.
pub open spec fn string_views(v: Seq<String>) -> Seq<Seq<char>> {
    v.map_values(|w: String| w@)
}

/// What `str::to_uppercase` returns for a string (full Unicode case mapping).
pub uninterp spec fn uppercase_of(s: Seq<char>) -> Seq<char>;

/// Whether `char::is_alphabetic` holds (the Unicode `Alphabetic` property).
pub uninterp spec fn alphabetic(c: char) -> bool;

/// Calls `str::to_uppercase`. The contract says only that the result is the
/// uppercase mapping of the argument, given by name: the Unicode mapping
/// tables are not written out here.
#[verifier::external_body]
pub(crate) fn to_uppercase(s: &str) -> (r: String)
    ensures
        r@ == uppercase_of(s@),
{
    s.to_uppercase()
}

/// Calls `char::is_alphabetic`. The contract ties the answer to the named
/// Unicode property; the property's tables are not written out here.
#[verifier::external_body]
pub(crate) fn char_is_alphabetic(c: char) -> (b: bool)
    ensures
        b == alphabetic(c),
{
    c.is_alphabetic()
}

/// The characters of `s`, in order.
pub fn chars_of(s: &str) -> (v: Vec<char>)
    ensures
        v@ == s@,
{
    let mut v: Vec<char> = Vec::new();
    let mut it = s.chars();
    loop
        invariant
            v@ + it.remaining() == s@,
            it.decrease() is Some,
        ensures
            v@ == s@,
        decreases it.decrease()->0,
    {
        match it.next() {
            Some(c) => {
                v.push(c);
            },
            None => {
                assert(v@ + it.remaining() =~= v@);
                break;
            },
        }
    }
    v
}

/// Whether `c` is white space in the sense of Unicode's `White_Space`.
pub fn is_white_space_char(c: char) -> (b: bool)
    ensures
        b == is_white_space(c),
{
    let u = c as u32;
    (0x9 <= u && u <= 0xd) || u == 0x20 || u == 0x85 || u == 0xa0 || u == 0x1680 || (0x2000 <= u
        && u <= 0x200a) || u == 0x2028 || u == 0x2029 || u == 0x202f || u == 0x205f || u == 0x3000
}

/// Whether `needle` occurs in `hay`.
pub fn contains_chars(hay: &Vec<char>, needle: &Vec<char>) -> (b: bool)
    ensures
        b == has_substring(hay@, needle@),
{
    let n = needle.len();
    if n > hay.len() {
        assert forall|i: int| 0 <= i <= hay@.len() - needle@.len() implies #[trigger] hay@.subrange(
            i,
            i + needle@.len(),
        ) != needle@ by {}
        return false;
    }
    let last = hay.len() - n;
    let mut i: usize = 0;
    loop
        invariant
            n == needle@.len(),
            last + n == hay@.len(),
            last + n <= usize::MAX,
            i <= last,
            forall|k: int| 0 <= k < i ==> #[trigger] hay@.subrange(k, k + n) != needle@,
        ensures
            forall|k: int| 0 <= k <= last ==> #[trigger] hay@.subrange(k, k + n) != needle@,
        decreases last - i,
    {
        let mut j: usize = 0;
        let mut same = true;
        while j < n && same
            invariant
                n == needle@.len(),
                last + n == hay@.len(),
                last + n <= usize::MAX,
                i <= last,
                j <= n,
                same ==> forall|m: int| 0 <= m < j ==> hay@[i + m] == needle@[m],
                !same ==> hay@[i + j - 1] != needle@[j - 1] && j >= 1,
            decreases n - j + (if same { 1int } else { 0int }),
        {
            if hay[i + j] != needle[j] {
                same = false;
            }
            j = j + 1;
        }
        if same {
            assert(hay@.subrange(i as int, i + n) =~= needle@);
            return true;
        }
        assert(hay@.subrange(i as int, i + n)[j - 1] != needle@[j - 1]);
        if i == last {
            break;
        }
        i = i + 1;
    }
    false
}

/// Whether the string `needle` occurs in the string `hay`.
pub fn str_contains(hay: &str, needle: &str) -> (b: bool)
    ensures
        b == has_substring(hay@, needle@),
{
    let h = chars_of(hay);
    let n = chars_of(needle);
    contains_chars(&h, &n)
}

/// Splitting one more character onto a prefix: how `words_of` grows.
proof fn lemma_words_step(s: Seq<char>, i: int)
    requires
        0 <= i < s.len(),
    ensures
        s.take(i + 1).drop_last() == s.take(i),
        s.take(i + 1).last() == s[i],
        words_of(s.take(i + 1)) == if is_white_space(s[i]) {
            words_of(s.take(i))
        } else if i > 0 && !is_white_space(s[i - 1]) {
            words_of(s.take(i)).drop_last().push(words_of(s.take(i)).last().push(s[i]))
        } else {
            words_of(s.take(i)).push(seq![s[i]])
        },
{
    assert(s.take(i + 1).drop_last() =~= s.take(i));
}

/// The words of `s`, each as a string of its own, in order
/// (`str::split_whitespace` collected).
pub fn split_words(s: &str) -> (words: Vec<String>)
    ensures
        string_views(words@) == words_of(s@),
{
    let cs = chars_of(s);
    let n = cs.len();
    let mut words: Vec<String> = Vec::new();
    let mut in_word = false;
    let mut start: usize = 0;
    let mut i: usize = 0;
    while i < n
        invariant
            n == cs@.len(),
            cs@ == s@,
            i <= n,
            start <= i,
            in_word ==> start < i && i > 0 && !is_white_space(cs@[i - 1]),
            !in_word ==> i == 0 || is_white_space(cs@[i - 1]),
            in_word ==> words_of(cs@.take(i as int)) == string_views(words@).push(
                cs@.subrange(start as int, i as int),
            ),
            !in_word ==> words_of(cs@.take(i as int)) == string_views(words@),
        decreases n - i,
    {
        let c = cs[i];
        proof {
            lemma_words_step(cs@, i as int);
        }
        if is_white_space_char(c) {
            if in_word {
                let w = s.substring_char(start, i);
                let ghost before = words@;
                words.push(w.to_owned());
                assert(string_views(words@) =~= string_views(before).push(
                    cs@.subrange(start as int, i as int),
                ));
            }
            in_word = false;
        } else {
            if in_word {
                assert(cs@.subrange(start as int, i as int).push(c) =~= cs@.subrange(
                    start as int,
                    i + 1,
                ));
            } else {
                start = i;
                assert(seq![c] =~= cs@.subrange(start as int, i + 1));
            }
            in_word = true;
        }
        i = i + 1;
    }
    assert(cs@.take(n as int) =~= cs@);
    if in_word {
        let w = s.substring_char(start, n);
        let ghost before = words@;
        words.push(w.to_owned());
        assert(string_views(words@) =~= string_views(before).push(
            cs@.subrange(start as int, n as int),
        ));
    }
    words
}

/// The decimal digit character for `d` (below ten).
pub open spec fn digit_char(d: nat) -> char {
    if d == 0 {
        '0'
    } else if d == 1 {
        '1'
    } else if d == 2 {
        '2'
    } else if d == 3 {
        '3'
    } else if d == 4 {
        '4'
    } else if d == 5 {
        '5'
    } else if d == 6 {
        '6'
    } else if d == 7 {
        '7'
    } else if d == 8 {
        '8'
    } else {
        '9'
    }
}

/// The decimal digits of `n`, most significant first, without leading zeros.
pub open spec fn digits_of(n: nat) -> Seq<char>
    decreases n,
{
    if n < 10 {
        seq![digit_char(n)]
    } else {
        digits_of(n / 10).push(digit_char(n % 10))
    }
}

/// How `i32::to_string` writes `n`: a minus sign for negative numbers, then
/// the digits of the magnitude.
pub open spec fn decimal_of(n: int) -> Seq<char> {
    if n < 0 {
        seq!['-'] + digits_of((-n) as nat)
    } else {
        digits_of(n as nat)
    }
}

fn digit_str(d: u64) -> (s: &'static str)
    requires
        d < 10,
    ensures
        s@ == seq![digit_char(d as nat)],
{
    proof {
        reveal_strlit("0");
        reveal_strlit("1");
        reveal_strlit("2");
        reveal_strlit("3");
        reveal_strlit("4");
        reveal_strlit("5");
        reveal_strlit("6");
        reveal_strlit("7");
        reveal_strlit("8");
        reveal_strlit("9");
    }
    if d == 0 {
        "0"
    } else if d == 1 {
        "1"
    } else if d == 2 {
        "2"
    } else if d == 3 {
        "3"
    } else if d == 4 {
        "4"
    } else if d == 5 {
        "5"
    } else if d == 6 {
        "6"
    } else if d == 7 {
        "7"
    } else if d == 8 {
        "8"
    } else {
        "9"
    }
}

fn digits_string(n: u64) -> (s: String)
    ensures
        s@ == digits_of(n as nat),
    decreases n,
{
    if n < 10 {
        String::from_str(digit_str(n))
    } else {
        let mut s = digits_string(n / 10);
        s.append(digit_str(n % 10));
        s
    }
}

/// `n` written in decimal, as `i32::to_string` writes it.
pub fn decimal_string(n: i32) -> (s: String)
    ensures
        s@ == decimal_of(n as int),
{
    if n < 0 {
        let magnitude: u64 = (0 - (n as i64)) as u64;
        proof {
            reveal_strlit("-");
        }
        let mut s = String::from_str("-");
        let digits = digits_string(magnitude);
        s.append(digits.as_str());
        s
    } else {
        digits_string(n as u64)
    }
}

/// Splitting into words loses nothing but white space: every word is
/// non-empty and holds no white space.
pub proof fn law_words_are_nonblank(s: Seq<char>)
    ensures
        forall|i: int| 0 <= i < words_of(s).len() ==> #[trigger] words_of(s)[i].len() > 0,
        forall|i: int, j: int|
            0 <= i < words_of(s).len() && 0 <= j < words_of(s)[i].len() ==> !is_white_space(
                #[trigger] words_of(s)[i][j],
            ),
    decreases s.len(),
{
    if s.len() > 0 {
        let p = s.drop_last();
        law_words_are_nonblank(p);
        let c = s.last();
        if !is_white_space(c) && p.len() > 0 && !is_white_space(p.last()) {
            lemma_words_nonempty_when_ending_in_word(p);
            let w = words_of(p);
            assert forall|i: int, j: int|
                0 <= i < words_of(s).len() && 0 <= j < words_of(s)[i].len() implies !is_white_space(
                #[trigger] words_of(s)[i][j],
            ) by {
                if i == w.len() - 1 {
                    if j < w.last().len() {
                        assert(words_of(s)[i][j] == w[i][j]);
                    }
                } else {
                    assert(words_of(s)[i] == w[i]);
                }
            }
        } else if !is_white_space(c) {
            let w = words_of(p);
            assert forall|i: int, j: int|
                0 <= i < words_of(s).len() && 0 <= j < words_of(s)[i].len() implies !is_white_space(
                #[trigger] words_of(s)[i][j],
            ) by {
                if i < w.len() {
                    assert(words_of(s)[i] == w[i]);
                }
            }
        }
    }
}

proof fn lemma_words_nonempty_when_ending_in_word(s: Seq<char>)
    requires
        s.len() > 0,
        !is_white_space(s.last()),
    ensures
        words_of(s).len() > 0,
    decreases s.len(),
{
    let p = s.drop_last();
    if p.len() > 0 && !is_white_space(p.last()) {
        lemma_words_nonempty_when_ending_in_word(p);
    }
}

/// Splitting an empty text gives no words.
pub proof fn law_words_of_empty()
    ensures
        words_of(Seq::<char>::empty()).len() == 0,
{
}

/// A non-empty text without white space is a single word.
pub proof fn law_words_of_single_word(w: Seq<char>)
    requires
        w.len() > 0,
        forall|i: int| 0 <= i < w.len() ==> !is_white_space(#[trigger] w[i]),
    ensures
        words_of(w) == seq![w],
    decreases w.len(),
{
    let p = w.drop_last();
    assert(!is_white_space(w[w.len() - 1]));
    if p.len() > 0 {
        assert forall|i: int| 0 <= i < p.len() implies !is_white_space(#[trigger] p[i]) by {
            assert(p[i] == w[i]);
        }
        law_words_of_single_word(p);
        assert(!is_white_space(w[p.len() - 1]));
        assert(p.last() == w[p.len() - 1]);
        assert(words_of(p).drop_last() =~= Seq::<Seq<char>>::empty());
        assert(words_of(p).last() == p);
        assert(p.push(w.last()) =~= w);
        assert(Seq::<Seq<char>>::empty().push(w) =~= seq![w]);
        assert(words_of(w) == words_of(p).drop_last().push(words_of(p).last().push(w.last())));
    } else {
        assert(seq![w.last()] =~= w);
        assert(words_of(p) == Seq::<Seq<char>>::empty());
        assert(words_of(w) == words_of(p).push(seq![w.last()]));
        assert(Seq::<Seq<char>>::empty().push(seq![w.last()]) =~= seq![w]);
    }
}

/// A white-space character separates: the words of `a`, a white-space
/// character and `b` are the words of `a` followed by the words of `b`.
pub proof fn law_words_of_separated(a: Seq<char>, c: char, b: Seq<char>)
    requires
        is_white_space(c),
    ensures
        words_of(a + seq![c] + b) == words_of(a) + words_of(b),
    decreases b.len(),
{
    let ac = a + seq![c];
    if b.len() == 0 {
        assert(ac + b =~= ac);
        assert(ac.drop_last() =~= a);
        assert(words_of(b) =~= Seq::<Seq<char>>::empty());
        assert(words_of(a) + words_of(b) =~= words_of(a));
    } else {
        let x = b.last();
        let b1 = b.drop_last();
        law_words_of_separated(a, c, b1);
        let whole = ac + b;
        let p = ac + b1;
        assert(whole.drop_last() =~= p);
        assert(whole.last() == x);
        let wa = words_of(a);
        let wb1 = words_of(b1);
        if is_white_space(x) {
        } else if p.len() > 0 && !is_white_space(p.last()) {
            // the white space before `b` means `b1` itself ends in a word
            assert(b1.len() > 0) by {
                if b1.len() == 0 {
                    assert(p =~= ac);
                }
            }
            assert(p.last() == b1.last());
            lemma_words_nonempty_when_ending_in_word(b1);
            assert(words_of(b) == wb1.drop_last().push(wb1.last().push(x)));
            assert((wa + wb1).drop_last() =~= wa + wb1.drop_last());
            assert((wa + wb1).last() == wb1.last());
            assert(wa + wb1.drop_last().push(wb1.last().push(x)) =~= (wa + wb1).drop_last().push(
                (wa + wb1).last().push(x),
            ));
        } else {
            if b1.len() > 0 {
                assert(p.last() == b1.last());
            }
            assert(words_of(b) == wb1.push(seq![x]));
            assert((wa + wb1).push(seq![x]) =~= wa + wb1.push(seq![x]));
        }
    }
}

/// Every text contains every piece placed in it.
pub proof fn law_substring_found(a: Seq<char>, needle: Seq<char>, b: Seq<char>)
    ensures
        has_substring(a + needle + b, needle),
{
    let h = a + needle + b;
    assert(h.subrange(a.len() as int, (a.len() + needle.len()) as int) =~= needle);
}

/// A piece longer than a text is not in it.
pub proof fn law_substring_too_long(hay: Seq<char>, needle: Seq<char>)
    requires
        needle.len() > hay.len(),
    ensures
        !has_substring(hay, needle),
{
}

/// The numeric value of a text of decimal digits.
pub open spec fn decimal_value(s: Seq<char>) -> int
    decreases s.len(),
{
    if s.len() == 0 {
        0
    } else {
        decimal_value(s.drop_last()) * 10 + (s.last() as int - '0' as int)
    }
}

/// The decimal text of a number reads back as that number: a minus sign
/// exactly for negative numbers, then digits only, without a leading zero
/// (unless the number is zero), whose value is the number's magnitude.
pub proof fn law_decimal_reads_back(n: int)
    ensures
        n < 0 ==> decimal_of(n)[0] == '-' && decimal_value(decimal_of(n).drop_first()) == -n,
        n >= 0 ==> decimal_value(decimal_of(n)) == n,
        forall|i: int|
            (if n < 0 { 1int } else { 0int }) <= i < decimal_of(n).len() ==> '0' <= #[trigger] decimal_of(n)[i] <= '9',
        decimal_of(n).len() > (if n < 0 { 1int } else { 0int }),
        n != 0 ==> decimal_of(n)[if n < 0 { 1int } else { 0int }] != '0',
{
    let m: nat = if n < 0 { (-n) as nat } else { n as nat };
    lemma_digits(m);
    if n < 0 {
        assert((seq!['-'] + digits_of(m)).drop_first() =~= digits_of(m));
        assert forall|i: int| 1 <= i < decimal_of(n).len() implies '0' <= #[trigger] decimal_of(n)[i] <= '9' by {
            assert(decimal_of(n)[i] == digits_of(m)[i - 1]);
        }
        assert(decimal_of(n)[1] == digits_of(m)[0]);
    }
}

proof fn lemma_digit_char(d: nat)
    requires
        d < 10,
    ensures
        digit_char(d) as int - '0' as int == d,
        '0' <= digit_char(d) <= '9',
        d != 0 ==> digit_char(d) != '0',
{
}

proof fn lemma_digits(m: nat)
    ensures
        decimal_value(digits_of(m)) == m,
        digits_of(m).len() > 0,
        forall|i: int| 0 <= i < digits_of(m).len() ==> '0' <= #[trigger] digits_of(m)[i] <= '9',
        m != 0 ==> digits_of(m)[0] != '0',
    decreases m,
{
    if m < 10 {
        lemma_digit_char(m);
        let d = digits_of(m);
        assert(d.drop_last() =~= Seq::<char>::empty());
        assert(decimal_value(d.drop_last()) == 0);
        assert(d.last() == digit_char(m));
    } else {
        lemma_digits(m / 10);
        lemma_digit_char(m % 10);
        let d = digits_of(m);
        assert(d.drop_last() =~= digits_of(m / 10));
        assert(d.last() == digit_char(m % 10));
        assert(decimal_value(d) == decimal_value(digits_of(m / 10)) * 10 + (digit_char(m % 10) as int - '0' as int));
        assert(d[0] == digits_of(m / 10)[0]);
        assert forall|i: int| 0 <= i < d.len() implies '0' <= #[trigger] d[i] <= '9' by {
            if i < d.len() - 1 {
                assert(d[i] == digits_of(m / 10)[i]);
            }
        }
    }
}

} // verus!
