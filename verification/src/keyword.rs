//! Keywords in SQL text, as far as they tell which texts the SQL parser may panic on.
use crate::text::{chars_of, eq_ignore_ascii_case, is_digit, to_ascii_lower};
use vstd::prelude::*;

verus! {

/// A character that a word goes on with in every dialect: an ASCII letter, a digit or an underscore.
pub open spec fn word_char(c: char) -> bool {
    ||| 'a' as u32 <= c as u32 <= 'z' as u32
    ||| 'A' as u32 <= c as u32 <= 'Z' as u32
    ||| crate::text::digit(c)
    ||| c == '_'
}

/// The small ASCII letter that has the same capital form as the character, or else the character.
/// Two further letters, the dotless `i` and the long `s`, have an ASCII letter as their capital form.
pub open spec fn folded(c: char) -> char {
    if c == '\u{131}' {
        'i'
    } else if c == '\u{17f}' {
        's'
    } else {
        crate::text::ascii_lower(c)
    }
}

/// Where the run of word characters begins that reaches up to the index `i`.
pub open spec fn run_start(s: Seq<char>, i: int) -> int
    decreases i,
{
    if i > 0 && word_char(s[i - 1]) {
        run_start(s, i - 1)
    } else {
        i
    }
}

/// What stands at the index `r` may belong to a number: a digit, or what follows the decimal point
/// behind one.
pub open spec fn number_at(s: Seq<char>, r: int) -> bool {
    ||| r < s.len() && crate::text::digit(s[r])
    ||| r >= 2 && s[r - 1] == '.' && crate::text::digit(s[r - 2])
}

/// A word may begin at the index `i`: no word character stands before it, or the ones that do may be
/// a number, which can end anywhere.
pub open spec fn word_may_begin(s: Seq<char>, i: int) -> bool {
    run_start(s, i) == i || number_at(s, run_start(s, i))
}

/// From the index `i` on stands the given keyword, in any case, and does not go on behind it. The
/// keyword is given in small letters.
pub open spec fn keyword_at(s: Seq<char>, i: int, keyword: Seq<char>) -> bool {
    &&& 0 <= i
    &&& i + keyword.len() <= s.len()
    &&& forall|k: int| 0 <= k < keyword.len() ==> folded(s[i + k]) == #[trigger] keyword[k]
    &&& i + keyword.len() < s.len() ==> !word_char(s[i + keyword.len()])
    &&& word_may_begin(s, i)
}

/// The keyword stands somewhere in the text.
pub open spec fn has_keyword(s: Seq<char>, keyword: Seq<char>) -> bool {
    exists|i: int| keyword_at(s, i, keyword)
}

/// The three keywords stand in the text, in this order.
pub open spec fn has_three(s: Seq<char>, a: Seq<char>, b: Seq<char>, c: Seq<char>) -> bool {
    exists|i: int, j: int, k: int|
        #![trigger keyword_at(s, i, a), keyword_at(s, j, b), keyword_at(s, k, c)]
        i < j < k && keyword_at(s, i, a) && keyword_at(s, j, b) && keyword_at(s, k, c)
}

/// The four keywords stand in the text, in this order.
pub open spec fn has_four(
    s: Seq<char>,
    a: Seq<char>,
    b: Seq<char>,
    c: Seq<char>,
    d: Seq<char>,
) -> bool {
    exists|i: int, j: int, k: int, l: int|
        #![trigger keyword_at(s, i, a), keyword_at(s, j, b), keyword_at(s, k, c), keyword_at(s, l, d)]
        i < j < k < l && keyword_at(s, i, a) && keyword_at(s, j, b) && keyword_at(s, k, c)
            && keyword_at(s, l, d)
}

/// The dialect has the given name, in any case.
pub open spec fn names(dialect: Seq<char>, name: Seq<char>) -> bool {
    crate::text::same_ignoring_ascii_case(dialect, name)
}

/// The SQL parser may panic on the text under the dialect of the given name. It does so where no
/// name follows on `GRANTED BY` in `GRANT` or `REVOKE`, under MySQL and the generic dialect where
/// none follows on `RELAY LOGS FOR CHANNEL`, and under MySQL where no expression follows on `DIV`.
/// The keywords alone decide here: what follows on them takes the parser to tell.
pub open spec fn may_panic(sql: Seq<char>, dialect: Seq<char>) -> bool {
    ||| has_three(sql, "grant"@, "granted"@, "by"@)
    ||| has_three(sql, "revoke"@, "granted"@, "by"@)
    ||| (names(dialect, "mysql"@) || names(dialect, "generic"@)) && has_four(
        sql,
        "relay"@,
        "logs"@,
        "for"@,
        "channel"@,
    )
    ||| names(dialect, "mysql"@) && has_keyword(sql, "div"@)
}

/// Whether `c` is a word character.
fn is_word_char(c: char) -> (r: bool)
    ensures
        r == word_char(c),
{
    let n: u32 = c as u32;
    (97 <= n && n <= 122) || (65 <= n && n <= 90) || is_digit(c) || c == '_'
}

/// The small ASCII letter that has the same capital form as the character, or else the character.
fn fold(c: char) -> (r: char)
    ensures
        r == folded(c),
{
    if c == '\u{131}' {
        'i'
    } else if c == '\u{17f}' {
        's'
    } else {
        to_ascii_lower(c)
    }
}

/// Whether a word may begin at the index `i`.
fn may_begin_word(chars: &Vec<char>, i: usize) -> (r: bool)
    requires
        i <= chars.len(),
    ensures
        r == word_may_begin(chars@, i as int),
{
    let mut r: usize = i;
    while r > 0 && is_word_char(chars[r - 1])
        invariant
            r <= i <= chars.len(),
            run_start(chars@, i as int) == run_start(chars@, r as int),
        decreases r,
    {
        r = r - 1;
    }
    r == i || (r < chars.len() && is_digit(chars[r])) || (r >= 2 && chars[r - 1] == '.' && is_digit(
        chars[r - 2],
    ))
}

/// Whether the keyword stands at the index `i`.
fn is_keyword_at(chars: &Vec<char>, i: usize, keyword: &Vec<char>) -> (r: bool)
    requires
        i <= chars.len(),
    ensures
        r == keyword_at(chars@, i as int, keyword@),
{
    let n = keyword.len();
    if chars.len() - i < n {
        return false;
    }
    let mut k: usize = 0;
    while k < n
        invariant
            n == keyword.len(),
            i + n <= chars.len(),
            k <= n,
            forall|m: int| 0 <= m < k ==> folded(chars@[i + m]) == #[trigger] keyword@[m],
        decreases n - k,
    {
        if fold(chars[i + k]) != keyword[k] {
            assert(folded(chars@[i + k]) != keyword@[k as int]);
            return false;
        }
        k = k + 1;
    }
    if i + n < chars.len() && is_word_char(chars[i + n]) {
        return false;
    }
    may_begin_word(chars, i)
}

/// The first place of the keyword at or behind the index `from`.
fn find_keyword(chars: &Vec<char>, keyword: &str, from: usize) -> (r: Option<usize>)
    requires
        keyword@.len() > 0,
        from <= chars.len(),
    ensures
        match r {
            Some(i) => {
                &&& from <= i < chars.len()
                &&& keyword_at(chars@, i as int, keyword@)
                &&& forall|k: int| from <= k < i ==> !keyword_at(chars@, k, keyword@)
            },
            None => forall|k: int| from <= k ==> !keyword_at(chars@, k, keyword@),
        },
{
    let word = chars_of(keyword);
    let mut i: usize = from;
    while i < chars.len()
        invariant
            keyword@.len() > 0,
            word@ == keyword@,
            from <= i <= chars.len(),
            forall|k: int| from <= k < i ==> !keyword_at(chars@, k, keyword@),
        decreases chars.len() - i,
    {
        if is_keyword_at(chars, i, &word) {
            return Some(i);
        }
        i = i + 1;
    }
    None
}

/// Whether the three keywords stand in the text, in this order.
fn finds_three(chars: &Vec<char>, a: &str, b: &str, c: &str) -> (r: bool)
    requires
        a@.len() > 0,
        b@.len() > 0,
        c@.len() > 0,
    ensures
        r == has_three(chars@, a@, b@, c@),
{
    match find_keyword(chars, a, 0) {
        Some(i) => match find_keyword(chars, b, i + 1) {
            Some(j) => find_keyword(chars, c, j + 1).is_some(),
            None => false,
        },
        None => false,
    }
}

/// Whether the four keywords stand in the text, in this order.
fn finds_four(chars: &Vec<char>, a: &str, b: &str, c: &str, d: &str) -> (r: bool)
    requires
        a@.len() > 0,
        b@.len() > 0,
        c@.len() > 0,
        d@.len() > 0,
    ensures
        r == has_four(chars@, a@, b@, c@, d@),
{
    match find_keyword(chars, a, 0) {
        Some(i) => match find_keyword(chars, b, i + 1) {
            Some(j) => match find_keyword(chars, c, j + 1) {
                Some(k) => find_keyword(chars, d, k + 1).is_some(),
                None => false,
            },
            None => false,
        },
        None => false,
    }
}

/// Whether the SQL parser may panic on the text under the dialect of the given name.
pub fn parser_may_panic(sql: &str, dialect: &str) -> (r: bool)
    ensures
        r == may_panic(sql@, dialect@),
{
    proof {
        reveal_strlit("grant");
        reveal_strlit("revoke");
        reveal_strlit("granted");
        reveal_strlit("by");
        reveal_strlit("relay");
        reveal_strlit("logs");
        reveal_strlit("for");
        reveal_strlit("channel");
        reveal_strlit("div");
    }
    let chars = chars_of(sql);
    let mysql = eq_ignore_ascii_case(dialect, "mysql");
    let generic = eq_ignore_ascii_case(dialect, "generic");
    finds_three(&chars, "grant", "granted", "by") || finds_three(&chars, "revoke", "granted", "by")
        || ((mysql || generic) && finds_four(&chars, "relay", "logs", "for", "channel")) || (mysql
        && find_keyword(&chars, "div", 0).is_some())
}

/// A text without any of the keywords `granted`, `channel` and `div` is safe under every dialect.
pub proof fn law_texts_without_the_keywords_are_safe(sql: Seq<char>, dialect: Seq<char>)
    requires
        !has_keyword(sql, "granted"@),
        !has_keyword(sql, "channel"@),
        !has_keyword(sql, "div"@),
    ensures
        !may_panic(sql, dialect),
{
}

/// A keyword is found wherever it stands in a text and in whatever case, as long as it is a word of its
/// own there.
pub proof fn law_keywords_are_found(
    before: Seq<char>,
    word: Seq<char>,
    after: Seq<char>,
    keyword: Seq<char>,
)
    requires
        crate::text::ascii_text(word),
        crate::text::same_ignoring_ascii_case(word, keyword),
        forall|i: int|
            0 <= i < keyword.len() ==> 'a' as u32 <= (#[trigger] keyword[i]) as u32 <= 'z' as u32,
        before.len() == 0 || !word_char(before.last()),
        after.len() == 0 || !word_char(after[0]),
    ensures
        keyword_at(before + word + after, before.len() as int, keyword),
        has_keyword(before + word + after, keyword),
{
    let s = before + word + after;
    let i = before.len() as int;
    assert forall|k: int| 0 <= k < keyword.len() implies folded(s[i + k]) == #[trigger] keyword[k] by {
        assert(s[i + k] == word[k]);
        assert(word[k] as u32 <= 0x7f);
        assert(crate::text::ascii_lower(word[k]) == crate::text::ascii_lower(keyword[k]));
        lemma_folded(word[k], keyword[k]);
    }
    if i > 0 {
        assert(s[i - 1] == before.last());
    }
    if after.len() > 0 {
        assert(s[i + keyword.len()] == after[0]);
    }
    assert(run_start(s, i) == i);
    assert(keyword_at(s, i, keyword));
}

proof fn lemma_folded(c: char, letter: char)
    requires
        c as u32 <= 0x7f,
        'a' as u32 <= letter as u32 <= 'z' as u32,
        crate::text::ascii_lower(c) == crate::text::ascii_lower(letter),
    ensures
        folded(c) == letter,
{
}

/// Where a keyword is found in an ASCII text, its letters stand there, in some case, and neither a
/// letter, a digit nor an underscore stands behind them; nor does one stand before them, unless it may
/// belong to a number.
pub proof fn law_found_keywords_are_there(s: Seq<char>, i: int, keyword: Seq<char>)
    requires
        crate::text::ascii_text(s),
        keyword_at(s, i, keyword),
        forall|k: int|
            0 <= k < keyword.len() ==> 'a' as u32 <= (#[trigger] keyword[k]) as u32 <= 'z' as u32,
    ensures
        0 <= i <= i + keyword.len() <= s.len(),
        crate::text::same_ignoring_ascii_case(s.subrange(i, i + keyword.len()), keyword),
        i + keyword.len() < s.len() ==> !word_char(s[i + keyword.len()]),
        i > 0 && word_char(s[i - 1]) ==> exists|d: int|
            0 <= d < i && crate::text::digit(#[trigger] s[d]),
{
    let found = s.subrange(i, i + keyword.len());
    assert forall|k: int| 0 <= k < found.len() implies crate::text::ascii_lower(#[trigger] found[k])
        == crate::text::ascii_lower(keyword[k]) by {
        assert(found[k] == s[i + k]);
        assert(s[i + k] as u32 <= 0x7f);
        assert(folded(s[i + k]) == keyword[k]);
        crate::text::law_small_letters(found[k]);
    }
    if i > 0 && word_char(s[i - 1]) {
        lemma_run_start(s, i);
        let r = run_start(s, i);
        assert(run_start(s, i - 1) <= i - 1) by {
            lemma_run_start(s, i - 1);
        }
        if crate::text::digit(s[r]) {
            assert(crate::text::digit(s[r]));
        } else {
            assert(crate::text::digit(s[r - 2]));
        }
    }
}

proof fn lemma_run_start(s: Seq<char>, i: int)
    requires
        0 <= i,
    ensures
        0 <= run_start(s, i) <= i,
    decreases i,
{
    if i > 0 && word_char(s[i - 1]) {
        lemma_run_start(s, i - 1);
    }
}

/// The texts that are left out: under every dialect those in which `GRANTED` and then `BY` follow on
/// `GRANT` or `REVOKE`, wherever they stand; under MySQL and the generic dialect, in whatever case they
/// are named, those in which `RELAY`, `LOGS`, `FOR` and `CHANNEL` follow on each other; and under MySQL
/// those with a `DIV`. Under every other dialect only the first are.
pub proof fn law_which_texts_are_left_out(
    sql: Seq<char>,
    dialect: Seq<char>,
    i: int,
    j: int,
    k: int,
    l: int,
)
    ensures
        i < j < k && (keyword_at(sql, i, "grant"@) || keyword_at(sql, i, "revoke"@)) && keyword_at(
            sql,
            j,
            "granted"@,
        ) && keyword_at(sql, k, "by"@) ==> may_panic(sql, dialect),
        (names(dialect, "mysql"@) || names(dialect, "generic"@)) && i < j < k < l && keyword_at(
            sql,
            i,
            "relay"@,
        ) && keyword_at(sql, j, "logs"@) && keyword_at(sql, k, "for"@) && keyword_at(
            sql,
            l,
            "channel"@,
        ) ==> may_panic(sql, dialect),
        names(dialect, "mysql"@) && keyword_at(sql, i, "div"@) ==> may_panic(sql, dialect),
        !names(dialect, "mysql"@) && !names(dialect, "generic"@) && may_panic(sql, dialect)
            ==> has_keyword(sql, "granted"@) && has_keyword(sql, "by"@),
        names(dialect, "generic"@) && !names(dialect, "mysql"@) && may_panic(sql, dialect)
            ==> has_keyword(sql, "granted"@) || has_keyword(sql, "channel"@),
        may_panic(sql, dialect) ==> {
            ||| exists|a: int, b: int, c: int|
                #![trigger keyword_at(sql, a, "grant"@), keyword_at(sql, b, "granted"@), keyword_at(sql, c, "by"@)]
                a < b < c && keyword_at(sql, a, "grant"@) && keyword_at(sql, b, "granted"@)
                    && keyword_at(sql, c, "by"@)
            ||| exists|a: int, b: int, c: int|
                #![trigger keyword_at(sql, a, "revoke"@), keyword_at(sql, b, "granted"@), keyword_at(sql, c, "by"@)]
                a < b < c && keyword_at(sql, a, "revoke"@) && keyword_at(sql, b, "granted"@)
                    && keyword_at(sql, c, "by"@)
            ||| exists|a: int, b: int, c: int, d: int|
                #![trigger keyword_at(sql, a, "relay"@), keyword_at(sql, b, "logs"@), keyword_at(sql, c, "for"@), keyword_at(sql, d, "channel"@)]
                a < b < c < d && keyword_at(sql, a, "relay"@) && keyword_at(sql, b, "logs"@)
                    && keyword_at(sql, c, "for"@) && keyword_at(sql, d, "channel"@)
            ||| exists|a: int| keyword_at(sql, a, "div"@)
        },
        names(dialect, "mysql"@) <==> crate::text::same_ignoring_ascii_case(dialect, "mysql"@),
        names(dialect, "generic"@) <==> crate::text::same_ignoring_ascii_case(dialect, "generic"@),
{
}

/// A word goes on with the letters `A` to `Z` and `a` to `z`, the digits `0` to `9` and the underscore,
/// and with nothing else; and every character but the dotless `i` and the long `s` is read in its ASCII
/// case alone.
pub proof fn law_word_characters(c: char)
    ensures
        word_char(c) <==> (0x41 <= c as u32 <= 0x5a || 0x61 <= c as u32 <= 0x7a || 0x30 <= c as u32
            <= 0x39 || c as u32 == 0x5f),
        crate::text::digit(c) <==> 0x30 <= c as u32 <= 0x39,
        c as u32 != 0x131 && c as u32 != 0x17f ==> folded(c) == crate::text::ascii_lower(c),
        c as u32 == 0x131 ==> folded(c) == 'i',
        c as u32 == 0x17f ==> folded(c) == 's',
{
}

proof fn lemma_run_reaches_back(s: Seq<char>, r: int, i: int)
    requires
        0 <= r <= i <= s.len(),
        r == 0 || !word_char(s[r - 1]),
        forall|k: int| r <= k < i ==> word_char(#[trigger] s[k]),
    ensures
        run_start(s, i) == r,
    decreases i,
{
    if r < i {
        assert(word_char(s[i - 1]));
        lemma_run_reaches_back(s, r, i - 1);
    }
}

/// A keyword is found directly behind a number too, where it needs nothing between.
pub proof fn law_keywords_behind_numbers(
    before: Seq<char>,
    number: Seq<char>,
    word: Seq<char>,
    after: Seq<char>,
    keyword: Seq<char>,
)
    requires
        crate::text::ascii_text(word),
        crate::text::same_ignoring_ascii_case(word, keyword),
        forall|i: int|
            0 <= i < keyword.len() ==> 'a' as u32 <= (#[trigger] keyword[i]) as u32 <= 'z' as u32,
        before.len() == 0 || !word_char(before.last()),
        number.len() > 0,
        forall|i: int| 0 <= i < number.len() ==> word_char(#[trigger] number[i]),
        crate::text::digit(number[0]) || (before.len() >= 2 && before.last() == '.'
            && crate::text::digit(before[before.len() - 2])),
        after.len() == 0 || !word_char(after[0]),
    ensures
        keyword_at(
            before + number + word + after,
            (before.len() + number.len()) as int,
            keyword,
        ),
{
    let s = before + number + word + after;
    let r = before.len() as int;
    let i = (before.len() + number.len()) as int;
    assert forall|k: int| 0 <= k < keyword.len() implies folded(s[i + k]) == #[trigger] keyword[k] by {
        assert(s[i + k] == word[k]);
        assert(word[k] as u32 <= 0x7f);
        assert(crate::text::ascii_lower(word[k]) == crate::text::ascii_lower(keyword[k]));
        lemma_folded(word[k], keyword[k]);
    }
    assert forall|k: int| r <= k < i implies word_char(#[trigger] s[k]) by {
        assert(s[k] == number[k - r]);
    }
    if r > 0 {
        assert(s[r - 1] == before.last());
    }
    lemma_run_reaches_back(s, r, i);
    assert(s[r] == number[0]);
    if before.len() >= 2 {
        assert(s[r - 2] == before[before.len() - 2]);
    }
    assert(number_at(s, r));
    if after.len() > 0 {
        assert(s[i + keyword.len()] == after[0]);
    }
    assert(keyword_at(s, i, keyword));
}

} // verus!
