//! Text as sequences of characters: the few string operations that the rest of the crate is
//! stated in terms of.
use vstd::prelude::*;

verus! {

/// A character with the Unicode property `White_Space`.
pub open spec fn white_space(c: char) -> bool {
    let n = c as u32;
    ||| 0x9 <= n <= 0xd
    ||| n == 0x20
    ||| n == 0x85
    ||| n == 0xa0
    ||| n == 0x1680
    ||| 0x2000 <= n <= 0x200a
    ||| 0x2028 <= n <= 0x2029
    ||| n == 0x202f
    ||| n == 0x205f
    ||| n == 0x3000
}

/// Whether `c` is white space.
pub fn is_white_space(c: char) -> (r: bool)
    ensures
        r == white_space(c),
{
    let n: u32 = c as u32;
    (0x9 <= n && n <= 0xd) || n == 0x20 || n == 0x85 || n == 0xa0 || n == 0x1680 || (0x2000 <= n
        && n <= 0x200a) || (0x2028 <= n && n <= 0x2029) || n == 0x202f || n == 0x205f || n == 0x3000
}

/// A decimal digit.
pub open spec fn digit(c: char) -> bool {
    '0' as u32 <= c as u32 <= '9' as u32
}

/// Whether `c` is a decimal digit.
pub fn is_digit(c: char) -> (r: bool)
    ensures
        r == digit(c),
{
    let n: u32 = c as u32;
    48 <= n && n <= 57
}

/// The characters of `s`, in order.
pub fn chars_of(s: &str) -> (v: Vec<char>)
    ensures
        v@ == s@,
{
    let mut v: Vec<char> = Vec::new();
    for c in it: s.chars()
        invariant
            it.seq() == s@,
            v@ == s@.take(it.index() as int),
    {
        v.push(c);
        assert(s@.take(it.index() as int).push(s@[it.index() as int]) =~= s@.take(it.index() + 1));
    }
    assert(s@.take(s@.len() as int) =~= s@);
    v
}

/// `String::push`: the character is added behind the text that was there.
pub assume_specification[ String::push ](s: &mut String, c: char)
    ensures
        final(s)@ == old(s)@.push(c),
;

/// What `str::to_lowercase` makes of a text.
pub uninterp spec fn lowercase(s: Seq<char>) -> Seq<char>;

/// The lower-case form of an ASCII letter; every other character as it is.
pub open spec fn ascii_lower(c: char) -> char {
    if 'A' as u32 <= c as u32 <= 'Z' as u32 {
        (c as u32 + 32) as char
    } else {
        c
    }
}

/// A text of ASCII characters only.
pub open spec fn ascii_text(s: Seq<char>) -> bool {
    forall|i: int| 0 <= i < s.len() ==> (#[trigger] s[i]) as u32 <= 0x7f
}

/// `str::to_lowercase`: the Unicode lower-case form of the text, named by [`lowercase`]. On a text
/// of ASCII characters it replaces the letters `A` to `Z`, one for one, and nothing else.
pub assume_specification[ str::to_lowercase ](s: &str) -> (r: String)
    ensures
        r@ == lowercase(s@),
        ascii_text(s@) ==> r@ == s@.map_values(|c: char| ascii_lower(c)),
;

/// The lower-case form of a text. On ASCII characters it is plain; on others it is what the Unicode
/// tables make of it.
pub open spec fn lower_form(s: Seq<char>) -> Seq<char> {
    if ascii_text(s) {
        s.map_values(|c: char| ascii_lower(c))
    } else {
        lowercase(s)
    }
}

/// Two ASCII texts that differ in case only have the same lower-case form.
pub proof fn law_lower_form_ignores_case(a: Seq<char>, b: Seq<char>)
    requires
        ascii_text(a),
        ascii_text(b),
        same_ignoring_ascii_case(a, b),
    ensures
        lower_form(a) == lower_form(b),
{
    assert(lower_form(a) =~= lower_form(b));
}

/// Whether two texts are the same.
pub fn same_text(a: &str, b: &str) -> (r: bool)
    ensures
        r == (a@ == b@),
{
    a.to_owned() == b.to_owned()
}

/// `s` begins with `prefix`.
pub open spec fn begins_with(s: Seq<char>, prefix: Seq<char>) -> bool {
    prefix.len() <= s.len() && s.take(prefix.len() as int) == prefix
}

/// Whether `s` begins with `prefix`.
pub fn starts_with(s: &str, prefix: &str) -> (r: bool)
    ensures
        r == begins_with(s@, prefix@),
{
    let n = prefix.unicode_len();
    if s.unicode_len() < n {
        return false;
    }
    let head = s.substring_char(0, n);
    same_text(head, prefix)
}

/// `s` without the white space at its end.
pub open spec fn trimmed_end(s: Seq<char>) -> Seq<char>
    decreases s.len(),
{
    if s.len() > 0 && white_space(s.last()) {
        trimmed_end(s.drop_last())
    } else {
        s
    }
}

/// `s` without the white space at its end.
pub fn trim_end(s: &str) -> (r: String)
    ensures
        r@ == trimmed_end(s@),
{
    let chars = chars_of(s);
    let mut n: usize = chars.len();
    assert(s@.take(n as int) =~= s@);
    while n > 0 && is_white_space(chars[n - 1])
        invariant
            chars@ == s@,
            n <= s@.len(),
            trimmed_end(s@) == trimmed_end(s@.take(n as int)),
        decreases n,
    {
        assert(s@.take(n as int).drop_last() =~= s@.take(n - 1));
        n = n - 1;
    }
    s.substring_char(0, n).to_owned()
}

/// Trimming takes white space from the end, all of it, and nothing else; to trim twice is to trim
/// once.
pub proof fn law_trimming(s: Seq<char>)
    ensures
        trimmed_end(s).len() <= s.len(),
        trimmed_end(s) == s.take(trimmed_end(s).len() as int),
        forall|i: int| trimmed_end(s).len() <= i < s.len() ==> white_space(#[trigger] s[i]),
        trimmed_end(s).len() > 0 ==> !white_space(trimmed_end(s).last()),
        trimmed_end(trimmed_end(s)) == trimmed_end(s),
    decreases s.len(),
{
    if s.len() > 0 && white_space(s.last()) {
        let rest = s.drop_last();
        law_trimming(rest);
        assert(rest.take(trimmed_end(s).len() as int) =~= s.take(trimmed_end(s).len() as int));
        assert forall|i: int| trimmed_end(s).len() <= i < s.len() implies white_space(
            #[trigger] s[i],
        ) by {
            if i < rest.len() {
                assert(white_space(rest[i]));
            }
        }
    } else {
        assert(s.take(s.len() as int) =~= s);
    }
}

/// The two texts differ at most in the case of ASCII letters.
pub open spec fn same_ignoring_ascii_case(a: Seq<char>, b: Seq<char>) -> bool {
    &&& a.len() == b.len()
    &&& forall|i: int| 0 <= i < a.len() ==> ascii_lower(#[trigger] a[i]) == ascii_lower(b[i])
}

/// The lower-case form of an ASCII letter; every other character as it is.
pub fn to_ascii_lower(c: char) -> (r: char)
    ensures
        r == ascii_lower(c),
{
    let n: u32 = c as u32;
    if n < 65 || 90 < n {
        c
    } else {
        let low: u8 = n as u8 + 32;
        low as char
    }
}

/// Whether the two texts differ at most in the case of ASCII letters.
pub fn eq_ignore_ascii_case(a: &str, b: &str) -> (r: bool)
    ensures
        r == same_ignoring_ascii_case(a@, b@),
{
    let x = chars_of(a);
    let y = chars_of(b);
    if x.len() != y.len() {
        return false;
    }
    let mut i: usize = 0;
    while i < x.len()
        invariant
            x@ == a@,
            y@ == b@,
            x.len() == y.len(),
            i <= x.len(),
            forall|j: int| 0 <= j < i ==> ascii_lower(#[trigger] a@[j]) == ascii_lower(b@[j]),
        decreases x.len() - i,
    {
        if to_ascii_lower(x[i]) != to_ascii_lower(y[i]) {
            assert(ascii_lower(a@[i as int]) != ascii_lower(b@[i as int]));
            return false;
        }
        i = i + 1;
    }
    true
}

/// The words of `s`: the longest runs of characters that are not white space, in order.
pub open spec fn words(s: Seq<char>) -> Seq<Seq<char>>
    decreases s.len(),
{
    if s.len() == 0 {
        Seq::empty()
    } else {
        let before = words(s.drop_last());
        let c = s.last();
        if white_space(c) {
            before
        } else if s.len() == 1 || white_space(s[s.len() - 2]) {
            before.push(seq![c])
        } else {
            before.drop_last().push(before.last().push(c))
        }
    }
}

/// The parts of `parts`, with one blank between each two.
pub open spec fn joined(parts: Seq<Seq<char>>) -> Seq<char>
    decreases parts.len(),
{
    if parts.len() == 0 {
        Seq::empty()
    } else if parts.len() == 1 {
        parts[0]
    } else {
        joined(parts.drop_last()) + seq![' '] + parts.last()
    }
}

proof fn lemma_joined_new_part(parts: Seq<Seq<char>>, part: Seq<char>)
    ensures
        joined(parts.push(part)) == if parts.len() == 0 {
            part
        } else {
            joined(parts) + seq![' '] + part
        },
{
    assert(parts.push(part).drop_last() =~= parts);
}

proof fn lemma_joined_longer_part(parts: Seq<Seq<char>>, c: char)
    requires
        parts.len() > 0,
    ensures
        joined(parts.drop_last().push(parts.last().push(c))) == joined(parts).push(c),
{
    let head = parts.drop_last();
    lemma_joined_new_part(head, parts.last().push(c));
    lemma_joined_new_part(head, parts.last());
    assert(head.push(parts.last()) =~= parts);
    assert(joined(parts.drop_last().push(parts.last().push(c))) =~= joined(parts).push(c));
}

/// Every word holds a character, and no word holds white space. A text that ends in another
/// character has a word.
pub proof fn law_words_are_words(s: Seq<char>)
    ensures
        forall|i: int| 0 <= i < words(s).len() ==> (#[trigger] words(s)[i]).len() > 0,
        forall|i: int, j: int|
            0 <= i < words(s).len() && 0 <= j < words(s)[i].len() ==> !white_space(
                #[trigger] words(s)[i][j],
            ),
        s.len() > 0 && !white_space(s.last()) ==> words(s).len() > 0 && words(s).last().last()
            == s.last(),
    decreases s.len(),
{
    if s.len() > 0 {
        let before = words(s.drop_last());
        law_words_are_words(s.drop_last());
        assert(s.len() > 1 ==> s.drop_last().last() == s[s.len() - 2]);
        assert forall|i: int| 0 <= i < words(s).len() implies (#[trigger] words(s)[i]).len() > 0 by {
            if i < before.len() {
                assert(before[i].len() > 0);
            }
        }
        assert forall|i: int, j: int|
            0 <= i < words(s).len() && 0 <= j < words(s)[i].len() implies !white_space(
            #[trigger] words(s)[i][j],
        ) by {
            if i < before.len() && j < before[i].len() {
                assert(!white_space(before[i][j]));
            }
        }
    }
}

/// The words hold the characters of the text that are not white space, all of them, in order.
pub proof fn law_words_keep_text(s: Seq<char>)
    ensures
        words(s).flatten() == s.filter(|c: char| !white_space(c)),
    decreases s.len(),
{
    let solid = |c: char| !white_space(c);
    reveal(Seq::filter);
    if s.len() == 0 {
        assert(words(s).flatten() =~= Seq::<char>::empty());
    } else {
        let before = words(s.drop_last());
        let c = s.last();
        law_words_keep_text(s.drop_last());
        law_words_are_words(s.drop_last());
        if !white_space(c) {
            if s.len() == 1 || white_space(s[s.len() - 2]) {
                lemma_flatten_push(before, seq![c]);
                assert(words(s).flatten() =~= before.flatten().push(c));
            } else {
                assert(s.drop_last().last() == s[s.len() - 2]);
                let head = before.drop_last();
                lemma_flatten_push(head, before.last().push(c));
                lemma_flatten_push(head, before.last());
                assert(head.push(before.last()) =~= before);
                assert(words(s).flatten() =~= before.flatten().push(c));
            }
        }
    }
}

proof fn lemma_flatten_push(parts: Seq<Seq<char>>, part: Seq<char>)
    ensures
        parts.push(part).flatten() == parts.flatten() + part,
{
    parts.push(part).lemma_flatten_and_flatten_alt_are_equivalent();
    parts.lemma_flatten_and_flatten_alt_are_equivalent();
    assert(parts.push(part).drop_last() =~= parts);
}

/// The words of `s`, with one blank between each two.
pub fn squeeze(s: &str) -> (r: String)
    ensures
        r@ == joined(words(s@)),
{
    let chars = chars_of(s);
    let mut out = String::new();
    let mut started: bool = false;
    let mut in_word: bool = false;
    let mut i: usize = 0;
    while i < chars.len()
        invariant
            chars@ == s@,
            i <= chars.len(),
            out@ == joined(words(s@.take(i as int))),
            started == (words(s@.take(i as int)).len() > 0),
            in_word == (i > 0 && !white_space(s@[i - 1])),
        decreases chars.len() - i,
    {
        let c = chars[i];
        let ghost seen = s@.take(i as int);
        let ghost next = s@.take(i + 1);
        assert(next.drop_last() =~= seen);
        proof {
            law_words_are_words(seen);
        }
        if is_white_space(c) {
            in_word = false;
        } else {
            if in_word {
                proof {
                    lemma_joined_longer_part(words(seen), c);
                }
            } else {
                proof {
                    lemma_joined_new_part(words(seen), seq![c]);
                }
                if started {
                    out.push(' ');
                }
            }
            out.push(c);
            started = true;
            in_word = true;
            assert(out@ =~= joined(words(next)));
        }
        i = i + 1;
    }
    assert(s@.take(i as int) =~= s@);
    out
}

/// A text begins with a prefix exactly where it is the prefix with something behind it.
pub proof fn law_prefixes(s: Seq<char>, prefix: Seq<char>, rest: Seq<char>)
    ensures
        begins_with(prefix + rest, prefix),
        begins_with(s, prefix) ==> s == prefix + s.skip(prefix.len() as int),
{
    assert((prefix + rest).take(prefix.len() as int) =~= prefix);
    if begins_with(s, prefix) {
        assert(s =~= s.take(prefix.len() as int) + s.skip(prefix.len() as int));
    }
}

/// The small form of a capital ASCII letter stands as far behind it as `a` behind `A`, and every
/// other character is its own small form.
pub proof fn law_small_letters(c: char)
    ensures
        'A' as u32 <= c as u32 <= 'Z' as u32 ==> ascii_lower(c) as u32 - c as u32 == 'a' as u32
            - 'A' as u32,
        !('A' as u32 <= c as u32 <= 'Z' as u32) ==> ascii_lower(c) == c,
        ascii_lower(ascii_lower(c)) == ascii_lower(c),
{
}

/// To be the same but for case is an equivalence that goes character by character: an empty text is
/// the same as an empty one only, and longer texts are where all but their last characters are and
/// these have the same small form.
pub proof fn law_sameness_but_for_case(a: Seq<char>, b: Seq<char>, c: Seq<char>, x: char, y: char)
    ensures
        same_ignoring_ascii_case(a, a),
        same_ignoring_ascii_case(a, b) == same_ignoring_ascii_case(b, a),
        same_ignoring_ascii_case(a, b) && same_ignoring_ascii_case(b, c)
            ==> same_ignoring_ascii_case(a, c),
        same_ignoring_ascii_case(a, Seq::empty()) <==> a.len() == 0,
        same_ignoring_ascii_case(a.push(x), b.push(y)) <==> same_ignoring_ascii_case(a, b)
            && ascii_lower(x) == ascii_lower(y),
{
    if same_ignoring_ascii_case(a, b) {
        assert forall|i: int| 0 <= i < b.len() implies ascii_lower(#[trigger] b[i]) == ascii_lower(
            a[i],
        ) by {
            assert(ascii_lower(a[i]) == ascii_lower(b[i]));
        }
        if same_ignoring_ascii_case(b, c) {
            assert forall|i: int| 0 <= i < a.len() implies ascii_lower(#[trigger] a[i])
                == ascii_lower(c[i]) by {
                assert(ascii_lower(b[i]) == ascii_lower(c[i]));
            }
        }
    }
    if same_ignoring_ascii_case(b, a) {
        assert forall|i: int| 0 <= i < a.len() implies ascii_lower(#[trigger] a[i]) == ascii_lower(
            b[i],
        ) by {
            assert(ascii_lower(b[i]) == ascii_lower(a[i]));
        }
    }
    if same_ignoring_ascii_case(a.push(x), b.push(y)) {
        assert(a.push(x)[a.len() as int] == x && b.push(y)[a.len() as int] == y);
        assert forall|i: int| 0 <= i < a.len() implies ascii_lower(#[trigger] a[i]) == ascii_lower(
            b[i],
        ) by {
            assert(a.push(x)[i] == a[i] && b.push(y)[i] == b[i]);
        }
    }
    if same_ignoring_ascii_case(a, b) && ascii_lower(x) == ascii_lower(y) {
        assert forall|i: int| 0 <= i < a.push(x).len() implies ascii_lower(#[trigger] a.push(x)[i])
            == ascii_lower(b.push(y)[i]) by {
            if i < a.len() {
                assert(a.push(x)[i] == a[i] && b.push(y)[i] == b[i]);
            }
        }
    }
}

/// The lower-case form of an ASCII text differs from it in case at most, and holds no capital letter;
/// that of any other text is what the Unicode tables make of it.
pub proof fn law_lower_forms(s: Seq<char>)
    ensures
        ascii_text(s) ==> same_ignoring_ascii_case(s, lower_form(s)),
        ascii_text(s) ==> forall|i: int|
            0 <= i < lower_form(s).len() ==> !('A' as u32 <= (#[trigger] lower_form(s)[i]) as u32
                <= 'Z' as u32),
        !ascii_text(s) ==> lower_form(s) == lowercase(s),
        ascii_text(s) <==> forall|i: int| 0 <= i < s.len() ==> (#[trigger] s[i]) as u32 <= 0x7f,
{
    if ascii_text(s) {
        assert forall|i: int| 0 <= i < s.len() implies ascii_lower(#[trigger] s[i]) == ascii_lower(
            lower_form(s)[i],
        ) by {
            law_small_letters(s[i]);
        }
    }
}

/// Trimming takes off white space behind a text, whatever white space it is, and keeps the text.
pub proof fn law_trimming_keeps_the_text(text: Seq<char>, space: Seq<char>)
    requires
        text.len() == 0 || !white_space(text.last()),
        forall|i: int| 0 <= i < space.len() ==> white_space(#[trigger] space[i]),
    ensures
        trimmed_end(text + space) == text,
    decreases space.len(),
{
    if space.len() > 0 {
        assert((text + space).last() == space[space.len() - 1]);
        assert((text + space).drop_last() =~= text + space.drop_last());
        assert forall|i: int| 0 <= i < space.drop_last().len() implies white_space(
            #[trigger] space.drop_last()[i],
        ) by {
            assert(space.drop_last()[i] == space[i]);
        }
        law_trimming_keeps_the_text(text, space.drop_last());
    } else {
        assert(text + space =~= text);
    }
}

/// White space parts words, however much of it there is: the words of two texts with white space
/// between them are those of the one and then those of the other.
pub proof fn law_white_space_parts_words(a: Seq<char>, space: Seq<char>, b: Seq<char>)
    requires
        space.len() > 0,
        forall|i: int| 0 <= i < space.len() ==> white_space(#[trigger] space[i]),
    ensures
        words(a + space + b) == words(a) + words(b),
        words(space) == Seq::<Seq<char>>::empty(),
    decreases space.len() + b.len(),
{
    let whole = a + space + b;
    if b.len() == 0 {
        assert(whole.drop_last() =~= a + space.drop_last() + b);
        assert(whole.last() == space[space.len() - 1]);
        assert(words(a) + words(b) =~= words(a));
        if space.len() > 1 {
            assert forall|i: int| 0 <= i < space.drop_last().len() implies white_space(
                #[trigger] space.drop_last()[i],
            ) by {
                assert(space.drop_last()[i] == space[i]);
            }
            law_white_space_parts_words(a, space.drop_last(), b);
        } else {
            assert(whole.drop_last() =~= a);
            assert(space.drop_last() =~= Seq::empty());
        }
        assert(words(space) == words(space.drop_last()));
    } else {
        let rest = b.drop_last();
        law_white_space_parts_words(a, space, rest);
        law_words_are_words(rest);
        assert(whole.drop_last() =~= a + space + rest);
        assert(whole.last() == b.last());
        let before = words(a) + words(rest);
        if !white_space(b.last()) {
            if b.len() == 1 {
                assert(whole[whole.len() - 2] == space[space.len() - 1]);
                assert(words(whole) =~= words(a) + words(b));
            } else {
                assert(whole[whole.len() - 2] == b[b.len() - 2]);
                assert(rest.last() == b[b.len() - 2]);
                assert(words(whole) =~= words(a) + words(b));
            }
        }
    }
}

/// Characters without white space among them are one word, and no characters are none.
pub proof fn law_one_word(word: Seq<char>)
    requires
        forall|i: int| 0 <= i < word.len() ==> !white_space(#[trigger] word[i]),
    ensures
        words(word) == if word.len() == 0 {
            Seq::<Seq<char>>::empty()
        } else {
            seq![word]
        },
    decreases word.len(),
{
    if word.len() > 0 {
        let before = word.drop_last();
        assert forall|i: int| 0 <= i < before.len() implies !white_space(#[trigger] before[i]) by {
            assert(before[i] == word[i]);
        }
        law_one_word(before);
        assert(before.push(word.last()) =~= word);
        assert(!white_space(word[word.len() - 1]));
        if word.len() > 1 {
            assert(!white_space(word[word.len() - 2]));
        } else {
            assert(word =~= seq![word[0]]);
        }
        assert(words(word) =~= seq![word]);
    }
}

/// Between two lists of parts stands one blank once they are joined; a part alone is joined to
/// itself.
pub proof fn law_joining(a: Seq<Seq<char>>, b: Seq<Seq<char>>, part: Seq<char>)
    ensures
        joined(seq![part]) == part,
        joined(Seq::empty()) == Seq::<char>::empty(),
        a.len() > 0 && b.len() > 0 ==> joined(a + b) == joined(a) + seq![' '] + joined(b),
    decreases b.len(),
{
    if a.len() > 0 && b.len() > 0 {
        let rest = b.drop_last();
        assert((a + b).drop_last() =~= a + rest);
        assert((a + b).last() == b.last());
        if rest.len() > 0 {
            law_joining(a, rest, part);
            assert(joined(a + b) =~= joined(a) + seq![' '] + joined(b));
        } else {
            assert(a + rest =~= a);
            assert(joined(a + b) =~= joined(a) + seq![' '] + joined(b));
        }
    }
}

} // verus!
