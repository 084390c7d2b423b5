use vstd::prelude::*;

verus! {

/// Whether `c` is one of the ten ASCII decimal digits.
pub open spec fn is_decimal_digit(c: char) -> bool {
    '0' <= c && c <= '9'
}

/// The number a decimal digit stands for; 0 for any other character.
pub open spec fn digit_value(c: char) -> nat {
    if is_decimal_digit(c) {
        (c as u8 - '0' as u8) as nat
    } else {
        0
    }
}

/// Whether every character of `text` is a decimal digit.
pub open spec fn all_decimal_digits(text: Seq<char>) -> bool {
    forall|i: int| 0 <= i < text.len() ==> is_decimal_digit(#[trigger] text[i])
}

/// The decimal digits of `text`, in the order in which they occur.
pub open spec fn digits_of(text: Seq<char>) -> Seq<char> {
    text.filter(|c: char| is_decimal_digit(c))
}

/// The characters of `text` that are no decimal digits, in the order in
/// which they occur.
pub open spec fn letters_of(text: Seq<char>) -> Seq<char> {
    text.filter(|c: char| !is_decimal_digit(c))
}

/// Whether `c` is an ASCII capital letter.
pub open spec fn is_ascii_upper(c: char) -> bool {
    'A' <= c && c <= 'Z'
}

/// `c` with an ASCII capital letter replaced by its small letter.
pub open spec fn ascii_lowercase_of(c: char) -> char {
    if is_ascii_upper(c) {
        ((c as u8) + 32) as char
    } else {
        c
    }
}

/// The first character of the Unicode lowercase mapping of `c`, as
/// `char::to_lowercase` of the standard library yields it.
pub uninterp spec fn unicode_lowercase_of(c: char) -> char;

/// The lower-case form of `c`: computed here for ASCII, taken from the
/// Unicode tables of the standard library for every other character.
pub open spec fn lowercase_of(c: char) -> char {
    if c <= '\x7f' {
        ascii_lowercase_of(c)
    } else {
        unicode_lowercase_of(c)
    }
}

/// Whether `a` and `b` differ at most in the case of ASCII letters.
pub open spec fn same_ignoring_ascii_case(a: Seq<char>, b: Seq<char>) -> bool {
    &&& a.len() == b.len()
    &&& forall|i: int|
        #![trigger a[i]]
        #![trigger b[i]]
        0 <= i < a.len() ==> ascii_lowercase_of(a[i]) == ascii_lowercase_of(b[i])
}

/// `text` with every character replaced by its lower-case form.
pub open spec fn lowercased(text: Seq<char>) -> Seq<char> {
    text.map_values(|c: char| lowercase_of(c))
}

/// Calls `char::to_lowercase` of the standard library and keeps the first
/// character that it yields. This is taken on trust, not proved. The claim
/// is no more than that the result depends on the character alone, which
/// gives it its name; the mapping itself is left to the Unicode tables. The
/// call cannot fail: the iterator yields at least one character.
#[verifier::external_body]
fn unicode_lowercase(c: char) -> (lower: char)
    ensures
        lower == unicode_lowercase_of(c),
{
    c.to_lowercase().next().unwrap()
}

/// The lower-case form of one character.
pub fn lowercase(c: char) -> (lower: char)
    ensures
        lower == lowercase_of(c),
{
    if c >= 'A' && c <= 'Z' {
        ((c as u8) + 32) as char
    } else if c <= '\x7f' {
        c
    } else {
        unicode_lowercase(c)
    }
}

/// The lower-case form of every character of `text`.
pub fn lowercase_all(text: &[char]) -> (lowered: Vec<char>)
    ensures
        lowered@ == lowercased(text@),
{
    let mut lowered: Vec<char> = Vec::new();
    let mut i: usize = 0;
    while i < text.len()
        invariant
            i <= text.len(),
            lowered.len() == i,
            forall|j: int| 0 <= j < i ==> lowered[j] == lowercase_of(#[trigger] text[j]),
        decreases text.len() - i,
    {
        lowered.push(lowercase(text[i]));
        i += 1;
    }
    assert(lowered@ =~= lowercased(text@));
    lowered
}

/// What one more character at the end adds to the two halves of a split.
pub proof fn lemma_split_push(text: Seq<char>, c: char)
    ensures
        digits_of(text.push(c)) == if is_decimal_digit(c) {
            digits_of(text).push(c)
        } else {
            digits_of(text)
        },
        letters_of(text.push(c)) == if is_decimal_digit(c) {
            letters_of(text)
        } else {
            letters_of(text).push(c)
        },
{
    reveal(Seq::filter);
    assert(text.push(c).drop_last() =~= text);
}

/// The digit half of a split holds decimal digits only.
pub proof fn lemma_digits_of_are_digits(text: Seq<char>)
    ensures
        all_decimal_digits(digits_of(text)),
    decreases text.len(),
{
    reveal(Seq::filter);
    if text.len() > 0 {
        lemma_digits_of_are_digits(text.drop_last());
    }
}

/// A text of decimal digits only is its own digit half, and has no other half.
pub proof fn lemma_split_of_digits(count: Seq<char>)
    requires
        all_decimal_digits(count),
    ensures
        digits_of(count) == count,
        letters_of(count) == Seq::<char>::empty(),
    decreases count.len(),
{
    if count.len() == 0 {
        reveal(Seq::filter);
    } else {
        let shorter = count.drop_last();
        let c = count[count.len() - 1];
        lemma_split_of_digits(shorter);
        lemma_split_push(shorter, c);
        assert(shorter.push(c) =~= count);
    }
}

/// A text without decimal digits has no digit half, and is its own other
/// half.
pub proof fn lemma_split_of_letters(suffix: Seq<char>)
    requires
        forall|i: int| 0 <= i < suffix.len() ==> !is_decimal_digit(#[trigger] suffix[i]),
    ensures
        digits_of(suffix) == Seq::<char>::empty(),
        letters_of(suffix) == suffix,
    decreases suffix.len(),
{
    if suffix.len() == 0 {
        reveal(Seq::filter);
    } else {
        let shorter = suffix.drop_last();
        let c = suffix[suffix.len() - 1];
        lemma_split_of_letters(shorter);
        lemma_split_push(shorter, c);
        assert(shorter.push(c) =~= suffix);
    }
}

/// A count followed by a suffix that holds no digit splits into the two.
pub proof fn lemma_split_of_count_then_suffix(count: Seq<char>, suffix: Seq<char>)
    requires
        all_decimal_digits(count),
        forall|i: int| 0 <= i < suffix.len() ==> !is_decimal_digit(#[trigger] suffix[i]),
    ensures
        digits_of(count + suffix) == count,
        letters_of(count + suffix) == suffix,
{
    lemma_split_of_digits(count);
    lemma_split_of_letters(suffix);
    Seq::filter_distributes_over_add(count, suffix, |c: char| is_decimal_digit(c));
    Seq::filter_distributes_over_add(count, suffix, |c: char| !is_decimal_digit(c));
}

/// Texts that differ at most in the case of ASCII letters split into the
/// same digits and, once in lower case, the same other characters.
pub proof fn lemma_split_ignores_ascii_case(a: Seq<char>, b: Seq<char>)
    requires
        same_ignoring_ascii_case(a, b),
    ensures
        digits_of(a) == digits_of(b),
        lowercased(letters_of(a)) == lowercased(letters_of(b)),
    decreases a.len(),
{
    reveal(Seq::filter);
    if a.len() > 0 {
        let shorter_a = a.drop_last();
        let shorter_b = b.drop_last();
        assert forall|i: int| 0 <= i < shorter_a.len() implies ascii_lowercase_of(
            #[trigger] shorter_a[i],
        ) == ascii_lowercase_of(shorter_b[i]) by {
            assert(shorter_a[i] == a[i] && shorter_b[i] == b[i]);
        }
        lemma_split_ignores_ascii_case(shorter_a, shorter_b);
        let x = a[a.len() - 1];
        let y = b[b.len() - 1];
        assert(ascii_lowercase_of(x) == ascii_lowercase_of(y));
        if !is_decimal_digit(x) {
            assert(lowercase_of(x) == lowercase_of(y));
            assert(lowercased(letters_of(shorter_a).push(x)) =~= lowercased(
                letters_of(shorter_a),
            ).push(lowercase_of(x)));
            assert(lowercased(letters_of(shorter_b).push(y)) =~= lowercased(
                letters_of(shorter_b),
            ).push(lowercase_of(y)));
        }
    }
}

/// Splits `text` into its decimal digits and its other characters. Each half
/// keeps the order of the input; where the two halves were interleaved is
/// forgotten.
pub fn split_digits(text: &str) -> (parts: (Vec<char>, Vec<char>))
    ensures
        parts.0@ == digits_of(text@),
        parts.1@ == letters_of(text@),
{
    let mut digits: Vec<char> = Vec::new();
    let mut letters: Vec<char> = Vec::new();
    proof {
        reveal(Seq::filter);
        assert(text@.take(0) =~= Seq::<char>::empty());
    }
    for c in it: text.chars()
        invariant
            it.seq() == text@,
            digits@ == digits_of(text@.take(it.index())),
            letters@ == letters_of(text@.take(it.index())),
    {
        proof {
            lemma_split_push(text@.take(it.index()), c);
            assert(text@.take(it.index()).push(c) =~= text@.take(it.index() + 1));
        }
        if c >= '0' && c <= '9' {
            digits.push(c);
        } else {
            letters.push(c);
        }
    }
    assert(text@.take(text@.len() as int) =~= text@);
    (digits, letters)
}

} // verus!
