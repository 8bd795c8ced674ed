//! Character-level helpers shared by the editor and the renderer.
use vstd::prelude::*;
use vstd::std_specs::iter::IteratorSpec;
use vstd::utf8::encode_utf8;

verus! {

/// What `char::is_alphanumeric` answers for `c`.
pub uninterp spec fn alphanumeric(c: char) -> bool;

/// An ASCII letter or digit.
pub open spec fn ascii_alphanumeric(c: char) -> bool {
    ('a' <= c && c <= 'z') || ('A' <= c && c <= 'Z') || ('0' <= c && c <= '9')
}

/// Relies on `char::is_alphanumeric`: alphabetic or numeric per Unicode,
/// which on ASCII are exactly the letters and digits.
#[verifier::external_body]
fn char_is_alphanumeric(c: char) -> (r: bool)
    ensures
        r == alphanumeric(c),
        (c as u32) < 0x80 ==> r == ascii_alphanumeric(c),
{
    c.is_alphanumeric()
}

/// A word character is alphanumeric or an underscore; anything else separates words.
pub open spec fn word_char(c: char) -> bool {
    alphanumeric(c) || c == '_'
}

/// Whether `c` is a word character.
pub fn is_word_char(c: char) -> (r: bool)
    ensures
        r == word_char(c),
        (c as u32) < 0x80 ==> r == (ascii_alphanumeric(c) || c == '_'),
{
    c == '_' || char_is_alphanumeric(c)
}

/// Relies on `String`'s `FromIterator<char>`: the characters, in order.
#[verifier::external_body]
pub(crate) fn string_from_chars(v: &Vec<char>) -> (r: String)
    ensures
        r@ == v@,
{
    v.iter().collect()
}

/// Which characters of `s` are word characters.
pub open spec fn word_mask(s: Seq<char>) -> Seq<bool> {
    s.map_values(|c: char| word_char(c))
}

/// Leftward from `i`, the position reached after skipping separators
/// (`w[j]` tells whether character `j` is a word character).
pub open spec fn skip_seps_left(w: Seq<bool>, i: nat) -> nat
    decreases i,
{
    if 0 < i <= w.len() && !w[i - 1] {
        skip_seps_left(w, (i - 1) as nat)
    } else {
        i
    }
}

/// Leftward from `i`, the position reached after skipping word characters.
pub open spec fn skip_word_left(w: Seq<bool>, i: nat) -> nat
    decreases i,
{
    if 0 < i <= w.len() && w[i - 1] {
        skip_word_left(w, (i - 1) as nat)
    } else {
        i
    }
}

/// Rightward from `i`, the position reached after skipping separators.
pub open spec fn skip_seps_right(w: Seq<bool>, i: nat) -> nat
    decreases w.len() - i,
{
    if i < w.len() && !w[i as int] {
        skip_seps_right(w, i + 1)
    } else {
        i
    }
}

/// Rightward from `i`, the position reached after skipping word characters.
pub open spec fn skip_word_right(w: Seq<bool>, i: nat) -> nat
    decreases w.len() - i,
{
    if i < w.len() && w[i as int] {
        skip_word_right(w, i + 1)
    } else {
        i
    }
}

/// The start of the word left of `i`: separators are skipped first, then word characters.
pub open spec fn mask_word_left(w: Seq<bool>, i: nat) -> nat {
    skip_word_left(w, skip_seps_left(w, i))
}

/// The end of the word right of `i`: separators are skipped first, then word characters.
pub open spec fn mask_word_right(w: Seq<bool>, i: nat) -> nat {
    skip_word_right(w, skip_seps_right(w, i))
}

/// [`mask_word_left`] over the characters of `s`.
pub open spec fn word_left(s: Seq<char>, i: nat) -> nat {
    mask_word_left(word_mask(s), i)
}

/// [`mask_word_right`] over the characters of `s`.
pub open spec fn word_right(s: Seq<char>, i: nat) -> nat {
    mask_word_right(word_mask(s), i)
}

proof fn lemma_skip_left_bounds(w: Seq<bool>, i: nat)
    requires
        i <= w.len(),
    ensures
        skip_seps_left(w, i) <= i,
        skip_word_left(w, i) <= i,
    decreases i,
{
    if i > 0 {
        lemma_skip_left_bounds(w, (i - 1) as nat);
    }
}

proof fn lemma_skip_right_bounds(w: Seq<bool>, i: nat)
    requires
        i <= w.len(),
    ensures
        i <= skip_seps_right(w, i) <= w.len(),
        i <= skip_word_right(w, i) <= w.len(),
    decreases w.len() - i,
{
    if i < w.len() {
        lemma_skip_right_bounds(w, i + 1);
    }
}

/// A word motion to the left never moves right.
pub proof fn lemma_word_left_bounds(s: Seq<char>, i: nat)
    requires
        i <= s.len(),
    ensures
        word_left(s, i) <= i,
{
    let w = word_mask(s);
    lemma_skip_left_bounds(w, i);
    lemma_skip_left_bounds(w, skip_seps_left(w, i));
}

/// A word motion to the right never moves left nor past the end.
pub proof fn lemma_word_right_bounds(s: Seq<char>, i: nat)
    requires
        i <= s.len(),
    ensures
        i <= word_right(s, i) <= s.len(),
{
    let w = word_mask(s);
    lemma_skip_right_bounds(w, i);
    lemma_skip_right_bounds(w, skip_seps_right(w, i));
}

/// The word-character mask of `chars`.
pub fn word_mask_of(chars: &Vec<char>) -> (r: Vec<bool>)
    ensures
        r@ == word_mask(chars@),
{
    let mut out: Vec<bool> = Vec::new();
    let mut i: usize = 0;
    while i < chars.len()
        invariant
            i <= chars@.len(),
            out@ == word_mask(chars@.take(i as int)),
        decreases chars@.len() - i,
    {
        let b = is_word_char(chars[i]);
        out.push(b);
        proof {
            assert(chars@.take(i + 1) =~= chars@.take(i as int).push(chars@[i as int]));
            assert(word_mask(chars@.take(i + 1)) =~= word_mask(chars@.take(i as int)).push(b));
        }
        i = i + 1;
    }
    proof {
        assert(chars@.take(chars@.len() as int) =~= chars@);
    }
    out
}

/// The word motion to the left from `i`, over a word-character mask.
pub fn mask_word_left_index(w: &Vec<bool>, i: usize) -> (r: usize)
    requires
        i <= w@.len(),
    ensures
        r == mask_word_left(w@, i as nat),
{
    let mut j: usize = i;
    while j > 0 && !w[j - 1]
        invariant
            j <= i <= w@.len(),
            skip_seps_left(w@, j as nat) == skip_seps_left(w@, i as nat),
        decreases j,
    {
        j = j - 1;
    }
    let ghost k = j;
    while j > 0 && w[j - 1]
        invariant
            j <= k <= w@.len(),
            k == skip_seps_left(w@, i as nat),
            skip_word_left(w@, j as nat) == skip_word_left(w@, k as nat),
        decreases j,
    {
        j = j - 1;
    }
    j
}

/// The word motion to the right from `i`, over a word-character mask.
pub fn mask_word_right_index(w: &Vec<bool>, i: usize) -> (r: usize)
    requires
        i <= w@.len(),
    ensures
        r == mask_word_right(w@, i as nat),
{
    let len = w.len();
    let mut j: usize = i;
    while j < len && !w[j]
        invariant
            i <= j <= w@.len(),
            len == w@.len(),
            skip_seps_right(w@, j as nat) == skip_seps_right(w@, i as nat),
        decreases len - j,
    {
        j = j + 1;
    }
    let ghost k = j;
    while j < len && w[j]
        invariant
            k <= j <= w@.len(),
            len == w@.len(),
            k == skip_seps_right(w@, i as nat),
            skip_word_right(w@, j as nat) == skip_word_right(w@, k as nat),
        decreases len - j,
    {
        j = j + 1;
    }
    j
}

/// The position [`word_left`] gives for `chars` and `i`.
pub fn word_left_index(chars: &Vec<char>, i: usize) -> (r: usize)
    requires
        i <= chars@.len(),
    ensures
        r == word_left(chars@, i as nat),
{
    let w = word_mask_of(chars);
    mask_word_left_index(&w, i)
}

/// The position [`word_right`] gives for `chars` and `i`.
pub fn word_right_index(chars: &Vec<char>, i: usize) -> (r: usize)
    requires
        i <= chars@.len(),
    ensures
        r == word_right(chars@, i as nat),
{
    let w = word_mask_of(chars);
    mask_word_right_index(&w, i)
}

/// Number of bytes in the UTF-8 encoding of a single scalar value.
pub open spec fn utf8_width(c: char) -> nat {
    if (c as u32) < 0x80 {
        1
    } else if (c as u32) < 0x800 {
        2
    } else if (c as u32) < 0x10000 {
        3
    } else {
        4
    }
}

/// Number of bytes that the characters `s[0..k]` take in UTF-8.
pub open spec fn byte_offset(s: Seq<char>, k: nat) -> nat
    decreases k,
{
    if k == 0 || s.len() == 0 {
        0
    } else if k > s.len() {
        byte_offset(s, s.len())
    } else {
        byte_offset(s, (k - 1) as nat) + utf8_width(s[k - 1])
    }
}

proof fn lemma_encode_scalar_width(c: char)
    ensures
        vstd::utf8::encode_scalar(c as u32).len() == utf8_width(c),
{
}

proof fn lemma_encode_append(a: Seq<char>, b: Seq<char>)
    ensures
        encode_utf8(a + b) == encode_utf8(a) + encode_utf8(b),
    decreases a.len(),
{
    if a.len() == 0 {
        assert(a + b =~= b);
    } else {
        assert((a + b).drop_first() =~= a.drop_first() + b);
        lemma_encode_append(a.drop_first(), b);
        assert((a + b)[0] == a[0]);
    }
}

/// Offsets grow with the character count.
pub proof fn lemma_byte_offset_monotone(s: Seq<char>, j: nat, k: nat)
    requires
        j <= k <= s.len(),
    ensures
        byte_offset(s, j) <= byte_offset(s, k),
    decreases k,
{
    if j < k {
        lemma_byte_offset_monotone(s, j, (k - 1) as nat);
    }
}

/// Past the end, the offset is that of the end.
pub proof fn lemma_byte_offset_clamped(s: Seq<char>, k: nat)
    ensures
        byte_offset(s, k) == byte_offset(s, if k <= s.len() { k } else { s.len() }),
{
}

/// The offset of `k` characters is the length of their UTF-8 encoding.
pub proof fn lemma_byte_offset_is_encoding(s: Seq<char>, k: nat)
    requires
        k <= s.len(),
    ensures
        byte_offset(s, k) == encode_utf8(s.take(k as int)).len(),
    decreases k,
{
    if k == 0 {
        assert(s.take(0) =~= Seq::<char>::empty());
    } else {
        lemma_byte_offset_is_encoding(s, (k - 1) as nat);
        let p = s.take(k - 1);
        assert(s.take(k as int) =~= p + seq![s[k - 1]]);
        lemma_encode_append(p, seq![s[k - 1]]);
        let one = seq![s[k - 1]];
        assert(one.drop_first() =~= Seq::<char>::empty());
        lemma_encode_scalar_width(s[k - 1]);
        assert(encode_utf8(one) =~= vstd::utf8::encode_scalar(s[k - 1] as u32) + encode_utf8(
            Seq::<char>::empty(),
        ));
    }
}

pub(crate) fn char_width(c: char) -> (r: usize)
    ensures
        r == utf8_width(c),
{
    let u = c as u32;
    if u < 0x80 {
        1
    } else if u < 0x800 {
        2
    } else if u < 0x10000 {
        3
    } else {
        4
    }
}

/// The characters of `s`, in order.
pub fn chars_of(s: &str) -> (r: Vec<char>)
    ensures
        r@ == s@,
{
    let mut out: Vec<char> = Vec::new();
    let mut it = s.chars();
    proof {
        broadcast use vstd::string::group_string_axioms;
    }
    loop
        invariant
            it.remaining() == s@.skip(out@.len() as int),
            out@.len() <= s@.len(),
            out@ == s@.take(out@.len() as int),
        ensures
            out@ == s@,
        decreases s@.len() - out@.len(),
    {
        match it.next() {
            Some(c) => {
                out.push(c);
            }
            None => {
                break;
            }
        }
    }
    out
}

} // verus!
