use vstd::prelude::*;

verus! {

/// `str::to_lowercase`: the text in lowercase by the Unicode rules.
pub uninterp spec fn lowercase(s: Seq<char>) -> Seq<char>;

/// `str::to_uppercase`: the text in uppercase by the Unicode rules.
pub uninterp spec fn uppercase(s: Seq<char>) -> Seq<char>;

/// A character in ASCII lowercase: `A` to `Z` become `a` to `z`, every
/// other character stays as it is.
pub open spec fn ascii_lower_char(c: char) -> char {
    if 'A' <= c && c <= 'Z' {
        ((c as u32) + 32) as char
    } else {
        c
    }
}

/// A character in ASCII uppercase: `a` to `z` become `A` to `Z`, every
/// other character stays as it is.
pub open spec fn ascii_upper_char(c: char) -> char {
    if 'a' <= c && c <= 'z' {
        ((c as u32) - 32) as char
    } else {
        c
    }
}

/// The text in ASCII lowercase.
pub open spec fn ascii_lower(s: Seq<char>) -> Seq<char> {
    s.map_values(|c: char| ascii_lower_char(c))
}

/// The text in ASCII uppercase.
pub open spec fn ascii_upper(s: Seq<char>) -> Seq<char> {
    s.map_values(|c: char| ascii_upper_char(c))
}

/// `str::to_lowercase`; its result is named [`lowercase`] of the argument.
/// For ASCII text the Unicode lowercase mapping is the ASCII one, as the
/// documentation of `str::to_ascii_lowercase` points out.
#[verifier::external_body]
pub fn to_lowercase(s: &str) -> (r: String)
    ensures
        r@ == lowercase(s@),
        vstd::utf8::is_ascii_chars(s@) ==> r@ == ascii_lower(s@),
{
    s.to_lowercase()
}

/// `str::to_uppercase`; its result is named [`uppercase`] of the argument.
/// For ASCII text the Unicode uppercase mapping is the ASCII one, as the
/// documentation of `str::to_ascii_uppercase` points out.
#[verifier::external_body]
pub fn to_uppercase(s: &str) -> (r: String)
    ensures
        r@ == uppercase(s@),
        vstd::utf8::is_ascii_chars(s@) ==> r@ == ascii_upper(s@),
{
    s.to_uppercase()
}

/// `String::push`: appends one character to the string.
#[verifier::external_body]
pub fn push_char(s: &mut String, c: char)
    ensures
        final(s)@ == old(s)@.push(c),
{
    s.push(c);
}

/// Whether two texts hold the same characters.
pub fn str_equals(a: &str, b: &str) -> (r: bool)
    ensures
        r == (a@ == b@),
{
    let n = a.unicode_len();
    if n != b.unicode_len() {
        return false;
    }
    let mut i: usize = 0;
    while i < n
        invariant
            n == a@.len(),
            n == b@.len(),
            i <= n,
            forall|j: int| 0 <= j < i ==> a@[j] == b@[j],
        decreases n - i,
    {
        if a.get_char(i) != b.get_char(i) {
            return false;
        }
        i = i + 1;
    }
    assert(a@ =~= b@);
    true
}

/// The decimal digit `d` as a character.
pub open spec fn digit_char(d: nat) -> char {
    ((48 + d) as u8) as char
}

/// The decimal text of `v`, without leading zeros.
pub open spec fn decimal(v: nat) -> Seq<char>
    decreases v,
{
    if v < 10 {
        seq![digit_char(v)]
    } else {
        decimal(v / 10).push(digit_char(v % 10))
    }
}

/// Whether a word is made of decimal digits only.
pub open spec fn is_digits(w: Seq<char>) -> bool {
    w.len() > 0 && forall|i: int| 0 <= i < w.len() ==> '0' <= #[trigger] w[i] && w[i] <= '9'
}

/// The value of decimal digits.
pub open spec fn digits_value(w: Seq<char>) -> nat
    decreases w.len(),
{
    if w.len() == 0 {
        0
    } else {
        digits_value(w.drop_last()) * 10 + ((w.last() as nat) - 48) as nat
    }
}

/// Appends the decimal text of `v`.
pub fn push_decimal(s: &mut String, v: u32)
    ensures
        final(s)@ == old(s)@ + decimal(v as nat),
    decreases v,
{
    if v >= 10 {
        push_decimal(s, v / 10);
    }
    push_char(s, ((48 + v % 10) as u8) as char);
    assert(s@ =~= old(s)@ + decimal(v as nat));
}

/// The octets as `{:?}` shows a list of them: the decimal values, separated
/// by a comma and a space, in square brackets.
pub open spec fn debug_bytes(b: Seq<u8>) -> Seq<char> {
    seq!['['] + debug_items(b) + seq![']']
}

/// The decimal values of the octets, separated by a comma and a space.
pub open spec fn debug_items(b: Seq<u8>) -> Seq<char>
    decreases b.len(),
{
    if b.len() == 0 {
        Seq::empty()
    } else if b.len() == 1 {
        decimal(b[0] as nat)
    } else {
        debug_items(b.drop_last()) + seq![',', ' '] + decimal(b.last() as nat)
    }
}

/// Appends [`debug_bytes`] of the octets.
pub fn push_debug_bytes(s: &mut String, b: &[u8])
    ensures
        final(s)@ == old(s)@ + debug_bytes(b@),
{
    push_char(s, '[');
    let mut i: usize = 0;
    while i < b.len()
        invariant
            i <= b@.len(),
            s@ == old(s)@ + seq!['['] + debug_items(b@.take(i as int)),
        decreases b@.len() - i,
    {
        let ghost before = s@;
        if i > 0 {
            push_char(s, ',');
            push_char(s, ' ');
        }
        push_decimal(s, b[i] as u32);
        proof {
            let t = b@.take(i + 1);
            assert(t.drop_last() =~= b@.take(i as int));
            assert(t.last() == b@[i as int]);
            if i == 0 {
                assert(debug_items(t) == decimal(b@[0] as nat));
                assert(b@.take(0) =~= Seq::<u8>::empty());
                assert(s@ =~= old(s)@ + seq!['['] + debug_items(t));
            } else {
                assert(s@ =~= old(s)@ + seq!['['] + debug_items(t));
            }
        }
        i = i + 1;
    }
    assert(b@.take(i as int) =~= b@);
    push_char(s, ']');
    assert(s@ =~= old(s)@ + debug_bytes(b@));
}

/// The four octets of an IPv4 address in dotted decimal.
pub open spec fn ipv4_text(a: Seq<u8>) -> Seq<char> {
    decimal(a[0] as nat) + seq!['.'] + decimal(a[1] as nat) + seq!['.'] + decimal(a[2] as nat)
        + seq!['.'] + decimal(a[3] as nat)
}

/// Appends [`ipv4_text`] of the address.
pub fn push_ipv4(s: &mut String, a: &[u8; 4])
    ensures
        final(s)@ == old(s)@ + ipv4_text(a@),
{
    push_decimal(s, a[0] as u32);
    push_char(s, '.');
    push_decimal(s, a[1] as u32);
    push_char(s, '.');
    push_decimal(s, a[2] as u32);
    push_char(s, '.');
    push_decimal(s, a[3] as u32);
    assert(s@ =~= old(s)@ + ipv4_text(a@));
}

/// Lowercasing ASCII text twice is lowercasing it once, and the text stays
/// ASCII.
pub proof fn lemma_ascii_lower_idempotent(s: Seq<char>)
    ensures
        ascii_lower(ascii_lower(s)) == ascii_lower(s),
        vstd::utf8::is_ascii_chars(s) ==> vstd::utf8::is_ascii_chars(ascii_lower(s)),
{
    assert(ascii_lower(ascii_lower(s)) =~= ascii_lower(s));
}

/// Uppercasing ASCII text gives the same whether or not it was lowercased
/// first, and lowercased ASCII text stays ASCII.
pub proof fn lemma_ascii_upper_of_lower(s: Seq<char>)
    ensures
        ascii_upper(ascii_lower(s)) == ascii_upper(s),
        vstd::utf8::is_ascii_chars(s) ==> vstd::utf8::is_ascii_chars(ascii_lower(s)),
{
    assert(ascii_upper(ascii_lower(s)) =~= ascii_upper(s));
}

/// Text without ASCII lowercase letters is its own ASCII uppercase.
pub proof fn lemma_ascii_upper_fixed(s: Seq<char>)
    requires
        forall|i: int| 0 <= i < s.len() ==> !('a' <= #[trigger] s[i] && s[i] <= 'z'),
    ensures
        ascii_upper(s) == s,
{
    assert(ascii_upper(s) =~= s);
}

/// Text without ASCII uppercase letters is its own ASCII lowercase.
pub proof fn lemma_ascii_lower_fixed(s: Seq<char>)
    requires
        forall|i: int| 0 <= i < s.len() ==> !('A' <= #[trigger] s[i] && s[i] <= 'Z'),
    ensures
        ascii_lower(s) == s,
{
    assert(ascii_lower(s) =~= s);
}

/// Whether every character of the text is an ASCII uppercase letter.
pub open spec fn is_upper_word(s: Seq<char>) -> bool {
    forall|i: int| 0 <= i < s.len() ==> 'A' <= #[trigger] s[i] && s[i] <= 'Z'
}

/// A word of ASCII uppercase letters is ASCII and its own ASCII uppercase.
pub proof fn lemma_upper_word(s: Seq<char>)
    requires
        is_upper_word(s),
    ensures
        vstd::utf8::is_ascii_chars(s),
        ascii_upper(s) == s,
{
    assert(ascii_upper(s) =~= s);
}

} // verus!
