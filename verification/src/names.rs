use vstd::prelude::*;
use vstd::string::StrSliceExecFns;
use convert_case::{Case, Casing};

verus! {

/// What `char::is_alphanumeric` returns: a function of the character alone,
/// fixed by the Unicode character tables.
pub uninterp spec fn is_alnum(c: char) -> bool;

/// A character that may appear in a generated identifier: a Unicode letter or
/// digit, or an underscore.
pub open spec fn name_char(c: char) -> bool {
    is_alnum(c) || c == '_'
}

/// The subsequence of `s` made of its identifier-safe characters, in order.
pub open spec fn filter_name_chars(s: Seq<char>) -> Seq<char>
    decreases s.len(),
{
    if s.len() == 0 {
        Seq::empty()
    } else {
        filter_name_chars(s.drop_last()) + (if name_char(s.last()) {
            seq![s.last()]
        } else {
            Seq::empty()
        })
    }
}

/// Every character of `s` is identifier-safe.
pub open spec fn all_name_chars(s: Seq<char>) -> bool {
    forall|i: int| 0 <= i < s.len() ==> name_char(s[i])
}

/// Filtering keeps only identifier-safe characters.
pub proof fn lemma_filter_name_chars_clean(s: Seq<char>)
    ensures
        all_name_chars(filter_name_chars(s)),
    decreases s.len(),
{
    if s.len() > 0 {
        lemma_filter_name_chars_clean(s.drop_last());
    }
}

/// Relies on `char::is_alphanumeric`: true exactly for Unicode letters and
/// digits.
#[verifier::external_body]
fn is_alphanumeric_char(c: char) -> (r: bool)
    ensures
        r == is_alnum(c),
{
    c.is_alphanumeric()
}

/// Relies on `String::push`: appends one character at the end of the string.
#[verifier::external_body]
fn push_char(s: &mut String, c: char)
    ensures
        final(s)@ == old(s)@.push(c),
{
    s.push(c)
}

/// What `convert_case`'s snake-case conversion returns for a given string: a
/// function of the input alone.
pub uninterp spec fn snake_of(s: Seq<char>) -> Seq<char>;

/// Relies on `convert_case::Casing::to_case` with `Case::Snake`: splits the
/// input into words, lower-cases them and joins them with underscores.
#[verifier::external_body]
fn to_snake_case(s: &str) -> (r: String)
    ensures
        r@ == snake_of(s@),
{
    s.to_case(Case::Snake)
}

/// Relies on `rand::random::<faker_rand::en_us::names::FirstName>` and the
/// name's `Display` form: draws a random English first name. Nothing is
/// assumed of the string that comes back.
#[verifier::external_body]
fn random_first_name() -> String {
    rand::random::<faker_rand::en_us::names::FirstName>().to_string()
}

/// Keeps only the identifier-safe characters of `s`, in order.
pub fn sanitize_name(s: &str) -> (r: String)
    ensures
        r@ == filter_name_chars(s@),
        all_name_chars(r@),
{
    let n = s.unicode_len();
    let mut r = String::new();
    let mut i: usize = 0;
    while i < n
        invariant
            n == s@.len(),
            i <= n,
            r@ == filter_name_chars(s@.subrange(0, i as int)),
        decreases n - i,
    {
        let c = s.get_char(i);
        let ghost prefix = s@.subrange(0, i as int);
        if is_alphanumeric_char(c) || c == '_' {
            push_char(&mut r, c);
        }
        i = i + 1;
        proof {
            let longer = s@.subrange(0, i as int);
            assert(longer.drop_last() =~= prefix);
            assert(longer.last() == c);
            if name_char(c) {
                assert(r@ =~= filter_name_chars(prefix) + seq![c]);
            }
        }
    }
    proof {
        assert(s@.subrange(0, n as int) =~= s@);
        lemma_filter_name_chars_clean(s@);
    }
    r
}

/// A fresh random identifier: a random first name, snake-cased, stripped of
/// everything but letters, digits and underscores.
pub fn random_name() -> (r: String)
    ensures
        all_name_chars(r@),
        exists|raw: Seq<char>| r@ == filter_name_chars(snake_of(raw)),
{
    let raw = random_first_name();
    let snake = to_snake_case(raw.as_str());
    let r = sanitize_name(snake.as_str());
    proof {
        assert(r@ == filter_name_chars(snake_of(raw@)));
    }
    r
}

/// `num` freshly drawn package names.
pub fn packages(num: &usize) -> (r: Vec<String>)
    ensures
        r@.len() == *num,
        forall|i: int| 0 <= i < r@.len() ==> all_name_chars(r@[i]@),
{
    let mut r: Vec<String> = Vec::new();
    let mut i: usize = 0;
    while i < *num
        invariant
            i <= *num,
            r@.len() == i,
            forall|j: int| 0 <= j < r@.len() ==> all_name_chars(r@[j]@),
        decreases *num - i,
    {
        let name = random_name();
        r.push(name);
        i = i + 1;
    }
    r
}

} // verus!
