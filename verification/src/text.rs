//! Operations of std on strings that vstd gives no specification.

use vstd::prelude::*;

verus! {

/// `<str as PartialEq>::eq`: two strings are equal when their characters are.
#[verifier::external_body]
pub(crate) fn str_eq(a: &str, b: &str) -> (r: bool)
    ensures
        r == (a@ == b@),
{
    a == b
}

/// Whether `c` has Unicode's White_Space property, as `char::is_whitespace`
/// tells: the controls from tab to carriage return, space, next line,
/// no-break space, ogham space mark, the spaces from en quad to hair space,
/// line and paragraph separators, narrow no-break space, medium mathematical
/// space and ideographic space.
pub open spec fn is_white_space(c: char) -> bool {
    let u = c as u32;
    ||| 0x9 <= u <= 0xD
    ||| u == 0x20
    ||| u == 0x85
    ||| u == 0xA0
    ||| u == 0x1680
    ||| 0x2000 <= u <= 0x200A
    ||| u == 0x2028
    ||| u == 0x2029
    ||| u == 0x202F
    ||| u == 0x205F
    ||| u == 0x3000
}

/// `s` without its leading whitespace.
pub open spec fn trim_start(s: Seq<char>) -> Seq<char>
    decreases s.len(),
{
    if s.len() > 0 && is_white_space(s[0]) {
        trim_start(s.drop_first())
    } else {
        s
    }
}

/// `s` without its trailing whitespace.
pub open spec fn trim_end(s: Seq<char>) -> Seq<char>
    decreases s.len(),
{
    if s.len() > 0 && is_white_space(s.last()) {
        trim_end(s.drop_last())
    } else {
        s
    }
}

/// The characters of `s` without leading and trailing whitespace.
pub open spec fn trimmed(s: Seq<char>) -> Seq<char> {
    trim_end(trim_start(s))
}

/// Whether every character of `s` is whitespace.
pub open spec fn all_white_space(s: Seq<char>) -> bool {
    forall|i: int| 0 <= i < s.len() ==> is_white_space(#[trigger] s[i])
}

proof fn lemma_trim_start_padding(p: Seq<char>, rest: Seq<char>)
    requires
        all_white_space(p),
        rest.len() > 0 ==> !is_white_space(rest[0]),
    ensures
        trim_start(p + rest) == rest,
    decreases p.len(),
{
    if p.len() == 0 {
        assert(p + rest =~= rest);
        if rest.len() > 0 {
        }
    } else {
        assert((p + rest).drop_first() =~= p.drop_first() + rest);
        assert(is_white_space(p[0]));
        lemma_trim_start_padding(p.drop_first(), rest);
    }
}

proof fn lemma_trim_end_padding(rest: Seq<char>, q: Seq<char>)
    requires
        all_white_space(q),
        rest.len() > 0 ==> !is_white_space(rest.last()),
    ensures
        trim_end(rest + q) == rest,
    decreases q.len(),
{
    if q.len() == 0 {
        assert(rest + q =~= rest);
    } else {
        assert((rest + q).drop_last() =~= rest + q.drop_last());
        assert(is_white_space(q[q.len() - 1]));
        lemma_trim_end_padding(rest, q.drop_last());
    }
}

/// Trimming drops exactly the whitespace around a text that neither starts
/// nor ends with whitespace.
pub proof fn lemma_trim_padding(p: Seq<char>, core: Seq<char>, q: Seq<char>)
    requires
        all_white_space(p),
        all_white_space(q),
        core.len() > 0 ==> !is_white_space(core[0]) && !is_white_space(core.last()),
    ensures
        trimmed(p + core + q) == core,
{
    if core.len() > 0 {
        assert((core + q)[0] == core[0]);
    } else {
        assert(core + q =~= q);
        assert forall|i: int| 0 <= i < q.len() implies is_white_space(#[trigger] q[i]) by {}
    }
    assert(p + core + q =~= p + (core + q));
    if core.len() > 0 {
        lemma_trim_start_padding(p, core + q);
        lemma_trim_end_padding(core, q);
    } else {
        lemma_all_white_trims_away(p + q);
        assert(p + core + q =~= p + q);
    }
}

proof fn lemma_all_white_trims_away(s: Seq<char>)
    requires
        all_white_space(s),
    ensures
        trimmed(s) == Seq::<char>::empty(),
    decreases s.len(),
{
    lemma_trim_start_padding(s, Seq::empty());
    assert(s + Seq::<char>::empty() =~= s);
    assert(trim_end(Seq::<char>::empty()) == Seq::<char>::empty());
}

/// `str::trim`: `s` without leading and trailing whitespace.
#[verifier::external_body]
pub(crate) fn trim(s: &str) -> (r: &str)
    ensures
        r@ == trimmed(s@),
{
    s.trim()
}

/// The characters of `s` in lower case, as `str::to_lowercase` gives them.
pub uninterp spec fn lowercased(s: Seq<char>) -> Seq<char>;

/// `str::to_lowercase`: `s` in lower case.
#[verifier::external_body]
pub(crate) fn to_lowercase(s: &str) -> (r: String)
    ensures
        r@ == lowercased(s@),
{
    s.to_lowercase()
}

/// `String::push`: `c` appended to the string.
#[verifier::external_body]
pub(crate) fn push_char(s: &mut String, c: char)
    ensures
        final(s)@ == old(s)@.push(c),
{
    s.push(c);
}

/// `String::pop`: the last character taken off the string, if there is one.
#[verifier::external_body]
pub(crate) fn pop_char(s: &mut String) -> (r: Option<char>)
    ensures
        old(s)@.len() == 0 ==> r is None && final(s)@ == old(s)@,
        old(s)@.len() > 0 ==> r == Some(old(s)@.last()) && final(s)@ == old(s)@.drop_last(),
{
    s.pop()
}

} // verus!
