use vstd::prelude::*;
use crate::text::{chars_eq, chars_of, push_char, string_of};

verus! {

/// What `str::to_uppercase` gives for the characters `s` (Unicode case mapping).
pub uninterp spec fn uppercase_of(s: Seq<char>) -> Seq<char>;

/// What `str::to_lowercase` gives for the characters `s` (Unicode case mapping).
pub uninterp spec fn lowercase_of(s: Seq<char>) -> Seq<char>;

/// Calls `str::to_uppercase`; the result is named, not stated, since Unicode
/// case mapping depends on the standard library's tables.
#[verifier::external_body]
fn str_to_uppercase(s: &str) -> (r: String)
    ensures
        r@ == uppercase_of(s@),
{
    s.to_uppercase()
}

/// Calls `str::to_lowercase`; the result is named, not stated, since Unicode
/// case mapping depends on the standard library's tables.
#[verifier::external_body]
pub(crate) fn str_to_lowercase(s: &str) -> (r: String)
    ensures
        r@ == lowercase_of(s@),
{
    s.to_lowercase()
}

/// Calls `String::pop`: removes the last character, if there is one.
#[verifier::external_body]
fn string_pop(s: &mut String) -> (r: Option<char>)
    ensures
        old(s)@.len() == 0 ==> r is None && final(s)@ == old(s)@,
        old(s)@.len() > 0 ==> r == Some(old(s)@.last()) && final(s)@ == old(s)@.drop_last(),
{
    s.pop()
}

/// Popping the character just appended gives back the string as it was.
pub proof fn law_pop_undoes_append(s: Seq<char>, ch: char)
    ensures
        s.push(ch).len() > 0,
        s.push(ch).drop_last() == s,
{
    assert(s.push(ch).drop_last() =~= s);
}

/// `s` with every occurrence of `pattern` removed, scanning left to right and
/// never letting two removed occurrences overlap, as `str::replace(pattern, "")`
/// does. An empty pattern removes nothing.
pub open spec fn remove_all(s: Seq<char>, pattern: Seq<char>) -> Seq<char>
    decreases s.len(),
{
    if pattern.len() == 0 || s.len() < pattern.len() {
        s
    } else if s.take(pattern.len() as int) == pattern {
        remove_all(s.skip(pattern.len() as int), pattern)
    } else {
        seq![s[0]] + remove_all(s.skip(1), pattern)
    }
}

/// Appends a character.
pub fn append_char(string: &mut String, ch: char)
    ensures
        final(string)@ == old(string)@.push(ch),
{
    push_char(string, ch);
}

/// Removes the last character; an empty string stays empty.
pub fn pop_char(string: &mut String)
    ensures
        final(string)@ == (if old(string)@.len() == 0 {
            old(string)@
        } else {
            old(string)@.drop_last()
        }),
{
    string_pop(string);
}

/// Appends a word (any string).
pub fn append_word(string: &mut String, new_string: String)
    ensures
        final(string)@ == old(string)@ + new_string@,
{
    string.append(new_string.as_str());
}

/// A run of text with no occurrence of a longer pattern is left alone.
proof fn lemma_remove_all_short(s: Seq<char>, pattern: Seq<char>)
    requires
        s.len() < pattern.len(),
    ensures
        remove_all(s, pattern) == s,
{
}

/// Removes every occurrence of `target`, as `str::replace(target, "")` does.
pub fn remove_word(string: &mut String, target: String)
    ensures
        final(string)@ == remove_all(old(string)@, target@),
{
    let cs = chars_of(string.as_str());
    let ps = chars_of(target.as_str());
    let n = cs.len();
    let m = ps.len();
    let mut out: Vec<char> = Vec::new();
    let mut i: usize = 0;
    assert(cs@.skip(0) =~= cs@);
    while i < n
        invariant
            n == cs@.len(),
            m == ps@.len(),
            cs@ == old(string)@,
            ps@ == target@,
            i <= n,
            out@ + remove_all(cs@.skip(i as int), ps@) == remove_all(cs@, ps@),
        decreases n - i,
    {
        let ghost rest = cs@.skip(i as int);
        if m > 0 && m <= n - i {
            let window = vstd::slice::slice_subrange(cs.as_slice(), i, i + m);
            assert(window@ =~= rest.take(m as int));
            if chars_eq(window, ps.as_slice()) {
                assert(rest.skip(m as int) =~= cs@.skip(i + m));
                i += m;
                continue;
            }
        }
        proof {
            if m > 0 && m > n - i {
                lemma_remove_all_short(rest.skip(1), ps@);
            }
        }
        assert(rest.skip(1) =~= cs@.skip(i + 1));
        assert(rest[0] == cs@[i as int]);
        let ghost before = out@;
        out.push(cs[i]);
        assert(out@ =~= before + seq![rest[0]]);
        assert(before + (seq![rest[0]] + remove_all(rest.skip(1), ps@)) =~= out@ + remove_all(
            rest.skip(1),
            ps@,
        ));
        i += 1;
    }
    assert(cs@.skip(n as int) =~= Seq::<char>::empty());
    assert(out@ + Seq::<char>::empty() =~= out@);
    *string = string_of(out.as_slice());
}

/// Converts the whole string to upper case.
pub fn to_uppercase(string: &mut String)
    ensures
        final(string)@ == uppercase_of(old(string)@),
{
    *string = str_to_uppercase(string.as_str());
}

/// Converts the whole string to lower case.
pub fn to_lowercase(string: &mut String)
    ensures
        final(string)@ == lowercase_of(old(string)@),
{
    *string = str_to_lowercase(string.as_str());
}

} // verus!
