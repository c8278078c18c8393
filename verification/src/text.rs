//! Small string tools shared by the other modules: moving between strings
//! and vectors of characters, and the separator rewrite of relative paths.

use vstd::prelude::*;

verus! {

/// Calls `String::push`. Claimed, as std documents it: the character is
/// appended to the string.
#[verifier::external_body]
pub(crate) fn push_char(s: &mut String, c: char)
    ensures
        final(s)@ == old(s)@.push(c),
{
    s.push(c)
}

/// The characters of a string slice.
pub fn chars_of(s: &str) -> (r: Vec<char>)
    ensures
        r@ == s@,
{
    let n = s.unicode_len();
    let mut r: Vec<char> = Vec::new();
    let mut i: usize = 0;
    while i < n
        invariant
            n == s@.len(),
            i <= n,
            r@ == s@.take(i as int),
        decreases n - i,
    {
        r.push(s.get_char(i));
        i = i + 1;
        assert(r@ =~= s@.take(i as int));
    }
    assert(s@.take(n as int) =~= s@);
    r
}

/// The string made of a sequence of characters.
pub fn string_from_chars(chars: &Vec<char>) -> (r: String)
    ensures
        r@ == chars@,
{
    let mut r = String::new();
    let mut i: usize = 0;
    while i < chars.len()
        invariant
            i <= chars@.len(),
            r@ == chars@.take(i as int),
        decreases chars@.len() - i,
    {
        push_char(&mut r, chars[i]);
        i = i + 1;
        assert(r@ =~= chars@.take(i as int));
    }
    assert(chars@.take(i as int) =~= chars@);
    r
}

/// A backslash becomes a forward slash; every other character stays.
pub open spec fn forward_slash(c: char) -> char {
    if c == '\\' {
        '/'
    } else {
        c
    }
}

/// The path with every backslash replaced by a forward slash.
pub open spec fn with_forward_slashes(path: Seq<char>) -> Seq<char> {
    path.map_values(|c: char| forward_slash(c))
}

/// Replaces every backslash of the characters from index `start` on by a
/// forward slash.
pub fn forward_slashes_from(chars: &Vec<char>, start: usize) -> (r: Vec<char>)
    requires
        start <= chars@.len(),
    ensures
        r@ == with_forward_slashes(chars@.skip(start as int)),
{
    let mut r: Vec<char> = Vec::new();
    let mut i: usize = start;
    while i < chars.len()
        invariant
            start <= i <= chars@.len(),
            r@ == with_forward_slashes(chars@.subrange(start as int, i as int)),
        decreases chars@.len() - i,
    {
        let c = chars[i];
        r.push(if c == '\\' { '/' } else { c });
        i = i + 1;
        assert(r@ =~= with_forward_slashes(chars@.subrange(start as int, i as int)));
    }
    assert(chars@.subrange(start as int, i as int) =~= chars@.skip(start as int));
    r
}

/// Every backslash of a path becomes a forward slash, wherever it stands,
/// and every other character keeps its place: the result has the length of
/// the path and holds no backslash.
pub proof fn lemma_forward_slashes_everywhere(path: Seq<char>)
    ensures
        with_forward_slashes(path).len() == path.len(),
        forall|i: int|
            0 <= i < path.len() ==> (#[trigger] with_forward_slashes(path)[i]) == (if path[i] == '\\' {
                '/'
            } else {
                path[i]
            }),
        !with_forward_slashes(path).contains('\\'),
{
    let w = with_forward_slashes(path);
    assert forall|i: int| 0 <= i < w.len() implies w[i] != '\\' by {}
}

/// Replacing backslashes a second time changes nothing.
pub proof fn lemma_forward_slashes_idempotent(path: Seq<char>)
    ensures
        with_forward_slashes(with_forward_slashes(path)) == with_forward_slashes(path),
{
    assert(with_forward_slashes(with_forward_slashes(path)) =~= with_forward_slashes(path));
}

/// A path without backslashes is left as it is.
pub proof fn lemma_forward_slashes_unchanged(path: Seq<char>)
    requires
        !path.contains('\\'),
    ensures
        with_forward_slashes(path) == path,
{
    assert forall|i: int| 0 <= i < path.len() implies path[i] != '\\' by {
        if path[i] == '\\' {
            assert(path.contains('\\'));
        }
    }
    assert(with_forward_slashes(path) =~= path);
}

} // verus!
