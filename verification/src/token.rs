//! `src=dst` tokens: their lexical check and their split at the first `=`.

use vstd::prelude::*;
use vstd::string::*;
use crate::search::{first_index, lemma_first_index, lemma_first_index_unique};

verus! {

/// Index of the first `=` in `s`, or `s.len()` if there is none.
pub open spec fn first_eq(s: Seq<char>) -> int {
    first_index(s, '=')
}

/// The part of a token before its first `=`.
pub open spec fn token_source(s: Seq<char>) -> Seq<char> {
    s.take(first_eq(s))
}

/// The part of a token after its first `=`, further `=` included.
pub open spec fn token_destination(s: Seq<char>) -> Seq<char> {
    s.skip(first_eq(s) + 1)
}

/// Finds the first `=` of `token`: its index in characters, or the number of
/// characters where there is none.
pub fn find_first_eq(token: &str) -> (i: usize)
    ensures
        i == first_eq(token@),
{
    let n: usize = token.unicode_len();
    let mut i: usize = 0;
    while i < n
        invariant
            n == token@.len(),
            i <= n,
            forall|j: int| 0 <= j < i ==> token@[j] != '=',
        decreases n - i,
    {
        if token.get_char(i) == '=' {
            proof {
                lemma_first_index_unique(token@, '=', i as int);
            }
            return i;
        }
        i = i + 1;
    }
    proof {
        lemma_first_index(token@, '=');
    }
    i
}

/// Splits `token` at its first `=`: what stands before it, and everything after
/// it. A token must hold a `=`.
pub fn split_add(token: &str) -> (parts: (String, String))
    requires
        token@.contains('='),
    ensures
        parts.0@ == token_source(token@),
        parts.1@ == token_destination(token@),
        parts.0@ + seq!['='] + parts.1@ == token@,
        !parts.0@.contains('='),
{
    let n: usize = token.unicode_len();
    let i: usize = find_first_eq(token);
    proof {
        lemma_first_index(token@, '=');
        lemma_split_joins(token@);
    }
    let source = String::from_str(token.substring_char(0, i));
    let destination = String::from_str(token.substring_char(i + 1, n));
    (source, destination)
}

/// The two parts of a token, joined by `=`, give the token back, and the
/// source part holds no `=`.
pub proof fn lemma_split_joins(s: Seq<char>)
    requires
        s.contains('='),
    ensures
        token_source(s) + seq!['='] + token_destination(s) == s,
        !token_source(s).contains('='),
{
    lemma_first_index(s, '=');
    assert(token_source(s) + seq!['='] + token_destination(s) =~= s);
    if token_source(s).contains('=') {
        let k: int = choose|k: int| 0 <= k < token_source(s).len() && token_source(s)[k] == '=';
        assert(s[k] == '=');
    }
}

/// The first `=` wins: a token made of a source without `=`, a `=`, and any
/// text at all splits into that source and that text.
pub proof fn lemma_first_eq_wins(source: Seq<char>, rest: Seq<char>)
    requires
        !source.contains('='),
    ensures
        token_source(source + seq!['='] + rest) == source,
        token_destination(source + seq!['='] + rest) == rest,
{
    let s = source + seq!['='] + rest;
    assert forall|j: int| 0 <= j < source.len() implies s[j] != '=' by {
        assert(s[j] == source[j]);
        if source[j] == '=' {
            assert(source.contains('='));
        }
    }
    assert(s[source.len() as int] == '=');
    lemma_first_index_unique(s, '=', source.len() as int);
    assert(token_source(s) =~= source);
    assert(token_destination(s) =~= rest);
}

/// What `check_add` accepts: a `=` somewhere, and at least three bytes.
pub open spec fn add_is_well_formed(s: Seq<char>) -> bool {
    s.contains('=') && vstd::utf8::encode_utf8(s).len() >= 3
}

/// What `check_add` answers to a token that it refuses.
pub open spec fn add_usage() -> Seq<char> {
    "Need <src=dst>. With src the source folder or path and dst where it should be in the vpk archive."@
}

/// Lexical check of a `src=dst` token.
pub fn check_add(var: &str) -> (r: Result<(), String>)
    ensures
        r is Ok <==> add_is_well_formed(var@),
        r matches Err(message) ==> message@ == add_usage(),
{
    let i: usize = find_first_eq(var);
    proof {
        lemma_first_index(var@, '=');
    }
    if i < var.unicode_len() && var.as_bytes().len() >= 3 {
        Ok(())
    } else {
        Err(
            String::from_str(
                "Need <src=dst>. With src the source folder or path and dst where it should be in the vpk archive.",
            ),
        )
    }
}

} // verus!
