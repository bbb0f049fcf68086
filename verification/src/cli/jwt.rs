//! The values of the token commands.

use vstd::prelude::*;
use vstd::string::StrSliceExecFns;

verus! {

/// What a token is signed with and what it claims.
#[derive(Clone, Debug, PartialEq, Eq)]
pub struct JwtSignOpts {
    /// The file that holds the secret.
    pub key: String,
    /// The subject of the token.
    pub sub: String,
    /// The audience of the token.
    pub aud: String,
    /// The seconds for which the token holds.
    pub exp: u64,
}

impl JwtSignOpts {
    /// The second at which a token issued at second `now` expires, where a
    /// `u64` can hold it.
    pub fn expires_at(&self, now: u64) -> (at: Option<u64>)
        ensures
            at == if now + self.exp <= u64::MAX {
                Some((now + self.exp) as u64)
            } else {
                None
            },
    {
        now.checked_add(self.exp)
    }
}

/// What a token is checked against.
#[derive(Clone, Debug, PartialEq, Eq)]
pub struct JwtVerifyOpts {
    /// The file that holds the secret.
    pub key: String,
    /// The audiences that are accepted, with a comma between two.
    pub allow_auds: String,
    /// The token.
    pub token: String,
}

/// The pieces of `text` between the separators `sep`: there is one more
/// piece than there are separators, and a piece may be empty.
pub open spec fn split_on(text: Seq<char>, sep: char) -> Seq<Seq<char>>
    decreases text.len(),
{
    if text.len() == 0 {
        seq![Seq::empty()]
    } else {
        let before = split_on(text.drop_last(), sep);
        if text.last() == sep {
            before.push(Seq::empty())
        } else {
            before.update(before.len() - 1, before.last().push(text.last()))
        }
    }
}

/// The characters of each text of a list.
pub open spec fn texts_view(texts: Vec<String>) -> Seq<Seq<char>> {
    texts@.map_values(|t: String| t@)
}

/// Splits `text` at every `sep`.
pub fn split(text: &str, sep: char) -> (pieces: Vec<String>)
    ensures
        texts_view(pieces) == split_on(text@, sep),
{
    let n = text.unicode_len();
    let mut pieces: Vec<String> = Vec::new();
    let mut start: usize = 0;
    let mut i: usize = 0;
    assert(text@.subrange(0, 0) =~= Seq::<char>::empty());
    assert(texts_view(pieces).push(text@.subrange(0, 0)) =~= seq![Seq::<char>::empty()]);
    while i < n
        invariant
            start <= i <= n,
            n == text@.len(),
            split_on(text@.subrange(0, i as int), sep) == texts_view(pieces).push(
                text@.subrange(start as int, i as int),
            ),
        decreases n - i,
    {
        let ghost before = text@.subrange(0, i as int);
        let ghost after = text@.subrange(0, i + 1);
        let ghost done = texts_view(pieces);
        assert(after.drop_last() =~= before);
        if text.get_char(i) == sep {
            let ghost from = start as int;
            pieces.push(text.substring_char(start, i).to_owned());
            start = i + 1;
            assert(texts_view(pieces) =~= done.push(text@.subrange(from, i as int)));
            assert(text@.subrange(start as int, i + 1) =~= Seq::<char>::empty());
        } else {
            assert(text@.subrange(start as int, i + 1) =~= text@.subrange(
                start as int,
                i as int,
            ).push(text@[i as int]));
            assert(done.push(text@.subrange(start as int, i as int)).update(
                done.len() as int,
                text@.subrange(start as int, i + 1),
            ) =~= done.push(text@.subrange(start as int, i + 1)));
        }
        i += 1;
    }
    assert(text@.subrange(0, n as int) =~= text@);
    let ghost done = texts_view(pieces);
    pieces.push(text.substring_char(start, n).to_owned());
    assert(texts_view(pieces) =~= done.push(text@.subrange(start as int, n as int)));
    pieces
}

impl JwtVerifyOpts {
    /// The audiences that are accepted.
    pub fn audiences(&self) -> (auds: Vec<String>)
        ensures
            texts_view(auds) == split_on(self.allow_auds@, ','),
    {
        split(self.allow_auds.as_str(), ',')
    }
}

} // verus!
