//! Tokenizing a command line on spaces.
//!
//! The first token is the executable, the remaining tokens are its
//! positional arguments. The split is a literal single-space split with no
//! shell expansion or quoting: consecutive spaces yield empty tokens.

use vstd::prelude::*;

verus! {

/// Splitting `s` on the space character, with `cur` the token read so far:
/// every maximal (possibly empty) run of non-space characters becomes one
/// token, so the result holds one token more than `s` holds spaces.
pub open spec fn split_acc(s: Seq<char>, cur: Seq<char>) -> Seq<Seq<char>>
    decreases s.len(),
{
    if s.len() == 0 {
        seq![cur]
    } else if s[0] == ' ' {
        seq![cur] + split_acc(s.drop_first(), Seq::empty())
    } else {
        split_acc(s.drop_first(), cur.push(s[0]))
    }
}

/// The tokens of `s`, split on the space character.
pub open spec fn split_spaces(s: Seq<char>) -> Seq<Seq<char>> {
    split_acc(s, Seq::empty())
}

/// `tokens` are exactly the space-separated tokens of `s`.
pub open spec fn is_tokenization(tokens: Seq<String>, s: Seq<char>) -> bool {
    &&& tokens.len() == split_spaces(s).len()
    &&& forall|i: int| 0 <= i < tokens.len() ==> #[trigger] tokens[i]@ == split_spaces(s)[i]
}

proof fn lemma_split_acc_len(s: Seq<char>, cur: Seq<char>)
    ensures
        split_acc(s, cur).len() >= 1,
    decreases s.len(),
{
    if s.len() != 0 {
        if s[0] == ' ' {
            lemma_split_acc_len(s.drop_first(), Seq::empty());
        } else {
            lemma_split_acc_len(s.drop_first(), cur.push(s[0]));
        }
    }
}

/// Split a command line on single spaces, in order, keeping empty tokens.
/// The result always holds at least one token.
pub fn tokenize(s: &str) -> (tokens: Vec<String>)
    ensures
        is_tokenization(tokens@, s@),
        tokens@.len() >= 1,
{
    let n = s.unicode_len();
    let mut tokens: Vec<String> = Vec::new();
    let mut start: usize = 0;
    let mut i: usize = 0;
    proof {
        assert(token_views(tokens@) =~= Seq::<Seq<char>>::empty());
        assert(s@.skip(0) =~= s@);
        assert(s@.subrange(0, 0) =~= Seq::<char>::empty());
        assert(Seq::<Seq<char>>::empty() + split_acc(s@, Seq::<char>::empty()) =~= split_acc(
            s@,
            Seq::<char>::empty(),
        ));
    }
    while i < n
        invariant
            n == s@.len(),
            start <= i <= n,
            split_spaces(s@) == token_views(tokens@) + split_acc(
                s@.skip(i as int),
                s@.subrange(start as int, i as int),
            ),
        decreases n - i,
    {
        let c = s.get_char(i);
        proof {
            assert(s@.skip(i as int)[0] == s@[i as int]);
            assert(s@.skip(i as int).drop_first() =~= s@.skip(i as int + 1));
        }
        if c == ' ' {
            let tok = String::from_str(s.substring_char(start, i));
            proof {
                assert(split_acc(s@.skip(i as int), s@.subrange(start as int, i as int))
                    == seq![s@.subrange(start as int, i as int)] + split_acc(
                    s@.skip(i as int + 1),
                    Seq::empty(),
                ));
                assert(token_views(tokens@.push(tok)) =~= token_views(tokens@).push(tok@));
                assert(token_views(tokens@).push(tok@) + split_acc(
                    s@.skip(i as int + 1),
                    Seq::empty(),
                ) =~= token_views(tokens@) + (seq![s@.subrange(start as int, i as int)]
                    + split_acc(s@.skip(i as int + 1), Seq::empty())));
                assert(Seq::<char>::empty() =~= s@.subrange(i as int + 1, i as int + 1));
            }
            tokens.push(tok);
            start = i + 1;
        } else {
            proof {
                assert(s@.subrange(start as int, i as int).push(s@[i as int]) =~= s@.subrange(
                    start as int,
                    i as int + 1,
                ));
            }
        }
        i = i + 1;
    }
    proof {
        assert(s@.skip(n as int) =~= Seq::<char>::empty());
        lemma_split_acc_len(Seq::<char>::empty(), s@.subrange(start as int, n as int));
    }
    let tok = String::from_str(s.substring_char(start, n));
    proof {
        assert(split_acc(Seq::<char>::empty(), s@.subrange(start as int, n as int))
            == seq![s@.subrange(start as int, n as int)]);
        assert(token_views(tokens@.push(tok)) =~= token_views(tokens@).push(tok@));
        assert(token_views(tokens@).push(tok@) =~= token_views(tokens@) + seq![s@.subrange(
            start as int,
            n as int,
        )]);
    }
    tokens.push(tok);
    proof {
        assert forall|q: int| 0 <= q < tokens@.len() implies #[trigger] tokens@[q]@ == split_spaces(
            s@,
        )[q] by {
            assert(token_views(tokens@)[q] == tokens@[q]@);
        }
    }
    tokens
}

/// The views of a sequence of tokens.
pub open spec fn token_views(tokens: Seq<String>) -> Seq<Seq<char>> {
    tokens.map_values(|t: String| t@)
}

} // verus!
