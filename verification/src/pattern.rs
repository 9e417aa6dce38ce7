//! Shorthand command compilation.
//!
//! A registered command such as `"echo (.+)"` is rewritten into a fully
//! anchored pattern that also accepts an optional `@botusername` suffix
//! after the command word, e.g. `"^/echo(?:@rock)? (.+)$"`.

use vstd::prelude::*;

verus! {

/// Characters treated as token separators when a shorthand is split.
pub open spec fn spec_is_space(c: char) -> bool {
    c == ' ' || c == '\t' || c == '\n' || c == '\r'
}

/// Executable counterpart of `spec_is_space`.
pub fn is_space(c: char) -> (r: bool)
    ensures
        r == spec_is_space(c),
{
    c == ' ' || c == '\t' || c == '\n' || c == '\r'
}

/// The whitespace-separated tokens of `s`, defined one character at a time:
/// a space ends the token in progress, a non-space character either extends
/// the token in progress or begins a new one.
pub open spec fn tokens(s: Seq<char>) -> Seq<Seq<char>>
    decreases s.len(),
{
    if s.len() == 0 {
        Seq::empty()
    } else {
        let prev = tokens(s.drop_last());
        let c = s.last();
        if spec_is_space(c) {
            prev
        } else if s.len() >= 2 && !spec_is_space(s[s.len() - 2]) {
            prev.update(prev.len() - 1, prev.last().push(c))
        } else {
            prev.push(seq![c])
        }
    }
}

/// View of a vector of character vectors as a sequence of sequences.
pub open spec fn vecs_view(s: Seq<Vec<char>>) -> Seq<Seq<char>> {
    s.map_values(|x: Vec<char>| x@)
}

/// Collects the characters of a string slice into a vector.
pub fn str_chars(s: &str) -> (r: Vec<char>)
    ensures
        r@ == s@,
{
    let n: usize = s.unicode_len();
    let mut r: Vec<char> = Vec::new();
    let mut i: usize = 0;
    while i < n
        invariant
            i <= n,
            n == s@.len(),
            r@ == s@.take(i as int),
        decreases n - i,
    {
        r.push(s.get_char(i));
        i = i + 1;
        proof {
            assert(s@.take(i as int) =~= s@.take(i - 1).push(s@[i - 1]));
        }
    }
    proof {
        assert(s@.take(n as int) =~= s@);
    }
    r
}

/// Splits a character vector into its whitespace-separated tokens.
pub fn split_tokens(v: &Vec<char>) -> (r: Vec<Vec<char>>)
    ensures
        vecs_view(r@) == tokens(v@),
{
    let n: usize = v.len();
    let mut toks: Vec<Vec<char>> = Vec::new();
    let mut cur: Vec<char> = Vec::new();
    let mut i: usize = 0;
    while i < n
        invariant
            i <= n,
            n == v@.len(),
            (cur@.len() > 0) <==> (i > 0 && !spec_is_space(v@[i - 1])),
            cur@.len() == 0 ==> vecs_view(toks@) == tokens(v@.take(i as int)),
            cur@.len() > 0 ==> vecs_view(toks@).push(cur@) == tokens(v@.take(i as int)),
        decreases n - i,
    {
        let ghost pre = v@.take(i as int);
        proof {
            assert(v@.take(i + 1).drop_last() =~= pre);
            assert(v@.take(i + 1).last() == v@[i as int]);
        }
        let c = v[i];
        if is_space(c) {
            if cur.len() > 0 {
                toks.push(cur);
                cur = Vec::new();
                proof {
                    assert(vecs_view(toks@) =~= vecs_view(toks@.drop_last()).push(toks@.last()@));
                }
            }
        } else {
            if cur.len() > 0 {
                let ghost oldcur = cur@;
                cur.push(c);
                proof {
                    let t = tokens(v@.take(i + 1));
                    let p = tokens(pre);
                    assert(t == p.update(p.len() - 1, p.last().push(v@[i as int])));
                    assert(p == vecs_view(toks@).push(oldcur));
                    assert(t =~= vecs_view(toks@).push(oldcur.push(v@[i as int])));
                }
            } else {
                cur.push(c);
                proof {
                    let t = tokens(v@.take(i + 1));
                    let p = tokens(pre);
                    assert(t == p.push(seq![v@[i as int]]));
                    assert(cur@ =~= seq![v@[i as int]]);
                }
            }
        }
        i = i + 1;
    }
    if cur.len() > 0 {
        toks.push(cur);
        proof {
            assert(vecs_view(toks@) =~= vecs_view(toks@.drop_last()).push(toks@.last()@));
        }
    }
    proof {
        assert(v@.take(n as int) =~= v@);
    }
    toks
}

/// A command word rewritten to accept an optional `@username` suffix:
/// `word(?:@username)?`, keeping a trailing `$` of the word outside the
/// optional group.
pub open spec fn rewritten_word(word: Seq<char>, username: Seq<char>) -> Seq<char> {
    let anchored = word.len() > 0 && word.last() == '$';
    let comm = if anchored {
        word.drop_last()
    } else {
        word
    };
    let anchor = if anchored {
        seq!['$']
    } else {
        Seq::<char>::empty()
    };
    comm + seq!['(', '?', ':', '@'] + username + seq![')', '?'] + anchor
}

/// The token list with its first token rewritten by `rewritten_word`;
/// an empty token list is left as it is.
pub open spec fn rewrite_first(toks: Seq<Seq<char>>, username: Seq<char>) -> Seq<Seq<char>> {
    if toks.len() == 0 {
        toks
    } else {
        toks.update(0, rewritten_word(toks[0], username))
    }
}

/// The tokens joined back together with single spaces.
pub open spec fn join_spaced(toks: Seq<Seq<char>>) -> Seq<char>
    decreases toks.len(),
{
    if toks.len() == 0 {
        Seq::empty()
    } else if toks.len() == 1 {
        toks[0]
    } else {
        join_spaced(toks.drop_last()) + seq![' '] + toks.last()
    }
}

pub open spec fn starts_with(s: Seq<char>, p: Seq<char>) -> bool {
    s.len() >= p.len() && s.take(p.len() as int) == p
}

pub open spec fn ends_with(s: Seq<char>, p: Seq<char>) -> bool {
    s.len() >= p.len() && s.skip(s.len() - p.len()) == p
}

/// The compiled form of a shorthand command `orig` for a bot called
/// `username`:
/// the first whitespace token is rewritten by `rewritten_word` and the
/// tokens are rejoined with single spaces (a shorthand without tokens is
/// passed through unchanged); then the result is rooted — unless it
/// already starts with `^/`, a missing leading `/` is inserted, and a `^`
/// is put in front unless the original shorthand already started with
/// `^` — and a missing trailing `$` is appended.
pub open spec fn spec_modify_command(orig: Seq<char>, username: Seq<char>) -> Seq<char> {
    let toks = tokens(orig);
    let joined = if toks.len() == 0 {
        orig
    } else {
        join_spaced(rewrite_first(toks, username))
    };
    let rooted = if starts_with(joined, seq!['^', '/']) {
        joined
    } else {
        let slashed = if starts_with(joined, seq!['/']) {
            joined
        } else {
            seq!['/'] + joined
        };
        if starts_with(orig, seq!['^']) {
            slashed
        } else {
            seq!['^'] + slashed
        }
    };
    if ends_with(rooted, seq!['$']) {
        rooted
    } else {
        rooted + seq!['$']
    }
}

/// Builds `rewritten_word(word@, username@)` character by character.
fn rewritten_word_exec(word: &Vec<char>, username: &Vec<char>) -> (r: Vec<char>)
    ensures
        r@ == rewritten_word(word@, username@),
{
    let anchored: bool = word.len() > 0 && word[word.len() - 1] == '$';
    let m: usize = if anchored {
        word.len() - 1
    } else {
        word.len()
    };
    let mut r: Vec<char> = Vec::new();
    let mut j: usize = 0;
    while j < m
        invariant
            j <= m,
            m <= word@.len(),
            r@ == word@.take(j as int),
        decreases m - j,
    {
        r.push(word[j]);
        j = j + 1;
        proof {
            assert(word@.take(j as int) =~= word@.take(j - 1).push(word@[j - 1]));
        }
    }
    r.push('(');
    r.push('?');
    r.push(':');
    r.push('@');
    proof {
        assert(r@ =~= word@.take(m as int) + seq!['(', '?', ':', '@'] + username@.take(0));
    }
    let mut k: usize = 0;
    while k < username.len()
        invariant
            k <= username@.len(),
            m <= word@.len(),
            r@ == word@.take(m as int) + seq!['(', '?', ':', '@'] + username@.take(k as int),
        decreases username@.len() - k,
    {
        r.push(username[k]);
        k = k + 1;
        proof {
            assert(word@.take(m as int) + seq!['(', '?', ':', '@'] + username@.take(k as int)
                =~= (word@.take(m as int) + seq!['(', '?', ':', '@'] + username@.take(k - 1)).push(
                username@[k - 1],
            ));
        }
    }
    r.push(')');
    r.push('?');
    if anchored {
        r.push('$');
    }
    proof {
        assert(username@.take(username@.len() as int) =~= username@);
        if anchored {
            assert(word@.take(m as int) =~= word@.drop_last());
        } else {
            assert(word@.take(m as int) =~= word@);
        }
        assert(r@ =~= rewritten_word(word@, username@));
    }
    r
}

/// Joins the tokens with single spaces, building `join_spaced`.
fn join_spaced_exec(toks: &Vec<Vec<char>>) -> (r: Vec<char>)
    ensures
        r@ == join_spaced(vecs_view(toks@)),
{
    let n: usize = toks.len();
    let mut r: Vec<char> = Vec::new();
    let mut i: usize = 0;
    while i < n
        invariant
            i <= n,
            n == toks@.len(),
            r@ == join_spaced(vecs_view(toks@).take(i as int)),
        decreases n - i,
    {
        proof {
            assert(vecs_view(toks@).take(i + 1).drop_last() =~= vecs_view(toks@).take(i as int));
            assert(vecs_view(toks@).take(i + 1).last() == toks@[i as int]@);
            if i == 0 {
                assert(vecs_view(toks@).take(1)[0] == toks@[0]@);
            }
        }
        if i > 0 {
            r.push(' ');
            proof {
                assert(r@ =~= join_spaced(vecs_view(toks@).take(i as int)) + seq![' ']);
            }
        }
        let s: &[char] = toks[i].as_slice();
        r.extend_from_slice(s);
        proof {
            if i == 0 {
                assert(r@ =~= join_spaced(vecs_view(toks@).take(1)));
            }
        }
        i = i + 1;
    }
    proof {
        assert(vecs_view(toks@).take(n as int) =~= vecs_view(toks@));
    }
    r
}

/// Relies on `String`'s `FromIterator` implementation: collecting the
/// characters of the vector yields the string of exactly those characters.
#[verifier::external_body]
fn chars_to_string(v: &Vec<char>) -> (r: String)
    ensures
        r@ == v@,
{
    v.iter().collect()
}

/// Compiles a shorthand command into a fully anchored pattern string that
/// also accepts an optional `@username` suffix after the command word.
pub fn modify_command(orig: &str, username: &str) -> (r: String)
    ensures
        r@ == spec_modify_command(orig@, username@),
{
    let vorig = str_chars(orig);
    let vuser = str_chars(username);
    let orig_starts_hat: bool = vorig.len() >= 1 && vorig[0] == '^';
    proof {
        if orig@.len() >= 1 && orig@[0] == '^' {
            assert(orig@.take(1) =~= seq!['^']);
        }
        if starts_with(orig@, seq!['^']) {
            assert(orig@[0] == orig@.take(1)[0]);
        }
        assert(orig_starts_hat == starts_with(orig@, seq!['^']));
    }
    let mut toks = split_tokens(&vorig);
    let mut ns: Vec<char>;
    if toks.len() == 0 {
        ns = vorig;
    } else {
        let w = rewritten_word_exec(&toks[0], &vuser);
        toks.remove(0);
        toks.insert(0, w);
        proof {
            assert(vecs_view(toks@) =~= rewrite_first(tokens(orig@), username@));
        }
        ns = join_spaced_exec(&toks);
    }
    let ghost joined = ns@;
    let starts_hat_slash: bool = ns.len() >= 2 && ns[0] == '^' && ns[1] == '/';
    proof {
        if ns@.len() >= 2 && ns@[0] == '^' && ns@[1] == '/' {
            assert(ns@.take(2) =~= seq!['^', '/']);
        }
        if starts_with(ns@, seq!['^', '/']) {
            assert(ns@[0] == ns@.take(2)[0]);
            assert(ns@[1] == ns@.take(2)[1]);
        }
        assert(starts_hat_slash == starts_with(ns@, seq!['^', '/']));
    }
    if !starts_hat_slash {
        let starts_slash: bool = ns.len() >= 1 && ns[0] == '/';
        proof {
            if ns@.len() >= 1 && ns@[0] == '/' {
                assert(ns@.take(1) =~= seq!['/']);
            }
            if starts_with(ns@, seq!['/']) {
                assert(ns@[0] == ns@.take(1)[0]);
            }
            assert(starts_slash == starts_with(ns@, seq!['/']));
        }
        let ghost slashed = if starts_with(joined, seq!['/']) {
            joined
        } else {
            seq!['/'] + joined
        };
        if !starts_slash {
            ns.insert(0, '/');
            proof {
                assert(ns@ =~= seq!['/'] + joined);
            }
        }
        proof {
            assert(ns@ == slashed);
        }
        if !orig_starts_hat {
            ns.insert(0, '^');
            proof {
                assert(ns@ =~= seq!['^'] + slashed);
            }
        }
    }
    let ghost rooted = ns@;
    let ends_dollar: bool = ns.len() >= 1 && ns[ns.len() - 1] == '$';
    proof {
        if ns@.len() >= 1 && ns@[ns@.len() - 1] == '$' {
            assert(ns@.skip(ns@.len() - 1) =~= seq!['$']);
        }
        if ends_with(ns@, seq!['$']) {
            assert(ns@[ns@.len() - 1] == ns@.skip(ns@.len() - 1)[0]);
        }
        assert(ends_dollar == ends_with(ns@, seq!['$']));
    }
    if !ends_dollar {
        ns.push('$');
        proof {
            assert(ns@ =~= rooted + seq!['$']);
        }
    }
    proof {
        assert(ns@ == spec_modify_command(orig@, username@));
    }
    chars_to_string(&ns)
}

/// Law: a compiled shorthand is anchored at both ends. Every compiled
/// pattern ends with `$`, and whenever the shorthand does not carry a
/// start anchor of its own, the compiled pattern begins with `^`.
pub proof fn lemma_compiled_anchored(orig: Seq<char>, username: Seq<char>)
    requires
        orig.len() > 0 ==> orig[0] != '^',
    ensures
        spec_modify_command(orig, username).len() >= 2,
        spec_modify_command(orig, username)[0] == '^',
        spec_modify_command(orig, username).last() == '$',
{
    let toks = tokens(orig);
    let joined = if toks.len() == 0 {
        orig
    } else {
        join_spaced(rewrite_first(toks, username))
    };
    if starts_with(joined, seq!['^', '/']) {
        assert(joined[0] == joined.take(2)[0]);
    } else {
        assert(!starts_with(orig, seq!['^'])) by {
            if orig.len() > 0 {
                assert(orig.take(1)[0] == orig[0]);
            }
        }
    }
    let r = spec_modify_command(orig, username);
    assert(r.last() == '$') by {
        let rooted = if starts_with(joined, seq!['^', '/']) {
            joined
        } else {
            let slashed = if starts_with(joined, seq!['/']) {
                joined
            } else {
                seq!['/'] + joined
            };
            if starts_with(orig, seq!['^']) {
                slashed
            } else {
                seq!['^'] + slashed
            }
        };
        if ends_with(rooted, seq!['$']) {
            assert(rooted.skip(rooted.len() - 1)[0] == rooted[rooted.len() - 1]);
        }
    }
}

} // verus!

