//! Turning raw configuration sources into token streams.
//!
//! A file source is a text: its lines are kept unless blank or
//! starting with `#` (after leading spaces), and each kept line is
//! split on `=` and whitespace into non-empty tokens, concatenated in
//! file order.  A command-line source is an argument list: any leading
//! `--` markers are stripped from each argument, and a first argument
//! `help` requests the help text instead of a parse.

use vstd::prelude::*;
use crate::parse::toks_model;
use crate::scalar::str_eq;

verus! {

/// Whitespace inside a line.
pub open spec fn is_space(c: char) -> bool {
    c == ' ' || c == '\t' || c == '\r'
}

/// A character that separates tokens inside a line.
pub open spec fn is_sep(c: char) -> bool {
    is_space(c) || c == '='
}

/// The number of characters before the first line break.
pub open spec fn line_len(s: Seq<char>) -> int
    decreases s.len(),
{
    if s.len() == 0 || s[0] == '\n' {
        0
    } else {
        1 + line_len(s.drop_first())
    }
}

/// A line that yields no tokens: blank, or `#` after leading spaces.
pub open spec fn skipped_line(line: Seq<char>) -> bool
    decreases line.len(),
{
    if line.len() == 0 {
        true
    } else if is_space(line[0]) {
        skipped_line(line.drop_first())
    } else {
        line[0] == '#'
    }
}

/// The length of the token at the head of a line.
pub open spec fn token_len(line: Seq<char>) -> int
    decreases line.len(),
{
    if line.len() == 0 || is_sep(line[0]) {
        0
    } else {
        1 + token_len(line.drop_first())
    }
}

pub proof fn lemma_token_len_bounds(line: Seq<char>)
    ensures
        0 <= token_len(line) <= line.len(),
        line.len() > 0 && !is_sep(line[0]) ==> 1 <= token_len(line),
    decreases line.len(),
{
    if line.len() > 0 && !is_sep(line[0]) {
        lemma_token_len_bounds(line.drop_first());
    }
}

pub proof fn lemma_line_len_bounds(s: Seq<char>)
    ensures
        0 <= line_len(s) <= s.len(),
    decreases s.len(),
{
    if s.len() > 0 && s[0] != '\n' {
        lemma_line_len_bounds(s.drop_first());
    }
}

/// The non-empty pieces of a line, split on separators, in order.
pub open spec fn line_tokens(line: Seq<char>) -> Seq<Seq<char>>
    decreases line.len(),
    via line_tokens_dec
{
    if line.len() == 0 {
        Seq::empty()
    } else if is_sep(line[0]) {
        line_tokens(line.drop_first())
    } else {
        seq![line.take(token_len(line))] + line_tokens(line.skip(token_len(line)))
    }
}

#[via_fn]
proof fn line_tokens_dec(line: Seq<char>) {
    lemma_token_len_bounds(line);
}

/// The tokens of a whole text: the tokens of each kept line, in file
/// order.
pub open spec fn content_tokens(s: Seq<char>) -> Seq<Seq<char>>
    decreases s.len(),
    via content_tokens_dec
{
    let j = line_len(s);
    let line = s.take(j);
    let toks = if skipped_line(line) {
        Seq::<Seq<char>>::empty()
    } else {
        line_tokens(line)
    };
    if j == s.len() {
        toks
    } else {
        toks + content_tokens(s.skip(j + 1))
    }
}

#[via_fn]
proof fn content_tokens_dec(s: Seq<char>) {
    lemma_line_len_bounds(s);
}

proof fn lemma_line_len_at(s: Seq<char>, j: int)
    requires
        0 <= j <= s.len(),
        forall|m: int| 0 <= m < j ==> s[m] != '\n',
        j == s.len() || s[j] == '\n',
    ensures
        line_len(s) == j,
    decreases j,
{
    if j > 0 {
        let t = s.drop_first();
        assert(forall|m: int| 0 <= m < j - 1 ==> t[m] == s[m + 1] && s[m + 1] != '\n');
        assert(j - 1 == t.len() || t[j - 1] == '\n');
        lemma_line_len_at(t, j - 1);
    }
}

proof fn lemma_skipped_at(line: Seq<char>, k: int)
    requires
        0 <= k <= line.len(),
        forall|m: int| 0 <= m < k ==> is_space(#[trigger] line[m]),
        k == line.len() || !is_space(line[k]),
    ensures
        skipped_line(line) == (k == line.len() || line[k] == '#'),
    decreases k,
{
    if k > 0 {
        let t = line.drop_first();
        assert(forall|m: int| 0 <= m < k - 1 ==> t[m] == line[m + 1] && is_space(line[m + 1]));
        assert(k - 1 == t.len() || !is_space(t[k - 1]));
        lemma_skipped_at(t, k - 1);
    }
}

proof fn lemma_token_len_at(line: Seq<char>, e: int)
    requires
        0 <= e <= line.len(),
        forall|m: int| 0 <= m < e ==> !is_sep(#[trigger] line[m]),
        e == line.len() || is_sep(line[e]),
    ensures
        token_len(line) == e,
    decreases e,
{
    if e > 0 {
        let t = line.drop_first();
        assert(forall|m: int| 0 <= m < e - 1 ==> t[m] == line[m + 1] && !is_sep(line[m + 1]));
        assert(e - 1 == t.len() || is_sep(t[e - 1]));
        lemma_token_len_at(t, e - 1);
    }
}

/// Decides whether the line `content[i..j]` yields no tokens.
fn line_skipped(content: &str, i: usize, j: usize) -> (r: bool)
    requires
        i <= j <= content@.len(),
    ensures
        r == skipped_line(content@.subrange(i as int, j as int)),
{
    let ghost line = content@.subrange(i as int, j as int);
    let mut k: usize = i;
    let mut stop = false;
    while !stop && k < j
        invariant
            i <= k <= j <= content@.len(),
            line == content@.subrange(i as int, j as int),
            forall|m: int| 0 <= m < k - i ==> is_space(#[trigger] line[m]),
            stop ==> k < j && !is_space(line[k - i]),
        decreases j - k + (if stop {
            0int
        } else {
            1int
        }),
    {
        let c = content.get_char(k);
        assert(line[k - i] == content@[k as int]);
        if c == ' ' || c == '\t' || c == '\r' {
            k += 1;
        } else {
            stop = true;
        }
    }
    proof {
        lemma_skipped_at(line, k - i);
    }
    if k == j {
        true
    } else {
        assert(line[k - i] == content@[k as int]);
        content.get_char(k) == '#'
    }
}

/// Appends the tokens of the line `content[i..j]` to `out`.
fn push_line_tokens(content: &str, i: usize, j: usize, out: &mut Vec<String>)
    requires
        i <= j <= content@.len(),
    ensures
        toks_model(final(out)@) == toks_model(old(out)@) + line_tokens(
            content@.subrange(i as int, j as int),
        ),
{
    let ghost line = content@.subrange(i as int, j as int);
    let ghost base = toks_model(old(out)@);
    proof {
        assert(line.skip(0) =~= line);
    }
    let mut p: usize = i;
    while p < j
        invariant
            i <= p <= j <= content@.len(),
            line == content@.subrange(i as int, j as int),
            base + line_tokens(line) == toks_model(out@) + line_tokens(
                line.skip(p - i),
            ),
        decreases j - p,
    {
        let ghost rest = line.skip(p - i);
        assert(rest[0] == content@[p as int]);
        let c = content.get_char(p);
        if c == ' ' || c == '\t' || c == '\r' || c == '=' {
            p += 1;
            proof {
                assert(rest.drop_first() =~= line.skip(p - i));
            }
        } else {
            // Scan to the end of the token.
            let mut e: usize = p;
            let mut stop = false;
            while !stop && e < j
                invariant
                    p <= e <= j <= content@.len(),
                    line == content@.subrange(i as int, j as int),
                    forall|m: int| p <= m < e ==> !is_sep(#[trigger] content@[m]),
                    stop ==> e < j && is_sep(content@[e as int]),
                decreases j - e + (if stop {
                    0int
                } else {
                    1int
                }),
            {
                let ce = content.get_char(e);
                if ce == ' ' || ce == '\t' || ce == '\r' || ce == '=' {
                    stop = true;
                } else {
                    e += 1;
                }
            }
            proof {
                assert forall|m: int| 0 <= m < e - p implies !is_sep(#[trigger] rest[m]) by {
                    assert(rest[m] == content@[p + m]);
                }
                if e < j {
                    assert(rest[e - p] == content@[e as int]);
                }
                lemma_token_len_at(rest, e - p);
            }
            let tok = content.substring_char(p, e);
            let ghost before = out@;
            out.push(String::from_str(tok));
            proof {
                assert(rest.take(e - p) =~= content@.subrange(p as int, e as int));
                assert(toks_model(out@) =~= toks_model(before).push(tok@));
                assert(toks_model(before).push(tok@) =~= toks_model(before) + seq![
                    content@.subrange(p as int, e as int),
                ]);
                assert(rest.skip(e - p) =~= line.skip(e - i));
                assert(line_tokens(rest) == seq![rest.take(token_len(rest))] + line_tokens(
                    rest.skip(token_len(rest)),
                ));
            }
            p = e;
        }
    }
    proof {
        assert(line.skip(p - i) =~= line.skip(line.len() as int));
        assert(line.skip(line.len() as int).len() == 0);
        assert(line_tokens(line.skip(p - i)) == Seq::<Seq<char>>::empty());
        assert(base + line_tokens(line) =~= toks_model(out@));
    }
}

/// Splits a configuration text into tokens: lines that are blank or
/// start with `#` after leading spaces are dropped, and every other
/// line is split on `=` and whitespace into its non-empty pieces, all
/// concatenated in file order.
pub fn tokenize(content: &str) -> (r: Vec<String>)
    ensures
        toks_model(r@) == content_tokens(content@),
{
    let len = content.unicode_len();
    let mut out: Vec<String> = Vec::new();
    let mut i: usize = 0;
    let mut done = false;
    proof {
        assert(toks_model(out@) =~= Seq::<Seq<char>>::empty());
        assert(content@.skip(0) =~= content@);
    }
    while !done
        invariant
            0 <= i <= len,
            len == content@.len(),
            done ==> toks_model(out@) == content_tokens(content@),
            !done ==> content_tokens(content@) == toks_model(out@) + content_tokens(
                content@.skip(i as int),
            ),
        decreases len - i + (if done {
            0int
        } else {
            1int
        }),
    {
        let ghost rest = content@.skip(i as int);
        // Find the end of the current line.
        let mut j: usize = i;
        let mut nl = false;
        while !nl && j < len
            invariant
                i <= j <= len,
                len == content@.len(),
                forall|m: int| i <= m < j ==> content@[m] != '\n',
                nl ==> j < len && content@[j as int] == '\n',
            decreases len - j + (if nl {
                0int
            } else {
                1int
            }),
        {
            if content.get_char(j) == '\n' {
                nl = true;
            } else {
                j += 1;
            }
        }
        proof {
            assert forall|m: int| 0 <= m < j - i implies rest[m] != '\n' by {
                assert(rest[m] == content@[i + m]);
            }
            if j < len {
                assert(rest[j - i] == content@[j as int]);
            }
            lemma_line_len_at(rest, j - i);
            assert(rest.take(j - i) =~= content@.subrange(i as int, j as int));
        }
        if !line_skipped(content, i, j) {
            push_line_tokens(content, i, j, &mut out);
        }
        if j == len {
            done = true;
            proof {
                assert(content_tokens(rest) == (if skipped_line(rest.take(j - i)) {
                    Seq::<Seq<char>>::empty()
                } else {
                    line_tokens(rest.take(j - i))
                }));
            }
        } else {
            proof {
                assert(rest.skip(j - i + 1) =~= content@.skip(j + 1));
            }
            i = j + 1;
        }
    }
    proof {
        assert(toks_model(out@) =~= content_tokens(content@));
    }
    out
}

/// A command-line source either requests the help text or supplies
/// tokens to parse.
#[derive(Debug, PartialEq)]
pub enum CliRequest {
    Help,
    Tokens { toks: Vec<String> },
}

/// The argument with its leading `--` markers removed.
pub open spec fn strip_dashes(s: Seq<char>) -> Seq<char>
    decreases s.len(),
{
    if s.len() >= 2 && s[0] == '-' && s[1] == '-' {
        strip_dashes(s.skip(2))
    } else {
        s
    }
}

/// The argument list with every argument's leading `--` removed.
pub open spec fn stripped_args(args: Seq<Seq<char>>) -> Seq<Seq<char>> {
    Seq::new(args.len(), |i: int| strip_dashes(args[i]))
}

/// A first argument `help` (after stripping) asks for the help text.
pub open spec fn help_requested(args: Seq<Seq<char>>) -> bool {
    args.len() > 0 && strip_dashes(args[0]) == "help"@
}

fn strip_dashes_arg(s: &str) -> (r: String)
    ensures
        r@ == strip_dashes(s@),
{
    let len = s.unicode_len();
    proof {
        assert(s@.skip(0) =~= s@);
    }
    let mut k: usize = 0;
    let mut stop = false;
    while !stop
        invariant
            0 <= k <= len,
            len == s@.len(),
            strip_dashes(s@) == strip_dashes(s@.skip(k as int)),
            stop ==> strip_dashes(s@.skip(k as int)) == s@.skip(k as int),
        decreases len - k + (if stop {
            0int
        } else {
            1int
        }),
    {
        let ghost rest = s@.skip(k as int);
        if len - k >= 2 {
            assert(rest[0] == s@[k as int] && rest[1] == s@[k + 1]);
            if s.get_char(k) == '-' && s.get_char(k + 1) == '-' {
                proof {
                    assert(rest.skip(2) =~= s@.skip(k + 2));
                }
                k += 2;
            } else {
                stop = true;
            }
        } else {
            stop = true;
            proof {
                if rest.len() >= 2 {
                    assert(false);
                }
            }
        }
    }
    let r = s.substring_char(k, len);
    proof {
        assert(s@.subrange(k as int, len as int) =~= s@.skip(k as int));
    }
    String::from_str(r)
}

/// Prepares a command-line source: strips the `--` markers from every
/// argument, and recognises a first argument `help` as a request for
/// the help text instead of a parse.
pub fn cli_request(args: &Vec<String>) -> (r: CliRequest)
    ensures
        r is Help <==> help_requested(toks_model(args@)),
        r matches CliRequest::Tokens { toks } ==> toks_model(toks@) == stripped_args(
            toks_model(args@),
        ),
{
    let n = args.len();
    let mut out: Vec<String> = Vec::new();
    let mut i: usize = 0;
    while i < n
        invariant
            0 <= i <= n,
            n == args@.len(),
            out@.len() == i,
            forall|k: int| 0 <= k < i ==> out@[k]@ == strip_dashes(args@[k]@),
        decreases n - i,
    {
        let stripped = strip_dashes_arg(args[i].as_str());
        out.push(stripped);
        i += 1;
    }
    if out.len() > 0 && str_eq(out[0].as_str(), "help") {
        assert(strip_dashes(toks_model(args@)[0]) == "help"@);
        CliRequest::Help
    } else {
        proof {
            if args@.len() > 0 {
                assert(out@[0]@ == strip_dashes(toks_model(args@)[0]));
            }
            assert(toks_model(out@) =~= stripped_args(toks_model(args@)));
        }
        CliRequest::Tokens { toks: out }
    }
}

} // verus!
