//! Splitting a raw input line into words under shell quoting rules.
//!
//! A line is scanned left to right by a finite state machine: unquoted text is
//! split on whitespace; single quotes take their contents literally; double
//! quotes take their contents literally except that a backslash unescapes an
//! immediately following double quote, backslash or dollar sign; outside
//! quotes a backslash escapes the following character. A line whose quoting
//! or escaping is left open yields no word sequence at all.

use vstd::prelude::*;

verus! {

/// The scanner's state: between words, inside a bare word, inside single or
/// double quotes, or immediately after a backslash (outside quotes, or inside
/// double quotes).
pub enum TokState {
    Delim,
    Bare,
    Single,
    Double,
    EscBare,
    EscDouble,
}

/// Characters that separate words when they stand outside quotes.
pub open spec fn is_space(c: char) -> bool {
    c == ' ' || c == '\t' || c == '\n' || c == '\r'
}

/// One run of the quoting state machine over the remaining input `s`, with
/// `cur` the word collected so far and `acc` the words already finished.
/// `None` means the input ended inside a quote or escape.
pub open spec fn tok_run(
    s: Seq<char>,
    st: TokState,
    cur: Seq<char>,
    acc: Seq<Seq<char>>,
) -> Option<Seq<Seq<char>>>
    decreases s.len(),
{
    if s.len() == 0 {
        match st {
            TokState::Delim => Some(acc),
            TokState::Bare => Some(acc.push(cur)),
            _ => None,
        }
    } else {
        let c = s[0];
        let t = s.skip(1);
        match st {
            TokState::Delim => if is_space(c) {
                tok_run(t, TokState::Delim, cur, acc)
            } else if c == '\'' {
                tok_run(t, TokState::Single, cur, acc)
            } else if c == '"' {
                tok_run(t, TokState::Double, cur, acc)
            } else if c == '\\' {
                tok_run(t, TokState::EscBare, cur, acc)
            } else {
                tok_run(t, TokState::Bare, cur.push(c), acc)
            },
            TokState::Bare => if is_space(c) {
                tok_run(t, TokState::Delim, Seq::empty(), acc.push(cur))
            } else if c == '\'' {
                tok_run(t, TokState::Single, cur, acc)
            } else if c == '"' {
                tok_run(t, TokState::Double, cur, acc)
            } else if c == '\\' {
                tok_run(t, TokState::EscBare, cur, acc)
            } else {
                tok_run(t, TokState::Bare, cur.push(c), acc)
            },
            TokState::Single => if c == '\'' {
                tok_run(t, TokState::Bare, cur, acc)
            } else {
                tok_run(t, TokState::Single, cur.push(c), acc)
            },
            TokState::Double => if c == '"' {
                tok_run(t, TokState::Bare, cur, acc)
            } else if c == '\\' {
                tok_run(t, TokState::EscDouble, cur, acc)
            } else {
                tok_run(t, TokState::Double, cur.push(c), acc)
            },
            TokState::EscBare => tok_run(t, TokState::Bare, cur.push(c), acc),
            TokState::EscDouble => if c == '"' || c == '\\' || c == '$' {
                tok_run(t, TokState::Double, cur.push(c), acc)
            } else {
                tok_run(t, TokState::Double, cur.push('\\').push(c), acc)
            },
        }
    }
}

/// The word sequence a line denotes, or `None` when its quoting is unterminated.
pub open spec fn tokenize_spec(s: Seq<char>) -> Option<Seq<Seq<char>>> {
    tok_run(s, TokState::Delim, Seq::empty(), Seq::empty())
}

/// Relies on String::push: appends the one character `c` at the end.
#[verifier::external_body]
pub(crate) fn push_char(s: &mut String, c: char)
    ensures
        final(s)@ == old(s)@.push(c),
{
    s.push(c);
}

/// Splits `line` into words under the quoting rules; `None` when a quote or
/// escape is left unterminated.
pub fn tokenize(line: &str) -> (r: Option<Vec<String>>)
    ensures
        match r {
            Some(ws) => tokenize_spec(line@) == Some(ws.deep_view()),
            None => tokenize_spec(line@) is None,
        },
{
    let n = line.unicode_len();
    let mut st = TokState::Delim;
    let mut cur = String::new();
    let mut acc: Vec<String> = Vec::new();
    let mut i: usize = 0;
    proof {
        assert(line@.skip(0) =~= line@);
        assert(acc.deep_view() =~= Seq::<Seq<char>>::empty());
    }
    while i < n
        invariant
            n == line@.len(),
            i <= n,
            tok_run(line@.skip(i as int), st, cur@, acc.deep_view()) == tokenize_spec(line@),
        decreases n - i,
    {
        let c = line.get_char(i);
        proof {
            assert(line@.skip(i as int)[0] == line@[i as int]);
            assert(line@.skip(i as int).skip(1) =~= line@.skip(i as int + 1));
        }
        match st {
            TokState::Delim => {
                if c == ' ' || c == '\t' || c == '\n' || c == '\r' {
                } else if c == '\'' {
                    st = TokState::Single;
                } else if c == '"' {
                    st = TokState::Double;
                } else if c == '\\' {
                    st = TokState::EscBare;
                } else {
                    push_char(&mut cur, c);
                    st = TokState::Bare;
                }
            },
            TokState::Bare => {
                if c == ' ' || c == '\t' || c == '\n' || c == '\r' {
                    let ghost acc0 = acc.deep_view();
                    acc.push(cur);
                    cur = String::new();
                    st = TokState::Delim;
                    proof {
                        assert(acc.deep_view() =~= acc0.push(acc@[acc@.len() - 1]@));
                    }
                } else if c == '\'' {
                    st = TokState::Single;
                } else if c == '"' {
                    st = TokState::Double;
                } else if c == '\\' {
                    st = TokState::EscBare;
                } else {
                    push_char(&mut cur, c);
                }
            },
            TokState::Single => {
                if c == '\'' {
                    st = TokState::Bare;
                } else {
                    push_char(&mut cur, c);
                }
            },
            TokState::Double => {
                if c == '"' {
                    st = TokState::Bare;
                } else if c == '\\' {
                    st = TokState::EscDouble;
                } else {
                    push_char(&mut cur, c);
                }
            },
            TokState::EscBare => {
                push_char(&mut cur, c);
                st = TokState::Bare;
            },
            TokState::EscDouble => {
                if c == '"' || c == '\\' || c == '$' {
                    push_char(&mut cur, c);
                } else {
                    push_char(&mut cur, '\\');
                    push_char(&mut cur, c);
                }
                st = TokState::Double;
            },
        }
        i = i + 1;
    }
    proof {
        assert(line@.skip(n as int) =~= Seq::<char>::empty());
    }
    match st {
        TokState::Delim => Some(acc),
        TokState::Bare => {
            let ghost acc0 = acc.deep_view();
            acc.push(cur);
            proof {
                assert(acc.deep_view() =~= acc0.push(acc@[acc@.len() - 1]@));
            }
            Some(acc)
        },
        _ => None,
    }
}

/// The words of `ws` joined by single spaces, in order.
pub open spec fn join_spaces(ws: Seq<Seq<char>>) -> Seq<char>
    decreases ws.len(),
{
    if ws.len() == 0 {
        Seq::empty()
    } else if ws.len() == 1 {
        ws[0]
    } else {
        ws[0] + seq![' '] + join_spaces(ws.skip(1))
    }
}

proof fn lemma_join_push(ws: Seq<Seq<char>>, w: Seq<char>)
    ensures
        join_spaces(ws.push(w)) == if ws.len() == 0 {
            w
        } else {
            join_spaces(ws) + seq![' '] + w
        },
    decreases ws.len(),
{
    if ws.len() == 0 {
        assert(ws.push(w)[0] == w);
    } else if ws.len() == 1 {
        assert(ws.push(w).skip(1) =~= seq![w]);
        assert(join_spaces(seq![w]) == w);
        assert(ws.push(w)[0] == ws[0]);
    } else {
        assert(ws.push(w).skip(1) =~= ws.skip(1).push(w));
        lemma_join_push(ws.skip(1), w);
        assert(ws.push(w)[0] == ws[0]);
        assert(ws[0] + seq![' '] + (join_spaces(ws.skip(1)) + seq![' '] + w) =~= (ws[0]
            + seq![' '] + join_spaces(ws.skip(1))) + seq![' '] + w);
    }
}

/// Joins `words` with single spaces, in order.
pub fn join_words(words: &Vec<String>) -> (r: String)
    ensures
        r@ == join_spaces(words.deep_view()),
{
    let mut r = String::new();
    let mut i: usize = 0;
    proof {
        assert(words.deep_view().take(0) =~= Seq::<Seq<char>>::empty());
    }
    while i < words.len()
        invariant
            i <= words@.len(),
            r@ == join_spaces(words.deep_view().take(i as int)),
        decreases words@.len() - i,
    {
        proof {
            reveal_strlit(" ");
            assert(" "@ =~= seq![' ']);
        }
        if i > 0 {
            r.append(" ");
        }
        r.append(words[i].as_str());
        proof {
            lemma_join_push(words.deep_view().take(i as int), words.deep_view()[i as int]);
            assert(words.deep_view().take(i as int).push(words.deep_view()[i as int])
                =~= words.deep_view().take(i as int + 1));
        }
        i = i + 1;
    }
    proof {
        assert(words.deep_view().take(words@.len() as int) =~= words.deep_view());
    }
    r
}

/// A character with no special meaning to the tokenizer: not whitespace,
/// not a quote, not a backslash.
pub open spec fn plain_char(c: char) -> bool {
    !is_space(c) && c != '\'' && c != '"' && c != '\\'
}

/// A non-empty word made only of plain characters.
pub open spec fn plain_word(w: Seq<char>) -> bool {
    w.len() > 0 && forall|i: int| 0 <= i < w.len() ==> plain_char(#[trigger] w[i])
}

proof fn lemma_scan_plain(w: Seq<char>, rest: Seq<char>, cur: Seq<char>, acc: Seq<Seq<char>>)
    requires
        forall|i: int| 0 <= i < w.len() ==> plain_char(#[trigger] w[i]),
    ensures
        tok_run(w + rest, TokState::Bare, cur, acc) == tok_run(rest, TokState::Bare, cur + w, acc),
    decreases w.len(),
{
    if w.len() == 0 {
        assert(w + rest =~= rest);
        assert(cur + w =~= cur);
    } else {
        let c = w[0];
        assert((w + rest)[0] == c);
        assert((w + rest).skip(1) =~= w.skip(1) + rest);
        lemma_scan_plain(w.skip(1), rest, cur.push(c), acc);
        assert(cur.push(c) + w.skip(1) =~= cur + w);
    }
}

proof fn lemma_enter_plain(w: Seq<char>, rest: Seq<char>, acc: Seq<Seq<char>>)
    requires
        plain_word(w),
    ensures
        tok_run(w + rest, TokState::Delim, Seq::empty(), acc) == tok_run(
            rest,
            TokState::Bare,
            w,
            acc,
        ),
{
    let c = w[0];
    assert((w + rest)[0] == c);
    assert((w + rest).skip(1) =~= w.skip(1) + rest);
    lemma_scan_plain(w.skip(1), rest, Seq::empty().push(c), acc);
    assert(Seq::empty().push(c) + w.skip(1) =~= w);
}

proof fn lemma_tok_plain_join(ws: Seq<Seq<char>>, acc: Seq<Seq<char>>)
    requires
        forall|i: int| 0 <= i < ws.len() ==> plain_word(#[trigger] ws[i]),
    ensures
        tok_run(join_spaces(ws), TokState::Delim, Seq::empty(), acc) == Some(acc + ws),
    decreases ws.len(),
{
    if ws.len() == 0 {
        assert(acc + ws =~= acc);
    } else if ws.len() == 1 {
        lemma_enter_plain(ws[0], Seq::empty(), acc);
        assert(ws[0] + Seq::<char>::empty() =~= ws[0]);
        assert(acc.push(ws[0]) =~= acc + ws);
    } else {
        let rest = seq![' '] + join_spaces(ws.skip(1));
        assert(join_spaces(ws) =~= ws[0] + rest);
        lemma_enter_plain(ws[0], rest, acc);
        assert(rest[0] == ' ');
        assert(rest.skip(1) =~= join_spaces(ws.skip(1)));
        lemma_tok_plain_join(ws.skip(1), acc.push(ws[0]));
        assert(acc.push(ws[0]) + ws.skip(1) =~= acc + ws);
    }
}

/// Law: a sequence of non-empty words made only of plain characters, joined
/// by single spaces, tokenizes back to exactly that sequence.
pub proof fn lemma_tokenize_join(ws: Seq<Seq<char>>)
    requires
        forall|i: int| 0 <= i < ws.len() ==> plain_word(#[trigger] ws[i]),
    ensures
        tokenize_spec(join_spaces(ws)) == Some(ws),
{
    lemma_tok_plain_join(ws, Seq::empty());
    assert(Seq::empty() + ws =~= ws);
}

/// Law: when a line tokenizes to words that are all non-empty and plain,
/// re-joining those words with single spaces and tokenizing again yields the
/// same words, so tokenization is idempotent up to whitespace normalization.
pub proof fn lemma_tokenize_idempotent(line: Seq<char>, ws: Seq<Seq<char>>)
    requires
        tokenize_spec(line) == Some(ws),
        forall|i: int| 0 <= i < ws.len() ==> plain_word(#[trigger] ws[i]),
    ensures
        tokenize_spec(join_spaces(ws)) == Some(ws),
{
    lemma_tokenize_join(ws);
}

} // verus!
