//! Shell-style splitting of an argument value into several arguments.

use vstd::prelude::*;
use crate::text::{is_whitespace, join_seqs, spec_is_whitespace, strs_view};

verus! {

/// The scanner state of the shell-style argument splitter.
pub struct ShellScan {
    pub args: Seq<Seq<char>>,
    pub current: Seq<char>,
    pub in_single: bool,
    pub in_double: bool,
    pub escaped: bool,
}

pub open spec fn shell_scan_start() -> ShellScan {
    ShellScan { args: seq![], current: seq![], in_single: false, in_double: false, escaped: false }
}

/// The character an escape sequence stands for inside double quotes.
pub open spec fn double_quote_escape(c: char) -> char {
    if c == 't' {
        '\t'
    } else if c == 'n' {
        '\n'
    } else if c == 'r' {
        '\r'
    } else {
        c
    }
}

/// One character of input, read in state `st`.
pub open spec fn shell_step(st: ShellScan, c: char) -> ShellScan {
    if st.escaped {
        let pushed = if st.in_double { double_quote_escape(c) } else { c };
        ShellScan { current: st.current.push(pushed), escaped: false, ..st }
    } else if c == '\\' && !st.in_single {
        ShellScan { escaped: true, ..st }
    } else if c == '\'' && !st.in_double {
        ShellScan { in_single: !st.in_single, ..st }
    } else if c == '"' && !st.in_single {
        ShellScan { in_double: !st.in_double, ..st }
    } else if spec_is_whitespace(c) && !st.in_single && !st.in_double {
        if st.current.len() > 0 {
            ShellScan { args: st.args.push(st.current), current: seq![], ..st }
        } else {
            st
        }
    } else {
        ShellScan { current: st.current.push(c), ..st }
    }
}

/// The scanner state after reading all of `s`.
pub open spec fn shell_scan(s: Seq<char>) -> ShellScan
    decreases s.len(),
{
    if s.len() == 0 {
        shell_scan_start()
    } else {
        shell_step(shell_scan(s.drop_last()), s.last())
    }
}

/// The arguments that `s` splits into, or `None` when a quote is left open.
pub open spec fn spec_shell_args(s: Seq<char>) -> Option<Seq<Seq<char>>> {
    let st = shell_scan(s);
    if st.in_single || st.in_double {
        None
    } else if st.current.len() > 0 {
        Some(st.args.push(st.current))
    } else {
        Some(st.args)
    }
}

pub open spec fn unclosed_quote_message(input: Seq<char>) -> Seq<char> {
    "Unclosed quote in arguments: "@ + input
}

/// Split `input` into arguments shell-style: whitespace
/// separates arguments, single quotes keep everything literal, double quotes
/// keep whitespace and honour `\t`, `\n`, `\r`, `\\` and `\"`, and a backslash
/// outside quotes makes the next character literal. An open quote at the end is
/// an error.
pub fn parse_shell_args(input: &str) -> (res: Result<Vec<String>, String>)
    ensures
        match res {
            Ok(args) => spec_shell_args(input@) == Some(strs_view(args@)),
            Err(msg) => spec_shell_args(input@) is None && msg@ == unclosed_quote_message(input@),
        },
{
    let mut args: Vec<String> = Vec::new();
    let mut current = String::new();
    let mut in_single = false;
    let mut in_double = false;
    let mut escaped = false;
    for ch in it: input.chars()
        invariant
            it.seq() == input@,
            ({
                let st = shell_scan(input@.take(it.index() as int));
                &&& strs_view(args@) == st.args
                &&& current@ == st.current
                &&& in_single == st.in_single
                &&& in_double == st.in_double
                &&& escaped == st.escaped
            }),
    {
        proof {
            assert(input@.take(it.index() + 1).drop_last() == input@.take(it.index() as int));
        }
        if escaped {
            if in_double {
                let mapped = if ch == 't' {
                    '\t'
                } else if ch == 'n' {
                    '\n'
                } else if ch == 'r' {
                    '\r'
                } else {
                    ch
                };
                current.push(mapped);
            } else {
                current.push(ch);
            }
            escaped = false;
        } else if ch == '\\' && !in_single {
            escaped = true;
        } else if ch == '\'' && !in_double {
            in_single = !in_single;
        } else if ch == '"' && !in_single {
            in_double = !in_double;
        } else if is_whitespace(ch) && !in_single && !in_double {
            if !current.as_str().is_empty() {
                let finished = current;
                current = String::new();
                args.push(finished);
            }
        } else {
            current.push(ch);
        }
    }
    proof {
        assert(input@.take(input@.len() as int) == input@);
    }
    if in_single || in_double {
        let mut msg = String::from_str("Unclosed quote in arguments: ");
        msg.append(input);
        return Err(msg);
    }
    if !current.as_str().is_empty() {
        args.push(current);
    }
    Ok(args)
}

} // verus!

verus! {

/// A character with no meaning to the splitter: not whitespace, not a quote,
/// not a backslash.
pub open spec fn is_plain_char(c: char) -> bool {
    !spec_is_whitespace(c) && c != '\'' && c != '"' && c != '\\'
}

pub open spec fn is_plain_word(w: Seq<char>) -> bool {
    w.len() > 0 && forall|i: int| 0 <= i < w.len() ==> is_plain_char(#[trigger] w[i])
}

/// Words joined with single spaces.
pub open spec fn join_with_spaces(words: Seq<Seq<char>>) -> Seq<char>
    decreases words.len(),
{
    if words.len() == 0 {
        seq![]
    } else if words.len() == 1 {
        words[0]
    } else {
        join_with_spaces(words.drop_last()) + seq![' '] + words.last()
    }
}

/// Reading `t` starting from state `st`.
pub open spec fn shell_scan_from(st: ShellScan, t: Seq<char>) -> ShellScan
    decreases t.len(),
{
    if t.len() == 0 {
        st
    } else {
        shell_step(shell_scan_from(st, t.drop_last()), t.last())
    }
}

proof fn lemma_scan_concat(s: Seq<char>, t: Seq<char>)
    ensures
        shell_scan(s + t) == shell_scan_from(shell_scan(s), t),
    decreases t.len(),
{
    if t.len() == 0 {
        assert(s + t == s);
    } else {
        lemma_scan_concat(s, t.drop_last());
        assert((s + t).drop_last() == s + t.drop_last());
        assert((s + t).last() == t.last());
    }
}

/// Every argument the scanner has finished is non-empty.
proof fn lemma_scan_args_nonempty(s: Seq<char>)
    ensures
        forall|i: int|
            0 <= i < shell_scan(s).args.len() ==> (#[trigger] shell_scan(s).args[i]).len() > 0,
    decreases s.len(),
{
    if s.len() > 0 {
        lemma_scan_args_nonempty(s.drop_last());
        let prev = shell_scan(s.drop_last());
        let cur = shell_scan(s);
        assert(cur == shell_step(prev, s.last()));
        assert forall|i: int| 0 <= i < cur.args.len() implies (#[trigger] cur.args[i]).len() > 0 by {
            if i < prev.args.len() {
                assert(cur.args[i] == prev.args[i]);
            }
        }
    }
}

/// No argument produced by [`parse_shell_args`] is empty.
pub proof fn lemma_shell_args_nonempty(s: Seq<char>)
    requires
        spec_shell_args(s) is Some,
    ensures
        forall|i: int|
            0 <= i < spec_shell_args(s)->0.len() ==> (#[trigger] spec_shell_args(s)->0[i]).len()
                > 0,
{
    lemma_scan_args_nonempty(s);
}

proof fn lemma_scan_plain_word(st: ShellScan, w: Seq<char>)
    requires
        !st.in_single,
        !st.in_double,
        !st.escaped,
        forall|i: int| 0 <= i < w.len() ==> is_plain_char(#[trigger] w[i]),
    ensures
        shell_scan_from(st, w) == (ShellScan { current: st.current + w, ..st }),
    decreases w.len(),
{
    if w.len() == 0 {
        assert(st.current + w == st.current);
    } else {
        let w0 = w.drop_last();
        assert forall|i: int| 0 <= i < w0.len() implies is_plain_char(#[trigger] w0[i]) by {
            assert(w0[i] == w[i]);
        }
        lemma_scan_plain_word(st, w0);
        assert(is_plain_char(w[w.len() - 1]));
        assert(st.current + w == (st.current + w0).push(w.last()));
    }
}

proof fn lemma_scan_joined(words: Seq<Seq<char>>)
    requires
        words.len() > 0,
        forall|i: int| 0 <= i < words.len() ==> is_plain_word(#[trigger] words[i]),
    ensures
        shell_scan(join_with_spaces(words)) == (ShellScan {
            args: words.drop_last(),
            current: words.last(),
            in_single: false,
            in_double: false,
            escaped: false,
        }),
    decreases words.len(),
{
    let w = words.last();
    assert(is_plain_word(words[words.len() - 1]));
    if words.len() == 1 {
        let e = Seq::<char>::empty();
        lemma_scan_concat(e, w);
        assert(e + w == w);
        assert(shell_scan(e) == shell_scan_start());
        lemma_scan_plain_word(shell_scan_start(), w);
        assert(shell_scan_start().current + w == w);
        assert(join_with_spaces(words) == w);
        assert(words.drop_last() == Seq::<Seq<char>>::empty());
    } else {
        let init = words.drop_last();
        assert forall|i: int| 0 <= i < init.len() implies is_plain_word(#[trigger] init[i]) by {
            assert(init[i] == words[i]);
        }
        lemma_scan_joined(init);
        let s0 = shell_scan(join_with_spaces(init));
        let sp = seq![' '];
        let prefix = join_with_spaces(init) + sp;
        lemma_scan_concat(join_with_spaces(init), sp);
        assert(sp.drop_last() == Seq::<char>::empty());
        assert(sp.last() == ' ');
        assert(shell_scan_from(s0, sp.drop_last()) == s0);
        assert(spec_is_whitespace(' '));
        assert(init.last().len() > 0) by {
            assert(is_plain_word(init[init.len() - 1]));
        }
        let st = shell_scan(prefix);
        assert(st == shell_step(s0, ' '));
        assert(init.drop_last().push(init.last()) == init);
        assert(st == (ShellScan { args: init, current: seq![], in_single: false, in_double: false, escaped: false }));
        lemma_scan_concat(prefix, w);
        lemma_scan_plain_word(st, w);
        assert(Seq::<char>::empty() + w == w);
        assert(join_with_spaces(words) == prefix + w);
    }
}

proof fn lemma_join_with_spaces(words: Seq<Seq<char>>)
    ensures
        join_with_spaces(words) == join_seqs(words, " "@),
    decreases words.len(),
{
    reveal_strlit(" ");
    if words.len() > 1 {
        lemma_join_with_spaces(words.drop_last());
    }
}

/// Words made only of plain characters, joined with single spaces (as
/// `join_strings` joins them), split back into exactly those words.
pub proof fn lemma_plain_words_split_back(words: Seq<Seq<char>>)
    requires
        forall|i: int| 0 <= i < words.len() ==> is_plain_word(#[trigger] words[i]),
    ensures
        spec_shell_args(join_with_spaces(words)) == Some(words),
        spec_shell_args(join_seqs(words, " "@)) == Some(words),
{
    lemma_join_with_spaces(words);
    if words.len() == 0 {
        assert(shell_scan(seq![]) == shell_scan_start());
    } else {
        lemma_scan_joined(words);
        assert(is_plain_word(words[words.len() - 1]));
        assert(words.drop_last().push(words.last()) == words);
    }
}


proof fn lemma_scan_in_single(st: ShellScan, w: Seq<char>)
    requires
        st.in_single,
        !st.in_double,
        !st.escaped,
        forall|i: int| 0 <= i < w.len() ==> #[trigger] w[i] != '\'',
    ensures
        shell_scan_from(st, w) == (ShellScan { current: st.current + w, ..st }),
    decreases w.len(),
{
    if w.len() == 0 {
        assert(st.current + w == st.current);
    } else {
        let w0 = w.drop_last();
        assert forall|i: int| 0 <= i < w0.len() implies #[trigger] w0[i] != '\'' by {
            assert(w0[i] == w[i]);
        }
        lemma_scan_in_single(st, w0);
        assert(w[w.len() - 1] != '\'');
        assert(st.current + w == (st.current + w0).push(w.last()));
    }
}

/// A non-empty word without single quotes, put in single quotes, splits back
/// into that one word: everything inside single quotes is literal.
pub proof fn lemma_single_quoted_word(w: Seq<char>)
    requires
        w.len() > 0,
        forall|i: int| 0 <= i < w.len() ==> #[trigger] w[i] != '\'',
    ensures
        spec_shell_args(seq!['\''] + w + seq!['\'']) == Some(seq![w]),
{
    let q = seq!['\''];
    let e = Seq::<char>::empty();
    lemma_scan_concat(e, q);
    assert(e + q == q);
    assert(q.drop_last() == e);
    assert(shell_scan_from(shell_scan(e), e) == shell_scan_start());
    let st = shell_scan(q);
    assert(st == ShellScan { in_single: true, ..shell_scan_start() });
    lemma_scan_concat(q, w);
    lemma_scan_in_single(st, w);
    assert(Seq::<char>::empty() + w == w);
    let inner = q + w;
    lemma_scan_concat(inner, q);
    assert(q.last() == '\'');
    assert(shell_scan_from(shell_scan(inner), e) == shell_scan(inner));
    assert(shell_scan(inner + q) == shell_step(shell_scan(inner), '\''));
    assert(Seq::<Seq<char>>::empty().push(w) == seq![w]);
}


proof fn lemma_scan_in_double(st: ShellScan, w: Seq<char>)
    requires
        !st.in_single,
        st.in_double,
        !st.escaped,
        forall|i: int| 0 <= i < w.len() ==> #[trigger] w[i] != '"' && w[i] != '\\',
    ensures
        shell_scan_from(st, w) == (ShellScan { current: st.current + w, ..st }),
    decreases w.len(),
{
    if w.len() == 0 {
        assert(st.current + w == st.current);
    } else {
        let w0 = w.drop_last();
        assert forall|i: int| 0 <= i < w0.len() implies #[trigger] w0[i] != '"' && w0[i] != '\\' by {
            assert(w0[i] == w[i]);
        }
        lemma_scan_in_double(st, w0);
        assert(w[w.len() - 1] != '"' && w[w.len() - 1] != '\\');
        assert(st.current + w == (st.current + w0).push(w.last()));
    }
}

/// A non-empty word without double quotes or backslashes, put in double
/// quotes, splits back into that one word: inside double quotes whitespace
/// and single quotes are literal characters.
pub proof fn lemma_double_quoted_word(w: Seq<char>)
    requires
        w.len() > 0,
        forall|i: int| 0 <= i < w.len() ==> #[trigger] w[i] != '"' && w[i] != '\\',
    ensures
        spec_shell_args(seq!['"'] + w + seq!['"']) == Some(seq![w]),
{
    let q = seq!['"'];
    let e = Seq::<char>::empty();
    lemma_scan_concat(e, q);
    assert(e + q == q);
    assert(q.drop_last() == e);
    assert(shell_scan_from(shell_scan(e), e) == shell_scan_start());
    let st = shell_scan(q);
    assert(st == ShellScan { in_double: true, ..shell_scan_start() });
    lemma_scan_concat(q, w);
    lemma_scan_in_double(st, w);
    assert(Seq::<char>::empty() + w == w);
    let inner = q + w;
    lemma_scan_concat(inner, q);
    assert(q.last() == '"');
    assert(shell_scan_from(shell_scan(inner), e) == shell_scan(inner));
    assert(shell_scan(inner + q) == shell_step(shell_scan(inner), '"'));
    assert(Seq::<Seq<char>>::empty().push(w) == seq![w]);
}


/// Escapes: outside quotes a backslash makes the next character literal;
/// inside double quotes `\t`, `\n`, `\r` stand for tab, newline and carriage
/// return and any other escaped character for itself (so `\"` is a quote and
/// `\\` a backslash).
pub proof fn lemma_escapes(c: char)
    ensures
        spec_shell_args(seq!['\\', c]) == Some(seq![seq![c]]),
        spec_shell_args(seq!['"', '\\', c, '"']) == Some(
            seq![
                seq![
                    if c == 't' {
                        '\t'
                    } else if c == 'n' {
                        '\n'
                    } else if c == 'r' {
                        '\r'
                    } else {
                        c
                    },
                ],
            ],
        ),
{
    let e = Seq::<char>::empty();
    assert(shell_scan(e) == shell_scan_start());
    let bs = seq!['\\'];
    assert(bs.drop_last() == e && bs.last() == '\\');
    assert(shell_scan(bs) == shell_step(shell_scan(e), '\\'));
    assert(shell_scan(bs) == ShellScan { escaped: true, ..shell_scan_start() });
    let a = seq!['\\', c];
    assert(a.drop_last() == bs && a.last() == c);
    assert(shell_scan(a) == shell_step(shell_scan(bs), c));
    assert(seq![c] == Seq::<char>::empty().push(c));
    assert(Seq::<Seq<char>>::empty().push(seq![c]) == seq![seq![c]]);
    let q = seq!['"'];
    assert(q.drop_last() == e && q.last() == '"');
    assert(shell_scan(q) == shell_step(shell_scan(e), '"'));
    let qb = seq!['"', '\\'];
    assert(qb.drop_last() == q && qb.last() == '\\');
    assert(shell_scan(qb) == shell_step(shell_scan(q), '\\'));
    let qbc = seq!['"', '\\', c];
    assert(qbc.drop_last() == qb && qbc.last() == c);
    assert(shell_scan(qbc) == shell_step(shell_scan(qb), c));
    let b = seq!['"', '\\', c, '"'];
    assert(b.drop_last() == qbc && b.last() == '"');
    assert(shell_scan(b) == shell_step(shell_scan(qbc), '"'));
    let x = double_quote_escape(c);
    assert(seq![x] == Seq::<char>::empty().push(x));
    assert(Seq::<Seq<char>>::empty().push(seq![x]) == seq![seq![x]]);
}

/// A quote left open is an error: an opening single quote followed by text
/// without one, or an opening double quote followed by text without a double
/// quote or backslash.
pub proof fn lemma_unclosed_quote(w: Seq<char>)
    ensures
        (forall|i: int| 0 <= i < w.len() ==> #[trigger] w[i] != '\'') ==> spec_shell_args(
            seq!['\''] + w,
        ) is None,
        (forall|i: int| 0 <= i < w.len() ==> #[trigger] w[i] != '"' && w[i] != '\\')
            ==> spec_shell_args(seq!['"'] + w) is None,
{
    let e = Seq::<char>::empty();
    let q1 = seq!['\''];
    let q2 = seq!['"'];
    assert(q1.drop_last() == e);
    assert(q2.drop_last() == e);
    lemma_scan_concat(e, q1);
    lemma_scan_concat(e, q2);
    assert(e + q1 == q1);
    assert(e + q2 == q2);
    assert(shell_scan_from(shell_scan(e), e) == shell_scan_start());
    if forall|i: int| 0 <= i < w.len() ==> #[trigger] w[i] != '\'' {
        let st = shell_scan(q1);
        assert(st == ShellScan { in_single: true, ..shell_scan_start() });
        lemma_scan_concat(q1, w);
        lemma_scan_in_single(st, w);
    }
    if forall|i: int| 0 <= i < w.len() ==> #[trigger] w[i] != '"' && w[i] != '\\' {
        let st = shell_scan(q2);
        assert(st == ShellScan { in_double: true, ..shell_scan_start() });
        lemma_scan_concat(q2, w);
        lemma_scan_in_double(st, w);
    }
}

} // verus!
