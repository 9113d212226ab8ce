//! Shell command lines: quoting an argument so that `bash` reads it back
//! unchanged, and wrapping a command so that its exit code is reported.
use vstd::prelude::*;
use crate::text::{chars_of, len_before, lemma_len_before, lemma_len_before_bound, push_char};

verus! {

broadcast use vstd::string::group_string_axioms;

/// What one character becomes inside a single-quoted shell word: a quote
/// ends the quoted part, adds an escaped quote, and opens a new quoted part.
pub open spec fn escape_piece(c: char) -> Seq<char> {
    if c == '\'' {
        seq!['\'', '\\', '\'', '\'']
    } else {
        seq![c]
    }
}

/// `s.replace('\'', "'\\''")`.
pub open spec fn shell_escaped(s: Seq<char>) -> Seq<char>
    decreases s.len(),
{
    if s.len() == 0 {
        seq![]
    } else {
        shell_escaped(s.drop_last()) + escape_piece(s.last())
    }
}

/// How the shell reads a word made of single-quoted parts, backslash-escaped
/// characters and other characters standing for themselves; `None` when a
/// quoted part is not closed or a backslash ends the word.
pub open spec fn shell_unquote(w: Seq<char>) -> Option<Seq<char>>
    decreases w.len(),
{
    if w.len() == 0 {
        Some(seq![])
    } else if w[0] == '\'' {
        let k = len_before(w.drop_first(), '\'');
        if k >= w.len() - 1 {
            None
        } else {
            match shell_unquote(w.skip(k + 2 as int)) {
                Some(r) => Some(w.subrange(1, k + 1 as int) + r),
                None => None,
            }
        }
    } else if w[0] == '\\' {
        if w.len() < 2 {
            None
        } else {
            match shell_unquote(w.skip(2)) {
                Some(r) => Some(seq![w[1]] + r),
                None => None,
            }
        }
    } else {
        match shell_unquote(w.drop_first()) {
            Some(r) => Some(seq![w[0]] + r),
            None => None,
        }
    }
}

/// `s` between single quotes, escaped.
pub open spec fn shell_quoted(s: Seq<char>) -> Seq<char> {
    seq!['\''] + shell_escaped(s) + seq!['\'']
}

pub proof fn lemma_escaped_concat(a: Seq<char>, b: Seq<char>)
    ensures
        shell_escaped(a + b) == shell_escaped(a) + shell_escaped(b),
    decreases b.len(),
{
    if b.len() == 0 {
        assert(a + b =~= a);
        assert(shell_escaped(b) =~= seq![]);
        assert(shell_escaped(a) + shell_escaped(b) =~= shell_escaped(a));
    } else {
        lemma_escaped_concat(a, b.drop_last());
        assert((a + b).drop_last() =~= a + b.drop_last());
        assert((a + b).last() == b.last());
        assert(shell_escaped(a + b) =~= shell_escaped(a) + shell_escaped(b));
    }
}

pub proof fn lemma_escaped_no_quote(a: Seq<char>)
    requires
        forall|i: int| 0 <= i < a.len() ==> a[i] != '\'',
    ensures
        shell_escaped(a) == a,
    decreases a.len(),
{
    if a.len() > 0 {
        lemma_escaped_no_quote(a.drop_last());
        assert(shell_escaped(a) =~= a);
    }
}

/// Escaping never shortens a string, and lengthens every string that holds
/// a quote.
proof fn lemma_escaped_len(a: Seq<char>)
    ensures
        shell_escaped(a).len() >= a.len(),
        a.contains('\'') ==> shell_escaped(a).len() > a.len(),
    decreases a.len(),
{
    if a.len() > 0 {
        let f = a.drop_last();
        lemma_escaped_len(f);
        if a.contains('\'') && a.last() != '\'' {
            let i = choose|i: int| 0 <= i < a.len() && a[i] == '\'';
            assert(i < a.len() - 1);
            assert(f[i] == '\'');
        }
    }
}

/// Law: escaping leaves a string unchanged exactly when it holds no quote.
pub proof fn lemma_escaped_unchanged_iff_no_quote(a: Seq<char>)
    ensures
        shell_escaped(a) == a <==> !a.contains('\''),
{
    lemma_escaped_len(a);
    if !a.contains('\'') {
        assert forall|i: int| 0 <= i < a.len() implies a[i] != '\'' by {
            if a[i] == '\'' {
                assert(a.contains('\''));
            }
        }
        lemma_escaped_no_quote(a);
    }
}

proof fn lemma_unquote_quoted_then(s: Seq<char>, r: Seq<char>, v: Seq<char>)
    requires
        shell_unquote(r) == Some(v),
    ensures
        shell_unquote(shell_quoted(s) + r) == Some(s + v),
    decreases s.len(),
{
    let k = len_before(s, '\'');
    lemma_len_before_bound(s, '\'');
    let a = s.take(k as int);
    assert forall|i: int| 0 <= i < a.len() implies a[i] != '\'' by {}
    lemma_escaped_no_quote(a);
    let w = shell_quoted(s) + r;
    if k == s.len() {
        assert(a =~= s);
        // w = ' s ' r
        assert(w =~= seq!['\''] + s + seq!['\''] + r);
        assert(w.drop_first() =~= s + seq!['\''] + r);
        lemma_len_before(w.drop_first(), '\'', s.len() as int);
        assert(w.skip(s.len() + 2 as int) =~= r);
        assert(w.subrange(1, s.len() + 1 as int) =~= s);
        assert(w[0] == '\'');
        assert(shell_unquote(w) == Some(w.subrange(1, s.len() + 1 as int) + v));
    } else {
        let b = s.skip(k + 1 as int);
        assert(s =~= a + seq!['\''] + b);
        lemma_escaped_concat(a + seq!['\''], b);
        lemma_escaped_concat(a, seq!['\'']);
        assert(shell_escaped(seq!['\'']) =~= seq!['\'', '\\', '\'', '\'']) by {
            assert(seq!['\''].drop_last() =~= Seq::<char>::empty());
            assert(shell_escaped(Seq::<char>::empty()) =~= Seq::<char>::empty());
        }
        let rest = shell_quoted(b) + r;
        lemma_unquote_quoted_then(b, r, v);
        // w = ' a ' \ ' rest
        assert(w =~= seq!['\''] + a + seq!['\'', '\\', '\''] + rest);
        assert(w.drop_first() =~= a + seq!['\'', '\\', '\''] + rest);
        lemma_len_before(w.drop_first(), '\'', a.len() as int);
        let w2 = w.skip(a.len() + 2 as int);
        assert(w2 =~= seq!['\\', '\''] + rest);
        assert(w2.skip(2) =~= rest);
        assert(w.subrange(1, a.len() + 1 as int) =~= a);
        assert(w2[0] == '\\' && w2[1] == '\'');
        assert(shell_unquote(w2) == Some(seq!['\''] + (b + v)));
        assert(w[0] == '\'');
        assert(shell_unquote(w) == Some(a + (seq!['\''] + (b + v))));
        assert(a + (seq!['\''] + (b + v)) =~= s + v);
    }
}

/// Law: a string escaped and put between single quotes is read back by the
/// shell as exactly that string.
pub proof fn lemma_shell_quote_roundtrip(s: Seq<char>)
    ensures
        shell_unquote(shell_quoted(s)) == Some(s),
{
    lemma_unquote_quoted_then(s, seq![], seq![]);
    assert(shell_quoted(s) + seq![] =~= shell_quoted(s));
    assert(s + seq![] =~= s);
}

/// Escapes the single quotes of `s` for use between single quotes in a shell
/// command line.
pub fn shell_escape(s: &str) -> (r: String)
    ensures
        r@ == shell_escaped(s@),
{
    let v = chars_of(s);
    let mut r = String::new();
    let mut i: usize = 0;
    while i < v.len()
        invariant
            i <= v.len(),
            v@ == s@,
            r@ == shell_escaped(v@.take(i as int)),
        decreases v.len() - i,
    {
        let c = v[i];
        if c == '\'' {
            push_char(&mut r, '\'');
            push_char(&mut r, '\\');
            push_char(&mut r, '\'');
            push_char(&mut r, '\'');
        } else {
            push_char(&mut r, c);
        }
        proof {
            let t = v@.take(i + 1);
            assert(t.drop_last() =~= v@.take(i as int));
            assert(t.last() == c);
            assert(r@ =~= shell_escaped(t));
        }
        i = i + 1;
    }
    assert(v@.take(v.len() as int) =~= v@);
    r
}

/// `s` escaped and put between single quotes.
pub fn shell_quote(s: &str) -> (r: String)
    ensures
        r@ == shell_quoted(s@),
{
    let mut r = String::from_str("'");
    let e = shell_escape(s);
    r.append(e.as_str());
    r.append("'");
    proof {
        reveal_strlit("'");
    }
    assert(r@ =~= shell_quoted(s@));
    r
}

/// The text that `bash -c` runs for a command: the command, then an empty
/// line and a line that reports the exit code.
pub open spec fn spec_wrapped_command(cmd: Seq<char>) -> Seq<char> {
    cmd + "\necho ''\necho '--- EXIT CODE: $? ---'\n"@
}

/// Wraps a command so that its output ends with its exit code.
pub fn wrap_command(cmd: &str) -> (r: String)
    ensures
        r@ == spec_wrapped_command(cmd@),
{
    let mut r = String::from_str(cmd);
    r.append("\necho ''\necho '--- EXIT CODE: $? ---'\n");
    r
}

/// The status line shown when a command has finished.
pub fn completion_label(success: bool) -> (l: &'static str)
    ensures
        l@ == if success {
            "✓ Command completed successfully"@
        } else {
            "✗ Command failed"@
        },
{
    if success {
        "✓ Command completed successfully"
    } else {
        "✗ Command failed"
    }
}

/// Law: the wrapped text runs the command unchanged first, and ends with a
/// line that prints the command's exit code.
pub proof fn lemma_wrapped_runs_command_first(cmd: Seq<char>)
    ensures
        spec_wrapped_command(cmd).take(cmd.len() as int) == cmd,
        spec_wrapped_command(cmd).skip(cmd.len() as int) == "\necho ''\necho '--- EXIT CODE: $? ---'\n"@,
        crate::text::ends_with(spec_wrapped_command(cmd), "echo '--- EXIT CODE: $? ---'\n"@),
{
    let w = spec_wrapped_command(cmd);
    let tail = "\necho ''\necho '--- EXIT CODE: $? ---'\n"@;
    let last = "echo '--- EXIT CODE: $? ---'\n"@;
    reveal_strlit("\necho ''\necho '--- EXIT CODE: $? ---'\n");
    reveal_strlit("echo '--- EXIT CODE: $? ---'\n");
    assert(w.take(cmd.len() as int) =~= cmd);
    assert(w.skip(cmd.len() as int) =~= tail);
    assert(w.subrange(w.len() - last.len(), w.len() as int) =~= last);
}

} // verus!
