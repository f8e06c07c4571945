//! Preparing the commands perch hands to the system: the editor command
//! line and the fallback when the watched worktree disappears.
use vstd::prelude::*;
use crate::config::AppConfig;

verus! {

/// The characters of `s` with every `'` written as `'\''`.
pub open spec fn escape_quotes(s: Seq<char>) -> Seq<char>
    decreases s.len(),
{
    if s.len() == 0 {
        Seq::empty()
    } else {
        escape_quotes(s.drop_last()) + if s.last() == '\'' { seq!['\'', '\\', '\'', '\''] } else { seq![s.last()] }
    }
}

/// `s` as one POSIX shell word in single quotes.
pub open spec fn single_quoted(s: Seq<char>) -> Seq<char> {
    seq!['\''] + escape_quotes(s) + seq!['\'']
}

/// Wraps a string in POSIX single quotes, writing each embedded `'` as
/// `'\''`. Safe against spaces, `$`, backticks and quotes.
pub fn shell_single_quote(s: &str) -> (r: String)
    ensures
        r@ == single_quoted(s@),
{
    broadcast use vstd::string::group_string_axioms;
    let mut out = String::new();
    crate::text::push_char(&mut out, '\'');
    for c in it: s.chars()
        invariant
            it.seq() == s@,
            out@ == seq!['\''] + escape_quotes(s@.take(it.index() as int)),
    {
        proof {
            assert(c == s@[it.index() as int]);
            assert(s@.take(it.index() + 1).drop_last() =~= s@.take(it.index() as int));
        }
        if c == '\'' {
            crate::text::push_char(&mut out, '\'');
            crate::text::push_char(&mut out, '\\');
            crate::text::push_char(&mut out, '\'');
            crate::text::push_char(&mut out, '\'');
        } else {
            crate::text::push_char(&mut out, c);
        }
        assert(out@ =~= seq!['\''] + escape_quotes(s@.take(it.index() + 1)));
    }
    assert(s@.take(s@.len() as int) =~= s@);
    crate::text::push_char(&mut out, '\'');
    assert(out@ =~= single_quoted(s@));
    out
}

/// What a POSIX shell reads back from a word made of single-quoted
/// stretches joined by `\'`: the text inside the quotes, with each `\'`
/// standing for a quote. `inside` tells whether the reader is inside
/// quotes; `None` when the word is malformed.
pub open spec fn shell_read(w: Seq<char>, inside: bool) -> Option<Seq<char>>
    decreases w.len(),
{
    if w.len() == 0 {
        if inside { None } else { Some(Seq::empty()) }
    } else if inside {
        if w[0] == '\'' {
            shell_read(w.drop_first(), false)
        } else {
            match shell_read(w.drop_first(), true) {
                Some(rest) => Some(seq![w[0]] + rest),
                None => None,
            }
        }
    } else if w[0] == '\'' {
        shell_read(w.drop_first(), true)
    } else if w.len() >= 2 && w[0] == '\\' && w[1] == '\'' {
        match shell_read(w.drop_first().drop_first(), false) {
            Some(rest) => Some(seq!['\''] + rest),
            None => None,
        }
    } else {
        None
    }
}

/// Reading an escaped string inside quotes and then the rest `tail` gives
/// the string followed by what `tail` gives.
proof fn lemma_read_escaped(s: Seq<char>, tail: Seq<char>)
    ensures
        shell_read(escape_quotes(s) + tail, true) == match shell_read(tail, true) {
            Some(t) => Some(s + t),
            None => None::<Seq<char>>,
        },
    decreases s.len(),
{
    if s.len() == 0 {
        assert(escape_quotes(s) + tail =~= tail);
        match shell_read(tail, true) {
            Some(t) => assert(s + t =~= t),
            None => {},
        }
    } else {
        let c = s[0];
        let rest = s.drop_first();
        assert(s =~= seq![c] + rest);
        lemma_escape_prepend(c, rest);
        let piece = if c == '\'' { seq!['\'', '\\', '\'', '\''] } else { seq![c] };
        assert(escape_quotes(s) + tail =~= piece + (escape_quotes(rest) + tail));
        lemma_read_escaped(rest, tail);
        let x = escape_quotes(rest) + tail;
        let w = piece + x;
        let ih = shell_read(x, true);
        if c == '\'' {
            let w1 = w.drop_first();
            assert(w1 =~= seq!['\\', '\'', '\''] + x);
            let w3 = w1.drop_first().drop_first();
            assert(w3 =~= seq!['\''] + x);
            assert(w3.drop_first() =~= x);
            assert(shell_read(w3, false) == ih);
            assert(shell_read(w1, false) == match ih {
                Some(r) => Some(seq!['\''] + r),
                None => None::<Seq<char>>,
            });
            assert(shell_read(w, true) == shell_read(w1, false));
            match shell_read(tail, true) {
                Some(t) => assert(seq!['\''] + (rest + t) =~= s + t),
                None => {},
            }
        } else {
            assert(w.drop_first() =~= x);
            assert(shell_read(w, true) == match ih {
                Some(r) => Some(seq![c] + r),
                None => None::<Seq<char>>,
            });
            match shell_read(tail, true) {
                Some(t) => assert(seq![c] + (rest + t) =~= s + t),
                None => {},
            }
        }
    }
}

proof fn lemma_escape_prepend(c: char, s: Seq<char>)
    ensures
        escape_quotes(seq![c] + s) == (if c == '\'' { seq!['\'', '\\', '\'', '\''] } else { seq![c] }) + escape_quotes(s),
    decreases s.len(),
{
    let piece = if c == '\'' { seq!['\'', '\\', '\'', '\''] } else { seq![c] };
    if s.len() == 0 {
        assert(seq![c] + s =~= seq![c]);
        assert(seq![c].drop_last() =~= Seq::<char>::empty());
        assert(escape_quotes(Seq::<char>::empty()) =~= Seq::<char>::empty());
        assert(escape_quotes(seq![c]) =~= piece);
        assert(escape_quotes(s) =~= Seq::<char>::empty());
        assert(escape_quotes(seq![c] + s) =~= piece + escape_quotes(s));
    } else {
        lemma_escape_prepend(c, s.drop_last());
        let last = s.last();
        let lp = if last == '\'' { seq!['\'', '\\', '\'', '\''] } else { seq![last] };
        assert((seq![c] + s).drop_last() =~= seq![c] + s.drop_last());
        assert((seq![c] + s).last() == last);
        assert(escape_quotes(seq![c] + s) == escape_quotes(seq![c] + s.drop_last()) + lp);
        assert(escape_quotes(s) == escape_quotes(s.drop_last()) + lp);
        assert(escape_quotes(seq![c] + s) =~= piece + escape_quotes(s));
    }
}

/// Quoting is faithful: a POSIX shell reads the quoted word back as exactly
/// the string that was quoted, whatever characters it holds.
pub proof fn law_single_quote_round_trip(s: Seq<char>)
    ensures
        shell_read(single_quoted(s), false) == Some(s),
{
    let w = single_quoted(s);
    assert(w.drop_first() =~= escape_quotes(s) + seq!['\'']);
    lemma_read_escaped(s, seq!['\'']);
    assert(seq!['\''].drop_first() =~= Seq::<char>::empty());
    assert(shell_read(seq!['\''], true) == shell_read(Seq::<char>::empty(), false));
    assert(shell_read(w, false) == shell_read(w.drop_first(), true));
    assert(s + Seq::<char>::empty() =~= s);
}

/// The editor command: the configured command when set and non-empty, else
/// `$EDITOR` (passed in as `editor_env`) when set and non-empty, else
/// `vim`.
pub fn resolve_editor(config: &AppConfig, editor_env: Option<&str>) -> (r: String)
    ensures
        r@ == (match config.edit_command {
            Some(c) if c@.len() > 0 => c@,
            _ => match editor_env {
                Some(e) if e@.len() > 0 => e@,
                _ => "vim"@,
            },
        }),
{
    if let Some(cmd) = &config.edit_command {
        if !cmd.as_str().is_empty() {
            return cmd.clone();
        }
    }
    if let Some(cmd) = editor_env {
        if !cmd.is_empty() {
            return crate::text::owned(cmd);
        }
    }
    crate::text::owned("vim")
}

/// The action the existence check takes when the watched worktree may be
/// gone.
#[derive(Debug, Clone, Copy, PartialEq, Eq, Structural)]
pub enum FallbackAction {
    /// The watched path still exists: do nothing.
    Keep,
    /// The watched path is gone but the main worktree exists: switch to it.
    SwitchToMain,
    /// The watched path is gone and so is the main worktree (or the watched
    /// path is the main worktree): hold state and warn.
    MainMissing,
}

/// Decides whether to fall back to the main worktree, from whether the
/// watched path exists, whether the main worktree exists, and whether they
/// are the same path.
pub fn fallback_decision(watch_exists: bool, main_exists: bool, same_path: bool) -> (r: FallbackAction)
    ensures
        r == (if watch_exists {
            FallbackAction::Keep
        } else if same_path || !main_exists {
            FallbackAction::MainMissing
        } else {
            FallbackAction::SwitchToMain
        }),
{
    if watch_exists {
        return FallbackAction::Keep;
    }
    if same_path || !main_exists {
        return FallbackAction::MainMissing;
    }
    FallbackAction::SwitchToMain
}

} // verus!
