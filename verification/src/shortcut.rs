//! Quick Capture shortcut combos: normalizing what the user typed
//! ("Cmd+Shift+H") to the accelerator form the shortcut registry takes
//! ("CommandOrControl+Shift+H").

use vstd::prelude::*;
use crate::text;

verus! {

/// Settings key of the saved combo.
pub const K_SHORTCUT: &'static str = "shortcut.quick_capture";

/// Settings key of the last registration error.
pub const K_SHORTCUT_LAST_ERROR: &'static str = "shortcut.quick_capture.last_error";

/// The combo used when none is saved.
pub const DEFAULT_COMBO: &'static str = "CommandOrControl+Shift+H";

/// Label of the overlay window.
pub const WINDOW_LABEL: &'static str = "quick-capture";

/// The canonical modifier that a lower-cased token names, if any.
pub open spec fn modifier_for(lower: Seq<char>) -> Option<Seq<char>> {
    if lower == "cmd"@ || lower == "command"@ || lower == "meta"@ || lower == "super"@
        || lower == "commandorcontrol"@ || lower == "ctrl"@ || lower == "control"@ {
        Some("CommandOrControl"@)
    } else if lower == "alt"@ || lower == "option"@ || lower == "opt"@ {
        Some("Alt"@)
    } else if lower == "shift"@ {
        Some("Shift"@)
    } else {
        None
    }
}

/// Named non-modifier keys, in upper case.
pub open spec fn is_named_key(u: Seq<char>) -> bool {
    ||| u == "SPACE"@
    ||| u == "ENTER"@
    ||| u == "ESCAPE"@
    ||| u == "TAB"@
    ||| u == "BACKSPACE"@
    ||| u == "DELETE"@
    ||| u == "ARROWUP"@
    ||| u == "ARROWDOWN"@
    ||| u == "ARROWLEFT"@
    ||| u == "ARROWRIGHT"@
}

/// Every character from `start` on is an ASCII digit.
pub open spec fn digits_from(u: Seq<char>, start: int) -> bool {
    forall|i: int| start <= i < u.len() ==> text::is_ascii_digit(#[trigger] u[i])
}

/// A function key: `F` followed by digits only.
pub open spec fn is_function_key(u: Seq<char>) -> bool {
    u.len() >= 1 && u[0] == 'F' && digits_from(u, 1)
}

/// The canonical spelling of a trimmed base key, if it is one.
pub open spec fn canonical_base_of(t: Seq<char>) -> Option<Seq<char>> {
    if t.len() == 1 && text::is_ascii_alpha(t[0]) {
        Some(seq![text::upper_spec(t[0])])
    } else if t.len() == 1 && text::is_ascii_digit(t[0]) {
        Some(t)
    } else if is_function_key(text::upper_seq(t)) {
        Some(text::upper_seq(t))
    } else if is_named_key(text::upper_seq(t)) {
        Some(text::upper_seq(t))
    } else {
        None
    }
}

/// What `canonical_base` returns for `tok`.
pub open spec fn canonical_base_spec(tok: Seq<char>) -> Result<Seq<char>, Seq<char>> {
    let t = text::trim_spec(tok);
    match canonical_base_of(t) {
        Some(b) => Ok(b),
        None => Err("Invalid accelerator: unsupported key "@ + text::str_debug(t)),
    }
}

/// `mods` with `name` added at the end unless it is already there.
pub open spec fn push_mod_spec(mods: Seq<Seq<char>>, name: Seq<char>) -> Seq<Seq<char>> {
    if mods.contains(name) {
        mods
    } else {
        mods.push(name)
    }
}

/// A word whose lower-case form is lower-case ASCII letters is ASCII letters.
proof fn lemma_letters_of_lowered(a: Seq<char>)
    requires
        forall|i: int| 0 <= i < a.len() ==> text::is_ascii_lower(#[trigger] text::lower_seq(a)[i]),
    ensures
        forall|i: int| 0 <= i < a.len() ==> text::is_ascii_alpha(#[trigger] a[i]),
        !a.contains('+'),
        forall|i: int| 0 <= i < a.len() ==> !text::is_ws_spec(#[trigger] a[i]),
{
    assert forall|i: int| 0 <= i < a.len() implies text::is_ascii_alpha(#[trigger] a[i]) by {
        assert(text::lower_seq(a)[i] == text::lower_spec(a[i]));
    }
    assert forall|i: int| 0 <= i < a.len() implies !text::is_ws_spec(#[trigger] a[i]) by {
        assert(text::is_ascii_alpha(a[i]));
    }
    if a.contains('+') {
        let i = choose|i: int| 0 <= i < a.len() && a[i] == '+';
        assert(text::is_ascii_alpha(a[i]));
    }
}

/// The seven names of the Command-or-Control modifier.
pub open spec fn command_or_control_name(lower: Seq<char>) -> bool {
    ||| lower == "cmd"@
    ||| lower == "command"@
    ||| lower == "meta"@
    ||| lower == "super"@
    ||| lower == "commandorcontrol"@
    ||| lower == "ctrl"@
    ||| lower == "control"@
}

proof fn lemma_command_names_are_letters(w: Seq<char>)
    requires
        command_or_control_name(w),
    ensures
        w.len() > 0,
        forall|i: int| 0 <= i < w.len() ==> text::is_ascii_lower(#[trigger] w[i]),
{
    reveal_strlit("cmd");
    reveal_strlit("command");
    reveal_strlit("meta");
    reveal_strlit("super");
    reveal_strlit("commandorcontrol");
    reveal_strlit("ctrl");
    reveal_strlit("control");
}

/// Any spelling of a name of the Command-or-Control modifier (`cmd`,
/// `command`, `meta`, `super`, `commandorcontrol`, `ctrl` or `control`, in
/// any case) is read as that modifier: `<name>+Shift+H` normalizes to
/// `CommandOrControl+Shift+H`.
pub proof fn lemma_command_names_normalize(a: Seq<char>)
    requires
        command_or_control_name(text::lower_seq(a)),
    ensures
        normalize_spec(a + "+Shift+H"@) == Ok::<Seq<char>, Seq<char>>("CommandOrControl+Shift+H"@),
{
    let input = a + "+Shift+H"@;
    let sh = "Shift"@;
    let h = "H"@;
    let coc = "CommandOrControl"@;
    reveal_strlit("+Shift+H");
    reveal_strlit("Shift");
    reveal_strlit("H");
    reveal_strlit("shift");
    reveal_strlit("h");
    reveal_strlit("CommandOrControl");
    reveal_strlit("CommandOrControl+Shift+H");
    lemma_command_names_are_letters(text::lower_seq(a));
    lemma_letters_of_lowered(a);
    // the input is the three tokens joined by `+`
    let parts = seq![a, sh, h];
    assert(parts.drop_last() =~= seq![a, sh]);
    assert(seq![a, sh].drop_last() =~= seq![a]);
    assert(text::join_spec(seq![a], '+') == a);
    assert(text::join_spec(seq![a, sh], '+') == a.push('+') + sh);
    assert(text::join_spec(parts, '+') == (a.push('+') + sh).push('+') + h);
    assert(text::join_spec(parts, '+') =~= input);
    assert(!sh.contains('+')) by {
        if sh.contains('+') {
            let i = choose|i: int| 0 <= i < sh.len() && sh[i] == '+';
        }
    }
    assert(!h.contains('+')) by {
        if h.contains('+') {
            let i = choose|i: int| 0 <= i < h.len() && h[i] == '+';
        }
    }
    assert forall|i: int| 0 <= i < parts.len() implies !(#[trigger] parts[i]).contains('+') by {
        if i == 0 {
        } else if i == 1 {
        } else {
        }
    }
    text::lemma_split_join(parts, '+');
    assert(text::split_spec(input, '+') == parts);
    // first token: the modifier
    text::lemma_trim_noop(a);
    let st1: AccelState = (seq![coc], None);
    assert(accel_run(input, seq![a]) == Ok::<AccelState, Seq<char>>(st1)) by {
        assert(seq![a].drop_last() =~= Seq::<Seq<char>>::empty());
        assert(accel_run(input, Seq::<Seq<char>>::empty()) == Ok::<AccelState, Seq<char>>((Seq::empty(), None)));
        assert(text::lower_seq(a).len() == a.len());
        assert(text::trim_spec(a) == a);
        assert(a.len() > 0);
        assert(modifier_for(text::lower_seq(a)) == Some(coc));
        assert(!Seq::<Seq<char>>::empty().contains(coc));
        assert(push_mod_spec(Seq::empty(), coc) =~= seq![coc]);
    }
    // second token: Shift
    text::lemma_trim_noop(sh);
    assert(text::lower_seq(sh) =~= "shift"@);
    assert(modifier_for("shift"@) == Some("Shift"@)) by {
        reveal_strlit("cmd");
        reveal_strlit("command");
        reveal_strlit("meta");
        reveal_strlit("super");
        reveal_strlit("commandorcontrol");
        reveal_strlit("ctrl");
        reveal_strlit("control");
        reveal_strlit("alt");
        reveal_strlit("option");
        reveal_strlit("opt");
        assert("shift"@ != "super"@) by { assert("shift"@[1] != "super"@[1]); }
        assert("shift"@ != "cmd"@) by { assert("shift"@.len() != "cmd"@.len()); }
        assert("shift"@ != "command"@) by { assert("shift"@.len() != "command"@.len()); }
        assert("shift"@ != "meta"@) by { assert("shift"@.len() != "meta"@.len()); }
        assert("shift"@ != "commandorcontrol"@) by { assert("shift"@.len() != "commandorcontrol"@.len()); }
        assert("shift"@ != "ctrl"@) by { assert("shift"@.len() != "ctrl"@.len()); }
        assert("shift"@ != "control"@) by { assert("shift"@.len() != "control"@.len()); }
        assert("shift"@ != "alt"@) by { assert("shift"@.len() != "alt"@.len()); }
        assert("shift"@ != "option"@) by { assert("shift"@.len() != "option"@.len()); }
        assert("shift"@ != "opt"@) by { assert("shift"@.len() != "opt"@.len()); }
    }
    assert(!seq![coc].contains(sh)) by {
        if seq![coc].contains(sh) {
            let i = choose|i: int| 0 <= i < 1 && seq![coc][i] == sh;
            assert(coc.len() != sh.len());
        }
    }
    let st2: AccelState = (seq![coc, sh], None);
    assert(accel_run(input, seq![a, sh]) == Ok::<AccelState, Seq<char>>(st2)) by {
        assert(push_mod_spec(seq![coc], sh) =~= seq![coc, sh]);
    }
    // third token: the base key H
    text::lemma_trim_noop(h);
    assert(text::lower_seq(h) =~= "h"@);
    assert(modifier_for("h"@) is None) by {
        reveal_strlit("cmd");
        reveal_strlit("command");
        reveal_strlit("meta");
        reveal_strlit("super");
        reveal_strlit("commandorcontrol");
        reveal_strlit("ctrl");
        reveal_strlit("control");
        reveal_strlit("alt");
        reveal_strlit("option");
        reveal_strlit("opt");
        reveal_strlit("shift");
    }
    assert(canonical_base_of(h) == Some(h)) by {
        assert(seq![text::upper_spec(h[0])] =~= h);
    }
    assert(canonical_base_spec(h) == Ok::<Seq<char>, Seq<char>>(h));
    let st3: AccelState = (seq![coc, sh], Some(h));
    assert(accel_run(input, parts) == Ok::<AccelState, Seq<char>>(st3));
    // the output
    let outs = seq![coc, sh].push(h);
    assert(outs.drop_last() =~= seq![coc, sh]);
    assert(seq![coc, sh].drop_last() =~= seq![coc]);
    assert(text::join_spec(seq![coc], '+') == coc);
    assert(text::join_spec(seq![coc, sh], '+') == coc.push('+') + sh);
    assert(text::join_spec(outs, '+') == (coc.push('+') + sh).push('+') + h);
    assert(text::join_spec(outs, '+') =~= "CommandOrControl+Shift+H"@);
}

/// The three names of the Alt modifier.
pub open spec fn alt_name(lower: Seq<char>) -> bool {
    lower == "alt"@ || lower == "option"@ || lower == "opt"@
}

/// The modifier a modifier name stands for, and the word itself in lower
/// case: the Command-or-Control names, the Alt names, and `shift`.
pub open spec fn names_modifier(lower: Seq<char>, m: Seq<char>) -> bool {
    ||| command_or_control_name(lower) && m == "CommandOrControl"@
    ||| alt_name(lower) && m == "Alt"@
    ||| lower == "shift"@ && m == "Shift"@
}

proof fn lemma_modifier_names_are_letters(w: Seq<char>, m: Seq<char>)
    requires
        names_modifier(w, m),
    ensures
        w.len() > 0,
        forall|i: int| 0 <= i < w.len() ==> text::is_ascii_lower(#[trigger] w[i]),
        modifier_for(w) == Some(m),
{
    reveal_strlit("cmd");
    reveal_strlit("command");
    reveal_strlit("meta");
    reveal_strlit("super");
    reveal_strlit("commandorcontrol");
    reveal_strlit("ctrl");
    reveal_strlit("control");
    reveal_strlit("alt");
    reveal_strlit("option");
    reveal_strlit("opt");
    reveal_strlit("shift");
    if alt_name(w) {
        if w == "alt"@ {
            assert("alt"@ != "cmd"@) by { assert("alt"@[0] != "cmd"@[0]); }
            assert("alt"@ != "command"@) by { assert("alt"@.len() != "command"@.len()); }
            assert("alt"@ != "meta"@) by { assert("alt"@.len() != "meta"@.len()); }
            assert("alt"@ != "super"@) by { assert("alt"@.len() != "super"@.len()); }
            assert("alt"@ != "commandorcontrol"@) by { assert("alt"@.len() != "commandorcontrol"@.len()); }
            assert("alt"@ != "ctrl"@) by { assert("alt"@.len() != "ctrl"@.len()); }
            assert("alt"@ != "control"@) by { assert("alt"@.len() != "control"@.len()); }
        }
        if w == "option"@ {
            assert("option"@ != "cmd"@) by { assert("option"@.len() != "cmd"@.len()); }
            assert("option"@ != "command"@) by { assert("option"@.len() != "command"@.len()); }
            assert("option"@ != "meta"@) by { assert("option"@.len() != "meta"@.len()); }
            assert("option"@ != "super"@) by { assert("option"@.len() != "super"@.len()); }
            assert("option"@ != "commandorcontrol"@) by { assert("option"@.len() != "commandorcontrol"@.len()); }
            assert("option"@ != "ctrl"@) by { assert("option"@.len() != "ctrl"@.len()); }
            assert("option"@ != "control"@) by { assert("option"@.len() != "control"@.len()); }
        }
        if w == "opt"@ {
            assert("opt"@ != "cmd"@) by { assert("opt"@[0] != "cmd"@[0]); }
            assert("opt"@ != "command"@) by { assert("opt"@.len() != "command"@.len()); }
            assert("opt"@ != "meta"@) by { assert("opt"@.len() != "meta"@.len()); }
            assert("opt"@ != "super"@) by { assert("opt"@.len() != "super"@.len()); }
            assert("opt"@ != "commandorcontrol"@) by { assert("opt"@.len() != "commandorcontrol"@.len()); }
            assert("opt"@ != "ctrl"@) by { assert("opt"@.len() != "ctrl"@.len()); }
            assert("opt"@ != "control"@) by { assert("opt"@.len() != "control"@.len()); }
        }
    } else if w == "shift"@ {
        assert("shift"@ != "cmd"@) by { assert("shift"@.len() != "cmd"@.len()); }
        assert("shift"@ != "command"@) by { assert("shift"@.len() != "command"@.len()); }
        assert("shift"@ != "meta"@) by { assert("shift"@.len() != "meta"@.len()); }
        assert("shift"@ != "super"@) by { assert("shift"@[1] != "super"@[1]); }
        assert("shift"@ != "commandorcontrol"@) by { assert("shift"@.len() != "commandorcontrol"@.len()); }
        assert("shift"@ != "ctrl"@) by { assert("shift"@.len() != "ctrl"@.len()); }
        assert("shift"@ != "control"@) by { assert("shift"@.len() != "control"@.len()); }
        assert("shift"@ != "alt"@) by { assert("shift"@.len() != "alt"@.len()); }
        assert("shift"@ != "option"@) by { assert("shift"@.len() != "option"@.len()); }
        assert("shift"@ != "opt"@) by { assert("shift"@.len() != "opt"@.len()); }
    }
}

/// A modifier named in any case before a key is read as that modifier:
/// `cmd`, `command`, `meta`, `super`, `commandorcontrol`, `ctrl` and
/// `control` as `CommandOrControl`, `alt`, `option` and `opt` as `Alt`, and
/// `shift` as `Shift`; so `<name>+H` normalizes to `<modifier>+H`.
pub proof fn lemma_modifier_names_normalize(a: Seq<char>, m: Seq<char>)
    requires
        names_modifier(text::lower_seq(a), m),
    ensures
        normalize_spec(a + "+H"@) == Ok::<Seq<char>, Seq<char>>(m + "+H"@),
{
    let input = a + "+H"@;
    let h = "H"@;
    reveal_strlit("+H");
    reveal_strlit("H");
    reveal_strlit("h");
    lemma_modifier_names_are_letters(text::lower_seq(a), m);
    lemma_letters_of_lowered(a);
    let parts = seq![a, h];
    assert(parts.drop_last() =~= seq![a]);
    assert(text::join_spec(seq![a], '+') == a);
    assert(text::join_spec(parts, '+') == a.push('+') + h);
    assert(text::join_spec(parts, '+') =~= input);
    assert(!h.contains('+')) by {
        if h.contains('+') {
            let i = choose|i: int| 0 <= i < h.len() && h[i] == '+';
        }
    }
    assert forall|i: int| 0 <= i < parts.len() implies !(#[trigger] parts[i]).contains('+') by {
        if i == 0 {
        } else {
        }
    }
    text::lemma_split_join(parts, '+');
    text::lemma_trim_noop(a);
    let st1: AccelState = (seq![m], None);
    assert(accel_run(input, seq![a]) == Ok::<AccelState, Seq<char>>(st1)) by {
        assert(seq![a].drop_last() =~= Seq::<Seq<char>>::empty());
        assert(accel_run(input, Seq::<Seq<char>>::empty()) == Ok::<AccelState, Seq<char>>((Seq::empty(), None)));
        assert(text::lower_seq(a).len() == a.len());
        assert(text::trim_spec(a) == a);
        assert(!Seq::<Seq<char>>::empty().contains(m));
        assert(push_mod_spec(Seq::empty(), m) =~= seq![m]);
    }
    text::lemma_trim_noop(h);
    assert(text::lower_seq(h) =~= "h"@);
    assert(modifier_for("h"@) is None) by {
        reveal_strlit("cmd");
        reveal_strlit("command");
        reveal_strlit("meta");
        reveal_strlit("super");
        reveal_strlit("commandorcontrol");
        reveal_strlit("ctrl");
        reveal_strlit("control");
        reveal_strlit("alt");
        reveal_strlit("option");
        reveal_strlit("opt");
        reveal_strlit("shift");
    }
    assert(canonical_base_of(h) == Some(h)) by {
        assert(seq![text::upper_spec(h[0])] =~= h);
    }
    assert(accel_run(input, parts) == Ok::<AccelState, Seq<char>>((seq![m], Some(h))));
    let outs = seq![m].push(h);
    assert(outs.drop_last() =~= seq![m]);
    assert(text::join_spec(seq![m], '+') == m);
    assert(text::join_spec(outs, '+') == m.push('+') + h);
    assert(text::join_spec(outs, '+') =~= m + "+H"@);
}

/// Modifiers seen so far, and the base key once one was seen.
pub type AccelState = (Seq<Seq<char>>, Option<Seq<char>>);

/// One `+`-separated token of `input` applied to the state.
pub open spec fn accel_step(input: Seq<char>, st: AccelState, raw: Seq<char>) -> Result<
    AccelState,
    Seq<char>,
> {
    let tok = text::trim_spec(raw);
    if tok.len() == 0 {
        Err("Invalid accelerator: empty token in "@ + text::str_debug(input))
    } else {
        match modifier_for(text::lower_seq(tok)) {
            Some(m) => Ok((push_mod_spec(st.0, m), st.1)),
            None => if st.1 is Some {
                Err("Invalid accelerator: multiple base keys in "@ + text::str_debug(input))
            } else {
                match canonical_base_spec(tok) {
                    Ok(b) => Ok((st.0, Some(b))),
                    Err(e) => Err(e),
                }
            },
        }
    }
}

/// The tokens applied left to right; the first error stops the walk.
pub open spec fn accel_run(input: Seq<char>, toks: Seq<Seq<char>>) -> Result<AccelState, Seq<char>>
    decreases toks.len(),
{
    if toks.len() == 0 {
        Ok((Seq::empty(), None))
    } else {
        match accel_run(input, toks.drop_last()) {
            Err(e) => Err(e),
            Ok(st) => accel_step(input, st, toks.last()),
        }
    }
}

/// What `normalize_accelerator` returns for `input`.
pub open spec fn normalize_spec(input: Seq<char>) -> Result<Seq<char>, Seq<char>> {
    match accel_run(input, text::split_spec(input, '+')) {
        Err(e) => Err(e),
        Ok(st) => match st.1 {
            None => Err("Invalid accelerator: no base key in "@ + text::str_debug(input)),
            Some(b) => Ok(text::join_spec(st.0.push(b), '+')),
        },
    }
}

/// Once a prefix of the tokens fails, the whole walk fails the same way.
pub proof fn lemma_run_error_sticks(input: Seq<char>, toks: Seq<Seq<char>>, k: int)
    requires
        0 <= k <= toks.len(),
        accel_run(input, toks.take(k)) is Err,
    ensures
        accel_run(input, toks) == accel_run(input, toks.take(k)),
    decreases toks.len() - k,
{
    if k < toks.len() {
        assert(toks.take(k + 1).drop_last() =~= toks.take(k));
        lemma_run_error_sticks(input, toks, k + 1);
    } else {
        assert(toks.take(k) =~= toks);
    }
}


/// One of the three canonical modifier spellings.
pub open spec fn is_modifier_name(m: Seq<char>) -> bool {
    m == "CommandOrControl"@ || m == "Alt"@ || m == "Shift"@
}

/// A non-empty token with neither `+` nor white space in it.
pub open spec fn plain_token(s: Seq<char>) -> bool {
    &&& s.len() >= 1
    &&& !s.contains('+')
    &&& forall|i: int| 0 <= i < s.len() ==> !text::is_ws_spec(#[trigger] s[i])
}

/// A base key in the form that normalizing produces.
pub open spec fn canonical_key(b: Seq<char>) -> bool {
    &&& plain_token(b)
    &&& canonical_base_of(b) == Some(b)
    &&& modifier_for(text::lower_seq(b)) is None
}

/// What every state reached by the token walk satisfies.
pub open spec fn good_state(st: AccelState) -> bool {
    &&& forall|i: int| 0 <= i < st.0.len() ==> is_modifier_name(#[trigger] st.0[i])
    &&& st.0.no_duplicates()
    &&& (st.1 matches Some(b) ==> canonical_key(b))
}

proof fn lemma_modifier_name(m: Seq<char>)
    requires
        is_modifier_name(m),
    ensures
        plain_token(m),
        modifier_for(text::lower_seq(m)) == Some(m),
{
    reveal_strlit("cmd");
    reveal_strlit("command");
    reveal_strlit("meta");
    reveal_strlit("super");
    reveal_strlit("commandorcontrol");
    reveal_strlit("ctrl");
    reveal_strlit("control");
    reveal_strlit("alt");
    reveal_strlit("option");
    reveal_strlit("opt");
    reveal_strlit("shift");
    reveal_strlit("CommandOrControl");
    reveal_strlit("Alt");
    reveal_strlit("Shift");
    let l = text::lower_seq(m);
    assert(l.len() == m.len());
    assert(l[0] == text::lower_spec(m[0]));
    assert(l[1] == text::lower_spec(m[1]));
    if m == "CommandOrControl"@ {
        assert(l =~= "commandorcontrol"@);
    } else if m == "Alt"@ {
        assert(l =~= "alt"@);
    } else {
        assert(l =~= "shift"@);
    }
}

proof fn lemma_upper_fixed(u: Seq<char>)
    requires
        forall|i: int| 0 <= i < u.len() ==> !text::is_ascii_lower(#[trigger] u[i]),
    ensures
        text::upper_seq(u) == u,
{
    assert(text::upper_seq(u) =~= u);
}

proof fn lemma_named_key_canonical(u: Seq<char>)
    requires
        is_named_key(u),
    ensures
        canonical_key(u),
{
    reveal_strlit("cmd");
    reveal_strlit("command");
    reveal_strlit("meta");
    reveal_strlit("super");
    reveal_strlit("commandorcontrol");
    reveal_strlit("ctrl");
    reveal_strlit("control");
    reveal_strlit("alt");
    reveal_strlit("option");
    reveal_strlit("opt");
    reveal_strlit("shift");
    reveal_strlit("SPACE");
    reveal_strlit("ENTER");
    reveal_strlit("ESCAPE");
    reveal_strlit("TAB");
    reveal_strlit("BACKSPACE");
    reveal_strlit("DELETE");
    reveal_strlit("ARROWUP");
    reveal_strlit("ARROWDOWN");
    reveal_strlit("ARROWLEFT");
    reveal_strlit("ARROWRIGHT");
    assert(u.len() >= 3);
    assert forall|i: int| 0 <= i < u.len() implies text::is_ascii_upper(#[trigger] u[i]) by {}
    lemma_upper_fixed(u);
    assert(u[0] != 'F');
    let l = text::lower_seq(u);
    assert(l.len() == u.len());
    assert(l[0] == text::lower_spec(u[0]));
    assert(l[1] == text::lower_spec(u[1]));
}

proof fn lemma_function_key_canonical(u: Seq<char>)
    requires
        is_function_key(u),
    ensures
        canonical_key(u),
{
    reveal_strlit("cmd");
    reveal_strlit("command");
    reveal_strlit("meta");
    reveal_strlit("super");
    reveal_strlit("commandorcontrol");
    reveal_strlit("ctrl");
    reveal_strlit("control");
    reveal_strlit("alt");
    reveal_strlit("option");
    reveal_strlit("opt");
    reveal_strlit("shift");
    assert forall|i: int| 0 <= i < u.len() implies !text::is_ascii_lower(#[trigger] u[i]) by {
        if i > 0 {
            assert(text::is_ascii_digit(u[i]));
        }
    }
    lemma_upper_fixed(u);
    let l = text::lower_seq(u);
    assert(l[0] == 'f');
    assert(!u.contains('+')) by {
        if u.contains('+') {
            let k = choose|k: int| 0 <= k < u.len() && u[k] == '+';
            if k > 0 {
                assert(text::is_ascii_digit(u[k]));
            }
        }
    }
    assert forall|i: int| 0 <= i < u.len() implies !text::is_ws_spec(#[trigger] u[i]) by {
        if i > 0 {
            assert(text::is_ascii_digit(u[i]));
        }
    }
    if u.len() == 1 {
        assert(seq![text::upper_spec(u[0])] =~= u);
    }
}

/// Every base key that `canonical_base_of` produces is already canonical.
proof fn lemma_canonical_output(t: Seq<char>)
    requires
        canonical_base_of(t) is Some,
    ensures
        canonical_key(canonical_base_of(t)->0),
{
    reveal_strlit("cmd");
    reveal_strlit("command");
    reveal_strlit("meta");
    reveal_strlit("super");
    reveal_strlit("commandorcontrol");
    reveal_strlit("ctrl");
    reveal_strlit("control");
    reveal_strlit("alt");
    reveal_strlit("option");
    reveal_strlit("opt");
    reveal_strlit("shift");
    let b = canonical_base_of(t)->0;
    if t.len() == 1 && (text::is_ascii_alpha(t[0]) || text::is_ascii_digit(t[0])) {
        assert(b.len() == 1);
        assert(text::is_ascii_upper(b[0]) || text::is_ascii_digit(b[0]));
        if text::is_ascii_upper(b[0]) {
            assert(seq![text::upper_spec(b[0])] =~= b);
        }
        assert(!b.contains('+')) by {
            if b.contains('+') {
                let k = choose|k: int| 0 <= k < b.len() && b[k] == '+';
                assert(k == 0);
            }
        }
        assert forall|i: int| 0 <= i < b.len() implies !text::is_ws_spec(#[trigger] b[i]) by {
            assert(i == 0);
        }
        assert(text::lower_seq(b).len() == 1);
    } else if is_function_key(text::upper_seq(t)) {
        lemma_function_key_canonical(b);
    } else {
        lemma_named_key_canonical(b);
    }
}

/// Every state the token walk reaches is good.
proof fn lemma_run_good(input: Seq<char>, toks: Seq<Seq<char>>)
    requires
        accel_run(input, toks) is Ok,
    ensures
        good_state(accel_run(input, toks)->Ok_0),
    decreases toks.len(),
{
    if toks.len() > 0 {
        lemma_run_good(input, toks.drop_last());
        let st = accel_run(input, toks.drop_last())->Ok_0;
        let tok = text::trim_spec(toks.last());
        match modifier_for(text::lower_seq(tok)) {
            Some(m) => {
                let nm = push_mod_spec(st.0, m);
                if !st.0.contains(m) {
                    assert forall|i: int, j: int|
                        0 <= i < nm.len() && 0 <= j < nm.len() && i != j implies nm[i] != nm[j] by {
                        if i < st.0.len() && j < st.0.len() {
                        } else if i == st.0.len() {
                            assert(st.0[j] != m);
                        } else {
                            assert(st.0[i] != m);
                        }
                    }
                }
            },
            None => {
                if st.1 is None {
                    lemma_canonical_output(text::trim_spec(tok));
                }
            },
        }
    }
}

/// Walking the tokens of a normalized combo re-adds its modifiers in order.
proof fn lemma_rerun_mods(out: Seq<char>, mods: Seq<Seq<char>>, k: int)
    requires
        0 <= k <= mods.len(),
        forall|i: int| 0 <= i < mods.len() ==> is_modifier_name(#[trigger] mods[i]),
        mods.no_duplicates(),
    ensures
        accel_run(out, mods.take(k)) == Ok::<AccelState, Seq<char>>((mods.take(k), None)),
    decreases k,
{
    if k == 0 {
        assert(mods.take(0) =~= Seq::<Seq<char>>::empty());
    } else {
        lemma_rerun_mods(out, mods, k - 1);
        let m = mods[k - 1];
        assert(mods.take(k).drop_last() =~= mods.take(k - 1));
        assert(mods.take(k).last() == m);
        lemma_modifier_name(m);
        text::lemma_trim_noop(m);
        assert(!mods.take(k - 1).contains(m)) by {
            if mods.take(k - 1).contains(m) {
                let j = choose|j: int| 0 <= j < k - 1 && #[trigger] mods.take(k - 1)[j] == m;
                assert(mods[j] == mods[k - 1]);
            }
        }
        assert(mods.take(k - 1).push(m) =~= mods.take(k));
    }
}

/// Normalizing is idempotent: a normalized combo normalizes to itself.
pub proof fn lemma_normalize_idempotent(input: Seq<char>)
    requires
        normalize_spec(input) is Ok,
    ensures
        normalize_spec(normalize_spec(input)->Ok_0) == normalize_spec(input),
{
    let toks = text::split_spec(input, '+');
    lemma_run_good(input, toks);
    let st = accel_run(input, toks)->Ok_0;
    let mods = st.0;
    let b = st.1->0;
    let parts = mods.push(b);
    let out = text::join_spec(parts, '+');
    assert forall|i: int| 0 <= i < parts.len() implies !(#[trigger] parts[i]).contains('+') by {
        if i < mods.len() {
            lemma_modifier_name(mods[i]);
        }
    }
    text::lemma_split_join(parts, '+');
    lemma_rerun_mods(out, mods, mods.len() as int);
    assert(mods.take(mods.len() as int) =~= mods);
    assert(parts.drop_last() =~= mods);
    text::lemma_trim_noop(b);
}

/// Adds the modifier `name` unless `mods` already holds it.
pub fn push_mod(mods: &mut Vec<String>, name: &str)
    ensures
        text::strs_view(final(mods)@) == push_mod_spec(text::strs_view(old(mods)@), name@),
{
    let mut i: usize = 0;
    while i < mods.len()
        invariant
            i <= mods.len(),
            forall|k: int| 0 <= k < i ==> text::strs_view(mods@)[k] != name@,
        decreases mods.len() - i,
    {
        if text::str_eq(mods[i].as_str(), name) {
            assert(text::strs_view(mods@)[i as int] == name@);
            return;
        }
        i += 1;
    }
    let ghost before = text::strs_view(mods@);
    assert(!before.contains(name@));
    mods.push(String::from_str(name));
    assert(text::strs_view(mods@) =~= before.push(name@));
}

/// The modifier named by a lower-cased token.
fn modifier_name(lower: &[char]) -> (r: Option<&'static str>)
    ensures
        match r {
            Some(n) => modifier_for(lower@) == Some(n@),
            None => modifier_for(lower@) is None,
        },
{
    if text::chars_eq_str(lower, "cmd") || text::chars_eq_str(lower, "command") || text::chars_eq_str(lower, "meta")
        || text::chars_eq_str(lower, "super") || text::chars_eq_str(lower, "commandorcontrol")
        || text::chars_eq_str(lower, "ctrl") || text::chars_eq_str(lower, "control") {
        Some("CommandOrControl")
    } else if text::chars_eq_str(lower, "alt") || text::chars_eq_str(lower, "option") || text::chars_eq_str(
        lower,
        "opt",
    ) {
        Some("Alt")
    } else if text::chars_eq_str(lower, "shift") {
        Some("Shift")
    } else {
        None
    }
}

fn named_key(u: &[char]) -> (r: bool)
    ensures
        r == is_named_key(u@),
{
    text::chars_eq_str(u, "SPACE") || text::chars_eq_str(u, "ENTER") || text::chars_eq_str(u, "ESCAPE")
        || text::chars_eq_str(u, "TAB") || text::chars_eq_str(u, "BACKSPACE") || text::chars_eq_str(u, "DELETE")
        || text::chars_eq_str(u, "ARROWUP") || text::chars_eq_str(u, "ARROWDOWN") || text::chars_eq_str(
        u,
        "ARROWLEFT",
    ) || text::chars_eq_str(u, "ARROWRIGHT")
}

fn function_key(u: &[char]) -> (r: bool)
    ensures
        r == is_function_key(u@),
{
    if u.len() == 0 || u[0] != 'F' {
        return false;
    }
    let mut i: usize = 1;
    while i < u.len()
        invariant
            1 <= i <= u.len(),
            forall|k: int| 1 <= k < i ==> text::is_ascii_digit(#[trigger] u@[k]),
        decreases u.len() - i,
    {
        if !('0' <= u[i] && u[i] <= '9') {
            return false;
        }
        i += 1;
    }
    true
}

/// The canonical spelling of the base key `tok`: an upper-case letter, a
/// digit, a function key or a named key; anything else is refused.
pub fn canonical_base(tok: &str) -> (r: Result<String, String>)
    ensures
        text::result_view(r) == canonical_base_spec(tok@),
{
    let all = text::chars_of(tok);
    let (a, b) = text::trim_bounds(all.as_slice());
    let t = text::slice_subrange(all.as_slice(), a, b);
    if t.len() == 1 {
        let c = t[0];
        if ('A' <= c && c <= 'Z') || ('a' <= c && c <= 'z') {
            let mut s = String::new();
            s.push(text::to_upper(c));
            assert(s@ =~= seq![text::upper_spec(t@[0])]);
            return Ok(s);
        }
        if '0' <= c && c <= '9' {
            return Ok(text::string_of(t));
        }
    }
    let upper = text::upper_chars(t);
    if function_key(upper.as_slice()) || named_key(upper.as_slice()) {
        return Ok(text::string_of(upper.as_slice()));
    }
    let ts = text::string_of(t);
    Err(text::with_debug("Invalid accelerator: unsupported key ", ts.as_str()))
}

/// Normalizes a user-facing combo ("Cmd+Shift+H", "ctrl+shift+h") to the
/// accelerator form ("CommandOrControl+Shift+H"): modifiers once each, in the
/// order they first appear, then the base key. Refuses an empty token, a
/// second base key, a missing base key and an unknown key.
pub fn normalize_accelerator(input: &str) -> (r: Result<String, String>)
    ensures
        text::result_view(r) == normalize_spec(input@),
{
    let v = text::chars_of(input);
    let toks = text::split_chars(v.as_slice(), '+');
    let ghost tv = text::vecs_view(toks@);
    let mut mods: Vec<String> = Vec::new();
    let mut base: Option<String> = None;
    let mut i: usize = 0;
    assert(tv.take(0) =~= Seq::<Seq<char>>::empty());
    assert(text::strs_view(mods@) =~= Seq::<Seq<char>>::empty());
    while i < toks.len()
        invariant
            i <= toks.len(),
            tv == text::vecs_view(toks@),
            tv == text::split_spec(input@, '+'),
            accel_run(input@, tv.take(i as int)) == Ok::<AccelState, Seq<char>>(
                (text::strs_view(mods@), text::opt_view(base)),
            ),
        decreases toks.len() - i,
    {
        let raw = toks[i].as_slice();
        assert(raw@ == tv[i as int]);
        assert(tv.take(i + 1).drop_last() =~= tv.take(i as int));
        assert(tv.take(i + 1).last() == tv[i as int]);
        let (a, b) = text::trim_bounds(raw);
        let tok = text::slice_subrange(raw, a, b);
        if tok.len() == 0 {
            proof {
                lemma_run_error_sticks(input@, tv, i + 1);
            }
            return Err(text::with_debug("Invalid accelerator: empty token in ", input));
        }
        let lower = text::lower_chars(tok);
        match modifier_name(lower.as_slice()) {
            Some(name) => {
                push_mod(&mut mods, name);
            },
            None => {
                if base.is_some() {
                    proof {
                        lemma_run_error_sticks(input@, tv, i + 1);
                    }
                    return Err(text::with_debug("Invalid accelerator: multiple base keys in ", input));
                }
                let tok_s = text::string_of(tok);
                match canonical_base(tok_s.as_str()) {
                    Ok(b) => {
                        base = Some(b);
                    },
                    Err(e) => {
                        proof {
                            lemma_run_error_sticks(input@, tv, i + 1);
                        }
                        return Err(e);
                    },
                }
            },
        }
        i += 1;
    }
    assert(tv.take(toks.len() as int) =~= tv);
    match base {
        None => Err(text::with_debug("Invalid accelerator: no base key in ", input)),
        Some(b) => {
            let ghost before = text::strs_view(mods@);
            mods.push(b);
            assert(text::strs_view(mods@) =~= before.push(b@));
            Ok(text::join_strings(&mods, '+'))
        },
    }
}


/// The combo to register for a saved setting: the saved text, or the
/// default when it is blank.
pub open spec fn saved_combo(raw: Seq<char>) -> Seq<char> {
    if text::trim_spec(raw).len() == 0 {
        DEFAULT_COMBO@
    } else {
        raw
    }
}

/// The saved combo, normalized; the default when none is saved.
pub fn read_combo(raw: &str) -> (r: Result<String, String>)
    ensures
        text::result_view(r) == normalize_spec(saved_combo(raw@)),
{
    let v = text::chars_of(raw);
    let (a, b) = text::trim_bounds(v.as_slice());
    if a == b {
        normalize_accelerator(DEFAULT_COMBO)
    } else {
        normalize_accelerator(raw)
    }
}

/// The error of a combo the shortcut registry refused.
pub fn register_failed_message(error: &str) -> (r: String)
    ensures
        r@ == "register shortcut failed: "@ + error@,
{
    let mut r = String::from_str("register shortcut failed: ");
    r.append(error);
    r
}

/// What is saved as the last registration error: nothing after a success,
/// the registry's message after a failure.
pub fn registration_error_text(outcome: Result<(), String>) -> (r: String)
    ensures
        match outcome {
            Ok(()) => r@.len() == 0,
            Err(e) => r == e,
        },
{
    match outcome {
        Ok(()) => String::new(),
        Err(e) => e,
    }
}

} // verus!
