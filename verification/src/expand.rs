//! The environment expander: resolves percent-delimited placeholders in
//! configured paths against a caller-supplied name/value map.
//!
//! Expansion is single-pass, left to right. A well-formed `%NAME%` whose name
//! is bound is replaced by its value; an unbound name is kept with its
//! delimiters; an empty `%%` yields one literal percent sign; a trailing
//! unclosed `%NAME` is looked up all the same, and written back with both
//! delimiters when unbound.

use vstd::prelude::*;
use vstd::string::StrSliceExecFns;
use crate::text::chars_of;
use crate::text::string_from_chars;

verus! {

/// The value bound to `name`, searching the pairs front to back.
pub open spec fn spec_env_lookup(env: Seq<(String, String)>, name: Seq<char>) -> Option<Seq<char>>
    decreases env.len(),
{
    if env.len() == 0 {
        None
    } else if env[0].0@ == name {
        Some(env[0].1@)
    } else {
        spec_env_lookup(env.skip(1), name)
    }
}

/// What one collected placeholder name expands to, delimiters included.
pub open spec fn spec_var_text(var: Seq<char>, env: Seq<(String, String)>) -> Seq<char> {
    if var.len() == 0 {
        seq!['%']
    } else {
        match spec_env_lookup(env, var) {
            Some(v) => v,
            None => seq!['%'] + var + seq!['%'],
        }
    }
}

/// What the text from an opening percent sign onward expands to: `rest` is
/// the text after that sign, `var` the name characters read so far.
pub open spec fn spec_expand_var(
    rest: Seq<char>,
    var: Seq<char>,
    env: Seq<(String, String)>,
) -> Seq<char>
    decreases rest.len(), 0int,
{
    if rest.len() == 0 {
        spec_var_text(var, env)
    } else if rest[0] == '%' {
        spec_var_text(var, env) + spec_expand(rest.skip(1), env)
    } else {
        spec_expand_var(rest.skip(1), var.push(rest[0]), env)
    }
}

/// What `s` expands to under `env`.
pub open spec fn spec_expand(s: Seq<char>, env: Seq<(String, String)>) -> Seq<char>
    decreases s.len(), 1int,
{
    if s.len() == 0 {
        Seq::empty()
    } else if s[0] == '%' {
        spec_expand_var(s.skip(1), Seq::empty(), env)
    } else {
        seq![s[0]] + spec_expand(s.skip(1), env)
    }
}

/// Reading `t` name characters, none of them a percent sign, only moves them
/// from the remaining text into the collected name.
proof fn lemma_expand_var_shift(s: Seq<char>, t: int, var: Seq<char>, env: Seq<(String, String)>)
    requires
        0 <= t <= s.len(),
        forall|m: int| 0 <= m < t ==> s[m] != '%',
    ensures
        spec_expand_var(s, var, env) == spec_expand_var(s.skip(t), var + s.subrange(0, t), env),
    decreases t,
{
    if t == 0 {
        assert(s.skip(0) =~= s);
        assert(var + s.subrange(0, 0) =~= var);
    } else {
        assert(s[0] != '%');
        lemma_expand_var_shift(s.skip(1), t - 1, var.push(s[0]), env);
        assert(s.skip(1).skip(t - 1) =~= s.skip(t));
        assert(var.push(s[0]) + s.skip(1).subrange(0, t - 1) =~= var + s.subrange(0, t));
    }
}

/// Whether `s` holds exactly the characters `name`.
fn str_eq_chars(s: &String, name: &Vec<char>) -> (r: bool)
    ensures
        r == (s@ == name@),
{
    let st = s.as_str();
    let n = st.unicode_len();
    if n != name.len() {
        proof {
            assert(s@.len() != name@.len());
        }
        return false;
    }
    let mut i: usize = 0;
    while i < n
        invariant
            i <= n,
            st@ == s@,
            n == s@.len(),
            n == name@.len(),
            forall|j: int| 0 <= j < i ==> s@[j] == name@[j],
        decreases n - i,
    {
        if st.get_char(i) != name[i] {
            return false;
        }
        i = i + 1;
    }
    proof {
        assert(s@ =~= name@);
    }
    true
}

/// The value bound to `name` among the pairs, front to back.
fn env_lookup<'a>(env: &'a Vec<(String, String)>, name: &Vec<char>) -> (r: Option<&'a String>)
    ensures
        r is Some <==> spec_env_lookup(env@, name@) is Some,
        r is Some ==> r->Some_0@ == spec_env_lookup(env@, name@)->Some_0,
{
    let mut i: usize = 0;
    proof {
        assert(env@.skip(0) =~= env@);
    }
    while i < env.len()
        invariant
            i <= env@.len(),
            spec_env_lookup(env@, name@) == spec_env_lookup(env@.skip(i as int), name@),
        decreases env@.len() - i,
    {
        proof {
            assert(env@.skip(i as int)[0] == env@[i as int]);
            assert(env@.skip(i as int).skip(1) =~= env@.skip(i + 1 as int));
        }
        if str_eq_chars(&env[i].0, name) {
            return Some(&env[i].1);
        }
        i = i + 1;
    }
    None
}

/// Appends every character of `src` to `out`.
fn push_all(out: &mut Vec<char>, src: &Vec<char>)
    ensures
        final(out)@ == old(out)@ + src@,
{
    let mut m: usize = 0;
    while m < src.len()
        invariant
            m <= src@.len(),
            out@ == old(out)@ + src@.subrange(0, m as int),
        decreases src@.len() - m,
    {
        out.push(src[m]);
        assert(out@ =~= old(out)@ + src@.subrange(0, m + 1 as int));
        m = m + 1;
    }
    proof {
        assert(old(out)@ + src@.subrange(0, src@.len() as int) =~= old(out)@ + src@);
    }
}

/// Replaces every percent-delimited placeholder in `input` by its value in
/// `env`, leaving unbound placeholders untouched and collapsing `%%` to one
/// percent sign.
pub fn expand_percent_env(input: &str, env: &Vec<(String, String)>) -> (r: String)
    ensures
        r@ == spec_expand(input@, env@),
{
    let cs = chars_of(input);
    let n = cs.len();
    let mut out: Vec<char> = Vec::new();
    let mut i: usize = 0;
    proof {
        assert(cs@.skip(0) =~= cs@);
        assert(out@ + spec_expand(cs@.skip(0), env@) =~= spec_expand(input@, env@));
    }
    while i < n
        invariant
            i <= n,
            n == cs@.len(),
            cs@ == input@,
            spec_expand(input@, env@) == out@ + spec_expand(cs@.skip(i as int), env@),
        decreases n - i,
    {
        let c = cs[i];
        proof {
            assert(cs@.skip(i as int)[0] == cs@[i as int]);
            assert(cs@.skip(i as int).skip(1) =~= cs@.skip(i + 1 as int));
        }
        if c != '%' {
            let ghost prev = out@;
            out.push(c);
            proof {
                assert(out@ + spec_expand(cs@.skip(i + 1 as int), env@) =~= prev + (seq![c]
                    + spec_expand(cs@.skip(i + 1 as int), env@)));
            }
            i = i + 1;
        } else {
            // A placeholder opens here: collect its name up to the closing
            // percent sign or the end of the input.
            let mut k: usize = i + 1;
            let mut var: Vec<char> = Vec::new();
            proof {
                assert(var@ =~= cs@.subrange(i + 1 as int, i + 1 as int));
            }
            while k < n && cs[k] != '%'
                invariant
                    i + 1 <= k <= n,
                    n == cs@.len(),
                    var@ == cs@.subrange(i + 1 as int, k as int),
                    forall|m: int| i + 1 <= m < k ==> cs@[m] != '%',
                decreases n - k,
            {
                var.push(cs[k]);
                assert(var@ =~= cs@.subrange(i + 1 as int, k + 1 as int));
                k = k + 1;
            }
            proof {
                lemma_expand_var_shift(cs@.skip(i + 1 as int), k - i - 1, Seq::empty(), env@);
                assert(cs@.skip(i + 1 as int).subrange(0, k - i - 1) =~= cs@.subrange(
                    i + 1 as int,
                    k as int,
                ));
                assert(Seq::empty() + var@ =~= var@);
                assert(cs@.skip(i + 1 as int).skip(k - i - 1) =~= cs@.skip(k as int));
                // So the whole expansion now stands at position k:
                assert(spec_expand(cs@.skip(i as int), env@) == spec_expand_var(
                    cs@.skip(k as int),
                    var@,
                    env@,
                ));
            }
            let ghost head = spec_var_text(var@, env@);
            let ghost prev = out@;
            if var.len() == 0 {
                out.push('%');
                assert(out@ =~= prev + head);
            } else {
                match env_lookup(env, &var) {
                    Some(val) => {
                        let vchars = chars_of(val.as_str());
                        push_all(&mut out, &vchars);
                        assert(out@ =~= prev + head);
                    },
                    None => {
                        out.push('%');
                        push_all(&mut out, &var);
                        out.push('%');
                        assert(out@ =~= prev + head);
                    },
                }
            }
            if k < n {
                // `cs[k]` is the closing percent sign; continue after it.
                proof {
                    assert(cs@.skip(k as int)[0] == cs@[k as int]);
                    assert(cs@.skip(k as int).skip(1) =~= cs@.skip(k + 1 as int));
                    assert(spec_expand_var(cs@.skip(k as int), var@, env@) == head + spec_expand(
                        cs@.skip(k + 1 as int),
                        env@,
                    ));
                    assert(out@ + spec_expand(cs@.skip(k + 1 as int), env@) =~= prev + (head
                        + spec_expand(cs@.skip(k + 1 as int), env@)));
                }
                i = k + 1;
            } else {
                // The input ended inside the placeholder.
                proof {
                    assert(cs@.skip(k as int).len() == 0);
                    assert(spec_expand_var(cs@.skip(k as int), var@, env@) == head);
                    assert(cs@.skip(n as int) =~= Seq::<char>::empty());
                    assert(out@ + spec_expand(cs@.skip(n as int), env@) =~= prev + head);
                }
                i = k;
            }
        }
    }
    proof {
        assert(cs@.skip(n as int) =~= Seq::<char>::empty());
        assert(out@ + spec_expand(cs@.skip(n as int), env@) =~= out@);
    }
    string_from_chars(&out)
}

} // verus!
