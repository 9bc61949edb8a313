//! Path templates: strings with `{name}` placeholders. A placeholder name
//! is a nonempty run of ASCII letters, digits and underscores. Scanning is
//! left to right, resuming after each placeholder, so braces that do not
//! form a placeholder are ordinary characters.

use vstd::prelude::*;

use crate::context::RequestContext;

verus! {

/// A character that may appear in a placeholder name.
pub open spec fn is_key_char(c: char) -> bool {
    ||| 'a' as u32 <= c as u32 && c as u32 <= 'z' as u32
    ||| 'A' as u32 <= c as u32 && c as u32 <= 'Z' as u32
    ||| '0' as u32 <= c as u32 && c as u32 <= '9' as u32
    ||| c == '_'
}

/// Length of the run of name characters starting at `i`.
pub open spec fn key_run(s: Seq<char>, i: int) -> int
    decreases s.len() - i,
{
    if 0 <= i < s.len() && is_key_char(s[i]) {
        1 + key_run(s, i + 1)
    } else {
        0
    }
}

/// A placeholder with a nonempty name starts at `i`.
pub open spec fn placeholder_at(s: Seq<char>, i: int) -> bool {
    &&& 0 <= i < s.len()
    &&& s[i] == '{'
    &&& key_run(s, i + 1) > 0
    &&& i + 1 + key_run(s, i + 1) < s.len()
    &&& s[i + 1 + key_run(s, i + 1)] == '}'
}

/// The name of the placeholder starting at `i`.
pub open spec fn key_at(s: Seq<char>, i: int) -> Seq<char> {
    s.subrange(i + 1, i + 1 + key_run(s, i + 1))
}

/// The placeholder names of the template from position `i` on, in order of
/// appearance.
pub open spec fn spec_keys_from(s: Seq<char>, i: int) -> Seq<Seq<char>>
    decreases s.len() - i,
{
    if i < 0 || i >= s.len() {
        Seq::empty()
    } else if placeholder_at(s, i) {
        seq![key_at(s, i)] + spec_keys_from(s, i + 2 + key_run(s, i + 1))
    } else {
        spec_keys_from(s, i + 1)
    }
}

/// The template from position `i` on with each placeholder replaced by the
/// context's value for its name. A placeholder whose name the context lacks
/// is copied through unchanged; callers rule that case out.
pub open spec fn spec_subst(s: Seq<char>, i: int, ctx: Map<Seq<char>, Seq<char>>) -> Seq<char>
    decreases s.len() - i,
{
    if i < 0 || i >= s.len() {
        Seq::empty()
    } else if placeholder_at(s, i) && ctx.dom().contains(key_at(s, i)) {
        ctx[key_at(s, i)] + spec_subst(s, i + 2 + key_run(s, i + 1), ctx)
    } else if placeholder_at(s, i) {
        s.subrange(i, i + 2 + key_run(s, i + 1)) + spec_subst(s, i + 2 + key_run(s, i + 1), ctx)
    } else {
        seq![s[i]] + spec_subst(s, i + 1, ctx)
    }
}

/// A run of name characters over `[a, b)` that cannot be extended has
/// length `b - a`.
proof fn lemma_key_run_value(s: Seq<char>, a: int, b: int)
    requires
        0 <= a <= b <= s.len(),
        forall|k: int| a <= k < b ==> is_key_char(s[k]),
        b == s.len() || !is_key_char(s[b]),
    ensures
        key_run(s, a) == b - a,
    decreases b - a,
{
    if a < b {
        lemma_key_run_value(s, a + 1, b);
    }
}

/// Whether `c` may appear in a placeholder name.
fn is_key_char_exec(c: char) -> (r: bool)
    ensures
        r == is_key_char(c),
{
    let u = c as u32;
    ('a' as u32 <= u && u <= 'z' as u32) || ('A' as u32 <= u && u <= 'Z' as u32) || ('0' as u32
        <= u && u <= '9' as u32) || c == '_'
}

/// First position at or after `start` that does not hold a name character,
/// which bounds the name run starting at `start`.
fn key_run_end(s: &str, start: usize, n: usize) -> (j: usize)
    requires
        n == s@.len(),
        start <= n,
    ensures
        start <= j <= n,
        key_run(s@, start as int) == j - start,
{
    let mut j: usize = start;
    loop
        invariant_except_break
            start <= j <= n,
            n == s@.len(),
            forall|k: int| start <= k < j ==> is_key_char(s@[k]),
        ensures
            start <= j <= n,
            forall|k: int| start <= k < j ==> is_key_char(s@[k]),
            j == n || !is_key_char(s@[j as int]),
        decreases n - j,
    {
        if j >= n {
            break ;
        }
        let c = s.get_char(j);
        if !is_key_char_exec(c) {
            break ;
        }
        j = j + 1;
    }
    proof {
        lemma_key_run_value(s@, start as int, j as int);
    }
    j
}

/// Collects the placeholder names of a template, in order of appearance.
pub fn extract_keys(template: &str) -> (keys: Vec<String>)
    ensures
        keys@.map_values(|k: String| k@) == spec_keys_from(template@, 0),
{
    let n = template.unicode_len();
    let mut keys: Vec<String> = Vec::new();
    let mut i: usize = 0;
    while i < n
        invariant
            0 <= i <= n,
            n == template@.len(),
            spec_keys_from(template@, 0) == keys@.map_values(|k: String| k@) + spec_keys_from(
                template@,
                i as int,
            ),
        decreases n - i,
    {
        let ghost prev = keys@.map_values(|k: String| k@);
        let c = template.get_char(i);
        if c == '{' {
            let j = key_run_end(template, i + 1, n);
            if j > i + 1 && j < n && template.get_char(j) == '}' {
                proof {
                    assert(placeholder_at(template@, i as int));
                }
                let key = template.substring_char(i + 1, j).to_owned();
                proof {
                    assert(key@ == key_at(template@, i as int));
                }
                keys.push(key);
                proof {
                    assert(keys@.map_values(|k: String| k@) =~= prev + seq![
                        key_at(template@, i as int),
                    ]);
                    assert(spec_keys_from(template@, i as int) == seq![
                        key_at(template@, i as int),
                    ] + spec_keys_from(template@, j + 1));
                    assert(spec_keys_from(template@, 0) =~= keys@.map_values(|k: String| k@)
                        + spec_keys_from(template@, j + 1));
                }
                i = j + 1;
            } else {
                proof {
                    assert(!placeholder_at(template@, i as int));
                }
                i = i + 1;
            }
        } else {
            proof {
                assert(!placeholder_at(template@, i as int));
            }
            i = i + 1;
        }
    }
    proof {
        assert(spec_keys_from(template@, n as int) =~= Seq::<Seq<char>>::empty());
        assert(spec_keys_from(template@, 0) =~= keys@.map_values(|k: String| k@));
    }
    keys
}

/// Fills a template from the context: each placeholder is replaced by the
/// context's value for its name, verbatim and without escaping.
pub fn substitute(template: &str, ctx: &RequestContext) -> (out: String)
    requires
        forall|m: int|
            0 <= m < spec_keys_from(template@, 0).len() ==> ctx@.dom().contains(
                spec_keys_from(template@, 0)[m],
            ),
    ensures
        out@ == spec_subst(template@, 0, ctx@),
{
    let n = template.unicode_len();
    let mut out = String::new();
    let mut i: usize = 0;
    let ghost mut done: Seq<Seq<char>> = Seq::empty();
    proof {
        assert(done + spec_keys_from(template@, 0) =~= spec_keys_from(template@, 0));
    }
    while i < n
        invariant
            0 <= i <= n,
            n == template@.len(),
            spec_subst(template@, 0, ctx@) == out@ + spec_subst(template@, i as int, ctx@),
            spec_keys_from(template@, 0) == done + spec_keys_from(template@, i as int),
            forall|m: int|
                0 <= m < spec_keys_from(template@, 0).len() ==> ctx@.dom().contains(
                    spec_keys_from(template@, 0)[m],
                ),
        decreases n - i,
    {
        let ghost out_prev = out@;
        let c = template.get_char(i);
        if c == '{' {
            let j = key_run_end(template, i + 1, n);
            if j > i + 1 && j < n && template.get_char(j) == '}' {
                proof {
                    assert(placeholder_at(template@, i as int));
                }
                let key = template.substring_char(i + 1, j);
                proof {
                    assert(key@ == key_at(template@, i as int));
                    assert(spec_keys_from(template@, i as int) == seq![
                        key_at(template@, i as int),
                    ] + spec_keys_from(template@, j + 1));
                    assert(spec_keys_from(template@, 0)[done.len() as int] == key@);
                    assert(ctx@.dom().contains(key@));
                }
                let value: &String = match ctx.get(key) {
                    Some(v) => v,
                    None => vstd::pervasive::unreached(),
                };
                out.append(value.as_str());
                proof {
                    done = done + seq![key@];
                    assert(spec_subst(template@, i as int, ctx@) == ctx@[key@] + spec_subst(
                        template@,
                        j + 1,
                        ctx@,
                    ));
                    assert(out@ =~= out_prev + ctx@[key@]);
                    assert(out_prev + (ctx@[key@] + spec_subst(template@, j + 1, ctx@)) =~= out@
                        + spec_subst(template@, j + 1, ctx@));
                    assert(done + spec_keys_from(template@, j + 1) =~= spec_keys_from(
                        template@,
                        0,
                    ));
                }
                i = j + 1;
            } else {
                proof {
                    assert(!placeholder_at(template@, i as int));
                }
                let piece = template.substring_char(i, i + 1);
                out.append(piece);
                proof {
                    assert(piece@ =~= seq![template@[i as int]]);
                    assert(out_prev + (seq![template@[i as int]] + spec_subst(
                        template@,
                        i + 1,
                        ctx@,
                    )) =~= out@ + spec_subst(template@, i + 1, ctx@));
                }
                i = i + 1;
            }
        } else {
            proof {
                assert(!placeholder_at(template@, i as int));
            }
            let piece = template.substring_char(i, i + 1);
            out.append(piece);
            proof {
                assert(piece@ =~= seq![template@[i as int]]);
                assert(out_prev + (seq![template@[i as int]] + spec_subst(template@, i + 1, ctx@))
                    =~= out@ + spec_subst(template@, i + 1, ctx@));
            }
            i = i + 1;
        }
    }
    proof {
        assert(spec_subst(template@, n as int, ctx@) =~= Seq::<char>::empty());
        assert(out@ + Seq::<char>::empty() =~= out@);
    }
    out
}

} // verus!
