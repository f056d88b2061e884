use vstd::prelude::*;

verus! {

/// The placeholder for the path of the changed file.
pub open spec fn old_token() -> Seq<char> {
    seq!['O', 'L', 'D', '_', 'F', 'I', 'L', 'E', 'N', 'A', 'M', 'E']
}

/// The placeholder for the path of its backup.
pub open spec fn new_token() -> Seq<char> {
    seq!['N', 'E', 'W', '_', 'F', 'I', 'L', 'E', 'N', 'A', 'M', 'E']
}

pub open spec fn starts_with(t: Seq<char>, token: Seq<char>) -> bool {
    t.len() >= token.len() && t.subrange(0, token.len() as int) == token
}

/// The template `t` with each placeholder, read from left to right, replaced
/// by its value; the values themselves are not searched for placeholders.
pub open spec fn substituted(t: Seq<char>, old_path: Seq<char>, new_path: Seq<char>) -> Seq<
    char,
>
    decreases t.len(),
{
    if t.len() == 0 {
        t
    } else if starts_with(t, old_token()) {
        old_path + substituted(t.skip(12), old_path, new_path)
    } else if starts_with(t, new_token()) {
        new_path + substituted(t.skip(12), old_path, new_path)
    } else {
        seq![t[0]] + substituted(t.skip(1), old_path, new_path)
    }
}

pub open spec fn is_blank(c: char) -> bool {
    c == ' ' || c == '\t'
}

/// The words of `t` that follow the partial word `cur`: runs of characters
/// other than blanks, in order.
pub open spec fn words_from(t: Seq<char>, cur: Seq<char>) -> Seq<Seq<char>>
    decreases t.len(),
{
    let done = if cur.len() > 0 {
        seq![cur]
    } else {
        Seq::empty()
    };
    if t.len() == 0 {
        done
    } else if is_blank(t[0]) {
        done + words_from(t.skip(1), Seq::empty())
    } else {
        words_from(t.skip(1), cur.push(t[0]))
    }
}

/// The words of `t`, separated by blanks.
pub open spec fn words(t: Seq<char>) -> Seq<Seq<char>> {
    words_from(t, Seq::empty())
}

/// The argument vector of a template: each of its words with its
/// placeholders substituted, so a substituted path stays one argument.
pub open spec fn argv(t: Seq<char>, old_path: Seq<char>, new_path: Seq<char>) -> Seq<Seq<char>> {
    words(t).map_values(|w: Seq<char>| substituted(w, old_path, new_path))
}

/// The command run for a changed file: none without a template, and
/// otherwise the template's argument vector with `OLD_FILENAME` replaced by
/// the file's path and `NEW_FILENAME` by its backup's path, or by nothing
/// where no backup was made.
pub open spec fn command_for(
    old_path: Seq<char>,
    new_path: Option<Seq<char>>,
    template: Option<Seq<char>>,
) -> Option<Seq<Seq<char>>> {
    match template {
        None => None,
        Some(t) => Some(
            argv(
                t,
                old_path,
                match new_path {
                    None => Seq::empty(),
                    Some(p) => p,
                },
            ),
        ),
    }
}

pub open spec fn views(v: Seq<String>) -> Seq<Seq<char>> {
    v.map_values(|s: String| s@)
}

/// Whether `token` occurs in `t` at position `i`.
fn occurs_at(t: &str, i: usize, token: &str) -> (r: bool)
    requires
        i <= t@.len(),
    ensures
        r == starts_with(t@.skip(i as int), token@),
{
    let len = t.unicode_len();
    let tlen = token.unicode_len();
    if len - i < tlen {
        return false;
    }
    let mut j: usize = 0;
    while j < tlen
        invariant
            i + tlen <= len == t@.len(),
            tlen == token@.len(),
            j <= tlen,
            forall|k: int| 0 <= k < j ==> t@[i + k] == token@[k],
        decreases tlen - j,
    {
        if t.get_char(i + j) != token.get_char(j) {
            assert(t@.skip(i as int).subrange(0, tlen as int)[j as int] != token@[j as int]);
            return false;
        }
        j = j + 1;
    }
    assert(t@.skip(i as int).subrange(0, tlen as int) =~= token@);
    true
}

/// `template` with `OLD_FILENAME` replaced by `old_path` and `NEW_FILENAME`
/// by `new_path`.
pub fn substitute(template: &str, old_path: &str, new_path: &str) -> (r: String)
    ensures
        r@ == substituted(template@, old_path@, new_path@),
{
    let old_tok = "OLD_FILENAME";
    let new_tok = "NEW_FILENAME";
    proof {
        reveal_strlit("OLD_FILENAME");
        reveal_strlit("NEW_FILENAME");
    }
    assert(old_tok@ =~= old_token());
    assert(new_tok@ =~= new_token());
    let ghost t = template@;
    let ghost o = old_path@;
    let ghost n = new_path@;
    let len = template.unicode_len();
    let mut out = String::new();
    let mut i: usize = 0;
    assert(t.skip(0) =~= t);
    while i < len
        invariant
            len == t.len(),
            t == template@,
            o == old_path@,
            n == new_path@,
            old_tok@ == old_token(),
            new_tok@ == new_token(),
            i <= len,
            out@ + substituted(t.skip(i as int), o, n) == substituted(t, o, n),
        decreases len - i,
    {
        let ghost rest = t.skip(i as int);
        if occurs_at(template, i, old_tok) {
            assert(substituted(rest, o, n) == o + substituted(rest.skip(12), o, n));
            let ghost prev = out@;
            out.append(old_path);
            assert(rest.skip(12) =~= t.skip(i + 12));
            let ghost after = substituted(t.skip(i + 12), o, n);
            assert((prev + o) + after =~= prev + (o + after));
            assert(out@ + substituted(t.skip(i + 12), o, n) == substituted(t, o, n));
            i = i + 12;
        } else if occurs_at(template, i, new_tok) {
            assert(substituted(rest, o, n) == n + substituted(rest.skip(12), o, n));
            let ghost prev = out@;
            out.append(new_path);
            assert(rest.skip(12) =~= t.skip(i + 12));
            let ghost after = substituted(t.skip(i + 12), o, n);
            assert((prev + n) + after =~= prev + (n + after));
            assert(out@ + substituted(t.skip(i + 12), o, n) == substituted(t, o, n));
            i = i + 12;
        } else {
            let c = template.substring_char(i, i + 1);
            out.append(c);
            assert(c@ =~= seq![rest[0]]);
            assert(substituted(rest, o, n) == seq![rest[0]] + substituted(rest.skip(1), o, n));
            assert(rest.skip(1) =~= t.skip(i + 1));
            assert(out@ + substituted(t.skip(i + 1), o, n) == substituted(t, o, n));
            i = i + 1;
        }
    }
    assert(t.skip(len as int) =~= Seq::<char>::empty());
    assert(out@ =~= substituted(t, o, n));
    out
}

/// The argument vector of `template` with `OLD_FILENAME` replaced by
/// `old_path` and `NEW_FILENAME` by `new_path` in each word.
pub fn command_args(template: &str, old_path: &str, new_path: &str) -> (r: Vec<String>)
    ensures
        views(r@) == argv(template@, old_path@, new_path@),
{
    let ghost t = template@;
    let ghost o = old_path@;
    let ghost n = new_path@;
    let ghost f = |w: Seq<char>| substituted(w, o, n);
    let len = template.unicode_len();
    let mut out: Vec<String> = Vec::new();
    let mut cur = String::new();
    let mut i: usize = 0;
    assert(t.skip(0) =~= t);
    while i < len
        invariant
            len == t.len(),
            t == template@,
            o == old_path@,
            n == new_path@,
            f == (|w: Seq<char>| substituted(w, o, n)),
            i <= len,
            views(out@) + words_from(t.skip(i as int), cur@).map_values(f) == words(t).map_values(f),
        decreases len - i,
    {
        let ghost rest = t.skip(i as int);
        let ghost before = views(out@);
        let c = template.get_char(i);
        assert(rest[0] == c);
        assert(rest.skip(1) =~= t.skip(i + 1));
        if c == ' ' || c == '\t' {
            let ghost done = if cur@.len() > 0 { seq![cur@] } else { Seq::<Seq<char>>::empty() };
            let ghost tail = words_from(t.skip(i + 1), Seq::empty());
            assert(words_from(rest, cur@) == done + tail);
            assert((done + tail).map_values(f) =~= done.map_values(f) + tail.map_values(f));
            if cur.unicode_len() > 0 {
                let w = substitute(cur.as_str(), old_path, new_path);
                out.push(w);
                assert(views(out@) =~= before + done.map_values(f));
            } else {
                assert(done.map_values(f) =~= Seq::<Seq<char>>::empty());
                assert(views(out@) =~= before + done.map_values(f));
            }
            assert(views(out@) + tail.map_values(f) =~= before + (done + tail).map_values(f));
            cur = String::new();
        } else {
            let ghost old_cur = cur@;
            let one = template.substring_char(i, i + 1);
            assert(one@ =~= seq![c]);
            cur.append(one);
            assert(cur@ =~= old_cur.push(c));
            assert(words_from(rest, old_cur) == words_from(t.skip(i + 1), cur@));
        }
        i = i + 1;
    }
    let ghost last = words_from(t.skip(len as int), cur@);
    assert(t.skip(len as int) =~= Seq::<char>::empty());
    if cur.unicode_len() > 0 {
        let ghost before = views(out@);
        let w = substitute(cur.as_str(), old_path, new_path);
        out.push(w);
        assert(last =~= seq![cur@]);
        assert(views(out@) =~= before + last.map_values(f));
    } else {
        assert(last =~= Seq::<Seq<char>>::empty());
        assert(views(out@) =~= views(out@) + last.map_values(f));
    }
    assert(views(out@) =~= argv(t, o, n));
    out
}

/// The command to run for a change of the file at `old_path`, whose backup,
/// if one was made, is at `maybe_new_path`, as an argument vector: none where
/// no command template is given.
pub fn run_command_if_required(
    old_path: &str,
    maybe_new_path: &Option<String>,
    maybe_command: &Option<String>,
) -> (r: Option<Vec<String>>)
    ensures
        match r {
            None => command_for(
                old_path@,
                crate::naming::option_view(*maybe_new_path),
                crate::naming::option_view(*maybe_command),
            ) is None,
            Some(v) => command_for(
                old_path@,
                crate::naming::option_view(*maybe_new_path),
                crate::naming::option_view(*maybe_command),
            ) == Some(views(v@)),
        },
{
    match maybe_command {
        None => {
            assert(crate::naming::option_view(*maybe_command) is None);
            None
        },
        Some(template) => {
            let args = match maybe_new_path {
                None => command_args(template.as_str(), old_path, ""),
                Some(new_path) => command_args(template.as_str(), old_path, new_path.as_str()),
            };
            proof {
                reveal_strlit("");
                assert(""@ =~= Seq::<char>::empty());
            }
            Some(args)
        },
    }
}

} // verus!
