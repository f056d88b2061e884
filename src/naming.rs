use vstd::prelude::*;

use crate::timestamp::{is_digit, lemma_padded_shape, local_now, padded, LocalTimestamp};

verus! {

/// The final segment of a path: everything after its last `/`.
pub open spec fn last_segment(p: Seq<char>) -> Seq<char>
    decreases p.len(),
{
    if p.len() == 0 {
        p
    } else if p.last() == '/' {
        Seq::empty()
    } else {
        last_segment(p.drop_last()).push(p.last())
    }
}

/// The file name of a path: its final segment, unless that segment is empty
/// (the root, an empty path, a trailing separator) or names `.` or `..`.
pub open spec fn file_name(p: Seq<char>) -> Option<Seq<char>> {
    let s = last_segment(p);
    if s.len() == 0 || s == seq!['.'] || s == seq!['.', '.'] {
        None
    } else {
        Some(s)
    }
}

/// A file name placed inside a directory, with one separator between them.
pub open spec fn joined(dir: Seq<char>, name: Seq<char>) -> Seq<char> {
    if dir.len() == 0 || dir.last() == '/' {
        dir + name
    } else {
        dir + seq!['/'] + name
    }
}

/// The backup name of a file at a given time: `name.YYYY-MM-DD_HH_MM_SS`.
pub open spec fn backup_name(name: Seq<char>, at: LocalTimestamp) -> Seq<char> {
    name + seq!['.'] + at.text()
}

/// Where the backup of the file at `path` goes at a given time, if anywhere.
pub open spec fn backup_target(
    path: Seq<char>,
    backup_dir: Option<Seq<char>>,
    at: LocalTimestamp,
) -> Option<Seq<char>> {
    match backup_dir {
        None => None,
        Some(dir) => match file_name(path) {
            None => None,
            Some(name) => Some(joined(dir, backup_name(name, at))),
        },
    }
}

/// The shape `DDDD-DD-DD_DD_DD_DD`, each `D` a decimal digit.
pub open spec fn is_stamp_shape(s: Seq<char>) -> bool {
    &&& s.len() == 19
    &&& s[4] == '-' && s[7] == '-'
    &&& s[10] == '_' && s[13] == '_' && s[16] == '_'
    &&& forall|i: int|
        0 <= i < 19 && i != 4 && i != 7 && i != 10 && i != 13 && i != 16 ==> is_digit(
            #[trigger] s[i],
        )
}

pub open spec fn option_view(o: Option<String>) -> Option<Seq<char>> {
    match o {
        None => None,
        Some(s) => Some(s@),
    }
}

proof fn lemma_last_segment_from(p: Seq<char>, k: int)
    requires
        0 <= k <= p.len(),
        k == 0 || p[k - 1] == '/',
        forall|j: int| k <= j < p.len() ==> p[j] != '/',
    ensures
        last_segment(p) == p.subrange(k, p.len() as int),
    decreases p.len(),
{
    if p.len() == k {
        if k > 0 {
            assert(p.last() == '/');
        }
        assert(p.subrange(k, p.len() as int) =~= Seq::<char>::empty());
    } else {
        let q = p.drop_last();
        assert(forall|j: int| k <= j < q.len() ==> q[j] == p[j]);
        lemma_last_segment_from(q, k);
        assert(p.subrange(k, p.len() as int) =~= q.subrange(k, q.len() as int).push(p.last()));
    }
}

/// The file name of `path`, if it has one.
pub fn file_name_of(path: &str) -> (r: Option<String>)
    ensures
        option_view(r) == file_name(path@),
{
    let len = path.unicode_len();
    let mut k: usize = len;
    while k > 0 && path.get_char(k - 1) != '/'
        invariant
            k <= len == path@.len(),
            forall|j: int| k <= j < path@.len() ==> path@[j] != '/',
        decreases k,
    {
        k = k - 1;
    }
    proof {
        lemma_last_segment_from(path@, k as int);
    }
    let seg = path.substring_char(k, len);
    let n = len - k;
    let dot = n == 1 && seg.get_char(0) == '.';
    let dots = n == 2 && seg.get_char(0) == '.' && seg.get_char(1) == '.';
    if n == 0 || dot || dots {
        proof {
            if dot {
                assert(seg@ =~= seq!['.']);
            } else if dots {
                assert(seg@ =~= seq!['.', '.']);
            }
        }
        None
    } else {
        proof {
            if n == 1 {
                assert(seg@[0] != '.');
                assert(seg@ != seq!['.']);
            }
            if n == 2 {
                assert(!(seg@[0] == '.' && seg@[1] == '.'));
                assert(seg@ != seq!['.', '.']);
            }
        }
        Some(String::from_str(seg))
    }
}

/// `name` placed inside the directory `dir`.
pub fn join_path(dir: &str, name: &str) -> (r: String)
    ensures
        r@ == joined(dir@, name@),
{
    let len = dir.unicode_len();
    let mut r = String::from_str(dir);
    if len > 0 && dir.get_char(len - 1) != '/' {
        r.append("/");
        proof {
            reveal_strlit("/");
        }
    }
    r.append(name);
    r
}

/// The backup name of `base_file_name` at the time `at`.
pub fn backup_file_name_at(base_file_name: &str, at: &LocalTimestamp) -> (r: String)
    ensures
        r@ == backup_name(base_file_name@, *at),
{
    let mut r = String::from_str(base_file_name);
    r.append(".");
    let stamp = at.to_text();
    r.append(stamp.as_str());
    proof {
        reveal_strlit(".");
    }
    assert(r@ =~= backup_name(base_file_name@, *at));
    r
}

/// The backup name of `base_file_name` at the current local time.
pub fn construct_backup_file_name(base_file_name: &str) -> (r: String)
    ensures
        exists|at: LocalTimestamp| at.in_range() && r@ == backup_name(base_file_name@, at),
{
    let now = local_now();
    backup_file_name_at(base_file_name, &now)
}

/// Where the backup of the file at `path` goes at the time `at`: nowhere
/// without a backup directory, nowhere for a path without a file name, and
/// otherwise the file's backup name inside the backup directory.
pub fn backup_target_at(path: &str, backup_dir: &Option<String>, at: &LocalTimestamp) -> (r:
    Option<String>)
    ensures
        option_view(r) == backup_target(path@, option_view(*backup_dir), *at),
{
    match backup_dir {
        None => None,
        Some(dir) => match file_name_of(path) {
            None => None,
            Some(name) => {
                let file = backup_file_name_at(name.as_str(), at);
                Some(join_path(dir.as_str(), file.as_str()))
            },
        },
    }
}

/// Where the backup of the file at `path` goes at the current local time.
pub fn backup_destination(path: &str, backup_dir: &Option<String>) -> (r: Option<String>)
    ensures
        exists|at: LocalTimestamp|
            at.in_range() && option_view(r) == backup_target(
                path@,
                option_view(*backup_dir),
                at,
            ),
{
    let now = local_now();
    backup_target_at(path, backup_dir, &now)
}

/// A backup name is the file's name, a dot, and a stamp of four digits, a
/// dash, two digits, a dash, two digits, an underscore, two digits, an
/// underscore, two digits, an underscore and two digits, for every time whose
/// year has four digits.
pub proof fn lemma_backup_name_shape(name: Seq<char>, at: LocalTimestamp)
    requires
        at.in_range(),
        0 <= at.year <= 9999,
    ensures
        backup_name(name, at).len() == name.len() + 20,
        backup_name(name, at).subrange(0, name.len() as int) == name,
        backup_name(name, at)[name.len() as int] == '.',
        is_stamp_shape(backup_name(name, at).subrange(name.len() as int + 1, name.len() as int + 20)),
{
    lemma_padded_shape(at.year as nat, 4);
    lemma_padded_shape(at.month as nat, 2);
    lemma_padded_shape(at.day as nat, 2);
    lemma_padded_shape(at.hour as nat, 2);
    lemma_padded_shape(at.minute as nat, 2);
    lemma_padded_shape(at.second as nat, 2);
    let s = at.text();
    let y = padded(at.year as nat, 4);
    let mo = padded(at.month as nat, 2);
    let d = padded(at.day as nat, 2);
    let h = padded(at.hour as nat, 2);
    let mi = padded(at.minute as nat, 2);
    let se = padded(at.second as nat, 2);
    assert(s =~= y + seq!['-'] + mo + seq!['-'] + d + seq!['_'] + h + seq!['_'] + mi + seq!['_']
        + se);
    assert(s.len() == 19);
    assert forall|i: int|
        0 <= i < 19 && i != 4 && i != 7 && i != 10 && i != 13 && i != 16 implies is_digit(
            #[trigger] s[i],
        ) by {
        if i < 4 {
            assert(s[i] == y[i]);
        } else if i < 7 {
            assert(s[i] == mo[i - 5]);
        } else if i < 10 {
            assert(s[i] == d[i - 8]);
        } else if i < 13 {
            assert(s[i] == h[i - 11]);
        } else if i < 16 {
            assert(s[i] == mi[i - 14]);
        } else {
            assert(s[i] == se[i - 17]);
        }
    }
    let b = backup_name(name, at);
    assert(b.subrange(0, name.len() as int) =~= name);
    assert(b.subrange(name.len() as int + 1, name.len() as int + 20) =~= s);
}

} // verus!
