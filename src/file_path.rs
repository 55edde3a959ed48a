use vstd::prelude::*;
use vstd::string::{StrSliceExecFns, StringExecFns};

verus! {

/// The offset of the last `c` in `s[0 .. i]`, or -1 where there is none.
pub open spec fn last_index(s: Seq<char>, c: char, i: int) -> int
    decreases i,
{
    if i <= 0 {
        -1
    } else if s[i - 1] == c {
        i - 1
    } else {
        last_index(s, c, i - 1)
    }
}

/// The last `/`-separated component of a path.
pub open spec fn file_name_of(p: Seq<char>) -> Seq<char> {
    p.subrange(last_index(p, '/', p.len() as int) + 1, p.len() as int)
}

/// An extension that names a container to be transcoded.
pub open spec fn is_container_ext(e: Seq<char>) -> bool {
    e == seq!['z', 'i', 'p'] || e == seq!['m', 'p', '4']
}

/// The title of a path: its file name, with the extension taken off where the
/// name holds exactly one `.` and the extension is `zip` or `mp4`.
pub open spec fn cleaned(p: Seq<char>) -> Seq<char> {
    let f = file_name_of(p);
    let d = last_index(f, '.', f.len() as int);
    if d >= 0 && last_index(f, '.', d) == -1 && is_container_ext(f.subrange(d + 1, f.len() as int)) {
        f.subrange(0, d)
    } else {
        f
    }
}

/// The last `c` in `s[0 .. end]`.
fn rfind_char(s: &str, c: char, end: usize) -> (r: Option<usize>)
    requires
        end <= s@.len(),
    ensures
        match r {
            Some(i) => i < end && last_index(s@, c, end as int) == i,
            None => last_index(s@, c, end as int) == -1,
        },
{
    let mut i = end;
    while i > 0
        invariant
            i <= end <= s@.len(),
            last_index(s@, c, end as int) == last_index(s@, c, i as int),
        decreases i,
    {
        if s.get_char(i - 1) == c {
            return Some(i - 1);
        }
        i = i - 1;
    }
    None
}

/// Whether `s[from .. to]` is `zip` or `mp4`.
fn container_ext_at(s: &str, from: usize, to: usize) -> (r: bool)
    requires
        from <= to <= s@.len(),
    ensures
        r == is_container_ext(s@.subrange(from as int, to as int)),
{
    if to - from != 3 {
        assert(seq!['z', 'i', 'p'].len() == 3 && seq!['m', 'p', '4'].len() == 3);
        return false;
    }
    let a = s.get_char(from);
    let b = s.get_char(from + 1);
    let c = s.get_char(from + 2);
    let ghost ext = s@.subrange(from as int, to as int);
    assert(ext[0] == a && ext[1] == b && ext[2] == c);
    let zip = a == 'z' && b == 'i' && c == 'p';
    let mp4 = a == 'm' && b == 'p' && c == '4';
    assert(zip <==> ext =~= seq!['z', 'i', 'p']);
    assert(mp4 <==> ext =~= seq!['m', 'p', '4']);
    zip || mp4
}

/// The title under which a transcoded stream of `path` is written: the file
/// name, without a `.zip` or `.mp4` extension.
pub fn clean_file_path(path: &str) -> (r: String)
    ensures
        r@ == cleaned(path@),
{
    let n = path.unicode_len();
    let start = match rfind_char(path, '/', n) {
        Some(i) => i + 1,
        None => 0,
    };
    let file_name = path.substring_char(start, n);
    assert(file_name@ == file_name_of(path@));
    let m = file_name.unicode_len();
    match rfind_char(file_name, '.', m) {
        Some(d) => {
            if rfind_char(file_name, '.', d).is_none() && container_ext_at(file_name, d + 1, m) {
                return String::from_str(file_name.substring_char(0, d));
            }
        },
        None => {},
    }
    String::from_str(file_name)
}

} // verus!
