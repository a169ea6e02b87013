//! The directory chooser's "change directory" step: the lines it lists read
//! `KIND | PATH | NOTE`, and the one line picked decides where to go next.
use vstd::prelude::*;
use vstd::string::*;

verus! {

/// `sep` stands in `s` at position `k`.
pub open spec fn occurs_at(s: Seq<char>, sep: Seq<char>, k: int) -> bool {
    0 <= k && k + sep.len() <= s.len() && s.subrange(k, k + sep.len()) == sep
}

/// The first position at or after `k` where `sep` stands in `s`.
pub open spec fn find_from(s: Seq<char>, sep: Seq<char>, k: int) -> Option<int>
    decreases s.len() - k,
{
    if k < 0 || k >= s.len() || k + sep.len() > s.len() {
        None
    } else if occurs_at(s, sep, k) {
        Some(k)
    } else {
        find_from(s, sep, k + 1)
    }
}

/// `s` cut at the first `sep`: the part before it and the part after it.
pub open spec fn cut(s: Seq<char>, sep: Seq<char>) -> Option<(Seq<char>, Seq<char>)> {
    match find_from(s, sep, 0) {
        Some(k) => Some((s.take(k), s.skip(k + sep.len()))),
        None => None,
    }
}

/// The separator of the fields of a chooser line.
pub open spec fn field_sep() -> Seq<char> {
    " | "@
}

/// Whether `a` and `b` hold the same characters.
pub fn same_text(a: &str, b: &str) -> (r: bool)
    ensures
        r == (a@ == b@),
{
    let n = a.unicode_len();
    if n != b.unicode_len() {
        return false;
    }
    let mut i: usize = 0;
    while i < n
        invariant
            n == a@.len(),
            n == b@.len(),
            i <= n,
            forall|t: int| 0 <= t < i ==> a@[t] == b@[t],
        decreases n - i,
    {
        if a.get_char(i) != b.get_char(i) {
            return false;
        }
        i = i + 1;
    }
    assert(a@ =~= b@);
    true
}

/// Field `i` (0, 1 or 2) of a chooser line split at `" | "`, as `str::split`
/// gives them, where the line has that many fields.
pub open spec fn field(s: Seq<char>, i: nat) -> Option<Seq<char>>
    decreases i,
{
    if i == 0 {
        match cut(s, field_sep()) {
            Some((before, _)) => Some(before),
            None => Some(s),
        }
    } else {
        match cut(s, field_sep()) {
            Some((_, after)) => field(after, (i - 1) as nat),
            None => None,
        }
    }
}

/// A picked line that the chooser can act on without failing: a line that
/// is not a directory, or a directory line with at least three fields.
pub open spec fn usable_line(s: Seq<char>) -> bool {
    field(s, 0) != Some("DIR"@) || field(s, 2) is Some
}

/// Where "change directory" leads from `current`, given the picked lines:
/// the new directory, or the message why there is none.
pub open spec fn chosen_dir(picked: Seq<Seq<char>>, current: Seq<char>) -> Result<Seq<char>, Seq<char>> {
    if picked.len() == 0 {
        Err("no item selected"@)
    } else if picked.len() > 1 {
        Err("more than 1 item selected"@)
    } else if field(picked[0], 0) != Some("DIR"@) {
        Err(picked[0] + " is not a directory"@)
    } else if field(picked[0], 2) == Some("..parent"@) {
        Ok(field(picked[0], 1)->0)
    } else {
        Ok(current + "/"@ + field(picked[0], 1)->0)
    }
}

/// Cuts `s` at its first `sep`, as `str::split` does for its first piece.
pub fn cut_at(s: &str, sep: &str) -> (r: Option<(String, String)>)
    requires
        sep@.len() > 0,
    ensures
        match (r, cut(s@, sep@)) {
            (None, None) => true,
            (Some((a, b)), Some((sa, sb))) => a@ == sa && b@ == sb,
            _ => false,
        },
{
    let n = s.unicode_len();
    let m = sep.unicode_len();
    if m > n {
        return None;
    }
    let mut k: usize = 0;
    while k <= n - m
        invariant
            n == s@.len(),
            m == sep@.len(),
            m > 0,
            m <= n,
            k <= n,
            find_from(s@, sep@, 0) == find_from(s@, sep@, k as int),
        decreases n - k,
    {
        let mut j: usize = 0;
        let mut same = true;
        while j < m
            invariant
                n == s@.len(),
                m == sep@.len(),
                k + m <= n,
                j <= m,
                same == (forall|t: int| 0 <= t < j ==> s@[k + t] == sep@[t]),
            decreases m - j,
        {
            if s.get_char(k + j) != sep.get_char(j) {
                same = false;
            }
            j = j + 1;
        }
        if same {
            assert(s@.subrange(k as int, k + m) =~= sep@);
            assert(occurs_at(s@, sep@, k as int));
            let before = s.substring_char(0, k);
            let after = s.substring_char(k + m, n);
            let a = String::from_str(before);
            let b = String::from_str(after);
            assert(a@ =~= s@.take(k as int));
            assert(b@ =~= s@.skip(k + m));
            return Some((a, b));
        } else {
            proof {
                let t = choose|t: int| 0 <= t < m && s@[k + t] != sep@[t];
                assert(s@.subrange(k as int, k + m)[t] != sep@[t]);
            }
        }
        k = k + 1;
    }
    None
}

/// Field `i` (0, 1 or 2) of a chooser line, where it has that many.
pub fn line_field(s: &str, i: usize) -> (r: Option<String>)
    requires
        i <= 2,
    ensures
        match (r, field(s@, i as nat)) {
            (None, None) => true,
            (Some(a), Some(sa)) => a@ == sa,
            _ => false,
        },
    decreases i,
{
    proof {
        reveal_strlit(" | ");
    }
    if i == 0 {
        match cut_at(s, " | ") {
            Some((before, _)) => Some(before),
            None => Some(String::from_str(s)),
        }
    } else {
        match cut_at(s, " | ") {
            Some((_, after)) => line_field(after.as_str(), i - 1),
            None => None,
        }
    }
}

/// "Change directory" from `current` with the picked chooser lines:
/// exactly one line must be picked, and it must be a directory line; a
/// parent line leads to its path, any other directory line to that name
/// inside `current`.
pub fn chosen_directory(picked: &Vec<String>, current: &String) -> (r: Result<String, String>)
    requires
        picked.len() == 1 ==> usable_line(picked@[0]@),
    ensures
        match (r, chosen_dir(picked@.map_values(|p: String| p@), current@)) {
            (Ok(a), Ok(sa)) => a@ == sa,
            (Err(a), Err(sa)) => a@ == sa,
            _ => false,
        },
{
    let ghost views = picked@.map_values(|p: String| p@);
    if picked.len() == 0 {
        return Err(String::from_str("no item selected"));
    }
    if picked.len() > 1 {
        return Err(String::from_str("more than 1 item selected"));
    }
    assert(views[0] == picked@[0]@);
    let itemstr = picked[0].as_str();
    let kind = line_field(itemstr, 0);
    let is_dir = match &kind {
        Some(k) => same_text(k.as_str(), "DIR"),
        None => false,
    };
    if !is_dir {
        let mut m = picked[0].clone();
        m.append(" is not a directory");
        return Err(m);
    }
    let path = line_field(itemstr, 1);
    let note = line_field(itemstr, 2);
    proof {
        reveal_with_fuel(field, 3);
        if field(picked@[0]@, 2) is Some {
            assert(field(picked@[0]@, 1) is Some);
        }
    }
    let path = match path {
        Some(p) => p,
        None => String::new(),
    };
    let is_parent = match &note {
        Some(t) => same_text(t.as_str(), "..parent"),
        None => false,
    };
    if is_parent {
        Ok(path)
    } else {
        let mut d = current.clone();
        d.append("/");
        d.append(path.as_str());
        Ok(d)
    }
}

} // verus!
