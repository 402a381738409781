use vstd::prelude::*;

use crate::error::InstallError;

verus! {

/// A path separator on either of the common conventions.
pub open spec fn is_sep(c: char) -> bool {
    c == '/' || c == '\\'
}

/// A `..` segment starts at position `i` of `s`.
pub open spec fn parent_segment_at(s: Seq<char>, i: int) -> bool {
    &&& 0 <= i
    &&& i + 1 < s.len()
    &&& s[i] == '.'
    &&& s[i + 1] == '.'
    &&& (i == 0 || is_sep(s[i - 1]))
    &&& (i + 2 == s.len() || is_sep(s[i + 2]))
}

/// A non-empty relative name with no drive or stream marker and no `..` segment.
pub open spec fn is_contained_name(s: Seq<char>) -> bool {
    &&& s.len() > 0
    &&& !is_sep(s[0])
    &&& forall|i: int| 0 <= i < s.len() ==> #[trigger] s[i] != ':'
    &&& forall|i: int| !#[trigger] parent_segment_at(s, i)
}

/// `base`, a forward slash, then `rel`.
pub open spec fn join_path(base: Seq<char>, rel: Seq<char>) -> Seq<char> {
    base + seq!['/'] + rel
}

fn is_sep_exec(c: char) -> (r: bool)
    ensures
        r == is_sep(c),
{
    c == '/' || c == '\\'
}

/// Joins a relative name onto a directory with a forward slash.
pub fn join(base: &str, rel: &str) -> (r: String)
    ensures
        r@ == join_path(base@, rel@),
{
    let mut r = String::from_str(base);
    let slash = "/";
    proof {
        reveal_strlit("/");
    }
    r.append(slash);
    r.append(rel);
    r
}

/// Whether an archive entry name stays inside the directory it is extracted to.
pub fn is_safe_entry_name(name: &str) -> (r: bool)
    ensures
        r == is_contained_name(name@),
{
    let n = name.unicode_len();
    if n == 0 {
        return false;
    }
    if is_sep_exec(name.get_char(0)) {
        return false;
    }
    let mut i: usize = 0;
    while i < n
        invariant
            n == name@.len(),
            n > 0,
            !is_sep(name@[0]),
            i <= n,
            forall|j: int| 0 <= j < i ==> #[trigger] name@[j] != ':',
            forall|j: int| j < i ==> !#[trigger] parent_segment_at(name@, j),
        decreases n - i,
    {
        let c = name.get_char(i);
        if c == ':' {
            return false;
        }
        if c == '.' && i + 1 < n && name.get_char(i + 1) == '.' {
            let before = i == 0 || is_sep_exec(name.get_char(i - 1));
            let after = i + 2 == n || is_sep_exec(name.get_char(i + 2));
            if before && after {
                assert(parent_segment_at(name@, i as int));
                return false;
            }
        }
        i += 1;
    }
    assert forall|j: int| !#[trigger] parent_segment_at(name@, j) by {
        if j >= n {
            assert(!parent_segment_at(name@, j));
        }
    }
    true
}

/// Where an archive entry is written: inside `extract_dir`, or refused.
pub fn entry_destination(extract_dir: &str, name: &str) -> (r: Result<String, InstallError>)
    ensures
        r is Ok <==> is_contained_name(name@),
        r matches Ok(p) ==> p@ == join_path(extract_dir@, name@),
        r matches Err(e) ==> (e matches InstallError::UnsafeEntry { name: n } && n@ == name@),
{
    if is_safe_entry_name(name) {
        Ok(join(extract_dir, name))
    } else {
        Err(InstallError::UnsafeEntry { name: String::from_str(name) })
    }
}

/// An accepted entry lands strictly below the extraction directory: its path
/// is the directory, a separator, and a relative remainder that neither
/// starts at a root or drive nor climbs with a `..` segment.
pub proof fn lemma_entry_contained(dir: Seq<char>, name: Seq<char>)
    requires
        is_contained_name(name),
    ensures
        join_path(dir, name).subrange(0, dir.len() as int) == dir,
        join_path(dir, name)[dir.len() as int] == '/',
        join_path(dir, name).subrange(dir.len() as int + 1, join_path(dir, name).len() as int) == name,
        !is_sep(name[0]),
        forall|i: int| 0 <= i < name.len() ==> #[trigger] name[i] != ':',
        forall|i: int| !#[trigger] parent_segment_at(name, i),
{
    let p = join_path(dir, name);
    assert(p.subrange(0, dir.len() as int) =~= dir);
    assert(p.subrange(dir.len() as int + 1, p.len() as int) =~= name);
}

} // verus!
